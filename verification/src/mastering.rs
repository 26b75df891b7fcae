//! Planning of a mastering run: for every song, in list order, the request
//! that the encoder will get, and the detection of songs that would be
//! written to the same place.

use vstd::prelude::*;
use crate::model::{resolve_default, resolved, Album, AlbumView, Song, SongView};

verus! {

/// What the encoder is asked to do for one song.
#[derive(Debug, PartialEq, Eq)]
pub struct TranscodeRequest {
    pub source_path: String,
    pub dest_path: String,
    pub codec: String,
    pub arguments: String,
}

/// One song of a run: whose it is, the request for the encoder, and the
/// metadata that the finished file is to carry.
#[derive(Debug, PartialEq, Eq)]
pub struct Job {
    pub album_id: u64,
    pub song_id: u64,
    pub request: TranscodeRequest,
    pub artist: String,
    pub genre: String,
    pub year: String,
    pub copyright: String,
    pub album_art_path: String,
}

/// Mathematical value of a [`TranscodeRequest`].
pub struct RequestView {
    pub source_path: Seq<char>,
    pub dest_path: Seq<char>,
    pub codec: Seq<char>,
    pub arguments: Seq<char>,
}

/// Mathematical value of a [`Job`].
pub struct JobView {
    pub album_id: u64,
    pub song_id: u64,
    pub request: RequestView,
    pub artist: Seq<char>,
    pub genre: Seq<char>,
    pub year: Seq<char>,
    pub copyright: Seq<char>,
    pub album_art_path: Seq<char>,
}

impl View for TranscodeRequest {
    type V = RequestView;

    open spec fn view(&self) -> RequestView {
        RequestView {
            source_path: self.source_path@,
            dest_path: self.dest_path@,
            codec: self.codec@,
            arguments: self.arguments@,
        }
    }
}

impl View for Job {
    type V = JobView;

    open spec fn view(&self) -> JobView {
        JobView {
            album_id: self.album_id,
            song_id: self.song_id,
            request: self.request@,
            artist: self.artist@,
            genre: self.genre@,
            year: self.year@,
            copyright: self.copyright@,
            album_art_path: self.album_art_path@,
        }
    }
}

impl DeepView for Job {
    type V = JobView;

    open spec fn deep_view(&self) -> JobView {
        self@
    }
}

impl Clone for TranscodeRequest {
    fn clone(&self) -> (copy: TranscodeRequest)
        ensures
            copy@ == self@,
    {
        TranscodeRequest {
            source_path: self.source_path.clone(),
            dest_path: self.dest_path.clone(),
            codec: self.codec.clone(),
            arguments: self.arguments.clone(),
        }
    }
}

/// The path of `file` in the directory `directory`: the two joined by one
/// `/`, or `file` alone where no directory is given.
pub open spec fn joined_path(directory: Seq<char>, file: Seq<char>) -> Seq<char> {
    if directory.len() == 0 {
        file
    } else if directory.last() == '/' {
        directory + file
    } else {
        directory + seq!['/'] + file
    }
}

/// The argument string for the encoder: the album's arguments, then the
/// song's, with one space between them where both are given.
pub open spec fn joined_arguments(album: Seq<char>, song: Seq<char>) -> Seq<char> {
    if album.len() == 0 {
        song
    } else if song.len() == 0 {
        album
    } else {
        album + seq![' '] + song
    }
}

/// The job for `song` of `album`. Artist, genre, year and copyright are
/// the song's where it has them and the album's otherwise; the file goes
/// to the album's output directory under the song's new name.
pub open spec fn job_for(album: AlbumView, song: SongView) -> JobView {
    JobView {
        album_id: album.meta.id,
        song_id: song.meta.id,
        request: RequestView {
            source_path: song.meta.source_path,
            dest_path: joined_path(album.meta.dest_path, song.meta.dest_path),
            codec: song.codec,
            arguments: joined_arguments(album.meta.arguments, song.meta.arguments),
        },
        artist: resolved(song.meta.artist, album.meta.artist),
        genre: resolved(song.meta.genre, album.meta.genre),
        year: resolved(song.meta.year, album.meta.year),
        copyright: resolved(song.meta.copyright, album.meta.copyright),
        album_art_path: album.album_art_path,
    }
}

/// The jobs of one album, in the order of its songs.
pub open spec fn album_jobs(album: AlbumView) -> Seq<JobView> {
    Seq::new(album.songs.len(), |j: int| job_for(album, album.songs[j]))
}

/// The jobs of a run: those of each album, in the order of the albums.
pub open spec fn plan_spec(albums: Seq<AlbumView>) -> Seq<JobView>
    decreases albums.len(),
{
    if albums.len() == 0 {
        Seq::empty()
    } else {
        plan_spec(albums.drop_last()) + album_jobs(albums.last())
    }
}

/// The number of songs in a list of albums.
pub open spec fn song_count(albums: Seq<AlbumView>) -> nat
    decreases albums.len(),
{
    if albums.len() == 0 {
        0
    } else {
        song_count(albums.drop_last()) + albums.last().songs.len()
    }
}

/// Whether job `k` would be written to the same place as another job.
pub open spec fn collides(jobs: Seq<JobView>, k: int) -> bool {
    exists|j: int|
        0 <= j < jobs.len() && j != k && (#[trigger] jobs[j]).request.dest_path
            == jobs[k].request.dest_path
}

/// A run has exactly one job for each song.
pub proof fn lemma_one_job_per_song(albums: Seq<AlbumView>)
    ensures
        plan_spec(albums).len() == song_count(albums),
    decreases albums.len(),
{
    if albums.len() > 0 {
        lemma_one_job_per_song(albums.drop_last());
    }
}

/// Joins a directory and a file name.
pub fn join_path(directory: &str, file: &str) -> (path: String)
    ensures
        path@ == joined_path(directory@, file@),
{
    let dir = crate::text::chars_of(directory);
    if dir.len() == 0 {
        return file.to_owned();
    }
    let mut path = directory.to_owned();
    if dir[dir.len() - 1] != '/' {
        path.push('/');
    }
    path.append(file);
    path
}

/// Joins the arguments of an album and of a song.
pub fn join_arguments(album: &str, song: &str) -> (arguments: String)
    ensures
        arguments@ == joined_arguments(album@, song@),
{
    if album.is_empty() {
        song.to_owned()
    } else if song.is_empty() {
        album.to_owned()
    } else {
        let mut arguments = album.to_owned();
        arguments.push(' ');
        arguments.append(song);
        arguments
    }
}

/// The job for `song` of `album`.
pub fn job_of(album: &Album, song: &Song) -> (job: Job)
    ensures
        job@ == job_for(album@, song@),
{
    Job {
        album_id: album.meta.id,
        song_id: song.meta.id,
        request: TranscodeRequest {
            source_path: song.meta.source_path.clone(),
            dest_path: join_path(album.meta.dest_path.as_str(), song.meta.dest_path.as_str()),
            codec: song.codec.clone(),
            arguments: join_arguments(
                album.meta.arguments.as_str(),
                song.meta.arguments.as_str(),
            ),
        },
        artist: resolve_default(song.meta.artist.as_str(), album.meta.artist.as_str()),
        genre: resolve_default(song.meta.genre.as_str(), album.meta.genre.as_str()),
        year: resolve_default(song.meta.year.as_str(), album.meta.year.as_str()),
        copyright: resolve_default(song.meta.copyright.as_str(), album.meta.copyright.as_str()),
        album_art_path: album.album_art_path.clone(),
    }
}

/// The jobs of a run over `albums`: one for each song, album by album and
/// song by song in list order.
pub fn plan(albums: &Vec<Album>) -> (jobs: Vec<Job>)
    ensures
        jobs.deep_view() == plan_spec(albums.deep_view()),
{
    let ghost all = albums.deep_view();
    let mut jobs: Vec<Job> = Vec::new();
    let mut i: usize = 0;
    assert(jobs.deep_view() =~= plan_spec(all.take(0)));
    while i < albums.len()
        invariant
            i <= albums.len(),
            all == albums.deep_view(),
            jobs.deep_view() == plan_spec(all.take(i as int)),
        decreases albums.len() - i,
    {
        let album = &albums[i];
        let ghost done = jobs.deep_view();
        let mut j: usize = 0;
        assert(jobs.deep_view() =~= done + album_jobs(album@).take(0));
        while j < album.songs.len()
            invariant
                j <= album.songs.len(),
                jobs.deep_view() == done + album_jobs(album@).take(j as int),
            decreases album.songs.len() - j,
        {
            let job = job_of(album, &album.songs[j]);
            let ghost before = jobs.deep_view();
            jobs.push(job);
            j += 1;
            assert(jobs.deep_view() =~= before.push(job@));
            assert(album@.songs[j - 1] == album.songs[j - 1]@);
            assert(jobs.deep_view() =~= done + album_jobs(album@).take(j as int));
        }
        i += 1;
        proof {
            assert(album@.songs.len() == album.songs.len());
            assert(album_jobs(album@).take(j as int) =~= album_jobs(album@));
            assert(all.take(i as int).drop_last() =~= all.take(i - 1));
            assert(all.take(i as int).last() == album@);
        }
    }
    assert(all.take(i as int) =~= all);
    jobs
}

/// Whether job `k` would be written to the same place as another job.
pub fn has_collision(jobs: &Vec<Job>, k: usize) -> (yes: bool)
    requires
        k < jobs.len(),
    ensures
        yes == collides(jobs.deep_view(), k as int),
{
    let ghost views = jobs.deep_view();
    let mut j: usize = 0;
    while j < jobs.len()
        invariant
            j <= jobs.len(),
            k < jobs.len(),
            views == jobs.deep_view(),
            forall|m: int|
                0 <= m < j && m != k ==> (#[trigger] views[m]).request.dest_path
                    != views[k as int].request.dest_path,
        decreases jobs.len() - j,
    {
        if j != k && jobs[j].request.dest_path == jobs[k].request.dest_path {
            assert(views[j as int].request.dest_path == views[k as int].request.dest_path);
            return true;
        }
        j += 1;
    }
    false
}

/// For each job, whether it collides with another.
pub fn collisions(jobs: &Vec<Job>) -> (flags: Vec<bool>)
    ensures
        flags.len() == jobs.len(),
        forall|k: int| 0 <= k < jobs.len() ==> flags[k] == collides(jobs.deep_view(), k),
{
    let mut flags: Vec<bool> = Vec::new();
    let mut k: usize = 0;
    while k < jobs.len()
        invariant
            k <= jobs.len(),
            flags.len() == k,
            forall|m: int| 0 <= m < k ==> flags[m] == collides(jobs.deep_view(), m),
        decreases jobs.len() - k,
    {
        flags.push(has_collision(jobs, k));
        k += 1;
    }
    flags
}

} // verus!
