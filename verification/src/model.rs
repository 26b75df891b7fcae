//! The metadata model: albums, their songs, and the two policies that the
//! rest of the library shares, identifier assignment and default
//! resolution.

use vstd::prelude::*;

verus! {

/// Descriptive fields carried by albums and songs alike. An `id` of zero
/// means that no identifier has been assigned yet.
#[derive(Debug, PartialEq, Eq)]
pub struct Metadata {
    pub id: u64,
    pub title: String,
    pub artist: String,
    pub genre: String,
    pub year: String,
    pub comment: String,
    pub arguments: String,
    pub copyright: String,
    pub source_path: String,
    pub dest_path: String,
}

/// One track of an album.
#[derive(Debug, PartialEq, Eq)]
pub struct Song {
    pub meta: Metadata,
    pub album: String,
    pub track_number: u64,
    pub codec: String,
}

/// An album together with the songs it owns, in track order.
#[derive(Debug, PartialEq, Eq)]
pub struct Album {
    pub meta: Metadata,
    pub album_art_path: String,
    pub songs: Vec<Song>,
}

/// Mathematical value of a [`Metadata`].
pub struct MetadataView {
    pub id: u64,
    pub title: Seq<char>,
    pub artist: Seq<char>,
    pub genre: Seq<char>,
    pub year: Seq<char>,
    pub comment: Seq<char>,
    pub arguments: Seq<char>,
    pub copyright: Seq<char>,
    pub source_path: Seq<char>,
    pub dest_path: Seq<char>,
}

/// Mathematical value of a [`Song`].
pub struct SongView {
    pub meta: MetadataView,
    pub album: Seq<char>,
    pub track_number: u64,
    pub codec: Seq<char>,
}

/// Mathematical value of an [`Album`].
pub struct AlbumView {
    pub meta: MetadataView,
    pub album_art_path: Seq<char>,
    pub songs: Seq<SongView>,
}

impl View for Metadata {
    type V = MetadataView;

    open spec fn view(&self) -> MetadataView {
        MetadataView {
            id: self.id,
            title: self.title@,
            artist: self.artist@,
            genre: self.genre@,
            year: self.year@,
            comment: self.comment@,
            arguments: self.arguments@,
            copyright: self.copyright@,
            source_path: self.source_path@,
            dest_path: self.dest_path@,
        }
    }
}

impl DeepView for Metadata {
    type V = MetadataView;

    open spec fn deep_view(&self) -> MetadataView {
        self@
    }
}

impl View for Song {
    type V = SongView;

    open spec fn view(&self) -> SongView {
        SongView {
            meta: self.meta@,
            album: self.album@,
            track_number: self.track_number,
            codec: self.codec@,
        }
    }
}

impl DeepView for Song {
    type V = SongView;

    open spec fn deep_view(&self) -> SongView {
        self@
    }
}

impl View for Album {
    type V = AlbumView;

    open spec fn view(&self) -> AlbumView {
        AlbumView {
            meta: self.meta@,
            album_art_path: self.album_art_path@,
            songs: self.songs.deep_view(),
        }
    }
}

impl DeepView for Album {
    type V = AlbumView;

    open spec fn deep_view(&self) -> AlbumView {
        self@
    }
}

impl MetadataView {
    /// Metadata with every text empty and no identifier.
    pub open spec fn blank() -> MetadataView {
        MetadataView {
            id: 0,
            title: Seq::empty(),
            artist: Seq::empty(),
            genre: Seq::empty(),
            year: Seq::empty(),
            comment: Seq::empty(),
            arguments: Seq::empty(),
            copyright: Seq::empty(),
            source_path: Seq::empty(),
            dest_path: Seq::empty(),
        }
    }

    /// The value after identifier assignment at `position`: an unassigned
    /// identifier becomes `position + 1`, an assigned one stays.
    pub open spec fn with_id_assigned(self, position: nat) -> MetadataView {
        if self.id == 0 {
            MetadataView { id: (position + 1) as u64, ..self }
        } else {
            self
        }
    }
}

impl SongView {
    /// A song with every text empty, no identifier, and track number one.
    pub open spec fn blank() -> SongView {
        SongView {
            meta: MetadataView::blank(),
            album: Seq::empty(),
            track_number: 1,
            codec: Seq::empty(),
        }
    }

    /// Track numbers start at one.
    pub open spec fn valid(self) -> bool {
        self.track_number >= 1
    }

    pub open spec fn with_id_assigned(self, position: nat) -> SongView {
        SongView { meta: self.meta.with_id_assigned(position), ..self }
    }
}

impl AlbumView {
    /// An album with every text empty, no identifier and no songs.
    pub open spec fn blank() -> AlbumView {
        AlbumView {
            meta: MetadataView::blank(),
            album_art_path: Seq::empty(),
            songs: Seq::empty(),
        }
    }

    /// An album is valid when each of its songs is.
    pub open spec fn valid(self) -> bool {
        forall|j: int| 0 <= j < self.songs.len() ==> (#[trigger] self.songs[j]).valid()
    }

    pub open spec fn with_id_assigned(self, position: nat) -> AlbumView {
        AlbumView { meta: self.meta.with_id_assigned(position), ..self }
    }
}

/// Whether every album of a list is valid.
pub open spec fn all_valid(albums: Seq<AlbumView>) -> bool {
    forall|i: int| 0 <= i < albums.len() ==> (#[trigger] albums[i]).valid()
}

/// The text a song shows for a field it may inherit from its album: its
/// own value where it has one, the album's otherwise.
pub open spec fn resolved(own: Seq<char>, inherited: Seq<char>) -> Seq<char> {
    if own.len() > 0 {
        own
    } else {
        inherited
    }
}

/// Returns `own` unless it is empty, and `inherited` then.
pub fn resolve_default(own: &str, inherited: &str) -> (chosen: String)
    ensures
        chosen@ == resolved(own@, inherited@),
{
    if own.is_empty() {
        inherited.to_owned()
    } else {
        own.to_owned()
    }
}

impl Metadata {
    /// Metadata with every text empty and no identifier.
    pub fn new() -> (meta: Metadata)
        ensures
            meta@ == MetadataView::blank(),
    {
        Metadata {
            id: 0,
            title: String::new(),
            artist: String::new(),
            genre: String::new(),
            year: String::new(),
            comment: String::new(),
            arguments: String::new(),
            copyright: String::new(),
            source_path: String::new(),
            dest_path: String::new(),
        }
    }

    /// Gives the entity the identifier `position + 1` if it has none yet.
    /// An identifier that is already assigned is never changed, so a second
    /// call has no further effect.
    pub fn assign_id_if_missing(&mut self, position: usize)
        requires
            position < usize::MAX,
        ensures
            final(self)@ == old(self)@.with_id_assigned(position as nat),
            final(self).id != 0,
            final(self)@.with_id_assigned(position as nat) == final(self)@,
    {
        if self.id == 0 {
            self.id = position as u64 + 1;
        }
    }
}

impl Clone for Metadata {
    fn clone(&self) -> (copy: Metadata)
        ensures
            copy@ == self@,
    {
        Metadata {
            id: self.id,
            title: self.title.clone(),
            artist: self.artist.clone(),
            genre: self.genre.clone(),
            year: self.year.clone(),
            comment: self.comment.clone(),
            arguments: self.arguments.clone(),
            copyright: self.copyright.clone(),
            source_path: self.source_path.clone(),
            dest_path: self.dest_path.clone(),
        }
    }
}

impl Song {
    /// A song with every text empty, no identifier, and track number one.
    pub fn new() -> (song: Song)
        ensures
            song@ == SongView::blank(),
    {
        Song { meta: Metadata::new(), album: String::new(), track_number: 1, codec: String::new() }
    }

    /// Gives the song the identifier `position + 1` if it has none yet.
    pub fn assign_id_if_missing(&mut self, position: usize)
        requires
            position < usize::MAX,
        ensures
            final(self)@ == old(self)@.with_id_assigned(position as nat),
            final(self).meta.id != 0,
    {
        self.meta.assign_id_if_missing(position);
    }
}

impl Clone for Song {
    fn clone(&self) -> (copy: Song)
        ensures
            copy@ == self@,
    {
        Song {
            meta: self.meta.clone(),
            album: self.album.clone(),
            track_number: self.track_number,
            codec: self.codec.clone(),
        }
    }
}

impl Album {
    /// An album with every text empty, no identifier and no songs.
    pub fn new() -> (album: Album)
        ensures
            album@ == AlbumView::blank(),
    {
        let album = Album {
            meta: Metadata::new(),
            album_art_path: String::new(),
            songs: Vec::new(),
        };
        assert(album.songs.deep_view() =~= Seq::empty());
        album
    }

    /// Gives the album the identifier `position + 1` if it has none yet.
    pub fn assign_id_if_missing(&mut self, position: usize)
        requires
            position < usize::MAX,
        ensures
            final(self)@ == old(self)@.with_id_assigned(position as nat),
            final(self).meta.id != 0,
    {
        self.meta.assign_id_if_missing(position);
    }
}

impl Clone for Album {
    fn clone(&self) -> (copy: Album)
        ensures
            copy@ == self@,
    {
        let mut songs: Vec<Song> = Vec::new();
        let mut j: usize = 0;
        while j < self.songs.len()
            invariant
                j <= self.songs.len(),
                songs.len() == j,
                forall|k: int| 0 <= k < j ==> songs@[k]@ == self.songs@[k]@,
            decreases self.songs.len() - j,
        {
            songs.push(self.songs[j].clone());
            j += 1;
        }
        assert(songs.deep_view() =~= self.songs.deep_view());
        Album {
            meta: self.meta.clone(),
            album_art_path: self.album_art_path.clone(),
            songs,
        }
    }
}

/// Identifier assignment is idempotent: assigning at the same position a
/// second time changes nothing.
pub proof fn lemma_assign_id_idempotent(meta: MetadataView, position: nat)
    ensures
        meta.with_id_assigned(position).with_id_assigned(position) == meta.with_id_assigned(
            position,
        ),
{
}

/// Once an identifier is assigned, later assignment leaves it alone
/// whatever position is offered.
pub proof fn lemma_assigned_id_is_kept(meta: MetadataView, position: nat)
    requires
        meta.id != 0,
    ensures
        meta.with_id_assigned(position) == meta,
{
}

} // verus!
