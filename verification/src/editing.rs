//! Edit operations on a list of albums: adding and removing albums and
//! songs by index. Removal keeps the order of what remains.

use vstd::prelude::*;
use crate::model::{Album, AlbumView, Song, SongView};

verus! {

/// Errors of an editing session.
#[derive(Clone, Copy, Debug, PartialEq, Eq, Structural)]
pub enum SessionError {
    /// An album or song index that the list does not have.
    IndexOutOfRange,
    /// An answer to a keep-or-discard question that is none of the
    /// answers the question allows.
    InvalidConfirmation,
}

/// `albums` with album `at` replaced by `album`.
pub open spec fn with_album_at(albums: Seq<AlbumView>, at: int, album: AlbumView) -> Seq<
    AlbumView,
> {
    albums.update(at, album)
}

/// `albums` with `song` appended to album `at`.
pub open spec fn with_song_added(albums: Seq<AlbumView>, at: int, song: SongView) -> Seq<
    AlbumView,
> {
    albums.update(at, AlbumView { songs: albums[at].songs.push(song), ..albums[at] })
}

/// `albums` with song `song` of album `at` replaced by `changed`.
pub open spec fn with_song_at(albums: Seq<AlbumView>, at: int, song: int, changed: SongView) -> Seq<
    AlbumView,
> {
    albums.update(at, AlbumView { songs: albums[at].songs.update(song, changed), ..albums[at] })
}

/// `albums` without song `song` of album `at`.
pub open spec fn without_song(albums: Seq<AlbumView>, at: int, song: int) -> Seq<AlbumView> {
    albums.update(at, AlbumView { songs: albums[at].songs.remove(song), ..albums[at] })
}

/// Pushing onto a list of albums pushes onto its value.
pub proof fn lemma_albums_pushed(before: Vec<Album>, after: Vec<Album>, album: Album)
    requires
        after@ == before@.push(album),
    ensures
        after.deep_view() == before.deep_view().push(album@),
{
    assert(after.deep_view() =~= before.deep_view().push(album@));
}

/// Removing from a list of albums removes from its value.
pub proof fn lemma_albums_removed(before: Vec<Album>, after: Vec<Album>, at: int)
    requires
        0 <= at < before.len(),
        after@ == before@.remove(at),
    ensures
        after.deep_view() == before.deep_view().remove(at),
{
    assert(after.deep_view() =~= before.deep_view().remove(at));
}

/// Changing one album of a list changes that album of its value.
pub proof fn lemma_albums_updated(before: Vec<Album>, after: Vec<Album>, at: int)
    requires
        0 <= at < before.len(),
        after.len() == before.len(),
        forall|k: int| 0 <= k < before.len() && k != at ==> after[k] == before[k],
    ensures
        after.deep_view() == before.deep_view().update(at, after[at]@),
{
    assert(after.deep_view() =~= before.deep_view().update(at, after[at]@));
}

/// Pushing onto a list of songs pushes onto its value.
pub proof fn lemma_songs_pushed(before: Vec<Song>, after: Vec<Song>, song: Song)
    requires
        after@ == before@.push(song),
    ensures
        after.deep_view() == before.deep_view().push(song@),
{
    assert(after.deep_view() =~= before.deep_view().push(song@));
}

/// Removing from a list of songs removes from its value.
pub proof fn lemma_songs_removed(before: Vec<Song>, after: Vec<Song>, at: int)
    requires
        0 <= at < before.len(),
        after@ == before@.remove(at),
    ensures
        after.deep_view() == before.deep_view().remove(at),
{
    assert(after.deep_view() =~= before.deep_view().remove(at));
}

/// Changing one song of a list changes that song of its value.
pub proof fn lemma_songs_updated(before: Vec<Song>, after: Vec<Song>, at: int)
    requires
        0 <= at < before.len(),
        after.len() == before.len(),
        forall|k: int| 0 <= k < before.len() && k != at ==> after[k] == before[k],
    ensures
        after.deep_view() == before.deep_view().update(at, after[at]@),
{
    assert(after.deep_view() =~= before.deep_view().update(at, after[at]@));
}

/// Appends a new, blank album, whose identifier is not assigned yet, and
/// returns its index.
pub fn add_album(albums: &mut Vec<Album>) -> (index: usize)
    ensures
        index == old(albums).len(),
        final(albums).deep_view() == old(albums).deep_view().push(AlbumView::blank()),
{
    let index = albums.len();
    let album = Album::new();
    let ghost before = *albums;
    albums.push(album);
    proof {
        lemma_albums_pushed(before, *albums, album);
    }
    index
}

/// Appends a new, blank song to album `album_index` and returns the
/// song's index; fails with `IndexOutOfRange` if there is no such album.
pub fn add_song(albums: &mut Vec<Album>, album_index: usize) -> (result: Result<
    usize,
    SessionError,
>)
    ensures
        match result {
            Ok(index) => {
                &&& album_index < old(albums).len()
                &&& index == old(albums)[album_index as int].songs.len()
                &&& final(albums).deep_view() == with_song_added(
                    old(albums).deep_view(),
                    album_index as int,
                    SongView::blank(),
                )
            },
            Err(error) => {
                &&& album_index >= old(albums).len()
                &&& error == SessionError::IndexOutOfRange
                &&& *final(albums) == *old(albums)
            },
        },
{
    if album_index >= albums.len() {
        return Err(SessionError::IndexOutOfRange);
    }
    let index = albums[album_index].songs.len();
    let song = Song::new();
    let ghost before = *albums;
    albums[album_index].songs.push(song);
    proof {
        lemma_songs_pushed(
            before[album_index as int].songs,
            albums[album_index as int].songs,
            song,
        );
        lemma_albums_updated(before, *albums, album_index as int);
    }
    Ok(index)
}

/// Removes album `index`; the albums after it move down by one. Fails
/// with `IndexOutOfRange`, and changes nothing, if there is no such album.
pub fn remove_album(albums: &mut Vec<Album>, index: usize) -> (result: Result<(), SessionError>)
    ensures
        match result {
            Ok(_) => {
                &&& index < old(albums).len()
                &&& final(albums).deep_view() == old(albums).deep_view().remove(index as int)
            },
            Err(error) => {
                &&& index >= old(albums).len()
                &&& error == SessionError::IndexOutOfRange
                &&& *final(albums) == *old(albums)
            },
        },
{
    if index >= albums.len() {
        return Err(SessionError::IndexOutOfRange);
    }
    let ghost before = *albums;
    albums.remove(index);
    proof {
        lemma_albums_removed(before, *albums, index as int);
    }
    Ok(())
}

/// Removes song `song_index` of album `album_index`; the songs after it
/// move down by one and keep their fields. Fails with `IndexOutOfRange`,
/// and changes nothing, if there is no such album or no such song.
pub fn remove_song(albums: &mut Vec<Album>, album_index: usize, song_index: usize) -> (result:
    Result<(), SessionError>)
    ensures
        match result {
            Ok(_) => {
                &&& album_index < old(albums).len()
                &&& song_index < old(albums)[album_index as int].songs.len()
                &&& final(albums).deep_view() == without_song(
                    old(albums).deep_view(),
                    album_index as int,
                    song_index as int,
                )
            },
            Err(error) => {
                &&& album_index >= old(albums).len() || song_index >= old(
                    albums,
                )[album_index as int].songs.len()
                &&& error == SessionError::IndexOutOfRange
                &&& *final(albums) == *old(albums)
            },
        },
{
    if album_index >= albums.len() {
        return Err(SessionError::IndexOutOfRange);
    }
    if song_index >= albums[album_index].songs.len() {
        return Err(SessionError::IndexOutOfRange);
    }
    let ghost before = *albums;
    albums[album_index].songs.remove(song_index);
    proof {
        lemma_songs_removed(
            before[album_index as int].songs,
            albums[album_index as int].songs,
            song_index as int,
        );
        lemma_albums_updated(before, *albums, album_index as int);
    }
    Ok(())
}

/// Gives every album and every song that has no identifier the identifier
/// of its position: `index + 1` among the albums, and among the songs of
/// its album.
pub fn assign_missing_ids(albums: &mut Vec<Album>)
    ensures
        final(albums).deep_view() == with_ids_assigned(old(albums).deep_view()),
{
    let ghost before = albums.deep_view();
    let mut i: usize = 0;
    while i < albums.len()
        invariant
            i <= albums.len(),
            albums.len() == before.len(),
            forall|k: int|
                0 <= k < i ==> albums[k]@ == album_with_ids_assigned(before[k], k as nat),
            forall|k: int| i <= k < albums.len() ==> albums[k]@ == before[k],
        decreases albums.len() - i,
    {
        albums[i].meta.assign_id_if_missing(i);
        let ghost songs_before = albums[i as int].songs.deep_view();
        assert(songs_before == before[i as int].songs);
        let mut j: usize = 0;
        while j < albums[i].songs.len()
            invariant
                i < albums.len(),
                albums.len() == before.len(),
                j <= albums[i as int].songs.len(),
                albums[i as int].songs.len() == songs_before.len(),
                songs_before == before[i as int].songs,
                albums[i as int].meta@ == before[i as int].meta.with_id_assigned(i as nat),
                albums[i as int].album_art_path@ == before[i as int].album_art_path,
                forall|k: int|
                    0 <= k < i ==> albums[k]@ == album_with_ids_assigned(before[k], k as nat),
                forall|k: int| i < k < albums.len() ==> albums[k]@ == before[k],
                forall|k: int|
                    0 <= k < j ==> albums[i as int].songs[k]@ == songs_before[k].with_id_assigned(
                        k as nat,
                    ),
                forall|k: int|
                    j <= k < songs_before.len() ==> albums[i as int].songs[k]@ == songs_before[k],
            decreases albums[i as int].songs.len() - j,
        {
            albums[i].songs[j].meta.assign_id_if_missing(j);
            j += 1;
        }
        assert(albums[i as int]@.songs =~= songs_with_ids_assigned(songs_before));
        i += 1;
    }
    assert(albums.deep_view() =~= with_ids_assigned(before));
}

/// The songs with identifiers assigned by position where they were
/// missing.
pub open spec fn songs_with_ids_assigned(songs: Seq<SongView>) -> Seq<SongView> {
    Seq::new(songs.len(), |j: int| songs[j].with_id_assigned(j as nat))
}

/// An album at `position` with identifiers assigned, to itself and to its
/// songs, where they were missing.
pub open spec fn album_with_ids_assigned(album: AlbumView, position: nat) -> AlbumView {
    AlbumView {
        meta: album.meta.with_id_assigned(position),
        songs: songs_with_ids_assigned(album.songs),
        ..album
    }
}

/// The albums with identifiers assigned by position where they were
/// missing.
pub open spec fn with_ids_assigned(albums: Seq<AlbumView>) -> Seq<AlbumView> {
    Seq::new(albums.len(), |i: int| album_with_ids_assigned(albums[i], i as nat))
}

/// Assigning identifiers to a whole list is idempotent.
pub proof fn lemma_assign_missing_ids_idempotent(albums: Seq<AlbumView>)
    requires
        albums.len() <= usize::MAX,
        forall|i: int| 0 <= i < albums.len() ==> (#[trigger] albums[i]).songs.len() <= usize::MAX,
    ensures
        with_ids_assigned(with_ids_assigned(albums)) == with_ids_assigned(albums),
{
    let once = with_ids_assigned(albums);
    let twice = with_ids_assigned(once);
    assert forall|i: int| 0 <= i < albums.len() implies twice[i] == once[i] by {
        assert(twice[i].songs =~= once[i].songs);
    }
    assert(twice =~= once);
}

} // verus!
