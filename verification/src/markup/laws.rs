//! What holds of the codec as a whole: a document that the writer
//! produced is read back as the albums it was written from.

use vstd::prelude::*;
use crate::markup::codec::{
    album_head, album_lines, document_lines, feed_from, parse_spec, scan, serialize_spec,
    song_lines, songs_lines, write_lines, lemma_feed_push, lemma_write_lines_concat,
};
use crate::markup::document::{lemma_step_keeps_valid, MalformedMarkup, ReaderView};
use crate::markup::line::{render, LineView, lemma_classify_render};
use crate::model::{all_valid, Album, AlbumView, SongView};
use crate::text::{lemma_position_of_is, lemma_position_of_bounds};

verus! {

/// Whether every line of a run has a written form.
pub open spec fn all_written(lines: Seq<LineView>) -> bool {
    forall|i: int| 0 <= i < lines.len() ==> (#[trigger] lines[i]).written()
}

/// Albums that a program can hold: no album has more songs than can be
/// counted in 64 bits.
pub open spec fn countable(albums: Seq<AlbumView>) -> bool {
    forall|i: int| 0 <= i < albums.len() ==> (#[trigger] albums[i]).songs.len() <= u64::MAX
}

/// The text of a run of lines begins with its first line.
proof fn lemma_write_lines_front(lines: Seq<LineView>)
    requires
        lines.len() > 0,
    ensures
        write_lines(lines) == render(lines[0]) + seq!['\n'] + write_lines(lines.skip(1)),
{
    let first = seq![lines[0]];
    assert(first.drop_last() =~= Seq::<LineView>::empty());
    assert(write_lines(first.drop_last()) =~= Seq::<char>::empty());
    assert(write_lines(first) =~= render(lines[0]) + seq!['\n']);
    assert(first + lines.skip(1) =~= lines);
    lemma_write_lines_concat(first, lines.skip(1));
}

/// Scanning written lines finds the same lines again, followed by the
/// empty line after the last line feed.
pub proof fn lemma_scan_written(lines: Seq<LineView>)
    requires
        all_written(lines),
    ensures
        scan(write_lines(lines)) == lines.push(LineView::Blank),
    decreases lines.len(),
{
    let text = write_lines(lines);
    if lines.len() == 0 {
        assert(text =~= Seq::<char>::empty());
        assert(scan(text) =~= seq![LineView::Blank]);
        assert(lines.push(LineView::Blank) =~= seq![LineView::Blank]);
    } else {
        let first = render(lines[0]);
        let rest = write_lines(lines.skip(1));
        lemma_write_lines_front(lines);
        assert(lines[0].written());
        lemma_classify_render(lines[0]);
        lemma_position_of_bounds(first, '\n');
        assert forall|j: int| 0 <= j < first.len() implies text[j] != '\n' by {
            assert(text[j] == first[j]);
        }
        assert(text[first.len() as int] == '\n');
        lemma_position_of_is(text, '\n', first.len() as int);
        assert(text.take(first.len() as int) =~= first);
        assert(text.skip(first.len() as int + 1) =~= rest);
        assert forall|i: int| 0 <= i < lines.skip(1).len() implies (#[trigger] lines.skip(
            1,
        )[i]).written() by {
            assert(lines.skip(1)[i] == lines[i + 1]);
        }
        lemma_scan_written(lines.skip(1));
        assert(scan(text) =~= lines.push(LineView::Blank));
    }
}

/// Two runs of lines taken one after the other are taken as one run.
pub proof fn lemma_feed_concat(
    state: ReaderView,
    first: Seq<LineView>,
    second: Seq<LineView>,
    middle: ReaderView,
    end: ReaderView,
)
    requires
        feed_from(state, first) == Ok::<ReaderView, MalformedMarkup>(middle),
        feed_from(middle, second) == Ok::<ReaderView, MalformedMarkup>(end),
    ensures
        feed_from(state, first + second) == Ok::<ReaderView, MalformedMarkup>(end),
    decreases second.len(),
{
    if second.len() == 0 {
        assert(first + second =~= first);
    } else {
        let before = feed_from(middle, second.drop_last());
        lemma_feed_concat(state, first, second.drop_last(), middle, before->Ok_0);
        assert((first + second).drop_last() =~= first + second.drop_last());
    }
}

/// The reader with `song` added to the album that is open.
pub open spec fn with_song(state: ReaderView, song: SongView) -> ReaderView {
    let album = state.album->0;
    ReaderView { album: Some(AlbumView { songs: album.songs.push(song), ..album }), ..state }
}

/// The block of a valid song, read inside an open album, adds that song.
proof fn lemma_feed_song(state: ReaderView, song: SongView)
    requires
        state.album is Some,
        state.song is None,
        song.valid(),
    ensures
        feed_from(state, song_lines(song)) == Ok::<ReaderView, MalformedMarkup>(
            with_song(state, song),
        ),
{
    broadcast use lemma_feed_push;

    assert(feed_from(state, Seq::<LineView>::empty()) == Ok::<ReaderView, MalformedMarkup>(state));
}

/// The reader with `songs` added, in order, to the album that is open.
pub open spec fn with_songs(state: ReaderView, songs: Seq<SongView>) -> ReaderView {
    let album = state.album->0;
    ReaderView { album: Some(AlbumView { songs: album.songs + songs, ..album }), ..state }
}

/// The blocks of valid songs, read inside an open album, add those songs.
proof fn lemma_feed_songs(state: ReaderView, songs: Seq<SongView>)
    requires
        state.album is Some,
        state.song is None,
        forall|j: int| 0 <= j < songs.len() ==> (#[trigger] songs[j]).valid(),
    ensures
        feed_from(state, songs_lines(songs)) == Ok::<ReaderView, MalformedMarkup>(
            with_songs(state, songs),
        ),
    decreases songs.len(),
{
    let album = state.album->0;
    if songs.len() == 0 {
        assert(album.songs + songs =~= album.songs);
    } else {
        let init = songs.drop_last();
        lemma_feed_songs(state, init);
        let middle = with_songs(state, init);
        assert(songs.last().valid());
        lemma_feed_song(middle, songs.last());
        assert((album.songs + init).push(songs.last()) =~= album.songs + songs);
        lemma_feed_concat(
            state,
            songs_lines(init),
            song_lines(songs.last()),
            middle,
            with_songs(state, songs),
        );
    }
}

/// The reader with `album` added to the finished albums.
pub open spec fn with_album(state: ReaderView, album: AlbumView) -> ReaderView {
    ReaderView { albums: state.albums.push(album), album: None, declared: None, song: None }
}

/// The block of a valid album, read outside every block, adds that album.
proof fn lemma_feed_album(state: ReaderView, album: AlbumView)
    requires
        state.album is None,
        state.song is None,
        album.valid(),
        album.songs.len() <= u64::MAX,
    ensures
        feed_from(state, album_lines(album)) == Ok::<ReaderView, MalformedMarkup>(
            with_album(state, album),
        ),
{
    let opened = ReaderView {
        album: Some(AlbumView { songs: Seq::empty(), ..album }),
        declared: Some(album.songs.len() as u64),
        ..state
    };
    assert(feed_from(state, album_head(album)) == Ok::<ReaderView, MalformedMarkup>(opened)) by {
        broadcast use lemma_feed_push;

        assert(feed_from(state, Seq::<LineView>::empty()) == Ok::<ReaderView, MalformedMarkup>(
            state,
        ));
    }
    lemma_feed_songs(opened, album.songs);
    let filled = with_songs(opened, album.songs);
    assert(Seq::<SongView>::empty() + album.songs =~= album.songs);
    assert(filled.album == Some(album));
    lemma_feed_concat(state, album_head(album), songs_lines(album.songs), opened, filled);
    let body = album_head(album) + songs_lines(album.songs);
    lemma_feed_push(state, body, LineView::AlbumClose);
    assert(album_lines(album) =~= body.push(LineView::AlbumClose));
}

/// The lines of a document, read from the start, give its albums.
proof fn lemma_feed_document(albums: Seq<AlbumView>)
    requires
        all_valid(albums),
        countable(albums),
    ensures
        feed_from(ReaderView::start(), document_lines(albums)) == Ok::<
            ReaderView,
            MalformedMarkup,
        >(ReaderView { albums, ..ReaderView::start() }),
    decreases albums.len(),
{
    let start = ReaderView::start();
    if albums.len() == 0 {
        assert(albums =~= Seq::<AlbumView>::empty());
    } else {
        let init = albums.drop_last();
        lemma_feed_document(init);
        let middle = ReaderView { albums: init, ..start };
        assert(albums.last().valid());
        lemma_feed_album(middle, albums.last());
        assert(init.push(albums.last()) =~= albums);
        lemma_feed_concat(
            start,
            document_lines(init),
            album_lines(albums.last()),
            middle,
            ReaderView { albums, ..start },
        );
    }
}

/// Every line of a song block has a written form.
proof fn lemma_songs_lines_written(songs: Seq<SongView>)
    ensures
        all_written(songs_lines(songs)),
    decreases songs.len(),
{
    if songs.len() > 0 {
        lemma_songs_lines_written(songs.drop_last());
    }
}

/// Every line of a document has a written form.
proof fn lemma_document_lines_written(albums: Seq<AlbumView>)
    ensures
        all_written(document_lines(albums)),
    decreases albums.len(),
{
    if albums.len() > 0 {
        lemma_document_lines_written(albums.drop_last());
        lemma_songs_lines_written(albums.last().songs);
    }
}

/// Round trip: reading the document written from a list of albums gives
/// that list back, whatever the texts of its fields hold. The albums must
/// be ones that the model can hold: track numbers of at least one, and no
/// more songs in an album than can be counted.
pub proof fn lemma_round_trip(albums: Seq<AlbumView>)
    requires
        all_valid(albums),
        countable(albums),
    ensures
        parse_spec(serialize_spec(albums)) == Ok::<Seq<AlbumView>, MalformedMarkup>(albums),
{
    let lines = document_lines(albums);
    lemma_document_lines_written(albums);
    lemma_scan_written(lines);
    lemma_feed_document(albums);
    lemma_feed_push(ReaderView::start(), lines, LineView::Blank);
}

/// Round trip for albums held in memory, which are always countable.
pub proof fn lemma_round_trip_of(albums: &Vec<Album>)
    requires
        all_valid(albums.deep_view()),
    ensures
        parse_spec(serialize_spec(albums.deep_view())) == Ok::<Seq<AlbumView>, MalformedMarkup>(
            albums.deep_view(),
        ),
{
    let views = albums.deep_view();
    assert forall|i: int| 0 <= i < views.len() implies (#[trigger] views[i]).songs.len()
        <= u64::MAX by {
        assert(views[i].songs.len() == albums[i].songs.len());
    }
    lemma_round_trip(views);
}

/// No two lists of albums are written as the same document: what a
/// document says is never in doubt.
pub proof fn lemma_serialize_injective(first: Seq<AlbumView>, second: Seq<AlbumView>)
    requires
        all_valid(first),
        countable(first),
        all_valid(second),
        countable(second),
        serialize_spec(first) == serialize_spec(second),
    ensures
        first == second,
{
    lemma_round_trip(first);
    lemma_round_trip(second);
}

/// Lines taken by a valid reader leave a valid reader.
proof fn lemma_feed_keeps_valid(state: ReaderView, lines: Seq<LineView>)
    requires
        state.valid(),
    ensures
        feed_from(state, lines) matches Ok(reader) ==> reader.valid(),
    decreases lines.len(),
{
    if lines.len() > 0 {
        lemma_feed_keeps_valid(state, lines.drop_last());
        if let Ok(reader) = feed_from(state, lines.drop_last()) {
            lemma_step_keeps_valid(reader, lines.last());
        }
    }
}

/// Whatever document is read, the albums that come out of it are valid:
/// every song has a track number of at least one.
pub proof fn lemma_parsed_albums_are_valid(text: Seq<char>)
    ensures
        parse_spec(text) matches Ok(albums) ==> all_valid(albums),
{
    lemma_feed_keeps_valid(ReaderView::start(), scan(text));
}

/// Writing is deterministic: albums with the same value give the same
/// text.
pub proof fn lemma_serialize_deterministic(first: &Vec<Album>, second: &Vec<Album>)
    requires
        first.deep_view() == second.deep_view(),
    ensures
        serialize_spec(first.deep_view()) == serialize_spec(second.deep_view()),
{
}

} // verus!
