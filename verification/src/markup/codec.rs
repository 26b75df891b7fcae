//! Reading and writing whole documents.
//!
//! A document is a sequence of lines, each ended by a line feed. An album
//! is a block between `[album]` and `[/album]` that holds the album's
//! fields and then one `[song]` ... `[/song]` block per song. A field is
//! written `name=value`, with the value escaped.

use vstd::prelude::*;
use crate::markup::document::{MalformedMarkup, Reader, ReaderView};
use crate::markup::line::{
    classify, push_marker, push_number_field, push_text_field, read_line, render, LineView,
    Marker, NumberKey, TextKey,
};
use crate::model::{Album, AlbumView, Song, SongView};
use crate::text::{chars_of, find_in_range, position_of};

verus! {

/// The lines of a text, each with what it says. Lines are separated by
/// line feeds; a text that ends in a line feed has an empty last line.
pub open spec fn scan(text: Seq<char>) -> Seq<LineView>
    decreases text.len(),
{
    let end = position_of(text, '\n');
    if 0 <= end < text.len() {
        seq![classify(text.take(end))] + scan(text.skip(end + 1))
    } else {
        seq![classify(text)]
    }
}

/// The reader after taking `lines` one by one, starting from `state`; or
/// the first fault, with the index of its line among `lines`.
pub open spec fn feed_from(state: ReaderView, lines: Seq<LineView>) -> Result<
    ReaderView,
    MalformedMarkup,
>
    decreases lines.len(),
{
    if lines.len() == 0 {
        Ok(state)
    } else {
        match feed_from(state, lines.drop_last()) {
            Err(error) => Err(error),
            Ok(reader) => match reader.step(lines.last()) {
                Ok(next) => Ok(next),
                Err(fault) => Err(MalformedMarkup { line: (lines.len() - 1) as usize, fault }),
            },
        }
    }
}

/// What a document says: the albums it lists, or the first way in which it
/// breaks the grammar.
pub open spec fn parse_spec(text: Seq<char>) -> Result<Seq<AlbumView>, MalformedMarkup> {
    let lines = scan(text);
    match feed_from(ReaderView::start(), lines) {
        Err(error) => Err(error),
        Ok(reader) => match reader.finish() {
            Ok(albums) => Ok(albums),
            Err(fault) => Err(MalformedMarkup { line: (lines.len() - 1) as usize, fault }),
        },
    }
}

/// The text of `lines`: each line as written, followed by a line feed.
pub open spec fn write_lines(lines: Seq<LineView>) -> Seq<char>
    decreases lines.len(),
{
    if lines.len() == 0 {
        Seq::empty()
    } else {
        write_lines(lines.drop_last()) + render(lines.last()) + seq!['\n']
    }
}

/// The lines of a song block.
pub open spec fn song_lines(song: SongView) -> Seq<LineView> {
    Seq::empty()
        .push(LineView::SongOpen)
        .push(LineView::Number(NumberKey::Id, song.meta.id))
        .push(LineView::Text(TextKey::Title, song.meta.title))
        .push(LineView::Text(TextKey::Artist, song.meta.artist))
        .push(LineView::Text(TextKey::Album, song.album))
        .push(LineView::Text(TextKey::Genre, song.meta.genre))
        .push(LineView::Text(TextKey::Year, song.meta.year))
        .push(LineView::Text(TextKey::Comment, song.meta.comment))
        .push(LineView::Text(TextKey::Arguments, song.meta.arguments))
        .push(LineView::Text(TextKey::Copyright, song.meta.copyright))
        .push(LineView::Text(TextKey::Path, song.meta.source_path))
        .push(LineView::Text(TextKey::NewPath, song.meta.dest_path))
        .push(LineView::Text(TextKey::Codec, song.codec))
        .push(LineView::Number(NumberKey::Track, song.track_number))
        .push(LineView::SongClose)
}

/// The lines of the song blocks of `songs`, in order.
pub open spec fn songs_lines(songs: Seq<SongView>) -> Seq<LineView>
    decreases songs.len(),
{
    if songs.len() == 0 {
        Seq::empty()
    } else {
        songs_lines(songs.drop_last()) + song_lines(songs.last())
    }
}

/// The lines that open an album block and give the album's own fields.
pub open spec fn album_head(album: AlbumView) -> Seq<LineView> {
    Seq::empty()
        .push(LineView::AlbumOpen)
        .push(LineView::Number(NumberKey::Id, album.meta.id))
        .push(LineView::Text(TextKey::Title, album.meta.title))
        .push(LineView::Text(TextKey::Artist, album.meta.artist))
        .push(LineView::Text(TextKey::Genre, album.meta.genre))
        .push(LineView::Text(TextKey::Year, album.meta.year))
        .push(LineView::Text(TextKey::Comment, album.meta.comment))
        .push(LineView::Text(TextKey::Arguments, album.meta.arguments))
        .push(LineView::Text(TextKey::Copyright, album.meta.copyright))
        .push(LineView::Text(TextKey::Path, album.meta.source_path))
        .push(LineView::Text(TextKey::NewPath, album.meta.dest_path))
        .push(LineView::Text(TextKey::AlbumArt, album.album_art_path))
        .push(LineView::Number(NumberKey::Songs, album.songs.len() as u64))
}

/// The lines of an album block.
pub open spec fn album_lines(album: AlbumView) -> Seq<LineView> {
    album_head(album) + songs_lines(album.songs) + seq![LineView::AlbumClose]
}

/// The lines of a document that lists `albums`.
pub open spec fn document_lines(albums: Seq<AlbumView>) -> Seq<LineView>
    decreases albums.len(),
{
    if albums.len() == 0 {
        Seq::empty()
    } else {
        document_lines(albums.drop_last()) + album_lines(albums.last())
    }
}

/// The document that lists `albums`.
pub open spec fn serialize_spec(albums: Seq<AlbumView>) -> Seq<char> {
    write_lines(document_lines(albums))
}

/// Writing one more line appends its text and a line feed.
pub broadcast proof fn lemma_write_lines_push(lines: Seq<LineView>, line: LineView)
    ensures
        #[trigger] write_lines(lines.push(line)) == write_lines(lines) + render(line) + seq!['\n'],
{
    assert(lines.push(line).drop_last() =~= lines);
}

/// The text of two runs of lines is the text of the first followed by the
/// text of the second.
pub proof fn lemma_write_lines_concat(first: Seq<LineView>, second: Seq<LineView>)
    ensures
        write_lines(first + second) == write_lines(first) + write_lines(second),
    decreases second.len(),
{
    if second.len() == 0 {
        assert(first + second =~= first);
        assert(write_lines(first) + write_lines(second) =~= write_lines(first));
    } else {
        lemma_write_lines_concat(first, second.drop_last());
        assert((first + second).drop_last() =~= first + second.drop_last());
        assert(write_lines(first + second) =~= write_lines(first) + write_lines(second));
    }
}

/// Writes a text field as the next line of a run that began at `start`.
fn emit_text(
    out: &mut String,
    key: TextKey,
    value: &String,
    Ghost(start): Ghost<Seq<char>>,
    Ghost(done): Ghost<Seq<LineView>>,
) -> (now: Ghost<Seq<LineView>>)
    requires
        old(out)@ == start + write_lines(done),
    ensures
        now@ == done.push(LineView::Text(key, value@)),
        final(out)@ == start + write_lines(now@),
{
    push_text_field(out, key, value.as_str());
    proof {
        lemma_write_lines_push(done, LineView::Text(key, value@));
        assert(out@ =~= start + write_lines(done.push(LineView::Text(key, value@))));
    }
    Ghost(done.push(LineView::Text(key, value@)))
}

/// Writes a numeric field as the next line of a run that began at `start`.
fn emit_number(
    out: &mut String,
    key: NumberKey,
    value: u64,
    Ghost(start): Ghost<Seq<char>>,
    Ghost(done): Ghost<Seq<LineView>>,
) -> (now: Ghost<Seq<LineView>>)
    requires
        old(out)@ == start + write_lines(done),
    ensures
        now@ == done.push(LineView::Number(key, value)),
        final(out)@ == start + write_lines(now@),
{
    push_number_field(out, key, value);
    proof {
        lemma_write_lines_push(done, LineView::Number(key, value));
        assert(out@ =~= start + write_lines(done.push(LineView::Number(key, value))));
    }
    Ghost(done.push(LineView::Number(key, value)))
}

/// Writes a block marker as the next line of a run that began at `start`.
fn emit_marker(
    out: &mut String,
    marker: Marker,
    Ghost(start): Ghost<Seq<char>>,
    Ghost(done): Ghost<Seq<LineView>>,
) -> (now: Ghost<Seq<LineView>>)
    requires
        old(out)@ == start + write_lines(done),
    ensures
        now@ == done.push(marker.line()),
        final(out)@ == start + write_lines(now@),
{
    push_marker(out, marker);
    proof {
        lemma_write_lines_push(done, marker.line());
        assert(out@ =~= start + write_lines(done.push(marker.line())));
    }
    Ghost(done.push(marker.line()))
}

/// Appends the block of `song` to `out`.
fn write_song(out: &mut String, song: &Song)
    ensures
        final(out)@ == old(out)@ + write_lines(song_lines(song@)),
{
    let ghost start = out@;
    let done = Ghost(Seq::<LineView>::empty());
    assert(out@ =~= start + write_lines(done@));
    let done = emit_marker(out, Marker::SongOpen, Ghost(start), done);
    let done = emit_number(out, NumberKey::Id, song.meta.id, Ghost(start), done);
    let done = emit_text(out, TextKey::Title, &song.meta.title, Ghost(start), done);
    let done = emit_text(out, TextKey::Artist, &song.meta.artist, Ghost(start), done);
    let done = emit_text(out, TextKey::Album, &song.album, Ghost(start), done);
    let done = emit_text(out, TextKey::Genre, &song.meta.genre, Ghost(start), done);
    let done = emit_text(out, TextKey::Year, &song.meta.year, Ghost(start), done);
    let done = emit_text(out, TextKey::Comment, &song.meta.comment, Ghost(start), done);
    let done = emit_text(out, TextKey::Arguments, &song.meta.arguments, Ghost(start), done);
    let done = emit_text(out, TextKey::Copyright, &song.meta.copyright, Ghost(start), done);
    let done = emit_text(out, TextKey::Path, &song.meta.source_path, Ghost(start), done);
    let done = emit_text(out, TextKey::NewPath, &song.meta.dest_path, Ghost(start), done);
    let done = emit_text(out, TextKey::Codec, &song.codec, Ghost(start), done);
    let done = emit_number(out, NumberKey::Track, song.track_number, Ghost(start), done);
    let done = emit_marker(out, Marker::SongClose, Ghost(start), done);
    assert(done@ =~= song_lines(song@));
}

/// Appends the block of `album` to `out`.
fn write_album(out: &mut String, album: &Album)
    ensures
        final(out)@ == old(out)@ + write_lines(album_lines(album@)),
{
    let ghost start = out@;
    let ghost songs = album.songs.deep_view();
    let done = Ghost(Seq::<LineView>::empty());
    assert(out@ =~= start + write_lines(done@));
    let done = emit_marker(out, Marker::AlbumOpen, Ghost(start), done);
    let done = emit_number(out, NumberKey::Id, album.meta.id, Ghost(start), done);
    let done = emit_text(out, TextKey::Title, &album.meta.title, Ghost(start), done);
    let done = emit_text(out, TextKey::Artist, &album.meta.artist, Ghost(start), done);
    let done = emit_text(out, TextKey::Genre, &album.meta.genre, Ghost(start), done);
    let done = emit_text(out, TextKey::Year, &album.meta.year, Ghost(start), done);
    let done = emit_text(out, TextKey::Comment, &album.meta.comment, Ghost(start), done);
    let done = emit_text(out, TextKey::Arguments, &album.meta.arguments, Ghost(start), done);
    let done = emit_text(out, TextKey::Copyright, &album.meta.copyright, Ghost(start), done);
    let done = emit_text(out, TextKey::Path, &album.meta.source_path, Ghost(start), done);
    let done = emit_text(out, TextKey::NewPath, &album.meta.dest_path, Ghost(start), done);
    let done = emit_text(out, TextKey::AlbumArt, &album.album_art_path, Ghost(start), done);
    let done = emit_number(out, NumberKey::Songs, album.songs.len() as u64, Ghost(start), done);
    assert(songs.len() == album.songs.len());
    assert(done@ =~= album_head(album@));
    let mut j: usize = 0;
    assert(songs_lines(songs.take(0)) =~= Seq::<LineView>::empty());
    assert(done@ + songs_lines(songs.take(0)) =~= done@);
    while j < album.songs.len()
        invariant
            j <= album.songs.len(),
            songs == album.songs.deep_view(),
            out@ == start + write_lines(done@ + songs_lines(songs.take(j as int))),
        decreases album.songs.len() - j,
    {
        write_song(out, &album.songs[j]);
        j += 1;
        proof {
            let before = songs.take(j - 1);
            let now = songs.take(j as int);
            assert(now.drop_last() =~= before);
            assert(now.last() == album.songs[j - 1]@);
            lemma_write_lines_concat(done@ + songs_lines(before), song_lines(now.last()));
            assert(done@ + songs_lines(now) =~= done@ + songs_lines(before) + song_lines(
                now.last(),
            ));
            assert(out@ =~= start + write_lines(done@ + songs_lines(now)));
        }
    }
    assert(songs.take(j as int) =~= songs);
    let body = Ghost(done@ + songs_lines(songs));
    let all = emit_marker(out, Marker::AlbumClose, Ghost(start), body);
    assert(all@ =~= album_lines(album@));
}

/// Writes the document that lists `albums`. The same albums always give
/// the same text: blocks and fields come in a fixed order.
pub fn serialize(albums: &Vec<Album>) -> (text: String)
    ensures
        text@ == serialize_spec(albums.deep_view()),
{
    let mut out = String::new();
    let ghost all = albums.deep_view();
    let mut i: usize = 0;
    while i < albums.len()
        invariant
            i <= albums.len(),
            all == albums.deep_view(),
            out@ == write_lines(document_lines(all.take(i as int))),
        decreases albums.len() - i,
    {
        write_album(&mut out, &albums[i]);
        i += 1;
        proof {
            let now = all.take(i as int);
            assert(now.drop_last() =~= all.take(i - 1));
            assert(now.last() == albums[i - 1]@);
            lemma_write_lines_concat(document_lines(now.drop_last()), album_lines(now.last()));
        }
    }
    assert(all.take(i as int) =~= all);
    out
}

/// Taking one more line is one more step.
pub broadcast proof fn lemma_feed_push(state: ReaderView, lines: Seq<LineView>, line: LineView)
    ensures
        #[trigger] feed_from(state, lines.push(line)) == match feed_from(state, lines) {
            Err(error) => Err(error),
            Ok(reader) => match reader.step(line) {
                Ok(next) => Ok(next),
                Err(fault) => Err(MalformedMarkup { line: lines.len() as usize, fault }),
            },
        },
{
    assert(lines.push(line).drop_last() =~= lines);
}

/// A fault stays: once a run of lines has met one, more lines change
/// nothing.
pub proof fn lemma_feed_fault_stays(state: ReaderView, lines: Seq<LineView>, more: Seq<LineView>)
    requires
        feed_from(state, lines) is Err,
    ensures
        feed_from(state, lines + more) == feed_from(state, lines),
    decreases more.len(),
{
    if more.len() == 0 {
        assert(lines + more =~= lines);
    } else {
        lemma_feed_fault_stays(state, lines, more.drop_last());
        assert((lines + more).drop_last() =~= lines + more.drop_last());
    }
}

/// Reads a document. Gives the albums that it lists, in order, or
/// `MalformedMarkup` with the first line that breaks the grammar. Fields
/// with a well-formed name that is not known are passed over.
pub fn parse(text: &str) -> (result: Result<Vec<Album>, MalformedMarkup>)
    ensures
        match result {
            Ok(albums) => parse_spec(text@) == Ok::<Seq<AlbumView>, MalformedMarkup>(
                albums.deep_view(),
            ),
            Err(error) => parse_spec(text@) == Err::<Seq<AlbumView>, MalformedMarkup>(error),
        },
{
    let chars = chars_of(text);
    let mut reader = Reader::new();
    let mut from: usize = 0;
    let mut index: usize = 0;
    let ghost mut seen: Seq<LineView> = Seq::empty();
    assert(chars@.skip(0) =~= chars@);
    loop
        invariant
            chars@ == text@,
            index <= from <= chars.len(),
            index == seen.len(),
            scan(text@) == seen + scan(chars@.skip(from as int)),
            feed_from(ReaderView::start(), seen) == Ok::<ReaderView, MalformedMarkup>(reader@),
        decreases chars.len() - from,
    {
        let ghost rest = chars@.skip(from as int);
        let end = find_in_range(&chars, from, chars.len(), '\n');
        assert(rest =~= chars@.subrange(from as int, chars.len() as int));
        let line = read_line(&chars, from, end);
        let ghost said = line@;
        proof {
            assert(rest.take(end - from) =~= chars@.subrange(from as int, end as int));
            if end < chars.len() {
                assert(rest.skip(end - from + 1) =~= chars@.skip(end + 1));
            } else {
                assert(rest.take(end - from) =~= rest);
            }
            lemma_feed_push(ReaderView::start(), seen, said);
        }
        let ghost tail = if end < chars.len() {
            scan(chars@.skip(end + 1))
        } else {
            Seq::<LineView>::empty()
        };
        assert(scan(text@) =~= seen.push(said) + tail);
        match reader.accept(line) {
            Err(fault) => {
                proof {
                    lemma_feed_fault_stays(ReaderView::start(), seen.push(said), tail);
                }
                return Err(MalformedMarkup { line: index, fault });
            },
            Ok(next) => {
                reader = next;
            },
        }
        proof {
            seen = seen.push(said);
        }
        if end >= chars.len() {
            assert(scan(text@) =~= seen);
            return match reader.finish() {
                Ok(albums) => Ok(albums),
                Err(fault) => Err(MalformedMarkup { line: index, fault }),
            };
        }
        from = end + 1;
        index += 1;
    }
}

} // verus!
