//! One-line summaries of songs and albums, as shown to the operator.

use vstd::prelude::*;
use crate::decimal::{decimal, push_decimal};
use crate::model::{Album, AlbumView, Song, SongView};

verus! {

/// The summary line of a song, ended by a line feed.
pub open spec fn song_line(song: SongView) -> Seq<char> {
    "Title: "@ + song.meta.title + " | Artist: "@ + song.meta.artist + " | Album: "@ + song.album
        + " | Track: "@ + decimal(song.track_number as nat) + seq!['\n']
}

/// The summary of a song: its line, framed by a heading and a rule where
/// `display_info` asks for them.
pub open spec fn song_summary(song: SongView, display_info: bool) -> Seq<char> {
    if display_info {
        "\n=== Song Summary ===\n"@ + song_line(song) + "-------------------------\n"@
    } else {
        song_line(song)
    }
}

/// The summary lines of `songs`, in order.
pub open spec fn song_lines(songs: Seq<SongView>) -> Seq<char>
    decreases songs.len(),
{
    if songs.len() == 0 {
        Seq::empty()
    } else {
        song_lines(songs.drop_last()) + song_line(songs.last())
    }
}

/// The summary line of an album, ended by a line feed.
pub open spec fn album_line(album: AlbumView) -> Seq<char> {
    "Album: "@ + album.meta.title + " | Artist: "@ + album.meta.artist + " | Genre: "@
        + album.meta.genre + " | Year: "@ + album.meta.year + " | Songs: "@ + decimal(
        album.songs.len(),
    ) + seq!['\n']
}

/// The summary of an album: a heading, the album's line, one line for
/// each of its songs, and a rule.
pub open spec fn album_summary(album: AlbumView) -> Seq<char> {
    "\n=== Album Summary ===\n"@ + album_line(album) + song_lines(album.songs)
        + "-------------------------\n"@
}

/// Appends the summary line of `song` to `out`.
fn push_song_line(out: &mut String, song: &Song)
    ensures
        final(out)@ == old(out)@ + song_line(song@),
{
    out.append("Title: ");
    out.append(song.meta.title.as_str());
    out.append(" | Artist: ");
    out.append(song.meta.artist.as_str());
    out.append(" | Album: ");
    out.append(song.album.as_str());
    out.append(" | Track: ");
    push_decimal(out, song.track_number);
    out.push('\n');
    assert(out@ =~= old(out)@ + song_line(song@));
}

/// The summary of a song, ready to be shown.
pub fn song(entry: &Song, display_info: bool) -> (text: String)
    ensures
        text@ == song_summary(entry@, display_info),
{
    let mut text = String::new();
    if display_info {
        text.append("\n=== Song Summary ===\n");
    }
    push_song_line(&mut text, entry);
    if display_info {
        text.append("-------------------------\n");
    }
    assert(text@ =~= song_summary(entry@, display_info));
    text
}

/// The summary of an album and its songs, ready to be shown.
pub fn album(entry: &Album) -> (text: String)
    ensures
        text@ == album_summary(entry@),
{
    let mut text = String::new();
    text.append("\n=== Album Summary ===\n");
    text.append("Album: ");
    text.append(entry.meta.title.as_str());
    text.append(" | Artist: ");
    text.append(entry.meta.artist.as_str());
    text.append(" | Genre: ");
    text.append(entry.meta.genre.as_str());
    text.append(" | Year: ");
    text.append(entry.meta.year.as_str());
    text.append(" | Songs: ");
    push_decimal(&mut text, entry.songs.len() as u64);
    text.push('\n');
    let ghost head = text@;
    let ghost songs = entry.songs.deep_view();
    assert(songs.len() == entry.songs.len());
    assert(head =~= "\n=== Album Summary ===\n"@ + album_line(entry@));
    let mut j: usize = 0;
    assert(head + song_lines(songs.take(0)) =~= head);
    while j < entry.songs.len()
        invariant
            j <= entry.songs.len(),
            songs == entry.songs.deep_view(),
            text@ == head + song_lines(songs.take(j as int)),
        decreases entry.songs.len() - j,
    {
        push_song_line(&mut text, &entry.songs[j]);
        j += 1;
        proof {
            assert(songs.take(j as int).drop_last() =~= songs.take(j - 1));
            assert(songs.take(j as int).last() == entry.songs[j - 1]@);
            assert(text@ =~= head + song_lines(songs.take(j as int)));
        }
    }
    assert(songs.take(j as int) =~= songs);
    text.append("-------------------------\n");
    assert(text@ =~= album_summary(entry@));
    text
}

} // verus!
