//! The editing session: a question-and-answer walk over a list of albums.
//!
//! The session asks one question at a time. Its caller shows the question
//! with the answer that an empty reply stands for, reads the operator's
//! reply, and hands it to [`Session::answer`], which records it and moves
//! on to the next question. Albums that were in the list when the session
//! began are revisited one by one, then their songs; after them, new albums
//! and songs are added up to the numbers the operator asked for, and each
//! new one is kept or discarded as the operator decides.

use vstd::prelude::*;
use crate::decimal::{decimal, parse_count, push_decimal, read_count};
use crate::editing::{
    lemma_albums_pushed, lemma_albums_removed, lemma_albums_updated, lemma_songs_pushed,
    lemma_songs_removed, lemma_songs_updated, with_song_added, with_song_at, without_song,
    SessionError,
};
use crate::model::{resolve_default, resolved, Album, AlbumView, MetadataView, Song, SongView};
use crate::text::{chars_of, lower, lowered, string_of_range, trim_bounds, trimmed};

verus! {

/// The album fields that the session asks for, in the order of asking.
#[derive(Clone, Copy, Debug, PartialEq, Eq, Structural)]
pub enum AlbumField {
    Title,
    Artist,
    Genre,
    Year,
    Copyright,
    NewPath,
    AlbumArt,
    Arguments,
}

/// The song fields that the session asks for, in the order of asking.
#[derive(Clone, Copy, Debug, PartialEq, Eq, Structural)]
pub enum SongField {
    Path,
    Title,
    Artist,
    Genre,
    Year,
    Copyright,
    NewPath,
    Codec,
    Arguments,
}

/// Where a session stands: the question it is asking, or how it ended.
#[derive(Clone, Copy, Debug, PartialEq, Eq, Structural)]
pub enum Stage {
    /// How many albums there shall be in all.
    AlbumCount,
    /// A field of the album under edit.
    AlbumField(AlbumField),
    /// How many songs the album under edit shall have in all.
    SongCount,
    /// A field of the song under edit.
    SongField(SongField),
    /// Whether the song just added is kept.
    KeepSong,
    /// Whether the album just added is kept.
    KeepAlbum,
    /// Every question has been answered.
    Finished,
    /// The session failed on an answer it could not accept.
    Aborted,
}

/// What an answer did.
#[derive(Clone, Copy, Debug, PartialEq, Eq, Structural)]
pub enum Reply {
    /// The answer was recorded and another question stands.
    Next,
    /// The answer was not a number, or was empty where nothing stands for
    /// an empty answer: the same question stands.
    Again,
    /// The session is finished.
    Done,
}

/// The bookkeeping of a session.
#[derive(Clone, Copy, Debug, PartialEq, Eq, Structural)]
pub struct Cursor {
    pub stage: Stage,
    /// New songs are kept without asking.
    pub auto_accept: bool,
    /// Number of albums in the list when the session began.
    pub existing_albums: usize,
    /// Number of albums the operator asked for.
    pub wanted_albums: usize,
    /// Which album, counting all that were begun, is under edit.
    pub album_round: usize,
    /// Index in the list of the album under edit.
    pub album_at: usize,
    /// Number of songs the album under edit had when its revision began.
    pub existing_songs: usize,
    /// Number of songs the operator asked for.
    pub wanted_songs: usize,
    /// Which song of the album, counting all that were begun, is under
    /// edit.
    pub song_round: usize,
    /// Index in its album of the song under edit.
    pub song_at: usize,
}

/// An editing session over a list of albums.
pub struct Session {
    albums: Vec<Album>,
    cursor: Cursor,
}

/// Mathematical value of a [`Session`].
pub struct SessionView {
    pub albums: Seq<AlbumView>,
    pub cursor: Cursor,
}

impl View for Session {
    type V = SessionView;

    closed spec fn view(&self) -> SessionView {
        SessionView { albums: self.albums.deep_view(), cursor: self.cursor }
    }
}

impl AlbumField {
    /// The field asked for after this one, if any.
    pub open spec fn next(self) -> Option<AlbumField> {
        match self {
            AlbumField::Title => Some(AlbumField::Artist),
            AlbumField::Artist => Some(AlbumField::Genre),
            AlbumField::Genre => Some(AlbumField::Year),
            AlbumField::Year => Some(AlbumField::Copyright),
            AlbumField::Copyright => Some(AlbumField::NewPath),
            AlbumField::NewPath => Some(AlbumField::AlbumArt),
            AlbumField::AlbumArt => Some(AlbumField::Arguments),
            AlbumField::Arguments => None,
        }
    }

    /// The value of the field in `album`.
    pub open spec fn of(self, album: AlbumView) -> Seq<char> {
        match self {
            AlbumField::Title => album.meta.title,
            AlbumField::Artist => album.meta.artist,
            AlbumField::Genre => album.meta.genre,
            AlbumField::Year => album.meta.year,
            AlbumField::Copyright => album.meta.copyright,
            AlbumField::NewPath => album.meta.dest_path,
            AlbumField::AlbumArt => album.album_art_path,
            AlbumField::Arguments => album.meta.arguments,
        }
    }

    /// `album` with the field set to `value`.
    pub open spec fn set(self, album: AlbumView, value: Seq<char>) -> AlbumView {
        let meta = album.meta;
        match self {
            AlbumField::Title => AlbumView { meta: MetadataView { title: value, ..meta }, ..album },
            AlbumField::Artist => AlbumView {
                meta: MetadataView { artist: value, ..meta },
                ..album
            },
            AlbumField::Genre => AlbumView { meta: MetadataView { genre: value, ..meta }, ..album },
            AlbumField::Year => AlbumView { meta: MetadataView { year: value, ..meta }, ..album },
            AlbumField::Copyright => AlbumView {
                meta: MetadataView { copyright: value, ..meta },
                ..album
            },
            AlbumField::NewPath => AlbumView {
                meta: MetadataView { dest_path: value, ..meta },
                ..album
            },
            AlbumField::AlbumArt => AlbumView { album_art_path: value, ..album },
            AlbumField::Arguments => AlbumView {
                meta: MetadataView { arguments: value, ..meta },
                ..album
            },
        }
    }

    /// What an empty answer stands for. Title, artist, genre and year of
    /// an album that is revisited keep their value, and a new album has none to
    /// offer; the other fields keep their value or, where they are empty,
    /// take a fixed text.
    pub open spec fn default_for(self, album: AlbumView, fresh: bool) -> Option<Seq<char>> {
        match self {
            AlbumField::Copyright => Some(resolved(album.meta.copyright, " "@)),
            AlbumField::NewPath => Some(resolved(album.meta.dest_path, "."@)),
            AlbumField::AlbumArt => Some(resolved(album.album_art_path, "."@)),
            AlbumField::Arguments => Some(resolved(album.meta.arguments, " "@)),
            _ => if fresh {
                None
            } else {
                Some(self.of(album))
            },
        }
    }
}

impl SongField {
    /// The field asked for after this one, if any.
    pub open spec fn next(self) -> Option<SongField> {
        match self {
            SongField::Path => Some(SongField::Title),
            SongField::Title => Some(SongField::Artist),
            SongField::Artist => Some(SongField::Genre),
            SongField::Genre => Some(SongField::Year),
            SongField::Year => Some(SongField::Copyright),
            SongField::Copyright => Some(SongField::NewPath),
            SongField::NewPath => Some(SongField::Codec),
            SongField::Codec => Some(SongField::Arguments),
            SongField::Arguments => None,
        }
    }

    /// The value of the field in `song`.
    pub open spec fn of(self, song: SongView) -> Seq<char> {
        match self {
            SongField::Path => song.meta.source_path,
            SongField::Title => song.meta.title,
            SongField::Artist => song.meta.artist,
            SongField::Genre => song.meta.genre,
            SongField::Year => song.meta.year,
            SongField::Copyright => song.meta.copyright,
            SongField::NewPath => song.meta.dest_path,
            SongField::Codec => song.codec,
            SongField::Arguments => song.meta.arguments,
        }
    }

    /// `song` with the field set to `value`.
    pub open spec fn set(self, song: SongView, value: Seq<char>) -> SongView {
        let meta = song.meta;
        match self {
            SongField::Path => SongView {
                meta: MetadataView { source_path: value, ..meta },
                ..song
            },
            SongField::Title => SongView { meta: MetadataView { title: value, ..meta }, ..song },
            SongField::Artist => SongView { meta: MetadataView { artist: value, ..meta }, ..song },
            SongField::Genre => SongView { meta: MetadataView { genre: value, ..meta }, ..song },
            SongField::Year => SongView { meta: MetadataView { year: value, ..meta }, ..song },
            SongField::Copyright => SongView {
                meta: MetadataView { copyright: value, ..meta },
                ..song
            },
            SongField::NewPath => SongView {
                meta: MetadataView { dest_path: value, ..meta },
                ..song
            },
            SongField::Codec => SongView { codec: value, ..song },
            SongField::Arguments => SongView {
                meta: MetadataView { arguments: value, ..meta },
                ..song
            },
        }
    }

    /// What an empty answer stands for. Artist, genre, year and copyright
    /// fall back on the album's value where the song has none; the title
    /// of a song that is revisited keeps its value, and a new song has none to
    /// offer; the other fields keep their value or, where they are empty,
    /// take a fixed text.
    pub open spec fn default_for(self, song: SongView, album: AlbumView, fresh: bool) -> Option<
        Seq<char>,
    > {
        match self {
            SongField::Path => Some(resolved(song.meta.source_path, "."@)),
            SongField::Title => if fresh {
                None
            } else {
                Some(song.meta.title)
            },
            SongField::Artist => Some(resolved(song.meta.artist, album.meta.artist)),
            SongField::Genre => Some(resolved(song.meta.genre, album.meta.genre)),
            SongField::Year => Some(resolved(song.meta.year, album.meta.year)),
            SongField::Copyright => Some(resolved(song.meta.copyright, album.meta.copyright)),
            SongField::NewPath => Some(resolved(song.meta.dest_path, "."@)),
            SongField::Codec => Some(resolved(song.codec, "copy"@)),
            SongField::Arguments => Some(resolved(song.meta.arguments, " "@)),
        }
    }
}

/// The text that a reply stands for: the reply without the white space
/// around it, or `default` where nothing is left.
pub open spec fn answer_text(input: Seq<char>, default: Option<Seq<char>>) -> Seq<char> {
    let typed = trimmed(input);
    if typed.len() > 0 {
        typed
    } else {
        match default {
            Some(text) => text,
            None => Seq::empty(),
        }
    }
}

/// The count that an answer gives, if it is a number that fits.
pub open spec fn count_of(value: Seq<char>) -> Option<usize> {
    match parse_count(value) {
        Some(n) => if n <= usize::MAX {
            Some(n as usize)
        } else {
            None
        },
        None => None,
    }
}

/// The album that round `round` adds: blank, but for its identifier
/// `round + 1` and a comment of one space.
pub open spec fn new_album(round: usize) -> AlbumView {
    AlbumView {
        meta: MetadataView { id: (round + 1) as u64, comment: " "@, ..MetadataView::blank() },
        ..AlbumView::blank()
    }
}

/// The song that round `round` adds to an album titled `title`: blank,
/// but for its identifier and track number `round + 1` and the album's
/// title.
pub open spec fn new_song(round: usize, title: Seq<char>) -> SongView {
    SongView {
        meta: MetadataView { id: (round + 1) as u64, ..MetadataView::blank() },
        album: title,
        track_number: (round + 1) as u64,
        codec: Seq::empty(),
    }
}

/// A song revisited in round `round`: its identifier assigned if it
/// was missing, and its album name taken from the album if it had none.
pub open spec fn revisited_song(song: SongView, round: usize, title: Seq<char>) -> SongView {
    SongView { album: resolved(song.album, title), ..song.with_id_assigned(round as nat) }
}

impl SessionView {
    /// Whether the album under edit was added by this session.
    pub open spec fn fresh_album(self) -> bool {
        self.cursor.album_round >= self.cursor.existing_albums
    }

    /// Whether the song under edit was added by this session.
    pub open spec fn fresh_song(self) -> bool {
        self.cursor.song_round >= self.cursor.existing_songs
    }

    /// The album under edit.
    pub open spec fn album(self) -> AlbumView {
        self.albums[self.cursor.album_at as int]
    }

    /// The song under edit.
    pub open spec fn song(self) -> SongView {
        self.album().songs[self.cursor.song_at as int]
    }

    /// Whether a question about an album or its songs stands.
    pub open spec fn in_album(self) -> bool {
        !(self.cursor.stage is AlbumCount || self.cursor.stage is Finished
            || self.cursor.stage is Aborted)
    }

    /// Whether a question about a song stands.
    pub open spec fn in_song(self) -> bool {
        self.cursor.stage is SongField || self.cursor.stage is KeepSong
    }

    /// The album cursor points into the list, at an album of the kind that
    /// the round says.
    pub open spec fn album_ok(self) -> bool {
        let c = self.cursor;
        &&& c.album_at < self.albums.len()
        &&& if c.album_round < c.existing_albums {
            c.album_at == c.album_round
        } else {
            c.album_round < c.wanted_albums && c.album_at >= c.existing_albums
        }
    }

    /// The song cursor points into the album under edit, at a song of the
    /// kind that the round says.
    pub open spec fn song_ok(self) -> bool {
        let c = self.cursor;
        let songs = self.album().songs;
        &&& c.song_at < songs.len()
        &&& if c.song_round < c.existing_songs {
            c.song_at == c.song_round
        } else {
            c.song_round < c.wanted_songs && c.song_at >= c.existing_songs
        }
    }

    /// Well-formedness: the cursors fit the list.
    pub open spec fn wf(self) -> bool {
        let c = self.cursor;
        &&& c.existing_albums <= self.albums.len()
        &&& self.in_album() ==> self.album_ok()
        &&& self.in_song() ==> self.song_ok() && c.existing_songs <= self.album().songs.len()
        &&& c.stage is KeepAlbum ==> self.fresh_album()
        &&& c.stage is KeepSong ==> self.fresh_song()
    }

    /// The session at the start, over `albums`.
    pub open spec fn start(albums: Seq<AlbumView>, auto_accept: bool) -> SessionView {
        SessionView {
            albums,
            cursor: Cursor {
                stage: Stage::AlbumCount,
                auto_accept,
                existing_albums: albums.len() as usize,
                wanted_albums: 0,
                album_round: 0,
                album_at: 0,
                existing_songs: 0,
                wanted_songs: 0,
                song_round: 0,
                song_at: 0,
            },
        }
    }

    /// What an empty answer to the standing question stands for.
    pub open spec fn default_text(self) -> Option<Seq<char>> {
        let c = self.cursor;
        match c.stage {
            Stage::AlbumCount => if c.existing_albums > 0 {
                Some(decimal(c.existing_albums as nat))
            } else {
                None
            },
            Stage::AlbumField(field) => field.default_for(self.album(), self.fresh_album()),
            Stage::SongCount => Some(decimal(self.album().songs.len())),
            Stage::SongField(field) => field.default_for(
                self.song(),
                self.album(),
                self.fresh_song(),
            ),
            Stage::KeepSong => None,
            Stage::KeepAlbum => Some("y"@),
            Stage::Finished => None,
            Stage::Aborted => None,
        }
    }

    /// The session with another stage.
    pub open spec fn at_stage(self, stage: Stage) -> SessionView {
        SessionView { cursor: Cursor { stage, ..self.cursor }, ..self }
    }

    /// Begins round `round` of the albums: an album that was there is
    /// revisited, with its identifier assigned if it was missing; past
    /// those, a new album is added while fewer were begun than wanted;
    /// past that, the session is finished.
    pub open spec fn enter_album(self, round: usize) -> SessionView {
        let c = self.cursor;
        if round < c.existing_albums {
            SessionView {
                albums: self.albums.update(
                    round as int,
                    self.albums[round as int].with_id_assigned(round as nat),
                ),
                cursor: Cursor {
                    stage: Stage::AlbumField(AlbumField::Title),
                    album_round: round,
                    album_at: round,
                    ..c
                },
            }
        } else if round < c.wanted_albums {
            SessionView {
                albums: self.albums.push(new_album(round)),
                cursor: Cursor {
                    stage: Stage::AlbumField(AlbumField::Title),
                    album_round: round,
                    album_at: self.albums.len() as usize,
                    ..c
                },
            }
        } else {
            self.at_stage(Stage::Finished)
        }
    }

    /// Ends the album under edit: a new album is put to the operator's
    /// decision, an album that was revisited is followed by the next round.
    pub open spec fn leave_album(self) -> SessionView {
        if self.fresh_album() {
            self.at_stage(Stage::KeepAlbum)
        } else {
            self.enter_album((self.cursor.album_round + 1) as usize)
        }
    }

    /// Begins round `round` of the songs of the album under edit: a song
    /// that was there is revisited; past those, a new song is added
    /// while fewer were begun than wanted; past that, the album is ended.
    pub open spec fn enter_song(self, round: usize) -> SessionView {
        let c = self.cursor;
        let at = c.album_at as int;
        let album = self.album();
        if round < c.existing_songs {
            SessionView {
                albums: with_song_at(
                    self.albums,
                    at,
                    round as int,
                    revisited_song(album.songs[round as int], round, album.meta.title),
                ),
                cursor: Cursor {
                    stage: Stage::SongField(SongField::Path),
                    song_round: round,
                    song_at: round,
                    ..c
                },
            }
        } else if round < c.wanted_songs {
            SessionView {
                albums: with_song_added(self.albums, at, new_song(round, album.meta.title)),
                cursor: Cursor {
                    stage: Stage::SongField(SongField::Path),
                    song_round: round,
                    song_at: album.songs.len() as usize,
                    ..c
                },
            }
        } else {
            self.leave_album()
        }
    }

    /// The session after the answer `value` to a question about an album
    /// field.
    pub open spec fn after_album_field(self, field: AlbumField, value: Seq<char>) -> SessionView {
        let changed = SessionView {
            albums: self.albums.update(self.cursor.album_at as int, field.set(self.album(), value)),
            ..self
        };
        match field.next() {
            Some(following) => changed.at_stage(Stage::AlbumField(following)),
            None => changed.at_stage(Stage::SongCount),
        }
    }

    /// The session after the operator asked for `count` songs.
    pub open spec fn after_song_count(self, count: usize) -> SessionView {
        SessionView {
            cursor: Cursor {
                existing_songs: self.album().songs.len() as usize,
                wanted_songs: count,
                ..self.cursor
            },
            ..self
        }.enter_song(0)
    }

    /// The session after the answer `value` to a question about a song
    /// field. After the last field a new song is put to the operator's
    /// decision, unless new songs are kept without asking.
    pub open spec fn after_song_field(self, field: SongField, value: Seq<char>) -> SessionView {
        let c = self.cursor;
        let changed = SessionView {
            albums: with_song_at(
                self.albums,
                c.album_at as int,
                c.song_at as int,
                field.set(self.song(), value),
            ),
            ..self
        };
        match field.next() {
            Some(following) => changed.at_stage(Stage::SongField(following)),
            None => if self.fresh_song() && !c.auto_accept {
                changed.at_stage(Stage::KeepSong)
            } else {
                changed.enter_song((c.song_round + 1) as usize)
            },
        }
    }

    /// The session after the decision `choice` on the song just added:
    /// `y` keeps it, `a` keeps it and every new song after it, `n`
    /// discards it, and anything else aborts the session.
    pub open spec fn after_keep_song(self, choice: char) -> SessionView {
        let c = self.cursor;
        let following = (c.song_round + 1) as usize;
        if choice == 'y' {
            self.enter_song(following)
        } else if choice == 'a' {
            SessionView { cursor: Cursor { auto_accept: true, ..c }, ..self }.enter_song(following)
        } else if choice == 'n' {
            SessionView {
                albums: without_song(self.albums, c.album_at as int, c.song_at as int),
                ..self
            }.enter_song(following)
        } else {
            self.at_stage(Stage::Aborted)
        }
    }

    /// The session after the decision `choice` on the album just added:
    /// `y` keeps it, `n` discards it, and anything else aborts the
    /// session.
    pub open spec fn after_keep_album(self, choice: char) -> SessionView {
        let c = self.cursor;
        let following = (c.album_round + 1) as usize;
        if choice == 'y' {
            self.enter_album(following)
        } else if choice == 'n' {
            SessionView { albums: self.albums.remove(c.album_at as int), ..self }.enter_album(
                following,
            )
        } else {
            self.at_stage(Stage::Aborted)
        }
    }

    /// The session after the answer `value`, which is the text that the
    /// operator's reply stands for.
    pub open spec fn submitted(self, value: Seq<char>) -> SessionView {
        let c = self.cursor;
        match c.stage {
            Stage::AlbumCount => match count_of(value) {
                Some(count) => SessionView {
                    cursor: Cursor { wanted_albums: count, ..c },
                    ..self
                }.enter_album(0),
                None => self,
            },
            Stage::AlbumField(field) => self.after_album_field(field, value),
            Stage::SongCount => match count_of(value) {
                Some(count) => self.after_song_count(count),
                None => self,
            },
            Stage::SongField(field) => self.after_song_field(field, value),
            Stage::KeepSong => if value.len() == 0 {
                self
            } else {
                self.after_keep_song(lowered(value[0]))
            },
            Stage::KeepAlbum => if value.len() == 0 {
                self
            } else {
                self.after_keep_album(lowered(value[0]))
            },
            Stage::Finished => self,
            Stage::Aborted => self,
        }
    }

    /// The session after the reply `input` as the operator typed it.
    pub open spec fn answered(self, input: Seq<char>) -> SessionView {
        self.submitted(answer_text(input, self.default_text()))
    }

    /// The session after the replies `inputs`, taken in order.
    pub open spec fn replayed(self, inputs: Seq<Seq<char>>) -> SessionView
        decreases inputs.len(),
    {
        if inputs.len() == 0 {
            self
        } else {
            self.replayed(inputs.drop_last()).answered(inputs.last())
        }
    }

    /// What the caller is told about the answer `value`.
    pub open spec fn reply_to(self, value: Seq<char>) -> Result<Reply, SessionError> {
        let after = self.submitted(value);
        if after.cursor.stage is Aborted {
            Err(SessionError::InvalidConfirmation)
        } else if after.cursor.stage is Finished {
            Ok(Reply::Done)
        } else if self.stands_still(value) {
            Ok(Reply::Again)
        } else {
            Ok(Reply::Next)
        }
    }

    /// Whether the answer `value` leaves the question standing.
    pub open spec fn stands_still(self, value: Seq<char>) -> bool {
        match self.cursor.stage {
            Stage::AlbumCount => count_of(value) is None,
            Stage::SongCount => count_of(value) is None,
            Stage::KeepSong => value.len() == 0,
            Stage::KeepAlbum => value.len() == 0,
            _ => false,
        }
    }
}

impl AlbumField {
    /// The field asked for after this one, if any.
    pub fn following(self) -> (field: Option<AlbumField>)
        ensures
            field == self.next(),
    {
        match self {
            AlbumField::Title => Some(AlbumField::Artist),
            AlbumField::Artist => Some(AlbumField::Genre),
            AlbumField::Genre => Some(AlbumField::Year),
            AlbumField::Year => Some(AlbumField::Copyright),
            AlbumField::Copyright => Some(AlbumField::NewPath),
            AlbumField::NewPath => Some(AlbumField::AlbumArt),
            AlbumField::AlbumArt => Some(AlbumField::Arguments),
            AlbumField::Arguments => None,
        }
    }

    /// The value of the field in `album`.
    pub fn get(self, album: &Album) -> (value: &String)
        ensures
            value@ == self.of(album@),
    {
        match self {
            AlbumField::Title => &album.meta.title,
            AlbumField::Artist => &album.meta.artist,
            AlbumField::Genre => &album.meta.genre,
            AlbumField::Year => &album.meta.year,
            AlbumField::Copyright => &album.meta.copyright,
            AlbumField::NewPath => &album.meta.dest_path,
            AlbumField::AlbumArt => &album.album_art_path,
            AlbumField::Arguments => &album.meta.arguments,
        }
    }

    /// Sets the field of `album` to `value`.
    pub fn put(self, album: &mut Album, value: String)
        ensures
            final(album)@ == self.set(old(album)@, value@),
    {
        match self {
            AlbumField::Title => {
                album.meta.title = value;
            },
            AlbumField::Artist => {
                album.meta.artist = value;
            },
            AlbumField::Genre => {
                album.meta.genre = value;
            },
            AlbumField::Year => {
                album.meta.year = value;
            },
            AlbumField::Copyright => {
                album.meta.copyright = value;
            },
            AlbumField::NewPath => {
                album.meta.dest_path = value;
            },
            AlbumField::AlbumArt => {
                album.album_art_path = value;
            },
            AlbumField::Arguments => {
                album.meta.arguments = value;
            },
        }
    }

    /// What an empty answer stands for.
    pub fn default_answer(self, album: &Album, fresh: bool) -> (text: Option<String>)
        ensures
            match text {
                Some(t) => self.default_for(album@, fresh) == Some(t@),
                None => self.default_for(album@, fresh) is None,
            },
    {
        match self {
            AlbumField::Copyright => Some(resolve_default(album.meta.copyright.as_str(), " ")),
            AlbumField::NewPath => Some(resolve_default(album.meta.dest_path.as_str(), ".")),
            AlbumField::AlbumArt => Some(resolve_default(album.album_art_path.as_str(), ".")),
            AlbumField::Arguments => Some(resolve_default(album.meta.arguments.as_str(), " ")),
            _ => if fresh {
                None
            } else {
                Some(self.get(album).clone())
            },
        }
    }
}

impl SongField {
    /// The field asked for after this one, if any.
    pub fn following(self) -> (field: Option<SongField>)
        ensures
            field == self.next(),
    {
        match self {
            SongField::Path => Some(SongField::Title),
            SongField::Title => Some(SongField::Artist),
            SongField::Artist => Some(SongField::Genre),
            SongField::Genre => Some(SongField::Year),
            SongField::Year => Some(SongField::Copyright),
            SongField::Copyright => Some(SongField::NewPath),
            SongField::NewPath => Some(SongField::Codec),
            SongField::Codec => Some(SongField::Arguments),
            SongField::Arguments => None,
        }
    }

    /// The value of the field in `song`.
    pub fn get(self, song: &Song) -> (value: &String)
        ensures
            value@ == self.of(song@),
    {
        match self {
            SongField::Path => &song.meta.source_path,
            SongField::Title => &song.meta.title,
            SongField::Artist => &song.meta.artist,
            SongField::Genre => &song.meta.genre,
            SongField::Year => &song.meta.year,
            SongField::Copyright => &song.meta.copyright,
            SongField::NewPath => &song.meta.dest_path,
            SongField::Codec => &song.codec,
            SongField::Arguments => &song.meta.arguments,
        }
    }

    /// Sets the field of `song` to `value`.
    pub fn put(self, song: &mut Song, value: String)
        ensures
            final(song)@ == self.set(old(song)@, value@),
    {
        match self {
            SongField::Path => {
                song.meta.source_path = value;
            },
            SongField::Title => {
                song.meta.title = value;
            },
            SongField::Artist => {
                song.meta.artist = value;
            },
            SongField::Genre => {
                song.meta.genre = value;
            },
            SongField::Year => {
                song.meta.year = value;
            },
            SongField::Copyright => {
                song.meta.copyright = value;
            },
            SongField::NewPath => {
                song.meta.dest_path = value;
            },
            SongField::Codec => {
                song.codec = value;
            },
            SongField::Arguments => {
                song.meta.arguments = value;
            },
        }
    }

    /// What an empty answer stands for.
    pub fn default_answer(self, song: &Song, album: &Album, fresh: bool) -> (text: Option<String>)
        ensures
            match text {
                Some(t) => self.default_for(song@, album@, fresh) == Some(t@),
                None => self.default_for(song@, album@, fresh) is None,
            },
    {
        match self {
            SongField::Path => Some(resolve_default(song.meta.source_path.as_str(), ".")),
            SongField::Title => if fresh {
                None
            } else {
                Some(song.meta.title.clone())
            },
            SongField::Artist => Some(
                resolve_default(song.meta.artist.as_str(), album.meta.artist.as_str()),
            ),
            SongField::Genre => Some(
                resolve_default(song.meta.genre.as_str(), album.meta.genre.as_str()),
            ),
            SongField::Year => Some(
                resolve_default(song.meta.year.as_str(), album.meta.year.as_str()),
            ),
            SongField::Copyright => Some(
                resolve_default(song.meta.copyright.as_str(), album.meta.copyright.as_str()),
            ),
            SongField::NewPath => Some(resolve_default(song.meta.dest_path.as_str(), ".")),
            SongField::Codec => Some(resolve_default(song.codec.as_str(), "copy")),
            SongField::Arguments => Some(resolve_default(song.meta.arguments.as_str(), " ")),
        }
    }
}

/// The count that the answer `value` gives, if it is a number that fits.
pub fn read_answer_count(value: &str) -> (count: Option<usize>)
    ensures
        count == count_of(value@),
{
    let chars = chars_of(value);
    assert(chars@.subrange(0, chars.len() as int) =~= value@);
    match read_count(&chars, 0, chars.len()) {
        Some(n) => if n <= usize::MAX as u64 {
            Some(n as usize)
        } else {
            None
        },
        None => None,
    }
}

/// The text that the reply `input` stands for, where an empty reply
/// stands for `default`.
pub fn read_answer(input: &str, default: Option<String>) -> (value: String)
    ensures
        value@ == answer_text(
            input@,
            match default {
                Some(text) => Some(text@),
                None => None,
            },
        ),
{
    let chars = chars_of(input);
    let (from, to) = trim_bounds(&chars);
    if from < to {
        string_of_range(&chars, from, to)
    } else {
        assert(trimmed(input@).len() == 0);
        match default {
            Some(text) => text,
            None => String::new(),
        }
    }
}

/// Whether a reply to the question whether to save means yes: its first
/// letter, after the white space before it, is `y` or `Y`. An empty reply
/// means yes.
pub open spec fn save_confirmed(input: Seq<char>) -> bool {
    let typed = trimmed(input);
    typed.len() == 0 || lowered(typed[0]) == 'y'
}

/// Decides from the operator's reply whether the albums are to be saved.
pub fn confirm_save_interactively(input: &str) -> (save: bool)
    ensures
        save == save_confirmed(input@),
{
    let chars = chars_of(input);
    let (from, to) = trim_bounds(&chars);
    if from == to {
        true
    } else {
        assert(trimmed(input@)[0] == chars@[from as int]);
        lower(chars[from]) == 'y'
    }
}

impl Session {
    /// A session over `albums`, about to ask how many albums there shall
    /// be. With `auto_accept`, new songs are kept without asking.
    pub fn new(albums: Vec<Album>, auto_accept: bool) -> (session: Session)
        ensures
            session@ == SessionView::start(albums.deep_view(), auto_accept),
            session@.wf(),
    {
        let existing = albums.len();
        Session {
            albums,
            cursor: Cursor {
                stage: Stage::AlbumCount,
                auto_accept,
                existing_albums: existing,
                wanted_albums: 0,
                album_round: 0,
                album_at: 0,
                existing_songs: 0,
                wanted_songs: 0,
                song_round: 0,
                song_at: 0,
            },
        }
    }

    /// Where the session stands.
    pub fn stage(&self) -> (stage: Stage)
        ensures
            stage == self@.cursor.stage,
    {
        self.cursor.stage
    }

    /// The bookkeeping of the session.
    pub fn cursor(&self) -> (cursor: Cursor)
        ensures
            cursor == self@.cursor,
    {
        self.cursor
    }

    /// Whether new songs are kept without asking.
    pub fn auto_accept(&self) -> (on: bool)
        ensures
            on == self@.cursor.auto_accept,
    {
        self.cursor.auto_accept
    }

    /// The albums as they stand.
    pub fn albums(&self) -> (albums: &Vec<Album>)
        ensures
            albums.deep_view() == self@.albums,
    {
        &self.albums
    }

    /// The albums of a finished session; `None` while questions stand and
    /// after the session was aborted, so that nothing of an unfinished
    /// session is saved.
    pub fn into_albums(self) -> (albums: Option<Vec<Album>>)
        ensures
            match albums {
                Some(list) => self@.cursor.stage is Finished && list.deep_view() == self@.albums,
                None => !(self@.cursor.stage is Finished),
            },
    {
        match self.cursor.stage {
            Stage::Finished => Some(self.albums),
            _ => None,
        }
    }

    /// What an empty reply to the standing question stands for, if
    /// anything.
    pub fn default_answer(&self) -> (text: Option<String>)
        requires
            self@.wf(),
        ensures
            match text {
                Some(t) => self@.default_text() == Some(t@),
                None => self@.default_text() is None,
            },
    {
        let c = self.cursor;
        match c.stage {
            Stage::AlbumCount => if c.existing_albums > 0 {
                let mut text = String::new();
                push_decimal(&mut text, c.existing_albums as u64);
                assert(text@ =~= decimal(c.existing_albums as nat));
                Some(text)
            } else {
                None
            },
            Stage::AlbumField(field) => field.default_answer(
                &self.albums[c.album_at],
                c.album_round >= c.existing_albums,
            ),
            Stage::SongCount => {
                let mut text = String::new();
                let count = self.albums[c.album_at].songs.len();
                push_decimal(&mut text, count as u64);
                assert(text@ =~= decimal(count as nat));
                Some(text)
            },
            Stage::SongField(field) => field.default_answer(
                &self.albums[c.album_at].songs[c.song_at],
                &self.albums[c.album_at],
                c.song_round >= c.existing_songs,
            ),
            Stage::KeepSong => None,
            Stage::KeepAlbum => Some("y".to_owned()),
            Stage::Finished => None,
            Stage::Aborted => None,
        }
    }

    /// Begins round `round` of the albums.
    fn enter_album(&mut self, round: usize)
        requires
            old(self)@.cursor.existing_albums <= old(self)@.albums.len(),
        ensures
            final(self)@ == old(self)@.enter_album(round),
            final(self)@.wf(),
    {
        let c = self.cursor;
        if round < c.existing_albums {
            let ghost before = self.albums;
            self.albums[round].assign_id_if_missing(round);
            proof {
                lemma_albums_updated(before, self.albums, round as int);
            }
            self.cursor.stage = Stage::AlbumField(AlbumField::Title);
            self.cursor.album_round = round;
            self.cursor.album_at = round;
        } else if round < c.wanted_albums {
            let mut album = Album::new();
            album.meta.id = round as u64 + 1;
            album.meta.comment = " ".to_owned();
            let at = self.albums.len();
            let ghost before = self.albums;
            self.albums.push(album);
            proof {
                lemma_albums_pushed(before, self.albums, album);
            }
            self.cursor.stage = Stage::AlbumField(AlbumField::Title);
            self.cursor.album_round = round;
            self.cursor.album_at = at;
        } else {
            self.cursor.stage = Stage::Finished;
        }
    }

    /// Ends the album under edit.
    fn leave_album(&mut self)
        requires
            old(self)@.cursor.existing_albums <= old(self)@.albums.len(),
            old(self)@.album_ok(),
        ensures
            final(self)@ == old(self)@.leave_album(),
            final(self)@.wf(),
    {
        if self.cursor.album_round >= self.cursor.existing_albums {
            self.cursor.stage = Stage::KeepAlbum;
        } else {
            let following = self.cursor.album_round + 1;
            self.enter_album(following);
        }
    }

    /// Begins round `round` of the songs of the album under edit.
    fn enter_song(&mut self, round: usize)
        requires
            old(self)@.cursor.existing_albums <= old(self)@.albums.len(),
            old(self)@.album_ok(),
            old(self)@.cursor.existing_songs <= old(self)@.album().songs.len(),
        ensures
            final(self)@ == old(self)@.enter_song(round),
            final(self)@.wf(),
    {
        let c = self.cursor;
        let at = c.album_at;
        if round < c.existing_songs {
            let ghost before = self.albums;
            let title = self.albums[at].meta.title.clone();
            self.albums[at].songs[round].meta.assign_id_if_missing(round);
            if self.albums[at].songs[round].album.as_str().is_empty() {
                self.albums[at].songs[round].album = title;
            }
            proof {
                lemma_songs_updated(
                    before[at as int].songs,
                    self.albums[at as int].songs,
                    round as int,
                );
                lemma_albums_updated(before, self.albums, at as int);
            }
            self.cursor.stage = Stage::SongField(SongField::Path);
            self.cursor.song_round = round;
            self.cursor.song_at = round;
        } else if round < c.wanted_songs {
            let mut song = Song::new();
            song.meta.id = round as u64 + 1;
            song.track_number = round as u64 + 1;
            song.album = self.albums[at].meta.title.clone();
            let index = self.albums[at].songs.len();
            let ghost before = self.albums;
            self.albums[at].songs.push(song);
            proof {
                lemma_songs_pushed(before[at as int].songs, self.albums[at as int].songs, song);
                lemma_albums_updated(before, self.albums, at as int);
            }
            self.cursor.stage = Stage::SongField(SongField::Path);
            self.cursor.song_round = round;
            self.cursor.song_at = index;
        } else {
            self.leave_album();
        }
    }

    /// Records the answer `value`, which is the text that the operator's
    /// reply stands for, and moves on. An answer to a count question that
    /// is not a number leaves the question standing, and so does an empty
    /// answer to a keep-or-discard question. An answer to a
    /// keep-or-discard question that is none of the allowed letters aborts
    /// the session with `InvalidConfirmation`.
    pub fn submit(&mut self, value: String) -> (reply: Result<Reply, SessionError>)
        requires
            old(self)@.wf(),
        ensures
            final(self)@ == old(self)@.submitted(value@),
            reply == old(self)@.reply_to(value@),
            final(self)@.wf(),
    {
        let c = self.cursor;
        let mut again = false;
        match c.stage {
            Stage::AlbumCount => match read_answer_count(value.as_str()) {
                Some(count) => {
                    self.cursor.wanted_albums = count;
                    self.enter_album(0);
                },
                None => {
                    again = true;
                },
            },
            Stage::AlbumField(field) => {
                let ghost before = self.albums;
                field.put(&mut self.albums[c.album_at], value);
                proof {
                    lemma_albums_updated(before, self.albums, c.album_at as int);
                }
                match field.following() {
                    Some(following) => {
                        self.cursor.stage = Stage::AlbumField(following);
                    },
                    None => {
                        self.cursor.stage = Stage::SongCount;
                    },
                }
            },
            Stage::SongCount => match read_answer_count(value.as_str()) {
                Some(count) => {
                    self.cursor.existing_songs = self.albums[c.album_at].songs.len();
                    self.cursor.wanted_songs = count;
                    self.enter_song(0);
                },
                None => {
                    again = true;
                },
            },
            Stage::SongField(field) => {
                let ghost before = self.albums;
                field.put(&mut self.albums[c.album_at].songs[c.song_at], value);
                proof {
                    lemma_songs_updated(
                        before[c.album_at as int].songs,
                        self.albums[c.album_at as int].songs,
                        c.song_at as int,
                    );
                    lemma_albums_updated(before, self.albums, c.album_at as int);
                }
                match field.following() {
                    Some(following) => {
                        self.cursor.stage = Stage::SongField(following);
                    },
                    None => if c.song_round >= c.existing_songs && !c.auto_accept {
                        self.cursor.stage = Stage::KeepSong;
                    } else {
                        self.enter_song(c.song_round + 1);
                    },
                }
            },
            Stage::KeepSong => {
                let letters = chars_of(value.as_str());
                if letters.len() == 0 {
                    again = true;
                } else {
                    let choice = lower(letters[0]);
                    if choice == 'y' {
                        self.enter_song(c.song_round + 1);
                    } else if choice == 'a' {
                        self.cursor.auto_accept = true;
                        self.enter_song(c.song_round + 1);
                    } else if choice == 'n' {
                        let ghost before = self.albums;
                        self.albums[c.album_at].songs.remove(c.song_at);
                        proof {
                            lemma_songs_removed(
                                before[c.album_at as int].songs,
                                self.albums[c.album_at as int].songs,
                                c.song_at as int,
                            );
                            lemma_albums_updated(before, self.albums, c.album_at as int);
                        }
                        self.enter_song(c.song_round + 1);
                    } else {
                        self.cursor.stage = Stage::Aborted;
                    }
                }
            },
            Stage::KeepAlbum => {
                let letters = chars_of(value.as_str());
                if letters.len() == 0 {
                    again = true;
                } else {
                    let choice = lower(letters[0]);
                    if choice == 'y' {
                        self.enter_album(c.album_round + 1);
                    } else if choice == 'n' {
                        let ghost before = self.albums;
                        self.albums.remove(c.album_at);
                        proof {
                            lemma_albums_removed(before, self.albums, c.album_at as int);
                        }
                        self.enter_album(c.album_round + 1);
                    } else {
                        self.cursor.stage = Stage::Aborted;
                    }
                }
            },
            Stage::Finished => {},
            Stage::Aborted => {},
        }
        match self.cursor.stage {
            Stage::Aborted => Err(SessionError::InvalidConfirmation),
            Stage::Finished => Ok(Reply::Done),
            _ => if again {
                Ok(Reply::Again)
            } else {
                Ok(Reply::Next)
            },
        }
    }

    /// Takes the operator's reply to the standing question. White space
    /// around the reply is dropped; if nothing is left, the reply stands
    /// for the question's default. The text so found is recorded as
    /// [`Session::submit`] says.
    pub fn answer(&mut self, input: &str) -> (reply: Result<Reply, SessionError>)
        requires
            old(self)@.wf(),
        ensures
            final(self)@ == old(self)@.answered(input@),
            reply == old(self)@.reply_to(answer_text(input@, old(self)@.default_text())),
            final(self)@.wf(),
    {
        let default = self.default_answer();
        let value = read_answer(input, default);
        self.submit(value)
    }

    /// Takes a whole script of replies, in order, as [`Session::answer`]
    /// takes each. Replies that come after the session has ended change
    /// nothing.
    pub fn replay(&mut self, inputs: &Vec<String>)
        requires
            old(self)@.wf(),
        ensures
            final(self)@ == old(self)@.replayed(inputs.deep_view()),
            final(self)@.wf(),
    {
        let ghost all = inputs.deep_view();
        let mut i: usize = 0;
        while i < inputs.len()
            invariant
                i <= inputs.len(),
                all == inputs.deep_view(),
                self@.wf(),
                self@ == old(self)@.replayed(all.take(i as int)),
            decreases inputs.len() - i,
        {
            let _ = self.answer(inputs[i].as_str());
            i += 1;
            proof {
                assert(all.take(i as int).drop_last() =~= all.take(i - 1));
                assert(all.take(i as int).last() == inputs[i - 1]@);
            }
        }
        assert(all.take(i as int) =~= all);
    }
}

/// A well-formed session stays well formed whatever is answered, as long
/// as its lists can grow by one without leaving the range of an index.
pub proof fn lemma_submitted_wf(session: SessionView, value: Seq<char>)
    requires
        session.wf(),
        session.albums.len() < usize::MAX,
        forall|i: int|
            0 <= i < session.albums.len() ==> (#[trigger] session.albums[i]).songs.len()
                < usize::MAX,
    ensures
        session.submitted(value).wf(),
{
}

/// Keeping new songs without asking cannot be switched off: once it is
/// on, it is on after every answer.
pub proof fn lemma_auto_accept_stays(session: SessionView, value: Seq<char>)
    requires
        session.cursor.auto_accept,
    ensures
        session.submitted(value).cursor.auto_accept,
{
}

/// While new songs are kept without asking, the question whether to keep
/// a song is never asked.
pub proof fn lemma_auto_accept_skips_question(session: SessionView, value: Seq<char>)
    requires
        session.cursor.auto_accept,
        !(session.cursor.stage is KeepSong),
    ensures
        !(session.submitted(value).cursor.stage is KeepSong),
{
}

/// A session that has ended takes no more answers.
pub proof fn lemma_ended_session_is_fixed(session: SessionView, value: Seq<char>)
    requires
        session.cursor.stage is Finished || session.cursor.stage is Aborted,
    ensures
        session.submitted(value) == session,
{
}

/// An answer that aborts the session changes nothing but the stage: what
/// was entered so far is neither completed nor removed, and with the
/// session aborted none of it is handed out.
pub proof fn lemma_abort_changes_no_album(session: SessionView, value: Seq<char>)
    requires
        !(session.cursor.stage is Aborted),
        session.submitted(value).cursor.stage is Aborted,
    ensures
        session.submitted(value) == session.at_stage(Stage::Aborted),
        session.cursor.stage is KeepSong || session.cursor.stage is KeepAlbum,
{
}

/// The albums that were in the list when the session began are never
/// removed, and the session never forgets how many they were.
pub proof fn lemma_existing_albums_are_kept(session: SessionView, value: Seq<char>)
    requires
        session.wf(),
    ensures
        session.submitted(value).cursor.existing_albums == session.cursor.existing_albums,
        session.submitted(value).albums.len() >= session.cursor.existing_albums,
{
}

/// An empty reply to a question about a field of a song leaves the song
/// with the value the question offered: for artist, genre, year and
/// copyright that is the song's own value, or the album's where the song
/// has none.
pub proof fn lemma_empty_reply_takes_default(session: SessionView, field: SongField)
    requires
        session.wf(),
        session.cursor.stage == Stage::SongField(field),
        field.next() is Some,
        field.default_for(session.song(), session.album(), session.fresh_song()) is Some,
    ensures
        field.of(session.answered(Seq::empty()).song()) == field.default_for(
            session.song(),
            session.album(),
            session.fresh_song(),
        )->0,
{
    assert(trimmed(Seq::<char>::empty()) =~= Seq::<char>::empty());
}

} // verus!
