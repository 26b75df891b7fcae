//! The grammar of a document. Lines are taken one at a time by a reader
//! that keeps the albums finished so far, the album that is open and the
//! song that is open; a line either moves the reader on or is a fault.

use vstd::prelude::*;
use crate::markup::line::{Line, LineView, NumberKey, TextKey};
use crate::model::{Album, AlbumView, Metadata, MetadataView, Song, SongView};

verus! {

/// Why a document is not well formed.
#[derive(Clone, Copy, Debug, PartialEq, Eq, Structural)]
pub enum Fault {
    /// The line is neither a marker, nor a field, nor blank; or the value
    /// of a known field cannot be read.
    BadLine,
    /// A block is opened or closed where the grammar has no place for it.
    MisplacedMarker,
    /// A known field stands outside every block, or in a block of the
    /// other kind.
    MisplacedField,
    /// A track number of zero.
    TrackOutOfRange,
    /// An album announces a number of songs and holds another.
    SongCountMismatch,
    /// The document ends inside a block.
    Unterminated,
}

/// The error of the reader: the document violates the grammar. `line`
/// counts from zero.
#[derive(Clone, Copy, Debug, PartialEq, Eq, Structural)]
pub struct MalformedMarkup {
    pub line: usize,
    pub fault: Fault,
}

/// Metadata with the text field `key` set to `value`; `None` for the keys
/// that are not part of the shared metadata.
pub open spec fn meta_with_text(meta: MetadataView, key: TextKey, value: Seq<char>) -> Option<
    MetadataView,
> {
    match key {
        TextKey::Title => Some(MetadataView { title: value, ..meta }),
        TextKey::Artist => Some(MetadataView { artist: value, ..meta }),
        TextKey::Genre => Some(MetadataView { genre: value, ..meta }),
        TextKey::Year => Some(MetadataView { year: value, ..meta }),
        TextKey::Comment => Some(MetadataView { comment: value, ..meta }),
        TextKey::Arguments => Some(MetadataView { arguments: value, ..meta }),
        TextKey::Copyright => Some(MetadataView { copyright: value, ..meta }),
        TextKey::Path => Some(MetadataView { source_path: value, ..meta }),
        TextKey::NewPath => Some(MetadataView { dest_path: value, ..meta }),
        _ => None,
    }
}

/// A song with the text field `key` set to `value`; `None` where songs
/// have no such field.
pub open spec fn song_with_text(song: SongView, key: TextKey, value: Seq<char>) -> Option<
    SongView,
> {
    match key {
        TextKey::Album => Some(SongView { album: value, ..song }),
        TextKey::Codec => Some(SongView { codec: value, ..song }),
        _ => match meta_with_text(song.meta, key, value) {
            Some(meta) => Some(SongView { meta, ..song }),
            None => None,
        },
    }
}

/// An album with the text field `key` set to `value`; `None` where albums
/// have no such field.
pub open spec fn album_with_text(album: AlbumView, key: TextKey, value: Seq<char>) -> Option<
    AlbumView,
> {
    match key {
        TextKey::AlbumArt => Some(AlbumView { album_art_path: value, ..album }),
        _ => match meta_with_text(album.meta, key, value) {
            Some(meta) => Some(AlbumView { meta, ..album }),
            None => None,
        },
    }
}

/// Sets the text field `key` of `meta`; says whether there is such a field.
fn set_meta_text(meta: &mut Metadata, key: TextKey, value: String) -> (known: bool)
    ensures
        match meta_with_text(old(meta)@, key, value@) {
            Some(changed) => known && final(meta)@ == changed,
            None => !known && final(meta)@ == old(meta)@,
        },
{
    match key {
        TextKey::Title => {
            meta.title = value;
        },
        TextKey::Artist => {
            meta.artist = value;
        },
        TextKey::Genre => {
            meta.genre = value;
        },
        TextKey::Year => {
            meta.year = value;
        },
        TextKey::Comment => {
            meta.comment = value;
        },
        TextKey::Arguments => {
            meta.arguments = value;
        },
        TextKey::Copyright => {
            meta.copyright = value;
        },
        TextKey::Path => {
            meta.source_path = value;
        },
        TextKey::NewPath => {
            meta.dest_path = value;
        },
        _ => {
            return false;
        },
    }
    true
}

/// Sets the text field `key` of `song`; says whether songs have it.
fn set_song_text(song: &mut Song, key: TextKey, value: String) -> (known: bool)
    ensures
        match song_with_text(old(song)@, key, value@) {
            Some(changed) => known && final(song)@ == changed,
            None => !known && final(song)@ == old(song)@,
        },
{
    match key {
        TextKey::Album => {
            song.album = value;
            true
        },
        TextKey::Codec => {
            song.codec = value;
            true
        },
        _ => set_meta_text(&mut song.meta, key, value),
    }
}

/// Sets the text field `key` of `album`; says whether albums have it.
fn set_album_text(album: &mut Album, key: TextKey, value: String) -> (known: bool)
    ensures
        match album_with_text(old(album)@, key, value@) {
            Some(changed) => known && final(album)@ == changed,
            None => !known && final(album)@ == old(album)@,
        },
{
    match key {
        TextKey::AlbumArt => {
            album.album_art_path = value;
            true
        },
        _ => set_meta_text(&mut album.meta, key, value),
    }
}

/// State of the reader between two lines.
pub struct Reader {
    /// Albums whose block is closed.
    pub albums: Vec<Album>,
    /// The album whose block is open.
    pub album: Option<Album>,
    /// The number of songs that the open album announced.
    pub declared: Option<u64>,
    /// The song whose block is open.
    pub song: Option<Song>,
}

/// Mathematical value of a [`Reader`].
pub struct ReaderView {
    pub albums: Seq<AlbumView>,
    pub album: Option<AlbumView>,
    pub declared: Option<u64>,
    pub song: Option<SongView>,
}

impl View for Reader {
    type V = ReaderView;

    open spec fn view(&self) -> ReaderView {
        ReaderView {
            albums: self.albums.deep_view(),
            album: match self.album {
                Some(album) => Some(album@),
                None => None,
            },
            declared: self.declared,
            song: match self.song {
                Some(song) => Some(song@),
                None => None,
            },
        }
    }
}

impl ReaderView {
    /// The reader before the first line.
    pub open spec fn start() -> ReaderView {
        ReaderView { albums: Seq::empty(), album: None, declared: None, song: None }
    }

    /// The reader after a text field.
    pub open spec fn take_text(self, key: TextKey, value: Seq<char>) -> Result<ReaderView, Fault> {
        if let Some(song) = self.song {
            match song_with_text(song, key, value) {
                Some(changed) => Ok(ReaderView { song: Some(changed), ..self }),
                None => Err(Fault::MisplacedField),
            }
        } else if let Some(album) = self.album {
            match album_with_text(album, key, value) {
                Some(changed) => Ok(ReaderView { album: Some(changed), ..self }),
                None => Err(Fault::MisplacedField),
            }
        } else {
            Err(Fault::MisplacedField)
        }
    }

    /// The reader after a numeric field.
    pub open spec fn take_number(self, key: NumberKey, value: u64) -> Result<ReaderView, Fault> {
        if let Some(song) = self.song {
            match key {
                NumberKey::Id => Ok(
                    ReaderView {
                        song: Some(
                            SongView { meta: MetadataView { id: value, ..song.meta }, ..song },
                        ),
                        ..self
                    },
                ),
                NumberKey::Track => if value >= 1 {
                    Ok(ReaderView { song: Some(SongView { track_number: value, ..song }), ..self })
                } else {
                    Err(Fault::TrackOutOfRange)
                },
                NumberKey::Songs => Err(Fault::MisplacedField),
            }
        } else if let Some(album) = self.album {
            match key {
                NumberKey::Id => Ok(
                    ReaderView {
                        album: Some(
                            AlbumView { meta: MetadataView { id: value, ..album.meta }, ..album },
                        ),
                        ..self
                    },
                ),
                NumberKey::Songs => Ok(ReaderView { declared: Some(value), ..self }),
                NumberKey::Track => Err(Fault::MisplacedField),
            }
        } else {
            Err(Fault::MisplacedField)
        }
    }

    /// The reader after one more line, or the fault that the line is.
    pub open spec fn step(self, line: LineView) -> Result<ReaderView, Fault> {
        match line {
            LineView::Blank => Ok(self),
            LineView::Extra => Ok(self),
            LineView::Bad => Err(Fault::BadLine),
            LineView::AlbumOpen => if self.album is None {
                Ok(ReaderView { album: Some(AlbumView::blank()), declared: None, ..self })
            } else {
                Err(Fault::MisplacedMarker)
            },
            LineView::SongOpen => if self.album is Some && self.song is None {
                Ok(ReaderView { song: Some(SongView::blank()), ..self })
            } else {
                Err(Fault::MisplacedMarker)
            },
            LineView::SongClose => if self.album is Some && self.song is Some {
                let album = self.album->0;
                Ok(
                    ReaderView {
                        album: Some(AlbumView { songs: album.songs.push(self.song->0), ..album }),
                        song: None,
                        ..self
                    },
                )
            } else {
                Err(Fault::MisplacedMarker)
            },
            LineView::AlbumClose => if self.album is Some && self.song is None {
                if self.declared is Some && self.declared->0 != (self.album->0).songs.len() {
                    Err(Fault::SongCountMismatch)
                } else {
                    Ok(
                        ReaderView {
                            albums: self.albums.push(self.album->0),
                            album: None,
                            declared: None,
                            ..self
                        },
                    )
                }
            } else {
                Err(Fault::MisplacedMarker)
            },
            LineView::Text(key, value) => self.take_text(key, value),
            LineView::Number(key, value) => self.take_number(key, value),
        }
    }

    /// The albums read, once the last line is taken; a document that ends
    /// inside a block has none.
    pub open spec fn finish(self) -> Result<Seq<AlbumView>, Fault> {
        if self.album is None && self.song is None {
            Ok(self.albums)
        } else {
            Err(Fault::Unterminated)
        }
    }

    /// Every album held, finished or open, is valid, and so is the open
    /// song.
    pub open spec fn valid(self) -> bool {
        &&& crate::model::all_valid(self.albums)
        &&& self.album is Some ==> (self.album->0).valid()
        &&& self.song is Some ==> (self.song->0).valid()
    }
}

impl Reader {
    /// The reader before the first line.
    pub fn new() -> (reader: Reader)
        ensures
            reader@ == ReaderView::start(),
    {
        let reader = Reader { albums: Vec::new(), album: None, declared: None, song: None };
        assert(reader.albums.deep_view() =~= Seq::empty());
        reader
    }

    /// Takes one more line.
    pub fn accept(self, line: Line) -> (next: Result<Reader, Fault>)
        ensures
            match next {
                Ok(reader) => self@.step(line@) == Ok::<ReaderView, Fault>(reader@),
                Err(fault) => self@.step(line@) == Err::<ReaderView, Fault>(fault),
            },
    {
        let Reader { albums, album, declared, song } = self;
        match line {
            Line::Blank => Ok(Reader { albums, album, declared, song }),
            Line::Extra => Ok(Reader { albums, album, declared, song }),
            Line::Bad => Err(Fault::BadLine),
            Line::AlbumOpen => match album {
                None => Ok(Reader { albums, album: Some(Album::new()), declared: None, song }),
                Some(_) => Err(Fault::MisplacedMarker),
            },
            Line::SongOpen => match (&album, &song) {
                (Some(_), None) => Ok(Reader { albums, album, declared, song: Some(Song::new()) }),
                _ => Err(Fault::MisplacedMarker),
            },
            Line::SongClose => match (album, song) {
                (Some(mut open), Some(done)) => {
                    let ghost before = open.songs.deep_view();
                    open.songs.push(done);
                    assert(open.songs.deep_view() =~= before.push(done@));
                    Ok(Reader { albums, album: Some(open), declared, song: None })
                },
                _ => Err(Fault::MisplacedMarker),
            },
            Line::AlbumClose => match (album, song) {
                (Some(done), None) => {
                    let mismatch = match declared {
                        Some(count) => count != done.songs.len() as u64,
                        None => false,
                    };
                    if mismatch {
                        Err(Fault::SongCountMismatch)
                    } else {
                        let ghost before = albums.deep_view();
                        let mut albums = albums;
                        albums.push(done);
                        assert(albums.deep_view() =~= before.push(done@));
                        Ok(Reader { albums, album: None, declared: None, song: None })
                    }
                },
                _ => Err(Fault::MisplacedMarker),
            },
            Line::Text(key, value) => match (album, song) {
                (album, Some(mut open)) => {
                    if set_song_text(&mut open, key, value) {
                        Ok(Reader { albums, album, declared, song: Some(open) })
                    } else {
                        Err(Fault::MisplacedField)
                    }
                },
                (Some(mut open), None) => {
                    if set_album_text(&mut open, key, value) {
                        Ok(Reader { albums, album: Some(open), declared, song: None })
                    } else {
                        Err(Fault::MisplacedField)
                    }
                },
                (None, None) => Err(Fault::MisplacedField),
            },
            Line::Number(key, value) => match (album, song) {
                (album, Some(mut open)) => match key {
                    NumberKey::Id => {
                        open.meta.id = value;
                        Ok(Reader { albums, album, declared, song: Some(open) })
                    },
                    NumberKey::Track => if value >= 1 {
                        open.track_number = value;
                        Ok(Reader { albums, album, declared, song: Some(open) })
                    } else {
                        Err(Fault::TrackOutOfRange)
                    },
                    NumberKey::Songs => Err(Fault::MisplacedField),
                },
                (Some(mut open), None) => match key {
                    NumberKey::Id => {
                        open.meta.id = value;
                        Ok(Reader { albums, album: Some(open), declared, song: None })
                    },
                    NumberKey::Songs => Ok(
                        Reader { albums, album: Some(open), declared: Some(value), song: None },
                    ),
                    NumberKey::Track => Err(Fault::MisplacedField),
                },
                (None, None) => Err(Fault::MisplacedField),
            },
        }
    }

    /// Ends the reading: the albums, unless a block is still open.
    pub fn finish(self) -> (albums: Result<Vec<Album>, Fault>)
        ensures
            match albums {
                Ok(list) => self@.finish() == Ok::<Seq<AlbumView>, Fault>(list.deep_view()),
                Err(fault) => self@.finish() == Err::<Seq<AlbumView>, Fault>(fault),
            },
    {
        if self.album.is_none() && self.song.is_none() {
            Ok(self.albums)
        } else {
            Err(Fault::Unterminated)
        }
    }
}

/// A line keeps a valid reader valid.
pub proof fn lemma_step_keeps_valid(state: ReaderView, line: LineView)
    requires
        state.valid(),
    ensures
        state.step(line) matches Ok(next) ==> next.valid(),
{
}

} // verus!
