use masteringutil::editing::assign_missing_ids;
use masteringutil::markup::codec::{parse, serialize};
use masteringutil::markup::document::{Fault, MalformedMarkup};
use masteringutil::model::{Album, Song};

fn song(id: u64, title: &str, track: u64) -> Song {
    let mut song = Song::new();
    song.meta.id = id;
    song.meta.title = title.to_string();
    song.track_number = track;
    song
}

fn album(id: u64, title: &str, songs: Vec<Song>) -> Album {
    let mut album = Album::new();
    album.meta.id = id;
    album.meta.title = title.to_string();
    album.songs = songs;
    album
}

fn full_song() -> Song {
    let mut song = Song::new();
    song.meta.id = 7;
    song.meta.title = "Opening".to_string();
    song.meta.artist = "The Band".to_string();
    song.meta.genre = "Rock".to_string();
    song.meta.year = "1999".to_string();
    song.meta.comment = "live".to_string();
    song.meta.arguments = "-b:a 320k".to_string();
    song.meta.copyright = "(c) 1999".to_string();
    song.meta.source_path = "raw/01.wav".to_string();
    song.meta.dest_path = "01 Opening.mp3".to_string();
    song.album = "Demo".to_string();
    song.track_number = 3;
    song.codec = "mp3".to_string();
    song
}

fn full_album() -> Album {
    let mut album = Album::new();
    album.meta.id = 2;
    album.meta.title = "Demo".to_string();
    album.meta.artist = "The Band".to_string();
    album.meta.genre = "Rock".to_string();
    album.meta.year = "1999".to_string();
    album.meta.comment = " ".to_string();
    album.meta.arguments = "-ar 44100".to_string();
    album.meta.copyright = "(c)".to_string();
    album.meta.source_path = "raw".to_string();
    album.meta.dest_path = "out".to_string();
    album.album_art_path = "cover.png".to_string();
    album.songs = vec![full_song()];
    album
}

fn round_trips(albums: Vec<Album>) {
    let text = serialize(&albums);
    assert_eq!(parse(&text), Ok(albums));
}

fn fails(text: &str, line: usize, fault: Fault) {
    assert_eq!(parse(text), Err(MalformedMarkup { line, fault }));
}

#[test]
fn serialize_of_no_albums_is_empty() {
    assert_eq!(serialize(&Vec::new()), "");
}

#[test]
fn parse_of_empty_text_is_no_albums() {
    assert_eq!(parse(""), Ok(Vec::new()));
}

#[test]
fn serialize_writes_fields_in_fixed_order() {
    let expected = "[album]\n\
id=2\n\
title=Demo\n\
artist=The Band\n\
genre=Rock\n\
year=1999\n\
comment= \n\
arguments=-ar 44100\n\
copyright=(c)\n\
path=raw\n\
newpath=out\n\
albumart=cover.png\n\
songs=1\n\
[song]\n\
id=7\n\
title=Opening\n\
artist=The Band\n\
album=Demo\n\
genre=Rock\n\
year=1999\n\
comment=live\n\
arguments=-b:a 320k\n\
copyright=(c) 1999\n\
path=raw/01.wav\n\
newpath=01 Opening.mp3\n\
codec=mp3\n\
track=3\n\
[/song]\n\
[/album]\n";
    assert_eq!(serialize(&vec![full_album()]), expected);
}

#[test]
fn parse_reads_every_field() {
    let text = serialize(&vec![full_album()]);
    let albums = parse(&text).unwrap();
    assert_eq!(albums, vec![full_album()]);
    assert_eq!(albums[0].songs[0].meta.dest_path, "01 Opening.mp3");
    assert_eq!(albums[0].songs[0].track_number, 3);
    assert_eq!(albums[0].album_art_path, "cover.png");
}

#[test]
fn serialize_is_deterministic() {
    let albums = vec![full_album(), album(0, "Other", vec![])];
    assert_eq!(serialize(&albums), serialize(&albums.clone()));
}

#[test]
fn round_trip_of_no_albums() {
    round_trips(Vec::new());
}

#[test]
fn round_trip_of_an_album_without_songs() {
    round_trips(vec![album(1, "Empty", vec![])]);
}

#[test]
fn round_trip_of_blank_entities() {
    round_trips(vec![Album::new()]);
    let mut blank = Album::new();
    blank.songs = vec![Song::new(), Song::new()];
    round_trips(vec![blank, Album::new()]);
}

#[test]
fn round_trip_of_several_albums() {
    round_trips(vec![
        full_album(),
        album(0, "Second", vec![song(0, "a", 1), song(0, "b", 2), song(5, "c", 9)]),
        album(3, "", vec![]),
    ]);
}

#[test]
fn round_trip_of_values_with_delimiters() {
    let mut tricky = full_album();
    tricky.meta.title = "a=b".to_string();
    tricky.meta.artist = "[album]".to_string();
    tricky.meta.genre = "[/song]".to_string();
    tricky.meta.year = "line one\nline two".to_string();
    tricky.meta.comment = "back\\slash \\n not a line feed".to_string();
    tricky.meta.arguments = "\r\n".to_string();
    tricky.meta.copyright = "title=injected\n[song]\nid=9".to_string();
    tricky.album_art_path = "\\".to_string();
    tricky.songs[0].meta.title = "=".to_string();
    tricky.songs[0].meta.comment = "ends with return\r".to_string();
    tricky.songs[0].album = "\n".to_string();
    tricky.songs[0].codec = "\\\\n".to_string();
    round_trips(vec![tricky]);
}

#[test]
fn round_trip_keeps_white_space_and_unicode() {
    let mut spaced = full_album();
    spaced.meta.title = "  padded  ".to_string();
    spaced.meta.comment = " ".to_string();
    spaced.meta.artist = "Björk & 坂本".to_string();
    spaced.songs[0].meta.title = "\ttab".to_string();
    round_trips(vec![spaced]);
}

#[test]
fn round_trip_of_extreme_numbers() {
    let mut big = album(u64::MAX, "Big", vec![song(u64::MAX, "s", u64::MAX)]);
    big.songs.push(song(0, "t", 1));
    round_trips(vec![big]);
}

#[test]
fn escapes_are_written_as_two_characters() {
    let mut one = Album::new();
    one.meta.title = "a\\b\nc\rd".to_string();
    let text = serialize(&vec![one]);
    assert!(text.contains("title=a\\\\b\\nc\\rd\n"));
    assert_eq!(text.matches('\n').count(), 14);
    assert!(!text.contains('\r'));
}

#[test]
fn demo_scenario() {
    let text = "[album]\ntitle=Demo\n[song]\ntitle=One\n[/song]\n[song]\ntitle=Two\n[/song]\n[/album]\n";
    let mut albums = parse(text).unwrap();
    assert_eq!(albums.len(), 1);
    assert_eq!(albums[0].meta.id, 0);
    assert_eq!(albums[0].meta.title, "Demo");
    assert_eq!(albums[0].songs.len(), 2);
    assert_eq!(albums[0].songs[0].meta.id, 0);
    assert_eq!(albums[0].songs[1].meta.title, "Two");
    assign_missing_ids(&mut albums);
    assert_eq!(albums[0].meta.id, 1);
    assert_eq!(albums[0].songs[0].meta.id, 1);
    assert_eq!(albums[0].songs[1].meta.id, 2);
    let written = serialize(&albums);
    let again = parse(&written).unwrap();
    assert_eq!(again, albums);
    assert_eq!(serialize(&again), written);
}

#[test]
fn parse_accepts_a_missing_last_line_feed() {
    let albums = parse("[album]\ntitle=Demo\n[/album]").unwrap();
    assert_eq!(albums, vec![album(0, "Demo", vec![])]);
}

#[test]
fn parse_passes_over_blank_lines() {
    let albums = parse("\n\n[album]\n\ntitle=Demo\n\n[/album]\n\n\n").unwrap();
    assert_eq!(albums, vec![album(0, "Demo", vec![])]);
}

#[test]
fn parse_accepts_carriage_returns_before_line_feeds() {
    let albums =
        parse("[album]\r\nid=4\r\ntitle=Demo\r\n[song]\r\ntrack=2\r\n[/song]\r\n[/album]\r\n")
            .unwrap();
    assert_eq!(albums, vec![album(4, "Demo", vec![song(0, "", 2)])]);
}

#[test]
fn parse_passes_over_unknown_fields() {
    let text = "[album]\ntitle=Demo\nlabel=Indie\nrating.v2=5\n[song]\nbpm=120\n[/song]\n[/album]\nversion=3\n";
    assert_eq!(parse(text), Ok(vec![album(0, "Demo", vec![Song::new()])]));
}

#[test]
fn the_last_of_two_equal_fields_wins() {
    let albums = parse("[album]\ntitle=First\ntitle=Second\n[/album]\n").unwrap();
    assert_eq!(albums[0].meta.title, "Second");
}

#[test]
fn numbers_may_have_leading_zeros() {
    let albums = parse("[album]\nid=007\n[/album]\n").unwrap();
    assert_eq!(albums[0].meta.id, 7);
}

#[test]
fn values_are_not_trimmed() {
    let albums = parse("[album]\ntitle= spaced \n[/album]\n").unwrap();
    assert_eq!(albums[0].meta.title, " spaced ");
}

#[test]
fn a_value_may_hold_equal_signs() {
    let albums = parse("[album]\narguments=-metadata k=v\n[/album]\n").unwrap();
    assert_eq!(albums[0].meta.arguments, "-metadata k=v");
}

#[test]
fn a_line_without_equal_sign_is_bad() {
    fails("[album]\nnonsense\n[/album]\n", 1, Fault::BadLine);
}

#[test]
fn an_unknown_marker_is_bad() {
    fails("[playlist]\n", 0, Fault::BadLine);
    fails("[album]\n[/album] \n", 1, Fault::BadLine);
}

#[test]
fn a_field_with_an_ill_formed_name_is_bad() {
    fails("[album]\n=value\n[/album]\n", 1, Fault::BadLine);
    fails("[album]\nmy key=value\n[/album]\n", 1, Fault::BadLine);
    fails("[album]\n title=Demo\n[/album]\n", 1, Fault::BadLine);
}

#[test]
fn an_unknown_escape_is_bad() {
    fails("[album]\ntitle=a\\tb\n[/album]\n", 1, Fault::BadLine);
    fails("[album]\ntitle=ends\\\n[/album]\n", 1, Fault::BadLine);
}

#[test]
fn a_number_that_is_no_number_is_bad() {
    fails("[album]\nid=\n[/album]\n", 1, Fault::BadLine);
    fails("[album]\nid=12a\n[/album]\n", 1, Fault::BadLine);
    fails("[album]\nid=-1\n[/album]\n", 1, Fault::BadLine);
    fails("[album]\nid=+1\n[/album]\n", 1, Fault::BadLine);
    fails("[album]\nid=18446744073709551616\n[/album]\n", 1, Fault::BadLine);
}

#[test]
fn the_largest_number_is_read() {
    let albums = parse("[album]\nid=18446744073709551615\n[/album]\n").unwrap();
    assert_eq!(albums[0].meta.id, u64::MAX);
}

#[test]
fn a_field_outside_every_block_is_misplaced() {
    fails("title=Demo\n", 0, Fault::MisplacedField);
    fails("[album]\n[/album]\nid=1\n", 2, Fault::MisplacedField);
}

#[test]
fn a_field_of_the_other_kind_of_block_is_misplaced() {
    fails("[album]\ncodec=mp3\n[/album]\n", 1, Fault::MisplacedField);
    fails("[album]\ntrack=1\n[/album]\n", 1, Fault::MisplacedField);
    fails("[album]\nalbum=Demo\n[/album]\n", 1, Fault::MisplacedField);
    fails("[album]\n[song]\nalbumart=x\n[/song]\n[/album]\n", 2, Fault::MisplacedField);
    fails("[album]\n[song]\nsongs=1\n[/song]\n[/album]\n", 2, Fault::MisplacedField);
}

#[test]
fn markers_out_of_place_are_misplaced() {
    fails("[song]\n", 0, Fault::MisplacedMarker);
    fails("[/album]\n", 0, Fault::MisplacedMarker);
    fails("[/song]\n", 0, Fault::MisplacedMarker);
    fails("[album]\n[album]\n", 1, Fault::MisplacedMarker);
    fails("[album]\n[/song]\n", 1, Fault::MisplacedMarker);
    fails("[album]\n[song]\n[song]\n", 2, Fault::MisplacedMarker);
    fails("[album]\n[song]\n[album]\n", 2, Fault::MisplacedMarker);
    fails("[album]\n[song]\n[/album]\n", 2, Fault::MisplacedMarker);
}

#[test]
fn a_track_number_of_zero_is_out_of_range() {
    fails("[album]\n[song]\ntrack=0\n[/song]\n[/album]\n", 2, Fault::TrackOutOfRange);
}

#[test]
fn an_announced_song_count_must_match() {
    fails("[album]\nsongs=2\n[song]\n[/song]\n[/album]\n", 4, Fault::SongCountMismatch);
    fails("[album]\nsongs=0\n[song]\n[/song]\n[/album]\n", 4, Fault::SongCountMismatch);
    fails("[album]\nsongs=1\n[/album]\n", 2, Fault::SongCountMismatch);
    let albums = parse("[album]\nsongs=1\n[song]\n[/song]\n[/album]\n").unwrap();
    assert_eq!(albums[0].songs.len(), 1);
}

#[test]
fn a_document_that_ends_inside_a_block_is_unterminated() {
    fails("[album]\ntitle=Demo\n", 2, Fault::Unterminated);
    fails("[album]", 0, Fault::Unterminated);
    fails("[album]\n[song]\ntitle=x", 2, Fault::Unterminated);
}

#[test]
fn the_first_fault_is_reported() {
    fails("[album]\nbad one\nbad two\n", 1, Fault::BadLine);
    fails("junk\n[album]\n", 0, Fault::BadLine);
}

#[test]
fn round_trip_over_many_generated_lists() {
    let texts = [
        "", " ", "a", "=", "==", "[", "[album]", "[/album]", "[song]", "[/song]", "\\", "\\\\",
        "\\n", "\\r", "\n", "\r", "\r\n", "\n\n", "a\nb", "a=b\nc=d", "title=x", "id=1", " x ",
        "tab\tseparated", "ünïcödé", "\u{2028}", "trailing\\", "\\\n", "#comment", "songs=3",
    ];
    let mut lists: Vec<Vec<Album>> = vec![Vec::new()];
    let mut seed: usize = 7;
    let mut pick = move || {
        seed = seed.wrapping_mul(6364136223846793005).wrapping_add(1442695040888963407);
        texts[(seed >> 33) % texts.len()].to_string()
    };
    for albums in 1..4usize {
        for songs in 0..4usize {
            let mut list = Vec::new();
            for a in 0..albums {
                let mut one = Album::new();
                one.meta.id = (a * 3) as u64;
                one.meta.title = pick();
                one.meta.artist = pick();
                one.meta.genre = pick();
                one.meta.year = pick();
                one.meta.comment = pick();
                one.meta.arguments = pick();
                one.meta.copyright = pick();
                one.meta.source_path = pick();
                one.meta.dest_path = pick();
                one.album_art_path = pick();
                for s in 0..(songs + a) % 4 {
                    let mut track = Song::new();
                    track.meta.id = s as u64;
                    track.meta.title = pick();
                    track.meta.artist = pick();
                    track.meta.genre = pick();
                    track.meta.year = pick();
                    track.meta.comment = pick();
                    track.meta.arguments = pick();
                    track.meta.copyright = pick();
                    track.meta.source_path = pick();
                    track.meta.dest_path = pick();
                    track.album = pick();
                    track.codec = pick();
                    track.track_number = (s + 1) as u64;
                    one.songs.push(track);
                }
                list.push(one);
            }
            lists.push(list);
        }
    }
    assert_eq!(lists.len(), 13);
    for list in lists {
        let text = serialize(&list);
        assert_eq!(parse(&text), Ok(list.clone()));
        assert_eq!(serialize(&list), text);
    }
}

#[test]
fn every_single_text_round_trips_in_every_field() {
    let texts = ["", "=", "[album]", "a\nb", "\\", "\\n", "\r", " ", "x=y\n[/song]\n"];
    for text in texts {
        let mut one = Album::new();
        one.meta.title = text.to_string();
        one.meta.artist = text.to_string();
        one.meta.genre = text.to_string();
        one.meta.year = text.to_string();
        one.meta.comment = text.to_string();
        one.meta.arguments = text.to_string();
        one.meta.copyright = text.to_string();
        one.meta.source_path = text.to_string();
        one.meta.dest_path = text.to_string();
        one.album_art_path = text.to_string();
        let mut track = Song::new();
        track.meta = one.meta.clone();
        track.album = text.to_string();
        track.codec = text.to_string();
        one.songs.push(track);
        let list = vec![one];
        assert_eq!(parse(&serialize(&list)), Ok(list));
    }
}
