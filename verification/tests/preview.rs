use masteringutil::model::{Album, Song};
use masteringutil::preview::{album, song};

fn track(title: &str, artist: &str, of: &str, number: u64) -> Song {
    let mut track = Song::new();
    track.meta.title = title.to_string();
    track.meta.artist = artist.to_string();
    track.album = of.to_string();
    track.track_number = number;
    track
}

#[test]
fn a_song_is_summed_up_in_one_line() {
    let text = song(&track("One", "Band", "Demo", 12), false);
    assert_eq!(text, "Title: One | Artist: Band | Album: Demo | Track: 12\n");
}

#[test]
fn a_song_summary_can_be_framed() {
    let text = song(&track("One", "Band", "Demo", 1), true);
    assert_eq!(
        text,
        "\n=== Song Summary ===\nTitle: One | Artist: Band | Album: Demo | Track: 1\n-------------------------\n"
    );
}

#[test]
fn a_blank_song_has_a_summary_too() {
    assert_eq!(song(&Song::new(), false), "Title:  | Artist:  | Album:  | Track: 1\n");
}

#[test]
fn large_track_numbers_are_written_in_full() {
    let text = song(&track("", "", "", 18446744073709551615), false);
    assert_eq!(text, "Title:  | Artist:  | Album:  | Track: 18446744073709551615\n");
    let text = song(&track("", "", "", 100), false);
    assert_eq!(text, "Title:  | Artist:  | Album:  | Track: 100\n");
}

#[test]
fn an_album_is_summed_up_with_its_songs() {
    let mut demo = Album::new();
    demo.meta.title = "Demo".to_string();
    demo.meta.artist = "Band".to_string();
    demo.meta.genre = "Rock".to_string();
    demo.meta.year = "1999".to_string();
    demo.songs = vec![track("One", "Band", "Demo", 1), track("Two", "Guest", "Demo", 2)];
    assert_eq!(
        album(&demo),
        "\n=== Album Summary ===\n\
Album: Demo | Artist: Band | Genre: Rock | Year: 1999 | Songs: 2\n\
Title: One | Artist: Band | Album: Demo | Track: 1\n\
Title: Two | Artist: Guest | Album: Demo | Track: 2\n\
-------------------------\n"
    );
}

#[test]
fn an_album_without_songs_has_no_song_lines() {
    assert_eq!(
        album(&Album::new()),
        "\n=== Album Summary ===\nAlbum:  | Artist:  | Genre:  | Year:  | Songs: 0\n-------------------------\n"
    );
}
