use masteringutil::editing::SessionError;
use masteringutil::model::{Album, Song};
use masteringutil::session::{
    confirm_save_interactively, read_answer, read_answer_count, AlbumField, Reply, Session,
    SongField, Stage,
};

fn answer_all(session: &mut Session, replies: &[&str]) {
    for reply in replies {
        session.answer(reply).unwrap();
    }
}

fn existing_album() -> Album {
    let mut first = Song::new();
    first.meta.title = "One".to_string();
    first.meta.source_path = "one.wav".to_string();
    first.meta.dest_path = "one.flac".to_string();
    first.codec = "flac".to_string();
    let mut second = Song::new();
    second.meta.id = 12;
    second.meta.title = "Two".to_string();
    second.meta.artist = "Guest".to_string();
    second.album = "Single".to_string();
    second.track_number = 2;
    let mut album = Album::new();
    album.meta.title = "Demo".to_string();
    album.meta.artist = "Band".to_string();
    album.meta.genre = "Rock".to_string();
    album.meta.year = "2001".to_string();
    album.meta.copyright = "(c) Band".to_string();
    album.songs = vec![first, second];
    album
}

#[test]
fn a_new_session_asks_for_the_number_of_albums() {
    let session = Session::new(Vec::new(), false);
    assert_eq!(session.stage(), Stage::AlbumCount);
    assert_eq!(session.default_answer(), None);
    assert!(!session.auto_accept());
    assert!(session.albums().is_empty());
}

#[test]
fn the_number_of_existing_albums_is_offered() {
    let session = Session::new(vec![existing_album(), Album::new()], true);
    assert_eq!(session.default_answer(), Some("2".to_string()));
    assert!(session.auto_accept());
    assert_eq!(session.cursor().existing_albums, 2);
}

#[test]
fn zero_albums_ends_the_session_at_once() {
    let mut session = Session::new(Vec::new(), false);
    assert_eq!(session.answer("0"), Ok(Reply::Done));
    assert_eq!(session.stage(), Stage::Finished);
    assert_eq!(session.into_albums(), Some(Vec::new()));
}

#[test]
fn a_count_that_is_no_number_is_asked_again() {
    let mut session = Session::new(Vec::new(), false);
    assert_eq!(session.answer("two"), Ok(Reply::Again));
    assert_eq!(session.answer(""), Ok(Reply::Again));
    assert_eq!(session.answer("   "), Ok(Reply::Again));
    assert_eq!(session.answer("-1"), Ok(Reply::Again));
    assert_eq!(session.answer("1 2"), Ok(Reply::Again));
    assert_eq!(session.stage(), Stage::AlbumCount);
    assert_eq!(session.answer(" +1 \n"), Ok(Reply::Next));
    assert_eq!(session.stage(), Stage::AlbumField(AlbumField::Title));
}

#[test]
fn a_new_album_is_populated_and_confirmed() {
    let mut session = Session::new(Vec::new(), false);
    assert_eq!(session.answer("1"), Ok(Reply::Next));
    assert_eq!(session.albums().len(), 1);
    assert_eq!(session.albums()[0].meta.id, 1);
    assert_eq!(session.albums()[0].meta.comment, " ");
    assert_eq!(session.default_answer(), None);
    assert_eq!(session.answer("  Demo  "), Ok(Reply::Next));
    assert_eq!(session.stage(), Stage::AlbumField(AlbumField::Artist));
    answer_all(&mut session, &["Band", "Rock", "2000"]);
    assert_eq!(session.stage(), Stage::AlbumField(AlbumField::Copyright));
    assert_eq!(session.default_answer(), Some(" ".to_string()));
    session.answer("").unwrap();
    assert_eq!(session.default_answer(), Some(".".to_string()));
    session.answer("out").unwrap();
    assert_eq!(session.stage(), Stage::AlbumField(AlbumField::AlbumArt));
    assert_eq!(session.default_answer(), Some(".".to_string()));
    session.answer("").unwrap();
    assert_eq!(session.stage(), Stage::AlbumField(AlbumField::Arguments));
    assert_eq!(session.default_answer(), Some(" ".to_string()));
    session.answer("-ar 44100").unwrap();
    assert_eq!(session.stage(), Stage::SongCount);
    assert_eq!(session.default_answer(), Some("0".to_string()));
    assert_eq!(session.answer("2"), Ok(Reply::Next));

    assert_eq!(session.stage(), Stage::SongField(SongField::Path));
    assert_eq!(session.albums()[0].songs.len(), 1);
    assert_eq!(session.albums()[0].songs[0].meta.id, 1);
    assert_eq!(session.albums()[0].songs[0].track_number, 1);
    assert_eq!(session.albums()[0].songs[0].album, "Demo");
    assert_eq!(session.default_answer(), Some(".".to_string()));
    session.answer("one.wav").unwrap();
    assert_eq!(session.stage(), Stage::SongField(SongField::Title));
    assert_eq!(session.default_answer(), None);
    session.answer("One").unwrap();
    assert_eq!(session.default_answer(), Some("Band".to_string()));
    session.answer("").unwrap();
    assert_eq!(session.default_answer(), Some("Rock".to_string()));
    session.answer("Jazz").unwrap();
    assert_eq!(session.default_answer(), Some("2000".to_string()));
    session.answer("").unwrap();
    assert_eq!(session.stage(), Stage::SongField(SongField::Copyright));
    assert_eq!(session.default_answer(), Some(" ".to_string()));
    session.answer("").unwrap();
    assert_eq!(session.stage(), Stage::SongField(SongField::NewPath));
    session.answer("one.mp3").unwrap();
    assert_eq!(session.stage(), Stage::SongField(SongField::Codec));
    assert_eq!(session.default_answer(), Some("copy".to_string()));
    session.answer("mp3").unwrap();
    assert_eq!(session.default_answer(), Some(" ".to_string()));
    assert_eq!(session.answer(""), Ok(Reply::Next));
    assert_eq!(session.stage(), Stage::KeepSong);
    assert_eq!(session.default_answer(), None);
    assert_eq!(session.answer(""), Ok(Reply::Again));
    assert_eq!(session.answer("Yes"), Ok(Reply::Next));

    assert_eq!(session.stage(), Stage::SongField(SongField::Path));
    assert_eq!(session.albums()[0].songs.len(), 2);
    assert_eq!(session.albums()[0].songs[1].meta.id, 2);
    assert_eq!(session.albums()[0].songs[1].track_number, 2);
    answer_all(&mut session, &["", "Two", "", "", "", "", "", "", ""]);
    assert_eq!(session.stage(), Stage::KeepSong);
    assert_eq!(session.answer("n"), Ok(Reply::Next));
    assert_eq!(session.albums()[0].songs.len(), 1);

    assert_eq!(session.stage(), Stage::KeepAlbum);
    assert_eq!(session.default_answer(), Some("y".to_string()));
    assert_eq!(session.answer(""), Ok(Reply::Done));
    assert_eq!(session.stage(), Stage::Finished);

    let mut song = Song::new();
    song.meta.id = 1;
    song.meta.title = "One".to_string();
    song.meta.artist = "Band".to_string();
    song.meta.genre = "Jazz".to_string();
    song.meta.year = "2000".to_string();
    song.meta.copyright = " ".to_string();
    song.meta.arguments = " ".to_string();
    song.meta.source_path = "one.wav".to_string();
    song.meta.dest_path = "one.mp3".to_string();
    song.album = "Demo".to_string();
    song.track_number = 1;
    song.codec = "mp3".to_string();
    let mut album = Album::new();
    album.meta.id = 1;
    album.meta.title = "Demo".to_string();
    album.meta.artist = "Band".to_string();
    album.meta.genre = "Rock".to_string();
    album.meta.year = "2000".to_string();
    album.meta.comment = " ".to_string();
    album.meta.copyright = " ".to_string();
    album.meta.arguments = "-ar 44100".to_string();
    album.meta.dest_path = "out".to_string();
    album.album_art_path = ".".to_string();
    album.songs = vec![song];
    assert_eq!(session.into_albums(), Some(vec![album]));
}

#[test]
fn an_existing_album_is_revisited_with_its_values_as_defaults() {
    let mut session = Session::new(vec![existing_album()], false);
    assert_eq!(session.answer(""), Ok(Reply::Next));
    assert_eq!(session.stage(), Stage::AlbumField(AlbumField::Title));
    assert_eq!(session.albums()[0].meta.id, 1);
    assert_eq!(session.default_answer(), Some("Demo".to_string()));
    session.answer("Demo II").unwrap();
    assert_eq!(session.default_answer(), Some("Band".to_string()));
    answer_all(&mut session, &["", "", ""]);
    assert_eq!(session.default_answer(), Some("(c) Band".to_string()));
    answer_all(&mut session, &["", "", "", ""]);
    assert_eq!(session.stage(), Stage::SongCount);
    assert_eq!(session.default_answer(), Some("2".to_string()));
    session.answer("").unwrap();

    assert_eq!(session.stage(), Stage::SongField(SongField::Path));
    assert_eq!(session.albums()[0].songs[0].meta.id, 1);
    assert_eq!(session.albums()[0].songs[0].album, "Demo II");
    assert_eq!(session.default_answer(), Some("one.wav".to_string()));
    session.answer("").unwrap();
    assert_eq!(session.default_answer(), Some("One".to_string()));
    session.answer("").unwrap();
    assert_eq!(session.default_answer(), Some("Band".to_string()));
    answer_all(&mut session, &["", "", "", "", "", "", ""]);

    assert_eq!(session.stage(), Stage::SongField(SongField::Path));
    assert_eq!(session.cursor().song_at, 1);
    assert_eq!(session.albums()[0].songs[1].meta.id, 12);
    assert_eq!(session.albums()[0].songs[1].album, "Single");
    assert_eq!(session.default_answer(), Some(".".to_string()));
    answer_all(&mut session, &["", ""]);
    assert_eq!(session.default_answer(), Some("Guest".to_string()));
    answer_all(&mut session, &["", "", "", "", "", ""]);
    assert_eq!(session.answer(""), Ok(Reply::Done));

    let albums = session.into_albums().unwrap();
    assert_eq!(albums.len(), 1);
    let album = &albums[0];
    assert_eq!(album.meta.title, "Demo II");
    assert_eq!(album.meta.artist, "Band");
    assert_eq!(album.meta.copyright, "(c) Band");
    assert_eq!(album.meta.dest_path, ".");
    assert_eq!(album.album_art_path, ".");
    assert_eq!(album.meta.arguments, " ");
    assert_eq!(album.meta.comment, "");
    assert_eq!(album.songs.len(), 2);
    assert_eq!(album.songs[0].meta.source_path, "one.wav");
    assert_eq!(album.songs[0].meta.artist, "Band");
    assert_eq!(album.songs[0].meta.genre, "Rock");
    assert_eq!(album.songs[0].meta.year, "2001");
    assert_eq!(album.songs[0].meta.copyright, "(c) Band");
    assert_eq!(album.songs[0].meta.dest_path, "one.flac");
    assert_eq!(album.songs[0].codec, "flac");
    assert_eq!(album.songs[0].meta.arguments, " ");
    assert_eq!(album.songs[1].meta.source_path, ".");
    assert_eq!(album.songs[1].meta.artist, "Guest");
    assert_eq!(album.songs[1].codec, "copy");
    assert_eq!(album.songs[1].track_number, 2);
}

#[test]
fn fewer_albums_than_there_are_removes_none() {
    let mut plain = Album::new();
    plain.meta.id = 5;
    let mut session = Session::new(vec![plain, Album::new()], false);
    assert_eq!(session.answer("1"), Ok(Reply::Next));
    answer_all(&mut session, &["", "", "", "", "", "", "", "", ""]);
    assert_eq!(session.stage(), Stage::AlbumField(AlbumField::Title));
    assert_eq!(session.cursor().album_at, 1);
    answer_all(&mut session, &["", "", "", "", "", "", "", ""]);
    assert_eq!(session.answer("0"), Ok(Reply::Done));
    let albums = session.into_albums().unwrap();
    assert_eq!(albums.len(), 2);
    assert_eq!(albums[0].meta.id, 5);
    assert_eq!(albums[1].meta.id, 2);
}

#[test]
fn a_new_song_can_be_added_to_an_existing_album() {
    let mut album = Album::new();
    album.meta.title = "Old".to_string();
    album.songs = vec![Song::new()];
    let mut session = Session::new(vec![album], false);
    answer_all(&mut session, &["", "", "", "", "", "", "", "", "", "2"]);
    answer_all(&mut session, &["", "", "", "", "", "", "", "", ""]);
    assert_eq!(session.stage(), Stage::SongField(SongField::Path));
    assert_eq!(session.cursor().song_round, 1);
    assert_eq!(session.albums()[0].songs.len(), 2);
    assert_eq!(session.albums()[0].songs[1].track_number, 2);
    assert_eq!(session.albums()[0].songs[1].album, "Old");
    answer_all(&mut session, &["", "New", "", "", "", "", "", "", ""]);
    assert_eq!(session.stage(), Stage::KeepSong);
    assert_eq!(session.answer("y"), Ok(Reply::Done));
    let albums = session.into_albums().unwrap();
    assert_eq!(albums[0].songs[1].meta.title, "New");
    assert_eq!(albums[0].songs[0].meta.id, 1);
}

#[test]
fn an_unrecognized_decision_on_a_song_aborts_the_session() {
    let mut session = Session::new(Vec::new(), false);
    answer_all(&mut session, &["1", "Demo", "", "", "", "", "", "", "", "1"]);
    answer_all(&mut session, &["", "One", "", "", "", "", "", "", ""]);
    assert_eq!(session.stage(), Stage::KeepSong);
    assert_eq!(session.answer("maybe"), Err(SessionError::InvalidConfirmation));
    assert_eq!(session.stage(), Stage::Aborted);
    assert_eq!(session.default_answer(), None);
    assert_eq!(session.answer("y"), Err(SessionError::InvalidConfirmation));
    assert_eq!(session.stage(), Stage::Aborted);
    assert_eq!(session.into_albums(), None);
}

#[test]
fn an_unrecognized_decision_on_an_album_aborts_the_session() {
    let mut session = Session::new(Vec::new(), false);
    answer_all(&mut session, &["1", "Demo", "", "", "", "", "", "", "", "0"]);
    assert_eq!(session.stage(), Stage::KeepAlbum);
    assert_eq!(session.answer("a"), Err(SessionError::InvalidConfirmation));
    assert_eq!(session.into_albums(), None);
}

#[test]
fn a_rejected_album_is_removed() {
    let mut session = Session::new(Vec::new(), false);
    answer_all(&mut session, &["2", "First", "", "", "", "", "", "", "", "0"]);
    assert_eq!(session.answer("N"), Ok(Reply::Next));
    assert_eq!(session.albums().len(), 1);
    assert_eq!(session.albums()[0].meta.id, 2);
    assert_eq!(session.cursor().album_at, 0);
    answer_all(&mut session, &["Second", "", "", "", "", "", "", "", "0"]);
    assert_eq!(session.answer("y"), Ok(Reply::Done));
    let albums = session.into_albums().unwrap();
    assert_eq!(albums.len(), 1);
    assert_eq!(albums[0].meta.title, "Second");
}

#[test]
fn accepting_all_skips_later_song_questions() {
    let mut session = Session::new(Vec::new(), false);
    answer_all(&mut session, &["1", "Demo", "", "", "", "", "", "", "", "3"]);
    answer_all(&mut session, &["", "One", "", "", "", "", "", "", ""]);
    assert_eq!(session.stage(), Stage::KeepSong);
    assert_eq!(session.answer("A"), Ok(Reply::Next));
    assert!(session.auto_accept());
    answer_all(&mut session, &["", "Two", "", "", "", "", "", "", ""]);
    assert_eq!(session.stage(), Stage::SongField(SongField::Path));
    assert_eq!(session.cursor().song_round, 2);
    answer_all(&mut session, &["", "Three", "", "", "", "", "", "", ""]);
    assert_eq!(session.stage(), Stage::KeepAlbum);
    assert!(session.auto_accept());
    assert_eq!(session.answer("y"), Ok(Reply::Done));
    assert_eq!(session.into_albums().unwrap()[0].songs.len(), 3);
}

#[test]
fn a_session_started_with_auto_accept_never_asks_about_songs() {
    let mut session = Session::new(Vec::new(), true);
    answer_all(&mut session, &["1", "Demo", "", "", "", "", "", "", "", "2"]);
    answer_all(&mut session, &["", "One", "", "", "", "", "", "", ""]);
    assert_eq!(session.stage(), Stage::SongField(SongField::Path));
    answer_all(&mut session, &["", "Two", "", "", "", "", "", "", ""]);
    assert_eq!(session.stage(), Stage::KeepAlbum);
}

#[test]
fn ids_of_new_songs_count_rejected_ones_too() {
    let mut session = Session::new(Vec::new(), false);
    answer_all(&mut session, &["1", "Demo", "", "", "", "", "", "", "", "2"]);
    answer_all(&mut session, &["", "One", "", "", "", "", "", "", "", "n"]);
    assert_eq!(session.albums()[0].songs.len(), 1);
    assert_eq!(session.cursor().song_at, 0);
    assert_eq!(session.albums()[0].songs[0].meta.id, 2);
    assert_eq!(session.albums()[0].songs[0].track_number, 2);
}

#[test]
fn a_finished_session_takes_no_more_answers() {
    let mut session = Session::new(Vec::new(), false);
    assert_eq!(session.answer("0"), Ok(Reply::Done));
    assert_eq!(session.answer("5"), Ok(Reply::Done));
    assert_eq!(session.submit("anything".to_string()), Ok(Reply::Done));
    assert!(session.albums().is_empty());
}

#[test]
fn submit_records_the_text_as_it_is() {
    let mut session = Session::new(Vec::new(), false);
    session.answer("1").unwrap();
    assert_eq!(session.submit("  padded ".to_string()), Ok(Reply::Next));
    assert_eq!(session.albums()[0].meta.title, "  padded ");
    assert_eq!(session.submit(String::new()), Ok(Reply::Next));
    assert_eq!(session.albums()[0].meta.artist, "");
}

#[test]
fn replay_takes_a_script_of_answers() {
    let script: Vec<String> = ["1", "Demo", "", "", "", "", "", "", "", "1", "", "One", "", "", "", "", "", "", "", "y", ""]
        .iter()
        .map(|reply| reply.to_string())
        .collect();
    let mut replayed = Session::new(Vec::new(), false);
    replayed.replay(&script);
    let mut answered = Session::new(Vec::new(), false);
    for reply in &script {
        let _ = answered.answer(reply);
    }
    assert_eq!(replayed.stage(), Stage::Finished);
    assert_eq!(replayed.cursor(), answered.cursor());
    assert_eq!(replayed.into_albums(), answered.into_albums());
}

#[test]
fn read_answer_trims_and_falls_back() {
    assert_eq!(read_answer("  text \r\n", Some("d".to_string())), "text");
    assert_eq!(read_answer(" \t\n", Some("d".to_string())), "d");
    assert_eq!(read_answer("", None), "");
    assert_eq!(read_answer("\u{a0}a b\u{3000}", None), "a b");
    assert_eq!(read_answer("", Some(" ".to_string())), " ");
}

#[test]
fn read_answer_count_reads_plain_numbers() {
    assert_eq!(read_answer_count("0"), Some(0));
    assert_eq!(read_answer_count("12"), Some(12));
    assert_eq!(read_answer_count("+7"), Some(7));
    assert_eq!(read_answer_count("007"), Some(7));
    assert_eq!(read_answer_count(""), None);
    assert_eq!(read_answer_count("+"), None);
    assert_eq!(read_answer_count("++1"), None);
    assert_eq!(read_answer_count("1_000"), None);
    assert_eq!(read_answer_count(" 1"), None);
    assert_eq!(read_answer_count("99999999999999999999"), None);
}

#[test]
fn saving_is_confirmed_by_y_or_by_nothing() {
    assert!(confirm_save_interactively("y"));
    assert!(confirm_save_interactively("Y\n"));
    assert!(confirm_save_interactively("  yes please"));
    assert!(confirm_save_interactively(""));
    assert!(confirm_save_interactively("   \n"));
    assert!(!confirm_save_interactively("n"));
    assert!(!confirm_save_interactively("no"));
    assert!(!confirm_save_interactively("x"));
    assert!(!confirm_save_interactively(" ny"));
}
