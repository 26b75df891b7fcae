use masteringutil::mastering::{
    collisions, has_collision, job_of, join_arguments, join_path, plan, TranscodeRequest,
};
use masteringutil::model::{Album, Song};
use masteringutil::orchestrator::{
    Action, Event, Failure, Orchestrator, Outcome, ProcessResult,
};

fn song(id: u64, source: &str, dest: &str) -> Song {
    let mut song = Song::new();
    song.meta.id = id;
    song.meta.source_path = source.to_string();
    song.meta.dest_path = dest.to_string();
    song.codec = "mp3".to_string();
    song
}

fn album(id: u64, dest: &str, songs: Vec<Song>) -> Album {
    let mut album = Album::new();
    album.meta.id = id;
    album.meta.dest_path = dest.to_string();
    album.songs = songs;
    album
}

fn result(album_id: u64, song_id: u64, outcome: Outcome) -> ProcessResult {
    ProcessResult { album_id, song_id, outcome }
}

/// Drives a run: sources named in `missing` are not there, requests whose
/// source is named in `broken` fail in the encoder. Returns the results
/// and the sources of the requests that reached the encoder.
fn drive(albums: &Vec<Album>, missing: &[&str], broken: &[&str]) -> (Vec<ProcessResult>, Vec<String>) {
    let mut run = Orchestrator::new(albums);
    let mut encoded = Vec::new();
    let mut steps = 0;
    loop {
        steps += 1;
        assert!(steps < 1000);
        match run.next_action() {
            Action::Finished => break,
            Action::Probe(path) => {
                let event = if missing.contains(&path.as_str()) {
                    Event::SourceMissing
                } else {
                    Event::SourceFound
                };
                assert!(run.record(event));
            }
            Action::Transcode(request) => {
                encoded.push(request.source_path.clone());
                let event = if broken.contains(&request.source_path.as_str()) {
                    Event::EncoderFailed(format!("cannot encode {}", request.source_path))
                } else {
                    Event::Encoded
                };
                assert!(run.record(event));
            }
        }
    }
    assert!(run.is_finished());
    (run.into_results(), encoded)
}

#[test]
fn join_path_puts_one_slash_between() {
    assert_eq!(join_path("out", "a.mp3"), "out/a.mp3");
    assert_eq!(join_path("out/", "a.mp3"), "out/a.mp3");
    assert_eq!(join_path("", "a.mp3"), "a.mp3");
    assert_eq!(join_path(".", "."), "./.");
    assert_eq!(join_path("out", ""), "out/");
}

#[test]
fn join_arguments_puts_the_songs_last() {
    assert_eq!(join_arguments("-ar 44100", "-b:a 320k"), "-ar 44100 -b:a 320k");
    assert_eq!(join_arguments("", "-b:a 320k"), "-b:a 320k");
    assert_eq!(join_arguments("-ar 44100", ""), "-ar 44100");
    assert_eq!(join_arguments("", ""), "");
    assert_eq!(join_arguments(" ", " "), "   ");
}

#[test]
fn a_job_inherits_what_the_song_lacks() {
    let mut owner = album(3, "out", Vec::new());
    owner.meta.artist = "Band".to_string();
    owner.meta.genre = "Rock".to_string();
    owner.meta.year = "1999".to_string();
    owner.meta.copyright = "(c)".to_string();
    owner.meta.arguments = "-ar 44100".to_string();
    owner.album_art_path = "cover.png".to_string();
    let mut track = song(8, "in.wav", "track.mp3");
    track.meta.genre = "Jazz".to_string();
    track.meta.arguments = "-q 2".to_string();
    let job = job_of(&owner, &track);
    assert_eq!(job.album_id, 3);
    assert_eq!(job.song_id, 8);
    assert_eq!(
        job.request,
        TranscodeRequest {
            source_path: "in.wav".to_string(),
            dest_path: "out/track.mp3".to_string(),
            codec: "mp3".to_string(),
            arguments: "-ar 44100 -q 2".to_string(),
        }
    );
    assert_eq!(job.artist, "Band");
    assert_eq!(job.genre, "Jazz");
    assert_eq!(job.year, "1999");
    assert_eq!(job.copyright, "(c)");
    assert_eq!(job.album_art_path, "cover.png");
}

#[test]
fn plan_lists_songs_in_list_order() {
    let albums = vec![
        album(1, "a", vec![song(1, "1.wav", "1.mp3"), song(2, "2.wav", "2.mp3")]),
        album(2, "b", Vec::new()),
        album(3, "c", vec![song(1, "3.wav", "3.mp3")]),
    ];
    let jobs = plan(&albums);
    let order: Vec<(u64, u64, &str)> =
        jobs.iter().map(|job| (job.album_id, job.song_id, job.request.dest_path.as_str())).collect();
    assert_eq!(order, vec![(1, 1, "a/1.mp3"), (1, 2, "a/2.mp3"), (3, 1, "c/3.mp3")]);
    assert!(plan(&Vec::new()).is_empty());
}

#[test]
fn collisions_are_found_across_albums() {
    let albums = vec![
        album(1, "out", vec![song(1, "1.wav", "x.mp3"), song(2, "2.wav", "y.mp3")]),
        album(2, "out/", vec![song(1, "3.wav", "x.mp3")]),
    ];
    let jobs = plan(&albums);
    assert_eq!(collisions(&jobs), vec![true, false, true]);
    assert!(has_collision(&jobs, 0));
    assert!(!has_collision(&jobs, 1));
}

#[test]
fn a_run_without_songs_is_finished_at_once() {
    let mut run = Orchestrator::new(&vec![album(1, "out", Vec::new())]);
    assert!(run.is_finished());
    assert_eq!(run.next_action(), Action::Finished);
    assert!(!run.record(Event::Encoded));
    assert!(run.results().is_empty());
}

#[test]
fn every_song_is_probed_then_encoded() {
    let albums = vec![album(1, "out", vec![song(1, "1.wav", "1.mp3"), song(2, "2.wav", "2.mp3")])];
    let mut run = Orchestrator::new(&albums);
    assert_eq!(run.jobs().len(), 2);
    assert_eq!(run.next_action(), Action::Probe("1.wav".to_string()));
    assert!(run.record(Event::SourceFound));
    assert_eq!(
        run.next_action(),
        Action::Transcode(TranscodeRequest {
            source_path: "1.wav".to_string(),
            dest_path: "out/1.mp3".to_string(),
            codec: "mp3".to_string(),
            arguments: String::new(),
        })
    );
    assert!(run.record(Event::Encoded));
    assert_eq!(run.results(), &vec![result(1, 1, Outcome::Success)]);
    assert!(!run.is_finished());
    assert_eq!(run.next_action(), Action::Probe("2.wav".to_string()));
    assert!(run.record(Event::SourceFound));
    assert!(run.record(Event::Encoded));
    assert!(run.is_finished());
    assert_eq!(
        run.into_results(),
        vec![result(1, 1, Outcome::Success), result(1, 2, Outcome::Success)]
    );
}

#[test]
fn an_event_that_answers_nothing_is_not_taken() {
    let albums = vec![album(1, "out", vec![song(1, "1.wav", "1.mp3")])];
    let mut run = Orchestrator::new(&albums);
    assert!(!run.record(Event::Encoded));
    assert!(!run.record(Event::EncoderFailed("early".to_string())));
    assert!(run.results().is_empty());
    assert_eq!(run.next_action(), Action::Probe("1.wav".to_string()));
    assert!(run.record(Event::SourceFound));
    assert!(!run.record(Event::SourceFound));
    assert!(!run.record(Event::SourceMissing));
    assert!(run.results().is_empty());
    assert!(run.record(Event::Encoded));
    assert!(!run.record(Event::SourceFound));
    assert_eq!(run.results().len(), 1);
}

#[test]
fn a_missing_source_fails_only_its_own_song() {
    let albums = vec![album(
        4,
        "out",
        vec![song(1, "1.wav", "1.mp3"), song(2, "gone.wav", "2.mp3"), song(3, "3.wav", "3.mp3")],
    )];
    let (results, encoded) = drive(&albums, &["gone.wav"], &[]);
    assert_eq!(
        results,
        vec![
            result(4, 1, Outcome::Success),
            result(4, 2, Outcome::Failure(Failure::SourceNotFound)),
            result(4, 3, Outcome::Success),
        ]
    );
    assert_eq!(encoded, vec!["1.wav".to_string(), "3.wav".to_string()]);
}

#[test]
fn a_song_without_source_fails_without_a_probe() {
    let albums = vec![album(1, "out", vec![song(1, "", "1.mp3"), song(2, "2.wav", "2.mp3")])];
    let mut run = Orchestrator::new(&albums);
    assert_eq!(run.results(), &vec![result(1, 1, Outcome::Failure(Failure::SourceNotFound))]);
    assert_eq!(run.next_action(), Action::Probe("2.wav".to_string()));
    assert!(run.record(Event::SourceMissing));
    assert!(run.is_finished());
    assert_eq!(run.results()[1], result(1, 2, Outcome::Failure(Failure::SourceNotFound)));
}

#[test]
fn an_encoder_failure_is_recorded_and_the_run_goes_on() {
    let albums = vec![
        album(1, "a", vec![song(1, "bad.wav", "1.mp3")]),
        album(2, "b", vec![song(1, "good.wav", "1.mp3")]),
    ];
    let (results, encoded) = drive(&albums, &[], &["bad.wav"]);
    assert_eq!(
        results,
        vec![
            result(1, 1, Outcome::Failure(Failure::Encoder("cannot encode bad.wav".to_string()))),
            result(2, 1, Outcome::Success),
        ]
    );
    assert_eq!(encoded, vec!["bad.wav".to_string(), "good.wav".to_string()]);
}

#[test]
fn songs_with_the_same_destination_both_fail_without_the_encoder() {
    let albums = vec![album(
        1,
        "out",
        vec![song(1, "1.wav", "same.mp3"), song(2, "2.wav", "same.mp3"), song(3, "3.wav", "3.mp3")],
    )];
    let mut run = Orchestrator::new(&albums);
    assert_eq!(
        run.results(),
        &vec![
            result(1, 1, Outcome::Failure(Failure::DestinationCollision)),
            result(1, 2, Outcome::Failure(Failure::DestinationCollision)),
        ]
    );
    assert_eq!(run.next_action(), Action::Probe("3.wav".to_string()));
    let (results, encoded) = drive(&albums, &[], &[]);
    assert_eq!(results.len(), 3);
    assert_eq!(results[2], result(1, 3, Outcome::Success));
    assert_eq!(encoded, vec!["3.wav".to_string()]);
}

#[test]
fn a_collision_after_the_song_in_turn_is_settled_in_passing() {
    let albums = vec![
        album(1, "out", vec![song(1, "1.wav", "a.mp3"), song(2, "2.wav", "b.mp3")]),
        album(2, "out", vec![song(1, "3.wav", "b.mp3"), song(2, "", "c.mp3")]),
    ];
    let (results, encoded) = drive(&albums, &[], &[]);
    assert_eq!(
        results,
        vec![
            result(1, 1, Outcome::Success),
            result(1, 2, Outcome::Failure(Failure::DestinationCollision)),
            result(2, 1, Outcome::Failure(Failure::DestinationCollision)),
            result(2, 2, Outcome::Failure(Failure::SourceNotFound)),
        ]
    );
    assert_eq!(encoded, vec!["1.wav".to_string()]);
}

#[test]
fn a_collision_wins_over_a_missing_source() {
    let albums = vec![album(1, "", vec![song(1, "", "x"), song(2, "gone.wav", "x")])];
    let (results, encoded) = drive(&albums, &["gone.wav"], &[]);
    assert_eq!(
        results,
        vec![
            result(1, 1, Outcome::Failure(Failure::DestinationCollision)),
            result(1, 2, Outcome::Failure(Failure::DestinationCollision)),
        ]
    );
    assert!(encoded.is_empty());
}
