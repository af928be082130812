//! Table-driven coverage of the drill state machine: every event sequence
//! that matters, asserted on both the resulting state and the exact
//! commands emitted.

use mt2026::meta::{CaptureContext, DRILL_TYPE_DEGREE};
use mt2026::session::{Command, DrillSession, Event, SessionState};
use mt2026::theory::{Degree, Key, Mode, PitchClass};

// ---------------------------------------------------------------- fixtures

/// What the adapter's tracker hands back; the machine carries it opaquely.
#[derive(Debug, Clone, Copy, PartialEq)]
struct PitchEstimate {
    t_ms: f64,
    hz: Option<f64>,
    clarity: f64,
}

/// Equal-temperament frequency of a note number, A4 = 69 = 440 Hz.
fn note_hz(note: i32) -> f64 {
    440.0 * 2f64.powf((note - 69) as f64 / 12.0)
}

fn context() -> CaptureContext {
    CaptureContext {
        sample_rate: 48_000,
        device_label: "MacBook Pro Microphone".to_string(),
        user_agent: "Mozilla/5.0 (test)".to_string(),
        app_git_sha: "abc1234".to_string(),
    }
}

fn session() -> DrillSession<PitchEstimate> {
    DrillSession::new(context())
}

fn d_major() -> Key {
    Key::new(PitchClass::D, Mode::Major)
}

fn sol() -> Degree {
    Degree::new(5).unwrap()
}

/// Start the drill on sol in D major with the tonic at D4 — so the target
/// is A4 (note 69) = 440 Hz.
fn start() -> Event<PitchEstimate> {
    Event::Start {
        key: d_major(),
        degree: sol(),
        tonic_octave: 4,
    }
}

fn fake_track() -> Vec<PitchEstimate> {
    (0..10)
        .map(|i| PitchEstimate {
            t_ms: i as f64 * 10.0,
            hz: Some(438.0 + i as f64),
            clarity: 0.95,
        })
        .collect()
}

fn run(
    session: &mut DrillSession<PitchEstimate>,
    events: Vec<Event<PitchEstimate>>,
) -> Vec<Command> {
    let mut last = Vec::new();
    for event in events {
        last = session.handle(event);
    }
    last
}

fn in_review() -> DrillSession<PitchEstimate> {
    let mut session = session();
    run(
        &mut session,
        vec![
            start(),
            Event::ReferenceDone,
            Event::Stop,
            Event::TrackReady(fake_track()),
        ],
    );
    session
}

// ------------------------------------------------------------- happy path

#[test]
fn the_happy_path_emits_its_commands_in_order() {
    let mut session = session();

    let commands = session.handle(start());
    let [Command::PlayArpeggio(notes)] = commands.as_slice() else {
        panic!("Start sounds the establishing arpeggio, got {commands:?}");
    };
    assert_eq!(*notes, [62, 66, 69, 74]);
    assert_eq!(
        notes.map(note_hz),
        [
            293.6647679174076, // do  = D4
            369.9944227116344, // mi  = F#4
            440.0,             // sol = A4
            587.3295358348151, // do  = D5
        ]
    );

    let steps: Vec<(&str, Event<PitchEstimate>, Vec<Command>)> = vec![
        (
            "the arpeggio ending opens the mic",
            Event::ReferenceDone,
            vec![Command::StartCapture],
        ),
        (
            "stopping closes the mic",
            Event::Stop,
            vec![Command::StopCapture],
        ),
        (
            "the recorded track moves us to review, silently",
            Event::TrackReady(fake_track()),
            vec![],
        ),
        ("rating is a pure state change", Event::Rate(4), vec![]),
        (
            "so is the note",
            Event::NoteEdited("flat on the approach".to_string()),
            vec![],
        ),
    ];

    for (why, event, expected) in steps {
        assert_eq!(session.handle(event), expected, "{why}");
    }

    let commands = session.handle(Event::Save);
    let [Command::Persist(meta)] = commands.as_slice() else {
        panic!("Save should persist exactly once, got {commands:?}");
    };
    assert_eq!(meta.drill.drill_type, DRILL_TYPE_DEGREE);
    assert_eq!(meta.drill.key, Some(PitchClass::D));
    assert_eq!(meta.drill.mode, Some(Mode::Major));
    assert_eq!(meta.drill.degree, Some(sol()));
    assert_eq!(meta.drill.target_note, Some(69));
    assert_eq!(meta.drill.target_note.map(note_hz), Some(440.0));
    assert_eq!(meta.self_rating, Some(4));
    assert_eq!(meta.note.as_deref(), Some("flat on the approach"));
    assert_eq!(meta.audio.sample_rate, 48_000);
    assert_eq!(meta.capture.device_label, "MacBook Pro Microphone");
    assert_eq!(meta.capture.app_git_sha, "abc1234");

    assert!(matches!(session.state(), SessionState::Saving { .. }));
    assert_eq!(
        session.handle(Event::SaveOk {
            id: "smp-20260819-113211-a1b2".to_string()
        }),
        vec![]
    );
    assert_eq!(
        session.state(),
        &SessionState::Saved {
            id: "smp-20260819-113211-a1b2".to_string()
        }
    );
}

#[test]
fn the_target_is_the_prompted_degree_in_the_chosen_key() {
    let cases = [
        (PitchClass::D, Mode::Major, 4, 440.0), // sol of D4 major = A4
        (PitchClass::C, Mode::Major, 4, 392.0), // sol of C4 major = G4
        (PitchClass::A, Mode::Minor, 3, 220.0), // do of A3 minor = A3
    ];
    for (tonic, mode, octave, expected) in cases {
        let degree = if expected == 220.0 {
            Degree::new(1).unwrap()
        } else {
            sol()
        };
        let mut session = session();
        session.handle(Event::Start {
            key: Key::new(tonic, mode),
            degree,
            tonic_octave: octave,
        });
        let target = note_hz(session.target_note().unwrap());
        assert!(
            (target - expected).abs() < 0.01,
            "{tonic:?} {mode:?} octave {octave}: expected {expected}, got {target}"
        );
    }
}

// -------------------------------------------------------- rejection rules

#[test]
fn save_without_a_rating_is_rejected() {
    let mut session = in_review();
    let before = session.state().clone();

    assert!(!session.can_save());
    assert_eq!(session.handle(Event::Save), vec![], "nothing may be sent");
    assert_eq!(session.state(), &before, "and nothing may change");

    session.handle(Event::Rate(3));
    assert!(session.can_save());
    assert!(matches!(
        session.handle(Event::Save).as_slice(),
        [Command::Persist(_)]
    ));
}

#[test]
fn ratings_outside_one_to_five_are_dropped() {
    for bad in [0u8, 6, 9, 255] {
        let mut session = in_review();
        assert_eq!(session.handle(Event::Rate(bad)), vec![]);
        assert!(
            !session.can_save(),
            "rating {bad} should not have been stored"
        );
    }
    for good in [1u8, 2, 3, 4, 5] {
        let mut session = in_review();
        session.handle(Event::Rate(good));
        assert!(session.can_save(), "rating {good} should have been stored");
    }
}

#[test]
fn a_bad_rating_does_not_clobber_a_good_one() {
    let mut session = in_review();
    session.handle(Event::Rate(4));
    session.handle(Event::Rate(99));

    let commands = session.handle(Event::Save);
    let [Command::Persist(meta)] = commands.as_slice() else {
        panic!("expected a save");
    };
    assert_eq!(meta.self_rating, Some(4));
}

#[test]
fn stop_during_the_reference_cancels_cleanly() {
    let mut session = session();
    session.handle(start());
    assert!(matches!(
        session.state(),
        SessionState::PlayingReference { .. }
    ));

    assert_eq!(
        session.handle(Event::Stop),
        vec![],
        "nothing was captured, so nothing may be stopped"
    );
    assert_eq!(session.state(), &SessionState::Idle);
    assert_eq!(session.track(), &[], "and no take was invented");
    assert_eq!(session.target_note(), None);

    assert!(matches!(
        session.handle(start()).as_slice(),
        [Command::PlayArpeggio(_)]
    ));
}

#[test]
fn a_second_stop_does_not_close_the_mic_twice() {
    let mut session = session();
    run(&mut session, vec![start(), Event::ReferenceDone]);

    assert_eq!(session.handle(Event::Stop), vec![Command::StopCapture]);
    assert_eq!(session.handle(Event::Stop), vec![]);
    assert_eq!(session.handle(Event::Stop), vec![]);
}

#[test]
fn events_out_of_order_are_ignored() {
    let cases: Vec<(&str, Vec<Event<PitchEstimate>>, Event<PitchEstimate>)> = vec![
        ("ReferenceDone before Start", vec![], Event::ReferenceDone),
        ("Stop while idle", vec![], Event::Stop),
        ("Save while idle", vec![], Event::Save),
        ("Rate while idle", vec![], Event::Rate(3)),
        ("HearTarget while idle", vec![], Event::HearTarget),
        (
            "TrackReady during the arpeggio",
            vec![start()],
            Event::TrackReady(fake_track()),
        ),
        (
            "Rate while still listening",
            vec![start(), Event::ReferenceDone],
            Event::Rate(4),
        ),
        (
            "HearTarget before the singing",
            vec![start(), Event::ReferenceDone],
            Event::HearTarget,
        ),
        (
            "Save while still listening",
            vec![start(), Event::ReferenceDone],
            Event::Save,
        ),
        (
            "ReferenceDone twice",
            vec![start(), Event::ReferenceDone],
            Event::ReferenceDone,
        ),
        (
            "SaveOk without a save in flight",
            vec![start(), Event::ReferenceDone, Event::Stop],
            Event::SaveOk {
                id: "nope".to_string(),
            },
        ),
    ];

    for (label, setup, bad_event) in cases {
        let mut session = session();
        run(&mut session, setup);
        let before = session.state().clone();

        assert_eq!(session.handle(bad_event), vec![], "{label}: no commands");
        assert_eq!(session.state(), &before, "{label}: no state change");
    }
}

// ------------------------------------------------------------ review screen

#[test]
fn hear_target_plays_the_target_only_after_the_singing() {
    let mut session = in_review();
    assert_eq!(
        session.handle(Event::HearTarget),
        vec![Command::PlayTone(69)]
    );
    assert_eq!(note_hz(69), 440.0);
    assert!(matches!(session.state(), SessionState::Review { .. }));
    assert_eq!(session.track().len(), 10);
}

#[test]
fn the_review_holds_the_track_the_adapter_handed_back() {
    let session = in_review();
    assert_eq!(session.track(), fake_track().as_slice());
    assert_eq!(session.target_note().map(note_hz), Some(440.0));
}

#[test]
fn an_emptied_note_is_omitted_rather_than_sent_blank() {
    let mut session = in_review();
    run(
        &mut session,
        vec![
            Event::Rate(5),
            Event::NoteEdited("typo".to_string()),
            Event::NoteEdited(String::new()),
        ],
    );
    let commands = session.handle(Event::Save);
    let [Command::Persist(meta)] = commands.as_slice() else {
        panic!("expected a save");
    };
    assert_eq!(meta.note, None);
}

// ------------------------------------------------------------ save failure

#[test]
fn a_failed_save_returns_to_review_with_everything_intact() {
    let mut session = in_review();
    run(
        &mut session,
        vec![
            Event::Rate(4),
            Event::NoteEdited("flat on the approach".to_string()),
            Event::Save,
        ],
    );

    assert_eq!(
        session.handle(Event::SaveErr("503 from the server".to_string())),
        vec![]
    );
    assert!(matches!(session.state(), SessionState::Review { .. }));
    assert_eq!(session.last_error(), Some("503 from the server"));
    assert_eq!(session.track(), fake_track().as_slice());
    assert!(session.can_save(), "the rating survived the failure");

    let commands = session.handle(Event::Save);
    let [Command::Persist(meta)] = commands.as_slice() else {
        panic!("expected a retry");
    };
    assert_eq!(meta.self_rating, Some(4));
    assert_eq!(meta.note.as_deref(), Some("flat on the approach"));
    assert_eq!(session.last_error(), None);
}

// ------------------------------------------------------------------ reset

#[test]
fn reset_returns_to_idle_from_anywhere() {
    let setups: Vec<(&str, Vec<Event<PitchEstimate>>, Vec<Command>)> = vec![
        ("from idle", vec![], vec![]),
        ("from the arpeggio", vec![start()], vec![]),
        (
            "from listening, closing the mic on the way out",
            vec![start(), Event::ReferenceDone],
            vec![Command::StopCapture],
        ),
        (
            "from listening after a stop, without closing it twice",
            vec![start(), Event::ReferenceDone, Event::Stop],
            vec![],
        ),
        (
            "from review",
            vec![
                start(),
                Event::ReferenceDone,
                Event::Stop,
                Event::TrackReady(fake_track()),
            ],
            vec![],
        ),
        (
            "from saved",
            vec![
                start(),
                Event::ReferenceDone,
                Event::Stop,
                Event::TrackReady(fake_track()),
                Event::Rate(5),
                Event::Save,
                Event::SaveOk {
                    id: "smp-1".to_string(),
                },
            ],
            vec![],
        ),
    ];

    for (label, setup, expected) in setups {
        let mut session = session();
        run(&mut session, setup);
        assert_eq!(session.handle(Event::Reset), expected, "{label}");
        assert_eq!(session.state(), &SessionState::Idle, "{label}");
        assert_eq!(session.track(), &[], "{label}");
    }
}

#[test]
fn reset_clears_a_previous_save_failure() {
    let mut session = in_review();
    run(
        &mut session,
        vec![
            Event::Rate(4),
            Event::Save,
            Event::SaveErr("boom".to_string()),
        ],
    );
    assert_eq!(session.last_error(), Some("boom"));
    session.handle(Event::Reset);
    assert_eq!(session.last_error(), None);
}

// --------------------------------------------------------- laws, concretely

#[test]
fn save_then_failure_gives_back_the_exact_review() {
    let mut session = in_review();
    run(
        &mut session,
        vec![Event::Rate(2), Event::NoteEdited("breathy".to_string())],
    );
    let review = session.state().clone();
    session.handle(Event::Save);
    session.handle(Event::SaveErr("offline".to_string()));
    assert_eq!(session.state(), &review);
}

#[test]
fn the_target_stays_fixed_through_the_whole_take() {
    let mut session = session();
    let events = vec![
        start(),
        Event::ReferenceDone,
        Event::Stop,
        Event::TrackReady(fake_track()),
        Event::Rate(3),
        Event::HearTarget,
    ];
    for event in events {
        session.handle(event);
        assert_eq!(session.target_note(), Some(69));
    }
    let commands = session.handle(Event::Save);
    let [Command::Persist(meta)] = commands.as_slice() else {
        panic!("expected a save");
    };
    assert_eq!(meta.drill.target_note, Some(69));
    assert_eq!(session.target_note(), Some(69));
    session.handle(Event::SaveOk { id: "x".to_string() });
    assert_eq!(session.target_note(), None);
}

#[test]
fn a_start_while_busy_is_ignored() {
    let mut session = in_review();
    let before = session.state().clone();
    let other = Event::Start {
        key: Key::new(PitchClass::C, Mode::Minor),
        degree: Degree::new(2).unwrap(),
        tonic_octave: 3,
    };
    assert_eq!(session.handle(other), vec![]);
    assert_eq!(session.state(), &before);
}

#[test]
fn space_after_a_save_starts_the_next_drill() {
    let mut session = session();
    session.handle(start());
    session.handle(Event::ReferenceDone);
    session.handle(Event::Stop);
    session.handle(Event::TrackReady(fake_track()));
    session.handle(Event::Rate(3));
    session.handle(Event::Save);
    session.handle(Event::SaveOk { id: "smp-20260819-113211-a1b2".to_string() });
    assert!(matches!(session.state(), SessionState::Saved { .. }));

    let next = Event::Start { key: Key::new(PitchClass::G, Mode::Major), degree: Degree::new(3).unwrap(), tonic_octave: 3 };
    let commands = session.handle(next);
    assert_eq!(commands, vec![Command::PlayArpeggio([55, 59, 62, 67])]);
    assert_eq!(
        session.state(),
        &SessionState::PlayingReference {
            key: Key::new(PitchClass::G, Mode::Major),
            degree: Degree::new(3).unwrap(),
            tonic_octave: 3,
            target_note: 59,
        }
    );
    assert_eq!(session.target_note(), Some(59));
    assert_eq!(session.last_error(), None);
}

#[test]
fn an_error_stands_only_while_back_in_review() {
    let mut session = session();
    session.handle(start());
    session.handle(Event::ReferenceDone);
    session.handle(Event::Stop);
    session.handle(Event::TrackReady(fake_track()));
    session.handle(Event::Rate(9));
    session.handle(Event::NoteEdited(String::new()));
    assert!(matches!(session.state(), SessionState::Review { self_rating: None, note: None, .. }));
    session.handle(Event::Rate(2));
    session.handle(Event::Save);
    session.handle(Event::SaveErr("server returned 500".to_string()));
    assert!(matches!(session.state(), SessionState::Review { self_rating: Some(2), .. }));
    assert_eq!(session.last_error(), Some("server returned 500"));
    let commands = session.handle(Event::Save);
    let [Command::Persist(meta)] = commands.as_slice() else {
        panic!("expected one upload, got {commands:?}");
    };
    assert_eq!(meta.audio.sample_rate, 48_000);
    assert_eq!(meta.capture.device_label, "MacBook Pro Microphone");
    assert_eq!(meta.capture.user_agent, "Mozilla/5.0 (test)");
    assert_eq!(session.last_error(), None);
    assert!(matches!(session.state(), SessionState::Saving { self_rating: 2, .. }));
}
