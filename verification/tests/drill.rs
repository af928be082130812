use mt2026::drill::{
    after_command, key_event, msg_event, reference_done_after_ms, silences_reference, stamp_take,
    DrillMsg, AUTO_STOP_MS,
};
use mt2026::meta::{CaptureContext, DrillMeta};
use mt2026::session::{Command, Event, SessionState};
use mt2026::take::Recording;
use mt2026::theory::{Degree, Key, Mode, PitchClass};

fn d_major() -> Key {
    Key::new(PitchClass::D, Mode::Major)
}

fn sol() -> Degree {
    Degree::new(5).unwrap()
}

fn playing() -> SessionState<u32> {
    SessionState::PlayingReference { key: d_major(), degree: sol(), tonic_octave: 3, target_note: 57 }
}

#[test]
fn timers_of_the_current_step_reach_the_session() {
    assert_eq!(msg_event(DrillMsg::<u32>::ReferenceDone(7), 7), Some(Event::ReferenceDone));
    assert_eq!(msg_event(DrillMsg::<u32>::AutoStop(7), 7), Some(Event::Stop));
}

#[test]
fn stale_timers_are_dropped() {
    assert_eq!(msg_event(DrillMsg::<u32>::ReferenceDone(6), 7), None);
    assert_eq!(msg_event(DrillMsg::<u32>::AutoStop(8), 7), None);
}

#[test]
fn gestures_always_reach_the_session() {
    assert_eq!(msg_event(DrillMsg::<u32>::Ui(Event::Save), 0), Some(Event::Save));
    assert_eq!(msg_event(DrillMsg::<u32>::Ui(Event::Rate(4)), 99), Some(Event::Rate(4)));
}

#[test]
fn stop_or_reset_silence_a_sounding_reference() {
    assert!(silences_reference(&Event::Stop, &playing()));
    assert!(silences_reference(&Event::Reset, &playing()));
    assert!(!silences_reference(&Event::ReferenceDone, &playing()));
    assert!(!silences_reference(&Event::<u32>::Stop, &SessionState::Idle));
}

#[test]
fn four_note_reference_is_done_after_2350_ms() {
    assert_eq!(reference_done_after_ms(4), 2350);
    assert_eq!(reference_done_after_ms(0), 150);
    assert_eq!(AUTO_STOP_MS, 6000);
}

#[test]
fn keys_are_ignored_off_screen_held_modified_or_typing() {
    let state: SessionState<u32> = SessionState::Idle;
    let start = Some(Event::Start { key: d_major(), degree: sol(), tonic_octave: 3 });
    assert_eq!(key_event(true, false, false, false, &state, " ", PitchClass::D, sol(), 3), start);
    assert_eq!(key_event(false, false, false, false, &state, " ", PitchClass::D, sol(), 3), None);
    assert_eq!(key_event(true, true, false, false, &state, " ", PitchClass::D, sol(), 3), None);
    assert_eq!(key_event(true, false, true, false, &state, " ", PitchClass::D, sol(), 3), None);
    assert_eq!(key_event(true, false, false, true, &state, " ", PitchClass::D, sol(), 3), None);
}

#[test]
fn uploads_carry_the_recorded_take_facts() {
    let ctx = CaptureContext {
        sample_rate: 48_000,
        device_label: "unknown (pre-capture)".to_string(),
        user_agent: "Mozilla/5.0".to_string(),
        app_git_sha: "abc1234".to_string(),
    };
    let meta = ctx.new_sample_meta(DrillMeta::degree(d_major(), sol(), 57), Some(4), None);
    let take = Recording { samples: vec![0.0_f32; 8], sample_rate: 44_100, device_label: "USB Mic".to_string() };
    let stamped = stamp_take(meta.clone(), Some(&take)).unwrap();
    assert_eq!(stamped.audio.sample_rate, 44_100);
    assert_eq!(stamped.capture.device_label, "USB Mic");
    assert_eq!(stamped.capture.user_agent, "Mozilla/5.0");
    assert_eq!(stamped.drill, meta.drill);
    assert_eq!(stamped.self_rating, Some(4));
}

#[test]
fn no_take_no_upload() {
    let ctx = CaptureContext {
        sample_rate: 48_000,
        device_label: "d".to_string(),
        user_agent: "u".to_string(),
        app_git_sha: "s".to_string(),
    };
    let meta = ctx.new_sample_meta(DrillMeta::free(), None, None);
    assert_eq!(
        stamp_take::<f32>(meta, None),
        Err("no recorded take to save".to_string())
    );
}

#[test]
fn a_sounding_reference_schedules_its_end_in_a_new_generation() {
    let a = after_command::<u32>(7, &Command::PlayArpeggio([62, 66, 69, 74]), true);
    assert_eq!(a.generation, 8);
    assert!(matches!(a.timer, Some((2350, DrillMsg::ReferenceDone(8)))));
    assert_eq!(a.follow_up, None);
}

#[test]
fn a_reference_that_cannot_sound_resets_the_drill() {
    let a = after_command::<u32>(7, &Command::PlayArpeggio([62, 66, 69, 74]), false);
    assert_eq!(a.generation, 8);
    assert!(a.timer.is_none());
    assert_eq!(a.follow_up, Some(Event::Reset));
}

#[test]
fn an_open_mic_schedules_the_auto_stop() {
    let a = after_command::<u32>(3, &Command::StartCapture, true);
    assert_eq!(a.generation, 4);
    assert!(matches!(a.timer, Some((6000, DrillMsg::AutoStop(4)))));
    let b = after_command::<u32>(3, &Command::StartCapture, false);
    assert_eq!(b.generation, 3);
    assert!(b.timer.is_none());
    assert_eq!(b.follow_up, Some(Event::Reset));
}

#[test]
fn closing_the_mic_makes_the_auto_stop_stale() {
    let a = after_command::<u32>(4, &Command::StopCapture, true);
    assert_eq!(a.generation, 5);
    assert_eq!(msg_event(DrillMsg::<u32>::AutoStop(4), a.generation), None);
    let b = after_command::<u32>(5, &Command::PlayTone(69), false);
    assert_eq!(b.generation, 5);
    assert!(b.timer.is_none());
    assert_eq!(b.follow_up, None);
}
