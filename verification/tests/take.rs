use mt2026::client::{SaveRequest, SavedSample};
use mt2026::take::{
    device_label,
    banner, toggle_rating, toggles_recording, Outcome, Phase, Recording, Step, TakeScreen,
};

fn take() -> Recording<f32> {
    Recording {
        samples: vec![0.0, 0.5, -0.5],
        sample_rate: 48_000,
        device_label: "USB Mic".to_string(),
    }
}

fn recorded_screen() -> TakeScreen<f32> {
    let mut screen = TakeScreen::new();
    assert!(matches!(screen.toggle(), Step::OpenMic));
    screen.mic_opened(Ok(()));
    assert!(matches!(screen.toggle(), Step::CloseMic));
    screen.mic_closed(take());
    screen
}

#[test]
fn screen_starts_idle_with_a_blank_form() {
    let screen: TakeScreen<f32> = TakeScreen::new();
    assert_eq!(screen.phase, Phase::Idle);
    assert!(!screen.mic_open);
    assert!(screen.captured.is_none());
    assert!(screen.outcome.is_none());
    assert_eq!(screen.form.drill_type, "free");
    assert_eq!(screen.form.target, "");
    assert_eq!(screen.form.note, "");
    assert_eq!(screen.form.rating, None);
}

#[test]
fn record_then_stop_brings_up_the_tag_form() {
    let screen = recorded_screen();
    assert_eq!(screen.phase, Phase::Tagging);
    assert!(!screen.mic_open);
    assert_eq!(screen.captured.as_ref().unwrap().samples, vec![0.0, 0.5, -0.5]);
}

#[test]
fn mic_refusal_returns_to_idle_with_the_reason() {
    let mut screen: TakeScreen<f32> = TakeScreen::new();
    screen.toggle();
    screen.mic_opened(Err("mic permission denied".to_string()));
    assert_eq!(screen.phase, Phase::Idle);
    assert!(!screen.mic_open);
    assert_eq!(screen.outcome, Some(Outcome::Failed("mic permission denied".to_string())));
    assert_eq!(banner(&screen.outcome), ("banner banner-error", "mic permission denied".to_string()));
}

#[test]
fn save_posts_the_tagged_take() {
    let mut screen = recorded_screen();
    screen.form.drill_type = "  scales ".to_string();
    screen.form.target = "D major, 5th".to_string();
    screen.form.note = " flat ".to_string();
    screen.form.rating = Some(3);
    match screen.save() {
        Step::Post(req) => {
            assert_eq!(req.drill_type, "scales");
            assert_eq!(req.self_rating, Some(3));
            assert_eq!(req.note.as_deref(), Some("target: D major, 5th — flat"));
            assert_eq!(req.sample_rate, 48_000);
            assert_eq!(req.device_label, "USB Mic");
        }
        _ => panic!("expected an upload"),
    }
    assert_eq!(screen.phase, Phase::Saving);
}

#[test]
fn failed_save_keeps_the_take_and_the_form() {
    let mut screen = recorded_screen();
    screen.form.note = "keep me".to_string();
    screen.save();
    screen.save_finished(Err("server returned 500: disk full".to_string()));
    assert_eq!(screen.phase, Phase::Tagging);
    assert!(screen.captured.is_some());
    assert_eq!(screen.form.note, "keep me");
    assert_eq!(
        screen.outcome,
        Some(Outcome::Failed("server returned 500: disk full".to_string()))
    );
}

#[test]
fn successful_save_clears_the_take_and_resets_the_form() {
    let mut screen = recorded_screen();
    screen.form.note = "good one".to_string();
    screen.form.rating = Some(5);
    screen.save();
    let saved = SavedSample {
        id: "20260819T101500Z-3f9a".to_string(),
        path: "samples/2026-08-19/20260819T101500Z-3f9a.wav".to_string(),
    };
    screen.save_finished(Ok(saved.clone()));
    assert_eq!(screen.phase, Phase::Idle);
    assert!(screen.captured.is_none());
    assert_eq!(screen.form.drill_type, "free");
    assert_eq!(screen.form.note, "");
    assert_eq!(screen.form.rating, None);
    assert_eq!(screen.outcome, Some(Outcome::Saved(saved)));
    assert_eq!(
        banner(&screen.outcome),
        (
            "banner banner-ok",
            "Saved 20260819T101500Z-3f9a → samples/2026-08-19/20260819T101500Z-3f9a.wav".to_string()
        )
    );
}

#[test]
fn save_without_a_take_does_nothing() {
    let mut screen: TakeScreen<f32> = TakeScreen::new();
    assert!(matches!(screen.save(), Step::Nothing));
    assert_eq!(screen.phase, Phase::Idle);
}

#[test]
fn discard_drops_the_take() {
    let mut screen = recorded_screen();
    screen.form.target = "A".to_string();
    screen.discard();
    assert_eq!(screen.phase, Phase::Idle);
    assert!(screen.captured.is_none());
    assert!(screen.outcome.is_none());
    assert_eq!(screen.form.target, "");
    assert_eq!(banner(&screen.outcome), ("banner", String::new()));
}

#[test]
fn test_tone_goes_through_the_save_path() {
    let mut screen: TakeScreen<f32> = TakeScreen::new();
    match screen.test_tone(take()) {
        Step::Post(req) => {
            assert_eq!(req.drill_type, "free");
            assert_eq!(req.note.as_deref(), Some("dev test tone"));
            assert_eq!(req.self_rating, None);
        }
        _ => panic!("expected an upload"),
    }
    assert_eq!(screen.phase, Phase::Saving);
}

#[test]
fn space_and_r_toggle_only_outside_the_form() {
    assert!(toggles_recording(Phase::Idle, " ", false, false));
    assert!(toggles_recording(Phase::Recording, "r", false, false));
    assert!(toggles_recording(Phase::Idle, "R", false, false));
    assert!(!toggles_recording(Phase::Tagging, " ", false, false));
    assert!(!toggles_recording(Phase::Saving, "r", false, false));
    assert!(!toggles_recording(Phase::Idle, " ", true, false));
    assert!(!toggles_recording(Phase::Idle, "r", false, true));
    assert!(!toggles_recording(Phase::Idle, "x", false, false));
    assert!(!toggles_recording(Phase::Idle, "rr", false, false));
}

#[test]
fn rating_buttons_toggle() {
    assert_eq!(toggle_rating(None, 3), Some(3));
    assert_eq!(toggle_rating(Some(3), 3), None);
    assert_eq!(toggle_rating(Some(2), 4), Some(4));
}

#[test]
fn blank_drill_type_falls_back_to_free() {
    let req = SaveRequest::from_form("   ", "", "", None, 44_100, "Mic".to_string());
    assert_eq!(req.drill_type, "free");
    assert_eq!(req.note, None);
}

#[test]
fn blank_device_labels_read_as_unknown() {
    assert_eq!(device_label(String::new()), "unknown input device");
    assert_eq!(device_label("  \t".to_string()), "unknown input device");
    assert_eq!(device_label(" USB Mic ".to_string()), " USB Mic ");
}
