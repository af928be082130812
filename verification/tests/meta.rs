use mt2026::meta::{CaptureContext, DrillMeta, DRILL_TYPE_DEGREE, DRILL_TYPE_FREE};
use mt2026::theory::{Degree, Key, Mode, PitchClass};

fn context() -> CaptureContext {
    CaptureContext {
        sample_rate: 44_100,
        device_label: "d".to_string(),
        user_agent: "u".to_string(),
        app_git_sha: "s".to_string(),
    }
}

#[test]
fn free_takes_carry_no_drill_target() {
    let drill = DrillMeta::free();
    assert_eq!(drill.drill_type, DRILL_TYPE_FREE);
    assert_eq!(drill.drill_type, "free");
    assert_eq!(drill.key, None);
    assert_eq!(drill.mode, None);
    assert_eq!(drill.degree, None);
    assert_eq!(drill.target_note, None);
}

#[test]
fn degree_drills_name_key_mode_degree_and_target() {
    let key = Key::new(PitchClass::D, Mode::Major);
    let degree = Degree::new(5).unwrap();
    let drill = DrillMeta::degree(key, degree, 69);
    assert_eq!(drill.drill_type, DRILL_TYPE_DEGREE);
    assert_eq!(drill.drill_type, "degree");
    assert_eq!(drill.key, Some(PitchClass::D));
    assert_eq!(drill.mode, Some(Mode::Major));
    assert_eq!(drill.degree, Some(degree));
    assert_eq!(drill.target_note, Some(69));
}

#[test]
fn uploads_are_stamped_with_the_capture_context() {
    let ctx = context();
    let meta = ctx.new_sample_meta(DrillMeta::free(), Some(3), Some("n".to_string()));
    assert_eq!(meta.self_rating, Some(3));
    assert_eq!(meta.note.as_deref(), Some("n"));
    assert_eq!(meta.audio.sample_rate, 44_100);
    assert_eq!(meta.capture.device_label, "d");
    assert_eq!(meta.capture.user_agent, "u");
    assert_eq!(meta.capture.app_git_sha, "s");
    assert_eq!(ctx.audio().sample_rate, 44_100);
    assert_eq!(ctx.capture(), meta.capture);
}
