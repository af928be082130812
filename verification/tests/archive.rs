use mt2026::archive::{
    duration_ms, frame_line, hex_suffix, log_lines, parsed_rows, sample_id, sample_row, wav_path,
    Archive, AudioMeta, CaptureMeta, NewSample, SavedSample, KIND_SAMPLE, SCHEMA_VERSION,
};
use std::path::PathBuf;

fn chars(s: &str) -> Vec<char> {
    s.chars().collect()
}

fn lines(s: &str) -> Vec<String> {
    log_lines(&chars(s))
        .into_iter()
        .map(|l| l.into_iter().collect())
        .collect()
}

#[test]
fn archive_keeps_its_root() {
    let archive = Archive::new(PathBuf::from("/data/practice"));
    assert_eq!(archive.root(), &PathBuf::from("/data/practice"));
}

#[test]
fn duration_is_whole_milliseconds_rounded_down() {
    assert_eq!(duration_ms(4800, 48_000), 100);
    assert_eq!(duration_ms(48_000, 48_000), 1000);
    assert_eq!(duration_ms(1, 44_100), 0);
    assert_eq!(duration_ms(44_099, 44_100), 999);
    assert_eq!(duration_ms(12345, 0), 0);
}

#[test]
fn a_mono_wav_is_one_channel_sixteen_bits() {
    let meta = AudioMeta::mono16("samples/113211-a1b2.wav".to_string(), 48_000, 154_080);
    assert_eq!(meta.path, "samples/113211-a1b2.wav");
    assert_eq!(meta.sample_rate, 48_000);
    assert_eq!(meta.channels, 1);
    assert_eq!(meta.bit_depth, 16);
    assert_eq!(meta.duration_ms, 3210);
    assert_eq!(SCHEMA_VERSION, 1);
    assert_eq!(KIND_SAMPLE, "sample");
}

#[test]
fn ids_and_paths_follow_the_schema_example() {
    assert_eq!(
        sample_id("20260819", "113211", "a1b2"),
        "smp-20260819-113211-a1b2"
    );
    assert_eq!(wav_path("113211", "a1b2"), "samples/113211-a1b2.wav");
}

#[test]
fn the_suffix_is_four_lowercase_hex_digits() {
    assert_eq!(hex_suffix(0, 0, 0), "0000");
    assert_eq!(hex_suffix(0xa1b2, 0, 0), "a1b2");
    assert_eq!(hex_suffix(0x1234_ffff, 0, 0), "ffff");
    assert_eq!(hex_suffix(0, 0, 0x000f), "000f");
    // counter 1 mixes in 0x9E37_79B1, of which the low half is 0x79b1
    assert_eq!(hex_suffix(0, 1, 0), "79b1");
    assert_eq!(hex_suffix(0x79b1, 1, 0), "0000");
    let n: u32 = 0x1234_5678;
    let c: u32 = 7;
    let p: u32 = 4242;
    let expected = format!("{:04x}", ((n ^ c.wrapping_mul(0x9E37_79B1) ^ p) & 0xFFFF) as u16);
    assert_eq!(hex_suffix(n, c, p), expected);
}

#[test]
fn log_lines_split_like_str_lines_and_skip_blank_ones() {
    assert_eq!(lines("a\nb\n"), ["a", "b"]);
    assert_eq!(lines("a\r\nb"), ["a", "b"]);
    assert_eq!(lines("a\n\n  \t\nb\n\n"), ["a", "b"]);
    assert_eq!(lines("x\ry\n"), ["x\ry"]);
    assert_eq!(lines("tail\r"), ["tail\r"]);
    assert_eq!(lines("\u{3000}\u{a0}\n{}\n"), ["{}"]);
    assert!(lines("").is_empty());
    assert!(lines("\n\n\n").is_empty());
}

#[test]
fn an_appended_entry_reads_back_after_the_others() {
    let mut log = String::new();
    log.push_str(&frame_line("{\"id\":\"one\"}"));
    log.push_str(&frame_line("{\"id\":\"two\"}"));
    assert_eq!(frame_line("{}"), "{}\n");
    assert_eq!(lines(&log), ["{\"id\":\"one\"}", "{\"id\":\"two\"}"]);
}

#[test]
fn malformed_rows_are_skipped_and_good_ones_kept_in_order() {
    let results: Vec<Result<&str, String>> = vec![
        Ok("first"),
        Err("not json".to_string()),
        Ok("second"),
        Err("truncated".to_string()),
    ];
    assert_eq!(parsed_rows(results), ["first", "second"]);
    let none: Vec<Result<u8, ()>> = vec![Err(()), Err(())];
    assert!(parsed_rows(none).is_empty());
}

#[test]
fn appended_row_carries_minted_and_derived_fields() {
    let meta = NewSample {
        drill: "degree".to_string(),
        self_rating: Some(4),
        note: Some("test take".to_string()),
        sample_rate: 8000,
        capture: CaptureMeta {
            device_label: "Test Mic".to_string(),
            user_agent: "test-agent".to_string(),
            app_git_sha: "abc1234".to_string(),
        },
    };
    let row = sample_row(
        meta,
        "smp-20260819-113211-a1b2".to_string(),
        "2026-08-19T11:32:11-07:00".to_string(),
        "samples/113211-a1b2.wav".to_string(),
        8000,
    );
    assert_eq!(row.schema_version, SCHEMA_VERSION);
    assert_eq!(row.kind, "sample");
    assert_eq!(row.drill, "degree");
    assert_eq!(row.self_rating, Some(4));
    assert_eq!(row.note.as_deref(), Some("test take"));
    assert_eq!(row.recorded_at, "2026-08-19T11:32:11-07:00");
    assert_eq!(row.audio.path, "samples/113211-a1b2.wav");
    assert_eq!(row.audio.sample_rate, 8000);
    assert_eq!(row.audio.channels, 1);
    assert_eq!(row.audio.bit_depth, 16);
    assert_eq!(row.audio.duration_ms, 1000);
    assert_eq!(row.capture.device_label, "Test Mic");
    let saved = SavedSample::of(row);
    assert_eq!(saved.id, "smp-20260819-113211-a1b2");
    assert_eq!(saved.id, saved.row.id);
    assert_eq!(saved.path, saved.row.audio.path);
}
