use mt2026::client::{pcm_bytes, SaveRequest};
use mt2026::meta::DRILL_TYPE_FREE;
use mt2026::server::decode_pcm_words;

#[test]
fn pcm_goes_out_as_little_endian_f32_bytes() {
    let samples: [f32; 3] = [1.0, -0.5, 0.25];
    let words: Vec<u32> = samples.iter().map(|s| s.to_bits()).collect();
    let bytes = pcm_bytes(&words);
    let expected: Vec<u8> = samples.iter().flat_map(|s| s.to_le_bytes()).collect();
    assert_eq!(bytes, expected);
    assert_eq!(&bytes[0..4], &[0x00, 0x00, 0x80, 0x3f]);
}

#[test]
fn server_decodes_what_the_client_sends() {
    let words: Vec<u32> = vec![0, 1, 0x3f80_0000, 0xdead_beef, u32::MAX];
    let bytes = pcm_bytes(&words);
    assert_eq!(bytes.len(), 20);
    assert_eq!(decode_pcm_words(&bytes), Ok(words));
}

#[test]
fn no_samples_send_no_bytes() {
    assert!(pcm_bytes(&[]).is_empty());
}

#[test]
fn free_take_request_becomes_upload_meta() {
    let req = SaveRequest {
        drill_type: DRILL_TYPE_FREE.to_string(),
        self_rating: Some(4),
        note: Some("warm-up".to_string()),
        sample_rate: 44_100,
        device_label: "Built-in Mic".to_string(),
    };
    let meta = req.into_meta("Mozilla/5.0".to_string(), "abc1234".to_string());
    assert_eq!(meta.drill.drill_type, "free");
    assert_eq!(meta.drill.key, None);
    assert_eq!(meta.drill.mode, None);
    assert_eq!(meta.drill.degree, None);
    assert_eq!(meta.drill.target_note, None);
    assert_eq!(meta.self_rating, Some(4));
    assert_eq!(meta.note.as_deref(), Some("warm-up"));
    assert_eq!(meta.audio.sample_rate, 44_100);
    assert_eq!(meta.capture.device_label, "Built-in Mic");
    assert_eq!(meta.capture.user_agent, "Mozilla/5.0");
    assert_eq!(meta.capture.app_git_sha, "abc1234");
}
