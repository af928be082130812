use mt2026::tracker::{window_for, Tracker, MAX_WINDOW, MIN_WINDOW};


#[test]
fn window_is_2048_at_both_common_capture_rates() {
    assert_eq!(window_for(48_000), 2048);
    assert_eq!(window_for(44_100), 2048);
}

#[test]
fn window_is_clamped_at_extreme_rates() {
    assert_eq!(window_for(8_000), MIN_WINDOW);
    assert_eq!(window_for(768_000), MAX_WINDOW);
}

#[test]
fn window_picks_the_nearest_power_of_two_on_a_log_scale() {
    // 42.7 ms: 16 kHz -> 683 samples (nearest 512), 22.05 kHz -> 941.5 (1024),
    // 96 kHz -> 4099 (4096), 192 kHz -> 8198 (8192), 0 Hz -> clamped.
    assert_eq!(window_for(16_000), 512);
    assert_eq!(window_for(22_050), 1024);
    assert_eq!(window_for(96_000), 4096);
    assert_eq!(window_for(192_000), 8192);
    assert_eq!(window_for(0), 512);
    assert_eq!(window_for(u32::MAX), 8192);
    // The boundary between 1024 and 2048 sits at 1024 * sqrt(2) = 1448.2
    // samples of ideal window: 33914 Hz is below it, 33915 Hz above.
    assert_eq!(window_for(33_914), 1024);
    assert_eq!(window_for(33_915), 2048);
}

#[test]
fn hop_is_a_quarter_window() {
    let tracker: Tracker<f32> = Tracker::new(48_000);
    assert_eq!(tracker.window_samples(), 2048);
    assert_eq!(tracker.hop_samples(), 512);
    assert_eq!(tracker.sample_rate(), 48_000);
}

fn ramp(n: usize) -> Vec<u32> {
    (0..n as u32).collect()
}

#[test]
fn a_partial_window_yields_nothing_yet() {
    let mut tracker: Tracker<u32> = Tracker::new(48_000);
    assert!(tracker.feed(&ramp(2047)).is_empty());
    let frames = tracker.feed(&[2047]);
    assert_eq!(frames.len(), 1);
    assert_eq!(frames[0].samples_seen, 2048);
    assert_eq!(frames[0].samples, ramp(2048));
}

#[test]
fn windows_arrive_every_hop_holding_the_latest_samples_in_order() {
    let mut tracker: Tracker<u32> = Tracker::new(48_000);
    let signal = ramp(2048 + 3 * 512 + 100);
    let frames = tracker.feed(&signal);
    let instants: Vec<u64> = frames.iter().map(|f| f.samples_seen).collect();
    assert_eq!(instants, [2048, 2560, 3072, 3584]);
    for frame in &frames {
        let end = frame.samples_seen as usize;
        assert_eq!(frame.samples, signal[end - 2048..end].to_vec());
    }
}

#[test]
fn block_size_does_not_change_the_windows() {
    let signal = ramp(10_000);
    let mut whole: Tracker<u32> = Tracker::new(48_000);
    let expected = whole.feed(&signal);
    for block in [1usize, 37, 128, 512, 4096] {
        let mut tracker: Tracker<u32> = Tracker::new(48_000);
        let got: Vec<_> = signal.chunks(block).flat_map(|b| tracker.feed(b)).collect();
        assert_eq!(got, expected, "block size {block} changed the windows");
    }
}

#[test]
fn reset_restarts_the_clock_and_drops_buffered_audio() {
    let mut tracker: Tracker<u32> = Tracker::new(48_000);
    tracker.feed(&ramp(5000));
    tracker.reset();
    let fresh: Vec<u32> = (100_000..100_000 + 2048).collect();
    let frames = tracker.feed(&fresh);
    assert_eq!(frames.len(), 1);
    assert_eq!(frames[0].samples_seen, 2048, "clock restarted");
    assert_eq!(frames[0].samples, fresh);
}

#[test]
fn hop_is_a_quarter_window_and_cadence_matches() {
    let tracker: Tracker<f32> = Tracker::new(48_000);
    assert_eq!(tracker.window_samples(), 2048);
    assert_eq!(tracker.hop_samples(), 512);
    let rate = tracker.sample_rate() as f64;
    let cadence_ms = tracker.hop_samples() as f64 / rate * 1000.0;
    let latency_ms = tracker.window_samples() as f64 / 2.0 / rate * 1000.0;
    assert!((cadence_ms - 10.666).abs() < 0.01);
    assert!((latency_ms - 21.333).abs() < 0.01);
}

#[test]
fn window_count_follows_the_schedule() {
    let mut t: Tracker<u32> = Tracker::new(48_000);
    let samples: Vec<u32> = (0..5000).collect();
    let frames = t.feed(&samples);
    // (5000 - 2048) / 512 + 1 windows, the j-th ending at 2048 + j * 512.
    assert_eq!(frames.len(), (5000 - 2048) / 512 + 1);
    for (j, f) in frames.iter().enumerate() {
        assert_eq!(f.samples_seen, 2048 + j as u64 * 512);
    }
    let mut short: Tracker<u32> = Tracker::new(48_000);
    assert!(short.feed(&samples[..2047]).is_empty());
}

#[test]
fn reset_behaves_like_a_fresh_tracker() {
    let samples: Vec<u32> = (0..3000).collect();
    let mut used: Tracker<u32> = Tracker::new(44_100);
    used.feed(&samples[..1234]);
    used.reset();
    let mut fresh: Tracker<u32> = Tracker::new(44_100);
    assert_eq!(used.feed(&samples), fresh.feed(&samples));
    assert_eq!(used.window_samples(), fresh.window_samples());
    assert_eq!(used.hop_samples(), fresh.hop_samples());
    assert_eq!(used.sample_rate(), 44_100);
}

#[test]
fn any_blocking_gives_the_same_windows() {
    let samples: Vec<u32> = (0..9000).collect();
    let mut whole: Tracker<u32> = Tracker::new(48_000);
    let expected = whole.feed(&samples);
    for size in [1usize, 37, 128, 512, 4096] {
        let mut t: Tracker<u32> = Tracker::new(48_000);
        let mut got = Vec::new();
        for block in samples.chunks(size) {
            got.extend(t.feed(block));
        }
        assert_eq!(got, expected, "block size {size}");
    }
}
