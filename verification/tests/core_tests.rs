use base64::Engine;

use daily_logger::fingerprint::{calc_change_rate, compute_fingerprint, DIGEST_LEN, THUMB_SIZE};
use daily_logger::gate::ScreenState;
use daily_logger::mask_api_key;
use daily_logger::manual::{note_content_is_valid, screenshot_data_uri, tail_lines};
use daily_logger::scheduler::{cycle_precheck, AppState, StartOutcome};
use daily_logger::settings::{load_capture_settings, CaptureSettings, Settings};

// ── API-key masking ──

#[test]
fn mask_api_key_hides_prefix() {
    assert_eq!(mask_api_key("sk-abc123xyz9999"), "****9999");
}

#[test]
fn mask_api_key_short_key_fully_masked() {
    assert_eq!(mask_api_key("ab"), "****");
    assert_eq!(mask_api_key("abcd"), "****");
}

#[test]
fn mask_api_key_empty_string() {
    assert_eq!(mask_api_key(""), "****");
}

#[test]
fn mask_api_key_exactly_five_chars() {
    assert_eq!(mask_api_key("12345"), "****2345");
}

// ── Change-rate metric (rates are in hundredths of a percent) ──

fn make_test_fingerprint(value: u8) -> Vec<u8> {
    vec![value; THUMB_SIZE * THUMB_SIZE]
}

#[test]
fn calc_change_rate_identical_images_returns_zero() {
    let a = make_test_fingerprint(128);
    let b = make_test_fingerprint(128);
    assert_eq!(calc_change_rate(&a, &b) as f64 / 100.0, 0.0);
}

#[test]
fn calc_change_rate_completely_different_returns_100() {
    let a = make_test_fingerprint(0);
    let b = make_test_fingerprint(255);
    assert_eq!(calc_change_rate(&a, &b) as f64 / 100.0, 100.0);
}

#[test]
fn calc_change_rate_within_noise_tolerance_returns_zero() {
    let a = make_test_fingerprint(100);
    // Difference of 10 is exactly at the noise tolerance boundary — not counted
    let b = make_test_fingerprint(110);
    assert_eq!(calc_change_rate(&a, &b) as f64 / 100.0, 0.0);
}

#[test]
fn calc_change_rate_just_above_noise_tolerance() {
    let a = make_test_fingerprint(100);
    // Difference of 11 exceeds noise tolerance — all pixels counted
    let b = make_test_fingerprint(111);
    assert_eq!(calc_change_rate(&a, &b) as f64 / 100.0, 100.0);
}

#[test]
fn calc_change_rate_partial_change() {
    let total = THUMB_SIZE * THUMB_SIZE;
    let mut a = vec![100u8; total];
    let mut b = vec![100u8; total];
    // Change 25% of pixels beyond noise tolerance
    let quarter = total / 4;
    for i in 0..quarter {
        a[i] = 0;
        b[i] = 200;
    }
    let rate = calc_change_rate(&a, &b) as f64 / 100.0;
    assert!((rate - 25.0).abs() < 0.1, "Expected ~25%, got {:.2}%", rate);
}

#[test]
fn calc_change_rate_mismatched_lengths_returns_100() {
    let a = vec![0u8; 10];
    let b = vec![0u8; 20];
    assert_eq!(calc_change_rate(&a, &b) as f64 / 100.0, 100.0);
}

// ── Fingerprint computation ──

fn make_minimal_png_base64() -> String {
    // 1×1 transparent PNG (RGBA)
    let image = image::RgbaImage::from_raw(1, 1, vec![0u8, 0, 0, 0]).unwrap();
    let mut buffer = Vec::new();
    image::DynamicImage::ImageRgba8(image)
        .write_to(&mut std::io::Cursor::new(&mut buffer), image::ImageFormat::Png)
        .unwrap();
    base64::engine::general_purpose::STANDARD.encode(&buffer)
}

#[test]
fn compute_fingerprint_produces_correct_size() {
    let b64 = make_minimal_png_base64();
    let fp = compute_fingerprint(&b64).unwrap();
    assert_eq!(
        fp.len(),
        THUMB_SIZE * THUMB_SIZE,
        "Fingerprint should be {}x{} = {} bytes",
        THUMB_SIZE,
        THUMB_SIZE,
        THUMB_SIZE * THUMB_SIZE
    );
    assert_eq!(fp.len(), DIGEST_LEN);
}

#[test]
fn compute_fingerprint_rejects_invalid_base64() {
    let result = compute_fingerprint("not-valid!!!");
    assert!(result.is_err());
}

// ── Capture gate ──

#[test]
fn first_capture_always_proceeds() {
    let mut gate = ScreenState::new(0);
    let fp = make_test_fingerprint(128);
    // maximum threshold, zero-length silence window: still proceeds
    assert!(gate.should_capture(&fp, 10000, 0, 0));
}

#[test]
fn rejected_sample_keeps_baseline() {
    let mut gate = ScreenState::new(0);
    let a = make_test_fingerprint(100);
    assert!(gate.should_capture(&a, 300, 30, 10));
    // within noise tolerance of the baseline, silence window open: rejected
    let b = make_test_fingerprint(105);
    assert!(!gate.should_capture(&b, 300, 30, 20));
    // c differs from the original baseline a by 15 (counted) but from the
    // rejected b by only 10 (noise): a proceed here shows the comparison is
    // still against a, not against the rejected sample
    let c = make_test_fingerprint(115);
    assert!(gate.should_capture(&c, 10000, 30, 25));
}

#[test]
fn heartbeat_fires_once_per_window() {
    let mut gate = ScreenState::new(0);
    let a = make_test_fingerprint(100);
    assert!(gate.should_capture(&a, 300, 30, 0));
    // unchanged screen, 30 minutes passed: forced heartbeat capture
    assert!(gate.should_capture(&a, 300, 30, 1800));
    // still unchanged, fresh window: the heartbeat fired once and reset the clock
    assert!(!gate.should_capture(&a, 300, 30, 1860));
}

#[test]
fn end_to_end_gate_scenario() {
    // all-128 vs all-128: rate 0, rejected below any positive threshold
    let mut gate = ScreenState::new(0);
    let a = make_test_fingerprint(128);
    let b = make_test_fingerprint(128);
    assert_eq!(calc_change_rate(&a, &b), 0);
    assert!(gate.should_capture(&a, 100, 30, 0));
    assert!(!gate.should_capture(&b, 100, 30, 60));
    // unless the silence window is exceeded
    assert!(gate.should_capture(&b, 100, 30, 1800));

    // all-0 vs all-255: rate 100%, which always proceeds
    let z = make_test_fingerprint(0);
    let f = make_test_fingerprint(255);
    assert_eq!(calc_change_rate(&z, &f), 10000);
    let mut gate2 = ScreenState::new(0);
    assert!(gate2.should_capture(&z, 10000, 1000000, 0));
    assert!(gate2.should_capture(&f, 10000, 1000000, 1));
}

// ── Scheduler lifecycle ──

#[test]
fn start_twice_is_noop() {
    let mut st = AppState::default();
    assert_eq!(st.start_auto_capture("sk-test"), StartOutcome::Started);
    assert_eq!(st.start_auto_capture("sk-test"), StartOutcome::AlreadyRunning);
    assert!(st.should_run_next_cycle());
}

#[test]
fn start_without_key_refuses() {
    let mut st = AppState::default();
    assert_eq!(st.start_auto_capture(""), StartOutcome::MissingApiKey);
    assert!(!st.should_run_next_cycle());
}

#[test]
fn stop_halts_loop_at_next_check() {
    let mut st = AppState::default();
    assert_eq!(st.start_auto_capture("sk-test"), StartOutcome::Started);
    st.stop_auto_capture();
    assert!(!st.should_run_next_cycle());
}

#[test]
fn precheck_requires_api_key() {
    let mut s = CaptureSettings::default();
    assert!(matches!(
        cycle_precheck(&s),
        Err(daily_logger::errors::CaptureError::MissingApiKey)
    ));
    s.api_key = "sk-test".to_string();
    assert!(cycle_precheck(&s).is_ok());
}

// ── Settings resolution ──

#[test]
fn load_settings_defaults_when_store_unreadable() {
    let s = load_capture_settings(None);
    assert_eq!(s.api_base_url, "https://api.openai.com/v1");
    assert_eq!(s.api_key, "");
    assert_eq!(s.model_name, "gpt-4o");
    assert_eq!(s.screenshot_interval, 5);
    assert!(s.analysis_prompt.is_none());
    assert_eq!(s.change_threshold, 300);
    assert_eq!(s.max_silent_minutes, 30);
}

#[test]
fn load_settings_resolves_stored_fields() {
    let stored = Settings {
        api_base_url: Some("https://example.test/v1".to_string()),
        api_key: Some("sk-abc".to_string()),
        model_name: None,
        screenshot_interval: Some(7),
        summary_time: None,
        obsidian_path: None,
        auto_capture_enabled: Some(true),
        last_summary_path: None,
        analysis_prompt: Some("look closely".to_string()),
        change_threshold: Some(12),
        max_silent_minutes: Some(45),
    };
    let s = load_capture_settings(Some(stored));
    assert_eq!(s.api_base_url, "https://example.test/v1");
    assert_eq!(s.api_key, "sk-abc");
    assert_eq!(s.model_name, "gpt-4o");
    assert_eq!(s.screenshot_interval, 7);
    assert_eq!(s.analysis_prompt.as_deref(), Some("look closely"));
    assert_eq!(s.change_threshold, 1200);
    assert_eq!(s.max_silent_minutes, 45);
}

#[test]
fn load_settings_clamps_threshold() {
    let mut stored = Settings {
        api_base_url: None,
        api_key: None,
        model_name: None,
        screenshot_interval: None,
        summary_time: None,
        obsidian_path: None,
        auto_capture_enabled: None,
        last_summary_path: None,
        analysis_prompt: None,
        change_threshold: Some(-5),
        max_silent_minutes: None,
    };
    assert_eq!(load_capture_settings(Some(stored.clone())).change_threshold, 0);
    stored.change_threshold = Some(250);
    assert_eq!(load_capture_settings(Some(stored)).change_threshold, 10000);
}

// ── Manual-entry helpers ──

#[test]
fn note_validation_rejects_whitespace_only() {
    assert!(!note_content_is_valid(""));
    assert!(!note_content_is_valid("   \t\n"));
    assert!(note_content_is_valid(" hello "));
}

#[test]
fn data_uri_prefixes_encoded_bytes() {
    let uri = screenshot_data_uri(&vec![1u8, 2, 3]);
    assert_eq!(uri, "data:image/png;base64,AQID");
}

#[test]
fn tail_lines_takes_last_lines() {
    assert_eq!(tail_lines("a\nb\nc", 2), "b\nc");
    assert_eq!(tail_lines("a\nb\nc", 300), "a\nb\nc");
    assert_eq!(tail_lines("a\r\nb\r\n", 300), "a\nb");
    assert_eq!(tail_lines("", 5), "");
    assert_eq!(tail_lines("a\nb\nc", 0), "");
}
