use text2audio::error::Error;
use text2audio::{AudioCollector, ConversionPlan, RetryState, Text2Audio};

#[test]
fn test_plan_empty_input_no_network() {
    let converter = Text2Audio::new("test_key");
    let e = converter.plan("").unwrap_err();
    assert!(matches!(e, Error::EmptyInput));
}

#[test]
fn test_plan_whitespace_only_is_empty_input() {
    let converter = Text2Audio::new("test_key");
    let e = converter.plan(" \t\n  ").unwrap_err();
    assert!(matches!(e, Error::EmptyInput));
}

#[test]
fn test_plan_short_text_goes_direct() {
    let converter = Text2Audio::new("test_key");
    match converter.plan("  short text  ").unwrap() {
        ConversionPlan::Direct { text } => assert_eq!(text, "short text"),
        ConversionPlan::Segmented { .. } => panic!("short text must not be segmented"),
    }
}

#[test]
fn test_plan_exact_budget_goes_direct() {
    let converter = Text2Audio::new("test_key").with_max_segment_length(100);
    let text = "y".repeat(100);
    assert!(matches!(converter.plan(&text).unwrap(), ConversionPlan::Direct { .. }));
}

#[test]
fn test_plan_long_text_goes_segmented() {
    let converter = Text2Audio::new("test_key").with_max_segment_length(100);
    let text = "y".repeat(101);
    match converter.plan(&text).unwrap() {
        ConversionPlan::Direct { .. } => panic!("long text must be segmented"),
        ConversionPlan::Segmented { text: t } => assert_eq!(t, text),
    }
}

#[test]
fn test_accept_segments_empty_is_empty_input() {
    let e = Text2Audio::accept_segments(vec![]).unwrap_err();
    assert!(matches!(e, Error::EmptyInput));
}

#[test]
fn test_accept_segments_passes_through() {
    let v = Text2Audio::accept_segments(vec!["a".to_string(), "b".to_string()]).unwrap();
    assert_eq!(v, vec!["a", "b"]);
}

#[test]
fn test_retry_backoff_schedule() {
    // Fails the first three attempts, then would succeed: three delays,
    // each doubling from the base unit.
    let mut state = RetryState::new(5, 100);
    let mut delays: Vec<u64> = Vec::new();
    for _ in 0..3 {
        assert!(state.should_attempt());
        assert!(state.backoff_fits());
        if let Some(d) = state.record_failure(Error::TtsApi("boom".to_string())) {
            delays.push(d);
        }
    }
    assert!(state.should_attempt());
    assert_eq!(delays, vec![100, 200, 400]);
}

#[test]
fn test_retry_no_delay_after_final_attempt() {
    let mut state = RetryState::new(2, 100);
    assert_eq!(state.record_failure(Error::TtsApi("first".to_string())), Some(100));
    assert_eq!(state.record_failure(Error::TtsApi("second".to_string())), None);
    assert!(!state.should_attempt());
}

#[test]
fn test_retry_exhausted_surfaces_last_error() {
    let mut state = RetryState::new(3, 10);
    let mut attempts = 0;
    while state.should_attempt() {
        assert!(state.backoff_fits());
        let msg = format!("failure {}", attempts);
        state.record_failure(Error::TtsApi(msg));
        attempts += 1;
    }
    assert_eq!(attempts, 3);
    match state.into_error() {
        Error::TtsApi(m) => assert_eq!(m, "failure 2"),
        other => panic!("unexpected error: {:?}", other),
    }
}

#[test]
fn test_retry_zero_attempts_gives_unknown_error() {
    let state = RetryState::new(0, 10);
    assert!(!state.should_attempt());
    match state.into_error() {
        Error::TtsApi(m) => assert_eq!(m, "Unknown error"),
        other => panic!("unexpected error: {:?}", other),
    }
}

#[test]
fn test_collector_orders_out_of_order_completions() {
    // Five segments with distinguishable payloads, recorded in an
    // arbitrary completion order, come back in segment order.
    let mut collector = AudioCollector::new(5);
    for &i in &[3usize, 0, 4, 2, 1] {
        assert!(!collector.is_complete());
        collector.record(i, vec![i as u8; i + 1]);
    }
    assert!(collector.is_complete());
    let ordered = collector.into_ordered();
    assert_eq!(ordered.len(), 5);
    for (i, audio) in ordered.iter().enumerate() {
        assert_eq!(*audio, vec![i as u8; i + 1]);
    }
}

#[test]
fn test_collector_overwrite_keeps_latest() {
    let mut collector = AudioCollector::new(1);
    collector.record(0, vec![1]);
    collector.record(0, vec![2]);
    let ordered = collector.into_ordered();
    assert_eq!(ordered, vec![vec![2]]);
}

#[test]
fn test_retry_state_from_config() {
    let converter = Text2Audio::new("test_key").with_retry_config(7, 250);
    let state = converter.retry_state();
    assert_eq!(state.max_retries, 7);
    assert_eq!(state.base_delay_ms, 250);
    assert_eq!(state.attempt, 0);
    assert!(state.last_error.is_none());
}

#[test]
fn test_tts_config_mirrors_settings() {
    let converter = Text2Audio::new("test_key").with_speed(150).with_volume(300);
    let tts = converter.tts_config();
    assert_eq!(tts.speed, 150);
    assert_eq!(tts.volume, 300);
}

#[test]
fn test_splitter_mirrors_settings() {
    let converter = Text2Audio::new("test_key")
        .with_max_segment_length(200)
        .with_thinking(true);
    let splitter = converter.splitter();
    assert_eq!(splitter.max_length, 200);
    assert!(splitter.client.thinking);
    assert_eq!(splitter.client.api_key, "test_key");
}
