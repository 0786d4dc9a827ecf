use text2audio::ai_splitter::{AiSplitter, SplitPlan};
use text2audio::client::Model;

#[test]
fn test_ai_splitter_new() {
    let splitter = AiSplitter::new("api_key", Model::GLM4_7, 1000);
    assert_eq!(splitter.max_length, 1000);
}

#[test]
fn test_ai_splitter_with_thinking() {
    let _splitter = AiSplitter::new("api_key", Model::GLM4_7, 1000).with_thinking(true);
}

#[test]
fn test_ai_splitter_with_coding_plan() {
    let _splitter = AiSplitter::new("api_key", Model::GLM4_7, 1000).with_coding_plan(true);
}

#[test]
fn test_build_prompt() {
    let splitter = AiSplitter::new("api_key", Model::GLM4_7, 100);
    let text = "Hello world!";
    let prompt = splitter.build_prompt(text);
    assert!(prompt.contains("100"));
    assert!(prompt.contains(text));
    assert!(prompt.contains("|||"));
}

#[test]
fn test_parse_segments() {
    let splitter = AiSplitter::new("api_key", Model::GLM4_7, 100);
    let raw = "First segment|||Second segment|||Third segment";
    let segments = splitter.parse_segments(raw).unwrap();
    assert_eq!(segments.len(), 3);
    assert_eq!(segments[0], "First segment");
    assert_eq!(segments[1], "Second segment");
    assert_eq!(segments[2], "Third segment");
}

#[test]
fn test_parse_segments_empty() {
    let splitter = AiSplitter::new("api_key", Model::GLM4_7, 100);
    let raw = "No delimiters here";
    let segments = splitter.parse_segments(raw).unwrap();
    assert_eq!(segments.len(), 1);
    assert_eq!(segments[0], "No delimiters here");
}

#[test]
fn test_parse_segments_ordered_abc() {
    let splitter = AiSplitter::new("api_key", Model::GLM4_5Flash, 100);
    let segments = splitter.parse_segments("A|||B|||C").unwrap();
    assert_eq!(segments, vec!["A", "B", "C"]);
}

#[test]
fn test_parse_segments_trims_and_drops_blanks() {
    let splitter = AiSplitter::new("api_key", Model::GLM4_5Flash, 100);
    let segments = splitter.parse_segments("  A  |||   ||| B\n").unwrap();
    assert_eq!(segments, vec!["A", "B"]);
}

#[test]
fn test_parse_segments_delimiter_only_falls_back_to_raw() {
    let splitter = AiSplitter::new("api_key", Model::GLM4_5Flash, 100);
    let segments = splitter.parse_segments("|||").unwrap();
    assert_eq!(segments, vec!["|||"]);
}

#[test]
fn test_parse_segments_trims_raw_with_no_delimiter() {
    let splitter = AiSplitter::new("api_key", Model::GLM4_5Flash, 100);
    let segments = splitter.parse_segments("  spaced out  ").unwrap();
    assert_eq!(segments, vec!["spaced out"]);
}

#[test]
fn test_split_plan_empty_text() {
    let splitter = AiSplitter::new("api_key", Model::GLM4_5Flash, 500);
    match splitter.split_plan("") {
        SplitPlan::Ready { segments } => assert!(segments.is_empty()),
        SplitPlan::Request { .. } => panic!("empty text must not reach the model"),
    }
}

#[test]
fn test_split_plan_short_text_needs_no_model() {
    let splitter = AiSplitter::new("api_key", Model::GLM4_5Flash, 500);
    match splitter.split_plan("short enough") {
        SplitPlan::Ready { segments } => assert_eq!(segments, vec!["short enough"]),
        SplitPlan::Request { .. } => panic!("short text must not reach the model"),
    }
}

#[test]
fn test_split_plan_long_text_requests_model() {
    let splitter = AiSplitter::new("api_key", Model::GLM4_5Flash, 100);
    let long_text = "x".repeat(101);
    match splitter.split_plan(&long_text) {
        SplitPlan::Ready { .. } => panic!("long text must be sent to the model"),
        SplitPlan::Request { prompt } => {
            assert!(prompt.contains(&long_text));
            assert!(prompt.contains("|||"));
        },
    }
}
