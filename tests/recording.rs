use collector::recording::{GeminiConfig, QueueStats, RecordingConfig};
use collector::timeline::{calculate_duration_seconds, extract_json_from_text, parse_mm_ss};

#[test]
fn test_parse_mm_ss() {
    assert_eq!(parse_mm_ss("00:00").unwrap(), (0, 0));
    assert_eq!(parse_mm_ss("00:30").unwrap(), (0, 30));
    assert_eq!(parse_mm_ss("01:00").unwrap(), (1, 0));
    assert_eq!(parse_mm_ss("05:45").unwrap(), (5, 45));
    assert_eq!(parse_mm_ss("60:00").unwrap(), (60, 0));
}

#[test]
fn test_parse_mm_ss_invalid() {
    assert!(parse_mm_ss("invalid").is_err());
    assert!(parse_mm_ss("1:2:3").is_err());
    assert!(parse_mm_ss("ab:cd").is_err());
}

#[test]
fn parse_mm_ss_edges() {
    assert_eq!(parse_mm_ss("+1:+2"), Ok((1, 2)));
    assert!(parse_mm_ss(":30").is_err());
    assert!(parse_mm_ss("1:").is_err());
    assert!(parse_mm_ss("-1:00").is_err());
    assert_eq!(parse_mm_ss("4294967295:0"), Ok((4294967295, 0)));
    assert!(parse_mm_ss("4294967296:0").is_err());
}

#[test]
fn test_calculate_duration_seconds() {
    assert_eq!(calculate_duration_seconds("00:00", "00:30").unwrap(), 30);
    assert_eq!(calculate_duration_seconds("00:00", "01:00").unwrap(), 60);
    assert_eq!(calculate_duration_seconds("00:30", "02:00").unwrap(), 90);
    assert_eq!(calculate_duration_seconds("01:00", "06:00").unwrap(), 300);
    assert_eq!(calculate_duration_seconds("01:30", "01:30").unwrap(), 0);
}

#[test]
fn duration_backwards_and_invalid() {
    assert_eq!(calculate_duration_seconds("02:00", "01:00").unwrap(), -60);
    assert!(calculate_duration_seconds("02:00", "x").is_err());
}

#[test]
fn test_recording_config_default() {
    let config = RecordingConfig::default();
    assert!(!config.enabled);
    assert_eq!(config.segment_duration_seconds, 300);
    assert_eq!(config.framerate, 4);
    assert_eq!(config.retention_days, 3);
    assert_eq!(config.output_width, 1280);
    assert_eq!(config.crf, 30);
    assert_eq!(config.preset, "fast");
}

#[test]
fn test_config_needs_restart() {
    let config1 = RecordingConfig::default();
    let mut config2 = config1.clone();

    config2.retention_days = 7;
    assert!(!config1.needs_recording_restart(&config2));

    config2.framerate = 10;
    assert!(config1.needs_recording_restart(&config2));

    config2 = config1.clone();
    config2.output_width = 1920;
    assert!(config1.needs_recording_restart(&config2));

    config2 = config1.clone();
    config2.crf = 25;
    assert!(config1.needs_recording_restart(&config2));

    config2 = config1.clone();
    config2.preset = "medium".to_string();
    assert!(config1.needs_recording_restart(&config2));
}

#[test]
fn test_gemini_config_default() {
    let config = GeminiConfig::default();
    assert!(!config.enabled);
    assert_eq!(config.rate_limit_per_minute, 0);
    assert_eq!(config.max_retries, 3);
    assert_eq!(config.retry_delay_seconds, 5);
    assert_eq!(config.thinking_budget, 1024);
    assert_eq!(config.rate_limit_max_waits, 5);
    assert_eq!(config.rate_limit_max_wait_seconds, 120);
}

#[test]
fn test_queue_stats_default() {
    let stats = QueueStats::default();
    assert_eq!(stats.jobs_submitted, 0);
    assert_eq!(stats.jobs_completed, 0);
    assert_eq!(stats.jobs_failed, 0);
    assert_eq!(stats.jobs_pending, 0);
    assert!(stats.last_error.is_none());
}

#[test]
fn test_extract_json_from_text_clean() {
    let input = r#"{"timeline": []}"#;
    let result = extract_json_from_text(input);
    assert_eq!(result, r#"{"timeline": []}"#);
}

#[test]
fn test_extract_json_from_text_markdown() {
    let input = "```json\n{\"timeline\": []}\n```";
    let result = extract_json_from_text(input);
    assert_eq!(result, "{\"timeline\": []}");
}

#[test]
fn test_extract_json_from_text_markdown_no_lang() {
    let input = "```\n{\"timeline\": []}\n```";
    let result = extract_json_from_text(input);
    assert_eq!(result, "{\"timeline\": []}");
}

#[test]
fn extract_json_edges() {
    assert_eq!(extract_json_from_text("  \u{3000}{}\t\n"), "{}");
    assert_eq!(extract_json_from_text("```"), "");
    assert_eq!(extract_json_from_text(""), "");
    assert_eq!(extract_json_from_text("x```"), "x");
    assert_eq!(extract_json_from_text("```json```"), "");
}
