use collector::formatter::{
    escape_field_string, escape_tag_value, format_afk_event, format_app_usage, format_daily_metrics, format_line,
    format_window_event, timestamp_to_nanos, Field, FieldValue, Tag,
};

#[test]
fn test_escape_tag_value() {
    assert_eq!(escape_tag_value("simple"), "simple");
    assert_eq!(escape_tag_value("with space"), "with\\ space");
    assert_eq!(escape_tag_value("with,comma"), "with\\,comma");
    assert_eq!(escape_tag_value("with=equals"), "with\\=equals");
    assert_eq!(escape_tag_value("with backslash\\"), "with\\ backslash\\\\");
    assert_eq!(escape_tag_value("all ,=\\ special"), "all\\ \\,\\=\\\\\\ special");
    assert_eq!(escape_tag_value("with\nnewline"), "with\\ newline");
    assert_eq!(escape_tag_value("with\r\nwindows"), "with\\ windows");
    assert_eq!(escape_tag_value("multi\nline\nvalue"), "multi\\ line\\ value");
}

#[test]
fn test_escape_field_string() {
    assert_eq!(escape_field_string("simple"), "\"simple\"");
    assert_eq!(escape_field_string("with \"quotes\""), "\"with \\\"quotes\\\"\"");
    assert_eq!(escape_field_string("with\\backslash"), "\"with\\\\backslash\"");
    assert_eq!(escape_field_string("both\"\\chars"), "\"both\\\"\\\\chars\"");
    assert_eq!(escape_field_string("with\nnewline"), "\"with\\nnewline\"");
    assert_eq!(escape_field_string("with\r\nwindows"), "\"with\\nwindows\"");
    assert_eq!(escape_field_string("multi\nline\nvalue"), "\"multi\\nline\\nvalue\"");
}

#[test]
fn tag_value_with_space_comma_equals() {
    assert_eq!(escape_tag_value("a b,c=d"), "a\\ b\\,c\\=d");
}

#[test]
fn field_with_newline_and_quote_keeps_no_raw_break() {
    let out = escape_field_string("line one\r\nsaid \"hi\"\nend");
    assert_eq!(out, "\"line one\\nsaid \\\"hi\\\"\\nend\"");
    assert!(!out.contains('\n'));
    assert!(!out.contains('\r'));
    let tag = escape_tag_value("a\r\nb\nc");
    assert!(!tag.contains('\n'));
    assert!(!tag.contains('\r'));
}

#[test]
fn escape_of_empty_values() {
    assert_eq!(escape_tag_value(""), "");
    assert_eq!(escape_field_string(""), "\"\"");
}

#[test]
fn test_timestamp_to_nanos() {
    let result = timestamp_to_nanos("2025-01-19T12:00:00Z");
    assert!(result.is_ok());
    assert!(result.unwrap() > 0);

    let result = timestamp_to_nanos("invalid");
    assert!(result.is_err());
}

#[test]
fn timestamp_exact_nanos() {
    assert_eq!(timestamp_to_nanos("2025-01-19T12:00:00Z"), Ok(1737288000000000000));
    assert_eq!(timestamp_to_nanos("1970-01-01T00:00:01.5Z"), Ok(1500000000));
    assert_eq!(timestamp_to_nanos("1969-12-31T23:59:59Z"), Ok(-1000000000));
}

#[test]
fn format_line_omits_empty_tags_and_joins_fields() {
    let tags = vec![
        Tag { key: "app".to_string(), value: "".to_string() },
        Tag { key: "host".to_string(), value: "a b".to_string() },
    ];
    let fields = vec![
        Field { key: "title".to_string(), value: FieldValue::Text("x\"y".to_string()) },
        Field { key: "n".to_string(), value: FieldValue::Integer(-42) },
        Field { key: "ratio".to_string(), value: FieldValue::Number("0.5".to_string()) },
    ];
    assert_eq!(format_line("m", &tags, &fields, 7), "m,host=a\\ b title=\"x\\\"y\",n=-42i,ratio=0.5 7");
}

#[test]
fn format_line_extreme_integers() {
    let fields = vec![Field { key: "v".to_string(), value: FieldValue::Integer(i64::MIN) }];
    assert_eq!(format_line("m", &vec![], &fields, i64::MAX), "m v=-9223372036854775808i 9223372036854775807");
    let fields = vec![Field { key: "v".to_string(), value: FieldValue::Integer(0) }];
    assert_eq!(format_line("m", &vec![], &fields, 0), "m v=0i 0");
}

#[test]
fn test_format_window_event() {
    let result = format_window_event("2025-01-19T12:00:00Z", 45, "Google Chrome", "Test Page - Google", "laptop1");

    assert!(result.is_ok());
    let line = result.unwrap();
    assert!(line.starts_with("window_activity,"));
    assert!(line.contains("app=Google\\ Chrome"));
    assert!(line.contains("hostname=laptop1"));
    assert!(line.contains("title=\"Test Page - Google\""));
    assert!(line.contains("duration=45"));
}

#[test]
fn window_event_exact_line() {
    assert_eq!(
        format_window_event("2025-01-19T12:00:00Z", 45, "Google Chrome", "Test Page - Google", "laptop1").unwrap(),
        "window_activity,app=Google\\ Chrome,hostname=laptop1 title=\"Test Page - Google\",duration=45 1737288000000000000"
    );
}

#[test]
fn test_format_window_event_with_special_chars() {
    let result = format_window_event("2025-01-19T12:00:00Z", 10, "App, With=Special", "Title with \"quotes\"", "host,name");

    assert!(result.is_ok());
    let line = result.unwrap();
    assert!(line.contains("app=App\\,\\ With\\=Special"));
    assert!(line.contains("title=\"Title with \\\"quotes\\\"\""));
    assert!(line.contains("hostname=host\\,name"));
    assert!(line.contains("duration=10"));
}

#[test]
fn test_format_window_event_with_empty_app() {
    let result = format_window_event("2025-01-19T12:00:00Z", 5, "", "Some Title", "laptop1");

    assert!(result.is_ok());
    let line = result.unwrap();
    assert!(line.starts_with("window_activity,"));
    assert!(!line.contains("app="));
    assert!(line.contains("hostname=laptop1"));
    assert!(line.contains("title=\"Some Title\""));
    assert!(line.contains("duration=5"));
}

#[test]
fn window_event_with_empty_app_exact_line() {
    assert_eq!(
        format_window_event("2025-01-19T12:00:00Z", 5, "", "Some Title", "laptop1").unwrap(),
        "window_activity,hostname=laptop1 title=\"Some Title\",duration=5 1737288000000000000"
    );
}

#[test]
fn seconds_are_plain_numbers_counts_are_integers() {
    assert_eq!(
        format_afk_event("2025-01-19T12:00:00Z", 120, "active", "laptop1").unwrap(),
        "afk_status,status=active,hostname=laptop1 duration=120 1737288000000000000"
    );
    assert_eq!(
        format_daily_metrics("2025-01-19", 25200, 3600, 1800, "0.875", 42, "laptop1").unwrap(),
        "daily_metrics,date=2025-01-19,hostname=laptop1 active_seconds=25200,idle_seconds=3600,afk_seconds=1800,utilization_ratio=0.875,app_switches=42i 1737331199000000000"
    );
    assert_eq!(
        format_app_usage("2025-01-19T12:00:00Z", "Code", 7200, 45, None, "h").unwrap(),
        "app_usage,app_name=Code,hostname=h duration_seconds=7200,event_count=45i 1737288000000000000"
    );
}

#[test]
fn window_event_bad_timestamp_is_error() {
    assert!(format_window_event("yesterday", 5, "a", "b", "c").is_err());
}

#[test]
fn test_format_afk_event() {
    let result = format_afk_event("2025-01-19T12:00:00Z", 120, "active", "laptop1");

    assert!(result.is_ok());
    let line = result.unwrap();
    assert!(line.starts_with("afk_status,"));
    assert!(line.contains("status=active"));
    assert!(line.contains("hostname=laptop1"));
    assert!(line.contains("duration=120"));
}

#[test]
fn test_format_daily_metrics() {
    let result = format_daily_metrics("2025-01-19", 25200, 3600, 1800, "0.875", 42, "laptop1");

    assert!(result.is_ok());
    let line = result.unwrap();
    assert!(line.starts_with("daily_metrics,"));
    assert!(line.contains("date=2025-01-19"));
    assert!(line.contains("hostname=laptop1"));
    assert!(line.contains("active_seconds=25200"));
    assert!(line.contains("idle_seconds=3600"));
    assert!(line.contains("afk_seconds=1800"));
    assert!(line.contains("utilization_ratio=0.875"));
    assert!(line.contains("app_switches=42i"));
}

#[test]
fn daily_metrics_stamped_at_end_of_day() {
    let line = format_daily_metrics("2025-01-19", 1, 2, 3, "0.5", 4, "h").unwrap();
    assert!(line.ends_with(" 1737331199000000000"));
    assert!(format_daily_metrics("not a date", 1, 2, 3, "0.5", 4, "h").is_err());
}

#[test]
fn test_format_app_usage() {
    let result = format_app_usage("2025-01-19T12:00:00Z", "Visual Studio Code", 7200, 45, Some("productive"), "laptop1");

    assert!(result.is_ok());
    let line = result.unwrap();
    assert!(line.starts_with("app_usage,"));
    assert!(line.contains("app_name=Visual\\ Studio\\ Code"));
    assert!(line.contains("category=productive"));
    assert!(line.contains("hostname=laptop1"));
    assert!(line.contains("duration_seconds=7200"));
    assert!(line.contains("event_count=45i"));
}

#[test]
fn test_format_app_usage_without_category() {
    let result = format_app_usage("2025-01-19T12:00:00Z", "Unknown App", 100, 5, None, "laptop1");

    assert!(result.is_ok());
    let line = result.unwrap();
    assert!(line.starts_with("app_usage,"));
    assert!(!line.contains("category="));
    assert!(line.contains("app_name=Unknown\\ App"));
}

#[test]
fn test_format_app_usage_with_empty_app_name() {
    let result = format_app_usage("2025-01-19T12:00:00Z", "", 100, 5, None, "laptop1");

    assert!(result.is_ok());
    let line = result.unwrap();
    assert!(line.starts_with("app_usage,"));
    assert!(!line.contains("app_name="));
    assert!(line.contains("hostname=laptop1"));
    assert!(line.contains("duration_seconds=100"));
    assert!(line.contains("event_count=5i"));
}

#[test]
fn test_format_app_usage_with_empty_category() {
    let result = format_app_usage("2025-01-19T12:00:00Z", "Some App", 100, 5, Some(""), "laptop1");

    assert!(result.is_ok());
    let line = result.unwrap();
    assert!(line.starts_with("app_usage,"));
    assert!(!line.contains("category="));
    assert!(line.contains("app_name=Some\\ App"));
    assert!(line.contains("hostname=laptop1"));
}
