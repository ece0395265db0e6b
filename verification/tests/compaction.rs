use spatiotemporal_agent::compaction::{CompactionConfig, compact};
use spatiotemporal_agent::json::{Json, JsonNumber};

fn object(fields: Vec<(&str, Json)>) -> Json {
    Json::Object(fields.into_iter().map(|(k, v)| (k.to_owned(), v)).collect())
}

fn text(s: &str) -> Json {
    Json::Str(s.to_owned())
}

fn content(message: &Json) -> String {
    message.get("content").and_then(|c| c.as_str()).unwrap().to_owned()
}

#[test]
fn truncates_long_tool_output() {
    let messages = vec![object(vec![
        ("role", text("tool")),
        ("tool_call_id", text("1")),
        ("content", Json::Str("x".repeat(20_000))),
    ])];
    let config = CompactionConfig { max_tool_chars: 100, ..CompactionConfig::default() };
    let (out, report) = compact(&messages, &config);
    assert_eq!(report.truncated_tools, 1);
    assert!(content(&out[0]).contains("已截断"));
}

#[test]
fn drops_middle_when_over_message_limit() {
    let messages: Vec<Json> = (0..10)
        .map(|index| object(vec![("role", text("user")), ("content", Json::Str(format!("m{index}")))]))
        .collect();
    let config = CompactionConfig { max_messages: 4, keep_recent: 3, max_chars: usize::MAX, max_tool_chars: usize::MAX };
    let (out, report) = compact(&messages, &config);
    assert_eq!(report.dropped_messages, 7);
    assert_eq!(out.len(), 4);
    assert!(content(&out[0]).contains("压缩省略"));
    assert_eq!(content(&out[1]), "m7");
}

#[test]
fn disabled_compaction_keeps_history() {
    let messages: Vec<Json> = (0..60)
        .map(|index| object(vec![("role", text("user")), ("content", Json::Str(format!("m{index}")))]))
        .collect();
    let config = CompactionConfig { max_messages: 0, max_chars: 0, keep_recent: 1, max_tool_chars: 1 };
    assert!(config.disabled());
    let (out, report) = compact(&messages, &config);
    assert_eq!(out.len(), 60);
    assert_eq!(content(&out[59]), "m59");
    assert_eq!(report.dropped_messages, 0);
    assert_eq!(report.truncated_tools, 0);
}

#[test]
fn size_limit_counts_json_text() {
    let messages: Vec<Json> = (0..5)
        .map(|index| object(vec![("role", text("user")), ("content", Json::Str(format!("{index}").repeat(50)))]))
        .collect();
    let config = CompactionConfig { max_messages: 100, max_chars: 200, keep_recent: 2, max_tool_chars: 1000 };
    let (out, report) = compact(&messages, &config);
    assert_eq!(report.dropped_messages, 3);
    assert_eq!(out.len(), 3);
    assert_eq!(content(&out[2]), "4".repeat(50));
}

#[test]
fn config_reads_section_and_defaults() {
    let config = CompactionConfig::from_config(&object(vec![(
        "compaction",
        object(vec![("max_messages", Json::Number(JsonNumber::PosInt(7)))]),
    )]));
    assert_eq!(config.max_messages, 7);
    assert_eq!(config.max_chars, 64_000);
    assert_eq!(config.keep_recent, 24);
    assert_eq!(config.max_tool_chars, 8_000);
}
