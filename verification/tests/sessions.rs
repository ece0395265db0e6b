use spatiotemporal_agent::error::Error;
use spatiotemporal_agent::json::{Json, to_json_text};
use spatiotemporal_agent::session::{
    SessionSummary, parse_records, session_events, session_line, session_messages, sort_sessions,
};

fn summary(id: &str, updated_at: u64) -> SessionSummary {
    SessionSummary { id: id.to_owned(), title: id.to_owned(), updated_at, turns: 1 }
}

const STORED: &str = "{\"role\":\"system\",\"content\":\"s\"}\n\n  {\"role\":\"user\",\"content\":\"问\"}  \n{\"role\":\"event\",\"kind\":\"tool\"}\n{\"role\":\"assistant\",\"content\":\"答\"}\n";

#[test]
fn stored_lines_are_read_in_order() {
    let records = parse_records(STORED).unwrap();
    assert_eq!(records.len(), 4);
    assert_eq!(to_json_text(&records[1]), "{\"content\":\"问\",\"role\":\"user\"}");
    assert!(parse_records("").unwrap().is_empty());
    assert!(parse_records("\n   \n").unwrap().is_empty());
}

#[test]
fn history_leaves_out_system_and_events() {
    let messages = session_messages(STORED).unwrap();
    let texts: Vec<String> = messages.iter().map(to_json_text).collect();
    assert_eq!(
        texts,
        vec!["{\"content\":\"问\",\"role\":\"user\"}".to_owned(), "{\"content\":\"答\",\"role\":\"assistant\"}".to_owned()]
    );
    let events = session_events(STORED).unwrap();
    assert_eq!(events.len(), 1);
    assert_eq!(to_json_text(&events[0]), "{\"kind\":\"tool\",\"role\":\"event\"}");
}

#[test]
fn a_broken_line_fails_the_whole_file() {
    let text = "{\"role\":\"user\",\"content\":\"a\"}\n{oops\n{\"role\":\"event\"}\n";
    for outcome in [parse_records(text), session_messages(text), session_events(text)] {
        match outcome {
            Err(Error::Component(m)) => assert!(m.starts_with("session JSONL 解析失败："), "{m}"),
            other => panic!("unexpected {other:?}"),
        }
    }
}

#[test]
fn sessions_are_listed_newest_first() {
    let sorted = sort_sessions(vec![summary("a", 5), summary("b", 9), summary("c", 5), summary("d", 1), summary("e", 9)]);
    let ids: Vec<&str> = sorted.iter().map(|s| s.id.as_str()).collect();
    assert_eq!(ids, vec!["b", "e", "a", "c", "d"]);
    assert!(sort_sessions(Vec::new()).is_empty());
}

#[test]
fn appended_messages_read_back_at_the_end() {
    let message = Json::Object(vec![
        ("role".to_owned(), Json::Str("user".to_owned())),
        ("content".to_owned(), Json::Str("再问\n一次".to_owned())),
    ]);
    let line = session_line(&message);
    assert_eq!(line, "{\"content\":\"再问\\n一次\",\"role\":\"user\"}\n");
    let text = format!("{STORED}{line}");
    let before = session_messages(STORED).unwrap();
    let after = session_messages(&text).unwrap();
    assert_eq!(after.len(), before.len() + 1);
    assert_eq!(to_json_text(&after[after.len() - 1]), to_json_text(&message));
    assert_eq!(session_events(&text).unwrap().len(), session_events(STORED).unwrap().len());
}
