use spatiotemporal_agent::error::Error;
use spatiotemporal_agent::json::{Json, JsonNumber, to_json_text, to_pretty_text};
use spatiotemporal_agent::paths::{absolute, join};
use spatiotemporal_agent::protocol::{
    Session, append_logs, expect_ok, invoke_request, load_request, take_llm, take_logs, take_result, take_tools,
    unload_request,
};
use spatiotemporal_agent::roster::{PluginInfo, Roster};
use spatiotemporal_agent::session::{
    check_append, event_records, history_records, new_session_id, session_id_at, session_path, sessions_dir,
    summarize_session, truncate_title, valid_session_id,
};
use spatiotemporal_agent::toolbox::Toolbox;

type Tool = fn(&str) -> Result<String, Error>;

fn upper(args: &str) -> Result<String, Error> {
    Ok(args.to_uppercase())
}

fn object(fields: Vec<(&str, Json)>) -> Json {
    Json::Object(fields.into_iter().map(|(k, v)| (k.to_owned(), v)).collect())
}

fn text(s: &str) -> Json {
    Json::Str(s.to_owned())
}

fn message(role: &str, content: &str) -> Json {
    object(vec![("role", text(role)), ("content", text(content))])
}

#[test]
fn session_files_live_under_the_workspace() {
    assert_eq!(sessions_dir("/ws"), "/ws/.agent/sessions");
    assert_eq!(session_path("/ws/", "s-1f"), "/ws/.agent/sessions/s-1f.jsonl");
}

#[test]
fn session_ids_are_s_dash_hex() {
    assert!(valid_session_id("s-0a1B"));
    assert!(!valid_session_id("s-"));
    assert!(!valid_session_id("s-xyz"));
    assert!(!valid_session_id("../etc"));
    assert_eq!(session_id_at(255), "s-ff");
    let fresh = new_session_id();
    assert!(valid_session_id(&fresh));
    assert!(fresh.len() > 3);
}

#[test]
fn titles_and_summaries() {
    assert_eq!(truncate_title("  多行\n标题  "), "多行 标题");
    let long = "字".repeat(60);
    assert_eq!(truncate_title(&long), format!("{}…", "字".repeat(48)));
    let messages = vec![message("system", "s"), message("user", "第一问"), message("assistant", "答"), message("user", "二")];
    let summary = summarize_session("s-1", &messages, 42);
    assert_eq!(summary.title, "第一问");
    assert_eq!(summary.turns, 2);
    assert_eq!(summary.updated_at, 42);
}

#[test]
fn stored_records_split_into_history_and_events() {
    let records = vec![message("system", "s"), message("user", "u"), message("event", "e"), message("assistant", "a")];
    let history = history_records(records);
    assert_eq!(history.len(), 2);
    let records = vec![message("system", "s"), message("user", "u"), message("event", "e")];
    let events = event_records(records);
    assert_eq!(events.len(), 1);
    assert!(matches!(check_append("bad", &message("user", "x")), Err(Error::Component(m)) if m == "非法 session_id：bad"));
    assert!(!check_append("s-1", &message("system", "x")).unwrap());
    assert!(check_append("s-1", &message("user", "x")).unwrap());
}

#[test]
fn guest_requests_are_numbered() {
    let mut session = Session::new();
    assert_eq!(session.next_id(), 1);
    assert_eq!(session.next_id(), 2);
    assert_eq!(to_json_text(&unload_request(3)), "{\"id\":3,\"op\":\"unload\"}");
    assert_eq!(
        to_json_text(&invoke_request(4, "echo", "hi")),
        "{\"args\":\"hi\",\"id\":4,\"name\":\"echo\",\"op\":\"invoke\"}"
    );
    assert_eq!(
        to_json_text(&load_request(1, vec![("db".into(), text("postgres"))])),
        "{\"capabilities\":{\"db\":\"postgres\"},\"id\":1,\"op\":\"load\"}"
    );
}

#[test]
fn guest_answers_are_read() {
    let ok = object(vec![
        ("id", Json::Number(JsonNumber::PosInt(1))),
        ("ok", Json::Bool(true)),
        ("logs", Json::Array(vec![text("装上了"), Json::Null])),
        ("tools", Json::Array(vec![object(vec![("name", text("echo")), ("description", text("回声"))]), object(vec![("name", text("bare"))])])),
        ("llm", text("guest-model")),
        ("result", text("42")),
    ]);
    assert!(expect_ok(&ok).is_ok());
    assert_eq!(take_logs(&ok), vec!["装上了".to_owned()]);
    assert_eq!(take_tools(&ok), vec![("echo".to_owned(), "回声".to_owned()), ("bare".to_owned(), String::new())]);
    assert_eq!(take_llm(&ok), Some("guest-model".to_owned()));
    assert_eq!(take_result(&ok).unwrap(), "42");
    let failed = object(vec![("ok", Json::Bool(false)), ("error", text("炸了"))]);
    assert!(matches!(expect_ok(&failed), Err(Error::Component(m)) if m == "炸了"));
    let mut logs = vec!["a".to_owned()];
    append_logs(&mut logs, vec!["b".to_owned()]);
    assert_eq!(logs, vec!["a".to_owned(), "b".to_owned()]);
}

#[test]
fn the_roster_forgets_unmounted_plugins() {
    let mut roster = Roster::new();
    roster.push(PluginInfo { name: "doc".into(), substrate: "native".into(), role: "文档".into() });
    roster.push(PluginInfo { name: "outline".into(), substrate: "wasm".into(), role: "大纲".into() });
    roster.remove("doc");
    let names: Vec<String> = roster.list().into_iter().map(|p| p.name).collect();
    assert_eq!(names, vec!["outline".to_owned()]);
}

#[test]
fn tools_are_kept_in_name_order() {
    let mut tools: Toolbox<Tool> = Toolbox::new();
    tools.insert("zeta".into(), "z".into(), "native", upper as Tool);
    tools.insert("alpha".into(), "a".into(), "script", upper as Tool);
    tools.insert("zeta".into(), "z2".into(), "wasm", upper as Tool);
    let listed: Vec<(String, String)> = tools.list().into_iter().map(|t| (t.name, t.description)).collect();
    assert_eq!(listed, vec![("alpha".to_owned(), "a".to_owned()), ("zeta".to_owned(), "z2".to_owned())]);
    assert_eq!(tools.call("alpha", "hi").unwrap(), "HI");
    assert!(matches!(tools.call("nope", ""), Err(Error::Component(m)) if m == "没有这个工具：nope"));
    assert_eq!(tools.substrate_of("zeta"), "wasm");
    let schema = to_json_text(&tools.schemas()[0]);
    assert!(schema.contains("\"description\":\"[script] a\""));
    tools.remove("alpha");
    assert_eq!(tools.list().len(), 1);
}

#[test]
fn paths_join_like_the_standard_library() {
    assert_eq!(join("/a", "b"), "/a/b");
    assert_eq!(join("/a/", "b"), "/a/b");
    assert_eq!(join("/a", "/b"), "/b");
    assert_eq!(join("", "b"), "b");
    assert!(absolute("/x"));
    assert!(!absolute("x"));
}

#[test]
fn pretty_text_is_indented() {
    let v = object(vec![("a", Json::Array(vec![Json::Bool(true)]))]);
    assert_eq!(to_pretty_text(&v), "{\n  \"a\": [\n    true\n  ]\n}");
}

#[test]
fn tool_tables_follow_their_calls() {
    fn lower(args: &str) -> Result<String, Error> {
        Ok(args.to_lowercase())
    }
    let mut tools: Toolbox<Tool> = Toolbox::new();
    tools.insert("b".into(), "B".into(), "native", upper as Tool);
    tools.insert("a".into(), "A1".into(), "wasm", upper as Tool);
    tools.insert("c".into(), "C".into(), "script", upper as Tool);
    tools.insert("a".into(), "A2".into(), "process", lower as Tool);
    tools.remove("c");
    tools.remove("zzz");
    let listed: Vec<(String, String, String)> =
        tools.list().into_iter().map(|t| (t.name, t.description, t.substrate)).collect();
    assert_eq!(
        listed,
        vec![("a".to_owned(), "A2".to_owned(), "process".to_owned()), ("b".to_owned(), "B".to_owned(), "native".to_owned())]
    );
    assert_eq!(tools.call("a", "XY").unwrap(), "xy");
}
