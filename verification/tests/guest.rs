use spatiotemporal_agent::error::Error;
use spatiotemporal_agent::guest::{
    accept_registration, capability, document_snapshot, guest_completion, load_failed, load_outcome, runtime_failure, tool_failed, unload_stuck,
};
use spatiotemporal_agent::host::{Capabilities, process_caps, script_caps, wasm_caps};
use spatiotemporal_agent::json::{Json, to_json_text};
use spatiotemporal_agent::protocol::read_reply;

fn object(fields: Vec<(&str, Json)>) -> Json {
    Json::Object(fields.into_iter().map(|(k, v)| (k.to_owned(), v)).collect())
}

fn text(s: &str) -> Json {
    Json::Str(s.to_owned())
}

fn grants(names: &[&str]) -> Vec<String> {
    names.iter().map(|n| n.to_string()).collect()
}

#[test]
fn a_guest_sees_only_what_was_granted() {
    let view = vec![("markdown".to_owned(), "# 标题".to_owned()), ("markdown".to_owned(), "later".to_owned())];
    assert_eq!(capability(&view, "markdown").unwrap(), "# 标题");
    assert_eq!(capability(&view, "db").unwrap_err(), "没有授予这项能力：db");
    assert_eq!(capability(&Vec::new(), "markdown").unwrap_err(), "没有授予这项能力：markdown");
}

#[test]
fn snapshots_project_each_granted_name() {
    let mut caps = Capabilities::new();
    caps.expose("markdown");
    caps.expose("db");
    let view = caps.snapshot(&grants(&["db", "markdown"]), |name| Ok(format!("<{name}>"))).unwrap();
    assert_eq!(view, vec![("db".to_owned(), "<db>".to_owned()), ("markdown".to_owned(), "<markdown>".to_owned())]);
    assert!(caps.snapshot(&[], |_| Ok(String::new())).unwrap().is_empty());
}

#[test]
fn snapshots_refuse_unexposed_names_before_projecting() {
    let mut caps = Capabilities::new();
    caps.expose("markdown");
    let outcome = caps.snapshot(&grants(&["markdown", "vault"]), |_| -> Result<String, Error> {
        panic!("nothing is projected when a name is refused")
    });
    assert!(matches!(outcome, Err(Error::UnknownKey(name)) if name == "vault"));
}

#[test]
fn a_failing_projection_fails_the_snapshot() {
    let mut caps = Capabilities::new();
    caps.expose("markdown");
    let outcome = caps.snapshot(&grants(&["markdown"]), |_| Err(Error::Component("读不到文档".to_owned())));
    assert!(matches!(outcome, Err(Error::Component(m)) if m == "读不到文档"));
}

#[test]
fn a_model_needs_a_host_that_takes_it() {
    let refused = accept_registration(vec![], vec![], Some("m".to_owned()), false);
    assert!(matches!(refused, Err(Error::Component(m)) if m == "guest 登记了 LLM，但宿主没接"));
    let taken = accept_registration(vec!["hi".to_owned()], vec![], Some("m".to_owned()), true).unwrap();
    assert_eq!(taken.logs, vec!["hi".to_owned()]);
    assert_eq!(taken.llm, Some("m".to_owned()));
    let plain = accept_registration(vec![], vec![("t".to_owned(), "d".to_owned())], None, false).unwrap();
    assert_eq!(plain.tools, vec![("t".to_owned(), "d".to_owned())]);
    assert_eq!(plain.llm, None);
}

#[test]
fn load_answers_are_read() {
    let ok = object(vec![
        ("id", Json::Number(spatiotemporal_agent::json::JsonNumber::PosInt(1))),
        ("ok", Json::Bool(true)),
        ("logs", Json::Array(vec![text("载入")])),
        ("tools", Json::Array(vec![object(vec![("name", text("echo")), ("description", text("回声"))])])),
    ]);
    let load = load_outcome(&ok, false).unwrap();
    assert_eq!(load.logs, vec!["载入".to_owned()]);
    assert_eq!(load.tools, vec![("echo".to_owned(), "回声".to_owned())]);
    assert_eq!(load.llm, None);
    let failed = object(vec![("ok", Json::Bool(false)), ("error", text("坏了"))]);
    assert!(matches!(load_outcome(&failed, true), Err(Error::Component(m)) if m == "坏了"));
    let with_model = object(vec![("ok", Json::Bool(true)), ("llm", text("g"))]);
    assert!(matches!(load_outcome(&with_model, false), Err(Error::Component(m)) if m == "guest 登记了 LLM，但宿主没接"));
}

#[test]
fn guest_failures_say_what_happened() {
    assert_eq!(unload_stuck("probe", "timeout"), "probe 的 unload 陷入了：timeout");
    assert!(matches!(runtime_failure("实例化", "trap"), Error::Component(m) if m == "实例化：trap"));
    assert!(matches!(load_failed("boom"), Error::Component(m) if m == "guest 的 load 失败：boom"));
    assert!(matches!(tool_failed("echo", "boom"), Error::Component(m) if m == "工具 echo 失败：boom"));
}

#[test]
fn reply_lines_are_json() {
    let v = read_reply(Some("{\"ok\":true,\"id\":7}\n")).unwrap();
    assert_eq!(to_json_text(&v), "{\"id\":7,\"ok\":true}");
    assert!(matches!(read_reply(None), Err(Error::Component(m)) if m == "guest 提前 EOF"));
    match read_reply(Some("nope\n")) {
        Err(Error::Component(m)) => {
            assert!(m.starts_with("guest 回了非法 JSON："), "{m}");
            assert!(m.ends_with("；行=\"nope\\n\""), "{m}");
        },
        other => panic!("unexpected {other:?}"),
    }
}

#[test]
fn guest_models_answer_in_json() {
    let v = guest_completion("{\"choices\":[]}").unwrap();
    assert_eq!(to_json_text(&v), "{\"choices\":[]}");
    assert!(matches!(guest_completion("pong"), Err(Error::Component(m)) if m.starts_with("guest LLM 返回的不是 JSON：")));
}

#[test]
fn the_document_capability_yields_the_document() {
    for caps in [wasm_caps(), script_caps(), process_caps()] {
        let view = document_snapshot(&caps, &grants(&["markdown"]), "# 标题\n正文").unwrap();
        assert_eq!(view, vec![("markdown".to_owned(), "# 标题\n正文".to_owned())]);
        assert!(matches!(document_snapshot(&caps, &grants(&["db"]), "x"), Err(Error::UnknownKey(n)) if n == "db"));
        assert!(document_snapshot(&caps, &[], "x").unwrap().is_empty());
    }
}
