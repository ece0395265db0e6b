use spatiotemporal_agent::approval::ApprovalQueue;
use spatiotemporal_agent::error::Error;
use spatiotemporal_agent::json::{Json, JsonNumber};
use spatiotemporal_agent::plugins::{
    AgentLoopPlugin, ApprovalPolicyPlugin, BashSandbox, DeepSeek, DocFile, Document, Fs, FsSandbox, PatchWatcher, Shell,
    completion, creation_enabled, parse_u16, process_args, process_path, request_failed, web_creation, web_port,
};

fn object(fields: Vec<(&str, Json)>) -> Json {
    Json::Object(fields.into_iter().map(|(k, v)| (k.to_owned(), v)).collect())
}

fn text(s: &str) -> Json {
    Json::Str(s.to_owned())
}

#[test]
fn agent_loop_defaults_to_fifty_rounds() {
    let plugin = AgentLoopPlugin::from_config(&Json::Null);
    assert_eq!(plugin.max_rounds, 50);
    assert_eq!(plugin.compaction.max_messages, 48);
    let plugin = AgentLoopPlugin::from_config(&object(vec![
        ("max_rounds", Json::Number(JsonNumber::PosInt(7))),
        ("keep_recent", Json::Number(JsonNumber::PosInt(2))),
    ]));
    assert_eq!(plugin.max_rounds, 7);
    assert_eq!(plugin.compaction.keep_recent, 2);
}

#[test]
fn the_policy_plugin_installs_its_policy() {
    let mut queue = ApprovalQueue::new("/ws".into());
    let _plugin = ApprovalPolicyPlugin::from_config(&object(vec![("require", Json::Array(vec![text("wasm")]))]), &mut queue);
    assert!(queue.requires_approval("wasm"));
    assert!(!queue.requires_approval("script"));
}

#[test]
fn deepseek_settings_prefer_the_row() {
    let client = DeepSeek::from_config(
        &object(vec![("model", text("deepseek-reasoner"))]),
        Some(String::new()),
        Some("https://proxy/v1/".into()),
        Some("ignored".into()),
    );
    assert_eq!(client.api_key, None);
    assert_eq!(client.base, "https://proxy/v1/");
    assert_eq!(client.model(), "deepseek-reasoner");
    assert_eq!(client.endpoint(), "https://proxy/v1/chat/completions");
    match client.authorization() {
        Err(Error::Component(m)) => assert_eq!(m, "没有 DEEPSEEK_API_KEY"),
        _ => panic!("expected a missing key"),
    }
    let env = DeepSeek::from_env(Some("sk-1".into()), None, None);
    assert_eq!(env.base, "https://api.deepseek.com");
    assert_eq!(env.model, "deepseek-chat");
    assert_eq!(env.authorization().unwrap(), "Bearer sk-1");
    assert_eq!(env.endpoint(), "https://api.deepseek.com/chat/completions");
}

#[test]
fn completions_must_be_json() {
    let v = completion("{\"choices\": []}").unwrap();
    assert!(v.get("choices").is_some());
    match completion("<html>") {
        Err(Error::Component(m)) => assert!(m.starts_with("DeepSeek 响应不是 JSON：")),
        _ => panic!("expected an error"),
    }
    assert!(matches!(request_failed("timeout"), Error::Component(m) if m == "DeepSeek 请求失败：timeout"));
}

#[test]
fn ports_parse_like_u16() {
    assert_eq!(parse_u16("8080"), Some(8080));
    assert_eq!(parse_u16("+1"), Some(1));
    assert_eq!(parse_u16("65535"), Some(65535));
    assert_eq!(parse_u16("65536"), None);
    assert_eq!(parse_u16(""), None);
    assert_eq!(parse_u16("+"), None);
    assert_eq!(parse_u16("-1"), None);
    assert_eq!(parse_u16("80a"), None);
    for t in ["0", "007", "123456", " 1", "99999999999"] {
        assert_eq!(parse_u16(t), t.parse::<u16>().ok(), "text {t:?}");
    }
    assert_eq!(web_port(&Json::Null, Some("9000")), 9000);
    assert_eq!(web_port(&Json::Null, Some("x")), 8787);
    assert_eq!(web_port(&Json::Null, None), 8787);
    assert_eq!(web_port(&object(vec![("port", Json::Number(JsonNumber::PosInt(70_000)))]), Some("9000")), 4464);
    assert!(web_creation(&object(vec![("creation", Json::Bool(true))])));
    assert!(!web_creation(&Json::Null));
}

#[test]
fn process_rows_name_their_executable() {
    let row = object(vec![("command", text("probe"))]);
    assert_eq!(process_path("/p", &row).unwrap(), "/p/target/guests/probe");
    let row = object(vec![("guest", text("bin/tool"))]);
    assert_eq!(process_path("/p", &row).unwrap(), "/p/bin/tool");
    let row = object(vec![("command", text("/usr/bin/env")), ("args", Json::Array(vec![text("a"), Json::Null, text("b")]))]);
    assert_eq!(process_path("/p", &row).unwrap(), "/usr/bin/env");
    assert_eq!(process_args(&row), vec!["a".to_owned(), "b".to_owned()]);
    match process_path("/p", &Json::Null) {
        Err(Error::Config(m)) => assert_eq!(m, "process 需要 config.command 或 guest"),
        _ => panic!("expected a config error"),
    }
}

#[test]
fn small_plugins_hold_their_settings() {
    let doc = DocFile::new("/d/a.md".into(), "# a".into());
    assert_eq!(doc.path(), "/d/a.md");
    assert_eq!(doc.text(), "# a");
    assert_eq!(Fs::root(&FsSandbox { root: "/ws".into() }), "/ws");
    assert_eq!(Shell::root(&BashSandbox { root: "/ws".into() }), "/ws");
    assert_eq!(PatchWatcher::from_config(&Json::Null, "/p").path, "/p/cordis.patch.yml");
    assert_eq!(PatchWatcher::from_config(&object(vec![("path", text("x.yml"))]), "/p").path, "/p/x.yml");
    assert!(creation_enabled(&Json::Null));
    assert!(!creation_enabled(&object(vec![("enabled", Json::Bool(false))])));
}
