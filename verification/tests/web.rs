use spatiotemporal_agent::approval::PendingInstall;
use spatiotemporal_agent::chat::{Step, Trace, finish};
use spatiotemporal_agent::json::{Json, to_json_text};
use spatiotemporal_agent::roster::PluginInfo;
use spatiotemporal_agent::toolbox::ToolInfo;
use spatiotemporal_agent::web::{
    HttpMethod, Route, StatusReport, approve_requested, chat_input, doc_body, done_body, error_body, pending_body,
    route, status_body, turn_json, url_path,
};

#[test]
fn routes_ignore_the_query_string() {
    assert_eq!(url_path("/api/status?x=1?y"), "/api/status");
    assert_eq!(url_path("/"), "/");
    assert_eq!(route(HttpMethod::Get, "/"), Route::Index);
    assert_eq!(route(HttpMethod::Get, "/api/status?t=1"), Route::Status);
    assert_eq!(route(HttpMethod::Get, "/api/creation/pending"), Route::Pending);
    assert_eq!(route(HttpMethod::Post, "/api/creation/approve"), Route::Approve);
    assert_eq!(route(HttpMethod::Get, "/api/doc"), Route::Doc);
    assert_eq!(route(HttpMethod::Post, "/api/chat"), Route::Chat);
    assert_eq!(route(HttpMethod::Get, "/api/chat"), Route::NotFound);
    assert_eq!(route(HttpMethod::Other, "/"), Route::NotFound);
}

#[test]
fn chat_requests_need_a_message() {
    let (user, history) = chat_input("{\"message\": \"  你好 \", \"history\": [{\"role\":\"user\"}]}").unwrap();
    assert_eq!(user, "你好");
    assert_eq!(history.len(), 1);
    let (user, history) = chat_input("{\"message\": \"hi\"}").unwrap();
    assert_eq!(user, "hi");
    assert!(history.is_empty());
    for body in ["not json", "{\"message\": \"   \"}", "{\"message\": 3}"] {
        match chat_input(body) {
            Err((code, message)) => {
                assert_eq!(code, 400);
                assert_eq!(message, "空消息");
            }
            Ok(_) => panic!("expected a refusal for {body}"),
        }
    }
}

#[test]
fn approvals_default_to_rejection() {
    assert!(approve_requested("{\"approve\": true}"));
    assert!(!approve_requested("{\"approve\": \"yes\"}"));
    assert!(!approve_requested("garbage"));
}

#[test]
fn bodies_are_json_objects() {
    assert_eq!(to_json_text(&error_body("没有这条路")), "{\"error\":\"没有这条路\"}");
    assert_eq!(to_json_text(&done_body("ok")), "{\"message\":\"ok\",\"ok\":true}");
    assert_eq!(to_json_text(&doc_body("a.md", "t")), "{\"path\":\"a.md\",\"text\":\"t\"}");
    assert_eq!(to_json_text(&pending_body(None)), "{\"pending\":null}");
    let p = PendingInstall {
        id: "x".into(),
        kind: "script".into(),
        summary: "s".into(),
        preview: "p".into(),
        session_id: "sess".into(),
        source_lines: Some(4),
    };
    assert_eq!(
        to_json_text(&pending_body(Some(&p))),
        "{\"pending\":{\"id\":\"x\",\"kind\":\"script\",\"preview\":\"p\",\"session_id\":\"sess\",\"source_lines\":4,\"summary\":\"s\"}}"
    );
}

#[test]
fn status_lists_tools_and_plugins() {
    let tools = vec![ToolInfo { name: "read".into(), description: "读".into(), substrate: "native".into() }];
    let plugins = vec![PluginInfo { name: "web".into(), substrate: "native".into(), role: "界面".into() }];
    let body = status_body(StatusReport {
        doc: "a.md",
        model: "m",
        has_key: false,
        surface: "web",
        creation: true,
        workspace: "/ws",
        pending: None,
        tools: &tools,
        plugins: &plugins,
    });
    assert_eq!(
        to_json_text(&body),
        "{\"creation\":true,\"doc\":\"a.md\",\"has_key\":false,\"model\":\"m\",\"pending\":null,\"plugins\":[{\"name\":\"web\",\"role\":\"界面\",\"substrate\":\"native\"}],\"surface\":\"web\",\"tools\":[{\"description\":\"读\",\"name\":\"read\",\"substrate\":\"native\"}],\"workspace\":\"/ws\"}"
    );
}

#[test]
fn turns_leave_out_empty_step_texts() {
    let steps = vec![Step {
        kind: "think".into(),
        round: 1,
        text: "想".into(),
        tool: String::new(),
        substrate: String::new(),
        input: String::new(),
        output: String::new(),
    }];
    let traces = vec![Trace { tool: "read".into(), substrate: "native".into(), input: "{}".into(), output: "x".into() }];
    let turn = finish(vec![Json::Str("system".into()), Json::Str("u".into())], "好".into(), traces, steps);
    assert_eq!(
        to_json_text(&turn_json(&turn)),
        "{\"history\":[\"u\"],\"reply\":\"好\",\"session_id\":null,\"steps\":[{\"kind\":\"think\",\"round\":1,\"text\":\"想\"}],\"traces\":[{\"input\":\"{}\",\"output\":\"x\",\"substrate\":\"native\",\"tool\":\"read\"}]}"
    );
}
