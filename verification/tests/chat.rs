use spatiotemporal_agent::chat::{AgentTurn, TurnAction, TurnEvent, Waiting, finish, run_tool_call, sanitize_message, thought};
use spatiotemporal_agent::compaction::CompactionConfig;
use spatiotemporal_agent::error::Error;
use spatiotemporal_agent::json::{Json, JsonNumber, to_json_text};
use spatiotemporal_agent::toolbox::Toolbox;

type Tool = fn(&str) -> Result<String, Error>;

fn echo(args: &str) -> Result<String, Error> {
    Ok(format!("got {args}"))
}

fn failing(_args: &str) -> Result<String, Error> {
    Err(Error::Component("坏了".into()))
}

fn object(fields: Vec<(&str, Json)>) -> Json {
    Json::Object(fields.into_iter().map(|(k, v)| (k.to_owned(), v)).collect())
}

fn text(s: &str) -> Json {
    Json::Str(s.to_owned())
}

fn response(message: Json) -> Json {
    object(vec![("choices", Json::Array(vec![object(vec![("message", message)])]))])
}

fn tool_call_reply(name: &str, args: &str) -> Json {
    response(object(vec![
        ("role", text("assistant")),
        ("content", Json::Null),
        ("reasoning_content", text("先读文件")),
        (
            "tool_calls",
            Json::Array(vec![object(vec![
                ("id", text("c1")),
                ("index", Json::Number(JsonNumber::PosInt(0))),
                ("type", text("function")),
                ("function", object(vec![("name", text(name)), ("arguments", text(args))])),
            ])]),
        ),
    ]))
}

fn final_reply(content: &str) -> Json {
    response(object(vec![("role", text("assistant")), ("content", text(content))]))
}

fn tools() -> Toolbox<Tool> {
    let mut tools: Toolbox<Tool> = Toolbox::new();
    tools.insert("read".into(), "读文件".into(), "native", echo as Tool);
    tools.insert("broken".into(), "总失败".into(), "wasm", failing as Tool);
    tools
}

fn messages_of(body: &Json) -> &Vec<Json> {
    body.get("messages").and_then(|m| m.as_array()).unwrap()
}

#[test]
fn a_turn_runs_tools_then_replies() {
    let tools = tools();
    let history = vec![object(vec![("role", text("user")), ("content", text("早先"))])];
    let (mut turn, action) =
        AgentTurn::start("系统", &history, "读 a", &CompactionConfig::default(), 5, "m", tools.schemas());
    let body = match action {
        TurnAction::Ask(body) => body,
        _ => panic!("should ask the model"),
    };
    assert_eq!(body.get_str("model"), Some("m"));
    assert_eq!(body.get_str("tool_choice"), Some("auto"));
    assert_eq!(messages_of(&body).len(), 3);
    assert_eq!(turn.waiting(), Waiting::Reply);

    let call = match turn.advance(TurnEvent::Replied(Ok(tool_call_reply("read", "{\"path\":\"a\"}")))) {
        TurnAction::Run(call) => call,
        _ => panic!("should run a tool"),
    };
    assert_eq!(call.name, "read");
    assert_eq!(call.arguments, "{\"path\":\"a\"}");
    assert_eq!(call.id, "c1");

    let event = run_tool_call(&tools, &call.name, &call.arguments);
    let body = match turn.advance(event) {
        TurnAction::Ask(body) => body,
        _ => panic!("should ask again"),
    };
    let sent = messages_of(&body);
    assert_eq!(sent.len(), 5);
    let assistant = to_json_text(&sent[3]);
    assert!(!assistant.contains("reasoning_content"));
    assert!(!assistant.contains("\"index\""));
    assert_eq!(sent[4].get_str("role"), Some("tool"));
    assert_eq!(sent[4].get_str("content"), Some("got {\"path\":\"a\"}"));
    assert_eq!(sent[4].get_str("tool_call_id"), Some("c1"));

    assert!(matches!(turn.advance(TurnEvent::Replied(Ok(final_reply("完成")))), TurnAction::Finish));
    let outcome = turn.finish();
    assert_eq!(outcome.reply, "完成");
    assert_eq!(outcome.traces.len(), 1);
    assert_eq!(outcome.traces[0].substrate, "native");
    assert_eq!(outcome.steps.len(), 2);
    assert_eq!(outcome.steps[0].kind, "think");
    assert_eq!(outcome.steps[0].text, "先读文件");
    assert_eq!(outcome.steps[1].kind, "tool");
    assert_eq!(outcome.steps[1].round, 1);
    assert_eq!(outcome.history.len(), 5);
    assert!(outcome.session_id.is_none());
}

#[test]
fn a_failed_request_ends_the_turn_with_its_error() {
    let tools = tools();
    let (mut turn, _) = AgentTurn::start("s", &[], "hi", &CompactionConfig::default(), 5, "m", tools.schemas());
    assert!(matches!(turn.advance(TurnEvent::Replied(Err("网络断了".into()))), TurnAction::Finish));
    let outcome = turn.finish();
    assert_eq!(outcome.reply, "网络断了");
    assert_eq!(outcome.history.len(), 1);
}

#[test]
fn rounds_run_out() {
    let tools = tools();
    let (mut turn, _) = AgentTurn::start("s", &[], "hi", &CompactionConfig::default(), 1, "m", tools.schemas());
    let call = match turn.advance(TurnEvent::Replied(Ok(tool_call_reply("broken", "{}")))) {
        TurnAction::Run(call) => call,
        _ => panic!("should run a tool"),
    };
    let event = run_tool_call(&tools, &call.name, &call.arguments);
    assert!(matches!(turn.advance(event), TurnAction::Finish));
    let outcome = turn.finish();
    assert_eq!(outcome.reply, "工具调用轮次用尽了。");
    assert_eq!(outcome.traces[0].output, "坏了");
    assert_eq!(outcome.traces[0].substrate, "wasm");
}

#[test]
fn zero_rounds_finish_at_once() {
    let (turn, action) = AgentTurn::start("s", &[], "hi", &CompactionConfig::default(), 0, "m", Vec::new());
    assert!(matches!(action, TurnAction::Finish));
    assert_eq!(turn.finish().reply, "工具调用轮次用尽了。");
}

#[test]
fn a_reply_without_text_gets_a_note() {
    let (mut turn, action) = AgentTurn::start("s", &[], "hi", &CompactionConfig::default(), 3, "m", Vec::new());
    match action {
        TurnAction::Ask(body) => assert!(body.get("tools").is_none()),
        _ => panic!("should ask"),
    }
    let reply = response(object(vec![("role", text("assistant"))]));
    assert!(matches!(turn.advance(TurnEvent::Replied(Ok(reply))), TurnAction::Finish));
    assert_eq!(turn.finish().reply, "（模型没有返回文本）");
}

#[test]
fn the_document_reader_sends_messages_as_they_are() {
    let tools = tools();
    let (mut turn, _) = AgentTurn::start_plain("讲解员", &[], "大纲?", 6, "m", tools.schemas());
    let call = match turn.advance(TurnEvent::Replied(Ok(tool_call_reply("read", "{}")))) {
        TurnAction::Run(call) => call,
        _ => panic!("should run a tool"),
    };
    let body = match turn.advance(run_tool_call(&tools, &call.name, &call.arguments)) {
        TurnAction::Ask(body) => body,
        _ => panic!("should ask again"),
    };
    assert!(to_json_text(&messages_of(&body)[2]).contains("reasoning_content"));
    assert!(matches!(turn.advance(TurnEvent::Replied(Ok(final_reply("好")))), TurnAction::Finish));
    let outcome = turn.finish();
    assert_eq!(outcome.reply, "好");
    assert_eq!(outcome.history.len(), 3);
    assert_eq!(outcome.steps.len(), 1);
}

#[test]
fn an_unknown_tool_is_reported() {
    let tools = tools();
    match run_tool_call(&tools, "nope", "{}") {
        TurnEvent::ToolDone { substrate, output } => {
            assert_eq!(substrate, "?");
            assert_eq!(output, "没有这个工具：nope");
        }
        _ => panic!("expected a tool report"),
    }
}

#[test]
fn sanitizing_drops_reasoning_and_indices() {
    let message = match tool_call_reply("read", "{}") {
        Json::Object(mut fields) => match fields.remove(0).1 {
            Json::Array(mut items) => match items.remove(0) {
                Json::Object(mut inner) => inner.remove(0).1,
                _ => unreachable!(),
            },
            _ => unreachable!(),
        },
        _ => unreachable!(),
    };
    assert_eq!(thought(&message), Some("先读文件".to_owned()));
    let clean = to_json_text(&sanitize_message(&message));
    assert!(!clean.contains("reasoning_content"));
    assert!(!clean.contains("index"));
    assert!(clean.contains("\"id\":\"c1\""));
}

#[test]
fn finish_keeps_everything_after_the_system_message() {
    let turn = finish(vec![text("system"), text("a"), text("b")], "r".into(), Vec::new(), Vec::new());
    assert_eq!(turn.history.len(), 2);
    assert_eq!(turn.history[0].as_str(), Some("a"));
    assert_eq!(finish(Vec::new(), "r".into(), Vec::new(), Vec::new()).history.len(), 0);
}
