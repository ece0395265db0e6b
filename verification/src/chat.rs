//! One agent turn: the system prompt, then rounds of model replies and tool calls.
//!
//! The turn is a state machine. The host performs what it asks for (a chat
//! completion, a tool call) and hands the result back; the machine decides
//! what comes next and what the turn's outcome is.
use vstd::prelude::*;

use crate::json::{
    Json, JsonV, field_of, lemma_view_fields, lemma_view_items, view_fields, view_items,
};
use crate::compaction::{CompactionConfig, compact, compacted};
use crate::error::Error;
use crate::text::{str_eq, trim, trimmed};
use crate::toolbox::{Toolbox, substrate_or_unknown, tool_named};

verus! {

/// `value[key]`: the member, or null for a missing member or a non-object.
pub open spec fn at_key(value: JsonV, key: Seq<char>) -> JsonV {
    match value.member(key) {
        Some(v) => v,
        None => JsonV::Null,
    }
}

/// `value[0]`: the first item, or null for an empty array or a non-array.
pub open spec fn first_item(value: JsonV) -> JsonV {
    match value {
        JsonV::Array(items) => if items.len() > 0 { items[0] } else { JsonV::Null },
        _ => JsonV::Null,
    }
}

/// `fields` without any member keyed `key`.
pub open spec fn without_key(fields: Seq<(Seq<char>, JsonV)>, key: Seq<char>) -> Seq<(Seq<char>, JsonV)>
    decreases fields.len(),
{
    if fields.len() == 0 {
        Seq::empty()
    } else {
        let rest = without_key(fields.drop_last(), key);
        if fields.last().0 == key {
            rest
        } else {
            rest.push(fields.last())
        }
    }
}

/// A tool call without its `index` member.
pub open spec fn without_index(call: JsonV) -> JsonV {
    match call {
        JsonV::Object(fields) => JsonV::Object(without_key(fields, "index"@)),
        _ => call,
    }
}

/// A message as it is sent back to the model: no `reasoning_content`, and no
/// `index` in its tool calls.
pub open spec fn sanitized(message: JsonV) -> JsonV {
    match message {
        JsonV::Object(fields) => {
            let o = JsonV::Object(without_key(fields, "reasoning_content"@));
            match o.member("tool_calls"@) {
                Some(JsonV::Array(calls)) => o.with_member(
                    "tool_calls"@,
                    JsonV::Array(calls.map_values(|c: JsonV| without_index(c))),
                ),
                _ => o,
            }
        },
        _ => message,
    }
}

fn without_key_exec(fields: &Vec<(String, Json)>, key: &str) -> (r: Vec<(String, Json)>)
    ensures
        view_fields(r@) == without_key(view_fields(fields@), key@),
{
    let ghost fs = view_fields(fields@);
    proof {
        lemma_view_fields(fields@);
    }
    let mut out: Vec<(String, Json)> = Vec::new();
    let mut i: usize = 0;
    while i < fields.len()
        invariant
            fs == view_fields(fields@),
            fs.len() == fields@.len(),
            i <= fields@.len(),
            view_fields(out@) == without_key(fs.subrange(0, i as int), key@),
        decreases fields@.len() - i,
    {
        proof {
            lemma_view_fields(fields@);
            let s1 = fs.subrange(0, i + 1);
            assert(s1.drop_last() =~= fs.subrange(0, i as int));
            assert(s1.last() == fs[i as int]);
        }
        if !str_eq(fields[i].0.as_str(), key) {
            let ghost before = out@;
            let k = fields[i].0.clone();
            let v = fields[i].1.deep_clone();
            out.push((k, v));
            proof {
                lemma_view_fields(before);
                lemma_view_fields(out@);
                assert(view_fields(out@) =~= view_fields(before).push(fs[i as int]));
            }
        }
        i = i + 1;
    }
    assert(fs.subrange(0, fs.len() as int) =~= fs);
    out
}

/// A message as it is sent back to the model.
pub fn sanitize_message(message: &Json) -> (r: Json)
    ensures
        r@ == sanitized(message@),
{
    match message {
        Json::Object(fields) => {
            let o = Json::Object(without_key_exec(fields, "reasoning_content"));
            let calls = match o.get_array("tool_calls") {
                Some(calls) => {
                    let mut out: Vec<Json> = Vec::new();
                    let mut i: usize = 0;
                    while i < calls.len()
                        invariant
                            i <= calls@.len(),
                            out@.len() == i,
                            forall|j: int|
                                0 <= j < i ==> (#[trigger] out@[j])@ == without_index(calls@[j]@),
                        decreases calls@.len() - i,
                    {
                        let c = match &calls[i] {
                            Json::Object(f) => Json::Object(without_key_exec(f, "index")),
                            other => other.deep_clone(),
                        };
                        out.push(c);
                        i = i + 1;
                    }
                    proof {
                        lemma_view_items(out@);
                        lemma_view_items(calls@);
                        assert(view_items(out@) =~= view_items(calls@).map_values(
                            |c: JsonV| without_index(c),
                        ));
                    }
                    Some(out)
                },
                None => None,
            };
            match calls {
                Some(out) => o.with_member("tool_calls", Json::Array(out)),
                None => o,
            }
        },
        other => other.deep_clone(),
    }
}

/// Every message as it is sent back to the model.
pub fn sanitize_messages(messages: &[Json]) -> (r: Vec<Json>)
    ensures
        view_items(r@) == view_items(messages@).map_values(|m: JsonV| sanitized(m)),
{
    let mut out: Vec<Json> = Vec::new();
    let mut i: usize = 0;
    while i < messages.len()
        invariant
            i <= messages@.len(),
            out@.len() == i,
            forall|j: int| 0 <= j < i ==> (#[trigger] out@[j])@ == sanitized(messages@[j]@),
        decreases messages@.len() - i,
    {
        out.push(sanitize_message(&messages[i]));
        i = i + 1;
    }
    proof {
        lemma_view_items(out@);
        lemma_view_items(messages@);
        assert(view_items(out@) =~= view_items(messages@).map_values(|m: JsonV| sanitized(m)));
    }
    out
}

/// `response["choices"][0]["message"]`.
pub open spec fn reply_message(response: JsonV) -> JsonV {
    at_key(first_item(at_key(response, "choices"@)), "message"@)
}

/// The model's reply message in a chat-completion response (null when absent).
pub fn reply_message_of(response: &Json) -> (r: Json)
    ensures
        r@ == reply_message(response@),
{
    match response.get("choices") {
        Some(Json::Array(items)) => {
            if items.len() > 0 {
                proof {
                    lemma_view_items(items@);
                }
                match items[0].get("message") {
                    Some(m) => m.deep_clone(),
                    None => Json::Null,
                }
            } else {
                Json::Null
            }
        },
        _ => Json::Null,
    }
}

/// The text of `value[key]`, or `default`.
pub open spec fn text_at(value: JsonV, key: Seq<char>, default: Seq<char>) -> Seq<char> {
    match at_key(value, key).text() {
        Some(t) => t,
        None => default,
    }
}

fn text_at_exec(value: &Json, key: &str, default: &str) -> (r: String)
    ensures
        r@ == text_at(value@, key@, default@),
{
    match value.get(key) {
        Some(v) => match v.as_str() {
            Some(t) => t.to_owned(),
            None => default.to_owned(),
        },
        None => default.to_owned(),
    }
}

/// One tool call the model asked for.
pub struct ToolCall {
    pub id: String,
    pub name: String,
    pub arguments: String,
}

/// The abstract value of a [`ToolCall`].
pub struct CallV {
    pub id: Seq<char>,
    pub name: Seq<char>,
    pub arguments: Seq<char>,
}

impl View for ToolCall {
    type V = CallV;

    open spec fn view(&self) -> CallV {
        CallV { id: self.id@, name: self.name@, arguments: self.arguments@ }
    }
}

/// How a tool call is read: `function.name` (or empty), `function.arguments`
/// (or `{}`), `id` (or empty).
pub open spec fn parsed_call(call: JsonV) -> CallV {
    CallV {
        id: text_at(call, "id"@, ""@),
        name: text_at(at_key(call, "function"@), "name"@, ""@),
        arguments: text_at(at_key(call, "function"@), "arguments"@, "{}"@),
    }
}

/// Reads one tool call.
pub fn parse_call(call: &Json) -> (r: ToolCall)
    ensures
        r@ == parsed_call(call@),
{
    let (name, arguments) = match call.get("function") {
        Some(f) => (text_at_exec(f, "name", ""), text_at_exec(f, "arguments", "{}")),
        None => (text_at_exec(&Json::Null, "name", ""), text_at_exec(&Json::Null, "arguments", "{}")),
    };
    ToolCall { id: text_at_exec(call, "id", ""), name, arguments }
}

/// The tool calls of a reply, when it has a non-empty `tool_calls` array.
pub open spec fn tool_calls_of(message: JsonV) -> Option<Seq<JsonV>> {
    match message.array_member("tool_calls"@) {
        Some(items) => if items.len() > 0 { Some(items) } else { None },
        None => None,
    }
}

/// Text that is more than white space.
pub open spec fn solid(t: Option<Seq<char>>) -> Option<Seq<char>> {
    match t {
        Some(s) => if trimmed(s).len() > 0 { Some(s) } else { None },
        None => None,
    }
}

/// What the model thought before calling tools: its `reasoning_content`, or
/// else its `content`, when not blank.
pub open spec fn thought_of(message: JsonV) -> Option<Seq<char>> {
    match solid(message.str_member("reasoning_content"@)) {
        Some(t) => Some(t),
        None => solid(message.str_member("content"@)),
    }
}

fn solid_exec(t: Option<&str>) -> (r: Option<String>)
    ensures
        match r {
            Some(s) => solid(match t { Some(x) => Some(x@), None => None }) == Some(s@),
            None => solid(match t { Some(x) => Some(x@), None => None }) is None,
        },
{
    match t {
        Some(s) => {
            let trimmed_text = trim(s);
            if trimmed_text.as_str().is_empty() { None } else { Some(s.to_owned()) }
        },
        None => None,
    }
}

/// What the model thought before calling tools.
pub fn thought(message: &Json) -> (r: Option<String>)
    ensures
        match r {
            Some(s) => thought_of(message@) == Some(s@),
            None => thought_of(message@) is None,
        },
{
    match solid_exec(message.get_str("reasoning_content")) {
        Some(t) => Some(t),
        None => solid_exec(message.get_str("content")),
    }
}

} // verus!

verus! {

/// One tool call as the UI timeline shows it.
pub struct Trace {
    pub tool: String,
    pub substrate: String,
    pub input: String,
    pub output: String,
}

/// The abstract value of a [`Trace`].
pub struct TraceV {
    pub tool: Seq<char>,
    pub substrate: Seq<char>,
    pub input: Seq<char>,
    pub output: Seq<char>,
}

impl View for Trace {
    type V = TraceV;

    open spec fn view(&self) -> TraceV {
        TraceV { tool: self.tool@, substrate: self.substrate@, input: self.input@, output: self.output@ }
    }
}

/// One step of a turn (a thought or a tool call), for the UI.
pub struct Step {
    pub kind: String,
    pub round: usize,
    pub text: String,
    pub tool: String,
    pub substrate: String,
    pub input: String,
    pub output: String,
}

/// The abstract value of a [`Step`].
pub struct StepV {
    pub kind: Seq<char>,
    pub round: usize,
    pub text: Seq<char>,
    pub tool: Seq<char>,
    pub substrate: Seq<char>,
    pub input: Seq<char>,
    pub output: Seq<char>,
}

impl View for Step {
    type V = StepV;

    open spec fn view(&self) -> StepV {
        StepV {
            kind: self.kind@,
            round: self.round,
            text: self.text@,
            tool: self.tool@,
            substrate: self.substrate@,
            input: self.input@,
            output: self.output@,
        }
    }
}

/// The outcome of a turn.
pub struct Turn {
    pub reply: String,
    pub traces: Vec<Trace>,
    pub steps: Vec<Step>,
    pub session_id: Option<String>,
    /// The whole conversation without the system message, tool messages
    /// included, for the next turn.
    pub history: Vec<Json>,
}

/// What a turn waits for.
#[derive(PartialEq, Eq, Structural, Clone, Copy, Debug)]
pub enum Waiting {
    Reply,
    Tool,
    Finished,
}

/// What the host is asked to do next.
pub enum TurnAction {
    /// Send this chat-completion request to the model.
    Ask(Json),
    /// Run this tool call.
    Run(ToolCall),
    /// The turn is over; take its outcome with `finish`.
    Finish,
}

/// The abstract value of a [`TurnAction`].
pub enum ActionV {
    Ask(JsonV),
    Run(CallV),
    Finish,
}

impl View for TurnAction {
    type V = ActionV;

    open spec fn view(&self) -> ActionV {
        match self {
            TurnAction::Ask(body) => ActionV::Ask(body@),
            TurnAction::Run(call) => ActionV::Run(call@),
            TurnAction::Finish => ActionV::Finish,
        }
    }
}

/// What the host hands back.
pub enum TurnEvent {
    /// The model's response, or the text of the error it failed with.
    Replied(Result<Json, String>),
    /// The tool ran (on `substrate`) and produced `output` (its error text on failure).
    ToolDone { substrate: String, output: String },
}

/// How a turn talks to the model. The agent sends messages back sanitized,
/// records what the model thought, and keeps the final reply in the history;
/// the plain document reader sends them as they came and keeps nothing after
/// the final reply.
#[derive(PartialEq, Eq, Structural, Clone, Copy, Debug)]
pub enum Dialect {
    Agent,
    Plain,
}

/// A turn as the contracts see it.
pub struct TurnV {
    pub dialect: Dialect,
    pub model: Seq<char>,
    pub schemas: Seq<JsonV>,
    pub max_rounds: nat,
    pub round: nat,
    pub messages: Seq<JsonV>,
    pub traces: Seq<TraceV>,
    pub steps: Seq<StepV>,
    pub calls: Seq<CallV>,
    pub done_calls: nat,
    pub waiting: Waiting,
    pub reply: Seq<char>,
}

/// `{"content": content, "role": role}`.
pub open spec fn chat_message(role: Seq<char>, content: Seq<char>) -> JsonV {
    JsonV::Object(seq![("content"@, JsonV::Str(content)), ("role"@, JsonV::Str(role))])
}

/// `{"content": output, "role": "tool", "tool_call_id": id}`.
pub open spec fn tool_message(id: Seq<char>, output: Seq<char>) -> JsonV {
    JsonV::Object(
        seq![
            ("content"@, JsonV::Str(output)),
            ("role"@, JsonV::Str("tool"@)),
            ("tool_call_id"@, JsonV::Str(id)),
        ],
    )
}

/// A message as the dialect sends it back to the model.
pub open spec fn outgoing(message: JsonV, dialect: Dialect) -> JsonV {
    match dialect {
        Dialect::Agent => sanitized(message),
        Dialect::Plain => message,
    }
}

/// The chat-completion request: the model, every message as the dialect sends
/// it, and the tool schemas with `tool_choice: auto` when there are any.
pub open spec fn request_body(
    dialect: Dialect,
    model: Seq<char>,
    messages: Seq<JsonV>,
    schemas: Seq<JsonV>,
) -> JsonV {
    JsonV::Object(
        seq![
            ("messages"@, JsonV::Array(messages.map_values(|m: JsonV| outgoing(m, dialect)))),
            ("model"@, JsonV::Str(model)),
        ] + if schemas.len() > 0 {
            seq![("tool_choice"@, JsonV::Str("auto"@)), ("tools"@, JsonV::Array(schemas))]
        } else {
            Seq::empty()
        },
    )
}

/// The reply when every round was spent on tool calls.
pub open spec fn rounds_exhausted() -> Seq<char> {
    "工具调用轮次用尽了。"@
}

/// The reply when the model's final message has no text.
pub open spec fn no_text_reply() -> Seq<char> {
    "（模型没有返回文本）"@
}

/// A thought step.
pub open spec fn think_step(round: nat, text: Seq<char>) -> StepV {
    StepV {
        kind: "think"@,
        round: round as usize,
        text,
        tool: Seq::empty(),
        substrate: Seq::empty(),
        input: Seq::empty(),
        output: Seq::empty(),
    }
}

/// A tool step.
pub open spec fn tool_step(round: nat, call: CallV, substrate: Seq<char>, output: Seq<char>) -> StepV {
    StepV {
        kind: "tool"@,
        round: round as usize,
        text: Seq::empty(),
        tool: call.name,
        substrate,
        input: call.arguments,
        output,
    }
}

/// Starting a round: ask the model while rounds remain, otherwise finish.
pub open spec fn begin_round(s: TurnV) -> (TurnV, ActionV) {
    if s.round < s.max_rounds {
        (
            TurnV { round: s.round + 1, waiting: Waiting::Reply, ..s },
            ActionV::Ask(request_body(s.dialect, s.model, s.messages, s.schemas)),
        )
    } else {
        (TurnV { reply: rounds_exhausted(), waiting: Waiting::Finished, ..s }, ActionV::Finish)
    }
}

/// After the model answered (or failed with the text `e`).
pub open spec fn after_reply(s: TurnV, response: Result<JsonV, Seq<char>>) -> (TurnV, ActionV) {
    match response {
        Err(e) => (TurnV { reply: e, waiting: Waiting::Finished, ..s }, ActionV::Finish),
        Ok(resp) => {
            let m = reply_message(resp);
            match tool_calls_of(m) {
                Some(calls) => {
                    let cs = calls.map_values(|c: JsonV| parsed_call(c));
                    let steps = match (s.dialect, thought_of(m)) {
                        (Dialect::Agent, Some(t)) => s.steps.push(think_step(s.round, t)),
                        _ => s.steps,
                    };
                    (
                        TurnV {
                            steps,
                            messages: s.messages.push(outgoing(m, s.dialect)),
                            calls: cs,
                            done_calls: 0,
                            waiting: Waiting::Tool,
                            ..s
                        },
                        ActionV::Run(cs[0]),
                    )
                },
                None => (
                    TurnV {
                        messages: match s.dialect {
                            Dialect::Agent => s.messages.push(sanitized(m)),
                            Dialect::Plain => s.messages,
                        },
                        reply: text_at(m, "content"@, no_text_reply()),
                        waiting: Waiting::Finished,
                        ..s
                    },
                    ActionV::Finish,
                ),
            }
        },
    }
}

/// After the current tool call ran: record it, then run the next call of the
/// round or start the next round.
pub open spec fn after_tool(s: TurnV, substrate: Seq<char>, output: Seq<char>) -> (TurnV, ActionV) {
    let c = s.calls[s.done_calls as int];
    let s1 = TurnV {
        traces: s.traces.push(TraceV { tool: c.name, substrate, input: c.arguments, output }),
        steps: s.steps.push(tool_step(s.round, c, substrate, output)),
        messages: s.messages.push(tool_message(c.id, output)),
        done_calls: s.done_calls + 1,
        ..s
    };
    if s1.done_calls < s.calls.len() {
        (TurnV { waiting: Waiting::Tool, ..s1 }, ActionV::Run(s.calls[s1.done_calls as int]))
    } else {
        begin_round(s1)
    }
}

/// The state before the first round.
pub open spec fn opening(
    dialect: Dialect,
    messages: Seq<JsonV>,
    max_rounds: nat,
    model: Seq<char>,
    schemas: Seq<JsonV>,
) -> TurnV {
    TurnV {
        dialect,
        model,
        schemas,
        max_rounds,
        round: 0,
        messages,
        traces: Seq::empty(),
        steps: Seq::empty(),
        calls: Seq::empty(),
        done_calls: 0,
        waiting: Waiting::Reply,
        reply: Seq::empty(),
    }
}

/// The agent's opening messages: the system prompt, the compacted history,
/// the user's message.
pub open spec fn opening_messages(
    system: Seq<char>,
    history: Seq<JsonV>,
    user: Seq<char>,
    compaction: CompactionConfig,
) -> Seq<JsonV> {
    seq![chat_message("system"@, system)] + compacted(history, compaction).push(
        chat_message("user"@, user),
    )
}

/// The document reader's opening messages: the history is sent as it is.
pub open spec fn plain_opening_messages(system: Seq<char>, history: Seq<JsonV>, user: Seq<char>) -> Seq<
    JsonV,
> {
    seq![chat_message("system"@, system)] + history.push(chat_message("user"@, user))
}

/// The abstract value of a host's answer.
pub open spec fn event_view(event: TurnEvent) -> EventV {
    match event {
        TurnEvent::Replied(Ok(r)) => EventV::Replied(Ok(r@)),
        TurnEvent::Replied(Err(e)) => EventV::Replied(Err(e@)),
        TurnEvent::ToolDone { substrate, output } => EventV::ToolDone(substrate@, output@),
    }
}

/// A host's answer as the contracts see it.
pub enum EventV {
    Replied(Result<JsonV, Seq<char>>),
    ToolDone(Seq<char>, Seq<char>),
}

/// The next state and action after the host's answer.
pub open spec fn advanced(s: TurnV, event: EventV) -> (TurnV, ActionV) {
    match event {
        EventV::Replied(r) => after_reply(s, r),
        EventV::ToolDone(substrate, output) => after_tool(s, substrate, output),
    }
}

/// Whether `event` answers what the turn waits for.
pub open spec fn answers(waiting: Waiting, event: EventV) -> bool {
    match event {
        EventV::Replied(_) => waiting == Waiting::Reply,
        EventV::ToolDone(_, _) => waiting == Waiting::Tool,
    }
}

/// One turn of the agent loop in progress.
pub struct AgentTurn {
    dialect: Dialect,
    model: String,
    schemas: Vec<Json>,
    max_rounds: usize,
    round: usize,
    messages: Vec<Json>,
    traces: Vec<Trace>,
    steps: Vec<Step>,
    calls: Vec<ToolCall>,
    done_calls: usize,
    waiting: Waiting,
    reply: String,
}

impl View for AgentTurn {
    type V = TurnV;

    closed spec fn view(&self) -> TurnV {
        TurnV {
            dialect: self.dialect,
            model: self.model@,
            schemas: view_items(self.schemas@),
            max_rounds: self.max_rounds as nat,
            round: self.round as nat,
            messages: view_items(self.messages@),
            traces: self.traces@.map_values(|t: Trace| t@),
            steps: self.steps@.map_values(|t: Step| t@),
            calls: self.calls@.map_values(|c: ToolCall| c@),
            done_calls: self.done_calls as nat,
            waiting: self.waiting,
            reply: self.reply@,
        }
    }
}

/// The invariant of a turn's state.
pub open spec fn turn_wf(s: TurnV) -> bool {
    &&& s.done_calls <= s.calls.len()
    &&& s.round <= s.max_rounds
    &&& s.max_rounds <= usize::MAX
    &&& s.waiting == Waiting::Tool ==> s.done_calls < s.calls.len()
}

fn chat_message_exec(role: &str, content: &str) -> (r: Json)
    ensures
        r@ == chat_message(role@, content@),
{
    let fields = vec![
        ("content".to_owned(), Json::Str(content.to_owned())),
        ("role".to_owned(), Json::Str(role.to_owned())),
    ];
    proof {
        lemma_view_fields(fields@);
        assert(view_fields(fields@) =~= seq![("content"@, JsonV::Str(content@)), ("role"@, JsonV::Str(role@))]);
    }
    Json::Object(fields)
}

fn tool_message_exec(id: &str, output: &str) -> (r: Json)
    ensures
        r@ == tool_message(id@, output@),
{
    let fields = vec![
        ("content".to_owned(), Json::Str(output.to_owned())),
        ("role".to_owned(), Json::Str("tool".to_owned())),
        ("tool_call_id".to_owned(), Json::Str(id.to_owned())),
    ];
    proof {
        lemma_view_fields(fields@);
        assert(view_fields(fields@) =~= seq![
            ("content"@, JsonV::Str(output@)),
            ("role"@, JsonV::Str("tool"@)),
            ("tool_call_id"@, JsonV::Str(id@)),
        ]);
    }
    Json::Object(fields)
}

fn outgoing_exec(message: &Json, dialect: Dialect) -> (r: Json)
    ensures
        r@ == outgoing(message@, dialect),
{
    match dialect {
        Dialect::Agent => sanitize_message(message),
        Dialect::Plain => message.deep_clone(),
    }
}

fn copy_all_json(items: &Vec<Json>) -> (r: Vec<Json>)
    ensures
        view_items(r@) == view_items(items@),
{
    let mut out: Vec<Json> = Vec::new();
    let mut i: usize = 0;
    while i < items.len()
        invariant
            i <= items@.len(),
            out@.len() == i,
            forall|j: int| 0 <= j < i ==> (#[trigger] out@[j])@ == items@[j]@,
        decreases items@.len() - i,
    {
        out.push(items[i].deep_clone());
        i = i + 1;
    }
    proof {
        lemma_view_items(out@);
        lemma_view_items(items@);
        assert(view_items(out@) =~= view_items(items@));
    }
    out
}

fn request_body_exec(dialect: Dialect, model: &str, messages: &Vec<Json>, schemas: &Vec<Json>) -> (r: Json)
    ensures
        r@ == request_body(dialect, model@, view_items(messages@), view_items(schemas@)),
{
    let mut sent: Vec<Json> = Vec::new();
    let mut i: usize = 0;
    while i < messages.len()
        invariant
            i <= messages@.len(),
            sent@.len() == i,
            forall|j: int| 0 <= j < i ==> (#[trigger] sent@[j])@ == outgoing(messages@[j]@, dialect),
        decreases messages@.len() - i,
    {
        sent.push(outgoing_exec(&messages[i], dialect));
        i = i + 1;
    }
    proof {
        lemma_view_items(sent@);
        lemma_view_items(messages@);
        assert(view_items(sent@) =~= view_items(messages@).map_values(|m: JsonV| outgoing(m, dialect)));
    }
    let ghost sent_v = view_items(sent@);
    let mut fields: Vec<(String, Json)> = vec![
        ("messages".to_owned(), Json::Array(sent)),
        ("model".to_owned(), Json::Str(model.to_owned())),
    ];
    proof {
        lemma_view_fields(fields@);
        assert(view_fields(fields@) =~= seq![
            ("messages"@, JsonV::Array(sent_v)),
            ("model"@, JsonV::Str(model@)),
        ]);
    }
    if schemas.len() > 0 {
        let ghost before = fields@;
        fields.push(("tool_choice".to_owned(), Json::Str("auto".to_owned())));
        fields.push(("tools".to_owned(), Json::Array(copy_all_json(schemas))));
        proof {
            lemma_view_fields(before);
            lemma_view_fields(fields@);
            lemma_view_items(schemas@);
            assert(view_fields(fields@) =~= view_fields(before) + seq![
                ("tool_choice"@, JsonV::Str("auto"@)),
                ("tools"@, JsonV::Array(view_items(schemas@))),
            ]);
        }
    } else {
        assert(view_fields(fields@) =~= view_fields(fields@) + Seq::<(Seq<char>, JsonV)>::empty());
    }
    Json::Object(fields)
}

impl ToolCall {
    fn copied(&self) -> (r: ToolCall)
        ensures
            r@ == self@,
    {
        ToolCall { id: self.id.clone(), name: self.name.clone(), arguments: self.arguments.clone() }
    }
}

impl AgentTurn {
    /// The invariant of the turn.
    pub closed spec fn wf(&self) -> bool {
        turn_wf(self@) && self.calls@.len() <= usize::MAX
    }

    /// What the turn waits for.
    pub fn waiting(&self) -> (r: Waiting)
        ensures
            r == self@.waiting,
    {
        self.waiting
    }

    fn begin_round(&mut self) -> (r: TurnAction)
        requires
            old(self)@.done_calls == old(self)@.calls.len(),
            old(self)@.round <= old(self)@.max_rounds,
            old(self)@.max_rounds <= usize::MAX,
        ensures
            final(self).wf(),
            (final(self)@, r@) == begin_round(old(self)@),
    {
        if self.round < self.max_rounds {
            self.round = self.round + 1;
            self.waiting = Waiting::Reply;
            let body = request_body_exec(self.dialect, self.model.as_str(), &self.messages, &self.schemas);
            TurnAction::Ask(body)
        } else {
            self.reply = "工具调用轮次用尽了。".to_owned();
            self.waiting = Waiting::Finished;
            TurnAction::Finish
        }
    }

    fn open(
        dialect: Dialect,
        messages: Vec<Json>,
        max_rounds: usize,
        model: &str,
        schemas: Vec<Json>,
    ) -> (r: (AgentTurn, TurnAction))
        ensures
            r.0.wf(),
            (r.0@, r.1@) == begin_round(
                opening(dialect, view_items(messages@), max_rounds as nat, model@, view_items(schemas@)),
            ),
    {
        let mut turn = AgentTurn {
            dialect,
            model: model.to_owned(),
            schemas,
            max_rounds,
            round: 0,
            messages,
            traces: Vec::new(),
            steps: Vec::new(),
            calls: Vec::new(),
            done_calls: 0,
            waiting: Waiting::Reply,
            reply: String::new(),
        };
        proof {
            assert(turn@.traces =~= Seq::<TraceV>::empty());
            assert(turn@.steps =~= Seq::<StepV>::empty());
            assert(turn@.calls =~= Seq::<CallV>::empty());
            assert(turn@ == opening(dialect, view_items(turn.messages@), max_rounds as nat, model@, view_items(turn.schemas@)));
        }
        let action = turn.begin_round();
        (turn, action)
    }

    /// Opens an agent turn: the system prompt, the history compacted by
    /// `compaction`, and the user's message; then asks for the first round.
    pub fn start(
        system: &str,
        history: &[Json],
        user: &str,
        compaction: &CompactionConfig,
        max_rounds: usize,
        model: &str,
        schemas: Vec<Json>,
    ) -> (r: (AgentTurn, TurnAction))
        ensures
            r.0.wf(),
            (r.0@, r.1@) == begin_round(
                opening(
                    Dialect::Agent,
                    opening_messages(system@, view_items(history@), user@, *compaction),
                    max_rounds as nat,
                    model@,
                    view_items(schemas@),
                ),
            ),
    {
        let (kept, _report) = compact(history, compaction);
        let mut messages: Vec<Json> = Vec::new();
        messages.push(chat_message_exec("system", system));
        let ghost first = messages@;
        let mut rest = kept;
        messages.append(&mut rest);
        messages.push(chat_message_exec("user", user));
        proof {
            lemma_view_items(messages@);
            lemma_view_items(kept@);
            assert(view_items(messages@) =~= opening_messages(system@, view_items(history@), user@, *compaction));
        }
        AgentTurn::open(Dialect::Agent, messages, max_rounds, model, schemas)
    }

    /// Opens a document reader's turn: the system prompt, the history as it
    /// is, and the user's message; then asks for the first round.
    pub fn start_plain(
        system: &str,
        history: &[Json],
        user: &str,
        max_rounds: usize,
        model: &str,
        schemas: Vec<Json>,
    ) -> (r: (AgentTurn, TurnAction))
        ensures
            r.0.wf(),
            (r.0@, r.1@) == begin_round(
                opening(
                    Dialect::Plain,
                    plain_opening_messages(system@, view_items(history@), user@),
                    max_rounds as nat,
                    model@,
                    view_items(schemas@),
                ),
            ),
    {
        let mut messages: Vec<Json> = Vec::new();
        messages.push(chat_message_exec("system", system));
        let mut i: usize = 0;
        while i < history.len()
            invariant
                i <= history@.len(),
                messages@.len() == i + 1,
                messages@[0]@ == chat_message("system"@, system@),
                forall|j: int| 0 <= j < i ==> (#[trigger] messages@[j + 1])@ == history@[j]@,
            decreases history@.len() - i,
        {
            messages.push(history[i].deep_clone());
            i = i + 1;
        }
        messages.push(chat_message_exec("user", user));
        proof {
            lemma_view_items(messages@);
            lemma_view_items(history@);
            assert forall|j: int| 0 <= j < messages@.len() implies
                #[trigger] view_items(messages@)[j] == plain_opening_messages(system@, view_items(history@), user@)[j] by {
                if 1 <= j < messages@.len() - 1 {
                    assert(messages@[(j - 1) + 1]@ == history@[j - 1]@);
                }
            }
            assert(view_items(messages@) =~= plain_opening_messages(system@, view_items(history@), user@));
        }
        AgentTurn::open(Dialect::Plain, messages, max_rounds, model, schemas)
    }

    fn after_reply(&mut self, response: Result<Json, String>) -> (r: TurnAction)
        requires
            old(self).wf(),
            old(self)@.waiting == Waiting::Reply,
        ensures
            final(self).wf(),
            (final(self)@, r@) == after_reply(
                old(self)@,
                match response {
                    Ok(v) => Ok(v@),
                    Err(e) => Err(e@),
                },
            ),
    {
        let resp = match response {
            Err(e) => {
                self.reply = e;
                self.waiting = Waiting::Finished;
                return TurnAction::Finish;
            },
            Ok(resp) => resp,
        };
        let m = reply_message_of(&resp);
        let listed = match m.get_array("tool_calls") {
            Some(calls) => if calls.len() > 0 {
                Some(calls)
            } else {
                None
            },
            None => None,
        };
        match listed {
            Some(calls) => {
                let mut parsed: Vec<ToolCall> = Vec::new();
                let mut i: usize = 0;
                while i < calls.len()
                    invariant
                        i <= calls@.len(),
                        parsed@.len() == i,
                        forall|j: int| 0 <= j < i ==> (#[trigger] parsed@[j])@ == parsed_call(calls@[j]@),
                    decreases calls@.len() - i,
                {
                    parsed.push(parse_call(&calls[i]));
                    i = i + 1;
                }
                proof {
                    lemma_view_items(calls@);
                    assert(parsed@.map_values(|c: ToolCall| c@) =~= view_items(calls@).map_values(
                        |c: JsonV| parsed_call(c),
                    ));
                }
                if self.dialect == Dialect::Agent {
                    match thought(&m) {
                        Some(t) => {
                            let ghost before = self.steps@;
                            self.steps.push(
                                Step {
                                    kind: "think".to_owned(),
                                    round: self.round,
                                    text: t,
                                    tool: String::new(),
                                    substrate: String::new(),
                                    input: String::new(),
                                    output: String::new(),
                                },
                            );
                            proof {
                                assert(self.steps@.map_values(|t: Step| t@) =~= before.map_values(
                                    |t: Step| t@,
                                ).push(think_step(self.round as nat, t@)));
                            }
                        },
                        None => {},
                    }
                }
                let ghost before = self.messages@;
                self.messages.push(outgoing_exec(&m, self.dialect));
                proof {
                    lemma_view_items(before);
                    lemma_view_items(self.messages@);
                    assert(view_items(self.messages@) =~= view_items(before).push(outgoing(m@, self.dialect)));
                }
                let first = parsed[0].copied();
                self.calls = parsed;
                self.done_calls = 0;
                self.waiting = Waiting::Tool;
                TurnAction::Run(first)
            },
            None => {
                if self.dialect == Dialect::Agent {
                    let ghost before = self.messages@;
                    self.messages.push(sanitize_message(&m));
                    proof {
                        lemma_view_items(before);
                        lemma_view_items(self.messages@);
                        assert(view_items(self.messages@) =~= view_items(before).push(sanitized(m@)));
                    }
                }
                self.reply = text_at_exec(&m, "content", "（模型没有返回文本）");
                self.waiting = Waiting::Finished;
                TurnAction::Finish
            },
        }
    }

    fn after_tool(&mut self, substrate: String, output: String) -> (r: TurnAction)
        requires
            old(self).wf(),
            old(self)@.waiting == Waiting::Tool,
        ensures
            final(self).wf(),
            (final(self)@, r@) == after_tool(old(self)@, substrate@, output@),
    {
        let ghost s = self@;
        let k = self.done_calls;
        let name = self.calls[k].name.clone();
        let arguments = self.calls[k].arguments.clone();
        let message = tool_message_exec(self.calls[k].id.as_str(), output.as_str());
        proof {
            assert(s.calls[k as int] == self.calls@[k as int]@);
        }
        let ghost traces_before = self.traces@;
        let ghost steps_before = self.steps@;
        let ghost messages_before = self.messages@;
        self.traces.push(
            Trace { tool: name.clone(), substrate: substrate.clone(), input: arguments.clone(), output: output.clone() },
        );
        self.steps.push(
            Step {
                kind: "tool".to_owned(),
                round: self.round,
                text: String::new(),
                tool: name,
                substrate,
                input: arguments,
                output,
            },
        );
        self.messages.push(message);
        self.done_calls = k + 1;
        proof {
            assert(self.traces@.map_values(|t: Trace| t@) =~= traces_before.map_values(|t: Trace| t@).push(
                self.traces@[k as int - k as int + traces_before.len()]@,
            ));
            assert(self.steps@.map_values(|t: Step| t@) =~= steps_before.map_values(|t: Step| t@).push(
                self.steps@[steps_before.len() as int]@,
            ));
            lemma_view_items(messages_before);
            lemma_view_items(self.messages@);
            assert(view_items(self.messages@) =~= view_items(messages_before).push(
                self.messages@[messages_before.len() as int]@,
            ));
        }
        if self.done_calls < self.calls.len() {
            self.waiting = Waiting::Tool;
            TurnAction::Run(self.calls[self.done_calls].copied())
        } else {
            self.begin_round()
        }
    }

    /// Takes the host's answer to the current request and says what to do next.
    pub fn advance(&mut self, event: TurnEvent) -> (r: TurnAction)
        requires
            old(self).wf(),
            answers(old(self)@.waiting, event_view(event)),
        ensures
            final(self).wf(),
            (final(self)@, r@) == advanced(old(self)@, event_view(event)),
    {
        match event {
            TurnEvent::Replied(response) => self.after_reply(response),
            TurnEvent::ToolDone { substrate, output } => self.after_tool(substrate, output),
        }
    }

    /// The outcome of the turn: its reply, traces and steps, and the whole
    /// conversation without the system message.
    pub fn finish(self) -> (r: Turn)
        ensures
            r.reply@ == self@.reply,
            r.traces@.map_values(|t: Trace| t@) == self@.traces,
            r.steps@.map_values(|t: Step| t@) == self@.steps,
            r.session_id is None,
            view_items(r.history@) == after_first(self@.messages),
    {
        finish(self.messages, self.reply, self.traces, self.steps)
    }
}

/// Every message after the first (none of an empty list).
pub open spec fn after_first(messages: Seq<JsonV>) -> Seq<JsonV> {
    if messages.len() == 0 {
        Seq::empty()
    } else {
        messages.skip(1)
    }
}

/// Wraps up a turn: the history is every message after the system prompt.
pub fn finish(messages: Vec<Json>, reply: String, traces: Vec<Trace>, steps: Vec<Step>) -> (r: Turn)
    ensures
        r.reply@ == reply@,
        r.traces@ == traces@,
        r.steps@ == steps@,
        r.session_id is None,
        view_items(r.history@) == after_first(view_items(messages@)),
{
    let mut history: Vec<Json> = Vec::new();
    let mut i: usize = 1;
    while i < messages.len()
        invariant
            1 <= i,
            i <= messages@.len() || i == 1,
            history@.len() == i - 1,
            forall|j: int| 0 <= j < history@.len() ==> (#[trigger] history@[j])@ == messages@[j + 1]@,
        decreases messages@.len() - i,
    {
        history.push(messages[i].deep_clone());
        i = i + 1;
    }
    proof {
        lemma_view_items(history@);
        lemma_view_items(messages@);
        if messages@.len() > 0 {
            assert(i == messages@.len());
            assert(view_items(history@).len() == view_items(messages@).skip(1).len());
            assert forall|j: int| 0 <= j < history@.len() implies #[trigger] view_items(history@)[j]
                == view_items(messages@).skip(1)[j] by {
                assert(view_items(messages@)[j + 1] == messages@[j + 1]@);
            }
            assert(view_items(history@) =~= view_items(messages@).skip(1));
        } else {
            assert(view_items(history@) =~= Seq::<JsonV>::empty());
        }
    }
    Turn { reply, traces, steps, session_id: None, history }
}

/// The text a tool call's outcome shows the model: the output, or the error's text.
pub open spec fn outcome_text(outcome: Result<String, Error>) -> Seq<char> {
    match outcome {
        Ok(t) => t@,
        Err(e) => e.text(),
    }
}

/// Runs the tool call `name(arguments)` on `tools` and reports it as the
/// event a turn expects: the tool's substrate (`?` for an unknown tool) and
/// its output or error text.
pub fn run_tool_call<F: Fn(&str) -> Result<String, Error>>(
    tools: &Toolbox<F>,
    name: &str,
    arguments: &str,
) -> (r: TurnEvent)
    requires
        tools.wf(),
        forall|i: int|
            0 <= i < tools.entries().len() ==> call_requires(
                #[trigger] tools.entries()[i].invoke,
                (arguments,),
            ),
    ensures
        match r {
            TurnEvent::ToolDone { substrate, output } => {
                &&& substrate@ == substrate_or_unknown(tools.entries(), name@)
                &&& match tool_named(tools.entries(), name@) {
                    Some(t) => exists|o: Result<String, Error>|
                        call_ensures(t.invoke, (arguments,), o) && #[trigger] outcome_text(o) == output@,
                    None => output@ == "没有这个工具："@ + name@,
                }
            },
            _ => false,
        },
{
    let substrate = tools.substrate_of(name);
    let outcome = tools.call(name, arguments);
    let output = match &outcome {
        Ok(text) => text.clone(),
        Err(error) => error.message().clone(),
    };
    proof {
        assert(outcome_text(outcome) == output@);
    }
    TurnEvent::ToolDone { substrate, output }
}

} // verus!
