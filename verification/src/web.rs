//! The browser surface's HTTP API: which route a request takes, what its
//! body asks for, and the JSON each answer carries.
//!
//! Listening, reading request bodies and writing responses is the host's part.
use vstd::prelude::*;

use crate::approval::{PendingInstall, PendingInstallV};
use crate::chat::{Step, StepV, Trace, TraceV, Turn, at_key};
use crate::json::{Json, JsonNumber, JsonV, NumberV, lemma_view_fields, lemma_view_items, parse_json, view_fields, view_items, json_parse};
use crate::roster::{PluginInfo, PluginV};
use crate::text::{str_eq, to_chars, from_chars, trim, trimmed};
use crate::toolbox::ToolInfo;

verus! {

/// The HTTP methods the API tells apart.
#[derive(PartialEq, Eq, Structural, Clone, Copy, Debug)]
pub enum HttpMethod {
    Get,
    Post,
    Other,
}

/// Where a request goes.
#[derive(PartialEq, Eq, Structural, Clone, Copy, Debug)]
pub enum Route {
    /// `GET /`: the page.
    Index,
    /// `GET /api/status`.
    Status,
    /// `GET /api/creation/pending`.
    Pending,
    /// `POST /api/creation/approve`.
    Approve,
    /// `GET /api/doc`.
    Doc,
    /// `POST /api/chat`.
    Chat,
    /// Anything else: 404.
    NotFound,
}

/// The part of a URL before its query string.
pub open spec fn path_part(url: Seq<char>) -> Seq<char> {
    match crate::text::first_occurrence(url, seq!['?']) {
        Some(k) => url.subrange(0, k),
        None => url,
    }
}

/// The route of a request for `path`.
pub open spec fn route_of(method: HttpMethod, path: Seq<char>) -> Route {
    if method == HttpMethod::Get && path == "/"@ {
        Route::Index
    } else if method == HttpMethod::Get && path == "/api/status"@ {
        Route::Status
    } else if method == HttpMethod::Get && path == "/api/creation/pending"@ {
        Route::Pending
    } else if method == HttpMethod::Post && path == "/api/creation/approve"@ {
        Route::Approve
    } else if method == HttpMethod::Get && path == "/api/doc"@ {
        Route::Doc
    } else if method == HttpMethod::Post && path == "/api/chat"@ {
        Route::Chat
    } else {
        Route::NotFound
    }
}

/// The part of `url` before its query string.
pub fn url_path(url: &str) -> (r: String)
    ensures
        r@ == path_part(url@),
{
    let chars = to_chars(url);
    let mut question: Vec<char> = Vec::new();
    question.push('?');
    match crate::text::find_chars(&chars, &question) {
        Some(k) => {
            proof {
                crate::text::lemma_find_from(chars@, question@, 0);
            }
            let mut out: Vec<char> = Vec::new();
            let mut i: usize = 0;
            while i < k
                invariant
                    k <= chars@.len(),
                    i <= k,
                    out@ == chars@.subrange(0, i as int),
                decreases k - i,
            {
                out.push(chars[i]);
                i = i + 1;
                assert(out@ =~= chars@.subrange(0, i as int));
            }
            proof {
                crate::text::lemma_find_from(chars@, question@, 0);
                assert(question@ =~= seq!['?']);
            }
            from_chars(&out)
        },
        None => {
            assert(question@ =~= seq!['?']);
            url.to_owned()
        },
    }
}

/// The route a request takes.
pub fn route(method: HttpMethod, url: &str) -> (r: Route)
    ensures
        r == route_of(method, path_part(url@)),
{
    let path = url_path(url);
    let p = path.as_str();
    if method == HttpMethod::Get && str_eq(p, "/") {
        Route::Index
    } else if method == HttpMethod::Get && str_eq(p, "/api/status") {
        Route::Status
    } else if method == HttpMethod::Get && str_eq(p, "/api/creation/pending") {
        Route::Pending
    } else if method == HttpMethod::Post && str_eq(p, "/api/creation/approve") {
        Route::Approve
    } else if method == HttpMethod::Get && str_eq(p, "/api/doc") {
        Route::Doc
    } else if method == HttpMethod::Post && str_eq(p, "/api/chat") {
        Route::Chat
    } else {
        Route::NotFound
    }
}

/// A request body read as JSON; anything unreadable counts as `{}`.
pub open spec fn payload_of(body: Seq<char>) -> JsonV {
    match json_parse(body) {
        Ok(v) => v,
        Err(_) => JsonV::Object(Seq::empty()),
    }
}

fn payload(body: &str) -> (r: Json)
    ensures
        r@ == payload_of(body@),
{
    match parse_json(body) {
        Ok(v) => v,
        Err(_) => {
            let empty: Vec<(String, Json)> = Vec::new();
            proof {
                lemma_view_fields(empty@);
                assert(view_fields(empty@) =~= Seq::<(Seq<char>, JsonV)>::empty());
            }
            Json::Object(empty)
        },
    }
}

/// What a chat request asks: the trimmed `message` (empty when missing) and
/// the `history` array (empty when missing).
pub open spec fn chat_request_of(body: Seq<char>) -> (Seq<char>, Seq<JsonV>) {
    let p = payload_of(body);
    (
        trimmed(
            match at_key(p, "message"@).text() {
                Some(t) => t,
                None => Seq::empty(),
            },
        ),
        match at_key(p, "history"@).items() {
            Some(items) => items,
            None => Seq::empty(),
        },
    )
}

/// Reads a chat request body; an empty message is refused with 400 `空消息`.
pub fn chat_input(body: &str) -> (r: Result<(String, Vec<Json>), (u16, String)>)
    ensures
        match r {
            Ok((user, history)) => chat_request_of(body@).0.len() > 0 && user@ == chat_request_of(body@).0
                && view_items(history@) == chat_request_of(body@).1,
            Err((code, message)) => chat_request_of(body@).0.len() == 0 && code == 400 && message@
                == "空消息"@,
        },
{
    let p = payload(body);
    let text: &str = match p.get("message") {
        Some(m) => match m.as_str() {
            Some(t) => t,
            None => "",
        },
        None => "",
    };
    proof {
        reveal_strlit("");
    }
    let user = trim(text);
    if user.as_str().unicode_len() == 0 {
        return Err((400, "空消息".to_owned()));
    }
    let mut history: Vec<Json> = Vec::new();
    match p.get("history") {
        Some(Json::Array(items)) => {
            let mut i: usize = 0;
            while i < items.len()
                invariant
                    i <= items@.len(),
                    history@.len() == i,
                    forall|j: int| 0 <= j < i ==> (#[trigger] history@[j])@ == items@[j]@,
                decreases items@.len() - i,
            {
                history.push(items[i].deep_clone());
                i = i + 1;
            }
            proof {
                lemma_view_items(history@);
                lemma_view_items(items@);
                assert(view_items(history@) =~= view_items(items@));
            }
        },
        _ => {
            proof {
                lemma_view_items(history@);
                assert(view_items(history@) =~= Seq::<JsonV>::empty());
            }
        },
    }
    Ok((user, history))
}

/// Whether an approval request approves (`approve: true`) rather than rejects.
pub open spec fn approves(body: Seq<char>) -> bool {
    at_key(payload_of(body), "approve"@).boolean() == Some(true)
}

/// Reads an approval request body.
pub fn approve_requested(body: &str) -> (r: bool)
    ensures
        r == approves(body@),
{
    let p = payload(body);
    match p.get("approve") {
        Some(v) => match v.as_bool() {
            Some(b) => b,
            None => false,
        },
        None => false,
    }
}

/// `{"error": message}`.
pub open spec fn error_value(message: Seq<char>) -> JsonV {
    JsonV::Object(seq![("error"@, JsonV::Str(message))])
}

/// The body of a refused request.
pub fn error_body(message: &str) -> (r: Json)
    ensures
        r@ == error_value(message@),
{
    let fields = vec![("error".to_owned(), Json::Str(message.to_owned()))];
    proof {
        lemma_view_fields(fields@);
        assert(view_fields(fields@) =~= seq![("error"@, JsonV::Str(message@))]);
    }
    Json::Object(fields)
}

/// The answer to a request no route takes: 404 with `{"error": "没有这条路"}`.
pub fn no_route() -> (r: (u16, Json))
    ensures
        r.0 == 404,
        r.1@ == error_value("没有这条路"@),
{
    (404, error_body("没有这条路"))
}

/// `{"message": message, "ok": true}`.
pub open spec fn done_value(message: Seq<char>) -> JsonV {
    JsonV::Object(seq![("message"@, JsonV::Str(message)), ("ok"@, JsonV::Bool(true))])
}

/// The body of a decided approval.
pub fn done_body(message: &str) -> (r: Json)
    ensures
        r@ == done_value(message@),
{
    let fields = vec![("message".to_owned(), Json::Str(message.to_owned())), ("ok".to_owned(), Json::Bool(true))];
    proof {
        lemma_view_fields(fields@);
        assert(view_fields(fields@) =~= seq![("message"@, JsonV::Str(message@)), ("ok"@, JsonV::Bool(true))]);
    }
    Json::Object(fields)
}

/// A count as a JSON number.
pub open spec fn count_value(n: usize) -> JsonV {
    JsonV::Number(NumberV::PosInt(n as u64))
}

/// A waiting proposal as the page shows it (`source_lines` only when known).
pub open spec fn pending_value(p: PendingInstallV) -> JsonV {
    JsonV::Object(
        seq![("id"@, JsonV::Str(p.id)), ("kind"@, JsonV::Str(p.kind)), ("preview"@, JsonV::Str(p.preview)), (
            "session_id"@,
            JsonV::Str(p.session_id),
        )] + match p.source_lines {
            Some(n) => seq![("source_lines"@, count_value(n))],
            None => Seq::empty(),
        } + seq![("summary"@, JsonV::Str(p.summary))],
    )
}

/// A waiting proposal as JSON.
pub fn pending_json(p: &PendingInstall) -> (r: Json)
    ensures
        r@ == pending_value(p@),
{
    let mut fields: Vec<(String, Json)> = Vec::new();
    fields.push(("id".to_owned(), Json::Str(p.id.clone())));
    fields.push(("kind".to_owned(), Json::Str(p.kind.clone())));
    fields.push(("preview".to_owned(), Json::Str(p.preview.clone())));
    fields.push(("session_id".to_owned(), Json::Str(p.session_id.clone())));
    let ghost head = fields@;
    match p.source_lines {
        Some(n) => {
            fields.push(("source_lines".to_owned(), Json::Number(JsonNumber::PosInt(n as u64))));
        },
        None => {},
    }
    let ghost mid = fields@;
    fields.push(("summary".to_owned(), Json::Str(p.summary.clone())));
    proof {
        lemma_view_fields(head);
        lemma_view_fields(mid);
        lemma_view_fields(fields@);
        let lines = match p.source_lines {
            Some(n) => seq![("source_lines"@, count_value(n))],
            None => Seq::<(Seq<char>, JsonV)>::empty(),
        };
        assert(view_fields(head) =~= seq![("id"@, JsonV::Str(p.id@)), ("kind"@, JsonV::Str(p.kind@)), (
            "preview"@,
            JsonV::Str(p.preview@),
        ), ("session_id"@, JsonV::Str(p.session_id@))]);
        assert(view_fields(mid) =~= view_fields(head) + lines);
        assert(view_fields(fields@) =~= view_fields(mid) + seq![("summary"@, JsonV::Str(p.summary@))]);
    }
    Json::Object(fields)
}

/// A tool as the page lists it.
pub open spec fn tool_value(name: Seq<char>, description: Seq<char>, substrate: Seq<char>) -> JsonV {
    JsonV::Object(
        seq![("description"@, JsonV::Str(description)), ("name"@, JsonV::Str(name)), (
            "substrate"@,
            JsonV::Str(substrate),
        )],
    )
}

/// The tools as the page lists them.
pub fn tools_json(tools: &Vec<ToolInfo>) -> (r: Json)
    ensures
        r@ == JsonV::Array(
            tools@.map_values(|t: ToolInfo| tool_value(t.name@, t.description@, t.substrate@)),
        ),
{
    let mut out: Vec<Json> = Vec::new();
    let mut i: usize = 0;
    while i < tools.len()
        invariant
            i <= tools@.len(),
            out@.len() == i,
            forall|j: int|
                0 <= j < i ==> (#[trigger] out@[j])@ == tool_value(
                    tools@[j].name@,
                    tools@[j].description@,
                    tools@[j].substrate@,
                ),
        decreases tools@.len() - i,
    {
        let t = &tools[i];
        let fields = vec![
            ("description".to_owned(), Json::Str(t.description.clone())),
            ("name".to_owned(), Json::Str(t.name.clone())),
            ("substrate".to_owned(), Json::Str(t.substrate.clone())),
        ];
        proof {
            lemma_view_fields(fields@);
            assert(view_fields(fields@) =~= seq![("description"@, JsonV::Str(t.description@)), (
                "name"@,
                JsonV::Str(t.name@),
            ), ("substrate"@, JsonV::Str(t.substrate@))]);
        }
        out.push(Json::Object(fields));
        i = i + 1;
    }
    proof {
        lemma_view_items(out@);
        assert(view_items(out@) =~= tools@.map_values(
            |t: ToolInfo| tool_value(t.name@, t.description@, t.substrate@),
        ));
    }
    Json::Array(out)
}

/// A plugin as the page lists it.
pub open spec fn plugin_value(p: PluginV) -> JsonV {
    JsonV::Object(
        seq![("name"@, JsonV::Str(p.name)), ("role"@, JsonV::Str(p.role)), ("substrate"@, JsonV::Str(p.substrate))],
    )
}

/// The plugins as the page lists them.
pub fn plugins_json(plugins: &Vec<PluginInfo>) -> (r: Json)
    ensures
        r@ == JsonV::Array(plugins@.map_values(|p: PluginInfo| plugin_value(p@))),
{
    let mut out: Vec<Json> = Vec::new();
    let mut i: usize = 0;
    while i < plugins.len()
        invariant
            i <= plugins@.len(),
            out@.len() == i,
            forall|j: int| 0 <= j < i ==> (#[trigger] out@[j])@ == plugin_value(plugins@[j]@),
        decreases plugins@.len() - i,
    {
        let p = &plugins[i];
        let fields = vec![
            ("name".to_owned(), Json::Str(p.name.clone())),
            ("role".to_owned(), Json::Str(p.role.clone())),
            ("substrate".to_owned(), Json::Str(p.substrate.clone())),
        ];
        proof {
            lemma_view_fields(fields@);
            assert(view_fields(fields@) =~= seq![("name"@, JsonV::Str(p.name@)), ("role"@, JsonV::Str(p.role@)), (
                "substrate"@,
                JsonV::Str(p.substrate@),
            )]);
        }
        out.push(Json::Object(fields));
        i = i + 1;
    }
    proof {
        lemma_view_items(out@);
        assert(view_items(out@) =~= plugins@.map_values(|p: PluginInfo| plugin_value(p@)));
    }
    Json::Array(out)
}

/// `{"path": path, "text": text}`.
pub open spec fn doc_value(path: Seq<char>, text: Seq<char>) -> JsonV {
    JsonV::Object(seq![("path"@, JsonV::Str(path)), ("text"@, JsonV::Str(text))])
}

/// The body of `GET /api/doc`.
pub fn doc_body(path: &str, text: &str) -> (r: Json)
    ensures
        r@ == doc_value(path@, text@),
{
    let fields = vec![("path".to_owned(), Json::Str(path.to_owned())), ("text".to_owned(), Json::Str(text.to_owned()))];
    proof {
        lemma_view_fields(fields@);
        assert(view_fields(fields@) =~= seq![("path"@, JsonV::Str(path@)), ("text"@, JsonV::Str(text@))]);
    }
    Json::Object(fields)
}

/// A waiting proposal or null.
pub open spec fn maybe_pending(p: Option<PendingInstallV>) -> JsonV {
    match p {
        Some(p) => pending_value(p),
        None => JsonV::Null,
    }
}

/// The body of `GET /api/creation/pending`.
pub fn pending_body(p: Option<&PendingInstall>) -> (r: Json)
    ensures
        r@ == JsonV::Object(seq![("pending"@, maybe_pending(
            match p {
                Some(x) => Some(x@),
                None => None,
            },
        ))]),
{
    let v = match p {
        Some(x) => pending_json(x),
        None => Json::Null,
    };
    let ghost vv = v@;
    let fields = vec![("pending".to_owned(), v)];
    proof {
        lemma_view_fields(fields@);
        assert(view_fields(fields@) =~= seq![("pending"@, vv)]);
    }
    Json::Object(fields)
}

/// What the status endpoint reports.
pub struct StatusReport<'a> {
    pub doc: &'a str,
    pub model: &'a str,
    pub has_key: bool,
    pub surface: &'a str,
    pub creation: bool,
    pub workspace: &'a str,
    pub pending: Option<&'a PendingInstall>,
    pub tools: &'a Vec<ToolInfo>,
    pub plugins: &'a Vec<PluginInfo>,
}

/// The body of `GET /api/status`.
pub open spec fn status_value(
    doc: Seq<char>,
    model: Seq<char>,
    has_key: bool,
    surface: Seq<char>,
    creation: bool,
    workspace: Seq<char>,
    pending: Option<PendingInstallV>,
    tools: JsonV,
    plugins: JsonV,
) -> JsonV {
    JsonV::Object(
        seq![
            ("creation"@, JsonV::Bool(creation)),
            ("doc"@, JsonV::Str(doc)),
            ("has_key"@, JsonV::Bool(has_key)),
            ("model"@, JsonV::Str(model)),
            ("pending"@, maybe_pending(pending)),
            ("plugins"@, plugins),
            ("surface"@, JsonV::Str(surface)),
            ("tools"@, tools),
            ("workspace"@, JsonV::Str(workspace)),
        ],
    )
}

/// The body of `GET /api/status`: the document, the model, whether a key is
/// set, the surface, the mode, the workspace, the first waiting proposal, the
/// tools and the plugins.
pub fn status_body(report: StatusReport<'_>) -> (r: Json)
    ensures
        r@ == status_value(
            report.doc@,
            report.model@,
            report.has_key,
            report.surface@,
            report.creation,
            report.workspace@,
            match report.pending {
                Some(p) => Some(p@),
                None => None,
            },
            JsonV::Array(
                report.tools@.map_values(|t: ToolInfo| tool_value(t.name@, t.description@, t.substrate@)),
            ),
            JsonV::Array(report.plugins@.map_values(|p: PluginInfo| plugin_value(p@))),
        ),
{
    let pending = match report.pending {
        Some(p) => pending_json(p),
        None => Json::Null,
    };
    let plugins = plugins_json(report.plugins);
    let tools = tools_json(report.tools);
    let ghost (pv, plv, tv) = (pending@, plugins@, tools@);
    let fields = vec![
        ("creation".to_owned(), Json::Bool(report.creation)),
        ("doc".to_owned(), Json::Str(report.doc.to_owned())),
        ("has_key".to_owned(), Json::Bool(report.has_key)),
        ("model".to_owned(), Json::Str(report.model.to_owned())),
        ("pending".to_owned(), pending),
        ("plugins".to_owned(), plugins),
        ("surface".to_owned(), Json::Str(report.surface.to_owned())),
        ("tools".to_owned(), tools),
        ("workspace".to_owned(), Json::Str(report.workspace.to_owned())),
    ];
    proof {
        lemma_view_fields(fields@);
        assert(view_fields(fields@) =~= seq![
            ("creation"@, JsonV::Bool(report.creation)),
            ("doc"@, JsonV::Str(report.doc@)),
            ("has_key"@, JsonV::Bool(report.has_key)),
            ("model"@, JsonV::Str(report.model@)),
            ("pending"@, pv),
            ("plugins"@, plv),
            ("surface"@, JsonV::Str(report.surface@)),
            ("tools"@, tv),
            ("workspace"@, JsonV::Str(report.workspace@)),
        ]);
    }
    Json::Object(fields)
}

/// A trace as JSON.
pub open spec fn trace_value(t: TraceV) -> JsonV {
    JsonV::Object(
        seq![
            ("input"@, JsonV::Str(t.input)),
            ("output"@, JsonV::Str(t.output)),
            ("substrate"@, JsonV::Str(t.substrate)),
            ("tool"@, JsonV::Str(t.tool)),
        ],
    )
}

/// A member holding `text`, left out when the text is empty.
pub open spec fn unless_empty(key: Seq<char>, text: Seq<char>) -> Seq<(Seq<char>, JsonV)> {
    if text.len() == 0 {
        Seq::empty()
    } else {
        seq![(key, JsonV::Str(text))]
    }
}

/// A step as JSON; its empty texts are left out.
pub open spec fn step_value(s: StepV) -> JsonV {
    JsonV::Object(
        unless_empty("input"@, s.input) + seq![("kind"@, JsonV::Str(s.kind))] + unless_empty(
            "output"@,
            s.output,
        ) + seq![("round"@, count_value(s.round))] + unless_empty("substrate"@, s.substrate)
            + unless_empty("text"@, s.text) + unless_empty("tool"@, s.tool),
    )
}

fn push_unless_empty(fields: &mut Vec<(String, Json)>, key: &str, text: &String)
    ensures
        view_fields(final(fields)@) == view_fields(old(fields)@) + unless_empty(key@, text@),
{
    let ghost before = fields@;
    if text.as_str().unicode_len() > 0 {
        fields.push((key.to_owned(), Json::Str(text.clone())));
    }
    proof {
        lemma_view_fields(before);
        lemma_view_fields(fields@);
        assert(view_fields(fields@) =~= view_fields(before) + unless_empty(key@, text@));
    }
}

fn push_field(fields: &mut Vec<(String, Json)>, key: &str, value: Json)
    ensures
        view_fields(final(fields)@) == view_fields(old(fields)@) + seq![(key@, value@)],
{
    let ghost before = fields@;
    let ghost v = value@;
    fields.push((key.to_owned(), value));
    proof {
        lemma_view_fields(before);
        lemma_view_fields(fields@);
        assert(view_fields(fields@) =~= view_fields(before) + seq![(key@, v)]);
    }
}

fn step_json(s: &Step) -> (r: Json)
    ensures
        r@ == step_value(s@),
{
    let mut fields: Vec<(String, Json)> = Vec::new();
    proof {
        lemma_view_fields(fields@);
        assert(view_fields(fields@) =~= Seq::<(Seq<char>, JsonV)>::empty());
    }
    push_unless_empty(&mut fields, "input", &s.input);
    push_field(&mut fields, "kind", Json::Str(s.kind.clone()));
    push_unless_empty(&mut fields, "output", &s.output);
    push_field(&mut fields, "round", Json::Number(JsonNumber::PosInt(s.round as u64)));
    push_unless_empty(&mut fields, "substrate", &s.substrate);
    push_unless_empty(&mut fields, "text", &s.text);
    push_unless_empty(&mut fields, "tool", &s.tool);
    proof {
        assert(view_fields(fields@) =~= match step_value(s@) {
            JsonV::Object(f) => f,
            _ => Seq::empty(),
        });
    }
    Json::Object(fields)
}

fn trace_json(t: &Trace) -> (r: Json)
    ensures
        r@ == trace_value(t@),
{
    let fields = vec![
        ("input".to_owned(), Json::Str(t.input.clone())),
        ("output".to_owned(), Json::Str(t.output.clone())),
        ("substrate".to_owned(), Json::Str(t.substrate.clone())),
        ("tool".to_owned(), Json::Str(t.tool.clone())),
    ];
    proof {
        lemma_view_fields(fields@);
        assert(view_fields(fields@) =~= seq![
            ("input"@, JsonV::Str(t.input@)),
            ("output"@, JsonV::Str(t.output@)),
            ("substrate"@, JsonV::Str(t.substrate@)),
            ("tool"@, JsonV::Str(t.tool@)),
        ]);
    }
    Json::Object(fields)
}

/// A turn as the chat endpoint returns it.
pub open spec fn turn_value(
    reply: Seq<char>,
    traces: Seq<TraceV>,
    steps: Seq<StepV>,
    session_id: Option<Seq<char>>,
    history: Seq<JsonV>,
) -> JsonV {
    JsonV::Object(
        seq![
            ("history"@, JsonV::Array(history)),
            ("reply"@, JsonV::Str(reply)),
            ("session_id"@, match session_id {
                Some(s) => JsonV::Str(s),
                None => JsonV::Null,
            }),
            ("steps"@, JsonV::Array(steps.map_values(|s: StepV| step_value(s)))),
            ("traces"@, JsonV::Array(traces.map_values(|t: TraceV| trace_value(t)))),
        ],
    )
}

/// The body of a chat answer.
pub fn turn_json(turn: &Turn) -> (r: Json)
    ensures
        r@ == turn_value(
            turn.reply@,
            turn.traces@.map_values(|t: Trace| t@),
            turn.steps@.map_values(|s: Step| s@),
            match &turn.session_id {
                Some(s) => Some(s@),
                None => None,
            },
            view_items(turn.history@),
        ),
{
    let mut history: Vec<Json> = Vec::new();
    let mut i: usize = 0;
    while i < turn.history.len()
        invariant
            i <= turn.history@.len(),
            history@.len() == i,
            forall|j: int| 0 <= j < i ==> (#[trigger] history@[j])@ == turn.history@[j]@,
        decreases turn.history@.len() - i,
    {
        history.push(turn.history[i].deep_clone());
        i = i + 1;
    }
    let mut steps: Vec<Json> = Vec::new();
    let mut i: usize = 0;
    while i < turn.steps.len()
        invariant
            i <= turn.steps@.len(),
            steps@.len() == i,
            forall|j: int| 0 <= j < i ==> (#[trigger] steps@[j])@ == step_value(turn.steps@[j]@),
        decreases turn.steps@.len() - i,
    {
        steps.push(step_json(&turn.steps[i]));
        i = i + 1;
    }
    let mut traces: Vec<Json> = Vec::new();
    let mut i: usize = 0;
    while i < turn.traces.len()
        invariant
            i <= turn.traces@.len(),
            traces@.len() == i,
            forall|j: int| 0 <= j < i ==> (#[trigger] traces@[j])@ == trace_value(turn.traces@[j]@),
        decreases turn.traces@.len() - i,
    {
        traces.push(trace_json(&turn.traces[i]));
        i = i + 1;
    }
    proof {
        lemma_view_items(history@);
        lemma_view_items(turn.history@);
        lemma_view_items(steps@);
        lemma_view_items(traces@);
        assert(view_items(history@) =~= view_items(turn.history@));
        assert(view_items(steps@) =~= turn.steps@.map_values(|s: Step| s@).map_values(|s: StepV| step_value(s)));
        assert(view_items(traces@) =~= turn.traces@.map_values(|t: Trace| t@).map_values(
            |t: TraceV| trace_value(t),
        ));
    }
    let session = match &turn.session_id {
        Some(s) => Json::Str(s.clone()),
        None => Json::Null,
    };
    let ghost (hv, sv, stv, tv) = (view_items(history@), session@, view_items(steps@), view_items(traces@));
    let fields = vec![
        ("history".to_owned(), Json::Array(history)),
        ("reply".to_owned(), Json::Str(turn.reply.clone())),
        ("session_id".to_owned(), session),
        ("steps".to_owned(), Json::Array(steps)),
        ("traces".to_owned(), Json::Array(traces)),
    ];
    proof {
        lemma_view_fields(fields@);
        assert(view_fields(fields@) =~= seq![
            ("history"@, JsonV::Array(hv)),
            ("reply"@, JsonV::Str(turn.reply@)),
            ("session_id"@, sv),
            ("steps"@, JsonV::Array(stv)),
            ("traces"@, JsonV::Array(tv)),
        ]);
        assert(sv == match turn.session_id {
            Some(s) => JsonV::Str(s@),
            None => JsonV::Null,
        });
        assert(hv == view_items(turn.history@));
        assert(stv == turn.steps@.map_values(|s: Step| s@).map_values(|s: StepV| step_value(s)));
    }
    let ghost fv = view_fields(fields@);
    let r = Json::Object(fields);
    proof {
        assert(r@ == JsonV::Object(fv));
        assert(tv == turn.traces@.map_values(|t: Trace| t@).map_values(|t: TraceV| trace_value(t)));
        let tvv = turn_value(
            turn.reply@,
            turn.traces@.map_values(|t: Trace| t@),
            turn.steps@.map_values(|s: Step| s@),
            match &turn.session_id {
                Some(s) => Some(s@),
                None => None,
            },
            view_items(turn.history@),
        );
        let tf = match tvv { JsonV::Object(f) => f, _ => Seq::empty() };
        assert(fv =~= tf);
        assert(r@ == tvv);
    }
    r
}

} // verus!
