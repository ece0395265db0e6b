//! The NDJSON protocol between the host and a guest process.
//!
//! Requests: `{"id":1,"op":"load","capabilities":{..}}`,
//! `{"id":2,"op":"invoke","name":..,"args":..}`, `{"id":3,"op":"unload"}`.
//! The guest answers each with `{"id", "ok", ..}` on one line.
use vstd::prelude::*;

use crate::approval::{string_items, strings_of};
use crate::error::Error;
use crate::json::{
    Json, JsonNumber, JsonV, NumberV, json_parse, lemma_view_fields, lemma_view_items, parse_json, view_fields, view_items,
};

verus! {

/// `{"capabilities": caps, "id": id, "op": "load"}`.
pub open spec fn load_request_value(id: u64, capabilities: Seq<(Seq<char>, JsonV)>) -> JsonV {
    JsonV::Object(
        seq![
            ("capabilities"@, JsonV::Object(capabilities)),
            ("id"@, JsonV::Number(NumberV::PosInt(id))),
            ("op"@, JsonV::Str("load"@)),
        ],
    )
}

/// `{"args": args, "id": id, "name": name, "op": "invoke"}`.
pub open spec fn invoke_request_value(id: u64, name: Seq<char>, args: Seq<char>) -> JsonV {
    JsonV::Object(
        seq![
            ("args"@, JsonV::Str(args)),
            ("id"@, JsonV::Number(NumberV::PosInt(id))),
            ("name"@, JsonV::Str(name)),
            ("op"@, JsonV::Str("invoke"@)),
        ],
    )
}

/// `{"id": id, "op": "unload"}`.
pub open spec fn unload_request_value(id: u64) -> JsonV {
    JsonV::Object(seq![("id"@, JsonV::Number(NumberV::PosInt(id))), ("op"@, JsonV::Str("unload"@))])
}

/// The `load` request, carrying the capability snapshot.
pub fn load_request(id: u64, capabilities: Vec<(String, Json)>) -> (r: Json)
    ensures
        r@ == load_request_value(id, view_fields(capabilities@)),
{
    let ghost caps = view_fields(capabilities@);
    let mut fields: Vec<(String, Json)> = Vec::new();
    fields.push(("capabilities".to_owned(), Json::Object(capabilities)));
    fields.push(("id".to_owned(), Json::Number(JsonNumber::PosInt(id))));
    fields.push(("op".to_owned(), Json::Str("load".to_owned())));
    proof {
        lemma_view_fields(fields@);
        assert(view_fields(fields@) =~= match load_request_value(id, caps) {
            JsonV::Object(f) => f,
            _ => Seq::empty(),
        });
    }
    Json::Object(fields)
}

/// The `invoke` request for tool `name`.
pub fn invoke_request(id: u64, name: &str, args: &str) -> (r: Json)
    ensures
        r@ == invoke_request_value(id, name@, args@),
{
    let mut fields: Vec<(String, Json)> = Vec::new();
    fields.push(("args".to_owned(), Json::Str(args.to_owned())));
    fields.push(("id".to_owned(), Json::Number(JsonNumber::PosInt(id))));
    fields.push(("name".to_owned(), Json::Str(name.to_owned())));
    fields.push(("op".to_owned(), Json::Str("invoke".to_owned())));
    proof {
        lemma_view_fields(fields@);
        assert(view_fields(fields@) =~= match invoke_request_value(id, name@, args@) {
            JsonV::Object(f) => f,
            _ => Seq::empty(),
        });
    }
    Json::Object(fields)
}

/// The `unload` request.
pub fn unload_request(id: u64) -> (r: Json)
    ensures
        r@ == unload_request_value(id),
{
    let mut fields: Vec<(String, Json)> = Vec::new();
    fields.push(("id".to_owned(), Json::Number(JsonNumber::PosInt(id))));
    fields.push(("op".to_owned(), Json::Str("unload".to_owned())));
    proof {
        lemma_view_fields(fields@);
        assert(view_fields(fields@) =~= match unload_request_value(id) {
            JsonV::Object(f) => f,
            _ => Seq::empty(),
        });
    }
    Json::Object(fields)
}

/// The request numbering of one guest session.
pub struct Session {
    next_id: u64,
}

impl Session {
    /// The id the next request gets unless it carries its own.
    pub closed spec fn upcoming(self) -> u64 {
        self.next_id
    }

    /// A session whose first request is number 1.
    pub fn new() -> (r: Self)
        ensures
            r.upcoming() == 1,
    {
        Session { next_id: 1 }
    }

    /// Hands out the next request id; ids count up and stop at `u64::MAX`.
    pub fn next_id(&mut self) -> (id: u64)
        ensures
            id == old(self).upcoming(),
            final(self).upcoming() == if id == u64::MAX { u64::MAX } else { (id + 1) as u64 },
    {
        let id = self.next_id;
        self.next_id = id.saturating_add(1);
        id
    }

    /// The id a request goes out with: its own `id` when it has one, the
    /// session's next id otherwise; numbering continues after it.
    pub fn claim_id(&mut self, request: &Json) -> (id: u64)
        ensures
            id == match request@.u64_member("id"@) {
                Some(n) => n,
                None => old(self).upcoming(),
            },
            final(self).upcoming() == if id == u64::MAX { u64::MAX } else { (id + 1) as u64 },
    {
        let id = match request.get_u64("id") {
            Some(n) => n,
            None => self.next_id,
        };
        self.next_id = id.saturating_add(1);
        id
    }
}

/// The error a failed answer carries: its `error` text, or a generic one.
pub open spec fn failure_text(response: JsonV) -> Seq<char> {
    match response.str_member("error"@) {
        Some(t) => t,
        None => "guest 失败"@,
    }
}

/// Whether the guest answered `"ok": true`.
pub open spec fn answered_ok(response: JsonV) -> bool {
    response.bool_member("ok"@) == Some(true)
}

/// Succeeds when the guest answered `"ok": true`; otherwise fails with its `error` text.
pub fn expect_ok(response: &Json) -> (r: Result<(), Error>)
    ensures
        r is Ok <==> answered_ok(response@),
        r is Err ==> r->Err_0 is Component && r->Err_0.text() == failure_text(response@),
{
    match response.get_bool("ok") {
        Some(true) => Ok(()),
        _ => {
            let message = match response.get_str("error") {
                Some(t) => t,
                None => "guest 失败",
            };
            Err(Error::Component(message.to_owned()))
        },
    }
}

/// The guest's log lines: the string items of `logs`.
pub fn take_logs(response: &Json) -> (r: Vec<String>)
    ensures
        r@.map_values(|s: String| s@) == match response@.array_member("logs"@) {
            Some(items) => string_items(items),
            None => Seq::empty(),
        },
{
    match response.get_array("logs") {
        Some(items) => strings_of(items),
        None => {
            let r: Vec<String> = Vec::new();
            assert(r@.map_values(|s: String| s@) =~= Seq::<Seq<char>>::empty());
            r
        },
    }
}

/// The tools a guest registered: each item of `tools` with a string `name`,
/// with its `description` (empty when missing).
pub open spec fn registered_tools(items: Seq<JsonV>) -> Seq<(Seq<char>, Seq<char>)>
    decreases items.len(),
{
    if items.len() == 0 {
        Seq::empty()
    } else {
        let rest = registered_tools(items.drop_last());
        let item = items.last();
        match item.str_member("name"@) {
            Some(name) => rest.push(
                (
                    name,
                    match item.str_member("description"@) {
                        Some(d) => d,
                        None => Seq::empty(),
                    },
                ),
            ),
            None => rest,
        }
    }
}

/// The tools a guest registered in its `load` answer, as (name, description).
pub fn take_tools(response: &Json) -> (r: Vec<(String, String)>)
    ensures
        r@.map_values(|p: (String, String)| (p.0@, p.1@)) == match response@.array_member("tools"@) {
            Some(items) => registered_tools(items),
            None => Seq::empty(),
        },
{
    let mut out: Vec<(String, String)> = Vec::new();
    match response.get_array("tools") {
        Some(items) => {
            let ghost vs = view_items(items@);
            proof {
                lemma_view_items(items@);
            }
            let mut i: usize = 0;
            while i < items.len()
                invariant
                    vs == view_items(items@),
                    vs.len() == items@.len(),
                    i <= items@.len(),
                    out@.map_values(|p: (String, String)| (p.0@, p.1@)) == registered_tools(
                        vs.subrange(0, i as int),
                    ),
                decreases items@.len() - i,
            {
                proof {
                    lemma_view_items(items@);
                    let s1 = vs.subrange(0, i + 1);
                    assert(s1.drop_last() =~= vs.subrange(0, i as int));
                    assert(s1.last() == items@[i as int]@);
                }
                let ghost before = out@;
                let item = &items[i];
                if let Some(name) = item.get_str("name") {
                    let description = match item.get_str("description") {
                        Some(d) => d.to_owned(),
                        None => String::new(),
                    };
                    let pair = (name.to_owned(), description);
                    out.push(pair);
                    assert(out@.map_values(|p: (String, String)| (p.0@, p.1@)) =~= before.map_values(
                        |p: (String, String)| (p.0@, p.1@),
                    ).push((pair.0@, pair.1@)));
                }
                i = i + 1;
            }
            assert(vs.subrange(0, vs.len() as int) =~= vs);
            out
        },
        None => {
            assert(out@.map_values(|p: (String, String)| (p.0@, p.1@)) =~= Seq::<
                (Seq<char>, Seq<char>),
            >::empty());
            out
        },
    }
}

/// The model a guest offers as an LLM: `llm` when it is a non-empty string.
pub open spec fn offered_llm(response: JsonV) -> Option<Seq<char>> {
    match response.str_member("llm"@) {
        Some(t) => if t.len() > 0 { Some(t) } else { None },
        None => None,
    }
}

/// The model a guest registered, if any.
pub fn take_llm(response: &Json) -> (r: Option<String>)
    ensures
        match r {
            Some(s) => offered_llm(response@) == Some(s@),
            None => offered_llm(response@) is None,
        },
{
    match response.get_str("llm") {
        Some(t) => if t.is_empty() { None } else { Some(t.to_owned()) },
        None => None,
    }
}

/// A tool's answer: its `result` text after `"ok": true`.
pub fn take_result(response: &Json) -> (r: Result<String, Error>)
    ensures
        r is Ok <==> answered_ok(response@) && response@.str_member("result"@) is Some,
        r is Ok ==> r->Ok_0@ == response@.str_member("result"@)->0,
        r is Err ==> r->Err_0 is Component && r->Err_0.text() == if answered_ok(response@) {
            "guest 没给 result"@
        } else {
            failure_text(response@)
        },
{
    match expect_ok(response) {
        Err(e) => Err(e),
        Ok(()) => match response.get_str("result") {
            Some(t) => Ok(t.to_owned()),
            None => Err(Error::Component("guest 没给 result".to_owned())),
        },
    }
}

/// Adds a guest's log lines to the plugin's log.
pub fn append_logs(logs: &mut Vec<String>, lines: Vec<String>)
    ensures
        final(logs)@ == old(logs)@ + lines@,
{
    let mut lines = lines;
    logs.append(&mut lines);
}

/// How Rust's `Debug` prints the string `s` (quoted and escaped).
pub uninterp spec fn debug_quoted(s: Seq<char>) -> Seq<char>;

/// `format!("{:?}", s)`: what it gives is named by `debug_quoted`.
#[verifier::external_body]
fn quoted(s: &str) -> (r: String)
    ensures
        r@ == debug_quoted(s@),
{
    format!("{:?}", s)
}

/// What a line read from a guest's output amounts to: `None` when the output
/// ended, otherwise the JSON on the line, or a complaint that quotes the line.
pub fn read_reply(line: Option<&str>) -> (r: Result<Json, Error>)
    ensures
        line is None ==> r is Err && r->Err_0 is Component && r->Err_0.text() == "guest 提前 EOF"@,
        line is Some ==> match json_parse(line->0@) {
            Ok(v) => r is Ok && r->Ok_0@ == v,
            Err(m) => r is Err && r->Err_0 is Component && r->Err_0.text() == "guest 回了非法 JSON："@ + m
                + "；行="@ + debug_quoted(line->0@),
        },
{
    match line {
        None => Err(Error::Component("guest 提前 EOF".to_owned())),
        Some(l) => match parse_json(l) {
            Ok(v) => Ok(v),
            Err(m) => {
                let mut text = "guest 回了非法 JSON：".to_owned();
                text.append(m.as_str());
                text.append("；行=");
                let q = quoted(l);
                text.append(q.as_str());
                Err(Error::Component(text))
            },
        },
    }
}

} // verus!
