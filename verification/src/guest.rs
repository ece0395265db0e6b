//! What a guest plugin (a process, a wasm component or a script) sees and
//! registers, whatever runs it.
//!
//! Spawning processes, instantiating components and running scripts is the
//! host's part; what a guest is shown and what its answers amount to is
//! decided here.
use vstd::prelude::*;

use crate::error::Error;
use crate::host::{Capabilities, document_capability, first_unexposed};
use crate::json::{Json, JsonV, json_parse, parse_json};
use crate::approval::string_items;
use crate::protocol::{answered_ok, expect_ok, failure_text, offered_llm, registered_tools, take_llm, take_logs, take_tools};
use crate::paths::{stem_or, stem_or_default};
use crate::text::str_eq;

verus! {

/// The value of capability `name` in a snapshot: the first entry so named.
pub open spec fn snapshot_value(view: Seq<(Seq<char>, Seq<char>)>, name: Seq<char>) -> Option<Seq<char>>
    decreases view.len(),
{
    if view.len() == 0 {
        None
    } else if view[0].0 == name {
        Some(view[0].1)
    } else {
        snapshot_value(view.drop_first(), name)
    }
}

/// A guest asking for capability `name`: its value when it was granted, and
/// otherwise the same refusal whether or not the host exposes it at all.
pub fn capability(view: &Vec<(String, String)>, name: &str) -> (r: Result<String, String>)
    ensures
        match snapshot_value(view@.map_values(|p: (String, String)| (p.0@, p.1@)), name@) {
            Some(v) => r is Ok && r->Ok_0@ == v,
            None => r is Err && r->Err_0@ == "没有授予这项能力："@ + name@,
        },
{
    let ghost vs = view@.map_values(|p: (String, String)| (p.0@, p.1@));
    let mut i: usize = 0;
    assert(vs.skip(0) =~= vs);
    while i < view.len()
        invariant
            vs == view@.map_values(|p: (String, String)| (p.0@, p.1@)),
            i <= vs.len(),
            snapshot_value(vs, name@) == snapshot_value(vs.skip(i as int), name@),
        decreases vs.len() - i,
    {
        proof {
            assert(vs.skip(i as int).drop_first() =~= vs.skip(i + 1));
            assert(vs.skip(i as int)[0] == vs[i as int]);
        }
        if str_eq(view[i].0.as_str(), name) {
            return Ok(view[i].1.clone());
        }
        i = i + 1;
    }
    proof {
        assert(vs.skip(vs.len() as int) =~= Seq::<(Seq<char>, Seq<char>)>::empty());
    }
    let mut text = "没有授予这项能力：".to_owned();
    text.append(name);
    Err(text)
}

impl Capabilities {
    /// Takes the snapshot a guest loads with: each granted name with the value
    /// `project` gives for it, in order. An unexposed name is refused as an
    /// unknown key, and a projection's failure is the snapshot's.
    pub fn snapshot<F: Fn(&str) -> Result<String, Error>>(&self, granted: &[String], project: F) -> (r: Result<
        Vec<(String, String)>,
        Error,
    >)
        requires
            forall|t: &str| call_requires(project, (t,)),
        ensures
            match r {
                Ok(view) => {
                    &&& first_unexposed(self.exposed(), granted@.map_values(|g: String| g@)) is None
                    &&& view@.len() == granted@.len()
                    &&& forall|i: int|
                        0 <= i < view@.len() ==> (#[trigger] view@[i]).0@ == granted@[i]@ && exists|t: &str|
                            t@ == granted@[i]@ && call_ensures(project, (t,), Ok::<String, Error>(view@[i].1))
                },
                Err(e) => (e is UnknownKey && first_unexposed(self.exposed(), granted@.map_values(|g: String| g@))
                    == Some(e.text())) || (first_unexposed(self.exposed(), granted@.map_values(|g: String| g@))
                    is None && exists|i: int, t: &str|
                    0 <= i < granted@.len() && t@ == granted@[i]@ && call_ensures(project, (t,), Err::<String, Error>(e))),
            },
    {
        let ghost gs = granted@.map_values(|g: String| g@);
        let _keys = self.inject(granted)?;
        let mut view: Vec<(String, String)> = Vec::new();
        let mut i: usize = 0;
        while i < granted.len()
            invariant
                gs == granted@.map_values(|g: String| g@),
                first_unexposed(self.exposed(), gs) is None,
                forall|t: &str| call_requires(project, (t,)),
                i <= granted@.len(),
                view@.len() == i,
                forall|j: int|
                    0 <= j < i ==> (#[trigger] view@[j]).0@ == granted@[j]@ && exists|t: &str|
                        t@ == granted@[j]@ && call_ensures(project, (t,), Ok::<String, Error>(view@[j].1)),
            decreases granted@.len() - i,
        {
            let name = granted[i].as_str();
            let value = project(name);
            match value {
                Ok(v) => {
                    let ghost before = view@;
                    let ghost vv = v;
                    proof {
                        assert(call_ensures(project, (name,), Ok::<String, Error>(v)));
                    }
                    view.push((granted[i].clone(), v));
                    proof {
                        assert forall|j: int| 0 <= j < i + 1 implies (#[trigger] view@[j]).0@ == granted@[j]@
                            && exists|t: &str| t@ == granted@[j]@ && call_ensures(project, (t,), Ok::<String, Error>(view@[j].1)) by {
                            if j < i {
                                assert(view@[j] == before[j]);
                            } else {
                                assert(view@[j].1 == vv);
                                assert(name@ == granted@[j]@);
                            }
                        }
                    }
                },
                Err(e) => {
                    proof {
                        assert(name@ == granted@[i as int]@);
                        assert(call_ensures(project, (name,), Err::<String, Error>(e)));
                    }
                    return Err(e);
                },
            }
            i = i + 1;
        }
        Ok(view)
    }
}

/// The refusal when a guest registers a language model the host cannot take.
pub open spec fn llm_not_taken() -> Seq<char> {
    "guest 登记了 LLM，但宿主没接"@
}

/// What a loaded guest registered: its log lines, its tools, and the model
/// it offers as a language model.
pub struct GuestLoad {
    pub logs: Vec<String>,
    pub tools: Vec<(String, String)>,
    pub llm: Option<String>,
}

/// Accepts what a guest registered while loading: a model is refused when
/// the host takes none (`llm_host` false).
pub fn accept_registration(
    logs: Vec<String>,
    tools: Vec<(String, String)>,
    llm: Option<String>,
    llm_host: bool,
) -> (r: Result<GuestLoad, Error>)
    ensures
        llm is Some && !llm_host ==> r is Err && r->Err_0 is Component && r->Err_0.text() == llm_not_taken(),
        !(llm is Some && !llm_host) ==> r is Ok && r->Ok_0.logs == logs && r->Ok_0.tools == tools && r->Ok_0.llm
            == llm,
{
    if llm.is_some() && !llm_host {
        return Err(Error::Component("guest 登记了 LLM，但宿主没接".to_owned()));
    }
    Ok(GuestLoad { logs, tools, llm })
}

/// The log lines of a guest's answer.
pub open spec fn guest_logs(response: JsonV) -> Seq<Seq<char>> {
    match response.array_member("logs"@) {
        Some(items) => string_items(items),
        None => Seq::empty(),
    }
}

/// The tools a guest's answer registers.
pub open spec fn guest_tools(response: JsonV) -> Seq<(Seq<char>, Seq<char>)> {
    match response.array_member("tools"@) {
        Some(items) => registered_tools(items),
        None => Seq::empty(),
    }
}

/// Reads a process guest's answer to `load`: a failed answer fails the load
/// with its error; otherwise its log lines, tools and model are taken (a model
/// is refused when the host takes none).
pub fn load_outcome(response: &Json, llm_host: bool) -> (r: Result<GuestLoad, Error>)
    ensures
        !answered_ok(response@) ==> r is Err && r->Err_0 is Component && r->Err_0.text() == failure_text(response@),
        answered_ok(response@) && offered_llm(response@) is Some && !llm_host ==> r is Err && r->Err_0 is Component
            && r->Err_0.text() == llm_not_taken(),
        answered_ok(response@) && !(offered_llm(response@) is Some && !llm_host) ==> {
            &&& r is Ok
            &&& r->Ok_0.logs@.map_values(|l: String| l@) == guest_logs(response@)
            &&& r->Ok_0.tools@.map_values(|t: (String, String)| (t.0@, t.1@)) == guest_tools(response@)
            &&& match r->Ok_0.llm {
                Some(m) => offered_llm(response@) == Some(m@),
                None => offered_llm(response@) is None,
            }
        },
{
    expect_ok(response)?;
    let logs = take_logs(response);
    let tools = take_tools(response);
    let llm = take_llm(response);
    accept_registration(logs, tools, llm, llm_host)
}

/// The log line of a guest whose `unload` did not come back.
pub fn unload_stuck(name: &str, error: &str) -> (r: String)
    ensures
        r@ == name@ + " 的 unload 陷入了："@ + error@,
{
    let mut text = name.to_owned();
    text.append(" 的 unload 陷入了：");
    text.append(error);
    text
}

/// A failure of the machinery running a guest, with what was being done.
pub fn runtime_failure(context: &str, error: &str) -> (r: Error)
    ensures
        r is Component && r.text() == context@ + "："@ + error@,
{
    let mut text = context.to_owned();
    text.append("：");
    text.append(error);
    Error::Component(text)
}

/// A guest's `load` that answered with an error.
pub fn load_failed(message: &str) -> (r: Error)
    ensures
        r is Component && r.text() == "guest 的 load 失败："@ + message@,
{
    let mut text = "guest 的 load 失败：".to_owned();
    text.append(message);
    Error::Component(text)
}

/// A guest tool that answered with an error.
pub fn tool_failed(name: &str, message: &str) -> (r: Error)
    ensures
        r is Component && r.text() == "工具 "@ + name@ + " 失败："@ + message@,
{
    let mut text = "工具 ".to_owned();
    text.append(name);
    text.append(" 失败：");
    text.append(message);
    Error::Component(text)
}

/// Opens a process guest: a program that is not there is refused first,
/// then a grant the host does not expose (all or nothing); otherwise the
/// guest is named after its program's stem (`process` when it has none) and
/// depends on the granted names.
pub fn open_process(path: &str, is_file: bool, caps: &Capabilities, granted: &[String]) -> (r: Result<
    (String, Vec<String>),
    Error,
>)
    ensures
        !is_file ==> r is Err && r->Err_0 is Component && r->Err_0.text() == "找不到 guest 可执行文件："@ + path@,
        is_file ==> match first_unexposed(caps.exposed(), granted@.map_values(|g: String| g@)) {
            Some(name) => r is Err && r->Err_0 is UnknownKey && r->Err_0.text() == name,
            None => match r {
                Ok((name, keys)) => name@ == stem_or_default(path@, "process"@) && keys@.map_values(
                    |g: String| g@,
                ) == granted@.map_values(|g: String| g@),
                Err(_) => false,
            },
        },
{
    if !is_file {
        let mut text = "找不到 guest 可执行文件：".to_owned();
        text.append(path);
        return Err(Error::Component(text));
    }
    let name = stem_or(path, "process");
    let keys = caps.inject(granted)?;
    Ok((name, keys))
}

/// Opens a wasm guest: a grant the host does not expose is refused (all or
/// nothing); otherwise the guest is named after its file's stem (`wasm` when
/// it has none) and depends on the granted names. Compiling the component is
/// the host's part.
pub fn open_wasm(path: &str, caps: &Capabilities, granted: &[String]) -> (r: Result<(String, Vec<String>), Error>)
    ensures
        match first_unexposed(caps.exposed(), granted@.map_values(|g: String| g@)) {
            Some(name) => r is Err && r->Err_0 is UnknownKey && r->Err_0.text() == name,
            None => match r {
                Ok((name, keys)) => name@ == stem_or_default(path@, "wasm"@) && keys@.map_values(|g: String| g@)
                    == granted@.map_values(|g: String| g@),
                Err(_) => false,
            },
        },
{
    let name = stem_or(path, "wasm");
    let keys = caps.inject(granted)?;
    Ok((name, keys))
}

/// Reads what a guest's language model answered: the JSON of its text, or a
/// complaint that it is not JSON.
pub fn guest_completion(text: &str) -> (r: Result<Json, Error>)
    ensures
        match json_parse(text@) {
            Ok(v) => r is Ok && r->Ok_0@ == v,
            Err(m) => r is Err && r->Err_0 is Component && r->Err_0.text() == "guest LLM 返回的不是 JSON："@ + m,
        },
{
    match parse_json(text) {
        Ok(v) => Ok(v),
        Err(m) => {
            let mut message = "guest LLM 返回的不是 JSON：".to_owned();
            message.append(m.as_str());
            Err(Error::Component(message))
        },
    }
}

/// The snapshot a guest of this host loads with. The hosts expose only the
/// current document, as `markdown` (see `wasm_caps`, `script_caps`,
/// `process_caps`), and that capability yields the document's text: each
/// granted name comes with `doc_text`; a grant the host does not expose is
/// refused as an unknown key (all or nothing).
pub fn document_snapshot(caps: &Capabilities, granted: &[String], doc_text: &str) -> (r: Result<
    Vec<(String, String)>,
    Error,
>)
    requires
        forall|n: Seq<char>| #[trigger] caps.exposed().contains(n) ==> n == document_capability(),
    ensures
        match first_unexposed(caps.exposed(), granted@.map_values(|g: String| g@)) {
            Some(name) => r is Err && r->Err_0 is UnknownKey && r->Err_0.text() == name,
            None => r is Ok && r->Ok_0@.len() == granted@.len() && forall|i: int|
                0 <= i < granted@.len() ==> (#[trigger] r->Ok_0@[i]).0@ == granted@[i]@ && r->Ok_0@[i].1@
                    == doc_text@,
        },
{
    let _keys = caps.inject(granted)?;
    let mut view: Vec<(String, String)> = Vec::new();
    let mut i: usize = 0;
    while i < granted.len()
        invariant
            i <= granted@.len(),
            view@.len() == i,
            forall|j: int|
                0 <= j < i ==> (#[trigger] view@[j]).0@ == granted@[j]@ && view@[j].1@ == doc_text@,
        decreases granted@.len() - i,
    {
        view.push((granted[i].clone(), doc_text.to_owned()));
        i = i + 1;
    }
    Ok(view)
}

} // verus!
