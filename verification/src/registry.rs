//! The plugin registry's decisions: what each kind of row announces in the
//! roster, and where a guest row finds its guest.
//!
//! Building the components and mounting them is the host's part.
use vstd::prelude::*;

use crate::error::Error;
use crate::host::{resolve_path, wasm_guest};
use crate::paths::{stem_or, stem_or_default};
use crate::json::{Json, JsonV};
use crate::plugins::web_creation;
use crate::text::str_eq;

verus! {

/// The role a guest row announces: its `role` text, else `default`.
pub open spec fn role_or(config: JsonV, default: Seq<char>) -> Seq<char> {
    match config.str_member("role"@) {
        Some(r) => r,
        None => default,
    }
}

/// The substrate and the role a row of kind `kind` announces in the roster;
/// `None` for a kind the registry does not know.
pub open spec fn announcement(kind: Seq<char>, config: JsonV) -> Option<(Seq<char>, Seq<char>)> {
    if kind == "fs-sandbox"@ {
        Some(("native"@, "提供 fs（工作区沙箱）"@))
    } else if kind == "tool-fs"@ {
        Some(("native"@, "登记 read / write / edit"@))
    } else if kind == "bash-sandbox"@ {
        Some(("native"@, "提供 shell（工作区沙箱）"@))
    } else if kind == "tool-bash"@ {
        Some(("native"@, "登记 bash 工具"@))
    } else if kind == "tool-web-fetch"@ {
        Some(("native"@, "登记 web_fetch 工具"@))
    } else if kind == "system-prompt"@ {
        Some(("native"@, "组装 system prompt（AGENTS.md + 工具 schema）"@))
    } else if kind == "agent-loop"@ {
        Some(("native"@, "可插拔 agent 循环"@))
    } else if kind == "doc"@ {
        Some(("native"@, "提供 markdown 能力"@))
    } else if kind == "read-doc"@ {
        Some(("native"@, "登记读全文工具"@))
    } else if kind == "deepseek"@ {
        Some(("native"@, "提供 llm（DeepSeek）"@))
    } else if kind == "web"@ {
        Some(
            (
                "native"@,
                if config.bool_member("creation"@) == Some(true) {
                    "浏览器界面（创造模式）"@
                } else {
                    "浏览器界面"@
                },
            ),
        )
    } else if kind == "probe"@ {
        Some(("native"@, "命令行探测界面"@))
    } else if kind == "patch-watcher"@ {
        Some(("native"@, "监听 cordis.patch.yml 热重载"@))
    } else if kind == "creation-tools"@ {
        Some(("native"@, "创造模式元工具"@))
    } else if kind == "wasm"@ {
        Some(("wasm"@, role_or(config, "wasm 插件"@)))
    } else if kind == "script"@ {
        Some(("script"@, role_or(config, "脚本插件"@)))
    } else if kind == "process"@ {
        Some(("process"@, role_or(config, "子进程插件"@)))
    } else {
        None
    }
}

fn pair(substrate: &str, role: &str) -> (r: Option<(String, String)>)
    ensures
        match r {
            Some((s, t)) => s@ == substrate@ && t@ == role@,
            None => false,
        },
{
    Some((substrate.to_owned(), role.to_owned()))
}

fn role_text(config: &Json, default: &str) -> (r: String)
    ensures
        r@ == role_or(config@, default@),
{
    match config.get_str("role") {
        Some(t) => t.to_owned(),
        None => default.to_owned(),
    }
}

/// What a row of kind `kind` announces: its substrate and role, or `None`
/// when the registry has no such kind.
pub fn announcement_of(kind: &str, config: &Json) -> (r: Option<(String, String)>)
    ensures
        match announcement(kind@, config@) {
            Some((s, role)) => match r {
                Some((rs, rt)) => rs@ == s && rt@ == role,
                None => false,
            },
            None => r is None,
        },
{
    proof {
        reveal_strlit("fs-sandbox");
        reveal_strlit("tool-fs");
        reveal_strlit("bash-sandbox");
        reveal_strlit("tool-bash");
        reveal_strlit("tool-web-fetch");
        reveal_strlit("system-prompt");
        reveal_strlit("agent-loop");
        reveal_strlit("doc");
        reveal_strlit("read-doc");
        reveal_strlit("deepseek");
        reveal_strlit("web");
        reveal_strlit("probe");
        reveal_strlit("patch-watcher");
        reveal_strlit("creation-tools");
        reveal_strlit("wasm");
        reveal_strlit("script");
        reveal_strlit("process");
    }
    if str_eq(kind, "fs-sandbox") {
        pair("native", "提供 fs（工作区沙箱）")
    } else if str_eq(kind, "tool-fs") {
        pair("native", "登记 read / write / edit")
    } else if str_eq(kind, "bash-sandbox") {
        pair("native", "提供 shell（工作区沙箱）")
    } else if str_eq(kind, "tool-bash") {
        pair("native", "登记 bash 工具")
    } else if str_eq(kind, "tool-web-fetch") {
        pair("native", "登记 web_fetch 工具")
    } else if str_eq(kind, "system-prompt") {
        pair("native", "组装 system prompt（AGENTS.md + 工具 schema）")
    } else if str_eq(kind, "agent-loop") {
        pair("native", "可插拔 agent 循环")
    } else if str_eq(kind, "doc") {
        pair("native", "提供 markdown 能力")
    } else if str_eq(kind, "read-doc") {
        pair("native", "登记读全文工具")
    } else if str_eq(kind, "deepseek") {
        pair("native", "提供 llm（DeepSeek）")
    } else if str_eq(kind, "web") {
        if web_creation(config) {
            pair("native", "浏览器界面（创造模式）")
        } else {
            pair("native", "浏览器界面")
        }
    } else if str_eq(kind, "probe") {
        pair("native", "命令行探测界面")
    } else if str_eq(kind, "patch-watcher") {
        pair("native", "监听 cordis.patch.yml 热重载")
    } else if str_eq(kind, "creation-tools") {
        pair("native", "创造模式元工具")
    } else if str_eq(kind, "wasm") {
        Some(("wasm".to_owned(), role_text(config, "wasm 插件")))
    } else if str_eq(kind, "script") {
        Some(("script".to_owned(), role_text(config, "脚本插件")))
    } else if str_eq(kind, "process") {
        Some(("process".to_owned(), role_text(config, "子进程插件")))
    } else {
        None
    }
}

/// Where a `wasm` row's guest lives: its `guest` under the built guests of
/// the project root `root`; a row without `guest` is refused.
pub fn wasm_row_path(root: &str, config: &Json) -> (r: Result<String, Error>)
    ensures
        match config@.str_member("guest"@) {
            Some(g) => r is Ok && r->Ok_0@ == crate::paths::joined(
                crate::paths::joined(root@, "target/guests"@),
                g + ".wasm"@,
            ),
            None => r is Err && r->Err_0 is Config && r->Err_0.text() == "wasm 需要 config.guest"@,
        },
{
    match config.get_str("guest") {
        Some(g) => Ok(wasm_guest(root, g)),
        None => Err(Error::Config("wasm 需要 config.guest".to_owned())),
    }
}

/// Where a `script` row's source lives: its `file`, taken from the project
/// root `root` unless absolute; a row without `file` is refused.
pub fn script_row_path(root: &str, config: &Json) -> (r: Result<String, Error>)
    ensures
        match config@.str_member("file"@) {
            Some(f) => r is Ok && r->Ok_0@ == if crate::paths::is_absolute(f) {
                f
            } else {
                crate::paths::joined(root@, f)
            },
            None => r is Err && r->Err_0 is Config && r->Err_0.text() == "script 需要 config.file"@,
        },
{
    match config.get_str("file") {
        Some(f) => Ok(resolve_path(root, f)),
        None => Err(Error::Config("script 需要 config.file".to_owned())),
    }
}

/// The name a script guest is mounted under: its file's stem, else `script`.
pub fn script_name(path: &str) -> (r: String)
    ensures
        r@ == stem_or_default(path@, "script"@),
{
    stem_or(path, "script")
}

/// The refusal of a row whose file could not be read.
pub fn unreadable(path: &str, error: &str) -> (r: Error)
    ensures
        r is Config && r.text() == "读不了 "@ + path@ + "："@ + error@,
{
    let mut text = "读不了 ".to_owned();
    text.append(path);
    text.append("：");
    text.append(error);
    Error::Config(text)
}

/// The refusal of a `wasm` row whose guest could not be compiled.
pub fn uncompiled(path: &str, error: &str) -> (r: Error)
    ensures
        r is Config && r.text() == "编不了 "@ + path@ + "："@ + error@
            + "\n先跑 spatiotemporal-agent/scripts/build-guests.sh"@,
{
    let mut text = "编不了 ".to_owned();
    text.append(path);
    text.append("：");
    text.append(error);
    text.append("\n先跑 spatiotemporal-agent/scripts/build-guests.sh");
    Error::Config(text)
}

/// The refusal of a `process` row whose program could not be started.
pub fn unopened(path: &str, error: &str) -> (r: Error)
    ensures
        r is Config && r.text() == "打不开 "@ + path@ + "："@ + error@,
{
    let mut text = "打不开 ".to_owned();
    text.append(path);
    text.append("：");
    text.append(error);
    Error::Config(text)
}

/// Where a `doc` row's document lives: its `path`, taken from the project
/// root `root` unless absolute; a row without `path` is refused.
pub fn doc_row_path(root: &str, config: &Json) -> (r: Result<String, Error>)
    ensures
        match config@.str_member("path"@) {
            Some(p) => r is Ok && r->Ok_0@ == if crate::paths::is_absolute(p) {
                p
            } else {
                crate::paths::joined(root@, p)
            },
            None => r is Err && r->Err_0 is Config && r->Err_0.text() == "doc 需要 config.path"@,
        },
{
    match config.get_str("path") {
        Some(p) => Ok(resolve_path(root, p)),
        None => Err(Error::Config("doc 需要 config.path".to_owned())),
    }
}

} // verus!
