//! The native plugins' settings: what each reads from its configuration row
//! (and, where the row is silent, from the environment the host read).
use vstd::prelude::*;

use crate::approval::{ApprovalPolicy, ApprovalQueue, default_kinds, string_items};
use crate::compaction::{CompactionConfig, compaction_config_of};
use crate::error::Error;
use crate::host::{process_guest, resolve_path};
use crate::json::{Json, JsonV, json_parse, parse_json};
use crate::paths::{is_absolute, join, joined};
use crate::text::{first_occurrence, to_chars};

verus! {

/// The `agent-loop` plugin: how many model rounds a turn may take, and how
/// the history is compacted.
pub struct AgentLoopPlugin {
    pub max_rounds: usize,
    pub compaction: CompactionConfig,
}

impl AgentLoopPlugin {
    /// Reads `max_rounds` (default 50) and the compaction limits.
    pub fn from_config(config: &Json) -> (r: Self)
        ensures
            r.max_rounds == (match config@.u64_member("max_rounds"@) {
                Some(n) => n,
                None => 50,
            }) as usize,
            r.compaction == compaction_config_of(config@),
    {
        let max_rounds = match config.get_u64("max_rounds") {
            Some(n) => n as usize,
            None => 50,
        };
        AgentLoopPlugin { max_rounds, compaction: CompactionConfig::from_config(config) }
    }
}

/// The `approval-policy` plugin: it only installs its policy.
pub struct ApprovalPolicyPlugin;

impl ApprovalPolicyPlugin {
    /// Installs the policy the row configures on `approvals`.
    pub fn from_config(config: &Json, approvals: &mut ApprovalQueue) -> (r: Self)
        ensures
            final(approvals).current_policy().kinds() == match config@.array_member("require"@) {
                Some(items) => string_items(items),
                None => default_kinds(),
            },
            final(approvals).current_policy().max_queue == match config@.u64_member("max_queue"@) {
                Some(n) => (if n >= 1 { n } else { 1 }) as usize,
                None => 10,
            },
            final(approvals).queue() == old(approvals).queue(),
    {
        approvals.set_policy(ApprovalPolicy::from_config(config));
        ApprovalPolicyPlugin
    }
}

/// Whether the `creation-tools` row is enabled (`enabled`, default true).
pub fn creation_enabled(config: &Json) -> (r: bool)
    ensures
        r == match config@.bool_member("enabled"@) {
            Some(b) => b,
            None => true,
        },
{
    match config.get_bool("enabled") {
        Some(b) => b,
        None => true,
    }
}

/// A text setting: the row's member, else the environment's value, else the default.
pub open spec fn setting(row: Option<Seq<char>>, env: Option<Seq<char>>, default: Seq<char>) -> Seq<char> {
    match row {
        Some(v) => v,
        None => match env {
            Some(v) => v,
            None => default,
        },
    }
}

/// The optional view of an optional text.
pub open spec fn opt_view(t: Option<String>) -> Option<Seq<char>> {
    match t {
        Some(s) => Some(s@),
        None => None,
    }
}

/// The DeepSeek chat-completions client's settings.
pub struct DeepSeek {
    pub api_key: Option<String>,
    pub base: String,
    pub model: String,
}

/// The API key the environment offers: unset and empty both count as none.
pub open spec fn env_key(key: Option<Seq<char>>) -> Option<Seq<char>> {
    match key {
        Some(k) => if k.len() > 0 {
            Some(k)
        } else {
            None
        },
        None => None,
    }
}

fn non_empty(value: Option<String>) -> (r: Option<String>)
    ensures
        opt_view(r) == env_key(opt_view(value)),
{
    match value {
        Some(v) => if v.as_str().unicode_len() > 0 {
            Some(v)
        } else {
            None
        },
        None => None,
    }
}

impl DeepSeek {
    /// Settings from a plugin row: `api_key`, `base` and `model`, else the
    /// environment's `DEEPSEEK_API_KEY` (when not empty), `DEEPSEEK_BASE_URL`
    /// and `DEEPSEEK_MODEL`, else the public endpoint and `deepseek-chat`.
    pub fn from_config(
        config: &Json,
        env_api_key: Option<String>,
        env_base: Option<String>,
        env_model: Option<String>,
    ) -> (r: Self)
        ensures
            opt_view(r.api_key) == match config@.str_member("api_key"@) {
                Some(k) => Some(k),
                None => env_key(opt_view(env_api_key)),
            },
            r.base@ == setting(config@.str_member("base"@), opt_view(env_base), "https://api.deepseek.com"@),
            r.model@ == setting(config@.str_member("model"@), opt_view(env_model), "deepseek-chat"@),
    {
        let api_key = match config.get_str("api_key") {
            Some(k) => Some(k.to_owned()),
            None => non_empty(env_api_key),
        };
        let base = match config.get_str("base") {
            Some(b) => b.to_owned(),
            None => match env_base {
                Some(b) => b,
                None => "https://api.deepseek.com".to_owned(),
            },
        };
        let model = match config.get_str("model") {
            Some(m) => m.to_owned(),
            None => match env_model {
                Some(m) => m,
                None => "deepseek-chat".to_owned(),
            },
        };
        DeepSeek { api_key, base, model }
    }

    /// Settings from the environment alone (the document reader's client).
    pub fn from_env(env_api_key: Option<String>, env_base: Option<String>, env_model: Option<String>) -> (r: Self)
        ensures
            opt_view(r.api_key) == env_key(opt_view(env_api_key)),
            r.base@ == setting(None, opt_view(env_base), "https://api.deepseek.com"@),
            r.model@ == setting(None, opt_view(env_model), "deepseek-chat"@),
    {
        let base = match env_base {
            Some(b) => b,
            None => "https://api.deepseek.com".to_owned(),
        };
        let model = match env_model {
            Some(m) => m,
            None => "deepseek-chat".to_owned(),
        };
        DeepSeek { api_key: non_empty(env_api_key), base, model }
    }

    /// The model name.
    pub fn model(&self) -> (r: String)
        ensures
            r@ == self.model@,
    {
        self.model.clone()
    }

    /// The chat-completions URL: the base without trailing slashes, then
    /// `/chat/completions`.
    pub fn endpoint(&self) -> (r: String)
        ensures
            r@ == crate::plugins::without_trailing_slashes(self.base@) + "/chat/completions"@,
    {
        let chars = to_chars(self.base.as_str());
        let mut end: usize = chars.len();
        assert(chars@.subrange(0, end as int) =~= chars@);
        while end > 0 && chars[end - 1] == '/'
            invariant
                end <= chars@.len(),
                without_trailing_slashes(chars@) == without_trailing_slashes(chars@.subrange(0, end as int)),
            decreases end,
        {
            proof {
                assert(chars@.subrange(0, end as int).drop_last() =~= chars@.subrange(0, end - 1));
            }
            end = end - 1;
        }
        let mut kept: Vec<char> = Vec::new();
        let mut i: usize = 0;
        while i < end
            invariant
                end <= chars@.len(),
                i <= end,
                kept@ == chars@.subrange(0, i as int),
            decreases end - i,
        {
            kept.push(chars[i]);
            i = i + 1;
            assert(kept@ =~= chars@.subrange(0, i as int));
        }
        proof {
            let s = chars@.subrange(0, end as int);
            assert(end == 0 || s.last() != '/');
        }
        let mut url = crate::text::from_chars(&kept);
        url.append("/chat/completions");
        url
    }

    /// The `Authorization` header value; a client without a key is refused.
    pub fn authorization(&self) -> (r: Result<String, Error>)
        ensures
            match self.api_key {
                Some(k) => r is Ok && r->Ok_0@ == "Bearer "@ + k@,
                None => r is Err && r->Err_0 is Component && r->Err_0.text() == "没有 DEEPSEEK_API_KEY"@,
            },
    {
        match &self.api_key {
            Some(k) => {
                let mut header = "Bearer ".to_owned();
                header.append(k.as_str());
                Ok(header)
            },
            None => Err(Error::Component("没有 DEEPSEEK_API_KEY".to_owned())),
        }
    }
}

/// `s` without trailing slashes (`str::trim_end_matches('/')`).
pub open spec fn without_trailing_slashes(s: Seq<char>) -> Seq<char>
    decreases s.len(),
{
    if s.len() > 0 && s.last() == '/' {
        without_trailing_slashes(s.drop_last())
    } else {
        s
    }
}

/// What the client makes of a response body: its JSON, or the complaint.
pub open spec fn completion_of(text: Seq<char>) -> Result<JsonV, Seq<char>> {
    match json_parse(text) {
        Ok(v) => Ok(v),
        Err(m) => Err("DeepSeek 响应不是 JSON："@ + m),
    }
}

/// Reads the body of a chat-completions response.
pub fn completion(text: &str) -> (r: Result<Json, Error>)
    ensures
        match r {
            Ok(v) => completion_of(text@) == Ok::<JsonV, Seq<char>>(v@),
            Err(e) => e is Component && completion_of(text@) == Err::<JsonV, Seq<char>>(e.text()),
        },
{
    match parse_json(text) {
        Ok(v) => Ok(v),
        Err(m) => {
            let mut message = "DeepSeek 响应不是 JSON：".to_owned();
            message.append(m.as_str());
            Err(Error::Component(message))
        },
    }
}

/// The error of a response whose body could not be read.
pub fn response_unreadable(reason: &str) -> (r: Error)
    ensures
        r is Component && r.text() == "DeepSeek 响应读取失败："@ + reason@,
{
    let mut message = "DeepSeek 响应读取失败：".to_owned();
    message.append(reason);
    Error::Component(message)
}

/// The error of a request that did not go through.
pub fn request_failed(reason: &str) -> (r: Error)
    ensures
        r is Component && r.text() == "DeepSeek 请求失败："@ + reason@,
{
    let mut message = "DeepSeek 请求失败：".to_owned();
    message.append(reason);
    Error::Component(message)
}

/// The document a plugin serves.
pub trait Document {
    fn path(&self) -> String;

    fn text(&self) -> String;
}

/// The user interface the host hands control to once everything is mounted.
pub trait Surface {
    /// What kind of surface it is (`web`, `probe`).
    fn kind(&self) -> &'static str;

    /// Runs the surface until it is done.
    fn run(&self);
}

/// The `doc` plugin: a Markdown file read at load time.
pub struct DocFile {
    path: String,
    text: String,
}

impl DocFile {
    /// The document at `path` (as the host displays it) holding `text`.
    pub fn new(path: String, text: String) -> (r: Self)
        ensures
            r.path_view() == path@,
            r.text_view() == text@,
    {
        DocFile { path, text }
    }

    /// Where the document was read from.
    pub closed spec fn path_view(&self) -> Seq<char> {
        self.path@
    }

    /// The document's text.
    pub closed spec fn text_view(&self) -> Seq<char> {
        self.text@
    }
}

impl Document for DocFile {
    fn path(&self) -> (r: String)
        ensures
            r@ == self.path_view(),
    {
        self.path.clone()
    }

    fn text(&self) -> (r: String)
        ensures
            r@ == self.text_view(),
    {
        self.text.clone()
    }
}

/// The workspace root a sandbox confines work to.
pub trait Fs {
    fn root(&self) -> String;
}

/// The workspace root shell commands run in.
pub trait Shell {
    fn root(&self) -> String;
}

/// The `fs-sandbox` plugin: the workspace root for file tools.
pub struct FsSandbox {
    pub root: String,
}

impl Fs for FsSandbox {
    fn root(&self) -> (r: String)
        ensures
            r@ == self.root@,
    {
        self.root.clone()
    }
}

/// The `bash-sandbox` plugin: the workspace root for shell commands.
pub struct BashSandbox {
    pub root: String,
}

impl Shell for BashSandbox {
    fn root(&self) -> (r: String)
        ensures
            r@ == self.root@,
    {
        self.root.clone()
    }
}

/// Installs a guest's model as the host's language model.
pub struct LlmInstaller;

/// The `patch-watcher` plugin: which patch file it watches.
pub struct PatchWatcher {
    pub path: String,
}

impl PatchWatcher {
    /// The watched file: the row's `path` (taken from the project root
    /// `root` unless absolute), else `cordis.patch.yml` there.
    pub fn from_config(config: &Json, root: &str) -> (r: Self)
        ensures
            r.path@ == match config@.str_member("path"@) {
                Some(p) => if is_absolute(p) {
                    p
                } else {
                    joined(root@, p)
                },
                None => joined(root@, "cordis.patch.yml"@),
            },
    {
        let path = match config.get_str("path") {
            Some(p) => resolve_path(root, p),
            None => join(root, "cordis.patch.yml"),
        };
        PatchWatcher { path }
    }
}

/// The executable a `process` row names: `command` (or `guest`), taken as
/// it is when absolute, from the project root when it holds a `/`, and from
/// the built guests otherwise.
pub open spec fn process_path_of(root: Seq<char>, config: JsonV) -> Result<Seq<char>, Seq<char>> {
    let named = match config.str_member("command"@) {
        Some(c) => Some(c),
        None => config.str_member("guest"@),
    };
    match named {
        None => Err("process 需要 config.command 或 guest"@),
        Some(c) => Ok(
            if is_absolute(c) {
                c
            } else if c.contains('/') {
                joined(root, c)
            } else {
                joined(joined(root, "target/guests"@), c)
            },
        ),
    }
}

/// Resolves the executable of a `process` row.
pub fn process_path(root: &str, config: &Json) -> (r: Result<String, Error>)
    ensures
        match r {
            Ok(p) => process_path_of(root@, config@) == Ok::<Seq<char>, Seq<char>>(p@),
            Err(e) => e is Config && process_path_of(root@, config@) == Err::<Seq<char>, Seq<char>>(e.text()),
        },
{
    let named: Option<&str> = match config.get_str("command") {
        Some(c) => Some(c),
        None => config.get_str("guest"),
    };
    match named {
        None => Err(Error::Config("process 需要 config.command 或 guest".to_owned())),
        Some(c) => {
            if crate::paths::absolute(c) {
                Ok(c.to_owned())
            } else if has_slash(c) {
                Ok(join(root, c))
            } else {
                Ok(process_guest(root, c))
            }
        },
    }
}

fn has_slash(s: &str) -> (r: bool)
    ensures
        r == s@.contains('/'),
{
    let cs = to_chars(s);
    let mut i: usize = 0;
    while i < cs.len()
        invariant
            cs@ == s@,
            i <= cs@.len(),
            forall|j: int| 0 <= j < i ==> cs@[j] != '/',
        decreases cs@.len() - i,
    {
        if cs[i] == '/' {
            assert(cs@[i as int] == '/');
            return true;
        }
        i = i + 1;
    }
    false
}

/// The arguments of a `process` row: the strings of its `args` array.
pub fn process_args(config: &Json) -> (r: Vec<String>)
    ensures
        r@.map_values(|s: String| s@) == match config@.array_member("args"@) {
            Some(items) => string_items(items),
            None => Seq::empty(),
        },
{
    match config.get_array("args") {
        Some(items) => crate::approval::strings_of(items),
        None => {
            let r: Vec<String> = Vec::new();
            assert(r@.map_values(|s: String| s@) =~= Seq::<Seq<char>>::empty());
            r
        },
    }
}

/// Whether a text is a `u16` in decimal as `str::parse::<u16>` reads it: an
/// optional `+`, then one or more digits, at most 65535.
pub open spec fn u16_text(t: Seq<char>) -> Option<u16> {
    let digits = if t.len() > 0 && t[0] == '+' {
        t.drop_first()
    } else {
        t
    };
    if digits.len() > 0 && all_digits(digits) && digits_value(digits) <= 65535 {
        Some(digits_value(digits) as u16)
    } else {
        None
    }
}

/// Whether every character of `d` is a decimal digit.
pub open spec fn all_digits(d: Seq<char>) -> bool {
    forall|i: int| 0 <= i < d.len() ==> '0' <= #[trigger] d[i] <= '9'
}

/// The value of a run of decimal digits.
pub open spec fn digits_value(d: Seq<char>) -> nat
    decreases d.len(),
{
    if d.len() == 0 {
        0
    } else {
        digits_value(d.drop_last()) * 10 + ((d.last() as u32 - '0' as u32) as nat)
    }
}

/// `str::parse::<u16>`.
pub fn parse_u16(t: &str) -> (r: Option<u16>)
    ensures
        r == u16_text(t@),
{
    let cs = to_chars(t);
    let start: usize = if cs.len() > 0 && cs[0] == '+' {
        1
    } else {
        0
    };
    let ghost digits = if t@.len() > 0 && t@[0] == '+' {
        t@.drop_first()
    } else {
        t@
    };
    proof {
        assert(digits =~= cs@.subrange(start as int, cs@.len() as int));
    }
    if start >= cs.len() {
        return None;
    }
    let mut value: u32 = 0;
    let mut i: usize = start;
    proof {
        assert(cs@.subrange(start as int, start as int) =~= Seq::<char>::empty());
    }
    while i < cs.len()
        invariant
            cs@ == t@,
            start <= i <= cs@.len(),
            digits =~= cs@.subrange(start as int, cs@.len() as int),
            digits == (if t@.len() > 0 && t@[0] == '+' {
                t@.drop_first()
            } else {
                t@
            }),
            forall|j: int| start <= j < i ==> '0' <= #[trigger] cs@[j] <= '9',
            value == digits_value(cs@.subrange(start as int, i as int)),
            value <= 65535,
        decreases cs@.len() - i,
    {
        let c = cs[i];
        if c < '0' || c > '9' {
            proof {
                assert(digits[i - start] == c);
                assert(!('0' <= digits[i - start] <= '9'));
                assert(!all_digits(digits));
            }
            return None;
        }
        proof {
            assert(cs@.subrange(start as int, i + 1).drop_last() =~= cs@.subrange(start as int, i as int));
        }
        let next = value * 10 + ((c as u32) - ('0' as u32));
        if next > 65535 {
            proof {
                assert(digits.subrange(0, i - start + 1) =~= cs@.subrange(start as int, i + 1));
                if all_digits(digits) {
                    lemma_digits_grow(digits, i - start + 1);
                }
            }
            return None;
        }
        value = next;
        i = i + 1;
    }
    proof {
        assert(cs@.subrange(start as int, i as int) =~= digits);
    }
    Some(value as u16)
}

/// A longer run of digits is worth at least as much as its prefix.
proof fn lemma_digits_grow(d: Seq<char>, k: int)
    requires
        0 <= k <= d.len(),
        all_digits(d),
    ensures
        digits_value(d.subrange(0, k)) <= digits_value(d),
    decreases d.len() - k,
{
    if k < d.len() {
        lemma_digits_grow(d, k + 1);
        assert(d.subrange(0, k + 1).drop_last() =~= d.subrange(0, k));
    } else {
        assert(d.subrange(0, k) =~= d);
    }
}

/// The port the web surface listens on: the row's `port` (cut to 16 bits),
/// else the environment's `PORT` when it is a number, else 8787.
pub open spec fn web_port_of(config: JsonV, env_port: Option<Seq<char>>) -> u16 {
    match config.u64_member("port"@) {
        Some(p) => p as u16,
        None => match env_port {
            Some(t) => match u16_text(t) {
                Some(p) => p,
                None => 8787,
            },
            None => 8787,
        },
    }
}

/// The port the web surface listens on.
pub fn web_port(config: &Json, env_port: Option<&str>) -> (r: u16)
    ensures
        r == web_port_of(
            config@,
            match env_port {
                Some(t) => Some(t@),
                None => None,
            },
        ),
{
    match config.get_u64("port") {
        Some(p) => p as u16,
        None => match env_port {
            Some(t) => match parse_u16(t) {
                Some(p) => p,
                None => 8787,
            },
            None => 8787,
        },
    }
}

/// Whether the web row turns on creation mode (`creation`, default false).
pub fn web_creation(config: &Json) -> (r: bool)
    ensures
        r == (config@.bool_member("creation"@) == Some(true)),
{
    match config.get_bool("creation") {
        Some(b) => b,
        None => false,
    }
}

} // verus!
