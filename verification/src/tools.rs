//! The built-in tools' argument handling and the text they report back.
//!
//! The tools themselves touch the file system, spawn `bash` or fetch URLs; that
//! happens in the host. What they read from their JSON arguments, which
//! requests they refuse, and what they answer is decided here.
use vstd::prelude::*;

use crate::bytes::{byte_len, byte_prefix, is_char_boundary, lemma_byte_prefix, utf8_len, take_bytes};
use crate::error::Error;
use crate::json::{Json, JsonV, json_parse, parse_json};
use crate::text::{
    contains_text, decimal, decimal_text, decimal_wide, first_occurrence, replace_first, replaced_first, trim,
    trimmed,
};

verus! {

/// What a tool's argument text holds: an empty object for blank text, else
/// the JSON it parses to, or the parser's complaint.
pub open spec fn parsed_args(args: Seq<char>) -> Result<JsonV, Seq<char>> {
    if trimmed(args).len() == 0 {
        Ok(JsonV::Object(Seq::empty()))
    } else {
        match json_parse(args) {
            Ok(v) => Ok(v),
            Err(m) => Err("参数不是合法 JSON："@ + m),
        }
    }
}

/// Parses a tool's argument text (blank text is an empty object).
pub fn parse_json_args(args: &str) -> (r: Result<Json, Error>)
    ensures
        match r {
            Ok(v) => parsed_args(args@) == Ok::<JsonV, Seq<char>>(v@),
            Err(e) => e is Component && parsed_args(args@) == Err::<JsonV, Seq<char>>(e.text()),
        },
{
    let t = trim(args);
    if t.as_str().unicode_len() == 0 {
        let empty: Vec<(String, Json)> = Vec::new();
        proof {
            crate::json::lemma_view_fields(empty@);
            assert(crate::json::view_fields(empty@) =~= Seq::<(Seq<char>, JsonV)>::empty());
        }
        return Ok(Json::Object(empty));
    }
    match parse_json(args) {
        Ok(v) => Ok(v),
        Err(m) => {
            let mut text = "参数不是合法 JSON：".to_owned();
            text.append(m.as_str());
            Err(Error::Component(text))
        },
    }
}

/// A required text argument: member `key`, or the complaint that it is missing.
pub open spec fn str_arg(value: JsonV, key: Seq<char>) -> Result<Seq<char>, Seq<char>> {
    match value.str_member(key) {
        Some(t) => Ok(t),
        None => Err("缺少字段 `"@ + key + "`"@),
    }
}

/// Reads the required text argument `key`.
pub fn arg_str(value: &Json, key: &str) -> (r: Result<String, Error>)
    ensures
        match r {
            Ok(t) => str_arg(value@, key@) == Ok::<Seq<char>, Seq<char>>(t@),
            Err(e) => e is Component && str_arg(value@, key@) == Err::<Seq<char>, Seq<char>>(e.text()),
        },
{
    match value.get_str(key) {
        Some(t) => Ok(t.to_owned()),
        None => {
            let mut text = "缺少字段 `".to_owned();
            text.append(key);
            text.append("`");
            Err(Error::Component(text))
        },
    }
}

/// Whether byte offset `n` of `s` is a character boundary (`str::is_char_boundary`).
pub fn char_boundary(s: &str, n: usize) -> (r: bool)
    ensures
        r == is_char_boundary(s@, n as nat),
{
    let chars = crate::text::to_chars(s);
    let ghost cs = chars@;
    let mut used: usize = 0;
    let mut i: usize = 0;
    proof {
        assert(cs.take(0) =~= Seq::<char>::empty());
    }
    while i < chars.len() && used < n
        invariant
            cs == chars@,
            cs == s@,
            i <= cs.len(),
            used as nat == utf8_len(cs.take(i as int)),
            used <= n,
            forall|k: int| 0 <= k < i ==> utf8_len(#[trigger] cs.take(k)) < n,
        decreases cs.len() - i,
    {
        proof {
            crate::bytes::lemma_take_one_more(cs, i as int);
        }
        let c = chars[i];
        let w: usize = if (c as u32) < 0x80 {
            1
        } else if (c as u32) < 0x800 {
            2
        } else if (c as u32) < 0x10000 {
            3
        } else {
            4
        };
        if w > n - used {
            proof {
                assert forall|k: int| 0 <= k <= cs.len() implies utf8_len(#[trigger] cs.take(k)) != n by {
                    if k > i {
                        if k > i + 1 {
                            crate::bytes::lemma_take_grows(cs, i + 1, k);
                        }
                    }
                }
            }
            return false;
        }
        used = used + w;
        i = i + 1;
    }
    if used == n {
        proof {
            assert(utf8_len(cs.take(i as int)) == n);
        }
        true
    } else {
        proof {
            assert forall|k: int| 0 <= k <= cs.len() implies utf8_len(#[trigger] cs.take(k)) != n by {
                if k > i {
                    crate::bytes::lemma_take_grows(cs, i as int, k);
                }
            }
        }
        false
    }
}

/// The most of a document `read_doc` hands out, in bytes.
pub open spec fn read_doc_limit() -> nat {
    24_000
}

/// What `read_doc` answers: the text, or its first 24000 bytes and a note
/// with the full size.
pub open spec fn read_doc_answer(text: Seq<char>) -> Seq<char> {
    if utf8_len(text) > read_doc_limit() {
        byte_prefix(text, read_doc_limit()) + "…\n\n（正文已截断，完整 "@ + decimal_text(utf8_len(text))
            + " 字节。用 outline / cite 看结构或引用。）"@
    } else {
        text
    }
}

/// Whether `read_doc` can answer for `text`: a text over the limit must not
/// have a character across the cut.
pub fn read_doc_cuttable(text: &str) -> (r: bool)
    ensures
        r == (utf8_len(text@) > read_doc_limit() ==> is_char_boundary(text@, read_doc_limit())),
{
    byte_len(text) <= 24_000 || char_boundary(text, 24_000)
}

/// The answer of the `read_doc` tool for a document holding `text`. A cut
/// that would split a character is refused by the caller (the slice would panic).
pub fn read_doc_output(text: &str) -> (r: String)
    requires
        utf8_len(text@) > read_doc_limit() ==> is_char_boundary(text@, read_doc_limit()),
    ensures
        r@ == read_doc_answer(text@),
{
    let n = byte_len(text);
    if n > 24_000 {
        let mut out = take_bytes(text, 24_000);
        out.append("…\n\n（正文已截断，完整 ");
        let size = decimal_wide(n);
        out.append(size.as_str());
        out.append(" 字节。用 outline / cite 看结构或引用。）");
        out
    } else {
        text.to_owned()
    }
}

/// The command `bash` runs: `command` (or `input` when there is no
/// `command` member) when it is text, else the raw argument text; trimmed;
/// blank is refused.
pub open spec fn bash_command_of(args: Seq<char>, value: JsonV) -> Result<Seq<char>, Seq<char>> {
    let picked = match value.member("command"@) {
        Some(v) => v.text(),
        None => value.str_member("input"@),
    };
    let raw = match picked {
        Some(t) => t,
        None => args,
    };
    if trimmed(raw).len() == 0 {
        Err("空命令"@)
    } else {
        Ok(trimmed(raw))
    }
}

/// Reads the command of a `bash` call from its argument text and parsed value.
pub fn bash_command(args: &str, value: &Json) -> (r: Result<String, Error>)
    ensures
        match r {
            Ok(c) => bash_command_of(args@, value@) == Ok::<Seq<char>, Seq<char>>(c@),
            Err(e) => e is Component && bash_command_of(args@, value@) == Err::<Seq<char>, Seq<char>>(e.text()),
        },
{
    let picked: Option<&str> = match value.get("command") {
        Some(v) => v.as_str(),
        None => value.get_str("input"),
    };
    let raw: &str = match picked {
        Some(t) => t,
        None => args,
    };
    let command = trim(raw);
    if command.as_str().unicode_len() == 0 {
        Err(Error::Component("空命令".to_owned()))
    } else {
        Ok(command)
    }
}

/// `n` in decimal with a leading `-` when negative.
pub open spec fn signed_text(n: int) -> Seq<char> {
    if n < 0 {
        "-"@ + decimal_text((-n) as nat)
    } else {
        decimal_text(n as nat)
    }
}

fn signed_decimal(n: i32) -> (r: String)
    ensures
        r@ == signed_text(n as int),
{
    if n < 0 {
        let magnitude: u64 = (0i64 - (n as i64)) as u64;
        let mut out = "-".to_owned();
        let digits = decimal(magnitude);
        out.append(digits.as_str());
        out
    } else {
        decimal(n as u64)
    }
}

/// The transcript of a finished `bash` command, before the size cap: the exit
/// code (-1 when killed by a signal), the working directory, stdout, and stderr
/// under a separator line.
pub open spec fn bash_transcript_text(
    code: Option<i32>,
    cwd: Seq<char>,
    stdout: Seq<char>,
    stderr: Seq<char>,
) -> Seq<char> {
    let head = "exit="@ + signed_text(
        match code {
            Some(c) => c as int,
            None => -1,
        },
    ) + "\ncwd="@ + cwd + "\n"@;
    head + stdout + if stderr.len() > 0 {
        (if stdout.len() > 0 {
            "\n"@
        } else {
            Seq::empty()
        }) + "--- stderr ---\n"@ + stderr
    } else {
        Seq::empty()
    }
}

/// The transcript of a finished `bash` command.
pub fn bash_transcript(code: Option<i32>, cwd: &str, stdout: &str, stderr: &str) -> (r: String)
    ensures
        r@ == bash_transcript_text(code, cwd@, stdout@, stderr@),
{
    let mut text = "exit=".to_owned();
    let shown = signed_decimal(
        match code {
            Some(c) => c,
            None => -1,
        },
    );
    text.append(shown.as_str());
    text.append("\ncwd=");
    text.append(cwd);
    text.append("\n");
    let ghost head = text@;
    let has_out = stdout.unicode_len() > 0;
    text.append(stdout);
    if stderr.unicode_len() > 0 {
        if has_out {
            text.append("\n");
        }
        text.append("--- stderr ---\n");
        text.append(stderr);
    }
    proof {
        let tail = if stderr@.len() > 0 {
            (if stdout@.len() > 0 {
                "\n"@
            } else {
                Seq::<char>::empty()
            }) + "--- stderr ---\n"@ + stderr@
        } else {
            Seq::<char>::empty()
        };
        assert(text@ =~= head + stdout@ + tail);
    }
    text
}

/// The most of a command's output `bash` hands back, in bytes.
pub open spec fn bash_output_limit() -> nat {
    32_000
}

/// A transcript cut to 32000 bytes, with a note when it was cut.
pub open spec fn capped_output_text(text: Seq<char>) -> Seq<char> {
    if utf8_len(text) > bash_output_limit() {
        byte_prefix(text, bash_output_limit()) + "\n…（输出已截断）"@
    } else {
        text
    }
}

/// Whether a transcript can be capped: one over the limit must not have a
/// character across the cut.
pub fn output_cuttable(text: &str) -> (r: bool)
    ensures
        r == (utf8_len(text@) > bash_output_limit() ==> is_char_boundary(text@, bash_output_limit())),
{
    byte_len(text) <= 32_000 || char_boundary(text, 32_000)
}

/// Caps a transcript at 32000 bytes. A cut that would split a character is
/// refused by the caller (`String::truncate` would panic).
pub fn cap_output(text: String) -> (r: String)
    requires
        utf8_len(text@) > bash_output_limit() ==> is_char_boundary(text@, bash_output_limit()),
    ensures
        r@ == capped_output_text(text@),
{
    let n = byte_len(text.as_str());
    if n > 32_000 {
        let mut out = take_bytes(text.as_str(), 32_000);
        out.append("\n…（输出已截断）");
        out
    } else {
        text
    }
}

/// The error text of a command that ran past its 30 seconds.
pub fn bash_timeout_message(command: &str) -> (r: String)
    ensures
        r@ == "命令超时（>30s）："@ + command@,
{
    let mut text = "命令超时（>30s）：".to_owned();
    text.append(command);
    text
}

/// What `write` answers after writing `content` to `target`.
pub fn write_report(target: &str, content: &str) -> (r: String)
    ensures
        r@ == "已写入 "@ + target@ + "（"@ + decimal_text(utf8_len(content@)) + " 字节）"@,
{
    let mut text = "已写入 ".to_owned();
    text.append(target);
    text.append("（");
    let size = decimal_wide(byte_len(content));
    text.append(size.as_str());
    text.append(" 字节）");
    text
}

/// What `edit` does to the text of `target`: the first occurrence of `old`
/// becomes `new`; a text without `old` is refused.
pub open spec fn edited(target: Seq<char>, text: Seq<char>, old: Seq<char>, new: Seq<char>) -> Result<
    Seq<char>,
    Seq<char>,
> {
    if first_occurrence(text, old) is Some {
        Ok(replaced_first(text, old, new))
    } else {
        Err("文件 "@ + target + " 里没有找到要替换的片段"@)
    }
}

/// Applies an `edit` to the text of the file `target`.
pub fn edit_text(target: &str, text: &str, old: &str, new: &str) -> (r: Result<String, Error>)
    ensures
        match r {
            Ok(t) => edited(target@, text@, old@, new@) == Ok::<Seq<char>, Seq<char>>(t@),
            Err(e) => e is Component && edited(target@, text@, old@, new@) == Err::<Seq<char>, Seq<char>>(e.text()),
        },
{
    if !contains_text(text, old) {
        let mut message = "文件 ".to_owned();
        message.append(target);
        message.append(" 里没有找到要替换的片段");
        return Err(Error::Component(message));
    }
    Ok(replace_first(text, old, new))
}

/// What `edit` answers after editing `target`.
pub fn edit_report(target: &str) -> (r: String)
    ensures
        r@ == "已编辑 "@ + target@,
{
    let mut text = "已编辑 ".to_owned();
    text.append(target);
    text
}

/// Whether `t` begins with `p`.
pub open spec fn begins_with(t: Seq<char>, p: Seq<char>) -> bool {
    p.len() <= t.len() && t.subrange(0, p.len() as int) == p
}

fn starts_with_text(t: &str, p: &str) -> (r: bool)
    ensures
        r == begins_with(t@, p@),
{
    let tc = crate::text::to_chars(t);
    let pc = crate::text::to_chars(p);
    if pc.len() > tc.len() {
        return false;
    }
    let mut i: usize = 0;
    while i < pc.len()
        invariant
            tc@ == t@,
            pc@ == p@,
            pc@.len() <= tc@.len(),
            i <= pc@.len(),
            forall|j: int| 0 <= j < i ==> tc@[j] == pc@[j],
        decreases pc@.len() - i,
    {
        if tc[i] != pc[i] {
            assert(tc@.subrange(0, pc@.len() as int)[i as int] != pc@[i as int]);
            assert(tc@.subrange(0, pc@.len() as int) != pc@);
            return false;
        }
        i = i + 1;
    }
    assert(tc@.subrange(0, pc@.len() as int) =~= pc@);
    true
}

/// Whether `web_fetch` accepts the URL: only `http://` and `https://`.
pub open spec fn fetchable(url: Seq<char>) -> bool {
    begins_with(url, "http://"@) || begins_with(url, "https://"@)
}

/// Refuses a URL `web_fetch` does not fetch.
pub fn check_fetch_url(url: &str) -> (r: Result<(), Error>)
    ensures
        r is Ok <==> fetchable(url@),
        match r {
            Err(e) => e is Component && e.text() == "web_fetch 只支持 http:// 或 https://"@,
            Ok(_) => true,
        },
{
    if !starts_with_text(url, "http://") && !starts_with_text(url, "https://") {
        return Err(Error::Component("web_fetch 只支持 http:// 或 https://".to_owned()));
    }
    Ok(())
}

/// Whether a response of this content type is shown as text.
pub open spec fn textual_type(content_type: Seq<char>) -> bool {
    first_occurrence(content_type, "text"@) is Some || first_occurrence(content_type, "json"@) is Some
        || first_occurrence(content_type, "xml"@) is Some || first_occurrence(
        content_type,
        "javascript"@,
    ) is Some
}

/// What `String::from_utf8_lossy` makes of `bytes`: the text, with each
/// invalid sequence replaced by U+FFFD.
pub uninterp spec fn utf8_lossy(bytes: Seq<u8>) -> Seq<char>;

/// `String::from_utf8_lossy`: decodes `bytes`, named by `utf8_lossy`.
#[verifier::external_body]
pub(crate) fn lossy_text(bytes: &[u8]) -> (r: String)
    ensures
        r@ == utf8_lossy(bytes@),
{
    String::from_utf8_lossy(bytes).into_owned()
}

/// The most of a response body `web_fetch` keeps, in bytes.
pub open spec fn fetch_limit() -> nat {
    524_288
}

/// What `web_fetch` answers for a response: the status, the content type
/// (`application/octet-stream` when the header is missing), the URL, then the
/// body (cut to 512 KiB) as text, or a note with its size when it is binary,
/// and a note when it was cut.
pub open spec fn fetch_answer(status: u16, content_type: Option<Seq<char>>, url: Seq<char>, body: Seq<u8>) -> Seq<char> {
    let ct = match content_type {
        Some(t) => t,
        None => "application/octet-stream"@,
    };
    let cut = body.len() > fetch_limit();
    let kept = if cut {
        body.subrange(0, fetch_limit() as int)
    } else {
        body
    };
    let text = if textual_type(ct) {
        utf8_lossy(kept)
    } else {
        "[二进制内容，"@ + decimal_text(kept.len()) + " 字节，Content-Type: "@ + ct + "]"@
    };
    "status="@ + decimal_text(status as nat) + "\ncontent-type="@ + ct + "\nurl="@ + url + "\n\n"@ + text + if cut {
        "\n\n…（响应已截断至 512KB）"@
    } else {
        Seq::empty()
    }
}

/// The answer of `web_fetch` for a response with `status`, the
/// `Content-Type` header, the URL and up to 512 KiB + 1 bytes of body.
pub fn fetch_report(status: u16, content_type: Option<&str>, url: &str, body: Vec<u8>) -> (r: String)
    ensures
        r@ == fetch_answer(
            status,
            match content_type {
                Some(t) => Some(t@),
                None => None,
            },
            url@,
            body@,
        ),
{
    let ct: String = match content_type {
        Some(t) => t.to_owned(),
        None => "application/octet-stream".to_owned(),
    };
    let mut body = body;
    let ghost full = body@;
    let cut = body.len() > 524_288;
    if cut {
        body.truncate(524_288);
        assert(body@ =~= full.subrange(0, fetch_limit() as int));
    }
    let textual = contains_text(ct.as_str(), "text") || contains_text(ct.as_str(), "json")
        || contains_text(ct.as_str(), "xml") || contains_text(ct.as_str(), "javascript");
    let text = if textual {
        lossy_text(body.as_slice())
    } else {
        let mut note = "[二进制内容，".to_owned();
        let size = decimal(body.len() as u64);
        note.append(size.as_str());
        note.append(" 字节，Content-Type: ");
        note.append(ct.as_str());
        note.append("]");
        note
    };
    let mut out = "status=".to_owned();
    let code = decimal(status as u64);
    out.append(code.as_str());
    out.append("\ncontent-type=");
    out.append(ct.as_str());
    out.append("\nurl=");
    out.append(url);
    out.append("\n\n");
    out.append(text.as_str());
    if cut {
        out.append("\n\n…（响应已截断至 512KB）");
    }
    out
}

} // verus!
