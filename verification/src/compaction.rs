//! Compaction of an OpenAI-style chat history (without the system message).
use vstd::prelude::*;

use crate::json::{
    Json, JsonV, json_text, lemma_view_items, to_json_text, view_items,
};
use crate::text::{decimal, decimal_text};

verus! {

/// Limits applied to the history before each request.
pub struct CompactionConfig {
    pub max_messages: usize,
    pub max_chars: usize,
    pub keep_recent: usize,
    pub max_tool_chars: usize,
}

impl Default for CompactionConfig {
    fn default() -> (r: Self)
        ensures
            r.max_messages == 48,
            r.max_chars == 64_000,
            r.keep_recent == 24,
            r.max_tool_chars == 8_000,
    {
        CompactionConfig { max_messages: 48, max_chars: 64_000, keep_recent: 24, max_tool_chars: 8_000 }
    }
}

/// The section of a plugin config that holds the compaction limits: member
/// `compaction` when present, otherwise the config itself.
pub open spec fn compaction_section(config: JsonV) -> JsonV {
    match config.member("compaction"@) {
        Some(section) => section,
        None => config,
    }
}

/// A limit read from `section`, or `default` when missing or not a
/// non-negative integer.
pub open spec fn limit_of(section: JsonV, key: Seq<char>, default: u64) -> usize {
    (match section.u64_member(key) {
        Some(n) => n,
        None => default,
    }) as usize
}

/// The limits a plugin config sets (defaults for missing fields).
pub open spec fn compaction_config_of(config: JsonV) -> CompactionConfig {
    CompactionConfig {
        max_messages: limit_of(compaction_section(config), "max_messages"@, 48),
        max_chars: limit_of(compaction_section(config), "max_chars"@, 64_000),
        keep_recent: limit_of(compaction_section(config), "keep_recent"@, 24),
        max_tool_chars: limit_of(compaction_section(config), "max_tool_chars"@, 8_000),
    }
}

impl CompactionConfig {
    /// Whether compaction is switched off.
    pub open spec fn is_disabled(self) -> bool {
        self.max_messages == 0 && self.max_chars == 0
    }

    /// Reads the limits from a plugin config; missing fields keep their defaults.
    pub fn from_config(config: &Json) -> (r: Self)
        ensures
            r.max_messages == limit_of(compaction_section(config@), "max_messages"@, 48),
            r.max_chars == limit_of(compaction_section(config@), "max_chars"@, 64_000),
            r.keep_recent == limit_of(compaction_section(config@), "keep_recent"@, 24),
            r.max_tool_chars == limit_of(compaction_section(config@), "max_tool_chars"@, 8_000),
            r == compaction_config_of(config@),
    {
        let section = match config.get("compaction") {
            Some(section) => section,
            None => config,
        };
        CompactionConfig {
            max_messages: unwrap_or(section.get_u64("max_messages"), 48) as usize,
            max_chars: unwrap_or(section.get_u64("max_chars"), 64_000) as usize,
            keep_recent: unwrap_or(section.get_u64("keep_recent"), 24) as usize,
            max_tool_chars: unwrap_or(section.get_u64("max_tool_chars"), 8_000) as usize,
        }
    }

    /// Whether compaction is switched off (no message limit and no size limit).
    pub fn disabled(&self) -> (r: bool)
        ensures
            r == self.is_disabled(),
    {
        self.max_messages == 0 && self.max_chars == 0
    }
}

fn unwrap_or(v: Option<u64>, default: u64) -> (r: u64)
    ensures
        r == match v {
            Some(n) => n,
            None => default,
        },
{
    match v {
        Some(n) => n,
        None => default,
    }
}

/// What one compaction did.
#[derive(PartialEq, Eq, Structural)]
pub struct CompactionReport {
    pub truncated_tools: usize,
    pub dropped_messages: usize,
}

impl Default for CompactionReport {
    fn default() -> (r: Self)
        ensures
            r.truncated_tools == 0,
            r.dropped_messages == 0,
    {
        CompactionReport { truncated_tools: 0, dropped_messages: 0 }
    }
}

/// The text that replaces the tail of an over-long tool output.
pub open spec fn tool_cut_note(max: nat) -> Seq<char> {
    "\n…（tool 输出已截断至 "@ + decimal_text(max) + " 字）"@
}

/// A `tool` message whose text content has more than `max` characters.
pub open spec fn is_long_tool_message(m: JsonV, max: nat) -> bool {
    &&& m.str_member("role"@) == Some("tool"@)
    &&& m.str_member("content"@) is Some
    &&& m.str_member("content"@)->0.len() > max
}

/// A message after tool-output truncation: a long tool message keeps its first
/// `max` characters followed by the cut note; every other message is unchanged.
pub open spec fn truncated_message(m: JsonV, max: nat) -> JsonV {
    if is_long_tool_message(m, max) {
        m.with_member(
            "content"@,
            JsonV::Str(m.str_member("content"@)->0.take(max as int) + tool_cut_note(max)),
        )
    } else {
        m
    }
}

/// Every message after tool-output truncation.
pub open spec fn truncated_messages(ms: Seq<JsonV>, max: nat) -> Seq<JsonV> {
    ms.map_values(|m: JsonV| truncated_message(m, max))
}

/// How many messages of `ms` are long tool messages.
pub open spec fn long_tool_count(ms: Seq<JsonV>, max: nat) -> nat
    decreases ms.len(),
{
    if ms.len() == 0 {
        0
    } else {
        long_tool_count(ms.drop_last(), max) + if is_long_tool_message(ms.last(), max) {
            1nat
        } else {
            0nat
        }
    }
}

/// UTF-8 size of the JSON text of one message, as `str::len` reports it.
pub open spec fn message_size(m: JsonV) -> nat {
    (vstd::utf8::encode_utf8(json_text(m)).len() as usize) as nat
}

/// UTF-8 size of the JSON text of each message, summed.
pub open spec fn text_size(ms: Seq<JsonV>) -> nat
    decreases ms.len(),
{
    if ms.len() == 0 {
        0
    } else {
        text_size(ms.drop_last()) + message_size(ms.last())
    }
}

/// `text_size`, capped at `usize::MAX`.
pub open spec fn capped_text_size(ms: Seq<JsonV>) -> nat {
    if text_size(ms) <= usize::MAX {
        text_size(ms)
    } else {
        usize::MAX as nat
    }
}

/// The assistant message that stands in for the dropped ones.
pub open spec fn dropped_note(dropped: nat, keep: nat) -> JsonV {
    JsonV::Object(
        seq![
            ("content"@, JsonV::Str(
                "（较早的 "@ + decimal_text(dropped) + " 条消息已压缩省略，仅保留最近 "@
                    + decimal_text(keep) + " 条。）"@,
            )),
            ("role"@, JsonV::Str("assistant"@)),
        ],
    )
}

/// How many recent messages survive a drop: `keep_recent`, at least one, at
/// most all of them.
pub open spec fn kept_count(config: CompactionConfig, n: nat) -> nat {
    let k: nat = if config.keep_recent >= 1 { config.keep_recent as nat } else { 1 };
    if k <= n { k } else { n }
}

/// Whether the truncated history is within both limits.
pub open spec fn within_limits(out: Seq<JsonV>, config: CompactionConfig) -> bool {
    out.len() <= config.max_messages && capped_text_size(out) <= config.max_chars
}

/// The compacted history.
pub open spec fn compacted(ms: Seq<JsonV>, config: CompactionConfig) -> Seq<JsonV> {
    if config.is_disabled() || ms.len() == 0 {
        ms
    } else {
        let out = truncated_messages(ms, config.max_tool_chars as nat);
        let keep = kept_count(config, out.len());
        if within_limits(out, config) || out.len() == keep {
            out
        } else {
            seq![dropped_note((out.len() - keep) as nat, keep)] + out.subrange(
                out.len() - keep,
                out.len() as int,
            )
        }
    }
}

/// The report of that compaction.
pub open spec fn compaction_report(ms: Seq<JsonV>, config: CompactionConfig) -> (nat, nat) {
    if config.is_disabled() || ms.len() == 0 {
        (0, 0)
    } else {
        let out = truncated_messages(ms, config.max_tool_chars as nat);
        let keep = kept_count(config, out.len());
        let truncated = long_tool_count(ms, config.max_tool_chars as nat);
        if within_limits(out, config) || out.len() == keep {
            (truncated, 0)
        } else {
            (truncated, (out.len() - keep) as nat)
        }
    }
}

/// Compacts an OpenAI-style history (without the system message): long tool
/// outputs are cut to `max_tool_chars` characters, and when the history is
/// still over `max_messages` messages or `max_chars` bytes of JSON, everything
/// but the `keep_recent` most recent messages is replaced by one note.
pub fn compact(messages: &[Json], config: &CompactionConfig) -> (r: (Vec<Json>, CompactionReport))
    ensures
        view_items(r.0@) == compacted(view_items(messages@), *config),
        (r.1.truncated_tools as nat, r.1.dropped_messages as nat) == compaction_report(
            view_items(messages@),
            *config,
        ),
{
    proof {
        lemma_view_items(messages@);
    }
    if config.disabled() || messages.len() == 0 {
        return (copy_all(messages), CompactionReport::default());
    }
    let mut report = CompactionReport::default();
    let ghost ms = view_items(messages@);
    let mut out: Vec<Json> = Vec::new();
    let mut i: usize = 0;
    while i < messages.len()
        invariant
            ms == view_items(messages@),
            ms.len() == messages@.len(),
            i <= messages@.len(),
            out@.len() == i,
            forall|j: int|
                0 <= j < i ==> (#[trigger] out@[j])@ == truncated_message(
                    ms[j],
                    config.max_tool_chars as nat,
                ),
            report.truncated_tools == long_tool_count(ms.subrange(0, i as int), config.max_tool_chars as nat),
            report.truncated_tools <= i,
            report.dropped_messages == 0,
        decreases messages@.len() - i,
    {
        proof {
            lemma_view_items(messages@);
            let s1 = ms.subrange(0, i + 1);
            assert(s1.drop_last() =~= ms.subrange(0, i as int));
            assert(s1.last() == ms[i as int]);
            assert(ms[i as int] == messages@[i as int]@);
        }
        let m = truncate_tool_message(&messages[i], config.max_tool_chars, &mut report);
        out.push(m);
        i = i + 1;
    }
    let ghost t = truncated_messages(ms, config.max_tool_chars as nat);
    proof {
        lemma_view_items(out@);
        assert(view_items(out@) =~= t);
        assert(ms.subrange(0, ms.len() as int) =~= ms);
    }
    if out.len() <= config.max_messages && message_chars(&out) <= config.max_chars {
        return (out, report);
    }
    let k = if config.keep_recent >= 1 { config.keep_recent } else { 1 };
    let keep = if k <= out.len() { k } else { out.len() };
    let dropped = out.len() - keep;
    if dropped == 0 {
        return (out, report);
    }
    let tail = out.split_off(out.len() - keep);
    report.dropped_messages = dropped;
    let mut compacted_out: Vec<Json> = Vec::new();
    compacted_out.push(dropped_note_message(dropped, keep));
    let mut tail = tail;
    compacted_out.append(&mut tail);
    proof {
        lemma_view_items(compacted_out@);
        lemma_view_items(tail@);
        assert(view_items(compacted_out@) =~= seq![dropped_note(dropped as nat, keep as nat)]
            + t.subrange(t.len() - keep, t.len() as int));
    }
    (compacted_out, report)
}

fn dropped_note_message(dropped: usize, keep: usize) -> (r: Json)
    ensures
        r@ == dropped_note(dropped as nat, keep as nat),
{
    let mut text = "（较早的 ".to_owned();
    text.append(decimal(dropped as u64).as_str());
    text.append(" 条消息已压缩省略，仅保留最近 ");
    text.append(decimal(keep as u64).as_str());
    text.append(" 条。）");
    let mut fields: Vec<(String, Json)> = Vec::new();
    fields.push(("content".to_owned(), Json::Str(text)));
    fields.push(("role".to_owned(), Json::Str("assistant".to_owned())));
    proof {
        crate::json::lemma_view_fields(fields@);
        assert(fields@[0].1@ == JsonV::Str(
            "（较早的 "@ + decimal_text(dropped as nat) + " 条消息已压缩省略，仅保留最近 "@
                + decimal_text(keep as nat) + " 条。）"@,
        ));
        assert(crate::json::view_fields(fields@) =~= seq![
            ("content"@, JsonV::Str(
                "（较早的 "@ + decimal_text(dropped as nat) + " 条消息已压缩省略，仅保留最近 "@
                    + decimal_text(keep as nat) + " 条。）"@,
            )),
            ("role"@, JsonV::Str("assistant"@)),
        ]);
    }
    Json::Object(fields)
}

fn copy_all(messages: &[Json]) -> (r: Vec<Json>)
    ensures
        view_items(r@) == view_items(messages@),
{
    let mut out: Vec<Json> = Vec::new();
    let mut i: usize = 0;
    while i < messages.len()
        invariant
            i <= messages@.len(),
            out@.len() == i,
            forall|j: int| 0 <= j < i ==> (#[trigger] out@[j])@ == messages@[j]@,
        decreases messages@.len() - i,
    {
        out.push(messages[i].deep_clone());
        i = i + 1;
    }
    proof {
        lemma_view_items(out@);
        lemma_view_items(messages@);
        assert(view_items(out@) =~= view_items(messages@));
    }
    out
}

/// Cuts one long tool output and counts it in the report.
fn truncate_tool_message(message: &Json, max_tool_chars: usize, report: &mut CompactionReport) -> (r: Json)
    requires
        old(report).truncated_tools < usize::MAX,
    ensures
        r@ == truncated_message(message@, max_tool_chars as nat),
        final(report).truncated_tools == old(report).truncated_tools + if is_long_tool_message(
            message@,
            max_tool_chars as nat,
        ) {
            1nat
        } else {
            0nat
        },
        final(report).dropped_messages == old(report).dropped_messages,
{
    let is_tool = match message.get_str("role") {
        Some(role) => crate::text::str_eq(role, "tool"),
        None => false,
    };
    if !is_tool {
        return message.deep_clone();
    }
    let content = match message.get_str("content") {
        Some(content) => content,
        None => {
            return message.deep_clone();
        },
    };
    if content.unicode_len() <= max_tool_chars {
        return message.deep_clone();
    }
    report.truncated_tools = report.truncated_tools + 1;
    let mut text = content.substring_char(0, max_tool_chars).to_owned();
    text.append("\n…（tool 输出已截断至 ");
    text.append(decimal(max_tool_chars as u64).as_str());
    text.append(" 字）");
    let ghost body = content@.take(max_tool_chars as int);
    assert(text@ =~= body + tool_cut_note(max_tool_chars as nat));
    let copy = message.deep_clone();
    copy.with_member("content", Json::Str(text))
}

/// UTF-8 size of the JSON text of every message, summed (capped at `usize::MAX`).
fn message_chars(messages: &Vec<Json>) -> (r: usize)
    ensures
        r == capped_text_size(view_items(messages@)),
{
    let ghost ms = view_items(messages@);
    proof {
        lemma_view_items(messages@);
    }
    let mut total: usize = 0;
    let mut i: usize = 0;
    while i < messages.len()
        invariant
            ms == view_items(messages@),
            ms.len() == messages@.len(),
            i <= messages@.len(),
            total == capped_text_size(ms.subrange(0, i as int)),
        decreases messages@.len() - i,
    {
        let text = to_json_text(&messages[i]);
        let size = text.as_str().len();
        proof {
            lemma_view_items(messages@);
            let s1 = ms.subrange(0, i + 1);
            assert(s1.drop_last() =~= ms.subrange(0, i as int));
            assert(s1.last() == ms[i as int]);
            assert(ms[i as int] == messages@[i as int]@);
            assert(size == message_size(ms[i as int]));
            assert(text_size(s1) == text_size(ms.subrange(0, i as int)) + size);
        }
        total = if total <= usize::MAX - size { total + size } else { usize::MAX };
        i = i + 1;
    }
    proof {
        assert(ms.subrange(0, ms.len() as int) =~= ms);
    }
    total
}

} // verus!
