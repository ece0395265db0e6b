//! Chat sessions, stored one JSON message per line under `.agent/sessions`.
use vstd::prelude::*;

use crate::error::Error;
use crate::json::{Json, JsonV, json_parse, json_text, lemma_view_items, parse_json, to_json_text, view_items};
use crate::outline::{lines, lines_of};
use crate::paths::{join, joined};
use crate::text::{
    from_chars, hex_text, push_char, push_radix, radix_text, str_eq, to_chars, trim_chars, trimmed,
};

verus! {

/// What the session list shows of one session.
pub struct SessionSummary {
    pub id: String,
    pub title: String,
    pub updated_at: u64,
    pub turns: usize,
}

/// The directory that holds a workspace's sessions.
pub fn sessions_dir(workspace: &str) -> (r: String)
    ensures
        r@ == joined(workspace@, ".agent/sessions"@),
{
    join(workspace, ".agent/sessions")
}

/// The file of session `id`.
pub fn session_path(workspace: &str, id: &str) -> (r: String)
    ensures
        r@ == joined(joined(workspace@, ".agent/sessions"@), id@ + ".jsonl"@),
{
    let dir = sessions_dir(workspace);
    let mut file = id.to_owned();
    file.append(".jsonl");
    join(dir.as_str(), file.as_str())
}

/// An ASCII hexadecimal digit.
pub open spec fn is_hex_digit(c: char) -> bool {
    ('0' <= c <= '9') || ('a' <= c <= 'f') || ('A' <= c <= 'F')
}

/// A session id: `s-` followed by one or more hexadecimal digits.
pub open spec fn is_session_id(id: Seq<char>) -> bool {
    &&& id.len() > 2
    &&& id[0] == 's'
    &&& id[1] == '-'
    &&& forall|i: int| 2 <= i < id.len() ==> is_hex_digit(#[trigger] id[i])
}

/// Whether `id` is a session id (`s-` and hexadecimal digits).
pub fn valid_session_id(id: &str) -> (r: bool)
    ensures
        r == is_session_id(id@),
{
    let v = to_chars(id);
    if v.len() <= 2 || v[0] != 's' || v[1] != '-' {
        return false;
    }
    let mut i: usize = 2;
    while i < v.len()
        invariant
            v@ == id@,
            2 <= i <= v@.len(),
            forall|j: int| 2 <= j < i ==> is_hex_digit(#[trigger] v@[j]),
        decreases v@.len() - i,
    {
        let c = v[i];
        if !(('0' <= c && c <= '9') || ('a' <= c && c <= 'f') || ('A' <= c && c <= 'F')) {
            return false;
        }
        i = i + 1;
    }
    true
}

/// `std::time::SystemTime::now()` as nanoseconds since the Unix epoch (0 for
/// a clock set before it). Nothing is claimed of the value: it is the clock.
#[verifier::external_body]
fn unix_nanos() -> u128 {
    std::time::SystemTime::now().duration_since(std::time::UNIX_EPOCH).map(|d| d.as_nanos()).unwrap_or(0)
}

proof fn lemma_hex_digits(n: nat)
    ensures
        forall|i: int| 0 <= i < hex_text(n).len() ==> is_hex_digit(#[trigger] hex_text(n)[i]),
        hex_text(n).len() >= 1,
    decreases n,
{
    if n >= 16 {
        assert(n / 16 < n);
        lemma_hex_digits(n / 16);
        assert(hex_text(n) == radix_text(n / 16, 16).push(crate::text::digit_char(n % 16)));
    }
}

/// The session id for a clock reading of `nanos`: `s-` and `nanos` in hexadecimal.
pub fn session_id_at(nanos: u128) -> (r: String)
    ensures
        r@ == "s-"@ + hex_text(nanos as nat),
        is_session_id(r@),
{
    let mut s = "s-".to_owned();
    push_radix(&mut s, nanos, 16);
    proof {
        reveal_strlit("s-");
        lemma_hex_digits(nanos as nat);
        assert forall|i: int| 2 <= i < s@.len() implies is_hex_digit(#[trigger] s@[i]) by {
            assert(s@[i] == hex_text(nanos as nat)[i - 2]);
        }
    }
    s
}

/// A fresh session id from the clock; always a valid session id.
pub fn new_session_id() -> (r: String)
    ensures
        is_session_id(r@),
        exists|n: u128| r@ == "s-"@ + hex_text(n as nat),
{
    session_id_at(unix_nanos())
}

/// The most characters a title keeps before it is cut.
pub open spec fn title_limit() -> nat {
    48
}

/// `s` with every line feed turned into a space.
pub open spec fn one_line(s: Seq<char>) -> Seq<char> {
    s.map_values(|c: char| if c == '\n' { ' ' } else { c })
}

/// A title made of `text`: trimmed, on one line, and cut to 48 characters
/// followed by `…` when longer.
pub open spec fn title_of(text: Seq<char>) -> Seq<char> {
    let t = one_line(trimmed(text));
    if t.len() <= title_limit() {
        t
    } else {
        t.take(title_limit() as int).push('…')
    }
}

/// A session title made of the first user message.
pub fn truncate_title(text: &str) -> (r: String)
    ensures
        r@ == title_of(text@),
{
    let v = to_chars(text);
    let t = trim_chars(&v);
    let mut line: Vec<char> = Vec::new();
    let mut i: usize = 0;
    while i < t.len()
        invariant
            i <= t@.len(),
            line@ == one_line(t@.subrange(0, i as int)),
        decreases t@.len() - i,
    {
        let c = t[i];
        line.push(if c == '\n' { ' ' } else { c });
        i = i + 1;
        assert(line@ =~= one_line(t@.subrange(0, i as int)));
    }
    assert(t@.subrange(0, t@.len() as int) =~= t@);
    if line.len() <= 48 {
        return from_chars(&line);
    }
    let mut short: Vec<char> = Vec::new();
    let mut j: usize = 0;
    while j < 48
        invariant
            j <= 48 < line@.len(),
            short@ == line@.take(j as int),
        decreases 48 - j,
    {
        short.push(line[j]);
        j = j + 1;
        assert(short@ =~= line@.take(j as int));
    }
    short.push('…');
    from_chars(&short)
}

/// The role of a message, when it is a string.
pub open spec fn role_of(m: JsonV) -> Option<Seq<char>> {
    m.str_member("role"@)
}

/// Position of the first user message, or `ms.len()`.
pub open spec fn first_user(ms: Seq<JsonV>) -> int
    decreases ms.len(),
{
    if ms.len() == 0 {
        0
    } else if role_of(ms[0]) == Some("user"@) {
        0
    } else {
        1 + first_user(ms.drop_first())
    }
}

proof fn lemma_first_user_at(ms: Seq<JsonV>, i: int)
    requires
        0 <= i <= ms.len(),
        forall|j: int| 0 <= j < i ==> role_of(ms[j]) != Some("user"@),
        i < ms.len() ==> role_of(ms[i]) == Some("user"@),
    ensures
        first_user(ms) == i,
    decreases i,
{
    if i > 0 {
        let rest = ms.drop_first();
        assert forall|j: int| 0 <= j < i - 1 implies role_of(rest[j]) != Some("user"@) by {
            assert(rest[j] == ms[j + 1]);
        }
        if i < ms.len() {
            assert(rest[i - 1] == ms[i]);
        }
        lemma_first_user_at(rest, i - 1);
    }
}

/// A session's title: the first user message's text content as a title, or
/// `新会话` when there is none (or its content is not text).
pub open spec fn session_title_of(ms: Seq<JsonV>) -> Seq<char> {
    let i = first_user(ms);
    if i < ms.len() && ms[i].str_member("content"@) is Some {
        title_of(ms[i].str_member("content"@)->0)
    } else {
        "新会话"@
    }
}

/// A session's title.
pub fn session_title(messages: &[Json]) -> (r: String)
    ensures
        r@ == session_title_of(view_items(messages@)),
{
    let ghost ms = view_items(messages@);
    proof {
        lemma_view_items(messages@);
    }
    let mut i: usize = 0;
    while i < messages.len()
        invariant
            ms == view_items(messages@),
            ms.len() == messages@.len(),
            i <= messages@.len(),
            forall|j: int| 0 <= j < i ==> role_of(ms[j]) != Some("user"@),
        decreases messages@.len() - i,
    {
        proof {
            lemma_view_items(messages@);
        }
        let is_user = match messages[i].get_str("role") {
            Some(role) => str_eq(role, "user"),
            None => false,
        };
        if is_user {
            proof {
                lemma_first_user_at(ms, i as int);
            }
            return match messages[i].get_str("content") {
                Some(content) => truncate_title(content),
                None => "新会话".to_owned(),
            };
        }
        i = i + 1;
    }
    proof {
        lemma_first_user_at(ms, i as int);
    }
    "新会话".to_owned()
}

/// How many messages of `ms` have role `role`.
pub open spec fn count_role(ms: Seq<JsonV>, role: Seq<char>) -> nat
    decreases ms.len(),
{
    if ms.len() == 0 {
        0
    } else {
        count_role(ms.drop_last(), role) + if role_of(ms.last()) == Some(role) { 1nat } else { 0nat }
    }
}

/// How many messages of a history have role `role`.
pub fn count_with_role(messages: &[Json], role: &str) -> (r: usize)
    ensures
        r == count_role(view_items(messages@), role@),
{
    let ghost ms = view_items(messages@);
    proof {
        lemma_view_items(messages@);
    }
    let mut n: usize = 0;
    let mut i: usize = 0;
    while i < messages.len()
        invariant
            ms == view_items(messages@),
            ms.len() == messages@.len(),
            i <= messages@.len(),
            n == count_role(ms.subrange(0, i as int), role@),
            n <= i,
        decreases messages@.len() - i,
    {
        proof {
            lemma_view_items(messages@);
            let s1 = ms.subrange(0, i + 1);
            assert(s1.drop_last() =~= ms.subrange(0, i as int));
            assert(s1.last() == ms[i as int]);
        }
        let matches = match messages[i].get_str("role") {
            Some(r) => str_eq(r, role),
            None => false,
        };
        if matches {
            n = n + 1;
        }
        i = i + 1;
    }
    assert(ms.subrange(0, ms.len() as int) =~= ms);
    n
}

/// The summary of session `id` whose file was last written at `updated_at`
/// (milliseconds) and holds `messages`: its title, and one turn per user message.
pub fn summarize_session(id: &str, messages: &[Json], updated_at: u64) -> (r: SessionSummary)
    ensures
        r.id@ == id@,
        r.title@ == session_title_of(view_items(messages@)),
        r.updated_at == updated_at,
        r.turns == count_role(view_items(messages@), "user"@),
{
    SessionSummary {
        id: id.to_owned(),
        title: session_title(messages),
        updated_at,
        turns: count_with_role(messages, "user"),
    }
}

/// Whether a stored line belongs in the chat history: everything but `system`
/// and `event` records.
pub open spec fn in_history(m: JsonV) -> bool {
    role_of(m) != Some("system"@) && role_of(m) != Some("event"@)
}

/// Whether a stored line is a UI event.
pub open spec fn is_event(m: JsonV) -> bool {
    role_of(m) == Some("event"@)
}

/// The records of `ms` that satisfy `keep`, in order.
pub open spec fn kept(ms: Seq<JsonV>, events: bool) -> Seq<JsonV>
    decreases ms.len(),
{
    if ms.len() == 0 {
        Seq::empty()
    } else {
        let rest = kept(ms.drop_last(), events);
        if (events && is_event(ms.last())) || (!events && in_history(ms.last())) {
            rest.push(ms.last())
        } else {
            rest
        }
    }
}

fn has_role(m: &Json, role: &str) -> (r: bool)
    ensures
        r == (role_of(m@) == Some(role@)),
{
    match m.get_str("role") {
        Some(r) => str_eq(r, role),
        None => false,
    }
}

fn keep_records(records: &Vec<Json>, events: bool) -> (r: Vec<Json>)
    ensures
        view_items(r@) == kept(view_items(records@), events),
{
    let ghost ms = view_items(records@);
    proof {
        lemma_view_items(records@);
    }
    let mut out: Vec<Json> = Vec::new();
    let mut i: usize = 0;
    while i < records.len()
        invariant
            ms == view_items(records@),
            ms.len() == records@.len(),
            i <= records@.len(),
            view_items(out@) == kept(ms.subrange(0, i as int), events),
        decreases records@.len() - i,
    {
        proof {
            lemma_view_items(records@);
            let s1 = ms.subrange(0, i + 1);
            assert(s1.drop_last() =~= ms.subrange(0, i as int));
            assert(s1.last() == ms[i as int]);
        }
        let m = &records[i];
        let keep = if events { has_role(m, "event") } else { !has_role(m, "system") && !has_role(m, "event") };
        if keep {
            let ghost before = out@;
            let c = m.deep_clone();
            out.push(c);
            proof {
                lemma_view_items(before);
                lemma_view_items(out@);
                assert(view_items(out@) =~= view_items(before).push(m@));
            }
        }
        i = i + 1;
    }
    assert(ms.subrange(0, ms.len() as int) =~= ms);
    out
}

/// The chat history among stored records (no `system`, no `event`).
pub fn history_records(records: Vec<Json>) -> (r: Vec<Json>)
    ensures
        view_items(r@) == kept(view_items(records@), false),
{
    keep_records(&records, false)
}

/// The UI events among stored records.
pub fn event_records(records: Vec<Json>) -> (r: Vec<Json>)
    ensures
        view_items(r@) == kept(view_items(records@), true),
{
    keep_records(&records, true)
}

/// What appending `message` to session `id` does: nothing for a `system`
/// message, an error for an invalid id, and otherwise the message is written.
pub fn check_append(id: &str, message: &Json) -> (r: Result<bool, Error>)
    ensures
        !is_session_id(id@) ==> r is Err && r->Err_0 is Component && r->Err_0.text() == "非法 session_id："@ + id@,
        is_session_id(id@) ==> r == Ok::<bool, Error>(role_of(message@) != Some("system"@)),
{
    if !valid_session_id(id) {
        let mut text = "非法 session_id：".to_owned();
        text.append(id);
        return Err(Error::Component(text));
    }
    Ok(!has_role(message, "system"))
}

/// What the lines of a session file hold: the JSON of each non-blank line
/// (trimmed), in order, or the complaint about the first line that is not JSON.
pub open spec fn parsed_records(ls: Seq<Seq<char>>) -> Result<Seq<JsonV>, Seq<char>>
    decreases ls.len(),
{
    if ls.len() == 0 {
        Ok(Seq::empty())
    } else {
        match parsed_records(ls.drop_last()) {
            Err(e) => Err(e),
            Ok(rs) => {
                let t = trimmed(ls.last());
                if t.len() == 0 {
                    Ok(rs)
                } else {
                    match json_parse(t) {
                        Ok(v) => Ok(rs.push(v)),
                        Err(m) => Err("session JSONL 解析失败："@ + m),
                    }
                }
            },
        }
    }
}

/// Reads the records of a session file.
pub fn parse_records(text: &str) -> (r: Result<Vec<Json>, Error>)
    ensures
        match r {
            Ok(rs) => parsed_records(lines_of(text@)) == Ok::<Seq<JsonV>, Seq<char>>(view_items(rs@)),
            Err(e) => e is Component && parsed_records(lines_of(text@)) == Err::<Seq<JsonV>, Seq<char>>(e.text()),
        },
{
    let all = lines(text);
    let ghost ls = lines_of(text@);
    let mut out: Vec<Json> = Vec::new();
    let mut i: usize = 0;
    proof {
        assert(ls.take(0) =~= Seq::<Seq<char>>::empty());
        lemma_view_items(out@);
        assert(view_items(out@) =~= Seq::<JsonV>::empty());
    }
    while i < all.len()
        invariant
            ls == lines_of(text@),
            all@.map_values(|l: String| l@) == ls,
            i <= ls.len(),
            parsed_records(ls.take(i as int)) == Ok::<Seq<JsonV>, Seq<char>>(view_items(out@)),
        decreases ls.len() - i,
    {
        proof {
            assert(ls.take(i + 1).drop_last() =~= ls.take(i as int));
            assert(ls.take(i + 1).last() == all@[i as int]@);
        }
        let t = crate::text::trim(all[i].as_str());
        if t.as_str().unicode_len() > 0 {
            match parse_json(t.as_str()) {
                Ok(v) => {
                    let ghost before = out@;
                    let ghost vv = v@;
                    out.push(v);
                    proof {
                        lemma_view_items(before);
                        lemma_view_items(out@);
                        assert(view_items(out@) =~= view_items(before).push(vv));
                    }
                },
                Err(m) => {
                    let mut text = "session JSONL 解析失败：".to_owned();
                    text.append(m.as_str());
                    proof {
                        assert(parsed_records(ls.take(i + 1)) == Err::<Seq<JsonV>, Seq<char>>(text@));
                        lemma_parsed_prefix_err(ls, i + 1);
                    }
                    return Err(Error::Component(text));
                },
            }
        }
        i = i + 1;
    }
    proof {
        assert(ls.take(ls.len() as int) =~= ls);
    }
    Ok(out)
}

/// Once a prefix fails, every longer prefix fails the same way.
proof fn lemma_parsed_prefix_err(ls: Seq<Seq<char>>, k: int)
    requires
        0 <= k <= ls.len(),
        parsed_records(ls.take(k)) is Err,
    ensures
        parsed_records(ls) == parsed_records(ls.take(k)),
    decreases ls.len() - k,
{
    if k < ls.len() {
        assert(ls.take(k + 1).drop_last() =~= ls.take(k));
        lemma_parsed_prefix_err(ls, k + 1);
    } else {
        assert(ls.take(k) =~= ls);
    }
}

/// The chat history stored in a session file's text (no `system`, no `event`).
pub fn session_messages(text: &str) -> (r: Result<Vec<Json>, Error>)
    ensures
        match r {
            Ok(ms) => exists|rs: Seq<JsonV>|
                parsed_records(lines_of(text@)) == Ok::<Seq<JsonV>, Seq<char>>(rs) && view_items(ms@) == kept(rs, false),
            Err(e) => e is Component && parsed_records(lines_of(text@)) == Err::<Seq<JsonV>, Seq<char>>(e.text()),
        },
{
    let records = parse_records(text)?;
    Ok(history_records(records))
}

/// The UI events stored in a session file's text.
pub fn session_events(text: &str) -> (r: Result<Vec<Json>, Error>)
    ensures
        match r {
            Ok(ms) => exists|rs: Seq<JsonV>|
                parsed_records(lines_of(text@)) == Ok::<Seq<JsonV>, Seq<char>>(rs) && view_items(ms@) == kept(rs, true),
            Err(e) => e is Component && parsed_records(lines_of(text@)) == Err::<Seq<JsonV>, Seq<char>>(e.text()),
        },
{
    let records = parse_records(text)?;
    Ok(event_records(records))
}

/// The line `append_message` writes for a message: its compact JSON text and
/// a line feed.
pub fn session_line(message: &Json) -> (r: String)
    ensures
        r@ == json_text(message@) + "\n"@,
{
    let mut line = to_json_text(message);
    line.append("\n");
    line
}

/// The abstract value of a [`SessionSummary`].
pub struct SummaryV {
    pub id: Seq<char>,
    pub title: Seq<char>,
    pub updated_at: u64,
    pub turns: usize,
}

impl View for SessionSummary {
    type V = SummaryV;

    open spec fn view(&self) -> SummaryV {
        SummaryV { id: self.id@, title: self.title@, updated_at: self.updated_at, turns: self.turns }
    }
}

/// `s` inserted into the newest-first list `sorted` after every summary not older than it.
pub open spec fn insert_by_time(sorted: Seq<SummaryV>, s: SummaryV) -> Seq<SummaryV>
    decreases sorted.len(),
{
    if sorted.len() == 0 {
        seq![s]
    } else if s.updated_at > sorted.last().updated_at {
        insert_by_time(sorted.drop_last(), s).push(sorted.last())
    } else {
        sorted.push(s)
    }
}

/// The summaries newest first; summaries written at the same time keep their order.
pub open spec fn newest_first(s: Seq<SummaryV>) -> Seq<SummaryV>
    decreases s.len(),
{
    if s.len() == 0 {
        Seq::empty()
    } else {
        insert_by_time(newest_first(s.drop_last()), s.last())
    }
}

proof fn lemma_insert_by_time_at(s: Seq<SummaryV>, e: SummaryV, p: int)
    requires
        0 <= p <= s.len(),
        forall|q: int| p <= q < s.len() ==> e.updated_at > (#[trigger] s[q]).updated_at,
        p == 0 || e.updated_at <= s[p - 1].updated_at,
    ensures
        insert_by_time(s, e) == s.take(p) + seq![e] + s.skip(p),
    decreases s.len(),
{
    if s.len() == 0 {
        assert(s.take(p) + seq![e] + s.skip(p) =~= seq![e]);
    } else if p == s.len() {
        assert(s.take(p) + seq![e] + s.skip(p) =~= s.push(e));
    } else {
        let d = s.drop_last();
        assert forall|q: int| p <= q < d.len() implies e.updated_at > (#[trigger] d[q]).updated_at by {
            assert(d[q] == s[q]);
        }
        if p > 0 {
            assert(d[p - 1] == s[p - 1]);
        }
        assert(e.updated_at > s[s.len() - 1].updated_at);
        lemma_insert_by_time_at(d, e, p);
        assert(d.take(p) + seq![e] + d.skip(p) + seq![s.last()] =~= s.take(p) + seq![e] + s.skip(p));
    }
}

fn copy_summary(s: &SessionSummary) -> (r: SessionSummary)
    ensures
        r@ == s@,
{
    SessionSummary { id: s.id.clone(), title: s.title.clone(), updated_at: s.updated_at, turns: s.turns }
}

/// Orders session summaries newest first (by `updated_at`); ties keep their order.
pub fn sort_sessions(summaries: Vec<SessionSummary>) -> (r: Vec<SessionSummary>)
    ensures
        r@.map_values(|s: SessionSummary| s@) == newest_first(summaries@.map_values(|s: SessionSummary| s@)),
{
    let ghost ss = summaries@.map_values(|s: SessionSummary| s@);
    let mut out: Vec<SessionSummary> = Vec::new();
    let mut i: usize = 0;
    proof {
        assert(ss.take(0) =~= Seq::<SummaryV>::empty());
        assert(out@.map_values(|s: SessionSummary| s@) =~= Seq::<SummaryV>::empty());
    }
    while i < summaries.len()
        invariant
            ss == summaries@.map_values(|s: SessionSummary| s@),
            i <= ss.len(),
            out@.map_values(|s: SessionSummary| s@) == newest_first(ss.take(i as int)),
        decreases ss.len() - i,
    {
        let ghost sorted = out@.map_values(|s: SessionSummary| s@);
        let e = copy_summary(&summaries[i]);
        let mut pos: usize = out.len();
        while pos > 0 && e.updated_at > out[pos - 1].updated_at
            invariant
                sorted == out@.map_values(|s: SessionSummary| s@),
                pos <= out@.len(),
                forall|q: int| pos <= q < sorted.len() ==> e.updated_at > (#[trigger] sorted[q]).updated_at,
            decreases pos,
        {
            pos = pos - 1;
        }
        proof {
            lemma_insert_by_time_at(sorted, e@, pos as int);
            assert(ss.take(i + 1).drop_last() =~= ss.take(i as int));
            assert(ss.take(i + 1).last() == e@);
        }
        let ghost ev = e@;
        out.insert(pos, e);
        proof {
            assert(out@.map_values(|s: SessionSummary| s@) =~= sorted.take(pos as int) + seq![ev] + sorted.skip(
                pos as int,
            ));
        }
        i = i + 1;
    }
    proof {
        assert(ss.take(ss.len() as int) =~= ss);
    }
    out
}

} // verus!
