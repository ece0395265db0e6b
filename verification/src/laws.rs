//! Properties that hold across the library's operations.
use vstd::prelude::*;

use crate::approval::{Pending, ids_unique, taken};
use crate::chat::{CallV, Dialect, outgoing, parsed_call, reply_message, tool_message, sanitized, without_index, without_key, ActionV, EventV, TurnV, Waiting, advanced, after_reply, after_tool, answers, begin_round, turn_wf};
use crate::compaction::{CompactionConfig, compacted, compaction_report, kept_count, long_tool_count, truncated_messages};
use crate::creation::{DefinitionV, planned_definition};
use crate::text::{first_occurrence, lemma_find_from, occurs_at};
use crate::tools::{edited, parsed_args};
use crate::bytes::{byte_prefix, is_char_boundary, utf8_len};
use crate::error::Error;
use crate::outline::{line_scan, lines_of, strip_cr};
use crate::text::trimmed;
use crate::host::{document_capability, first_unexposed};
use crate::json::{json_parse, json_text, JsonV, field_index, field_of, fields_with, lemma_field_index, lemma_field_of_prefix};
use crate::roster::{PluginV, without_name};
use crate::session::{parsed_records, SummaryV, in_history, insert_by_time, is_event, kept, newest_first, one_line, title_of};
use crate::text::{lemma_text_lt_total, lemma_text_lt_trans, text_lt};
use crate::toolbox::{ToolV, lemma_lookups_determine_table, lemma_tool_named_at, names_sorted, tool_named};
use crate::workspace::{DirEntryV, insert_in_order, lower, sorted_listing, sorts_before};
use crate::workspace_store::{flagged, other_than, recent_limit, touched, touched_registry, RegistryV};

verus! {

/// Deciding a proposal by its id right after proposing it undoes the
/// proposal: the proposal itself comes back and the queue is as before.
pub proof fn law_decision_undoes_proposal(
    before: Seq<Pending>,
    proposed: Pending,
    after: Seq<Pending>,
    id: &str,
    r: Result<Pending, Error>,
)
    requires
        ids_unique(before.push(proposed)),
        proposed.install.id@ == id@,
        taken(before.push(proposed), after, Some(id), r),
    ensures
        r == Ok::<Pending, Error>(proposed),
        after == before,
{
    let q = before.push(proposed);
    let last = before.len() as int;
    assert(q[last] == proposed);
    assert(crate::approval::has_id(q, id@));
    match r {
        Ok(p) => {
            let i = choose|i: int|
                0 <= i < q.len() && q[i] == p && after == q.remove(i) && p.install.id@ == id@;
            if i != last {
                assert(q[i].install.id@ == q[last].install.id@);
            }
            assert(q.remove(last) =~= before);
        },
        Err(_) => {},
    }
}

/// A decision without an id takes the oldest proposal.
pub proof fn law_oldest_first(before: Seq<Pending>, after: Seq<Pending>, p: Pending)
    requires
        taken(before, after, None, Ok(p)),
    ensures
        before.len() > 0,
        p == before[0],
        after == before.drop_first(),
{
    let i = choose|i: int| 0 <= i < before.len() && before[i] == p && after == before.remove(i) && i == 0;
    assert(before.remove(0) =~= before.drop_first());
}

/// Forgetting a name that is not on the roster changes nothing.
proof fn lemma_without_absent(plugins: Seq<PluginV>, name: Seq<char>)
    requires
        forall|i: int| 0 <= i < plugins.len() ==> plugins[i].name != name,
    ensures
        without_name(plugins, name) == plugins,
    decreases plugins.len(),
{
    if plugins.len() > 0 {
        lemma_without_absent(plugins.drop_last(), name);
        assert(plugins.drop_last().push(plugins.last()) =~= plugins);
    }
}

/// Unmounting a plugin undoes announcing it: when no plugin of that name was
/// on the roster, removing the name after pushing it leaves the roster as it was.
pub proof fn law_roster_remove_undoes_push(plugins: Seq<PluginV>, p: PluginV)
    requires
        forall|i: int| 0 <= i < plugins.len() ==> plugins[i].name != p.name,
    ensures
        without_name(plugins.push(p), p.name) == plugins,
{
    assert(plugins.push(p).drop_last() =~= plugins);
    lemma_without_absent(plugins, p.name);
}

/// Forgetting a name leaves no plugin of that name on the roster.
pub proof fn law_roster_remove_forgets(plugins: Seq<PluginV>, name: Seq<char>)
    ensures
        forall|i: int| 0 <= i < without_name(plugins, name).len() ==> without_name(plugins, name)[i].name != name,
    decreases plugins.len(),
{
    if plugins.len() > 0 {
        law_roster_remove_forgets(plugins.drop_last(), name);
        let rest = without_name(plugins.drop_last(), name);
        let r = without_name(plugins, name);
        assert forall|i: int| 0 <= i < r.len() implies r[i].name != name by {
            if plugins.last().name != name && i == rest.len() {
                assert(r[i] == plugins.last());
            } else {
                assert(r[i] == rest[i]);
            }
        }
    }
}

/// Switched-off compaction hands the history back unchanged.
pub proof fn law_disabled_compaction_is_identity(history: Seq<JsonV>, config: CompactionConfig)
    requires
        config.is_disabled(),
    ensures
        compacted(history, config) == history,
{
}

/// Compaction never loses the most recent messages: the compacted history
/// ends with the last `keep_recent` messages (tool outputs cut), and holds at
/// most one message more than those when it had to drop the middle.
pub proof fn law_compaction_keeps_recent(history: Seq<JsonV>, config: CompactionConfig)
    requires
        !config.is_disabled(),
        history.len() > 0,
    ensures
        ({
            let out = truncated_messages(history, config.max_tool_chars as nat);
            let keep = kept_count(config, out.len());
            let c = compacted(history, config);
            &&& keep <= c.len()
            &&& c.subrange(c.len() - keep, c.len() as int) == out.subrange(out.len() - keep, out.len() as int)
            &&& (c.len() == out.len() || c.len() == keep + 1)
        }),
{
    let out = truncated_messages(history, config.max_tool_chars as nat);
    let keep = kept_count(config, out.len());
    let c = compacted(history, config);
    if crate::compaction::within_limits(out, config) || out.len() == keep {
        assert(c == out);
    } else {
        let tail = out.subrange(out.len() - keep, out.len() as int);
        assert(c.subrange(c.len() - keep, c.len() as int) =~= tail);
    }
}

/// A turn asks the model at most `max_rounds` times: every step keeps the
/// invariant (so the round never passes `max_rounds`), a step that asks the
/// model starts exactly one more round, and any other step starts none.
pub proof fn law_turn_rounds_bounded(s: TurnV, event: EventV)
    requires
        turn_wf(s),
        answers(s.waiting, event),
    ensures
        ({
            let (s2, action) = advanced(s, event);
            &&& turn_wf(s2)
            &&& s2.max_rounds == s.max_rounds
            &&& s2.round <= s2.max_rounds
            &&& (action is Ask ==> s2.round == s.round + 1)
            &&& (!(action is Ask) ==> s2.round == s.round)
            &&& (action is Finish <==> s2.waiting == Waiting::Finished)
        }),
{
}

/// A finished turn answers nothing more.
pub proof fn law_finished_turn_is_done(s: TurnV, event: EventV)
    requires
        s.waiting == Waiting::Finished,
    ensures
        !answers(s.waiting, event),
{
}

/// Starting a round either asks the model for round one more, or, when the
/// rounds are spent, finishes with the exhausted-rounds reply.
pub proof fn law_begin_round(s: TurnV)
    requires
        s.round <= s.max_rounds,
    ensures
        ({
            let (s2, action) = begin_round(s);
            &&& (s.round < s.max_rounds ==> action is Ask && s2.round == s.round + 1)
            &&& (s.round == s.max_rounds ==> action is Finish && s2.reply == crate::chat::rounds_exhausted())
        }),
{
}

/// Using a workspace puts it first in the recent list, keeps the list to
/// twelve entries, lists it once, and drops nothing else but the overflow.
pub proof fn law_touch_recent(recent: Seq<Seq<char>>, key: Seq<char>)
    ensures
        ({
            let t = touched(recent, key);
            &&& t.len() > 0 && t[0] == key
            &&& t.len() <= recent_limit()
            &&& forall|i: int| 0 < i < t.len() ==> t[i] != key
            &&& forall|i: int| 0 < i < t.len() ==> recent.contains(#[trigger] t[i])
        }),
{
    broadcast use vstd::seq_lib::group_filter_ensures;
    let rest = recent.filter(other_than(key));
    let all = seq![key] + rest;
    let t = touched(recent, key);
    assert(t == if all.len() > recent_limit() { all.take(recent_limit() as int) } else { all });
    assert(t.len() <= all.len());
    assert(t[0] == all[0]);
    assert forall|i: int| 0 < i < t.len() implies t[i] != key && recent.contains(#[trigger] t[i]) by {
        assert(t[i] == all[i]);
        assert(all[i] == rest[i - 1]);
        assert(rest.contains(rest[i - 1]));
        recent.lemma_filter_contains_rev(other_than(key), rest[i - 1]);
    }
}

/// Using the same workspace twice in a row is the same as using it once.
pub proof fn law_touch_recent_idempotent(recent: Seq<Seq<char>>, key: Seq<char>)
    ensures
        touched(touched(recent, key), key) == touched(recent, key),
{
    let f = other_than(key);
    let t = touched(recent, key);
    law_touch_recent(recent, key);
    let tail = t.drop_first();
    assert forall|i: int| 0 <= i < tail.len() implies tail[i] != key by {
        assert(tail[i] == t[i + 1]);
    }
    lemma_filter_keeps_others(tail, key);
    assert(t =~= seq![key] + tail);
    Seq::filter_distributes_over_add(seq![key], tail, f);
    assert(seq![key].filter(f) =~= Seq::<Seq<char>>::empty()) by {
        reveal_with_fuel(Seq::filter, 2);
        assert(seq![key].drop_last() =~= Seq::<Seq<char>>::empty());
    }
    assert(t.filter(f) =~= tail);
    assert(seq![key] + t.filter(f) =~= t);
}

/// Filtering out a text no element equals keeps the sequence.
proof fn lemma_filter_keeps_others(s: Seq<Seq<char>>, key: Seq<char>)
    requires
        forall|i: int| 0 <= i < s.len() ==> s[i] != key,
    ensures
        s.filter(other_than(key)) == s,
    decreases s.len(),
{
    reveal_with_fuel(Seq::filter, 1);
    if s.len() > 0 {
        lemma_filter_keeps_others(s.drop_last(), key);
        assert(s.drop_last().push(s.last()) =~= s);
    }
}

/// Whether no entry is listed before one it should follow.
pub open spec fn listed_in_order(s: Seq<DirEntryV>) -> bool {
    forall|i: int, j: int| 0 <= i < j < s.len() ==> !sorts_before(#[trigger] s[j], #[trigger] s[i])
}

/// Listing order is a strict weak order: whatever sorts before `b` sorts
/// before anything `b` does not sort before.
proof fn lemma_sorts_before_weak(a: DirEntryV, b: DirEntryV, c: DirEntryV)
    requires
        sorts_before(a, b),
    ensures
        sorts_before(a, c) || sorts_before(c, b),
{
    lemma_text_lt_total(a.kind, c.kind);
    lemma_text_lt_total(c.kind, b.kind);
    lemma_text_lt_total(lower(a.name), lower(c.name));
    lemma_text_lt_total(lower(c.name), lower(b.name));
    if text_lt(b.kind, a.kind) {
        if !text_lt(c.kind, a.kind) && !text_lt(b.kind, c.kind) {
            if c.kind != a.kind {
                lemma_text_lt_trans(b.kind, a.kind, c.kind);
            }
        }
    } else {
        if !text_lt(c.kind, a.kind) && !text_lt(b.kind, c.kind) && c.kind == a.kind {
            if lower(c.name) != lower(a.name) && !text_lt(lower(a.name), lower(c.name)) {
                lemma_text_lt_trans(lower(c.name), lower(a.name), lower(b.name));
            }
        }
    }
}

/// Nothing sorts before itself, and of two entries at most one sorts first.
proof fn lemma_sorts_before_asym(a: DirEntryV, b: DirEntryV)
    ensures
        !(sorts_before(a, b) && sorts_before(b, a)),
{
    lemma_text_lt_total(a.kind, b.kind);
    lemma_text_lt_total(lower(a.name), lower(b.name));
}

/// Inserting into an ordered listing keeps it ordered.
proof fn lemma_insert_in_order_sorted(s: Seq<DirEntryV>, e: DirEntryV)
    requires
        listed_in_order(s),
    ensures
        listed_in_order(insert_in_order(s, e)),
        insert_in_order(s, e).to_multiset() == s.to_multiset().insert(e),
    decreases s.len(),
{
    broadcast use vstd::seq_lib::group_to_multiset_ensures;
    if s.len() == 0 {
        assert(seq![e] =~= Seq::<DirEntryV>::empty().push(e));
    } else if sorts_before(e, s.last()) {
        let d = s.drop_last();
        let last = s.last();
        assert forall|i: int, j: int| 0 <= i < j < d.len() implies !sorts_before(#[trigger] d[j], #[trigger] d[i]) by {
            assert(d[i] == s[i] && d[j] == s[j]);
        }
        lemma_insert_in_order_sorted(d, e);
        let m = insert_in_order(d, e);
        let r = m.push(last);
        assert forall|i: int, j: int| 0 <= i < j < r.len() implies !sorts_before(#[trigger] r[j], #[trigger] r[i]) by {
            if j == r.len() - 1 {
                assert(r[j] == last);
                assert(m.to_multiset().count(m[i]) > 0);
                if r[i] == e {
                    lemma_sorts_before_asym(e, last);
                } else {
                    assert(d.to_multiset().count(m[i]) > 0);
                    assert(d.contains(m[i]));
                    let k = choose|k: int| 0 <= k < d.len() && d[k] == m[i];
                    assert(s[k] == d[k]);
                    assert(s[s.len() - 1] == last);
                }
            } else {
                assert(r[i] == m[i] && r[j] == m[j]);
            }
        }
        assert(s =~= d.push(last));
    } else {
        let r = s.push(e);
        assert forall|i: int, j: int| 0 <= i < j < r.len() implies !sorts_before(#[trigger] r[j], #[trigger] r[i]) by {
            if j == r.len() - 1 {
                if sorts_before(e, s[i]) {
                    lemma_sorts_before_weak(e, s[i], s.last());
                    assert(s.last() == s[s.len() - 1]);
                    if i < s.len() - 1 {
                        assert(!sorts_before(s[s.len() - 1], s[i]));
                    } else {
                        lemma_sorts_before_asym(s[i], s[i]);
                    }
                }
            } else {
                assert(r[i] == s[i] && r[j] == s[j]);
            }
        }
    }
}

/// A directory listing is in listing order and holds exactly the entries it
/// was given (a permutation of them).
pub proof fn law_listing_sorted(entries: Seq<DirEntryV>)
    ensures
        listed_in_order(sorted_listing(entries)),
        sorted_listing(entries).to_multiset() == entries.to_multiset(),
    decreases entries.len(),
{
    broadcast use vstd::seq_lib::group_to_multiset_ensures;
    if entries.len() == 0 {
        assert(sorted_listing(entries) =~= entries);
    } else {
        law_listing_sorted(entries.drop_last());
        lemma_insert_in_order_sorted(sorted_listing(entries.drop_last()), entries.last());
        assert(entries =~= entries.drop_last().push(entries.last()));
    }
}

/// Unregistering a tool right after registering it under a name not yet in
/// use leaves the table exactly as it was (the tables are the entries before,
/// after `insert` and after `remove`, as their contracts describe them).
pub proof fn law_toolbox_remove_undoes_insert<F>(
    before: Seq<ToolV<F>>,
    inserted: Seq<ToolV<F>>,
    removed: Seq<ToolV<F>>,
    t: ToolV<F>,
)
    requires
        names_sorted(before),
        names_sorted(inserted),
        names_sorted(removed),
        tool_named(before, t.name) is None,
        forall|k: Seq<char>|
            #[trigger] tool_named(inserted, k) == if k == t.name {
                Some(t)
            } else {
                tool_named(before, k)
            },
        forall|k: Seq<char>|
            #[trigger] tool_named(removed, k) == if k == t.name {
                None
            } else {
                tool_named(inserted, k)
            },
    ensures
        removed == before,
{
    assert forall|k: Seq<char>| #[trigger] tool_named(removed, k) == tool_named(before, k) by {
        if k != t.name {
            assert(tool_named(inserted, k) == tool_named(before, k));
        }
    }
    lemma_lookups_determine_table(removed, before);
}

/// A cut at a character boundary keeps a prefix of the text that is exactly
/// that many bytes long.
pub proof fn law_byte_prefix(text: Seq<char>, n: nat)
    requires
        is_char_boundary(text, n),
    ensures
        utf8_len(byte_prefix(text, n)) == n,
        byte_prefix(text, n).len() <= text.len(),
        byte_prefix(text, n) == text.take(byte_prefix(text, n).len() as int),
{
    let k = choose|k: int| 0 <= k <= text.len() && #[trigger] utf8_len(text.take(k)) == n;
    assert(byte_prefix(text, n) == text.take(k));
}

/// Whether summaries run newest first.
pub open spec fn newest_first_order(s: Seq<SummaryV>) -> bool {
    forall|i: int, j: int| 0 <= i < j < s.len() ==> (#[trigger] s[i]).updated_at >= (#[trigger] s[j]).updated_at
}

/// Inserting by time into a newest-first list keeps it newest first.
proof fn lemma_insert_by_time_sorted(s: Seq<SummaryV>, e: SummaryV)
    requires
        newest_first_order(s),
    ensures
        newest_first_order(insert_by_time(s, e)),
        insert_by_time(s, e).to_multiset() == s.to_multiset().insert(e),
    decreases s.len(),
{
    broadcast use vstd::seq_lib::group_to_multiset_ensures;
    if s.len() == 0 {
        assert(seq![e] =~= Seq::<SummaryV>::empty().push(e));
    } else if e.updated_at > s.last().updated_at {
        let d = s.drop_last();
        let last = s.last();
        assert forall|i: int, j: int| 0 <= i < j < d.len() implies (#[trigger] d[i]).updated_at >= (
        #[trigger] d[j]).updated_at by {
            assert(d[i] == s[i] && d[j] == s[j]);
        }
        lemma_insert_by_time_sorted(d, e);
        let m = insert_by_time(d, e);
        let r = m.push(last);
        assert forall|i: int, j: int| 0 <= i < j < r.len() implies (#[trigger] r[i]).updated_at >= (
        #[trigger] r[j]).updated_at by {
            if j == r.len() - 1 {
                assert(r[j] == last);
                assert(m.to_multiset().count(m[i]) > 0);
                if r[i] != e {
                    assert(d.to_multiset().count(m[i]) > 0);
                    assert(d.contains(m[i]));
                    let k = choose|k: int| 0 <= k < d.len() && d[k] == m[i];
                    assert(s[k] == d[k]);
                    assert(s[s.len() - 1] == last);
                }
            } else {
                assert(r[i] == m[i] && r[j] == m[j]);
            }
        }
        assert(s =~= d.push(last));
    } else {
        let r = s.push(e);
        assert forall|i: int, j: int| 0 <= i < j < r.len() implies (#[trigger] r[i]).updated_at >= (
        #[trigger] r[j]).updated_at by {
            if j == r.len() - 1 {
                assert(s.last() == s[s.len() - 1]);
                if i < s.len() - 1 {
                    assert(s[i].updated_at >= s[s.len() - 1].updated_at);
                }
            } else {
                assert(r[i] == s[i] && r[j] == s[j]);
            }
        }
    }
}

/// Sessions are listed newest first, and the listing holds exactly the
/// summaries it was given (a permutation of them).
pub proof fn law_sessions_newest_first(summaries: Seq<SummaryV>)
    ensures
        newest_first_order(newest_first(summaries)),
        newest_first(summaries).to_multiset() == summaries.to_multiset(),
    decreases summaries.len(),
{
    broadcast use vstd::seq_lib::group_to_multiset_ensures;
    if summaries.len() == 0 {
        assert(newest_first(summaries) =~= summaries);
    } else {
        law_sessions_newest_first(summaries.drop_last());
        lemma_insert_by_time_sorted(newest_first(summaries.drop_last()), summaries.last());
        assert(summaries =~= summaries.drop_last().push(summaries.last()));
    }
}

/// A session's history holds no `system` message and no UI event, its events
/// hold only UI events, and together they hold no more records than were stored.
pub proof fn law_history_and_events_split(records: Seq<JsonV>)
    ensures
        forall|i: int| 0 <= i < kept(records, false).len() ==> in_history(#[trigger] kept(records, false)[i]),
        forall|i: int| 0 <= i < kept(records, true).len() ==> is_event(#[trigger] kept(records, true)[i]),
        kept(records, false).len() + kept(records, true).len() <= records.len(),
    decreases records.len(),
{
    if records.len() > 0 {
        law_history_and_events_split(records.drop_last());
        let last = records.last();
        let h = kept(records.drop_last(), false);
        let ev = kept(records.drop_last(), true);
        assert(!(in_history(last) && is_event(last)));
        if in_history(last) {
            assert forall|i: int| 0 <= i < h.push(last).len() implies in_history(#[trigger] h.push(last)[i]) by {
                if i < h.len() {
                    assert(h.push(last)[i] == h[i]);
                }
            }
        }
        if is_event(last) {
            assert forall|i: int| 0 <= i < ev.push(last).len() implies is_event(#[trigger] ev.push(last)[i]) by {
                if i < ev.len() {
                    assert(ev.push(last)[i] == ev[i]);
                }
            }
        }
    }
}

/// A session title fits on one line and holds at most 49 characters (48 and
/// the ellipsis).
pub proof fn law_titles_are_short_single_lines(text: Seq<char>)
    ensures
        title_of(text).len() <= 49,
        !title_of(text).contains('\n'),
{
    let t = one_line(crate::text::trimmed(text));
    assert(forall|i: int| 0 <= i < t.len() ==> #[trigger] t[i] != '\n');
    if t.len() > 48 {
        let r = t.take(48).push('…');
        assert forall|i: int| 0 <= i < r.len() implies #[trigger] r[i] != '\n' by {
            if i < 48 {
                assert(r[i] == t[i]);
            }
        }
    }
}

/// Granting capabilities is all or nothing: a grant list is accepted exactly
/// when every name on it is exposed, and a refusal names a granted name that
/// is not exposed.
pub proof fn law_grants_all_or_nothing(exposed: Seq<Seq<char>>, granted: Seq<Seq<char>>)
    ensures
        first_unexposed(exposed, granted) is None <==> (forall|i: int|
            0 <= i < granted.len() ==> exposed.contains(#[trigger] granted[i])),
        match first_unexposed(exposed, granted) {
            Some(name) => granted.contains(name) && !exposed.contains(name),
            None => true,
        },
    decreases granted.len(),
{
    if granted.len() > 0 {
        let rest = granted.drop_first();
        law_grants_all_or_nothing(exposed, rest);
        assert forall|i: int| 0 <= i < rest.len() implies #[trigger] rest[i] == granted[i + 1] by {}
        if exposed.contains(granted[0]) {
            if (forall|i: int| 0 <= i < rest.len() ==> exposed.contains(#[trigger] rest[i])) {
                assert forall|i: int| 0 <= i < granted.len() implies exposed.contains(#[trigger] granted[i]) by {
                    if i > 0 {
                        assert(granted[i] == rest[i - 1]);
                    }
                }
            } else {
                let k = choose|k: int| 0 <= k < rest.len() && !exposed.contains(#[trigger] rest[k]);
                assert(granted[k + 1] == rest[k]);
            }
            match first_unexposed(exposed, rest) {
                Some(name) => {
                    let k = choose|k: int| 0 <= k < rest.len() && rest[k] == name;
                    assert(granted[k + 1] == name);
                },
                None => {},
            }
        } else {
            assert(granted.contains(granted[0]));
        }
    }
}

/// No member of `without_key(fields, key)` is keyed `key`.
proof fn lemma_without_key_lacks_key(fields: Seq<(Seq<char>, JsonV)>, key: Seq<char>)
    ensures
        forall|j: int| 0 <= j < without_key(fields, key).len() ==> (#[trigger] without_key(fields, key)[j]).0 != key,
        field_of(without_key(fields, key), key) is None,
    decreases fields.len(),
{
    let w = without_key(fields, key);
    if fields.len() > 0 {
        lemma_without_key_lacks_key(fields.drop_last(), key);
        let rest = without_key(fields.drop_last(), key);
        if fields.last().0 != key {
            assert forall|j: int| 0 <= j < w.len() implies (#[trigger] w[j]).0 != key by {
                if j < rest.len() {
                    assert(w[j] == rest[j]);
                }
            }
        }
    }
    lemma_field_of_prefix(w, key, w.len() as int);
}

/// A message sent back to the model carries no `reasoning_content`, and none
/// of its tool calls carries an `index`.
pub proof fn law_sanitized_messages_are_clean(message: JsonV)
    ensures
        sanitized(message).member("reasoning_content"@) is None,
        match sanitized(message).member("tool_calls"@) {
            Some(JsonV::Array(calls)) => forall|i: int|
                0 <= i < calls.len() ==> (#[trigger] calls[i]).member("index"@) is None,
            _ => true,
        },
{
    reveal_strlit("reasoning_content");
    reveal_strlit("tool_calls");
    reveal_strlit("index");
    match message {
        JsonV::Object(fields) => {
            let rc = "reasoning_content"@;
            let tc = "tool_calls"@;
            let kept = without_key(fields, rc);
            lemma_without_key_lacks_key(fields, rc);
            let o = JsonV::Object(kept);
            match o.member(tc) {
                Some(JsonV::Array(calls)) => {
                    let mapped = calls.map_values(|c: JsonV| without_index(c));
                    let f2 = fields_with(kept, tc, JsonV::Array(mapped));
                    lemma_field_index(kept, tc);
                    let i = field_index(kept, tc);
                    assert(i < kept.len());
                    assert(f2 == kept.update(i, (tc, JsonV::Array(mapped))));
                    assert forall|j: int| 0 <= j < f2.len() implies (#[trigger] f2[j]).0 != rc by {
                        if j != i {
                            assert(f2[j] == kept[j]);
                        }
                    }
                    lemma_field_of_prefix(f2, rc, f2.len() as int);
                    assert forall|j: int| 0 <= j < i implies (#[trigger] f2[j]).0 != tc by {
                        assert(f2[j] == kept[j]);
                    }
                    lemma_field_of_prefix(f2, tc, i);
                    assert forall|k: int| 0 <= k < mapped.len() implies (#[trigger] mapped[k]).member("index"@) is None by {
                        match calls[k] {
                            JsonV::Object(cf) => {
                                lemma_without_key_lacks_key(cf, "index"@);
                            },
                            _ => {},
                        }
                    }
                },
                _ => {},
            }
        },
        _ => {},
    }
}

/// A listing keeps the first entry when it is still there.
proof fn lemma_flagged_first(paths: Seq<Seq<char>>, present: Seq<bool>)
    requires
        paths.len() == present.len(),
        paths.len() > 0,
        present[0],
    ensures
        flagged(paths, present).len() > 0,
        flagged(paths, present)[0] == paths[0],
    decreases paths.len(),
{
    let rest = flagged(paths.drop_last(), present.drop_last());
    if paths.len() > 1 {
        assert(present.drop_last()[0] == present[0]);
        assert(paths.drop_last()[0] == paths[0]);
        lemma_flagged_first(paths.drop_last(), present.drop_last());
        if present.last() {
            assert(rest.push(paths.last())[0] == rest[0]);
        }
    } else {
        assert(rest.len() == 0);
    }
}

/// After switching to a workspace, the saved registry lists it first: its
/// current workspace is the one switched to, and the picker's listing of it
/// starts with that workspace while it is still a directory.
pub proof fn law_switched_workspace_listed_first(saved: RegistryV, c: Seq<char>, present: Seq<bool>)
    requires
        present.len() == touched_registry(saved, c).recent.len(),
        present.len() > 0 ==> present[0],
    ensures
        touched_registry(saved, c).current == Some(c),
        touched_registry(saved, c).recent[0] == c,
        flagged(touched_registry(saved, c).recent, present).len() > 0,
        flagged(touched_registry(saved, c).recent, present)[0] == c,
{
    let r = touched(saved.recent, c);
    law_touch_recent(saved.recent, c);
    lemma_flagged_first(r, present);
}

/// Reading a text with no line feed after whole lines extends the last line.
proof fn lemma_scan_extends(text: Seq<char>, t: Seq<char>)
    requires
        line_scan(text).1.len() == 0,
        !t.contains('\n'),
    ensures
        line_scan(text + t) == (line_scan(text).0, t),
    decreases t.len(),
{
    if t.len() == 0 {
        assert(text + t =~= text);
    } else {
        assert((text + t).drop_last() =~= text + t.drop_last());
        assert(!t.drop_last().contains('\n')) by {
            if t.drop_last().contains('\n') {
                let k = choose|k: int| 0 <= k < t.drop_last().len() && t.drop_last()[k] == '\n';
                assert(t[k] == '\n');
            }
        }
        lemma_scan_extends(text, t.drop_last());
        assert(t[t.len() - 1] != '\n');
        assert(t.drop_last().push(t.last()) =~= t);
    }
}

/// Whether the line written for a message reads back as that message.
pub open spec fn reads_back(line: Seq<char>, m: JsonV) -> bool {
    &&& !line.contains('\n')
    &&& trimmed(strip_cr(line)).len() > 0
    &&& json_parse(trimmed(strip_cr(line))) == Ok::<JsonV, Seq<char>>(m)
}

/// Appending a message to a session file made of whole lines (its line
/// being `session_line`), when that line reads back as the message, adds the
/// message at the end of the stored records: at the end of the history
/// unless it is a `system` message or an event, at the end of the events if
/// it is an event, and nothing else changes.
pub proof fn law_append_then_read(text: Seq<char>, m: JsonV, records: Seq<JsonV>)
    requires
        line_scan(text).1.len() == 0,
        parsed_records(lines_of(text)) == Ok::<Seq<JsonV>, Seq<char>>(records),
        reads_back(json_text(m), m),
    ensures
        parsed_records(lines_of(text + (json_text(m) + "\n"@))) == Ok::<Seq<JsonV>, Seq<char>>(records.push(m)),
        kept(records.push(m), false) == if in_history(m) {
            kept(records, false).push(m)
        } else {
            kept(records, false)
        },
        kept(records.push(m), true) == if is_event(m) {
            kept(records, true).push(m)
        } else {
            kept(records, true)
        },
{
    reveal_strlit("\n");
    let t = json_text(m);
    let all = text + (t + "\n"@);
    lemma_scan_extends(text, t);
    assert(all.drop_last() =~= text + t);
    assert(all.last() == '\n');
    let ls = lines_of(text);
    assert(lines_of(all) == ls.push(strip_cr(t)));
    assert(ls.push(strip_cr(t)).drop_last() =~= ls);
    assert(records.push(m).drop_last() =~= records);
}

/// A call that changes a tool table: registering a tool (replacing one of the
/// same name) or unregistering a name.
pub enum ToolOp<F> {
    Register(ToolV<F>),
    Unregister(Seq<char>),
}

/// The tool a sequence of calls leaves under `name`: the last registration
/// of that name, unless the name was unregistered after it.
pub open spec fn registered_after<F>(ops: Seq<ToolOp<F>>, name: Seq<char>) -> Option<ToolV<F>>
    decreases ops.len(),
{
    if ops.len() == 0 {
        None
    } else {
        match ops.last() {
            ToolOp::Register(t) => if t.name == name {
                Some(t)
            } else {
                registered_after(ops.drop_last(), name)
            },
            ToolOp::Unregister(n) => if n == name {
                None
            } else {
                registered_after(ops.drop_last(), name)
            },
        }
    }
}

/// Whether `after` is `before` changed by the call `op`, as the contracts of
/// `Toolbox::insert`, `insert_with_schema` and `remove` describe it: the
/// names stay in order, and only the lookup of the named tool changes.
pub open spec fn table_step<F>(before: Seq<ToolV<F>>, op: ToolOp<F>, after: Seq<ToolV<F>>) -> bool {
    &&& names_sorted(after)
    &&& forall|k: Seq<char>|
        #[trigger] tool_named(after, k) == match op {
            ToolOp::Register(t) => if k == t.name {
                Some(t)
            } else {
                tool_named(before, k)
            },
            ToolOp::Unregister(n) => if k == n {
                None
            } else {
                tool_named(before, k)
            },
        }
}

/// A tool table reached from the empty one by any sequence of registrations
/// and unregistrations lists its names in strictly increasing order, holds
/// exactly the names registered and not unregistered since, and under each
/// name the last tool registered with it.
pub proof fn law_toolbox_follows_calls<F>(tables: Seq<Seq<ToolV<F>>>, ops: Seq<ToolOp<F>>)
    requires
        tables.len() == ops.len() + 1,
        tables[0].len() == 0,
        forall|i: int| 0 <= i < ops.len() ==> table_step(tables[i], #[trigger] ops[i], tables[i + 1]),
    ensures
        names_sorted(tables.last()),
        forall|k: Seq<char>| #[trigger] tool_named(tables.last(), k) == registered_after(ops, k),
        forall|k: Seq<char>|
            (exists|i: int| 0 <= i < tables.last().len() && tables.last()[i].name == k) <==> (#[trigger] registered_after(
                ops,
                k,
            ) is Some),
        forall|i: int|
            0 <= i < tables.last().len() ==> registered_after(ops, (#[trigger] tables.last()[i]).name) == Some(
                tables.last()[i],
            ),
    decreases ops.len(),
{
    let last = tables.last();
    if ops.len() == 0 {
        assert(last.len() == 0);
        assert forall|k: Seq<char>| #[trigger] tool_named(last, k) == registered_after(ops, k) by {}
    } else {
        let n = ops.len() - 1;
        let prev_tables = tables.drop_last();
        let prev_ops = ops.drop_last();
        assert forall|i: int| 0 <= i < prev_ops.len() implies table_step(
            prev_tables[i],
            #[trigger] prev_ops[i],
            prev_tables[i + 1],
        ) by {
            assert(prev_ops[i] == ops[i]);
            assert(prev_tables[i] == tables[i]);
            assert(prev_tables[i + 1] == tables[i + 1]);
            assert(table_step(tables[i], ops[i], tables[i + 1]));
        }
        law_toolbox_follows_calls(prev_tables, prev_ops);
        assert(table_step(tables[n], ops[n], tables[n + 1]));
        assert(tables[n] == prev_tables.last());
        assert(tables[n + 1] == last);
        assert(ops.last() == ops[n]);
        assert forall|k: Seq<char>| #[trigger] tool_named(last, k) == registered_after(ops, k) by {
            assert(tool_named(prev_tables.last(), k) == registered_after(prev_ops, k));
        }
    }
    assert forall|k: Seq<char>|
        (exists|i: int| 0 <= i < last.len() && last[i].name == k) <==> (#[trigger] registered_after(ops, k) is Some) by {
        assert(tool_named(last, k) == registered_after(ops, k));
    }
    assert forall|i: int| 0 <= i < last.len() implies registered_after(ops, (#[trigger] last[i]).name) == Some(
        last[i],
    ) by {
        lemma_tool_named_at(last, i);
        assert(tool_named(last, last[i].name) == registered_after(ops, last[i].name));
    }
}

/// On the document hosts (whose one capability is the document), a grant
/// list is accepted only when it names nothing but `markdown`, so every
/// capability a guest is granted there yields the document's text.
pub proof fn law_document_hosts_grant_the_document(exposed: Seq<Seq<char>>, granted: Seq<Seq<char>>)
    requires
        forall|n: Seq<char>| #[trigger] exposed.contains(n) <==> n == document_capability(),
        first_unexposed(exposed, granted) is None,
    ensures
        forall|i: int| 0 <= i < granted.len() ==> #[trigger] granted[i] == "markdown"@,
{
    law_grants_all_or_nothing(exposed, granted);
    assert forall|i: int| 0 <= i < granted.len() implies #[trigger] granted[i] == "markdown"@ by {
        assert(exposed.contains(granted[i]));
    }
}

/// Whether a message is a tool's output.
pub open spec fn is_tool_role(m: JsonV) -> bool {
    m.str_member("role"@) == Some("tool"@)
}

/// How many messages are tool outputs.
pub open spec fn tool_role_count(ms: Seq<JsonV>) -> nat
    decreases ms.len(),
{
    if ms.len() == 0 {
        0
    } else {
        tool_role_count(ms.drop_last()) + if is_tool_role(ms.last()) {
            1nat
        } else {
            0nat
        }
    }
}

proof fn lemma_long_tools_are_tools(ms: Seq<JsonV>, max: nat)
    ensures
        long_tool_count(ms, max) <= tool_role_count(ms),
    decreases ms.len(),
{
    if ms.len() > 0 {
        lemma_long_tools_are_tools(ms.drop_last(), max);
    }
}

/// Compaction only ever shortens tool outputs: every message it keeps that is
/// not a tool's output is the very message it was given, at the same place
/// counted from the end (only the note standing in for dropped messages, at
/// the front when some were dropped, is new), and the messages it reports as
/// truncated are tool outputs.
pub proof fn law_compaction_touches_only_tool_outputs(history: Seq<JsonV>, config: CompactionConfig)
    ensures
        ({
            let c = compacted(history, config);
            &&& c.len() <= history.len() + 1
            &&& forall|i: int|
                0 <= i < c.len() && (compaction_report(history, config).1 == 0 || i > 0) && !is_tool_role(
                    #[trigger] history[history.len() - c.len() + i],
                ) ==> c[i] == history[history.len() - c.len() + i]
            &&& compaction_report(history, config).0 <= tool_role_count(history)
        }),
{
    let c = compacted(history, config);
    let max = config.max_tool_chars as nat;
    lemma_long_tools_are_tools(history, max);
    if config.is_disabled() || history.len() == 0 {
    } else {
        let out = truncated_messages(history, max);
        let keep = kept_count(config, out.len());
        assert forall|j: int| 0 <= j < history.len() && !is_tool_role(history[j]) implies #[trigger] out[j]
            == history[j] by {}
        if crate::compaction::within_limits(out, config) || out.len() == keep {
            assert(c == out);
        } else {
            assert forall|i: int|
                0 <= i < c.len() && (compaction_report(history, config).1 == 0 || i > 0) && !is_tool_role(
                    #[trigger] history[history.len() - c.len() + i],
                ) implies c[i] == history[history.len() - c.len() + i] by {
                let tail = out.subrange(out.len() - keep, out.len() as int);
                assert(c == seq![crate::compaction::dropped_note((out.len() - keep) as nat, keep)] + tail);
                assert(c[i] == tail[i - 1]);
                assert(c[i] == out[out.len() - keep + i - 1]);
                assert(out[history.len() - c.len() + i] == history[history.len() - c.len() + i]);
            }
        }
    }
}

/// A restored history holds every stored record that is neither a `system`
/// message nor a UI event (tool outputs included), all of them, in order.
pub proof fn law_history_keeps_every_conversation_record(records: Seq<JsonV>)
    ensures
        kept(records, false) == records.filter(
            |m: JsonV| m.str_member("role"@) != Some("system"@) && m.str_member("role"@) != Some("event"@),
        ),
    decreases records.len(),
{
    reveal_with_fuel(Seq::filter, 1);
    if records.len() > 0 {
        law_history_keeps_every_conversation_record(records.drop_last());
    }
}

/// An edit replaces exactly the first occurrence of `old`: when `old` first
/// occurs in `text` at `k`, the result is `text` up to `k`, then `new`, then
/// `text` after the whole occurrence, so it is `|old|` characters shorter and
/// `|new|` longer; when `old` does not occur, the edit is refused.
pub proof fn law_edit_replaces_the_first_occurrence(
    target: Seq<char>,
    text: Seq<char>,
    old: Seq<char>,
    new: Seq<char>,
    k: int,
)
    requires
        occurs_at(text, old, k),
        forall|j: int| 0 <= j < k ==> !occurs_at(text, old, j),
    ensures
        edited(target, text, old, new) is Ok,
        ({
            let r = edited(target, text, old, new)->Ok_0;
            &&& r.len() == text.len() - old.len() + new.len()
            &&& r.subrange(0, k) == text.subrange(0, k)
            &&& r.subrange(k, k + new.len()) == new
            &&& r.subrange(k + new.len(), r.len() as int) == text.subrange(k + old.len(), text.len() as int)
        }),
{
    lemma_find_from(text, old, 0);
    match first_occurrence(text, old) {
        Some(f) => {
            if f < k {
                assert(!occurs_at(text, old, f));
            }
            if f > k {
            }
            assert(f == k);
        },
        None => {
            assert(!occurs_at(text, old, k));
        },
    }
    let r = edited(target, text, old, new)->Ok_0;
    assert(r == text.subrange(0, k) + new + text.subrange(k + old.len(), text.len() as int));
    assert(r.subrange(0, k) =~= text.subrange(0, k));
    assert(r.subrange(k, k + new.len()) =~= new);
    assert(r.subrange(k + new.len(), r.len() as int) =~= text.subrange(k + old.len(), text.len() as int));
}

/// An edit of text that does not hold `old` is refused.
pub proof fn law_edit_without_occurrence_is_refused(
    target: Seq<char>,
    text: Seq<char>,
    old: Seq<char>,
    new: Seq<char>,
)
    requires
        forall|j: int| !occurs_at(text, old, j),
    ensures
        edited(target, text, old, new) is Err,
{
    lemma_find_from(text, old, 0);
}

/// The capabilities a definition asks for are the ones it gets: a script or
/// wasm plugin's config grants exactly the call's `grant` argument (nothing
/// when the call names none).
pub proof fn law_definitions_keep_their_grant(args: Seq<char>)
    requires
        planned_definition(args) is Ok,
        parsed_args(args) is Ok,
    ensures
        ({
            let v = parsed_args(args)->Ok_0;
            let asked = match v.member("grant"@) {
                Some(g) => g,
                None => JsonV::Array(Seq::empty()),
            };
            match planned_definition(args)->Ok_0 {
                DefinitionV::Script { config, .. } => config.member("grant"@) == Some(asked),
                DefinitionV::Plugin { name, config, .. } => name == "wasm"@ ==> config.member("grant"@) == Some(
                    asked,
                ),
            }
        }),
{
    reveal_strlit("grant");
    reveal_strlit("file");
    assert("file"@ != "grant"@) by {
        assert("file"@[0] != "grant"@[0]);
    }
    let v = parsed_args(args)->Ok_0;
    match planned_definition(args)->Ok_0 {
        DefinitionV::Script { config, .. } => {
            match config {
                JsonV::Object(fields) => {
                    assert(fields[0].0 == "file"@);
                    assert(fields[1].0 == "grant"@);
                    lemma_field_of_prefix(fields, "grant"@, 1);
                },
                _ => {},
            }
        },
        DefinitionV::Plugin { name, config, .. } => {
            if name == "wasm"@ {
                match config {
                    JsonV::Object(fields) => {
                        assert(fields[0].0 == "grant"@);
                        lemma_field_of_prefix(fields, "grant"@, 0);
                    },
                    _ => {},
                }
            }
        },
    }
}

/// The turn after the tool calls of its round answered with `outs` (each a
/// substrate and an output), one after the other.
pub open spec fn tools_answered(s: TurnV, outs: Seq<(Seq<char>, Seq<char>)>) -> TurnV
    decreases outs.len(),
{
    if outs.len() == 0 {
        s
    } else {
        advanced(tools_answered(s, outs.drop_last()), EventV::ToolDone(outs.last().0, outs.last().1)).0
    }
}

/// The tool messages answering `calls` with `outs`, one per call, in order.
pub open spec fn answers_to(calls: Seq<CallV>, outs: Seq<(Seq<char>, Seq<char>)>, j: int) -> Seq<JsonV> {
    Seq::new(j as nat, |i: int| tool_message(calls[i].id, outs[i].1))
}

proof fn lemma_tools_answered(s0: TurnV, outs: Seq<(Seq<char>, Seq<char>)>, j: int)
    requires
        s0.calls.len() >= 1,
        s0.done_calls == 0,
        s0.waiting == Waiting::Tool,
        outs.len() == s0.calls.len(),
        0 <= j <= outs.len(),
    ensures
        tools_answered(s0, outs.take(j)).messages == s0.messages + answers_to(s0.calls, outs, j),
        j < outs.len() ==> tools_answered(s0, outs.take(j)).calls == s0.calls,
        j < outs.len() ==> tools_answered(s0, outs.take(j)).done_calls == j,
        j < outs.len() ==> tools_answered(s0, outs.take(j)).waiting == Waiting::Tool,
        j >= 1 ==> advanced(tools_answered(s0, outs.take(j - 1)), EventV::ToolDone(outs[j - 1].0, outs[j - 1].1)).0
            == tools_answered(s0, outs.take(j)),
        1 <= j < outs.len() ==> advanced(tools_answered(s0, outs.take(j - 1)), EventV::ToolDone(outs[j - 1].0, outs[j - 1].1)).1
            == ActionV::Run(s0.calls[j]),
        j == outs.len() ==> !(advanced(tools_answered(s0, outs.take(j - 1)), EventV::ToolDone(outs[j - 1].0, outs[j - 1].1)).1 is Run),
    decreases j,
{
    if j == 0 {
        assert(outs.take(0) =~= Seq::<(Seq<char>, Seq<char>)>::empty());
        assert(answers_to(s0.calls, outs, 0) =~= Seq::<JsonV>::empty());
        assert(s0.messages + Seq::<JsonV>::empty() =~= s0.messages);
    } else {
        lemma_tools_answered(s0, outs, j - 1);
        let prev = tools_answered(s0, outs.take(j - 1));
        assert(outs.take(j).drop_last() =~= outs.take(j - 1));
        assert(outs.take(j).last() == outs[j - 1]);
        assert(tools_answered(s0, outs.take(j)) == advanced(prev, EventV::ToolDone(outs[j - 1].0, outs[j - 1].1)).0);
        let c = prev.calls[prev.done_calls as int];
        assert(c == s0.calls[j - 1]);
        assert(s0.messages + answers_to(s0.calls, outs, j) =~= (s0.messages + answers_to(s0.calls, outs, j - 1)).push(
            tool_message(s0.calls[j - 1].id, outs[j - 1].1),
        ));
    }
}

/// A model reply that asks for tool calls is answered call by call: the turn
/// takes every call the reply lists, parsed in order, runs the first, then
/// after each result runs the next one, and only after the last result moves
/// on (asking the model again, or finishing when the rounds are spent). By
/// then the history holds the model's message followed by one tool message
/// per call, in order, each carrying its call's id and output.
pub proof fn law_every_tool_call_is_run(
    s: TurnV,
    response: JsonV,
    calls: Seq<JsonV>,
    outs: Seq<(Seq<char>, Seq<char>)>,
)
    requires
        reply_message(response).member("tool_calls"@) == Some(JsonV::Array(calls)),
        calls.len() >= 1,
        outs.len() == calls.len(),
    ensures
        ({
            let (s0, a0) = advanced(s, EventV::Replied(Ok(response)));
            let done = tools_answered(s0, outs);
            &&& s0.calls.len() == calls.len()
            &&& forall|i: int| 0 <= i < calls.len() ==> #[trigger] s0.calls[i] == parsed_call(calls[i])
            &&& a0 == ActionV::Run(parsed_call(calls[0]))
            &&& forall|j: int|
                1 <= j < calls.len() ==> advanced(
                    tools_answered(s0, outs.take(j - 1)),
                    EventV::ToolDone(outs[j - 1].0, outs[j - 1].1),
                ).1 == ActionV::Run(parsed_call(calls[j]))
            &&& !(advanced(tools_answered(s0, outs.take(outs.len() - 1)), EventV::ToolDone(outs.last().0, outs.last().1)).1 is Run)
            &&& done.messages.len() == s.messages.len() + 1 + calls.len()
            &&& done.messages == s.messages.push(outgoing(reply_message(response), s.dialect)) + Seq::new(
                calls.len(),
                |i: int| tool_message(parsed_call(calls[i]).id, outs[i].1),
            )
        }),
{
    let m = reply_message(response);
    assert(m.array_member("tool_calls"@) == Some(calls));
    let (s0, a0) = advanced(s, EventV::Replied(Ok(response)));
    let n = calls.len() as int;
    assert forall|j: int| 1 <= j < n implies advanced(
        tools_answered(s0, outs.take(j - 1)),
        EventV::ToolDone(outs[j - 1].0, outs[j - 1].1),
    ).1 == ActionV::Run(parsed_call(calls[j])) by {
        lemma_tools_answered(s0, outs, j);
    }
    lemma_tools_answered(s0, outs, n);
    assert(outs.take(n) =~= outs);
    assert(outs.last() == outs[n - 1]);
    assert(answers_to(s0.calls, outs, n) =~= Seq::new(
        calls.len(),
        |i: int| tool_message(parsed_call(calls[i]).id, outs[i].1),
    ));
}

} // verus!
