//! The table of tools the model may call, kept in name order.
use vstd::prelude::*;

use crate::error::Error;
use crate::json::{Json, JsonV};
use crate::text::{lemma_text_lt_total, lemma_text_lt_trans, str_eq, str_lt, text_lt};
use crate::tool_schema::{function_schema, function_schema_value, object_schema, text_query, typed_property};

verus! {

/// What a listing shows of one tool.
pub struct ToolInfo {
    pub name: String,
    pub description: String,
    pub substrate: String,
}

/// A registered tool as the contracts see it.
pub struct ToolV<F> {
    pub name: Seq<char>,
    pub description: Seq<char>,
    pub substrate: Seq<char>,
    pub parameters: JsonV,
    pub invoke: F,
}

struct Registered<F> {
    description: String,
    substrate: String,
    parameters: Json,
    invoke: F,
}

/// Tools by name. `F` is how a tool is invoked.
pub struct Toolbox<F> {
    tools: Vec<(String, Registered<F>)>,
}

/// Whether the names strictly increase.
pub open spec fn names_sorted<F>(s: Seq<ToolV<F>>) -> bool {
    forall|i: int, j: int| 0 <= i < j < s.len() ==> text_lt(#[trigger] s[i].name, #[trigger] s[j].name)
}

/// The tool called `name`.
pub open spec fn tool_named<F>(s: Seq<ToolV<F>>, name: Seq<char>) -> Option<ToolV<F>> {
    if exists|i: int| 0 <= i < s.len() && s[i].name == name {
        Some(s[choose|i: int| 0 <= i < s.len() && s[i].name == name])
    } else {
        None
    }
}

/// In a sorted table, the tool at `i` is the one `tool_named` finds.
pub proof fn lemma_tool_named_at<F>(s: Seq<ToolV<F>>, i: int)
    requires
        names_sorted(s),
        0 <= i < s.len(),
    ensures
        tool_named(s, s[i].name) == Some(s[i]),
{
    let k = choose|k: int| 0 <= k < s.len() && s[k].name == s[i].name;
    if k != i {
        if k < i {
            assert(text_lt(s[k].name, s[i].name));
        } else {
            assert(text_lt(s[i].name, s[k].name));
        }
        lemma_text_lt_total(s[i].name, s[i].name);
    }
}

/// The substrate of the tool `name`, or `?` when there is none.
pub open spec fn substrate_or_unknown<F>(s: Seq<ToolV<F>>, name: Seq<char>) -> Seq<char> {
    match tool_named(s, name) {
        Some(t) => t.substrate,
        None => "?"@,
    }
}

/// The description a schema shows: `[substrate] description`.
pub open spec fn tagged_description(substrate: Seq<char>, description: Seq<char>) -> Seq<char> {
    "["@ + substrate + "] "@ + description
}

/// The parameters a tool gets when none are given: one free-text query.
pub open spec fn default_parameters() -> JsonV {
    object_schema(seq![("query"@, typed_property("string"@, "工具输入"@))], None)
}

impl<F> Toolbox<F> {
    /// The tools, in name order.
    pub closed spec fn entries(self) -> Seq<ToolV<F>> {
        self.tools@.map_values(
            |p: (String, Registered<F>)|
                ToolV {
                    name: p.0@,
                    description: p.1.description@,
                    substrate: p.1.substrate@,
                    parameters: p.1.parameters@,
                    invoke: p.1.invoke,
                },
        )
    }

    /// The table's invariant: names strictly increase.
    pub open spec fn wf(self) -> bool {
        names_sorted(self.entries())
    }

    /// An empty table.
    pub fn new() -> (r: Self)
        ensures
            r.wf(),
            r.entries().len() == 0,
    {
        let r = Toolbox { tools: Vec::new() };
        assert(r.entries() =~= Seq::<ToolV<F>>::empty());
        r
    }

    /// Registers (or replaces) the tool `name` with free-text parameters.
    pub fn insert(&mut self, name: String, description: String, substrate: &str, invoke: F)
        requires
            old(self).wf(),
        ensures
            final(self).wf(),
            forall|k: Seq<char>|
                #[trigger] tool_named(final(self).entries(), k) == if k == name@ {
                    Some(
                        ToolV {
                            name: name@,
                            description: description@,
                            substrate: substrate@,
                            parameters: default_parameters(),
                            invoke,
                        },
                    )
                } else {
                    tool_named(old(self).entries(), k)
                },
    {
        let parameters = text_query("工具输入");
        self.insert_with_schema(name, description, substrate, parameters, invoke);
    }

    /// Registers (or replaces) the tool `name`.
    pub fn insert_with_schema(
        &mut self,
        name: String,
        description: String,
        substrate: &str,
        parameters: Json,
        invoke: F,
    )
        requires
            old(self).wf(),
        ensures
            final(self).wf(),
            forall|k: Seq<char>|
                #[trigger] tool_named(final(self).entries(), k) == if k == name@ {
                    Some(
                        ToolV {
                            name: name@,
                            description: description@,
                            substrate: substrate@,
                            parameters: parameters@,
                            invoke,
                        },
                    )
                } else {
                    tool_named(old(self).entries(), k)
                },
    {
        let ghost old_entries = self.entries();
        let ghost new_tool = ToolV {
            name: name@,
            description: description@,
            substrate: substrate@,
            parameters: parameters@,
            invoke,
        };
        let registered = Registered { description, substrate: substrate.to_owned(), parameters, invoke };
        let ghost old_tools = self.tools@;
        let mut i: usize = 0;
        while i < self.tools.len()
            invariant
                old_entries == old(self).entries(),
                self.tools@ == old_tools,
                self.entries() == old_entries,
                names_sorted(old_entries),
                old_entries.len() == old_tools.len(),
                i <= old_entries.len(),
                forall|j: int| 0 <= j < i ==> old_entries[j].name != name@,
                forall|j: int| 0 <= j < i ==> !text_lt(name@, old_entries[j].name),
                registered.description@ == new_tool.description,
                registered.substrate@ == new_tool.substrate,
                registered.parameters@ == new_tool.parameters,
                registered.invoke == new_tool.invoke,
                name@ == new_tool.name,
                new_tool == (ToolV {
                    name: new_tool.name,
                    description: description@,
                    substrate: substrate@,
                    parameters: parameters@,
                    invoke,
                }),
            ensures
                self.tools@ == old_tools,
                self.entries() == old_entries,
                i <= old_entries.len(),
                forall|j: int| 0 <= j < i ==> old_entries[j].name != name@,
                forall|j: int| 0 <= j < i ==> !text_lt(name@, old_entries[j].name),
                i < old_entries.len() ==> text_lt(name@, old_entries[i as int].name),
            decreases old_entries.len() - i,
        {
            if str_eq(self.tools[i].0.as_str(), name.as_str()) {
                self.tools.set(i, (name, registered));
                proof {
                    let e = self.entries();
                    assert(e =~= old_entries.update(i as int, new_tool));
                    assert forall|a: int, b: int| 0 <= a < b < e.len() implies text_lt(
                        #[trigger] e[a].name,
                        #[trigger] e[b].name,
                    ) by {
                        assert(e[a].name == old_entries[a].name);
                        assert(e[b].name == old_entries[b].name);
                    }
                    assert forall|k: Seq<char>| #[trigger] tool_named(e, k) == if k == name@ {
                        Some(new_tool)
                    } else {
                        tool_named(old_entries, k)
                    } by {
                        if k == name@ {
                            lemma_tool_named_at(e, i as int);
                        } else {
                            lemma_lookup_update(old_entries, i as int, new_tool, k);
                        }
                    }
                }
                return;
            }
            if str_lt(name.as_str(), self.tools[i].0.as_str()) {
                break;
            }
            i = i + 1;
        }
        proof {
            assert forall|j: int| i <= j < old_entries.len() implies old_entries[j].name != name@ by {
                if j > i {
                    assert(text_lt(old_entries[i as int].name, old_entries[j].name));
                    if old_entries[j].name == name@ {
                        lemma_text_lt_total(name@, old_entries[i as int].name);
                    }
                }
            }
        }
        self.tools.insert(i, (name, registered));
        proof {
            let e = self.entries();
            assert(e =~= old_entries.insert(i as int, new_tool));
            assert forall|a: int, b: int| 0 <= a < b < e.len() implies text_lt(
                #[trigger] e[a].name,
                #[trigger] e[b].name,
            ) by {
                if b < i {
                    assert(e[a] == old_entries[a]);
                    assert(e[b] == old_entries[b]);
                } else if b == i {
                    assert(e[a] == old_entries[a]);
                    lemma_text_lt_total(name@, old_entries[a].name);
                } else if a < i {
                    assert(e[a] == old_entries[a]);
                    assert(e[b] == old_entries[b - 1]);
                    lemma_text_lt_total(name@, old_entries[a].name);
                    if b - 1 > i {
                        assert(text_lt(old_entries[i as int].name, old_entries[b - 1].name));
                        lemma_text_lt_trans(name@, old_entries[i as int].name, old_entries[b - 1].name);
                    }
                    lemma_text_lt_trans(old_entries[a].name, name@, old_entries[b - 1].name);
                } else if a == i {
                    assert(e[b] == old_entries[b - 1]);
                    if b - 1 > i {
                        assert(text_lt(old_entries[i as int].name, old_entries[b - 1].name));
                        lemma_text_lt_trans(name@, old_entries[i as int].name, old_entries[b - 1].name);
                    }
                } else {
                    assert(e[a] == old_entries[a - 1]);
                    assert(e[b] == old_entries[b - 1]);
                }
            }
            assert forall|k: Seq<char>| #[trigger] tool_named(e, k) == if k == name@ {
                Some(new_tool)
            } else {
                tool_named(old_entries, k)
            } by {
                if k == name@ {
                    lemma_tool_named_at(e, i as int);
                } else {
                    lemma_lookup_insert(old_entries, i as int, new_tool, k);
                }
            }
        }
    }

    /// Unregisters the tool `name`; other tools stay.
    #[verifier::loop_isolation(false)]
    pub fn remove(&mut self, name: &str)
        requires
            old(self).wf(),
        ensures
            final(self).wf(),
            forall|k: Seq<char>|
                #[trigger] tool_named(final(self).entries(), k) == if k == name@ {
                    None
                } else {
                    tool_named(old(self).entries(), k)
                },
    {
        let ghost old_entries = self.entries();
        let mut i: usize = 0;
        while i < self.tools.len()
            invariant
                self.entries() == old_entries,
                names_sorted(old_entries),
                i <= old_entries.len(),
                forall|j: int| 0 <= j < i ==> old_entries[j].name != name@,
            decreases old_entries.len() - i,
        {
            if str_eq(self.tools[i].0.as_str(), name) {
                self.tools.remove(i);
                proof {
                    let e = self.entries();
                    assert(e =~= old_entries.remove(i as int));
                    assert forall|a: int, b: int| 0 <= a < b < e.len() implies text_lt(
                        #[trigger] e[a].name,
                        #[trigger] e[b].name,
                    ) by {
                        let a2 = if a < i { a } else { a + 1 };
                        let b2 = if b < i { b } else { b + 1 };
                        assert(e[a] == old_entries[a2]);
                        assert(e[b] == old_entries[b2]);
                    }
                    assert forall|k: Seq<char>| #[trigger] tool_named(e, k) == if k == name@ {
                        None
                    } else {
                        tool_named(old_entries, k)
                    } by {
                        if k == name@ {
                            assert forall|j: int| 0 <= j < e.len() implies e[j].name != k by {
                                let j2 = if j < i { j } else { j + 1 };
                                assert(e[j] == old_entries[j2]);
                                if j2 != i {
                                    if j2 < i {
                                        assert(text_lt(old_entries[j2].name, old_entries[i as int].name));
                                    } else {
                                        assert(text_lt(old_entries[i as int].name, old_entries[j2].name));
                                    }
                                    lemma_text_lt_total(k, k);
                                }
                            }
                        } else {
                            lemma_lookup_remove(old_entries, i as int, k);
                        }
                    }
                }
                return;
            }
            i = i + 1;
        }
        proof {
            assert forall|k: Seq<char>| #[trigger] tool_named(self.entries(), k) == if k == name@ {
                None
            } else {
                tool_named(old_entries, k)
            } by {}
        }
    }

    /// The substrate of the tool `name`, or `?` when there is no such tool.
    pub fn substrate_of(&self, name: &str) -> (r: String)
        requires
            self.wf(),
        ensures
            r@ == substrate_or_unknown(self.entries(), name@),
    {
        let mut i: usize = 0;
        while i < self.tools.len()
            invariant
                self.wf(),
                i <= self.entries().len(),
                forall|j: int| 0 <= j < i ==> self.entries()[j].name != name@,
            decreases self.entries().len() - i,
        {
            if str_eq(self.tools[i].0.as_str(), name) {
                proof {
                    lemma_tool_named_at(self.entries(), i as int);
                }
                return self.tools[i].1.substrate.clone();
            }
            i = i + 1;
        }
        "?".to_owned()
    }

    /// What a listing shows of each tool, in name order.
    pub fn list(&self) -> (r: Vec<ToolInfo>)
        ensures
            r@.len() == self.entries().len(),
            forall|i: int|
                0 <= i < r@.len() ==> (#[trigger] r@[i]).name@ == self.entries()[i].name
                    && r@[i].description@ == self.entries()[i].description && r@[i].substrate@
                    == self.entries()[i].substrate,
    {
        let mut out: Vec<ToolInfo> = Vec::new();
        let mut i: usize = 0;
        while i < self.tools.len()
            invariant
                i <= self.tools@.len(),
                out@.len() == i,
                forall|j: int|
                    0 <= j < i ==> (#[trigger] out@[j]).name@ == self.entries()[j].name
                        && out@[j].description@ == self.entries()[j].description
                        && out@[j].substrate@ == self.entries()[j].substrate,
            decreases self.tools@.len() - i,
        {
            let (name, tool) = (&self.tools[i].0, &self.tools[i].1);
            out.push(
                ToolInfo {
                    name: name.clone(),
                    description: tool.description.clone(),
                    substrate: tool.substrate.clone(),
                },
            );
            i = i + 1;
        }
        out
    }

    /// The function-calling schema of each tool, in name order; the
    /// description is tagged with the substrate.
    pub fn schemas(&self) -> (r: Vec<Json>)
        ensures
            r@.len() == self.entries().len(),
            forall|i: int|
                0 <= i < r@.len() ==> (#[trigger] r@[i])@ == function_schema_value(
                    self.entries()[i].name,
                    tagged_description(self.entries()[i].substrate, self.entries()[i].description),
                    self.entries()[i].parameters,
                ),
    {
        let mut out: Vec<Json> = Vec::new();
        let mut i: usize = 0;
        while i < self.tools.len()
            invariant
                i <= self.tools@.len(),
                out@.len() == i,
                forall|j: int|
                    0 <= j < i ==> (#[trigger] out@[j])@ == function_schema_value(
                        self.entries()[j].name,
                        tagged_description(self.entries()[j].substrate, self.entries()[j].description),
                        self.entries()[j].parameters,
                    ),
            decreases self.tools@.len() - i,
        {
            let (name, tool) = (&self.tools[i].0, &self.tools[i].1);
            let mut description = "[".to_owned();
            description.append(tool.substrate.as_str());
            description.append("] ");
            description.append(tool.description.as_str());
            proof {
                assert(description@ =~= tagged_description(tool.substrate@, tool.description@));
            }
            out.push(function_schema(name.as_str(), description.as_str(), tool.parameters.deep_clone()));
            i = i + 1;
        }
        out
    }
}

impl<F: Fn(&str) -> Result<String, Error>> Toolbox<F> {
    /// Runs the tool `name` on `args`; fails when there is no such tool.
    pub fn call(&self, name: &str, args: &str) -> (r: Result<String, Error>)
        requires
            self.wf(),
            forall|i: int| 0 <= i < self.entries().len() ==> call_requires(#[trigger] self.entries()[i].invoke, (args,)),
        ensures
            match tool_named(self.entries(), name@) {
                Some(t) => call_ensures(t.invoke, (args,), r),
                None => r is Err && r->Err_0 is Component && r->Err_0.text() == "没有这个工具："@ + name@,
            },
    {
        let mut i: usize = 0;
        while i < self.tools.len()
            invariant
                self.wf(),
                i <= self.entries().len(),
                forall|j: int| 0 <= j < i ==> self.entries()[j].name != name@,
                forall|i: int| 0 <= i < self.entries().len() ==> call_requires(#[trigger] self.entries()[i].invoke, (args,)),
            decreases self.entries().len() - i,
        {
            if str_eq(self.tools[i].0.as_str(), name) {
                proof {
                    lemma_tool_named_at(self.entries(), i as int);
                    assert(self.entries()[i as int].invoke == self.tools@[i as int].1.invoke);
                }
                return (self.tools[i].1.invoke)(args);
            }
            i = i + 1;
        }
        let mut text = "没有这个工具：".to_owned();
        text.append(name);
        Err(Error::Component(text))
    }
}

/// Replacing the tool at `i` by one of the same name leaves every other name's lookup alone.
proof fn lemma_lookup_update<F>(before: Seq<ToolV<F>>, i: int, t: ToolV<F>, k: Seq<char>)
    requires
        names_sorted(before),
        names_sorted(before.update(i, t)),
        0 <= i < before.len(),
        before[i].name == t.name,
        k != t.name,
    ensures
        tool_named(before.update(i, t), k) == tool_named(before, k),
{
    let after = before.update(i, t);
    if exists|j: int| 0 <= j < before.len() && before[j].name == k {
        let j = choose|j: int| 0 <= j < before.len() && before[j].name == k;
        lemma_tool_named_at(before, j);
        assert(after[j] == before[j]);
        lemma_tool_named_at(after, j);
    } else if exists|j: int| 0 <= j < after.len() && after[j].name == k {
        let j = choose|j: int| 0 <= j < after.len() && after[j].name == k;
        assert(before[j].name == k);
    }
}

/// Inserting a tool of a new name at `i` leaves every other name's lookup alone.
proof fn lemma_lookup_insert<F>(before: Seq<ToolV<F>>, i: int, t: ToolV<F>, k: Seq<char>)
    requires
        names_sorted(before),
        names_sorted(before.insert(i, t)),
        0 <= i <= before.len(),
        k != t.name,
    ensures
        tool_named(before.insert(i, t), k) == tool_named(before, k),
{
    let after = before.insert(i, t);
    if exists|j: int| 0 <= j < before.len() && before[j].name == k {
        let j = choose|j: int| 0 <= j < before.len() && before[j].name == k;
        lemma_tool_named_at(before, j);
        let j2 = if j < i { j } else { j + 1 };
        assert(after[j2] == before[j]);
        lemma_tool_named_at(after, j2);
    } else if exists|j: int| 0 <= j < after.len() && after[j].name == k {
        let j = choose|j: int| 0 <= j < after.len() && after[j].name == k;
        if j < i {
            assert(before[j].name == k);
        } else if j > i {
            assert(before[j - 1].name == k);
        }
    }
}

/// Removing the tool at `i` leaves every other name's lookup alone.
proof fn lemma_lookup_remove<F>(before: Seq<ToolV<F>>, i: int, k: Seq<char>)
    requires
        names_sorted(before),
        names_sorted(before.remove(i)),
        0 <= i < before.len(),
        k != before[i].name,
    ensures
        tool_named(before.remove(i), k) == tool_named(before, k),
{
    let after = before.remove(i);
    if exists|j: int| 0 <= j < before.len() && before[j].name == k {
        let j = choose|j: int| 0 <= j < before.len() && before[j].name == k;
        lemma_tool_named_at(before, j);
        let j2 = if j < i { j } else { j - 1 };
        assert(after[j2] == before[j]);
        lemma_tool_named_at(after, j2);
    } else if exists|j: int| 0 <= j < after.len() && after[j].name == k {
        let j = choose|j: int| 0 <= j < after.len() && after[j].name == k;
        if j < i {
            assert(before[j].name == k);
        } else {
            assert(before[j + 1].name == k);
        }
    }
}

/// In a table with unique names, a tool found by name sits at an index.
proof fn lemma_found_at<F>(s: Seq<ToolV<F>>, k: Seq<char>)
    requires
        names_sorted(s),
        tool_named(s, k) is Some,
    ensures
        exists|i: int| 0 <= i < s.len() && s[i] == tool_named(s, k)->Some_0 && s[i].name == k,
{
    let i = choose|i: int| 0 <= i < s.len() && s[i].name == k;
    assert(s[i] == tool_named(s, k)->Some_0);
}

/// Two tables in name order that find the same tool under every name are
/// the same table.
pub proof fn lemma_lookups_determine_table<F>(a: Seq<ToolV<F>>, b: Seq<ToolV<F>>)
    requires
        names_sorted(a),
        names_sorted(b),
        forall|k: Seq<char>| #[trigger] tool_named(a, k) == tool_named(b, k),
    ensures
        a == b,
    decreases a.len() + b.len(),
{
    if a.len() == 0 {
        if b.len() > 0 {
            lemma_tool_named_at(b, 0);
            assert(tool_named(a, b[0].name) == tool_named(b, b[0].name));
        }
        assert(a =~= b);
    } else if b.len() == 0 {
        lemma_tool_named_at(a, 0);
        assert(tool_named(a, a[0].name) == tool_named(b, a[0].name));
    } else {
        let na = a.len() - 1;
        let nb = b.len() - 1;
        let la = a[na];
        let lb = b[nb];
        lemma_tool_named_at(a, na);
        lemma_tool_named_at(b, nb);
        assert(tool_named(a, la.name) == tool_named(b, la.name));
        assert(tool_named(a, lb.name) == tool_named(b, lb.name));
        lemma_found_at(b, la.name);
        lemma_found_at(a, lb.name);
        let j = choose|j: int| 0 <= j < b.len() && b[j] == la && b[j].name == la.name;
        let i = choose|i: int| 0 <= i < a.len() && a[i] == lb && a[i].name == lb.name;
        if j < nb {
            assert(text_lt(b[j].name, b[nb].name));
            if i < na {
                assert(text_lt(a[i].name, a[na].name));
                lemma_text_lt_total(la.name, lb.name);
            }
        }
        if i < na && j == nb {
            assert(text_lt(a[i].name, a[na].name));
            lemma_text_lt_total(la.name, lb.name);
        }
        assert(la == lb) by {
            if j == nb {
            } else if i == na {
            } else {
                lemma_text_lt_total(la.name, lb.name);
            }
        }
        let da = a.drop_last();
        let db = b.drop_last();
        assert(da =~= a.remove(na));
        assert(db =~= b.remove(nb));
        assert forall|x: int, y: int| 0 <= x < y < da.len() implies text_lt(#[trigger] da[x].name, #[trigger] da[y].name) by {
            assert(da[x] == a[x] && da[y] == a[y]);
        }
        assert forall|x: int, y: int| 0 <= x < y < db.len() implies text_lt(#[trigger] db[x].name, #[trigger] db[y].name) by {
            assert(db[x] == b[x] && db[y] == b[y]);
        }
        assert forall|k: Seq<char>| #[trigger] tool_named(da, k) == tool_named(db, k) by {
            if k == la.name {
                assert forall|x: int| 0 <= x < da.len() implies da[x].name != k by {
                    assert(text_lt(a[x].name, a[na].name));
                    lemma_text_lt_total(k, k);
                }
                assert forall|x: int| 0 <= x < db.len() implies db[x].name != k by {
                    assert(text_lt(b[x].name, b[nb].name));
                    lemma_text_lt_total(k, k);
                }
            } else {
                lemma_lookup_remove(a, na, k);
                lemma_lookup_remove(b, nb, k);
                assert(tool_named(a, k) == tool_named(b, k));
            }
        }
        lemma_lookups_determine_table(da, db);
        assert(a =~= da.push(la));
        assert(b =~= db.push(lb));
    }
}

} // verus!
