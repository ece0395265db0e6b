//! What the host shows guests, and where it finds them.
use vstd::prelude::*;

use crate::approval::{string_items, strings_of};
use crate::error::Error;
use crate::json::{Json, JsonV};
use crate::paths::{is_absolute, join, joined};
use crate::text::{lemma_text_lt_total, lemma_text_lt_trans, str_eq, str_lt, text_lt};

verus! {

/// Whether the names strictly increase.
pub open spec fn strictly_sorted(names: Seq<Seq<char>>) -> bool {
    forall|i: int, j: int| 0 <= i < j < names.len() ==> text_lt(#[trigger] names[i], #[trigger] names[j])
}

/// The first of `granted` that is not in `exposed`.
pub open spec fn first_unexposed(exposed: Seq<Seq<char>>, granted: Seq<Seq<char>>) -> Option<Seq<char>>
    decreases granted.len(),
{
    if granted.len() == 0 {
        None
    } else if !exposed.contains(granted[0]) {
        Some(granted[0])
    } else {
        first_unexposed(exposed, granted.drop_first())
    }
}

/// The capabilities a host lets guests see, by name.
pub struct Capabilities {
    names: Vec<String>,
}

impl Capabilities {
    /// The exposed names, in order.
    pub closed spec fn exposed(self) -> Seq<Seq<char>> {
        self.names@.map_values(|n: String| n@)
    }

    /// The invariant: names are sorted without repeats.
    pub open spec fn wf(self) -> bool {
        strictly_sorted(self.exposed())
    }

    /// Nothing exposed.
    pub fn new() -> (r: Self)
        ensures
            r.wf(),
            r.exposed().len() == 0,
    {
        let r = Capabilities { names: Vec::new() };
        assert(r.exposed() =~= Seq::<Seq<char>>::empty());
        r
    }

    /// Exposes the capability `name` (exposing it again changes nothing).
    pub fn expose(&mut self, name: &str)
        requires
            old(self).wf(),
        ensures
            final(self).wf(),
            forall|n: Seq<char>| #[trigger] final(self).exposed().contains(n) <==> (old(self).exposed().contains(n) || n == name@),
    {
        let ghost before = self.exposed();
        let mut i: usize = 0;
        while i < self.names.len() && str_lt(self.names[i].as_str(), name)
            invariant
                self.exposed() == before,
                strictly_sorted(before),
                i <= before.len(),
                forall|j: int| 0 <= j < i ==> text_lt(#[trigger] before[j], name@),
            decreases before.len() - i,
        {
            i = i + 1;
        }
        if i < self.names.len() && str_eq(self.names[i].as_str(), name) {
            proof {
                assert(before[i as int] == name@);
                assert(before.contains(name@));
            }
            return;
        }
        proof {
            if i < before.len() {
                lemma_text_lt_total(name@, before[i as int]);
                assert(text_lt(name@, before[i as int]));
                assert forall|k: int| i <= k < before.len() implies text_lt(name@, #[trigger] before[k]) by {
                    if k > i {
                        lemma_text_lt_trans(name@, before[i as int], before[k]);
                    }
                }
            }
        }
        self.names.insert(i, name.to_owned());
        proof {
            let after = self.exposed();
            assert(after =~= before.insert(i as int, name@));
            assert forall|a: int, b: int| 0 <= a < b < after.len() implies text_lt(#[trigger] after[a], #[trigger] after[b]) by {
                if b < i {
                } else if a < i && b == i {
                } else if a < i && b > i {
                    assert(after[b] == before[b - 1]);
                    assert(text_lt(name@, before[b - 1]));
                    lemma_text_lt_trans(before[a], name@, before[b - 1]);
                } else if a == i {
                    assert(after[b] == before[b - 1]);
                } else {
                    assert(after[a] == before[a - 1]);
                    assert(after[b] == before[b - 1]);
                }
            }
            assert forall|n: Seq<char>| #[trigger] after.contains(n) <==> (before.contains(n) || n == name@) by {
                if after.contains(n) {
                    let k = choose|k: int| 0 <= k < after.len() && after[k] == n;
                    if k < i {
                        assert(before[k] == n);
                    } else if k > i {
                        assert(before[k - 1] == n);
                    }
                }
                if before.contains(n) {
                    let k = choose|k: int| 0 <= k < before.len() && before[k] == n;
                    if k < i {
                        assert(after[k] == n);
                    } else {
                        assert(after[k + 1] == n);
                    }
                }
                if n == name@ {
                    assert(after[i as int] == n);
                }
            }
        }
    }

    /// The exposed names, sorted.
    pub fn names(&self) -> (r: Vec<String>)
        ensures
            r@.map_values(|n: String| n@) == self.exposed(),
    {
        let mut out: Vec<String> = Vec::new();
        let mut i: usize = 0;
        while i < self.names.len()
            invariant
                i <= self.names@.len(),
                out@.len() == i,
                forall|j: int| 0 <= j < i ==> (#[trigger] out@[j])@ == self.names@[j]@,
            decreases self.names@.len() - i,
        {
            out.push(self.names[i].clone());
            i = i + 1;
        }
        assert(out@.map_values(|n: String| n@) =~= self.exposed());
        out
    }

    /// Whether `name` is exposed.
    pub fn exposes(&self, name: &str) -> (r: bool)
        ensures
            r == self.exposed().contains(name@),
    {
        let mut i: usize = 0;
        while i < self.names.len()
            invariant
                i <= self.names@.len(),
                forall|j: int| 0 <= j < i ==> self.exposed()[j] != name@,
            decreases self.names@.len() - i,
        {
            if str_eq(self.names[i].as_str(), name) {
                assert(self.exposed()[i as int] == name@);
                return true;
            }
            i = i + 1;
        }
        false
    }

    /// Checks what a guest is granted: every granted name must be exposed;
    /// the first that is not is refused as an unknown key. On success the
    /// granted names come back, in order, as the keys to inject.
    pub fn inject(&self, granted: &[String]) -> (r: Result<Vec<String>, Error>)
        ensures
            match first_unexposed(self.exposed(), granted@.map_values(|g: String| g@)) {
                None => r is Ok && r->Ok_0@.map_values(|g: String| g@) == granted@.map_values(|g: String| g@),
                Some(name) => r is Err && r->Err_0 is UnknownKey && r->Err_0.text() == name,
            },
    {
        let ghost gs = granted@.map_values(|g: String| g@);
        let mut keys: Vec<String> = Vec::new();
        let mut i: usize = 0;
        proof {
            assert(gs.skip(0) =~= gs);
            assert(keys@.map_values(|g: String| g@) =~= gs.take(0));
        }
        while i < granted.len()
            invariant
                gs == granted@.map_values(|g: String| g@),
                i <= gs.len(),
                keys@.map_values(|g: String| g@) == gs.take(i as int),
                first_unexposed(self.exposed(), gs) == first_unexposed(self.exposed(), gs.skip(i as int)),
            decreases gs.len() - i,
        {
            proof {
                assert(gs.skip(i as int).drop_first() =~= gs.skip(i + 1));
                assert(gs.skip(i as int)[0] == granted@[i as int]@);
            }
            if !self.exposes(granted[i].as_str()) {
                return Err(Error::UnknownKey(granted[i].clone()));
            }
            let ghost before = keys@;
            keys.push(granted[i].clone());
            proof {
                assert(keys@.map_values(|g: String| g@) =~= before.map_values(|g: String| g@).push(granted@[i as int]@));
                assert(keys@.map_values(|g: String| g@) =~= gs.take(i + 1));
            }
            i = i + 1;
        }
        proof {
            assert(gs.skip(gs.len() as int) =~= Seq::<Seq<char>>::empty());
            assert(gs.take(gs.len() as int) =~= gs);
        }
        Ok(keys)
    }
}

/// The name under which the current document is exposed to guests.
pub open spec fn document_capability() -> Seq<char> {
    "markdown"@
}

fn document_capabilities() -> (r: Capabilities)
    ensures
        r.wf(),
        forall|n: Seq<char>| #[trigger] r.exposed().contains(n) <==> n == document_capability(),
{
    let mut caps = Capabilities::new();
    caps.expose("markdown");
    caps
}

/// What wasm guests may see: the current document.
pub fn wasm_caps() -> (r: Capabilities)
    ensures
        r.wf(),
        forall|n: Seq<char>| #[trigger] r.exposed().contains(n) <==> n == document_capability(),
{
    document_capabilities()
}

/// What script guests may see: the current document.
pub fn script_caps() -> (r: Capabilities)
    ensures
        r.wf(),
        forall|n: Seq<char>| #[trigger] r.exposed().contains(n) <==> n == document_capability(),
{
    document_capabilities()
}

/// What process guests may see: the current document.
pub fn process_caps() -> (r: Capabilities)
    ensures
        r.wf(),
        forall|n: Seq<char>| #[trigger] r.exposed().contains(n) <==> n == document_capability(),
{
    document_capabilities()
}

/// Where a built wasm guest lives under the project root `root`.
pub fn wasm_guest(root: &str, name: &str) -> (r: String)
    ensures
        r@ == joined(joined(root@, "target/guests"@), name@ + ".wasm"@),
{
    let dir = join(root, "target/guests");
    let mut file = name.to_owned();
    file.append(".wasm");
    join(dir.as_str(), file.as_str())
}

/// Where a built process guest lives under the project root `root`.
pub fn process_guest(root: &str, name: &str) -> (r: String)
    ensures
        r@ == joined(joined(root@, "target/guests"@), name@),
{
    let dir = join(root, "target/guests");
    join(dir.as_str(), name)
}

/// A configured path: absolute paths stay, others are taken from the project root.
pub fn resolve_path(root: &str, path: &str) -> (r: String)
    ensures
        r@ == if is_absolute(path@) {
            path@
        } else {
            joined(root@, path@)
        },
{
    if crate::paths::absolute(path) {
        path.to_owned()
    } else {
        join(root, path)
    }
}

/// The capability names a plugin row grants: the strings of its `grant` array.
pub open spec fn granted_names(config: JsonV) -> Seq<Seq<char>> {
    match config.array_member("grant"@) {
        Some(items) => string_items(items),
        None => Seq::empty(),
    }
}

/// The capability names a plugin row grants.
pub fn grant_list(config: &Json) -> (r: Vec<String>)
    ensures
        r@.map_values(|s: String| s@) == granted_names(config@),
{
    match config.get_array("grant") {
        Some(items) => strings_of(items),
        None => {
            let r: Vec<String> = Vec::new();
            assert(r@.map_values(|s: String| s@) =~= Seq::<Seq<char>>::empty());
            r
        },
    }
}

/// The text member `key` of a plugin row.
pub fn config_str(config: &Json, key: &str) -> (r: Option<String>)
    ensures
        match r {
            Some(t) => config@.str_member(key@) == Some(t@),
            None => config@.str_member(key@) is None,
        },
{
    match config.get_str(key) {
        Some(t) => Some(t.to_owned()),
        None => None,
    }
}

} // verus!
