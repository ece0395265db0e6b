//! The active workspace directory and the registry of recently used ones.
//!
//! The host canonicalizes paths, asks the file system which ones are
//! directories, and reads and writes `.agent/workspaces.json`; what the
//! registry holds after each step is decided here.
use vstd::prelude::*;

use crate::paths::{join, joined};
use crate::text::{str_eq, trim, trimmed};

verus! {

/// The content of `.agent/workspaces.json`.
#[derive(Debug)]
pub struct Registry {
    pub current: Option<String>,
    pub recent: Vec<String>,
}

/// The abstract value of a [`Registry`].
pub struct RegistryV {
    pub current: Option<Seq<char>>,
    pub recent: Seq<Seq<char>>,
}

impl View for Registry {
    type V = RegistryV;

    open spec fn view(&self) -> RegistryV {
        RegistryV {
            current: match self.current {
                Some(c) => Some(c@),
                None => None,
            },
            recent: self.recent@.map_values(|p: String| p@),
        }
    }
}

impl Default for Registry {
    fn default() -> (r: Self)
        ensures
            r@.current is None,
            r@.recent.len() == 0,
    {
        Registry { current: None, recent: Vec::new() }
    }
}

/// How many recent workspaces the registry remembers.
pub open spec fn recent_limit() -> nat {
    12
}

/// The entries other than `key`.
pub open spec fn other_than(key: Seq<char>) -> spec_fn(Seq<char>) -> bool {
    |e: Seq<char>| e != key
}

/// The recent list after using `key`: `key` first, then the others in their
/// order without `key`, at most twelve.
pub open spec fn touched(recent: Seq<Seq<char>>, key: Seq<char>) -> Seq<Seq<char>> {
    let all = seq![key] + recent.filter(other_than(key));
    if all.len() > recent_limit() {
        all.take(recent_limit() as int)
    } else {
        all
    }
}

/// The registry after using the workspace `key`.
pub open spec fn touched_registry(reg: RegistryV, key: Seq<char>) -> RegistryV {
    RegistryV { current: Some(key), recent: touched(reg.recent, key) }
}

/// Records the use of the workspace `key` (a canonical directory path): it
/// becomes the current one and moves to the front of the recent list.
pub fn touch_recent(reg: &Registry, key: &str) -> (r: Registry)
    ensures
        r@ == touched_registry(reg@, key@),
{
    let ghost rs = reg@.recent;
    let ghost f = other_than(key@);
    let mut recent: Vec<String> = Vec::new();
    recent.push(key.to_owned());
    let mut i: usize = 0;
    proof {
        assert(rs.take(0) =~= Seq::<Seq<char>>::empty());
        reveal_with_fuel(Seq::filter, 1);
        assert(recent@.map_values(|p: String| p@) =~= seq![key@] + rs.take(0).filter(f));
    }
    while i < reg.recent.len()
        invariant
            rs == reg.recent@.map_values(|p: String| p@),
            f == other_than(key@),
            i <= rs.len(),
            recent@.map_values(|p: String| p@) == seq![key@] + rs.take(i as int).filter(f),
        decreases rs.len() - i,
    {
        let ghost before = recent@;
        proof {
            assert(rs.take(i + 1).drop_last() =~= rs.take(i as int));
            assert(rs.take(i + 1).last() == reg.recent@[i as int]@);
            reveal_with_fuel(Seq::filter, 1);
        }
        if !str_eq(reg.recent[i].as_str(), key) {
            recent.push(reg.recent[i].clone());
            proof {
                assert(recent@.map_values(|p: String| p@) =~= before.map_values(|p: String| p@).push(
                    reg.recent@[i as int]@,
                ));
            }
        }
        i = i + 1;
    }
    proof {
        assert(rs.take(rs.len() as int) =~= rs);
    }
    let ghost all = recent@;
    if recent.len() > 12 {
        recent.truncate(12);
        proof {
            assert(recent@.map_values(|p: String| p@) =~= all.map_values(|p: String| p@).take(12));
        }
    }
    Registry { current: Some(key.to_owned()), recent }
}

/// The registry after using each of `keys` in turn.
pub open spec fn touched_all(reg: RegistryV, keys: Seq<Seq<char>>) -> RegistryV
    decreases keys.len(),
{
    if keys.len() == 0 {
        reg
    } else {
        touched_registry(touched_all(reg, keys.drop_last()), keys.last())
    }
}

/// The entries of `paths` whose flag is set.
pub open spec fn flagged(paths: Seq<Seq<char>>, present: Seq<bool>) -> Seq<Seq<char>>
    decreases paths.len(),
{
    if paths.len() == 0 || present.len() != paths.len() {
        Seq::empty()
    } else {
        let rest = flagged(paths.drop_last(), present.drop_last());
        if present.last() {
            rest.push(paths.last())
        } else {
            rest
        }
    }
}

/// Folds the saved recent list back in when the store opens: each saved
/// path that is still a directory (`present`) is used again, in list order.
pub fn merge_recent(reg: Registry, paths: &[String], present: &[bool]) -> (r: Registry)
    requires
        paths@.len() == present@.len(),
    ensures
        r@ == touched_all(reg@, flagged(paths@.map_values(|p: String| p@), present@)),
{
    let ghost ps = paths@.map_values(|p: String| p@);
    let mut reg = reg;
    let ghost start = reg@;
    let mut i: usize = 0;
    proof {
        assert(ps.take(0) =~= Seq::<Seq<char>>::empty());
        assert(present@.take(0) =~= Seq::<bool>::empty());
    }
    while i < paths.len()
        invariant
            ps == paths@.map_values(|p: String| p@),
            paths@.len() == present@.len(),
            i <= paths@.len(),
            reg@ == touched_all(start, flagged(ps.take(i as int), present@.take(i as int))),
        decreases paths@.len() - i,
    {
        proof {
            assert(ps.take(i + 1).drop_last() =~= ps.take(i as int));
            assert(present@.take(i + 1).drop_last() =~= present@.take(i as int));
            assert(ps.take(i + 1).last() == paths@[i as int]@);
        }
        if present[i] {
            let ghost keys = flagged(ps.take(i as int), present@.take(i as int));
            reg = touch_recent(&reg, paths[i].as_str());
            proof {
                assert(flagged(ps.take(i + 1), present@.take(i + 1)) == keys.push(paths@[i as int]@));
                assert(keys.push(paths@[i as int]@).drop_last() =~= keys);
            }
        }
        i = i + 1;
    }
    proof {
        assert(ps.take(ps.len() as int) =~= ps);
        assert(present@.take(present@.len() as int) =~= present@);
    }
    reg
}

/// What the workspace picker shows: the current workspace and the recent ones.
pub struct WorkspaceList {
    pub current: String,
    pub recent: Vec<String>,
}

/// The active workspace, and where its registry is kept.
pub struct WorkspaceStore {
    registry_path: String,
    active: String,
}

impl WorkspaceStore {
    /// The active workspace directory.
    pub closed spec fn active(&self) -> Seq<char> {
        self.active@
    }

    /// Where the registry file lives.
    pub closed spec fn registry_file(&self) -> Seq<char> {
        self.registry_path@
    }

    /// A store rooted at `initial` (the starting directory, canonical when
    /// `initial_canonical`); the registry lives in its `.agent` directory.
    /// `saved` is the registry read from there (`None` when it could not be
    /// read), `saved_current` its current workspace, given only when it is
    /// still a directory and could be canonicalized: it becomes active.
    /// `found` holds, for each saved recent entry, its canonical form when it
    /// is still a directory. The returned registry is what the host saves:
    /// the saved one with each found entry used again in order and then the
    /// active workspace used (when the active one is canonical), or `None`
    /// when nothing changed.
    pub fn new(
        initial: &str,
        initial_canonical: bool,
        saved: Option<Registry>,
        saved_current: Option<String>,
        found: &[Option<String>],
    ) -> (r: (Self, Option<Registry>))
        ensures
            r.0.registry_file() == joined(initial@, ".agent/workspaces.json"@),
            r.0.active() == match saved_current {
                Some(c) => c@,
                None => initial@,
            },
            match r.1 {
                Some(reg) => if saved_current is Some || initial_canonical {
                    reg@ == touched_registry(opened_registry(opt_registry(saved), found@), r.0.active())
                } else {
                    saved is Some && found_dirs(found@).len() > 0 && reg@ == opened_registry(
                        opt_registry(saved),
                        found@,
                    )
                },
                None => !(saved_current is Some || initial_canonical) && !(saved is Some && found_dirs(
                    found@,
                ).len() > 0),
            },
    {
        let registry_path = join(initial, ".agent/workspaces.json");
        let canonical = saved_current.is_some() || initial_canonical;
        let active = match saved_current {
            Some(c) => c,
            None => initial.to_owned(),
        };
        let ghost keys = found_dirs(found@);
        let (merged, any) = match saved {
            Some(reg) => {
                let ghost start = reg@;
                let dirs = found_list(found);
                let m = use_all(reg, &dirs);
                proof {
                    assert(m@ == touched_all(start, keys));
                }
                (m, dirs.len() > 0)
            },
            None => (Registry::default(), false),
        };
        let store = WorkspaceStore { registry_path, active };
        if canonical {
            let touched = touch_recent(&merged, store.active.as_str());
            (store, Some(touched))
        } else if any {
            (store, Some(merged))
        } else {
            (store, None)
        }
    }

    /// The registry file's path.
    pub fn registry_path(&self) -> (r: &str)
        ensures
            r@ == self.registry_file(),
    {
        self.registry_path.as_str()
    }

    /// The active workspace directory.
    pub fn current(&self) -> (r: String)
        ensures
            r@ == self.active(),
    {
        self.active.clone()
    }

    /// Switches to the workspace the user typed: the path is resolved as
    /// [`canonical_dir`] does (blank, missing and non-directory paths are
    /// refused and nothing changes); otherwise it becomes active, and the
    /// registry the host read (`saved`, the default when it could not be read)
    /// comes back touched with it, for the host to save.
    pub fn switch<F: Fn(&str) -> DirProbe>(&mut self, path: &str, probe: F, saved: &Registry) -> (r: Result<
        (String, Registry),
        String,
    >)
        requires
            forall|t: &str| call_requires(probe, (t,)),
        ensures
            final(self).registry_file() == old(self).registry_file(),
            trimmed(path@).len() == 0 ==> switched_text(r) == Err::<Seq<char>, Seq<char>>("缺少目录路径"@),
            trimmed(path@).len() > 0 ==> exists|t: &str, o: DirProbe|
                t@ == trimmed(path@) && call_ensures(probe, (t,), o) && switched_text(r) == dir_outcome(
                    probe_view(o),
                ),
            match r {
                Ok((c, reg)) => final(self).active() == c@ && reg@ == touched_registry(saved@, c@),
                Err(_) => final(self).active() == old(self).active(),
            },
    {
        match canonical_dir(path, probe) {
            Ok(c) => {
                self.active = c.clone();
                let reg = touch_recent(saved, c.as_str());
                Ok((c, reg))
            },
            Err(e) => Err(e),
        }
    }

    /// The picker's listing: the active workspace and the saved recent ones
    /// that are still directories (`present`).
    pub fn list(&self, recent: &[String], present: &[bool]) -> (r: WorkspaceList)
        requires
            recent@.len() == present@.len(),
        ensures
            r.current@ == self.active(),
            r.recent@.map_values(|p: String| p@) == flagged(recent@.map_values(|p: String| p@), present@),
    {
        let ghost ps = recent@.map_values(|p: String| p@);
        let mut kept: Vec<String> = Vec::new();
        let mut i: usize = 0;
        proof {
            assert(ps.take(0) =~= Seq::<Seq<char>>::empty());
            assert(present@.take(0) =~= Seq::<bool>::empty());
            assert(kept@.map_values(|p: String| p@) =~= Seq::<Seq<char>>::empty());
        }
        while i < recent.len()
            invariant
                ps == recent@.map_values(|p: String| p@),
                recent@.len() == present@.len(),
                i <= recent@.len(),
                kept@.map_values(|p: String| p@) == flagged(ps.take(i as int), present@.take(i as int)),
            decreases recent@.len() - i,
        {
            let ghost before = kept@;
            proof {
                assert(ps.take(i + 1).drop_last() =~= ps.take(i as int));
                assert(present@.take(i + 1).drop_last() =~= present@.take(i as int));
                assert(ps.take(i + 1).last() == recent@[i as int]@);
            }
            if present[i] {
                kept.push(recent[i].clone());
                proof {
                    assert(kept@.map_values(|p: String| p@) =~= before.map_values(|p: String| p@).push(
                        recent@[i as int]@,
                    ));
                }
            }
            i = i + 1;
        }
        proof {
            assert(ps.take(ps.len() as int) =~= ps);
            assert(present@.take(present@.len() as int) =~= present@);
        }
        WorkspaceList { current: self.active.clone(), recent: kept }
    }
}

/// What the file system said of a directory path: its canonical form and
/// whether it is a directory, or the error text of canonicalizing it.
pub type DirProbe = Result<(String, bool), String>;

/// The outcome of resolving a workspace path, given what the file system said.
pub open spec fn dir_outcome(probe: Result<(Seq<char>, bool), Seq<char>>) -> Result<Seq<char>, Seq<char>> {
    match probe {
        Err(e) => Err("无法打开目录："@ + e),
        Ok((canonical, is_dir)) => if is_dir {
            Ok(canonical)
        } else {
            Err("不是目录"@)
        },
    }
}

/// The abstract value of a probe.
pub open spec fn probe_view(probe: DirProbe) -> Result<(Seq<char>, bool), Seq<char>> {
    match probe {
        Ok((c, d)) => Ok((c@, d)),
        Err(e) => Err(e@),
    }
}

/// The abstract value of a textual result.
pub open spec fn text_result(r: Result<String, String>) -> Result<Seq<char>, Seq<char>> {
    match r {
        Ok(t) => Ok(t@),
        Err(e) => Err(e@),
    }
}

/// Resolves a workspace path the user typed: blank input is refused; the
/// trimmed path is handed to `probe` (which canonicalizes it and says whether
/// it is a directory), and a path that cannot be opened or is no directory is
/// refused.
pub fn canonical_dir<F: Fn(&str) -> DirProbe>(path: &str, probe: F) -> (r: Result<String, String>)
    requires
        forall|t: &str| call_requires(probe, (t,)),
    ensures
        trimmed(path@).len() == 0 ==> text_result(r) == Err::<Seq<char>, Seq<char>>("缺少目录路径"@),
        trimmed(path@).len() > 0 ==> exists|t: &str, o: DirProbe|
            t@ == trimmed(path@) && call_ensures(probe, (t,), o) && text_result(r) == dir_outcome(
                probe_view(o),
            ),
{
    let t = trim(path);
    if t.as_str().unicode_len() == 0 {
        return Err("缺少目录路径".to_owned());
    }
    let arg = t.as_str();
    let probed = probe(arg);
    let ghost pv = probe_view(probed);
    let r = match probed {
        Err(e) => {
            let mut text = "无法打开目录：".to_owned();
            text.append(e.as_str());
            Err(text)
        },
        Ok((canonical, is_dir)) => if is_dir {
            Ok(canonical)
        } else {
            Err("不是目录".to_owned())
        },
    };
    proof {
        assert(text_result(r) == dir_outcome(pv));
        assert(arg@ == trimmed(path@) && call_ensures(probe, (arg,), probed));
    }
    r
}

/// The text outcome of a switch: the workspace switched to, or the refusal.
pub open spec fn switched_text(r: Result<(String, Registry), String>) -> Result<Seq<char>, Seq<char>> {
    match r {
        Ok((c, _)) => Ok(c@),
        Err(e) => Err(e@),
    }
}

/// The abstract value of a registry that may not have been read.
pub open spec fn opt_registry(saved: Option<Registry>) -> Option<RegistryV> {
    match saved {
        Some(reg) => Some(reg@),
        None => None,
    }
}

/// The canonical forms of the saved entries that are still directories, in order.
pub open spec fn found_dirs(found: Seq<Option<String>>) -> Seq<Seq<char>>
    decreases found.len(),
{
    if found.len() == 0 {
        Seq::empty()
    } else {
        let rest = found_dirs(found.drop_last());
        match found.last() {
            Some(c) => rest.push(c@),
            None => rest,
        }
    }
}

/// The registry as the store opens it: the saved one with every found entry
/// used again in order (the empty registry when none could be read).
pub open spec fn opened_registry(saved: Option<RegistryV>, found: Seq<Option<String>>) -> RegistryV {
    match saved {
        Some(reg) => touched_all(reg, found_dirs(found)),
        None => RegistryV { current: None, recent: Seq::empty() },
    }
}

fn found_list(found: &[Option<String>]) -> (r: Vec<String>)
    ensures
        r@.map_values(|p: String| p@) == found_dirs(found@),
{
    let mut out: Vec<String> = Vec::new();
    let mut i: usize = 0;
    proof {
        assert(found@.take(0) =~= Seq::<Option<String>>::empty());
        assert(out@.map_values(|p: String| p@) =~= Seq::<Seq<char>>::empty());
    }
    while i < found.len()
        invariant
            i <= found@.len(),
            out@.map_values(|p: String| p@) == found_dirs(found@.take(i as int)),
        decreases found@.len() - i,
    {
        proof {
            assert(found@.take(i + 1).drop_last() =~= found@.take(i as int));
            assert(found@.take(i + 1).last() == found@[i as int]);
        }
        let ghost before = out@;
        match &found[i] {
            Some(c) => {
                out.push(c.clone());
                proof {
                    assert(out@.map_values(|p: String| p@) =~= before.map_values(|p: String| p@).push(c@));
                }
            },
            None => {},
        }
        i = i + 1;
    }
    proof {
        assert(found@.take(found@.len() as int) =~= found@);
    }
    out
}

fn use_all(reg: Registry, keys: &Vec<String>) -> (r: Registry)
    ensures
        r@ == touched_all(reg@, keys@.map_values(|p: String| p@)),
{
    let ghost ks = keys@.map_values(|p: String| p@);
    let ghost start = reg@;
    let mut reg = reg;
    let mut i: usize = 0;
    proof {
        assert(ks.take(0) =~= Seq::<Seq<char>>::empty());
    }
    while i < keys.len()
        invariant
            ks == keys@.map_values(|p: String| p@),
            i <= keys@.len(),
            reg@ == touched_all(start, ks.take(i as int)),
        decreases keys@.len() - i,
    {
        proof {
            assert(ks.take(i + 1).drop_last() =~= ks.take(i as int));
            assert(ks.take(i + 1).last() == keys@[i as int]@);
        }
        reg = touch_recent(&reg, keys[i].as_str());
        i = i + 1;
    }
    proof {
        assert(ks.take(ks.len() as int) =~= ks);
    }
    reg
}

} // verus!
