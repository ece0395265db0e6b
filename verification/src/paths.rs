//! Paths held as text (`/`-separated).
use vstd::prelude::*;

use crate::error::Error;
use crate::json::Json;
use crate::text::{str_eq, to_chars, from_chars};
use crate::text::join as join_parts;

verus! {

/// `Path::join` on Unix: an absolute `rel` replaces `base`; otherwise `rel`
/// follows `base`, with a `/` between them unless `base` is empty or already
/// ends with one.
pub open spec fn joined(base: Seq<char>, rel: Seq<char>) -> Seq<char> {
    if rel.len() > 0 && rel[0] == '/' {
        rel
    } else if base.len() == 0 || base.last() == '/' {
        base + rel
    } else {
        base + seq!['/'] + rel
    }
}

/// `Path::join` on Unix.
pub fn join(base: &str, rel: &str) -> (r: String)
    ensures
        r@ == joined(base@, rel@),
{
    let b = to_chars(base);
    let r = to_chars(rel);
    if r.len() > 0 && r[0] == '/' {
        return rel.to_owned();
    }
    let mut out = base.to_owned();
    if !(b.len() == 0 || b[b.len() - 1] == '/') {
        out.append("/");
        assert("/"@ =~= seq!['/']) by {
            reveal_strlit("/");
        }
    }
    out.append(rel);
    out
}

/// Whether `path` is absolute.
pub open spec fn is_absolute(path: Seq<char>) -> bool {
    path.len() > 0 && path[0] == '/'
}

/// Whether `path` is absolute.
pub fn absolute(path: &str) -> (r: bool)
    ensures
        r == is_absolute(path@),
{
    let v = to_chars(path);
    v.len() > 0 && v[0] == '/'
}

/// What `Path::starts_with` says of `path` and `base`: whether the components
/// of `base` begin those of `path`.
pub uninterp spec fn path_starts_with(path: Seq<char>, base: Seq<char>) -> bool;

/// `Path::starts_with`, named by `path_starts_with`.
#[verifier::external_body]
fn starts_with_path(path: &str, base: &str) -> (r: bool)
    ensures
        r == path_starts_with(path@, base@),
{
    std::path::Path::new(path).starts_with(base)
}

/// The refusal of a workspace whose root cannot be resolved.
pub fn workspace_invalid(error: &str) -> (r: Error)
    ensures
        r is Component && r.text() == "工作区无效："@ + error@,
{
    let mut text = "工作区无效：".to_owned();
    text.append(error);
    Error::Component(text)
}

/// Keeps a path inside the workspace: given the workspace's resolved `root`
/// and what resolving `user_path` under it gave (`canonical`, or the error's
/// text), the resolved path when it lies under `root`, and a refusal otherwise.
pub fn contain_path(root: &str, user_path: &str, canonical: Result<String, String>) -> (r: Result<String, Error>)
    ensures
        r is Ok ==> path_starts_with(r->Ok_0@, root@),
        match canonical {
            Err(e) => r is Err && r->Err_0 is Component && r->Err_0.text() == "路径不存在或不可访问："@ + user_path@
                + " ("@ + e@ + ")"@,
            Ok(c) => if path_starts_with(c@, root@) {
                r is Ok && r->Ok_0@ == c@
            } else {
                r is Err && r->Err_0 is Component && r->Err_0.text() == "路径在工作区外："@ + user_path@
            },
        },
{
    match canonical {
        Err(e) => {
            let mut text = "路径不存在或不可访问：".to_owned();
            text.append(user_path);
            text.append(" (");
            text.append(e.as_str());
            text.append(")");
            Err(Error::Component(text))
        },
        Ok(c) => {
            if starts_with_path(c.as_str(), root) {
                Ok(c)
            } else {
                let mut text = "路径在工作区外：".to_owned();
                text.append(user_path);
                Err(Error::Component(text))
            }
        },
    }
}

/// The workspace a plugin's `root` setting names: the default workspace when
/// it is missing, empty or `.`; an absolute path as it is; otherwise a path
/// under the default workspace.
pub open spec fn configured_root(root: Option<Seq<char>>, default_root: Seq<char>) -> Seq<char> {
    match root {
        None => default_root,
        Some(p) => if p.len() == 0 || p == "."@ {
            default_root
        } else if is_absolute(p) {
            p
        } else {
            joined(default_root, p)
        },
    }
}

/// The workspace a plugin's configuration names (see [`configured_root`]).
pub fn workspace_root(config: &Json, default_root: &str) -> (r: String)
    ensures
        r@ == configured_root(config@.str_member("root"@), default_root@),
{
    match config.get_str("root") {
        None => default_root.to_owned(),
        Some(p) => {
            proof {
                reveal_strlit(".");
            }
            if p.unicode_len() == 0 || str_eq(p, ".") {
                default_root.to_owned()
            } else if absolute(p) {
                p.to_owned()
            } else {
                join(default_root, p)
            }
        },
    }
}

/// What `Path::file_stem` gives for a path, as text.
pub uninterp spec fn path_file_stem(path: Seq<char>) -> Option<Seq<char>>;

/// `Path::file_stem`, named by `path_file_stem`.
#[verifier::external_body]
fn file_stem(path: &str) -> (r: Option<String>)
    ensures
        match r {
            Some(s) => path_file_stem(path@) == Some(s@),
            None => path_file_stem(path@) is None,
        },
{
    std::path::Path::new(path).file_stem().map(|stem| stem.to_string_lossy().into_owned())
}

/// The stem of the file `path` names, or `default` when it names none.
pub open spec fn stem_or_default(path: Seq<char>, default: Seq<char>) -> Seq<char> {
    match path_file_stem(path) {
        Some(s) => s,
        None => default,
    }
}

/// The stem of the file `path` names, or `default` when it names none.
pub fn stem_or(path: &str, default: &str) -> (r: String)
    ensures
        r@ == stem_or_default(path@, default@),
{
    match file_stem(path) {
        Some(s) => s,
        None => default.to_owned(),
    }
}

/// Position of the last `/` in `p`, or -1 when there is none.
pub open spec fn last_slash(p: Seq<char>) -> int
    decreases p.len(),
{
    if p.len() == 0 {
        -1
    } else if p.last() == '/' {
        p.len() - 1
    } else {
        last_slash(p.drop_last())
    }
}

proof fn lemma_last_slash(p: Seq<char>)
    ensures
        -1 <= last_slash(p) < p.len(),
        last_slash(p) >= 0 ==> p[last_slash(p)] == '/',
        forall|j: int| last_slash(p) < j < p.len() ==> p[j] != '/',
    decreases p.len(),
{
    if p.len() > 0 && p.last() != '/' {
        lemma_last_slash(p.drop_last());
        assert forall|j: int| last_slash(p) < j < p.len() implies p[j] != '/' by {
            if j < p.len() - 1 {
                assert(p[j] == p.drop_last()[j]);
            }
        }
    }
}

/// The directory above the path `p`, read as text: everything before its
/// last `/` (the root for a path right under it); none when there is none.
pub open spec fn text_parent(p: Seq<char>) -> Option<Seq<char>> {
    let k = last_slash(p);
    if k < 0 {
        None
    } else if k == 0 {
        if p.len() > 1 {
            Some(seq!['/'])
        } else {
            None
        }
    } else {
        Some(p.take(k))
    }
}

/// The last component of the path `p`, read as text: what follows its last `/`.
pub open spec fn text_name(p: Seq<char>) -> Seq<char> {
    p.skip(last_slash(p) + 1)
}

/// The path `p`, then each directory above it, nearest first.
pub open spec fn candidate_paths(p: Seq<char>) -> Seq<Seq<char>>
    decreases p.len(),
{
    match text_parent(p) {
        Some(q) => if q.len() < p.len() {
            seq![p] + candidate_paths(q)
        } else {
            seq![p]
        },
        None => seq![p],
    }
}

/// Position of the first probe that found its path, or the number of probes.
pub open spec fn first_found(probes: Seq<Result<Seq<char>, Seq<char>>>) -> int
    decreases probes.len(),
{
    if probes.len() == 0 {
        0
    } else if probes[0] is Ok {
        0
    } else {
        1 + first_found(probes.drop_first())
    }
}

/// The names still to be made under the found directory `candidates[k]`,
/// outermost first; empty names and `.` are left out.
pub open spec fn names_below(candidates: Seq<Seq<char>>, k: int) -> Seq<Seq<char>>
    decreases k,
{
    if k <= 0 {
        Seq::empty()
    } else {
        let n = text_name(candidates[k - 1]);
        let rest = names_below(candidates, k - 1);
        if n.len() == 0 || n == "."@ {
            rest
        } else {
            seq![n] + rest
        }
    }
}

/// Whether a name still to be made under `candidates[k]` is `..`.
pub open spec fn climbs(candidates: Seq<Seq<char>>, k: int) -> bool {
    exists|j: int| 0 <= j < k && text_name(#[trigger] candidates[j]) == ".."@
}

/// The text of an error probe.
pub open spec fn probe_error(probe: Result<Seq<char>, Seq<char>>) -> Seq<char> {
    match probe {
        Err(e) => e,
        Ok(_) => Seq::empty(),
    }
}

/// Where a write of `user_path` in the workspace `root` (resolved) lands,
/// given what resolving each of [`candidate_paths`] of the joined path gave
/// (`probes`, in the same order): an existing path is used as resolved; a
/// new one is made under the nearest directory above it that exists, with
/// the names still missing (none of them `..`); either way it must lie under
/// `root`. When nothing along the path exists, or a missing name climbs with
/// `..`, the path counts as inaccessible, with the first probe's error.
pub open spec fn write_target_of(
    root: Seq<char>,
    user_path: Seq<char>,
    probes: Seq<Result<Seq<char>, Seq<char>>>,
) -> Result<Seq<char>, Seq<char>> {
    let candidates = candidate_paths(joined(root, user_path));
    let k = first_found(probes);
    let inaccessible = "路径不存在或不可访问："@ + user_path + " ("@ + probe_error(probes[0]) + ")"@;
    if k >= probes.len() || (k > 0 && climbs(candidates, k)) {
        Err(inaccessible)
    } else {
        let found = probes[k]->Ok_0;
        if !path_starts_with(found, root) {
            Err("路径在工作区外："@ + user_path)
        } else if k == 0 || names_below(candidates, k).len() == 0 {
            Ok(found)
        } else {
            Ok(joined(found, crate::text::joined(names_below(candidates, k), "/"@)))
        }
    }
}

/// Splits `p` at its last `/`: the directory above it and the last name.
fn split_path(p: &str) -> (r: (Option<String>, String))
    ensures
        match r.0 {
            Some(q) => text_parent(p@) == Some(q@),
            None => text_parent(p@) is None,
        },
        r.1@ == text_name(p@),
{
    let cs = to_chars(p);
    let ghost ps = cs@;
    proof {
        lemma_last_slash(ps);
    }
    let mut i: usize = cs.len();
    while i > 0 && cs[i - 1] != '/'
        invariant
            ps == cs@,
            i <= ps.len(),
            forall|j: int| i <= j < ps.len() ==> ps[j] != '/',
        decreases i,
    {
        i = i - 1;
    }
    proof {
        if i > 0 {
            assert(ps[i - 1] == '/');
            assert(last_slash(ps) == i - 1) by {
                if last_slash(ps) < i - 1 {
                } else if last_slash(ps) > i - 1 {
                    assert(ps[last_slash(ps)] == '/');
                }
            }
        } else {
            assert(last_slash(ps) == -1) by {
                if last_slash(ps) >= 0 {
                    assert(ps[last_slash(ps)] == '/');
                }
            }
        }
    }
    let mut name: Vec<char> = Vec::new();
    let mut j: usize = i;
    while j < cs.len()
        invariant
            ps == cs@,
            i <= j <= ps.len(),
            name@ == ps.subrange(i as int, j as int),
        decreases ps.len() - j,
    {
        name.push(cs[j]);
        j = j + 1;
    }
    proof {
        assert(ps.skip(last_slash(ps) + 1) =~= ps.subrange(i as int, ps.len() as int));
    }
    let name_text = from_chars(&name);
    if i == 0 {
        (None, name_text)
    } else if i == 1 {
        if cs.len() > 1 {
            let mut root: Vec<char> = Vec::new();
            root.push('/');
            (Some(from_chars(&root)), name_text)
        } else {
            (None, name_text)
        }
    } else {
        let mut parent: Vec<char> = Vec::new();
        let mut k: usize = 0;
        while k < i - 1
            invariant
                ps == cs@,
                1 < i <= ps.len(),
                k <= i - 1,
                parent@ == ps.take(k as int),
            decreases i - 1 - k,
        {
            parent.push(cs[k]);
            k = k + 1;
            assert(parent@ =~= ps.take(k as int));
        }
        (Some(from_chars(&parent)), name_text)
    }
}

/// The paths a write of `user_path` in the workspace `root` probes: the
/// joined path, then each directory above it (see [`candidate_paths`]).
pub fn write_candidates(root: &str, user_path: &str) -> (r: Vec<String>)
    ensures
        r@.map_values(|p: String| p@) == candidate_paths(joined(root@, user_path@)),
{
    let full = join(root, user_path);
    let mut out: Vec<String> = Vec::new();
    let mut cur = full;
    let ghost top = cur@;
    proof {
        assert(out@.map_values(|p: String| p@) + candidate_paths(cur@) =~= candidate_paths(top));
    }
    loop
        invariant
            top == joined(root@, user_path@),
            out@.map_values(|p: String| p@) + candidate_paths(cur@) == candidate_paths(top),
        decreases cur@.len(),
    {
        let ghost before = out@;
        let (parent, _name) = split_path(cur.as_str());
        let ghost c = cur@;
        match parent {
            Some(q) => {
                if q.as_str().unicode_len() < cur.as_str().unicode_len() {
                    out.push(cur);
                    proof {
                        assert(out@.map_values(|p: String| p@) =~= before.map_values(|p: String| p@).push(c));
                        assert(candidate_paths(c) == seq![c] + candidate_paths(q@));
                        assert(before.map_values(|p: String| p@).push(c) + candidate_paths(q@) =~= before.map_values(
                            |p: String| p@,
                        ) + (seq![c] + candidate_paths(q@)));
                    }
                    cur = q;
                } else {
                    out.push(cur);
                    proof {
                        assert(candidate_paths(c) == seq![c]);
                        assert(out@.map_values(|p: String| p@) =~= before.map_values(|p: String| p@) + seq![c]);
                    }
                    return out;
                }
            },
            None => {
                out.push(cur);
                proof {
                    assert(candidate_paths(c) == seq![c]);
                    assert(out@.map_values(|p: String| p@) =~= before.map_values(|p: String| p@) + seq![c]);
                }
                return out;
            },
        }
    }
}

proof fn lemma_first_found(probes: Seq<Result<Seq<char>, Seq<char>>>, i: int)
    requires
        0 <= i <= probes.len(),
        forall|j: int| 0 <= j < i ==> probes[j] is Err,
        i < probes.len() ==> probes[i] is Ok,
    ensures
        first_found(probes) == i,
    decreases i,
{
    if i > 0 {
        let rest = probes.drop_first();
        assert forall|j: int| 0 <= j < i - 1 implies rest[j] is Err by {
            assert(rest[j] == probes[j + 1]);
        }
        if i < probes.len() {
            assert(rest[i - 1] == probes[i]);
        }
        lemma_first_found(rest, i - 1);
    }
}

/// The abstract value of textual probes.
pub open spec fn probes_view(probes: Seq<Result<String, String>>) -> Seq<Result<Seq<char>, Seq<char>>> {
    probes.map_values(
        |p: Result<String, String>|
            match p {
                Ok(t) => Ok(t@),
                Err(e) => Err(e@),
            },
    )
}

/// Where a write of `user_path` in the workspace `root` (resolved) lands,
/// given the probes of [`write_candidates`] (see [`write_target_of`]). The
/// host makes the missing directories and writes the file there.
pub fn write_target(root: &str, user_path: &str, probes: &Vec<Result<String, String>>) -> (r: Result<String, Error>)
    requires
        probes@.len() == candidate_paths(joined(root@, user_path@)).len(),
    ensures
        match write_target_of(root@, user_path@, probes_view(probes@)) {
            Ok(t) => r is Ok && r->Ok_0@ == t,
            Err(m) => r is Err && r->Err_0 is Component && r->Err_0.text() == m,
        },
{
    let ghost pv = probes_view(probes@);
    let cands = write_candidates(root, user_path);
    let ghost cs = candidate_paths(joined(root@, user_path@));
    proof {
        lemma_candidates_nonempty(joined(root@, user_path@));
    }
    let mut k: usize = 0;
    while k < probes.len() && probes[k].is_err()
        invariant
            pv == probes_view(probes@),
            pv.len() == probes@.len(),
            k <= probes@.len(),
            forall|j: int| 0 <= j < k ==> pv[j] is Err,
        decreases probes@.len() - k,
    {
        proof {
            assert(pv[k as int] is Err);
        }
        k = k + 1;
    }
    proof {
        if k < probes@.len() {
            assert(pv[k as int] is Ok);
        }
        lemma_first_found(pv, k as int);
    }
    let mut inaccessible = "路径不存在或不可访问：".to_owned();
    inaccessible.append(user_path);
    inaccessible.append(" (");
    match &probes[0] {
        Err(e) => inaccessible.append(e.as_str()),
        Ok(_) => {},
    }
    inaccessible.append(")");
    proof {
        reveal_strlit("");
        assert(pv[0] == match probes@[0] {
            Ok(t) => Ok::<Seq<char>, Seq<char>>(t@),
            Err(e) => Err(e@),
        });
    }
    if k >= probes.len() {
        return Err(Error::Component(inaccessible));
    }
    let mut names: Vec<String> = Vec::new();
    let mut up = false;
    let mut j: usize = 0;
    proof {
        assert(names@.map_values(|p: String| p@) =~= names_below(cs, 0));
    }
    while j < k
        invariant
            cands@.map_values(|p: String| p@) == cs,
            cs.len() == probes@.len(),
            k < probes@.len(),
            j <= k,
            names@.map_values(|p: String| p@) == names_below(cs, j as int),
            up == exists|i: int| 0 <= i < j && text_name(#[trigger] cs[i]) == ".."@,
        decreases k - j,
    {
        let (_p, n) = split_path(cands[j].as_str());
        proof {
            assert(cands@[j as int]@ == cs[j as int]);
            reveal_strlit(".");
            reveal_strlit("..");
        }
        let ghost before = names@;
        if str_eq(n.as_str(), "..") {
            up = true;
        }
        if !(n.as_str().unicode_len() == 0 || str_eq(n.as_str(), ".")) {
            names.insert(0, n);
            proof {
                assert(names@.map_values(|p: String| p@) =~= seq![text_name(cs[j as int])] + before.map_values(
                    |p: String| p@,
                ));
            }
        }
        j = j + 1;
    }
    if k > 0 && up {
        return Err(Error::Component(inaccessible));
    }
    let found = match &probes[k] {
        Ok(t) => t.clone(),
        Err(e) => e.clone(),
    };
    proof {
        assert(pv[k as int] == Ok::<Seq<char>, Seq<char>>(found@));
    }
    if !starts_with_path(found.as_str(), root) {
        let mut text = "路径在工作区外：".to_owned();
        text.append(user_path);
        return Err(Error::Component(text));
    }
    if k == 0 || names.len() == 0 {
        Ok(found)
    } else {
        let rest = join_parts(&names, "/");
        Ok(join(found.as_str(), rest.as_str()))
    }
}

proof fn lemma_candidates_nonempty(p: Seq<char>)
    ensures
        candidate_paths(p).len() >= 1,
        candidate_paths(p)[0] == p,
{
}

} // verus!
