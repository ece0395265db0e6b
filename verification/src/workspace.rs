//! Browsing the workspace: which entries a listing shows and in what order,
//! and how a file is previewed.
//!
//! Reading directories and files is the host's part; it hands the names,
//! kinds, sizes and bytes it found to the functions here.
use vstd::prelude::*;

use crate::error::Error;
use crate::text::{lemma_text_lt_total, lemma_text_lt_trans, str_eq, str_lt, text_lt, to_chars, trim, trimmed};
use crate::tools::{lossy_text, utf8_lossy};

verus! {

/// Names a listing never shows.
pub open spec fn skipped(name: Seq<char>) -> bool {
    name == ".git"@ || name == "target"@ || name == "node_modules"@ || name == ".agent"@ || name
        == ".cursor"@
}

/// Whether a listing leaves out the entry `name` (VCS, build and tool directories).
pub fn should_skip(name: &str) -> (r: bool)
    ensures
        r == skipped(name@),
{
    str_eq(name, ".git") || str_eq(name, "target") || str_eq(name, "node_modules") || str_eq(
        name,
        ".agent",
    ) || str_eq(name, ".cursor")
}

/// The index of the first character of `s` at or after `i` that is not `/`.
pub open spec fn first_non_slash(s: Seq<char>, i: int) -> int
    decreases s.len() - i,
{
    if i < 0 || i >= s.len() || s[i] != '/' {
        i
    } else {
        first_non_slash(s, i + 1)
    }
}

/// The index after the last character of `s[lo..j]` that is not `/`.
pub open spec fn last_non_slash(s: Seq<char>, lo: int, j: int) -> int
    decreases j - lo,
{
    if j <= lo || s[j - 1] != '/' {
        j
    } else {
        last_non_slash(s, lo, j - 1)
    }
}

/// `str::trim_matches('/')`: `s` without leading and trailing slashes.
pub open spec fn without_slashes(s: Seq<char>) -> Seq<char> {
    let a = first_non_slash(s, 0);
    s.subrange(a, last_non_slash(s, a, s.len() as int))
}

/// The workspace-relative path a request names: trimmed, without leading and
/// trailing slashes (empty for the root).
pub open spec fn relative_path(user_path: Seq<char>) -> Seq<char> {
    without_slashes(trimmed(user_path))
}

/// The workspace-relative path a listing or preview request names.
pub fn request_path(user_path: &str) -> (r: String)
    ensures
        r@ == relative_path(user_path@),
{
    let t = trim(user_path);
    let s = to_chars(t.as_str());
    let mut a: usize = 0;
    while a < s.len() && s[a] == '/'
        invariant
            a <= s@.len(),
            first_non_slash(s@, 0) == first_non_slash(s@, a as int),
        decreases s@.len() - a,
    {
        a = a + 1;
    }
    let mut b: usize = s.len();
    while b > a && s[b - 1] == '/'
        invariant
            a <= b <= s@.len(),
            a == first_non_slash(s@, 0),
            last_non_slash(s@, a as int, s@.len() as int) == last_non_slash(s@, a as int, b as int),
        decreases b - a,
    {
        b = b - 1;
    }
    let mut out: Vec<char> = Vec::new();
    let mut i: usize = a;
    while i < b
        invariant
            a <= i <= b <= s@.len(),
            out@ == s@.subrange(a as int, i as int),
        decreases b - i,
    {
        out.push(s[i]);
        i = i + 1;
        assert(out@ =~= s@.subrange(a as int, i as int));
    }
    crate::text::from_chars(&out)
}

/// The path of the entry `name` in the directory `rel`.
pub open spec fn child_of(rel: Seq<char>, name: Seq<char>) -> Seq<char> {
    if rel.len() == 0 {
        name
    } else {
        rel + "/"@ + name
    }
}

/// The workspace-relative path of the entry `name` listed in `rel`.
pub fn child_path(rel: &str, name: &str) -> (r: String)
    ensures
        r@ == child_of(rel@, name@),
{
    if rel.unicode_len() == 0 {
        name.to_owned()
    } else {
        let mut out = rel.to_owned();
        out.append("/");
        out.append(name);
        out
    }
}

/// What `Path::parent` gives for a path, as text.
pub uninterp spec fn path_parent(path: Seq<char>) -> Option<Seq<char>>;

/// `Path::parent`, named by `path_parent`.
#[verifier::external_body]
fn parent_path(path: &str) -> (r: Option<String>)
    ensures
        match r {
            Some(p) => path_parent(path@) == Some(p@),
            None => path_parent(path@) is None,
        },
{
    std::path::Path::new(path).parent().map(|p| p.to_string_lossy().into_owned())
}

/// The parent a listing of `rel` links to: none for the root or for a
/// top-level directory.
pub open spec fn listing_parent(rel: Seq<char>) -> Option<Seq<char>> {
    if rel.len() == 0 {
        None
    } else {
        match path_parent(rel) {
            Some(p) => if p.len() > 0 {
                Some(p)
            } else {
                None
            },
            None => None,
        }
    }
}

/// The parent directory a listing of `rel` links to.
pub fn parent_of(rel: &str) -> (r: Option<String>)
    ensures
        match r {
            Some(p) => listing_parent(rel@) == Some(p@),
            None => listing_parent(rel@) is None,
        },
{
    if rel.unicode_len() == 0 {
        return None;
    }
    match parent_path(rel) {
        Some(p) => if p.as_str().unicode_len() > 0 {
            Some(p)
        } else {
            None
        },
        None => None,
    }
}

/// One entry of a directory listing.
pub struct DirEntry {
    pub name: String,
    pub path: String,
    pub kind: String,
    pub size: Option<u64>,
    pub count: Option<usize>,
}

/// The abstract value of a [`DirEntry`].
pub struct DirEntryV {
    pub name: Seq<char>,
    pub path: Seq<char>,
    pub kind: Seq<char>,
    pub size: Option<u64>,
    pub count: Option<usize>,
}

impl View for DirEntry {
    type V = DirEntryV;

    open spec fn view(&self) -> DirEntryV {
        DirEntryV { name: self.name@, path: self.path@, kind: self.kind@, size: self.size, count: self.count }
    }
}

/// A directory listing.
pub struct WorkspaceListing {
    pub path: String,
    pub parent: Option<String>,
    pub entries: Vec<DirEntry>,
}

/// A file preview.
pub struct WorkspaceFile {
    pub path: String,
    pub text: String,
    pub truncated: bool,
    pub binary: bool,
}

/// What `str::to_lowercase` gives for a text.
pub uninterp spec fn lower(text: Seq<char>) -> Seq<char>;

/// `str::to_lowercase`, named by `lower`.
#[verifier::external_body]
fn lowercase(text: &str) -> (r: String)
    ensures
        r@ == lower(text@),
{
    text.to_lowercase()
}

/// Whether `a` is listed before `b`: by kind, `file` before `dir` (kinds in
/// descending order), then by name ignoring case.
pub open spec fn sorts_before(a: DirEntryV, b: DirEntryV) -> bool {
    text_lt(b.kind, a.kind) || (a.kind == b.kind && text_lt(lower(a.name), lower(b.name)))
}

/// `e` inserted into the ordered `s` after every entry it does not sort before.
pub open spec fn insert_in_order(s: Seq<DirEntryV>, e: DirEntryV) -> Seq<DirEntryV>
    decreases s.len(),
{
    if s.len() == 0 {
        seq![e]
    } else if sorts_before(e, s.last()) {
        insert_in_order(s.drop_last(), e).push(s.last())
    } else {
        s.push(e)
    }
}

/// The entries in listing order; entries that tie keep their order (a stable sort).
pub open spec fn sorted_listing(s: Seq<DirEntryV>) -> Seq<DirEntryV>
    decreases s.len(),
{
    if s.len() == 0 {
        Seq::empty()
    } else {
        insert_in_order(sorted_listing(s.drop_last()), s.last())
    }
}

/// Inserting where the backward scan stops is `insert_in_order`.
proof fn lemma_insert_at(s: Seq<DirEntryV>, e: DirEntryV, p: int)
    requires
        0 <= p <= s.len(),
        forall|q: int| p <= q < s.len() ==> sorts_before(e, #[trigger] s[q]),
        p == 0 || !sorts_before(e, s[p - 1]),
    ensures
        insert_in_order(s, e) == s.take(p) + seq![e] + s.skip(p),
    decreases s.len(),
{
    if s.len() == 0 {
        assert(s.take(p) + seq![e] + s.skip(p) =~= seq![e]);
    } else if p == s.len() {
        assert(s.take(p) + seq![e] + s.skip(p) =~= s.push(e));
    } else {
        assert(sorts_before(e, s[s.len() - 1]));
        let d = s.drop_last();
        assert forall|q: int| p <= q < d.len() implies sorts_before(e, #[trigger] d[q]) by {
            assert(d[q] == s[q]);
        }
        if p > 0 {
            assert(d[p - 1] == s[p - 1]);
        }
        lemma_insert_at(d, e, p);
        assert(d.take(p) + seq![e] + d.skip(p) + seq![s.last()] =~= s.take(p) + seq![e] + s.skip(p));
    }
}

fn copy_entry(e: &DirEntry) -> (r: DirEntry)
    ensures
        r@ == e@,
{
    DirEntry { name: e.name.clone(), path: e.path.clone(), kind: e.kind.clone(), size: e.size, count: e.count }
}

fn before_exec(a_kind: &str, a_low: &str, b_kind: &str, b_low: &str) -> (r: bool)
    ensures
        r == (text_lt(b_kind@, a_kind@) || (a_kind@ == b_kind@ && text_lt(a_low@, b_low@))),
{
    str_lt(b_kind, a_kind) || (str_eq(a_kind, b_kind) && str_lt(a_low, b_low))
}

/// Puts listing entries in order: files before directories, then by name
/// ignoring case; ties keep their order.
pub fn sort_entries(entries: Vec<DirEntry>) -> (r: Vec<DirEntry>)
    ensures
        r@.map_values(|e: DirEntry| e@) == sorted_listing(entries@.map_values(|e: DirEntry| e@)),
{
    let ghost es = entries@.map_values(|e: DirEntry| e@);
    let mut out: Vec<DirEntry> = Vec::new();
    let mut keys: Vec<String> = Vec::new();
    let mut i: usize = 0;
    proof {
        assert(es.take(0) =~= Seq::<DirEntryV>::empty());
        assert(out@.map_values(|e: DirEntry| e@) =~= Seq::<DirEntryV>::empty());
    }
    while i < entries.len()
        invariant
            es == entries@.map_values(|e: DirEntry| e@),
            i <= es.len(),
            out@.map_values(|e: DirEntry| e@) == sorted_listing(es.take(i as int)),
            keys@.len() == out@.len(),
            forall|j: int| 0 <= j < out@.len() ==> (#[trigger] keys@[j])@ == lower(out@[j].name@),
        decreases es.len() - i,
    {
        let ghost sorted = out@.map_values(|e: DirEntry| e@);
        let e = copy_entry(&entries[i]);
        let low = lowercase(e.name.as_str());
        let mut pos: usize = out.len();
        while pos > 0 && before_exec(e.kind.as_str(), low.as_str(), out[pos - 1].kind.as_str(), keys[pos - 1].as_str())
            invariant
                sorted == out@.map_values(|e: DirEntry| e@),
                keys@.len() == out@.len(),
                forall|j: int| 0 <= j < out@.len() ==> (#[trigger] keys@[j])@ == lower(out@[j].name@),
                low@ == lower(e.name@),
                pos <= out@.len(),
                forall|q: int| pos <= q < sorted.len() ==> sorts_before(e@, #[trigger] sorted[q]),
            decreases pos,
        {
            pos = pos - 1;
        }
        proof {
            lemma_insert_at(sorted, e@, pos as int);
            assert(es.take(i + 1).drop_last() =~= es.take(i as int));
            assert(es.take(i + 1).last() == e@);
        }
        let ghost ev = e@;
        let ghost keys_before = keys@;
        out.insert(pos, e);
        keys.insert(pos, low);
        proof {
            assert(out@.map_values(|e: DirEntry| e@) =~= sorted.take(pos as int) + seq![ev] + sorted.skip(
                pos as int,
            ));
            assert forall|j: int| 0 <= j < out@.len() implies (#[trigger] keys@[j])@ == lower(out@[j].name@) by {
                if j < pos {
                    assert(keys@[j] == keys_before[j]);
                } else if j > pos {
                    assert(keys@[j] == keys_before[j - 1]);
                }
            }
        }
        i = i + 1;
    }
    proof {
        assert(es.take(es.len() as int) =~= es);
    }
    out
}

/// Builds a listing of `rel` from the entries found there: skipped names are
/// left out and the rest put in listing order.
pub open spec fn listing_entries(found: Seq<DirEntryV>) -> Seq<DirEntryV> {
    sorted_listing(found.filter(|e: DirEntryV| !skipped(e.name)))
}

/// The listing of the directory `rel` (as `request_path` gives it) holding
/// the entries `found`.
pub fn listing(rel: &str, found: Vec<DirEntry>) -> (r: WorkspaceListing)
    ensures
        r.path@ == rel@,
        match r.parent {
            Some(p) => listing_parent(rel@) == Some(p@),
            None => listing_parent(rel@) is None,
        },
        r.entries@.map_values(|e: DirEntry| e@) == listing_entries(found@.map_values(|e: DirEntry| e@)),
{
    let ghost fs = found@.map_values(|e: DirEntry| e@);
    let ghost keep = |e: DirEntryV| !skipped(e.name);
    let mut shown: Vec<DirEntry> = Vec::new();
    let mut i: usize = 0;
    proof {
        assert(fs.take(0) =~= Seq::<DirEntryV>::empty());
        reveal_with_fuel(Seq::filter, 1);
        assert(shown@.map_values(|e: DirEntry| e@) =~= fs.take(0).filter(keep));
    }
    while i < found.len()
        invariant
            fs == found@.map_values(|e: DirEntry| e@),
            keep == (|e: DirEntryV| !skipped(e.name)),
            i <= fs.len(),
            shown@.map_values(|e: DirEntry| e@) == fs.take(i as int).filter(keep),
        decreases fs.len() - i,
    {
        let ghost before = shown@;
        proof {
            assert(fs.take(i + 1).drop_last() =~= fs.take(i as int));
            assert(fs.take(i + 1).last() == found@[i as int]@);
            reveal_with_fuel(Seq::filter, 1);
        }
        if !should_skip(found[i].name.as_str()) {
            shown.push(copy_entry(&found[i]));
            proof {
                assert(shown@.map_values(|e: DirEntry| e@) =~= before.map_values(|e: DirEntry| e@).push(
                    found@[i as int]@,
                ));
            }
        }
        i = i + 1;
    }
    proof {
        assert(fs.take(fs.len() as int) =~= fs);
    }
    WorkspaceListing { path: rel.to_owned(), parent: parent_of(rel), entries: sort_entries(shown) }
}

/// Refuses a listing of something that is not a directory.
pub fn not_a_directory(user_path: &str) -> (r: Error)
    ensures
        r is Component && r.text() == "不是目录："@ + user_path@,
{
    let mut text = "不是目录：".to_owned();
    text.append(user_path);
    Error::Component(text)
}

/// The file a preview request names; a blank request is refused.
pub fn preview_path(user_path: &str) -> (r: Result<String, Error>)
    ensures
        match r {
            Ok(p) => relative_path(user_path@).len() > 0 && p@ == relative_path(user_path@),
            Err(e) => relative_path(user_path@).len() == 0 && e is Component && e.text() == "缺少文件路径"@,
        },
{
    let rel = request_path(user_path);
    if rel.as_str().unicode_len() == 0 {
        return Err(Error::Component("缺少文件路径".to_owned()));
    }
    Ok(rel)
}

/// Refuses a preview of something that is not a file.
pub fn not_a_file(user_path: &str) -> (r: Error)
    ensures
        r is Component && r.text() == "不是文件："@ + user_path@,
{
    let mut text = "不是文件：".to_owned();
    text.append(user_path);
    Error::Component(text)
}

/// The most of a file a preview shows, in bytes.
pub open spec fn preview_limit() -> nat {
    262_144
}

/// The preview of a file holding `bytes`: at most 256 KiB of it as text, or
/// nothing when that part holds a zero byte (a binary file).
pub open spec fn preview_of(rel: Seq<char>, bytes: Seq<u8>) -> (Seq<char>, Seq<char>, bool, bool) {
    let truncated = bytes.len() > preview_limit();
    let shown = if truncated {
        bytes.subrange(0, preview_limit() as int)
    } else {
        bytes
    };
    if shown.contains(0u8) {
        (rel, Seq::empty(), false, true)
    } else {
        (rel, utf8_lossy(shown), truncated, false)
    }
}

/// The preview of the file `rel` holding `bytes`.
pub fn preview_file(rel: &str, bytes: Vec<u8>) -> (r: WorkspaceFile)
    ensures
        (r.path@, r.text@, r.truncated, r.binary) == preview_of(rel@, bytes@),
{
    let ghost all = bytes@;
    let mut shown = bytes;
    let truncated = shown.len() > 262_144;
    if truncated {
        shown.truncate(262_144);
        assert(shown@ =~= all.subrange(0, preview_limit() as int));
    }
    let mut i: usize = 0;
    while i < shown.len()
        invariant
            all == bytes@,
            truncated == (all.len() > preview_limit()),
            shown@ == (if truncated {
                all.subrange(0, preview_limit() as int)
            } else {
                all
            }),
            i <= shown@.len(),
            forall|j: int| 0 <= j < i ==> shown@[j] != 0u8,
        decreases shown@.len() - i,
    {
        if shown[i] == 0u8 {
            assert(shown@.contains(0u8)) by {
                assert(shown@[i as int] == 0u8);
            }
            let text = String::new();
            assert(text@ =~= Seq::<char>::empty());

            return WorkspaceFile { path: rel.to_owned(), text, truncated: false, binary: true };
        }
        i = i + 1;
    }
    assert(!shown@.contains(0u8));
    WorkspaceFile { path: rel.to_owned(), text: lossy_text(shown.as_slice()), truncated, binary: false }
}

} // verus!
