//! Character-level helpers over `str` and `String`.
use vstd::prelude::*;

verus! {

/// Whether two strings hold the same characters.
pub fn str_eq(a: &str, b: &str) -> (r: bool)
    ensures
        r == (a@ == b@),
{
    let a = a.to_owned();
    let b = b.to_owned();
    a == b
}

/// `String::push`: appends one character.
#[verifier::external_body]
pub(crate) fn push_char(s: &mut String, c: char)
    ensures
        final(s)@ == old(s)@.push(c),
{
    s.push(c)
}

/// The lowercase digit for `d` in base 16 (and so in base 10).
pub open spec fn digit_char(d: nat) -> char {
    if d == 0 { '0' }
    else if d == 1 { '1' }
    else if d == 2 { '2' }
    else if d == 3 { '3' }
    else if d == 4 { '4' }
    else if d == 5 { '5' }
    else if d == 6 { '6' }
    else if d == 7 { '7' }
    else if d == 8 { '8' }
    else if d == 9 { '9' }
    else if d == 10 { 'a' }
    else if d == 11 { 'b' }
    else if d == 12 { 'c' }
    else if d == 13 { 'd' }
    else if d == 14 { 'e' }
    else { 'f' }
}

/// `n` written in `base` (2..=16) without leading zeros, as `{}` and `{:x}` print it.
pub open spec fn radix_text(n: nat, base: nat) -> Seq<char>
    decreases n,
{
    if base < 2 || n < base {
        seq![digit_char(n)]
    } else {
        proof {
            assert(n / base < n) by (nonlinear_arith)
                requires
                    n >= base,
                    base >= 2,
            ;
        }
        radix_text(n / base, base).push(digit_char(n % base))
    }
}

/// `n` in decimal.
pub open spec fn decimal_text(n: nat) -> Seq<char> {
    radix_text(n, 10)
}

/// `n` in lowercase hexadecimal.
pub open spec fn hex_text(n: nat) -> Seq<char> {
    radix_text(n, 16)
}

fn digit(d: u8) -> (c: char)
    requires
        d < 16,
    ensures
        c == digit_char(d as nat),
{
    match d {
        0 => '0',
        1 => '1',
        2 => '2',
        3 => '3',
        4 => '4',
        5 => '5',
        6 => '6',
        7 => '7',
        8 => '8',
        9 => '9',
        10 => 'a',
        11 => 'b',
        12 => 'c',
        13 => 'd',
        14 => 'e',
        _ => 'f',
    }
}

/// Appends `n` written in `base` to `out`.
pub fn push_radix(out: &mut String, n: u128, base: u128)
    requires
        2 <= base <= 16,
    ensures
        final(out)@ == old(out)@ + radix_text(n as nat, base as nat),
    decreases n,
{
    if n >= base {
        assert(n / base < n) by (nonlinear_arith)
            requires
                n >= base,
                base >= 2,
        ;
        push_radix(out, n / base, base);
    }
    let d = (n % base) as u8;
    push_char(out, digit(d));
    proof {
        assert(radix_text(n as nat, base as nat) == if n < base {
            seq![digit_char(n as nat)]
        } else {
            radix_text((n / base) as nat, base as nat).push(digit_char((n % base) as nat))
        });
        if n < base {
            assert(n % base == n) by (nonlinear_arith)
                requires
                    n < base,
                    base >= 2,
            ;
        }
    }
}

/// `n` in decimal.
pub fn decimal_wide(n: u128) -> (s: String)
    ensures
        s@ == decimal_text(n as nat),
{
    let mut s = String::new();
    push_radix(&mut s, n, 10);
    assert(s@ =~= decimal_text(n as nat));
    s
}

/// `n` in decimal.
pub fn decimal(n: u64) -> (s: String)
    ensures
        s@ == decimal_text(n as nat),
{
    let mut s = String::new();
    push_radix(&mut s, n as u128, 10);
    assert(s@ =~= decimal_text(n as nat));
    s
}

} // verus!

verus! {

/// The characters of `s`.
pub fn to_chars(s: &str) -> (v: Vec<char>)
    ensures
        v@ == s@,
{
    broadcast use vstd::string::group_string_axioms;
    let mut v: Vec<char> = Vec::new();
    for c in it: s.chars()
        invariant
            v@ == it.seq().take(it.index() as int),
    {
        v.push(c);
    }
    assert(v@ =~= s@);
    v
}

} // verus!

verus! {

/// Length of the longest common prefix of `a` and `b`.
pub open spec fn common_prefix(a: Seq<char>, b: Seq<char>) -> nat
    decreases a.len(),
{
    if a.len() == 0 || b.len() == 0 || a[0] != b[0] {
        0
    } else {
        1 + common_prefix(a.drop_first(), b.drop_first())
    }
}

/// `a` sorts before `b` in code point order, which for UTF-8 text is the order
/// `Ord for String` uses.
pub open spec fn text_lt(a: Seq<char>, b: Seq<char>) -> bool {
    let k = common_prefix(a, b);
    (k == a.len() && k < b.len()) || (k < a.len() && k < b.len() && (a[k as int] as int) < (
    b[k as int] as int))
}

/// `common_prefix` is the first index where the two differ.
pub proof fn lemma_common_prefix(a: Seq<char>, b: Seq<char>, i: int)
    requires
        0 <= i <= a.len(),
        i <= b.len(),
        forall|j: int| 0 <= j < i ==> a[j] == b[j],
        i == a.len() || i == b.len() || a[i] != b[i],
    ensures
        common_prefix(a, b) == i,
    decreases i,
{
    if i > 0 {
        assert forall|j: int| 0 <= j < i - 1 implies a.drop_first()[j] == b.drop_first()[j] by {
            assert(a[j + 1] == b[j + 1]);
        }
        if i < a.len() && i < b.len() {
            assert(a.drop_first()[i - 1] == a[i]);
            assert(b.drop_first()[i - 1] == b[i]);
        }
        lemma_common_prefix(a.drop_first(), b.drop_first(), i - 1);
        assert(a[0] == b[0]);
    }
}

/// Facts about `common_prefix`.
pub proof fn lemma_common_prefix_facts(a: Seq<char>, b: Seq<char>)
    ensures
        common_prefix(a, b) <= a.len(),
        common_prefix(a, b) <= b.len(),
        forall|j: int| 0 <= j < common_prefix(a, b) ==> a[j] == b[j],
        common_prefix(a, b) < a.len() && common_prefix(a, b) < b.len() ==> a[common_prefix(a, b) as int]
            != b[common_prefix(a, b) as int],
        common_prefix(a, b) == common_prefix(b, a),
    decreases a.len(),
{
    if !(a.len() == 0 || b.len() == 0 || a[0] != b[0]) {
        lemma_common_prefix_facts(a.drop_first(), b.drop_first());
        assert forall|j: int| 0 <= j < common_prefix(a, b) implies a[j] == b[j] by {
            if j > 0 {
                assert(a.drop_first()[j - 1] == a[j]);
                assert(b.drop_first()[j - 1] == b[j]);
            }
        }
        let k = common_prefix(a, b);
        if k < a.len() && k < b.len() {
            assert(a.drop_first()[k - 1] == a[k as int]);
            assert(b.drop_first()[k - 1] == b[k as int]);
        }
    }
}

/// Two different texts are ordered one way or the other, and never both.
pub proof fn lemma_text_lt_total(a: Seq<char>, b: Seq<char>)
    ensures
        a != b ==> text_lt(a, b) || text_lt(b, a),
        !(text_lt(a, b) && text_lt(b, a)),
        !text_lt(a, a),
{
    lemma_common_prefix_facts(a, b);
    lemma_common_prefix_facts(a, a);
    let k = common_prefix(a, b);
    if k == a.len() && k == b.len() {
        assert(a =~= b);
    } else if k < a.len() && k < b.len() {
        let x = a[k as int];
        let y = b[k as int];
        assert(x != y);
        assert((x as int) != (y as int));
    }
}

/// Whether `a` sorts before `b`.
pub fn str_lt(a: &str, b: &str) -> (r: bool)
    ensures
        r == text_lt(a@, b@),
{
    let av = to_chars(a);
    let bv = to_chars(b);
    let mut i: usize = 0;
    while i < av.len() && i < bv.len() && av[i] == bv[i]
        invariant
            av@ == a@,
            bv@ == b@,
            i <= av@.len(),
            i <= bv@.len(),
            forall|j: int| 0 <= j < i ==> av@[j] == bv@[j],
        decreases av@.len() - i,
    {
        i = i + 1;
    }
    proof {
        lemma_common_prefix(a@, b@, i as int);
    }
    if i == av.len() {
        i < bv.len()
    } else if i == bv.len() {
        false
    } else {
        av[i] < bv[i]
    }
}

} // verus!

verus! {

/// `text_lt` is transitive.
pub proof fn lemma_text_lt_trans(a: Seq<char>, b: Seq<char>, c: Seq<char>)
    requires
        text_lt(a, b),
        text_lt(b, c),
    ensures
        text_lt(a, c),
{
    lemma_common_prefix_facts(a, b);
    lemma_common_prefix_facts(b, c);
    let k1 = common_prefix(a, b);
    let k2 = common_prefix(b, c);
    if k1 < k2 {
        assert forall|j: int| 0 <= j < k1 implies a[j] == c[j] by {}
        if k1 < a.len() {
            assert(a[k1 as int] != c[k1 as int]);
            lemma_common_prefix(a, c, k1 as int);
        } else {
            lemma_common_prefix(a, c, k1 as int);
        }
    } else if k2 < k1 {
        assert forall|j: int| 0 <= j < k2 implies a[j] == c[j] by {}
        assert(a[k2 as int] == b[k2 as int]);
        lemma_common_prefix(a, c, k2 as int);
    } else {
        assert forall|j: int| 0 <= j < k1 implies a[j] == c[j] by {}
        if k1 < a.len() {
            assert((a[k1 as int] as int) < (c[k1 as int] as int));
        }
        lemma_common_prefix(a, c, k1 as int);
    }
}

} // verus!

verus! {

/// `char::is_whitespace`: the Unicode `White_Space` property.
pub open spec fn is_white_space(c: char) -> bool {
    let n = c as int;
    (0x09 <= n <= 0x0d) || n == 0x20 || n == 0x85 || n == 0xa0 || n == 0x1680 || (0x2000 <= n
        <= 0x200a) || n == 0x2028 || n == 0x2029 || n == 0x202f || n == 0x205f || n == 0x3000
}

/// Index of the first non-white-space character at or after `i`, or `s.len()`.
pub open spec fn first_solid(s: Seq<char>, i: int) -> int
    decreases s.len() - i,
{
    if i >= s.len() || i < 0 {
        if i < 0 { 0 } else { s.len() as int }
    } else if is_white_space(s[i]) {
        first_solid(s, i + 1)
    } else {
        i
    }
}

/// One past the last non-white-space character before `j`, or `lo`.
pub open spec fn last_solid(s: Seq<char>, lo: int, j: int) -> int
    decreases j - lo,
{
    if j <= lo {
        lo
    } else if is_white_space(s[j - 1]) {
        last_solid(s, lo, j - 1)
    } else {
        j
    }
}

/// `str::trim`: `s` without leading and trailing white space.
pub open spec fn trimmed(s: Seq<char>) -> Seq<char> {
    let a = first_solid(s, 0);
    s.subrange(a, last_solid(s, a, s.len() as int))
}

fn is_whitespace_char(c: char) -> (r: bool)
    ensures
        r == is_white_space(c),
{
    let n = c as u32;
    (0x09 <= n && n <= 0x0d) || n == 0x20 || n == 0x85 || n == 0xa0 || n == 0x1680 || (0x2000 <= n
        && n <= 0x200a) || n == 0x2028 || n == 0x2029 || n == 0x202f || n == 0x205f || n == 0x3000
}

/// `s` without leading and trailing white space, as characters.
pub fn trim_chars(s: &Vec<char>) -> (r: Vec<char>)
    ensures
        r@ == trimmed(s@),
{
    let mut a: usize = 0;
    while a < s.len() && is_whitespace_char(s[a])
        invariant
            a <= s@.len(),
            first_solid(s@, 0) == first_solid(s@, a as int),
        decreases s@.len() - a,
    {
        a = a + 1;
    }
    assert(first_solid(s@, a as int) == a as int);
    let mut b: usize = s.len();
    while b > a && is_whitespace_char(s[b - 1])
        invariant
            a <= b <= s@.len(),
            a == first_solid(s@, 0),
            last_solid(s@, a as int, s@.len() as int) == last_solid(s@, a as int, b as int),
        decreases b - a,
    {
        b = b - 1;
    }
    let mut out: Vec<char> = Vec::new();
    let mut i: usize = a;
    while i < b
        invariant
            a <= i <= b <= s@.len(),
            out@ == s@.subrange(a as int, i as int),
        decreases b - i,
    {
        out.push(s[i]);
        i = i + 1;
        assert(out@ =~= s@.subrange(a as int, i as int));
    }
    out
}

/// A `String` holding `chars`.
pub fn from_chars(chars: &Vec<char>) -> (s: String)
    ensures
        s@ == chars@,
{
    let mut s = String::new();
    let mut i: usize = 0;
    while i < chars.len()
        invariant
            i <= chars@.len(),
            s@ == chars@.subrange(0, i as int),
        decreases chars@.len() - i,
    {
        push_char(&mut s, chars[i]);
        i = i + 1;
        assert(s@ =~= chars@.subrange(0, i as int));
    }
    assert(s@ =~= chars@);
    s
}

/// `str::trim`.
pub fn trim(s: &str) -> (r: String)
    ensures
        r@ == trimmed(s@),
{
    let v = to_chars(s);
    let t = trim_chars(&v);
    from_chars(&t)
}

/// `parts` joined with `sep` between consecutive parts (`[T]::join`).
pub open spec fn joined(parts: Seq<Seq<char>>, sep: Seq<char>) -> Seq<char>
    decreases parts.len(),
{
    if parts.len() == 0 {
        Seq::empty()
    } else if parts.len() == 1 {
        parts[0]
    } else {
        joined(parts.drop_last(), sep) + sep + parts.last()
    }
}

/// `parts` joined with `sep`.
pub fn join(parts: &Vec<String>, sep: &str) -> (r: String)
    ensures
        r@ == joined(parts@.map_values(|p: String| p@), sep@),
{
    let ghost ps = parts@.map_values(|p: String| p@);
    let mut out = String::new();
    let mut i: usize = 0;
    while i < parts.len()
        invariant
            ps == parts@.map_values(|p: String| p@),
            i <= parts@.len(),
            out@ == joined(ps.subrange(0, i as int), sep@),
        decreases parts@.len() - i,
    {
        proof {
            let next = ps.subrange(0, i + 1);
            assert(next.drop_last() =~= ps.subrange(0, i as int));
            assert(next.last() == parts@[i as int]@);
        }
        if i > 0 {
            out.append(sep);
        }
        out.append(parts[i].as_str());
        proof {
            if i == 0 {
                assert(ps.subrange(0, 1) =~= seq![parts@[0]@]);
            }
        }
        i = i + 1;
    }
    assert(ps.subrange(0, parts@.len() as int) =~= ps);
    out
}

/// Whether `p` occurs in `t` at position `k`.
pub open spec fn occurs_at(t: Seq<char>, p: Seq<char>, k: int) -> bool {
    0 <= k && k + p.len() <= t.len() && t.subrange(k, k + p.len()) == p
}

/// The first position at or after `i` where `p` occurs in `t`.
pub open spec fn find_from(t: Seq<char>, p: Seq<char>, i: int) -> Option<int>
    decreases t.len() + 1 - i,
{
    if i < 0 || i + p.len() > t.len() {
        None
    } else if occurs_at(t, p, i) {
        Some(i)
    } else {
        find_from(t, p, i + 1)
    }
}

/// The first position where `p` occurs in `t` (`str::find`).
pub open spec fn first_occurrence(t: Seq<char>, p: Seq<char>) -> Option<int> {
    find_from(t, p, 0)
}

/// `str::replacen(p, new, 1)`: `t` with the first occurrence of `p` replaced.
pub open spec fn replaced_first(t: Seq<char>, p: Seq<char>, new: Seq<char>) -> Seq<char> {
    match first_occurrence(t, p) {
        Some(k) => t.subrange(0, k) + new + t.subrange(k + p.len(), t.len() as int),
        None => t,
    }
}

/// What `find_from` says: a found position is an occurrence with none before it.
pub proof fn lemma_find_from(t: Seq<char>, p: Seq<char>, i: int)
    requires
        0 <= i,
    ensures
        match find_from(t, p, i) {
            Some(k) => i <= k && occurs_at(t, p, k) && forall|j: int| i <= j < k ==> !occurs_at(t, p, j),
            None => forall|j: int| i <= j ==> !occurs_at(t, p, j),
        },
    decreases t.len() + 1 - i,
{
    if i + p.len() > t.len() {
    } else if !occurs_at(t, p, i) {
        lemma_find_from(t, p, i + 1);
        assert forall|j: int| i <= j && j < i + 1 implies !occurs_at(t, p, j) by {}
    }
}

fn matches_at(t: &Vec<char>, p: &Vec<char>, k: usize) -> (r: bool)
    requires
        k + p@.len() <= t@.len(),
    ensures
        r == occurs_at(t@, p@, k as int),
{
    let tn = t.len();
    let mut j: usize = 0;
    while j < p.len()
        invariant
            tn == t@.len(),
            k + p@.len() <= t@.len(),
            j <= p@.len(),
            forall|m: int| 0 <= m < j ==> t@[k + m] == p@[m],
        decreases p@.len() - j,
    {
        if t[k + j] != p[j] {
            assert(t@.subrange(k as int, k + p@.len())[j as int] != p@[j as int]);
            return false;
        }
        j = j + 1;
    }
    assert(t@.subrange(k as int, k + p@.len()) =~= p@);
    true
}

/// The first position where `p` occurs in `t`, counted in characters.
pub fn find_chars(t: &Vec<char>, p: &Vec<char>) -> (r: Option<usize>)
    ensures
        match r {
            Some(k) => first_occurrence(t@, p@) == Some(k as int),
            None => first_occurrence(t@, p@) is None,
        },
{
    if p.len() > t.len() {
        return None;
    }
    let last = t.len() - p.len();
    let mut k: usize = 0;
    while k <= last
        invariant
            last == t@.len() - p@.len(),
            p@.len() <= t@.len(),
            find_from(t@, p@, 0) == find_from(t@, p@, k as int),
        decreases last + 1 - k,
    {
        if matches_at(t, p, k) {
            return Some(k);
        }
        if k == last {
            return None;
        }
        k = k + 1;
    }
    None
}

/// Whether `p` occurs in `t` (`str::contains`).
pub fn contains_text(t: &str, p: &str) -> (r: bool)
    ensures
        r == first_occurrence(t@, p@) is Some,
{
    find_chars(&to_chars(t), &to_chars(p)).is_some()
}

/// `str::replacen(p, new, 1)`.
pub fn replace_first(t: &str, p: &str, new: &str) -> (r: String)
    ensures
        r@ == replaced_first(t@, p@, new@),
{
    let tc = to_chars(t);
    let pc = to_chars(p);
    let tn = tc.len();
    match find_chars(&tc, &pc) {
        Some(k) => {
            proof {
                lemma_find_from(t@, p@, 0);
            }
            let mut before: Vec<char> = Vec::new();
            let mut i: usize = 0;
            while i < k
                invariant
                    k + pc@.len() <= tc@.len(),
                    i <= k,
                    before@ == tc@.subrange(0, i as int),
                decreases k - i,
            {
                before.push(tc[i]);
                i = i + 1;
                assert(before@ =~= tc@.subrange(0, i as int));
            }
            let mut after: Vec<char> = Vec::new();
            assert(k + pc@.len() <= tn);
            let mut j: usize = k + pc.len();
            while j < tc.len()
                invariant
                    k + pc@.len() <= j <= tc@.len(),
                    after@ == tc@.subrange(k + pc@.len(), j as int),
                decreases tc@.len() - j,
            {
                after.push(tc[j]);
                j = j + 1;
                assert(after@ =~= tc@.subrange(k + pc@.len(), j as int));
            }
            let mut out = from_chars(&before);
            out.append(new);
            let rest = from_chars(&after);
            out.append(rest.as_str());
            out
        },
        None => t.to_owned(),
    }
}

} // verus!
