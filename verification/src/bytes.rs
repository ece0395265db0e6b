//! Byte lengths of text in its UTF-8 encoding, and cuts at a byte offset.
use vstd::prelude::*;

use crate::text::to_chars;

verus! {

/// How many bytes UTF-8 spends on `c`.
pub open spec fn utf8_width(c: char) -> nat {
    let n = c as u32;
    if n < 0x80 {
        1
    } else if n < 0x800 {
        2
    } else if n < 0x10000 {
        3
    } else {
        4
    }
}

/// How many bytes UTF-8 spends on `s`.
pub open spec fn utf8_len(s: Seq<char>) -> nat
    decreases s.len(),
{
    if s.len() == 0 {
        0
    } else {
        utf8_width(s[0]) + utf8_len(s.drop_first())
    }
}

/// The byte count of a concatenation is the sum of the counts.
pub proof fn lemma_utf8_len_concat(a: Seq<char>, b: Seq<char>)
    ensures
        utf8_len(a + b) == utf8_len(a) + utf8_len(b),
    decreases a.len(),
{
    if a.len() > 0 {
        assert((a + b).drop_first() =~= a.drop_first() + b);
        lemma_utf8_len_concat(a.drop_first(), b);
    } else {
        assert(a + b =~= b);
    }
}

/// `utf8_len` is the length of vstd's UTF-8 encoding of the text.
pub proof fn lemma_encode_len(s: Seq<char>)
    ensures
        vstd::utf8::encode_utf8(s).len() == utf8_len(s),
    decreases s.len(),
{
    if s.len() > 0 {
        vstd::utf8::char_is_scalar(s[0]);
        lemma_encode_len(s.drop_first());
    }
}

/// Whether byte offset `n` falls between two characters of `s` (or at an end).
pub open spec fn is_char_boundary(s: Seq<char>, n: nat) -> bool {
    exists|k: int| 0 <= k <= s.len() && #[trigger] utf8_len(s.take(k)) == n
}

/// The first `n` bytes of `s`, when `n` is a character boundary.
pub open spec fn byte_prefix(s: Seq<char>, n: nat) -> Seq<char> {
    s.take(choose|k: int| 0 <= k <= s.len() && #[trigger] utf8_len(s.take(k)) == n)
}

fn width_of(c: char) -> (r: usize)
    ensures
        r == utf8_width(c),
{
    let n = c as u32;
    if n < 0x80 {
        1
    } else if n < 0x800 {
        2
    } else if n < 0x10000 {
        3
    } else {
        4
    }
}

/// Taking one more character adds its width.
pub proof fn lemma_take_one_more(s: Seq<char>, k: int)
    requires
        0 <= k < s.len(),
    ensures
        utf8_len(s.take(k + 1)) == utf8_len(s.take(k)) + utf8_width(s[k]),
{
    assert(s.take(k + 1) =~= s.take(k) + seq![s[k]]);
    lemma_utf8_len_concat(s.take(k), seq![s[k]]);
    assert(seq![s[k]].drop_first() =~= Seq::<char>::empty());
    assert(utf8_len(seq![s[k]]) == utf8_width(s[k]) + utf8_len(Seq::<char>::empty()));
}

/// Longer prefixes take strictly more bytes.
pub proof fn lemma_take_grows(s: Seq<char>, j: int, k: int)
    requires
        0 <= j < k <= s.len(),
    ensures
        utf8_len(s.take(j)) < utf8_len(s.take(k)),
    decreases k - j,
{
    lemma_take_one_more(s, k - 1);
    if j < k - 1 {
        lemma_take_grows(s, j, k - 1);
    }
}

/// The whole text takes `utf8_len` bytes, and `n` bytes of a boundary are exactly `byte_prefix`.
pub proof fn lemma_byte_prefix(s: Seq<char>, k: int)
    requires
        0 <= k <= s.len(),
    ensures
        is_char_boundary(s, utf8_len(s.take(k))),
        byte_prefix(s, utf8_len(s.take(k))) == s.take(k),
{
    let n = utf8_len(s.take(k));
    assert(utf8_len(s.take(k)) == n);
    let c = choose|c: int| 0 <= c <= s.len() && #[trigger] utf8_len(s.take(c)) == n;
    if c < k {
        lemma_take_grows(s, c, k);
    } else if c > k {
        lemma_take_grows(s, k, c);
    }
}

/// The length of `s` in bytes (counted wide enough that it cannot overflow):
/// the length of its UTF-8 encoding.
pub fn byte_len(s: &str) -> (n: u128)
    ensures
        n == utf8_len(s@),
        n == vstd::utf8::encode_utf8(s@).len(),
{
    let chars = to_chars(s);
    let ghost cs = chars@;
    let count = chars.len();
    let mut n: u128 = 0;
    let mut i: usize = 0;
    proof {
        assert(cs.take(0) =~= Seq::<char>::empty());
    }
    while i < chars.len()
        invariant
            cs == chars@,
            cs == s@,
            i <= cs.len(),
            count == cs.len(),
            n == utf8_len(cs.take(i as int)),
            n <= 4 * i,
        decreases cs.len() - i,
    {
        proof {
            lemma_take_one_more(cs, i as int);
        }
        n = n + width_of(chars[i]) as u128;
        i = i + 1;
    }
    assert(cs.take(cs.len() as int) =~= cs);
    proof {
        lemma_encode_len(s@);
    }
    n
}

/// `&s[..n]`: the first `n` bytes of `s`, which must end on a character boundary.
pub fn take_bytes(s: &str, n: usize) -> (r: String)
    requires
        is_char_boundary(s@, n as nat),
    ensures
        r@ == byte_prefix(s@, n as nat),
{
    let chars = to_chars(s);
    let ghost cs = chars@;
    let count = chars.len();
    let mut out = String::new();
    let mut used: usize = 0;
    let mut i: usize = 0;
    let ghost target = choose|k: int| 0 <= k <= cs.len() && #[trigger] utf8_len(cs.take(k)) == n;
    proof {
        assert(cs.take(0) =~= Seq::<char>::empty());
        if target > 0 {
            lemma_take_grows(cs, 0, target);
        }
    }
    while used < n
        invariant
            cs == chars@,
            cs == s@,
            count == cs.len(),
            0 <= target <= cs.len(),
            utf8_len(cs.take(target)) == n,
            i <= target,
            used as nat == utf8_len(cs.take(i as int)),
            used <= n,
            out@ == cs.take(i as int),
        decreases target - i,
    {
        proof {
            if i == target {
                assert(false);
            }
            lemma_take_one_more(cs, i as int);
            if i + 1 < target {
                lemma_take_grows(cs, i + 1, target);
            }
        }
        let w = width_of(chars[i]);
        used = used + w;
        let mut one = String::new();
        crate::text::push_char(&mut one, chars[i]);
        out.append(one.as_str());
        i = i + 1;
        assert(out@ =~= cs.take(i as int));
    }
    proof {
        if i < target {
            lemma_take_grows(cs, i as int, target);
        }
        lemma_byte_prefix(cs, target);
    }
    out
}

} // verus!
