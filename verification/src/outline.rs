//! The outline of a Markdown document: its heading lines.
use vstd::prelude::*;

use crate::text::{from_chars, join, joined, to_chars, trim, trimmed};

verus! {

/// `line` without one trailing carriage return.
pub open spec fn strip_cr(line: Seq<char>) -> Seq<char> {
    if line.len() > 0 && line.last() == '\r' {
        line.drop_last()
    } else {
        line
    }
}

/// Reading `s` from the left: the lines ended by `\n` so far (a `\r` before
/// the `\n` dropped), and the text after the last `\n`.
pub open spec fn line_scan(s: Seq<char>) -> (Seq<Seq<char>>, Seq<char>)
    decreases s.len(),
{
    if s.len() == 0 {
        (Seq::empty(), Seq::empty())
    } else {
        let (done, current) = line_scan(s.drop_last());
        if s.last() == '\n' {
            (done.push(strip_cr(current)), Seq::empty())
        } else {
            (done, current.push(s.last()))
        }
    }
}

/// `str::lines`: the lines of `s`; the last line needs no line ending, and a
/// text ending in `\n` has no empty line after it.
pub open spec fn lines_of(s: Seq<char>) -> Seq<Seq<char>> {
    let (done, current) = line_scan(s);
    if current.len() > 0 {
        done.push(current)
    } else {
        done
    }
}

/// Whether a trimmed line is a heading: it starts with `#` and holds a space.
pub open spec fn is_heading(line: Seq<char>) -> bool {
    line.len() > 0 && line[0] == '#' && line.contains(' ')
}

/// The heading lines of a document, trimmed, in order.
pub open spec fn heading_lines(md: Seq<char>) -> Seq<Seq<char>> {
    lines_of(md).map_values(|l: Seq<char>| trimmed(l)).filter(|t: Seq<char>| is_heading(t))
}

/// The outline the `outline` tool answers: the heading lines, one per line, or
/// a note that there are none.
pub open spec fn outline_text(md: Seq<char>) -> Seq<char> {
    if heading_lines(md).len() == 0 {
        "(没有标题)"@
    } else {
        joined(heading_lines(md), "\n"@)
    }
}

/// The lines of `md`.
pub fn lines(md: &str) -> (r: Vec<String>)
    ensures
        r@.map_values(|l: String| l@) == lines_of(md@),
{
    let chars = to_chars(md);
    let ghost cs = chars@;
    let count = chars.len();
    let mut done: Vec<String> = Vec::new();
    let mut current: Vec<char> = Vec::new();
    let mut i: usize = 0;
    proof {
        assert(cs.take(0) =~= Seq::<char>::empty());
        assert(done@.map_values(|l: String| l@) =~= Seq::<Seq<char>>::empty());
    }
    while i < chars.len()
        invariant
            cs == chars@,
            cs == md@,
            count == cs.len(),
            i <= cs.len(),
            (done@.map_values(|l: String| l@), current@) == line_scan(cs.take(i as int)),
        decreases cs.len() - i,
    {
        proof {
            assert(cs.take(i + 1).drop_last() =~= cs.take(i as int));
            assert(cs.take(i + 1).last() == cs[i as int]);
        }
        let c = chars[i];
        if c == '\n' {
            let ghost before = done@;
            let ghost partial = current@;
            let mut line = current;
            let n = line.len();
            if n > 0 && line[n - 1] == '\r' {
                line.pop();
                assert(line@ =~= current@.drop_last());
            }
            done.push(from_chars(&line));
            current = Vec::new();
            proof {
                assert(done@.map_values(|l: String| l@) =~= before.map_values(|l: String| l@).push(
                    strip_cr(partial),
                ));
            }
        } else {
            current.push(c);
        }
        i = i + 1;
    }
    proof {
        assert(cs.take(cs.len() as int) =~= cs);
    }
    if current.len() > 0 {
        let ghost before = done@;
        done.push(from_chars(&current));
        proof {
            assert(done@.map_values(|l: String| l@) =~= before.map_values(|l: String| l@).push(current@));
        }
    }
    done
}

fn heading(line: &str) -> (r: bool)
    ensures
        r == is_heading(line@),
{
    let cs = to_chars(line);
    if cs.len() == 0 || cs[0] != '#' {
        return false;
    }
    let mut i: usize = 0;
    while i < cs.len()
        invariant
            cs@ == line@,
            cs@.len() > 0 && cs@[0] == '#',
            i <= cs@.len(),
            forall|j: int| 0 <= j < i ==> cs@[j] != ' ',
        decreases cs@.len() - i,
    {
        if cs[i] == ' ' {
            assert(cs@.contains(' ')) by {
                assert(cs@[i as int] == ' ');
            }
            return true;
        }
        i = i + 1;
    }
    false
}

/// The heading outline of a Markdown document (`#`, `##`, … lines).
pub fn headings(md: &str) -> (r: String)
    ensures
        r@ == outline_text(md@),
{
    let all = lines(md);
    let ghost ls = lines_of(md@);
    let mut found: Vec<String> = Vec::new();
    let mut i: usize = 0;
    proof {
        let f = |t: Seq<char>| is_heading(t);
        assert(ls.map_values(|l: Seq<char>| trimmed(l)).take(0) =~= Seq::<Seq<char>>::empty());
        assert(Seq::<Seq<char>>::empty().filter(f) =~= Seq::<Seq<char>>::empty()) by {
            reveal_with_fuel(Seq::filter, 1);
        }
    }
    while i < all.len()
        invariant
            all@.map_values(|l: String| l@) == ls,
            i <= ls.len(),
            found@.map_values(|l: String| l@) == ls.map_values(|l: Seq<char>| trimmed(l)).take(i as int).filter(
                |t: Seq<char>| is_heading(t),
            ),
        decreases ls.len() - i,
    {
        let ghost ts = ls.map_values(|l: Seq<char>| trimmed(l));
        let ghost before = found@;
        let t = trim(all[i].as_str());
        proof {
            assert(all@[i as int]@ == ls[i as int]);
            assert(ts.take(i + 1).drop_last() =~= ts.take(i as int));
            assert(ts.take(i + 1).last() == t@);
            reveal_with_fuel(Seq::filter, 1);
        }
        if heading(t.as_str()) {
            found.push(t);
            proof {
                assert(found@.map_values(|l: String| l@) =~= before.map_values(|l: String| l@).push(
                    found@[before.len() as int]@,
                ));
            }
        }
        i = i + 1;
    }
    proof {
        assert(ls.map_values(|l: Seq<char>| trimmed(l)).take(ls.len() as int) =~= ls.map_values(
            |l: Seq<char>| trimmed(l),
        ));
    }
    if found.len() == 0 {
        "(没有标题)".to_owned()
    } else {
        join(&found, "\n")
    }
}

} // verus!
