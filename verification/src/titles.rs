//! Splitting of the raw multi-line title text into the per-line
//! queries: one query per line, stripped of surrounding whitespace,
//! with blank lines dropped.

use vstd::prelude::*;

verus! {

/// The whitespace stripped from the ends of a title line.
pub open spec fn is_space(c: char) -> bool {
    c == ' ' || c == '\t' || c == '\r'
}

/// The number of leading whitespace characters.
pub open spec fn leading_spaces(s: Seq<char>) -> int
    decreases s.len(),
{
    if s.len() == 0 {
        0
    } else if !is_space(s[0]) {
        0
    } else {
        1 + leading_spaces(s.drop_first())
    }
}

/// The number of trailing whitespace characters.
pub open spec fn trailing_spaces(s: Seq<char>) -> int
    decreases s.len(),
{
    if s.len() == 0 {
        0
    } else if !is_space(s.last()) {
        0
    } else {
        1 + trailing_spaces(s.drop_last())
    }
}

/// `s` without its leading and trailing whitespace.
pub open spec fn spec_trim(s: Seq<char>) -> Seq<char> {
    if leading_spaces(s) == s.len() {
        Seq::empty()
    } else {
        s.subrange(leading_spaces(s), s.len() - trailing_spaces(s))
    }
}

/// The lines of `s` split at every newline: one more line than there
/// are newlines, each without its terminator, empty lines kept.
pub open spec fn spec_lines(s: Seq<char>) -> Seq<Seq<char>>
    decreases s.len(),
{
    if s.len() == 0 {
        seq![Seq::<char>::empty()]
    } else if s.last() == '\n' {
        spec_lines(s.drop_last()).push(Seq::<char>::empty())
    } else {
        let rest = spec_lines(s.drop_last());
        rest.update(rest.len() - 1, rest.last().push(s.last()))
    }
}

/// The queries the title text yields: its lines, each trimmed, blank
/// lines dropped.
pub open spec fn spec_titles(s: Seq<char>) -> Seq<Seq<char>> {
    spec_lines(s).map_values(|l: Seq<char>| spec_trim(l)).filter(|l: Seq<char>| l.len() > 0)
}

proof fn lemma_leading_count(s: Seq<char>, k: int)
    requires
        0 <= k <= s.len(),
        forall|j: int| 0 <= j < k ==> is_space(#[trigger] s[j]),
        k == s.len() || !is_space(s[k]),
    ensures
        leading_spaces(s) == k,
    decreases k,
{
    if k == 0 {
    } else {
        assert(is_space(s[0]));
        lemma_leading_count(s.drop_first(), k - 1);
    }
}

proof fn lemma_trailing_count(s: Seq<char>, k: int)
    requires
        0 <= k <= s.len(),
        forall|j: int| s.len() - k <= j < s.len() ==> is_space(#[trigger] s[j]),
        k == s.len() || !is_space(s[s.len() - k - 1]),
    ensures
        trailing_spaces(s) == k,
    decreases k,
{
    if k == 0 {
    } else {
        assert(is_space(s.last()));
        assert forall|j: int|
            s.drop_last().len() - (k - 1) <= j < s.drop_last().len() implies is_space(
            #[trigger] s.drop_last()[j],
        ) by {
            assert(s.drop_last()[j] == s[j]);
        }
        lemma_trailing_count(s.drop_last(), k - 1);
    }
}

fn is_space_char(c: char) -> (b: bool)
    ensures
        b == is_space(c),
{
    c == ' ' || c == '\t' || c == '\r'
}

/// Strips leading and trailing whitespace from one line.
pub fn trim_line(s: &str) -> (r: String)
    ensures
        r@ == spec_trim(s@),
{
    let n: usize = s.unicode_len();
    let mut start: usize = 0;
    while start < n && is_space_char(s.get_char(start))
        invariant
            start <= n == s@.len(),
            forall|j: int| 0 <= j < start ==> is_space(#[trigger] s@[j]),
        decreases n - start,
    {
        start += 1;
    }
    proof {
        lemma_leading_count(s@, start as int);
    }
    if start == n {
        String::new()
    } else {
        let mut end: usize = n;
        while end > start && is_space_char(s.get_char(end - 1))
            invariant
                start < n == s@.len(),
                start <= end <= n,
                !is_space(s@[start as int]),
                forall|j: int| end <= j < n ==> is_space(#[trigger] s@[j]),
            decreases end,
        {
            end -= 1;
        }
        proof {
            if end == start {
                assert(!is_space(s@[end as int]));
                assert(false);
            }
            assert(!is_space(s@[end - 1]));
            lemma_trailing_count(s@, n - end as int);
        }
        let piece = s.substring_char(start, end);
        let r = piece.to_owned();
        r
    }
}

/// Splits the raw title text into the per-line queries: one per line in
/// input order, trimmed, with blank lines left out.
pub fn split_titles(text: &str) -> (ts: Vec<String>)
    ensures
        ts@.map_values(|s: String| s@) == spec_titles(text@),
{
    let n: usize = text.unicode_len();
    let mut ts: Vec<String> = Vec::new();
    let mut ls: usize = 0;
    let mut i: usize = 0;
    let ghost done: Seq<Seq<char>> = Seq::empty();
    let ghost mut done = done;
    proof {
        reveal(Seq::<_>::filter);
        assert(text@.take(0) =~= Seq::<char>::empty());
        assert(text@.subrange(0, 0) =~= Seq::<char>::empty());
        assert(spec_lines(text@.take(0)) =~= done.push(text@.subrange(0, 0)));
        assert(ts@.map_values(|s: String| s@) =~= done.map_values(
            |l: Seq<char>| spec_trim(l),
        ).filter(|l: Seq<char>| l.len() > 0));
    }
    while i < n
        invariant
            ls <= i <= n == text@.len(),
            spec_lines(text@.take(i as int)) == done.push(text@.subrange(ls as int, i as int)),
            ts@.map_values(|s: String| s@) == done.map_values(|l: Seq<char>| spec_trim(l)).filter(
                |l: Seq<char>| l.len() > 0,
            ),
        decreases n - i,
    {
        let ghost pre = text@.take(i as int);
        let ghost cur = text@.subrange(ls as int, i as int);
        let c = text.get_char(i);
        proof {
            let nxt = text@.take(i + 1 as int);
            assert(nxt.drop_last() =~= pre);
            assert(nxt.last() == text@[i as int]);
        }
        if c == '\n' {
            let line = text.substring_char(ls, i);
            let t = trim_line(line);
            let ghost prev_done = done;
            proof {
                reveal(Seq::<_>::filter);
                done = done.push(cur);
                assert(text@.subrange(i + 1 as int, i + 1 as int) =~= Seq::<char>::empty());
                assert(spec_lines(text@.take(i + 1 as int)) =~= done.push(
                    text@.subrange(i + 1 as int, i + 1 as int),
                ));
                let f = |l: Seq<char>| spec_trim(l);
                let p = |l: Seq<char>| l.len() > 0;
                assert(done.map_values(f).drop_last() =~= prev_done.map_values(f));
                assert(done.map_values(f).last() == spec_trim(cur));
                assert(done.map_values(f).filter(p) =~= prev_done.map_values(f).filter(p) + (
                if p(spec_trim(cur)) {
                    seq![spec_trim(cur)]
                } else {
                    Seq::<Seq<char>>::empty()
                }));
            }
            if t.as_str().unicode_len() > 0 {
                ts.push(t);
                proof {
                    reveal(Seq::<_>::filter);
                    let f = |l: Seq<char>| spec_trim(l);
                    let p = |l: Seq<char>| l.len() > 0;
                    assert(ts@.map_values(|s: String| s@) =~= done.map_values(f).filter(p));
                }
            } else {
                proof {
                    reveal(Seq::<_>::filter);
                    let f = |l: Seq<char>| spec_trim(l);
                    let p = |l: Seq<char>| l.len() > 0;
                    assert(done.map_values(f).filter(p) =~= prev_done.map_values(f).filter(p));
                }
            }
            ls = i + 1;
        } else {
            proof {
                let nxt = text@.take(i + 1 as int);
                let lines_pre = spec_lines(pre);
                assert(lines_pre.last() == cur);
                assert(spec_lines(nxt) == lines_pre.update(
                    lines_pre.len() - 1,
                    cur.push(text@[i as int]),
                ));
                assert(cur.push(text@[i as int]) =~= text@.subrange(ls as int, i + 1 as int));
                assert(spec_lines(nxt) =~= done.push(text@.subrange(ls as int, i + 1 as int)));
            }
        }
        i += 1;
    }
    let line = text.substring_char(ls, n);
    let t = trim_line(line);
    let ghost prev_done = done;
    let ghost cur = text@.subrange(ls as int, n as int);
    proof {
        reveal(Seq::<_>::filter);
        done = done.push(cur);
        assert(text@.take(n as int) =~= text@);
        let f = |l: Seq<char>| spec_trim(l);
        let p = |l: Seq<char>| l.len() > 0;
        assert(done.map_values(f).drop_last() =~= prev_done.map_values(f));
        assert(done.map_values(f).last() == spec_trim(cur));
        assert(done.map_values(f).filter(p) =~= prev_done.map_values(f).filter(p) + (
        if p(spec_trim(cur)) {
            seq![spec_trim(cur)]
        } else {
            Seq::<Seq<char>>::empty()
        }));
        assert(spec_lines(text@) == done);
    }
    if t.as_str().unicode_len() > 0 {
        ts.push(t);
        proof {
            reveal(Seq::<_>::filter);
            let f = |l: Seq<char>| spec_trim(l);
            let p = |l: Seq<char>| l.len() > 0;
            assert(ts@.map_values(|s: String| s@) =~= done.map_values(f).filter(p));
            assert(done.map_values(f) =~= spec_lines(text@).map_values(f));
        }
    } else {
        proof {
            reveal(Seq::<_>::filter);
            let f = |l: Seq<char>| spec_trim(l);
            let p = |l: Seq<char>| l.len() > 0;
            assert(done.map_values(f).filter(p) =~= prev_done.map_values(f).filter(p));
            assert(done.map_values(f) =~= spec_lines(text@).map_values(f));
        }
    }
    ts
}

} // verus!
