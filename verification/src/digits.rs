//! Decimal rendering of numeric identifiers and paging offsets, and
//! decimal parsing of the year that leads a release date.

use vstd::prelude::*;

verus! {

/// The decimal digit character of a value below ten.
pub open spec fn digit_char(d: int) -> char {
    seq!['0', '1', '2', '3', '4', '5', '6', '7', '8', '9'][d]
}

/// The decimal digits of `n`, most significant first, with no leading
/// zeros (a single zero for zero).
pub open spec fn spec_udigits(n: nat) -> Seq<char>
    decreases n,
{
    if n < 10 {
        seq![digit_char(n as int)]
    } else {
        spec_udigits(n / 10) + seq![digit_char((n % 10) as int)]
    }
}

/// The decimal rendering of a signed value: a minus sign before the
/// digits of the magnitude when negative.
pub open spec fn spec_idigits(n: int) -> Seq<char> {
    if n >= 0 {
        spec_udigits(n as nat)
    } else {
        seq!['-'] + spec_udigits((-n) as nat)
    }
}

/// The digit characters of `s` read back to front.
spec fn digits_rev(s: Seq<u64>) -> Seq<char>
    decreases s.len(),
{
    if s.len() == 0 {
        Seq::empty()
    } else {
        seq![digit_char(s.last() as int)] + digits_rev(s.drop_last())
    }
}

proof fn lemma_digits_rev_index(s: Seq<u64>, i: int)
    requires
        0 <= i < s.len(),
    ensures
        digits_rev(s).len() == s.len(),
        digits_rev(s)[i] == digit_char(s[s.len() - 1 - i] as int),
    decreases s.len(),
{
    lemma_digits_rev_len(s);
    if i > 0 {
        lemma_digits_rev_index(s.drop_last(), i - 1);
    }
}

proof fn lemma_digits_rev_len(s: Seq<u64>)
    ensures
        digits_rev(s).len() == s.len(),
    decreases s.len(),
{
    if s.len() > 0 {
        lemma_digits_rev_len(s.drop_last());
    }
}

fn digit_str(d: u64) -> (r: &'static str)
    requires
        d < 10,
    ensures
        r@ == seq![digit_char(d as int)],
{
    proof {
        reveal_strlit("0");
        reveal_strlit("1");
        reveal_strlit("2");
        reveal_strlit("3");
        reveal_strlit("4");
        reveal_strlit("5");
        reveal_strlit("6");
        reveal_strlit("7");
        reveal_strlit("8");
        reveal_strlit("9");
        assert(("0")@ =~= seq![digit_char(0)]);
        assert(("1")@ =~= seq![digit_char(1)]);
        assert(("2")@ =~= seq![digit_char(2)]);
        assert(("3")@ =~= seq![digit_char(3)]);
        assert(("4")@ =~= seq![digit_char(4)]);
        assert(("5")@ =~= seq![digit_char(5)]);
        assert(("6")@ =~= seq![digit_char(6)]);
        assert(("7")@ =~= seq![digit_char(7)]);
        assert(("8")@ =~= seq![digit_char(8)]);
        assert(("9")@ =~= seq![digit_char(9)]);
    }
    match d {
        0 => "0",
        1 => "1",
        2 => "2",
        3 => "3",
        4 => "4",
        5 => "5",
        6 => "6",
        7 => "7",
        8 => "8",
        _ => "9",
    }
}

/// Renders an unsigned value in decimal.
pub fn u64_string(n: u64) -> (r: String)
    ensures
        r@ == spec_udigits(n as nat),
{
    let mut digs: Vec<u64> = Vec::new();
    let mut m: u64 = n;
    while m >= 10
        invariant
            spec_udigits(n as nat) == spec_udigits(m as nat) + digits_rev(digs@),
            forall|j: int| 0 <= j < digs@.len() ==> digs@[j] < 10,
        decreases m,
    {
        let ghost prev = digs@;
        let d: u64 = m % 10;
        digs.push(d);
        proof {
            assert(digs@.drop_last() =~= prev);
            assert(digs@.last() == d);
            assert(digits_rev(digs@) == seq![digit_char(d as int)] + digits_rev(prev));
            assert(spec_udigits(m as nat) == spec_udigits((m as nat) / 10) + seq![
                digit_char(((m as nat) % 10) as int),
            ]);
            assert((m / 10) as nat == (m as nat) / 10);
            assert(d as int == ((m as nat) % 10) as int);
            assert(spec_udigits((m / 10) as nat) + digits_rev(digs@) =~= spec_udigits(n as nat));
        }
        m = m / 10;
    }
    let mut r = String::new();
    r.append(digit_str(m));
    let ghost whole = spec_udigits(n as nat);
    proof {
        lemma_digits_rev_len(digs@);
        assert(whole == seq![digit_char(m as int)] + digits_rev(digs@));
        assert(r@ =~= whole.take(1));
    }
    let mut k: usize = digs.len();
    while k > 0
        invariant
            k <= digs@.len(),
            forall|j: int| 0 <= j < digs@.len() ==> digs@[j] < 10,
            whole.len() == 1 + digs@.len(),
            whole == seq![digit_char(m as int)] + digits_rev(digs@),
            r@ == whole.take(whole.len() - k),
        decreases k,
    {
        r.append(digit_str(digs[k - 1]));
        proof {
            lemma_digits_rev_index(digs@, digs@.len() - k);
            assert(whole[whole.len() - k] == digits_rev(digs@)[digs@.len() - k]);
            assert(r@ =~= whole.take(whole.len() - (k - 1)));
        }
        k -= 1;
    }
    proof {
        assert(r@ =~= whole);
    }
    r
}

/// Renders a signed value in decimal.
pub fn i64_string(n: i64) -> (r: String)
    ensures
        r@ == spec_idigits(n as int),
{
    if n >= 0 {
        let r = u64_string(n as u64);
        r
    } else {
        let mag: u64 = if n == i64::MIN {
            9223372036854775808
        } else {
            (-n) as u64
        };
        proof {
            assert(mag as nat == ((-(n as int)) as nat));
            reveal_strlit("-");
            assert(("-")@ =~= seq!['-']);
        }
        let mut r = String::from_str("-");
        let digits = u64_string(mag);
        r.append(digits.as_str());
        proof {
            assert(r@ =~= spec_idigits(n as int));
        }
        r
    }
}

/// Whether `c` is a decimal digit.
pub open spec fn is_digit(c: char) -> bool {
    '0' <= c && c <= '9'
}

/// The prefix of `s` before its first dash.
pub open spec fn spec_dash_prefix(s: Seq<char>) -> Seq<char>
    decreases s.len(),
{
    if s.len() == 0 {
        Seq::empty()
    } else if s[0] == '-' {
        Seq::empty()
    } else {
        seq![s[0]] + spec_dash_prefix(s.drop_first())
    }
}

/// The value of a digit string read in decimal.
pub open spec fn spec_digits_value(s: Seq<char>) -> int
    decreases s.len(),
{
    if s.len() == 0 {
        0
    } else {
        spec_digits_value(s.drop_last()) * 10 + (s.last() as int - '0' as int)
    }
}

/// A longer digit prefix never has a smaller value.
proof fn lemma_digits_value_monotone(s: Seq<char>, k: int)
    requires
        0 <= k <= s.len(),
        forall|j: int| 0 <= j < s.len() ==> is_digit(#[trigger] s[j]),
    ensures
        spec_digits_value(s) >= spec_digits_value(s.take(k)),
    decreases s.len() - k,
{
    if k == s.len() {
        assert(s.take(k) =~= s);
    } else {
        lemma_digits_value_monotone(s, k + 1);
        let a = s.take(k);
        let b = s.take(k + 1);
        assert(b.drop_last() =~= a);
        assert(b.last() == s[k]);
        assert(is_digit(s[k]));
        assert(spec_digits_value(b) == spec_digits_value(a) * 10 + (s[k] as int - '0' as int));
        assert forall|j: int| 0 <= j < a.len() implies is_digit(#[trigger] a[j]) by {
            assert(a[j] == s[j]);
        }
        lemma_digits_value_nonneg(a);
    }
}

proof fn lemma_digits_value_nonneg(s: Seq<char>)
    requires
        forall|j: int| 0 <= j < s.len() ==> is_digit(#[trigger] s[j]),
    ensures
        spec_digits_value(s) >= 0,
    decreases s.len(),
{
    if s.len() > 0 {
        assert forall|j: int| 0 <= j < s.drop_last().len() implies is_digit(
            #[trigger] s.drop_last()[j],
        ) by {
            assert(s.drop_last()[j] == s[j]);
        }
        lemma_digits_value_nonneg(s.drop_last());
        assert(is_digit(s.last()));
    }
}

/// The dash-free prefix of `s` extends past every dash-free position,
/// matching `s` there, and is exactly `s.take(i)` when a dash or the end
/// follows.
proof fn lemma_dash_prefix_take(s: Seq<char>, i: int)
    requires
        0 <= i <= s.len(),
        forall|j: int| 0 <= j < i ==> (#[trigger] s[j]) != '-',
    ensures
        spec_dash_prefix(s).len() >= i,
        forall|j: int| 0 <= j < i ==> (#[trigger] spec_dash_prefix(s)[j]) == s[j],
        (i == s.len() || s[i] == '-') ==> spec_dash_prefix(s) == s.take(i),
    decreases i, s.len(),
{
    if i == 0 {
        if s.len() == 0 || s[0] == '-' {
            assert(spec_dash_prefix(s) =~= s.take(0));
        }
    } else {
        assert(s[0] != '-');
        let rest = s.drop_first();
        assert forall|j: int| 0 <= j < i - 1 implies (#[trigger] rest[j]) != '-' by {
            assert(rest[j] == s[j + 1]);
        }
        lemma_dash_prefix_take(rest, i - 1);
        assert(spec_dash_prefix(s) == seq![s[0]] + spec_dash_prefix(rest));
        assert forall|j: int| 0 <= j < i implies (#[trigger] spec_dash_prefix(s)[j]) == s[j] by {
            if j > 0 {
                assert(spec_dash_prefix(s)[j] == spec_dash_prefix(rest)[j - 1]);
                assert(rest[j - 1] == s[j]);
            }
        }
        if i == s.len() || s[i] == '-' {
            assert(i - 1 == rest.len() || rest[i - 1] == '-');
            assert(spec_dash_prefix(rest) == rest.take(i - 1));
            assert(seq![s[0]] + rest.take(i - 1) =~= s.take(i));
        }
    }
}

/// Reads the year that leads a release date: the digits before the first
/// dash, in decimal. Nothing is returned when that prefix is empty, holds
/// a non-digit, or overflows.
pub fn release_year(date: &str) -> (r: Option<u32>)
    ensures
        ({
            let pfx = spec_dash_prefix(date@);
            &&& (r matches Some(y) ==> pfx.len() > 0 && (forall|j: int|
                0 <= j < pfx.len() ==> is_digit(#[trigger] pfx[j])) && y as int
                == spec_digits_value(pfx))
            &&& (pfx.len() > 0 && (forall|j: int|
                0 <= j < pfx.len() ==> is_digit(#[trigger] pfx[j])) && spec_digits_value(pfx)
                <= u32::MAX as int ==> (r matches Some(y) && y as int == spec_digits_value(pfx)))
        }),
{
    let ghost pfx = spec_dash_prefix(date@);
    let n: usize = date.unicode_len();
    let mut i: usize = 0;
    let mut acc: u32 = 0;
    let mut ended: bool = false;
    proof {
        assert(date@.take(0) =~= Seq::<char>::empty());
    }
    while i < n && !ended
        invariant
            i <= n == date@.len(),
            pfx == spec_dash_prefix(date@),
            forall|j: int| 0 <= j < i ==> (#[trigger] date@[j]) != '-' && is_digit(date@[j]),
            acc as int == spec_digits_value(date@.take(i as int)),
            ended ==> i < n && date@[i as int] == '-',
        decreases n - i + (if ended { 0int } else { 1int }),
    {
        let c = date.get_char(i);
        if c == '-' {
            ended = true;
        } else {
            if c < '0' || c > '9' {
                proof {
                    lemma_dash_prefix_take(date@, i + 1);
                    if pfx.len() > 0 && (forall|j: int|
                        0 <= j < pfx.len() ==> is_digit(#[trigger] pfx[j])) {
                        assert(pfx[i as int] == date@[i as int]);
                        assert(is_digit(pfx[i as int]));
                        assert(false);
                    }
                }
                return None;
            }
            let d: u32 = (c as u32) - 48;
            let ghost nxt = date@.take(i + 1 as int);
            proof {
                assert(nxt.drop_last() =~= date@.take(i as int));
                assert(nxt.last() == date@[i as int]);
                assert('0' as int == 48);
                assert(d as int == date@[i as int] as int - '0' as int);
                assert(spec_digits_value(nxt) == acc as int * 10 + d as int);
            }
            if acc > (u32::MAX - d) / 10 {
                proof {
                    if pfx.len() > 0 && (forall|j: int|
                        0 <= j < pfx.len() ==> is_digit(#[trigger] pfx[j])) && spec_digits_value(
                        pfx,
                    ) <= u32::MAX as int {
                        lemma_dash_prefix_take(date@, i + 1);
                        assert(pfx.len() >= i + 1);
                        assert forall|j: int| 0 <= j < nxt.len() implies (#[trigger] nxt[j])
                            == pfx[j] by {
                            assert(nxt[j] == date@[j]);
                        }
                        assert(nxt =~= pfx.take(i + 1));
                        lemma_digits_value_monotone(pfx, i + 1);
                        assert(spec_digits_value(nxt) > u32::MAX as int);
                        assert(false);
                    }
                }
                return None;
            }
            acc = acc * 10 + d;
            i += 1;
        }
    }
    proof {
        if ended {
            lemma_dash_prefix_take(date@, i as int);
        } else {
            lemma_dash_prefix_take(date@, i as int);
        }
        assert(pfx == date@.take(i as int));
        assert forall|j: int| 0 <= j < pfx.len() implies is_digit(#[trigger] pfx[j]) by {
            assert(pfx[j] == date@.take(i as int)[j]);
            assert(date@.take(i as int)[j] == date@[j]);
        }
    }
    if i > 0 {
        Some(acc)
    } else {
        None
    }
}

} // verus!
