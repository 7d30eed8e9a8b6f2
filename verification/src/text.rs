//! Character-level scanning primitives shared by the extraction rules:
//! whitespace runs, first occurrences of a character or keyword, and
//! whitespace trimming, each with a spec-level model over `Seq<char>`.

use vstd::prelude::*;

verus! {

/// Whitespace as the extraction rules understand it: blank, tab,
/// line feed and carriage return.
pub open spec fn is_ws_char(c: char) -> bool {
    c == ' ' || c == '\t' || c == '\n' || c == '\r'
}

/// Decimal digit `'0'` through `'9'`.
pub open spec fn is_digit_char(c: char) -> bool {
    48 <= c as u32 && c as u32 <= 57
}

/// Index of the first non-whitespace character at or after `a`, or `s.len()`
/// when only whitespace follows.
pub open spec fn skip_ws(s: Seq<char>, a: int) -> int
    decreases s.len() - a when 0 <= a <= s.len()
{
    if 0 <= a < s.len() && is_ws_char(s[a]) {
        skip_ws(s, a + 1)
    } else {
        a
    }
}

/// Index just past the last non-whitespace character strictly before `b`,
/// or `0` when only whitespace precedes `b`.
pub open spec fn rskip_ws(s: Seq<char>, b: int) -> int
    decreases b when 0 <= b <= s.len()
{
    if 0 < b <= s.len() && is_ws_char(s[b - 1]) {
        rskip_ws(s, b - 1)
    } else {
        b
    }
}

/// Index of the first occurrence of `c` at or after `a`, or `s.len()` when
/// `c` does not occur there.
pub open spec fn find_char_from(s: Seq<char>, a: int, c: char) -> int
    decreases s.len() - a when 0 <= a <= s.len()
{
    if a >= s.len() {
        s.len() as int
    } else if s[a] == c {
        a
    } else {
        find_char_from(s, a + 1, c)
    }
}

/// The keyword `kw` occurs in `s` starting exactly at index `i`.
pub open spec fn match_at(s: Seq<char>, i: int, kw: Seq<char>) -> bool {
    0 <= i && i + kw.len() <= s.len() && s.subrange(i, i + kw.len()) == kw
}

/// `s` with leading and trailing whitespace removed.
pub open spec fn trimmed(s: Seq<char>) -> Seq<char> {
    let lo = skip_ws(s, 0);
    let hi = rskip_ws(s, s.len() as int);
    if lo <= hi {
        s.subrange(lo, hi)
    } else {
        Seq::empty()
    }
}

/// First non-whitespace index at or after `a`, as `skip_ws` describes it.
pub fn skip_ws_at(s: &str, n: usize, a: usize) -> (r: usize)
    requires
        n == s@.len(),
        a <= n,
    ensures
        r == skip_ws(s@, a as int),
        a <= r <= n,
{
    let mut i = a;
    loop
        invariant
            a <= i <= n,
            n == s@.len(),
            skip_ws(s@, a as int) == skip_ws(s@, i as int),
        ensures
            a <= i <= n,
            skip_ws(s@, a as int) == i,
        decreases n - i,
    {
        if i < n {
            let c = s.get_char(i);
            if c == ' ' || c == '\t' || c == '\n' || c == '\r' {
                i += 1;
            } else {
                break;
            }
        } else {
            break;
        }
    }
    i
}

/// One past the last non-whitespace index before `n`, as `rskip_ws`
/// describes it.
pub fn rskip_ws_at(s: &str, n: usize) -> (r: usize)
    requires
        n == s@.len(),
    ensures
        r == rskip_ws(s@, n as int),
        r <= n,
{
    let mut b = n;
    loop
        invariant
            b <= n,
            n == s@.len(),
            rskip_ws(s@, n as int) == rskip_ws(s@, b as int),
        ensures
            b <= n,
            rskip_ws(s@, n as int) == b,
        decreases b,
    {
        if b > 0 {
            let c = s.get_char(b - 1);
            if c == ' ' || c == '\t' || c == '\n' || c == '\r' {
                b -= 1;
            } else {
                break;
            }
        } else {
            break;
        }
    }
    b
}

/// First occurrence of `c` at or after `a`, as `find_char_from` describes it.
pub fn find_char_at(s: &str, n: usize, a: usize, c: char) -> (r: usize)
    requires
        n == s@.len(),
        a <= n,
    ensures
        r == find_char_from(s@, a as int, c),
        a <= r <= n,
{
    let mut i = a;
    loop
        invariant
            a <= i <= n,
            n == s@.len(),
            find_char_from(s@, a as int, c) == find_char_from(s@, i as int, c),
        ensures
            a <= i <= n,
            find_char_from(s@, a as int, c) == i,
        decreases n - i,
    {
        if i < n {
            if s.get_char(i) == c {
                break;
            }
            i += 1;
        } else {
            break;
        }
    }
    i
}

/// Whether `kw` occurs in `s` starting exactly at `i`, as `match_at`
/// describes it.
pub fn match_at_impl(s: &str, n: usize, i: usize, kw: &str, m: usize) -> (b: bool)
    requires
        n == s@.len(),
        m == kw@.len(),
        i <= n,
    ensures
        b == match_at(s@, i as int, kw@),
{
    if m > n - i {
        return false;
    }
    let mut j: usize = 0;
    loop
        invariant
            j <= m,
            i + m <= n,
            n == s@.len(),
            m == kw@.len(),
            forall|t: int| 0 <= t < j ==> s@[i + t] == kw@[t],
        ensures
            j == m,
            forall|t: int| 0 <= t < m ==> s@[i + t] == kw@[t],
        decreases m - j,
    {
        if j < m {
            if s.get_char(i + j) != kw.get_char(j) {
                proof {
                    assert(s@.subrange(i as int, i + m as int)[j as int] == s@[i + j]);
                }
                return false;
            }
            j += 1;
        } else {
            break;
        }
    }
    proof {
        assert(s@.subrange(i as int, i + m as int) =~= kw@);
    }
    true
}

/// `s` with surrounding whitespace removed, as `trimmed` describes it.
pub fn trim_of(s: &str) -> (r: String)
    ensures
        r@ == trimmed(s@),
{
    let n = s.unicode_len();
    let lo = skip_ws_at(s, n, 0);
    let hi = rskip_ws_at(s, n);
    if lo <= hi {
        s.substring_char(lo, hi).to_owned()
    } else {
        String::new()
    }
}

} // verus!
