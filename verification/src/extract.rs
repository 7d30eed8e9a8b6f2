//! The front-matter grammar: a keyword, optional whitespace, an opening
//! delimiter, and a capture that runs to the closing delimiter. The title
//! and tag fields both follow this shape; the year and month are read from
//! the first run of six digits inside the tag capture.

use vstd::prelude::*;
use crate::text::{
    is_digit_char, match_at, skip_ws, find_char_from, match_at_impl, skip_ws_at, find_char_at,
    trimmed,
};

verus! {

pub open spec fn title_key() -> Seq<char> {
    seq!['t', 'i', 't', 'l', 'e', ':']
}

pub open spec fn tags_key() -> Seq<char> {
    seq!['t', 'a', 'g', 's', ':']
}

/// A delimited field matches at `i`: the keyword occurs there, the first
/// non-whitespace character after it is `open`, and `close` occurs later.
pub open spec fn delim_ok(s: Seq<char>, i: int, kw: Seq<char>, open: char, close: char) -> bool {
    match_at(s, i, kw) && {
        let j = skip_ws(s, i + kw.len());
        j < s.len() && s[j] == open && find_char_from(s, j + 1, close) < s.len()
    }
}

/// The text between the delimiters of the field matching at `i`.
pub open spec fn delim_capture(s: Seq<char>, i: int, kw: Seq<char>, open: char, close: char) -> Seq<
    char,
> {
    let j = skip_ws(s, i + kw.len());
    s.subrange(j + 1, find_char_from(s, j + 1, close))
}

/// Start of the leftmost delimited-field match at or after `a`, or `s.len()`
/// when no position from `a` on matches.
pub open spec fn find_delim(s: Seq<char>, a: int, kw: Seq<char>, open: char, close: char) -> int
    decreases s.len() - a when 0 <= a <= s.len()
{
    if a >= s.len() {
        s.len() as int
    } else if delim_ok(s, a, kw, open, close) {
        a
    } else {
        find_delim(s, a + 1, kw, open, close)
    }
}

/// The capture of the leftmost delimited-field match, if any position matches.
pub open spec fn spec_extract_delim(s: Seq<char>, kw: Seq<char>, open: char, close: char) -> Option<
    Seq<char>,
> {
    let i = find_delim(s, 0, kw, open, close);
    if i < s.len() {
        Some(delim_capture(s, i, kw, open, close))
    } else {
        None
    }
}

/// The capture of the leftmost `title: "..."` field.
pub open spec fn spec_extract_title(s: Seq<char>) -> Option<Seq<char>> {
    spec_extract_delim(s, title_key(), '"', '"')
}

/// The capture of the leftmost `tags: [...]` field.
pub open spec fn spec_extract_tags(s: Seq<char>) -> Option<Seq<char>> {
    spec_extract_delim(s, tags_key(), '[', ']')
}

fn extract_delim(s: &str, kw: &str, open: char, close: char) -> (r: Option<String>)
    ensures
        r.deep_view() == spec_extract_delim(s@, kw@, open, close),
{
    let n = s.unicode_len();
    let m = kw.unicode_len();
    let mut i: usize = 0;
    loop
        invariant
            i <= n,
            n == s@.len(),
            m == kw@.len(),
            find_delim(s@, 0, kw@, open, close) == find_delim(s@, i as int, kw@, open, close),
        ensures
            i == n,
            find_delim(s@, 0, kw@, open, close) == n,
        decreases n - i,
    {
        if i >= n {
            break;
        }
        if match_at_impl(s, n, i, kw, m) {
            let j = skip_ws_at(s, n, i + m);
            if j < n && s.get_char(j) == open {
                let k = find_char_at(s, n, j + 1, close);
                if k < n {
                    proof {
                        assert(delim_ok(s@, i as int, kw@, open, close));
                        assert(find_delim(s@, i as int, kw@, open, close) == i);
                    }
                    return Some(s.substring_char(j + 1, k).to_owned());
                }
            }
        }
        proof {
            assert(!delim_ok(s@, i as int, kw@, open, close));
        }
        i += 1;
    }
    None
}

/// The text of the first front-matter `title: "..."` field of `content`,
/// when one occurs.
pub fn extract_title(content: &str) -> (r: Option<String>)
    ensures
        r.deep_view() == spec_extract_title(content@),
{
    proof {
        reveal_strlit("title:");
        assert("title:"@ =~= title_key());
    }
    extract_delim(content, "title:", '"', '"')
}

/// The text of the first front-matter `tags: [...]` field of `content`,
/// when one occurs.
pub fn extract_tags(content: &str) -> (r: Option<String>)
    ensures
        r.deep_view() == spec_extract_tags(content@),
{
    proof {
        reveal_strlit("tags:");
        assert("tags:"@ =~= tags_key());
    }
    extract_delim(content, "tags:", '[', ']')
}

/// Six decimal digits occur in `t` starting exactly at `a`.
pub open spec fn six_digits_at(t: Seq<char>, a: int) -> bool {
    a + 6 <= t.len() && forall|m: int| a <= m < a + 6 ==> is_digit_char(t[m])
}

/// Start of the first run of six digits at or after `a`, or `t.len()` when
/// there is none.
pub open spec fn find_six_digits(t: Seq<char>, a: int) -> int
    decreases t.len() - a when 0 <= a <= t.len()
{
    if a + 6 > t.len() {
        t.len() as int
    } else if six_digits_at(t, a) {
        a
    } else {
        find_six_digits(t, a + 1)
    }
}

/// The `(year, month)` pair read from the tag capture: the first four and
/// the last two digits of the first six-digit run, both empty when the tag
/// field or such a run is absent.
pub open spec fn spec_year_month(content: Seq<char>) -> (Seq<char>, Seq<char>) {
    match spec_extract_tags(content) {
        Some(t) => {
            let i = find_six_digits(t, 0);
            if i < t.len() {
                (t.subrange(i, i + 4), t.subrange(i + 4, i + 6))
            } else {
                (Seq::empty(), Seq::empty())
            }
        },
        None => (Seq::empty(), Seq::empty()),
    }
}

/// `find_six_digits` lands on a six-digit run whenever it lands inside the
/// text.
pub proof fn lemma_find_six_digits(t: Seq<char>, a: int)
    requires
        0 <= a <= t.len(),
    ensures
        a <= find_six_digits(t, a) <= t.len(),
        find_six_digits(t, a) < t.len() ==> six_digits_at(t, find_six_digits(t, a)),
    decreases t.len() - a,
{
    if a + 6 <= t.len() && !six_digits_at(t, a) {
        lemma_find_six_digits(t, a + 1);
    }
}

/// The extracted year and month are each empty or a numeral: four digits
/// for the year, two for the month, and either both are empty or neither.
pub proof fn lemma_year_month_shape(content: Seq<char>)
    ensures
        ({
            let y = spec_year_month(content).0;
            y.len() == 0 || (y.len() == 4 && forall|m: int|
                0 <= m < 4 ==> is_digit_char(#[trigger] y[m]))
        }),
        ({
            let mo = spec_year_month(content).1;
            mo.len() == 0 || (mo.len() == 2 && forall|m: int|
                0 <= m < 2 ==> is_digit_char(#[trigger] mo[m]))
        }),
        spec_year_month(content).0.len() == 0 <==> spec_year_month(content).1.len() == 0,
{
    match spec_extract_tags(content) {
        Some(t) => {
            lemma_find_six_digits(t, 0);
            let i = find_six_digits(t, 0);
            if i < t.len() {
                let y = spec_year_month(content).0;
                let mo = spec_year_month(content).1;
                assert forall|m: int| 0 <= m < 4 implies is_digit_char(#[trigger] y[m]) by {
                    assert(y[m] == t[i + m]);
                }
                assert forall|m: int| 0 <= m < 2 implies is_digit_char(#[trigger] mo[m]) by {
                    assert(mo[m] == t[i + 4 + m]);
                }
            }
        },
        None => {},
    }
}

fn is_digit(c: char) -> (b: bool)
    ensures
        b == is_digit_char(c),
{
    let u = c as u32;
    48 <= u && u <= 57
}

fn six_at_impl(t: &str, n: usize, a: usize) -> (b: bool)
    requires
        n == t@.len(),
        a + 6 <= n,
    ensures
        b == six_digits_at(t@, a as int),
{
    let ok = is_digit(t.get_char(a)) && is_digit(t.get_char(a + 1)) && is_digit(t.get_char(a + 2))
        && is_digit(t.get_char(a + 3)) && is_digit(t.get_char(a + 4)) && is_digit(
        t.get_char(a + 5),
    );
    proof {
        if ok {
            assert forall|m: int| a <= m < a + 6 implies is_digit_char(t@[m]) by {
                assert(m == a || m == a + 1 || m == a + 2 || m == a + 3 || m == a + 4 || m == a
                    + 5);
            }
        }
    }
    ok
}

/// The year and month strings of `content`, as `spec_year_month` describes
/// them.
pub fn extract_year_month(content: &str) -> (r: (String, String))
    ensures
        r.0@ == spec_year_month(content@).0,
        r.1@ == spec_year_month(content@).1,
{
    match extract_tags(content) {
        None => (String::new(), String::new()),
        Some(t) => {
            let ts = t.as_str();
            let n = ts.unicode_len();
            let mut a: usize = 0;
            loop
                invariant
                    a <= n,
                    n == ts@.len(),
                    ts@ == t@,
                    spec_extract_tags(content@) == Some(t@),
                    find_six_digits(t@, 0) == find_six_digits(t@, a as int),
                ensures
                    find_six_digits(t@, 0) == n,
                decreases n - a,
            {
                if n < 6 || a > n - 6 {
                    break;
                }
                if six_at_impl(ts, n, a) {
                    proof {
                        assert(find_six_digits(t@, a as int) == a);
                    }
                    return (
                        ts.substring_char(a, a + 4).to_owned(),
                        ts.substring_char(a + 4, a + 6).to_owned(),
                    );
                }
                a += 1;
            }
            (String::new(), String::new())
        },
    }
}

/// Index of the last `' '` in `s`, or `-1` when `s` has none.
pub open spec fn rfind_space(s: Seq<char>) -> int
    decreases s.len(),
{
    if s.len() == 0 {
        -1
    } else if s[s.len() - 1] == ' ' {
        s.len() - 1
    } else {
        rfind_space(s.drop_last())
    }
}

/// Every character of `t` is a decimal digit or a dot.
pub open spec fn all_digit_dot(t: Seq<char>) -> bool {
    forall|m: int| 0 <= m < t.len() ==> is_digit_char(t[m]) || t[m] == '.'
}

/// A series title with a trailing token of digits and dots removed: when the
/// trimmed text after the last space is all digits and dots (or empty), the
/// part before that space, trimmed; otherwise the title unchanged.
pub open spec fn spec_clean_series_name(s: Seq<char>) -> Seq<char> {
    let i = rfind_space(s);
    if i >= 0 {
        if all_digit_dot(trimmed(s.subrange(i, s.len() as int))) {
            trimmed(s.subrange(0, i))
        } else {
            s
        }
    } else {
        s
    }
}

fn rfind_space_impl(s: &str, n: usize) -> (r: Option<usize>)
    requires
        n == s@.len(),
    ensures
        match r {
            Some(i) => i < n && rfind_space(s@) == i,
            None => rfind_space(s@) == -1,
        },
{
    let mut b = n;
    proof {
        assert(s@.subrange(0, n as int) =~= s@);
    }
    loop
        invariant
            b <= n,
            n == s@.len(),
            rfind_space(s@) == rfind_space(s@.subrange(0, b as int)),
        ensures
            b == 0,
            rfind_space(s@) == -1,
        decreases b,
    {
        if b == 0 {
            break;
        }
        if s.get_char(b - 1) == ' ' {
            proof {
                assert(s@.subrange(0, b as int)[b - 1] == s@[b - 1]);
            }
            return Some(b - 1);
        }
        proof {
            assert(s@.subrange(0, b as int).drop_last() =~= s@.subrange(0, b as int - 1));
        }
        b -= 1;
    }
    None
}

fn all_digit_dot_impl(t: &str) -> (b: bool)
    ensures
        b == all_digit_dot(t@),
{
    let n = t.unicode_len();
    let mut j: usize = 0;
    loop
        invariant
            j <= n,
            n == t@.len(),
            forall|m: int| 0 <= m < j ==> is_digit_char(t@[m]) || t@[m] == '.',
        ensures
            j == n,
            forall|m: int| 0 <= m < n ==> is_digit_char(t@[m]) || t@[m] == '.',
        decreases n - j,
    {
        if j >= n {
            break;
        }
        let c = t.get_char(j);
        if !(is_digit(c) || c == '.') {
            return false;
        }
        j += 1;
    }
    true
}

/// The deduplication key of a series title, as `spec_clean_series_name`
/// describes it.
pub fn clean_series_name(name: &str) -> (r: String)
    ensures
        r@ == spec_clean_series_name(name@),
{
    let n = name.unicode_len();
    match rfind_space_impl(name, n) {
        None => name.to_owned(),
        Some(i) => {
            let ep = crate::text::trim_of(name.substring_char(i, n));
            if all_digit_dot_impl(ep.as_str()) {
                crate::text::trim_of(name.substring_char(0, i))
            } else {
                name.to_owned()
            }
        },
    }
}

pub open spec fn desc_key() -> Seq<char> {
    seq!['d', 'e', 's', 'c', 'r', 'i', 'p', 't', 'i', 'o', 'n', ':']
}

/// A character that ends a description capture: a quote of either kind or a
/// line feed.
pub open spec fn desc_stop(c: char) -> bool {
    c == '"' || c == '\'' || c == '\n'
}

/// Index of the first capture-ending character at or after `a`, or `s.len()`.
pub open spec fn find_stop(s: Seq<char>, a: int) -> int
    decreases s.len() - a when 0 <= a <= s.len()
{
    if a >= s.len() {
        s.len() as int
    } else if desc_stop(s[a]) {
        a
    } else {
        find_stop(s, a + 1)
    }
}

/// Start of the leftmost occurrence of `kw` at or after `a`, or `s.len()`.
pub open spec fn find_key(s: Seq<char>, a: int, kw: Seq<char>) -> int
    decreases s.len() - a when 0 <= a <= s.len()
{
    if a >= s.len() {
        s.len() as int
    } else if match_at(s, a, kw) {
        a
    } else {
        find_key(s, a + 1, kw)
    }
}

/// The capture of a description field at `i`: after the keyword and any
/// whitespace, an optional opening quote is skipped and the capture runs to
/// the first quote or line feed.
pub open spec fn desc_capture(s: Seq<char>, i: int) -> Seq<char> {
    let j = skip_ws(s, i + desc_key().len());
    let b = if j < s.len() && (s[j] == '"' || s[j] == '\'') {
        j + 1
    } else {
        j
    };
    s.subrange(b, find_stop(s, b))
}

/// The trimmed capture of the leftmost `description:` field, when the
/// keyword occurs at all.
pub open spec fn spec_extract_description(s: Seq<char>) -> Option<Seq<char>> {
    let i = find_key(s, 0, desc_key());
    if i < s.len() {
        Some(trimmed(desc_capture(s, i)))
    } else {
        None
    }
}

fn find_stop_at(s: &str, n: usize, a: usize) -> (r: usize)
    requires
        n == s@.len(),
        a <= n,
    ensures
        r == find_stop(s@, a as int),
        a <= r <= n,
{
    let mut i = a;
    loop
        invariant
            a <= i <= n,
            n == s@.len(),
            find_stop(s@, a as int) == find_stop(s@, i as int),
        ensures
            a <= i <= n,
            find_stop(s@, a as int) == i,
        decreases n - i,
    {
        if i < n {
            let c = s.get_char(i);
            if c == '"' || c == '\'' || c == '\n' {
                break;
            }
            i += 1;
        } else {
            break;
        }
    }
    i
}

/// The trimmed text of the first front-matter `description:` field of
/// `content`, when one occurs.
pub fn extract_description(content: &str) -> (r: Option<String>)
    ensures
        r.deep_view() == spec_extract_description(content@),
{
    proof {
        reveal_strlit("description:");
        assert("description:"@ =~= desc_key());
    }
    let kw = "description:";
    let n = content.unicode_len();
    let m = kw.unicode_len();
    let mut i: usize = 0;
    loop
        invariant
            i <= n,
            n == content@.len(),
            kw@ == desc_key(),
            m == kw@.len(),
            find_key(content@, 0, desc_key()) == find_key(content@, i as int, desc_key()),
        ensures
            find_key(content@, 0, desc_key()) == n,
        decreases n - i,
    {
        if i >= n {
            break;
        }
        if match_at_impl(content, n, i, kw, m) {
            let j = skip_ws_at(content, n, i + m);
            let b = if j < n {
                let c = content.get_char(j);
                if c == '"' || c == '\'' {
                    j + 1
                } else {
                    j
                }
            } else {
                j
            };
            let e = find_stop_at(content, n, b);
            proof {
                assert(find_key(content@, i as int, desc_key()) == i);
            }
            return Some(crate::text::trim_of(content.substring_char(b, e)));
        }
        i += 1;
    }
    None
}

/// `t` ends with the three characters `.md`.
pub open spec fn has_md_suffix(t: Seq<char>) -> bool {
    t.len() >= 3 && t[t.len() - 3] == '.' && t[t.len() - 2] == 'm' && t[t.len() - 1] == 'd'
}

/// `t` with every trailing `.md` suffix removed.
pub open spec fn strip_md(t: Seq<char>) -> Seq<char>
    decreases t.len(),
{
    if has_md_suffix(t) {
        strip_md(t.subrange(0, t.len() - 3))
    } else {
        t
    }
}

fn strip_md_impl(seg: &str) -> (r: String)
    ensures
        r@ == strip_md(seg@),
{
    let mut s = seg;
    let mut n = s.unicode_len();
    loop
        invariant
            n == s@.len(),
            strip_md(seg@) == strip_md(s@),
        ensures
            strip_md(seg@) == s@,
        decreases n,
    {
        if n >= 3 && s.get_char(n - 3) == '.' && s.get_char(n - 2) == 'm' && s.get_char(n - 1)
            == 'd' {
            s = s.substring_char(0, n - 3);
            n = n - 3;
        } else {
            break;
        }
    }
    s.to_owned()
}

/// `ep_num` of a filename: the text between the first and the second `_`
/// (or the end), with trailing `.md` suffixes removed; empty when the
/// filename has no `_`.
pub open spec fn spec_ep_num(f: Seq<char>) -> Seq<char> {
    let u1 = find_char_from(f, 0, '_');
    if u1 < f.len() {
        strip_md(f.subrange(u1 + 1, find_char_from(f, u1 + 1, '_')))
    } else {
        Seq::empty()
    }
}

/// The fallback series name from a filename: the segment before the first
/// `_`, or the whole filename when it has no `_`.
pub open spec fn spec_name_fallback(f: Seq<char>) -> Seq<char> {
    let u1 = find_char_from(f, 0, '_');
    if u1 < f.len() {
        f.subrange(0, u1)
    } else {
        f
    }
}

/// The fallback series name and the episode number of a filename, as
/// `spec_name_fallback` and `spec_ep_num` describe them.
pub fn split_filename(f: &str) -> (r: (String, String))
    ensures
        r.0@ == spec_name_fallback(f@),
        r.1@ == spec_ep_num(f@),
{
    let n = f.unicode_len();
    let u1 = find_char_at(f, n, 0, '_');
    if u1 < n {
        let seg0 = f.substring_char(0, u1).to_owned();
        let u2 = find_char_at(f, n, u1 + 1, '_');
        let num = strip_md_impl(f.substring_char(u1 + 1, u2));
        (seg0, num)
    } else {
        (f.to_owned(), String::new())
    }
}

} // verus!
