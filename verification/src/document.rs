//! Whole-document extraction: the synopsis, taken from the description
//! field when present and otherwise from the text after the second `---`
//! delimiter line, and the record of every field extracted from one
//! document.

use vstd::prelude::*;
use crate::text::{find_char_from, trimmed, find_char_at, trim_of};
use crate::extract::{
    spec_extract_title, spec_extract_description, spec_year_month, spec_clean_series_name,
    spec_ep_num, spec_name_fallback, extract_title, extract_description, extract_year_month,
    clean_series_name, split_filename,
};

verus! {

pub open spec fn dash_line() -> Seq<char> {
    seq!['-', '-', '-']
}

/// The remaining lines of `s`, each trimmed and followed by one blank.
pub open spec fn join_rec(s: Seq<char>) -> Seq<char>
    decreases s.len(),
{
    let i = find_char_from(s, 0, '\n');
    if 0 <= i < s.len() {
        trimmed(s.subrange(0, i)) + seq![' '] + join_rec(s.subrange(i + 1, s.len() as int))
    } else {
        trimmed(s) + seq![' ']
    }
}

/// The joined text after the `k`-th line of `s` whose trimmed text is
/// `---`; empty when fewer than `k` such lines remain.
pub open spec fn body_source(s: Seq<char>, k: int) -> Seq<char>
    decreases s.len(),
{
    let i = find_char_from(s, 0, '\n');
    if 0 <= i < s.len() {
        let rest = s.subrange(i + 1, s.len() as int);
        if trimmed(s.subrange(0, i)) == dash_line() {
            if k <= 1 {
                join_rec(rest)
            } else {
                body_source(rest, k - 1)
            }
        } else {
            body_source(rest, k)
        }
    } else {
        Seq::empty()
    }
}

/// Truncation of a body to 200 characters, with an ellipsis marker added
/// exactly when the body is longer than that.
pub open spec fn spec_truncate(b: Seq<char>) -> Seq<char> {
    if b.len() > 200 {
        b.subrange(0, 200) + seq!['.', '.', '.']
    } else {
        b
    }
}

/// The fallback synopsis of a document: the lines after the second `---`
/// line, trimmed and space-joined, trimmed as a whole and truncated.
pub open spec fn spec_fallback_abstract(s: Seq<char>) -> Seq<char> {
    spec_truncate(trimmed(body_source(s, 2)))
}

/// The synopsis of a document: the trimmed description field when it is
/// present and nonempty, else the fallback synopsis.
pub open spec fn spec_abstract(s: Seq<char>) -> Seq<char> {
    match spec_extract_description(s) {
        Some(d) => if d.len() > 0 {
            d
        } else {
            spec_fallback_abstract(s)
        },
        None => spec_fallback_abstract(s),
    }
}

fn is_dash(t: &str) -> (b: bool)
    ensures
        b == (t@ == dash_line()),
{
    let n = t.unicode_len();
    if n != 3 {
        return false;
    }
    let ok = t.get_char(0) == '-' && t.get_char(1) == '-' && t.get_char(2) == '-';
    proof {
        if ok {
            assert(t@ =~= dash_line());
        }
    }
    ok
}

fn body_source_impl(content: &str) -> (r: Option<String>)
    ensures
        match r {
            Some(b) => body_source(content@, 2) == join_rec(b@),
            None => body_source(content@, 2) == Seq::<char>::empty(),
        },
{
    let mut cur: &str = content;
    let mut n = cur.unicode_len();
    let mut k: usize = 2;
    loop
        invariant
            n == cur@.len(),
            1 <= k <= 2,
            body_source(content@, 2) == body_source(cur@, k as int),
        ensures
            body_source(content@, 2) == Seq::<char>::empty(),
        decreases n,
    {
        let e = find_char_at(cur, n, 0, '\n');
        if e >= n {
            proof {
                assert(body_source(cur@, k as int) == Seq::<char>::empty());
            }
            break;
        }
        let line = cur.substring_char(0, e);
        let t = trim_of(line);
        let dash = is_dash(t.as_str());
        let rest = cur.substring_char(e + 1, n);
        if dash && k == 1 {
            return Some(rest.to_owned());
        }
        if dash {
            k = 1;
        }
        cur = rest;
        n = n - e - 1;
    }
    None
}

fn join_rec_impl(src: &str) -> (r: String)
    ensures
        r@ == join_rec(src@),
{
    proof {
        reveal_strlit(" ");
    }
    let mut cur: &str = src;
    let mut n = cur.unicode_len();
    let mut out = String::new();
    loop
        invariant_except_break
            join_rec(src@) == out@ + join_rec(cur@),
        invariant
            n == cur@.len(),
            " "@ =~= seq![' '],
        ensures
            join_rec(src@) == out@,
        decreases n,
    {
        let e = find_char_at(cur, n, 0, '\n');
        let t = trim_of(cur.substring_char(0, e));
        let ghost out_old = out@;
        out.append(t.as_str());
        out.append(" ");
        if e < n {
            let rest = cur.substring_char(e + 1, n);
            proof {
                assert(out@ =~= out_old + t@ + seq![' ']);
                assert(out_old + (trimmed(cur@.subrange(0, e as int)) + seq![' '] + join_rec(
                    rest@,
                )) =~= out@ + join_rec(rest@));
            }
            cur = rest;
            n = n - e - 1;
        } else {
            proof {
                assert(cur@.subrange(0, e as int) =~= cur@);
                assert(out@ =~= out_old + t@ + seq![' ']);
                assert(out_old + (trimmed(cur@) + seq![' ']) =~= out@);
            }
            break;
        }
    }
    out
}

/// The fallback synopsis of `content`, as `spec_fallback_abstract`
/// describes it.
pub fn extract_fallback_abstract(content: &str) -> (r: String)
    ensures
        r@ == spec_fallback_abstract(content@),
{
    match body_source_impl(content) {
        None => {
            proof {
                assert(trimmed(Seq::<char>::empty()) =~= Seq::<char>::empty());
            }
            String::new()
        },
        Some(b) => {
            let joined = join_rec_impl(b.as_str());
            let below = trim_of(joined.as_str());
            let bn = below.as_str().unicode_len();
            if bn > 200 {
                let mut res = below.as_str().substring_char(0, 200).to_owned();
                proof {
                    reveal_strlit("...");
                    assert("..."@ =~= seq!['.', '.', '.']);
                }
                res.append("...");
                res
            } else {
                below
            }
        },
    }
}

/// The synopsis of `content`, as `spec_abstract` describes it.
pub fn extract_abstract(content: &str) -> (r: String)
    ensures
        r@ == spec_abstract(content@),
{
    match extract_description(content) {
        Some(d) => {
            if !d.as_str().is_empty() {
                d
            } else {
                extract_fallback_abstract(content)
            }
        },
        None => extract_fallback_abstract(content),
    }
}

/// The fields extracted from one document, at the specification level.
pub struct EpisodeView {
    pub series_name_raw: Seq<char>,
    pub series_name_clean: Seq<char>,
    pub ep_num: Seq<char>,
    pub ep_year: Seq<char>,
    pub ep_month: Seq<char>,
    pub abstract_text: Seq<char>,
}

/// The candidate series title of a document: the title field when present,
/// else the filename's fallback segment.
pub open spec fn spec_series_raw(f: Seq<char>, c: Seq<char>) -> Seq<char> {
    match spec_extract_title(c) {
        Some(t) => t,
        None => spec_name_fallback(f),
    }
}

/// Every field extracted from a document with filename `f` and content `c`.
pub open spec fn spec_extract_episode(f: Seq<char>, c: Seq<char>) -> EpisodeView {
    let raw = spec_series_raw(f, c);
    EpisodeView {
        series_name_raw: raw,
        series_name_clean: spec_clean_series_name(raw),
        ep_num: spec_ep_num(f),
        ep_year: spec_year_month(c).0,
        ep_month: spec_year_month(c).1,
        abstract_text: spec_abstract(c),
    }
}

/// The fields extracted from one document. Extraction never fails: each
/// field degrades to the empty string when its pattern is absent.
pub struct ExtractedEpisode {
    pub series_name_raw: String,
    pub series_name_clean: String,
    pub ep_num: String,
    pub ep_year: String,
    pub ep_month: String,
    pub abstract_text: String,
}

impl View for ExtractedEpisode {
    type V = EpisodeView;

    open spec fn view(&self) -> EpisodeView {
        EpisodeView {
            series_name_raw: self.series_name_raw@,
            series_name_clean: self.series_name_clean@,
            ep_num: self.ep_num@,
            ep_year: self.ep_year@,
            ep_month: self.ep_month@,
            abstract_text: self.abstract_text@,
        }
    }
}

/// One document's extracted record, as `spec_extract_episode` describes it.
pub fn extract_episode(filename: &str, content: &str) -> (r: ExtractedEpisode)
    ensures
        r@ == spec_extract_episode(filename@, content@),
{
    let (fallback, ep_num) = split_filename(filename);
    let raw = match extract_title(content) {
        Some(t) => t,
        None => fallback,
    };
    let clean = clean_series_name(raw.as_str());
    let (ep_year, ep_month) = extract_year_month(content);
    let abstract_text = extract_abstract(content);
    ExtractedEpisode {
        series_name_raw: raw,
        series_name_clean: clean,
        ep_num,
        ep_year,
        ep_month,
        abstract_text,
    }
}

} // verus!
