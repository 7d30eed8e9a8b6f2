//! Series consolidation and load planning: one series row per distinct
//! cleaned name in first-seen order, and one episode row per document whose
//! `series_id` refers to the series row carrying its cleaned name.

use vstd::prelude::*;
use crate::document::{ExtractedEpisode, EpisodeView};

verus! {

/// One persisted series row, at the specification level.
pub struct SeriesRowView {
    pub id: int,
    pub name: Seq<char>,
    pub year: Seq<char>,
    pub month: Seq<char>,
}

/// One persisted series row: the store identifier, the cleaned series name
/// and the year and month of the first document seen for that name.
pub struct SeriesRow {
    pub id: u64,
    pub name: String,
    pub year: String,
    pub month: String,
}

impl View for SeriesRow {
    type V = SeriesRowView;

    open spec fn view(&self) -> SeriesRowView {
        SeriesRowView { id: self.id as int, name: self.name@, year: self.year@, month: self.month@ }
    }
}

impl DeepView for SeriesRow {
    type V = SeriesRowView;

    open spec fn deep_view(&self) -> SeriesRowView {
        self.view()
    }
}

impl DeepView for ExtractedEpisode {
    type V = EpisodeView;

    open spec fn deep_view(&self) -> EpisodeView {
        self.view()
    }
}

/// One persisted episode row, at the specification level.
pub struct EpisodeRowView {
    pub id: int,
    pub ep_name: Seq<char>,
    pub ep_num: Seq<char>,
    pub ep_year: Seq<char>,
    pub ep_month: Seq<char>,
    pub series_id: int,
    pub abstract_text: Seq<char>,
}

/// One persisted episode row: the uncleaned series title as `ep_name`, the
/// extracted fields, and the identifier of the series row it belongs to.
pub struct EpisodeRow {
    pub id: u64,
    pub ep_name: String,
    pub ep_num: String,
    pub ep_year: String,
    pub ep_month: String,
    pub series_id: u64,
    pub abstract_text: String,
}

impl View for EpisodeRow {
    type V = EpisodeRowView;

    open spec fn view(&self) -> EpisodeRowView {
        EpisodeRowView {
            id: self.id as int,
            ep_name: self.ep_name@,
            ep_num: self.ep_num@,
            ep_year: self.ep_year@,
            ep_month: self.ep_month@,
            series_id: self.series_id as int,
            abstract_text: self.abstract_text@,
        }
    }
}

impl DeepView for EpisodeRow {
    type V = EpisodeRowView;

    open spec fn deep_view(&self) -> EpisodeRowView {
        self.view()
    }
}

/// Some series row carries the name `n`.
pub open spec fn contains_name(sv: Seq<SeriesRowView>, n: Seq<char>) -> bool {
    exists|i: int| 0 <= i < sv.len() && sv[i].name == n
}

/// Pass 1: one series row per distinct cleaned name, in the order the names
/// are first seen; each row carries the year and month of its first episode
/// and the identifier `position + 1`.
pub open spec fn spec_consolidate(eps: Seq<EpisodeView>) -> Seq<SeriesRowView>
    decreases eps.len(),
{
    if eps.len() == 0 {
        Seq::empty()
    } else {
        let prev = spec_consolidate(eps.drop_last());
        let e = eps.last();
        if contains_name(prev, e.series_name_clean) {
            prev
        } else {
            prev.push(
                SeriesRowView {
                    id: prev.len() as int + 1,
                    name: e.series_name_clean,
                    year: e.ep_year,
                    month: e.ep_month,
                },
            )
        }
    }
}

/// Index of the first series row at or after `a` carrying name `n`, or
/// `sv.len()`.
pub open spec fn index_of_name(sv: Seq<SeriesRowView>, n: Seq<char>, a: int) -> int
    decreases sv.len() - a when 0 <= a <= sv.len()
{
    if a >= sv.len() {
        sv.len() as int
    } else if sv[a].name == n {
        a
    } else {
        index_of_name(sv, n, a + 1)
    }
}

/// `index_of_name` finds the first row with the name, and misses only when
/// no row carries it.
pub proof fn lemma_index_of_name(sv: Seq<SeriesRowView>, n: Seq<char>, a: int)
    requires
        0 <= a <= sv.len(),
    ensures
        a <= index_of_name(sv, n, a) <= sv.len(),
        index_of_name(sv, n, a) < sv.len() ==> sv[index_of_name(sv, n, a)].name == n,
        forall|m: int| a <= m < index_of_name(sv, n, a) ==> sv[m].name != n,
    decreases sv.len() - a,
{
    if a < sv.len() && sv[a].name != n {
        lemma_index_of_name(sv, n, a + 1);
    }
}

/// Consolidated rows carry the identifiers `1..len` in order.
pub proof fn lemma_consolidate_ids(eps: Seq<EpisodeView>)
    ensures
        forall|i: int|
            0 <= i < spec_consolidate(eps).len() ==> #[trigger] spec_consolidate(eps)[i].id == i
                + 1,
    decreases eps.len(),
{
    if eps.len() > 0 {
        lemma_consolidate_ids(eps.drop_last());
        let prev = spec_consolidate(eps.drop_last());
        let sv = spec_consolidate(eps);
        assert forall|i: int| 0 <= i < sv.len() implies #[trigger] sv[i].id == i + 1 by {
            if i < prev.len() {
                assert(prev[i].id == i + 1);
                assert(sv[i] == prev[i]);
            }
        }
    }
}

/// No two consolidated rows carry the same name.
pub proof fn lemma_consolidate_distinct(eps: Seq<EpisodeView>)
    ensures
        forall|i: int, j: int|
            0 <= i < j < spec_consolidate(eps).len() ==> #[trigger] spec_consolidate(
                eps,
            )[i].name != #[trigger] spec_consolidate(eps)[j].name,
    decreases eps.len(),
{
    if eps.len() > 0 {
        lemma_consolidate_distinct(eps.drop_last());
        let prev = spec_consolidate(eps.drop_last());
        let sv = spec_consolidate(eps);
        assert forall|i: int, j: int| 0 <= i < j < sv.len() implies #[trigger] sv[i].name
            != #[trigger] sv[j].name by {
            if j < prev.len() {
                assert(prev[i].name != prev[j].name);
                assert(sv[i] == prev[i] && sv[j] == prev[j]);
            } else {
                assert(sv[i] == prev[i]);
                if prev[i].name == sv[j].name {
                    assert(contains_name(prev, sv[j].name));
                }
            }
        }
    }
}

/// Every episode's cleaned name is carried by some consolidated row.
pub proof fn lemma_consolidate_covers(eps: Seq<EpisodeView>)
    ensures
        forall|k: int|
            0 <= k < eps.len() ==> contains_name(
                spec_consolidate(eps),
                #[trigger] eps[k].series_name_clean,
            ),
    decreases eps.len(),
{
    if eps.len() > 0 {
        let prev = spec_consolidate(eps.drop_last());
        let sv = spec_consolidate(eps);
        lemma_consolidate_covers(eps.drop_last());
        assert forall|k: int| 0 <= k < eps.len() implies contains_name(
            sv,
            #[trigger] eps[k].series_name_clean,
        ) by {
            if k < eps.len() - 1 {
                assert(eps.drop_last()[k] == eps[k]);
                let i = choose|i: int|
                    0 <= i < prev.len() && prev[i].name == eps[k].series_name_clean;
                assert(sv[i].name == eps[k].series_name_clean);
            } else {
                if contains_name(prev, eps.last().series_name_clean) {
                    let i = choose|i: int|
                        0 <= i < prev.len() && prev[i].name == eps.last().series_name_clean;
                    assert(sv[i].name == eps[k].series_name_clean);
                } else {
                    assert(sv[prev.len() as int].name == eps[k].series_name_clean);
                }
            }
        }
    }
}

/// Every consolidated row's name is the cleaned name of some episode.
pub proof fn lemma_consolidate_sources(eps: Seq<EpisodeView>)
    ensures
        forall|i: int|
            0 <= i < spec_consolidate(eps).len() ==> exists|k: int|
                0 <= k < eps.len() && eps[k].series_name_clean == #[trigger] spec_consolidate(
                    eps,
                )[i].name,
    decreases eps.len(),
{
    if eps.len() > 0 {
        let prev = spec_consolidate(eps.drop_last());
        let sv = spec_consolidate(eps);
        lemma_consolidate_sources(eps.drop_last());
        assert forall|i: int| 0 <= i < sv.len() implies exists|k: int|
            0 <= k < eps.len() && eps[k].series_name_clean == #[trigger] sv[i].name by {
            if i < prev.len() {
                let k = choose|k: int|
                    0 <= k < eps.drop_last().len() && eps.drop_last()[k].series_name_clean
                        == prev[i].name;
                assert(eps[k].series_name_clean == sv[i].name);
            } else {
                assert(eps[eps.len() - 1].series_name_clean == sv[i].name);
            }
        }
    }
}

fn contains_row(rows: &Vec<SeriesRow>, name: &String) -> (b: bool)
    ensures
        b == contains_name(rows.deep_view(), name@),
{
    let mut i: usize = 0;
    loop
        invariant
            i <= rows.len(),
            forall|m: int| 0 <= m < i ==> rows.deep_view()[m].name != name@,
        ensures
            i == rows.len(),
            forall|m: int| 0 <= m < rows.len() ==> rows.deep_view()[m].name != name@,
        decreases rows.len() - i,
    {
        if i >= rows.len() {
            break;
        }
        if rows[i].name == *name {
            proof {
                assert(rows.deep_view()[i as int].name == name@);
            }
            return true;
        }
        i += 1;
    }
    false
}

/// Pass 1 over the extracted episodes, as `spec_consolidate` describes it.
pub fn consolidate(eps: &Vec<ExtractedEpisode>) -> (rows: Vec<SeriesRow>)
    ensures
        rows.deep_view() == spec_consolidate(eps.deep_view()),
{
    let mut rows: Vec<SeriesRow> = Vec::new();
    let mut k: usize = 0;
    proof {
        assert(rows.deep_view() =~= spec_consolidate(eps.deep_view().subrange(0, 0)));
    }
    while k < eps.len()
        invariant
            k <= eps.len(),
            rows.deep_view() == spec_consolidate(eps.deep_view().subrange(0, k as int)),
            rows.len() <= k,
        decreases eps.len() - k,
    {
        let ghost pfx = eps.deep_view().subrange(0, k as int);
        let ghost pfx1 = eps.deep_view().subrange(0, k + 1 as int);
        proof {
            assert(pfx1.drop_last() =~= pfx);
            assert(pfx1.last() == eps.deep_view()[k as int]);
        }
        let found = contains_row(&rows, &eps[k].series_name_clean);
        if !found {
            let id = (rows.len() as u64) + 1;
            let row = SeriesRow {
                id,
                name: eps[k].series_name_clean.clone(),
                year: eps[k].ep_year.clone(),
                month: eps[k].ep_month.clone(),
            };
            let ghost old_rows = rows.deep_view();
            rows.push(row);
            proof {
                assert(rows.deep_view() =~= old_rows.push(
                    SeriesRowView {
                        id: old_rows.len() as int + 1,
                        name: eps.deep_view()[k as int].series_name_clean,
                        year: eps.deep_view()[k as int].ep_year,
                        month: eps.deep_view()[k as int].ep_month,
                    },
                ));
            }
        }
        k += 1;
    }
    proof {
        assert(eps.deep_view().subrange(0, eps.len() as int) =~= eps.deep_view());
    }
    rows
}

/// The identifier of the first series row carrying `name`, when one does.
pub fn lookup_series(rows: &Vec<SeriesRow>, name: &String) -> (r: Option<u64>)
    ensures
        match r {
            Some(id) => index_of_name(rows.deep_view(), name@, 0) < rows.deep_view().len() && id
                == rows.deep_view()[index_of_name(rows.deep_view(), name@, 0)].id,
            None => index_of_name(rows.deep_view(), name@, 0) == rows.deep_view().len(),
        },
{
    let mut i: usize = 0;
    loop
        invariant
            i <= rows.len(),
            index_of_name(rows.deep_view(), name@, 0) == index_of_name(
                rows.deep_view(),
                name@,
                i as int,
            ),
        ensures
            i == rows.len(),
            index_of_name(rows.deep_view(), name@, 0) == rows.deep_view().len(),
        decreases rows.len() - i,
    {
        if i >= rows.len() {
            break;
        }
        if rows[i].name == *name {
            proof {
                assert(index_of_name(rows.deep_view(), name@, i as int) == i);
            }
            return Some(rows[i].id);
        }
        i += 1;
    }
    None
}

/// Pass 2, one row: episode `k` keeps its raw title as `ep_name` and refers
/// to the series row carrying its cleaned name.
pub open spec fn spec_episode_row(eps: Seq<EpisodeView>, sv: Seq<SeriesRowView>, k: int) -> EpisodeRowView {
    EpisodeRowView {
        id: k + 1,
        ep_name: eps[k].series_name_raw,
        ep_num: eps[k].ep_num,
        ep_year: eps[k].ep_year,
        ep_month: eps[k].ep_month,
        series_id: sv[index_of_name(sv, eps[k].series_name_clean, 0)].id,
        abstract_text: eps[k].abstract_text,
    }
}

/// Pass 2: one episode row per extracted episode, in input order.
pub open spec fn spec_episode_rows(eps: Seq<EpisodeView>, sv: Seq<SeriesRowView>) -> Seq<EpisodeRowView> {
    Seq::new(eps.len(), |k: int| spec_episode_row(eps, sv, k))
}

/// Everything one run persists: the series table and the episode table.
pub struct LoadPlanView {
    pub series: Seq<SeriesRowView>,
    pub episodes: Seq<EpisodeRowView>,
}

pub struct LoadPlan {
    pub series: Vec<SeriesRow>,
    pub episodes: Vec<EpisodeRow>,
}

impl View for LoadPlan {
    type V = LoadPlanView;

    open spec fn view(&self) -> LoadPlanView {
        LoadPlanView { series: self.series.deep_view(), episodes: self.episodes.deep_view() }
    }
}

/// The tables a run over `eps` persists.
pub open spec fn spec_plan(eps: Seq<EpisodeView>) -> LoadPlanView {
    let sv = spec_consolidate(eps);
    LoadPlanView { series: sv, episodes: spec_episode_rows(eps, sv) }
}

/// A failed series lookup while loading: an invariant violation that must
/// abort the run rather than insert an orphaned episode row.
pub enum LoadError {
    LookupMiss,
}

/// Both passes. The lookup-miss check is present as the load pass demands,
/// and the contract records that it never fires: consolidation covers every
/// cleaned name that extraction produces.
pub fn build_load_plan(eps: &Vec<ExtractedEpisode>) -> (r: Result<LoadPlan, LoadError>)
    ensures
        match r {
            Ok(plan) => plan@ == spec_plan(eps.deep_view()),
            Err(_) => false,
        },
{
    let series = consolidate(eps);
    let ghost sv = series.deep_view();
    let ghost epv = eps.deep_view();
    let mut rows: Vec<EpisodeRow> = Vec::new();
    let mut k: usize = 0;
    while k < eps.len()
        invariant
            k <= eps.len(),
            sv == series.deep_view(),
            epv == eps.deep_view(),
            sv == spec_consolidate(epv),
            rows.deep_view() =~= spec_episode_rows(epv, sv).subrange(0, k as int),
        decreases eps.len() - k,
    {
        match lookup_series(&series, &eps[k].series_name_clean) {
            None => {
                proof {
                    lemma_consolidate_covers(epv);
                    lemma_index_of_name(sv, epv[k as int].series_name_clean, 0);
                    let i = choose|i: int|
                        0 <= i < sv.len() && sv[i].name == epv[k as int].series_name_clean;
                    assert(false);
                }
                return Err(LoadError::LookupMiss);
            },
            Some(sid) => {
                let ghost old_rows = rows.deep_view();
                rows.push(
                    EpisodeRow {
                        id: (k as u64) + 1,
                        ep_name: eps[k].series_name_raw.clone(),
                        ep_num: eps[k].ep_num.clone(),
                        ep_year: eps[k].ep_year.clone(),
                        ep_month: eps[k].ep_month.clone(),
                        series_id: sid,
                        abstract_text: eps[k].abstract_text.clone(),
                    },
                );
                proof {
                    assert(rows.deep_view() =~= old_rows.push(spec_episode_row(epv, sv, k as int)));
                    assert(rows.deep_view() =~= spec_episode_rows(epv, sv).subrange(0, k + 1));
                }
            },
        }
        k += 1;
    }
    proof {
        assert(spec_episode_rows(epv, sv).subrange(0, eps.len() as int) =~= spec_episode_rows(
            epv,
            sv,
        ));
    }
    Ok(LoadPlan { series, episodes: rows })
}

/// Index of the first episode at or after `a` whose cleaned name is `n`,
/// or `eps.len()`.
pub open spec fn first_with_name(eps: Seq<EpisodeView>, n: Seq<char>, a: int) -> int
    decreases eps.len() - a when 0 <= a <= eps.len()
{
    if a >= eps.len() {
        eps.len() as int
    } else if eps[a].series_name_clean == n {
        a
    } else {
        first_with_name(eps, n, a + 1)
    }
}

/// `first_with_name` finds the first episode with the cleaned name, and
/// misses only when no episode carries it.
pub proof fn lemma_first_with_name(eps: Seq<EpisodeView>, n: Seq<char>, a: int)
    requires
        0 <= a <= eps.len(),
    ensures
        a <= first_with_name(eps, n, a) <= eps.len(),
        first_with_name(eps, n, a) < eps.len() ==> eps[first_with_name(eps, n, a)].series_name_clean
            == n,
        forall|m: int| a <= m < first_with_name(eps, n, a) ==> eps[m].series_name_clean != n,
    decreases eps.len() - a,
{
    if a < eps.len() && eps[a].series_name_clean != n {
        lemma_first_with_name(eps, n, a + 1);
    }
}

/// First-seen wins: each series row carries the year and month of the
/// first episode encountered for its name, in input order.
pub proof fn lemma_first_seen_wins(eps: Seq<EpisodeView>)
    ensures
        forall|i: int|
            0 <= i < spec_consolidate(eps).len() ==> {
                let row = #[trigger] spec_consolidate(eps)[i];
                let f = first_with_name(eps, row.name, 0);
                &&& 0 <= f < eps.len()
                &&& eps[f].series_name_clean == row.name
                &&& row.year == eps[f].ep_year
                &&& row.month == eps[f].ep_month
            },
    decreases eps.len(),
{
    if eps.len() > 0 {
        let pfx = eps.drop_last();
        let prev = spec_consolidate(pfx);
        let sv = spec_consolidate(eps);
        let e = eps.last();
        lemma_first_seen_wins(pfx);
        lemma_consolidate_covers(pfx);
        assert forall|i: int| 0 <= i < sv.len() implies {
            let row = #[trigger] sv[i];
            let f = first_with_name(eps, row.name, 0);
            &&& 0 <= f < eps.len()
            &&& eps[f].series_name_clean == row.name
            &&& row.year == eps[f].ep_year
            &&& row.month == eps[f].ep_month
        } by {
            let row = sv[i];
            let f = first_with_name(eps, row.name, 0);
            lemma_first_with_name(eps, row.name, 0);
            if i < prev.len() {
                assert(sv[i] == prev[i]);
                let fp = first_with_name(pfx, row.name, 0);
                lemma_first_with_name(pfx, row.name, 0);
                assert(fp < pfx.len());
                assert(eps[fp] == pfx[fp]);
                assert(eps[fp].series_name_clean == row.name);
                assert(f < eps.len());
                if f < fp {
                    assert(pfx[f] == eps[f]);
                    assert(false);
                }
                if f > fp {
                    assert(false);
                }
                assert(f == fp);
            } else {
                // the row was pushed for the last episode, whose name no
                // earlier episode carries
                assert(row.name == e.series_name_clean);
                assert(!contains_name(prev, e.series_name_clean));
                assert forall|m: int| 0 <= m < eps.len() - 1 implies eps[m].series_name_clean
                    != row.name by {
                    assert(pfx[m] == eps[m]);
                    if eps[m].series_name_clean == row.name {
                        assert(contains_name(prev, pfx[m].series_name_clean));
                        let w = choose|w: int|
                            0 <= w < prev.len() && prev[w].name == pfx[m].series_name_clean;
                        assert(false);
                    }
                }
                assert(eps[eps.len() - 1].series_name_clean == row.name);
                assert(f <= eps.len() - 1);
                assert(f == eps.len() - 1);
            }
        }
    }
}

/// The series table is exactly the distinct cleaned names: no name twice,
/// every episode's cleaned name present, and no name from nowhere. With
/// both quantified directions, the number of series rows equals the number
/// of distinct cleaned names among the extracted episodes.
pub proof fn lemma_series_table_exact(eps: Seq<EpisodeView>)
    ensures
        forall|i: int, j: int|
            0 <= i < j < spec_consolidate(eps).len() ==> #[trigger] spec_consolidate(
                eps,
            )[i].name != #[trigger] spec_consolidate(eps)[j].name,
        forall|k: int|
            0 <= k < eps.len() ==> contains_name(
                spec_consolidate(eps),
                #[trigger] eps[k].series_name_clean,
            ),
        forall|i: int|
            0 <= i < spec_consolidate(eps).len() ==> exists|k: int|
                0 <= k < eps.len() && eps[k].series_name_clean == #[trigger] spec_consolidate(
                    eps,
                )[i].name,
{
    lemma_consolidate_distinct(eps);
    lemma_consolidate_covers(eps);
    lemma_consolidate_sources(eps);
}

/// Referential consistency: every planned episode row's `series_id` is the
/// identifier of the series row whose name is that episode's cleaned
/// series name.
pub proof fn lemma_episode_links_resolve(eps: Seq<EpisodeView>)
    ensures
        forall|k: int|
            0 <= k < eps.len() ==> {
                let sv = spec_consolidate(eps);
                let idx = index_of_name(sv, #[trigger] eps[k].series_name_clean, 0);
                &&& 0 <= idx < sv.len()
                &&& sv[idx].name == eps[k].series_name_clean
                &&& spec_plan(eps).episodes[k].series_id == sv[idx].id
            },
{
    let sv = spec_consolidate(eps);
    lemma_consolidate_covers(eps);
    assert forall|k: int| 0 <= k < eps.len() implies {
        let idx = index_of_name(sv, #[trigger] eps[k].series_name_clean, 0);
        &&& 0 <= idx < sv.len()
        &&& sv[idx].name == eps[k].series_name_clean
        &&& spec_plan(eps).episodes[k].series_id == sv[idx].id
    } by {
        lemma_index_of_name(sv, eps[k].series_name_clean, 0);
        let w = choose|i: int| 0 <= i < sv.len() && sv[i].name == eps[k].series_name_clean;
        let idx = index_of_name(sv, eps[k].series_name_clean, 0);
        assert(sv[w].name == eps[k].series_name_clean);
        assert(idx < sv.len());
        assert(spec_plan(eps).episodes[k] == spec_episode_row(eps, sv, k));
    }
}

} // verus!
