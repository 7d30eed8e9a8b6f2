//! A model of the relational store at the granularity the loader uses —
//! whole-table delete followed by row-by-row inserts — and the full run:
//! enumerate-order extraction, consolidation, and the load. Rebuilding
//! ignores whatever the store held before, which is what makes a rerun on
//! unchanged input land on identical table contents.

use vstd::prelude::*;
use crate::consolidate::{
    SeriesRow, EpisodeRow, LoadPlan, LoadPlanView, spec_plan, build_load_plan, LoadError,
};
use crate::document::{ExtractedEpisode, EpisodeView, extract_episode, spec_extract_episode};

verus! {

/// One input document: its filename and its full text.
pub struct Document {
    pub filename: String,
    pub content: String,
}

pub struct DocumentView {
    pub filename: Seq<char>,
    pub content: Seq<char>,
}

impl View for Document {
    type V = DocumentView;

    open spec fn view(&self) -> DocumentView {
        DocumentView { filename: self.filename@, content: self.content@ }
    }
}

impl DeepView for Document {
    type V = DocumentView;

    open spec fn deep_view(&self) -> DocumentView {
        self.view()
    }
}

/// The two tables of the store.
pub struct Store {
    pub series: Vec<SeriesRow>,
    pub episodes: Vec<EpisodeRow>,
}

impl View for Store {
    type V = LoadPlanView;

    open spec fn view(&self) -> LoadPlanView {
        LoadPlanView { series: self.series.deep_view(), episodes: self.episodes.deep_view() }
    }
}

fn copy_series_row(r: &SeriesRow) -> (c: SeriesRow)
    ensures
        c@ == r@,
{
    SeriesRow { id: r.id, name: r.name.clone(), year: r.year.clone(), month: r.month.clone() }
}

fn copy_episode_row(r: &EpisodeRow) -> (c: EpisodeRow)
    ensures
        c@ == r@,
{
    EpisodeRow {
        id: r.id,
        ep_name: r.ep_name.clone(),
        ep_num: r.ep_num.clone(),
        ep_year: r.ep_year.clone(),
        ep_month: r.ep_month.clone(),
        series_id: r.series_id,
        abstract_text: r.abstract_text.clone(),
    }
}

impl Store {
    /// A store with both tables empty.
    pub fn new() -> (s: Store)
        ensures
            s@.series.len() == 0,
            s@.episodes.len() == 0,
    {
        Store { series: Vec::new(), episodes: Vec::new() }
    }

    /// Whole-table delete of both tables, episodes before series as the
    /// foreign-key direction asks.
    pub fn clear_all(&mut self)
        ensures
            final(self)@.series.len() == 0,
            final(self)@.episodes.len() == 0,
    {
        self.episodes = Vec::new();
        self.series = Vec::new();
    }

    /// Insert of one series row at the end of the series table.
    pub fn insert_series(&mut self, row: SeriesRow)
        ensures
            final(self)@.series =~= old(self)@.series.push(row@),
            final(self)@.episodes == old(self)@.episodes,
    {
        self.series.push(row);
    }

    /// Insert of one episode row at the end of the episode table.
    pub fn insert_episode(&mut self, row: EpisodeRow)
        ensures
            final(self)@.episodes =~= old(self)@.episodes.push(row@),
            final(self)@.series == old(self)@.series,
    {
        self.episodes.push(row);
    }

    /// Delete-then-reinsert of both tables from the plan. The final
    /// contents are exactly the plan, whatever the store held before.
    pub fn rebuild(&mut self, plan: &LoadPlan)
        ensures
            final(self)@ == plan@,
    {
        self.clear_all();
        let mut i: usize = 0;
        while i < plan.series.len()
            invariant
                i <= plan.series.len(),
                self@.series =~= plan@.series.subrange(0, i as int),
                self@.episodes.len() == 0,
            decreases plan.series.len() - i,
        {
            self.insert_series(copy_series_row(&plan.series[i]));
            i += 1;
        }
        let mut k: usize = 0;
        while k < plan.episodes.len()
            invariant
                k <= plan.episodes.len(),
                self@.series =~= plan@.series.subrange(0, plan.series.len() as int),
                self@.episodes =~= plan@.episodes.subrange(0, k as int),
            decreases plan.episodes.len() - k,
        {
            self.insert_episode(copy_episode_row(&plan.episodes[k]));
            k += 1;
        }
        proof {
            assert(plan@.series.subrange(0, plan.series.len() as int) =~= plan@.series);
            assert(plan@.episodes.subrange(0, plan.episodes.len() as int) =~= plan@.episodes);
        }
    }
}

/// The records extracted from the documents, in enumerator order.
pub open spec fn spec_extracted(docs: Seq<DocumentView>) -> Seq<EpisodeView> {
    Seq::new(docs.len(), |i: int| spec_extract_episode(docs[i].filename, docs[i].content))
}

/// The table contents one run over `docs` persists.
pub open spec fn spec_run(docs: Seq<DocumentView>) -> LoadPlanView {
    spec_plan(spec_extracted(docs))
}

/// One full run: extract every document in order, consolidate, and rebuild
/// the store. The final contents depend on the documents alone, never on
/// what the store held before.
pub fn run(store: &mut Store, docs: &Vec<Document>) -> (r: Result<(), LoadError>)
    ensures
        match r {
            Ok(()) => final(store)@ == spec_run(docs.deep_view()),
            Err(_) => false,
        },
{
    let mut eps: Vec<ExtractedEpisode> = Vec::new();
    let mut i: usize = 0;
    while i < docs.len()
        invariant
            i <= docs.len(),
            eps.deep_view() =~= spec_extracted(docs.deep_view()).subrange(0, i as int),
        decreases docs.len() - i,
    {
        let ghost old_eps = eps.deep_view();
        eps.push(extract_episode(docs[i].filename.as_str(), docs[i].content.as_str()));
        proof {
            assert(eps.deep_view() =~= old_eps.push(
                spec_extract_episode(
                    docs.deep_view()[i as int].filename,
                    docs.deep_view()[i as int].content,
                ),
            ));
        }
        i += 1;
    }
    proof {
        assert(spec_extracted(docs.deep_view()).subrange(0, docs.len() as int) =~= spec_extracted(
            docs.deep_view(),
        ));
    }
    match build_load_plan(&eps) {
        Ok(plan) => {
            store.rebuild(&plan);
            Ok(())
        },
        Err(e) => Err(e),
    }
}

/// Rerunning on an unchanged input is idempotent: two table contents each
/// left by a run over the same documents are identical, whatever either
/// store held before either run.
pub proof fn lemma_rerun_identical(
    docs: Seq<DocumentView>,
    first: LoadPlanView,
    second: LoadPlanView,
)
    requires
        first == spec_run(docs),
        second == spec_run(docs),
    ensures
        first == second,
{
}

} // verus!
