//! The records of the learners' progress, and the operations that read and
//! write them by key.
//!
//! There are seven tables: the registered learners, the scores, the saved
//! snippets, the responses to the quiz, the place of each learner in the
//! quiz, the hover counters and the log of page visits. A `ProgressStore`
//! holds them all. Its view, a `StoreView`, is what the contracts of the
//! whole crate speak of.

use vstd::prelude::*;
use crate::config::is_problem;
use crate::config::problem_in_range;
use crate::error::EngineError;
use crate::store::records::{PageVisit, PageVisitView, Response, ResponseView};
use crate::store::assoc::{has_key, keys_distinct};
use crate::store::table::{Table, Upsert};

pub mod assoc;
pub mod records;
pub mod table;

verus! {

/// The records as mathematical values.
pub struct StoreView {
    /// The tokens of the registered learners.
    pub learners: Set<Seq<char>>,
    /// The score of a learner on a problem.
    pub scores: Map<(Seq<char>, i32), i32>,
    /// The snippets that a learner saved last.
    pub edit_states: Map<Seq<char>, Seq<char>>,
    /// The response of a learner to a question.
    pub responses: Map<(Seq<char>, u8), ResponseView>,
    /// The question that a learner is to answer next.
    pub quiz_progress: Map<Seq<char>, u8>,
    /// How often a learner hovered over an item of a drawing.
    pub hover_counters: Map<(Seq<char>, Seq<char>, Seq<char>), u64>,
    /// Every page visit, oldest first.
    pub page_time_log: Seq<PageVisitView>,
}

impl StoreView {
    /// Records in which nothing has been written yet.
    pub open spec fn empty() -> StoreView {
        StoreView {
            learners: Set::empty(),
            scores: Map::empty(),
            edit_states: Map::empty(),
            responses: Map::empty(),
            quiz_progress: Map::empty(),
            hover_counters: Map::empty(),
            page_time_log: Seq::empty(),
        }
    }

    /// Every score is 0 or 1 and belongs to a problem that exists.
    pub open spec fn scores_valid(self) -> bool {
        forall|k: (Seq<char>, i32)|
            #![trigger self.scores.dom().contains(k)]
            self.scores.dom().contains(k) ==> is_problem(k.1) && (self.scores[k] == 0
                || self.scores[k] == 1)
    }

    /// The score of a learner on a problem; 0 where none is recorded.
    pub open spec fn score_of(self, token: Seq<char>, problem: i32) -> i32 {
        if self.scores.dom().contains((token, problem)) {
            self.scores[(token, problem)]
        } else {
            0
        }
    }

    /// The response of a learner to a question; that of a learner who has
    /// not been there where none is recorded.
    pub open spec fn response_of(self, token: Seq<char>, question: u8) -> ResponseView {
        if self.responses.dom().contains((token, question)) {
            self.responses[(token, question)]
        } else {
            ResponseView::unanswered()
        }
    }

    /// The question that a learner is to answer next; the first where
    /// nothing is recorded.
    pub open spec fn pointer_of(self, token: Seq<char>) -> u8 {
        if self.quiz_progress.dom().contains(token) {
            self.quiz_progress[token]
        } else {
            0
        }
    }

    /// How often a learner hovered over an item; 0 where nothing is recorded.
    pub open spec fn hovers_of(self, token: Seq<char>, svg: Seq<char>, item: Seq<char>) -> u64 {
        if self.hover_counters.dom().contains((token, svg, item)) {
            self.hover_counters[(token, svg, item)]
        } else {
            0
        }
    }

    /// The times that a learner spent on a page, one for each visit, oldest
    /// first.
    pub open spec fn page_times_of(self, token: Seq<char>, page: Seq<char>) -> Seq<i64> {
        times_on_page(self.page_time_log, token, page)
    }
}

/// The times of the visits in a log that a learner paid to a page, in the
/// order of the log.
pub open spec fn times_on_page(log: Seq<PageVisitView>, token: Seq<char>, page: Seq<char>) -> Seq<
    i64,
> {
    log.filter(|v: PageVisitView| v.token == token && v.page == page).map_values(
        |v: PageVisitView| v.elapsed,
    )
}

/// A visit added to a log adds its time to the times of its learner and
/// its page, and to no others.
pub proof fn lemma_times_on_page_push(
    log: Seq<PageVisitView>,
    visit: PageVisitView,
    token: Seq<char>,
    page: Seq<char>,
)
    ensures
        times_on_page(log.push(visit), token, page) == if visit.token == token && visit.page
            == page {
            times_on_page(log, token, page).push(visit.elapsed)
        } else {
            times_on_page(log, token, page)
        },
{
    reveal(Seq::filter);
    let pred = |v: PageVisitView| v.token == token && v.page == page;
    assert(log.push(visit).drop_last() =~= log);
    assert(log.push(visit).last() == visit);
    if pred(visit) {
        assert(log.push(visit).filter(pred) == log.filter(pred).push(visit));
        assert(times_on_page(log.push(visit), token, page) =~= times_on_page(log, token, page).push(
            visit.elapsed,
        ));
    } else {
        assert(log.push(visit).filter(pred) == log.filter(pred));
    }
}

/// The records of all learners.
pub struct ProgressStore {
    learners: Table<String, ()>,
    scores: Table<(String, i32), i32>,
    edit_states: Table<String, String>,
    responses: Table<(String, u8), Response>,
    quiz_progress: Table<String, u8>,
    hover_counters: Table<(String, String, String), u64>,
    page_time_log: Vec<PageVisit>,
}

impl View for ProgressStore {
    type V = StoreView;

    closed spec fn view(&self) -> StoreView {
        StoreView {
            learners: self.learners@.dom(),
            scores: self.scores@,
            edit_states: self.edit_states@,
            responses: self.responses@,
            quiz_progress: self.quiz_progress@,
            hover_counters: self.hover_counters@,
            page_time_log: self.page_time_log@.map_values(|v: PageVisit| v@),
        }
    }
}

impl ProgressStore {
    /// The records are sound: every table has at most one row under a key,
    /// and the scores are valid.
    pub closed spec fn wf(&self) -> bool {
        &&& self.learners.wf()
        &&& self.scores.wf()
        &&& self.edit_states.wf()
        &&& self.responses.wf()
        &&& self.quiz_progress.wf()
        &&& self.hover_counters.wf()
        &&& self@.scores_valid()
    }

    /// Whatever has been written, every score in sound records is 0 or 1
    /// and belongs to a problem that exists.
    pub proof fn lemma_scores_are_binary(&self)
        requires
            self.wf(),
        ensures
            self@.scores_valid(),
    {
    }

    /// Records in which nothing has been written yet.
    pub fn new() -> (store: ProgressStore)
        ensures
            store.wf(),
            store@ == StoreView::empty(),
    {
        let store = ProgressStore {
            learners: Table::new(),
            scores: Table::new(),
            edit_states: Table::new(),
            responses: Table::new(),
            quiz_progress: Table::new(),
            hover_counters: Table::new(),
            page_time_log: Vec::new(),
        };
        assert(store@.page_time_log =~= Seq::<PageVisitView>::empty());
        assert(store@.learners =~= Set::<Seq<char>>::empty());
        store
    }

    /// Whether a learner is registered under the token.
    pub fn is_registered(&self, token: &String) -> (b: bool)
        requires
            self.wf(),
        ensures
            b == self@.learners.contains(token@),
    {
        self.learners.contains(token)
    }

    /// Registers a learner. A token can be registered once.
    pub fn register(&mut self, token: &String) -> (r: Result<(), EngineError>)
        requires
            old(self).wf(),
        ensures
            final(self).wf(),
            r == (if old(self)@.learners.contains(token@) {
                Err::<(), EngineError>(EngineError::Conflict)
            } else {
                Ok::<(), EngineError>(())
            }),
            final(self)@ == (if old(self)@.learners.contains(token@) {
                old(self)@
            } else {
                StoreView { learners: old(self)@.learners.insert(token@), ..old(self)@ }
            }),
    {
        if self.learners.contains(token) {
            return Err(EngineError::Conflict);
        }
        self.learners.upsert(token.clone(), ());
        assert(self@.learners =~= old(self)@.learners.insert(token@));
        Ok(())
    }

    /// The score recorded for a learner on a problem, if there is one.
    pub fn score(&self, token: &String, problem: i32) -> (score: Option<i32>)
        requires
            self.wf(),
        ensures
            score is Some == self@.scores.dom().contains((token@, problem)),
            score matches Some(s) ==> s == self@.scores[(token@, problem)],
    {
        match self.scores.get(&(token.clone(), problem)) {
            Some(s) => Some(*s),
            None => None,
        }
    }

    /// Records a score. The problem must exist and the score be 0 or 1:
    /// otherwise nothing is written.
    pub fn put_score(&mut self, token: &String, problem: i32, score: i32) -> (r: Result<
        Upsert,
        EngineError,
    >)
        requires
            old(self).wf(),
        ensures
            final(self).wf(),
            r == (if !is_problem(problem) || !(score == 0 || score == 1) {
                Err::<Upsert, EngineError>(EngineError::ValidationError)
            } else if old(self)@.scores.dom().contains((token@, problem)) {
                Ok::<Upsert, EngineError>(Upsert::Updated)
            } else {
                Ok::<Upsert, EngineError>(Upsert::Created)
            }),
            final(self)@ == (if !is_problem(problem) || !(score == 0 || score == 1) {
                old(self)@
            } else {
                StoreView {
                    scores: old(self)@.scores.insert((token@, problem), score),
                    ..old(self)@
                }
            }),
    {
        if !problem_in_range(problem) || !(score == 0 || score == 1) {
            return Err(EngineError::ValidationError);
        }
        let how = self.scores.upsert((token.clone(), problem), score);
        assert(self@.scores == old(self)@.scores.insert((token@, problem), score));
        Ok(how)
    }

    /// The snippets that a learner saved last, if any are recorded.
    pub fn edit_state(&self, token: &String) -> (text: Option<&String>)
        requires
            self.wf(),
        ensures
            text is Some == self@.edit_states.dom().contains(token@),
            text matches Some(t) ==> t@ == self@.edit_states[token@],
    {
        self.edit_states.get(token)
    }

    /// Records the snippets of a learner in place of whatever was there.
    pub fn put_edit_state(&mut self, token: &String, snapshot: String) -> (how: Upsert)
        requires
            old(self).wf(),
        ensures
            final(self).wf(),
            final(self)@ == (StoreView {
                edit_states: old(self)@.edit_states.insert(token@, snapshot@),
                ..old(self)@
            }),
            how == if old(self)@.edit_states.dom().contains(token@) {
                Upsert::Updated
            } else {
                Upsert::Created
            },
    {
        let how = self.edit_states.upsert(token.clone(), snapshot);
        assert(self@.scores == old(self)@.scores);
        how
    }

    /// The response of a learner to a question, if one is recorded.
    pub fn response(&self, token: &String, question: u8) -> (found: Option<&Response>)
        requires
            self.wf(),
        ensures
            found is Some == self@.responses.dom().contains((token@, question)),
            found matches Some(r) ==> r@ == self@.responses[(token@, question)],
    {
        self.responses.get(&(token.clone(), question))
    }

    /// The responses of all learners as rows, in the order of their
    /// creation: the learner and the question, and the response beside them.
    pub closed spec fn response_rows(&self) -> Seq<((Seq<char>, u8), ResponseView)> {
        self.responses.entries()
    }

    /// The number of responses of all learners.
    pub fn response_count(&self) -> (n: usize)
        requires
            self.wf(),
        ensures
            n == self.response_rows().len(),
    {
        self.responses.len()
    }

    /// The response at a position among the rows, with the learner that
    /// gave it and the question that it answers.
    pub fn response_at(&self, i: usize) -> (r: (&String, u8, &Response))
        requires
            self.wf(),
            i < self.response_rows().len(),
        ensures
            ((r.0@, r.1), r.2@) == self.response_rows()[i as int],
    {
        let (key, response) = self.responses.row(i);
        (&key.0, key.1, response)
    }

    /// The rows of the responses and the map of the responses hold the
    /// same, and no learner has two rows for one question.
    pub proof fn lemma_response_rows(&self)
        requires
            self.wf(),
        ensures
            keys_distinct(self.response_rows()),
            forall|i: int|
                0 <= i < self.response_rows().len() ==> self@.responses.dom().contains(
                    (#[trigger] self.response_rows()[i]).0,
                ) && self@.responses[self.response_rows()[i].0] == self.response_rows()[i].1,
            forall|k: (Seq<char>, u8)| #[trigger]
                self@.responses.dom().contains(k) ==> has_key(self.response_rows(), k),
    {
        self.responses.lemma_rows_and_map();
    }

    /// Records the response of a learner to a question in place of whatever
    /// was there.
    pub fn put_response(&mut self, token: &String, question: u8, response: Response) -> (how:
        Upsert)
        requires
            old(self).wf(),
        ensures
            final(self).wf(),
            final(self)@ == (StoreView {
                responses: old(self)@.responses.insert((token@, question), response@),
                ..old(self)@
            }),
            how == if old(self)@.responses.dom().contains((token@, question)) {
                Upsert::Updated
            } else {
                Upsert::Created
            },
    {
        let how = self.responses.upsert((token.clone(), question), response);
        assert(self@.scores == old(self)@.scores);
        how
    }

    /// The question that a learner is to answer next, if one is recorded.
    pub fn quiz_pointer(&self, token: &String) -> (pointer: Option<u8>)
        requires
            self.wf(),
        ensures
            pointer is Some == self@.quiz_progress.dom().contains(token@),
            pointer matches Some(p) ==> p == self@.quiz_progress[token@],
    {
        match self.quiz_progress.get(token) {
            Some(p) => Some(*p),
            None => None,
        }
    }

    /// Records the question that a learner is to answer next.
    pub fn put_quiz_pointer(&mut self, token: &String, pointer: u8) -> (how: Upsert)
        requires
            old(self).wf(),
        ensures
            final(self).wf(),
            final(self)@ == (StoreView {
                quiz_progress: old(self)@.quiz_progress.insert(token@, pointer),
                ..old(self)@
            }),
            how == if old(self)@.quiz_progress.dom().contains(token@) {
                Upsert::Updated
            } else {
                Upsert::Created
            },
    {
        let how = self.quiz_progress.upsert(token.clone(), pointer);
        assert(self@.scores == old(self)@.scores);
        how
    }

    /// How often a learner hovered over an item of a drawing, if a counter
    /// is recorded.
    pub fn hover_count(&self, token: &String, svg: &String, item: &String) -> (count: Option<u64>)
        requires
            self.wf(),
        ensures
            count is Some == self@.hover_counters.dom().contains((token@, svg@, item@)),
            count matches Some(c) ==> c == self@.hover_counters[(token@, svg@, item@)],
    {
        match self.hover_counters.get(&(token.clone(), svg.clone(), item.clone())) {
            Some(c) => Some(*c),
            None => None,
        }
    }

    /// Records a hover counter in place of whatever was there.
    pub fn put_hover_count(&mut self, token: &String, svg: &String, item: &String, count: u64) -> (how:
        Upsert)
        requires
            old(self).wf(),
        ensures
            final(self).wf(),
            final(self)@ == (StoreView {
                hover_counters: old(self)@.hover_counters.insert((token@, svg@, item@), count),
                ..old(self)@
            }),
            how == if old(self)@.hover_counters.dom().contains((token@, svg@, item@)) {
                Upsert::Updated
            } else {
                Upsert::Created
            },
    {
        let how = self.hover_counters.upsert((token.clone(), svg.clone(), item.clone()), count);
        assert(self@.scores == old(self)@.scores);
        how
    }

    /// Adds a page visit at the end of the log. Nothing that is there changes.
    pub fn log_page_time(&mut self, token: &String, page: &String, elapsed: i64)
        requires
            old(self).wf(),
        ensures
            final(self).wf(),
            final(self)@ == (StoreView {
                page_time_log: old(self)@.page_time_log.push(
                    PageVisitView { token: token@, page: page@, elapsed },
                ),
                ..old(self)@
            }),
    {
        self.page_time_log.push(PageVisit { token: token.clone(), page: page.clone(), elapsed });
        assert(self@.page_time_log =~= old(self)@.page_time_log.push(
            PageVisitView { token: token@, page: page@, elapsed },
        ));
    }

    /// The times that a learner spent on a page, one for each visit, oldest
    /// first.
    pub fn page_times(&self, token: &String, page: &String) -> (times: Vec<i64>)
        ensures
            times@ == self@.page_times_of(token@, page@),
    {
        let mut times: Vec<i64> = Vec::new();
        let mut i: usize = 0;
        assert(self@.page_time_log.take(0) =~= Seq::<PageVisitView>::empty());
        assert(times@ =~= times_on_page(Seq::<PageVisitView>::empty(), token@, page@)) by {
            reveal(Seq::filter);
        }
        while i < self.page_time_log.len()
            invariant
                i <= self.page_time_log.len(),
                self@.page_time_log.len() == self.page_time_log.len(),
                times@ == times_on_page(self@.page_time_log.take(i as int), token@, page@),
            decreases self.page_time_log.len() - i,
        {
            let visit = &self.page_time_log[i];
            proof {
                assert(self@.page_time_log.take(i + 1) =~= self@.page_time_log.take(i as int).push(
                    visit@,
                ));
                lemma_times_on_page_push(
                    self@.page_time_log.take(i as int),
                    visit@,
                    token@,
                    page@,
                );
            }
            if visit.token == *token && visit.page == *page {
                times.push(visit.elapsed);
            }
            i += 1;
        }
        assert(self@.page_time_log.take(i as int) =~= self@.page_time_log);
        times
    }

    /// The number of page visits in the log.
    pub fn page_log_len(&self) -> (n: usize)
        ensures
            n == self@.page_time_log.len(),
    {
        self.page_time_log.len()
    }
}

} // verus!
