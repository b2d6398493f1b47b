//! The values that the tables hold.

use vstd::prelude::*;

verus! {

/// What a learner has given for one question of the quiz, and how long they
/// have spent on it.
#[derive(Debug, PartialEq, Eq)]
pub struct Response {
    /// The choice taken; `None` until an answer is handed in.
    pub answer: Option<u8>,
    /// The text written beside the answer; empty until one is handed in.
    pub free_response: String,
    /// Milliseconds spent on the question, over all visits.
    pub time_elapsed: u64,
    /// Milliseconds spent hovering over the drawing, over all visits.
    pub hover_time: u64,
}

/// A `Response` as a mathematical value.
pub struct ResponseView {
    pub answer: Option<u8>,
    pub free_response: Seq<char>,
    pub time_elapsed: u64,
    pub hover_time: u64,
}

impl View for Response {
    type V = ResponseView;

    open spec fn view(&self) -> ResponseView {
        ResponseView {
            answer: self.answer,
            free_response: self.free_response@,
            time_elapsed: self.time_elapsed,
            hover_time: self.hover_time,
        }
    }
}

impl ResponseView {
    /// The response of a learner who has not been on the question yet.
    pub open spec fn unanswered() -> ResponseView {
        ResponseView {
            answer: None,
            free_response: Seq::<char>::empty(),
            time_elapsed: 0,
            hover_time: 0,
        }
    }
}

impl Clone for Response {
    fn clone(&self) -> (copy: Response)
        ensures
            copy@ == self@,
    {
        Response {
            answer: self.answer,
            free_response: self.free_response.clone(),
            time_elapsed: self.time_elapsed,
            hover_time: self.hover_time,
        }
    }
}

/// One visit to a page: who, which page, and the time spent there.
#[derive(Debug, PartialEq, Eq)]
pub struct PageVisit {
    pub token: String,
    pub page: String,
    pub elapsed: i64,
}

/// A `PageVisit` as a mathematical value.
pub struct PageVisitView {
    pub token: Seq<char>,
    pub page: Seq<char>,
    pub elapsed: i64,
}

impl View for PageVisit {
    type V = PageVisitView;

    open spec fn view(&self) -> PageVisitView {
        PageVisitView { token: self.token@, page: self.page@, elapsed: self.elapsed }
    }
}

} // verus!
