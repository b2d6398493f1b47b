//! The quiz: recording what a learner hands in, and telling them where they
//! stand.

use vstd::prelude::*;
use crate::api::accounts::{token_of, User};
use crate::error::EngineError;
use crate::questions::{bank_valid, choices_of, question_info, Question, QuestionBank, QuestionView};
use crate::store::assoc::has_key;
use crate::text::{decimal, decimal_text};
use vstd::string::StringExecFns;
use crate::store::records::{Response, ResponseView};
use crate::store::table::Upsert;
use crate::store::{ProgressStore, StoreView};

verus! {

/// One submission to the quiz: the question, the answer and the text where
/// the learner gives them, and the time spent since the last submission.
#[derive(Clone, Debug, PartialEq, Eq)]
pub struct UserResponse {
    pub ques_id: u8,
    pub ans_id: Option<u8>,
    pub free_response: Option<String>,
    /// Milliseconds spent on the question.
    pub time_elapsed_question: u64,
    /// Milliseconds spent hovering over the drawing.
    pub time_elapsed_hover: u64,
}

impl UserResponse {
    /// Whether the submission carries an answer and a text. One that lacks
    /// either only adds to the times.
    pub open spec fn is_full(&self) -> bool {
        self.ans_id is Some && self.free_response is Some
    }
}

/// Why a submission by the learner `token` is refused, if it is. The checks
/// come in this order, and all of them before anything is written.
pub open spec fn response_refusal(
    pre: StoreView,
    bank: Seq<QuestionView>,
    login: Option<Seq<char>>,
    form: UserResponse,
) -> Option<EngineError> {
    if login is None {
        Some(EngineError::AuthRequired)
    } else if form.ques_id >= bank.len() {
        Some(EngineError::ValidationError)
    } else if form.is_full() && form.ans_id->0 >= choices_of(bank, form.ques_id) {
        Some(EngineError::ValidationError)
    } else if pre.response_of(login->0, form.ques_id).time_elapsed + form.time_elapsed_question
        > u64::MAX || pre.response_of(login->0, form.ques_id).hover_time + form.time_elapsed_hover
        > u64::MAX {
        Some(EngineError::PersistenceFailure)
    } else {
        None
    }
}

/// The response that stands in the records once a submission is taken:
/// the times grow by what the submission brings; the answer and the text
/// are those of a full submission, and stay as they were after any other.
pub open spec fn response_after(prior: ResponseView, form: UserResponse) -> ResponseView {
    ResponseView {
        answer: if form.is_full() {
            form.ans_id
        } else {
            prior.answer
        },
        free_response: if form.is_full() {
            form.free_response->0@
        } else {
            prior.free_response
        },
        time_elapsed: (prior.time_elapsed + form.time_elapsed_question) as u64,
        hover_time: (prior.hover_time + form.time_elapsed_hover) as u64,
    }
}

/// The records after a submission: unchanged where it is refused; else the
/// response of the learner to the question is `response_after`, and the
/// learner is to answer the question after it next.
pub open spec fn records_after_response(
    pre: StoreView,
    bank: Seq<QuestionView>,
    login: Option<Seq<char>>,
    form: UserResponse,
) -> StoreView {
    if response_refusal(pre, bank, login, form) is Some {
        pre
    } else {
        StoreView {
            responses: pre.responses.insert(
                (login->0, form.ques_id),
                response_after(pre.response_of(login->0, form.ques_id), form),
            ),
            quiz_progress: pre.quiz_progress.insert(login->0, (form.ques_id + 1) as u8),
            ..pre
        }
    }
}

/// Takes a submission to the quiz.
///
/// A submission is refused, and nothing written, where no learner is logged
/// in, where the question does not exist, where a full submission names an
/// answer that the question does not offer, and where a time would grow past
/// what a record can hold. Otherwise the response is recorded as
/// `response_after` describes, and the learner moves on to the next
/// question, also after a submission that only adds to the times.
/// The result says whether the response was created or was there before.
pub fn record_response(
    store: &mut ProgressStore,
    bank: &QuestionBank,
    login: Option<&User>,
    form: &UserResponse,
) -> (r: Result<Upsert, EngineError>)
    requires
        old(store).wf(),
        bank.wf(),
    ensures
        final(store).wf(),
        final(store)@ == records_after_response(old(store)@, bank@, token_of(login), *form),
        match response_refusal(old(store)@, bank@, token_of(login), *form) {
            Some(e) => r == Err::<Upsert, EngineError>(e),
            None => r == Ok::<Upsert, EngineError>(
                if old(store)@.responses.dom().contains((login->0.token@, form.ques_id)) {
                    Upsert::Updated
                } else {
                    Upsert::Created
                },
            ),
        },
{
    let user = match login {
        Some(user) => user,
        None => { return Err(EngineError::AuthRequired); },
    };
    if form.ques_id >= bank.total() {
        return Err(EngineError::ValidationError);
    }
    let full = form.ans_id.is_some() && form.free_response.is_some();
    if full {
        let ans_id: u8 = match form.ans_id {
            Some(a) => a,
            None => 0,
        };
        if ans_id >= bank.choice_count(form.ques_id) {
            return Err(EngineError::ValidationError);
        }
    }
    let prior: Response = match store.response(&user.token, form.ques_id) {
        Some(found) => found.clone(),
        None => Response { answer: None, free_response: String::new(), time_elapsed: 0, hover_time: 0 },
    };
    assert(prior@ == old(store)@.response_of(user.token@, form.ques_id));
    let time_elapsed: u64 = match prior.time_elapsed.checked_add(form.time_elapsed_question) {
        Some(t) => t,
        None => { return Err(EngineError::PersistenceFailure); },
    };
    let hover_time: u64 = match prior.hover_time.checked_add(form.time_elapsed_hover) {
        Some(t) => t,
        None => { return Err(EngineError::PersistenceFailure); },
    };
    let response = match (form.ans_id, &form.free_response) {
        (Some(ans_id), Some(text)) => Response {
            answer: Some(ans_id),
            free_response: text.clone(),
            time_elapsed,
            hover_time,
        },
        _ => Response {
            answer: prior.answer,
            free_response: prior.free_response,
            time_elapsed,
            hover_time,
        },
    };
    assert(response@ == response_after(prior@, *form));
    let how = store.put_response(&user.token, form.ques_id, response);
    store.put_quiz_pointer(&user.token, form.ques_id + 1);
    Ok(how)
}

/// The number that stands for "no answer yet" where answers are listed.
pub const UNANSWERED: i16 = -2;

/// Where a learner stands in the quiz.
#[derive(Clone, Debug, PartialEq, Eq)]
pub struct Quiz {
    /// The number of questions.
    pub total: u8,
    /// The question that the learner is to answer next.
    pub current: u8,
    /// For each question, the answer that the learner gave, or `UNANSWERED`.
    pub saved_ans_vec: Vec<i16>,
    /// For each question, the text that the learner wrote, or nothing.
    pub saved_free_res: Vec<String>,
    /// Where the next question is found.
    pub url: String,
}

/// An answer as a number: the choice taken, or `UNANSWERED`.
pub open spec fn answer_code(answer: Option<u8>) -> i16 {
    match answer {
        Some(choice) => choice as i16,
        None => UNANSWERED,
    }
}

/// Where a question is found.
pub open spec fn question_url(qid: u8) -> Seq<char> {
    "/question/"@ + decimal(qid as nat) + "/"@
}

/// Whether `quiz` says where the learner `token` stands: it counts the
/// questions, names the one to answer next and where to find it, and lists
/// for every question the answer and the text that the records hold for
/// that learner, or `UNANSWERED` and no text where they hold none.
pub open spec fn is_summary(
    quiz: Quiz,
    pre: StoreView,
    bank: Seq<QuestionView>,
    token: Seq<char>,
) -> bool {
    &&& quiz.total == bank.len()
    &&& quiz.current == pre.pointer_of(token)
    &&& quiz.url@ == question_url(quiz.current)
    &&& quiz.saved_ans_vec@.len() == bank.len()
    &&& quiz.saved_free_res@.len() == bank.len()
    &&& forall|q: int|
        #![trigger quiz.saved_ans_vec@[q]]
        #![trigger quiz.saved_free_res@[q]]
        0 <= q < bank.len() ==> quiz.saved_ans_vec@[q] == answer_code(
            pre.response_of(token, q as u8).answer,
        ) && quiz.saved_free_res@[q]@ == pre.response_of(token, q as u8).free_response
}

/// Tells a learner where they stand in the quiz. Nothing is written.
/// Fails where no learner is logged in.
///
/// The answers are put together in one pass over the questions and one
/// over the recorded responses.
pub fn init_quiz(store: &ProgressStore, bank: &QuestionBank, login: Option<&User>) -> (r: Result<
    Quiz,
    EngineError,
>)
    requires
        store.wf(),
        bank.wf(),
    ensures
        match login {
            None => r == Err::<Quiz, EngineError>(EngineError::AuthRequired),
            Some(user) => r matches Ok(quiz) && is_summary(quiz, store@, bank@, user.token@),
        },
{
    let user = match login {
        Some(user) => user,
        None => { return Err(EngineError::AuthRequired); },
    };
    let total: u8 = bank.total();
    let current: u8 = match store.quiz_pointer(&user.token) {
        Some(pointer) => pointer,
        None => 0,
    };
    let mut saved_ans_vec: Vec<i16> = Vec::new();
    let mut saved_free_res: Vec<String> = Vec::new();
    let mut q: u8 = 0;
    while q < total
        invariant
            q <= total,
            saved_ans_vec@.len() == q,
            saved_free_res@.len() == q,
            forall|j: int| 0 <= j < q ==> #[trigger] saved_ans_vec@[j] == UNANSWERED,
            forall|j: int| 0 <= j < q ==> (#[trigger] saved_free_res@[j])@ == Seq::<char>::empty(),
        decreases total - q,
    {
        saved_ans_vec.push(UNANSWERED);
        saved_free_res.push(String::new());
        q += 1;
    }
    let ghost rows = store.response_rows();
    let ghost token = user.token@;
    proof {
        store.lemma_response_rows();
    }
    let count = store.response_count();
    let mut i: usize = 0;
    while i < count
        invariant
            i <= count,
            count == rows.len(),
            rows == store.response_rows(),
            token == user.token@,
            store.wf(),
            crate::store::assoc::keys_distinct(rows),
            saved_ans_vec@.len() == total,
            saved_free_res@.len() == total,
            forall|j: int|
                #![trigger rows[j]]
                0 <= j < i && rows[j].0.0 == token && rows[j].0.1 < total ==> saved_ans_vec@[rows[j].0.1 as int]
                    == answer_code(rows[j].1.answer) && saved_free_res@[rows[j].0.1 as int]@
                    == rows[j].1.free_response,
            forall|p: int|
                #![trigger saved_ans_vec@[p]]
                #![trigger saved_free_res@[p]]
                0 <= p < total ==> (saved_ans_vec@[p] == UNANSWERED && saved_free_res@[p]@
                    == Seq::<char>::empty()) || (exists|j: int|
                    0 <= j < i && (#[trigger] rows[j]).0 == (token, p as u8)),
        decreases count - i,
    {
        let (who, question, response) = store.response_at(i);
        if question < total && *who == user.token {
            let code: i16 = match response.answer {
                Some(choice) => choice as i16,
                None => UNANSWERED,
            };
            let ghost ans_before = saved_ans_vec@;
            let ghost text_before = saved_free_res@;
            saved_ans_vec[question as usize] = code;
            saved_free_res[question as usize] = response.free_response.clone();
            assert forall|j: int|
                #![trigger rows[j]]
                0 <= j < i + 1 && rows[j].0.0 == token && rows[j].0.1
                    < total implies saved_ans_vec@[rows[j].0.1 as int] == answer_code(
                rows[j].1.answer,
            ) && saved_free_res@[rows[j].0.1 as int]@ == rows[j].1.free_response by {
                if j < i {
                    assert(rows[j].0 != rows[i as int].0);
                    assert(rows[j].0.1 != question);
                    assert(saved_ans_vec@[rows[j].0.1 as int] == ans_before[rows[j].0.1 as int]);
                    assert(saved_free_res@[rows[j].0.1 as int] == text_before[rows[j].0.1 as int]);
                }
            }
            assert forall|p: int|
                #![trigger saved_ans_vec@[p]]
                #![trigger saved_free_res@[p]]
                0 <= p < total implies (saved_ans_vec@[p] == UNANSWERED && saved_free_res@[p]@
                == Seq::<char>::empty()) || (exists|j: int|
                0 <= j < i + 1 && (#[trigger] rows[j]).0 == (token, p as u8)) by {
                if p == question {
                    assert(rows[i as int].0 == (token, p as u8));
                } else {
                    assert(saved_ans_vec@[p] == ans_before[p]);
                    assert(saved_free_res@[p] == text_before[p]);
                    if !(ans_before[p] == UNANSWERED && text_before[p]@ == Seq::<char>::empty()) {
                        let j = choose|j: int| 0 <= j < i && (#[trigger] rows[j]).0 == (token, p as u8);
                        assert(0 <= j < i + 1 && rows[j].0 == (token, p as u8));
                    }
                }
            }
        }
        i += 1;
    }
    let mut url = String::from_str("/question/");
    url.append(decimal_text(current).as_str());
    url.append("/");
    let quiz = Quiz { total, current, saved_ans_vec, saved_free_res, url };
    proof {
        assert forall|p: int|
            #![trigger quiz.saved_ans_vec@[p]]
            #![trigger quiz.saved_free_res@[p]]
            0 <= p < bank@.len() implies quiz.saved_ans_vec@[p] == answer_code(
            store@.response_of(token, p as u8).answer,
        ) && quiz.saved_free_res@[p]@ == store@.response_of(token, p as u8).free_response by {
            let key = (token, p as u8);
            if store@.responses.dom().contains(key) {
                assert(has_key(rows, key));
                let j = choose|j: int| 0 <= j < rows.len() && (#[trigger] rows[j]).0 == key;
                assert(rows[j].0.0 == token && rows[j].0.1 < total);
                assert(store@.responses[rows[j].0] == rows[j].1);
            } else {
                if !(quiz.saved_ans_vec@[p] == UNANSWERED && quiz.saved_free_res@[p]@ == Seq::<
                    char,
                >::empty()) {
                    let j = choose|j: int| 0 <= j < i && (#[trigger] rows[j]).0 == key;
                    assert(store@.responses.dom().contains(rows[j].0));
                }
            }
        }
    }
    Ok(quiz)
}

/// What is known of a question: what it asks, the drawing it is about, the
/// answers it offers, in their order, and whether it asks for a text. Of a
/// question that does not exist nothing is known but the number asked for.
pub fn get_question(bank: &QuestionBank, ques_id: u8) -> (question: Question)
    ensures
        question@ == question_info(bank@, ques_id),
{
    match bank.question(ques_id) {
        Some(found) => found.clone(),
        None => {
            let unknown = Question {
                qid: ques_id,
                filename: String::new(),
                prompt: String::new(),
                choices: Vec::new(),
                contains_free_response: false,
            };
            assert(unknown@.choices =~= QuestionView::unknown(ques_id).choices);
            unknown
        },
    }
}

/// A submission that is refused writes nothing.
pub proof fn lemma_refused_response_writes_nothing(
    pre: StoreView,
    bank: Seq<QuestionView>,
    login: Option<Seq<char>>,
    form: UserResponse,
)
    requires
        response_refusal(pre, bank, login, form) is Some,
    ensures
        records_after_response(pre, bank, login, form) == pre,
{
}

/// A submission for a question that does not exist is refused with
/// `ValidationError`.
pub proof fn lemma_unknown_question_is_refused(
    pre: StoreView,
    bank: Seq<QuestionView>,
    token: Seq<char>,
    form: UserResponse,
)
    requires
        form.ques_id >= bank.len(),
    ensures
        response_refusal(pre, bank, Some(token), form) == Some(EngineError::ValidationError),
        records_after_response(pre, bank, Some(token), form) == pre,
{
}

/// A full submission whose answer is the number of answers that the
/// question offers, one past the last of them, or any number beyond, is
/// refused with `ValidationError`, and nothing is written.
pub proof fn lemma_answer_past_last_choice_is_refused(
    pre: StoreView,
    bank: Seq<QuestionView>,
    token: Seq<char>,
    form: UserResponse,
)
    requires
        form.ques_id < bank.len(),
        form.is_full(),
        form.ans_id->0 >= choices_of(bank, form.ques_id),
    ensures
        response_refusal(pre, bank, Some(token), form) == Some(EngineError::ValidationError),
        records_after_response(pre, bank, Some(token), form) == pre,
{
}

/// A submission that carries only times and no answer.
pub open spec fn times_only(question: u8, time: u64, hover: u64) -> UserResponse {
    UserResponse {
        ques_id: question,
        ans_id: None,
        free_response: None,
        time_elapsed_question: time,
        time_elapsed_hover: hover,
    }
}

/// Two submissions of times alone, one after the other, leave the answer
/// and the text as they were, unset where they were unset, and add both
/// times to what was there: for a learner new to the question the times
/// are the sums of the two. The learner is moved on to the next question
/// all the same.
pub proof fn lemma_partial_updates_add_up(
    pre: StoreView,
    bank: Seq<QuestionView>,
    token: Seq<char>,
    question: u8,
    t1: u64,
    h1: u64,
    t2: u64,
    h2: u64,
)
    requires
        bank_valid(bank),
        question < bank.len(),
        pre.response_of(token, question).time_elapsed + t1 + t2 <= u64::MAX,
        pre.response_of(token, question).hover_time + h1 + h2 <= u64::MAX,
    ensures
        ({
            let first = times_only(question, t1, h1);
            let second = times_only(question, t2, h2);
            let mid = records_after_response(pre, bank, Some(token), first);
            let end = records_after_response(mid, bank, Some(token), second);
            let prior = pre.response_of(token, question);
            &&& response_refusal(pre, bank, Some(token), first) is None
            &&& response_refusal(mid, bank, Some(token), second) is None
            &&& end.responses.dom().contains((token, question))
            &&& end.response_of(token, question).answer == prior.answer
            &&& end.response_of(token, question).free_response == prior.free_response
            &&& end.response_of(token, question).time_elapsed == prior.time_elapsed + t1 + t2
            &&& end.response_of(token, question).hover_time == prior.hover_time + h1 + h2
            &&& !pre.responses.dom().contains((token, question)) ==> {
                &&& end.response_of(token, question).answer is None
                &&& end.response_of(token, question).time_elapsed == t1 + t2
                &&& end.response_of(token, question).hover_time == h1 + h2
            }
            &&& end.pointer_of(token) == question + 1
        }),
{
}

/// A full submission that is taken shows in the summary: whatever says
/// where the learner stands afterwards lists, at the question, the answer
/// and the text of the submission.
pub proof fn lemma_full_update_is_reported(
    pre: StoreView,
    bank: Seq<QuestionView>,
    token: Seq<char>,
    form: UserResponse,
    quiz: Quiz,
)
    requires
        form.is_full(),
        response_refusal(pre, bank, Some(token), form) is None,
        is_summary(quiz, records_after_response(pre, bank, Some(token), form), bank, token),
    ensures
        quiz.saved_ans_vec@[form.ques_id as int] == form.ans_id->0,
        quiz.saved_free_res@[form.ques_id as int]@ == form.free_response->0@,
        quiz.current == form.ques_id + 1,
{
    let post = records_after_response(pre, bank, Some(token), form);
    assert(post.response_of(token, form.ques_id as int as u8) == response_after(
        pre.response_of(token, form.ques_id),
        form,
    ));
}

/// The times of a response never go down: a submission that is taken adds
/// to them, and one that is refused leaves them as they are.
pub proof fn lemma_times_never_decrease(
    pre: StoreView,
    bank: Seq<QuestionView>,
    login: Option<Seq<char>>,
    form: UserResponse,
    token: Seq<char>,
    question: u8,
)
    ensures
        ({
            let post = records_after_response(pre, bank, login, form);
            &&& post.response_of(token, question).time_elapsed >= pre.response_of(
                token,
                question,
            ).time_elapsed
            &&& post.response_of(token, question).hover_time >= pre.response_of(
                token,
                question,
            ).hover_time
        }),
{
}

/// A submission touches the response of one learner to one question and
/// that learner's place in the quiz: no other record changes.
pub proof fn lemma_response_touches_two_keys(
    pre: StoreView,
    bank: Seq<QuestionView>,
    login: Option<Seq<char>>,
    form: UserResponse,
)
    ensures
        ({
            let post = records_after_response(pre, bank, login, form);
            &&& forall|k: (Seq<char>, u8)|
                login != Some(k.0) || k.1 != form.ques_id ==> post.responses.dom().contains(k)
                    == pre.responses.dom().contains(k) && post.responses[k] == pre.responses[k]
            &&& forall|t: Seq<char>|
                login != Some(t) ==> post.quiz_progress.dom().contains(t)
                    == pre.quiz_progress.dom().contains(t) && post.quiz_progress[t]
                    == pre.quiz_progress[t]
            &&& post.learners == pre.learners
            &&& post.scores == pre.scores
            &&& post.edit_states == pre.edit_states
            &&& post.hover_counters == pre.hover_counters
            &&& post.page_time_log == pre.page_time_log
        }),
{
}

} // verus!
