//! The assignment: grading a snippet, starting over, and fetching what a
//! learner saved.

use vstd::prelude::*;
use crate::api::accounts::{token_of, User};
use crate::config::{is_problem, problem_in_range, Config, NUM_PROBLEMS};
use crate::error::EngineError;
use crate::sandbox::{ExecutionResult, SandboxJob, SandboxOutcome};
use crate::store::{ProgressStore, StoreView};

verus! {

/// A snippet handed in for grading: the program to run, the problem that it
/// is an answer to, and all that the learner has in their editor.
#[derive(Clone, Debug, PartialEq, Eq)]
pub struct Submission {
    pub to_grade: String,
    pub problem: i32,
    pub edit_state: String,
}

/// What the learner is told about a graded snippet.
#[derive(Clone, Debug, PartialEq, Eq)]
pub struct SubmissionResult {
    pub correct: bool,
    pub output: String,
}

/// What a learner has saved: their snippets, and their score on each
/// problem, in the order of the problems.
#[derive(Clone, Debug, PartialEq, Eq)]
pub struct EditState {
    pub answers: String,
    pub scores: Vec<i32>,
}

/// Why a snippet is not run at all, if it is not: no learner is logged in,
/// or the problem does not exist.
pub open spec fn check_refusal(login: Option<Seq<char>>, form: Submission) -> Option<EngineError> {
    if login is None {
        Some(EngineError::AuthRequired)
    } else if !is_problem(form.problem) {
        Some(EngineError::ValidationError)
    } else {
        None
    }
}

/// Why grading fails, if it does: the snippet is not run at all, or the
/// sandbox did not run it to its end.
pub open spec fn check_failure(
    login: Option<Seq<char>>,
    form: Submission,
    outcome: SandboxOutcome,
) -> Option<EngineError> {
    if check_refusal(login, form) is Some {
        check_refusal(login, form)
    } else if outcome.is_system_failure() {
        Some(EngineError::SandboxSystemFailure)
    } else {
        None
    }
}

/// The records after grading: unchanged where grading fails; else the score
/// of the learner on the problem is what the run earned, and their saved
/// snippets are those of the submission. Whatever was recorded under these
/// two keys is gone.
pub open spec fn records_after_check(
    pre: StoreView,
    login: Option<Seq<char>>,
    form: Submission,
    outcome: SandboxOutcome,
) -> StoreView {
    match outcome {
        SandboxOutcome::Finished(run) if check_failure(login, form, outcome) is None => StoreView {
            scores: pre.scores.insert((login->0, form.problem), run.earned()),
            edit_states: pre.edit_states.insert(login->0, form.edit_state@),
            ..pre
        },
        _ => pre,
    }
}

/// Decides whether a snippet is to be run, and says how.
///
/// This comes before the run, so that nothing is run for a request that
/// would be refused anyway.
pub fn prepare_check(config: &Config, login: Option<&User>, form: &Submission) -> (r: Result<
    SandboxJob,
    EngineError,
>)
    ensures
        match check_refusal(token_of(login), *form) {
            Some(e) => r == Err::<SandboxJob, EngineError>(e),
            None => r matches Ok(job) && job.program@ == "docker"@ && job.args_view()
                == crate::sandbox::job_args(form.to_grade@) && job.timeout_ms == config.timeout(),
        },
{
    if login.is_none() {
        return Err(EngineError::AuthRequired);
    }
    if !problem_in_range(form.problem) {
        return Err(EngineError::ValidationError);
    }
    Ok(SandboxJob::for_snippet(&form.to_grade, config.timeout_ms()))
}

/// Grades a snippet from what its run gave.
///
/// Grading fails, and nothing is written, where no learner is logged in,
/// where the problem does not exist, and where the sandbox did not run the
/// snippet to its end: it could not start, or the run was stopped for
/// taking too long. Otherwise the run is judged by its exit code alone: the
/// learner's score on the problem becomes 1 for a run that succeeded and 0
/// for any other, and their saved snippets become those of the submission.
/// The learner is told whether the run succeeded, and is shown its output,
/// or its errors where it did not succeed.
pub fn check(
    store: &mut ProgressStore,
    login: Option<&User>,
    form: &Submission,
    outcome: &SandboxOutcome,
) -> (r: Result<SubmissionResult, EngineError>)
    requires
        old(store).wf(),
    ensures
        final(store).wf(),
        final(store)@ == records_after_check(old(store)@, token_of(login), *form, *outcome),
        match check_failure(token_of(login), *form, *outcome) {
            Some(e) => r == Err::<SubmissionResult, EngineError>(e),
            None => r matches Ok(told) && outcome matches SandboxOutcome::Finished(run)
                && told.correct == run.succeeded() && told.output@ == run.diagnostic_text(),
        },
{
    let user = match login {
        Some(user) => user,
        None => { return Err(EngineError::AuthRequired); },
    };
    if !problem_in_range(form.problem) {
        return Err(EngineError::ValidationError);
    }
    let run = match outcome {
        SandboxOutcome::Finished(run) => run,
        _ => { return Err(EngineError::SandboxSystemFailure); },
    };
    let correct = run.is_success();
    store.put_score(&user.token, form.problem, run.score())?;
    store.put_edit_state(&user.token, form.edit_state.clone());
    Ok(SubmissionResult { correct, output: run.diagnostic().clone() })
}

/// The scores once a learner has started over: 0 on every problem for that
/// learner, and what they were for everyone else.
pub open spec fn scores_after_reset(scores: Map<(Seq<char>, i32), i32>, token: Seq<char>) -> Map<
    (Seq<char>, i32),
    i32,
> {
    Map::new(
        |k: (Seq<char>, i32)| scores.dom().contains(k) || (k.0 == token && is_problem(k.1)),
        |k: (Seq<char>, i32)|
            if k.0 == token && is_problem(k.1) {
                0i32
            } else {
                scores[k]
            },
    )
}

/// The records after a learner has started over: unchanged where no learner
/// is logged in; else their scores are `scores_after_reset` and their saved
/// snippets are the template.
pub open spec fn records_after_reset(
    pre: StoreView,
    template: Seq<char>,
    login: Option<Seq<char>>,
) -> StoreView {
    match login {
        Some(token) => StoreView {
            scores: scores_after_reset(pre.scores, token),
            edit_states: pre.edit_states.insert(token, template),
            ..pre
        },
        None => pre,
    }
}

/// The scores while a learner starts over, when the problems below `upto`
/// are done.
spec fn scores_reset_upto(scores: Map<(Seq<char>, i32), i32>, token: Seq<char>, upto: int) -> Map<
    (Seq<char>, i32),
    i32,
> {
    Map::new(
        |k: (Seq<char>, i32)| scores.dom().contains(k) || (k.0 == token && 0 <= k.1 < upto),
        |k: (Seq<char>, i32)|
            if k.0 == token && 0 <= k.1 < upto {
                0i32
            } else {
                scores[k]
            },
    )
}

/// Lets a learner start over: their score on every problem becomes 0, and
/// their saved snippets become the template. Fails, and writes nothing,
/// where no learner is logged in.
pub fn reset(store: &mut ProgressStore, config: &Config, login: Option<&User>) -> (r: Result<
    (),
    EngineError,
>)
    requires
        old(store).wf(),
    ensures
        final(store).wf(),
        final(store)@ == records_after_reset(old(store)@, config.template(), token_of(login)),
        r == (if login is None {
            Err::<(), EngineError>(EngineError::AuthRequired)
        } else {
            Ok::<(), EngineError>(())
        }),
{
    let user = match login {
        Some(user) => user,
        None => { return Err(EngineError::AuthRequired); },
    };
    let mut problem: i32 = 0;
    assert(store@.scores =~= scores_reset_upto(old(store)@.scores, user.token@, 0));
    while problem < NUM_PROBLEMS
        invariant
            0 <= problem <= NUM_PROBLEMS,
            store.wf(),
            store@ == (StoreView {
                scores: scores_reset_upto(old(store)@.scores, user.token@, problem as int),
                ..old(store)@
            }),
        decreases NUM_PROBLEMS - problem,
    {
        store.put_score(&user.token, problem, 0)?;
        assert(store@.scores =~= scores_reset_upto(
            old(store)@.scores,
            user.token@,
            problem as int + 1,
        ));
        problem += 1;
    }
    assert(store@.scores =~= scores_after_reset(old(store)@.scores, user.token@));
    store.put_edit_state(&user.token, config.default_template().clone());
    Ok(())
}

/// The scores once a learner has fetched what they saved: a score of 0
/// stands wherever that learner had none, and nothing else has changed.
pub open spec fn scores_after_fetch(scores: Map<(Seq<char>, i32), i32>, token: Seq<char>) -> Map<
    (Seq<char>, i32),
    i32,
> {
    Map::new(
        |k: (Seq<char>, i32)| scores.dom().contains(k) || (k.0 == token && is_problem(k.1)),
        |k: (Seq<char>, i32)|
            if scores.dom().contains(k) {
                scores[k]
            } else {
                0i32
            },
    )
}

/// The snippets that a learner has saved; the template where they have
/// saved none.
pub open spec fn saved_snippets(pre: StoreView, template: Seq<char>, token: Seq<char>) -> Seq<char> {
    if pre.edit_states.dom().contains(token) {
        pre.edit_states[token]
    } else {
        template
    }
}

/// The records after a learner has fetched what they saved: unchanged where
/// no learner is logged in; else what was missing for that learner is
/// there: the template as their saved snippets, and a score of 0 on each
/// problem without one.
pub open spec fn records_after_fetch(
    pre: StoreView,
    template: Seq<char>,
    login: Option<Seq<char>>,
) -> StoreView {
    match login {
        Some(token) => StoreView {
            scores: scores_after_fetch(pre.scores, token),
            edit_states: pre.edit_states.insert(token, saved_snippets(pre, template, token)),
            ..pre
        },
        None => pre,
    }
}

/// The scores while a learner fetches what they saved, when the problems
/// below `upto` are done.
spec fn scores_fetched_upto(scores: Map<(Seq<char>, i32), i32>, token: Seq<char>, upto: int) -> Map<
    (Seq<char>, i32),
    i32,
> {
    Map::new(
        |k: (Seq<char>, i32)| scores.dom().contains(k) || (k.0 == token && 0 <= k.1 < upto),
        |k: (Seq<char>, i32)|
            if scores.dom().contains(k) {
                scores[k]
            } else {
                0i32
            },
    )
}

/// Fetches what a learner has saved: their snippets, and their score on
/// every problem.
///
/// A learner who has saved no snippets gets the template, and a score of 0
/// on each problem without a score. What is handed out in this way is also
/// recorded, so that it is there from now on. Fails, and writes nothing,
/// where no learner is logged in.
pub fn get_edit_state(store: &mut ProgressStore, config: &Config, login: Option<&User>) -> (r:
    Result<EditState, EngineError>)
    requires
        old(store).wf(),
    ensures
        final(store).wf(),
        final(store)@ == records_after_fetch(old(store)@, config.template(), token_of(login)),
        match login {
            None => r == Err::<EditState, EngineError>(EngineError::AuthRequired),
            Some(user) => r matches Ok(state) && state.answers@ == saved_snippets(
                old(store)@,
                config.template(),
                user.token@,
            ) && state.scores@.len() == NUM_PROBLEMS && forall|p: int|
                0 <= p < NUM_PROBLEMS ==> #[trigger] state.scores@[p] == old(store)@.score_of(
                    user.token@,
                    p as i32,
                ),
        },
{
    let user = match login {
        Some(user) => user,
        None => { return Err(EngineError::AuthRequired); },
    };
    let answers: String = match store.edit_state(&user.token) {
        Some(saved) => saved.clone(),
        None => {
            let seed = config.default_template().clone();
            store.put_edit_state(&user.token, seed.clone());
            seed
        },
    };
    assert(store@.edit_states =~= old(store)@.edit_states.insert(
        user.token@,
        saved_snippets(old(store)@, config.template(), user.token@),
    ));
    let mut scores: Vec<i32> = Vec::new();
    let mut problem: i32 = 0;
    assert(store@.scores =~= scores_fetched_upto(old(store)@.scores, user.token@, 0));
    while problem < NUM_PROBLEMS
        invariant
            0 <= problem <= NUM_PROBLEMS,
            store.wf(),
            store@ == (StoreView {
                scores: scores_fetched_upto(old(store)@.scores, user.token@, problem as int),
                edit_states: old(store)@.edit_states.insert(
                    user.token@,
                    saved_snippets(old(store)@, config.template(), user.token@),
                ),
                ..old(store)@
            }),
            scores@.len() == problem,
            forall|p: int|
                0 <= p < problem ==> #[trigger] scores@[p] == old(store)@.score_of(
                    user.token@,
                    p as i32,
                ),
        decreases NUM_PROBLEMS - problem,
    {
        match store.score(&user.token, problem) {
            Some(score) => {
                scores.push(score);
            },
            None => {
                scores.push(0);
                store.put_score(&user.token, problem, 0)?;
            },
        }
        assert(store@.scores =~= scores_fetched_upto(
            old(store)@.scores,
            user.token@,
            problem as int + 1,
        ));
        problem += 1;
    }
    assert(store@.scores =~= scores_after_fetch(old(store)@.scores, user.token@));
    Ok(EditState { answers, scores })
}

/// A snippet for a problem that does not exist is refused, whatever its run
/// gave, and the records stay as they were: no score and no saved snippets
/// are written.
pub proof fn lemma_unknown_problem_is_refused(
    pre: StoreView,
    token: Seq<char>,
    form: Submission,
    outcome: SandboxOutcome,
)
    requires
        !is_problem(form.problem),
    ensures
        check_failure(Some(token), form, outcome) == Some(EngineError::ValidationError),
        records_after_check(pre, Some(token), form, outcome) == pre,
{
}

/// Grading that fails writes nothing, whoever asks and whatever the reason.
pub proof fn lemma_failed_check_writes_nothing(
    pre: StoreView,
    login: Option<Seq<char>>,
    form: Submission,
    outcome: SandboxOutcome,
)
    requires
        check_failure(login, form, outcome) is Some,
    ensures
        records_after_check(pre, login, form, outcome) == pre,
{
}

/// A run that the sandbox did not bring to its end, because it could not
/// start or was stopped for taking too long, fails the grading with
/// `SandboxSystemFailure`, and no score is recorded for it.
pub proof fn lemma_sandbox_failure_scores_nothing(
    pre: StoreView,
    token: Seq<char>,
    form: Submission,
    outcome: SandboxOutcome,
)
    requires
        is_problem(form.problem),
        outcome.is_system_failure(),
    ensures
        check_failure(Some(token), form, outcome) == Some(EngineError::SandboxSystemFailure),
        records_after_check(pre, Some(token), form, outcome).scores == pre.scores,
        records_after_check(pre, Some(token), form, outcome) == pre,
{
}

/// Handing in a snippet that fails twice leaves the score at 0 both times,
/// and the saved snippets are those of the second submission: the last
/// write wins.
pub proof fn lemma_failing_check_twice(
    pre: StoreView,
    token: Seq<char>,
    first: Submission,
    second: Submission,
    run1: ExecutionResult,
    run2: ExecutionResult,
)
    requires
        is_problem(first.problem),
        second.problem == first.problem,
        !run1.succeeded(),
        !run2.succeeded(),
    ensures
        ({
            let mid = records_after_check(pre, Some(token), first, SandboxOutcome::Finished(run1));
            let end = records_after_check(mid, Some(token), second, SandboxOutcome::Finished(run2));
            &&& mid.scores.dom().contains((token, first.problem))
            &&& mid.scores[(token, first.problem)] == 0
            &&& mid.edit_states[token] == first.edit_state@
            &&& end.scores.dom().contains((token, first.problem))
            &&& end.scores[(token, first.problem)] == 0
            &&& end.edit_states.dom().contains(token)
            &&& end.edit_states[token] == second.edit_state@
        }),
{
}

/// Grading touches one score and one learner's saved snippets: every other
/// score, everyone else's snippets and all other records stay as they were.
pub proof fn lemma_check_touches_two_keys(
    pre: StoreView,
    login: Option<Seq<char>>,
    form: Submission,
    outcome: SandboxOutcome,
)
    ensures
        ({
            let post = records_after_check(pre, login, form, outcome);
            &&& forall|k: (Seq<char>, i32)|
                login != Some(k.0) || k.1 != form.problem ==> post.scores.dom().contains(k)
                    == pre.scores.dom().contains(k) && post.scores[k] == pre.scores[k]
            &&& forall|t: Seq<char>|
                login != Some(t) ==> post.edit_states.dom().contains(t)
                    == pre.edit_states.dom().contains(t) && post.edit_states[t]
                    == pre.edit_states[t]
            &&& post.learners == pre.learners
            &&& post.responses == pre.responses
            &&& post.quiz_progress == pre.quiz_progress
            &&& post.hover_counters == pre.hover_counters
            &&& post.page_time_log == pre.page_time_log
            &&& pre.scores_valid() ==> post.scores_valid()
        }),
{
}

/// After a learner has started over, their score on every problem is 0 and
/// their saved snippets are the template. Everyone else's scores and
/// snippets are what they were.
pub proof fn lemma_reset_clears(pre: StoreView, template: Seq<char>, token: Seq<char>)
    requires
        pre.scores_valid(),
    ensures
        ({
            let post = records_after_reset(pre, template, Some(token));
            &&& forall|p: i32| #[trigger] post.score_of(token, p) == 0
            &&& forall|p: i32|
                is_problem(p) ==> #[trigger] post.scores.dom().contains((token, p))
                    && post.scores[(token, p)] == 0
            &&& post.edit_states.dom().contains(token)
            &&& post.edit_states[token] == template
            &&& post.scores_valid()
            &&& forall|t: Seq<char>, p: i32|
                t != token ==> #[trigger] post.score_of(t, p) == pre.score_of(t, p)
            &&& forall|t: Seq<char>|
                t != token ==> post.edit_states.dom().contains(t) == pre.edit_states.dom().contains(
                    t,
                ) && #[trigger] post.edit_states[t] == pre.edit_states[t]
        }),
{
}

} // verus!
