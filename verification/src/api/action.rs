//! What a learner does on a page, as far as it is counted: hovering over a
//! drawing, and leaving a page.

use vstd::prelude::*;
use crate::api::accounts::{token_of, User};
use crate::error::EngineError;
use crate::store::records::PageVisitView;
use crate::store::{lemma_times_on_page_push, ProgressStore, StoreView};

verus! {

/// One hover event: the drawing and the item in it that the pointer rested on.
#[allow(non_camel_case_types)]
#[derive(Clone, Debug, PartialEq, Eq)]
pub struct hover_info {
    pub svg_name: String,
    pub hover_item: String,
}

/// One page visit: the page that was left and the milliseconds spent on it.
#[allow(non_camel_case_types)]
#[derive(Clone, Debug, PartialEq, Eq)]
pub struct switch_info {
    pub directory: String,
    pub time_elpse: i64,
}

/// Why a hover event is not counted, if it is not: no learner is logged in,
/// or the counter stands at the largest number that it can hold.
pub open spec fn hover_refusal(pre: StoreView, login: Option<Seq<char>>, info: hover_info) -> Option<
    EngineError,
> {
    if login is None {
        Some(EngineError::AuthRequired)
    } else if pre.hovers_of(login->0, info.svg_name@, info.hover_item@) == u64::MAX {
        Some(EngineError::PersistenceFailure)
    } else {
        None
    }
}

/// The records after a hover event: unchanged where it is not counted; else
/// the counter of the learner for the item is one more than it was, where a
/// counter that was not there counts as 0.
pub open spec fn records_after_hover(
    pre: StoreView,
    login: Option<Seq<char>>,
    info: hover_info,
) -> StoreView {
    if hover_refusal(pre, login, info) is Some {
        pre
    } else {
        StoreView {
            hover_counters: pre.hover_counters.insert(
                (login->0, info.svg_name@, info.hover_item@),
                (pre.hovers_of(login->0, info.svg_name@, info.hover_item@) + 1) as u64,
            ),
            ..pre
        }
    }
}

/// Counts one hover event, and hands back what the counter stands at.
///
/// The counter of the learner for the item of the drawing goes up by one; a
/// counter that is not there yet is created, and stands at 1. The event is
/// not counted, and nothing written, where no learner is logged in and where
/// the counter cannot go higher.
pub fn user_hover(store: &mut ProgressStore, login: Option<&User>, info: &hover_info) -> (r: Result<
    u64,
    EngineError,
>)
    requires
        old(store).wf(),
    ensures
        final(store).wf(),
        final(store)@ == records_after_hover(old(store)@, token_of(login), *info),
        match hover_refusal(old(store)@, token_of(login), *info) {
            Some(e) => r == Err::<u64, EngineError>(e),
            None => r == Ok::<u64, EngineError>(
                (old(store)@.hovers_of(login->0.token@, info.svg_name@, info.hover_item@)
                    + 1) as u64,
            ),
        },
{
    let user = match login {
        Some(user) => user,
        None => { return Err(EngineError::AuthRequired); },
    };
    let prior: u64 = match store.hover_count(&user.token, &info.svg_name, &info.hover_item) {
        Some(count) => count,
        None => 0,
    };
    let count: u64 = match prior.checked_add(1) {
        Some(count) => count,
        None => { return Err(EngineError::PersistenceFailure); },
    };
    store.put_hover_count(&user.token, &info.svg_name, &info.hover_item, count);
    Ok(count)
}

/// The records after a page visit: unchanged where no learner is logged in;
/// else the log is one row longer, and that row is the visit. No row that
/// was there has changed: the times of two visits to one page stand side
/// by side and are not added up.
pub open spec fn records_after_switch(
    pre: StoreView,
    login: Option<Seq<char>>,
    info: switch_info,
) -> StoreView {
    match login {
        Some(token) => StoreView {
            page_time_log: pre.page_time_log.push(
                PageVisitView { token, page: info.directory@, elapsed: info.time_elpse },
            ),
            ..pre
        },
        None => pre,
    }
}

/// Logs one page visit. Fails, and writes nothing, where no learner is
/// logged in.
pub fn user_switch(store: &mut ProgressStore, login: Option<&User>, info: &switch_info) -> (r:
    Result<(), EngineError>)
    requires
        old(store).wf(),
    ensures
        final(store).wf(),
        final(store)@ == records_after_switch(old(store)@, token_of(login), *info),
        r == (if login is None {
            Err::<(), EngineError>(EngineError::AuthRequired)
        } else {
            Ok::<(), EngineError>(())
        }),
{
    let user = match login {
        Some(user) => user,
        None => { return Err(EngineError::AuthRequired); },
    };
    store.log_page_time(&user.token, &info.directory, info.time_elpse);
    Ok(())
}

/// The records after `n` hover events of one learner on one item.
pub open spec fn records_after_hovers(
    pre: StoreView,
    login: Option<Seq<char>>,
    info: hover_info,
    n: nat,
) -> StoreView
    decreases n,
{
    if n == 0 {
        pre
    } else {
        records_after_hover(records_after_hovers(pre, login, info, (n - 1) as nat), login, info)
    }
}

/// Every hover event that is counted moves the counter up by exactly one:
/// after `n` events on an item the counter of the learner stands `n` above
/// where it stood, so at `n` where there was none, and at 1 after the first
/// event on a new item. No other counter moves.
pub proof fn lemma_hovers_count_up(pre: StoreView, token: Seq<char>, info: hover_info, n: nat)
    requires
        pre.hovers_of(token, info.svg_name@, info.hover_item@) + n <= u64::MAX,
    ensures
        ({
            let post = records_after_hovers(pre, Some(token), info, n);
            &&& post.hovers_of(token, info.svg_name@, info.hover_item@) == pre.hovers_of(
                token,
                info.svg_name@,
                info.hover_item@,
            ) + n
            &&& n > 0 ==> post.hover_counters.dom().contains(
                (token, info.svg_name@, info.hover_item@),
            )
            &&& forall|k: (Seq<char>, Seq<char>, Seq<char>)|
                #![trigger post.hover_counters.dom().contains(k)]
                #![trigger post.hover_counters[k]]
                k != (token, info.svg_name@, info.hover_item@) ==> post.hover_counters.dom().contains(
                    k,
                ) == pre.hover_counters.dom().contains(k) && post.hover_counters[k]
                    == pre.hover_counters[k]
        }),
    decreases n,
{
    if n > 0 {
        lemma_hovers_count_up(pre, token, info, (n - 1) as nat);
        let mid = records_after_hovers(pre, Some(token), info, (n - 1) as nat);
        let post = records_after_hovers(pre, Some(token), info, n);
        assert(post == records_after_hover(mid, Some(token), info));
        assert forall|k: (Seq<char>, Seq<char>, Seq<char>)|
            #![trigger post.hover_counters.dom().contains(k)]
            #![trigger post.hover_counters[k]]
            k != (token, info.svg_name@, info.hover_item@) implies post.hover_counters.dom().contains(
            k,
        ) == pre.hover_counters.dom().contains(k) && post.hover_counters[k]
            == pre.hover_counters[k] by {
            assert(mid.hover_counters[k] == pre.hover_counters[k]);
            assert(mid.hover_counters.dom().contains(k) == pre.hover_counters.dom().contains(k));
        }
    }
}

/// Two visits to a page make two rows of the log, the earlier first, each
/// with its own time: the times of the learner on that page are what they
/// were, then the first time, then the second. They are not added up.
pub proof fn lemma_page_visits_stand_apart(
    pre: StoreView,
    token: Seq<char>,
    first: switch_info,
    second: switch_info,
)
    requires
        first.directory@ == second.directory@,
    ensures
        ({
            let mid = records_after_switch(pre, Some(token), first);
            let end = records_after_switch(mid, Some(token), second);
            &&& end.page_time_log.len() == pre.page_time_log.len() + 2
            &&& end.page_time_log == pre.page_time_log.push(
                PageVisitView { token, page: first.directory@, elapsed: first.time_elpse },
            ).push(PageVisitView { token, page: first.directory@, elapsed: second.time_elpse })
            &&& end.page_times_of(token, first.directory@) == pre.page_times_of(
                token,
                first.directory@,
            ).push(first.time_elpse).push(second.time_elpse)
        }),
{
    let mid = records_after_switch(pre, Some(token), first);
    let page = first.directory@;
    lemma_times_on_page_push(
        pre.page_time_log,
        PageVisitView { token, page, elapsed: first.time_elpse },
        token,
        page,
    );
    lemma_times_on_page_push(
        mid.page_time_log,
        PageVisitView { token, page, elapsed: second.time_elpse },
        token,
        page,
    );
}

/// The log only grows: a page visit leaves every row that was there in its
/// place and unchanged.
pub proof fn lemma_page_log_only_grows(pre: StoreView, login: Option<Seq<char>>, info: switch_info)
    ensures
        ({
            let post = records_after_switch(pre, login, info);
            &&& post.page_time_log.len() >= pre.page_time_log.len()
            &&& forall|i: int|
                0 <= i < pre.page_time_log.len() ==> #[trigger] post.page_time_log[i]
                    == pre.page_time_log[i]
        }),
{
}

} // verus!
