//! Who a request comes from, and how a learner comes to be known: logging
//! in, logging out and registering.

use vstd::prelude::*;
use vstd::string::{StrSliceExecFns, StringExecFns};
use crate::error::EngineError;
use crate::route::fp_web::{Context, Location, PageFile, Reply};
use crate::store::{ProgressStore, StoreView};
use crate::text::chars_of;

verus! {

/// A learner, known by the token that they registered with.
#[derive(Clone, Debug, PartialEq, Eq)]
pub struct User {
    pub token: String,
}

/// The token of the learner that a request comes from, if it comes from one.
pub open spec fn token_of(login: Option<&User>) -> Option<Seq<char>> {
    match login {
        Some(user) => Some(user.token@),
        None => None,
    }
}

/// Whether a character is white space, as Unicode defines it.
pub uninterp spec fn is_white_space(c: char) -> bool;

/// Calls `char::is_whitespace`, which says whether a character has the
/// Unicode property White_Space. The contract gives that answer its name,
/// `is_white_space`, and claims nothing else of it.
#[verifier::external_body]
fn is_whitespace(c: char) -> (b: bool)
    ensures
        b == is_white_space(c),
{
    c.is_whitespace()
}

/// A text without the white space at its start and at its end.
pub open spec fn trimmed(text: Seq<char>) -> Seq<char>
    decreases text.len(),
{
    if text.len() > 0 && is_white_space(text.first()) {
        trimmed(text.drop_first())
    } else if text.len() > 0 && is_white_space(text.last()) {
        trimmed(text.drop_last())
    } else {
        text
    }
}

/// Takes the white space off the start and the end of a text.
pub fn trim(text: &str) -> (inner: &str)
    ensures
        inner@ == trimmed(text@),
{
    let chars = chars_of(text);
    let n = chars.len();
    let mut from: usize = 0;
    assert(text@.subrange(0, n as int) =~= text@);
    while from < n && is_whitespace(chars[from])
        invariant
            from <= n,
            n == text@.len(),
            chars@ == text@,
            trimmed(text@) == trimmed(text@.subrange(from as int, n as int)),
        decreases n - from,
    {
        assert(text@.subrange(from as int, n as int).drop_first() =~= text@.subrange(
            from + 1,
            n as int,
        ));
        from += 1;
    }
    let mut to: usize = n;
    while from < to && is_whitespace(chars[to - 1])
        invariant
            from <= to <= n,
            n == text@.len(),
            chars@ == text@,
            from < n ==> !is_white_space(text@[from as int]),
            trimmed(text@) == trimmed(text@.subrange(from as int, to as int)),
        decreases to - from,
    {
        assert(text@.subrange(from as int, to as int).drop_last() =~= text@.subrange(
            from as int,
            to - 1,
        ));
        to -= 1;
    }
    text.substring_char(from, to)
}

/// How a request to log in ended well.
#[derive(Clone, Copy, Debug, PartialEq, Eq, Structural)]
pub enum Login {
    /// A learner was logged in already: nothing changes.
    AlreadyIn,
    /// The session now belongs to the learner with the token of the form.
    Started,
}

impl Login {
    /// Where the browser is sent after the request.
    pub open spec fn location_of(self) -> Location {
        match self {
            Login::AlreadyIn => Location::Home,
            Login::Started => Location::Tutorial,
        }
    }

    /// Where the browser is sent after the request.
    pub fn location(&self) -> (to: Location)
        ensures
            to == self.location_of(),
    {
        match self {
            Login::AlreadyIn => Location::Home,
            Login::Started => Location::Tutorial,
        }
    }
}

/// The page to log in on: the form, or the front page for a learner who is
/// logged in already.
pub fn render_login(login: Option<&User>) -> (reply: Reply)
    ensures
        reply == (if login is Some {
            Reply::Render { status: 302, context: Context { logged_in: 1 } }
        } else {
            Reply::File(PageFile::Login)
        }),
{
    if login.is_some() {
        Reply::Render { status: 302, context: Context { logged_in: 1 } }
    } else {
        Reply::File(PageFile::Login)
    }
}

/// Logs a learner in.
///
/// A request from a learner who is logged in changes nothing. Otherwise the
/// token of the form must be that of a registered learner: then the session
/// starts for that learner, and else the request fails with `AuthRequired`.
/// Nothing is written.
pub fn user_login(store: &ProgressStore, login: Option<&User>, form: &User) -> (r: Result<
    Login,
    EngineError,
>)
    requires
        store.wf(),
    ensures
        r == (if login is Some {
            Ok::<Login, EngineError>(Login::AlreadyIn)
        } else if store@.learners.contains(form.token@) {
            Ok::<Login, EngineError>(Login::Started)
        } else {
            Err::<Login, EngineError>(EngineError::AuthRequired)
        }),
{
    if login.is_some() {
        return Ok(Login::AlreadyIn);
    }
    if store.is_registered(&form.token) {
        Ok(Login::Started)
    } else {
        Err(EngineError::AuthRequired)
    }
}

/// Logs a learner out: the session ends, whoever it belonged to, and the
/// browser is sent to the tutorial.
pub fn user_logout() -> (to: Location)
    ensures
        to == Location::Tutorial,
{
    Location::Tutorial
}

/// The page to register on: the form, or the front page for a learner who
/// is logged in already.
pub fn render_create(login: Option<&User>) -> (reply: Reply)
    ensures
        reply == (if login is Some {
            Reply::Redirect(Location::Home)
        } else {
            Reply::File(PageFile::Create)
        }),
{
    if login.is_some() {
        Reply::Redirect(Location::Home)
    } else {
        Reply::File(PageFile::Create)
    }
}

/// Why a learner is not registered, if they are not: someone is logged in,
/// the token is empty once the white space around it is gone, or the token
/// is taken.
pub open spec fn create_refusal(pre: StoreView, login: Option<Seq<char>>, form: User) -> Option<
    EngineError,
> {
    if login is Some {
        Some(EngineError::Conflict)
    } else if trimmed(form.token@).len() == 0 {
        Some(EngineError::ValidationError)
    } else if pre.learners.contains(trimmed(form.token@)) {
        Some(EngineError::Conflict)
    } else {
        None
    }
}

/// The records after a request to register: unchanged where it is refused;
/// else the token of the form, without the white space around it, is that
/// of a registered learner.
pub open spec fn records_after_create(
    pre: StoreView,
    login: Option<Seq<char>>,
    form: User,
) -> StoreView {
    if create_refusal(pre, login, form) is Some {
        pre
    } else {
        StoreView { learners: pre.learners.insert(trimmed(form.token@)), ..pre }
    }
}

/// Registers a learner, and hands back who the session now belongs to.
///
/// The token is taken without the white space around it. The request is
/// refused, and nothing written, where a learner is logged in, where the
/// token is empty, and where it is taken: a token is registered once.
pub fn user_create(store: &mut ProgressStore, login: Option<&User>, form: &User) -> (r: Result<
    User,
    EngineError,
>)
    requires
        old(store).wf(),
    ensures
        final(store).wf(),
        final(store)@ == records_after_create(old(store)@, token_of(login), *form),
        match create_refusal(old(store)@, token_of(login), *form) {
            Some(e) => r == Err::<User, EngineError>(e),
            None => r matches Ok(user) && user.token@ == trimmed(form.token@),
        },
{
    if login.is_some() {
        return Err(EngineError::Conflict);
    }
    let token = String::from_str(trim(form.token.as_str()));
    if token.as_str().is_empty() {
        return Err(EngineError::ValidationError);
    }
    match store.register(&token) {
        Ok(()) => Ok(User { token }),
        Err(e) => Err(e),
    }
}

/// A token can be registered once: a second request with the same token,
/// or with one that differs from it only by white space around it, is
/// refused with `Conflict` and changes nothing.
pub proof fn lemma_token_registers_once(pre: StoreView, first: User, second: User)
    requires
        create_refusal(pre, None, first) is None,
        trimmed(second.token@) == trimmed(first.token@),
    ensures
        ({
            let mid = records_after_create(pre, None, first);
            &&& mid.learners.contains(trimmed(first.token@))
            &&& create_refusal(mid, None, second) == Some(EngineError::Conflict)
            &&& records_after_create(mid, None, second) == mid
        }),
{
}

} // verus!
