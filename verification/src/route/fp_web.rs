//! The pages of the site: which of them answers a request.

use vstd::prelude::*;
use crate::api::accounts::User;

verus! {

/// A place of the site that a browser can be sent to.
#[derive(Clone, Copy, Debug, PartialEq, Eq, Structural)]
pub enum Location {
    /// The front page.
    Home,
    /// The tutorial.
    Tutorial,
}

impl Location {
    /// The path of the place.
    pub open spec fn path_of(self) -> Seq<char> {
        match self {
            Location::Home => "/"@,
            Location::Tutorial => "/rust-tutorial"@,
        }
    }

    /// The path of the place.
    pub fn path(&self) -> (path: &'static str)
        ensures
            path@ == self.path_of(),
    {
        match self {
            Location::Home => "/",
            Location::Tutorial => "/rust-tutorial",
        }
    }
}

/// A page that is kept as a file and served as it is.
#[derive(Clone, Copy, Debug, PartialEq, Eq, Structural)]
pub enum PageFile {
    /// The form to log in with.
    Login,
    /// The form to register with.
    Create,
    /// What is shown where nothing else fits.
    Error,
}

impl PageFile {
    /// Where the file lies.
    pub open spec fn path_of(self) -> Seq<char> {
        match self {
            PageFile::Login => "./rustviz/html/login.html"@,
            PageFile::Create => "./rustviz/html/create.html"@,
            PageFile::Error => "./rustviz/html/error.html"@,
        }
    }

    /// Where the file lies.
    pub fn path(&self) -> (path: &'static str)
        ensures
            path@ == self.path_of(),
    {
        match self {
            PageFile::Login => "./rustviz/html/login.html",
            PageFile::Create => "./rustviz/html/create.html",
            PageFile::Error => "./rustviz/html/error.html",
        }
    }
}

/// What the template of the front page is filled with.
#[derive(Clone, Copy, Debug, PartialEq, Eq, Structural)]
pub struct Context {
    /// 1 where a learner is logged in, 0 where not.
    pub logged_in: u32,
}

/// How a request for a page is answered.
#[derive(Clone, Copy, Debug, PartialEq, Eq, Structural)]
pub enum Reply {
    /// The front page, filled in, under the given HTTP status.
    Render { status: u16, context: Context },
    /// A page that is served as it is.
    File(PageFile),
    /// The browser is sent elsewhere.
    Redirect(Location),
}

/// 1 where a learner is logged in, 0 where not.
pub open spec fn logged_in_flag(login: Option<&User>) -> u32 {
    if login is Some {
        1
    } else {
        0
    }
}

/// The front page: it is shown to everyone, and says whether a learner is
/// logged in.
pub fn index(login: Option<&User>) -> (reply: Reply)
    ensures
        reply == (Reply::Render { status: 200, context: Context { logged_in: logged_in_flag(login) } }),
{
    let logged_in: u32 = if login.is_some() {
        1
    } else {
        0
    };
    Reply::Render { status: 200, context: Context { logged_in } }
}

/// The page for every request that nothing else answers.
pub fn error() -> (reply: Reply)
    ensures
        reply == Reply::File(PageFile::Error),
{
    Reply::File(PageFile::Error)
}

} // verus!
