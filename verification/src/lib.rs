//! The grading and progress engine of an interactive Rust tutorial.
//!
//! Learners hand in short programs, which are run apart from everything
//! else and judged by their exit code; they answer a quiz; and the pages
//! they read count how long they stay and what they point at. This crate
//! holds the rules of all that, and the records that the rules read and
//! write:
//!
//! - [`store`]: the records, seven tables found by key, with one row at
//!   most under a key;
//! - [`route::assignment`]: grading a snippet, starting over, and fetching
//!   what a learner saved;
//! - [`route::quiz`]: taking a response to a question and saying where a
//!   learner stands;
//! - [`api::action`]: hover counters and the log of page visits;
//! - [`api::accounts`] and [`api::encrypt`]: registering, logging in, and
//!   passwords as they are stored;
//! - [`sandbox`]: what is asked of the sandbox and what comes back from it;
//! - [`questions`], [`config`]: what is read and never written;
//! - [`error`]: the ways in which a request can fail.
//!
//! The crate does no input or output. A request reaches it as plain
//! values: who is logged in, the form, and, for grading, what the run of
//! the snippet gave. Every operation takes the records by `&mut`, so it has
//! them for itself from its first read to its last write; one that fails
//! leaves them as they were.

pub mod api;
pub mod config;
pub mod error;
pub mod problems;
pub mod questions;
pub mod route;
pub mod sandbox;
pub mod store;
pub mod text;
