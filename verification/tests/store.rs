use fplab_server::config::Config;
use fplab_server::error::EngineError;
use fplab_server::sandbox::{ExecutionResult, SandboxJob, SandboxOutcome};
use fplab_server::store::records::Response;
use fplab_server::store::table::{Table, Upsert};
use fplab_server::store::ProgressStore;
use fplab_server::text::{chars_of, decimal_text};

fn s(text: &str) -> String {
    text.to_string()
}

#[test]
fn new_store_is_empty() {
    let store = ProgressStore::new();
    assert!(!store.is_registered(&s("ann")));
    assert_eq!(store.score(&s("ann"), 0), None);
    assert_eq!(store.edit_state(&s("ann")), None);
    assert_eq!(store.response(&s("ann"), 0), None);
    assert_eq!(store.quiz_pointer(&s("ann")), None);
    assert_eq!(store.hover_count(&s("ann"), &s("svg"), &s("item")), None);
    assert_eq!(store.page_log_len(), 0);
    assert_eq!(store.response_count(), 0);
}

#[test]
fn put_score_creates_then_updates() {
    let mut store = ProgressStore::new();
    assert_eq!(store.put_score(&s("ann"), 3, 1), Ok(Upsert::Created));
    assert_eq!(store.put_score(&s("ann"), 3, 0), Ok(Upsert::Updated));
    assert_eq!(store.score(&s("ann"), 3), Some(0));
    assert_eq!(store.put_score(&s("ann"), 4, 1), Ok(Upsert::Created));
    assert_eq!(store.put_score(&s("bob"), 3, 1), Ok(Upsert::Created));
    assert_eq!(store.score(&s("ann"), 3), Some(0));
    assert_eq!(store.score(&s("bob"), 3), Some(1));
}

#[test]
fn put_score_refuses_what_is_no_score() {
    let mut store = ProgressStore::new();
    assert_eq!(store.put_score(&s("ann"), 0, 2), Err(EngineError::ValidationError));
    assert_eq!(store.put_score(&s("ann"), 0, -1), Err(EngineError::ValidationError));
    assert_eq!(store.put_score(&s("ann"), 6, 1), Err(EngineError::ValidationError));
    assert_eq!(store.put_score(&s("ann"), -1, 0), Err(EngineError::ValidationError));
    assert_eq!(store.score(&s("ann"), 0), None);
    assert_eq!(store.score(&s("ann"), 6), None);
}

#[test]
fn put_edit_state_replaces_the_whole_text() {
    let mut store = ProgressStore::new();
    assert_eq!(store.put_edit_state(&s("ann"), s("a long first text")), Upsert::Created);
    assert_eq!(store.put_edit_state(&s("ann"), s("short")), Upsert::Updated);
    assert_eq!(store.edit_state(&s("ann")), Some(&s("short")));
    assert_eq!(store.edit_state(&s("bob")), None);
}

#[test]
fn put_response_and_read_rows() {
    let mut store = ProgressStore::new();
    let first = Response { answer: Some(1), free_response: s("x"), time_elapsed: 5, hover_time: 6 };
    let second = Response { answer: None, free_response: s(""), time_elapsed: 1, hover_time: 2 };
    assert_eq!(store.put_response(&s("ann"), 0, first.clone()), Upsert::Created);
    assert_eq!(store.put_response(&s("bob"), 0, second.clone()), Upsert::Created);
    assert_eq!(store.put_response(&s("ann"), 0, second.clone()), Upsert::Updated);
    assert_eq!(store.response_count(), 2);
    assert_eq!(store.response_at(0), (&s("ann"), 0, &second));
    assert_eq!(store.response_at(1), (&s("bob"), 0, &second));
    assert_eq!(store.response(&s("ann"), 0), Some(&second));
    assert_eq!(store.response(&s("ann"), 1), None);
}

#[test]
fn put_quiz_pointer_and_hover_count() {
    let mut store = ProgressStore::new();
    assert_eq!(store.put_quiz_pointer(&s("ann"), 4), Upsert::Created);
    assert_eq!(store.put_quiz_pointer(&s("ann"), 2), Upsert::Updated);
    assert_eq!(store.quiz_pointer(&s("ann")), Some(2));
    assert_eq!(store.put_hover_count(&s("ann"), &s("svg"), &s("item"), 9), Upsert::Created);
    assert_eq!(store.put_hover_count(&s("ann"), &s("svg"), &s("item"), 10), Upsert::Updated);
    assert_eq!(store.hover_count(&s("ann"), &s("svg"), &s("item")), Some(10));
    assert_eq!(store.hover_count(&s("ann"), &s("svg"), &s("other")), None);
}

#[test]
fn log_page_time_appends() {
    let mut store = ProgressStore::new();
    store.log_page_time(&s("ann"), &s("ch1"), 500);
    store.log_page_time(&s("ann"), &s("ch1"), 300);
    store.log_page_time(&s("ann"), &s("ch2"), 7);
    assert_eq!(store.page_log_len(), 3);
    assert_eq!(store.page_times(&s("ann"), &s("ch1")), vec![500, 300]);
}

#[test]
fn table_keeps_one_row_for_each_key() {
    let mut table: Table<String, u8> = Table::new();
    assert_eq!(table.len(), 0);
    assert_eq!(table.upsert(s("a"), 1), Upsert::Created);
    assert_eq!(table.upsert(s("b"), 2), Upsert::Created);
    assert_eq!(table.upsert(s("a"), 3), Upsert::Updated);
    assert_eq!(table.len(), 2);
    assert_eq!(table.get(&s("a")), Some(&3));
    assert_eq!(table.get(&s("b")), Some(&2));
    assert_eq!(table.get(&s("c")), None);
    assert!(table.contains(&s("b")));
    assert!(!table.contains(&s("")));
    assert_eq!(table.row(0), (&s("a"), &3));
    assert_eq!(table.row(1), (&s("b"), &2));
}

#[test]
fn run_is_judged_by_its_exit_code_alone() {
    let run = |code: Option<i32>| ExecutionResult { exit_code: code, stdout: s("out"), stderr: s("err") };
    assert!(run(Some(0)).is_success());
    assert_eq!(run(Some(0)).score(), 1);
    assert_eq!(run(Some(0)).diagnostic(), "out");
    for code in [Some(1), Some(-1), Some(101), Some(i32::MIN), None] {
        assert!(!run(code).is_success());
        assert_eq!(run(code).score(), 0);
        assert_eq!(run(code).diagnostic(), "err");
    }
    assert!(!SandboxOutcome::Finished(run(Some(1))).system_failed());
    assert!(SandboxOutcome::TimedOut.system_failed());
    assert!(SandboxOutcome::SpawnFailed.system_failed());
}

#[test]
fn job_holds_the_snippet_and_the_time_limit() {
    let job = SandboxJob::for_snippet(&s("fn main() {}"), 1500);
    assert_eq!(job.program, "docker");
    assert_eq!(job.args, vec![s("run"), s("rust-src"), s("fn main() {}")]);
    assert_eq!(job.timeout_ms, 1500);
}

#[test]
fn config_hands_back_what_it_was_made_with() {
    let config = Config::new(s("template"), 250);
    assert_eq!(config.default_template(), "template");
    assert_eq!(config.timeout_ms(), 250);
}

#[test]
fn errors_have_a_status_and_a_message() {
    assert_eq!(EngineError::AuthRequired.status(), 401);
    assert_eq!(EngineError::ValidationError.status(), 400);
    assert_eq!(EngineError::Conflict.status(), 409);
    assert_eq!(EngineError::SandboxSystemFailure.status(), 500);
    assert_eq!(EngineError::PersistenceFailure.status(), 500);
    assert_eq!(EngineError::AuthRequired.message(), "Please log in!");
    assert_eq!(
        EngineError::SandboxSystemFailure.message(),
        EngineError::PersistenceFailure.message()
    );
    assert!(EngineError::SandboxSystemFailure.is_system_failure());
    assert!(EngineError::PersistenceFailure.is_system_failure());
    assert!(!EngineError::ValidationError.is_system_failure());
    assert!(!EngineError::AuthRequired.is_system_failure());
    assert!(!EngineError::Conflict.is_system_failure());
}

#[test]
fn decimal_text_of_small_numbers() {
    assert_eq!(decimal_text(0), "0");
    assert_eq!(decimal_text(7), "7");
    assert_eq!(decimal_text(10), "10");
    assert_eq!(decimal_text(99), "99");
    assert_eq!(decimal_text(100), "100");
    assert_eq!(decimal_text(109), "109");
    assert_eq!(decimal_text(255), "255");
    for n in 0..=255u8 {
        assert_eq!(decimal_text(n), n.to_string());
    }
}

#[test]
fn chars_of_a_text() {
    assert_eq!(chars_of("a$é"), vec!['a', '$', 'é']);
    assert_eq!(chars_of(""), Vec::<char>::new());
}
