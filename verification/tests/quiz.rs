use fplab_server::api::accounts::User;
use fplab_server::error::EngineError;
use fplab_server::questions::{Choice, Question, QuestionBank};
use fplab_server::route::quiz::{get_question, init_quiz, record_response, UserResponse, UNANSWERED};
use fplab_server::store::records::Response;
use fplab_server::store::table::Upsert;
use fplab_server::store::ProgressStore;

fn learner(token: &str) -> User {
    User { token: token.to_string() }
}

fn choices(n: u8) -> Vec<Choice> {
    (0..n).map(|id| Choice { id, text: format!("choice {}", id) }).collect()
}

/// Question 0 offers three answers, question 1 two, question 2 none.
fn bank() -> QuestionBank {
    let mut bank = QuestionBank::new();
    assert_eq!(bank.add("vis_0".to_string(), "What is printed?".to_string(), choices(3), true), Some(0));
    assert_eq!(bank.add("vis_1".to_string(), "Does it compile?".to_string(), choices(2), false), Some(1));
    assert_eq!(bank.add("vis_2".to_string(), "Why?".to_string(), choices(0), true), Some(2));
    bank
}

fn times(question: u8, time: u64, hover: u64) -> UserResponse {
    UserResponse {
        ques_id: question,
        ans_id: None,
        free_response: None,
        time_elapsed_question: time,
        time_elapsed_hover: hover,
    }
}

fn full(question: u8, answer: u8, text: &str, time: u64, hover: u64) -> UserResponse {
    UserResponse {
        ques_id: question,
        ans_id: Some(answer),
        free_response: Some(text.to_string()),
        time_elapsed_question: time,
        time_elapsed_hover: hover,
    }
}

#[test]
fn partial_updates_add_up_and_leave_the_answer_unset() {
    let mut store = ProgressStore::new();
    let ann = learner("ann");
    let bank = bank();
    assert_eq!(record_response(&mut store, &bank, Some(&ann), &times(1, 2000, 300)), Ok(Upsert::Created));
    assert_eq!(record_response(&mut store, &bank, Some(&ann), &times(1, 500, 45)), Ok(Upsert::Updated));
    assert_eq!(
        store.response(&ann.token, 1),
        Some(&Response { answer: None, free_response: String::new(), time_elapsed: 2500, hover_time: 345 })
    );
}

#[test]
fn partial_update_moves_the_pointer_on() {
    // A learner who only lingers on a question is moved past it all the
    // same. This is how the quiz behaves; whether it should is doubtful.
    let mut store = ProgressStore::new();
    let ann = learner("ann");
    let bank = bank();
    record_response(&mut store, &bank, Some(&ann), &times(1, 10, 0)).unwrap();
    assert_eq!(store.quiz_pointer(&ann.token), Some(2));
    assert_eq!(init_quiz(&store, &bank, Some(&ann)).unwrap().current, 2);
}

#[test]
fn full_update_is_reported_by_the_summary() {
    let mut store = ProgressStore::new();
    let ann = learner("ann");
    let bank = bank();
    assert_eq!(record_response(&mut store, &bank, Some(&ann), &full(0, 2, "x", 100, 7)), Ok(Upsert::Created));
    let quiz = init_quiz(&store, &bank, Some(&ann)).unwrap();
    assert_eq!(quiz.total, 3);
    assert_eq!(quiz.current, 1);
    assert_eq!(quiz.saved_ans_vec, vec![2, UNANSWERED, UNANSWERED]);
    assert_eq!(quiz.saved_free_res, vec!["x".to_string(), String::new(), String::new()]);
    assert_eq!(quiz.url, "/question/1/");
    assert_eq!(
        store.response(&ann.token, 0),
        Some(&Response { answer: Some(2), free_response: "x".to_string(), time_elapsed: 100, hover_time: 7 })
    );
}

#[test]
fn full_update_after_partial_keeps_adding_times() {
    let mut store = ProgressStore::new();
    let ann = learner("ann");
    let bank = bank();
    record_response(&mut store, &bank, Some(&ann), &times(0, 1000, 10)).unwrap();
    assert_eq!(record_response(&mut store, &bank, Some(&ann), &full(0, 1, "because", 200, 5)), Ok(Upsert::Updated));
    assert_eq!(
        store.response(&ann.token, 0),
        Some(&Response { answer: Some(1), free_response: "because".to_string(), time_elapsed: 1200, hover_time: 15 })
    );
    record_response(&mut store, &bank, Some(&ann), &times(0, 1, 1)).unwrap();
    assert_eq!(
        store.response(&ann.token, 0),
        Some(&Response { answer: Some(1), free_response: "because".to_string(), time_elapsed: 1201, hover_time: 16 })
    );
}

#[test]
fn resubmission_overwrites_answer_and_text() {
    let mut store = ProgressStore::new();
    let ann = learner("ann");
    let bank = bank();
    record_response(&mut store, &bank, Some(&ann), &full(0, 0, "first", 1, 1)).unwrap();
    record_response(&mut store, &bank, Some(&ann), &full(0, 2, "second", 1, 1)).unwrap();
    assert_eq!(
        store.response(&ann.token, 0),
        Some(&Response { answer: Some(2), free_response: "second".to_string(), time_elapsed: 2, hover_time: 2 })
    );
}

#[test]
fn answer_without_text_only_adds_times() {
    let mut store = ProgressStore::new();
    let ann = learner("ann");
    let bank = bank();
    let form = UserResponse {
        ques_id: 0,
        ans_id: Some(200),
        free_response: None,
        time_elapsed_question: 5,
        time_elapsed_hover: 6,
    };
    assert_eq!(record_response(&mut store, &bank, Some(&ann), &form), Ok(Upsert::Created));
    assert_eq!(
        store.response(&ann.token, 0),
        Some(&Response { answer: None, free_response: String::new(), time_elapsed: 5, hover_time: 6 })
    );
    let form = UserResponse {
        ques_id: 0,
        ans_id: None,
        free_response: Some("text alone".to_string()),
        time_elapsed_question: 5,
        time_elapsed_hover: 6,
    };
    record_response(&mut store, &bank, Some(&ann), &form).unwrap();
    assert_eq!(
        store.response(&ann.token, 0),
        Some(&Response { answer: None, free_response: String::new(), time_elapsed: 10, hover_time: 12 })
    );
}

#[test]
fn answer_one_past_the_last_choice_is_refused_and_writes_nothing() {
    let mut store = ProgressStore::new();
    let ann = learner("ann");
    let bank = bank();
    assert_eq!(bank.choice_count(0), 3);
    assert_eq!(
        record_response(&mut store, &bank, Some(&ann), &full(0, 3, "x", 100, 7)),
        Err(EngineError::ValidationError)
    );
    assert_eq!(store.response(&ann.token, 0), None);
    assert_eq!(store.quiz_pointer(&ann.token), None);
    assert_eq!(store.response_count(), 0);
    assert_eq!(
        record_response(&mut store, &bank, Some(&ann), &full(2, 0, "x", 100, 7)),
        Err(EngineError::ValidationError)
    );
    assert_eq!(record_response(&mut store, &bank, Some(&ann), &full(0, 2, "x", 100, 7)), Ok(Upsert::Created));
}

#[test]
fn refused_answer_keeps_the_earlier_response() {
    let mut store = ProgressStore::new();
    let ann = learner("ann");
    let bank = bank();
    record_response(&mut store, &bank, Some(&ann), &full(1, 1, "kept", 10, 20)).unwrap();
    assert_eq!(
        record_response(&mut store, &bank, Some(&ann), &full(1, 2, "lost", 1, 1)),
        Err(EngineError::ValidationError)
    );
    assert_eq!(
        store.response(&ann.token, 1),
        Some(&Response { answer: Some(1), free_response: "kept".to_string(), time_elapsed: 10, hover_time: 20 })
    );
    assert_eq!(store.quiz_pointer(&ann.token), Some(2));
}

#[test]
fn unknown_question_is_refused() {
    let mut store = ProgressStore::new();
    let ann = learner("ann");
    let bank = bank();
    assert_eq!(record_response(&mut store, &bank, Some(&ann), &times(3, 1, 1)), Err(EngineError::ValidationError));
    assert_eq!(record_response(&mut store, &bank, Some(&ann), &full(255, 0, "", 1, 1)), Err(EngineError::ValidationError));
    assert_eq!(store.response_count(), 0);
    assert_eq!(store.quiz_pointer(&ann.token), None);
    let empty = QuestionBank::new();
    assert_eq!(record_response(&mut store, &empty, Some(&ann), &times(0, 1, 1)), Err(EngineError::ValidationError));
}

#[test]
fn response_without_login_is_refused() {
    let mut store = ProgressStore::new();
    let bank = bank();
    assert_eq!(record_response(&mut store, &bank, None, &times(0, 1, 1)), Err(EngineError::AuthRequired));
    assert_eq!(record_response(&mut store, &bank, None, &times(9, 1, 1)), Err(EngineError::AuthRequired));
    assert_eq!(store.response_count(), 0);
}

#[test]
fn time_past_the_limit_is_refused_and_writes_nothing() {
    let mut store = ProgressStore::new();
    let ann = learner("ann");
    let bank = bank();
    record_response(&mut store, &bank, Some(&ann), &full(0, 1, "t", u64::MAX - 1, 5)).unwrap();
    assert_eq!(
        record_response(&mut store, &bank, Some(&ann), &full(0, 2, "u", 2, 1)),
        Err(EngineError::PersistenceFailure)
    );
    assert_eq!(
        record_response(&mut store, &bank, Some(&ann), &times(0, 0, u64::MAX - 4)),
        Err(EngineError::PersistenceFailure)
    );
    assert_eq!(
        store.response(&ann.token, 0),
        Some(&Response { answer: Some(1), free_response: "t".to_string(), time_elapsed: u64::MAX - 1, hover_time: 5 })
    );
    assert_eq!(record_response(&mut store, &bank, Some(&ann), &times(0, 1, u64::MAX - 5)), Ok(Upsert::Updated));
    assert_eq!(
        store.response(&ann.token, 0),
        Some(&Response { answer: Some(1), free_response: "t".to_string(), time_elapsed: u64::MAX, hover_time: u64::MAX })
    );
}

#[test]
fn pointer_follows_the_last_submission() {
    let mut store = ProgressStore::new();
    let ann = learner("ann");
    let bank = bank();
    record_response(&mut store, &bank, Some(&ann), &full(2, 0, "", 1, 1)).unwrap_err();
    record_response(&mut store, &bank, Some(&ann), &times(2, 1, 1)).unwrap();
    assert_eq!(store.quiz_pointer(&ann.token), Some(3));
    record_response(&mut store, &bank, Some(&ann), &times(0, 1, 1)).unwrap();
    assert_eq!(store.quiz_pointer(&ann.token), Some(1));
}

#[test]
fn summary_of_a_new_learner() {
    let store = ProgressStore::new();
    let ann = learner("ann");
    let quiz = init_quiz(&store, &bank(), Some(&ann)).unwrap();
    assert_eq!(quiz.total, 3);
    assert_eq!(quiz.current, 0);
    assert_eq!(quiz.saved_ans_vec, vec![-2, -2, -2]);
    assert_eq!(quiz.saved_free_res, vec![String::new(), String::new(), String::new()]);
    assert_eq!(quiz.url, "/question/0/");
}

#[test]
fn summary_of_an_empty_quiz() {
    let store = ProgressStore::new();
    let ann = learner("ann");
    let quiz = init_quiz(&store, &QuestionBank::new(), Some(&ann)).unwrap();
    assert_eq!(quiz.total, 0);
    assert!(quiz.saved_ans_vec.is_empty());
    assert!(quiz.saved_free_res.is_empty());
}

#[test]
fn summary_lists_only_the_learners_own_responses() {
    let mut store = ProgressStore::new();
    let ann = learner("ann");
    let bob = learner("bob");
    let bank = bank();
    record_response(&mut store, &bank, Some(&bob), &full(0, 1, "bob's", 1, 1)).unwrap();
    record_response(&mut store, &bank, Some(&ann), &full(1, 0, "ann's", 1, 1)).unwrap();
    record_response(&mut store, &bank, Some(&bob), &times(2, 1, 1)).unwrap();
    let quiz = init_quiz(&store, &bank, Some(&ann)).unwrap();
    assert_eq!(quiz.saved_ans_vec, vec![-2, 0, -2]);
    assert_eq!(quiz.saved_free_res, vec![String::new(), "ann's".to_string(), String::new()]);
    assert_eq!(quiz.current, 2);
    let quiz = init_quiz(&store, &bank, Some(&bob)).unwrap();
    assert_eq!(quiz.saved_ans_vec, vec![1, -2, -2]);
    assert_eq!(quiz.saved_free_res, vec!["bob's".to_string(), String::new(), String::new()]);
    assert_eq!(quiz.current, 3);
    assert_eq!(quiz.url, "/question/3/");
}

#[test]
fn summary_skips_responses_to_questions_that_are_gone() {
    let mut store = ProgressStore::new();
    let ann = learner("ann");
    record_response(&mut store, &bank(), Some(&ann), &full(1, 1, "old", 1, 1)).unwrap();
    let mut small = QuestionBank::new();
    small.add("f".to_string(), "p".to_string(), choices(2), false);
    let quiz = init_quiz(&store, &small, Some(&ann)).unwrap();
    assert_eq!(quiz.saved_ans_vec, vec![-2]);
    assert_eq!(quiz.saved_free_res, vec![String::new()]);
}

#[test]
fn summary_holds_large_answers_and_pointers() {
    let mut bank = QuestionBank::new();
    for _ in 0..255 {
        assert!(bank.add(String::new(), String::new(), choices(255), false).is_some());
    }
    assert_eq!(bank.add(String::new(), String::new(), choices(1), false), None);
    assert_eq!(bank.total(), 255);
    let mut store = ProgressStore::new();
    let ann = learner("ann");
    record_response(&mut store, &bank, Some(&ann), &full(254, 254, "last", 1, 1)).unwrap();
    let quiz = init_quiz(&store, &bank, Some(&ann)).unwrap();
    assert_eq!(quiz.current, 255);
    assert_eq!(quiz.url, "/question/255/");
    assert_eq!(quiz.saved_ans_vec[254], 254);
    assert_eq!(quiz.saved_ans_vec[253], -2);
    assert_eq!(quiz.saved_ans_vec.len(), 255);
}

#[test]
fn summary_without_login_is_refused() {
    let store = ProgressStore::new();
    assert_eq!(init_quiz(&store, &bank(), None), Err(EngineError::AuthRequired));
}

#[test]
fn question_info_of_a_known_question() {
    let question = get_question(&bank(), 1);
    assert_eq!(
        question,
        Question {
            qid: 1,
            filename: "vis_1".to_string(),
            prompt: "Does it compile?".to_string(),
            choices: vec![
                Choice { id: 0, text: "choice 0".to_string() },
                Choice { id: 1, text: "choice 1".to_string() },
            ],
            contains_free_response: false,
        }
    );
}

#[test]
fn question_info_of_an_unknown_question() {
    let question = get_question(&bank(), 7);
    assert_eq!(
        question,
        Question {
            qid: 7,
            filename: String::new(),
            prompt: String::new(),
            choices: vec![],
            contains_free_response: false,
        }
    );
}

#[test]
fn bank_refuses_too_many_choices() {
    let mut bank = QuestionBank::new();
    let many: Vec<Choice> = (0..256).map(|i| Choice { id: (i % 256) as u8, text: String::new() }).collect();
    assert_eq!(bank.add(String::new(), String::new(), many, false), None);
    assert_eq!(bank.total(), 0);
    assert_eq!(bank.choice_count(0), 0);
    assert!(bank.question(0).is_none());
}
