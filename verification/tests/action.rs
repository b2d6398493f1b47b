use fplab_server::api::accounts::User;
use fplab_server::api::action::{hover_info, switch_info, user_hover, user_switch};
use fplab_server::error::EngineError;
use fplab_server::store::table::Upsert;
use fplab_server::store::ProgressStore;

fn learner(token: &str) -> User {
    User { token: token.to_string() }
}

fn hover(svg: &str, item: &str) -> hover_info {
    hover_info { svg_name: svg.to_string(), hover_item: item.to_string() }
}

fn visit(page: &str, elapsed: i64) -> switch_info {
    switch_info { directory: page.to_string(), time_elpse: elapsed }
}

#[test]
fn three_hovers_count_three() {
    let mut store = ProgressStore::new();
    let ann = learner("ann");
    let info = hover("svg1", "arrow");
    assert_eq!(store.hover_count(&ann.token, &info.svg_name, &info.hover_item), None);
    assert_eq!(user_hover(&mut store, Some(&ann), &info), Ok(1));
    assert_eq!(store.hover_count(&ann.token, &info.svg_name, &info.hover_item), Some(1));
    assert_eq!(user_hover(&mut store, Some(&ann), &info), Ok(2));
    assert_eq!(user_hover(&mut store, Some(&ann), &info), Ok(3));
    assert_eq!(store.hover_count(&ann.token, &info.svg_name, &info.hover_item), Some(3));
}

#[test]
fn hovers_are_counted_by_learner_drawing_and_item() {
    let mut store = ProgressStore::new();
    let ann = learner("ann");
    let bob = learner("bob");
    user_hover(&mut store, Some(&ann), &hover("svg1", "arrow")).unwrap();
    user_hover(&mut store, Some(&ann), &hover("svg1", "arrow")).unwrap();
    assert_eq!(user_hover(&mut store, Some(&ann), &hover("svg1", "box")), Ok(1));
    assert_eq!(user_hover(&mut store, Some(&ann), &hover("svg2", "arrow")), Ok(1));
    assert_eq!(user_hover(&mut store, Some(&bob), &hover("svg1", "arrow")), Ok(1));
    assert_eq!(user_hover(&mut store, Some(&ann), &hover("svg1", "arrow")), Ok(3));
    assert_eq!(user_hover(&mut store, Some(&ann), &hover("svg1a", "rrow")), Ok(1));
}

#[test]
fn hover_without_login_is_refused() {
    let mut store = ProgressStore::new();
    assert_eq!(user_hover(&mut store, None, &hover("svg1", "arrow")), Err(EngineError::AuthRequired));
    assert_eq!(store.hover_count(&"ann".to_string(), &"svg1".to_string(), &"arrow".to_string()), None);
}

#[test]
fn hover_counter_at_its_limit_is_refused() {
    let mut store = ProgressStore::new();
    let ann = learner("ann");
    let info = hover("svg1", "arrow");
    assert_eq!(
        store.put_hover_count(&ann.token, &info.svg_name, &info.hover_item, u64::MAX - 1),
        Upsert::Created
    );
    assert_eq!(user_hover(&mut store, Some(&ann), &info), Ok(u64::MAX));
    assert_eq!(user_hover(&mut store, Some(&ann), &info), Err(EngineError::PersistenceFailure));
    assert_eq!(store.hover_count(&ann.token, &info.svg_name, &info.hover_item), Some(u64::MAX));
}

#[test]
fn two_page_visits_make_two_rows() {
    let mut store = ProgressStore::new();
    let ann = learner("ann");
    assert_eq!(user_switch(&mut store, Some(&ann), &visit("ch1", 500)), Ok(()));
    assert_eq!(user_switch(&mut store, Some(&ann), &visit("ch1", 300)), Ok(()));
    assert_eq!(store.page_times(&ann.token, &"ch1".to_string()), vec![500, 300]);
    assert_eq!(store.page_log_len(), 2);
}

#[test]
fn page_times_are_kept_by_learner_and_page() {
    let mut store = ProgressStore::new();
    let ann = learner("ann");
    let bob = learner("bob");
    user_switch(&mut store, Some(&ann), &visit("ch1", 1)).unwrap();
    user_switch(&mut store, Some(&bob), &visit("ch1", 2)).unwrap();
    user_switch(&mut store, Some(&ann), &visit("ch2", 3)).unwrap();
    user_switch(&mut store, Some(&ann), &visit("ch1", -4)).unwrap();
    assert_eq!(store.page_times(&ann.token, &"ch1".to_string()), vec![1, -4]);
    assert_eq!(store.page_times(&bob.token, &"ch1".to_string()), vec![2]);
    assert_eq!(store.page_times(&ann.token, &"ch2".to_string()), vec![3]);
    assert_eq!(store.page_times(&bob.token, &"ch2".to_string()), Vec::<i64>::new());
    assert_eq!(store.page_log_len(), 4);
}

#[test]
fn page_visit_without_login_is_refused() {
    let mut store = ProgressStore::new();
    assert_eq!(user_switch(&mut store, None, &visit("ch1", 500)), Err(EngineError::AuthRequired));
    assert_eq!(store.page_log_len(), 0);
}
