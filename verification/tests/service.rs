use event_api::event::Event;
use event_api::event_service::{exists_from_count, ApiError, EventService};
use event_api::handler_params::QueryParams;

fn event(id: &str, title: &str) -> Event {
    Event::new(id.to_owned(), title.to_owned())
}

#[test]
fn create_then_get_returns_equal_event() {
    let mut service = EventService::new();
    let created = service.post_event(event("1", "A"));
    assert!(matches!(created, Ok(ref m) if m == "event added."));
    let got = service.get_event_single("1".to_owned()).unwrap();
    assert!(got == event("1", "A"));
}

#[test]
fn create_twice_same_id_conflicts_and_keeps_one_record() {
    let mut service = EventService::new();
    service.post_event(event("1", "A")).unwrap();
    let second = service.post_event(event("1", "B"));
    assert!(matches!(second, Err(ApiError::Conflict)));
    let all = service.get_events(QueryParams { title: None });
    assert_eq!(all.len(), 1);
    assert!(all[0] == event("1", "A"));
}

#[test]
fn get_unknown_id_is_not_found() {
    let service = EventService::new();
    let got = service.get_event_single("missing".to_owned());
    match got {
        Err(ApiError::NotFound { ref id, .. }) => assert_eq!(id, "missing"),
        _ => panic!("expected a not-found error"),
    }
    assert_eq!(got.unwrap_err().message(), "Event does not exist for id:missing!");
}

#[test]
fn delete_then_get_is_not_found() {
    let mut service = EventService::new();
    service.post_event(event("1", "A")).unwrap();
    let deleted = service.delete_event_single("1".to_owned());
    assert!(matches!(deleted, Ok(ref m) if m == "event for id: 1 deleted."));
    let got = service.get_event_single("1".to_owned());
    assert!(matches!(got, Err(ApiError::NotFound { .. })));
}

#[test]
fn delete_unknown_id_is_not_found_and_mutates_nothing() {
    let mut service = EventService::new();
    service.post_event(event("1", "A")).unwrap();
    service.post_event(event("2", "B")).unwrap();
    let deleted = service.delete_event_single("3".to_owned());
    assert!(matches!(deleted, Err(ApiError::NotFound { .. })));
    assert_eq!(deleted.unwrap_err().message(), "Event does not exist for id: 3!");
    let all = service.get_events(QueryParams { title: None });
    assert_eq!(all.len(), 2);
    assert!(all[0] == event("1", "A"));
    assert!(all[1] == event("2", "B"));
}

#[test]
fn update_title_then_get_sees_new_title_and_same_id() {
    let mut service = EventService::new();
    service.post_event(event("1", "A")).unwrap();
    let updated = service.put_event_title("1".to_owned(), "B".to_owned());
    assert!(matches!(updated, Ok(ref m) if m == "Event title for id: 1 changed to B"));
    let got = service.get_event_single("1".to_owned()).unwrap();
    assert!(got == event("1", "B"));
}

#[test]
fn update_unknown_id_is_not_found_and_mutates_nothing() {
    let mut service = EventService::new();
    service.post_event(event("1", "A")).unwrap();
    let updated = service.put_event_title("2".to_owned(), "B".to_owned());
    assert!(matches!(updated, Err(ApiError::NotFound { .. })));
    let all = service.get_events(QueryParams { title: None });
    assert_eq!(all.len(), 1);
    assert!(all[0] == event("1", "A"));
}

#[test]
fn list_without_filter_returns_all_in_storage_order() {
    let mut service = EventService::new();
    service.post_event(event("1", "A")).unwrap();
    service.post_event(event("2", "B")).unwrap();
    service.post_event(event("3", "A")).unwrap();
    let all = service.get_events(QueryParams { title: None });
    assert_eq!(all.len(), 3);
    assert!(all[0] == event("1", "A"));
    assert!(all[1] == event("2", "B"));
    assert!(all[2] == event("3", "A"));
}

#[test]
fn list_with_filter_returns_exactly_the_matching_subset() {
    let mut service = EventService::new();
    service.post_event(event("1", "A")).unwrap();
    service.post_event(event("2", "B")).unwrap();
    service.post_event(event("3", "A")).unwrap();
    let filtered = service.get_events(QueryParams { title: Some("A".to_owned()) });
    assert_eq!(filtered.len(), 2);
    assert!(filtered[0] == event("1", "A"));
    assert!(filtered[1] == event("3", "A"));
    let none = service.get_events(QueryParams { title: Some("C".to_owned()) });
    assert_eq!(none.len(), 0);
}

#[test]
fn list_filter_is_exact_not_prefix_match() {
    let mut service = EventService::new();
    service.post_event(event("1", "Alpha")).unwrap();
    service.post_event(event("2", "Alp")).unwrap();
    let filtered = service.get_events(QueryParams { title: Some("Alp".to_owned()) });
    assert_eq!(filtered.len(), 1);
    assert!(filtered[0] == event("2", "Alp"));
}

#[test]
fn list_on_empty_store_is_empty() {
    let service = EventService::new();
    let all = service.get_events(QueryParams { title: None });
    assert_eq!(all.len(), 0);
}

#[test]
fn event_exist_reports_presence() {
    let mut service = EventService::new();
    assert!(!service.event_exist(&"1".to_owned()));
    service.post_event(event("1", "A")).unwrap();
    assert!(service.event_exist(&"1".to_owned()));
    assert!(!service.event_exist(&"2".to_owned()));
}

#[test]
fn error_messages_match_their_variants() {
    let lookup = ApiError::not_found_lookup("7".to_owned());
    assert_eq!(lookup.message(), "Event does not exist for id:7!");
    let write = ApiError::not_found_write("7".to_owned());
    assert_eq!(write.message(), "Event does not exist for id: 7!");
    assert_eq!(ApiError::Conflict.message(), "Event exists!");
    let io = ApiError::StoreIo { message: "throttled".to_owned() };
    assert_eq!(io.message(), "throttled");
}

#[test]
fn a_positive_count_signals_existence() {
    assert!(!exists_from_count(0));
    assert!(exists_from_count(1));
    assert!(exists_from_count(7));
}
