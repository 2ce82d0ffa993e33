use event_api::event::Event;
use event_api::event_service::{pick_single, require_absent, require_present, ApiError,
    EventService};
use event_api::handler::{delete_event_single, get_event_single, get_events, post_event,
    put_event_title, result_to_response, ApiResponse, ResponseBody};
use event_api::handler_params::{PutTitleParams, QueryParams};

fn event(id: &str, title: &str) -> Event {
    Event::new(id.to_owned(), title.to_owned())
}

fn error_message(response: ApiResponse) -> String {
    match response.body {
        ResponseBody::ErrorMessage { message } => message,
        _ => panic!("expected an error body"),
    }
}

#[test]
fn end_to_end_lifecycle_over_the_handlers() {
    let mut service = EventService::new();

    let posted = post_event(&mut service, event("1", "A"));
    assert_eq!(posted.status, 200);
    assert!(matches!(posted.body, ResponseBody::InfoMessage { ref message }
        if message == "event added."));

    let got = get_event_single(&service, "1".to_owned());
    assert_eq!(got.status, 200);
    assert!(matches!(got.body, ResponseBody::SingleEvent { event: ref e }
        if *e == event("1", "A")));

    let put = put_event_title(&mut service, "1".to_owned(), PutTitleParams {
        title: "B".to_owned(),
    });
    assert_eq!(put.status, 200);
    assert!(matches!(put.body, ResponseBody::TitleChanged { ref message }
        if message == "Event title for id: 1 changed to B"));

    let got_again = get_event_single(&service, "1".to_owned());
    assert_eq!(got_again.status, 200);
    assert!(matches!(got_again.body, ResponseBody::SingleEvent { event: ref e }
        if *e == event("1", "B")));

    let deleted = delete_event_single(&mut service, "1".to_owned());
    assert_eq!(deleted.status, 200);
    assert!(matches!(deleted.body, ResponseBody::InfoMessage { ref message }
        if message == "event for id: 1 deleted."));

    let gone = get_event_single(&service, "1".to_owned());
    assert_eq!(gone.status, 400);
    assert_eq!(error_message(gone), "Event does not exist for id:1!");
}

#[test]
fn list_handler_answers_the_filtered_subset() {
    let mut service = EventService::new();
    post_event(&mut service, event("1", "A"));
    post_event(&mut service, event("2", "B"));
    let listed = get_events(&service, QueryParams { title: Some("B".to_owned()) });
    assert_eq!(listed.status, 200);
    match listed.body {
        ResponseBody::EventList { events } => {
            assert_eq!(events.len(), 1);
            assert!(events[0] == event("2", "B"));
        },
        _ => panic!("expected an event list"),
    }
}

#[test]
fn conflicting_create_flattens_to_a_bad_request() {
    let mut service = EventService::new();
    post_event(&mut service, event("1", "A"));
    let again = post_event(&mut service, event("1", "B"));
    assert_eq!(again.status, 400);
    assert_eq!(error_message(again), "Event exists!");
}

#[test]
fn result_to_response_maps_both_outcomes() {
    let ok = result_to_response(Ok(ResponseBody::InfoMessage { message: "done".to_owned() }));
    assert_eq!(ok.status, 200);
    assert!(matches!(ok.body, ResponseBody::InfoMessage { ref message } if message == "done"));

    let err = result_to_response(Err(ApiError::StoreIo { message: "boom".to_owned() }));
    assert_eq!(err.status, 400);
    assert_eq!(error_message(err), "boom");
}

#[test]
fn check_then_act_gates_decide_as_the_store_reports() {
    assert!(matches!(require_absent(false), Ok(())));
    assert!(matches!(require_absent(true), Err(ApiError::Conflict)));
    assert!(matches!(require_present(true, "1".to_owned()), Ok(())));
    match require_present(false, "1".to_owned()) {
        Err(ApiError::NotFound { id, message }) => {
            assert_eq!(id, "1");
            assert_eq!(message, "Event does not exist for id: 1!");
        },
        _ => panic!("expected a not-found error"),
    }
}

#[test]
fn pick_single_takes_the_first_record_or_reports_not_found() {
    let picked = pick_single(2, Some(vec![event("1", "A"), event("1", "B")]), "1".to_owned());
    assert!(picked.unwrap() == event("1", "A"));

    assert!(matches!(pick_single(0, Some(vec![event("1", "A")]), "1".to_owned()),
        Err(ApiError::NotFound { .. })));
    assert!(matches!(pick_single(1, None, "1".to_owned()), Err(ApiError::NotFound { .. })));
    assert!(matches!(pick_single(1, Some(vec![]), "1".to_owned()),
        Err(ApiError::NotFound { .. })));
    match pick_single(0, None, "9".to_owned()) {
        Err(e) => assert_eq!(e.message(), "Event does not exist for id:9!"),
        Ok(_) => panic!("expected a not-found error"),
    }
}
