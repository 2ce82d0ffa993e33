//! Request handling: each operation delegates to the persistence layer and
//! maps the outcome to an HTTP status code and a JSON-shaped body.
//!
//! Every failure flattens to one status code with the error's textual
//! description; no outcome is mapped to a distinct status.

use vstd::prelude::*;
use crate::event::{views, Event};
use crate::event_service::{
    contains_id, find_event, list_spec, remove_id, title_filter, update_title, wf, ApiError,
    EventService,
};
use crate::handler_params::{PutTitleParams, QueryParams};

verus! {

pub const STATUS_OK: u16 = 200;

pub const STATUS_BAD_REQUEST: u16 = 400;

/// The JSON body of a response, by shape. The `error` field is false on
/// every success shape and true on `ErrorMessage`; the payload stands under
/// the key the variant documents.
pub enum ResponseBody {
    /// `{"error": false, "events": [..]}`
    EventList { events: Vec<Event> },
    /// `{"error": false, "event": {..}}`
    SingleEvent { event: Event },
    /// `{"error": false, "message": ".."}`
    InfoMessage { message: String },
    /// `{"error": false, "event": ".."}`: the title update answers with a
    /// message string under the `event` key.
    TitleChanged { message: String },
    /// `{"error": true, "message": ".."}`
    ErrorMessage { message: String },
    /// `{}`: the list operation's distinct no-items marker, answered when
    /// the store returns no item list at all on the first page.
    Empty,
}

/// An HTTP response: status code and body.
pub struct ApiResponse {
    pub status: u16,
    pub body: ResponseBody,
}

/// Maps an operation outcome to a response: any success to 200 with its
/// body, any failure to 400 with the error's textual description.
pub fn result_to_response(result: Result<ResponseBody, ApiError>) -> (r: ApiResponse)
    ensures
        result matches Ok(b) ==> (r.status == STATUS_OK && r.body == b),
        result matches Err(e) ==> (r.body matches ResponseBody::ErrorMessage { message }
            && message@ == e.message_view() && r.status == STATUS_BAD_REQUEST),
{
    match result {
        Ok(body) => ApiResponse { status: STATUS_OK, body },
        Err(e) => ApiResponse {
            status: STATUS_BAD_REQUEST,
            body: ResponseBody::ErrorMessage { message: e.message() },
        },
    }
}

/// List: answers 200 with every live record, or with exactly the records
/// whose title equals the filter.
pub fn get_events(service: &EventService, params: QueryParams) -> (r: ApiResponse)
    ensures
        r.status == STATUS_OK,
        r.body matches ResponseBody::EventList { events } && views(events@) == list_spec(
            service@,
            title_filter(params.title),
        ),
{
    let events = service.get_events(params);
    result_to_response(Ok(ResponseBody::EventList { events }))
}

/// Create: 200 with a confirmation message when the id was free, 400 with
/// the conflict description when it was taken.
pub fn post_event(service: &mut EventService, event: Event) -> (r: ApiResponse)
    requires
        wf(old(service)@),
    ensures
        wf(final(service)@),
        !contains_id(old(service)@, event@.id) ==> (r.body matches ResponseBody::InfoMessage {
            message } && message@ == "event added."@ && r.status == STATUS_OK && final(service)@
            == old(service)@.push(event@)),
        contains_id(old(service)@, event@.id) ==> (r.body matches ResponseBody::ErrorMessage {
            message } && message@ == "Event exists!"@ && r.status == STATUS_BAD_REQUEST && final(
            service)@ == old(service)@),
{
    let result = service.post_event(event);
    match result {
        Ok(message) => result_to_response(Ok(ResponseBody::InfoMessage { message })),
        Err(e) => result_to_response(Err(e)),
    }
}

/// Lookup by id: 200 with the record when it exists, else 400 with the
/// not-found description.
pub fn get_event_single(service: &EventService, id: String) -> (r: ApiResponse)
    ensures
        contains_id(service@, id@) ==> (r.body matches ResponseBody::SingleEvent { event }
            && find_event(service@, id@) == Some(event@) && r.status == STATUS_OK),
        !contains_id(service@, id@) ==> (r.body matches ResponseBody::ErrorMessage { message }
            && message@ == "Event does not exist for id:"@ + id@ + "!"@ && r.status
            == STATUS_BAD_REQUEST),
{
    let result = service.get_event_single(id);
    match result {
        Ok(event) => result_to_response(Ok(ResponseBody::SingleEvent { event })),
        Err(e) => result_to_response(Err(e)),
    }
}

/// Delete by id: 200 with a confirmation message when the id existed, else
/// 400 with the not-found description; a refused delete changes nothing.
pub fn delete_event_single(service: &mut EventService, id: String) -> (r: ApiResponse)
    requires
        wf(old(service)@),
    ensures
        wf(final(service)@),
        contains_id(old(service)@, id@) ==> (r.body matches ResponseBody::InfoMessage { message }
            && message@ == "event for id: "@ + id@ + " deleted."@ && r.status == STATUS_OK
            && final(service)@ == remove_id(old(service)@, id@)),
        !contains_id(old(service)@, id@) ==> (r.body matches ResponseBody::ErrorMessage { message }
            && message@ == "Event does not exist for id: "@ + id@ + "!"@ && r.status
            == STATUS_BAD_REQUEST && final(service)@ == old(service)@),
{
    let result = service.delete_event_single(id);
    match result {
        Ok(message) => result_to_response(Ok(ResponseBody::InfoMessage { message })),
        Err(e) => result_to_response(Err(e)),
    }
}

/// Title update by id: 200 with a message under the `event` key when the id
/// existed, else 400 with the not-found description; a refused update
/// changes nothing.
pub fn put_event_title(service: &mut EventService, id: String, put_title_params: PutTitleParams)
    -> (r: ApiResponse)
    requires
        wf(old(service)@),
    ensures
        wf(final(service)@),
        contains_id(old(service)@, id@) ==> (r.body matches ResponseBody::TitleChanged { message }
            && message@ == "Event title for id: "@ + id@ + " changed to "@ + put_title_params.title@
            && r.status == STATUS_OK && final(service)@ == update_title(
            old(service)@,
            id@,
            put_title_params.title@,
        )),
        !contains_id(old(service)@, id@) ==> (r.body matches ResponseBody::ErrorMessage { message }
            && message@ == "Event does not exist for id: "@ + id@ + "!"@ && r.status
            == STATUS_BAD_REQUEST && final(service)@ == old(service)@),
{
    let result = service.put_event_title(id, put_title_params.title);
    match result {
        Ok(message) => result_to_response(Ok(ResponseBody::TitleChanged { message })),
        Err(e) => result_to_response(Err(e)),
    }
}

} // verus!
