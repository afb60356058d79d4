//! The surface for operators: which request means what, and the reply to
//! each, status code and JSON body.

use vstd::prelude::*;
use crate::bus::SseEvent;
use crate::event::Event;
use crate::event::EventView;
use crate::event::STATUS_REPORTED;
use crate::event::event_views;
use crate::event::wire_of_event;
use crate::event::wire_view;
use crate::hub::report_status;
use crate::hub::status_events;
use crate::json::array;
use crate::json::array_text;
use crate::json::bool_text;
use crate::json::boolean;
use crate::json::json_compact;
use crate::json::json_member;
use crate::json::json_string;
use crate::json::json_string_member;
use crate::json::lookup;
use crate::json::lookup_string;
use crate::json::object;
use crate::json::object_text;
use crate::json::quote;
use crate::json::reprint;
use crate::json::string_fields;
use crate::json::string_list;
use crate::json::string_members;
use crate::json::strings;
use crate::listing::is_listing;
use crate::record::RecordView;
use crate::router::CallPlan;
use crate::router::CallResult;
use crate::router::PlanError;
use crate::router::ResultView;
use crate::router::is_plan;
use crate::router::normal_name;
use crate::router::normalize_service_name;
use crate::router::plan_call;
use crate::router::text_view;
use crate::rpc::NOT_FOUND;
use crate::rpc::UNREGISTERED;
use crate::status::Status;
use crate::table::ServiceTable;
use crate::table::any_serves;
use crate::table::has_id;
use crate::table::index_of;
use crate::table::reported;
use crate::table::without;
use crate::text::begins_with;
use crate::text::chars_of;
use crate::text::parse_port;
use crate::text::port_of;
use crate::text::same_text;
use crate::text::starts_with;
use crate::text::text_of;
use crate::wire::ServiceInfo;
use crate::wire::ServiceInfoView;
use crate::wire::info_views;
use crate::wire::to_wire;
use crate::wire::wires_of;

verus! {

/// Path of the listing.
pub const SERVICES_PATH: &'static str = "/api/services";

/// What the path of one record begins with; the identifier follows.
pub const SERVICE_PREFIX: &'static str = "/api/services/";

/// Path of the schema.
pub const SCHEMA_PATH: &'static str = "/api/service-schema";

/// Path to which a status is posted.
pub const STATUS_PATH: &'static str = "/api/service-status";

/// Path to which a call is posted.
pub const CALL_PATH: &'static str = "/api/grpc-call";

/// Path of the event stream.
pub const EVENTS_PATH: &'static str = "/api/events";

/// Said of a body that is no JSON.
pub const INVALID_JSON: &'static str = "Invalid JSON request";

/// Said of a body that could not be read.
pub const UNREADABLE_BODY: &'static str = "Failed to read request body";

/// Said of a status report that lacks a member.
pub const STATUS_FIELDS_MISSING: &'static str = "Missing required fields: service_id, status";

/// Said of a status report whose word names no status.
pub const STATUS_UNKNOWN: &'static str = "Invalid status: expected online, busy or offline";

/// Said of a call request that lacks a member.
pub const CALL_FIELDS_MISSING: &'static str =
    "Missing required fields: service, method, and either (host, port) or service name for intelligent selection";

/// Seconds between two keep-alive comments on an idle event stream.
pub const KEEP_ALIVE_SECS: u64 = 30;

/// What a request asks for.
#[derive(Clone, Debug, PartialEq, Eq)]
pub enum Route {
    ListServices,
    DeleteService { id: String },
    ServiceSchema,
    ServiceStatus,
    GrpcCall,
    Events,
    NotFound,
}

/// A route as plain values.
pub enum RouteView {
    ListServices,
    DeleteService { id: Seq<char> },
    ServiceSchema,
    ServiceStatus,
    GrpcCall,
    Events,
    NotFound,
}

impl View for Route {
    type V = RouteView;

    open spec fn view(&self) -> RouteView {
        match self {
            Route::ListServices => RouteView::ListServices,
            Route::DeleteService { id } => RouteView::DeleteService { id: id@ },
            Route::ServiceSchema => RouteView::ServiceSchema,
            Route::ServiceStatus => RouteView::ServiceStatus,
            Route::GrpcCall => RouteView::GrpcCall,
            Route::Events => RouteView::Events,
            Route::NotFound => RouteView::NotFound,
        }
    }
}

/// `s` without every leading repetition of `prefix`.
pub open spec fn trimmed_start(s: Seq<char>, prefix: Seq<char>) -> Seq<char>
    decreases s.len(),
{
    if prefix.len() > 0 && begins_with(s, prefix) {
        trimmed_start(s.skip(prefix.len() as int), prefix)
    } else {
        s
    }
}

/// What the request `method path` asks for.
pub open spec fn route_of(method: Seq<char>, path: Seq<char>) -> RouteView {
    if method == "GET"@ && path == SERVICES_PATH@ {
        RouteView::ListServices
    } else if method == "DELETE"@ && begins_with(path, SERVICE_PREFIX@) {
        RouteView::DeleteService { id: trimmed_start(path, SERVICE_PREFIX@) }
    } else if method == "GET"@ && path == SCHEMA_PATH@ {
        RouteView::ServiceSchema
    } else if method == "POST"@ && path == STATUS_PATH@ {
        RouteView::ServiceStatus
    } else if method == "POST"@ && path == CALL_PATH@ {
        RouteView::GrpcCall
    } else if method == "GET"@ && path == EVENTS_PATH@ {
        RouteView::Events
    } else {
        RouteView::NotFound
    }
}

/// `s` without every leading repetition of `prefix`.
pub fn trim_start(s: &str, prefix: &str) -> (r: String)
    ensures
        r@ == trimmed_start(s@, prefix@),
{
    let v = chars_of(s);
    let p = chars_of(prefix);
    if p.len() == 0 {
        return text_of(&v);
    }
    let mut rest: Vec<char> = v;
    while starts_with(&rest, &p)
        invariant
            p@ == prefix@,
            p.len() > 0,
            trimmed_start(rest@, prefix@) == trimmed_start(s@, prefix@),
        decreases rest.len(),
    {
        let ghost whole = rest@;
        let tail = rest.split_off(p.len());
        assert(tail@ =~= whole.skip(p.len() as int));
        rest = tail;
    }
    text_of(&rest)
}

/// Reads what a request asks for off its method and path.
pub fn route(method: &str, path: &str) -> (r: Route)
    ensures
        r@ == route_of(method@, path@),
{
    if same_text(method, "GET") && same_text(path, SERVICES_PATH) {
        Route::ListServices
    } else if same_text(method, "DELETE") && starts_with(&chars_of(path), &chars_of(SERVICE_PREFIX)) {
        Route::DeleteService { id: trim_start(path, SERVICE_PREFIX) }
    } else if same_text(method, "GET") && same_text(path, SCHEMA_PATH) {
        Route::ServiceSchema
    } else if same_text(method, "POST") && same_text(path, STATUS_PATH) {
        Route::ServiceStatus
    } else if same_text(method, "POST") && same_text(path, CALL_PATH) {
        Route::GrpcCall
    } else if same_text(method, "GET") && same_text(path, EVENTS_PATH) {
        Route::Events
    } else {
        Route::NotFound
    }
}

/// A reply of the HTTP surface.
#[derive(Clone, Debug, PartialEq, Eq)]
pub struct HttpReply {
    pub status: u16,
    pub headers: Vec<(String, String)>,
    pub body: String,
}

/// The reply has this status and this JSON body.
pub open spec fn is_json_reply(reply: HttpReply, status: u16, body: Seq<char>) -> bool {
    &&& reply.status == status
    &&& reply.headers.deep_view() == seq![("content-type"@, "application/json"@)]
    &&& reply.body@ == body
}

/// The body that reports success with a message.
pub open spec fn message_body(success: bool, message: Seq<char>) -> Seq<char> {
    object_text(seq![("message"@, json_string(message)), ("success"@, bool_text(success))])
}

/// The body that reports a failure.
pub open spec fn error_body(error: Seq<char>) -> Seq<char> {
    object_text(seq![("error"@, json_string(error)), ("success"@, bool_text(false))])
}

/// The body that carries the answer to a forwarded call.
pub open spec fn data_body(data: Seq<char>) -> Seq<char> {
    object_text(seq![("data"@, data), ("success"@, bool_text(true))])
}

fn field(key: &str, value: String) -> (r: (String, String))
    ensures
        r.0@ == key@,
        r.1@ == value@,
{
    (String::from_str(key), value)
}

/// A reply with a JSON body.
pub fn json_reply(status: u16, body: String) -> (r: HttpReply)
    ensures
        is_json_reply(r, status, body@),
{
    let mut headers: Vec<(String, String)> = Vec::new();
    headers.push(field("content-type", String::from_str("application/json")));
    assert(headers.deep_view() =~= seq![("content-type"@, "application/json"@)]);
    HttpReply { status, headers, body }
}

/// A reply that reports success or failure with a message.
pub fn message_reply(status: u16, success: bool, message: &str) -> (r: HttpReply)
    ensures
        is_json_reply(r, status, message_body(success, message@)),
{
    let mut fields: Vec<(String, String)> = Vec::new();
    fields.push(field("message", quote(message)));
    fields.push(field("success", boolean(success)));
    assert(fields.deep_view() =~= seq![
        ("message"@, json_string(message@)),
        ("success"@, bool_text(success)),
    ]);
    json_reply(status, object(&fields))
}

/// A reply that reports a failure.
pub fn error_reply(status: u16, error: &str) -> (r: HttpReply)
    ensures
        is_json_reply(r, status, error_body(error@)),
{
    let mut fields: Vec<(String, String)> = Vec::new();
    fields.push(field("error", quote(error)));
    fields.push(field("success", boolean(false)));
    assert(fields.deep_view() =~= seq![
        ("error"@, json_string(error@)),
        ("success"@, bool_text(false)),
    ]);
    json_reply(status, object(&fields))
}

/// The reply to a request that asks for nothing the hub offers.
pub fn not_found() -> (r: HttpReply)
    ensures
        r.status == 404,
        r.headers@.len() == 0,
        r.body@ == "Not Found"@,
{
    HttpReply { status: 404, headers: Vec::new(), body: String::from_str("Not Found") }
}

/// The reply to a request whose body could not be read.
pub fn unreadable_body() -> (r: HttpReply)
    ensures
        is_json_reply(r, 400, error_body(UNREADABLE_BODY@)),
{
    error_reply(400, UNREADABLE_BODY)
}

/// The members of the JSON object that shows one record.
pub open spec fn service_fields(w: ServiceInfoView) -> Seq<(Seq<char>, Seq<char>)> {
    seq![
        ("last_heartbeat"@, json_string(w.last_heartbeat)),
        ("metadata"@, object_text(string_fields(w.metadata))),
        ("methods"@, array_text(strings(w.methods))),
        ("registered_at"@, json_string(w.registered_at)),
        ("service_address"@, json_string(w.service_address)),
        ("service_id"@, json_string(w.service_id)),
        ("service_name"@, json_string(w.service_name)),
        ("service_port"@, json_string(w.service_port)),
        ("service_version"@, json_string(w.service_version)),
        ("status"@, json_string(w.status)),
    ]
}

/// The JSON objects that show the records, in order.
pub open spec fn service_items(list: Seq<ServiceInfoView>) -> Seq<Seq<char>> {
    Seq::new(list.len(), |i: int| object_text(service_fields(list[i])))
}

/// The body of a listing.
pub open spec fn services_body(list: Seq<ServiceInfoView>) -> Seq<char> {
    object_text(seq![("services"@, array_text(service_items(list)))])
}

/// The description that the schema gives of the method `name`.
pub open spec fn method_schema(name: Seq<char>) -> Seq<char> {
    object_text(
        seq![
            ("description"@, json_string(name + " method"@)),
            ("name"@, json_string(name)),
            (
                "request_schema"@,
                object_text(
                    seq![
                        ("properties"@, object_text(Seq::empty())),
                        ("type"@, json_string("object"@)),
                    ],
                ),
            ),
        ],
    )
}

/// The descriptions of the methods, in order.
pub open spec fn method_schemas(methods: Seq<Seq<char>>) -> Seq<Seq<char>> {
    Seq::new(methods.len(), |i: int| method_schema(methods[i]))
}

/// The members of the JSON object that describes one record in the schema.
pub open spec fn schema_fields(w: ServiceInfoView) -> Seq<(Seq<char>, Seq<char>)> {
    seq![
        ("metadata"@, object_text(string_fields(w.metadata))),
        ("methods"@, array_text(method_schemas(w.methods))),
        ("service_address"@, json_string(w.service_address)),
        ("service_name"@, json_string(w.service_name)),
        ("service_port"@, json_string(w.service_port)),
        ("service_version"@, json_string(w.service_version)),
    ]
}

/// The JSON objects that describe the records, in order.
pub open spec fn schema_items(list: Seq<ServiceInfoView>) -> Seq<Seq<char>> {
    Seq::new(list.len(), |i: int| object_text(schema_fields(list[i])))
}

/// The body of the schema.
pub open spec fn schemas_body(list: Seq<ServiceInfoView>) -> Seq<char> {
    object_text(seq![("schemas"@, array_text(schema_items(list)))])
}

/// The JSON object that shows one record.
pub fn service_json(info: &ServiceInfo) -> (s: String)
    ensures
        s@ == object_text(service_fields(info@)),
{
    let mut fields: Vec<(String, String)> = Vec::new();
    fields.push(field("last_heartbeat", quote(info.last_heartbeat.as_str())));
    fields.push(field("metadata", object(&string_members(&info.metadata))));
    fields.push(field("methods", array(&string_list(&info.methods))));
    fields.push(field("registered_at", quote(info.registered_at.as_str())));
    fields.push(field("service_address", quote(info.service_address.as_str())));
    fields.push(field("service_id", quote(info.service_id.as_str())));
    fields.push(field("service_name", quote(info.service_name.as_str())));
    fields.push(field("service_port", quote(info.service_port.as_str())));
    fields.push(field("service_version", quote(info.service_version.as_str())));
    fields.push(field("status", quote(info.status.as_str())));
    assert(fields.deep_view() =~= service_fields(info@));
    object(&fields)
}

/// The description that the schema gives of the method `name`.
pub fn method_json(name: &str) -> (s: String)
    ensures
        s@ == method_schema(name@),
{
    let mut inner: Vec<(String, String)> = Vec::new();
    let none: Vec<(String, String)> = Vec::new();
    assert(none.deep_view() =~= Seq::<(Seq<char>, Seq<char>)>::empty());
    inner.push(field("properties", object(&none)));
    inner.push(field("type", quote("object")));
    assert(inner.deep_view() =~= seq![
        ("properties"@, object_text(Seq::empty())),
        ("type"@, json_string("object"@)),
    ]);
    let mut description = String::from_str(name);
    description.append(" method");
    let mut fields: Vec<(String, String)> = Vec::new();
    fields.push(field("description", quote(description.as_str())));
    fields.push(field("name", quote(name)));
    fields.push(field("request_schema", object(&inner)));
    assert(fields.deep_view() =~= seq![
        ("description"@, json_string(name@ + " method"@)),
        ("name"@, json_string(name@)),
        (
            "request_schema"@,
            object_text(
                seq![
                    ("properties"@, object_text(Seq::empty())),
                    ("type"@, json_string("object"@)),
                ],
            ),
        ),
    ]);
    object(&fields)
}

/// The JSON object that describes one record in the schema.
pub fn schema_json(info: &ServiceInfo) -> (s: String)
    ensures
        s@ == object_text(schema_fields(info@)),
{
    let mut methods: Vec<String> = Vec::new();
    let mut i: usize = 0;
    while i < info.methods.len()
        invariant
            i <= info.methods.len(),
            methods.len() == i,
            forall|j: int| 0 <= j < i ==> (#[trigger] methods@[j])@ == method_schema(info.methods@[j]@),
        decreases info.methods.len() - i,
    {
        methods.push(method_json(info.methods[i].as_str()));
        i += 1;
    }
    assert(methods.deep_view() =~= method_schemas(info@.methods));
    let mut fields: Vec<(String, String)> = Vec::new();
    fields.push(field("metadata", object(&string_members(&info.metadata))));
    fields.push(field("methods", array(&methods)));
    fields.push(field("service_address", quote(info.service_address.as_str())));
    fields.push(field("service_name", quote(info.service_name.as_str())));
    fields.push(field("service_port", quote(info.service_port.as_str())));
    fields.push(field("service_version", quote(info.service_version.as_str())));
    assert(fields.deep_view() =~= schema_fields(info@));
    object(&fields)
}

/// The reply to `GET /api/services`: every record, sorted by name.
pub fn list_services(table: &ServiceTable) -> (r: HttpReply)
    requires
        table.wf(),
    ensures
        exists|rows: Seq<RecordView>|
            #[trigger] is_listing(table@, None, rows) && is_json_reply(
                r,
                200,
                services_body(wires_of(rows)),
            ),
{
    let list = crate::rpc::list_services(table, None);
    let mut items: Vec<String> = Vec::new();
    let mut i: usize = 0;
    while i < list.len()
        invariant
            i <= list.len(),
            items.len() == i,
            forall|j: int|
                0 <= j < i ==> (#[trigger] items@[j])@ == service_items(info_views(list@))[j],
        decreases list.len() - i,
    {
        items.push(service_json(&list[i]));
        i += 1;
    }
    assert(items.deep_view() =~= service_items(info_views(list@)));
    let mut fields: Vec<(String, String)> = Vec::new();
    fields.push(field("services", array(&items)));
    assert(fields.deep_view() =~= seq![("services"@, array_text(service_items(info_views(list@))))]);
    json_reply(200, object(&fields))
}

/// The reply to `GET /api/service-schema`: what every record offers,
/// sorted by name.
pub fn service_schema(table: &ServiceTable) -> (r: HttpReply)
    requires
        table.wf(),
    ensures
        exists|rows: Seq<RecordView>|
            #[trigger] is_listing(table@, None, rows) && is_json_reply(
                r,
                200,
                schemas_body(wires_of(rows)),
            ),
{
    let list = crate::rpc::list_services(table, None);
    let mut items: Vec<String> = Vec::new();
    let mut i: usize = 0;
    while i < list.len()
        invariant
            i <= list.len(),
            items.len() == i,
            forall|j: int|
                0 <= j < i ==> (#[trigger] items@[j])@ == schema_items(info_views(list@))[j],
        decreases list.len() - i,
    {
        items.push(schema_json(&list[i]));
        i += 1;
    }
    assert(items.deep_view() =~= schema_items(info_views(list@)));
    let mut fields: Vec<(String, String)> = Vec::new();
    fields.push(field("schemas", array(&items)));
    assert(fields.deep_view() =~= seq![("schemas"@, array_text(schema_items(info_views(list@))))]);
    json_reply(200, object(&fields))
}

/// The reply to `DELETE /api/services/{id}`: the record is taken out.
pub fn delete_service(table: &mut ServiceTable, id: &str) -> (r: HttpReply)
    requires
        old(table).wf(),
    ensures
        final(table).wf(),
        final(table)@ == without(old(table)@, id@),
        is_json_reply(
            r,
            200,
            if has_id(old(table)@, id@) {
                message_body(true, UNREGISTERED@)
            } else {
                message_body(false, NOT_FOUND@)
            },
        ),
{
    if table.remove(id) {
        message_reply(200, true, UNREGISTERED)
    } else {
        message_reply(200, false, NOT_FOUND)
    }
}

/// The message that confirms a status report.
pub open spec fn status_updated_text(id: Seq<char>, status: Status) -> Seq<char> {
    "Service "@ + id + " status updated to "@ + status.label()
}

/// The message that tells that no record carries `id`.
pub open spec fn no_such_service_text(id: Seq<char>) -> Seq<char> {
    "Service "@ + id + " not found"@
}

/// The message that tells that a report was refused because the record is offline.
pub open spec fn offline_text(id: Seq<char>) -> Seq<char> {
    "Service "@ + id + " is offline"@
}

/// What a posted status report asks for, given whether its body is JSON
/// and the two members that it has to carry.
pub fn decide_status_request(valid: bool, service_id: Option<String>, status: Option<String>) -> (r:
    Result<(String, String), HttpReply>)
    ensures
        match r {
            Ok(fields) => valid && service_id == Some(fields.0) && status == Some(fields.1),
            Err(reply) => if !valid {
                is_json_reply(reply, 400, error_body(INVALID_JSON@))
            } else {
                (service_id.is_none() || status.is_none()) && is_json_reply(
                    reply,
                    400,
                    error_body(STATUS_FIELDS_MISSING@),
                )
            },
        },
{
    if !valid {
        return Err(error_reply(400, INVALID_JSON));
    }
    match (service_id, status) {
        (Some(id), Some(st)) => Ok((id, st)),
        _ => Err(error_reply(400, STATUS_FIELDS_MISSING)),
    }
}

/// Reads a posted status report.
pub fn read_status_request(body: &str) -> (r: Result<(String, String), HttpReply>)
    ensures
        match r {
            Ok(fields) => {
                &&& json_compact(body@).is_some()
                &&& json_string_member(body@, "service_id"@) == Some(fields.0@)
                &&& json_string_member(body@, "status"@) == Some(fields.1@)
            },
            Err(reply) => if json_compact(body@).is_none() {
                is_json_reply(reply, 400, error_body(INVALID_JSON@))
            } else {
                (json_string_member(body@, "service_id"@).is_none() || json_string_member(
                    body@,
                    "status"@,
                ).is_none()) && is_json_reply(reply, 400, error_body(STATUS_FIELDS_MISSING@))
            },
        },
{
    let valid = reprint(body).is_some();
    let id = lookup_string(body, "service_id");
    let status = lookup_string(body, "status");
    decide_status_request(valid, id, status)
}

/// What becomes of a status `word` that an operator posted for `id`: the
/// table goes from `before` to `after`, `reply` is sent and `events` are
/// emitted. A word that names no status is refused with 400, an unknown `id`
/// with 404. Else the status is reported to the table, and the reply is 200
/// with a message and with `success`, which tells whether the record now has
/// the status; it has not where the record is offline.
pub open spec fn status_posted(
    before: Seq<RecordView>,
    id: Seq<char>,
    word: Seq<char>,
    after: Seq<RecordView>,
    reply: HttpReply,
    events: Seq<EventView>,
) -> bool {
    match Status::from_label(word) {
        None => {
            &&& after == before
            &&& events.len() == 0
            &&& is_json_reply(reply, 400, error_body(STATUS_UNKNOWN@))
        },
        Some(s) => {
            &&& after == reported(before, id, s)
            &&& events == status_events(before, id, s, Some(STATUS_REPORTED@))
            &&& if !has_id(before, id) {
                is_json_reply(reply, 404, error_body(no_such_service_text(id)))
            } else if before[index_of(before, id)].status.after_report(s) == s {
                is_json_reply(reply, 200, message_body(true, status_updated_text(id, s)))
            } else {
                is_json_reply(reply, 200, message_body(false, offline_text(id)))
            }
        },
    }
}

/// Applies a status that an operator posted for `id`, see [`status_posted`].
pub fn post_status(table: &mut ServiceTable, id: &str, status: &str) -> (r: (HttpReply, Vec<Event>))
    requires
        old(table).wf(),
    ensures
        final(table).wf(),
        status_posted(old(table)@, id@, status@, final(table)@, r.0, event_views(r.1@)),
{
    let s = match Status::parse(status) {
        Some(s) => s,
        None => {
            return (error_reply(400, STATUS_UNKNOWN), Vec::new());
        },
    };
    let found = table.get(id);
    let events = report_status(table, id, s, Some(STATUS_REPORTED));
    let mut text = String::from_str("Service ");
    text.append(id);
    let reply = match found {
        None => {
            text.append(" not found");
            error_reply(404, text.as_str())
        },
        Some(record) => {
            if record.status.report(s) == s {
                text.append(" status updated to ");
                text.append(s.as_str());
                message_reply(200, true, text.as_str())
            } else {
                text.append(" is offline");
                message_reply(200, false, text.as_str())
            }
        },
    };
    (reply, events)
}

/// The reply to `POST /api/service-status` with this body, and the events
/// to emit. A body that is no JSON, or lacks one of the two members, is
/// refused with 400 and changes nothing; else see [`status_posted`].
pub fn service_status(table: &mut ServiceTable, body: &str) -> (r: (HttpReply, Vec<Event>))
    requires
        old(table).wf(),
    ensures
        final(table).wf(),
        if json_compact(body@).is_none() {
            &&& final(table)@ == old(table)@
            &&& r.1@.len() == 0
            &&& is_json_reply(r.0, 400, error_body(INVALID_JSON@))
        } else {
            match (json_string_member(body@, "service_id"@), json_string_member(body@, "status"@)) {
                (Some(id), Some(word)) => status_posted(
                    old(table)@,
                    id,
                    word,
                    final(table)@,
                    r.0,
                    event_views(r.1@),
                ),
                _ => {
                    &&& final(table)@ == old(table)@
                    &&& r.1@.len() == 0
                    &&& is_json_reply(r.0, 400, error_body(STATUS_FIELDS_MISSING@))
                },
            }
        },
{
    match read_status_request(body) {
        Ok(fields) => post_status(table, fields.0.as_str(), fields.1.as_str()),
        Err(reply) => (reply, Vec::new()),
    }
}

/// The message that tells that no instance of `name` is registered.
pub open spec fn no_instance_text(name: Seq<char>) -> Seq<char> {
    "No available service found for '"@ + name + "'"@
}

/// The port that an optional text names.
pub open spec fn port_view(port: Option<String>) -> Option<u16> {
    match port {
        Some(text) => port_of(text@),
        None => None,
    }
}

/// `r` is what becomes of a request to forward a call: whether its body is
/// JSON, the members that it carries as far as it has them, and `name`, the
/// normal name of the service. A body that is no JSON, or that lacks the
/// service, the method, or one of host and port where the other is there,
/// is refused with 400. A port that cannot be read counts as missing. With
/// neither host nor port, a name under which nothing is registered gives 404.
pub open spec fn call_planned(
    rows: Seq<RecordView>,
    valid: bool,
    service: Option<Seq<char>>,
    method: Option<Seq<char>>,
    host: Option<Seq<char>>,
    port: Option<u16>,
    input: Option<Seq<char>>,
    name: Seq<char>,
    r: Result<CallPlan, HttpReply>,
) -> bool {
    if !valid {
        r matches Err(reply) && is_json_reply(reply, 400, error_body(INVALID_JSON@))
    } else if service.is_none() || method.is_none() || host.is_some() != port.is_some() {
        r matches Err(reply) && is_json_reply(reply, 400, error_body(CALL_FIELDS_MISSING@))
    } else if host.is_none() && !any_serves(rows, name, None) {
        r matches Err(reply) && is_json_reply(reply, 404, error_body(no_instance_text(name)))
    } else {
        r matches Ok(plan) && is_plan(
            rows,
            service.unwrap(),
            method.unwrap(),
            host,
            port,
            input,
            name,
            plan,
        )
    }
}

/// Plans a forwarded call from what the request carries, see [`call_planned`].
pub fn decide_call(
    table: &ServiceTable,
    valid: bool,
    service: Option<String>,
    method: Option<String>,
    host: Option<String>,
    port: Option<String>,
    input: Option<String>,
    name: &str,
) -> (r: Result<CallPlan, HttpReply>)
    ensures
        call_planned(
            table@,
            valid,
            text_view(service),
            text_view(method),
            text_view(host),
            port_view(port),
            text_view(input),
            name@,
            r,
        ),
{
    if !valid {
        return Err(error_reply(400, INVALID_JSON));
    }
    let port = match port {
        Some(text) => parse_port(text.as_str()),
        None => None,
    };
    match plan_call(table, service, method, host, port, input, name) {
        Ok(plan) => Ok(plan),
        Err(PlanError::InvalidInput) => Err(error_reply(400, CALL_FIELDS_MISSING)),
        Err(PlanError::NoInstance { name: missing }) => {
            let mut text = String::from_str("No available service found for '");
            text.append(missing.as_str());
            text.append("'");
            Err(error_reply(404, text.as_str()))
        },
    }
}

/// The normal name of the service that an optional text names; empty where
/// there is none.
pub open spec fn name_view(service: Option<Seq<char>>) -> Seq<char> {
    match service {
        Some(s) => normal_name(s),
        None => Seq::empty(),
    }
}

/// Plans the call that `POST /api/grpc-call` with this body asks for.
pub fn plan_grpc_call(table: &ServiceTable, body: &str) -> (r: Result<CallPlan, HttpReply>)
    ensures
        call_planned(
            table@,
            json_compact(body@).is_some(),
            json_string_member(body@, "service"@),
            json_string_member(body@, "method"@),
            json_string_member(body@, "host"@),
            match json_string_member(body@, "port"@) {
                Some(text) => port_of(text),
                None => None,
            },
            json_member(body@, "input"@),
            name_view(json_string_member(body@, "service"@)),
            r,
        ),
{
    let valid = reprint(body).is_some();
    let service = lookup_string(body, "service");
    let method = lookup_string(body, "method");
    let host = lookup_string(body, "host");
    let port = lookup_string(body, "port");
    let input = lookup(body, "input");
    let name = match &service {
        Some(s) => normalize_service_name(s.as_str()),
        None => String::new(),
    };
    decide_call(table, valid, service, method, host, port, input, name.as_str())
}

/// The reply that hands the result of a forwarded call to the caller.
pub fn grpc_call_reply(result: &CallResult) -> (r: HttpReply)
    ensures
        is_json_reply(
            r,
            200,
            match result@ {
                ResultView::Data(d) => data_body(d),
                ResultView::Failed { message, .. } => error_body(message),
            },
        ),
{
    match result {
        CallResult::Data(d) => {
            let mut fields: Vec<(String, String)> = Vec::new();
            fields.push(field("data", d.clone()));
            fields.push(field("success", boolean(true)));
            assert(fields.deep_view() =~= seq![("data"@, d@), ("success"@, bool_text(true))]);
            json_reply(200, object(&fields))
        },
        CallResult::Failed { message, .. } => error_reply(200, message.as_str()),
    }
}

/// The headers that open an event stream.
pub open spec fn stream_headers() -> Seq<(Seq<char>, Seq<char>)> {
    seq![
        ("content-type"@, "text/event-stream"@),
        ("cache-control"@, "no-cache"@),
        ("connection"@, "keep-alive"@),
        ("keep-alive"@, "timeout=60"@),
        ("x-accel-buffering"@, "no"@),
        ("access-control-allow-origin"@, "*"@),
        ("access-control-allow-headers"@, "cache-control"@),
    ]
}

/// The head of the reply to `GET /api/events`: status 200 with the headers of
/// an event stream, and the event that opens the stream.
pub fn events_head() -> (r: (HttpReply, SseEvent))
    ensures
        r.0.status == 200,
        r.0.headers.deep_view() == stream_headers(),
        r.0.body@.len() == 0,
        wire_view(r.1) == wire_of_event(EventView::Connection),
{
    let mut headers: Vec<(String, String)> = Vec::new();
    headers.push(field("content-type", String::from_str("text/event-stream")));
    headers.push(field("cache-control", String::from_str("no-cache")));
    headers.push(field("connection", String::from_str("keep-alive")));
    headers.push(field("keep-alive", String::from_str("timeout=60")));
    headers.push(field("x-accel-buffering", String::from_str("no")));
    headers.push(field("access-control-allow-origin", String::from_str("*")));
    headers.push(field("access-control-allow-headers", String::from_str("cache-control")));
    assert(headers.deep_view() =~= stream_headers());
    (HttpReply { status: 200, headers, body: String::new() }, Event::Connection.to_wire())
}

} // verus!
