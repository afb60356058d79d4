//! The events that mirror every change of the table, and how they are
//! written for subscribers.

use vstd::prelude::*;
use crate::bus::SseEvent;
use crate::json::json_string;
use crate::json::object;
use crate::json::object_text;
use crate::json::quote;
use crate::status::Status;

verus! {

/// Reason given when the active probe takes an instance offline.
pub const HEALTH_CHECK_FAILED: &'static str = "Health check failed";

/// Reason given when the router could not reach an instance.
pub const DIRECT_CONNECTION_FAILED: &'static str = "Direct connection failed";

/// Reason given when an operator posted the status.
pub const STATUS_REPORTED: &'static str = "Service reported status change";

/// Something that subscribers are told.
#[derive(Clone, Debug, PartialEq, Eq)]
pub enum Event {
    /// An instance registered for the first time.
    ServiceRegistered { service_id: String, service_name: String },
    /// The stored status of an instance changed.
    StatusChange { service_id: String, service_name: String, status: Status, reason: Option<String> },
    /// Head of a subscription stream of the RPC surface.
    Subscribed { service_name: String },
    /// Head of an event stream of the HTTP surface.
    Connection,
}

/// An event as plain values.
pub enum EventView {
    ServiceRegistered { service_id: Seq<char>, service_name: Seq<char> },
    StatusChange {
        service_id: Seq<char>,
        service_name: Seq<char>,
        status: Status,
        reason: Option<Seq<char>>,
    },
    Subscribed { service_name: Seq<char> },
    Connection,
}

impl EventView {
    /// The `event_type` under which the event travels.
    pub open spec fn kind(self) -> Seq<char> {
        match self {
            EventView::ServiceRegistered { .. } => "service_registered"@,
            EventView::StatusChange { .. } => "status_change"@,
            EventView::Subscribed { .. } => "subscribed"@,
            EventView::Connection => "connection"@,
        }
    }

    /// The name of the service that the event is about; empty where it is
    /// about none.
    pub open spec fn service_name(self) -> Seq<char> {
        match self {
            EventView::ServiceRegistered { service_name, .. } => service_name,
            EventView::StatusChange { service_name, .. } => service_name,
            EventView::Subscribed { service_name } => service_name,
            EventView::Connection => Seq::empty(),
        }
    }

    /// The members of the JSON object that the event carries.
    pub open spec fn fields(self) -> Seq<(Seq<char>, Seq<char>)> {
        match self {
            EventView::ServiceRegistered { service_id, service_name } => seq![
                ("service_id"@, json_string(service_id)),
                ("service_name"@, json_string(service_name)),
                ("status"@, json_string(Status::Online.label())),
            ],
            EventView::StatusChange { service_id, service_name, status, reason } => {
                let head = match reason {
                    Some(why) => seq![("reason"@, json_string(why))],
                    None => Seq::empty(),
                };
                head + seq![
                    ("service_id"@, json_string(service_id)),
                    ("service_name"@, json_string(service_name)),
                    ("status"@, json_string(status.label())),
                ]
            },
            EventView::Subscribed { .. } => Seq::empty(),
            EventView::Connection => seq![
                ("message"@, json_string("SSE connection established"@)),
                ("type"@, json_string("connected"@)),
            ],
        }
    }

    /// The JSON payload of the event.
    pub open spec fn payload(self) -> Seq<char> {
        object_text(self.fields())
    }

    /// The event tells that the stored status of `id` is now `status`.
    pub open spec fn tells_status(self, id: Seq<char>, status: Status) -> bool {
        self matches EventView::StatusChange { service_id, status: s, .. } && service_id == id && s
            == status
    }
}

impl View for Event {
    type V = EventView;

    open spec fn view(&self) -> EventView {
        match self {
            Event::ServiceRegistered { service_id, service_name } => EventView::ServiceRegistered {
                service_id: service_id@,
                service_name: service_name@,
            },
            Event::StatusChange { service_id, service_name, status, reason } => EventView::StatusChange {
                service_id: service_id@,
                service_name: service_name@,
                status: *status,
                reason: match reason {
                    Some(why) => Some(why@),
                    None => None,
                },
            },
            Event::Subscribed { service_name } => EventView::Subscribed {
                service_name: service_name@,
            },
            Event::Connection => EventView::Connection,
        }
    }
}

/// The events of a list as plain values.
pub open spec fn event_views(events: Seq<Event>) -> Seq<EventView> {
    Seq::new(events.len(), |i: int| events[i]@)
}

/// An event on the wire as plain values: its kind, the service that it is
/// about, and its payload.
pub open spec fn wire_view(e: SseEvent) -> (Seq<char>, Seq<char>, Seq<char>) {
    (e.event_type@, e.service_name@, e.data@)
}

/// The wire form of an event.
pub open spec fn wire_of_event(e: EventView) -> (Seq<char>, Seq<char>, Seq<char>) {
    (e.kind(), e.service_name(), e.payload())
}

/// The frame of the event stream that carries an event of kind `kind` with
/// the payload `data`.
pub open spec fn frame_text(kind: Seq<char>, data: Seq<char>) -> Seq<char> {
    "event: "@ + kind + "\ndata: "@ + data + "\n\n"@
}

fn pair(key: &str, value: String) -> (r: (String, String))
    ensures
        r.0@ == key@,
        r.1@ == value@,
{
    (String::from_str(key), value)
}

impl Event {
    /// The `event_type` under which the event travels.
    pub fn event_type(&self) -> (s: &'static str)
        ensures
            s@ == self@.kind(),
    {
        match self {
            Event::ServiceRegistered { .. } => "service_registered",
            Event::StatusChange { .. } => "status_change",
            Event::Subscribed { .. } => "subscribed",
            Event::Connection => "connection",
        }
    }

    /// The JSON payload of the event.
    pub fn payload(&self) -> (s: String)
        ensures
            s@ == self@.payload(),
    {
        let mut fields: Vec<(String, String)> = Vec::new();
        match self {
            Event::ServiceRegistered { service_id, service_name } => {
                fields.push(pair("service_id", quote(service_id.as_str())));
                fields.push(pair("service_name", quote(service_name.as_str())));
                fields.push(pair("status", quote(Status::Online.as_str())));
            },
            Event::StatusChange { service_id, service_name, status, reason } => {
                match reason {
                    Some(why) => {
                        fields.push(pair("reason", quote(why.as_str())));
                    },
                    None => {},
                }
                fields.push(pair("service_id", quote(service_id.as_str())));
                fields.push(pair("service_name", quote(service_name.as_str())));
                fields.push(pair("status", quote(status.as_str())));
            },
            Event::Subscribed { .. } => {},
            Event::Connection => {
                fields.push(pair("message", quote("SSE connection established")));
                fields.push(pair("type", quote("connected")));
            },
        }
        assert(fields.deep_view() =~= self@.fields());
        object(&fields)
    }

    /// The name of the service that the event is about; empty where it is
    /// about none.
    pub fn service_name(&self) -> (s: String)
        ensures
            s@ == self@.service_name(),
    {
        match self {
            Event::ServiceRegistered { service_name, .. } => service_name.clone(),
            Event::StatusChange { service_name, .. } => service_name.clone(),
            Event::Subscribed { service_name } => service_name.clone(),
            Event::Connection => String::new(),
        }
    }

    /// The event as it is handed to the bus.
    pub fn to_wire(&self) -> (e: SseEvent)
        ensures
            wire_view(e) == wire_of_event(self@),
    {
        SseEvent {
            event_type: String::from_str(self.event_type()),
            service_name: self.service_name(),
            data: self.payload(),
        }
    }
}

/// One frame of the event stream: the kind and the payload on a line each,
/// closed by an empty line.
pub fn sse_frame(event: &SseEvent) -> (s: String)
    ensures
        s@ == frame_text(event.event_type@, event.data@),
{
    let mut s = String::from_str("event: ");
    s.append(event.event_type.as_str());
    s.append("\ndata: ");
    s.append(event.data.as_str());
    s.append("\n\n");
    s
}

/// The comment that keeps an idle event stream open.
pub fn keep_alive_frame() -> (s: &'static str)
    ensures
        s@ == ": keep-alive\n\n"@,
{
    ": keep-alive\n\n"
}

/// A status change of `record_id` named `name`, as an event.
pub fn status_event(id: &str, name: &str, status: Status, reason: Option<&str>) -> (e: Event)
    ensures
        e@ == (EventView::StatusChange {
            service_id: id@,
            service_name: name@,
            status,
            reason: match reason {
                Some(why) => Some(why@),
                None => None,
            },
        }),
{
    Event::StatusChange {
        service_id: String::from_str(id),
        service_name: String::from_str(name),
        status,
        reason: match reason {
            Some(why) => Some(String::from_str(why)),
            None => None,
        },
    }
}

} // verus!
