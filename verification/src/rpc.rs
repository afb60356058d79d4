//! The surface for services: register, unregister, list, get, heartbeat,
//! forward and subscribe, each as a step on the table that hands back the
//! reply and the events to emit.

use vstd::prelude::*;
use crate::clock::Timestamp;
use crate::bus::EventBus;
use crate::bus::SseEvent;
use crate::clock::wall_clock;
use crate::event::Event;
use crate::event::EventView;
use crate::event::event_views;
use crate::event::status_event;
use crate::ident::mint_id;
use crate::listing::filter_view;
use crate::listing::is_listing;
use crate::record::RecordView;
use crate::record::ServiceDescriptor;
use crate::record::DescriptorView;
use crate::record::views;
use crate::status::Status;
use crate::table::ServiceTable;
use crate::table::TouchOutcome;
use crate::table::has_id;
use crate::table::has_place;
use crate::table::index_of;
use crate::table::registered;
use crate::table::registered_id;
use crate::table::touched;
use crate::table::without;
use crate::text::parse_port;
use crate::text::port_of;
use crate::text::same_text;
use crate::wire::ServiceInfo;
use crate::wire::info_views;
use crate::wire::time_text;
use crate::wire::to_wire;
use crate::wire::wire_of;
use crate::wire::wires_of;
use crate::wire::write_time;

verus! {

/// What the hub says to a registration.
pub const REGISTERED: &'static str = "Service registered successfully";

/// What the hub says when it took a record out.
pub const UNREGISTERED: &'static str = "Service unregistered successfully";

/// What the hub says where no record carries the identifier.
pub const NOT_FOUND: &'static str = "Service not found";

/// What the hub says to a heartbeat.
pub const HEALTHY: &'static str = "Service is healthy";

/// What the hub says to a call over the RPC surface.
pub const NOT_IMPLEMENTED: &'static str =
    "Full dynamic gRPC reflection is in development. The hub framework is ready but needs implementation of the ServerReflection API client.";

/// Reply to a registration.
#[derive(Clone, Debug, PartialEq, Eq)]
pub struct RegisterServiceResponse {
    pub success: bool,
    pub message: String,
    pub service_id: String,
}

/// Reply to a removal.
#[derive(Clone, Debug, PartialEq, Eq)]
pub struct UnregisterServiceResponse {
    pub success: bool,
    pub message: String,
}

/// Reply to a lookup by identifier.
#[derive(Clone, Debug, PartialEq, Eq)]
pub struct GetServiceResponse {
    pub service: Option<ServiceInfo>,
    pub found: bool,
}

/// Reply to a heartbeat.
#[derive(Clone, Debug, PartialEq, Eq)]
pub struct HealthCheckResponse {
    pub healthy: bool,
    pub message: String,
}

/// One item of a subscription stream.
#[derive(Clone, Debug, PartialEq, Eq)]
pub struct ServiceEvent {
    pub event_type: String,
    pub service_name: String,
    pub data: String,
    pub timestamp: String,
}

/// Why the RPC surface refuses a request.
#[derive(Clone, Debug, PartialEq, Eq)]
pub enum RpcError {
    /// The operation is not offered.
    NotImplemented { message: String },
}

/// The port that a registration advertises with `text`: the number that the
/// text writes, and 0, at which nothing listens, for a text that writes none.
pub open spec fn port_or_none(text: Seq<char>) -> u16 {
    match port_of(text) {
        Some(port) => port,
        None => 0,
    }
}

/// Reads the port that a registration advertises as text, see
/// [`port_or_none`]. So a registration succeeds whatever it advertises.
pub fn advertised_port(text: &str) -> (port: u16)
    ensures
        port == port_or_none(text@),
{
    match parse_port(text) {
        Some(port) => port,
        None => 0,
    }
}

/// The events of a registration: `service_registered` for an instance that
/// is new at its place, nothing for one that registers again.
pub open spec fn registration_events(rows: Seq<RecordView>, d: DescriptorView, fresh: Seq<char>) -> Seq<
    EventView,
> {
    if has_place(rows, d.name, d.address, d.port) {
        Seq::empty()
    } else {
        seq![EventView::ServiceRegistered { service_id: fresh, service_name: d.name }]
    }
}

/// The events of a heartbeat of `id`: a status change to online where the
/// record was offline.
pub open spec fn heartbeat_events(rows: Seq<RecordView>, id: Seq<char>) -> Seq<EventView> {
    if has_id(rows, id) && rows[index_of(rows, id)].status == Status::Offline {
        seq![
            EventView::StatusChange {
                service_id: id,
                service_name: rows[index_of(rows, id)].name,
                status: Status::Online,
                reason: None,
            },
        ]
    } else {
        Seq::empty()
    }
}

/// Registers the instance that `desc` describes, `fresh_id` being the
/// identifier drawn for it and `now` the time. Always succeeds.
pub fn register_service_at(
    table: &mut ServiceTable,
    desc: ServiceDescriptor,
    fresh_id: String,
    now: Timestamp,
) -> (r: (RegisterServiceResponse, Vec<Event>))
    requires
        old(table).wf(),
    ensures
        final(table).wf(),
        final(table)@ == registered(old(table)@, desc@, fresh_id@, now),
        r.0.success,
        r.0.message@ == REGISTERED@,
        r.0.service_id@ == registered_id(old(table)@, desc@, fresh_id@),
        event_views(r.1@) == registration_events(old(table)@, desc@, fresh_id@),
{
    let name = desc.name.clone();
    let done = table.insert_or_update(desc, fresh_id, now);
    let mut events: Vec<Event> = Vec::new();
    if done.created {
        events.push(Event::ServiceRegistered { service_id: done.id.clone(), service_name: name });
    }
    assert(event_views(events@) =~= registration_events(old(table)@, desc@, fresh_id@));
    (
        RegisterServiceResponse {
            success: true,
            message: String::from_str(REGISTERED),
            service_id: done.id,
        },
        events,
    )
}

/// Registers the instance that `desc` describes, with an identifier drawn
/// at random, 36 characters long, and at the time that the clock shows.
pub fn register_service(table: &mut ServiceTable, desc: ServiceDescriptor) -> (r: (
    RegisterServiceResponse,
    Vec<Event>,
))
    requires
        old(table).wf(),
    ensures
        final(table).wf(),
        r.0.success,
        r.0.message@ == REGISTERED@,
        has_id(final(table)@, r.0.service_id@),
        !has_place(old(table)@, desc@.name, desc@.address, desc@.port) ==> r.0.service_id@.len()
            == 36,
        exists|fresh: Seq<char>, now: Timestamp|
            {
                &&& final(table)@ == #[trigger] registered(old(table)@, desc@, fresh, now)
                &&& r.0.service_id@ == registered_id(old(table)@, desc@, fresh)
                &&& event_views(r.1@) == registration_events(old(table)@, desc@, fresh)
            },
{
    let fresh_id = mint_id();
    let now = wall_clock();
    let ghost fresh = fresh_id@;
    let r = register_service_at(table, desc, fresh_id, now);
    proof {
        crate::table::lemma_registered_keeps_sound(old(table)@, desc@, fresh, now);
        assert(final(table)@ == registered(old(table)@, desc@, fresh, now));
    }
    r
}

/// Takes the instance `id` out of the table.
pub fn unregister_service(table: &mut ServiceTable, id: &str) -> (r: UnregisterServiceResponse)
    requires
        old(table).wf(),
    ensures
        final(table).wf(),
        final(table)@ == without(old(table)@, id@),
        !has_id(final(table)@, id@),
        r.success == has_id(old(table)@, id@),
        r.message@ == (if r.success {
            UNREGISTERED@
        } else {
            NOT_FOUND@
        }),
{
    if table.remove(id) {
        UnregisterServiceResponse { success: true, message: String::from_str(UNREGISTERED) }
    } else {
        UnregisterServiceResponse { success: false, message: String::from_str(NOT_FOUND) }
    }
}

/// The records that pass `filter`, sorted by name, in wire form.
pub fn list_services(table: &ServiceTable, filter: Option<&str>) -> (out: Vec<ServiceInfo>)
    requires
        table.wf(),
    ensures
        exists|rows: Seq<RecordView>|
            #[trigger] is_listing(table@, filter_view(filter), rows) && info_views(out@)
                == wires_of(rows),
{
    let records = table.snapshot(filter);
    assert(is_listing(table@, filter_view(filter), views(records@)));
    to_wire(&records)
}

/// The record of `id` in wire form.
pub fn get_service(table: &ServiceTable, id: &str) -> (r: GetServiceResponse)
    requires
        table.wf(),
    ensures
        r.found == has_id(table@, id@),
        match r.service {
            Some(info) => r.found && info@ == wire_of(table@[index_of(table@, id@)]),
            None => !r.found,
        },
{
    match table.get(id) {
        Some(record) => GetServiceResponse { service: Some(ServiceInfo::from(&record)), found: true },
        None => GetServiceResponse { service: None, found: false },
    }
}

/// Records a heartbeat of `id` at `now`.
pub fn health_check_at(table: &mut ServiceTable, id: &str, now: Timestamp) -> (r: (
    HealthCheckResponse,
    Vec<Event>,
))
    requires
        old(table).wf(),
    ensures
        final(table).wf(),
        final(table)@ == touched(old(table)@, id@, now),
        r.0.healthy == has_id(old(table)@, id@),
        r.0.message@ == (if r.0.healthy {
            HEALTHY@
        } else {
            NOT_FOUND@
        }),
        event_views(r.1@) == heartbeat_events(old(table)@, id@),
{
    let ghost before = table@;
    let mut events: Vec<Event> = Vec::new();
    match table.touch(id, now) {
        TouchOutcome::Touched { was_offline } => {
            if was_offline {
                match table.get(id) {
                    Some(record) => {
                        proof {
                            let i = index_of(before, id@);
                            crate::table::lemma_index_of(table@, id@, i);
                        }
                        events.push(status_event(id, record.name.as_str(), Status::Online, None));
                    },
                    None => {
                        proof {
                            let i = index_of(before, id@);
                            crate::table::lemma_index_of(table@, id@, i);
                        }
                    },
                }
            }
            assert(event_views(events@) =~= heartbeat_events(before, id@));
            (HealthCheckResponse { healthy: true, message: String::from_str(HEALTHY) }, events)
        },
        TouchOutcome::NotFound => {
            assert(event_views(events@) =~= heartbeat_events(before, id@));
            (HealthCheckResponse { healthy: false, message: String::from_str(NOT_FOUND) }, events)
        },
    }
}

/// Records a heartbeat of `id` at the time that the clock shows.
pub fn health_check(table: &mut ServiceTable, id: &str) -> (r: (HealthCheckResponse, Vec<Event>))
    requires
        old(table).wf(),
    ensures
        final(table).wf(),
        r.0.healthy == has_id(old(table)@, id@),
        r.0.message@ == (if r.0.healthy {
            HEALTHY@
        } else {
            NOT_FOUND@
        }),
        event_views(r.1@) == heartbeat_events(old(table)@, id@),
        exists|now: Timestamp| final(table)@ == #[trigger] touched(old(table)@, id@, now),
{
    let now = wall_clock();
    let r = health_check_at(table, id, now);
    assert(final(table)@ == touched(old(table)@, id@, now));
    r
}

/// Forwarding over the RPC surface is not offered.
pub fn call_service() -> (r: Result<String, RpcError>)
    ensures
        r matches Err(RpcError::NotImplemented { message }) && message@ == NOT_IMPLEMENTED@,
{
    Err(RpcError::NotImplemented { message: String::from_str(NOT_IMPLEMENTED) })
}

/// An event about the service `about` goes to a subscriber that asked for
/// `filter`: it asked for every service, or for this one.
pub open spec fn concerns(about: Seq<char>, filter: Seq<char>) -> bool {
    filter.len() == 0 || about == filter
}

/// Attaches a subscriber that asked for the service `service_name` to the
/// bus. Its queue opens with the event `subscribed`. Returns the end to read
/// from.
pub fn subscribe_to_service(bus: &mut EventBus, service_name: &str) -> (receiver:
    tokio::sync::broadcast::Receiver<SseEvent>)
    ensures
        final(bus).senders().len() == old(bus).senders().len() + 1,
        final(bus).senders().drop_last() == old(bus).senders(),
{
    let head = Event::Subscribed { service_name: String::from_str(service_name) };
    bus.subscribe(head.to_wire())
}

/// Whether `event` goes to a subscriber that asked for `name_filter`, see
/// [`concerns`].
pub fn passes_filter(event: &SseEvent, name_filter: &str) -> (r: bool)
    ensures
        r == concerns(event.service_name@, name_filter@),
{
    name_filter.unicode_len() == 0 || same_text(event.service_name.as_str(), name_filter)
}

/// The item of a subscription stream that carries `event`, stamped with the
/// time `now` at which it is passed on.
pub fn stream_item(event: &SseEvent, now: Timestamp) -> (e: ServiceEvent)
    ensures
        e.event_type@ == event.event_type@,
        e.service_name@ == event.service_name@,
        e.data@ == event.data@,
        e.timestamp@ == time_text(now),
{
    ServiceEvent {
        event_type: event.event_type.clone(),
        service_name: event.service_name.clone(),
        data: event.data.clone(),
        timestamp: write_time(now),
    }
}

} // verus!
