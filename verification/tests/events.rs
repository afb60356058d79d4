use grpc_hub::bus::EventBus;
use grpc_hub::bus::SseEvent;
use grpc_hub::clock::Timestamp;
use grpc_hub::event::keep_alive_frame;
use grpc_hub::event::sse_frame;
use grpc_hub::event::status_event;
use grpc_hub::event::Event;
use grpc_hub::hub::cleanup_stale_services;
use grpc_hub::hub::health_check_service;
use grpc_hub::hub::mark_service_offline;
use grpc_hub::hub::report_status;
use grpc_hub::hub::set_service_busy;
use grpc_hub::hub::set_service_online;
use grpc_hub::json::array;
use grpc_hub::json::boolean;
use grpc_hub::json::object;
use grpc_hub::json::string_list;
use grpc_hub::json::string_members;
use grpc_hub::record::ServiceDescriptor;
use grpc_hub::status::Status;
use grpc_hub::table::ServiceTable;
use tokio::sync::broadcast::error::TryRecvError;

fn desc(name: &str, address: &str, port: u16) -> ServiceDescriptor {
    ServiceDescriptor {
        name: name.to_string(),
        version: "1.0.0".to_string(),
        address: address.to_string(),
        port,
        methods: vec![],
        metadata: vec![],
    }
}

fn change(id: &str, name: &str, status: Status, reason: Option<&str>) -> Event {
    Event::StatusChange {
        service_id: id.to_string(),
        service_name: name.to_string(),
        status,
        reason: reason.map(|r| r.to_string()),
    }
}

fn wire(kind: &str, data: &str) -> SseEvent {
    SseEvent { event_type: kind.to_string(), service_name: String::new(), data: data.to_string() }
}

#[test]
fn json_objects_and_arrays_are_put_together() {
    assert_eq!(object(&vec![]), "{}");
    assert_eq!(array(&vec![]), "[]");
    assert_eq!(array(&vec!["1".to_string()]), "[1]");
    assert_eq!(array(&vec!["1".to_string(), "true".to_string(), "{}".to_string()]), "[1,true,{}]");
    assert_eq!(
        object(&vec![
            ("a".to_string(), "1".to_string()),
            ("b c".to_string(), "[2]".to_string())
        ]),
        "{\"a\":1,\"b c\":[2]}"
    );
    assert_eq!(boolean(true), "true");
    assert_eq!(boolean(false), "false");
}

#[test]
fn json_strings_are_escaped() {
    assert_eq!(
        string_list(&vec!["plain".to_string(), "a\"b\\c\n".to_string(), "é".to_string()]),
        vec!["\"plain\"".to_string(), "\"a\\\"b\\\\c\\n\"".to_string(), "\"é\"".to_string()]
    );
    assert_eq!(
        string_members(&vec![("k\"".to_string(), "v\t".to_string())]),
        vec![("k\"".to_string(), "\"v\\t\"".to_string())]
    );
    assert_eq!(
        object(&string_members(&vec![("k\"".to_string(), "v\t".to_string())])),
        "{\"k\\\"\":\"v\\t\"}"
    );
}

#[test]
fn event_kinds_are_the_wire_names() {
    let registered =
        Event::ServiceRegistered { service_id: "X".to_string(), service_name: "A".to_string() };
    assert_eq!(registered.event_type(), "service_registered");
    assert_eq!(change("X", "A", Status::Busy, None).event_type(), "status_change");
    assert_eq!(Event::Subscribed { service_name: "A".to_string() }.event_type(), "subscribed");
    assert_eq!(Event::Connection.event_type(), "connection");
}

#[test]
fn event_payloads() {
    let registered =
        Event::ServiceRegistered { service_id: "X".to_string(), service_name: "A".to_string() };
    assert_eq!(
        registered.payload(),
        "{\"service_id\":\"X\",\"service_name\":\"A\",\"status\":\"online\"}"
    );
    assert_eq!(
        change("X", "A", Status::Busy, None).payload(),
        "{\"service_id\":\"X\",\"service_name\":\"A\",\"status\":\"busy\"}"
    );
    assert_eq!(
        change("X", "A", Status::Offline, Some("Health check failed")).payload(),
        "{\"reason\":\"Health check failed\",\"service_id\":\"X\",\"service_name\":\"A\",\"status\":\"offline\"}"
    );
    assert_eq!(Event::Subscribed { service_name: "A".to_string() }.payload(), "{}");
    assert_eq!(
        Event::Connection.payload(),
        "{\"message\":\"SSE connection established\",\"type\":\"connected\"}"
    );
    let parsed: serde_json::Value =
        serde_json::from_str(&change("X\"", "A", Status::Online, Some("r")).payload()).unwrap();
    assert_eq!(parsed["service_id"], "X\"");
    assert_eq!(parsed["status"], "online");
    assert_eq!(parsed["reason"], "r");
}

#[test]
fn events_are_framed_for_the_stream() {
    let e = change("X", "A", Status::Busy, None).to_wire();
    assert_eq!(e.event_type, "status_change");
    assert_eq!(e.service_name, "A");
    assert_eq!(Event::Connection.to_wire().service_name, "");
    assert_eq!(Event::Subscribed { service_name: "S".to_string() }.service_name(), "S");
    assert_eq!(
        sse_frame(&e),
        "event: status_change\ndata: {\"service_id\":\"X\",\"service_name\":\"A\",\"status\":\"busy\"}\n\n"
    );
    assert_eq!(sse_frame(&wire("connection", "{}")), "event: connection\ndata: {}\n\n");
    assert_eq!(sse_frame(&wire("", "")), "event: \ndata: \n\n");
    assert_eq!(keep_alive_frame(), ": keep-alive\n\n");
}

#[test]
fn status_event_carries_its_fields() {
    assert_eq!(status_event("X", "A", Status::Online, None), change("X", "A", Status::Online, None));
    assert_eq!(
        status_event("X", "A", Status::Offline, Some("why")),
        change("X", "A", Status::Offline, Some("why"))
    );
}

#[test]
fn a_report_that_changes_the_status_gives_one_event() {
    let mut t = ServiceTable::new();
    t.insert_or_update(desc("A", "h", 80), "X".to_string(), Timestamp::new(1, 0));
    assert_eq!(set_service_busy(&mut t, "X"), vec![change("X", "A", Status::Busy, None)]);
    assert_eq!(set_service_busy(&mut t, "X"), vec![]);
    assert_eq!(set_service_online(&mut t, "X"), vec![change("X", "A", Status::Online, None)]);
    assert_eq!(set_service_online(&mut t, "X"), vec![]);
    assert_eq!(
        mark_service_offline(&mut t, "X", "Direct connection failed"),
        vec![change("X", "A", Status::Offline, Some("Direct connection failed"))]
    );
    assert_eq!(mark_service_offline(&mut t, "X", "Direct connection failed"), vec![]);
    assert_eq!(set_service_online(&mut t, "X"), vec![]);
    assert_eq!(set_service_busy(&mut t, "X"), vec![]);
    assert_eq!(t.get("X").unwrap().status, Status::Offline);
    assert_eq!(set_service_busy(&mut t, "nope"), vec![]);
    assert_eq!(
        report_status(&mut t, "nope", Status::Offline, Some("r")),
        vec![]
    );
}

#[test]
fn two_equal_reports_give_exactly_one_event() {
    for s in [Status::Busy, Status::Offline] {
        let mut t = ServiceTable::new();
        t.insert_or_update(desc("A", "h", 80), "X".to_string(), Timestamp::new(1, 0));
        let first = report_status(&mut t, "X", s, None);
        let second = report_status(&mut t, "X", s, None);
        assert_eq!(first.len() + second.len(), 1);
    }
}

#[test]
fn a_busy_instance_goes_offline_when_marked() {
    let mut t = ServiceTable::new();
    t.insert_or_update(desc("A", "h", 80), "X".to_string(), Timestamp::new(1, 0));
    set_service_busy(&mut t, "X");
    assert_eq!(
        mark_service_offline(&mut t, "X", "why"),
        vec![change("X", "A", Status::Offline, Some("why"))]
    );
}

#[test]
fn the_sweep_gives_one_event_for_each_stale_instance() {
    let mut t = ServiceTable::new();
    t.insert_or_update(desc("A", "h", 1), "X".to_string(), Timestamp::new(100, 0));
    t.insert_or_update(desc("B", "h", 2), "Y".to_string(), Timestamp::new(100, 0));
    t.insert_or_update(desc("C", "h", 3), "Z".to_string(), Timestamp::new(109, 0));
    assert_eq!(cleanup_stale_services(&mut t, Timestamp::new(110, 0)), vec![]);
    assert_eq!(
        cleanup_stale_services(&mut t, Timestamp::new(110, 500_000_000)),
        vec![change("X", "A", Status::Offline, None), change("Y", "B", Status::Offline, None)]
    );
    assert_eq!(cleanup_stale_services(&mut t, Timestamp::new(111, 0)), vec![]);
}

#[test]
fn a_failed_probe_takes_the_instance_offline() {
    let mut t = ServiceTable::new();
    t.insert_or_update(desc("A", "h", 1), "X".to_string(), Timestamp::new(100, 0));
    assert_eq!(health_check_service(&mut t, "X", true), vec![]);
    assert_eq!(t.get("X").unwrap().status, Status::Online);
    assert_eq!(
        health_check_service(&mut t, "X", false),
        vec![change("X", "A", Status::Offline, Some("Health check failed"))]
    );
    assert_eq!(health_check_service(&mut t, "X", false), vec![]);
    assert_eq!(health_check_service(&mut t, "nope", false), vec![]);
}

#[test]
fn the_bus_delivers_to_every_subscriber() {
    let mut bus = EventBus::new();
    assert_eq!(bus.subscriber_count(), 0);
    assert_eq!(bus.broadcast_event(&wire("status_change", "{}")), 0);
    let mut first = bus.subscribe(wire("connection", "head"));
    let mut second = bus.subscribe(wire("connection", "head"));
    assert_eq!(bus.subscriber_count(), 2);
    assert_eq!(first.try_recv().unwrap(), wire("connection", "head"));
    assert_eq!(bus.broadcast_event(&wire("status_change", "1")), 2);
    assert_eq!(bus.broadcast_event(&wire("status_change", "2")), 2);
    assert_eq!(first.try_recv().unwrap(), wire("status_change", "1"));
    assert_eq!(first.try_recv().unwrap(), wire("status_change", "2"));
    assert!(matches!(first.try_recv(), Err(TryRecvError::Empty)));
    assert_eq!(second.try_recv().unwrap(), wire("connection", "head"));
    assert_eq!(second.try_recv().unwrap(), wire("status_change", "1"));
    assert_eq!(second.try_recv().unwrap(), wire("status_change", "2"));
}

#[test]
fn the_bus_drops_a_subscriber_whose_receiver_is_closed() {
    let mut bus = EventBus::new();
    let first = bus.subscribe(wire("connection", "{}"));
    let mut second = bus.subscribe(wire("connection", "{}"));
    drop(first);
    assert_eq!(bus.subscriber_count(), 2);
    assert_eq!(bus.broadcast_event(&wire("status_change", "1")), 1);
    assert_eq!(bus.subscriber_count(), 1);
    assert_eq!(second.try_recv().unwrap(), wire("connection", "{}"));
    assert_eq!(second.try_recv().unwrap(), wire("status_change", "1"));
    drop(second);
    assert_eq!(bus.broadcast_event(&wire("status_change", "2")), 0);
    assert_eq!(bus.subscriber_count(), 0);
}

#[test]
fn a_slow_subscriber_loses_its_oldest_events_only() {
    let mut bus = EventBus::new();
    let mut slow = bus.subscribe(wire("connection", "{}"));
    let mut quick = bus.subscribe(wire("connection", "{}"));
    assert_eq!(quick.try_recv().unwrap(), wire("connection", "{}"));
    for i in 0..150 {
        assert_eq!(bus.broadcast_event(&wire("status_change", &i.to_string())), 2);
        assert_eq!(quick.try_recv().unwrap(), wire("status_change", &i.to_string()));
    }
    assert!(matches!(slow.try_recv(), Err(TryRecvError::Lagged(_))));
    let next = slow.try_recv().unwrap();
    assert_eq!(next.event_type, "status_change");
    assert_eq!(slow.try_recv().unwrap().data, (next.data.parse::<u32>().unwrap() + 1).to_string());
}

#[test]
fn a_sender_from_outside_is_served_too() {
    let mut bus = EventBus::new();
    let (tx, mut rx) = tokio::sync::broadcast::channel::<SseEvent>(4);
    bus.add_event_sender(tx);
    assert_eq!(bus.subscriber_count(), 1);
    assert_eq!(bus.broadcast_event(&wire("service_registered", "{}")), 1);
    assert_eq!(rx.try_recv().unwrap(), wire("service_registered", "{}"));
}

#[test]
fn a_subscriber_attached_before_a_change_sees_exactly_one_event() {
    let mut bus = EventBus::new();
    let mut rx = bus.subscribe(Event::Connection.to_wire());
    let mut t = ServiceTable::new();
    t.insert_or_update(desc("A", "h", 80), "X".to_string(), Timestamp::new(1, 0));
    assert_eq!(rx.try_recv().unwrap().event_type, "connection");
    let change = t.set_status("X", Status::Busy).unwrap();
    assert!(change.changed);
    for e in report_status(&mut t, "X", Status::Online, None) {
        bus.broadcast_event(&e.to_wire());
    }
    let seen = rx.try_recv().unwrap();
    assert_eq!(seen.event_type, "status_change");
    assert_eq!(seen.service_name, "A");
    assert_eq!(seen.data, "{\"service_id\":\"X\",\"service_name\":\"A\",\"status\":\"online\"}");
    assert!(matches!(rx.try_recv(), Err(TryRecvError::Empty)));
}

#[test]
fn the_subscribers_that_took_an_event_stay_in_their_order() {
    let mut bus = EventBus::new();
    let mut first = bus.subscribe(wire("connection", "1"));
    let second = bus.subscribe(wire("connection", "2"));
    let mut third = bus.subscribe(wire("connection", "3"));
    drop(second);
    let taken = bus.offer_all(&wire("status_change", "a"));
    assert_eq!(taken, vec![true, false, true]);
    assert_eq!(bus.drop_closed(&taken), 2);
    assert_eq!(bus.subscriber_count(), 2);
    assert_eq!(bus.offer_all(&wire("status_change", "b")), vec![true, true]);
    drop(third.try_recv());
    let seen: Vec<String> = std::iter::from_fn(|| first.try_recv().ok()).map(|e| e.data).collect();
    assert_eq!(seen, vec!["1", "a", "b"]);
    let seen: Vec<String> = std::iter::from_fn(|| third.try_recv().ok()).map(|e| e.data).collect();
    assert_eq!(seen, vec!["a", "b"]);
    drop(first);
    assert_eq!(bus.broadcast_event(&wire("status_change", "c")), 1);
    assert_eq!(third.try_recv().unwrap().data, "c");
}
