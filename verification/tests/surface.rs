use grpc_hub::bus::EventBus;
use grpc_hub::clock::Timestamp;
use grpc_hub::event::sse_frame;
use grpc_hub::event::Event;
use grpc_hub::http::decide_call;
use grpc_hub::http::decide_status_request;
use grpc_hub::http::delete_service;
use grpc_hub::http::error_reply;
use grpc_hub::http::events_head;
use grpc_hub::http::grpc_call_reply;
use grpc_hub::http::json_reply;
use grpc_hub::http::message_reply;
use grpc_hub::http::method_json;
use grpc_hub::http::not_found;
use grpc_hub::http::plan_grpc_call;
use grpc_hub::http::post_status;
use grpc_hub::http::read_status_request;
use grpc_hub::http::route;
use grpc_hub::http::service_schema;
use grpc_hub::http::service_status;
use grpc_hub::http::trim_start;
use grpc_hub::http::unreadable_body;
use grpc_hub::http::HttpReply;
use grpc_hub::http::Route;
use grpc_hub::hub::cleanup_stale_services;
use grpc_hub::record::ServiceDescriptor;
use grpc_hub::router::answer_from;
use grpc_hub::router::begin_call;
use grpc_hub::router::call_result;
use grpc_hub::router::call_target;
use grpc_hub::router::classify_failure;
use grpc_hub::router::finish_call;
use grpc_hub::router::full_method;
use grpc_hub::router::grpcurl_arguments;
use grpc_hub::router::is_unreachable;
use grpc_hub::router::normalize_lowered;
use grpc_hub::router::normalize_service_name;
use grpc_hub::router::plan_call;
use grpc_hub::router::CallOutcome;
use grpc_hub::router::CallPlan;
use grpc_hub::router::CallResult;
use grpc_hub::router::FailureKind;
use grpc_hub::router::PlanError;
use grpc_hub::rpc::advertised_port;
use grpc_hub::rpc::call_service;
use grpc_hub::rpc::get_service;
use grpc_hub::rpc::health_check;
use grpc_hub::rpc::health_check_at;
use grpc_hub::rpc::list_services;
use grpc_hub::rpc::register_service;
use grpc_hub::rpc::register_service_at;
use grpc_hub::rpc::passes_filter;
use grpc_hub::rpc::stream_item;
use grpc_hub::rpc::subscribe_to_service;
use grpc_hub::rpc::ServiceEvent;
use grpc_hub::rpc::unregister_service;
use grpc_hub::rpc::RpcError;
use grpc_hub::status::Status;
use grpc_hub::table::ServiceTable;
use grpc_hub::wire::write_time;
use grpc_hub::wire::ServiceInfo;
use tokio::sync::broadcast::error::TryRecvError;

const T0: i64 = 1_700_000_000;

fn desc(name: &str, address: &str, port: u16) -> ServiceDescriptor {
    ServiceDescriptor {
        name: name.to_string(),
        version: "1.0.0".to_string(),
        address: address.to_string(),
        port,
        methods: vec!["M".to_string()],
        metadata: vec![],
    }
}

fn at(secs: i64) -> Timestamp {
    Timestamp::new(T0 + secs, 0)
}

fn change(id: &str, name: &str, status: Status, reason: Option<&str>) -> Event {
    Event::StatusChange {
        service_id: id.to_string(),
        service_name: name.to_string(),
        status,
        reason: reason.map(|r| r.to_string()),
    }
}

fn json_headers() -> Vec<(String, String)> {
    vec![("content-type".to_string(), "application/json".to_string())]
}

fn reply(status: u16, body: &str) -> HttpReply {
    HttpReply { status, headers: json_headers(), body: body.to_string() }
}

fn some(s: &str) -> Option<String> {
    Some(s.to_string())
}

fn completed(success: bool, stdout: &str, stderr: &str) -> CallOutcome {
    CallOutcome::Completed { success, stdout: stdout.to_string(), stderr: stderr.to_string() }
}

fn table_with(rows: &[(&str, &str, &str, u16)]) -> ServiceTable {
    let mut t = ServiceTable::new();
    for (id, name, address, port) in rows {
        t.insert_or_update(desc(name, address, *port), id.to_string(), at(0));
    }
    t
}

#[test]
fn times_are_written_in_rfc_3339() {
    assert_eq!(write_time(Timestamp::new(T0, 0)), "2023-11-14T22:13:20+00:00");
    assert_eq!(write_time(Timestamp::new(T0, 500_000_000)), "2023-11-14T22:13:20.500+00:00");
    assert_eq!(write_time(Timestamp::new(0, 1)), "1970-01-01T00:00:00.000000001+00:00");
    assert_eq!(write_time(Timestamp::new(-1, 0)), "1969-12-31T23:59:59+00:00");
    assert_eq!(write_time(Timestamp::new(i64::MAX, 0)), "");
    assert_eq!(write_time(Timestamp::new(0, 2_000_000_000)), "");
}

#[test]
fn records_go_over_the_wire_as_text() {
    let mut t = ServiceTable::new();
    let mut d = desc("A", "h", 80);
    d.metadata = vec![("team".to_string(), "core".to_string())];
    t.insert_or_update(d, "X".to_string(), at(0));
    t.touch("X", Timestamp::new(T0 + 5, 250_000_000));
    t.set_status("X", Status::Busy);
    let info = ServiceInfo::from(&t.get("X").unwrap());
    assert_eq!(
        info,
        ServiceInfo {
            service_id: "X".to_string(),
            service_name: "A".to_string(),
            service_version: "1.0.0".to_string(),
            service_address: "h".to_string(),
            service_port: "80".to_string(),
            methods: vec!["M".to_string()],
            metadata: vec![("team".to_string(), "core".to_string())],
            registered_at: "2023-11-14T22:13:20+00:00".to_string(),
            last_heartbeat: "2023-11-14T22:13:25.250+00:00".to_string(),
            status: "busy".to_string(),
        }
    );
}

#[test]
fn registration_replies_and_tells_of_new_instances_only() {
    let mut t = ServiceTable::new();
    let (r, events) = register_service_at(&mut t, desc("A", "h", 80), "X".to_string(), at(0));
    assert!(r.success);
    assert_eq!(r.message, "Service registered successfully");
    assert_eq!(r.service_id, "X");
    assert_eq!(
        events,
        vec![Event::ServiceRegistered { service_id: "X".to_string(), service_name: "A".to_string() }]
    );
    let (r, events) = register_service_at(&mut t, desc("A", "h", 80), "Y".to_string(), at(1));
    assert!(r.success);
    assert_eq!(r.service_id, "X");
    assert_eq!(events, vec![]);
    assert_eq!(t.len(), 1);
}

#[test]
fn registration_draws_identifier_and_time() {
    let mut t = ServiceTable::new();
    let (first, events) = register_service(&mut t, desc("A", "h", 80));
    assert!(first.success);
    assert_eq!(first.service_id.len(), 36);
    assert_eq!(first.service_id.matches('-').count(), 4);
    assert_eq!(events.len(), 1);
    let (second, _) = register_service(&mut t, desc("B", "h", 81));
    assert_ne!(first.service_id, second.service_id);
    let (again, events) = register_service(&mut t, desc("A", "h", 80));
    assert_eq!(again.service_id, first.service_id);
    assert_eq!(events, vec![]);
    assert_eq!(t.len(), 2);
    let r = t.get(&first.service_id).unwrap();
    assert!(r.registered_at.secs > 1_600_000_000);
    assert!(r.registered_at.nanos < 1_000_000_000);
    assert!(r.registered_at.is_not_after(&r.last_heartbeat));
    assert_eq!(r.status, Status::Online);
}

#[test]
fn a_registration_advertises_its_port_as_text() {
    assert_eq!(advertised_port("8080"), 8080);
    assert_eq!(advertised_port("+1"), 1);
    assert_eq!(advertised_port("65535"), 65535);
    assert_eq!(advertised_port("0"), 0);
    assert_eq!(advertised_port("65536"), 0);
    assert_eq!(advertised_port("http"), 0);
    assert_eq!(advertised_port(""), 0);
}

#[test]
fn a_posted_status_for_a_registered_instance_is_answered_with_a_message() {
    for before in [Status::Online, Status::Busy, Status::Offline] {
        for word in ["online", "busy", "offline"] {
            let mut t = table_with(&[("X", "A", "h", 80)]);
            t.set_status("X", before);
            let (r, _) = post_status(&mut t, "X", word);
            assert_eq!(r.status, 200);
            let body: serde_json::Value = serde_json::from_str(&r.body).unwrap();
            assert!(body["message"].is_string(), "{:?} {}", before, word);
            assert!(body["success"].is_boolean());
            assert!(body.get("error").is_none());
            let stored = t.get("X").unwrap().status;
            assert_eq!(body["success"], stored.as_str() == word);
        }
    }
}

#[test]
fn unregistration_replies() {
    let mut t = table_with(&[("X", "A", "h", 80)]);
    let r = unregister_service(&mut t, "nope");
    assert!(!r.success);
    assert_eq!(r.message, "Service not found");
    let r = unregister_service(&mut t, "X");
    assert!(r.success);
    assert_eq!(r.message, "Service unregistered successfully");
    assert_eq!(t.len(), 0);
}

#[test]
fn listing_over_the_rpc_surface_is_sorted_and_filtered() {
    let t = table_with(&[("1", "zeta", "h", 1), ("2", "alpha", "h", 2), ("3", "beta", "h", 3)]);
    let names: Vec<String> = list_services(&t, None).into_iter().map(|s| s.service_name).collect();
    assert_eq!(names, vec!["alpha", "beta", "zeta"]);
    let names: Vec<String> =
        list_services(&t, Some("eta")).into_iter().map(|s| s.service_name).collect();
    assert_eq!(names, vec!["beta", "zeta"]);
    let all = list_services(&t, Some("1.0"));
    assert_eq!(all.len(), 3);
    assert_eq!(all[0].service_port, "2");
    assert_eq!(all[0].status, "online");
}

#[test]
fn get_over_the_rpc_surface() {
    let t = table_with(&[("X", "A", "h", 80)]);
    let r = get_service(&t, "X");
    assert!(r.found);
    assert_eq!(r.service.unwrap().service_name, "A");
    let r = get_service(&t, "Y");
    assert!(!r.found);
    assert_eq!(r.service, None);
}

#[test]
fn heartbeat_replies_and_tells_of_recovery() {
    let mut t = table_with(&[("X", "A", "h", 80)]);
    let (r, events) = health_check_at(&mut t, "nope", at(1));
    assert!(!r.healthy);
    assert_eq!(r.message, "Service not found");
    assert_eq!(events, vec![]);
    let (r, events) = health_check_at(&mut t, "X", at(1));
    assert!(r.healthy);
    assert_eq!(r.message, "Service is healthy");
    assert_eq!(events, vec![]);
    t.set_status("X", Status::Busy);
    let (_, events) = health_check_at(&mut t, "X", at(2));
    assert_eq!(events, vec![]);
    assert_eq!(t.get("X").unwrap().status, Status::Online);
    t.set_status("X", Status::Offline);
    let (r, events) = health_check_at(&mut t, "X", at(3));
    assert!(r.healthy);
    assert_eq!(events, vec![change("X", "A", Status::Online, None)]);
    assert_eq!(t.get("X").unwrap().last_heartbeat, at(3));
}

#[test]
fn heartbeat_reads_the_clock() {
    let mut t = table_with(&[("X", "A", "h", 80)]);
    t.set_status("X", Status::Offline);
    let (r, events) = health_check(&mut t, "X");
    assert!(r.healthy);
    assert_eq!(events, vec![change("X", "A", Status::Online, None)]);
    let heard = t.get("X").unwrap().last_heartbeat;
    assert!(at(0).is_not_after(&heard));
    assert!(heard.secs > T0);
    let (r, events) = health_check(&mut t, "gone");
    assert!(!r.healthy);
    assert_eq!(events, vec![]);
}

#[test]
fn forwarding_over_the_rpc_surface_is_not_offered() {
    assert!(matches!(
        call_service(),
        Err(RpcError::NotImplemented { ref message }) if message.starts_with("Full dynamic gRPC reflection")
    ));
}

#[test]
fn a_subscription_opens_with_subscribed() {
    let mut bus = EventBus::new();
    let mut rx = subscribe_to_service(&mut bus, "A");
    assert_eq!(bus.subscriber_count(), 1);
    let head = rx.try_recv().unwrap();
    assert_eq!(head.event_type, "subscribed");
    assert_eq!(head.service_name, "A");
    assert_eq!(head.data, "{}");
    assert!(passes_filter(&head, "A"));
    let item = stream_item(&head, at(0));
    assert_eq!(
        item,
        ServiceEvent {
            event_type: "subscribed".to_string(),
            service_name: "A".to_string(),
            data: "{}".to_string(),
            timestamp: "2023-11-14T22:13:20+00:00".to_string(),
        }
    );
}

#[test]
fn a_subscription_sees_the_events_of_its_service() {
    let mut bus = EventBus::new();
    let mut rx = subscribe_to_service(&mut bus, "A");
    let mut t = table_with(&[("X", "A", "h", 80), ("Y", "B", "h", 81)]);
    for id in ["X", "Y"] {
        for e in grpc_hub::hub::set_service_busy(&mut t, id) {
            bus.broadcast_event(&e.to_wire());
        }
    }
    let mut seen = vec![];
    while let Ok(e) = rx.try_recv() {
        if passes_filter(&e, "A") {
            seen.push(stream_item(&e, at(1)));
        }
    }
    let kinds: Vec<&str> = seen.iter().map(|e| e.event_type.as_str()).collect();
    assert_eq!(kinds, vec!["subscribed", "status_change"]);
    assert_eq!(seen[1].service_name, "A");
    assert_eq!(seen[1].data, "{\"service_id\":\"X\",\"service_name\":\"A\",\"status\":\"busy\"}");
    assert_eq!(seen[1].timestamp, "2023-11-14T22:13:21+00:00");
}

#[test]
fn subscription_filters() {
    let about = |name: &str| change("X", name, Status::Busy, None).to_wire();
    assert!(passes_filter(&about("A"), "A"));
    assert!(passes_filter(&about("A"), ""));
    assert!(passes_filter(&about(""), ""));
    assert!(!passes_filter(&about("A"), "B"));
    assert!(!passes_filter(&about("AB"), "A"));
    assert!(!passes_filter(&about(""), "A"));
    assert!(!passes_filter(&Event::Connection.to_wire(), "A"));
    assert!(passes_filter(&Event::Connection.to_wire(), ""));
}

#[test]
fn service_names_are_normalized() {
    assert_eq!(
        normalize_service_name("web_content_extract.WebContentExtract"),
        "web-content-extract"
    );
    assert_eq!(normalize_service_name("svc.Pkg"), "svc");
    assert_eq!(normalize_service_name("SVC"), "svc");
    assert_eq!(normalize_service_name("User_Service"), "user-service");
    assert_eq!(normalize_service_name("ÉCOLE_X.Y"), "école-x");
    assert_eq!(normalize_service_name(""), "");
    assert_eq!(normalize_service_name(".x"), "");
    assert_eq!(normalize_lowered("a_b.C_D"), "a-b");
    assert_eq!(normalize_lowered("A_B"), "A-B");
}

#[test]
fn call_targets_and_method_names() {
    assert_eq!(call_target("h", 99), "h:99");
    assert_eq!(call_target("127.0.0.1", 0), "127.0.0.1:0");
    assert_eq!(call_target("", 65535), ":65535");
    assert_eq!(full_method("svc.Pkg", "M"), "svc.Pkg/M");
    assert_eq!(full_method("", ""), "/");
}

#[test]
fn grpcurl_gets_its_arguments_in_order() {
    let plan = CallPlan {
        service: "svc.Pkg".to_string(),
        method: "M".to_string(),
        host: "h".to_string(),
        port: 99,
        input: "{\"a\":1}".to_string(),
        instance: None,
    };
    assert_eq!(
        grpcurl_arguments(&plan),
        vec!["-plaintext", "-d", "{\"a\":1}", "h:99", "svc.Pkg/M"]
    );
}

#[test]
fn failures_are_classified_by_their_message() {
    assert!(classify_failure("gRPC call failed: dial tcp: connection refused"));
    assert!(classify_failure("connection reset by peer"));
    assert!(classify_failure("transport: connection error: desc"));
    assert!(!classify_failure("Web content service unavailable: connection refused"));
    assert!(!classify_failure("rpc error: unavailable: connection refused"));
    assert!(!classify_failure("deadline has elapsed"));
    assert!(!classify_failure("Connection Refused"));
    assert!(!classify_failure(""));
    assert!(!classify_failure("No such file or directory (os error 2)"));
}

#[test]
fn answers_are_json() {
    assert_eq!(answer_from(some("{}"), "\"x\"".to_string()), "{}");
    assert_eq!(answer_from(None, "\"x\"".to_string()), "\"x\"");
    assert_eq!(
        call_result(&completed(true, "{ \"b\": [1, 2],\n \"a\": \"x\" }\n", "")),
        CallResult::Data("{\"a\":\"x\",\"b\":[1,2]}".to_string())
    );
    assert_eq!(
        call_result(&completed(true, "plain \"text\"\n", "ignored")),
        CallResult::Data("\"plain \\\"text\\\"\\n\"".to_string())
    );
    assert_eq!(call_result(&completed(true, "", "")), CallResult::Data("\"\"".to_string()));
    assert_eq!(call_result(&completed(true, "12", "")), CallResult::Data("12".to_string()));
}

#[test]
fn failed_calls_report_kind_and_message() {
    assert_eq!(
        call_result(&completed(false, "out", "dial: connection refused")),
        CallResult::Failed {
            kind: FailureKind::DirectConnectionFailure,
            message: "gRPC call failed: dial: connection refused".to_string(),
        }
    );
    assert_eq!(
        call_result(&completed(false, "", "rpc error: code = NotFound")),
        CallResult::Failed {
            kind: FailureKind::DownstreamFailure,
            message: "gRPC call failed: rpc error: code = NotFound".to_string(),
        }
    );
    assert_eq!(
        call_result(&CallOutcome::NotStarted { message: "connection reset".to_string() }),
        CallResult::Failed {
            kind: FailureKind::DirectConnectionFailure,
            message: "connection reset".to_string(),
        }
    );
    assert_eq!(
        call_result(&CallOutcome::NotStarted { message: "no grpcurl".to_string() }),
        CallResult::Failed { kind: FailureKind::DownstreamFailure, message: "no grpcurl".to_string() }
    );
    for seen in [true, false] {
        assert_eq!(
            call_result(&CallOutcome::TimedOut { response_seen: seen }),
            CallResult::Failed {
                kind: FailureKind::Timeout,
                message: "deadline has elapsed".to_string(),
            }
        );
    }
}

#[test]
fn unreachable_outcomes() {
    assert!(!is_unreachable(&completed(true, "connection refused", "connection refused")));
    assert!(is_unreachable(&completed(false, "", "connection refused")));
    assert!(!is_unreachable(&completed(false, "", "unavailable: connection refused")));
    assert!(!is_unreachable(&completed(false, "", "boom")));
    assert!(is_unreachable(&CallOutcome::NotStarted { message: "connection error".to_string() }));
    assert!(!is_unreachable(&CallOutcome::NotStarted { message: "boom".to_string() }));
    assert!(is_unreachable(&CallOutcome::TimedOut { response_seen: false }));
    assert!(!is_unreachable(&CallOutcome::TimedOut { response_seen: true }));
}

#[test]
fn a_call_with_host_and_port_goes_there() {
    let t = table_with(&[("X", "A", "h", 80), ("Y", "B", "h", 80)]);
    let plan = plan_call(&t, some("svc.Pkg"), some("M"), some("h"), Some(80), None, "svc").unwrap();
    assert_eq!(
        plan,
        CallPlan {
            service: "svc.Pkg".to_string(),
            method: "M".to_string(),
            host: "h".to_string(),
            port: 80,
            input: "{}".to_string(),
            instance: some("X"),
        }
    );
    let plan =
        plan_call(&t, some("s"), some("M"), some("elsewhere"), Some(1), some("[1]"), "A").unwrap();
    assert_eq!(plan.host, "elsewhere");
    assert_eq!(plan.port, 1);
    assert_eq!(plan.input, "[1]");
    assert_eq!(plan.instance, None);
}

#[test]
fn a_call_by_name_goes_to_the_best_instance() {
    let mut t = table_with(&[("A", "svc", "a", 1), ("B", "svc", "b", 2)]);
    t.set_status("A", Status::Busy);
    let plan = plan_call(&t, some("svc.Pkg"), some("M"), None, None, None, "svc").unwrap();
    assert_eq!(plan.host, "b");
    assert_eq!(plan.port, 2);
    assert_eq!(plan.instance, some("B"));
    assert_eq!(plan.service, "svc.Pkg");
    assert_eq!(
        plan_call(&t, some("x.Pkg"), some("M"), None, None, None, "x"),
        Err(PlanError::NoInstance { name: "x".to_string() })
    );
}

#[test]
fn a_call_without_its_fields_is_refused() {
    let t = table_with(&[("A", "svc", "a", 1)]);
    let bad = Err(PlanError::InvalidInput);
    assert_eq!(plan_call(&t, None, some("M"), None, None, None, "svc"), bad);
    assert_eq!(plan_call(&t, some("svc"), None, None, None, None, "svc"), bad);
    assert_eq!(plan_call(&t, None, None, some("a"), Some(1), None, "svc"), bad);
    assert_eq!(plan_call(&t, some("svc"), some("M"), some("a"), None, None, "svc"), bad);
    assert_eq!(plan_call(&t, some("svc"), some("M"), None, Some(1), None, "svc"), bad);
}

#[test]
fn routes() {
    assert_eq!(route("GET", "/api/services"), Route::ListServices);
    assert_eq!(route("DELETE", "/api/services/abc"), Route::DeleteService { id: "abc".to_string() });
    assert_eq!(route("DELETE", "/api/services/"), Route::DeleteService { id: "".to_string() });
    assert_eq!(
        route("DELETE", "/api/services//api/services/x"),
        Route::DeleteService { id: "x".to_string() }
    );
    assert_eq!(route("DELETE", "/api/services"), Route::NotFound);
    assert_eq!(route("GET", "/api/services/abc"), Route::NotFound);
    assert_eq!(route("GET", "/api/service-schema"), Route::ServiceSchema);
    assert_eq!(route("POST", "/api/service-status"), Route::ServiceStatus);
    assert_eq!(route("POST", "/api/grpc-call"), Route::GrpcCall);
    assert_eq!(route("GET", "/api/events"), Route::Events);
    assert_eq!(route("POST", "/api/services"), Route::NotFound);
    assert_eq!(route("GET", "/api/grpc-call"), Route::NotFound);
    assert_eq!(route("get", "/api/services"), Route::NotFound);
    assert_eq!(route("GET", "/"), Route::NotFound);
    assert_eq!(route("", ""), Route::NotFound);
}

#[test]
fn trim_start_strips_every_leading_repetition() {
    for (s, p) in [("aaab", "a"), ("abab-ab", "ab"), ("x", "ab"), ("", "a"), ("abc", ""), ("aa", "aa")] {
        assert_eq!(trim_start(s, p), s.trim_start_matches(p), "{:?} {:?}", s, p);
    }
}

#[test]
fn plain_replies() {
    assert_eq!(json_reply(201, "[]".to_string()), reply(201, "[]"));
    assert_eq!(message_reply(200, true, "ok"), reply(200, "{\"message\":\"ok\",\"success\":true}"));
    assert_eq!(
        message_reply(200, false, "a\"b"),
        reply(200, "{\"message\":\"a\\\"b\",\"success\":false}")
    );
    assert_eq!(error_reply(400, "bad"), reply(400, "{\"error\":\"bad\",\"success\":false}"));
    assert_eq!(
        unreadable_body(),
        reply(400, "{\"error\":\"Failed to read request body\",\"success\":false}")
    );
    assert_eq!(
        not_found(),
        HttpReply { status: 404, headers: vec![], body: "Not Found".to_string() }
    );
}

#[test]
fn the_listing_over_http() {
    let mut t = ServiceTable::new();
    assert_eq!(grpc_hub::http::list_services(&t), reply(200, "{\"services\":[]}"));
    let mut d = desc("b", "h", 80);
    d.metadata = vec![("team".to_string(), "core".to_string()), ("env".to_string(), "p".to_string())];
    d.methods = vec!["M".to_string(), "N".to_string()];
    t.insert_or_update(d, "X".to_string(), at(0));
    let mut e = desc("a", "g", 81);
    e.methods = vec![];
    t.insert_or_update(e, "Y".to_string(), at(1));
    t.set_status("Y", Status::Busy);
    let body = [
        "{\"services\":[",
        "{\"last_heartbeat\":\"2023-11-14T22:13:21+00:00\",\"metadata\":{},\"methods\":[],",
        "\"registered_at\":\"2023-11-14T22:13:21+00:00\",\"service_address\":\"g\",",
        "\"service_id\":\"Y\",\"service_name\":\"a\",\"service_port\":\"81\",",
        "\"service_version\":\"1.0.0\",\"status\":\"busy\"},",
        "{\"last_heartbeat\":\"2023-11-14T22:13:20+00:00\",",
        "\"metadata\":{\"env\":\"p\",\"team\":\"core\"},\"methods\":[\"M\",\"N\"],",
        "\"registered_at\":\"2023-11-14T22:13:20+00:00\",\"service_address\":\"h\",",
        "\"service_id\":\"X\",\"service_name\":\"b\",\"service_port\":\"80\",",
        "\"service_version\":\"1.0.0\",\"status\":\"online\"}",
        "]}",
    ]
    .concat();
    let r = grpc_hub::http::list_services(&t);
    assert_eq!(r, reply(200, &body));
    let parsed: serde_json::Value = serde_json::from_str(&r.body).unwrap();
    assert_eq!(parsed["services"][1]["metadata"]["env"], "p");
}

#[test]
fn the_schema_over_http() {
    let mut t = ServiceTable::new();
    assert_eq!(service_schema(&t), reply(200, "{\"schemas\":[]}"));
    t.insert_or_update(desc("A", "h", 80), "X".to_string(), at(0));
    let body = [
        "{\"schemas\":[{\"metadata\":{},\"methods\":[",
        "{\"description\":\"M method\",\"name\":\"M\",",
        "\"request_schema\":{\"properties\":{},\"type\":\"object\"}}",
        "],\"service_address\":\"h\",\"service_name\":\"A\",\"service_port\":\"80\",",
        "\"service_version\":\"1.0.0\"}]}",
    ]
    .concat();
    assert_eq!(service_schema(&t), reply(200, &body));
    assert_eq!(
        method_json("Get\"User"),
        "{\"description\":\"Get\\\"User method\",\"name\":\"Get\\\"User\",\"request_schema\":{\"properties\":{},\"type\":\"object\"}}"
    );
}

#[test]
fn deleting_over_http() {
    let mut t = table_with(&[("X", "A", "h", 80)]);
    assert_eq!(
        delete_service(&mut t, "nope"),
        reply(200, "{\"message\":\"Service not found\",\"success\":false}")
    );
    assert_eq!(
        delete_service(&mut t, "X"),
        reply(200, "{\"message\":\"Service unregistered successfully\",\"success\":true}")
    );
    assert_eq!(t.len(), 0);
}

#[test]
fn status_requests_are_read() {
    assert_eq!(
        read_status_request("{\"service_id\":\"X\",\"status\":\"busy\",\"more\":1}"),
        Ok(("X".to_string(), "busy".to_string()))
    );
    let invalid = reply(400, "{\"error\":\"Invalid JSON request\",\"success\":false}");
    let missing =
        reply(400, "{\"error\":\"Missing required fields: service_id, status\",\"success\":false}");
    assert_eq!(read_status_request("{"), Err(invalid.clone()));
    assert_eq!(read_status_request(""), Err(invalid.clone()));
    assert_eq!(read_status_request("{}"), Err(missing.clone()));
    assert_eq!(read_status_request("[]"), Err(missing.clone()));
    assert_eq!(read_status_request("{\"service_id\":\"X\"}"), Err(missing.clone()));
    assert_eq!(read_status_request("{\"status\":\"busy\"}"), Err(missing.clone()));
    assert_eq!(read_status_request("{\"service_id\":7,\"status\":\"busy\"}"), Err(missing.clone()));
    assert_eq!(decide_status_request(false, some("X"), some("busy")), Err(invalid));
    assert_eq!(decide_status_request(true, None, some("busy")), Err(missing.clone()));
    assert_eq!(decide_status_request(true, some("X"), None), Err(missing));
    assert_eq!(
        decide_status_request(true, some("X"), some("busy")),
        Ok(("X".to_string(), "busy".to_string()))
    );
}

#[test]
fn posting_a_status() {
    let mut t = table_with(&[("X", "A", "h", 80)]);
    let (r, events) = post_status(&mut t, "X", "busy");
    assert_eq!(r, reply(200, "{\"message\":\"Service X status updated to busy\",\"success\":true}"));
    assert_eq!(
        events,
        vec![change("X", "A", Status::Busy, Some("Service reported status change"))]
    );
    let (r, events) = post_status(&mut t, "X", "busy");
    assert_eq!(r, reply(200, "{\"message\":\"Service X status updated to busy\",\"success\":true}"));
    assert_eq!(events, vec![]);
    let (r, events) = post_status(&mut t, "X", "offline");
    assert_eq!(r.status, 200);
    assert_eq!(events.len(), 1);
    let (r, events) = post_status(&mut t, "X", "online");
    assert_eq!(r, reply(200, "{\"message\":\"Service X is offline\",\"success\":false}"));
    assert_eq!(events, vec![]);
    assert_eq!(t.get("X").unwrap().status, Status::Offline);
    let (r, events) = post_status(&mut t, "X", "offline");
    assert_eq!(
        r,
        reply(200, "{\"message\":\"Service X status updated to offline\",\"success\":true}")
    );
    assert_eq!(events, vec![]);
    let (r, events) = post_status(&mut t, "Y", "busy");
    assert_eq!(r, reply(404, "{\"error\":\"Service Y not found\",\"success\":false}"));
    assert_eq!(events, vec![]);
    let (r, events) = post_status(&mut t, "X", "sleeping");
    assert_eq!(
        r,
        reply(
            400,
            "{\"error\":\"Invalid status: expected online, busy or offline\",\"success\":false}"
        )
    );
    assert_eq!(events, vec![]);
}

#[test]
fn the_status_endpoint() {
    let mut t = table_with(&[("X", "A", "h", 80)]);
    let (r, events) = service_status(&mut t, "{\"service_id\":\"X\",\"status\":\"busy\"}");
    assert_eq!(r.status, 200);
    assert_eq!(events.len(), 1);
    assert_eq!(t.get("X").unwrap().status, Status::Busy);
    let (r, events) = service_status(&mut t, "{\"service_id\":\"Z\",\"status\":\"busy\"}");
    assert_eq!(r.status, 404);
    assert_eq!(events, vec![]);
    let (r, events) = service_status(&mut t, "not json");
    assert_eq!(r.status, 400);
    assert_eq!(events, vec![]);
    let (r, _) = service_status(&mut t, "{\"service_id\":\"X\"}");
    assert_eq!(r.status, 400);
    let (r, _) = service_status(&mut t, "{\"service_id\":\"X\",\"status\":\"BUSY\"}");
    assert_eq!(r.status, 400);
    assert_eq!(t.get("X").unwrap().status, Status::Busy);
}

#[test]
fn call_requests_are_planned_from_their_body() {
    let mut t = table_with(&[("A", "svc", "a", 1), ("B", "svc", "b", 2)]);
    let plan = plan_grpc_call(
        &t,
        "{\"service\":\"Svc.Pkg\",\"method\":\"M\",\"input\":{\"n\": [1, 2], \"a\": null}}",
    )
    .unwrap();
    assert_eq!(plan.service, "Svc.Pkg");
    assert_eq!(plan.method, "M");
    assert_eq!(plan.host, "a");
    assert_eq!(plan.port, 1);
    assert_eq!(plan.input, "{\"a\":null,\"n\":[1,2]}");
    assert_eq!(plan.instance, some("A"));
    let plan = plan_grpc_call(
        &t,
        "{\"service\":\"x\",\"method\":\"M\",\"host\":\"b\",\"port\":\"2\",\"input\":\"s\"}",
    )
    .unwrap();
    assert_eq!(plan.host, "b");
    assert_eq!(plan.port, 2);
    assert_eq!(plan.input, "\"s\"");
    assert_eq!(plan.instance, some("B"));
    t.set_status("A", Status::Offline);
    let plan = plan_grpc_call(&t, "{\"service\":\"svc\",\"method\":\"M\"}").unwrap();
    assert_eq!(plan.instance, some("B"));
    assert_eq!(plan.input, "{}");
}

#[test]
fn call_requests_that_are_refused() {
    let t = table_with(&[("A", "svc", "a", 1)]);
    let invalid = reply(400, "{\"error\":\"Invalid JSON request\",\"success\":false}");
    let missing = reply(
        400,
        "{\"error\":\"Missing required fields: service, method, and either (host, port) or service name for intelligent selection\",\"success\":false}",
    );
    assert_eq!(plan_grpc_call(&t, "{\"service\":"), Err(invalid.clone()));
    assert_eq!(plan_grpc_call(&t, "{}"), Err(missing.clone()));
    assert_eq!(plan_grpc_call(&t, "{\"service\":\"svc\"}"), Err(missing.clone()));
    assert_eq!(plan_grpc_call(&t, "{\"method\":\"M\"}"), Err(missing.clone()));
    assert_eq!(
        plan_grpc_call(&t, "{\"service\":\"svc\",\"method\":\"M\",\"host\":\"a\"}"),
        Err(missing.clone())
    );
    assert_eq!(
        plan_grpc_call(&t, "{\"service\":\"svc\",\"method\":\"M\",\"host\":\"a\",\"port\":1}"),
        Err(missing.clone())
    );
    assert_eq!(
        plan_grpc_call(&t, "{\"service\":\"svc\",\"method\":\"M\",\"host\":\"a\",\"port\":\"x\"}"),
        Err(missing.clone())
    );
    assert_eq!(
        plan_grpc_call(&t, "{\"service\":\"svc\",\"method\":\"M\",\"port\":\"1\"}"),
        Err(missing.clone())
    );
    assert_eq!(
        plan_grpc_call(&t, "{\"service\":\"Other_Svc.Pkg\",\"method\":\"M\"}"),
        Err(reply(
            404,
            "{\"error\":\"No available service found for 'other-svc'\",\"success\":false}"
        ))
    );
    assert_eq!(
        decide_call(&t, false, some("svc"), some("M"), None, None, None, "svc"),
        Err(invalid)
    );
    assert_eq!(
        decide_call(&t, true, some("svc"), some("M"), some("h"), some("70000"), None, "svc"),
        Err(missing)
    );
    assert!(decide_call(&t, true, some("svc"), some("M"), some("h"), some("+7"), None, "svc").is_ok());
}

#[test]
fn call_replies() {
    assert_eq!(
        grpc_call_reply(&CallResult::Data("{\"a\":1}".to_string())),
        reply(200, "{\"data\":{\"a\":1},\"success\":true}")
    );
    assert_eq!(
        grpc_call_reply(&CallResult::Failed {
            kind: FailureKind::Timeout,
            message: "deadline has elapsed".to_string()
        }),
        reply(200, "{\"error\":\"deadline has elapsed\",\"success\":false}")
    );
}

#[test]
fn the_event_stream_opens_with_its_headers_and_connection() {
    let (head, first) = events_head();
    assert_eq!(head.status, 200);
    assert_eq!(head.body, "");
    let expect = [
        ("content-type", "text/event-stream"),
        ("cache-control", "no-cache"),
        ("connection", "keep-alive"),
        ("keep-alive", "timeout=60"),
        ("x-accel-buffering", "no"),
        ("access-control-allow-origin", "*"),
        ("access-control-allow-headers", "cache-control"),
    ];
    let expect: Vec<(String, String)> =
        expect.iter().map(|(k, v)| (k.to_string(), v.to_string())).collect();
    assert_eq!(head.headers, expect);
    assert_eq!(
        sse_frame(&first),
        "event: connection\ndata: {\"message\":\"SSE connection established\",\"type\":\"connected\"}\n\n"
    );
}

#[test]
fn scenario_happy_registration() {
    let mut t = ServiceTable::new();
    let mut bus = EventBus::new();
    let mut rx = bus.subscribe(events_head().1);
    assert_eq!(rx.try_recv().unwrap().event_type, "connection");
    let (r, events) = register_service_at(&mut t, desc("A", "h", 80), "X".to_string(), at(0));
    for e in &events {
        bus.broadcast_event(&e.to_wire());
    }
    assert_eq!(r.service_id, "X");
    let listing: serde_json::Value =
        serde_json::from_str(&grpc_hub::http::list_services(&t).body).unwrap();
    assert_eq!(listing["services"].as_array().unwrap().len(), 1);
    assert_eq!(listing["services"][0]["status"], "online");
    assert_eq!(listing["services"][0]["service_id"], "X");
    let seen = rx.try_recv().unwrap();
    assert_eq!(seen.event_type, "service_registered");
    assert_eq!(seen.data, "{\"service_id\":\"X\",\"service_name\":\"A\",\"status\":\"online\"}");
    for second in 1..=9 {
        for e in cleanup_stale_services(&mut t, at(second)) {
            bus.broadcast_event(&e.to_wire());
        }
    }
    assert!(matches!(rx.try_recv(), Err(TryRecvError::Empty)));
}

#[test]
fn scenario_staleness_and_recovery() {
    let mut t = ServiceTable::new();
    register_service_at(&mut t, desc("A", "h", 80), "X".to_string(), at(0));
    assert_eq!(cleanup_stale_services(&mut t, at(10)), vec![]);
    let events = cleanup_stale_services(&mut t, Timestamp::new(T0 + 10, 500_000_000));
    assert_eq!(events, vec![change("X", "A", Status::Offline, None)]);
    assert_eq!(
        events[0].payload(),
        "{\"service_id\":\"X\",\"service_name\":\"A\",\"status\":\"offline\"}"
    );
    let listing: serde_json::Value =
        serde_json::from_str(&grpc_hub::http::list_services(&t).body).unwrap();
    assert_eq!(listing["services"][0]["status"], "offline");
    let (r, events) = health_check_at(&mut t, "X", at(11));
    assert!(r.healthy);
    assert_eq!(events, vec![change("X", "A", Status::Online, None)]);
    assert_eq!(
        events[0].payload(),
        "{\"service_id\":\"X\",\"service_name\":\"A\",\"status\":\"online\"}"
    );
}

#[test]
fn scenario_busy_cycle() {
    let mut t = table_with(&[("X", "A", "h", 80)]);
    let plan = plan_grpc_call(
        &t,
        "{\"service\":\"a.A\",\"method\":\"M\",\"input\":{},\"host\":\"h\",\"port\":\"80\"}",
    )
    .unwrap();
    assert_eq!(plan.instance, some("X"));
    let mut seen = begin_call(&mut t, &plan);
    assert_eq!(t.get("X").unwrap().status, Status::Busy);
    let (result, after) = finish_call(&mut t, &plan, &completed(true, "{\"ok\": true}", ""));
    seen.extend(after);
    assert_eq!(
        seen,
        vec![change("X", "A", Status::Busy, None), change("X", "A", Status::Online, None)]
    );
    assert_eq!(grpc_call_reply(&result), reply(200, "{\"data\":{\"ok\":true},\"success\":true}"));
    assert_eq!(t.get("X").unwrap().status, Status::Online);
}

#[test]
fn scenario_direct_connection_failure() {
    let mut t = table_with(&[("X", "A", "h", 99)]);
    let plan = plan_grpc_call(
        &t,
        "{\"service\":\"a.A\",\"method\":\"M\",\"host\":\"h\",\"port\":\"99\"}",
    )
    .unwrap();
    let mut seen = begin_call(&mut t, &plan);
    let outcome =
        completed(false, "", "Failed to dial target host \"h:99\": connection refused\n");
    let (result, after) = finish_call(&mut t, &plan, &outcome);
    seen.extend(after);
    assert_eq!(
        seen,
        vec![
            change("X", "A", Status::Busy, None),
            change("X", "A", Status::Offline, Some("Direct connection failed")),
        ]
    );
    let r = grpc_call_reply(&result);
    assert_eq!(r.status, 200);
    let body: serde_json::Value = serde_json::from_str(&r.body).unwrap();
    assert_eq!(body["success"], false);
    assert_eq!(
        body["error"],
        "gRPC call failed: Failed to dial target host \"h:99\": connection refused\n"
    );
    assert_eq!(t.get("X").unwrap().status, Status::Offline);
}

#[test]
fn scenario_intelligent_routing() {
    let mut t = table_with(&[("A", "svc", "a", 1), ("B", "svc", "b", 2)]);
    t.set_status("B", Status::Busy);
    let plan = plan_grpc_call(&t, "{\"service\":\"svc.Pkg\",\"method\":\"M\"}").unwrap();
    assert_eq!(plan.instance, some("A"));
    assert_eq!((plan.host.as_str(), plan.port), ("a", 1));
    t.set_status("A", Status::Offline);
    let plan = plan_grpc_call(&t, "{\"service\":\"svc.Pkg\",\"method\":\"M\"}").unwrap();
    assert_eq!(plan.instance, some("B"));
    assert_eq!((plan.host.as_str(), plan.port), ("b", 2));
}

#[test]
fn a_failure_behind_the_instance_brings_it_back_online() {
    let mut t = table_with(&[("X", "A", "h", 80)]);
    let plan = plan_call(&t, some("a"), some("M"), some("h"), Some(80), None, "a").unwrap();
    begin_call(&mut t, &plan);
    let outcome = completed(false, "", "Web content service unavailable: connection refused");
    let (result, events) = finish_call(&mut t, &plan, &outcome);
    assert!(matches!(result, CallResult::Failed { kind: FailureKind::DownstreamFailure, .. }));
    assert_eq!(events, vec![change("X", "A", Status::Online, None)]);
}

#[test]
fn a_timeout_without_an_answer_takes_the_instance_offline() {
    let mut t = table_with(&[("X", "A", "h", 80)]);
    let plan = plan_call(&t, some("a"), some("M"), some("h"), Some(80), None, "a").unwrap();
    begin_call(&mut t, &plan);
    let (_, events) = finish_call(&mut t, &plan, &CallOutcome::TimedOut { response_seen: false });
    assert_eq!(events, vec![change("X", "A", Status::Offline, Some("Direct connection failed"))]);
    let mut t = table_with(&[("X", "A", "h", 80)]);
    begin_call(&mut t, &plan);
    let (_, events) = finish_call(&mut t, &plan, &CallOutcome::TimedOut { response_seen: true });
    assert_eq!(events, vec![change("X", "A", Status::Online, None)]);
}

#[test]
fn a_call_to_an_unregistered_address_changes_nothing() {
    let mut t = table_with(&[("X", "A", "h", 80)]);
    let plan = plan_call(&t, some("a"), some("M"), some("g"), Some(1), None, "a").unwrap();
    assert_eq!(begin_call(&mut t, &plan), vec![]);
    let (result, events) = finish_call(&mut t, &plan, &completed(false, "", "connection refused"));
    assert!(matches!(result, CallResult::Failed { kind: FailureKind::DirectConnectionFailure, .. }));
    assert_eq!(events, vec![]);
    assert_eq!(t.get("X").unwrap().status, Status::Online);
}

#[test]
fn a_call_to_an_offline_instance_leaves_it_offline() {
    let mut t = table_with(&[("X", "svc", "h", 80)]);
    t.set_status("X", Status::Offline);
    let plan = plan_call(&t, some("svc"), some("M"), None, None, None, "svc").unwrap();
    assert_eq!(plan.instance, some("X"));
    assert_eq!(begin_call(&mut t, &plan), vec![]);
    let (_, events) = finish_call(&mut t, &plan, &completed(true, "{}", ""));
    assert_eq!(events, vec![]);
    assert_eq!(t.get("X").unwrap().status, Status::Offline);
}
