//! The router: which instance a call goes to, and what the outcome of the
//! call means for that instance.

use vstd::prelude::*;
use crate::event::DIRECT_CONNECTION_FAILED;
use crate::event::Event;
use crate::event::event_views;
use crate::hub::mark_service_offline;
use crate::hub::set_service_busy;
use crate::hub::set_service_online;
use crate::hub::status_events;
use crate::json::json_compact;
use crate::json::json_string;
use crate::json::quote;
use crate::json::reprint;
use crate::record::RecordView;
use crate::status::Status;
use crate::table::ServiceTable;
use crate::table::any_at;
use crate::table::any_serves;
use crate::table::first_at;
use crate::table::is_best;
use crate::table::reported;
use crate::text::contains;
use crate::text::contains_text;
use crate::text::decimal;
use crate::text::hyphenated;
use crate::text::hyphenated_head;
use crate::text::leftmost_segment;
use crate::text::lowercase;
use crate::text::lowercase_of;
use crate::text::push_decimal;

verus! {

/// Seconds after which the router gives a forwarded call up.
pub const CALL_TIMEOUT_SECS: u64 = 10;

/// What the router says when a call ran into its time limit.
pub const TIMEOUT_MESSAGE: &'static str = "deadline has elapsed";

/// The name under which instances of the RPC service `service` register:
/// lowercase, only what stands before the first dot, hyphens for underscores.
pub open spec fn normal_name(service: Seq<char>) -> Seq<char> {
    hyphenated(leftmost_segment(lowercase_of(service)))
}

/// The normal name of a service name that is in lowercase already.
pub fn normalize_lowered(lowered: &str) -> (r: String)
    ensures
        r@ == hyphenated(leftmost_segment(lowered@)),
{
    hyphenated_head(lowered)
}

/// The name under which instances of the RPC service `service` register.
pub fn normalize_service_name(service: &str) -> (r: String)
    ensures
        r@ == normal_name(service@),
{
    let lowered = lowercase(service);
    normalize_lowered(lowered.as_str())
}

/// The address `host:port` to which a call is forwarded.
pub open spec fn target_text(host: Seq<char>, port: u16) -> Seq<char> {
    host + seq![':'] + decimal(port as nat)
}

/// The full name `service/method` of the method that is called.
pub open spec fn method_text(service: Seq<char>, method: Seq<char>) -> Seq<char> {
    service + seq!['/'] + method
}

/// The address `host:port` to which a call is forwarded.
pub fn call_target(host: &str, port: u16) -> (s: String)
    ensures
        s@ == target_text(host@, port),
{
    let mut s = String::from_str(host);
    s.push(':');
    push_decimal(&mut s, port as u64);
    s
}

/// The full name of the method that is called.
pub fn full_method(service: &str, method: &str) -> (s: String)
    ensures
        s@ == method_text(service@, method@),
{
    let mut s = String::from_str(service);
    s.push('/');
    s.append(method);
    s
}

/// The message speaks of a connection that was refused, reset or broken.
pub open spec fn tells_of_connection(message: Seq<char>) -> bool {
    ||| contains_text(message, "connection refused"@)
    ||| contains_text(message, "connection reset"@)
    ||| contains_text(message, "connection error"@)
}

/// The message speaks of a failure behind the instance that was called: of a
/// service that it depends on, or of an error that the instance reported.
pub open spec fn tells_of_downstream(message: Seq<char>) -> bool {
    ||| contains_text(message, "Web content service"@)
    ||| contains_text(message, "unavailable:"@)
}

/// The message tells that the hub itself could not reach the instance.
pub open spec fn is_direct_failure(message: Seq<char>) -> bool {
    tells_of_connection(message) && !tells_of_downstream(message)
}

/// Whether an error message tells that the hub itself could not reach the
/// instance, as opposed to a failure that the instance reported.
pub fn classify_failure(message: &str) -> (direct: bool)
    ensures
        direct == is_direct_failure(message@),
{
    let connection = contains(message, "connection refused") || contains(
        message,
        "connection reset",
    ) || contains(message, "connection error");
    let downstream = contains(message, "Web content service") || contains(message, "unavailable:");
    connection && !downstream
}

/// How a forwarded call ended.
#[derive(Clone, Debug, PartialEq, Eq)]
pub enum CallOutcome {
    /// The call ran to its end; `success` tells whether the instance
    /// answered, `stdout` holds the answer and `stderr` the complaint.
    Completed { success: bool, stdout: String, stderr: String },
    /// The call could not be started.
    NotStarted { message: String },
    /// The call ran into the time limit; `response_seen` tells whether any
    /// byte of an answer had arrived by then.
    TimedOut { response_seen: bool },
}

/// A call outcome as plain values.
pub enum OutcomeView {
    Completed { success: bool, stdout: Seq<char>, stderr: Seq<char> },
    NotStarted { message: Seq<char> },
    TimedOut { response_seen: bool },
}

impl View for CallOutcome {
    type V = OutcomeView;

    open spec fn view(&self) -> OutcomeView {
        match self {
            CallOutcome::Completed { success, stdout, stderr } => OutcomeView::Completed {
                success: *success,
                stdout: stdout@,
                stderr: stderr@,
            },
            CallOutcome::NotStarted { message } => OutcomeView::NotStarted { message: message@ },
            CallOutcome::TimedOut { response_seen } => OutcomeView::TimedOut {
                response_seen: *response_seen,
            },
        }
    }
}

/// The kinds of failure that a forwarded call can end in.
#[derive(Clone, Copy, Debug, PartialEq, Eq, Structural)]
pub enum FailureKind {
    /// The hub could not reach the instance.
    DirectConnectionFailure,
    /// The instance answered with an error, or something behind it failed.
    DownstreamFailure,
    /// The time limit passed.
    Timeout,
}

/// What the caller of a forwarded call gets back.
#[derive(Clone, Debug, PartialEq, Eq)]
pub enum CallResult {
    /// The answer, as JSON.
    Data(String),
    /// The failure and its message.
    Failed { kind: FailureKind, message: String },
}

/// A call result as plain values.
pub enum ResultView {
    Data(Seq<char>),
    Failed { kind: FailureKind, message: Seq<char> },
}

impl View for CallResult {
    type V = ResultView;

    open spec fn view(&self) -> ResultView {
        match self {
            CallResult::Data(d) => ResultView::Data(d@),
            CallResult::Failed { kind, message } => ResultView::Failed {
                kind: *kind,
                message: message@,
            },
        }
    }
}

/// The answer of an instance as JSON: the answer itself where it is JSON,
/// else the answer as a JSON string.
pub open spec fn answer_text(stdout: Seq<char>) -> Seq<char> {
    match json_compact(stdout) {
        Some(json) => json,
        None => json_string(stdout),
    }
}

/// The message of a call that ran to its end without success.
pub open spec fn complaint_text(stderr: Seq<char>) -> Seq<char> {
    "gRPC call failed: "@ + stderr
}

impl OutcomeView {
    /// What the caller gets back for this outcome.
    pub open spec fn result(self) -> ResultView {
        match self {
            OutcomeView::Completed { success, stdout, stderr } => if success {
                ResultView::Data(answer_text(stdout))
            } else {
                ResultView::Failed {
                    kind: failure_kind(complaint_text(stderr)),
                    message: complaint_text(stderr),
                }
            },
            OutcomeView::NotStarted { message } => ResultView::Failed {
                kind: failure_kind(message),
                message,
            },
            OutcomeView::TimedOut { .. } => ResultView::Failed {
                kind: FailureKind::Timeout,
                message: TIMEOUT_MESSAGE@,
            },
        }
    }

    /// The outcome shows that the hub could not reach the instance: the
    /// failure is a direct one, or the time ran out before any byte of an
    /// answer was seen.
    pub open spec fn unreachable(self) -> bool {
        match self {
            OutcomeView::Completed { success, stderr, .. } => !success && is_direct_failure(
                complaint_text(stderr),
            ),
            OutcomeView::NotStarted { message } => is_direct_failure(message),
            OutcomeView::TimedOut { response_seen } => !response_seen,
        }
    }

    /// The status that the router reports for the instance after the call:
    /// offline where it could not be reached, online after any other outcome.
    pub open spec fn status_after(self) -> Status {
        if self.unreachable() {
            Status::Offline
        } else {
            Status::Online
        }
    }

    /// The reason that goes with the status after the call.
    pub open spec fn reason_after(self) -> Option<Seq<char>> {
        if self.unreachable() {
            Some(DIRECT_CONNECTION_FAILED@)
        } else {
            None
        }
    }
}

/// The kind of a failure that is known by its message only.
pub open spec fn failure_kind(message: Seq<char>) -> FailureKind {
    if is_direct_failure(message) {
        FailureKind::DirectConnectionFailure
    } else {
        FailureKind::DownstreamFailure
    }
}

/// The answer of an instance as JSON, given what `stdout` is in compact
/// form where it is JSON, and as a JSON string.
pub fn answer_from(compact: Option<String>, quoted: String) -> (json: String)
    ensures
        json@ == (match compact {
            Some(c) => c@,
            None => quoted@,
        }),
{
    match compact {
        Some(c) => c,
        None => quoted,
    }
}

/// What the caller gets back for `outcome`.
pub fn call_result(outcome: &CallOutcome) -> (r: CallResult)
    ensures
        r@ == outcome@.result(),
{
    match outcome {
        CallOutcome::Completed { success, stdout, stderr } => {
            if *success {
                CallResult::Data(answer_from(reprint(stdout.as_str()), quote(stdout.as_str())))
            } else {
                let mut message = String::from_str("gRPC call failed: ");
                message.append(stderr.as_str());
                let kind = if classify_failure(message.as_str()) {
                    FailureKind::DirectConnectionFailure
                } else {
                    FailureKind::DownstreamFailure
                };
                CallResult::Failed { kind, message }
            }
        },
        CallOutcome::NotStarted { message } => {
            let kind = if classify_failure(message.as_str()) {
                FailureKind::DirectConnectionFailure
            } else {
                FailureKind::DownstreamFailure
            };
            CallResult::Failed { kind, message: message.clone() }
        },
        CallOutcome::TimedOut { .. } => CallResult::Failed {
            kind: FailureKind::Timeout,
            message: String::from_str(TIMEOUT_MESSAGE),
        },
    }
}

/// Whether `outcome` shows that the hub could not reach the instance.
pub fn is_unreachable(outcome: &CallOutcome) -> (r: bool)
    ensures
        r == outcome@.unreachable(),
{
    match outcome {
        CallOutcome::Completed { success, stderr, .. } => {
            if *success {
                false
            } else {
                let mut message = String::from_str("gRPC call failed: ");
                message.append(stderr.as_str());
                classify_failure(message.as_str())
            }
        },
        CallOutcome::NotStarted { message } => classify_failure(message.as_str()),
        CallOutcome::TimedOut { response_seen } => !*response_seen,
    }
}

/// A call that the router is about to forward.
#[derive(Clone, Debug, PartialEq, Eq)]
pub struct CallPlan {
    /// The RPC service as the caller named it.
    pub service: String,
    pub method: String,
    /// Where the call goes.
    pub host: String,
    pub port: u16,
    /// The payload, as JSON.
    pub input: String,
    /// The registered instance that listens there, if there is one.
    pub instance: Option<String>,
}

/// Why the router forwards nothing.
#[derive(Clone, Debug, PartialEq, Eq)]
pub enum PlanError {
    /// The request names no service or no method, or only one of host and port.
    InvalidInput,
    /// No instance is registered under this name.
    NoInstance { name: String },
}

/// The text of an optional field as plain values.
pub open spec fn text_view(field: Option<String>) -> Option<Seq<char>> {
    match field {
        Some(s) => Some(s@),
        None => None,
    }
}

/// `plan` is how the router forwards a call with these fields over `rows`,
/// `name` being the normal name of the service. With host and port the call
/// goes there, and the instance is the first one registered at that address.
/// With neither, it goes to the instance picked for `name`.
pub open spec fn is_plan(
    rows: Seq<RecordView>,
    service: Seq<char>,
    method: Seq<char>,
    host: Option<Seq<char>>,
    port: Option<u16>,
    input: Option<Seq<char>>,
    name: Seq<char>,
    plan: CallPlan,
) -> bool {
    &&& plan.service@ == service
    &&& plan.method@ == method
    &&& plan.input@ == (match input {
        Some(json) => json,
        None => "{}"@,
    })
    &&& match (host, port) {
        (Some(h), Some(p)) => {
            &&& plan.host@ == h
            &&& plan.port == p
            &&& match plan.instance {
                Some(id) => exists|i: int| first_at(rows, h, p, i) && (#[trigger] rows[i]).id == id@,
                None => !any_at(rows, h, p),
            }
        },
        _ => exists|i: int|
            {
                &&& is_best(rows, name, i)
                &&& plan.instance matches Some(id) && (#[trigger] rows[i]).id == id@
                &&& plan.host@ == rows[i].address
                &&& plan.port == rows[i].port
            },
    }
}

/// Decides where a call goes. `service`, `method`, `host`, `port` and
/// `input` are the fields of the request as far as it has them; `name` is
/// the normal name of `service`.
pub fn plan_call(
    table: &ServiceTable,
    service: Option<String>,
    method: Option<String>,
    host: Option<String>,
    port: Option<u16>,
    input: Option<String>,
    name: &str,
) -> (r: Result<CallPlan, PlanError>)
    ensures
        match r {
            Ok(plan) => {
                &&& service.is_some() && method.is_some()
                &&& host.is_some() == port.is_some()
                &&& is_plan(
                    table@,
                    service.unwrap()@,
                    method.unwrap()@,
                    text_view(host),
                    port,
                    text_view(input),
                    name@,
                    plan,
                )
            },
            Err(PlanError::InvalidInput) => service.is_none() || method.is_none() || host.is_some()
                != port.is_some(),
            Err(PlanError::NoInstance { name: missing }) => {
                &&& service.is_some() && method.is_some()
                &&& host.is_none() && port.is_none()
                &&& !any_serves(table@, name@, None)
                &&& missing@ == name@
            },
        },
{
    let (service, method) = match (service, method) {
        (Some(s), Some(m)) => (s, m),
        _ => {
            return Err(PlanError::InvalidInput);
        },
    };
    let input = match input {
        Some(json) => json,
        None => String::from_str("{}"),
    };
    match (host, port) {
        (Some(host), Some(port)) => {
            let instance = table.find_by_addr(host.as_str(), port);
            Ok(CallPlan { service, method, host, port, input, instance })
        },
        (None, None) => match table.select_best(name) {
            Some(pick) => Ok(
                CallPlan {
                    service,
                    method,
                    host: pick.1,
                    port: pick.2,
                    input,
                    instance: Some(pick.0),
                },
            ),
            None => Err(PlanError::NoInstance { name: String::from_str(name) }),
        },
        _ => Err(PlanError::InvalidInput),
    }
}

/// The instance of a plan as plain values.
pub open spec fn instance_view(plan: CallPlan) -> Option<Seq<char>> {
    text_view(plan.instance)
}

/// Before the call is forwarded: the instance, where there is one, becomes
/// busy. Returns the event to emit, if its status changed.
pub fn begin_call(table: &mut ServiceTable, plan: &CallPlan) -> (events: Vec<Event>)
    requires
        old(table).wf(),
    ensures
        final(table).wf(),
        match instance_view(*plan) {
            Some(id) => final(table)@ == reported(old(table)@, id, Status::Busy) && event_views(
                events@,
            ) == status_events(old(table)@, id, Status::Busy, None),
            None => final(table)@ == old(table)@ && events@.len() == 0,
        },
{
    match &plan.instance {
        Some(id) => set_service_busy(table, id.as_str()),
        None => Vec::new(),
    }
}

/// After the call: the instance goes offline where the outcome shows that
/// the hub could not reach it, and back online after any other outcome.
/// Returns what the caller gets, and the event to emit, if the status changed.
pub fn finish_call(table: &mut ServiceTable, plan: &CallPlan, outcome: &CallOutcome) -> (r: (
    CallResult,
    Vec<Event>,
))
    requires
        old(table).wf(),
    ensures
        final(table).wf(),
        r.0@ == outcome@.result(),
        match instance_view(*plan) {
            Some(id) => final(table)@ == reported(old(table)@, id, outcome@.status_after())
                && event_views(r.1@) == status_events(
                old(table)@,
                id,
                outcome@.status_after(),
                outcome@.reason_after(),
            ),
            None => final(table)@ == old(table)@ && r.1@.len() == 0,
        },
{
    let result = call_result(outcome);
    let events = match &plan.instance {
        Some(id) => {
            if is_unreachable(outcome) {
                mark_service_offline(table, id.as_str(), DIRECT_CONNECTION_FAILED)
            } else {
                set_service_online(table, id.as_str())
            }
        },
        None => Vec::new(),
    };
    (result, events)
}

/// The arguments with which `grpcurl` forwards the call of a plan: plain
/// text transport, the payload, the address and the full method name.
pub open spec fn arguments_of(plan: CallPlan) -> Seq<Seq<char>> {
    seq![
        "-plaintext"@,
        "-d"@,
        plan.input@,
        target_text(plan.host@, plan.port),
        method_text(plan.service@, plan.method@),
    ]
}

/// The arguments with which `grpcurl` forwards the call of `plan`.
pub fn grpcurl_arguments(plan: &CallPlan) -> (args: Vec<String>)
    ensures
        args.deep_view() == arguments_of(*plan),
{
    let mut args: Vec<String> = Vec::new();
    args.push(String::from_str("-plaintext"));
    args.push(String::from_str("-d"));
    args.push(plan.input.clone());
    args.push(call_target(plan.host.as_str(), plan.port));
    args.push(full_method(plan.service.as_str(), plan.method.as_str()));
    assert(args.deep_view() =~= arguments_of(*plan));
    args
}

} // verus!
