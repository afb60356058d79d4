//! Changes of status as the hub makes them: each one stores the new status
//! and hands back the events that tell subscribers of it.

use vstd::prelude::*;
use crate::clock::Timestamp;
use crate::event::Event;
use crate::event::EventView;
use crate::event::HEALTH_CHECK_FAILED;
use crate::event::event_views;
use crate::event::status_event;
use crate::record::RecordView;
use crate::status::Status;
use crate::table::ServiceTable;
use crate::table::ids_and_names;
use crate::table::index_of;
use crate::table::report_changes;
use crate::table::reported;
use crate::table::gone_stale;
use crate::table::swept;

verus! {

/// Seconds between two rounds of the staleness sweep.
pub const SWEEP_INTERVAL_SECS: u64 = 1;

/// Seconds between two rounds of the active probe.
pub const PROBE_INTERVAL_SECS: u64 = 5;

/// Seconds after which a probe that has not connected counts as failed.
pub const PROBE_TIMEOUT_SECS: u64 = 2;

/// The text of a reason as plain values.
pub open spec fn reason_view(reason: Option<&str>) -> Option<Seq<char>> {
    match reason {
        Some(why) => Some(why@),
        None => None,
    }
}

/// The events that a report of `status` for `id` gives rise to: one status
/// change where the stored status changes, none where it does not.
pub open spec fn status_events(
    rows: Seq<RecordView>,
    id: Seq<char>,
    status: Status,
    reason: Option<Seq<char>>,
) -> Seq<EventView> {
    if report_changes(rows, id, status) {
        seq![
            EventView::StatusChange {
                service_id: id,
                service_name: rows[index_of(rows, id)].name,
                status,
                reason,
            },
        ]
    } else {
        Seq::empty()
    }
}

/// The events of a staleness sweep: one status change to offline for each
/// pair of identifier and name.
pub open spec fn offline_events(gone: Seq<(Seq<char>, Seq<char>)>) -> Seq<EventView> {
    Seq::new(
        gone.len(),
        |i: int|
            EventView::StatusChange {
                service_id: gone[i].0,
                service_name: gone[i].1,
                status: Status::Offline,
                reason: None,
            },
    )
}

/// Stores the status reported for `id` and returns the event to emit, if the
/// stored status changed. `reason` goes into the event.
pub fn report_status(table: &mut ServiceTable, id: &str, status: Status, reason: Option<&str>) -> (events:
    Vec<Event>)
    requires
        old(table).wf(),
    ensures
        final(table).wf(),
        final(table)@ == reported(old(table)@, id@, status),
        event_views(events@) == status_events(old(table)@, id@, status, reason_view(reason)),
{
    let mut events: Vec<Event> = Vec::new();
    match table.set_status(id, status) {
        Some(change) => {
            if change.changed {
                events.push(status_event(id, change.record.name.as_str(), status, reason));
            }
        },
        None => {},
    }
    assert(event_views(events@) =~= status_events(old(table)@, id@, status, reason_view(reason)));
    events
}

/// The router claims the instance `id` for a call: online becomes busy.
pub fn set_service_busy(table: &mut ServiceTable, id: &str) -> (events: Vec<Event>)
    requires
        old(table).wf(),
    ensures
        final(table).wf(),
        final(table)@ == reported(old(table)@, id@, Status::Busy),
        event_views(events@) == status_events(old(table)@, id@, Status::Busy, None),
{
    report_status(table, id, Status::Busy, None)
}

/// The router releases the instance `id` after a call: busy becomes online.
pub fn set_service_online(table: &mut ServiceTable, id: &str) -> (events: Vec<Event>)
    requires
        old(table).wf(),
    ensures
        final(table).wf(),
        final(table)@ == reported(old(table)@, id@, Status::Online),
        event_views(events@) == status_events(old(table)@, id@, Status::Online, None),
{
    report_status(table, id, Status::Online, None)
}

/// Takes the instance `id` offline at once, for the reason given.
pub fn mark_service_offline(table: &mut ServiceTable, id: &str, reason: &str) -> (events: Vec<Event>)
    requires
        old(table).wf(),
    ensures
        final(table).wf(),
        final(table)@ == reported(old(table)@, id@, Status::Offline),
        event_views(events@) == status_events(old(table)@, id@, Status::Offline, Some(reason@)),
{
    report_status(table, id, Status::Offline, Some(reason))
}

/// One round of the staleness sweep at `now`: stale online instances go
/// offline, and one event tells of each.
pub fn cleanup_stale_services(table: &mut ServiceTable, now: Timestamp) -> (events: Vec<Event>)
    requires
        old(table).wf(),
    ensures
        final(table).wf(),
        final(table)@ == swept(old(table)@, now),
        event_views(events@) == offline_events(ids_and_names(old(table)@.filter(gone_stale(now)))),
{
    let gone = table.sweep_stale(now);
    let mut events: Vec<Event> = Vec::new();
    let mut i: usize = 0;
    while i < gone.len()
        invariant
            i <= gone.len(),
            events.len() == i,
            forall|j: int| 0 <= j < i ==> (#[trigger] events@[j])@ == offline_events(gone.deep_view())[j],
        decreases gone.len() - i,
    {
        events.push(status_event(gone[i].0.as_str(), gone[i].1.as_str(), Status::Offline, None));
        i += 1;
    }
    assert(event_views(events@) =~= offline_events(gone.deep_view()));
    events
}

/// What follows from one probe of the instance `id`: where it could not be
/// reached, it goes offline with the reason "Health check failed".
pub fn health_check_service(table: &mut ServiceTable, id: &str, reachable: bool) -> (events: Vec<Event>)
    requires
        old(table).wf(),
    ensures
        final(table).wf(),
        reachable ==> final(table)@ == old(table)@ && events@.len() == 0,
        !reachable ==> final(table)@ == reported(old(table)@, id@, Status::Offline)
            && event_views(events@) == status_events(
            old(table)@,
            id@,
            Status::Offline,
            Some(HEALTH_CHECK_FAILED@),
        ),
{
    if reachable {
        Vec::new()
    } else {
        mark_service_offline(table, id, HEALTH_CHECK_FAILED)
    }
}

} // verus!
