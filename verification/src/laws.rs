//! What holds of the table whatever is done to it, stated over the same
//! functions on rows that the operations' contracts use.

use vstd::prelude::*;
use crate::clock::STALE_AFTER_NANOS;
use crate::clock::Timestamp;
use crate::labels::canonical;
use crate::labels::is_mapping;
use crate::labels::last_value;
use crate::labels::lemma_canonical_is_mapping;
use crate::labels::lemma_put_sets_one_key;
use crate::labels::value_of;
use crate::listing::is_listing;
use crate::record::DescriptorView;
use crate::record::RecordView;
use crate::status::Status;
use crate::hub::status_events;
use crate::table::any_serves;
use crate::text::lemma_bytes_le_antisymmetric;
use crate::text::lemma_bytes_decide_text;
use crate::text::name_le;
use vstd::utf8::encode_utf8;
use crate::table::has_id;
use crate::table::has_place;
use crate::table::index_of;
use crate::table::index_of_place;
use crate::table::is_best;
use crate::table::lemma_index_of;
use crate::table::lemma_index_of_place;
use crate::table::lemma_registered_keeps_sound;
use crate::table::lemma_remove_keeps_sound;
use crate::table::lemma_swept_keeps_sound;
use crate::table::lemma_update_keeps_sound;
use crate::table::registered;
use crate::table::registered_id;
use crate::table::report_changes;
use crate::table::reported;
use crate::table::sound;
use crate::table::swept;
use crate::table::touched;
use crate::table::without;

verus! {

/// No operation breaks the table: after a registration, a removal, a
/// heartbeat, a status report or a staleness sweep, identifiers and places
/// are still unique and every record was registered no later than it was
/// last heard of.
pub proof fn law_operations_keep_the_table_sound(
    rows: Seq<RecordView>,
    d: DescriptorView,
    fresh: Seq<char>,
    id: Seq<char>,
    status: Status,
    now: Timestamp,
)
    requires
        sound(rows),
    ensures
        sound(registered(rows, d, fresh, now)),
        sound(without(rows, id)),
        sound(touched(rows, id, now)),
        sound(reported(rows, id, status)),
        sound(swept(rows, now)),
{
    lemma_registered_keeps_sound(rows, d, fresh, now);
    lemma_swept_keeps_sound(rows, now);
    if has_id(rows, id) {
        let i = index_of(rows, id);
        lemma_remove_keeps_sound(rows, i);
        lemma_update_keeps_sound(rows, i, rows[i].touched(now));
        lemma_update_keeps_sound(rows, i, rows[i].with_status(rows[i].status.after_report(status)));
    }
}

/// In a sound table every record was registered no later than it was last
/// heard of, and no label of it comes twice.
pub proof fn law_records_are_intact(rows: Seq<RecordView>, i: int)
    requires
        sound(rows),
        0 <= i < rows.len(),
    ensures
        rows[i].registered_at.not_after(rows[i].last_heartbeat),
        is_mapping(rows[i].metadata),
{
    assert(rows[i].intact());
}

/// No operation moves a record from offline straight to busy: whatever one
/// operation does to the status of a record that stays in the table is a
/// move of the state machine.
pub proof fn law_status_moves_are_legal(
    rows: Seq<RecordView>,
    id: Seq<char>,
    status: Status,
    now: Timestamp,
    i: int,
)
    requires
        sound(rows),
        0 <= i < rows.len(),
    ensures
        rows[i].status.may_become(touched(rows, id, now)[i].status),
        rows[i].status.may_become(reported(rows, id, status)[i].status),
        rows[i].status.may_become(swept(rows, now)[i].status),
{
}

/// Registering again at the same name, address and port yields the
/// identifier of the first registration, and the table does not grow.
pub proof fn law_reregistration_keeps_identity(
    rows: Seq<RecordView>,
    first: DescriptorView,
    fresh1: Seq<char>,
    t1: Timestamp,
    again: DescriptorView,
    fresh2: Seq<char>,
    t2: Timestamp,
)
    requires
        sound(rows),
        again.name == first.name,
        again.address == first.address,
        again.port == first.port,
    ensures
        registered_id(registered(rows, first, fresh1, t1), again, fresh2) == registered_id(
            rows,
            first,
            fresh1,
        ),
        registered(registered(rows, first, fresh1, t1), again, fresh2, t2).len() == registered(
            rows,
            first,
            fresh1,
            t1,
        ).len(),
{
    let once = registered(rows, first, fresh1, t1);
    lemma_registered_keeps_sound(rows, first, fresh1, t1);
    if has_place(rows, first.name, first.address, first.port) {
        let i = index_of_place(rows, first.name, first.address, first.port);
        assert(once[i].located(again.name, again.address, again.port));
        lemma_index_of_place(once, again.name, again.address, again.port, i);
    } else if has_id(rows, fresh1) {
        let j = index_of(rows, fresh1);
        assert(once[j].located(again.name, again.address, again.port));
        lemma_index_of_place(once, again.name, again.address, again.port, j);
    } else {
        let last = rows.len() as int;
        assert(once[last].located(again.name, again.address, again.port));
        lemma_index_of_place(once, again.name, again.address, again.port, last);
    }
}

/// Registering a new instance under an unused identifier and unregistering
/// it again leaves the table as it was.
pub proof fn law_register_then_unregister(
    rows: Seq<RecordView>,
    d: DescriptorView,
    fresh: Seq<char>,
    now: Timestamp,
)
    requires
        sound(rows),
        !has_place(rows, d.name, d.address, d.port),
        !has_id(rows, fresh),
    ensures
        without(registered(rows, d, fresh, now), fresh) == rows,
{
    let once = registered(rows, d, fresh, now);
    lemma_registered_keeps_sound(rows, d, fresh, now);
    lemma_index_of(once, fresh, rows.len() as int);
    assert(once.remove(rows.len() as int) =~= rows);
}

/// A heartbeat never moves the time at which a record was last heard of
/// backwards, whatever the clock says, and a second heartbeat at the same
/// time changes nothing.
pub proof fn law_heartbeats_repeat(
    rows: Seq<RecordView>,
    id: Seq<char>,
    t1: Timestamp,
    t2: Timestamp,
)
    requires
        sound(rows),
        has_id(rows, id),
    ensures
        rows[index_of(rows, id)].last_heartbeat.not_after(
            touched(rows, id, t1)[index_of(rows, id)].last_heartbeat,
        ),
        touched(rows, id, t1)[index_of(rows, id)].last_heartbeat.not_after(
            touched(touched(rows, id, t1), id, t2)[index_of(rows, id)].last_heartbeat,
        ),
        touched(touched(rows, id, t1), id, t1) == touched(rows, id, t1),
        t1.not_after(touched(rows, id, t1)[index_of(rows, id)].last_heartbeat),
{
    let i = index_of(rows, id);
    let once = touched(rows, id, t1);
    lemma_update_keeps_sound(rows, i, rows[i].touched(t1));
    lemma_index_of(once, id, i);
    assert(touched(once, id, t1) =~= once);
}

/// After a heartbeat at `t`, no staleness sweep at or before ten seconds
/// past `t` takes the record offline.
pub proof fn law_heartbeat_defers_staleness(
    rows: Seq<RecordView>,
    id: Seq<char>,
    t: Timestamp,
    sweep: Timestamp,
)
    requires
        sound(rows),
        has_id(rows, id),
        sweep.as_nanos() <= t.as_nanos() + STALE_AFTER_NANOS,
    ensures
        swept(touched(rows, id, t), sweep)[index_of(rows, id)].status == Status::Online,
        swept(touched(rows, id, t), sweep)[index_of(rows, id)] == touched(rows, id, t)[index_of(
            rows,
            id,
        )],
{
}

/// Reporting the same status twice in a row changes nothing the second
/// time: the table stays as the first report left it.
pub proof fn law_status_reports_repeat(rows: Seq<RecordView>, id: Seq<char>, status: Status)
    requires
        sound(rows),
    ensures
        !report_changes(reported(rows, id, status), id, status),
        reported(reported(rows, id, status), id, status) == reported(rows, id, status),
{
    if has_id(rows, id) {
        let i = index_of(rows, id);
        let once = reported(rows, id, status);
        lemma_update_keeps_sound(rows, i, rows[i].with_status(rows[i].status.after_report(status)));
        lemma_index_of(once, id, i);
        assert(reported(once, id, status) =~= once);
    }
}

/// The instance picked for a name is determined by the table, and it is
/// online where an instance of that name is online, else busy where one is
/// busy.
pub proof fn law_pick_prefers_online_then_busy(
    rows: Seq<RecordView>,
    name: Seq<char>,
    i: int,
    j: int,
)
    requires
        is_best(rows, name, i),
    ensures
        is_best(rows, name, j) ==> i == j,
        any_serves(rows, name, Some(Status::Online)) ==> rows[i].status == Status::Online,
        !any_serves(rows, name, Some(Status::Online)) && any_serves(
            rows,
            name,
            Some(Status::Busy),
        ) ==> rows[i].status == Status::Busy,
        forall|k: int| 0 <= k < i && rows[k].name == name ==> (#[trigger] rows[k]).status
            != rows[i].status,
{
}

/// A listing without a filter shows the table as it stands: every record,
/// each once.
pub proof fn law_listing_reflects_the_table(rows: Seq<RecordView>, out: Seq<RecordView>)
    requires
        sound(rows),
        is_listing(rows, None, out),
    ensures
        forall|i: int| 0 <= i < rows.len() ==> out.contains(#[trigger] rows[i]),
        forall|k: int| 0 <= k < out.len() ==> rows.contains(#[trigger] out[k]),
{
}

/// A report that changes the stored status gives exactly one event, which
/// tells of the new status; a report that changes nothing gives none. So of
/// two equal reports in a row the second gives none.
pub proof fn law_one_event_per_status_change(
    rows: Seq<RecordView>,
    id: Seq<char>,
    status: Status,
    reason: Option<Seq<char>>,
)
    requires
        sound(rows),
    ensures
        report_changes(rows, id, status) ==> status_events(rows, id, status, reason).len() == 1
            && status_events(rows, id, status, reason)[0].tells_status(id, status) && reported(
            rows,
            id,
            status,
        )[index_of(rows, id)].status == status,
        !report_changes(rows, id, status) ==> status_events(rows, id, status, reason).len() == 0
            && reported(rows, id, status) == rows,
        status_events(reported(rows, id, status), id, status, reason).len() == 0,
{
    law_status_reports_repeat(rows, id, status);
    if has_id(rows, id) && !report_changes(rows, id, status) {
        assert(reported(rows, id, status) =~= rows);
    }
}

/// A record that was heard of at `t` or later is left alone by every
/// staleness sweep up to ten seconds past `t`, whatever happened to its
/// status in between.
pub proof fn law_fresh_records_survive_sweeps(
    rows: Seq<RecordView>,
    i: int,
    t: Timestamp,
    sweep: Timestamp,
)
    requires
        0 <= i < rows.len(),
        t.not_after(rows[i].last_heartbeat),
        sweep.as_nanos() <= t.as_nanos() + STALE_AFTER_NANOS,
    ensures
        swept(rows, sweep)[i] == rows[i],
{
}

/// A listing is in ascending order of names, with or without a filter.
pub proof fn law_listings_ascend(
    rows: Seq<RecordView>,
    filter: Option<Seq<char>>,
    out: Seq<RecordView>,
    k: int,
    l: int,
)
    requires
        is_listing(rows, filter, out),
        0 <= k <= l < out.len(),
    ensures
        name_le(out[k].name, out[l].name),
{
    if k == l {
        crate::text::lemma_bytes_le_reflexive(vstd::utf8::encode_utf8(out[k].name));
    }
}

/// Every status is named by its own word and by no other.
pub proof fn law_status_words_round_trip(s: Status)
    ensures
        Status::from_label(s.label()) == Some(s),
{
    reveal_strlit("online");
    reveal_strlit("busy");
    reveal_strlit("offline");
    assert("online"@.len() == 6);
    assert("busy"@.len() == 4);
    assert("offline"@.len() == 7);
}

/// While the clock does not run backwards, no record is heard of in the
/// future: where that holds at `now` before an operation at `now`, it holds
/// after it, and a heartbeat or a registration at `now` leaves the record
/// heard of at `now` exactly.
pub proof fn law_heartbeats_are_never_ahead_of_the_clock(
    rows: Seq<RecordView>,
    d: DescriptorView,
    fresh: Seq<char>,
    id: Seq<char>,
    status: Status,
    now: Timestamp,
)
    requires
        sound(rows),
        forall|i: int| 0 <= i < rows.len() ==> (#[trigger] rows[i]).last_heartbeat.not_after(now),
    ensures
        forall|i: int|
            0 <= i < registered(rows, d, fresh, now).len() ==> (#[trigger] registered(
                rows,
                d,
                fresh,
                now,
            )[i]).last_heartbeat.not_after(now),
        forall|i: int|
            0 <= i < rows.len() ==> (#[trigger] touched(rows, id, now)[i]).last_heartbeat.not_after(
                now,
            ),
        forall|i: int|
            0 <= i < rows.len() ==> (#[trigger] reported(rows, id, status)[i]).last_heartbeat
                == rows[i].last_heartbeat,
        forall|i: int|
            0 <= i < rows.len() ==> (#[trigger] swept(rows, now)[i]).last_heartbeat
                == rows[i].last_heartbeat,
        has_id(rows, id) ==> touched(rows, id, now)[index_of(rows, id)].last_heartbeat == now,
        has_id(registered(rows, d, fresh, now), registered_id(rows, d, fresh)) && registered(
            rows,
            d,
            fresh,
            now,
        )[index_of(registered(rows, d, fresh, now), registered_id(rows, d, fresh))].last_heartbeat
            == now,
{
    let after = registered(rows, d, fresh, now);
    lemma_registered_keeps_sound(rows, d, fresh, now);
    if has_place(rows, d.name, d.address, d.port) {
        let i = index_of_place(rows, d.name, d.address, d.port);
        assert(rows[i].last_heartbeat.not_after(now));
        assert(after[i].id == rows[i].id);
        lemma_index_of(after, rows[i].id, i);
    } else if has_id(rows, fresh) {
        let j = index_of(rows, fresh);
        assert(after[j].id == fresh);
        lemma_index_of(after, fresh, j);
    } else {
        assert(after[rows.len() as int].id == fresh);
        lemma_index_of(after, fresh, rows.len() as int);
    }
    assert forall|i: int| 0 <= i < after.len() implies (#[trigger] after[i]).last_heartbeat.not_after(
        now,
    ) by {
        if i < rows.len() {
            assert(rows[i].last_heartbeat.not_after(now));
        }
    }
    if has_id(rows, id) {
        assert(rows[index_of(rows, id)].last_heartbeat.not_after(now));
    }
    assert forall|i: int| 0 <= i < rows.len() implies (#[trigger] touched(
        rows,
        id,
        now,
    )[i]).last_heartbeat.not_after(now) by {
        assert(rows[i].last_heartbeat.not_after(now));
    }
}

/// In a listing of `rows`, `r` stands before `s`: its name comes first, or
/// the names are the same and `r` comes first in the table.
pub open spec fn listed_before(rows: Seq<RecordView>, r: RecordView, s: RecordView) -> bool {
    &&& name_le(r.name, s.name)
    &&& name_le(s.name, r.name) ==> index_of(rows, r.id) < index_of(rows, s.id)
}

/// Every entry of `out` stands before every later one.
pub open spec fn in_listing_order(rows: Seq<RecordView>, out: Seq<RecordView>) -> bool {
    forall|k: int, l: int|
        0 <= k < l < out.len() ==> listed_before(rows, #[trigger] out[k], #[trigger] out[l])
}

proof fn lemma_listing_is_in_order(
    rows: Seq<RecordView>,
    filter: Option<Seq<char>>,
    out: Seq<RecordView>,
)
    requires
        is_listing(rows, filter, out),
    ensures
        in_listing_order(rows, out),
{
    assert forall|k: int, l: int| 0 <= k < l < out.len() implies listed_before(
        rows,
        #[trigger] out[k],
        #[trigger] out[l],
    ) by {
        if name_le(out[l].name, out[k].name) {
            lemma_bytes_le_antisymmetric(encode_utf8(out[k].name), encode_utf8(out[l].name));
            lemma_bytes_decide_text(out[k].name, out[l].name);
        }
    }
}

proof fn lemma_same_order_same_members(rows: Seq<RecordView>, a: Seq<RecordView>, b: Seq<RecordView>)
    requires
        in_listing_order(rows, a),
        in_listing_order(rows, b),
        forall|x: RecordView| a.contains(x) <==> b.contains(x),
    ensures
        a == b,
    decreases a.len(),
{
    if a.len() == 0 {
        if b.len() > 0 {
            assert(b.contains(b[0]));
        }
        assert(a =~= b);
    } else {
        assert(a.contains(a[0]));
        let j = choose|j: int| 0 <= j < b.len() && b[j] == a[0];
        assert(b.contains(b[0]));
        let i = choose|i: int| 0 <= i < a.len() && a[i] == b[0];
        if j > 0 {
            assert(listed_before(rows, b[0], b[j]));
            if i > 0 {
                assert(listed_before(rows, a[0], a[i]));
            }
            assert(false);
        }
        let ta = a.skip(1);
        let tb = b.skip(1);
        assert forall|x: RecordView| ta.contains(x) <==> tb.contains(x) by {
            if ta.contains(x) {
                let k = choose|k: int| 0 <= k < ta.len() && ta[k] == x;
                assert(a[k + 1] == x);
                assert(a.contains(x));
                let m = choose|m: int| 0 <= m < b.len() && b[m] == x;
                if m == 0 {
                    assert(listed_before(rows, a[0], a[k + 1]));
                    assert(false);
                }
                assert(tb[m - 1] == x);
            }
            if tb.contains(x) {
                let k = choose|k: int| 0 <= k < tb.len() && tb[k] == x;
                assert(b[k + 1] == x);
                assert(b.contains(x));
                let m = choose|m: int| 0 <= m < a.len() && a[m] == x;
                if m == 0 {
                    assert(listed_before(rows, b[0], b[k + 1]));
                    assert(false);
                }
                assert(ta[m - 1] == x);
            }
        }
        assert forall|k: int, l: int| 0 <= k < l < ta.len() implies listed_before(
            rows,
            #[trigger] ta[k],
            #[trigger] ta[l],
        ) by {
            assert(listed_before(rows, a[k + 1], a[l + 1]));
        }
        assert forall|k: int, l: int| 0 <= k < l < tb.len() implies listed_before(
            rows,
            #[trigger] tb[k],
            #[trigger] tb[l],
        ) by {
            assert(listed_before(rows, b[k + 1], b[l + 1]));
        }
        lemma_same_order_same_members(rows, ta, tb);
        assert(a =~= seq![a[0]] + ta);
        assert(b =~= seq![b[0]] + tb);
    }
}

/// The table and the filter determine the listing: there is only one.
pub proof fn law_the_listing_is_determined(
    rows: Seq<RecordView>,
    filter: Option<Seq<char>>,
    a: Seq<RecordView>,
    b: Seq<RecordView>,
)
    requires
        is_listing(rows, filter, a),
        is_listing(rows, filter, b),
    ensures
        a == b,
{
    lemma_listing_is_in_order(rows, filter, a);
    lemma_listing_is_in_order(rows, filter, b);
    assert forall|x: RecordView| a.contains(x) <==> b.contains(x) by {
        if a.contains(x) {
            let k = choose|k: int| 0 <= k < a.len() && a[k] == x;
            assert(rows.contains(a[k]));
            let i = choose|i: int| 0 <= i < rows.len() && rows[i] == x;
            assert(b.contains(rows[i]));
        }
        if b.contains(x) {
            let k = choose|k: int| 0 <= k < b.len() && b[k] == x;
            assert(rows.contains(b[k]));
            let i = choose|i: int| 0 <= i < rows.len() && rows[i] == x;
            assert(a.contains(rows[i]));
        }
    }
    lemma_same_order_same_members(rows, a, b);
}

/// A registration does not change the order of two records that stay, and
/// a record that is new comes after all that are there: the order of the
/// table is the order in which its records first came in.
pub proof fn law_registration_keeps_the_order(
    rows: Seq<RecordView>,
    d: DescriptorView,
    fresh: Seq<char>,
    now: Timestamp,
    a: Seq<char>,
    b: Seq<char>,
)
    requires
        sound(rows),
        has_id(rows, a),
        has_id(rows, b),
        index_of(rows, a) < index_of(rows, b),
    ensures
        has_id(registered(rows, d, fresh, now), a) && has_id(registered(rows, d, fresh, now), b)
            ==> index_of(registered(rows, d, fresh, now), a) < index_of(
            registered(rows, d, fresh, now),
            b,
        ),
        !has_place(rows, d.name, d.address, d.port) && !has_id(rows, fresh) ==> index_of(
            registered(rows, d, fresh, now),
            b,
        ) < index_of(registered(rows, d, fresh, now), fresh),
{
    let ia = index_of(rows, a);
    let ib = index_of(rows, b);
    let reg = registered(rows, d, fresh, now);
    lemma_registered_keeps_sound(rows, d, fresh, now);
    if has_place(rows, d.name, d.address, d.port) {
        assert(reg[ia].id == a && reg[ib].id == b);
        lemma_index_of(reg, a, ia);
        lemma_index_of(reg, b, ib);
    } else if has_id(rows, fresh) {
        let j = index_of(rows, fresh);
        lemma_index_of(rows, fresh, j);
        if has_id(reg, a) && has_id(reg, b) {
            let ja = index_of(reg, a);
            let jb = index_of(reg, b);
            if ja != j {
                assert(rows[ja].id == a);
                lemma_index_of(rows, a, ja);
            }
            if jb != j {
                assert(rows[jb].id == b);
                lemma_index_of(rows, b, jb);
            }
            if ja == j {
                assert(reg[j].id == fresh);
                assert(ia == j);
            }
            if jb == j {
                assert(reg[j].id == fresh);
                assert(ib == j);
            }
        }
    } else {
        assert(reg[ia].id == a && reg[ib].id == b);
        lemma_index_of(reg, a, ia);
        lemma_index_of(reg, b, ib);
        assert(reg[rows.len() as int].id == fresh);
        lemma_index_of(reg, fresh, rows.len() as int);
    }
}

/// Taking a record out does not change the order of two others.
pub proof fn law_removal_keeps_the_order(
    rows: Seq<RecordView>,
    id: Seq<char>,
    a: Seq<char>,
    b: Seq<char>,
)
    requires
        sound(rows),
        has_id(rows, a),
        has_id(rows, b),
        index_of(rows, a) < index_of(rows, b),
        a != id,
        b != id,
    ensures
        has_id(without(rows, id), a),
        has_id(without(rows, id), b),
        index_of(without(rows, id), a) < index_of(without(rows, id), b),
{
    let ia = index_of(rows, a);
    let ib = index_of(rows, b);
    if has_id(rows, id) {
        let k = index_of(rows, id);
        lemma_remove_keeps_sound(rows, k);
        let gone = rows.remove(k);
        let pa = if ia < k {
            ia
        } else {
            ia - 1
        };
        let pb = if ib < k {
            ib
        } else {
            ib - 1
        };
        assert(gone[pa] == rows[ia]);
        assert(gone[pb] == rows[ib]);
        lemma_index_of(gone, a, pa);
        lemma_index_of(gone, b, pb);
    }
}

/// A heartbeat, a status report and a staleness sweep leave every record
/// where it is.
pub proof fn law_updates_keep_the_order(
    rows: Seq<RecordView>,
    id: Seq<char>,
    status: Status,
    now: Timestamp,
    a: Seq<char>,
)
    requires
        sound(rows),
        has_id(rows, a),
    ensures
        index_of(touched(rows, id, now), a) == index_of(rows, a),
        index_of(reported(rows, id, status), a) == index_of(rows, a),
        index_of(swept(rows, now), a) == index_of(rows, a),
{
    let ia = index_of(rows, a);
    if has_id(rows, id) {
        let k = index_of(rows, id);
        let t = touched(rows, id, now);
        lemma_update_keeps_sound(rows, k, rows[k].touched(now));
        assert(t[ia].id == a);
        lemma_index_of(t, a, ia);
        let r = reported(rows, id, status);
        lemma_update_keeps_sound(rows, k, rows[k].with_status(rows[k].status.after_report(status)));
        assert(r[ia].id == a);
        lemma_index_of(r, a, ia);
    }
    let w = swept(rows, now);
    lemma_swept_keeps_sound(rows, now);
    assert(w[ia].id == a);
    lemma_index_of(w, a, ia);
}

/// The labels of a record are a mapping, and for every key they keep what
/// the last of the given pairs with that key says.
pub proof fn law_the_later_label_counts(pairs: Seq<(Seq<char>, Seq<char>)>, key: Seq<char>)
    ensures
        is_mapping(canonical(pairs)),
        value_of(canonical(pairs), key) == last_value(pairs, key),
    decreases pairs.len(),
{
    lemma_canonical_is_mapping(pairs);
    if pairs.len() > 0 {
        lemma_canonical_is_mapping(pairs.drop_last());
        law_the_later_label_counts(pairs.drop_last(), key);
        lemma_put_sets_one_key(canonical(pairs.drop_last()), pairs.last().0, pairs.last().1, key);
    }
}

/// A registration at a place that is known leaves the number of records as
/// it is; one at a new place adds one record, unless the identifier drawn
/// for it was taken, in which case it takes that record's place.
pub proof fn law_registration_counts(
    rows: Seq<RecordView>,
    d: DescriptorView,
    fresh: Seq<char>,
    now: Timestamp,
)
    requires
        sound(rows),
    ensures
        registered(rows, d, fresh, now).len() == (if has_place(rows, d.name, d.address, d.port)
            || has_id(rows, fresh) {
            rows.len()
        } else {
            rows.len() + 1
        }),
        has_place(registered(rows, d, fresh, now), d.name, d.address, d.port),
{
    let after = registered(rows, d, fresh, now);
    if has_place(rows, d.name, d.address, d.port) {
        let i = index_of_place(rows, d.name, d.address, d.port);
        assert(after[i].located(d.name, d.address, d.port));
    } else if has_id(rows, fresh) {
        let j = index_of(rows, fresh);
        assert(after[j].located(d.name, d.address, d.port));
    } else {
        assert(after[rows.len() as int].located(d.name, d.address, d.port));
    }
}

/// After a registration the record under the identifier that the
/// registration returns is online, advertises what was registered, and was
/// registered no later than it was last heard of, which is not before `now`.
pub proof fn law_registration_leaves_the_record_online(
    rows: Seq<RecordView>,
    d: DescriptorView,
    fresh: Seq<char>,
    now: Timestamp,
)
    requires
        sound(rows),
    ensures
        has_id(registered(rows, d, fresh, now), registered_id(rows, d, fresh)),
        ({
            let after = registered(rows, d, fresh, now);
            let r = after[index_of(after, registered_id(rows, d, fresh))];
            &&& r.id == registered_id(rows, d, fresh)
            &&& r.status == Status::Online
            &&& r.located(d.name, d.address, d.port)
            &&& r.version == d.version
            &&& r.methods == d.methods
            &&& r.metadata == canonical(d.metadata)
            &&& r.registered_at.not_after(r.last_heartbeat)
            &&& now.not_after(r.last_heartbeat)
        }),
{
    let after = registered(rows, d, fresh, now);
    lemma_registered_keeps_sound(rows, d, fresh, now);
    if has_place(rows, d.name, d.address, d.port) {
        let i = index_of_place(rows, d.name, d.address, d.port);
        assert(rows[i].intact());
        assert(after[i].id == rows[i].id);
        lemma_index_of(after, rows[i].id, i);
    } else if has_id(rows, fresh) {
        let j = index_of(rows, fresh);
        assert(after[j].id == fresh);
        lemma_index_of(after, fresh, j);
    } else {
        assert(after[rows.len() as int].id == fresh);
        lemma_index_of(after, fresh, rows.len() as int);
    }
}

/// A heartbeat changes nothing of its record but the time at which it was
/// last heard of and its status, which is online afterwards, and nothing of
/// any other record.
pub proof fn law_heartbeat_keeps_what_is_advertised(
    rows: Seq<RecordView>,
    id: Seq<char>,
    now: Timestamp,
    i: int,
)
    requires
        sound(rows),
        0 <= i < rows.len(),
    ensures
        touched(rows, id, now).len() == rows.len(),
        rows[i].id != id ==> touched(rows, id, now)[i] == rows[i],
        rows[i].id == id ==> touched(rows, id, now)[i] == (RecordView {
            last_heartbeat: rows[i].last_heartbeat.later_of(now),
            status: Status::Online,
            ..rows[i]
        }),
        touched(rows, id, now)[i].registered_at == rows[i].registered_at,
        rows[i].last_heartbeat.not_after(touched(rows, id, now)[i].last_heartbeat),
{
    if rows[i].id == id {
        lemma_index_of(rows, id, i);
    } else if has_id(rows, id) {
        let k = index_of(rows, id);
        assert(rows[k].id == id);
    }
}

} // verus!
