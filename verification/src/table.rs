//! The service table: the one place where records live, and the primitives
//! that read and change them.

use vstd::prelude::*;
use crate::clock::Timestamp;
use crate::labels::lemma_canonical_is_mapping;
use crate::labels::normalize;
use crate::record::DescriptorView;
use crate::record::RecordView;
use crate::record::ServiceDescriptor;
use crate::record::ServiceRecord;
use crate::record::views;
use crate::status::Status;
use crate::text::same_text;

verus! {

/// Some row carries the identifier `id`.
pub open spec fn has_id(rows: Seq<RecordView>, id: Seq<char>) -> bool {
    exists|i: int| 0 <= i < rows.len() && (#[trigger] rows[i]).id == id
}

/// The position of a row that carries `id`; it is the only one where no two
/// rows share an identifier.
pub open spec fn index_of(rows: Seq<RecordView>, id: Seq<char>) -> int {
    choose|i: int| 0 <= i < rows.len() && (#[trigger] rows[i]).id == id
}

/// Some row answers to this name, address and port.
pub open spec fn has_place(rows: Seq<RecordView>, name: Seq<char>, address: Seq<char>, port: u16) -> bool {
    exists|i: int| 0 <= i < rows.len() && (#[trigger] rows[i]).located(name, address, port)
}

/// The position of a row that answers to this name, address and port.
pub open spec fn index_of_place(rows: Seq<RecordView>, name: Seq<char>, address: Seq<char>, port: u16) -> int {
    choose|i: int| 0 <= i < rows.len() && (#[trigger] rows[i]).located(name, address, port)
}

/// No two rows share an identifier.
pub open spec fn distinct_ids(rows: Seq<RecordView>) -> bool {
    forall|i: int, j: int|
        0 <= i < rows.len() && 0 <= j < rows.len() && i != j ==> (#[trigger] rows[i]).id != (
        #[trigger] rows[j]).id
}

/// No two rows answer to the same name, address and port.
pub open spec fn distinct_places(rows: Seq<RecordView>) -> bool {
    forall|i: int, j: int|
        0 <= i < rows.len() && 0 <= j < rows.len() && i != j ==> !(#[trigger] rows[i]).located(
            (#[trigger] rows[j]).name,
            rows[j].address,
            rows[j].port,
        )
}

/// Every row was registered no later than it was last heard of, and its
/// labels are a mapping.
pub open spec fn all_intact(rows: Seq<RecordView>) -> bool {
    forall|i: int| 0 <= i < rows.len() ==> (#[trigger] rows[i]).intact()
}

/// What holds of the rows of every table.
pub open spec fn sound(rows: Seq<RecordView>) -> bool {
    &&& distinct_ids(rows)
    &&& distinct_places(rows)
    &&& all_intact(rows)
}

/// The identifier under which a registration with `d` ends up: that of the
/// row already at the same name, address and port, else the fresh one.
pub open spec fn registered_id(rows: Seq<RecordView>, d: DescriptorView, fresh: Seq<char>) -> Seq<char> {
    if has_place(rows, d.name, d.address, d.port) {
        rows[index_of_place(rows, d.name, d.address, d.port)].id
    } else {
        fresh
    }
}

/// The rows after a registration with `d` at `now`, for which `fresh` was
/// drawn as identifier. A row at the same name, address and port is refreshed
/// in place. Else the new row takes the place of a row that already carries
/// `fresh`, as in a map keyed by identifier, and is appended where there is none.
pub open spec fn registered(
    rows: Seq<RecordView>,
    d: DescriptorView,
    fresh: Seq<char>,
    now: Timestamp,
) -> Seq<RecordView> {
    if has_place(rows, d.name, d.address, d.port) {
        let i = index_of_place(rows, d.name, d.address, d.port);
        rows.update(i, rows[i].refreshed(d, now))
    } else if has_id(rows, fresh) {
        rows.update(index_of(rows, fresh), RecordView::created(d, fresh, now))
    } else {
        rows.push(RecordView::created(d, fresh, now))
    }
}

/// The rows without the one that carries `id`.
pub open spec fn without(rows: Seq<RecordView>, id: Seq<char>) -> Seq<RecordView> {
    if has_id(rows, id) {
        rows.remove(index_of(rows, id))
    } else {
        rows
    }
}

/// The rows after a heartbeat of `id` at `now`.
pub open spec fn touched(rows: Seq<RecordView>, id: Seq<char>, now: Timestamp) -> Seq<RecordView> {
    if has_id(rows, id) {
        let i = index_of(rows, id);
        rows.update(i, rows[i].touched(now))
    } else {
        rows
    }
}

/// The rows after `status` was reported for `id`.
pub open spec fn reported(rows: Seq<RecordView>, id: Seq<char>, status: Status) -> Seq<RecordView> {
    if has_id(rows, id) {
        let i = index_of(rows, id);
        rows.update(i, rows[i].with_status(rows[i].status.after_report(status)))
    } else {
        rows
    }
}

/// The row listens at this address and port.
pub open spec fn dwells(r: RecordView, address: Seq<char>, port: u16) -> bool {
    r.address == address && r.port == port
}

/// Row `i` is the first, in the order of the table, that listens at this
/// address and port.
pub open spec fn first_at(rows: Seq<RecordView>, address: Seq<char>, port: u16, i: int) -> bool {
    &&& 0 <= i < rows.len()
    &&& dwells(rows[i], address, port)
    &&& forall|j: int| 0 <= j < i ==> !dwells(#[trigger] rows[j], address, port)
}

/// Some row listens at this address and port.
pub open spec fn any_at(rows: Seq<RecordView>, address: Seq<char>, port: u16) -> bool {
    exists|i: int| 0 <= i < rows.len() && dwells(#[trigger] rows[i], address, port)
}

/// The row is an instance of the service `name`, in the status `tier` where
/// one is asked for.
pub open spec fn serves(r: RecordView, name: Seq<char>, tier: Option<Status>) -> bool {
    &&& r.name == name
    &&& tier matches Some(s) ==> r.status == s
}

/// Some row serves `name` in `tier`.
pub open spec fn any_serves(rows: Seq<RecordView>, name: Seq<char>, tier: Option<Status>) -> bool {
    exists|i: int| 0 <= i < rows.len() && serves(#[trigger] rows[i], name, tier)
}

/// Row `i` is the first, in the order of the table, that serves `name` in `tier`.
pub open spec fn leads(rows: Seq<RecordView>, name: Seq<char>, tier: Option<Status>, i: int) -> bool {
    &&& 0 <= i < rows.len()
    &&& serves(rows[i], name, tier)
    &&& forall|j: int| 0 <= j < i ==> !serves(#[trigger] rows[j], name, tier)
}

/// The tier from which an instance of `name` is picked: online where there
/// is one, else busy where there is one, else any.
pub open spec fn preferred_tier(rows: Seq<RecordView>, name: Seq<char>) -> Option<Status> {
    if any_serves(rows, name, Some(Status::Online)) {
        Some(Status::Online)
    } else if any_serves(rows, name, Some(Status::Busy)) {
        Some(Status::Busy)
    } else {
        None
    }
}

/// Row `i` is the instance picked for `name`: the first of the preferred tier.
pub open spec fn is_best(rows: Seq<RecordView>, name: Seq<char>, i: int) -> bool {
    leads(rows, name, preferred_tier(rows, name), i)
}

/// The staleness sweep at `now` takes this row offline: it is online and
/// was last heard of more than ten seconds before.
pub open spec fn goes_stale(r: RecordView, now: Timestamp) -> bool {
    r.status == Status::Online && r.last_heartbeat.stale_at(now)
}

/// [`goes_stale`] at `now`, as a predicate on rows.
pub open spec fn gone_stale(now: Timestamp) -> spec_fn(RecordView) -> bool {
    |r: RecordView| goes_stale(r, now)
}

/// The rows after the staleness sweep at `now`.
pub open spec fn swept(rows: Seq<RecordView>, now: Timestamp) -> Seq<RecordView> {
    Seq::new(
        rows.len(),
        |i: int|
            if goes_stale(rows[i], now) {
                rows[i].with_status(Status::Offline)
            } else {
                rows[i]
            },
    )
}

/// Identifier and name of each row of `rows`, in order.
pub open spec fn ids_and_names(rows: Seq<RecordView>) -> Seq<(Seq<char>, Seq<char>)> {
    Seq::new(rows.len(), |i: int| (rows[i].id, rows[i].name))
}

/// The active probe tries this row: it is online or busy.
pub open spec fn is_probed(r: RecordView) -> bool {
    r.status == Status::Online || r.status == Status::Busy
}

/// [`is_probed`] as a predicate on rows.
pub open spec fn probed() -> spec_fn(RecordView) -> bool {
    |r: RecordView| is_probed(r)
}

/// Identifier, address and port of each row of `rows`, in order.
pub open spec fn endpoints(rows: Seq<RecordView>) -> Seq<(Seq<char>, Seq<char>, u16)> {
    Seq::new(rows.len(), |i: int| (rows[i].id, rows[i].address, rows[i].port))
}

/// One more row under a filter: the rows among the first `i + 1` that pass
/// are those among the first `i`, and row `i` where it passes.
pub proof fn lemma_filter_next(rows: Seq<RecordView>, p: spec_fn(RecordView) -> bool, i: int)
    requires
        0 <= i < rows.len(),
    ensures
        rows.take(i + 1).filter(p) == if p(rows[i]) {
            rows.take(i).filter(p).push(rows[i])
        } else {
            rows.take(i).filter(p)
        },
{
    reveal_with_fuel(Seq::filter, 2);
    assert(rows.take(i + 1).drop_last() =~= rows.take(i));
    assert(rows.take(i + 1).last() == rows[i]);
}

/// Reporting `status` for `id` changes the stored status.
pub open spec fn report_changes(rows: Seq<RecordView>, id: Seq<char>, status: Status) -> bool {
    has_id(rows, id) && rows[index_of(rows, id)].status.after_report(status) != rows[index_of(
        rows,
        id,
    )].status
}

/// Where no two rows share an identifier, a row that carries `id` is the one
/// that `index_of` names.
pub proof fn lemma_index_of(rows: Seq<RecordView>, id: Seq<char>, i: int)
    requires
        distinct_ids(rows),
        0 <= i < rows.len(),
        rows[i].id == id,
    ensures
        has_id(rows, id),
        index_of(rows, id) == i,
{
}

/// Where no two rows share a place, a row at a place is the one that
/// `index_of_place` names.
pub proof fn lemma_index_of_place(
    rows: Seq<RecordView>,
    name: Seq<char>,
    address: Seq<char>,
    port: u16,
    i: int,
)
    requires
        distinct_places(rows),
        0 <= i < rows.len(),
        rows[i].located(name, address, port),
    ensures
        has_place(rows, name, address, port),
        index_of_place(rows, name, address, port) == i,
{
    let k = index_of_place(rows, name, address, port);
    if k != i {
        assert(rows[k].located(rows[i].name, rows[i].address, rows[i].port));
    }
}

/// Replacing a row by an intact one with the same identity and place keeps
/// the rows sound.
pub proof fn lemma_update_keeps_sound(rows: Seq<RecordView>, i: int, r: RecordView)
    requires
        sound(rows),
        0 <= i < rows.len(),
        r.id == rows[i].id,
        r.located(rows[i].name, rows[i].address, rows[i].port),
        r.intact(),
    ensures
        sound(rows.update(i, r)),
{
    let after = rows.update(i, r);
    assert forall|a: int, b: int| 0 <= a < after.len() && 0 <= b < after.len() && a != b implies (
    #[trigger] after[a]).id != (#[trigger] after[b]).id by {
        assert(rows[a].id != rows[b].id);
    }
    assert forall|a: int, b: int| 0 <= a < after.len() && 0 <= b < after.len() && a != b implies !(
    #[trigger] after[a]).located((#[trigger] after[b]).name, after[b].address, after[b].port) by {
        assert(!rows[a].located(rows[b].name, rows[b].address, rows[b].port));
    }
    assert forall|a: int| 0 <= a < after.len() implies (#[trigger] after[a]).intact() by {
        assert(rows[a].intact());
    }
}

/// Taking a row out keeps the rows sound, and its identifier is gone.
pub proof fn lemma_remove_keeps_sound(rows: Seq<RecordView>, i: int)
    requires
        sound(rows),
        0 <= i < rows.len(),
    ensures
        sound(rows.remove(i)),
        !has_id(rows.remove(i), rows[i].id),
{
    let after = rows.remove(i);
    let at = |a: int| if a < i { a } else { a + 1 };
    assert forall|a: int| 0 <= a < after.len() implies #[trigger] after[a] == rows[at(a)] by {}
    assert forall|a: int, b: int| 0 <= a < after.len() && 0 <= b < after.len() && a != b implies (
    #[trigger] after[a]).id != (#[trigger] after[b]).id by {
        assert(rows[at(a)].id != rows[at(b)].id);
    }
    assert forall|a: int, b: int| 0 <= a < after.len() && 0 <= b < after.len() && a != b implies !(
    #[trigger] after[a]).located((#[trigger] after[b]).name, after[b].address, after[b].port) by {
        assert(!rows[at(a)].located(rows[at(b)].name, rows[at(b)].address, rows[at(b)].port));
    }
    assert forall|a: int| 0 <= a < after.len() implies (#[trigger] after[a]).intact() by {
        assert(rows[at(a)].intact());
    }
    assert forall|a: int| 0 <= a < after.len() implies (#[trigger] after[a]).id != rows[i].id by {
        assert(rows[at(a)].id != rows[i].id);
    }
}

/// A registration keeps the rows sound.
pub proof fn lemma_registered_keeps_sound(
    rows: Seq<RecordView>,
    d: DescriptorView,
    fresh: Seq<char>,
    now: Timestamp,
)
    requires
        sound(rows),
    ensures
        sound(registered(rows, d, fresh, now)),
        has_id(registered(rows, d, fresh, now), registered_id(rows, d, fresh)),
{
    let after = registered(rows, d, fresh, now);
    let made = RecordView::created(d, fresh, now);
    lemma_canonical_is_mapping(d.metadata);
    if has_place(rows, d.name, d.address, d.port) {
        let i = index_of_place(rows, d.name, d.address, d.port);
        assert(rows[i].intact());
        lemma_update_keeps_sound(rows, i, rows[i].refreshed(d, now));
        assert(after[i].id == rows[i].id);
    } else if has_id(rows, fresh) {
        let j = index_of(rows, fresh);
        assert forall|a: int, b: int|
            0 <= a < after.len() && 0 <= b < after.len() && a != b implies (#[trigger] after[a]).id
            != (#[trigger] after[b]).id by {
            assert(rows[a].id != rows[b].id);
        }
        assert forall|a: int, b: int|
            0 <= a < after.len() && 0 <= b < after.len() && a != b implies !(
        #[trigger] after[a]).located((#[trigger] after[b]).name, after[b].address, after[b].port) by {
            assert(!rows[a].located(rows[b].name, rows[b].address, rows[b].port));
            assert(!rows[a].located(d.name, d.address, d.port));
            assert(!rows[b].located(d.name, d.address, d.port));
        }
        assert forall|a: int| 0 <= a < after.len() implies (#[trigger] after[a]).intact() by {
            if a != j {
                assert(rows[a].intact());
            }
        }
        assert(after[j].id == fresh);
    } else {
        let last = rows.len() as int;
        assert forall|a: int, b: int|
            0 <= a < after.len() && 0 <= b < after.len() && a != b implies (#[trigger] after[a]).id
            != (#[trigger] after[b]).id by {
            if a < last && b < last {
                assert(rows[a].id != rows[b].id);
            } else if a < last {
                assert(rows[a].id != fresh);
            } else {
                assert(rows[b].id != fresh);
            }
        }
        assert forall|a: int, b: int|
            0 <= a < after.len() && 0 <= b < after.len() && a != b implies !(
        #[trigger] after[a]).located((#[trigger] after[b]).name, after[b].address, after[b].port) by {
            if a < last && b < last {
                assert(!rows[a].located(rows[b].name, rows[b].address, rows[b].port));
            } else if a < last {
                assert(!rows[a].located(d.name, d.address, d.port));
            } else {
                assert(!rows[b].located(d.name, d.address, d.port));
            }
        }
        assert forall|a: int| 0 <= a < after.len() implies (#[trigger] after[a]).intact() by {
            if a < last {
                assert(rows[a].intact());
            }
        }
        assert(after[last].id == fresh);
    }
}

/// The staleness sweep keeps the rows sound.
pub proof fn lemma_swept_keeps_sound(rows: Seq<RecordView>, now: Timestamp)
    requires
        sound(rows),
    ensures
        sound(swept(rows, now)),
{
    let after = swept(rows, now);
    assert forall|a: int, b: int| 0 <= a < after.len() && 0 <= b < after.len() && a != b implies (
    #[trigger] after[a]).id != (#[trigger] after[b]).id by {
        assert(rows[a].id != rows[b].id);
    }
    assert forall|a: int, b: int| 0 <= a < after.len() && 0 <= b < after.len() && a != b implies !(
    #[trigger] after[a]).located((#[trigger] after[b]).name, after[b].address, after[b].port) by {
        assert(!rows[a].located(rows[b].name, rows[b].address, rows[b].port));
    }
    assert forall|a: int| 0 <= a < after.len() implies (#[trigger] after[a]).intact() by {
        assert(rows[a].intact());
    }
}

/// What a registration did.
#[derive(Clone, Debug, PartialEq, Eq)]
pub struct Registered {
    /// The identifier of the instance from now on.
    pub id: String,
    /// Whether the instance is new at its name, address and port.
    pub created: bool,
}

/// What a heartbeat did.
#[derive(Clone, Copy, Debug, PartialEq, Eq, Structural)]
pub enum TouchOutcome {
    NotFound,
    Touched { was_offline: bool },
}

/// What a status report did.
#[derive(Clone, Debug, PartialEq, Eq)]
pub struct StatusChange {
    /// Whether the stored status is another one than before.
    pub changed: bool,
    /// The record as it stands after the report.
    pub record: ServiceRecord,
}

/// The table of registered instances, in the order in which their
/// identifiers first came in.
pub struct ServiceTable {
    records: Vec<ServiceRecord>,
}

impl View for ServiceTable {
    type V = Seq<RecordView>;

    closed spec fn view(&self) -> Seq<RecordView> {
        views(self.records@)
    }
}

impl ServiceTable {
    /// The invariant of the table.
    pub open spec fn wf(&self) -> bool {
        sound(self@)
    }

    pub fn new() -> (t: ServiceTable)
        ensures
            t@ == Seq::<RecordView>::empty(),
            t.wf(),
    {
        let t = ServiceTable { records: Vec::new() };
        assert(t@ =~= Seq::<RecordView>::empty());
        t
    }

    /// The number of records.
    pub fn len(&self) -> (n: usize)
        ensures
            n == self@.len(),
    {
        self.records.len()
    }

    /// The record at position `i`.
    pub fn record_at(&self, i: usize) -> (r: &ServiceRecord)
        requires
            i < self@.len(),
        ensures
            r@ == self@[i as int],
    {
        &self.records[i]
    }

    /// The position of the record that carries `id`.
    fn position(&self, id: &str) -> (r: Option<usize>)
        ensures
            match r {
                Some(i) => i < self@.len() && self@[i as int].id == id@,
                None => !has_id(self@, id@),
            },
    {
        let mut i: usize = 0;
        while i < self.records.len()
            invariant
                i <= self.records.len(),
                forall|j: int| 0 <= j < i ==> (#[trigger] self@[j]).id != id@,
            decreases self.records.len() - i,
        {
            if same_text(self.records[i].id.as_str(), id) {
                return Some(i);
            }
            i += 1;
        }
        None
    }

    /// The position of the record at this name, address and port.
    fn position_of_place(&self, name: &str, address: &str, port: u16) -> (r: Option<usize>)
        ensures
            match r {
                Some(i) => i < self@.len() && self@[i as int].located(name@, address@, port),
                None => !has_place(self@, name@, address@, port),
            },
    {
        let mut i: usize = 0;
        while i < self.records.len()
            invariant
                i <= self.records.len(),
                forall|j: int| 0 <= j < i ==> !(#[trigger] self@[j]).located(name@, address@, port),
            decreases self.records.len() - i,
        {
            let r = &self.records[i];
            if r.port == port && same_text(r.name.as_str(), name) && same_text(
                r.address.as_str(),
                address,
            ) {
                return Some(i);
            }
            i += 1;
        }
        None
    }

    /// Registers an instance: `desc` is what it advertises, `fresh_id` the
    /// identifier drawn for the case that it is new, `now` the time.
    pub fn insert_or_update(
        &mut self,
        desc: ServiceDescriptor,
        fresh_id: String,
        now: Timestamp,
    ) -> (out: Registered)
        requires
            old(self).wf(),
        ensures
            final(self).wf(),
            final(self)@ == registered(old(self)@, desc@, fresh_id@, now),
            out.id@ == registered_id(old(self)@, desc@, fresh_id@),
            out.created == !has_place(old(self)@, desc@.name, desc@.address, desc@.port),
            has_id(final(self)@, out.id@),
    {
        let ghost before = self@;
        let ghost d = desc@;
        proof {
            lemma_registered_keeps_sound(before, d, fresh_id@, now);
        }
        match self.position_of_place(desc.name.as_str(), desc.address.as_str(), desc.port) {
            Some(i) => {
                proof {
                    lemma_index_of_place(before, d.name, d.address, d.port, i as int);
                }
                let id = self.records[i].id.clone();
                let heard = self.records[i].last_heartbeat.later(now);
                let rec = ServiceRecord {
                    id: self.records[i].id.clone(),
                    name: desc.name,
                    version: desc.version,
                    address: desc.address,
                    port: desc.port,
                    methods: desc.methods,
                    metadata: normalize(&desc.metadata),
                    registered_at: self.records[i].registered_at,
                    last_heartbeat: heard,
                    status: Status::Online,
                };
                self.records[i] = rec;
                assert(self@ =~= before.update(i as int, before[i as int].refreshed(d, now)));
                Registered { id, created: false }
            },
            None => {
                let rec = ServiceRecord {
                    id: fresh_id.clone(),
                    name: desc.name,
                    version: desc.version,
                    address: desc.address,
                    port: desc.port,
                    methods: desc.methods,
                    metadata: normalize(&desc.metadata),
                    registered_at: now,
                    last_heartbeat: now,
                    status: Status::Online,
                };
                assert(rec@ == RecordView::created(d, fresh_id@, now));
                match self.position(fresh_id.as_str()) {
                    Some(j) => {
                        proof {
                            lemma_index_of(before, fresh_id@, j as int);
                        }
                        self.records[j] = rec;
                        assert(self@ =~= before.update(
                            j as int,
                            RecordView::created(d, fresh_id@, now),
                        ));
                    },
                    None => {
                        self.records.push(rec);
                        assert(self@ =~= before.push(RecordView::created(d, fresh_id@, now)));
                    },
                }
                Registered { id: fresh_id, created: true }
            },
        }
    }

    /// Takes the record of `id` out of the table.
    pub fn remove(&mut self, id: &str) -> (removed: bool)
        requires
            old(self).wf(),
        ensures
            final(self).wf(),
            removed == has_id(old(self)@, id@),
            final(self)@ == without(old(self)@, id@),
            !has_id(final(self)@, id@),
    {
        let ghost before = self@;
        match self.position(id) {
            Some(i) => {
                proof {
                    lemma_index_of(before, id@, i as int);
                    lemma_remove_keeps_sound(before, i as int);
                }
                let _ = self.records.remove(i);
                assert(self@ =~= before.remove(i as int));
                true
            },
            None => false,
        }
    }

    /// Records a heartbeat of `id` at `now`.
    pub fn touch(&mut self, id: &str, now: Timestamp) -> (out: TouchOutcome)
        requires
            old(self).wf(),
        ensures
            final(self).wf(),
            final(self)@ == touched(old(self)@, id@, now),
            out == (if has_id(old(self)@, id@) {
                TouchOutcome::Touched {
                    was_offline: old(self)@[index_of(old(self)@, id@)].status == Status::Offline,
                }
            } else {
                TouchOutcome::NotFound
            }),
    {
        let ghost before = self@;
        match self.position(id) {
            Some(i) => {
                proof {
                    lemma_index_of(before, id@, i as int);
                    lemma_update_keeps_sound(before, i as int, before[i as int].touched(now));
                }
                let was_offline = self.records[i].status == Status::Offline;
                let heard = self.records[i].last_heartbeat.later(now);
                self.records[i].last_heartbeat = heard;
                self.records[i].status = Status::Online;
                assert(self@ =~= before.update(i as int, before[i as int].touched(now)));
                TouchOutcome::Touched { was_offline }
            },
            None => TouchOutcome::NotFound,
        }
    }

    /// A copy of the record of `id`.
    pub fn get(&self, id: &str) -> (r: Option<ServiceRecord>)
        requires
            self.wf(),
        ensures
            match r {
                Some(rec) => has_id(self@, id@) && rec@ == self@[index_of(self@, id@)],
                None => !has_id(self@, id@),
            },
    {
        match self.position(id) {
            Some(i) => {
                proof {
                    lemma_index_of(self@, id@, i as int);
                }
                Some(self.records[i].copy())
            },
            None => None,
        }
    }

    /// Stores the status that a router, a probe or an operator reports for
    /// `id`, as far as the state machine has that move, and says whether the
    /// stored status changed.
    pub fn set_status(&mut self, id: &str, status: Status) -> (r: Option<StatusChange>)
        requires
            old(self).wf(),
        ensures
            final(self).wf(),
            final(self)@ == reported(old(self)@, id@, status),
            match r {
                Some(c) => {
                    &&& has_id(old(self)@, id@)
                    &&& c.record@ == final(self)@[index_of(old(self)@, id@)]
                    &&& c.changed == report_changes(old(self)@, id@, status)
                },
                None => !has_id(old(self)@, id@),
            },
    {
        let ghost before = self@;
        match self.position(id) {
            Some(i) => {
                let was = self.records[i].status;
                let next = was.report(status);
                proof {
                    lemma_index_of(before, id@, i as int);
                    lemma_update_keeps_sound(before, i as int, before[i as int].with_status(next));
                }
                self.records[i].status = next;
                assert(self@ =~= before.update(i as int, before[i as int].with_status(next)));
                Some(StatusChange { changed: next != was, record: self.records[i].copy() })
            },
            None => None,
        }
    }
    /// The identifier of the first record that listens at `address` and `port`.
    pub fn find_by_addr(&self, address: &str, port: u16) -> (r: Option<String>)
        ensures
            match r {
                Some(id) => exists|i: int|
                    first_at(self@, address@, port, i) && (#[trigger] self@[i]).id == id@,
                None => !any_at(self@, address@, port),
            },
    {
        let mut i: usize = 0;
        while i < self.records.len()
            invariant
                i <= self.records.len(),
                forall|j: int| 0 <= j < i ==> !dwells(#[trigger] self@[j], address@, port),
            decreases self.records.len() - i,
        {
            let r = &self.records[i];
            if r.port == port && same_text(r.address.as_str(), address) {
                assert(first_at(self@, address@, port, i as int));
                return Some(r.id.clone());
            }
            i += 1;
        }
        None
    }

    /// The position of the first record that serves `name` in `tier`.
    fn first_serving(&self, name: &str, tier: Option<Status>) -> (r: Option<usize>)
        ensures
            match r {
                Some(i) => leads(self@, name@, tier, i as int),
                None => !any_serves(self@, name@, tier),
            },
    {
        let mut i: usize = 0;
        while i < self.records.len()
            invariant
                i <= self.records.len(),
                forall|j: int| 0 <= j < i ==> !serves(#[trigger] self@[j], name@, tier),
            decreases self.records.len() - i,
        {
            let r = &self.records[i];
            let in_tier = match tier {
                Some(s) => r.status == s,
                None => true,
            };
            if in_tier && same_text(r.name.as_str(), name) {
                return Some(i);
            }
            i += 1;
        }
        None
    }

    /// Picks the instance to which a call for the service `name` goes: the
    /// first online one, else the first busy one, else the first of any
    /// status. Returns its identifier, address and port.
    pub fn select_best(&self, name: &str) -> (r: Option<(String, String, u16)>)
        ensures
            match r {
                Some(pick) => exists|i: int|
                    {
                        &&& is_best(self@, name@, i)
                        &&& (#[trigger] self@[i]).id == pick.0@
                        &&& self@[i].address == pick.1@
                        &&& self@[i].port == pick.2
                    },
                None => !any_serves(self@, name@, None),
            },
    {
        let online = self.first_serving(name, Some(Status::Online));
        let found = match online {
            Some(i) => Some(i),
            None => match self.first_serving(name, Some(Status::Busy)) {
                Some(i) => Some(i),
                None => self.first_serving(name, None),
            },
        };
        match found {
            Some(i) => {
                let r = &self.records[i];
                assert(is_best(self@, name@, i as int));
                Some((r.id.clone(), r.address.clone(), r.port))
            },
            None => None,
        }
    }
    /// The staleness sweep: every online record that was last heard of more
    /// than ten seconds before `now` goes offline. Returns identifier and
    /// name of each such record, in the order of the table.
    pub fn sweep_stale(&mut self, now: Timestamp) -> (gone: Vec<(String, String)>)
        requires
            old(self).wf(),
        ensures
            final(self).wf(),
            final(self)@ == swept(old(self)@, now),
            gone.deep_view() == ids_and_names(old(self)@.filter(gone_stale(now))),
    {
        let ghost before = self@;
        let ghost p = gone_stale(now);
        let mut gone: Vec<(String, String)> = Vec::new();
        let n = self.records.len();
        let mut i: usize = 0;
        assert(before.take(0).filter(p) =~= Seq::<RecordView>::empty());
        while i < n
            invariant
                i <= n,
                n == before.len(),
                p == gone_stale(now),
                sound(before),
                self@.len() == n,
                sound(self@),
                forall|j: int| 0 <= j < i ==> #[trigger] self@[j] == swept(before, now)[j],
                forall|j: int| i <= j < n ==> #[trigger] self@[j] == before[j],
                gone.deep_view() == ids_and_names(before.take(i as int).filter(p)),
            decreases n - i,
        {
            let ghost rows = self@;
            let ghost listed = gone.deep_view();
            proof {
                lemma_filter_next(before, p, i as int);
            }
            let stale = self.records[i].status == Status::Online
                && self.records[i].last_heartbeat.is_stale_at(&now);
            if stale {
                let id = self.records[i].id.clone();
                let name = self.records[i].name.clone();
                proof {
                    lemma_update_keeps_sound(
                        rows,
                        i as int,
                        rows[i as int].with_status(Status::Offline),
                    );
                }
                self.records[i].status = Status::Offline;
                gone.push((id, name));
                assert(self@ =~= rows.update(i as int, rows[i as int].with_status(Status::Offline)));
                assert(gone.deep_view() =~= listed.push((before[i as int].id, before[i as int].name)));
                assert(gone.deep_view() =~= ids_and_names(before.take(i + 1).filter(p)));
            }
            i += 1;
        }
        assert(before.take(n as int) =~= before);
        assert(self@ =~= swept(before, now));
        gone
    }

    /// Identifier, address and port of every record that the active probe
    /// has to try: those that are online or busy, in the order of the table.
    pub fn probe_targets(&self) -> (targets: Vec<(String, String, u16)>)
        ensures
            targets.deep_view() == endpoints(self@.filter(probed())),
    {
        let ghost rows = self@;
        let ghost p = probed();
        let mut targets: Vec<(String, String, u16)> = Vec::new();
        let n = self.records.len();
        let mut i: usize = 0;
        assert(rows.take(0).filter(p) =~= Seq::<RecordView>::empty());
        while i < n
            invariant
                i <= n,
                n == rows.len(),
                rows == self@,
                p == probed(),
                targets.deep_view() == endpoints(rows.take(i as int).filter(p)),
            decreases n - i,
        {
            let ghost listed = targets.deep_view();
            proof {
                lemma_filter_next(rows, p, i as int);
            }
            let r = &self.records[i];
            if r.status == Status::Online || r.status == Status::Busy {
                targets.push((r.id.clone(), r.address.clone(), r.port));
                assert(targets.deep_view() =~= listed.push(
                    (rows[i as int].id, rows[i as int].address, rows[i as int].port),
                ));
                assert(targets.deep_view() =~= endpoints(rows.take(i + 1).filter(p)));
            }
            i += 1;
        }
        assert(rows.take(n as int) =~= rows);
        targets
    }
}

impl Default for ServiceTable {
    /// The empty table.
    fn default() -> (t: ServiceTable)
        ensures
            t@ == Seq::<RecordView>::empty(),
            t.wf(),
    {
        ServiceTable::new()
    }
}

} // verus!
