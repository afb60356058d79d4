//! One entry of the service table and what a service says of itself when it
//! registers.

use vstd::prelude::*;
use crate::clock::Timestamp;
use crate::labels::canonical;
use crate::labels::is_mapping;
use crate::status::Status;

verus! {

/// What an instance advertises when it registers. Its labels may come in
/// any order; where a key comes twice, the later pair counts.
#[derive(Clone, Debug, PartialEq, Eq)]
pub struct ServiceDescriptor {
    pub name: String,
    pub version: String,
    pub address: String,
    pub port: u16,
    pub methods: Vec<String>,
    pub metadata: Vec<(String, String)>,
}

/// A descriptor as plain values.
pub struct DescriptorView {
    pub name: Seq<char>,
    pub version: Seq<char>,
    pub address: Seq<char>,
    pub port: u16,
    pub methods: Seq<Seq<char>>,
    pub metadata: Seq<(Seq<char>, Seq<char>)>,
}

impl View for ServiceDescriptor {
    type V = DescriptorView;

    open spec fn view(&self) -> DescriptorView {
        DescriptorView {
            name: self.name@,
            version: self.version@,
            address: self.address@,
            port: self.port,
            methods: self.methods.deep_view(),
            metadata: self.metadata.deep_view(),
        }
    }
}

/// One registered instance.
#[derive(Clone, Debug, PartialEq, Eq)]
pub struct ServiceRecord {
    pub id: String,
    pub name: String,
    pub version: String,
    pub address: String,
    pub port: u16,
    pub methods: Vec<String>,
    pub metadata: Vec<(String, String)>,
    pub registered_at: Timestamp,
    pub last_heartbeat: Timestamp,
    pub status: Status,
}

/// A record as plain values.
pub struct RecordView {
    pub id: Seq<char>,
    pub name: Seq<char>,
    pub version: Seq<char>,
    pub address: Seq<char>,
    pub port: u16,
    pub methods: Seq<Seq<char>>,
    pub metadata: Seq<(Seq<char>, Seq<char>)>,
    pub registered_at: Timestamp,
    pub last_heartbeat: Timestamp,
    pub status: Status,
}

impl RecordView {
    /// The record was registered no later than it was last heard of.
    pub open spec fn well_timed(self) -> bool {
        self.registered_at.not_after(self.last_heartbeat)
    }

    /// The record is as every record is: it was registered no later than it
    /// was last heard of, and its labels are a mapping.
    pub open spec fn intact(self) -> bool {
        self.well_timed() && is_mapping(self.metadata)
    }

    /// The record answers to this name, address and port.
    pub open spec fn located(self, name: Seq<char>, address: Seq<char>, port: u16) -> bool {
        self.name == name && self.address == address && self.port == port
    }

    /// The record with another status and nothing else changed.
    pub open spec fn with_status(self, status: Status) -> RecordView {
        RecordView { status, ..self }
    }

    /// The record after a heartbeat at `now`: online, and heard of at `now`
    /// unless it was already heard of later than that.
    pub open spec fn touched(self, now: Timestamp) -> RecordView {
        RecordView {
            last_heartbeat: self.last_heartbeat.later_of(now),
            status: Status::Online,
            ..self
        }
    }

    /// The record after its instance registered again with `d` at `now`: the
    /// advertised fields are overwritten, the labels in canonical form,
    /// identity and first registration stay, and the record counts as heard
    /// of and online.
    pub open spec fn refreshed(self, d: DescriptorView, now: Timestamp) -> RecordView {
        RecordView {
            id: self.id,
            name: d.name,
            version: d.version,
            address: d.address,
            port: d.port,
            methods: d.methods,
            metadata: canonical(d.metadata),
            registered_at: self.registered_at,
            last_heartbeat: self.last_heartbeat.later_of(now),
            status: Status::Online,
        }
    }

    /// The record of an instance that registers for the first time, its
    /// labels in canonical form.
    pub open spec fn created(d: DescriptorView, id: Seq<char>, now: Timestamp) -> RecordView {
        RecordView {
            id,
            name: d.name,
            version: d.version,
            address: d.address,
            port: d.port,
            methods: d.methods,
            metadata: canonical(d.metadata),
            registered_at: now,
            last_heartbeat: now,
            status: Status::Online,
        }
    }
}

impl View for ServiceRecord {
    type V = RecordView;

    open spec fn view(&self) -> RecordView {
        RecordView {
            id: self.id@,
            name: self.name@,
            version: self.version@,
            address: self.address@,
            port: self.port,
            methods: self.methods.deep_view(),
            metadata: self.metadata.deep_view(),
            registered_at: self.registered_at,
            last_heartbeat: self.last_heartbeat,
            status: self.status,
        }
    }
}

/// The records of a list as plain values.
pub open spec fn views(v: Seq<ServiceRecord>) -> Seq<RecordView> {
    Seq::new(v.len(), |i: int| v[i]@)
}

/// A copy of a list of texts.
pub fn copy_texts(v: &Vec<String>) -> (r: Vec<String>)
    ensures
        r.deep_view() == v.deep_view(),
{
    let mut r: Vec<String> = Vec::new();
    let mut i: usize = 0;
    while i < v.len()
        invariant
            i <= v.len(),
            r.len() == i,
            forall|j: int| 0 <= j < i ==> r@[j]@ == v@[j]@,
        decreases v.len() - i,
    {
        r.push(v[i].clone());
        i += 1;
    }
    assert(r.deep_view() =~= v.deep_view());
    r
}

/// A copy of a list of labels.
pub fn copy_labels(v: &Vec<(String, String)>) -> (r: Vec<(String, String)>)
    ensures
        r.deep_view() == v.deep_view(),
{
    let mut r: Vec<(String, String)> = Vec::new();
    let mut i: usize = 0;
    while i < v.len()
        invariant
            i <= v.len(),
            r.len() == i,
            forall|j: int| 0 <= j < i ==> r@[j].deep_view() == v@[j].deep_view(),
        decreases v.len() - i,
    {
        let k = v[i].0.clone();
        let w = v[i].1.clone();
        r.push((k, w));
        i += 1;
    }
    assert(r.deep_view() =~= v.deep_view());
    r
}

impl ServiceRecord {
    /// A copy that shares nothing with `self`.
    pub fn copy(&self) -> (r: ServiceRecord)
        ensures
            r@ == self@,
    {
        ServiceRecord {
            id: self.id.clone(),
            name: self.name.clone(),
            version: self.version.clone(),
            address: self.address.clone(),
            port: self.port,
            methods: copy_texts(&self.methods),
            metadata: copy_labels(&self.metadata),
            registered_at: self.registered_at,
            last_heartbeat: self.last_heartbeat,
            status: self.status,
        }
    }
}

} // verus!
