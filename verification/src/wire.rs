//! A record as clients see it: every field as text.

use vstd::prelude::*;
use crate::clock::Timestamp;
use crate::clock::rfc3339;
use crate::clock::rfc3339_text;
use crate::record::RecordView;
use crate::record::ServiceRecord;
use crate::record::copy_labels;
use crate::record::copy_texts;
use crate::text::decimal;
use crate::text::decimal_text;

verus! {

/// One record of a listing, as it goes over the wire.
#[derive(Clone, Debug, PartialEq, Eq)]
pub struct ServiceInfo {
    pub service_id: String,
    pub service_name: String,
    pub service_version: String,
    pub service_address: String,
    pub service_port: String,
    pub methods: Vec<String>,
    pub metadata: Vec<(String, String)>,
    pub registered_at: String,
    pub last_heartbeat: String,
    pub status: String,
}

/// A wire record as plain values.
pub struct ServiceInfoView {
    pub service_id: Seq<char>,
    pub service_name: Seq<char>,
    pub service_version: Seq<char>,
    pub service_address: Seq<char>,
    pub service_port: Seq<char>,
    pub methods: Seq<Seq<char>>,
    pub metadata: Seq<(Seq<char>, Seq<char>)>,
    pub registered_at: Seq<char>,
    pub last_heartbeat: Seq<char>,
    pub status: Seq<char>,
}

impl View for ServiceInfo {
    type V = ServiceInfoView;

    open spec fn view(&self) -> ServiceInfoView {
        ServiceInfoView {
            service_id: self.service_id@,
            service_name: self.service_name@,
            service_version: self.service_version@,
            service_address: self.service_address@,
            service_port: self.service_port@,
            methods: self.methods.deep_view(),
            metadata: self.metadata.deep_view(),
            registered_at: self.registered_at@,
            last_heartbeat: self.last_heartbeat@,
            status: self.status@,
        }
    }
}

/// The wire records of a list as plain values.
pub open spec fn info_views(v: Seq<ServiceInfo>) -> Seq<ServiceInfoView> {
    Seq::new(v.len(), |i: int| v[i]@)
}

/// A time as it is written on the wire: RFC 3339, and empty for a time
/// beyond the calendar.
pub open spec fn time_text(t: Timestamp) -> Seq<char> {
    match rfc3339_text(t.secs, t.nanos) {
        Some(s) => s,
        None => Seq::empty(),
    }
}

/// The wire form of a row: port in decimal, times in RFC 3339, the status
/// by its word.
pub open spec fn wire_of(r: RecordView) -> ServiceInfoView {
    ServiceInfoView {
        service_id: r.id,
        service_name: r.name,
        service_version: r.version,
        service_address: r.address,
        service_port: decimal(r.port as nat),
        methods: r.methods,
        metadata: r.metadata,
        registered_at: time_text(r.registered_at),
        last_heartbeat: time_text(r.last_heartbeat),
        status: r.status.label(),
    }
}

/// The wire forms of the rows, in order.
pub open spec fn wires_of(rows: Seq<RecordView>) -> Seq<ServiceInfoView> {
    Seq::new(rows.len(), |i: int| wire_of(rows[i]))
}

/// Writes a time for the wire, see [`time_text`].
pub fn write_time(t: Timestamp) -> (s: String)
    ensures
        s@ == time_text(t),
{
    match rfc3339(t) {
        Some(s) => s,
        None => String::new(),
    }
}

impl ServiceInfo {
    /// The wire form of `record`.
    pub fn from(record: &ServiceRecord) -> (info: ServiceInfo)
        ensures
            info@ == wire_of(record@),
    {
        ServiceInfo {
            service_id: record.id.clone(),
            service_name: record.name.clone(),
            service_version: record.version.clone(),
            service_address: record.address.clone(),
            service_port: decimal_text(record.port as u64),
            methods: copy_texts(&record.methods),
            metadata: copy_labels(&record.metadata),
            registered_at: write_time(record.registered_at),
            last_heartbeat: write_time(record.last_heartbeat),
            status: String::from_str(record.status.as_str()),
        }
    }
}

/// The wire forms of `records`, in order.
pub fn to_wire(records: &Vec<ServiceRecord>) -> (out: Vec<ServiceInfo>)
    ensures
        info_views(out@) == wires_of(crate::record::views(records@)),
{
    let mut out: Vec<ServiceInfo> = Vec::new();
    let mut i: usize = 0;
    while i < records.len()
        invariant
            i <= records.len(),
            out.len() == i,
            forall|j: int| 0 <= j < i ==> (#[trigger] out@[j])@ == wire_of(records@[j]@),
        decreases records.len() - i,
    {
        out.push(ServiceInfo::from(&records[i]));
        i += 1;
    }
    assert(info_views(out@) =~= wires_of(crate::record::views(records@)));
    out
}

} // verus!
