//! The client side of discovery: where the hub is, which instance of a
//! service to talk to, and for how long that answer may be reused.

use vstd::prelude::*;
use crate::status::Status;
use crate::text::chars_of;
use crate::text::decimal;
use crate::text::parse_port;
use crate::text::port_of;
use crate::text::push_decimal;
use crate::text::begins_with;
use crate::text::same_text;
use crate::text::starts_with;
use crate::text::text_of;
use crate::wire::ServiceInfo;
use crate::wire::ServiceInfoView;
use crate::wire::info_views;

verus! {

/// The hub's RPC port where none is given.
pub const DEFAULT_HUB_PORT: u16 = 50099;

/// Seconds for which a discovered address is reused where nothing else is asked for.
pub const DEFAULT_CACHE_SECONDS: u64 = 30;

/// A connector to the hub, with a cache of one discovered address.
#[derive(Clone, Debug)]
pub struct GrpcHubConnector {
    hub_host: String,
    hub_port: u16,
    service_cache: Option<(String, u16)>,
    cache_timestamp: u64,
    cache_duration_seconds: u64,
}

/// A connector as plain values.
pub struct ConnectorView {
    pub hub_host: Seq<char>,
    pub hub_port: u16,
    pub cached: Option<(Seq<char>, u16)>,
    pub cached_at: u64,
    pub cache_seconds: u64,
}

/// Why a discovery gave no address.
#[derive(Clone, Debug, PartialEq, Eq)]
pub enum DiscoverError {
    /// The hub lists no instance of the service.
    NotFound,
    /// The first instance listed advertises this text as its port, which is none.
    InvalidPort(String),
}

/// A request for the hub's listing.
#[derive(Clone, Debug, PartialEq, Eq)]
pub struct ListServicesRequest {
    /// Text that name or version of the listed records must hold, if any.
    pub filter: Option<String>,
}

/// A status that an instance reports to the hub about itself.
#[derive(Clone, Debug, PartialEq, Eq)]
pub struct StatusUpdate {
    pub service_id: String,
    pub status: Status,
}

/// Position `k` holds the first colon of `s`.
pub open spec fn first_colon(s: Seq<char>, k: int) -> bool {
    &&& 0 <= k < s.len()
    &&& s[k] == ':'
    &&& forall|j: int| 0 <= j < k ==> s[j] != ':'
}

/// `s` holds no colon.
pub open spec fn no_colon(s: Seq<char>) -> bool {
    forall|j: int| 0 <= j < s.len() ==> s[j] != ':'
}

/// Host and port that an endpoint names. After `http://` the host runs up to
/// the first colon and the port follows it; a port that cannot be read, or
/// none, stands for the default. An endpoint without `http://` is a host.
pub open spec fn endpoint_parts(e: Seq<char>, host: Seq<char>, port: u16) -> bool {
    if begins_with(e, "http://"@) {
        let rest = e.skip("http://"@.len() as int);
        if no_colon(rest) {
            host == rest && port == DEFAULT_HUB_PORT
        } else {
            exists|k: int|
                first_colon(rest, k) && host == rest.take(k) && port == (match port_of(
                    rest.skip(k + 1),
                ) {
                    Some(p) => p,
                    None => DEFAULT_HUB_PORT,
                })
        }
    } else {
        host == e && port == DEFAULT_HUB_PORT
    }
}

/// The endpoint of a hub at `host` and `port`.
pub open spec fn endpoint_text(host: Seq<char>, port: u16) -> Seq<char> {
    "http://"@ + host + seq![':'] + decimal(port as nat)
}

/// Row `i` is the first listed instance of the service `name`.
pub open spec fn first_named(list: Seq<ServiceInfoView>, name: Seq<char>, i: int) -> bool {
    &&& 0 <= i < list.len()
    &&& list[i].service_name == name
    &&& forall|j: int| 0 <= j < i ==> (#[trigger] list[j]).service_name != name
}

/// No instance of the service `name` is listed.
pub open spec fn none_named(list: Seq<ServiceInfoView>, name: Seq<char>) -> bool {
    forall|j: int| 0 <= j < list.len() ==> (#[trigger] list[j]).service_name != name
}

/// What is said where the hub lists no instance of the service `name`.
pub open spec fn not_found_text(name: Seq<char>) -> Seq<char> {
    "Service '"@ + name + "' not found in hub"@
}

/// What is said where the instance of the service `name` advertises `port`,
/// which is no port.
pub open spec fn invalid_port_text(port: Seq<char>, name: Seq<char>) -> Seq<char> {
    "Invalid port '"@ + port + "' for service '"@ + name + "'"@
}

impl DiscoverError {
    /// The error in words, `service_name` being the service that was looked for.
    pub fn describe(&self, service_name: &str) -> (s: String)
        ensures
            s@ == (match self {
                DiscoverError::NotFound => not_found_text(service_name@),
                DiscoverError::InvalidPort(port) => invalid_port_text(port@, service_name@),
            }),
    {
        match self {
            DiscoverError::NotFound => {
                let mut s = String::from_str("Service '");
                s.append(service_name);
                s.append("' not found in hub");
                s
            },
            DiscoverError::InvalidPort(port) => {
                let mut s = String::from_str("Invalid port '");
                s.append(port.as_str());
                s.append("' for service '");
                s.append(service_name);
                s.append("'");
                s
            },
        }
    }
}

impl View for GrpcHubConnector {
    type V = ConnectorView;

    closed spec fn view(&self) -> ConnectorView {
        ConnectorView {
            hub_host: self.hub_host@,
            hub_port: self.hub_port,
            cached: match self.service_cache {
                Some(c) => Some((c.0@, c.1)),
                None => None,
            },
            cached_at: self.cache_timestamp,
            cache_seconds: self.cache_duration_seconds,
        }
    }
}

impl ConnectorView {
    /// A connector to the hub at `host` and `port` that has discovered nothing yet.
    pub open spec fn fresh(host: Seq<char>, port: u16) -> ConnectorView {
        ConnectorView {
            hub_host: host,
            hub_port: port,
            cached: None,
            cached_at: 0,
            cache_seconds: DEFAULT_CACHE_SECONDS,
        }
    }

    /// The cached address may still be used at `now`: less than the cache
    /// duration has passed since it was stored.
    pub open spec fn is_fresh_at(self, now: u64) -> bool {
        self.cached_at <= now && now - self.cached_at < self.cache_seconds
    }

    /// What the cache answers at `now`.
    pub open spec fn answer_at(self, now: u64) -> Option<(Seq<char>, u16)> {
        if self.is_fresh_at(now) {
            self.cached
        } else {
            None
        }
    }
}

fn find_first_named(services: &Vec<ServiceInfo>, name: &str) -> (r: Option<usize>)
    ensures
        match r {
            Some(i) => first_named(info_views(services@), name@, i as int),
            None => none_named(info_views(services@), name@),
        },
{
    let mut i: usize = 0;
    while i < services.len()
        invariant
            i <= services.len(),
            forall|j: int| 0 <= j < i ==> (#[trigger] info_views(services@)[j]).service_name != name@,
        decreases services.len() - i,
    {
        if same_text(services[i].service_name.as_str(), name) {
            return Some(i);
        }
        i += 1;
    }
    None
}

impl GrpcHubConnector {
    /// A connector to the hub at the default place, `127.0.0.1:50099`.
    pub fn new() -> (c: GrpcHubConnector)
        ensures
            c@ == ConnectorView::fresh("127.0.0.1"@, DEFAULT_HUB_PORT),
    {
        GrpcHubConnector::with_hub_connection(String::from_str("127.0.0.1"), DEFAULT_HUB_PORT)
    }

    /// A connector to the hub at `hub_host` and `hub_port`.
    pub fn with_hub_connection(hub_host: String, hub_port: u16) -> (c: GrpcHubConnector)
        ensures
            c@ == ConnectorView::fresh(hub_host@, hub_port),
    {
        GrpcHubConnector {
            hub_host,
            hub_port,
            service_cache: None,
            cache_timestamp: 0,
            cache_duration_seconds: DEFAULT_CACHE_SECONDS,
        }
    }

    /// A connector to the hub that `hub_endpoint` names.
    pub fn with_hub_endpoint(hub_endpoint: String) -> (c: GrpcHubConnector)
        ensures
            endpoint_parts(hub_endpoint@, c@.hub_host, c@.hub_port),
            c@ == ConnectorView::fresh(c@.hub_host, c@.hub_port),
    {
        let v = chars_of(hub_endpoint.as_str());
        let scheme = chars_of("http://");
        let n = scheme.len();
        let with_scheme = starts_with(&v, &scheme);
        if !with_scheme {
            return GrpcHubConnector::with_hub_connection(hub_endpoint, DEFAULT_HUB_PORT);
        }
        let ghost rest = v@.skip(n as int);
        let mut k: usize = n;
        while k < v.len() && v[k] != ':'
            invariant
                n <= k <= v.len(),
                rest == v@.skip(n as int),
                forall|j: int| 0 <= j < k - n ==> rest[j] != ':',
            decreases v.len() - k,
        {
            k += 1;
        }
        let mut host: Vec<char> = Vec::new();
        let mut j: usize = n;
        while j < k
            invariant
                n <= j <= k <= v.len(),
                rest == v@.skip(n as int),
                host@ == rest.take(j - n),
            decreases k - j,
        {
            host.push(v[j]);
            assert(host@ =~= rest.take(j + 1 - n));
            j += 1;
        }
        if k == v.len() {
            assert(rest.take(k - n) =~= rest);
            return GrpcHubConnector::with_hub_connection(text_of(&host), DEFAULT_HUB_PORT);
        }
        let mut tail: Vec<char> = Vec::new();
        let mut m: usize = k + 1;
        while m < v.len()
            invariant
                k + 1 <= m <= v.len(),
                n <= k,
                rest == v@.skip(n as int),
                tail@ == rest.skip(k + 1 - n).take(m - k - 1),
            decreases v.len() - m,
        {
            tail.push(v[m]);
            assert(tail@ =~= rest.skip(k + 1 - n).take(m + 1 - k - 1));
            m += 1;
        }
        assert(tail@ =~= rest.skip(k + 1 - n));
        let port = match parse_port(text_of(&tail).as_str()) {
            Some(p) => p,
            None => DEFAULT_HUB_PORT,
        };
        assert(first_colon(rest, k - n));
        GrpcHubConnector::with_hub_connection(text_of(&host), port)
    }

    /// The same connector, reusing a discovered address for `duration_seconds`.
    pub fn with_cache_duration(self, duration_seconds: u64) -> (c: GrpcHubConnector)
        ensures
            c@ == (ConnectorView { cache_seconds: duration_seconds, ..self@ }),
    {
        let mut c = self;
        c.cache_duration_seconds = duration_seconds;
        c
    }

    /// The endpoint of the hub.
    pub fn get_hub_endpoint(&self) -> (s: String)
        ensures
            s@ == endpoint_text(self@.hub_host, self@.hub_port),
    {
        let mut s = String::from_str("http://");
        s.append(self.hub_host.as_str());
        s.push(':');
        push_decimal(&mut s, self.hub_port as u64);
        s
    }

    pub fn get_hub_host(&self) -> (s: String)
        ensures
            s@ == self@.hub_host,
    {
        self.hub_host.clone()
    }

    pub fn get_hub_port(&self) -> (p: u16)
        ensures
            p == self@.hub_port,
    {
        self.hub_port
    }

    /// Seconds for which a discovered address is reused.
    pub fn get_cache_duration(&self) -> (d: u64)
        ensures
            d == self@.cache_seconds,
    {
        self.cache_duration_seconds
    }

    /// The address to use at the time `now`, in seconds, as far as the cache
    /// knows it; nothing where the service has to be discovered.
    pub fn get_service_address(&self, now: u64) -> (r: Option<(String, u16)>)
        ensures
            match r {
                Some(a) => self@.answer_at(now) == Some((a.0@, a.1)),
                None => self@.answer_at(now).is_none(),
            },
    {
        if self.cache_timestamp <= now && now - self.cache_timestamp < self.cache_duration_seconds {
            match &self.service_cache {
                Some(c) => Some((c.0.clone(), c.1)),
                None => None,
            }
        } else {
            None
        }
    }

    /// Picks the instance of `service_name` out of `services`, the listing
    /// that the hub gave at `now`: the first one listed. Its address is
    /// cached from `now` on. Where none is listed, or the first one's port
    /// cannot be read, the cache stays as it is.
    pub fn discover_service(
        &mut self,
        service_name: &str,
        services: &Vec<ServiceInfo>,
        now: u64,
    ) -> (r: Result<(String, u16), DiscoverError>)
        ensures
            match r {
                Ok(a) => exists|i: int|
                    {
                        &&& first_named(info_views(services@), service_name@, i)
                        &&& a.0@ == (#[trigger] info_views(services@)[i]).service_address
                        &&& port_of(info_views(services@)[i].service_port) == Some(a.1)
                        &&& final(self)@ == (ConnectorView {
                            cached: Some((a.0@, a.1)),
                            cached_at: now,
                            ..old(self)@
                        })
                    },
                Err(DiscoverError::NotFound) => {
                    &&& none_named(info_views(services@), service_name@)
                    &&& final(self)@ == old(self)@
                },
                Err(DiscoverError::InvalidPort(text)) => exists|i: int|
                    {
                        &&& first_named(info_views(services@), service_name@, i)
                        &&& text@ == (#[trigger] info_views(services@)[i]).service_port
                        &&& port_of(text@).is_none()
                        &&& final(self)@ == old(self)@
                    },
            },
    {
        match find_first_named(services, service_name) {
            None => Err(DiscoverError::NotFound),
            Some(i) => {
                let target = &services[i];
                assert(target@ == info_views(services@)[i as int]);
                match parse_port(target.service_port.as_str()) {
                    None => Err(DiscoverError::InvalidPort(target.service_port.clone())),
                    Some(port) => {
                        let address = target.service_address.clone();
                        self.service_cache = Some((address.clone(), port));
                        self.cache_timestamp = now;
                        Ok((address, port))
                    },
                }
            },
        }
    }

    /// The request that asks the hub for every record it has: one without a
    /// filter.
    pub fn list_all_services(&self) -> (request: ListServicesRequest)
        ensures
            request.filter.is_none(),
    {
        ListServicesRequest { filter: None }
    }

    /// Whether the first instance of `service_name` in `services`, a listing
    /// of the hub, is online; false where none is listed.
    pub fn is_service_online(&self, service_name: &str, services: &Vec<ServiceInfo>) -> (r: bool)
        ensures
            r == exists|i: int|
                first_named(info_views(services@), service_name@, i) && (
                #[trigger] info_views(services@)[i]).status == Status::Online.label(),
    {
        match find_first_named(services, service_name) {
            None => false,
            Some(i) => {
                assert(services@[i as int]@ == info_views(services@)[i as int]);
                let online = same_text(services[i].status.as_str(), Status::Online.as_str());
                proof {
                    if !online {
                        assert forall|k: int|
                            first_named(info_views(services@), service_name@, k) implies !((
                        #[trigger] info_views(services@)[k]).status == Status::Online.label()) by {
                            assert(k == i);
                        }
                    }
                }
                online
            },
        }
    }

    /// Forgets the cached address.
    pub fn clear_cache(&mut self)
        ensures
            final(self)@ == (ConnectorView { cached: None, cached_at: 0, ..old(self)@ }),
    {
        self.service_cache = None;
        self.cache_timestamp = 0;
    }

    /// Whether an address is cached, and since when.
    pub fn get_cache_info(&self) -> (r: (bool, u64))
        ensures
            r.0 == self@.cached.is_some(),
            r.1 == self@.cached_at,
    {
        (self.service_cache.is_some(), self.cache_timestamp)
    }

    /// The report that tells the hub that the instance `service_id` is busy.
    pub fn set_service_busy(&self, service_id: &str) -> (u: StatusUpdate)
        ensures
            u.service_id@ == service_id@,
            u.status == Status::Busy,
    {
        StatusUpdate { service_id: String::from_str(service_id), status: Status::Busy }
    }

    /// The report that tells the hub that the instance `service_id` is online again.
    pub fn set_service_online(&self, service_id: &str) -> (u: StatusUpdate)
        ensures
            u.service_id@ == service_id@,
            u.status == Status::Online,
    {
        StatusUpdate { service_id: String::from_str(service_id), status: Status::Online }
    }
}

impl Default for GrpcHubConnector {
    /// A connector to the hub at the default place.
    fn default() -> (c: GrpcHubConnector)
        ensures
            c@ == ConnectorView::fresh("127.0.0.1"@, DEFAULT_HUB_PORT),
    {
        GrpcHubConnector::new()
    }
}

} // verus!
