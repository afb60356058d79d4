//! Services that reach their peers through a connector.

use vstd::prelude::*;
use crate::connector::ConnectorView;
use crate::connector::DEFAULT_HUB_PORT;
use crate::connector::GrpcHubConnector;
use crate::connector::endpoint_parts;
use crate::wire::ServiceInfo;
use crate::wire::ServiceInfoView;
use crate::wire::info_views;

verus! {

/// A service that looks its peers up at the hub.
#[derive(Clone, Debug)]
pub struct ExampleService {
    pub hub_connector: GrpcHubConnector,
}

impl ExampleService {
    /// A service that talks to the hub at the default place.
    pub fn new() -> (s: ExampleService)
        ensures
            s.hub_connector@ == ConnectorView::fresh("127.0.0.1"@, DEFAULT_HUB_PORT),
    {
        ExampleService { hub_connector: GrpcHubConnector::new() }
    }

    /// A service that talks to the hub at `hub_endpoint`.
    pub fn new_with_custom_hub(hub_endpoint: String) -> (s: ExampleService)
        ensures
            endpoint_parts(hub_endpoint@, s.hub_connector@.hub_host, s.hub_connector@.hub_port),
            s.hub_connector@ == ConnectorView::fresh(
                s.hub_connector@.hub_host,
                s.hub_connector@.hub_port,
            ),
    {
        ExampleService { hub_connector: GrpcHubConnector::with_hub_endpoint(hub_endpoint) }
    }

    /// A service that talks to the hub at `hub_endpoint` and reuses what it
    /// discovered for `cache_duration_seconds`.
    pub fn new_with_custom_cache(hub_endpoint: String, cache_duration_seconds: u64) -> (s:
        ExampleService)
        ensures
            endpoint_parts(hub_endpoint@, s.hub_connector@.hub_host, s.hub_connector@.hub_port),
            s.hub_connector@ == (ConnectorView {
                cache_seconds: cache_duration_seconds,
                ..ConnectorView::fresh(s.hub_connector@.hub_host, s.hub_connector@.hub_port)
            }),
    {
        ExampleService {
            hub_connector: GrpcHubConnector::with_hub_endpoint(hub_endpoint).with_cache_duration(
                cache_duration_seconds,
            ),
        }
    }
}

/// The names of the services of a listing, in order.
pub open spec fn names_of(list: Seq<ServiceInfoView>) -> Seq<Seq<char>> {
    Seq::new(list.len(), |i: int| list[i].service_name)
}

impl ExampleService {
    /// The names of the services that the hub listed, in the order of the listing.
    pub fn list_available_services(&self, services: &Vec<ServiceInfo>) -> (names: Vec<String>)
        ensures
            names.deep_view() == names_of(info_views(services@)),
    {
        let mut names: Vec<String> = Vec::new();
        let mut i: usize = 0;
        while i < services.len()
            invariant
                i <= services.len(),
                names.len() == i,
                forall|j: int| 0 <= j < i ==> (#[trigger] names@[j])@ == services@[j]@.service_name,
            decreases services.len() - i,
        {
            names.push(services[i].service_name.clone());
            i += 1;
        }
        assert(names.deep_view() =~= names_of(info_views(services@)));
        names
    }
}

/// An RPC service that looks its target up at the hub.
#[derive(Clone, Debug)]
pub struct MyGrpcService {
    pub hub_connector: GrpcHubConnector,
}

impl MyGrpcService {
    /// A service that talks to the hub at the default place.
    pub fn new() -> (s: MyGrpcService)
        ensures
            s.hub_connector@ == ConnectorView::fresh("127.0.0.1"@, DEFAULT_HUB_PORT),
    {
        MyGrpcService { hub_connector: GrpcHubConnector::new() }
    }

    /// The answer of the service's method, given what the lookup of its
    /// target gave: the address, or the reason why there is none.
    pub fn my_grpc_method(&self, target: Result<(String, u16), String>) -> (r: Result<String, String>)
        ensures
            match target {
                Ok(_) => r matches Ok(answer) && answer@ == "Success"@,
                Err(why) => r matches Err(message) && message@ == "Target service unavailable: "@
                    + why@,
            },
    {
        match target {
            Ok(_) => Ok(String::from_str("Success")),
            Err(why) => {
                let mut message = String::from_str("Target service unavailable: ");
                message.append(why.as_str());
                Err(message)
            },
        }
    }
}

} // verus!
