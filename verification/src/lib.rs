//! Registry engine of a hub for RPC microservices: the service table, its
//! liveness state machine, the router's decisions and the operator surface,
//! with every rule stated as a contract and proved.

pub mod bus;
pub mod clock;
pub mod connector;
pub mod event;
pub mod example;
pub mod http;
pub mod hub;
pub mod ident;
pub mod json;
pub mod labels;
pub mod laws;
pub mod listing;
pub mod methods;
pub mod record;
pub mod router;
pub mod rpc;
pub mod status;
pub mod table;
pub mod text;
pub mod wire;
