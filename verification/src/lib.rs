//! Verified core of the cell runtime: the error model, wire framing, the
//! shared memory ring discipline, what a serving cell does with each
//! message, spawning and sandboxing cells, discovery, resilience policies,
//! sealed transport, and replicated data types.

pub mod text;
pub mod error;
pub mod vesicle;
pub mod error_response;
pub mod crdt;
pub mod circuit_breaker;
pub mod metrics;
pub mod wire;
pub mod resilience;
pub mod recovery;
pub mod pool;
pub mod ring;
pub mod identity;
pub mod membrane;
pub mod mitosis;
pub mod secure;
pub mod conn_pool;
pub mod io_route;
pub mod discovery;
pub mod tissue;
pub mod gpu;
pub mod config;
pub mod coordination;
pub mod protocol;
pub mod transport;
pub mod axon;
