//! Decision core of a least-connections TCP load balancer.
//!
//! The library holds the backend pool and its per-backend connection
//! counters, the least-loaded selection over probe results, the
//! counter ledger, and the per-connection relay state machine. Sockets,
//! probing and byte copying are driven by the caller, which feeds the
//! outcomes back in as plain values.

pub mod pool;
pub mod select;
pub mod ledger;
pub mod relay;

pub use ledger::CounterEvent;
pub use relay::{Direction, RelayAction, RelayError, RelayEvent, RelayOutcome, RelayState, Side};
pub use select::select_least_loaded;

pub use pool::{BackendPool, PoolError};

