//! Service-definition propagation and metric threshold evaluation over a
//! publish/subscribe bus, with the decisions proved correct.
pub mod comparison;
pub mod metrics;
pub mod definition;
pub mod propagator;
pub mod config;
