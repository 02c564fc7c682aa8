//! Decision logic of a transient-fleet orchestrator: what to ask of the cloud
//! control plane, how to read its answers, and what the run's result is.
//! Every function here is pure with respect to the network; a driver performs
//! the calls and feeds the answers back in.

pub mod text;
pub mod provision;
pub mod plan;
pub mod request;
pub mod readiness;
pub mod session;
pub mod cleanup;
pub mod setup;
pub mod orchestrator;
