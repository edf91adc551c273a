//! A deterministic discrete-event simulator for distributed algorithms,
//! with a bounded state-space model checker.
//!
//! Nodes exchange messages, set timers, emit local outputs and suffer
//! injected faults (crashes, drops, duplications, partitions).  A run is
//! reproducible from a seed; the checker explores every order in which the
//! pending events can be delivered and reports the first violating trace.

pub mod debugger;
pub mod message;
pub mod net;
pub mod node;
pub mod rng;
pub mod sim;
pub mod system;
pub mod tables;
