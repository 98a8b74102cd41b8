//! A typed actor runtime: a registry of actors addressed by id, a mailbox and
//! dispatch loop per actor, request/response (`ask`) and request/acknowledgement
//! (`tell`) calls with a two-tier outcome, and graceful shutdown.
//!
//! The runtime is sequential: the registry owns every actor's state and runs
//! an actor's dispatch loop when a caller waits for a reply, so each actor's
//! state is changed by one loop only and in mailbox order.

pub mod errors;
pub mod actor;
pub mod mailbox;
pub mod cell;
pub mod system;
pub mod behavior;
pub mod library;
