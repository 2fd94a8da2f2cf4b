//! The core of a small process supervisor: daemon definitions read from
//! configuration documents, one lifecycle state machine per daemon, an event
//! queue that gathers what the daemons report, and a control interface that
//! answers requests about a named daemon.

pub mod action;
pub mod backoff;
pub mod bus;
pub mod compare;
pub mod daemons;
pub mod document;
pub mod errors;
pub mod lifecycle;
pub mod order;
pub mod socket;
pub mod store;
pub mod supervisor;
pub mod text;
