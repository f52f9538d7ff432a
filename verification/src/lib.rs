//! Session and execution engine of a streaming SQL service: the namespace
//! registry, session configuration, one-shot result tickets, the Flight SQL
//! adapter's decisions, the control-plane service, topic publishing, and the
//! strided tensor views used by the numeric kernels.
//!
//! The library decides and keeps the books; transport, planning, execution
//! and storage belong to its caller. Each operation is one step on a value
//! that the caller holds exclusively. A server that shares that value
//! between its tasks keeps it behind a lock, so that the steps of all tasks
//! form one sequence: what is proved here of every sequence of steps, such
//! as that a ticket is redeemed at most once, then holds of every
//! interleaving of the tasks.

pub mod client;
pub mod cluster;
pub mod config;
pub mod context;
pub mod engine;
pub mod error;
pub mod flight;
pub mod keyed;
pub mod prepare;
pub mod publisher;
pub mod registry;
pub mod service;
pub mod sql;
pub mod state;
pub mod tensor;
pub mod ticket;
pub mod wire;
