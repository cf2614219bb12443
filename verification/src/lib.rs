//! The data plane of an instant-messaging backbone, verified.
//!
//! Clients connect to message nodes; a message goes to the node that holds
//! the session of its receiver; a sequence-number service numbers the
//! messages of each conversation. This crate holds what those tiers decide
//! and compute, with contracts that Verus proves:
//!
//! - [`wire`], [`msg`]: the envelope and its bytes, with the round trip
//!   between them.
//! - [`key`], [`seqnum`], [`journal`], [`iotask`]: conversation keys, the
//!   counters of a shard, their journal and its recovery.
//! - [`handler`], [`session`]: the handlers of a stream, first-match
//!   dispatch, routing, and what becomes of each result.
//! - [`registry`]: the session map and the cluster map.
//! - [`config`], [`client`], [`pump`], [`queue`], [`deadline`]: the
//!   transport client, its stream pumps, its bounded queues and its reply
//!   deadlines.
//! - [`server`]: the connections and streams of a server, and idle timeout.
//! - [`scheduler`]: who dials whom.
//!
//! Sockets, files, clocks and tasks stay outside: the crate is handed what
//! was read and what time it is, and hands back what to write and what to
//! do. Three outside collections are used as they are, each behind a small
//! file of contracts that are believed and not proved: [`counters`]
//! (`ahash`), [`shared`] (`dashmap`) and [`channel`] (`async-channel`).

pub mod channel;
pub mod client;
pub mod config;
pub mod counters;
pub mod deadline;
pub mod handler;
pub mod iotask;
pub mod journal;
pub mod key;
pub mod msg;
pub mod pump;
pub mod queue;
pub mod registry;
pub mod scheduler;
pub mod seqnum;
pub mod server;
pub mod session;
pub mod shared;
pub mod wire;
