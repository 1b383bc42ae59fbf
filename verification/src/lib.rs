//! Coordination logic of a two-tier safety-compliance monitoring fleet.
//!
//! Edge processors supervise an inference engine, deduplicate the violations
//! it reports, keep the survivors as durable evidence and ship them to a
//! server. The server tracks which processors are alive, reconciles their
//! configuration, fans evidence out to operator sockets and sends push
//! notifications.
//!
//! This crate holds the decisions of both tiers as functions on plain
//! values. Reading, writing, sending and waiting are left to the caller.
//!
//! Edge: [`evidence`], [`ingest`], [`dedup`], [`shipper`], [`supervisor`],
//! [`device`].
//!
//! Server: [`registry`], [`models`], [`sync`], [`liveness`], [`hub`],
//! [`server`], [`intake`], [`push`], [`queries`], [`views`], [`accounts`],
//! [`admin`], [`settings`].
//!
//! Shared: [`table`], [`text`], [`error`].
use vstd::prelude::*;

pub mod accounts;
pub mod admin;
mod clock;
pub mod dedup;
pub mod device;
pub mod error;
pub mod evidence;
pub mod hub;
pub mod ingest;
pub mod intake;
pub mod liveness;
pub mod models;
pub mod push;
pub mod queries;
pub mod registry;
pub mod server;
pub mod settings;
pub mod shipper;
pub mod supervisor;
pub mod sync;
pub mod table;
pub mod text;
pub mod views;
