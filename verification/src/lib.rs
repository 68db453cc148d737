//! Turbine: the request-handling logic of a PHP application server.
//!
//! Every module here is verified: path guarding, request parsing and
//! PHP superglobal generation, response envelopes, compression
//! negotiation, configuration checking and the in-memory primitives.
pub mod acme;
pub mod admin;
pub mod async_io;
pub mod bootstrap;
pub mod cli;
pub mod clock;
pub mod coalescer;
pub mod compat;
pub mod compression;
pub mod config;
pub mod config_check;
pub mod dashboard;
pub mod embed;
pub mod engine;
pub mod features;
pub mod http_helpers;
pub mod io_uring_backend;
pub mod lifecycle;
pub mod multipart;
pub mod path_guard;
pub mod prometheus;
pub mod output;
pub mod paths;
pub mod response;
pub mod server;
pub mod shared_table;
pub mod store;
pub mod task_queue;
pub mod text;
pub mod websocket;
pub mod worker_dispatch;

use vstd::prelude::*;

verus! {

} // verus!
