//! A proxy in front of Casper nodes: per-network JSON-RPC, event streams and
//! binary-port bridging, with Prometheus metrics.
//!
//! Every decision of the proxy stands in this library and is proved against
//! its contract; sockets, databases and timers stay with the program that
//! links it.

pub mod binary_proxy;
pub mod calltable;
pub mod catalog;
pub mod config;
pub mod db;
pub mod events;
pub mod families;
pub mod handlers;
pub mod json;
pub mod jsonrpc_proxy;
pub mod metrics;
pub mod models;
pub mod payload;
pub mod rate_limit;
pub mod request;
pub mod response;
pub mod sse;
pub mod state;
pub mod text;
pub mod wire;
