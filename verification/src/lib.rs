//! Core of a multi-protocol reverse proxy: path matching, routing, rate-limit
//! planning, request policy and failover, stated over plain values.

pub mod acme_client;
pub mod config;
pub mod error;
pub mod limiter;
pub mod message;
pub mod middleware;
pub mod models;
pub mod path_matcher;
pub mod pipeline;
pub mod proxy;
pub mod ratelimit;
pub mod routing;
pub mod score;
pub mod search;
pub mod server;
pub mod setup;
pub mod text;
pub mod tls;
