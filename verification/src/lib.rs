//! Switchboard: the decision logic of an HTTP proxy for LLM APIs that logs
//! the traffic it forwards.
//!
//! The crate holds, with their contracts:
//! - `config`: loading and validating the configuration from a snapshot of
//!   environment variables;
//! - `log_cleanup`: which log files the cleanup removes and how results add up;
//! - `logger`: log directory selection, environment classification, log
//!   path validation and the log filters;
//! - `log_filter`: which filter texts the filter parser takes, and parsed
//!   filters that keep their text;
//! - `proxy`: the request/response header rules and the step function that
//!   drives one proxied request;
//! - `text` and `paths`: the string and path primitives the rest is built on.
pub mod config;
pub mod log_cleanup;
pub mod log_filter;
pub mod logger;
pub mod paths;
pub mod proxy;
pub mod text;
