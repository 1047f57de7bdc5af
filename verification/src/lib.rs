//! A small, verified model of a web-request pipeline: routing with typed
//! path captures, header-based guards, an ordered middleware chain, an
//! error-response mapping table, and input validation.
//!
//! The library is pure: a request goes in as plain data and a response
//! comes out as plain data. A server binary can wrap it around any
//! transport; the dispatch logic itself is verified.

pub mod http;
pub mod num;
pub mod guard;
pub mod path;
pub mod handler;
pub mod router;
pub mod middleware;
pub mod errors;
pub mod validate;
pub mod pipeline;
pub mod outcome;
pub mod config;
