//! A small static-file HTTP server core built around a fixed-size worker pool.
//!
//! The pool, its job queue and the per-connection decisions are written as
//! sequential state machines: the surrounding program owns the threads, the
//! sockets and the files, performs what the machines ask for and reports back
//! what happened.

pub mod queue;
pub mod worker;
pub mod model;
pub mod pool;
pub mod request;
pub mod response;
pub mod connection;
pub mod server;
pub mod text;

pub use pool::ThreadPool;
pub use request::parse_request;
pub use server::WebServer;
