//! A repository content crawler: resolves a repository reference (hosted-API
//! URL, clone reference, or local directory) into a filtered, size-bounded
//! snapshot of file contents together with crawl statistics.
//!
//! The crawl logic is verified. Network and filesystem transports live
//! outside this crate and drive the state machines defined here.

pub mod config;
pub mod fetch;
pub mod localfs;
pub mod patterns;
pub mod pipeline;
pub mod remote;
pub mod resolve;
pub mod result;
pub mod strutil;
