//! Retrieval of build artifacts from a remote CI platform, without the I/O.
//!
//! The library resolves credentials, describes the requests to send, picks
//! and extracts the wanted entry of a downloaded archive, and classifies each
//! retrieval by comparing content digests. Sending requests and touching the
//! filesystem is left to the caller, which is told what to do next.

pub mod archive;
pub mod commands;
pub mod config;
pub mod digest;
pub mod error;
pub mod fetch;
pub mod gitlab;
pub mod logins;
pub mod output;
pub mod text;
