//! A small HTTP gateway core: it routes a request to a static file or to a
//! script run as a child process, and maps what happened to a response.
//!
//! The library holds the decisions only. Reading files, probing the file
//! system and running processes belong to the caller, which performs the
//! [`dispatch::Action`]s that the dispatcher hands out and reports back with
//! [`dispatch::Event`]s.
//!
//! - [`wire`] reads a request from the bytes that a client has sent;
//! - [`path`] resolves its path against the root and keeps it inside;
//! - [`content_type`] names the content type of a static file;
//! - [`env`] builds the environment of a script, and [`process`] the rest of
//!   what it is run with, and maps its outcome to a response;
//! - [`response`] holds the responses and the bytes they are sent as;
//! - [`dispatch`] takes one request through these steps, and [`outcome`]
//!   states what response each request comes to.
//!
//! Paths, header names and values, and environment variables are byte
//! strings throughout.

pub mod bytes;
pub mod scan;
pub mod path;
pub mod content_type;
pub mod env;
pub mod request;
pub mod wire;
pub mod response;
pub mod process;
pub mod dispatch;
pub mod outcome;
