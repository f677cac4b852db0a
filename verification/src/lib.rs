//! Verified core of `krfiles`, a command-line client for a remote
//! file-browsing service.
//!
//! All network transport, authentication and JSON construction are done by an
//! opaque native component behind a narrow boundary of string/boolean calls.
//! This crate holds the part of the client that is worth proving things
//! about: the configuration checks, the session state machine that drives the
//! boundary (handle lifecycle, the last-error protocol), the JSON decoder for
//! the service's responses, and the rendering of results. The unverified
//! shell around it performs the actual boundary calls and terminal I/O and
//! feeds their outcomes back into the state machine as plain values.
//!
//! Text is carried as UTF-8 bytes (`Vec<u8>`) throughout; the shell turns the
//! native component's C strings into bytes and writes rendered bytes to the
//! terminal.

pub mod errors;
pub mod json;
pub mod machine;
pub mod model;
pub mod render;
pub mod runs;
pub mod sizefmt;
pub mod text;
