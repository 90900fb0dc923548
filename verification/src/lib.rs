//! Verified core of a code-execution playground service.
//!
//! The service accepts untrusted source snippets, rewrites hardcoded local
//! endpoint URLs, runs the snippet through an external toolchain inside a
//! fixed workspace, classifies the result, and shapes a wire response.
//! Everything here is pure decision logic over plain byte strings; the
//! HTTP server, file writes and subprocess handling live outside the
//! library and feed their observations in as values.

pub mod text;
pub mod rewrite;
pub mod profile;
pub mod outcome;
pub mod respond;
pub mod health;
