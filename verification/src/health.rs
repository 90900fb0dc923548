//! Liveness decisions: the greeting of the root route and the status of
//! the health probe.

use vstd::prelude::*;
use vstd::string::StringExecFns;

verus! {

/// Text served by the root route.
pub open spec fn greeting_text() -> Seq<char> {
    "Hello, World! Welcome to the Solana Playground Service (Rust + TypeScript)"@
}

/// The greeting of the root route.
pub fn greeting() -> (r: String)
    ensures
        r@ == greeting_text(),
{
    String::from_str("Hello, World! Welcome to the Solana Playground Service (Rust + TypeScript)")
}

/// Status of the health probe: 200 exactly when both external toolchain
/// version probes succeeded, else 503.
pub fn health_status(rust_ok: bool, typescript_ok: bool) -> (s: u16)
    ensures
        s == 200 <==> rust_ok && typescript_ok,
        s == 200 || s == 503,
{
    if rust_ok && typescript_ok {
        200
    } else {
        503
    }
}

} // verus!
