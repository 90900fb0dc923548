//! Static per-language configuration: where the snippet is written, what
//! command runs it, and which stderr markers flag a compile-time failure.

use vstd::prelude::*;
use vstd::string::StrSliceExecFns;
use vstd::string::StringSliceAdditionalSpecFns;

verus! {

/// Configuration for one supported language, fixed at process start.
pub struct LanguageProfile {
    /// Root of the on-disk workspace holding the pre-built project skeleton.
    pub workspace_root: Vec<u8>,
    /// Path of the overwritten source file, relative to the workspace root.
    pub source_rel: Vec<u8>,
    /// External command that builds and runs the snippet.
    pub command: Vec<u8>,
    /// Arguments handed to the command.
    pub args: Vec<Vec<u8>>,
    /// Substrings of stderr that mark a compile-time failure.
    pub compile_markers: Vec<Vec<u8>>,
}

/// The byte texts of a sequence of marker vectors.
pub open spec fn markers_view(markers: Seq<Vec<u8>>) -> Seq<Seq<u8>> {
    markers.map(|i: int, m: Vec<u8>| m@)
}

pub open spec fn rust_source_rel() -> Seq<u8> {
    "src/main.rs".spec_bytes()
}

pub open spec fn rust_command() -> Seq<u8> {
    "cargo".spec_bytes()
}

pub open spec fn rust_args() -> Seq<Seq<u8>> {
    seq!["run".spec_bytes(), "--verbose".spec_bytes()]
}

pub open spec fn rust_markers() -> Seq<Seq<u8>> {
    seq![
        "error[E".spec_bytes(),
        "could not compile".spec_bytes(),
        "error: aborting due to".spec_bytes(),
    ]
}

pub open spec fn typescript_source_rel() -> Seq<u8> {
    "src/index.ts".spec_bytes()
}

pub open spec fn typescript_command() -> Seq<u8> {
    "pnpm".spec_bytes()
}

pub open spec fn typescript_args() -> Seq<Seq<u8>> {
    seq!["run".spec_bytes(), "start".spec_bytes()]
}

pub open spec fn typescript_markers() -> Seq<Seq<u8>> {
    seq![
        "TypeScript error".spec_bytes(),
        "TypeError".spec_bytes(),
        "SyntaxError".spec_bytes(),
    ]
}

/// The profile of the compiled language: snippets go to `src/main.rs` and
/// run through `cargo run --verbose`; compiler diagnostics carry an error
/// code, a "could not compile" phrase, or an abort notice.
pub fn rust_profile(workspace_root: Vec<u8>) -> (p: LanguageProfile)
    ensures
        p.workspace_root@ == workspace_root@,
        p.source_rel@ == rust_source_rel(),
        p.command@ == rust_command(),
        markers_view(p.args@) == rust_args(),
        markers_view(p.compile_markers@) == rust_markers(),
{
    let source_rel = ("src/main.rs").as_bytes_vec();
    let command = ("cargo").as_bytes_vec();
    let mut args: Vec<Vec<u8>> = Vec::new();
    args.push(("run").as_bytes_vec());
    args.push(("--verbose").as_bytes_vec());
    let mut compile_markers: Vec<Vec<u8>> = Vec::new();
    compile_markers.push(("error[E").as_bytes_vec());
    compile_markers.push(("could not compile").as_bytes_vec());
    compile_markers.push(("error: aborting due to").as_bytes_vec());
    proof {
        assert(markers_view(args@) =~= rust_args());
        assert(markers_view(compile_markers@) =~= rust_markers());
    }
    LanguageProfile { workspace_root, source_rel, command, args, compile_markers }
}

/// The profile of the interpreted language: snippets go to `src/index.ts`
/// and run through `pnpm run start`; type-checker and syntax diagnostics
/// mark a compile-time failure.
pub fn typescript_profile(workspace_root: Vec<u8>) -> (p: LanguageProfile)
    ensures
        p.workspace_root@ == workspace_root@,
        p.source_rel@ == typescript_source_rel(),
        p.command@ == typescript_command(),
        markers_view(p.args@) == typescript_args(),
        markers_view(p.compile_markers@) == typescript_markers(),
{
    let source_rel = ("src/index.ts").as_bytes_vec();
    let command = ("pnpm").as_bytes_vec();
    let mut args: Vec<Vec<u8>> = Vec::new();
    args.push(("run").as_bytes_vec());
    args.push(("start").as_bytes_vec());
    let mut compile_markers: Vec<Vec<u8>> = Vec::new();
    compile_markers.push(("TypeScript error").as_bytes_vec());
    compile_markers.push(("TypeError").as_bytes_vec());
    compile_markers.push(("SyntaxError").as_bytes_vec());
    proof {
        assert(markers_view(args@) =~= typescript_args());
        assert(markers_view(compile_markers@) =~= typescript_markers());
    }
    LanguageProfile { workspace_root, source_rel, command, args, compile_markers }
}

} // verus!
