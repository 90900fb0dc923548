//! Classification of one execution attempt: what the host observed about
//! the subprocess becomes either a successful outcome or a tagged error.

use vstd::prelude::*;
use vstd::string::StrSliceExecFns;
use vstd::string::StringSliceAdditionalSpecFns;
use crate::profile::LanguageProfile;
use crate::profile::markers_view;
use crate::text::contains_bytes;
use crate::text::contains_seq;

verus! {

/// Result of one subprocess run that completed.
pub struct ExecutionOutcome {
    pub success: bool,
    pub stdout: Vec<u8>,
    pub stderr: Vec<u8>,
}

/// Why one execution attempt failed.
pub enum ExecutionError {
    /// The workspace could not be written or the subprocess could not be
    /// launched; operator-facing.
    IoFailure(Vec<u8>),
    /// The toolchain reported static diagnostics; user-facing, carries the
    /// raw diagnostic text.
    CompileFailure(Vec<u8>),
    /// The snippet failed at run time or overran the deadline; user-facing.
    RuntimeFailure(Vec<u8>),
}

/// What the host observed while driving one execution attempt.
pub enum Completion {
    /// Writing the snippet into the workspace or spawning the subprocess
    /// failed, with the host's description of the failure.
    IoError(Vec<u8>),
    /// The subprocess terminated before the deadline.
    Finished { exit_ok: bool, stdout: Vec<u8>, stderr: Vec<u8> },
    /// The deadline elapsed before the subprocess terminated.
    TimedOut,
    /// The task driving the subprocess crashed, with a diagnostic note.
    Crashed(Vec<u8>),
}

/// The fixed message returned when the deadline elapses.
pub open spec fn timeout_message() -> Seq<u8> {
    "Execution timed out after 30 seconds. Your code took too long to run.".spec_bytes()
}

/// Some marker of the list occurs in the stderr text.
pub open spec fn is_compile_failure(markers: Seq<Seq<u8>>, stderr: Seq<u8>) -> bool {
    exists|k: int| 0 <= k < markers.len() && contains_seq(stderr, #[trigger] markers[k])
}

/// Decides whether a failed run's stderr resembles compile-time
/// diagnostics; the raw text is carried either way.
pub fn classify(profile: &LanguageProfile, stderr: Vec<u8>) -> (e: ExecutionError)
    ensures
        ({
            let compile = is_compile_failure(markers_view(profile.compile_markers@), stderr@);
            match e {
                ExecutionError::CompileFailure(m) => compile && m@ == stderr@,
                ExecutionError::RuntimeFailure(m) => !compile && m@ == stderr@,
                ExecutionError::IoFailure(_) => false,
            }
        }),
{
    let mut k: usize = 0;
    let count = profile.compile_markers.len();
    while k < count
        invariant
            count == profile.compile_markers@.len(),
            0 <= k <= count,
            forall|j: int| 0 <= j < k
                ==> !contains_seq(stderr@, #[trigger] markers_view(profile.compile_markers@)[j]),
        decreases count - k,
    {
        if contains_bytes(stderr.as_slice(), profile.compile_markers[k].as_slice()) {
            proof {
                assert(contains_seq(stderr@, markers_view(profile.compile_markers@)[k as int]));
            }
            return ExecutionError::CompileFailure(stderr);
        }
        k += 1;
    }
    ExecutionError::RuntimeFailure(stderr)
}

/// Maps what the host observed to the attempt's final result: a finished
/// run with a good exit status succeeds with its captured stdout; a bad
/// exit status is classified against the profile's markers; a missed
/// deadline and a crashed driver are runtime failures; a workspace or
/// spawn failure is an I/O failure.
pub fn conclude(profile: &LanguageProfile, event: Completion) -> (r: Result<
    ExecutionOutcome,
    ExecutionError,
>)
    ensures
        ({
            match event {
                Completion::IoError(d) => match r {
                    Err(ExecutionError::IoFailure(m)) => m@ == d@,
                    _ => false,
                },
                Completion::Finished { exit_ok, stdout, stderr } => {
                    if exit_ok {
                        match r {
                            Ok(o) => o.success && o.stdout@ == stdout@ && o.stderr@ == stderr@,
                            _ => false,
                        }
                    } else if is_compile_failure(
                        markers_view(profile.compile_markers@),
                        stderr@,
                    ) {
                        match r {
                            Err(ExecutionError::CompileFailure(m)) => m@ == stderr@,
                            _ => false,
                        }
                    } else {
                        match r {
                            Err(ExecutionError::RuntimeFailure(m)) => m@ == stderr@,
                            _ => false,
                        }
                    }
                },
                Completion::TimedOut => match r {
                    Err(ExecutionError::RuntimeFailure(m)) => m@ == timeout_message(),
                    _ => false,
                },
                Completion::Crashed(d) => match r {
                    Err(ExecutionError::RuntimeFailure(m)) => m@ == d@,
                    _ => false,
                },
            }
        }),
{
    match event {
        Completion::IoError(d) => Err(ExecutionError::IoFailure(d)),
        Completion::Finished { exit_ok, stdout, stderr } => {
            if exit_ok {
                Ok(ExecutionOutcome { success: true, stdout, stderr })
            } else {
                Err(classify(profile, stderr))
            }
        },
        Completion::TimedOut => {
            let m = ("Execution timed out after 30 seconds. Your code took too long to run.")
                .as_bytes_vec();
            Err(ExecutionError::RuntimeFailure(m))
        },
        Completion::Crashed(d) => Err(ExecutionError::RuntimeFailure(d)),
    }
}

} // verus!
