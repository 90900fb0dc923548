//! Mapping of an execution result to the wire response: a status code and
//! the body fields of the reply payload.

use vstd::prelude::*;
use crate::outcome::ExecutionError;
use crate::outcome::ExecutionOutcome;

verus! {

/// The reply to one request: an HTTP status code and the body fields.
pub struct WireResponse {
    pub status: u16,
    pub success: bool,
    pub output: Vec<u8>,
    pub error: Option<Vec<u8>>,
}

/// Shapes the final reply: a successful outcome answers 200 with the
/// captured stdout and no error; a compile or runtime failure answers 400
/// and an I/O failure 500, each with an empty output and the failure's
/// message.
pub fn respond(r: Result<ExecutionOutcome, ExecutionError>) -> (w: WireResponse)
    ensures
        ({
            match r {
                Ok(o) => {
                    &&& w.status == 200
                    &&& w.success == o.success
                    &&& w.output@ == o.stdout@
                    &&& w.error is None
                },
                Err(e) => {
                    &&& !w.success
                    &&& w.output@.len() == 0
                    &&& match e {
                        ExecutionError::IoFailure(m) => w.status == 500 && (match w.error {
                            Some(x) => x@ == m@,
                            None => false,
                        }),
                        ExecutionError::CompileFailure(m) => w.status == 400 && (match w.error {
                            Some(x) => x@ == m@,
                            None => false,
                        }),
                        ExecutionError::RuntimeFailure(m) => w.status == 400 && (match w.error {
                            Some(x) => x@ == m@,
                            None => false,
                        }),
                    }
                },
            }
        }),
{
    match r {
        Ok(o) => WireResponse {
            status: 200,
            success: o.success,
            output: o.stdout,
            error: None,
        },
        Err(ExecutionError::IoFailure(m)) => WireResponse {
            status: 500,
            success: false,
            output: Vec::new(),
            error: Some(m),
        },
        Err(ExecutionError::CompileFailure(m)) => WireResponse {
            status: 400,
            success: false,
            output: Vec::new(),
            error: Some(m),
        },
        Err(ExecutionError::RuntimeFailure(m)) => WireResponse {
            status: 400,
            success: false,
            output: Vec::new(),
            error: Some(m),
        },
    }
}

} // verus!
