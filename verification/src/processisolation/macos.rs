//! Process hardening on macOS, where none is offered yet.

use super::IsolationError;
use vstd::prelude::*;
use vstd::string::*;

verus! {

/// What every request for hardening is answered with.
pub open spec fn not_implemented() -> Seq<char> {
    "Not implemented on Mac"@
}

/// The error that says so.
fn unsupported() -> (error: IsolationError)
    ensures
        error.message@ == not_implemented(),
{
    IsolationError { message: String::from_str("Not implemented on Mac") }
}

/// Always fails: core dumps cannot be disabled here.
pub fn disable_coredumps() -> (done: Result<String, IsolationError>)
    ensures
        done is Err,
        done->Err_0.message@ == not_implemented(),
{
    Err(unsupported())
}

/// Always fails: whether core dumps are disabled cannot be told here.
pub fn is_core_dumping_disabled() -> (disabled: Result<bool, IsolationError>)
    ensures
        disabled is Err,
        disabled->Err_0.message@ == not_implemented(),
{
    Err(unsupported())
}

/// Always fails: access to the memory of the process cannot be disabled here.
pub fn disable_memory_access() -> (done: Result<String, IsolationError>)
    ensures
        done is Err,
        done->Err_0.message@ == not_implemented(),
{
    Err(unsupported())
}

} // verus!
