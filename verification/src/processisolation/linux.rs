//! Process hardening on Linux: what to ask of the system, and what to make of
//! its answer.

use super::IsolationError;
use vstd::prelude::*;
use vstd::string::*;

verus! {

/// The resource whose limit is the largest size of a core dump file.
pub const RLIMIT_CORE: u32 = 4;

/// The process control option that says whether the process can be dumped.
pub const PR_SET_DUMPABLE: i32 = 4;

/// The limit, soft and hard, under which no core dump is written.
pub const NO_CORE_LIMIT: u64 = 0;

/// What a successful request is answered with.
pub open spec fn disabled_notice() -> Seq<char> {
    "Core dumps disabled"@
}

/// How the failure to disable core dumps is reported, before the system's own
/// words.
pub open spec fn coredumps_failure() -> Seq<char> {
    "failed to disable core dumping, memory might be persisted to disk on crashes "@
}

/// How the failure to read the limit is reported, before the system's own
/// words.
pub open spec fn limit_failure() -> Seq<char> {
    "failed to get core dump limit "@
}

/// How the failure to disable memory access is reported, before the system's
/// own words.
pub open spec fn memory_access_failure() -> Seq<char> {
    "failed to disable memory dumping, memory is dumpable by other processes "@
}

/// The error that reports a failure with the system's own words after it.
fn failure(report: &str, os_error: &str) -> (error: IsolationError)
    ensures
        error.message@ == report@ + os_error@,
{
    let mut message = String::from_str(report);
    message.append(os_error);
    IsolationError { message }
}

/// Makes of the answer to the request to set the core limit to nothing the
/// result of disabling core dumps: `status` is what the system returned and
/// `os_error` its words for the last error. Succeeds exactly when the status
/// is 0.
pub fn disable_coredumps(status: i32, os_error: &str) -> (done: Result<String, IsolationError>)
    ensures
        status == 0 ==> done is Ok && done->Ok_0@ == disabled_notice(),
        status != 0 ==> done is Err && done->Err_0.message@ == coredumps_failure() + os_error@,
{
    if status != 0 {
        return Err(
            failure(
                "failed to disable core dumping, memory might be persisted to disk on crashes ",
                os_error,
            ),
        );
    }
    Ok(String::from_str("Core dumps disabled"))
}

/// Makes of the answer to the request for the core limit whether core dumps
/// are disabled: `status` is what the system returned, `soft` and `hard` the
/// limit it gave, and `os_error` its words for the last error. Fails exactly
/// when the status is not 0; otherwise core dumps are disabled exactly when
/// both limits are nothing.
pub fn is_core_dumping_disabled(status: i32, soft: u64, hard: u64, os_error: &str) -> (disabled:
    Result<bool, IsolationError>)
    ensures
        status == 0 ==> disabled is Ok && disabled->Ok_0 == (soft == NO_CORE_LIMIT && hard
            == NO_CORE_LIMIT),
        status != 0 ==> disabled is Err && disabled->Err_0.message@ == limit_failure()
            + os_error@,
{
    if status != 0 {
        return Err(failure("failed to get core dump limit ", os_error));
    }
    Ok(soft == NO_CORE_LIMIT && hard == NO_CORE_LIMIT)
}

/// Makes of the answer to the request to make the process undumpable the
/// result of disabling access to its memory: `status` is what the system
/// returned and `os_error` its words for the last error. Succeeds exactly
/// when the status is 0.
pub fn disable_memory_access(status: i32, os_error: &str) -> (done: Result<String, IsolationError>)
    ensures
        status == 0 ==> done is Ok && done->Ok_0@ == disabled_notice(),
        status != 0 ==> done is Err && done->Err_0.message@ == memory_access_failure()
            + os_error@,
{
    if status != 0 {
        return Err(
            failure(
                "failed to disable memory dumping, memory is dumpable by other processes ",
                os_error,
            ),
        );
    }
    Ok(String::from_str("Core dumps disabled"))
}

} // verus!
