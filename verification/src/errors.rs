//! The typed error taxonomy of the copy core, and the mapping from
//! syscall-style sentinel results into it.

use vstd::prelude::*;

verus! {

/// Every way a copy primitive or a sparse-file operation can fail.
///
/// A copy call either moves exactly the requested number of bytes or
/// surfaces one of these; partial success is never reported silently.
#[derive(Clone, Copy, Debug, PartialEq, Eq, Structural)]
pub enum CopyError {
    /// The source delivered end-of-file before the requested length was read.
    SourceExhausted,
    /// A positioned write stored fewer bytes than were read for it.
    WriteIncomplete,
    /// A stream write to the destination failed with the given OS code.
    WriteFailed(i32),
    /// The platform lacks the requested sparse-file capability.
    Unsupported,
    /// The underlying OS call failed with the given code.
    Os(i32),
}

/// Relies on std's io::Error::last_os_error for the code of the most
/// recent OS failure on this thread; the code depends on ambient
/// thread-local state, so nothing is promised of its value.
#[verifier::external_body]
fn last_os_error_code() -> i32 {
    std::io::Error::last_os_error().raw_os_error().unwrap_or(0)
}

/// Turn a syscall-style result into a typed one: the sentinel `-1` maps
/// to `CopyError::Os` carrying the last recorded OS error code, and any
/// other value maps to success carrying `retval`.
///
/// Call this immediately after the syscall it describes, before anything
/// that could disturb the ambient last-error state.
pub fn result_or_errno<T>(result: i64, retval: T) -> (r: Result<T, CopyError>)
    ensures
        result == -1 ==> (r matches Err(e) && e matches CopyError::Os(_)),
        result != -1 ==> (r matches Ok(v) && v == retval),
{
    match result {
        -1 => Err(CopyError::Os(last_os_error_code())),
        _ => Ok(retval),
    }
}

} // verus!
