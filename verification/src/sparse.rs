//! The fallback sparse-file strategy.
//!
//! Sparse-file handling needs per-OS support; this variant is selected on
//! platforms without it and disables the capability set uniformly: it never
//! claims a file is sparse, and the segment and allocation operations fail
//! with `CopyError::Unsupported`. Callers must treat that error as "fall
//! back to the plain byte-copy path", never as a fatal condition.

use vstd::prelude::*;
use crate::errors::CopyError;

verus! {

/// Whether the open file is likely sparse (allocated blocks fewer than its
/// logical size would need). The fallback strategy cannot tell, so it
/// reports `false` unconditionally.
pub fn probably_sparse() -> (r: Result<bool, CopyError>)
    ensures
        r == Ok::<bool, CopyError>(false),
{
    Ok(false)
}

/// Reserve `_len` logical bytes in the destination without materialising
/// zero blocks. Unsupported by the fallback strategy for every input.
pub fn allocate_file(_len: u64) -> (r: Result<(), CopyError>)
    ensures
        r == Err::<(), CopyError>(CopyError::Unsupported),
{
    Err(CopyError::Unsupported)
}

/// From scan position `_pos`, find the next data segment of the source and
/// the position from which to resume scanning. Unsupported by the fallback
/// strategy for every input.
pub fn next_sparse_segments(_pos: u64) -> (r: Result<(u64, u64), CopyError>)
    ensures
        r == Err::<(u64, u64), CopyError>(CopyError::Unsupported),
{
    Err(CopyError::Unsupported)
}

} // verus!
