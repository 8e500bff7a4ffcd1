use vstd::prelude::*;

use crate::error::GraftError;
use crate::text::{text_from_bytes_lossy, utf8_lossy};

verus! {

/// The outcome of a three-way merge.
#[derive(Debug, PartialEq)]
pub enum MergeResult {
    Clean(Vec<u8>),
    Conflict(Vec<u8>),
}

/// What a three-way merge with `git merge-file -p` comes to, from how the process
/// ended: exit code 0 is a clean merge and 1 a merge with conflict markers, the
/// merged text being what it printed; anything else (another code, or no code at
/// all where a signal ended it) is a failure, reported with what it printed on
/// standard error.
pub fn merge_outcome(exit_code: Option<i32>, stdout: Vec<u8>, stderr: &[u8]) -> (r: Result<MergeResult, GraftError>)
    ensures
        exit_code == Some(0i32) ==> (r matches Ok(MergeResult::Clean(out)) && out@ == stdout@),
        exit_code == Some(1i32) ==> (r matches Ok(MergeResult::Conflict(out)) && out@ == stdout@),
        exit_code != Some(0i32) && exit_code != Some(1i32) ==> (r matches Err(GraftError::MergeFailed { reason })
            && reason@ == utf8_lossy(stderr@)),
{
    match exit_code {
        Some(0) => Ok(MergeResult::Clean(stdout)),
        Some(1) => Ok(MergeResult::Conflict(stdout)),
        _ => Err(GraftError::MergeFailed { reason: text_from_bytes_lossy(stderr) }),
    }
}

} // verus!
