//! The failure taxonomy of the synchronizer.

use vstd::prelude::*;

verus! {

/// Why a planning step or a single file task failed.
///
/// Task-level failures (`IOFailure`, `DecodeFailure`) never abort a job: the
/// worker records zero progress for the file and moves on.  `InvalidInput`
/// aborts planning for one project only, and `PathEncodingError` rejects a
/// path before it is handed to the native decoder.
#[derive(Clone, Copy, Debug, PartialEq, Eq, Structural)]
pub enum SyncError {
    /// The source path handed to the planner is not a directory, or a
    /// request named no usable project.
    InvalidInput,
    /// A path could not be represented in the encoding the decoder needs.
    PathEncodingError,
    /// A copy, stat or directory creation failed.
    IOFailure,
    /// The native decoder reported failure or could not be run.
    DecodeFailure,
}

} // verus!
