//! The narrow interface to the external decode capability.
//!
//! Decoding a proprietary container is a single blocking call into a native
//! library, made outside this crate; to the core it is a capability that
//! takes an input path and an output directory and reports one success
//! flag.  This module carries everything around that call: the check both
//! paths must pass before they may cross the C boundary, the mapping from
//! the raw result to the library's own, the failure taxonomy of a task, and
//! the progress-slot update that follows a decode.

use vstd::prelude::*;

use crate::errors::SyncError;
use crate::fraction::Fraction;
use crate::paths::{contains_nul, spec_contains_nul};
use crate::progress::{ThreadProgress, ThreadProgressModel};

verus! {

/// The result structure the native decoder hands back across the C
/// boundary.
#[derive(Clone, Copy, Debug, PartialEq, Eq, Structural)]
pub struct DecodeResultRaw {
    pub success: bool,
}

/// A decode or copy outcome as the rest of the library sees it.
#[derive(Clone, Copy, Debug, PartialEq, Eq, Structural)]
pub struct DecodeResult {
    pub success: bool,
}

/// Check the two paths a decode call would hand across the C boundary: a
/// path holding a NUL character cannot be carried in a C string and is
/// rejected here, before the call, never passed through.
pub fn validate_decode_paths(input: &str, output_dir: &str) -> (r: Result<(), SyncError>)
    ensures
        r == Ok::<(), SyncError>(()) <==> !spec_contains_nul(input@) && !spec_contains_nul(
            output_dir@,
        ),
        r is Err ==> r == Err::<(), SyncError>(SyncError::PathEncodingError),
{
    if contains_nul(input) || contains_nul(output_dir) {
        Err(SyncError::PathEncodingError)
    } else {
        Ok(())
    }
}

/// The raw decoder result, taken into the library's own type.
pub fn decode_result_from_raw(raw: DecodeResultRaw) -> (r: DecodeResult)
    ensures
        r.success == raw.success,
{
    DecodeResult { success: raw.success }
}

/// Which error a failed task is recorded as: a decode-required file failed
/// in the native decoder, any other in plain file I/O.
pub fn task_failure_kind(is_ncm: bool) -> (e: SyncError)
    ensures
        e == if is_ncm {
            SyncError::DecodeFailure
        } else {
            SyncError::IOFailure
        },
{
    if is_ncm {
        SyncError::DecodeFailure
    } else {
        SyncError::IOFailure
    }
}

impl ThreadProgress {
    /// What a decode call leaves in the worker's slot it was handed: full
    /// progress with every byte processed on success, zero progress on
    /// failure.
    pub fn apply_decode_outcome(&mut self, success: bool)
        ensures
            success ==> final(self)@ == (ThreadProgressModel {
                progress: Fraction::spec_one(),
                processed_size: old(self).current_size,
                ..old(self)@
            }),
            !success ==> final(self)@ == (ThreadProgressModel {
                progress: Fraction::spec_zero(),
                ..old(self)@
            }),
    {
        let ghost pre = *self;
        if success {
            self.progress = Fraction::one();
            self.processed_size = self.current_size;
            proof {
                assert(self@ =~~= (ThreadProgressModel {
                    progress: Fraction::spec_one(),
                    processed_size: pre.current_size,
                    ..pre@
                }));
            }
        } else {
            self.progress = Fraction::zero();
            proof {
                assert(self@ =~~= (ThreadProgressModel {
                    progress: Fraction::spec_zero(),
                    ..pre@
                }));
            }
        }
    }
}

} // verus!
