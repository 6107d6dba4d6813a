//! What can go wrong on the device. All of it is fatal: a resource that is
//! half made has no use, and nothing here is retried.

use vstd::prelude::*;

verus! {

/// The result code of a native call that succeeded.
pub const NATIVE_SUCCESS: i32 = 0;

/// The result code of a wait that ran out of time.
pub const NATIVE_TIMEOUT: i32 = 2;

/// The result code of a call on a device that is lost.
pub const NATIVE_DEVICE_LOST: i32 = -4;

/// Why an operation chain ends.
#[derive(Clone, Copy, PartialEq, Eq, Structural, Debug)]
pub enum FatalError {
    /// The driver refused to create a native object.
    ResourceCreation,
    /// No memory type of the device suits a request.
    MemoryTypeExhausted,
    /// A submission failed, or the wait for its fence failed or ran out of
    /// time.
    Submission,
}

/// What the result code of a creating call means: success, or the end of
/// the operation chain.
pub fn creation_outcome(code: i32) -> (outcome: Result<(), FatalError>)
    ensures
        outcome == if code == NATIVE_SUCCESS {
            Ok::<(), FatalError>(())
        } else {
            Err::<(), FatalError>(FatalError::ResourceCreation)
        },
{
    if code == NATIVE_SUCCESS {
        Ok(())
    } else {
        Err(FatalError::ResourceCreation)
    }
}

/// What the result code of a submission, or of the wait for its fence,
/// means. Only success lets the chain go on: a wait that ran out of time is
/// as fatal as one that failed.
pub fn submission_outcome(code: i32) -> (outcome: Result<(), FatalError>)
    ensures
        outcome == if code == NATIVE_SUCCESS {
            Ok::<(), FatalError>(())
        } else {
            Err::<(), FatalError>(FatalError::Submission)
        },
{
    if code == NATIVE_SUCCESS {
        Ok(())
    } else {
        Err(FatalError::Submission)
    }
}

} // verus!
