//! What a caller of the service is told.
//!
//! A caller hands a job to the actor and waits for the answer. Either step
//! can fail because the actor is gone, and the operation itself can fail.
//! The caller is told which: a job that never reached the actor, an answer
//! that never came, or the operation's own failure.

use crate::error::{PdfParseError, PdfServiceError, PdfServiceErrorView};
use vstd::prelude::*;

verus! {

/// What the caller is told once the job was handed over, or could not be for
/// `reason`.
pub fn sent(handed_over: Result<(), String>) -> (told: Result<(), PdfServiceError>)
    ensures
        match handed_over {
            Ok(_) => told is Ok,
            Err(reason) => told matches Err(e) && e@ == PdfServiceErrorView::SendError(reason@)
                && e@.is_unavailable(),
        },
{
    match handed_over {
        Ok(_) => Ok(()),
        Err(reason) => Err(PdfServiceError::SendError(reason)),
    }
}

/// What the caller is told for a job that cannot fail by itself: the answer,
/// or that none came for `reason`.
pub fn received<T>(answer: Result<T, String>) -> (told: Result<T, PdfServiceError>)
    ensures
        match answer {
            Ok(value) => told == Ok::<T, PdfServiceError>(value),
            Err(reason) => told matches Err(e) && e@ == PdfServiceErrorView::RecvError(reason@)
                && e@.is_unavailable(),
        },
{
    match answer {
        Ok(value) => Ok(value),
        Err(reason) => Err(PdfServiceError::RecvError(reason)),
    }
}

/// What the caller is told for an operation on a document: its result, its
/// own failure, or that no answer came for `reason`.
pub fn received_result<T>(answer: Result<Result<T, PdfParseError>, String>) -> (told: Result<
    T,
    PdfServiceError,
>)
    ensures
        match answer {
            Ok(Ok(value)) => told == Ok::<T, PdfServiceError>(value),
            Ok(Err(failure)) => told == Err::<T, PdfServiceError>(
                PdfServiceError::ParseError(failure),
            ) && !told->Err_0@.is_unavailable(),
            Err(reason) => told matches Err(e) && e@ == PdfServiceErrorView::RecvError(reason@)
                && e@.is_unavailable(),
        },
{
    match answer {
        Ok(Ok(value)) => Ok(value),
        Ok(Err(failure)) => Err(PdfServiceError::ParseError(failure)),
        Err(reason) => Err(PdfServiceError::RecvError(reason)),
    }
}

} // verus!
