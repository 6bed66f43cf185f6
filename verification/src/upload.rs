//! The upload coordinator's decision core: a state machine over the
//! upload-then-delete sequence for one job. The surrounding runtime performs
//! the fallible outside work — reading the file, issuing the PUT, deleting
//! the local copy — and feeds each outcome back as an event; the machine
//! decides what happens next. Local deletion is reachable only through a
//! confirmed success status, so a failed or interrupted transfer can never
//! lose a file.

use vstd::prelude::*;

verus! {

/// Success as HTTP defines it for a response status code.
pub open spec fn is_success_spec(status: u16) -> bool {
    200 <= status < 300
}

/// Whether a response status code reports success.
pub fn is_success_status(status: u16) -> (r: bool)
    ensures
        r == is_success_spec(status),
{
    200 <= status && status < 300
}

/// Where the upload-then-delete sequence for one job stands. The phase tells
/// the runtime what to attempt next: read in Reading, transfer in Sending,
/// remove the local copy in Deleting; Succeeded and Failed are terminal.
#[derive(Clone, Copy, PartialEq, Eq, Structural, Debug)]
pub enum UploadPhase {
    Reading,
    Sending,
    Deleting,
    Succeeded,
    Failed,
}

/// What the outside world reports back to the coordinator after one attempt.
#[derive(Clone, Copy, PartialEq, Eq, Structural, Debug)]
pub enum UploadEvent {
    /// The file's bytes were read into memory.
    ReadOk,
    /// The file could not be read.
    ReadFailed,
    /// The transfer completed and the remote store answered with this
    /// status code.
    SendCompleted(u16),
    /// The transfer failed at the transport level; no response arrived.
    SendFailed,
    /// The local copy was removed.
    DeleteOk,
    /// The local copy could not be removed.
    DeleteFailed,
}

/// The coordinator's transition on one event. A completed transfer moves on
/// to deletion only when its status code reports success; every failure,
/// and every event that does not belong to the current phase, ends the job
/// as Failed with the local file untouched. A deletion failure after a
/// confirmed transfer is logged by the runtime but the upload itself still
/// counts as succeeded.
pub open spec fn upload_step_spec(phase: UploadPhase, event: UploadEvent) -> UploadPhase {
    match (phase, event) {
        (UploadPhase::Reading, UploadEvent::ReadOk) => UploadPhase::Sending,
        (UploadPhase::Reading, UploadEvent::ReadFailed) => UploadPhase::Failed,
        (UploadPhase::Sending, UploadEvent::SendCompleted(status)) => if is_success_spec(status) {
            UploadPhase::Deleting
        } else {
            UploadPhase::Failed
        },
        (UploadPhase::Sending, UploadEvent::SendFailed) => UploadPhase::Failed,
        (UploadPhase::Deleting, UploadEvent::DeleteOk) => UploadPhase::Succeeded,
        (UploadPhase::Deleting, UploadEvent::DeleteFailed) => UploadPhase::Succeeded,
        _ => UploadPhase::Failed,
    }
}

/// Advance the upload-then-delete sequence by one reported outcome.
pub fn upload_step(phase: UploadPhase, event: UploadEvent) -> (next: UploadPhase)
    ensures
        next == upload_step_spec(phase, event),
{
    match (phase, event) {
        (UploadPhase::Reading, UploadEvent::ReadOk) => UploadPhase::Sending,
        (UploadPhase::Reading, UploadEvent::ReadFailed) => UploadPhase::Failed,
        (UploadPhase::Sending, UploadEvent::SendCompleted(status)) => {
            if is_success_status(status) {
                UploadPhase::Deleting
            } else {
                UploadPhase::Failed
            }
        },
        (UploadPhase::Sending, UploadEvent::SendFailed) => UploadPhase::Failed,
        (UploadPhase::Deleting, UploadEvent::DeleteOk) => UploadPhase::Succeeded,
        (UploadPhase::Deleting, UploadEvent::DeleteFailed) => UploadPhase::Succeeded,
        (_, _) => UploadPhase::Failed,
    }
}

/// Deletion is gated on a confirmed success: the only way into the Deleting
/// phase is a completed transfer whose status code reports success. No read
/// error, transport error or non-success status ever leads to deletion.
pub proof fn lemma_delete_only_after_confirmed_success(phase: UploadPhase, event: UploadEvent)
    ensures
        upload_step_spec(phase, event) == UploadPhase::Deleting ==> (event matches UploadEvent::SendCompleted(status)
            && phase == UploadPhase::Sending && is_success_spec(status)),
{
}

/// A failed job stays failed: no later event resurrects it into deletion or
/// success, so a file retained after a failure stays on disk until a later
/// cycle re-detects it.
pub proof fn lemma_failed_is_absorbing(event: UploadEvent)
    ensures
        upload_step_spec(UploadPhase::Failed, event) == UploadPhase::Failed,
{
}

} // verus!
