//! The decisions of a fetch task: what each thing that can happen while a
//! segment is read means for the task and for the status of the download.

use vstd::prelude::*;
use crate::status::{DownloadHandle, Error, Status, spec_latch};

verus! {

/// What can happen to a fetch task.
#[derive(Debug)]
pub enum FetchEvent {
    /// The request could not be sent, or was not answered in time.
    SendFailed(Error),
    /// The cancel signal fired.
    Canceled,
    /// A chunk of the body arrived.
    Chunk,
    /// The body ended.
    EndOfBody,
    /// The body could not be read.
    BodyFailed(Error),
    /// No chunk arrived within the timeout.
    IdleTimeout,
}

/// The status that an event makes the task report, if any.
pub open spec fn spec_reported_status(event: FetchEvent) -> Option<Status> {
    match event {
        FetchEvent::SendFailed(err) => Some(Status::Failed(err)),
        FetchEvent::Canceled => Some(Status::Canceled),
        FetchEvent::Chunk => None,
        FetchEvent::EndOfBody => None,
        FetchEvent::BodyFailed(err) => Some(Status::Failed(err)),
        FetchEvent::IdleTimeout => Some(Status::Failed(Error::Timeout)),
    }
}

/// Whether the task goes on reading after an event: only a chunk keeps it
/// going.
pub open spec fn spec_keeps_reading(event: FetchEvent) -> bool {
    event is Chunk
}

/// What a fetch task does after an event.
#[derive(Debug, Clone, Copy, PartialEq, Eq, Structural)]
pub struct FetchDecision {
    /// Forward the chunk and read on; otherwise the task ends.
    pub keep_reading: bool,
    /// Fire the cancel signal, so that the other tasks end too.
    pub fire_cancel: bool,
}

/// Handles one event of a fetch task: reports a failure or a cancellation
/// to the handle, where the first report wins, and decides whether the task
/// reads on and whether the cancel signal is fired.
pub fn on_fetch_event(handle: &mut DownloadHandle, event: FetchEvent) -> (decision: FetchDecision)
    ensures
        decision.keep_reading == spec_keeps_reading(event),
        final(handle).spec_status() == old(handle).spec_status(),
        final(handle).spec_raw_status() == match spec_reported_status(event) {
            Some(status) => spec_latch(old(handle).spec_raw_status(), status),
            None => old(handle).spec_raw_status(),
        },
        decision.fire_cancel == (spec_reported_status(event) is Some && old(
            handle,
        ).spec_raw_status() is Downloading),
{
    match event {
        FetchEvent::SendFailed(err) => {
            let fire_cancel = handle.mark_failed(err);
            FetchDecision { keep_reading: false, fire_cancel }
        },
        FetchEvent::Canceled => {
            let fire_cancel = handle.mark_canceled();
            FetchDecision { keep_reading: false, fire_cancel }
        },
        FetchEvent::Chunk => FetchDecision { keep_reading: true, fire_cancel: false },
        FetchEvent::EndOfBody => FetchDecision { keep_reading: false, fire_cancel: false },
        FetchEvent::BodyFailed(err) => {
            let fire_cancel = handle.mark_failed(err);
            FetchDecision { keep_reading: false, fire_cancel }
        },
        FetchEvent::IdleTimeout => {
            let fire_cancel = handle.mark_failed(Error::Timeout);
            FetchDecision { keep_reading: false, fire_cancel }
        },
    }
}

} // verus!
