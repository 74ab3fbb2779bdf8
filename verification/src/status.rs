//! The status of a download and the latch that guards it: the first failure
//! or cancellation wins, and callers see it once the coordinator has
//! finished.

use reqwest::Error as ReqwestError;
use std::io::Error as IoError;
use std::sync::Arc;
use vstd::prelude::*;
use vstd::std_specs::convert::FromSpecImpl;

verus! {

/// `reqwest::Error`, a transport failure. Carried, never inspected.
#[verifier::external_type_specification]
#[verifier::external_body]
pub struct ExReqwestError(ReqwestError);

/// `std::io::Error`, a filesystem failure. Carried, never inspected.
#[verifier::external_type_specification]
#[verifier::external_body]
pub struct ExIoError(IoError);

/// `Arc::clone` returns another pointer to the same value.
#[verifier::external_body]
fn share<T>(pointer: &Arc<T>) -> (copy: Arc<T>)
    ensures
        copy == *pointer,
{
    Arc::clone(pointer)
}

/// Why a download failed.
#[derive(Debug)]
pub enum Error {
    /// The transport failed, or the body could not be read.
    Network(Arc<ReqwestError>),
    /// A file could not be opened, written or flushed, or the state file is
    /// corrupt.
    Io(Arc<IoError>),
    /// The probe got no answer in time, or no chunk arrived in time.
    Timeout,
}

impl Clone for Error {
    fn clone(&self) -> (copy: Self)
        ensures
            copy == *self,
    {
        match self {
            Error::Network(cause) => Error::Network(share(cause)),
            Error::Io(cause) => Error::Io(share(cause)),
            Error::Timeout => Error::Timeout,
        }
    }
}

impl From<ReqwestError> for Error {
    fn from(err: ReqwestError) -> (r: Self) {
        Error::Network(Arc::new(err))
    }
}

impl FromSpecImpl<ReqwestError> for Error {
    open spec fn obeys_from_spec() -> bool {
        true
    }

    open spec fn from_spec(err: ReqwestError) -> Self {
        Error::Network(Arc::new(err))
    }
}

impl From<IoError> for Error {
    fn from(err: IoError) -> (r: Self) {
        Error::Io(Arc::new(err))
    }
}

impl FromSpecImpl<IoError> for Error {
    open spec fn obeys_from_spec() -> bool {
        true
    }

    open spec fn from_spec(err: IoError) -> Self {
        Error::Io(Arc::new(err))
    }
}

/// Where a download stands.
#[derive(Debug)]
pub enum Status {
    Pending,
    Downloading,
    Completed,
    Failed(Error),
    Canceled,
}

impl Clone for Status {
    fn clone(&self) -> (copy: Self)
        ensures
            copy == *self,
    {
        match self {
            Status::Pending => Status::Pending,
            Status::Downloading => Status::Downloading,
            Status::Completed => Status::Completed,
            Status::Failed(err) => Status::Failed(err.clone()),
            Status::Canceled => Status::Canceled,
        }
    }
}

/// The raw status after a producer has reported `new_status`: a download
/// that is running takes it, any other status stays.
pub open spec fn spec_latch(raw: Status, new_status: Status) -> Status {
    if raw is Downloading {
        new_status
    } else {
        raw
    }
}

/// The status that callers see once the coordinator has finished: a download
/// that nobody stopped is complete, any other ends as it was stopped.
pub open spec fn spec_settle(raw: Status) -> Status {
    if raw is Downloading {
        Status::Completed
    } else {
        raw
    }
}

/// The first report that a running download takes is final: whatever is
/// reported after a failure or a cancellation is dropped, and the status
/// that callers see in the end is that first report.
pub proof fn law_first_terminal_report_wins(first: Status, later: Status)
    requires
        !(first is Downloading),
    ensures
        spec_latch(spec_latch(Status::Downloading, first), later) == first,
        spec_settle(spec_latch(spec_latch(Status::Downloading, first), later)) == first,
{
}

/// The status of one download, kept twice: the raw status, which the fetch
/// tasks and the writer set and observe, and the effective status, which
/// callers read.
#[derive(Debug)]
pub struct DownloadHandle {
    raw_status: Status,
    effective_status: Status,
}

impl DownloadHandle {
    /// What the producers observe.
    pub closed spec fn spec_raw_status(&self) -> Status {
        self.raw_status
    }

    /// What callers read.
    pub closed spec fn spec_status(&self) -> Status {
        self.effective_status
    }

    /// A handle for a download that has not started.
    pub fn new() -> (r: Self)
        ensures
            r.spec_raw_status() == Status::Pending,
            r.spec_status() == Status::Pending,
    {
        Self { raw_status: Status::Pending, effective_status: Status::Pending }
    }

    /// The coordinator has started: both statuses become `Downloading`.
    pub fn mark_downloading(&mut self)
        ensures
            final(self).spec_raw_status() == Status::Downloading,
            final(self).spec_status() == Status::Downloading,
    {
        self.raw_status = Status::Downloading;
        self.effective_status = Status::Downloading;
    }

    /// A producer reports `new_status`. It is taken only while the download
    /// is running; the result says whether it was, in which case the caller
    /// fires the cancel signal. What callers read does not change.
    pub fn update_if_downloading(&mut self, new_status: Status) -> (fire_cancel: bool)
        ensures
            final(self).spec_raw_status() == spec_latch(old(self).spec_raw_status(), new_status),
            final(self).spec_status() == old(self).spec_status(),
            fire_cancel == (old(self).spec_raw_status() is Downloading),
    {
        let running: bool = match self.raw_status {
            Status::Downloading => true,
            _ => false,
        };
        if running {
            self.raw_status = new_status;
        }
        running
    }

    /// A fetch task has seen the cancel signal.
    pub fn mark_canceled(&mut self) -> (fire_cancel: bool)
        ensures
            final(self).spec_raw_status() == spec_latch(
                old(self).spec_raw_status(),
                Status::Canceled,
            ),
            final(self).spec_status() == old(self).spec_status(),
            fire_cancel == (old(self).spec_raw_status() is Downloading),
    {
        self.update_if_downloading(Status::Canceled)
    }

    /// A fetch task or the writer has failed with `err`.
    pub fn mark_failed(&mut self, err: Error) -> (fire_cancel: bool)
        ensures
            final(self).spec_raw_status() == spec_latch(
                old(self).spec_raw_status(),
                Status::Failed(err),
            ),
            final(self).spec_status() == old(self).spec_status(),
            fire_cancel == (old(self).spec_raw_status() is Downloading),
    {
        self.update_if_downloading(Status::Failed(err))
    }

    /// The coordinator has finished: callers now see how the download ended.
    /// The caller then wakes those who wait for the end.
    pub fn mark_finished(&mut self)
        ensures
            final(self).spec_raw_status() == old(self).spec_raw_status(),
            final(self).spec_status() == spec_settle(old(self).spec_raw_status()),
    {
        match &self.raw_status {
            Status::Downloading => {
                self.effective_status = Status::Completed;
            },
            _ => {
                self.effective_status = self.raw_status.clone();
            },
        }
    }

    /// The status that callers read.
    pub fn status(&self) -> (r: Status)
        ensures
            r == self.spec_status(),
    {
        self.effective_status.clone()
    }

    /// The status that the producers observe.
    pub fn raw_status(&self) -> (r: Status)
        ensures
            r == self.spec_raw_status(),
    {
        self.raw_status.clone()
    }
}

} // verus!
