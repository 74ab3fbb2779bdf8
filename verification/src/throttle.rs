//! Pacing of the fetch tasks: the shared speed setting, and the per-task
//! budget that decides when a task pauses and for how long.

use std::time::Instant;
use vstd::prelude::*;

verus! {

/// `std::time::Instant`, a reading of the monotonic clock.
#[verifier::external_type_specification]
#[verifier::external_body]
pub struct ExInstant(Instant);

/// `Instant::now` reads the clock. Nothing is claimed of the reading.
#[verifier::external_body]
fn clock_now() -> Instant {
    Instant::now()
}

/// `Instant::elapsed` gives the time since the reading, here in whole
/// nanoseconds. Nothing is claimed of it.
#[verifier::external_body]
fn elapsed_nanos(since: &Instant) -> u128 {
    since.elapsed().as_nanos()
}

/// Nanoseconds in a second.
pub const NANOS_PER_SECOND: u128 = 1_000_000_000;

/// Pauses shorter than this many nanoseconds (a millisecond) are skipped.
pub const MIN_PAUSE_NANOS: u128 = 1_000_000;

/// The speed setting that all fetch tasks of a download share: the speed of
/// one task in bytes per second, 0 for no limit, and a flag that tells the
/// tasks that the speed has changed.
#[derive(Debug)]
pub struct ThrottleConfig {
    has_throttle_changed: bool,
    task_speed: u64,
}

impl ThrottleConfig {
    /// The speed of one task in bytes per second; 0 stands for no limit.
    pub closed spec fn spec_task_speed(&self) -> u64 {
        self.task_speed
    }

    /// Whether the speed has changed since the tasks last took it up.
    pub closed spec fn spec_has_throttle_changed(&self) -> bool {
        self.has_throttle_changed
    }

    /// No limit, nothing changed.
    pub fn default() -> (r: Self)
        ensures
            r.spec_task_speed() == 0,
            !r.spec_has_throttle_changed(),
    {
        Self { has_throttle_changed: false, task_speed: 0 }
    }

    /// Sets the speed of one task without telling the tasks.
    pub fn set_task_speed(&mut self, task_speed: u64)
        ensures
            final(self).spec_task_speed() == task_speed,
            final(self).spec_has_throttle_changed() == old(self).spec_has_throttle_changed(),
    {
        self.task_speed = task_speed;
    }

    /// Whether the speed has changed since the tasks last took it up.
    pub fn has_throttle_changed(&self) -> (r: bool)
        ensures
            r == self.spec_has_throttle_changed(),
    {
        self.has_throttle_changed
    }

    /// Clears the flag, once every task has taken up the new speed.
    pub fn reset_has_throttle_changed(&mut self)
        ensures
            !final(self).spec_has_throttle_changed(),
            final(self).spec_task_speed() == old(self).spec_task_speed(),
    {
        self.has_throttle_changed = false;
    }

    /// The speed of one task in bytes per second; 0 stands for no limit.
    pub fn task_speed(&self) -> (r: u64)
        ensures
            r == self.spec_task_speed(),
    {
        self.task_speed
    }

    /// Divides a total speed in bytes per second, or none for no limit,
    /// evenly among `tasks_count` tasks, and tells the tasks.
    pub fn change_throttle_speed(&mut self, throttle_speed: Option<u64>, tasks_count: u64)
        requires
            tasks_count > 0,
        ensures
            final(self).spec_task_speed() == spec_task_share(throttle_speed, tasks_count),
            final(self).spec_has_throttle_changed(),
    {
        self.task_speed = task_share(throttle_speed, tasks_count);
        self.has_throttle_changed = true;
    }
}

/// The share of one task in a total speed: the total, or 0 where there is
/// none, divided by the number of tasks, rounded down.
pub open spec fn spec_task_share(throttle_speed: Option<u64>, tasks_count: u64) -> u64
    recommends
        tasks_count > 0,
{
    match throttle_speed {
        Some(speed) => speed / tasks_count,
        None => 0,
    }
}

/// Computes the share of one task in a total speed.
pub fn task_share(throttle_speed: Option<u64>, tasks_count: u64) -> (r: u64)
    requires
        tasks_count > 0,
    ensures
        r == spec_task_share(throttle_speed, tasks_count),
{
    match throttle_speed {
        Some(speed) => speed / tasks_count,
        None => 0,
    }
}

/// A total speed given in kilobytes per second, in bytes per second.
pub open spec fn spec_speed_in_bytes(kilobytes_per_second: Option<u64>) -> Option<u64> {
    match kilobytes_per_second {
        Some(speed) => Some((speed * 1024) as u64),
        None => None,
    }
}

/// Converts a speed limit from kilobytes per second to bytes per second.
pub fn speed_in_bytes(kilobytes_per_second: Option<u64>) -> (r: Option<u64>)
    requires
        kilobytes_per_second matches Some(speed) ==> speed * 1024 <= u64::MAX,
    ensures
        r == spec_speed_in_bytes(kilobytes_per_second),
{
    match kilobytes_per_second {
        Some(speed) => Some(speed * 1024),
        None => None,
    }
}

/// What a task does once it has forwarded a chunk.
#[derive(Debug, Clone, Copy, PartialEq, Eq, Structural)]
pub enum ThrottleStep {
    /// The budget of this second is not used up: go on.
    Continue,
    /// The budget is used up, but the pause would be too short to take:
    /// start a new budget.
    Restart,
    /// The budget is used up: pause for this many nanoseconds, then start a
    /// new budget.
    Pause(u128),
}

/// The length of the pause in nanoseconds, once `bytes_downloaded` bytes
/// have gone through in `elapsed` nanoseconds at a budget of `target_speed`
/// bytes per second: one second, plus the time that the bytes over budget
/// take at that speed, less the time already spent. It may be negative.
pub open spec fn spec_sleep_nanos(bytes_downloaded: u64, target_speed: u64, elapsed: u128) -> int
    recommends
        target_speed > 0,
        bytes_downloaded >= target_speed,
{
    NANOS_PER_SECOND + ((bytes_downloaded - target_speed) * NANOS_PER_SECOND) / (
    target_speed as int) - elapsed
}

/// The step that a used-up budget leads to: a pause of the computed length
/// where that is a millisecond or more, a plain restart otherwise.
pub open spec fn spec_exhausted_step(
    bytes_downloaded: u64,
    target_speed: u64,
    elapsed: u128,
) -> ThrottleStep {
    let pause = spec_sleep_nanos(bytes_downloaded, target_speed, elapsed);
    if pause >= MIN_PAUSE_NANOS {
        ThrottleStep::Pause(pause as u128)
    } else {
        ThrottleStep::Restart
    }
}

/// Decides how a task whose budget is used up goes on, from the bytes that
/// have gone through, the budget, and the nanoseconds spent on them.
pub fn exhausted_step(bytes_downloaded: u64, target_speed: u64, elapsed: u128) -> (r: ThrottleStep)
    requires
        target_speed > 0,
        bytes_downloaded >= target_speed,
    ensures
        r == spec_exhausted_step(bytes_downloaded, target_speed, elapsed),
{
    let diff_bytes: u128 = (bytes_downloaded - target_speed) as u128;
    assert(diff_bytes * NANOS_PER_SECOND <= 0xffff_ffff_ffff_ffff * 1_000_000_000) by (nonlinear_arith)
        requires
            diff_bytes <= 0xffff_ffff_ffff_ffff,
            NANOS_PER_SECOND == 1_000_000_000,
    ;
    let additional: u128 = (diff_bytes * NANOS_PER_SECOND) / (target_speed as u128);
    assert(additional <= diff_bytes * NANOS_PER_SECOND) by (nonlinear_arith)
        requires
            additional == (diff_bytes * NANOS_PER_SECOND) / (target_speed as int),
            target_speed > 0,
    ;
    let total: u128 = NANOS_PER_SECOND + additional;
    if total >= elapsed && total - elapsed >= MIN_PAUSE_NANOS {
        ThrottleStep::Pause(total - elapsed)
    } else {
        ThrottleStep::Restart
    }
}

/// The budget of one fetch task: how many bytes have gone through since the
/// budget was started, when that was, and how many may go through per
/// second.
#[derive(Debug)]
pub struct Throttler {
    timestamp: Instant,
    bytes_downloaded: u64,
    target_speed: u64,
}

impl Throttler {
    /// The bytes that have gone through since the budget was started.
    pub closed spec fn spec_bytes_downloaded(&self) -> u64 {
        self.bytes_downloaded
    }

    /// The bytes that may go through per second.
    pub closed spec fn spec_target_speed(&self) -> u64 {
        self.target_speed
    }

    /// A fresh budget of `target_speed` bytes per second, started now.
    pub fn new(target_speed: u64) -> (r: Self)
        ensures
            r.spec_bytes_downloaded() == 0,
            r.spec_target_speed() == target_speed,
    {
        Self { timestamp: clock_now(), bytes_downloaded: 0, target_speed }
    }

    /// The bytes that have gone through since the budget was started.
    pub fn bytes_downloaded(&self) -> (r: u64)
        ensures
            r == self.spec_bytes_downloaded(),
    {
        self.bytes_downloaded
    }

    /// The bytes that may go through per second.
    pub fn target_speed(&self) -> (r: u64)
        ensures
            r == self.spec_target_speed(),
    {
        self.target_speed
    }

    /// Counts a forwarded chunk of `chunk_len` bytes against the budget and
    /// says how the task goes on. While the budget lasts the task continues;
    /// once it is used up, the step is the one that `exhausted_step` gives
    /// for the time the clock shows, whatever that is. The caller pauses as
    /// told and then calls `restart`.
    pub fn process_throttled(&mut self, chunk_len: u64) -> (step: ThrottleStep)
        requires
            old(self).spec_target_speed() > 0,
            old(self).spec_bytes_downloaded() + chunk_len <= u64::MAX,
        ensures
            final(self).spec_target_speed() == old(self).spec_target_speed(),
            final(self).spec_bytes_downloaded() == old(self).spec_bytes_downloaded() + chunk_len,
            final(self).spec_bytes_downloaded() < final(self).spec_target_speed() ==> step
                == ThrottleStep::Continue,
            final(self).spec_bytes_downloaded() >= final(self).spec_target_speed()
                ==> exists|elapsed: u128|
                step == spec_exhausted_step(
                    final(self).spec_bytes_downloaded(),
                    final(self).spec_target_speed(),
                    elapsed,
                ),
    {
        self.bytes_downloaded = self.bytes_downloaded + chunk_len;
        if self.bytes_downloaded < self.target_speed {
            return ThrottleStep::Continue;
        }
        let elapsed: u128 = elapsed_nanos(&self.timestamp);
        exhausted_step(self.bytes_downloaded, self.target_speed, elapsed)
    }

    /// Starts a new budget now.
    pub fn restart(&mut self)
        ensures
            final(self).spec_bytes_downloaded() == 0,
            final(self).spec_target_speed() == old(self).spec_target_speed(),
    {
        self.bytes_downloaded = 0;
        self.timestamp = clock_now();
    }
}

/// How a fetch task forwards its chunks: as they come, or against a budget.
#[derive(Debug)]
pub enum DownloadStrategy {
    NotThrottled,
    Throttled { throttle: Throttler },
}

impl DownloadStrategy {
    /// The budget that the strategy works against, if any.
    pub open spec fn spec_throttler(&self) -> Option<Throttler> {
        match *self {
            DownloadStrategy::NotThrottled => None,
            DownloadStrategy::Throttled { throttle } => Some(throttle),
        }
    }

    /// The strategy for a task speed: a fresh budget of that many bytes per
    /// second, or none where the speed is 0.
    pub fn new(task_speed: u64) -> (r: Self)
        ensures
            task_speed == 0 ==> r.spec_throttler() is None,
            task_speed > 0 ==> r.spec_throttler() is Some
                && r.spec_throttler()->0.spec_target_speed() == task_speed
                && r.spec_throttler()->0.spec_bytes_downloaded() == 0,
    {
        if task_speed > 0 {
            DownloadStrategy::Throttled { throttle: Throttler::new(task_speed) }
        } else {
            DownloadStrategy::NotThrottled
        }
    }

    /// Accounts for a forwarded chunk of `chunk_len` bytes: without a budget
    /// the task continues, with one the budget decides as in
    /// `Throttler::process_throttled`.
    pub fn handle_chunk(&mut self, chunk_len: u64) -> (step: ThrottleStep)
        requires
            old(self).spec_throttler() matches Some(throttle) ==> throttle.spec_target_speed() > 0
                && throttle.spec_bytes_downloaded() + chunk_len <= u64::MAX,
        ensures
            old(self).spec_throttler() is None ==> final(self).spec_throttler() is None && step
                == ThrottleStep::Continue,
            old(self).spec_throttler() matches Some(before) ==> {
                &&& final(self).spec_throttler() matches Some(after)
                &&& after.spec_target_speed() == before.spec_target_speed()
                &&& after.spec_bytes_downloaded() == before.spec_bytes_downloaded() + chunk_len
                &&& after.spec_bytes_downloaded() < after.spec_target_speed() ==> step
                    == ThrottleStep::Continue
                &&& after.spec_bytes_downloaded() >= after.spec_target_speed() ==> exists|
                    elapsed: u128,
                |
                    step == spec_exhausted_step(
                        after.spec_bytes_downloaded(),
                        after.spec_target_speed(),
                        elapsed,
                    )
            },
    {
        match self {
            DownloadStrategy::NotThrottled => ThrottleStep::Continue,
            DownloadStrategy::Throttled { throttle } => throttle.process_throttled(chunk_len),
        }
    }

    /// Starts a new budget after a pause; without a budget nothing happens.
    pub fn restart(&mut self)
        ensures
            old(self).spec_throttler() is None ==> final(self).spec_throttler() is None,
            old(self).spec_throttler() matches Some(before) ==> {
                &&& final(self).spec_throttler() matches Some(after)
                &&& after.spec_target_speed() == before.spec_target_speed()
                &&& after.spec_bytes_downloaded() == 0
            },
    {
        match self {
            DownloadStrategy::NotThrottled => {},
            DownloadStrategy::Throttled { throttle } => {
                throttle.restart();
            },
        }
    }

    /// Takes up a changed speed: where the shared setting says that the
    /// speed has changed, the strategy is built anew from it, and the result
    /// tells the task to meet the others before it goes on.
    pub fn refresh(&mut self, config: &ThrottleConfig) -> (changed: bool)
        ensures
            changed == config.spec_has_throttle_changed(),
            !changed ==> *final(self) == *old(self),
            changed && config.spec_task_speed() == 0 ==> final(self).spec_throttler() is None,
            changed && config.spec_task_speed() > 0 ==> final(self).spec_throttler() is Some
                && final(self).spec_throttler()->0.spec_target_speed() == config.spec_task_speed()
                && final(self).spec_throttler()->0.spec_bytes_downloaded() == 0,
    {
        if config.has_throttle_changed() {
            *self = DownloadStrategy::new(config.task_speed());
            true
        } else {
            false
        }
    }
}

} // verus!
