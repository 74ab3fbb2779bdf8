//! What a download manager decides while it watches a download: the
//! figures behind the reported speed, and which callback ends the watch.

use vstd::prelude::*;
use crate::status::{Error, Status};

verus! {

/// After this many ticks in a row without a byte the reported speed drops
/// to 0.
pub const IDLE_TICKS_BEFORE_RESET: u8 = 3;

/// What a monitor hands to the smoothing of the speed at one tick.
#[derive(Debug, Clone, Copy, PartialEq, Eq, Structural)]
pub struct SpeedTick {
    /// The bytes downloaded so far.
    pub downloaded: u64,
    /// The bytes that arrived since the tick before.
    pub instant_speed: u64,
    /// The bytes that arrived between the two ticks before.
    pub last_instant_speed: u64,
    /// Whether the smoothed speed is set back to 0 at this tick.
    pub reset: bool,
}

/// The bookkeeping of a progress monitor between its one-second ticks.
#[derive(Debug)]
pub struct SpeedMonitor {
    last: u64,
    last_instant_speed: u64,
    idle_ticks: u8,
}

impl SpeedMonitor {
    /// The byte count at the last tick.
    pub closed spec fn spec_last(&self) -> u64 {
        self.last
    }

    /// The bytes that arrived between the last two ticks.
    pub closed spec fn spec_last_instant_speed(&self) -> u64 {
        self.last_instant_speed
    }

    /// The ticks in a row, up to now, at which the mean of the last two
    /// instant speeds was 0; counting stops at 255.
    pub closed spec fn spec_idle_ticks(&self) -> u8 {
        self.idle_ticks
    }

    /// A monitor that starts watching at `downloaded` bytes.
    pub fn new(downloaded: u64) -> (r: Self)
        ensures
            r.spec_last() == downloaded,
            r.spec_last_instant_speed() == 0,
            r.spec_idle_ticks() == 0,
    {
        Self { last: downloaded, last_instant_speed: 0, idle_ticks: 0 }
    }

    /// The byte count at the last tick.
    pub fn last(&self) -> (r: u64)
        ensures
            r == self.spec_last(),
    {
        self.last
    }

    /// One tick: `current` bytes are downloaded now. Returns the two
    /// instant speeds whose mean is smoothed, and whether the smoothed
    /// speed is set back to 0, which happens at the third tick in a row at
    /// which that mean is 0.
    pub fn tick(&mut self, current: u64) -> (r: SpeedTick)
        requires
            current >= old(self).spec_last(),
        ensures
            r.downloaded == current,
            r.instant_speed == current - old(self).spec_last(),
            r.last_instant_speed == old(self).spec_last_instant_speed(),
            final(self).spec_last() == current,
            final(self).spec_last_instant_speed() == r.instant_speed,
            final(self).spec_idle_ticks() == if r.instant_speed == 0 && r.last_instant_speed
                == 0 {
                if old(self).spec_idle_ticks() < u8::MAX {
                    (old(self).spec_idle_ticks() + 1) as u8
                } else {
                    u8::MAX
                }
            } else {
                0u8
            },
            r.reset == (final(self).spec_idle_ticks() == IDLE_TICKS_BEFORE_RESET),
    {
        let instant_speed: u64 = current - self.last;
        let last_instant_speed: u64 = self.last_instant_speed;
        if instant_speed == 0 && last_instant_speed == 0 {
            if self.idle_ticks < u8::MAX {
                self.idle_ticks = self.idle_ticks + 1;
            }
        } else {
            self.idle_ticks = 0;
        }
        self.last = current;
        self.last_instant_speed = instant_speed;
        SpeedTick {
            downloaded: current,
            instant_speed,
            last_instant_speed,
            reset: self.idle_ticks == IDLE_TICKS_BEFORE_RESET,
        }
    }

    /// The bytes that arrived since the last tick, for the report that
    /// closes the watch.
    pub fn final_speed(&self, current: u64) -> (r: u64)
        requires
            current >= self.spec_last(),
        ensures
            r == current - self.spec_last(),
    {
        current - self.last
    }
}

/// How a watch ends.
#[derive(Debug)]
pub enum TerminalEvent {
    Completed,
    Failed(Error),
    Canceled,
}

/// The callback that a final status calls for: a download that is
/// complete, failed or canceled has one, any other has none.
pub open spec fn spec_terminal_event(status: Status) -> Option<TerminalEvent> {
    match status {
        Status::Completed => Some(TerminalEvent::Completed),
        Status::Failed(err) => Some(TerminalEvent::Failed(err)),
        Status::Canceled => Some(TerminalEvent::Canceled),
        _ => None,
    }
}

/// Chooses the callback for the status that a download ended with.
pub fn terminal_event(status: Status) -> (r: Option<TerminalEvent>)
    ensures
        r == spec_terminal_event(status),
{
    match status {
        Status::Completed => Some(TerminalEvent::Completed),
        Status::Failed(err) => Some(TerminalEvent::Failed(err)),
        Status::Canceled => Some(TerminalEvent::Canceled),
        _ => None,
    }
}

} // verus!
