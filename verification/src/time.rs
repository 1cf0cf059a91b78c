//! Frame time, in milliseconds. The clock is read by the caller.

use vstd::prelude::*;

verus! {

/// The time that a frame is taken to have lasted before any has been
/// measured: a sixtieth of a second.
pub const DEFAULT_DELTA_TIME: u128 = 16;

/// When the game started, when the last frame began, and how long the
/// frame before it lasted.
#[derive(Clone, Copy, Debug, PartialEq, Eq, Structural)]
pub struct GameTime {
    start_time: u128,
    delta_time: u128,
    last_time: u128,
}

impl GameTime {
    /// When the game started.
    pub closed spec fn start_time(self) -> int {
        self.start_time as int
    }

    /// How long the last frame lasted.
    pub closed spec fn delta_time(self) -> int {
        self.delta_time as int
    }

    /// When the last frame began.
    pub closed spec fn last_time(self) -> int {
        self.last_time as int
    }

    /// The time of a game that starts at `now`.
    pub fn new(now: u128) -> (r: GameTime)
        ensures
            r.start_time() == now,
            r.last_time() == now,
            r.delta_time() == DEFAULT_DELTA_TIME,
    {
        GameTime { start_time: now, delta_time: DEFAULT_DELTA_TIME, last_time: now }
    }

    /// Takes in that a frame begins at `now`.
    pub fn pre_update(&mut self, now: u128)
        requires
            old(self).last_time() <= now,
        ensures
            final(self).delta_time() == now - old(self).last_time(),
            final(self).last_time() == now,
            final(self).start_time() == old(self).start_time(),
    {
        self.delta_time = now - self.last_time;
        self.last_time = now;
    }

    /// When the last frame began.
    pub fn get_last_time(&self) -> (r: u128)
        ensures
            r == self.last_time(),
    {
        self.last_time
    }

    /// How long the game has run at `now`.
    pub fn get_time_from_start(&self, now: u128) -> (r: u128)
        requires
            self.start_time() <= now,
        ensures
            r == now - self.start_time(),
    {
        now - self.start_time
    }

    /// How long the last frame lasted.
    pub fn get_delta_time(&self) -> (r: u128)
        ensures
            r == self.delta_time(),
    {
        self.delta_time
    }
}

} // verus!
