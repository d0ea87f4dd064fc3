//! The greeting round: every two seconds the players are greeted.
//!
//! The rounds are counted by the engine's repeating timer, which is run on
//! the plain numbers that a [`GreetTimer`] holds.

use crate::player::{key_of, PlayerIndex, PlayerRegistry};
use crate::table::sorted_keys;
use bevy::time::{Timer, TimerMode};
use std::time::Duration;
use vstd::prelude::*;

verus! {

/// The greeting period in nanoseconds.
pub const GREET_PERIOD: u64 = 2_000_000_000;

/// A repeating timer that counts nanoseconds toward its period.
#[derive(Clone, Copy, Debug, PartialEq, Eq, Structural)]
pub struct GreetTimer {
    elapsed: u64,
    period: u64,
}

/// The part of the game that greets.
#[derive(Clone, Copy, Debug, PartialEq, Eq, Structural)]
pub struct HelloPlugin;

/// Runs `bevy::time::Timer::tick` on a repeating timer of `period`
/// nanoseconds that has counted `elapsed` of them, for a step of `delta`
/// nanoseconds, and returns what the timer has counted after the step and
/// whether `just_finished` holds. Not proved: that the engine's timer
/// carries the remainder of the count over into the next round and reports
/// a finished round exactly when the count reached the period. The engine
/// divides by the period and keeps the number of rounds in 32 bits, so the
/// period must not be zero and the rounds must fit.
#[verifier::external_body]
fn repeating_tick(elapsed: u64, period: u64, delta: u64) -> (r: (u64, bool))
    requires
        period > 0,
        (elapsed + delta) / (period as int) <= u32::MAX,
    ensures
        r.0 == (elapsed + delta) % (period as int),
        r.1 == (elapsed + delta >= period),
{
    let mut timer = Timer::new(Duration::from_nanos(period), TimerMode::Repeating);
    timer.set_elapsed(Duration::from_nanos(elapsed));
    timer.tick(Duration::from_nanos(delta));
    (timer.elapsed().as_nanos() as u64, timer.just_finished())
}

impl GreetTimer {
    /// Nanoseconds counted since the timer last finished.
    pub closed spec fn elapsed(&self) -> u64 {
        self.elapsed
    }

    /// The length of one round in nanoseconds.
    pub closed spec fn period(&self) -> u64 {
        self.period
    }

    /// The period is positive and the count is below it.
    pub open spec fn wf(&self) -> bool {
        0 < self.period() && self.elapsed() < self.period()
    }

    /// Whether `delta` more nanoseconds complete a round.
    pub open spec fn finishes(&self, delta: u64) -> bool {
        self.elapsed() + delta >= self.period()
    }

    /// The rounds that `delta` more nanoseconds complete.
    pub open spec fn rounds(&self, delta: u64) -> int {
        (self.elapsed() + delta) / (self.period() as int)
    }

    /// Whether the timer can be advanced by `delta` nanoseconds: it counts
    /// the rounds of one step in 32 bits.
    pub open spec fn countable(&self, delta: u64) -> bool {
        self.rounds(delta) <= u32::MAX
    }

    /// A timer at the start of a round of `period` nanoseconds, or nothing
    /// where the period is zero.
    pub fn new(period: u64) -> (r: Option<GreetTimer>)
        ensures
            r.is_some() == (period > 0),
            r matches Some(t) ==> t.wf() && t.period() == period && t.elapsed() == 0,
    {
        if period > 0 {
            Some(GreetTimer { elapsed: 0, period })
        } else {
            None
        }
    }

    /// Advances the timer by `delta` nanoseconds. Returns whether a round
    /// was completed; what is left over counts toward the next round.
    pub fn tick(&mut self, delta: u64) -> (finished: bool)
        requires
            old(self).wf(),
            old(self).countable(delta),
        ensures
            final(self).wf(),
            final(self).period() == old(self).period(),
            final(self).elapsed() == (old(self).elapsed() + delta) % (old(self).period() as int),
            finished == old(self).finishes(delta),
    {
        let (rest, finished) = repeating_tick(self.elapsed, self.period, delta);
        self.elapsed = rest;
        finished
    }

    /// Whether the timer can be advanced by `delta` nanoseconds.
    pub fn can_tick(&self, delta: u64) -> (r: bool)
        requires
            self.wf(),
        ensures
            r == self.countable(delta),
    {
        let total: u128 = self.elapsed as u128 + delta as u128;
        total / (self.period as u128) <= 0xffff_ffffu128
    }
}

impl HelloPlugin {
    /// The timer with which the greeting starts: at the beginning of a
    /// round of two seconds.
    pub fn build(&self) -> (timer: GreetTimer)
        ensures
            timer.wf(),
            timer.period() == GREET_PERIOD,
            timer.elapsed() == 0,
    {
        GreetTimer { elapsed: 0, period: GREET_PERIOD }
    }
}

/// Advances the greeting timer by `delta` nanoseconds. When a round is
/// completed, every player is due a greeting: returns their indices in
/// ascending order. Otherwise returns none.
pub fn greet_people(delta: u64, timer: &mut GreetTimer, players: &PlayerRegistry) -> (greeted: Vec<
    PlayerIndex,
>)
    requires
        old(timer).wf(),
        old(timer).countable(delta),
        players.wf(),
    ensures
        final(timer).wf(),
        final(timer).period() == old(timer).period(),
        final(timer).elapsed() == (old(timer).elapsed() + delta) % (old(timer).period() as int),
        greeted@.len() == (if old(timer).finishes(delta) {
            sorted_keys(players@.dom()).len()
        } else {
            0
        }),
        forall|i: int|
            0 <= i < greeted@.len() ==> key_of(#[trigger] greeted@[i]) == sorted_keys(
                players@.dom(),
            )[i],
{
    if timer.tick(delta) {
        players.index_list()
    } else {
        Vec::new()
    }
}

} // verus!
