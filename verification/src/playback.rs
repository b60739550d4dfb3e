//! Time-driven pacing of automatic stepping, plus manual step and undo.
//!
//! Time is carried in integer microseconds and the stepping rate as an exact
//! rational `rate_num / rate_den` generations per second, so the pacing rule
//! is stated and proved without rounding. At most one generation is committed
//! per tick; when one is, the accumulator resets to zero rather than carrying
//! a backlog, so a long stall can never queue unbounded catch-up work.

use vstd::prelude::*;
use crate::game::GameOfLife;
use crate::game::next_grid;
use crate::history::HistoryBuffer;
use crate::history::pushed;

verus! {

/// Largest numerator or denominator accepted for the stepping rate.
pub const MAX_RATE_PART: u64 = 1_000_000;

/// Largest time delta accepted by one tick, in microseconds.
pub const MAX_TICK_MICROS: u64 = 1_000_000_000_000;

/// Play/pause state, the stepping rate, the elapsed-time accumulator, and
/// the generation counter.
pub struct PlaybackController {
    pub is_playing: bool,
    pub rate_num: u64,
    pub rate_den: u64,
    pub time_accumulator_micros: u64,
    pub generation_count: usize,
}

impl PlaybackController {
    /// The rate is a positive rational with bounded parts, and the
    /// accumulator never exceeds one stepping period's worth of backlog.
    pub open spec fn wf(self) -> bool {
        &&& 1 <= self.rate_num <= MAX_RATE_PART
        &&& 1 <= self.rate_den <= MAX_RATE_PART
        &&& self.time_accumulator_micros <= MAX_TICK_MICROS
    }

    /// A tick of `dt` microseconds is due to commit a step exactly when the
    /// accumulated time reaches one period, i.e. `acc + dt >= 10^6 * den/num`
    /// microseconds, stated here without division.
    pub open spec fn step_due(self, dt_micros: u64) -> bool {
        (self.time_accumulator_micros + dt_micros) * self.rate_num >= 1_000_000 * self.rate_den
    }

    /// A paused controller at generation zero, stepping 5 generations per
    /// second once playing.
    pub fn new() -> (p: PlaybackController)
        ensures
            p.wf(),
            !p.is_playing,
            p.rate_num == 5,
            p.rate_den == 1,
            p.time_accumulator_micros == 0,
            p.generation_count == 0,
    {
        PlaybackController {
            is_playing: false,
            rate_num: 5,
            rate_den: 1,
            time_accumulator_micros: 0,
            generation_count: 0,
        }
    }

    /// Flip between `Paused` and `Running`, unconditionally.
    pub fn toggle_play(&mut self)
        ensures
            final(self).is_playing == !old(self).is_playing,
            final(self).rate_num == old(self).rate_num,
            final(self).rate_den == old(self).rate_den,
            final(self).time_accumulator_micros == old(self).time_accumulator_micros,
            final(self).generation_count == old(self).generation_count,
    {
        self.is_playing = !self.is_playing;
    }

    pub fn is_playing(&self) -> (r: bool)
        ensures
            r == self.is_playing,
    {
        self.is_playing
    }

    pub fn generation_count(&self) -> (n: usize)
        ensures
            n == self.generation_count,
    {
        self.generation_count
    }

    /// Set the stepping rate to `num / den` generations per second.
    pub fn set_rate(&mut self, num: u64, den: u64)
        requires
            old(self).wf(),
            1 <= num <= MAX_RATE_PART,
            1 <= den <= MAX_RATE_PART,
        ensures
            final(self).wf(),
            final(self).rate_num == num,
            final(self).rate_den == den,
            final(self).is_playing == old(self).is_playing,
            final(self).time_accumulator_micros == old(self).time_accumulator_micros,
            final(self).generation_count == old(self).generation_count,
    {
        self.rate_num = num;
        self.rate_den = den;
    }

    /// Commit one generation: snapshot the board into the history, step the
    /// board, and count the generation.
    pub fn step_forward(&mut self, game: &mut GameOfLife, history: &mut HistoryBuffer)
        requires
            old(self).wf(),
            old(game).wf(),
            old(history).wf(),
            old(self).generation_count < usize::MAX,
        ensures
            final(self).wf(),
            final(game).wf(),
            final(history).wf(),
            final(self).generation_count == old(self).generation_count + 1,
            final(self).is_playing == old(self).is_playing,
            final(self).rate_num == old(self).rate_num,
            final(self).rate_den == old(self).rate_den,
            final(self).time_accumulator_micros == old(self).time_accumulator_micros,
            final(game).rows == old(game).rows,
            final(game).cols == old(game).cols,
            final(game)@ == next_grid(old(game)@),
            final(history).capacity == old(history).capacity,
            final(history)@ == pushed(old(history)@, old(history).capacity as nat, old(game)@),
    {
        let snap = game.snapshot();
        history.push(snap);
        game.next_generation();
        self.generation_count = self.generation_count + 1;
    }

    /// Undo one committed generation: restore the newest snapshot, if any.
    /// With no generation committed, or an empty history, this is a no-op.
    pub fn step_backward(&mut self, game: &mut GameOfLife, history: &mut HistoryBuffer)
        requires
            old(self).wf(),
            old(game).wf(),
            old(history).wf(),
        ensures
            final(self).wf(),
            final(game).wf(),
            final(history).wf(),
            final(self).is_playing == old(self).is_playing,
            final(self).rate_num == old(self).rate_num,
            final(self).rate_den == old(self).rate_den,
            final(self).time_accumulator_micros == old(self).time_accumulator_micros,
            final(history).capacity == old(history).capacity,
            (old(self).generation_count == 0 || old(history)@.len() == 0) ==> (
                final(self).generation_count == old(self).generation_count
                    && *final(game) == *old(game)
                    && final(history)@ == old(history)@
            ),
            (old(self).generation_count > 0 && old(history)@.len() > 0) ==> (
                final(self).generation_count == old(self).generation_count - 1
                    && final(game)@ == old(history)@.last()
                    && final(history)@ == old(history)@.drop_last()
            ),
    {
        if self.generation_count > 0 {
            let popped = history.pop();
            match popped {
                Some(prev) => {
                    *game = prev;
                    self.generation_count = self.generation_count - 1;
                }
                None => {}
            }
        }
    }

    /// Advance elapsed time by `dt_micros` while `Running`. When a full
    /// stepping period has accumulated, commit exactly one generation and
    /// reset the accumulator to zero — deliberately shedding any backlog so
    /// a slow frame or a resumed session cannot trigger runaway catch-up.
    /// While `Paused`, nothing changes.
    pub fn tick(&mut self, dt_micros: u64, game: &mut GameOfLife, history: &mut HistoryBuffer)
        -> (stepped: bool)
        requires
            old(self).wf(),
            old(game).wf(),
            old(history).wf(),
            dt_micros <= MAX_TICK_MICROS,
            old(self).is_playing ==> old(self).generation_count < usize::MAX,
        ensures
            final(self).wf(),
            final(game).wf(),
            final(history).wf(),
            final(self).is_playing == old(self).is_playing,
            final(self).rate_num == old(self).rate_num,
            final(self).rate_den == old(self).rate_den,
            final(history).capacity == old(history).capacity,
            stepped == (old(self).is_playing && old(self).step_due(dt_micros)),
            !old(self).is_playing ==> (
                *final(self) == *old(self)
                    && *final(game) == *old(game)
                    && final(history)@ == old(history)@
            ),
            (old(self).is_playing && !old(self).step_due(dt_micros)) ==> (
                final(self).time_accumulator_micros
                    == old(self).time_accumulator_micros + dt_micros
                    && final(self).generation_count == old(self).generation_count
                    && *final(game) == *old(game)
                    && final(history)@ == old(history)@
            ),
            stepped ==> (
                final(self).time_accumulator_micros == 0
                    && final(self).generation_count == old(self).generation_count + 1
                    && final(game).rows == old(game).rows
                    && final(game).cols == old(game).cols
                    && final(game)@ == next_grid(old(game)@)
                    && final(history)@
                        == pushed(old(history)@, old(history).capacity as nat, old(game)@)
            ),
    {
        if !self.is_playing {
            return false;
        }
        let acc2: u64 = self.time_accumulator_micros + dt_micros;
        proof {
            assert((acc2 as int) * (self.rate_num as int) <= u128::MAX as int) by (nonlinear_arith)
                requires
                    acc2 <= u64::MAX,
                    self.rate_num <= u64::MAX,
            ;
        }
        let due = (acc2 as u128) * (self.rate_num as u128)
            >= 1_000_000u128 * (self.rate_den as u128);
        if due {
            self.step_forward(game, history);
            self.time_accumulator_micros = 0;
            true
        } else {
            proof {
                assert(acc2 <= 1_000_000_000_000u64) by (nonlinear_arith)
                    requires
                        (acc2 as int) * (self.rate_num as int)
                            < 1_000_000 * (self.rate_den as int),
                        1 <= self.rate_num,
                        self.rate_den <= 1_000_000,
                ;
            }
            self.time_accumulator_micros = acc2;
            false
        }
    }
}

} // verus!
