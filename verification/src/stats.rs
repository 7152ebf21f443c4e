use vstd::prelude::*;
use crate::window::{Micros, TimestampWindow, push_model};

verus! {

/// A press this long (strictly) after the previous one breaks the streak:
/// one second, in microseconds.
pub const GAP_RESET_MICROS: u64 = 1_000_000;

/// Cumulative press statistics. `total` counts every press; `combo` is the
/// current streak, reset by a long gap; `score` grows by the post-increment
/// combo value on every press.
#[derive(Copy, Clone, Debug, PartialEq, Eq, Structural)]
pub struct Stats {
    pub total: u32,
    pub combo: u32,
    pub score: u64,
}

impl Default for Stats {
    /// The startup statistics: all counters zero.
    fn default() -> (r: Self)
        ensures
            r == (Stats { total: 0, combo: 0, score: 0 }),
    {
        Stats { total: 0, combo: 0, score: 0 }
    }
}

/// Whether a press at `now` breaks the streak: the window retains a previous
/// press and the gap since it strictly exceeds `GAP_RESET_MICROS`. A press no
/// later than the previous one (a clock anomaly) has a non-positive gap and
/// never breaks the streak.
pub open spec fn streak_broken(window: Seq<Micros>, now: Micros) -> bool {
    window.len() > 0 && now > window.last() + GAP_RESET_MICROS
}

/// The streak counter after a press at `now`: reset to zero first when the
/// streak broke, then incremented for the press itself.
pub open spec fn combo_after(window: Seq<Micros>, combo: u32, now: Micros) -> int {
    if streak_broken(window, now) {
        1
    } else {
        combo + 1
    }
}

/// The mutable state the stages share each tick: the timestamp window and the
/// cumulative statistics. The aggregation stage is its only writer; the
/// presentation stage only reads it.
pub struct SharedState {
    pub window: TimestampWindow,
    pub stats: Stats,
}

impl SharedState {
    pub open spec fn wf(&self) -> bool {
        self.window.wf()
    }

    pub fn new() -> (s: Self)
        ensures
            s.wf(),
            s.window@ == Seq::<Micros>::empty(),
            s.stats == (Stats { total: 0, combo: 0, score: 0 }),
    {
        SharedState { window: TimestampWindow::new(), stats: Stats::default() }
    }

    /// Aggregates one semantic press event observed at `now`, in event order:
    /// a gap of more than `GAP_RESET_MICROS` since the most recent retained
    /// press resets the streak before the press is recorded; then the press
    /// timestamp is pushed (evicting the oldest entry at capacity), the
    /// streak is incremented, the score grows by the post-increment streak,
    /// and the total press count grows by one.
    pub fn on_event(&mut self, now: Micros)
        requires
            old(self).wf(),
            old(self).stats.total < u32::MAX,
            old(self).stats.combo < u32::MAX,
            old(self).stats.score + old(self).stats.combo + 1 <= u64::MAX,
        ensures
            final(self).wf(),
            final(self).window@ == push_model(old(self).window@, now),
            final(self).stats.combo == combo_after(old(self).window@, old(self).stats.combo, now),
            final(self).stats.total == old(self).stats.total + 1,
            final(self).stats.score == old(self).stats.score + final(self).stats.combo,
    {
        let broken = match self.window.back() {
            Some(last) => last < now && now - last > GAP_RESET_MICROS,
            None => false,
        };
        if broken {
            self.stats.combo = 0;
        }
        self.window.push(now);
        self.stats.combo = self.stats.combo + 1;
        self.stats.score = self.stats.score + self.stats.combo as u64;
        self.stats.total = self.stats.total + 1;
    }
}

}
