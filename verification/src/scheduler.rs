use vstd::prelude::*;
use crate::capture::{lemma_mapped_events_len, map_raw_keys, mapped_events};
use crate::keymap::{Keymap, SemanticEvent};
use crate::presentation::{Frame, render_frame, render_model};
use crate::stats::{SharedState, Stats, streak_broken};
use crate::window::{Micros, lemma_push_model_preserves_sorted, push_model, sorted};

verus! {

/// Ghost model of the aggregation state: the three counters as unbounded
/// integers, plus the retained window contents.
pub struct AggModel {
    pub total: int,
    pub combo: int,
    pub score: int,
    pub window: Seq<Micros>,
}

/// The model a concrete `Stats` and window hold.
pub open spec fn agg_model(s: Stats, w: Seq<Micros>) -> AggModel {
    AggModel { total: s.total as int, combo: s.combo as int, score: s.score as int, window: w }
}

/// One aggregated press at `now`, on the model.
pub open spec fn step_model(m: AggModel, now: Micros) -> AggModel {
    let c: int = if streak_broken(m.window, now) {
        1
    } else {
        m.combo + 1
    };
    AggModel {
        total: m.total + 1,
        combo: c,
        score: m.score + c,
        window: push_model(m.window, now),
    }
}

/// `k` presses at `now`, aggregated in order, on the model.
pub open spec fn run_model(m: AggModel, k: nat, now: Micros) -> AggModel
    decreases k,
{
    if k == 0 {
        m
    } else {
        step_model(run_model(m, (k - 1) as nat, now), now)
    }
}

/// Counter growth bounds over a run: the total grows by exactly one per
/// press, the streak by at most one per press, and the score by at most the
/// largest streak per press.
pub proof fn lemma_run_model_bounds(m: AggModel, k: nat, now: Micros)
    requires
        m.total >= 0,
        m.combo >= 0,
        m.score >= 0,
    ensures
        run_model(m, k, now).total == m.total + k,
        run_model(m, k, now).combo >= 0,
        run_model(m, k, now).combo <= m.combo + k,
        run_model(m, k, now).score >= m.score,
        run_model(m, k, now).score <= m.score + k * (m.combo + k),
    decreases k,
{
    if k > 0 {
        lemma_run_model_bounds(m, (k - 1) as nat, now);
        let kk = k as int;
        let c0 = m.combo;
        assert((kk - 1) * (c0 + kk - 1) + (c0 + kk) <= kk * (c0 + kk)) by (nonlinear_arith)
            requires
                kk >= 1,
                c0 >= 0,
        ;
    }
}

/// The fixed-order tick scheduler and the shared resources it drives: the
/// startup keymap, and the window/statistics pair. Each tick runs capture
/// mapping, then aggregation of every produced event in order, then
/// presentation; the aggregation stage is the only writer of the shared
/// state within a tick, and presentation reads it only afterwards.
pub struct TickScheduler {
    pub keymap: Keymap,
    pub shared: SharedState,
}

impl TickScheduler {
    /// Well-formed scheduler state: a well-formed window whose retained
    /// timestamps are in chronological order.
    pub open spec fn wf(&self) -> bool {
        self.shared.wf() && sorted(self.shared.window@)
    }

    /// Fresh startup state: zeroed statistics, empty window, and the default
    /// keymap.
    pub fn new() -> (s: Self)
        ensures
            s.wf(),
            s.shared.window@ == Seq::<Micros>::empty(),
            s.shared.stats == (Stats { total: 0, combo: 0, score: 0 }),
            s.keymap.bindings@.len() == 2,
            s.keymap.bindings@[0] == ('x', SemanticEvent::Press),
            s.keymap.bindings@[1] == ('b', SemanticEvent::Press),
    {
        TickScheduler { keymap: Keymap::default(), shared: SharedState::new() }
    }

    /// One tick at time `now`, fed the raw keys drained from the terminal in
    /// arrival order. Maps the keys through the keymap (unmapped keys are
    /// discarded), aggregates each resulting press in order at `now`, and
    /// then renders the frame from the state the aggregation left — the
    /// returned frame always reflects every press of this tick.
    ///
    /// The counter bounds in `requires` keep the u32/u64 counters from
    /// overflowing; the caller contract `now` at or after every retained
    /// timestamp is what keeps the window chronological (a clock anomaly
    /// must be clamped by the caller).
    pub fn tick(&mut self, raw: &Vec<char>, now: Micros) -> (frame: Frame)
        requires
            old(self).wf(),
            old(self).shared.window@.len() == 0 || old(self).shared.window@.last() <= now,
            old(self).shared.stats.total + raw@.len() <= u32::MAX,
            old(self).shared.stats.combo + raw@.len() <= u32::MAX,
            old(self).shared.stats.score + raw@.len() * (old(self).shared.stats.combo
                + raw@.len()) <= u64::MAX,
        ensures
            final(self).wf(),
            final(self).keymap == old(self).keymap,
            agg_model(final(self).shared.stats, final(self).shared.window@) == run_model(
                agg_model(old(self).shared.stats, old(self).shared.window@),
                mapped_events(old(self).keymap.bindings@, raw@).len(),
                now,
            ),
            frame == render_model(final(self).shared.window@, final(self).shared.stats),
            final(self).shared.window@.len() == 0 || final(self).shared.window@.last() <= now,
    {
        let events = map_raw_keys(&self.keymap, raw);
        let ghost m0 = agg_model(self.shared.stats, self.shared.window@);
        proof {
            lemma_mapped_events_len(self.keymap.bindings@, raw@);
        }
        let k = events.len();
        let mut i: usize = 0;
        while i < k
            invariant
                self.keymap == old(self).keymap,
                self.shared.wf(),
                sorted(self.shared.window@),
                self.shared.window@.len() == 0 || self.shared.window@.last() <= now,
                i <= k,
                k == events@.len(),
                k <= raw@.len(),
                events@ == mapped_events(old(self).keymap.bindings@, raw@),
                m0 == agg_model(old(self).shared.stats, old(self).shared.window@),
                agg_model(self.shared.stats, self.shared.window@) == run_model(
                    m0,
                    i as nat,
                    now,
                ),
                m0.total + raw@.len() <= u32::MAX,
                m0.combo + raw@.len() <= u32::MAX,
                m0.score + raw@.len() * (m0.combo + raw@.len()) <= u64::MAX,
            decreases k - i,
        {
            proof {
                lemma_run_model_bounds(m0, i as nat, now);
                let ii = i as int;
                let c0 = m0.combo;
                let n = raw@.len() as int;
                assert(ii * (c0 + ii) + (c0 + ii + 1) <= (ii + 1) * (c0 + ii + 1))
                    by (nonlinear_arith)
                    requires
                        ii >= 0,
                        c0 >= 0,
                ;
                assert((ii + 1) * (c0 + ii + 1) <= n * (c0 + n)) by (nonlinear_arith)
                    requires
                        0 <= ii,
                        ii + 1 <= n,
                        c0 >= 0,
                ;
                lemma_push_model_preserves_sorted(self.shared.window@, now);
            }
            self.shared.on_event(now);
            i = i + 1;
            proof {
                assert(agg_model(self.shared.stats, self.shared.window@) == run_model(
                    m0,
                    i as nat,
                    now,
                ));
            }
        }
        render_frame(&self.shared.window, &self.shared.stats)
    }
}

}
