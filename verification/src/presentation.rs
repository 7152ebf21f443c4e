use vstd::prelude::*;
use crate::stats::Stats;
use crate::window::{Micros, TimestampWindow, WINDOW_CAPACITY, sorted};

verus! {

/// Below (or at) this raw inter-press sum, in microseconds, the presented
/// average is the raw sum itself; strictly above it, the sum is divided by
/// the number of deltas. One hundredth of a second.
pub const AVG_DIVIDE_THRESHOLD_MICROS: u64 = 10_000;

/// Timing metrics derived from the retained window. The display sink derives
/// the instantaneous rate (1 / avg) and BPM (rate * 60) from `avg_micros`;
/// both are display-only and undefined when `avg_micros` is zero.
#[derive(Copy, Clone, Debug, PartialEq, Eq, Structural)]
pub struct TimingMetrics {
    /// Sum of (t - front) over every retained timestamp after the front.
    pub raw_sum_micros: u128,
    /// The raw sum, divided by (window length - 1) only when it strictly
    /// exceeds `AVG_DIVIDE_THRESHOLD_MICROS`; otherwise the raw sum itself.
    pub avg_micros: u128,
}

/// One rendered frame: the cumulative statistics, plus timing metrics when
/// the window retains at least one timestamp to anchor them.
#[derive(Copy, Clone, Debug)]
pub struct Frame {
    pub total: u32,
    pub combo: u32,
    pub score: u64,
    pub timing: Option<TimingMetrics>,
}

/// Sum of the deltas between each retained timestamp after the first and the
/// first one: `sum over 1 <= i < len of (w[i] - w[0])`.
pub open spec fn raw_sum(w: Seq<Micros>) -> int
    decreases w.len(),
{
    if w.len() <= 1 {
        0
    } else {
        raw_sum(w.drop_last()) + (w.last() - w[0])
    }
}

/// The presented average: the raw delta sum, divided by the number of deltas
/// only when it strictly exceeds the threshold (so single-entry or very
/// tightly clustered windows report the raw, undivided sum).
pub open spec fn avg_model(w: Seq<Micros>) -> int
    recommends
        w.len() >= 1,
{
    if raw_sum(w) > AVG_DIVIDE_THRESHOLD_MICROS {
        raw_sum(w) / (w.len() - 1)
    } else {
        raw_sum(w)
    }
}

/// The frame that presenting window contents `w` and statistics `s` yields.
pub open spec fn render_model(w: Seq<Micros>, s: Stats) -> Frame {
    Frame {
        total: s.total,
        combo: s.combo,
        score: s.score,
        timing: if w.len() == 0 {
            None
        } else {
            Some(
                TimingMetrics {
                    raw_sum_micros: raw_sum(w) as u128,
                    avg_micros: avg_model(w) as u128,
                },
            )
        },
    }
}

/// On a chronological window the raw delta sum is non-negative and bounded by
/// one maximal delta per retained entry after the first.
pub proof fn lemma_raw_sum_bounds(w: Seq<Micros>)
    requires
        sorted(w),
    ensures
        0 <= raw_sum(w),
        w.len() >= 1 ==> raw_sum(w) <= (w.len() - 1) * (u64::MAX as int),
    decreases w.len(),
{
    if w.len() > 1 {
        assert(sorted(w.drop_last())) by {
            assert(forall|i: int, j: int|
                0 <= i <= j < w.len() - 1 ==> #[trigger] w.drop_last()[i] <= #[trigger] w.drop_last()[j]);
        }
        lemma_raw_sum_bounds(w.drop_last());
        assert(w[0] <= w.last());
        assert((w.len() - 2) * (u64::MAX as int) + (u64::MAX as int) == (w.len() - 1) * (
        u64::MAX as int)) by (nonlinear_arith);
    }
}

/// Presentation stage: reads the window and statistics and derives the
/// metrics of the frame to display. Mutates nothing. An empty window yields
/// a frame with no timing metrics; a single retained timestamp yields a raw
/// sum of zero (the empty sum) and no division.
pub fn render_frame(window: &TimestampWindow, stats: &Stats) -> (frame: Frame)
    requires
        window.wf(),
        sorted(window@),
    ensures
        frame == render_model(window@, *stats),
{
    let n = window.len();
    if n == 0 {
        Frame { total: stats.total, combo: stats.combo, score: stats.score, timing: None }
    } else {
        let front = window.get(0);
        let mut sum: u128 = 0;
        let mut i: usize = 1;
        proof {
            assert(window@.take(1).len() == 1);
        }
        while i < n
            invariant
                window.wf(),
                sorted(window@),
                n == window@.len(),
                n <= WINDOW_CAPACITY,
                1 <= i <= n,
                front == window@[0],
                sum == raw_sum(window@.take(i as int)),
                sum <= (i - 1) * (u64::MAX as int),
            decreases n - i,
        {
            let t = window.get(i);
            proof {
                assert(window@[0] <= window@[i as int]);
                let p = window@.take(i + 1);
                assert(p.drop_last() =~= window@.take(i as int));
                assert(p.last() == window@[i as int] && p[0] == window@[0]);
                assert((i - 1) * (u64::MAX as int) + (u64::MAX as int) == i * (
                u64::MAX as int)) by (nonlinear_arith);
            }
            sum = sum + (t - front) as u128;
            i = i + 1;
        }
        proof {
            assert(window@.take(n as int) =~= window@);
            lemma_raw_sum_bounds(window@);
        }
        let avg: u128 = if sum > AVG_DIVIDE_THRESHOLD_MICROS as u128 {
            sum / ((n - 1) as u128)
        } else {
            sum
        };
        Frame {
            total: stats.total,
            combo: stats.combo,
            score: stats.score,
            timing: Some(TimingMetrics { raw_sum_micros: sum, avg_micros: avg }),
        }
    }
}

}
