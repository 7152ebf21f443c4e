use vstd::prelude::*;

verus! {

/// Fixed capacity of the sliding timestamp window: only this many of the most
/// recent press timestamps are ever retained.
pub const WINDOW_CAPACITY: usize = 8;

/// Timestamps are measured in integer microseconds from an arbitrary origin
/// (the display loop uses process start); one second is 1_000_000 of them.
pub type Micros = u64;

/// A sequence is in chronological (non-decreasing) order.
pub open spec fn sorted(s: Seq<Micros>) -> bool {
    forall|i: int, j: int| 0 <= i <= j < s.len() ==> #[trigger] s[i] <= #[trigger] s[j]
}

/// What one push does to the retained sequence: append, evicting the oldest
/// entry first when the window is already at capacity.
pub open spec fn push_model(w: Seq<Micros>, t: Micros) -> Seq<Micros> {
    if w.len() < WINDOW_CAPACITY {
        w.push(t)
    } else {
        w.drop_first().push(t)
    }
}

/// The suffix of at most `WINDOW_CAPACITY` most recent elements of a push
/// history.
pub open spec fn recent_suffix(pushes: Seq<Micros>) -> Seq<Micros> {
    if pushes.len() <= WINDOW_CAPACITY {
        pushes
    } else {
        pushes.skip(pushes.len() - WINDOW_CAPACITY as int)
    }
}

/// Fixed-capacity ring buffer of event timestamps. Entries are kept in
/// insertion order; pushing onto a full window overwrites the oldest entry.
///
/// The view is the retained sequence, oldest first.
pub struct TimestampWindow {
    /// Backing storage; once it has grown to `WINDOW_CAPACITY` entries its
    /// length never changes again and `start` marks the oldest slot.
    items: Vec<Micros>,
    /// Index of the oldest retained entry once the buffer is full; 0 before.
    start: usize,
    /// Every timestamp ever pushed, in push order (ghost bookkeeping only).
    hist: Ghost<Seq<Micros>>,
}

impl View for TimestampWindow {
    type V = Seq<Micros>;

    closed spec fn view(&self) -> Seq<Micros> {
        if self.items@.len() < WINDOW_CAPACITY {
            self.items@
        } else {
            self.items@.subrange(self.start as int, self.items@.len() as int)
                + self.items@.subrange(0, self.start as int)
        }
    }
}

impl TimestampWindow {
    /// The full history of pushed timestamps, in push order.
    pub closed spec fn history(&self) -> Seq<Micros> {
        self.hist@
    }

    /// Structural invariant of the ring representation, together with the
    /// recency invariant: the retained sequence is exactly the suffix of at
    /// most `WINDOW_CAPACITY` most recent pushes.
    pub closed spec fn wf(&self) -> bool {
        &&& self.items@.len() <= WINDOW_CAPACITY
        &&& self.start < WINDOW_CAPACITY
        &&& (self.items@.len() < WINDOW_CAPACITY ==> self.start == 0)
        &&& self@ == recent_suffix(self.hist@)
    }

    /// Window bound and recency law: however many timestamps were ever
    /// pushed, a well-formed window retains no more than `WINDOW_CAPACITY`
    /// of them, and what it retains is exactly the most recent pushes, in
    /// push order.
    pub proof fn lemma_recent_contents(&self)
        requires
            self.wf(),
        ensures
            self@.len() <= WINDOW_CAPACITY,
            self@ == recent_suffix(self.history()),
    {
    }

    pub fn new() -> (w: Self)
        ensures
            w.wf(),
            w@ == Seq::<Micros>::empty(),
            w.history() == Seq::<Micros>::empty(),
    {
        TimestampWindow { items: Vec::new(), start: 0, hist: Ghost(Seq::empty()) }
    }

    pub fn len(&self) -> (n: usize)
        requires
            self.wf(),
        ensures
            n == self@.len(),
            n <= WINDOW_CAPACITY,
    {
        self.items.len()
    }

    /// Retained timestamp at chronological position `i` (0 is the oldest).
    pub fn get(&self, i: usize) -> (t: Micros)
        requires
            self.wf(),
            i < self@.len(),
        ensures
            t == self@[i as int],
    {
        if self.items.len() < WINDOW_CAPACITY {
            self.items[i]
        } else {
            let j = if i < WINDOW_CAPACITY - self.start {
                self.start + i
            } else {
                i - (WINDOW_CAPACITY - self.start)
            };
            self.items[j]
        }
    }

    /// Earliest retained timestamp, if any.
    pub fn front(&self) -> (r: Option<Micros>)
        requires
            self.wf(),
        ensures
            r == (if self@.len() == 0 {
                Option::<Micros>::None
            } else {
                Option::<Micros>::Some(self@[0])
            }),
    {
        if self.items.len() == 0 {
            None
        } else {
            Some(self.get(0))
        }
    }

    /// Most recent retained timestamp, if any.
    pub fn back(&self) -> (r: Option<Micros>)
        requires
            self.wf(),
        ensures
            r == (if self@.len() == 0 {
                Option::<Micros>::None
            } else {
                Option::<Micros>::Some(self@.last())
            }),
    {
        if self.items.len() == 0 {
            None
        } else {
            Some(self.get(self.items.len() - 1))
        }
    }

    /// Appends `t`; when the window is already at capacity the oldest entry is
    /// evicted first.
    pub fn push(&mut self, t: Micros)
        requires
            old(self).wf(),
        ensures
            final(self).wf(),
            final(self)@ == push_model(old(self)@, t),
            final(self)@.len() <= WINDOW_CAPACITY,
            final(self).history() == old(self).history().push(t),
    {
        proof {
            lemma_push_keeps_recent(self.hist@, t);
        }
        self.hist = Ghost(self.hist@.push(t));
        if self.items.len() < WINDOW_CAPACITY {
            self.items.push(t);
            if self.items.len() == WINDOW_CAPACITY {
                proof {
                    assert(self@ =~= old(self)@.push(t));
                }
            }
        } else {
            self.items.set(self.start, t);
            self.start = if self.start + 1 == WINDOW_CAPACITY {
                0
            } else {
                self.start + 1
            };
            proof {
                assert(self@ =~= old(self)@.drop_first().push(t));
            }
        }
    }

    /// The retained timestamps, oldest first.
    pub fn entries(&self) -> (v: Vec<Micros>)
        requires
            self.wf(),
        ensures
            v@ == self@,
    {
        let n = self.len();
        let mut v: Vec<Micros> = Vec::new();
        let mut i: usize = 0;
        while i < n
            invariant
                self.wf(),
                n == self@.len(),
                i <= n,
                v@ == self@.take(i as int),
            decreases n - i,
        {
            v.push(self.get(i));
            proof {
                assert(v@ =~= self@.take(i + 1));
            }
            i = i + 1;
        }
        proof {
            assert(self@.take(n as int) =~= self@);
        }
        v
    }
}

/// Window recency law: the retained sequence after any history of pushes is
/// exactly the suffix of at most `WINDOW_CAPACITY` most recent pushes, in push
/// order. Stated as the inductive step: extending the history by one push
/// changes the expected contents exactly as `push_model` (the `ensures` of
/// `TimestampWindow::push`) changes the window.
pub proof fn lemma_push_keeps_recent(pushes: Seq<Micros>, t: Micros)
    ensures
        recent_suffix(pushes.push(t)) == push_model(recent_suffix(pushes), t),
{
    if pushes.len() < WINDOW_CAPACITY {
        assert(recent_suffix(pushes.push(t)) =~= recent_suffix(pushes).push(t));
    } else {
        assert(recent_suffix(pushes.push(t)) =~= recent_suffix(pushes).drop_first().push(t));
    }
}

/// Chronology law: pushing a timestamp no earlier than everything retained
/// keeps the retained sequence chronological, and it ends at the new
/// timestamp.
pub proof fn lemma_push_model_preserves_sorted(w: Seq<Micros>, t: Micros)
    requires
        sorted(w),
        w.len() == 0 || w.last() <= t,
    ensures
        sorted(push_model(w, t)),
        push_model(w, t).last() == t,
        push_model(w, t).len() >= 1,
{
    let p = push_model(w, t);
    assert forall|i: int, j: int| 0 <= i <= j < p.len() implies #[trigger] p[i] <= #[trigger] p[j] by {
        if j < p.len() - 1 {
            if w.len() < WINDOW_CAPACITY {
                assert(p[i] == w[i] && p[j] == w[j]);
            } else {
                assert(p[i] == w[i + 1] && p[j] == w[j + 1]);
            }
        } else if i < j {
            if w.len() < WINDOW_CAPACITY {
                assert(p[i] == w[i]);
                assert(w[i] <= w[w.len() - 1]);
            } else {
                assert(p[i] == w[i + 1]);
                assert(w[i + 1] <= w[w.len() - 1]);
            }
        }
    }
}

}
