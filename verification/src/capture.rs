use vstd::prelude::*;
use crate::keymap::{Keymap, SemanticEvent, spec_lookup};

verus! {

/// The semantic events that a sequence of raw keys produces under the given
/// bindings: each mapped key contributes its event, in arrival order; keys
/// absent from the map contribute nothing.
pub open spec fn mapped_events(bindings: Seq<(char, SemanticEvent)>, raw: Seq<char>) -> Seq<
    SemanticEvent,
>
    decreases raw.len(),
{
    if raw.len() == 0 {
        Seq::<SemanticEvent>::empty()
    } else {
        let rest = mapped_events(bindings, raw.drop_last());
        match spec_lookup(bindings, raw.last()) {
            Some(ev) => rest.push(ev),
            None => rest,
        }
    }
}

/// A raw key sequence never produces more events than it has keys.
pub proof fn lemma_mapped_events_len(bindings: Seq<(char, SemanticEvent)>, raw: Seq<char>)
    ensures
        mapped_events(bindings, raw).len() <= raw.len(),
    decreases raw.len(),
{
    if raw.len() > 0 {
        lemma_mapped_events_len(bindings, raw.drop_last());
    }
}

/// Unmapped-key law: a raw key that the bindings do not map produces no
/// semantic event — appending it to any arrival sequence leaves the produced
/// event stream unchanged.
pub proof fn lemma_unmapped_key_no_event(
    bindings: Seq<(char, SemanticEvent)>,
    raw: Seq<char>,
    k: char,
)
    requires
        spec_lookup(bindings, k) is None,
    ensures
        mapped_events(bindings, raw.push(k)) == mapped_events(bindings, raw),
{
    assert(raw.push(k).drop_last() =~= raw);
}

/// A sequence of raw keys none of which is mapped produces no events at all
/// (and so, downstream, leaves the aggregated statistics unchanged).
pub proof fn lemma_all_unmapped_no_events(bindings: Seq<(char, SemanticEvent)>, raw: Seq<char>)
    requires
        forall|i: int| 0 <= i < raw.len() ==> spec_lookup(bindings, #[trigger] raw[i]) is None,
    ensures
        mapped_events(bindings, raw) == Seq::<SemanticEvent>::empty(),
    decreases raw.len(),
{
    if raw.len() > 0 {
        lemma_all_unmapped_no_events(bindings, raw.drop_last());
    }
}

/// Capture-stage mapping: translates the raw keys drained from the terminal
/// in one tick into semantic events, preserving arrival order and silently
/// discarding unmapped keys. Performs no aggregation itself.
pub fn map_raw_keys(keymap: &Keymap, raw: &Vec<char>) -> (events: Vec<SemanticEvent>)
    ensures
        events@ == mapped_events(keymap.bindings@, raw@),
{
    let n = raw.len();
    let mut events: Vec<SemanticEvent> = Vec::new();
    let mut i: usize = 0;
    while i < n
        invariant
            n == raw@.len(),
            i <= n,
            events@ == mapped_events(keymap.bindings@, raw@.take(i as int)),
        decreases n - i,
    {
        proof {
            assert(raw@.take(i + 1).drop_last() =~= raw@.take(i as int));
            assert(raw@.take(i + 1).last() == raw@[i as int]);
        }
        match keymap.lookup(raw[i]) {
            Some(ev) => {
                events.push(ev);
            },
            None => {},
        }
        i = i + 1;
    }
    proof {
        assert(raw@.take(n as int) =~= raw@);
    }
    events
}

}
