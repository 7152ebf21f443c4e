use vstd::prelude::*;

verus! {

/// A decoded input event, decoupled from raw key identity. A single variant
/// today; the stream is typed so further variants can be added.
#[derive(Copy, Clone, Debug, PartialEq, Eq, Structural)]
pub enum SemanticEvent {
    Press,
}

/// First-match lookup of a raw key among the bindings.
pub open spec fn spec_lookup(bindings: Seq<(char, SemanticEvent)>, k: char) -> Option<
    SemanticEvent,
>
    decreases bindings.len(),
{
    if bindings.len() == 0 {
        None
    } else if bindings[0].0 == k {
        Some(bindings[0].1)
    } else {
        spec_lookup(bindings.drop_first(), k)
    }
}

/// Immutable mapping from raw keys (terminal characters) to semantic events,
/// built once at startup and read-only thereafter.
#[derive(Debug)]
pub struct Keymap {
    pub bindings: Vec<(char, SemanticEvent)>,
}

impl Keymap {
    /// Whether the raw key `k` is mapped at all.
    pub open spec fn maps(&self, k: char) -> bool {
        spec_lookup(self.bindings@, k) is Some
    }

    /// Translates one raw key; keys absent from the map yield `None`.
    pub fn lookup(&self, k: char) -> (r: Option<SemanticEvent>)
        ensures
            r == spec_lookup(self.bindings@, k),
    {
        let n = self.bindings.len();
        let mut i: usize = 0;
        proof {
            assert(self.bindings@.skip(0) =~= self.bindings@);
        }
        while i < n
            invariant
                n == self.bindings@.len(),
                i <= n,
                spec_lookup(self.bindings@, k) == spec_lookup(
                    self.bindings@.skip(i as int),
                    k,
                ),
            decreases n - i,
        {
            let (key, ev) = self.bindings[i];
            if key == k {
                proof {
                    assert(self.bindings@.skip(i as int)[0] == self.bindings@[i as int]);
                }
                return Some(ev);
            }
            proof {
                assert(self.bindings@.skip(i as int).drop_first() =~= self.bindings@.skip(
                    i + 1,
                ));
            }
            i = i + 1;
        }
        proof {
            assert(self.bindings@.skip(n as int) =~= Seq::<(char, SemanticEvent)>::empty());
        }
        None
    }
}

impl Default for Keymap {
    /// The startup keymap: raw keys 'x' and 'b', both mapped to `Press`.
    fn default() -> (r: Self)
        ensures
            r.bindings@.len() == 2,
            r.bindings@[0] == ('x', SemanticEvent::Press),
            r.bindings@[1] == ('b', SemanticEvent::Press),
    {
        let mut bindings: Vec<(char, SemanticEvent)> = Vec::new();
        bindings.push(('x', SemanticEvent::Press));
        bindings.push(('b', SemanticEvent::Press));
        Keymap { bindings }
    }
}

}
