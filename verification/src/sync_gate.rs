//! The per-consumer sync gate: nothing passes until the first sync point has
//! been seen, everything passes from then on.

use vstd::prelude::*;
use crate::broadcast::buffer_is_sync_frame;
use crate::sample::{MediaSample, SharedSample};

verus! {

/// The two states of a gate.
#[derive(Clone, Copy, Debug, PartialEq, Eq, Structural)]
pub enum GateState {
    /// No sync point has been seen yet; samples are discarded.
    Seeking,
    /// A sync point has been seen; samples pass unchanged.
    Passing,
}

/// Index of the first sync point of `s`, or `s.len()` if it has none.
pub open spec fn first_sync(s: Seq<SharedSample>) -> int
    decreases s.len(),
{
    if s.len() == 0 {
        0
    } else if s[0].is_sync_point() {
        0
    } else {
        1 + first_sync(s.skip(1))
    }
}

/// How many leading samples of `s` a gate in state `g` discards.
pub open spec fn discarded(g: GateState, s: Seq<SharedSample>) -> int {
    match g {
        GateState::Passing => 0,
        GateState::Seeking => first_sync(s),
    }
}

/// What a gate in state `g` lets through of `s`: a suffix of `s`.
pub open spec fn passed(g: GateState, s: Seq<SharedSample>) -> Seq<SharedSample> {
    s.skip(discarded(g, s))
}

/// The state of a gate that started in `g` and has seen all of `s`.
pub open spec fn state_after(g: GateState, s: Seq<SharedSample>) -> GateState {
    if discarded(g, s) < s.len() {
        GateState::Passing
    } else {
        g
    }
}

/// `first_sync(s)` is the least index of a sync point in `s`, and `s.len()`
/// when `s` holds none.
pub proof fn lemma_first_sync(s: Seq<SharedSample>)
    ensures
        0 <= first_sync(s) <= s.len(),
        forall|i: int| 0 <= i < first_sync(s) ==> !(#[trigger] s[i]).is_sync_point(),
        first_sync(s) < s.len() ==> s[first_sync(s)].is_sync_point(),
    decreases s.len(),
{
    if s.len() > 0 && !s[0].is_sync_point() {
        let rest = s.skip(1);
        lemma_first_sync(rest);
        assert forall|i: int| 0 <= i < first_sync(s) implies !(#[trigger] s[i]).is_sync_point() by {
            if i > 0 {
                assert(s[i] == rest[i - 1]);
            }
        }
    }
}

/// Any index that has no sync point before it and either holds one or is the
/// end of `s` is `first_sync(s)`.
pub proof fn lemma_first_sync_unique(s: Seq<SharedSample>, k: int)
    requires
        0 <= k <= s.len(),
        forall|i: int| 0 <= i < k ==> !(#[trigger] s[i]).is_sync_point(),
        k < s.len() ==> s[k].is_sync_point(),
    ensures
        first_sync(s) == k,
{
    lemma_first_sync(s);
}

/// A gate that is opened by `a` treats what follows as `a` and `b` in one
/// piece: feeding a gate in two batches changes neither what passes nor the
/// state it ends in.
pub proof fn lemma_passed_concat(g: GateState, a: Seq<SharedSample>, b: Seq<SharedSample>)
    ensures
        passed(g, a + b) == passed(g, a) + passed(state_after(g, a), b),
        state_after(g, a + b) == state_after(state_after(g, a), b),
{
    lemma_first_sync(a);
    lemma_first_sync(b);
    if g == GateState::Seeking {
        // The first sync point of `a + b` is that of `a`, or, where `a` has
        // none, that of `b` behind `a`.
        let k = if first_sync(a) < a.len() {
            first_sync(a)
        } else {
            a.len() + first_sync(b)
        };
        assert forall|i: int| 0 <= i < k implies !(#[trigger] (a + b)[i]).is_sync_point() by {}
        lemma_first_sync_unique(a + b, k);
    }
}

/// What passes a fresh gate is a suffix of what it was fed, and that suffix
/// starts at a sync point.
pub proof fn law_gate_opens_at_sync_point(s: Seq<SharedSample>)
    ensures
        passed(GateState::Seeking, s) == s.skip(first_sync(s)),
        0 <= first_sync(s) <= s.len(),
        passed(GateState::Seeking, s).len() > 0 ==> passed(GateState::Seeking, s)[0].is_sync_point(),
{
    lemma_first_sync(s);
}

/// One sample at a time: a gate lets a single sample through exactly when it
/// is passing already or the sample is a sync point, and then it is passing.
pub proof fn law_gate_step(g: GateState, sample: SharedSample)
    ensures
        passed(g, seq![sample]) == if g == GateState::Passing || sample.is_sync_point() {
            seq![sample]
        } else {
            Seq::<SharedSample>::empty()
        },
        state_after(g, seq![sample]) == if g == GateState::Passing || sample.is_sync_point() {
            GateState::Passing
        } else {
            GateState::Seeking
        },
{
    lemma_first_sync(seq![sample]);
}

/// One consumer's sync gate.
#[derive(Debug)]
pub struct SyncGate {
    state: GateState,
}

impl View for SyncGate {
    type V = GateState;

    closed spec fn view(&self) -> GateState {
        self.state
    }
}

impl SyncGate {
    /// A gate that has seen nothing yet.
    pub fn new() -> (gate: Self)
        ensures
            gate@ == GateState::Seeking,
    {
        SyncGate { state: GateState::Seeking }
    }

    /// The state this gate is in.
    pub fn state(&self) -> (state: GateState)
        ensures
            state == self@,
    {
        self.state
    }

    /// Shows this gate one sample. The result says whether the sample is
    /// delivered: it is when this gate was already passing or the sample is
    /// a sync point, and from then on this gate passes everything.
    pub fn offer(&mut self, sample: &MediaSample) -> (deliver: bool)
        ensures
            deliver == (old(self)@ == GateState::Passing || sample.is_sync_point()),
            final(self)@ == if deliver { GateState::Passing } else { GateState::Seeking },
    {
        match self.state {
            GateState::Passing => true,
            GateState::Seeking => {
                if buffer_is_sync_frame(sample) {
                    self.state = GateState::Passing;
                    true
                } else {
                    false
                }
            },
        }
    }
}

} // verus!
