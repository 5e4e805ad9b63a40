//! The mathematical model of a sliding replay window.
//!
//! A window remembers the highest accepted sequence number and the set of
//! accepted numbers that are less than `width` behind it.

use vstd::prelude::*;

verus! {

/// What a replay window remembers: the highest accepted sequence number and
/// the accepted numbers that are still inside the history interval.
#[verifier::ext_equal]
pub struct WindowModel {
    pub highest: Option<u64>,
    pub seen: Set<u64>,
}

impl WindowModel {
    /// Whether `sequence` lies less than `width` behind `highest`.
    pub open spec fn in_history(highest: u64, width: nat, sequence: u64) -> bool {
        sequence <= highest && highest - sequence < width
    }

    /// A window that has accepted nothing.
    pub open spec fn fresh() -> WindowModel {
        WindowModel { highest: None, seen: Set::empty() }
    }

    /// Every remembered number is inside the history interval.
    pub open spec fn wf(self, width: nat) -> bool {
        match self.highest {
            None => self.seen == Set::<u64>::empty(),
            Some(h) => forall|x: u64| #[trigger] self.seen.contains(x) ==> WindowModel::in_history(h, width, x),
        }
    }

    /// A number is acceptable when it is new: ahead of everything accepted so
    /// far, or inside the history interval and not yet seen.
    pub open spec fn can_accept(self, width: nat, sequence: u64) -> bool {
        match self.highest {
            None => true,
            Some(h) => sequence > h || (WindowModel::in_history(h, width, sequence) && !self.seen.contains(
                sequence,
            )),
        }
    }

    /// The highest number after accepting `sequence`.
    pub open spec fn highest_after(self, sequence: u64) -> u64 {
        match self.highest {
            None => sequence,
            Some(h) => if sequence > h {
                sequence
            } else {
                h
            },
        }
    }

    /// The window after accepting `sequence`: the number is remembered and
    /// everything that fell out of the history interval is forgotten.
    pub open spec fn accepted(self, width: nat, sequence: u64) -> WindowModel {
        let h = self.highest_after(sequence);
        WindowModel {
            highest: Some(h),
            seen: Set::new(
                |x: u64| (x == sequence || self.seen.contains(x)) && WindowModel::in_history(h, width, x),
            ),
        }
    }

    /// Offering a number: an acceptable one is accepted, any other one leaves
    /// the window as it is.
    pub open spec fn offered(self, width: nat, sequence: u64) -> WindowModel {
        if self.can_accept(width, sequence) {
            self.accepted(width, sequence)
        } else {
            self
        }
    }

    /// Offering the numbers of `sequences` one after the other.
    pub open spec fn offered_all(self, width: nat, sequences: Seq<u64>) -> WindowModel
        decreases sequences.len(),
    {
        if sequences.len() == 0 {
            self
        } else {
            self.offered_all(width, sequences.drop_last()).offered(width, sequences.last())
        }
    }
}

/// Offering a number keeps the window well formed and never lowers the mark.
pub proof fn lemma_offered_wf(w: WindowModel, width: nat, sequence: u64)
    requires
        w.wf(width),
        width > 0,
    ensures
        w.offered(width, sequence).wf(width),
        w.highest is Some ==> w.offered(width, sequence).highest is Some && w.offered(
            width,
            sequence,
        ).highest->0 >= w.highest->0,
{
}

/// A number that was accepted once is refused from then on, whatever else is
/// offered in between.
pub proof fn lemma_accepted_once(w: WindowModel, width: nat, sequence: u64, later: Seq<u64>)
    requires
        w.wf(width),
        width > 0,
        w.can_accept(width, sequence),
    ensures
        !w.accepted(width, sequence).offered_all(width, later).can_accept(width, sequence),
{
    lemma_stays_refused(w.accepted(width, sequence), width, sequence, later);
}

/// A refused number stays refused, whatever else is offered.
pub proof fn lemma_stays_refused(w: WindowModel, width: nat, sequence: u64, later: Seq<u64>)
    requires
        w.wf(width),
        width > 0,
        !w.can_accept(width, sequence),
    ensures
        w.offered_all(width, later).wf(width),
        !w.offered_all(width, later).can_accept(width, sequence),
    decreases later.len(),
{
    if later.len() > 0 {
        lemma_stays_refused(w, width, sequence, later.drop_last());
        lemma_offered_wf(w.offered_all(width, later.drop_last()), width, later.last());
    }
}

/// Offering a smaller number takes nothing from the numbers above it.
pub proof fn lemma_smaller_leaves_room(w: WindowModel, width: nat, smaller: u64, sequence: u64)
    requires
        smaller < sequence,
        w.can_accept(width, sequence),
    ensures
        w.offered(width, smaller).can_accept(width, sequence),
{
}

/// An offered number bars itself and what it leaves behind by the width or more,
/// and nothing else.
pub proof fn lemma_offer_bars_only(w: WindowModel, width: nat, offered: u64, sequence: u64)
    requires
        w.wf(width),
        width > 0,
    ensures
        w.offered(width, offered).can_accept(width, sequence) == (w.can_accept(width, sequence)
            && sequence != offered && offered - sequence < width),
{
}

/// A window refuses exactly what was offered to it and what was left behind by
/// the width or more: everything else that is on its way is accepted, in any
/// order.
pub proof fn lemma_window_refuses_only_seen_and_old(width: nat, sequences: Seq<u64>, sequence: u64)
    requires
        width > 0,
    ensures
        WindowModel::fresh().offered_all(width, sequences).wf(width),
        WindowModel::fresh().offered_all(width, sequences).can_accept(width, sequence) == (forall|
            i: int,
        |
            0 <= i < sequences.len() ==> #[trigger] sequences[i] != sequence && sequences[i] - sequence
                < width),
    decreases sequences.len(),
{
    if sequences.len() > 0 {
        let rest = sequences.drop_last();
        lemma_window_refuses_only_seen_and_old(width, rest, sequence);
        let w = WindowModel::fresh().offered_all(width, rest);
        lemma_offered_wf(w, width, sequences.last());
        lemma_offer_bars_only(w, width, sequences.last(), sequence);
        let n = sequences.len() as int;
        assert(sequences[n - 1] == sequences.last());
        assert(forall|i: int| 0 <= i < n - 1 ==> rest[i] == sequences[i]);
        if w.offered(width, sequences.last()).can_accept(width, sequence) {
            assert forall|i: int| 0 <= i < n implies #[trigger] sequences[i] != sequence
                && sequences[i] - sequence < width by {
                if i < n - 1 {
                    assert(rest[i] == sequences[i]);
                }
            }
        } else if w.can_accept(width, sequence) {
            assert(!(sequences[n - 1] != sequence && sequences[n - 1] - sequence < width));
        } else {
            let k = choose|k: int|
                0 <= k < rest.len() && !(#[trigger] rest[k] != sequence && rest[k] - sequence < width);
            assert(sequences[k] == rest[k]);
        }
    }
}

} // verus!
