//! A circular bitmap of authenticated sequence numbers.

use vstd::prelude::*;
use crate::replay_model::WindowModel;

verus! {

/// Retain enough authenticated sequence history for every stable crypto slot
/// plus the network-reordering allowance.
pub const REPLAY_WINDOW_BITS: usize = 1024;

pub const REPLAY_WINDOW_WORDS: usize = 16;

/// Number of packets that one batch can hold.
pub const MAX_PACKET_BATCH_SIZE: usize = 64;

/// Number of stable slots of the send-side crypto workers.
pub const SEND_CRYPTO_SLOT_COUNT: usize = 8;

pub const NETWORK_REORDER_HEADROOM: usize = 256;

/// History that reordering in the crypto slots and in the network can need.
pub const REQUIRED_REPLAY_WINDOW_BITS: usize = SEND_CRYPTO_SLOT_COUNT * MAX_PACKET_BATCH_SIZE
    + NETWORK_REORDER_HEADROOM;

const REPLAY_WINDOW_INDEX_MASK: u64 = 1023;

/// The window covers the history that reordering can need.
pub proof fn lemma_window_covers_required_history()
    ensures
        REQUIRED_REPLAY_WINDOW_BITS <= REPLAY_WINDOW_BITS,
        REPLAY_WINDOW_WORDS * 64 == REPLAY_WINDOW_BITS,
{
}

/// Bit `b` of a word.
pub open spec fn word_bit(word: u64, b: u64) -> bool {
    word & (1u64 << b) != 0
}

/// Setting and clearing a bit of a word leaves the other bits.
pub proof fn lemma_word_bits(word: u64, b: u64)
    requires
        b < 64,
    ensures
        forall|c: u64| c < 64 ==> #[trigger] word_bit(word | (1u64 << b), c) == (word_bit(word, c) || c == b),
        forall|c: u64|
            c < 64 ==> #[trigger] word_bit(word & !(1u64 << b), c) == (word_bit(word, c) && c != b),
{
    assert(forall|c: u64|
        c < 64 && b < 64 ==> (((word | (1u64 << b)) & (1u64 << c) != 0) == ((word & (1u64 << c)
            != 0) || c == b))) by (bit_vector);
    assert(forall|c: u64|
        c < 64 && b < 64 ==> (((word & !(1u64 << b)) & (1u64 << c) != 0) == ((word & (1u64 << c)
            != 0) && c != b))) by (bit_vector);
}

pub proof fn lemma_zero_word(c: u64)
    ensures
        !word_bit(0, c),
{
    assert(0u64 & (1u64 << c) == 0) by (bit_vector);
}

/// A circular authenticated-sequence bitmap.
///
/// Bit position `sequence mod REPLAY_WINDOW_BITS` belongs to exactly one
/// sequence in the current history interval. Advancing the high-water mark
/// clears only positions that are entering the interval, which is one bit for
/// contiguous traffic instead of shifting the entire bitmap for every packet.
#[derive(Clone, Copy, Debug)]
pub struct ReplayWindow {
    max_sequence: u64,
    bitmap: [u64; REPLAY_WINDOW_WORDS],
    valid: bool,
}

impl ReplayWindow {
    /// The bit that belongs to `sequence`.
    pub closed spec fn bit(self, sequence: int) -> bool {
        let p = sequence % 1024;
        word_bit(self.bitmap@[p / 64], (p % 64) as u64)
    }

    /// A window that has accepted nothing has no bit set.
    pub closed spec fn wf(self) -> bool {
        !self.valid ==> self.max_sequence == 0 && forall|s: int| !#[trigger] self.bit(s)
    }

    pub closed spec fn model(self) -> WindowModel {
        WindowModel {
            highest: if self.valid {
                Some(self.max_sequence)
            } else {
                None
            },
            seen: Set::new(
                |x: u64| self.valid && WindowModel::in_history(self.max_sequence, 1024, x) && self.bit(x as int),
            ),
        }
    }

    /// The model only remembers numbers of the history interval.
    pub proof fn lemma_model_wf(self)
        ensures
            self.model().wf(1024),
    {
        if !self.valid {
            assert(self.model().seen =~= Set::<u64>::empty());
        }
    }

    /// Forgets everything that was accepted.
    pub fn clear(&mut self)
        ensures
            final(self).wf(),
            final(self).model() == WindowModel::fresh(),
    {
        self.max_sequence = 0;
        self.bitmap = [0u64; REPLAY_WINDOW_WORDS];
        self.valid = false;
        proof {
            assert forall|s: int| !#[trigger] self.bit(s) by {
                lemma_zero_word(((s % 1024) % 64) as u64);
            }
            assert(self.model().seen =~= Set::<u64>::empty());
        }
    }

    fn bit_index(sequence: u64) -> (index: usize)
        ensures
            index == sequence % 1024,
    {
        assert(sequence & 1023 == sequence % 1024) by (bit_vector);
        (sequence & REPLAY_WINDOW_INDEX_MASK) as usize
    }

    fn test_sequence(&self, sequence: u64) -> (set: bool)
        ensures
            set == self.bit(sequence as int),
    {
        let index: usize = Self::bit_index(sequence);
        self.bitmap[index / 64] & (1u64 << ((index % 64) as u64)) != 0
    }

    fn set_sequence(&mut self, sequence: u64)
        ensures
            final(self).max_sequence == old(self).max_sequence,
            final(self).valid == old(self).valid,
            forall|s: int|
                #[trigger] final(self).bit(s) == (old(self).bit(s) || s % 1024 == sequence as int
                    % 1024),
    {
        let index: usize = Self::bit_index(sequence);
        let word: u64 = self.bitmap[index / 64];
        proof {
            lemma_word_bits(word, (index % 64) as u64);
        }
        self.bitmap[index / 64] = word | (1u64 << ((index % 64) as u64));
    }

    fn clear_sequence(&mut self, sequence: u64)
        ensures
            final(self).max_sequence == old(self).max_sequence,
            final(self).valid == old(self).valid,
            forall|s: int|
                #[trigger] final(self).bit(s) == (old(self).bit(s) && s % 1024 != sequence as int
                    % 1024),
    {
        let index: usize = Self::bit_index(sequence);
        let word: u64 = self.bitmap[index / 64];
        proof {
            lemma_word_bits(word, (index % 64) as u64);
        }
        self.bitmap[index / 64] = word & !(1u64 << ((index % 64) as u64));
    }

    /// Clears the bits of the numbers that enter the history interval.
    fn clear_advanced_positions(&mut self, new_max_sequence: u64)
        requires
            old(self).max_sequence <= new_max_sequence,
        ensures
            final(self).max_sequence == old(self).max_sequence,
            final(self).valid == old(self).valid,
            forall|s: int|
                new_max_sequence - 1024 < s <= new_max_sequence ==> #[trigger] final(self).bit(s)
                    == (old(self).bit(s) && s <= old(self).max_sequence),
    {
        let distance: u64 = new_max_sequence - self.max_sequence;
        if distance >= 1024 {
            self.bitmap = [0u64; REPLAY_WINDOW_WORDS];
            proof {
                assert forall|s: int| !#[trigger] self.bit(s) by {
                    lemma_zero_word(((s % 1024) % 64) as u64);
                }
            }
            return ;
        }
        let mut offset: u64 = 1;
        while offset <= distance
            invariant
                distance == new_max_sequence - self.max_sequence,
                distance < 1024,
                1 <= offset <= distance + 1,
                self.max_sequence == old(self).max_sequence,
                self.valid == old(self).valid,
                forall|s: int|
                    new_max_sequence - 1024 < s <= new_max_sequence ==> #[trigger] self.bit(s) == (
                    old(self).bit(s) && !(old(self).max_sequence < s < old(self).max_sequence
                        + offset)),
            decreases distance + 1 - offset,
        {
            self.clear_sequence(self.max_sequence + offset);
            offset = offset + 1;
        }
    }

    /// Whether `sequence` is new to this window.
    pub fn can_accept(&self, sequence: u64) -> (acceptable: bool)
        requires
            self.wf(),
        ensures
            acceptable == self.model().can_accept(1024, sequence),
    {
        if !self.valid || sequence > self.max_sequence {
            return true;
        }
        let distance: u64 = self.max_sequence - sequence;
        distance < 1024 && !self.test_sequence(sequence)
    }

    /// Accepts `sequence` when it is new.
    pub fn accept(&mut self, sequence: u64) -> (accepted: bool)
        requires
            old(self).wf(),
        ensures
            final(self).wf(),
            accepted == old(self).model().can_accept(1024, sequence),
            final(self).model() == old(self).model().offered(1024, sequence),
            !accepted ==> *final(self) == *old(self),
    {
        if !self.can_accept(sequence) {
            return false;
        }
        if !self.valid {
            self.valid = true;
            self.max_sequence = sequence;
            assert(forall|s: int| #[trigger] self.bit(s) == old(self).bit(s));
            self.set_sequence(sequence);
            proof {
                let next = old(self).model().accepted(1024, sequence);
                assert forall|x: u64| self.model().seen.contains(x) == next.seen.contains(x) by {
                    assert(!old(self).bit(x as int));
                }
                assert(self.model().seen =~= next.seen);
            }
            return true;
        }
        if sequence > self.max_sequence {
            self.clear_advanced_positions(sequence);
            let ghost cleared = *self;
            self.max_sequence = sequence;
            assert(forall|s: int| #[trigger] self.bit(s) == cleared.bit(s));
        }
        let ghost advanced = *self;
        self.set_sequence(sequence);
        proof {
            let next = old(self).model().accepted(1024, sequence);
            assert forall|x: u64| self.model().seen.contains(x) == next.seen.contains(x) by {
                assert(self.bit(x as int) == (advanced.bit(x as int) || x as int % 1024
                    == sequence as int % 1024));
                if WindowModel::in_history(self.max_sequence, 1024, x) {
                    assert(advanced.bit(x as int) == (old(self).bit(x as int) && x
                        <= old(self).max_sequence));
                }
            }
            assert(self.model().seen =~= next.seen);
        }
        true
    }

    /// The highest accepted number, zero while nothing was accepted.
    pub fn max_sequence(&self) -> (highest: u64)
        requires
            self.wf(),
        ensures
            highest == (match self.model().highest {
                Some(h) => h,
                None => 0,
            }),
    {
        self.max_sequence
    }
}

impl Default for ReplayWindow {
    fn default() -> (window: Self)
        ensures
            window.wf(),
            window.model() == WindowModel::fresh(),
    {
        let window = ReplayWindow { max_sequence: 0, bitmap: [0u64; REPLAY_WINDOW_WORDS], valid: false };
        proof {
            assert forall|s: int| !#[trigger] window.bit(s) by {
                lemma_zero_word(((s % 1024) % 64) as u64);
            }
            assert(window.model().seen =~= Set::<u64>::empty());
        }
        window
    }
}

} // verus!
