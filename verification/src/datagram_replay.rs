//! Replay state of a datagram session: one window per epoch and direction,
//! with a grace period for the epochs before a synchronization.

use vstd::prelude::*;
use crate::replay_model::WindowModel;

verus! {

/// Bit `b` of a byte.
pub open spec fn byte_bit(byte: u8, b: u8) -> bool {
    (byte >> b) & 1 == 1
}

proof fn lemma_byte_set(byte: u8, b: u8)
    requires
        b < 8,
    ensures
        forall|c: u8| c < 8 ==> #[trigger] byte_bit(byte | (1u8 << b), c) == (byte_bit(byte, c) || c == b),
{
    assert forall|c: u8| c < 8 implies #[trigger] byte_bit(byte | (1u8 << b), c) == (byte_bit(
        byte,
        c,
    ) || c == b) by {
        assert((((byte | (1u8 << b)) >> c) & 1 == 1) == (((byte >> c) & 1 == 1) || c == b))
            by (bit_vector)
            requires
                b < 8,
                c < 8,
        ;
    }
}

/// The bits of a byte that took the low bits of `byte` above the high bits of
/// the byte before it.
proof fn lemma_byte_shift(byte: u8, before: u8, shift: u8)
    requires
        0 < shift < 8,
    ensures
        forall|c: u8|
            c < 8 ==> #[trigger] byte_bit((byte << shift) | (before >> ((8 - shift) as u8)), c) == (
            if c >= shift {
                byte_bit(byte, (c - shift) as u8)
            } else {
                byte_bit(before, (c + 8 - shift) as u8)
            }),
{
    let back: u8 = (8 - shift) as u8;
    assert forall|c: u8| c < 8 implies #[trigger] byte_bit((byte << shift) | (before >> back), c)
        == (if c >= shift {
        byte_bit(byte, (c - shift) as u8)
    } else {
        byte_bit(before, (c + 8 - shift) as u8)
    }) by {
        if c >= shift {
            let d: u8 = (c - shift) as u8;
            assert(((((byte << shift) | (before >> back)) >> c) & 1 == 1) == ((byte >> d) & 1 == 1))
                by (bit_vector)
                requires
                    0 < shift < 8,
                    back == 8 - shift,
                    shift <= c < 8,
                    d == c - shift,
            ;
        } else {
            let d: u8 = (c + 8 - shift) as u8;
            assert(((((byte << shift) | (before >> back)) >> c) & 1 == 1) == ((before >> d) & 1 == 1))
                by (bit_vector)
                requires
                    0 < shift < 8,
                    back == 8 - shift,
                    c < shift,
                    d == c + 8 - shift,
            ;
        }
    }
}

proof fn lemma_zero_byte(c: u8)
    ensures
        c < 8 ==> !byte_bit(0, c),
{
    assert(c < 8 ==> (0u8 >> c) & 1 != 1) by (bit_vector);
}

/// A bitmap of the last 256 sequence numbers. Bit `i` belongs to the number
/// that is `i` behind the highest one.
#[derive(Clone, Copy, Debug)]
pub struct ReplayWindow256 {
    pub max_seq: u64,
    pub bitmap: [u8; 32],
    pub valid: bool,
}

impl ReplayWindow256 {
    pub open spec fn bit(self, idx: int) -> bool {
        byte_bit(self.bitmap@[idx / 8], (idx % 8) as u8)
    }

    /// A window that has accepted nothing has no bit set.
    pub open spec fn wf(self) -> bool {
        !self.valid ==> forall|i: int| 0 <= i < 256 ==> !#[trigger] self.bit(i)
    }

    pub open spec fn model(self) -> WindowModel {
        WindowModel {
            highest: if self.valid {
                Some(self.max_seq)
            } else {
                None
            },
            seen: Set::new(
                |x: u64|
                    self.valid && WindowModel::in_history(self.max_seq, 256, x) && self.bit(
                        self.max_seq - x,
                    ),
            ),
        }
    }

    /// The model only remembers numbers of the history interval.
    pub proof fn lemma_model_wf(self)
        ensures
            self.model().wf(256),
    {
        if !self.valid {
            assert(self.model().seen =~= Set::<u64>::empty());
        }
    }

    pub fn clear(&mut self)
        ensures
            final(self).wf(),
            final(self).model() == WindowModel::fresh(),
    {
        *self = ReplayWindow256::default();
    }

    pub fn test_bit(&self, idx: usize) -> (set: bool)
        requires
            idx < 256,
        ensures
            set == self.bit(idx as int),
    {
        (self.bitmap[idx / 8] >> ((idx % 8) as u8)) & 1 == 1
    }

    pub fn set_bit(&mut self, idx: usize)
        requires
            idx < 256,
        ensures
            final(self).max_seq == old(self).max_seq,
            final(self).valid == old(self).valid,
            forall|i: int|
                0 <= i < 256 ==> #[trigger] final(self).bit(i) == (old(self).bit(i) || i == idx),
    {
        let byte: u8 = self.bitmap[idx / 8];
        proof {
            lemma_byte_set(byte, (idx % 8) as u8);
        }
        self.bitmap[idx / 8] = byte | (1u8 << ((idx % 8) as u8));
    }

    /// Moves every bit `shift` positions towards the older numbers.
    pub fn shift_right(&mut self, shift: usize)
        ensures
            final(self).max_seq == old(self).max_seq,
            final(self).valid == old(self).valid,
            forall|i: int|
                0 <= i < 256 ==> #[trigger] final(self).bit(i) == (i >= shift && old(self).bit(
                    i - shift,
                )),
    {
        if shift == 0 {
            return ;
        }
        if shift >= 256 {
            self.bitmap = [0u8; 32];
            proof {
                assert forall|i: int| 0 <= i < 256 implies !#[trigger] self.bit(i) by {
                    lemma_zero_byte((i % 8) as u8);
                }
            }
            return ;
        }
        let byte_shift: usize = shift / 8;
        let bit_shift: u8 = (shift % 8) as u8;
        if byte_shift > 0 {
            let mut i: usize = 32;
            while i > 0
                invariant
                    i <= 32,
                    0 < byte_shift < 32,
                    self.max_seq == old(self).max_seq,
                    self.valid == old(self).valid,
                    forall|k: int| 0 <= k < i ==> self.bitmap@[k] == old(self).bitmap@[k],
                    forall|k: int|
                        i <= k < 32 ==> self.bitmap@[k] == (if k >= byte_shift {
                            old(self).bitmap@[k - byte_shift]
                        } else {
                            0u8
                        }),
                decreases i,
            {
                i = i - 1;
                let moved: u8 = if i >= byte_shift {
                    self.bitmap[i - byte_shift]
                } else {
                    0
                };
                self.bitmap[i] = moved;
            }
        }
        let ghost bytes_moved = *self;
        proof {
            assert(forall|k: int|
                0 <= k < 32 ==> bytes_moved.bitmap@[k] == (if k >= byte_shift {
                    old(self).bitmap@[k - byte_shift]
                } else {
                    0u8
                }));
            assert forall|i: int| 0 <= i < 256 implies #[trigger] bytes_moved.bit(i) == (i
                >= byte_shift * 8 && old(self).bit(i - byte_shift * 8)) by {
                lemma_zero_byte((i % 8) as u8);
                assert(bytes_moved.bitmap@[i / 8] == (if i / 8 >= byte_shift {
                    old(self).bitmap@[i / 8 - byte_shift]
                } else {
                    0u8
                }));
                if i >= byte_shift * 8 {
                    assert((i - byte_shift * 8) / 8 == i / 8 - byte_shift);
                    assert((i - byte_shift * 8) % 8 == i % 8);
                }
            }
        }
        if bit_shift > 0 {
            let mut carry: u8 = 0;
            let mut i: usize = 0;
            let ghost mut before: u8 = 0;
            assert(0u8 >> ((8 - bit_shift) as u8) == 0) by (bit_vector);
            while i < 32
                invariant
                    i <= 32,
                    0 < bit_shift < 8,
                    self.max_seq == old(self).max_seq,
                    self.valid == old(self).valid,
                    before == (if i == 0 {
                        0u8
                    } else {
                        bytes_moved.bitmap@[i - 1]
                    }),
                    carry == before >> ((8 - bit_shift) as u8),
                    forall|k: int| i <= k < 32 ==> self.bitmap@[k] == bytes_moved.bitmap@[k],
                    forall|k: int|
                        0 <= k < i ==> self.bitmap@[k] == ((bytes_moved.bitmap@[k] << bit_shift) | ((
                        if k == 0 {
                            0u8
                        } else {
                            bytes_moved.bitmap@[k - 1]
                        }) >> ((8 - bit_shift) as u8))),
                decreases 32 - i,
            {
                let byte: u8 = self.bitmap[i];
                let new_carry: u8 = byte >> (8 - bit_shift);
                self.bitmap[i] = (byte << bit_shift) | carry;
                carry = new_carry;
                proof {
                    before = byte;
                }
                i = i + 1;
            }
            proof {
                assert forall|p: int| 0 <= p < 256 implies #[trigger] self.bit(p) == (p
                    >= bit_shift && bytes_moved.bit(p - bit_shift)) by {
                    let k = p / 8;
                    let prev = if k == 0 {
                        0u8
                    } else {
                        bytes_moved.bitmap@[k - 1]
                    };
                    assert(self.bitmap@[k] == ((bytes_moved.bitmap@[k] << bit_shift) | (prev >> ((8
                        - bit_shift) as u8))));
                    lemma_byte_shift(bytes_moved.bitmap@[k], prev, bit_shift);
                    assert(byte_bit(self.bitmap@[k], (p % 8) as u8) == (if p % 8 >= bit_shift {
                        byte_bit(bytes_moved.bitmap@[k], (p % 8 - bit_shift) as u8)
                    } else {
                        byte_bit(prev, (p % 8 + 8 - bit_shift) as u8)
                    }));
                    lemma_zero_byte((p % 8 + 8 - bit_shift) as u8);
                    if p % 8 >= bit_shift {
                        assert((p - bit_shift) / 8 == k && (p - bit_shift) % 8 == p % 8 - bit_shift);
                    } else if k > 0 {
                        assert((p - bit_shift) / 8 == k - 1 && (p - bit_shift) % 8 == p % 8 + 8
                            - bit_shift);
                    }
                }
            }
        }
        proof {
            assert forall|i: int| 0 <= i < 256 implies #[trigger] self.bit(i) == (i >= shift && old(
                self,
            ).bit(i - shift)) by {
                assert(shift == byte_shift * 8 + bit_shift);
                if bit_shift > 0 {
                    assert(self.bit(i) == (i >= bit_shift && bytes_moved.bit(i - bit_shift)));
                    if i >= bit_shift {
                        assert(bytes_moved.bit(i - bit_shift) == (i - bit_shift >= byte_shift * 8
                            && old(self).bit(i - bit_shift - byte_shift * 8)));
                    }
                } else {
                    assert(bytes_moved.bit(i) == (i >= byte_shift * 8 && old(self).bit(
                        i - byte_shift * 8,
                    )));
                }
            }
        }
    }

    /// Accepts `seq` when it is new.
    pub fn accept(&mut self, seq: u64) -> (accepted: bool)
        requires
            old(self).wf(),
        ensures
            final(self).wf(),
            accepted == old(self).model().can_accept(256, seq),
            final(self).model() == old(self).model().offered(256, seq),
            !accepted ==> *final(self) == *old(self),
    {
        let ghost next = old(self).model().accepted(256, seq);
        if !self.valid {
            self.valid = true;
            self.max_seq = seq;
            let ghost opened = *self;
            assert(forall|i: int| 0 <= i < 256 ==> #[trigger] opened.bit(i) == old(self).bit(i));
            self.set_bit(0);
            proof {
                assert forall|x: u64| self.model().seen.contains(x) == next.seen.contains(x) by {
                    if WindowModel::in_history(self.max_seq, 256, x) {
                        assert(self.bit(self.max_seq - x) == (opened.bit(self.max_seq - x)
                            || self.max_seq - x == 0));
                        assert(!old(self).bit(self.max_seq - x));
                    }
                }
                assert(self.model().seen =~= next.seen);
            }
            return true;
        }
        if seq > self.max_seq {
            let advance: u64 = seq - self.max_seq;
            let shift: usize = if advance < 256 {
                advance as usize
            } else {
                256
            };
            self.shift_right(shift);
            let ghost shifted = *self;
            self.max_seq = seq;
            let ghost advanced = *self;
            assert(forall|i: int| 0 <= i < 256 ==> #[trigger] advanced.bit(i) == shifted.bit(i));
            self.set_bit(0);
            proof {
                assert forall|x: u64| self.model().seen.contains(x) == next.seen.contains(x) by {
                    if WindowModel::in_history(seq, 256, x) {
                        let i = seq - x;
                        assert(self.bit(i) == (advanced.bit(i) || i == 0));
                        assert(shifted.bit(i) == (i >= shift && old(self).bit(i - shift)));
                    }
                }
                assert(self.model().seen =~= next.seen);
            }
            return true;
        }
        let delta: u64 = self.max_seq - seq;
        if delta >= 256 {
            return false;
        }
        if self.test_bit(delta as usize) {
            return false;
        }
        self.set_bit(delta as usize);
        proof {
            assert forall|x: u64| self.model().seen.contains(x) == next.seen.contains(x) by {
                if WindowModel::in_history(self.max_seq, 256, x) {
                    let i = self.max_seq - x;
                    assert(self.bit(i) == (old(self).bit(i) || i == delta));
                }
            }
            assert(self.model().seen =~= next.seen);
        }
        true
    }

    /// Whether `seq` is new to this window.
    pub fn can_accept(&self, seq: u64) -> (acceptable: bool)
        requires
            self.wf(),
        ensures
            acceptable == self.model().can_accept(256, seq),
    {
        if !self.valid || seq > self.max_seq {
            return true;
        }
        let delta: u64 = self.max_seq - seq;
        delta < 256 && !self.test_bit(delta as usize)
    }
}

impl Default for ReplayWindow256 {
    fn default() -> (window: Self)
        ensures
            window.wf(),
            window.model() == WindowModel::fresh(),
            !window.valid,
    {
        let window = ReplayWindow256 { max_seq: 0, bitmap: [0u8; 32], valid: false };
        proof {
            assert forall|i: int| 0 <= i < 256 implies !#[trigger] window.bit(i) by {
                lemma_zero_byte((i % 8) as u8);
            }
            assert(window.model().seen =~= Set::<u64>::empty());
        }
        window
    }
}

/// How many epochs ahead of every known epoch a packet may be.
pub const MAX_ACCEPTED_RX_EPOCH_AHEAD: u32 = 3;

/// The larger of two numbers.
pub fn max_u32(a: u32, b: u32) -> (m: u32)
    ensures
        m == if a >= b {
            a
        } else {
            b
        },
{
    if a >= b {
        a
    } else {
        b
    }
}

/// The replay window of one epoch.
#[derive(Clone, Copy, Debug)]
pub struct EpochRxSlot {
    pub epoch: u32,
    pub window: ReplayWindow256,
    pub last_rx_ms: u64,
    pub valid: bool,
}

/// The value of a replay slot.
pub struct SlotModel {
    pub epoch: u32,
    pub window: WindowModel,
    pub last_rx_ms: u64,
    pub valid: bool,
}

impl SlotModel {
    pub open spec fn empty() -> SlotModel {
        SlotModel { epoch: 0, window: WindowModel::fresh(), last_rx_ms: 0, valid: false }
    }

    pub open spec fn holds(self, epoch: u32) -> bool {
        self.valid && self.epoch == epoch
    }

    /// A slot that starts with one accepted number.
    pub open spec fn opened(epoch: u32, seq: u64, now_ms: u64) -> SlotModel {
        SlotModel {
            epoch,
            window: WindowModel::fresh().offered(256, seq),
            last_rx_ms: now_ms,
            valid: true,
        }
    }

    /// The slot after `seq` was offered to it.
    pub open spec fn offered(self, seq: u64, now_ms: u64) -> SlotModel {
        SlotModel { window: self.window.offered(256, seq), last_rx_ms: now_ms, ..self }
    }
}

impl View for EpochRxSlot {
    type V = SlotModel;

    open spec fn view(&self) -> SlotModel {
        SlotModel {
            epoch: self.epoch,
            window: self.window.model(),
            last_rx_ms: self.last_rx_ms,
            valid: self.valid,
        }
    }
}

impl EpochRxSlot {
    pub open spec fn wf(self) -> bool {
        self.window.wf()
    }

    /// Offers `seq` to the window of the slot.
    fn offer(&mut self, seq: u64, now_ms: u64) -> (accepted: bool)
        requires
            old(self).wf(),
        ensures
            final(self).wf(),
            accepted == old(self)@.window.can_accept(256, seq),
            final(self)@ == old(self)@.offered(seq, now_ms),
    {
        self.last_rx_ms = now_ms;
        self.window.accept(seq)
    }

    /// A slot for a new epoch.
    fn open(epoch: u32, now_ms: u64) -> (slot: Self)
        ensures
            slot.wf(),
            slot@ == (SlotModel {
                epoch,
                window: WindowModel::fresh(),
                last_rx_ms: now_ms,
                valid: true,
            }),
    {
        EpochRxSlot { epoch, window: ReplayWindow256::default(), last_rx_ms: now_ms, valid: true }
    }

    fn holds(&self, epoch: u32) -> (held: bool)
        ensures
            held == self@.holds(epoch),
    {
        self.valid && self.epoch == epoch
    }
}

impl Default for EpochRxSlot {
    fn default() -> (slot: Self)
        ensures
            slot.wf(),
            slot@ == SlotModel::empty(),
    {
        EpochRxSlot { epoch: 0, window: ReplayWindow256::default(), last_rx_ms: 0, valid: false }
    }
}

/// The current and the previous epoch of one direction.
#[derive(Clone, Copy, Debug)]
pub struct RxPair {
    pub cur: EpochRxSlot,
    pub prev: EpochRxSlot,
}

/// The value of a pair of slots.
pub struct PairModel {
    pub cur: SlotModel,
    pub prev: SlotModel,
}

impl PairModel {
    pub open spec fn empty() -> PairModel {
        PairModel { cur: SlotModel::empty(), prev: SlotModel::empty() }
    }

    pub open spec fn holds(self, epoch: u32) -> bool {
        self.cur.holds(epoch) || self.prev.holds(epoch)
    }

    /// The slot of an epoch that the pair holds.
    pub open spec fn slot(self, epoch: u32) -> SlotModel {
        if self.cur.holds(epoch) {
            self.cur
        } else {
            self.prev
        }
    }

    pub open spec fn with_slot(self, epoch: u32, slot: SlotModel) -> PairModel {
        if self.cur.holds(epoch) {
            PairModel { cur: slot, ..self }
        } else {
            PairModel { prev: slot, ..self }
        }
    }

    /// The highest epoch of the pair, or zero.
    pub open spec fn max_epoch(self) -> u32 {
        let a = if self.cur.valid {
            self.cur.epoch
        } else {
            0
        };
        let b = if self.prev.valid {
            self.prev.epoch
        } else {
            0
        };
        if a >= b {
            a
        } else {
            b
        }
    }

    /// The previous epoch is older than the current one.
    pub open spec fn ordered(self) -> bool {
        self.prev.valid ==> self.cur.valid && self.prev.epoch < self.cur.epoch
    }

    /// What remains current when a session is synchronized to `epoch`: the slot
    /// of that epoch.
    pub open spec fn kept_for(self, epoch: u32) -> PairModel {
        if self.holds(epoch) {
            PairModel { cur: self.slot(epoch), prev: SlotModel::empty() }
        } else {
            PairModel::empty()
        }
    }

    /// What moves into the grace state then: everything else.
    pub open spec fn moved_for(self, epoch: u32) -> PairModel {
        PairModel {
            cur: if self.cur.holds(epoch) {
                SlotModel::empty()
            } else {
                self.cur
            },
            prev: if self.prev.holds(epoch) {
                SlotModel::empty()
            } else {
                self.prev
            },
        }
    }
}

impl View for RxPair {
    type V = PairModel;

    open spec fn view(&self) -> PairModel {
        PairModel { cur: self.cur@, prev: self.prev@ }
    }
}

impl RxPair {
    pub open spec fn wf(self) -> bool {
        self.cur.wf() && self.prev.wf()
    }

    fn empty() -> (pair: Self)
        ensures
            pair.wf(),
            pair@ == PairModel::empty(),
    {
        RxPair { cur: EpochRxSlot::default(), prev: EpochRxSlot::default() }
    }

    fn holds(&self, epoch: u32) -> (held: bool)
        ensures
            held == self@.holds(epoch),
    {
        self.cur.holds(epoch) || self.prev.holds(epoch)
    }

    fn max_epoch(&self) -> (epoch: u32)
        ensures
            epoch == self@.max_epoch(),
    {
        let a: u32 = if self.cur.valid {
            self.cur.epoch
        } else {
            0
        };
        let b: u32 = if self.prev.valid {
            self.prev.epoch
        } else {
            0
        };
        max_u32(a, b)
    }

    fn can_accept(&self, epoch: u32, seq: u64) -> (acceptable: bool)
        requires
            self.wf(),
            self@.holds(epoch),
        ensures
            acceptable == self@.slot(epoch).window.can_accept(256, seq),
    {
        if self.cur.holds(epoch) {
            self.cur.window.can_accept(seq)
        } else {
            self.prev.window.can_accept(seq)
        }
    }

    fn offer(&mut self, epoch: u32, seq: u64, now_ms: u64) -> (accepted: bool)
        requires
            old(self).wf(),
            old(self)@.holds(epoch),
        ensures
            final(self).wf(),
            accepted == old(self)@.slot(epoch).window.can_accept(256, seq),
            final(self)@ == old(self)@.with_slot(epoch, old(self)@.slot(epoch).offered(seq, now_ms)),
    {
        if self.cur.holds(epoch) {
            self.cur.offer(seq, now_ms)
        } else {
            self.prev.offer(seq, now_ms)
        }
    }

    fn kept_for(&self, epoch: u32) -> (pair: Self)
        requires
            self.wf(),
        ensures
            pair.wf(),
            pair@ == self@.kept_for(epoch),
    {
        let mut pair = RxPair::empty();
        if self.cur.holds(epoch) {
            pair.cur = self.cur;
        } else if self.prev.holds(epoch) {
            pair.cur = self.prev;
        }
        pair
    }

    fn moved_for(&self, epoch: u32) -> (pair: Self)
        requires
            self.wf(),
        ensures
            pair.wf(),
            pair@ == self@.moved_for(epoch),
    {
        let mut pair = *self;
        if pair.cur.holds(epoch) {
            pair.cur = EpochRxSlot::default();
        }
        if pair.prev.holds(epoch) {
            pair.prev = EpochRxSlot::default();
        }
        pair
    }
}

/// Direction of a datagram between the two ends of a session.
#[derive(Clone, Copy, Debug, PartialEq, Eq, Structural)]
pub enum SecureDatagramDirection {
    AToB,
    BToA,
}

/// The slots of both directions.
#[derive(Clone, Copy, Debug)]
pub struct RxSlots {
    pub a_to_b: RxPair,
    pub b_to_a: RxPair,
}

/// The value of the slots of both directions.
pub struct RxModel {
    pub a_to_b: PairModel,
    pub b_to_a: PairModel,
}

impl RxModel {
    pub open spec fn empty() -> RxModel {
        RxModel { a_to_b: PairModel::empty(), b_to_a: PairModel::empty() }
    }

    pub open spec fn pair(self, dir: SecureDatagramDirection) -> PairModel {
        match dir {
            SecureDatagramDirection::AToB => self.a_to_b,
            SecureDatagramDirection::BToA => self.b_to_a,
        }
    }

    pub open spec fn with_pair(self, dir: SecureDatagramDirection, pair: PairModel) -> RxModel {
        match dir {
            SecureDatagramDirection::AToB => RxModel { a_to_b: pair, ..self },
            SecureDatagramDirection::BToA => RxModel { b_to_a: pair, ..self },
        }
    }

    pub open spec fn max_epoch(self) -> u32 {
        let a = self.a_to_b.max_epoch();
        let b = self.b_to_a.max_epoch();
        if a >= b {
            a
        } else {
            b
        }
    }

    pub open spec fn kept_for(self, epoch: u32) -> RxModel {
        RxModel { a_to_b: self.a_to_b.kept_for(epoch), b_to_a: self.b_to_a.kept_for(epoch) }
    }

    pub open spec fn moved_for(self, epoch: u32) -> RxModel {
        RxModel { a_to_b: self.a_to_b.moved_for(epoch), b_to_a: self.b_to_a.moved_for(epoch) }
    }
}

impl View for RxSlots {
    type V = RxModel;

    open spec fn view(&self) -> RxModel {
        RxModel { a_to_b: self.a_to_b@, b_to_a: self.b_to_a@ }
    }
}

impl RxSlots {
    pub open spec fn wf(self) -> bool {
        self.a_to_b.wf() && self.b_to_a.wf()
    }

    pub fn empty() -> (slots: Self)
        ensures
            slots.wf(),
            slots@ == RxModel::empty(),
    {
        RxSlots { a_to_b: RxPair::empty(), b_to_a: RxPair::empty() }
    }

    pub fn pair(&self, dir: SecureDatagramDirection) -> (pair: RxPair)
        requires
            self.wf(),
        ensures
            pair.wf(),
            pair@ == self@.pair(dir),
    {
        match dir {
            SecureDatagramDirection::AToB => self.a_to_b,
            SecureDatagramDirection::BToA => self.b_to_a,
        }
    }

    fn set_pair(&mut self, dir: SecureDatagramDirection, pair: RxPair)
        requires
            old(self).wf(),
            pair.wf(),
        ensures
            final(self).wf(),
            final(self)@ == old(self)@.with_pair(dir, pair@),
    {
        match dir {
            SecureDatagramDirection::AToB => {
                self.a_to_b = pair;
            },
            SecureDatagramDirection::BToA => {
                self.b_to_a = pair;
            },
        }
    }

    pub fn max_epoch(&self) -> (epoch: u32)
        ensures
            epoch == self@.max_epoch(),
    {
        max_u32(self.a_to_b.max_epoch(), self.b_to_a.max_epoch())
    }

    /// Whether a direction holds a slot for the epoch.
    pub fn holds(&self, dir: SecureDatagramDirection, epoch: u32) -> (held: bool)
        ensures
            held == self@.pair(dir).holds(epoch),
    {
        match dir {
            SecureDatagramDirection::AToB => self.a_to_b.holds(epoch),
            SecureDatagramDirection::BToA => self.b_to_a.holds(epoch),
        }
    }
}

/// The epochs from before a synchronization, which stay acceptable for a while.
#[derive(Clone, Copy, Debug)]
pub struct SyncRxGrace {
    pub slots: RxSlots,
    pub expires_at_ms: u64,
    pub valid: bool,
}

/// The value of the grace state.
pub struct GraceModel {
    pub slots: RxModel,
    pub expires_at_ms: u64,
    pub valid: bool,
}

impl GraceModel {
    pub open spec fn empty() -> GraceModel {
        GraceModel { slots: RxModel::empty(), expires_at_ms: 0, valid: false }
    }

    /// The grace state once `now_ms` is reached.
    pub open spec fn at(self, now_ms: u64) -> GraceModel {
        if self.valid && now_ms >= self.expires_at_ms {
            GraceModel::empty()
        } else {
            self
        }
    }
}

impl View for SyncRxGrace {
    type V = GraceModel;

    open spec fn view(&self) -> GraceModel {
        GraceModel { slots: self.slots@, expires_at_ms: self.expires_at_ms, valid: self.valid }
    }
}

impl SyncRxGrace {
    pub open spec fn wf(self) -> bool {
        self.slots.wf()
    }

    fn maybe_expire(&mut self, now_ms: u64)
        requires
            old(self).wf(),
        ensures
            final(self).wf(),
            final(self)@ == old(self)@.at(now_ms),
    {
        if self.valid && now_ms >= self.expires_at_ms {
            *self = SyncRxGrace::default();
        }
    }
}

impl Default for SyncRxGrace {
    fn default() -> (grace: Self)
        ensures
            grace.wf(),
            grace@ == GraceModel::empty(),
    {
        SyncRxGrace { slots: RxSlots::empty(), expires_at_ms: 0, valid: false }
    }
}

/// The replay slots of one key domain and their grace state.
///
/// `grace_expiry_ms` repeats the expiry of the grace state; zero means that no
/// grace period runs.
#[derive(Clone, Copy, Debug)]
pub struct ReplayState {
    pub rx: RxSlots,
    pub grace: SyncRxGrace,
    pub grace_expiry_ms: u64,
}

/// The value of a replay domain.
pub struct DomainModel {
    pub rx: RxModel,
    pub grace: GraceModel,
    pub grace_expiry_ms: u64,
}

/// Where a packet is checked: its direction, the epoch that the session sends
/// in, and the highest epoch that the other key domain has authenticated.
#[derive(Clone, Copy)]
pub struct ReplayContext {
    pub dir: SecureDatagramDirection,
    pub send_epoch: u32,
    pub cross_domain_epoch: u32,
}

impl ReplayContext {
    /// The highest epoch that a direction accepts when `known` is the highest
    /// epoch among its slots.
    pub open spec fn epoch_limit(self, known: u32) -> int {
        let a = if self.send_epoch >= self.cross_domain_epoch {
            self.send_epoch
        } else {
            self.cross_domain_epoch
        };
        let b = if a >= known {
            a
        } else {
            known
        };
        if b + MAX_ACCEPTED_RX_EPOCH_AHEAD > u32::MAX {
            u32::MAX as int
        } else {
            b + MAX_ACCEPTED_RX_EPOCH_AHEAD
        }
    }

    fn limit(&self, known: u32) -> (limit: u32)
        ensures
            limit == self.epoch_limit(known),
    {
        max_u32(max_u32(self.send_epoch, self.cross_domain_epoch), known).saturating_add(
            MAX_ACCEPTED_RX_EPOCH_AHEAD,
        )
    }
}

impl DomainModel {
    pub open spec fn empty() -> DomainModel {
        DomainModel { rx: RxModel::empty(), grace: GraceModel::empty(), grace_expiry_ms: 0 }
    }

    /// Whether a packet could be accepted. With `grace` set, the epochs of the
    /// grace state are looked at first.
    pub open spec fn acceptable(
        self,
        grace: bool,
        ctx: ReplayContext,
        epoch: u32,
        seq: u64,
    ) -> bool {
        let old_pair = self.grace.slots.pair(ctx.dir);
        let pair = self.rx.pair(ctx.dir);
        if grace && old_pair.holds(epoch) {
            old_pair.slot(epoch).window.can_accept(256, seq)
        } else if !pair.cur.valid {
            epoch <= ctx.epoch_limit(0)
        } else if epoch == pair.cur.epoch {
            pair.cur.window.can_accept(256, seq)
        } else if pair.prev.holds(epoch) {
            pair.prev.window.can_accept(256, seq)
        } else {
            epoch > pair.cur.epoch && epoch <= ctx.epoch_limit(pair.max_epoch())
        }
    }

    /// The state after an authenticated packet was offered: a number is
    /// recorded in the slot of its epoch, and a newer epoch becomes current.
    pub open spec fn committed(
        self,
        grace: bool,
        ctx: ReplayContext,
        epoch: u32,
        seq: u64,
        now_ms: u64,
    ) -> DomainModel {
        let old_pair = self.grace.slots.pair(ctx.dir);
        let pair = self.rx.pair(ctx.dir);
        if grace && old_pair.holds(epoch) {
            DomainModel {
                grace: GraceModel {
                    slots: self.grace.slots.with_pair(
                        ctx.dir,
                        old_pair.with_slot(epoch, old_pair.slot(epoch).offered(seq, now_ms)),
                    ),
                    ..self.grace
                },
                ..self
            }
        } else {
            let next = if !pair.cur.valid {
                if epoch <= ctx.epoch_limit(0) {
                    PairModel { cur: SlotModel::opened(epoch, seq, now_ms), ..pair }
                } else {
                    pair
                }
            } else if epoch == pair.cur.epoch {
                PairModel { cur: pair.cur.offered(seq, now_ms), ..pair }
            } else if pair.prev.holds(epoch) {
                PairModel { prev: pair.prev.offered(seq, now_ms), ..pair }
            } else if epoch > pair.cur.epoch && epoch <= ctx.epoch_limit(pair.max_epoch()) {
                PairModel { cur: SlotModel::opened(epoch, seq, now_ms), prev: pair.cur }
            } else {
                pair
            };
            DomainModel { rx: self.rx.with_pair(ctx.dir, next), ..self }
        }
    }

    /// The highest epoch that the domain has authenticated.
    pub open spec fn authenticated_epoch(self, grace: bool) -> u32 {
        let a = self.rx.max_epoch();
        let b = self.grace.slots.max_epoch();
        if grace && b > a {
            b
        } else {
            a
        }
    }

    /// Whether the grace state counts for a check of several packets.
    pub open spec fn grace_in_snapshot(self, now_ms: u64) -> bool {
        self.grace.valid && now_ms < self.grace.expires_at_ms
    }

    /// The state after such a look.
    pub open spec fn after_snapshot(self, now_ms: u64) -> DomainModel {
        if self.grace.valid && now_ms >= self.grace.expires_at_ms {
            DomainModel { grace_expiry_ms: 0, ..self }
        } else {
            self
        }
    }

    /// Whether the grace state counts when the repeated expiry is asked first.
    pub open spec fn grace_by_expiry(self, now_ms: u64) -> bool {
        self.grace_expiry_ms != 0 && now_ms < self.grace_expiry_ms && self.grace.valid && now_ms
            < self.grace.expires_at_ms
    }

    /// The state after asking the repeated expiry only.
    pub open spec fn after_expiry_look(self, now_ms: u64) -> DomainModel {
        if self.grace_expiry_ms == 0 || now_ms >= self.grace_expiry_ms || (self.grace.valid
            && now_ms >= self.grace.expires_at_ms) {
            DomainModel { grace_expiry_ms: 0, ..self }
        } else {
            self
        }
    }

    /// The state after asking the repeated expiry and then letting the grace
    /// state expire.
    pub open spec fn after_expiry_check(self, now_ms: u64) -> DomainModel {
        if self.grace_expiry_ms == 0 || now_ms >= self.grace_expiry_ms {
            DomainModel { grace_expiry_ms: 0, ..self }
        } else if self.grace.at(now_ms).valid {
            self
        } else {
            DomainModel { grace: self.grace.at(now_ms), grace_expiry_ms: 0, ..self }
        }
    }

    /// The state after letting the grace state expire.
    pub open spec fn after_expiry(self, now_ms: u64) -> DomainModel {
        if self.grace.at(now_ms).valid {
            self
        } else {
            DomainModel { grace: self.grace.at(now_ms), grace_expiry_ms: 0, ..self }
        }
    }

    /// The state after a synchronization to `epoch`. Only with `preserve` do
    /// the earlier epochs stay acceptable until the grace period ends.
    pub open spec fn synchronized(self, preserve: bool, epoch: u32, expires_at_ms: u64) -> DomainModel {
        if preserve {
            DomainModel {
                rx: self.rx.kept_for(epoch),
                grace: GraceModel {
                    slots: self.rx.moved_for(epoch),
                    expires_at_ms,
                    valid: true,
                },
                grace_expiry_ms: expires_at_ms,
            }
        } else {
            DomainModel::empty()
        }
    }
}

impl View for ReplayState {
    type V = DomainModel;

    open spec fn view(&self) -> DomainModel {
        DomainModel {
            rx: self.rx@,
            grace: self.grace@,
            grace_expiry_ms: self.grace_expiry_ms,
        }
    }
}

impl ReplayState {
    pub open spec fn wf(self) -> bool {
        self.rx.wf() && self.grace.wf() && self@.sound()
    }

    pub fn empty() -> (domain: Self)
        ensures
            domain.wf(),
            domain@ == DomainModel::empty(),
    {
        ReplayState { rx: RxSlots::empty(), grace: SyncRxGrace::default(), grace_expiry_ms: 0 }
    }

    /// Whether a packet could be accepted.
    pub fn precheck_replay_state(
        &self,
        grace: bool,
        ctx: ReplayContext,
        epoch: u32,
        seq: u64,
    ) -> (acceptable: bool)
        requires
            self.wf(),
        ensures
            acceptable == self@.acceptable(grace, ctx, epoch, seq),
    {
        if grace {
            let old_pair = self.grace.slots.pair(ctx.dir);
            if old_pair.holds(epoch) {
                return old_pair.can_accept(epoch, seq);
            }
        }
        let pair = self.rx.pair(ctx.dir);
        if !pair.cur.valid {
            return epoch <= ctx.limit(0);
        }
        if epoch == pair.cur.epoch {
            return pair.cur.window.can_accept(seq);
        }
        if pair.prev.valid && epoch == pair.prev.epoch {
            return pair.prev.window.can_accept(seq);
        }
        if epoch > pair.cur.epoch {
            return epoch <= ctx.limit(pair.max_epoch());
        }
        false
    }

    /// Records an authenticated packet. Only a packet that is new is accepted.
    pub fn commit_replay_state(
        &mut self,
        grace: bool,
        ctx: ReplayContext,
        epoch: u32,
        seq: u64,
        now_ms: u64,
    ) -> (accepted: bool)
        requires
            old(self).wf(),
        ensures
            final(self).wf(),
            accepted == old(self)@.acceptable(grace, ctx, epoch, seq),
            final(self)@ == old(self)@.committed(grace, ctx, epoch, seq, now_ms),
    {
        proof {
            lemma_committed_stays_sound(
                self@,
                Offer { ctx, epoch, seq, now_ms, grace },
            );
        }
        if grace {
            let mut old_pair = self.grace.slots.pair(ctx.dir);
            if old_pair.holds(epoch) {
                let accepted = old_pair.offer(epoch, seq, now_ms);
                self.grace.slots.set_pair(ctx.dir, old_pair);
                return accepted;
            }
        }
        let mut pair = self.rx.pair(ctx.dir);
        let mut accepted = false;
        if !pair.cur.valid {
            if epoch <= ctx.limit(0) {
                pair.cur = EpochRxSlot::open(epoch, now_ms);
                accepted = pair.cur.offer(seq, now_ms);
            }
        } else if epoch == pair.cur.epoch {
            accepted = pair.cur.offer(seq, now_ms);
        } else if pair.prev.valid && epoch == pair.prev.epoch {
            accepted = pair.prev.offer(seq, now_ms);
        } else if epoch > pair.cur.epoch {
            if epoch <= ctx.limit(pair.max_epoch()) {
                pair.prev = pair.cur;
                pair.cur = EpochRxSlot::open(epoch, now_ms);
                accepted = pair.cur.offer(seq, now_ms);
            }
        }
        self.rx.set_pair(ctx.dir, pair);
        proof {
            let m = old(self)@;
            if !m.rx.pair(ctx.dir).cur.valid && epoch > ctx.epoch_limit(0) {
                assert(m.rx.with_pair(ctx.dir, m.rx.pair(ctx.dir)) =~= m.rx);
            }
        }
        accepted
    }

    /// The highest epoch that the domain has authenticated.
    pub fn max_authenticated_epoch(&self, grace: bool) -> (epoch: u32)
        ensures
            epoch == self@.authenticated_epoch(grace),
    {
        let a: u32 = self.rx.max_epoch();
        if grace {
            max_u32(a, self.grace.slots.max_epoch())
        } else {
            a
        }
    }

    /// Looks whether the grace state counts, by its own expiry.
    pub fn snapshot(&mut self, now_ms: u64) -> (grace: bool)
        requires
            old(self).wf(),
        ensures
            final(self).wf(),
            grace == old(self)@.grace_in_snapshot(now_ms),
            final(self)@ == old(self)@.after_snapshot(now_ms),
    {
        if self.grace.valid && now_ms >= self.grace.expires_at_ms {
            self.grace_expiry_ms = 0;
            return false;
        }
        self.grace.valid
    }

    /// Looks whether the grace state counts, by the repeated expiry and its own.
    pub fn expiry_snapshot(&mut self, now_ms: u64) -> (grace: bool)
        requires
            old(self).wf(),
        ensures
            final(self).wf(),
            grace == old(self)@.grace_by_expiry(now_ms),
            final(self)@ == old(self)@.after_expiry_look(now_ms),
    {
        if self.grace_expiry_ms == 0 || now_ms >= self.grace_expiry_ms || (self.grace.valid
            && now_ms >= self.grace.expires_at_ms) {
            self.grace_expiry_ms = 0;
            return false;
        }
        self.grace.valid
    }

    /// Asks the repeated expiry, and lets the grace state expire.
    pub fn grace_active(&mut self, now_ms: u64) -> (grace: bool)
        requires
            old(self).wf(),
        ensures
            final(self).wf(),
            grace == old(self)@.grace_by_expiry(now_ms),
            final(self)@ == old(self)@.after_expiry_check(now_ms),
    {
        if self.grace_expiry_ms == 0 {
            return false;
        }
        if now_ms >= self.grace_expiry_ms {
            self.grace_expiry_ms = 0;
            return false;
        }
        self.grace.maybe_expire(now_ms);
        if !self.grace.valid {
            self.grace_expiry_ms = 0;
        }
        self.grace.valid
    }

    /// Lets the grace state expire.
    pub fn expire_grace(&mut self, now_ms: u64) -> (grace: bool)
        requires
            old(self).wf(),
        ensures
            final(self).wf(),
            grace == old(self)@.grace_in_snapshot(now_ms),
            final(self)@ == old(self)@.after_expiry(now_ms),
    {
        self.grace.maybe_expire(now_ms);
        if !self.grace.valid {
            self.grace_expiry_ms = 0;
        }
        self.grace.valid
    }

    /// The highest epoch of the current slots.
    pub fn rx_max_epoch(&self) -> (epoch: u32)
        ensures
            epoch == self@.rx.max_epoch(),
    {
        self.rx.max_epoch()
    }

    /// Whether the session still uses an epoch in a direction.
    pub fn epoch_in_use(
        &self,
        grace: bool,
        send_epoch: u32,
        dir: SecureDatagramDirection,
        epoch: u32,
    ) -> (used: bool)
        ensures
            used == (epoch == send_epoch || self@.rx.pair(dir).holds(epoch) || (grace
                && self@.grace.slots.pair(dir).holds(epoch))),
    {
        epoch == send_epoch || self.rx.holds(dir, epoch) || (grace && self.grace.slots.holds(
            dir,
            epoch,
        ))
    }

    /// Starts a new epoch after a synchronization.
    pub fn synchronize(&mut self, preserve: bool, epoch: u32, expires_at_ms: u64)
        requires
            old(self).wf(),
        ensures
            final(self).wf(),
            final(self)@ == old(self)@.synchronized(preserve, epoch, expires_at_ms),
    {
        if preserve {
            let moved = RxSlots {
                a_to_b: self.rx.a_to_b.moved_for(epoch),
                b_to_a: self.rx.b_to_a.moved_for(epoch),
            };
            let kept = RxSlots {
                a_to_b: self.rx.a_to_b.kept_for(epoch),
                b_to_a: self.rx.b_to_a.kept_for(epoch),
            };
            self.rx = kept;
            self.grace = SyncRxGrace { slots: moved, expires_at_ms, valid: true };
            self.grace_expiry_ms = expires_at_ms;
        } else {
            *self = ReplayState::empty();
        }
    }
}

/// A packet that was recorded is refused when it is offered again.
pub proof fn lemma_committed_is_refused(
    domain: DomainModel,
    grace: bool,
    ctx: ReplayContext,
    again: ReplayContext,
    epoch: u32,
    seq: u64,
    now_ms: u64,
)
    requires
        domain.acceptable(grace, ctx, epoch, seq),
        again.dir == ctx.dir,
    ensures
        !domain.committed(grace, ctx, epoch, seq, now_ms).acceptable(grace, again, epoch, seq),
{
}

/// One packet that is offered to a replay domain, in a grace period or not.
pub struct Offer {
    pub ctx: ReplayContext,
    pub epoch: u32,
    pub seq: u64,
    pub now_ms: u64,
    pub grace: bool,
}

impl PairModel {
    /// The windows are within their histories.
    pub open spec fn bounded(self) -> bool {
        self.cur.window.wf(256) && self.prev.window.wf(256)
    }

    /// The windows are within their histories, and the epochs in order.
    pub open spec fn sound(self) -> bool {
        self.ordered() && self.bounded()
    }
}

impl DomainModel {
    /// What holds of a domain from its start on.
    pub open spec fn sound(self) -> bool {
        &&& self.rx.a_to_b.sound()
        &&& self.rx.b_to_a.sound()
        &&& self.grace.slots.a_to_b.bounded()
        &&& self.grace.slots.b_to_a.bounded()
    }

    /// Offering authenticated packets one after the other.
    pub open spec fn committed_all(self, offers: Seq<Offer>) -> DomainModel
        decreases offers.len(),
    {
        if offers.len() == 0 {
            self
        } else {
            let before = self.committed_all(offers.drop_last());
            let o = offers.last();
            before.committed(o.grace, o.ctx, o.epoch, o.seq, o.now_ms)
        }
    }

    /// A direction that has a current epoch refuses the packet for good: its
    /// number was seen, or its epoch was left behind.
    pub open spec fn refuses_for_good(self, dir: SecureDatagramDirection, epoch: u32, seq: u64) -> bool {
        let pair = self.rx.pair(dir);
        &&& pair.sound()
        &&& pair.cur.valid
        &&& if epoch == pair.cur.epoch {
            !pair.cur.window.can_accept(256, seq)
        } else {
            epoch < pair.cur.epoch && (pair.prev.holds(epoch) ==> !pair.prev.window.can_accept(
                256,
                seq,
            ))
        }
    }

    /// The grace state holds the epoch of a packet and has seen its number.
    pub open spec fn refuses_in_grace(self, dir: SecureDatagramDirection, epoch: u32, seq: u64) -> bool {
        let pair = self.grace.slots.pair(dir);
        &&& pair.bounded()
        &&& pair.holds(epoch)
        &&& !pair.slot(epoch).window.can_accept(256, seq)
    }
}

/// An offer keeps a domain sound.
pub proof fn lemma_committed_stays_sound(domain: DomainModel, offer: Offer)
    requires
        domain.sound(),
    ensures
        domain.committed(
            offer.grace,
            offer.ctx,
            offer.epoch,
            offer.seq,
            offer.now_ms,
        ).sound(),
{
    let pair = domain.rx.pair(offer.ctx.dir);
    let old_pair = domain.grace.slots.pair(offer.ctx.dir);
    crate::replay_model::lemma_offered_wf(WindowModel::fresh(), 256, offer.seq);
    crate::replay_model::lemma_offered_wf(pair.cur.window, 256, offer.seq);
    crate::replay_model::lemma_offered_wf(pair.prev.window, 256, offer.seq);
    crate::replay_model::lemma_offered_wf(old_pair.cur.window, 256, offer.seq);
    crate::replay_model::lemma_offered_wf(old_pair.prev.window, 256, offer.seq);
}

/// A domain is sound from its start on: offers, synchronizations and the end of
/// a grace period keep it so.
pub proof fn lemma_domain_stays_sound(
    domain: DomainModel,
    offer: Offer,
    preserve: bool,
    sync_epoch: u32,
    expires_at_ms: u64,
    now_ms: u64,
)
    requires
        domain.sound(),
    ensures
        DomainModel::empty().sound(),
        domain.committed(
            offer.grace,
            offer.ctx,
            offer.epoch,
            offer.seq,
            offer.now_ms,
        ).sound(),
        domain.synchronized(preserve, sync_epoch, expires_at_ms).sound(),
        domain.after_expiry(now_ms).sound(),
        domain.after_expiry_check(now_ms).sound(),
        domain.after_expiry_look(now_ms).sound(),
        domain.after_snapshot(now_ms).sound(),
{
    lemma_committed_stays_sound(domain, offer);
}

/// A packet that is new stays new while packets before it, by epoch and then by
/// sequence number, are recorded in its direction.
pub proof fn lemma_earlier_leave_room(
    domain: DomainModel,
    grace: bool,
    ctx: ReplayContext,
    earlier: (u32, u64),
    epoch: u32,
    seq: u64,
    now_ms: u64,
)
    requires
        domain.sound(),
        domain.acceptable(grace, ctx, epoch, seq),
        earlier.0 < epoch || (earlier.0 == epoch && earlier.1 < seq),
    ensures
        domain.committed(grace, ctx, earlier.0, earlier.1, now_ms).acceptable(grace, ctx, epoch, seq),
{
    let pair = domain.rx.pair(ctx.dir);
    let old_pair = domain.grace.slots.pair(ctx.dir);
    if earlier.0 == epoch {
        if grace && old_pair.holds(epoch) {
            crate::replay_model::lemma_smaller_leaves_room(
                old_pair.slot(epoch).window,
                256,
                earlier.1,
                seq,
            );
        } else if pair.cur.valid && epoch == pair.cur.epoch {
            crate::replay_model::lemma_smaller_leaves_room(pair.cur.window, 256, earlier.1, seq);
        } else if pair.prev.holds(epoch) {
            crate::replay_model::lemma_smaller_leaves_room(pair.prev.window, 256, earlier.1, seq);
        } else {
            crate::replay_model::lemma_smaller_leaves_room(WindowModel::fresh(), 256, earlier.1, seq);
        }
    }
}

/// An epoch that no slot of a direction holds is acceptable when it is newer than
/// the current one and at most three epochs ahead of the highest that the session
/// sends in, or has received in: with nothing received yet, it need not be newer.
pub proof fn lemma_epochs_ahead(
    domain: DomainModel,
    ctx: ReplayContext,
    epoch: u32,
    seq: u64,
    known: u32,
)
    requires
        domain.sound(),
        ({
            let pair = domain.rx.pair(ctx.dir);
            &&& !(pair.cur.valid && pair.cur.epoch == epoch)
            &&& !(pair.prev.valid && pair.prev.epoch == epoch)
            &&& pair.cur.valid ==> known == pair.cur.epoch
            &&& !pair.cur.valid ==> known == 0
        }),
    ensures
        domain.acceptable(false, ctx, epoch, seq) == ({
            &&& domain.rx.pair(ctx.dir).cur.valid ==> epoch > known
            &&& epoch <= ctx.send_epoch + 3 || epoch <= ctx.cross_domain_epoch + 3 || epoch <= known
                + 3
        }),
{
}

/// Recording a packet changes the verdicts on its own epoch by that packet and by
/// what it leaves behind, and by nothing else.
pub proof fn lemma_recording_bars_only(
    domain: DomainModel,
    grace: bool,
    ctx: ReplayContext,
    epoch: u32,
    seq: u64,
    now_ms: u64,
    other: u64,
)
    requires
        domain.sound(),
    ensures
        domain.committed(grace, ctx, epoch, seq, now_ms).acceptable(grace, ctx, epoch, other) == (
        domain.acceptable(grace, ctx, epoch, other) && other != seq && seq - other < 256),
{
    let pair = domain.rx.pair(ctx.dir);
    let old_pair = domain.grace.slots.pair(ctx.dir);
    crate::replay_model::lemma_offer_bars_only(WindowModel::fresh(), 256, seq, other);
    crate::replay_model::lemma_offer_bars_only(pair.cur.window, 256, seq, other);
    crate::replay_model::lemma_offer_bars_only(pair.prev.window, 256, seq, other);
    crate::replay_model::lemma_offer_bars_only(old_pair.cur.window, 256, seq, other);
    crate::replay_model::lemma_offer_bars_only(old_pair.prev.window, 256, seq, other);
}

/// Recording a packet changes no verdict on the epochs that a direction holds,
/// but its own, as long as it opens no epoch; where it opens one, the epoch that
/// was the newest until then keeps its verdicts.
pub proof fn lemma_newest_epoch_stays_open(
    domain: DomainModel,
    grace: bool,
    ctx: ReplayContext,
    epoch: u32,
    seq: u64,
    now_ms: u64,
    held: u32,
    other: u64,
)
    requires
        domain.sound(),
        held != epoch,
        domain.rx.pair(ctx.dir).cur.valid,
        held == domain.rx.pair(ctx.dir).cur.epoch || (epoch <= domain.rx.pair(ctx.dir).cur.epoch
            && domain.rx.pair(ctx.dir).prev.valid && held == domain.rx.pair(ctx.dir).prev.epoch),
    ensures
        domain.committed(grace, ctx, epoch, seq, now_ms).acceptable(grace, ctx, held, other)
            == domain.acceptable(grace, ctx, held, other),
{
}

/// The directions do not touch each other: what is recorded in one changes no
/// verdict in the other.
pub proof fn lemma_directions_are_apart(
    domain: DomainModel,
    grace: bool,
    ctx: ReplayContext,
    epoch: u32,
    seq: u64,
    now_ms: u64,
    there: ReplayContext,
    other_epoch: u32,
    other: u64,
)
    requires
        there.dir != ctx.dir,
    ensures
        domain.committed(grace, ctx, epoch, seq, now_ms).acceptable(grace, there, other_epoch, other)
            == domain.acceptable(grace, there, other_epoch, other),
{
}

/// Whether some packets bar a number of an epoch: one of them is the packet, or
/// has left it behind.
pub open spec fn barred_by(offers: Seq<Offer>, epoch: u32, seq: u64) -> bool {
    exists|i: int|
        0 <= i < offers.len() && (#[trigger] offers[i]).epoch == epoch && (offers[i].seq == seq
            || offers[i].seq - seq >= 256)
}

/// A key rotation loses nothing that is on its way: while packets of two epochs
/// arrive in a direction, in any order after the first one of the earlier epoch,
/// a packet of either epoch is refused only if it was seen or was left behind by
/// the packets of its own epoch.
pub proof fn lemma_rotation_loses_nothing(
    domain: DomainModel,
    ctx: ReplayContext,
    earlier: u32,
    later: u32,
    offers: Seq<Offer>,
    seq: u64,
)
    requires
        domain.sound(),
        !domain.rx.pair(ctx.dir).cur.valid,
        earlier <= ctx.send_epoch + 3 || earlier <= ctx.cross_domain_epoch + 3,
        earlier < later <= earlier + 3,
        offers.len() > 0,
        offers[0].epoch == earlier,
        forall|i: int|
            0 <= i < offers.len() ==> {
                &&& (#[trigger] offers[i]).ctx == ctx
                &&& !offers[i].grace
                &&& offers[i].epoch == earlier || offers[i].epoch == later
            },
    ensures
        domain.committed_all(offers).acceptable(false, ctx, earlier, seq) == !barred_by(
            offers,
            earlier,
            seq,
        ),
        domain.committed_all(offers).acceptable(false, ctx, later, seq) == !barred_by(
            offers,
            later,
            seq,
        ),
{
    lemma_rotation_steps(domain, ctx, earlier, later, offers, seq);
}

proof fn lemma_rotation_steps(
    domain: DomainModel,
    ctx: ReplayContext,
    earlier: u32,
    later: u32,
    offers: Seq<Offer>,
    seq: u64,
)
    requires
        domain.sound(),
        !domain.rx.pair(ctx.dir).cur.valid,
        earlier <= ctx.send_epoch + 3 || earlier <= ctx.cross_domain_epoch + 3,
        earlier < later <= earlier + 3,
        offers.len() > 0,
        offers[0].epoch == earlier,
        forall|i: int|
            0 <= i < offers.len() ==> {
                &&& (#[trigger] offers[i]).ctx == ctx
                &&& !offers[i].grace
                &&& offers[i].epoch == earlier || offers[i].epoch == later
            },
    ensures
        ({
            let after = domain.committed_all(offers);
            let pair = after.rx.pair(ctx.dir);
            &&& after.sound()
            &&& pair.cur.valid
            &&& pair.cur.epoch == earlier || (pair.cur.epoch == later && pair.prev.holds(earlier))
            &&& after.acceptable(false, ctx, earlier, seq) == !barred_by(offers, earlier, seq)
            &&& after.acceptable(false, ctx, later, seq) == !barred_by(offers, later, seq)
        }),
    decreases offers.len(),
{
    let n = offers.len() as int;
    let o = offers.last();
    assert(o == offers[n - 1]);
    let rest = offers.drop_last();
    let before = domain.committed_all(rest);
    assert(domain.committed_all(offers) == before.committed(o.grace, o.ctx, o.epoch, o.seq, o.now_ms));
    assert(forall|i: int| 0 <= i < rest.len() ==> rest[i] == offers[i]);
    assert forall|epoch: u32| barred_by(offers, epoch, seq) == (#[trigger] barred_by(rest, epoch, seq)
        || (o.epoch == epoch && (o.seq == seq || o.seq - seq >= 256))) by {
        if barred_by(offers, epoch, seq) {
            let i = choose|i: int|
                0 <= i < offers.len() && (#[trigger] offers[i]).epoch == epoch && (offers[i].seq
                    == seq || offers[i].seq - seq >= 256);
            if i < n - 1 {
                assert(rest[i] == offers[i]);
            }
        }
        if barred_by(rest, epoch, seq) {
            let i = choose|i: int|
                0 <= i < rest.len() && (#[trigger] rest[i]).epoch == epoch && (rest[i].seq == seq
                    || rest[i].seq - seq >= 256);
            assert(offers[i] == rest[i]);
        }
        if o.epoch == epoch && (o.seq == seq || o.seq - seq >= 256) {
            assert(offers[n - 1].epoch == epoch);
        }
    }
    assert(barred_by(rest, earlier, seq) || !barred_by(rest, earlier, seq));
    assert(barred_by(rest, later, seq) || !barred_by(rest, later, seq));
    if rest.len() == 0 {
        assert(before == domain);
        lemma_epochs_ahead(domain, ctx, earlier, seq, 0);
        crate::replay_model::lemma_offer_bars_only(WindowModel::fresh(), 256, o.seq, seq);
        lemma_committed_stays_sound(before, o);
    } else {
        lemma_rotation_steps(domain, ctx, earlier, later, rest, seq);
        lemma_committed_stays_sound(before, o);
        lemma_recording_bars_only(before, false, ctx, o.epoch, o.seq, o.now_ms, seq);
    }
}

/// A synchronization that keeps the earlier epochs keeps their verdicts: until the
/// grace period ends, a packet of an epoch that was held is judged as before.
pub proof fn lemma_sync_keeps_verdicts(
    domain: DomainModel,
    ctx: ReplayContext,
    sync_epoch: u32,
    expires_at_ms: u64,
    epoch: u32,
    seq: u64,
)
    requires
        domain.sound(),
        domain.rx.pair(ctx.dir).cur.valid,
        epoch == domain.rx.pair(ctx.dir).cur.epoch || (domain.rx.pair(ctx.dir).prev.valid && epoch
            == domain.rx.pair(ctx.dir).prev.epoch),
    ensures
        domain.synchronized(true, sync_epoch, expires_at_ms).acceptable(true, ctx, epoch, seq)
            == domain.acceptable(false, ctx, epoch, seq),
{
}

/// A synchronization that keeps nothing starts afresh: no packet was seen, and
/// every epoch up to three ahead is acceptable.
pub proof fn lemma_sync_starts_afresh(
    domain: DomainModel,
    grace: bool,
    ctx: ReplayContext,
    sync_epoch: u32,
    expires_at_ms: u64,
    epoch: u32,
    seq: u64,
)
    ensures
        domain.synchronized(false, sync_epoch, expires_at_ms).acceptable(grace, ctx, epoch, seq) == (
        epoch <= ctx.send_epoch + 3 || epoch <= ctx.cross_domain_epoch + 3),
{
}

/// The grace period runs from a synchronization that keeps earlier epochs until
/// its expiry, and no other way of asking says otherwise.
pub proof fn lemma_grace_runs_until_expiry(
    domain: DomainModel,
    preserve: bool,
    sync_epoch: u32,
    expires_at_ms: u64,
    now_ms: u64,
)
    ensures
        ({
            let after = domain.synchronized(preserve, sync_epoch, expires_at_ms);
            &&& after.grace_by_expiry(now_ms) == (preserve && now_ms < expires_at_ms)
            &&& after.grace_in_snapshot(now_ms) == (preserve && now_ms < expires_at_ms)
        }),
{
}

/// Until the next synchronization, a packet that was accepted once is never
/// accepted again, whatever other packets are accepted in between: neither by
/// the slots nor by the grace state. What the grace state has accepted is
/// refused as long as the grace period runs.
pub proof fn lemma_accepted_once_per_sync(
    domain: DomainModel,
    offer: Offer,
    later: Seq<Offer>,
    again: Offer,
)
    requires
        domain.acceptable(offer.grace, offer.ctx, offer.epoch, offer.seq),
        domain.sound(),
        again.ctx.dir == offer.ctx.dir,
        again.epoch == offer.epoch,
        again.seq == offer.seq,
        again.grace ==> offer.grace,
        offer.grace && domain.grace.slots.pair(offer.ctx.dir).holds(offer.epoch) ==> again.grace,
    ensures
        !domain.committed_all(seq![offer]).committed_all(later).acceptable(
            again.grace,
            again.ctx,
            again.epoch,
            again.seq,
        ),
{
    let dir = offer.ctx.dir;
    let (epoch, seq) = (offer.epoch, offer.seq);
    reveal_with_fuel(DomainModel::committed_all, 2);
    assert(seq![offer].drop_last() =~= Seq::<Offer>::empty());
    let after = domain.committed_all(seq![offer]);
    assert(after == domain.committed(offer.grace, offer.ctx, epoch, seq, offer.now_ms));
    let pair = domain.rx.pair(dir);
    let old_pair = domain.grace.slots.pair(dir);
    crate::replay_model::lemma_offered_wf(WindowModel::fresh(), 256, seq);
    crate::replay_model::lemma_offered_wf(pair.cur.window, 256, seq);
    crate::replay_model::lemma_offered_wf(pair.prev.window, 256, seq);
    crate::replay_model::lemma_offered_wf(old_pair.cur.window, 256, seq);
    crate::replay_model::lemma_offered_wf(old_pair.prev.window, 256, seq);
    lemma_grace_epochs_stay(after, dir, epoch, later);
    if offer.grace && old_pair.holds(epoch) {
        assert(after.refuses_in_grace(dir, epoch, seq));
        lemma_grace_refusal_lasts(after, dir, epoch, seq, later);
    } else {
        assert(after.refuses_for_good(dir, epoch, seq));
        lemma_refusal_lasts(after, dir, epoch, seq, later);
    }
}

/// A packet that was accepted once is not accepted again after a synchronization
/// under the same root key either, if its epoch was still held then: as long as
/// the grace period runs, and for good if the epoch is the one that goes on.
pub proof fn lemma_accepted_once_across_sync(
    domain: DomainModel,
    offer: Offer,
    before: Seq<Offer>,
    sync_epoch: u32,
    expires_at_ms: u64,
    later: Seq<Offer>,
    again: Offer,
)
    requires
        domain.acceptable(offer.grace, offer.ctx, offer.epoch, offer.seq),
        domain.sound(),
        !(offer.grace && domain.grace.slots.pair(offer.ctx.dir).holds(offer.epoch)),
        domain.committed_all(seq![offer]).committed_all(before).rx.pair(offer.ctx.dir).holds(
            offer.epoch,
        ),
        again.ctx.dir == offer.ctx.dir,
        again.epoch == offer.epoch,
        again.seq == offer.seq,
        again.grace || offer.epoch == sync_epoch,
    ensures
        !domain.committed_all(seq![offer]).committed_all(before).synchronized(
            true,
            sync_epoch,
            expires_at_ms,
        ).committed_all(later).acceptable(again.grace, again.ctx, again.epoch, again.seq),
{
    let dir = offer.ctx.dir;
    let (epoch, seq) = (offer.epoch, offer.seq);
    reveal_with_fuel(DomainModel::committed_all, 2);
    assert(seq![offer].drop_last() =~= Seq::<Offer>::empty());
    let after = domain.committed_all(seq![offer]);
    assert(after == domain.committed(offer.grace, offer.ctx, epoch, seq, offer.now_ms));
    let pair = domain.rx.pair(dir);
    crate::replay_model::lemma_offered_wf(WindowModel::fresh(), 256, seq);
    crate::replay_model::lemma_offered_wf(pair.cur.window, 256, seq);
    crate::replay_model::lemma_offered_wf(pair.prev.window, 256, seq);
    assert(after.refuses_for_good(dir, epoch, seq));
    lemma_refusal_lasts(after, dir, epoch, seq, before);
    let held = after.committed_all(before);
    let synced = held.synchronized(true, sync_epoch, expires_at_ms);
    lemma_grace_epochs_stay(synced, dir, epoch, later);
    if epoch == sync_epoch {
        assert(synced.refuses_for_good(dir, epoch, seq));
        lemma_refusal_lasts(synced, dir, epoch, seq, later);
    } else {
        assert(synced.refuses_in_grace(dir, epoch, seq));
        lemma_grace_refusal_lasts(synced, dir, epoch, seq, later);
    }
}

/// Offers neither bring an epoch into the grace state nor take one out.
pub proof fn lemma_grace_epochs_stay(
    domain: DomainModel,
    dir: SecureDatagramDirection,
    epoch: u32,
    later: Seq<Offer>,
)
    ensures
        domain.committed_all(later).grace.slots.pair(dir).holds(epoch)
            == domain.grace.slots.pair(dir).holds(epoch),
    decreases later.len(),
{
    if later.len() > 0 {
        lemma_grace_epochs_stay(domain, dir, epoch, later.drop_last());
    }
}

/// What the grace state refuses stays refused by it.
pub proof fn lemma_grace_refusal_lasts(
    domain: DomainModel,
    dir: SecureDatagramDirection,
    epoch: u32,
    seq: u64,
    later: Seq<Offer>,
)
    requires
        domain.refuses_in_grace(dir, epoch, seq),
    ensures
        domain.committed_all(later).refuses_in_grace(dir, epoch, seq),
    decreases later.len(),
{
    if later.len() > 0 {
        lemma_grace_refusal_lasts(domain, dir, epoch, seq, later.drop_last());
        let before = domain.committed_all(later.drop_last());
        let o = later.last();
        let pair = before.grace.slots.pair(dir);
        crate::replay_model::lemma_offered_wf(pair.cur.window, 256, o.seq);
        crate::replay_model::lemma_offered_wf(pair.prev.window, 256, o.seq);
        let rest = seq![o.seq];
        crate::replay_model::lemma_stays_refused(pair.slot(epoch).window, 256, seq, rest);
        assert(rest.drop_last() =~= Seq::<u64>::empty());
        reveal_with_fuel(WindowModel::offered_all, 2);
    }
}

/// What a direction refuses for good stays refused.
pub proof fn lemma_refusal_lasts(
    domain: DomainModel,
    dir: SecureDatagramDirection,
    epoch: u32,
    seq: u64,
    later: Seq<Offer>,
)
    requires
        domain.refuses_for_good(dir, epoch, seq),
    ensures
        domain.committed_all(later).refuses_for_good(dir, epoch, seq),
    decreases later.len(),
{
    if later.len() > 0 {
        lemma_refusal_lasts(domain, dir, epoch, seq, later.drop_last());
        let before = domain.committed_all(later.drop_last());
        let o = later.last();
        let pair = before.rx.pair(dir);
        crate::replay_model::lemma_offered_wf(WindowModel::fresh(), 256, o.seq);
        crate::replay_model::lemma_offered_wf(pair.cur.window, 256, o.seq);
        crate::replay_model::lemma_offered_wf(pair.prev.window, 256, o.seq);
        if o.ctx.dir == dir {
            let rest = seq![o.seq];
            if !pair.cur.window.can_accept(256, seq) {
                crate::replay_model::lemma_stays_refused(pair.cur.window, 256, seq, rest);
                assert(rest.drop_last() =~= Seq::<u64>::empty());
                reveal_with_fuel(WindowModel::offered_all, 2);
            }
            if !pair.prev.window.can_accept(256, seq) {
                crate::replay_model::lemma_stays_refused(pair.prev.window, 256, seq, rest);
                assert(rest.drop_last() =~= Seq::<u64>::empty());
                reveal_with_fuel(WindowModel::offered_all, 2);
            }
        }
    }
}

/// The value of a replay domain, as sessions carry it.
pub struct DomainView {
    pub inner: Seq<DomainModel>,
}

impl DomainView {
    /// The slots and the grace state behind the value.
    pub open spec fn model(self) -> DomainModel {
        self.inner[0]
    }

    #[verifier::opaque]
    pub open spec fn of(model: DomainModel) -> DomainView {
        DomainView { inner: seq![model] }
    }

    /// A domain that has accepted nothing.
    pub open spec fn empty() -> DomainView {
        DomainView::of(DomainModel::empty())
    }

    /// Whether a packet could be accepted; see [`DomainModel::acceptable`].
    #[verifier::opaque]
    pub open spec fn acceptable(
        self,
        grace: bool,
        ctx: ReplayContext,
        epoch: u32,
        seq: u64,
    ) -> bool {
        self.model().acceptable(grace, ctx, epoch, seq)
    }

    /// The domain after an authenticated packet was offered; see
    /// [`DomainModel::committed`].
    #[verifier::opaque]
    pub open spec fn committed(
        self,
        grace: bool,
        ctx: ReplayContext,
        epoch: u32,
        seq: u64,
        now_ms: u64,
    ) -> DomainView {
        DomainView::of(self.model().committed(grace, ctx, epoch, seq, now_ms))
    }

    /// The highest epoch of the current slots.
    #[verifier::opaque]
    pub open spec fn rx_max_epoch(self) -> u32 {
        self.model().rx.max_epoch()
    }

    /// The highest epoch that the domain has authenticated.
    #[verifier::opaque]
    pub open spec fn authenticated_epoch(self, grace: bool) -> u32 {
        self.model().authenticated_epoch(grace)
    }

    #[verifier::opaque]
    pub open spec fn grace_in_snapshot(self, now_ms: u64) -> bool {
        self.model().grace_in_snapshot(now_ms)
    }

    #[verifier::opaque]
    pub open spec fn after_snapshot(self, now_ms: u64) -> DomainView {
        DomainView::of(self.model().after_snapshot(now_ms))
    }

    #[verifier::opaque]
    pub open spec fn grace_by_expiry(self, now_ms: u64) -> bool {
        self.model().grace_by_expiry(now_ms)
    }

    #[verifier::opaque]
    pub open spec fn after_expiry_look(self, now_ms: u64) -> DomainView {
        DomainView::of(self.model().after_expiry_look(now_ms))
    }

    #[verifier::opaque]
    pub open spec fn after_expiry_check(self, now_ms: u64) -> DomainView {
        DomainView::of(self.model().after_expiry_check(now_ms))
    }

    #[verifier::opaque]
    pub open spec fn after_expiry(self, now_ms: u64) -> DomainView {
        DomainView::of(self.model().after_expiry(now_ms))
    }

    /// The domain after a synchronization; see [`DomainModel::synchronized`].
    #[verifier::opaque]
    pub open spec fn synchronized(self, preserve: bool, epoch: u32, expires_at_ms: u64) -> DomainView {
        DomainView::of(self.model().synchronized(preserve, epoch, expires_at_ms))
    }
}

/// Looking at the expiry of the grace state changes no verdict.
pub proof fn lemma_looks_keep_verdicts(domain: DomainView, now_ms: u64)
    ensures
        forall|g: bool| #[trigger]
            domain.after_expiry_look(now_ms).authenticated_epoch(g) == domain.authenticated_epoch(g),
        forall|g: bool| #[trigger]
            domain.after_snapshot(now_ms).authenticated_epoch(g) == domain.authenticated_epoch(g),
        forall|g: bool, ctx: ReplayContext, epoch: u32, seq: u64| #[trigger]
            domain.after_expiry_look(now_ms).acceptable(g, ctx, epoch, seq) == domain.acceptable(
                g,
                ctx,
                epoch,
                seq,
            ),
        forall|g: bool, ctx: ReplayContext, epoch: u32, seq: u64| #[trigger]
            domain.after_snapshot(now_ms).acceptable(g, ctx, epoch, seq) == domain.acceptable(
                g,
                ctx,
                epoch,
                seq,
            ),
        forall|ctx: ReplayContext, epoch: u32, seq: u64| #[trigger]
            domain.after_expiry_check(now_ms).acceptable(
                domain.grace_by_expiry(now_ms),
                ctx,
                epoch,
                seq,
            ) == domain.acceptable(domain.grace_by_expiry(now_ms), ctx, epoch, seq),
        forall|ctx: ReplayContext, epoch: u32, seq: u64| #[trigger]
            domain.after_expiry(now_ms).acceptable(
                domain.grace_in_snapshot(now_ms),
                ctx,
                epoch,
                seq,
            ) == domain.acceptable(domain.grace_in_snapshot(now_ms), ctx, epoch, seq),
{
    reveal(DomainView::of);
    reveal(DomainView::after_expiry_look);
    reveal(DomainView::after_snapshot);
    reveal(DomainView::after_expiry_check);
    reveal(DomainView::after_expiry);
    reveal(DomainView::grace_by_expiry);
    reveal(DomainView::grace_in_snapshot);
    reveal(DomainView::authenticated_epoch);
    reveal(DomainView::acceptable);
}

/// The replay state of one key domain.
#[derive(Clone, Copy, Debug)]
pub struct ReplayDomain {
    pub inner: [ReplayState; 1],
}

impl View for ReplayDomain {
    type V = DomainView;

    open spec fn view(&self) -> DomainView {
        self.value()
    }
}

impl ReplayDomain {
    #[verifier::opaque]
    pub open spec fn value(self) -> DomainView {
        DomainView::of(self.inner@[0]@)
    }

    #[verifier::opaque]
    pub open spec fn wf(self) -> bool {
        self.inner@[0].wf()
    }

    /// A replay domain is sound at all times.
    pub proof fn lemma_sound(self)
        requires
            self.wf(),
        ensures
            self@.model().sound(),
    {
        reveal(ReplayDomain::value);
        reveal(ReplayDomain::wf);
        reveal(DomainView::of);
    }

    pub fn empty() -> (domain: Self)
        ensures
            domain.wf(),
            domain@ == DomainView::empty(),
    {
        let domain = ReplayDomain { inner: [ReplayState::empty()] };
        proof {
            reveal(ReplayDomain::value);
            reveal(ReplayDomain::wf);
        }
        domain
    }

    /// Whether a packet could be accepted.
    pub fn precheck_replay_state(&self, grace: bool, ctx: ReplayContext, epoch: u32, seq: u64) -> (acceptable: bool)
        requires
            self.wf(),
        ensures
            acceptable == self@.acceptable(grace, ctx, epoch, seq),
    {
        proof {
            reveal(ReplayDomain::value);
            reveal(ReplayDomain::wf);
            reveal(DomainView::of);
            reveal(DomainView::acceptable);
        }
        self.inner[0].precheck_replay_state(grace, ctx, epoch, seq)
    }

    /// Records an authenticated packet. Only a packet that is new is accepted.
    pub fn commit_replay_state(&mut self, grace: bool, ctx: ReplayContext, epoch: u32, seq: u64, now_ms: u64) -> (accepted: bool)
        requires
            old(self).wf(),
        ensures
            final(self).wf(),
            accepted == old(self)@.acceptable(grace, ctx, epoch, seq),
            final(self)@ == old(self)@.committed(grace, ctx, epoch, seq, now_ms),
    {
        proof {
            reveal(ReplayDomain::value);
            reveal(ReplayDomain::wf);
            reveal(DomainView::of);
            reveal(DomainView::acceptable);
            reveal(DomainView::committed);
        }
        let mut state = self.inner[0];
        let accepted = state.commit_replay_state(grace, ctx, epoch, seq, now_ms);
        self.inner = [state];
        accepted
    }

    /// Looks whether the grace state counts, by its own expiry.
    pub fn snapshot(&mut self, now_ms: u64) -> (grace: bool)
        requires
            old(self).wf(),
        ensures
            final(self).wf(),
            grace == old(self)@.grace_in_snapshot(now_ms),
            final(self)@ == old(self)@.after_snapshot(now_ms),
    {
        proof {
            reveal(ReplayDomain::value);
            reveal(ReplayDomain::wf);
            reveal(DomainView::of);
            reveal(DomainView::grace_in_snapshot);
            reveal(DomainView::after_snapshot);
        }
        let mut state = self.inner[0];
        let grace = state.snapshot(now_ms);
        self.inner = [state];
        grace
    }

    /// Looks whether the grace state counts, by the repeated expiry and its own.
    pub fn expiry_snapshot(&mut self, now_ms: u64) -> (grace: bool)
        requires
            old(self).wf(),
        ensures
            final(self).wf(),
            grace == old(self)@.grace_by_expiry(now_ms),
            final(self)@ == old(self)@.after_expiry_look(now_ms),
    {
        proof {
            reveal(ReplayDomain::value);
            reveal(ReplayDomain::wf);
            reveal(DomainView::of);
            reveal(DomainView::grace_by_expiry);
            reveal(DomainView::after_expiry_look);
        }
        let mut state = self.inner[0];
        let grace = state.expiry_snapshot(now_ms);
        self.inner = [state];
        grace
    }

    /// Asks the repeated expiry, and lets the grace state expire.
    pub fn grace_active(&mut self, now_ms: u64) -> (grace: bool)
        requires
            old(self).wf(),
        ensures
            final(self).wf(),
            grace == old(self)@.grace_by_expiry(now_ms),
            final(self)@ == old(self)@.after_expiry_check(now_ms),
    {
        proof {
            reveal(ReplayDomain::value);
            reveal(ReplayDomain::wf);
            reveal(DomainView::of);
            reveal(DomainView::grace_by_expiry);
            reveal(DomainView::after_expiry_check);
        }
        let mut state = self.inner[0];
        let grace = state.grace_active(now_ms);
        self.inner = [state];
        grace
    }

    /// Lets the grace state expire.
    pub fn expire_grace(&mut self, now_ms: u64) -> (grace: bool)
        requires
            old(self).wf(),
        ensures
            final(self).wf(),
            grace == old(self)@.grace_in_snapshot(now_ms),
            final(self)@ == old(self)@.after_expiry(now_ms),
    {
        proof {
            reveal(ReplayDomain::value);
            reveal(ReplayDomain::wf);
            reveal(DomainView::of);
            reveal(DomainView::grace_in_snapshot);
            reveal(DomainView::after_expiry);
        }
        let mut state = self.inner[0];
        let grace = state.expire_grace(now_ms);
        self.inner = [state];
        grace
    }

    /// Starts a new epoch after a synchronization.
    pub fn synchronize(&mut self, preserve: bool, epoch: u32, expires_at_ms: u64)
        requires
            old(self).wf(),
        ensures
            final(self).wf(),
            final(self)@ == old(self)@.synchronized(preserve, epoch, expires_at_ms),
    {
        proof {
            reveal(ReplayDomain::value);
            reveal(ReplayDomain::wf);
            reveal(DomainView::of);
            reveal(DomainView::synchronized);
        }
        let mut state = self.inner[0];
        state.synchronize(preserve, epoch, expires_at_ms);
        self.inner = [state];
    }

    /// The highest epoch that the domain has authenticated.
    pub fn max_authenticated_epoch(&self, grace: bool) -> (epoch: u32)
        ensures
            epoch == self@.authenticated_epoch(grace),
    {
        proof {
            reveal(ReplayDomain::value);
            reveal(ReplayDomain::wf);
            reveal(DomainView::of);
            reveal(DomainView::authenticated_epoch);
        }
        self.inner[0].max_authenticated_epoch(grace)
    }

    /// The highest epoch of the current slots.
    pub fn rx_max_epoch(&self) -> (epoch: u32)
        ensures
            epoch == self@.rx_max_epoch(),
    {
        proof {
            reveal(ReplayDomain::value);
            reveal(ReplayDomain::wf);
            reveal(DomainView::of);
            reveal(DomainView::rx_max_epoch);
        }
        self.inner[0].rx_max_epoch()
    }

    /// Whether the session still uses an epoch in a direction.
    pub fn epoch_in_use(
        &self,
        grace: bool,
        send_epoch: u32,
        dir: SecureDatagramDirection,
        epoch: u32,
    ) -> (used: bool)
        ensures
            used == (epoch == send_epoch || self@.model().rx.pair(dir).holds(epoch) || (grace
                && self@.model().grace.slots.pair(dir).holds(epoch))),
    {
        proof {
            reveal(ReplayDomain::value);
            reveal(DomainView::of);
        }
        self.inner[0].epoch_in_use(grace, send_epoch, dir, epoch)
    }
}

} // verus!
