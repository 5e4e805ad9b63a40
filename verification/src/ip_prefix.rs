//! Addresses and prefixes of both internet protocols, as integers.

use vstd::prelude::*;

verus! {

/// An address: thirty-two bits, or a hundred and twenty-eight.
#[derive(Clone, Copy, Debug, PartialEq, Eq, Hash, Structural)]
pub struct IpAddress {
    pub v6: bool,
    pub bits: u128,
}

/// The number of bits of an address.
pub open spec fn width(v6: bool) -> u8 {
    if v6 {
        128
    } else {
        32
    }
}

/// The first bits of an address.
pub open spec fn leading_bits(v6: bool, bits: u128, length: u8) -> u128 {
    if length == 0 {
        0
    } else {
        bits >> ((width(v6) - length) as u128)
    }
}

impl IpAddress {
    pub open spec fn wf(self) -> bool {
        !self.v6 ==> self.bits <= u32::MAX
    }

    pub fn from_v4(bits: u32) -> (address: Self)
        ensures
            address.wf(),
            address == (IpAddress { v6: false, bits: bits as u128 }),
    {
        IpAddress { v6: false, bits: bits as u128 }
    }

    pub fn from_v6(bits: u128) -> (address: Self)
        ensures
            address.wf(),
            address == (IpAddress { v6: true, bits }),
    {
        IpAddress { v6: true, bits }
    }

    /// Whether an address stands for a group: `224.0.0.0/4` and `ff00::/8` do.
    pub open spec fn multicast(self) -> bool {
        if self.v6 {
            leading_bits(true, self.bits, 8) == 0xff
        } else {
            leading_bits(false, self.bits, 4) == 0xe
        }
    }

    pub fn is_multicast(&self) -> (multicast: bool)
        ensures
            multicast == self.multicast(),
    {
        if self.v6 {
            self.bits >> 120 == 0xff
        } else {
            self.bits >> 28 == 0xe
        }
    }
}

/// A prefix: the first bits that its addresses share, followed by zeros.
#[derive(Clone, Copy, Debug, PartialEq, Eq, Hash, Structural)]
pub struct IpPrefix {
    pub v6: bool,
    pub address: u128,
    pub length: u8,
}

impl IpPrefix {
    /// The length fits, and what follows the prefix is zero.
    pub open spec fn wf(self) -> bool {
        &&& self.length <= width(self.v6)
        &&& !self.v6 ==> self.address <= u32::MAX
        &&& self.length == 0 ==> self.address == 0
        &&& self.length > 0 ==> (leading_bits(self.v6, self.address, self.length) << ((width(
            self.v6,
        ) - self.length) as u128)) == self.address
    }

    /// Whether an address lies in the prefix.
    pub open spec fn covers(self, address: IpAddress) -> bool {
        &&& self.v6 == address.v6
        &&& self.length <= width(self.v6)
        &&& leading_bits(self.v6, self.address, self.length) == leading_bits(
            self.v6,
            address.bits,
            self.length,
        )
    }

    /// The prefix of a length that starts at an address, if there is one.
    pub fn new(start: IpAddress, length: u8) -> (prefix: Option<Self>)
        requires
            start.wf(),
        ensures
            ({
                let made = IpPrefix { v6: start.v6, address: start.bits, length };
                prefix == if made.wf() {
                    Some(made)
                } else {
                    None
                }
            }),
    {
        let width: u8 = if start.v6 {
            128
        } else {
            32
        };
        if length > width {
            return None;
        }
        let zeros = if length == 0 {
            start.bits == 0
        } else {
            let shift: u128 = (width - length) as u128;
            (start.bits >> shift) << shift == start.bits
        };
        if zeros {
            Some(IpPrefix { v6: start.v6, address: start.bits, length })
        } else {
            None
        }
    }

    /// The prefix that holds one address.
    pub fn host(address: IpAddress) -> (prefix: Self)
        requires
            address.wf(),
        ensures
            prefix == host_prefix(address),
            prefix.wf(),
    {
        let length: u8 = if address.v6 {
            128
        } else {
            32
        };
        let bits: u128 = address.bits;
        assert((bits >> 0u128) << 0u128 == bits) by (bit_vector);
        IpPrefix { v6: address.v6, address: address.bits, length }
    }

    /// The order of prefixes: the shorter protocol first, then by address, then
    /// by length.
    pub open spec fn before(self, other: IpPrefix) -> bool {
        if self.v6 != other.v6 {
            other.v6
        } else if self.address != other.address {
            self.address < other.address
        } else {
            self.length < other.length
        }
    }

    pub fn is_before(&self, other: &IpPrefix) -> (before: bool)
        ensures
            before == self.before(*other),
    {
        if self.v6 != other.v6 {
            other.v6
        } else if self.address != other.address {
            self.address < other.address
        } else {
            self.length < other.length
        }
    }
}

/// The prefix that holds one address.
pub open spec fn host_prefix(address: IpAddress) -> IpPrefix {
    IpPrefix { v6: address.v6, address: address.bits, length: width(address.v6) }
}

/// Only one prefix of a length holds an address.
pub proof fn lemma_covering_prefix_is_unique(a: IpPrefix, b: IpPrefix, address: IpAddress)
    requires
        a.wf(),
        b.wf(),
        a.covers(address),
        b.covers(address),
        a.length == b.length,
    ensures
        a == b,
{
}

/// Shifting to the left by some bits multiplies, where nothing is lost.
proof fn lemma_shift_multiplies(x: u128, shift: u128)
    requires
        shift < 128,
        x * vstd::arithmetic::power2::pow2(shift as nat) <= u128::MAX,
    ensures
        x << shift == x * vstd::arithmetic::power2::pow2(shift as nat),
    decreases shift,
{
    if shift == 0 {
        assert(x << 0u128 == x) by (bit_vector);
        vstd::arithmetic::power2::lemma2_to64();
        assert(x * 1 == x);
    } else {
        let less: u128 = (shift - 1) as u128;
        let p = vstd::arithmetic::power2::pow2(less as nat) as int;
        vstd::arithmetic::power2::lemma2_to64();
        vstd::arithmetic::power2::lemma_pow2_adds(less as nat, 1);
        assert(p * 2 == vstd::arithmetic::power2::pow2(shift as nat));
        let half = x * p;
        assert(half * 2 == x * (p * 2) && 0 <= half) by (nonlinear_arith)
            requires
                half == x * p,
                p >= 0,
        ;
        lemma_shift_multiplies(x, less);
        let y: u128 = x << less;
        assert(x << shift == (x << less) << 1u128) by (bit_vector)
            requires
                0 < shift < 128,
                less == shift - 1,
        ;
        assert(y << 1u128 == 2 * y) by (bit_vector)
            requires
                y <= 0x7fff_ffff_ffff_ffff_ffff_ffff_ffff_ffffu128,
        ;
        assert(y == half);
        assert(x << shift == half * 2);
        let whole = vstd::arithmetic::power2::pow2(shift as nat) as int;
        assert(x * whole == x * (p * 2)) by (nonlinear_arith)
            requires
                whole == p * 2,
        ;
    }
}

/// A prefix holds the addresses of its protocol from its own on, as many as the
/// bits that follow it can tell apart.
pub proof fn lemma_prefix_is_a_block(prefix: IpPrefix, address: IpAddress)
    requires
        prefix.wf(),
        prefix.length > 0,
    ensures
        prefix.v6 ==> prefix.covers(address) == (address.v6 && prefix.address <= address.bits
            < prefix.address + vstd::arithmetic::power2::pow2((128 - prefix.length) as nat)),
        !prefix.v6 ==> prefix.covers(address) == (!address.v6 && prefix.address <= address.bits
            < prefix.address + vstd::arithmetic::power2::pow2((32 - prefix.length) as nat)),
{
    let a = prefix.address as int;
    let b = address.bits as int;
    let k = (width(prefix.v6) - prefix.length) as u128;
    let p = vstd::arithmetic::power2::pow2(k as nat) as int;
    vstd::arithmetic::power2::lemma_pow2_pos(k as nat);
    vstd::bits::lemma_u128_shr_is_div(prefix.address, k);
    vstd::bits::lemma_u128_shr_is_div(address.bits, k);
    assert((a / p) * p <= a) by (nonlinear_arith)
        requires
            a >= 0,
            p > 0,
    ;
    lemma_shift_multiplies(prefix.address >> k, k);
    assert((a / p) * p == a);
    assert((a / p == b / p) == (a <= b < a + p)) by (nonlinear_arith)
        requires
            (a / p) * p == a,
            p > 0,
            a >= 0,
            b >= 0,
    ;
}

/// The prefix of no bits holds every address of its protocol.
pub proof fn lemma_empty_prefix_holds_all(prefix: IpPrefix, address: IpAddress)
    requires
        prefix.length == 0,
    ensures
        prefix.covers(address) == (prefix.v6 == address.v6),
{
}

/// Of two prefixes that hold an address, the addresses of the longer one all lie
/// in the shorter one: the longest is the most specific.
pub proof fn lemma_longer_prefix_lies_within(long: IpPrefix, short: IpPrefix, a: IpAddress, b: IpAddress)
    requires
        short.length <= long.length,
        long.covers(a),
        short.covers(a),
        long.covers(b),
    ensures
        short.covers(b),
{
    if short.length > 0 {
        let x = a.bits as int;
        let y = b.bits as int;
        let k = (width(long.v6) - long.length) as u128;
        let m = (width(long.v6) - short.length) as u128;
        let p = vstd::arithmetic::power2::pow2(k as nat) as int;
        let q = vstd::arithmetic::power2::pow2((m - k) as nat) as int;
        vstd::arithmetic::power2::lemma_pow2_pos(k as nat);
        vstd::arithmetic::power2::lemma_pow2_pos((m - k) as nat);
        vstd::arithmetic::power2::lemma_pow2_adds(k as nat, (m - k) as nat);
        vstd::bits::lemma_u128_shr_is_div(a.bits, k);
        vstd::bits::lemma_u128_shr_is_div(b.bits, k);
        vstd::bits::lemma_u128_shr_is_div(a.bits, m);
        vstd::bits::lemma_u128_shr_is_div(b.bits, m);
        vstd::arithmetic::div_mod::lemma_div_denominator(x, p, q);
        vstd::arithmetic::div_mod::lemma_div_denominator(y, p, q);
    }
}

/// An address stands for a group when it lies in `224.0.0.0/4` or in `ff00::/8`.
pub proof fn lemma_groups_are_two_blocks(address: IpAddress)
    requires
        address.wf(),
    ensures
        address.multicast() == if address.v6 {
            address.bits >= 0xff00_0000_0000_0000_0000_0000_0000_0000
        } else {
            0xe000_0000 <= address.bits <= 0xefff_ffff
        },
{
    let b = address.bits;
    if address.v6 {
        assert((b >> 120u128) == 0xff <==> b >= 0xff00_0000_0000_0000_0000_0000_0000_0000u128)
            by (bit_vector);
    } else {
        assert((b >> 28u128) == 0xe <==> (b >= 0xe000_0000u128 && b <= 0xefff_ffffu128))
            by (bit_vector);
    }
}

} // verus!
