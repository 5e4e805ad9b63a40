//! Integers as byte strings, and fixed-size keys.

use vstd::prelude::*;

verus! {

/// The number of values that `len` bytes can hold.
pub open spec fn pow256(len: nat) -> nat
    decreases len,
{
    if len == 0 {
        1
    } else {
        256 * pow256((len - 1) as nat)
    }
}

/// The big-endian encoding of `value` in `len` bytes.
pub open spec fn be_bytes(value: nat, len: nat) -> Seq<u8>
    decreases len,
{
    if len == 0 {
        Seq::empty()
    } else {
        be_bytes(value / 256, (len - 1) as nat).push((value % 256) as u8)
    }
}

/// The value of a big-endian byte string.
pub open spec fn be_value(bytes: Seq<u8>) -> nat
    decreases bytes.len(),
{
    if bytes.len() == 0 {
        0
    } else {
        be_value(bytes.drop_last()) * 256 + bytes.last() as nat
    }
}

/// The little-endian encoding of `value` in `len` bytes.
pub open spec fn le_bytes(value: nat, len: nat) -> Seq<u8> {
    be_bytes(value, len).reverse()
}

/// The value of a little-endian byte string.
pub open spec fn le_value(bytes: Seq<u8>) -> nat {
    be_value(bytes.reverse())
}

pub broadcast proof fn lemma_be_bytes_len(value: nat, len: nat)
    ensures
        #[trigger] be_bytes(value, len).len() == len,
    decreases len,
{
    if len > 0 {
        lemma_be_bytes_len(value / 256, (len - 1) as nat);
    }
}

/// Decoding an encoded value gives the value back.
pub proof fn lemma_be_value_of_bytes(value: nat, len: nat)
    requires
        value < pow256(len),
    ensures
        be_value(be_bytes(value, len)) == value,
        be_bytes(value, len).len() == len,
    decreases len,
{
    if len > 0 {
        assert(value / 256 < pow256((len - 1) as nat));
        lemma_be_value_of_bytes(value / 256, (len - 1) as nat);
        assert(be_bytes(value, len).drop_last() =~= be_bytes(value / 256, (len - 1) as nat));
    }
}

/// Encoding a decoded byte string gives the byte string back.
pub proof fn lemma_be_bytes_of_value(bytes: Seq<u8>)
    ensures
        be_value(bytes) < pow256(bytes.len()),
        be_bytes(be_value(bytes), bytes.len()) == bytes,
    decreases bytes.len(),
{
    if bytes.len() > 0 {
        lemma_be_bytes_of_value(bytes.drop_last());
        assert(be_value(bytes) / 256 == be_value(bytes.drop_last()));
        assert(be_value(bytes) % 256 == bytes.last());
        assert(bytes.drop_last().push(bytes.last()) =~= bytes);
    } else {
        assert(bytes =~= Seq::<u8>::empty());
    }
}

/// Decoding an encoded value gives the value back.
pub proof fn lemma_le_value_of_bytes(value: nat, len: nat)
    requires
        value < pow256(len),
    ensures
        le_value(le_bytes(value, len)) == value,
        le_bytes(value, len).len() == len,
{
    lemma_be_value_of_bytes(value, len);
    assert(be_bytes(value, len).reverse().reverse() =~= be_bytes(value, len));
}

/// The ranges of the machine integers, as byte counts.
pub proof fn lemma_pow256()
    ensures
        pow256(1) == 0x100,
        pow256(2) == 0x1_0000,
        pow256(4) == 0x1_0000_0000,
        pow256(8) == 0x1_0000_0000_0000_0000,
        pow256(16) == 0x1_0000_0000_0000_0000_0000_0000_0000_0000,
{
    reveal_with_fuel(pow256, 17);
}

pub proof fn lemma_pow256_pos(len: nat)
    ensures
        pow256(len) >= 1,
    decreases len,
{
    if len > 0 {
        lemma_pow256_pos((len - 1) as nat);
    }
}

/// Splitting the value of a byte string at `i`.
proof fn lemma_be_value_prefix(bytes: Seq<u8>, i: int)
    requires
        0 <= i < bytes.len(),
    ensures
        be_value(bytes.take(i + 1)) == be_value(bytes.take(i)) * 256 + bytes[i],
{
    assert(bytes.take(i + 1).drop_last() =~= bytes.take(i));
}

/// Reads `bytes[at..at + len]` as a big-endian integer.
pub fn read_be(bytes: &[u8], at: usize, len: usize) -> (value: u128)
    requires
        at + len <= bytes@.len(),
        len <= 16,
    ensures
        value == be_value(bytes@.subrange(at as int, at + len)),
        value < pow256(len as nat),
{
    let total: usize = bytes.len();
    let mut value: u128 = 0;
    let mut i: usize = 0;
    let ghost part = bytes@.subrange(at as int, at + len);
    proof {
        lemma_pow256();
        assert(part.take(0) =~= Seq::<u8>::empty());
    }
    while i < len
        invariant
            i <= len <= 16,
            at + len <= total,
            total == bytes@.len(),
            part == bytes@.subrange(at as int, at + len),
            value == be_value(part.take(i as int)),
            value < pow256(i as nat),
        decreases len - i,
    {
        proof {
            lemma_be_value_prefix(part, i as int);
            lemma_pow256_mono((i + 1) as nat, 16);
            lemma_pow256();
        }
        value = value * 256 + bytes[at + i] as u128;
        i = i + 1;
    }
    assert(part.take(len as int) =~= part);
    value
}

proof fn lemma_pow256_mono(a: nat, b: nat)
    requires
        a <= b,
    ensures
        pow256(a) <= pow256(b),
    decreases b,
{
    if a < b {
        lemma_pow256_mono(a, (b - 1) as nat);
    }
}

/// Appends the low `len` bytes of `value` in big-endian order.
pub fn push_be(out: &mut Vec<u8>, value: u128, len: usize)
    ensures
        final(out)@ == old(out)@ + be_bytes(value as nat, len as nat),
    decreases len,
{
    if len > 0 {
        push_be(out, value / 256, len - 1);
        out.push((value % 256) as u8);
        assert(out@ =~= old(out)@ + be_bytes(value as nat, len as nat));
    } else {
        assert(out@ =~= old(out)@ + be_bytes(value as nat, 0));
    }
}

/// Reads `bytes[at..at + len]` as a little-endian integer.
pub fn read_le(bytes: &[u8], at: usize, len: usize) -> (value: u128)
    requires
        at + len <= bytes@.len(),
        len <= 16,
    ensures
        value == le_value(bytes@.subrange(at as int, at + len)),
        value < pow256(len as nat),
{
    let total: usize = bytes.len();
    let mut value: u128 = 0;
    let mut i: usize = 0;
    let ghost part = bytes@.subrange(at as int, at + len).reverse();
    proof {
        lemma_pow256();
        assert(part.take(0) =~= Seq::<u8>::empty());
    }
    while i < len
        invariant
            i <= len <= 16,
            at + len <= total,
            total == bytes@.len(),
            part == bytes@.subrange(at as int, at + len).reverse(),
            value == be_value(part.take(i as int)),
            value < pow256(i as nat),
        decreases len - i,
    {
        proof {
            lemma_be_value_prefix(part, i as int);
            lemma_pow256_mono((i + 1) as nat, 16);
            lemma_pow256();
        }
        value = value * 256 + bytes[at + len - 1 - i] as u128;
        i = i + 1;
    }
    assert(part.take(len as int) =~= part);
    value
}

/// Appends the low `len` bytes of `value` in little-endian order.
pub fn push_le(out: &mut Vec<u8>, value: u128, len: usize)
    ensures
        final(out)@ == old(out)@ + le_bytes(value as nat, len as nat),
    decreases len,
{
    if len > 0 {
        out.push((value % 256) as u8);
        push_le(out, value / 256, len - 1);
        proof {
            let rest = be_bytes((value / 256) as nat, (len - 1) as nat);
            assert(le_bytes(value as nat, len as nat) =~= seq![(value % 256) as u8]
                + rest.reverse());
            assert(out@ =~= old(out)@ + le_bytes(value as nat, len as nat));
        }
    } else {
        assert(out@ =~= old(out)@ + le_bytes(value as nat, 0));
    }
}

/// Appends `count` zero bytes.
pub fn push_zeros(out: &mut Vec<u8>, count: usize)
    ensures
        final(out)@ == old(out)@ + Seq::new(count as nat, |i: int| 0u8),
{
    let mut i: usize = 0;
    while i < count
        invariant
            i <= count,
            out@ == old(out)@ + Seq::new(i as nat, |k: int| 0u8),
        decreases count - i,
    {
        out.push(0);
        i = i + 1;
        assert(out@ =~= old(out)@ + Seq::new(i as nat, |k: int| 0u8));
    }
    assert(out@ =~= old(out)@ + Seq::new(count as nat, |i: int| 0u8));
}

/// Whether every byte of `bytes[at..at + len]` is zero.
pub fn all_zero(bytes: &[u8], at: usize, len: usize) -> (zero: bool)
    requires
        at + len <= bytes@.len(),
    ensures
        zero == (forall|i: int| at <= i < at + len ==> bytes@[i] == 0),
{
    let total: usize = bytes.len();
    let mut i: usize = 0;
    while i < len
        invariant
            i <= len,
            at + len <= total,
            total == bytes@.len(),
            forall|k: int| at <= k < at + i ==> bytes@[k] == 0,
        decreases len - i,
    {
        if bytes[at + i] != 0 {
            return false;
        }
        i = i + 1;
    }
    true
}

/// The bytes of `bytes[from..to]` as a vector of their own.
pub fn copy_range(bytes: &[u8], from: usize, to: usize) -> (part: Vec<u8>)
    requires
        from <= to <= bytes@.len(),
    ensures
        part@ == bytes@.subrange(from as int, to as int),
{
    let mut part: Vec<u8> = Vec::new();
    let mut i: usize = from;
    while i < to
        invariant
            from <= i <= to <= bytes@.len(),
            part@ == bytes@.subrange(from as int, i as int),
        decreases to - i,
    {
        part.push(bytes[i]);
        i = i + 1;
        assert(part@ =~= bytes@.subrange(from as int, i as int));
    }
    part
}

/// Whether two byte strings are equal.
pub fn same_bytes(a: &[u8], b: &[u8]) -> (same: bool)
    ensures
        same == (a@ == b@),
{
    if a.len() != b.len() {
        return false;
    }
    let mut i: usize = 0;
    while i < a.len()
        invariant
            a@.len() == b@.len(),
            i <= a@.len(),
            forall|k: int| 0 <= k < i ==> a@[k] == b@[k],
        decreases a@.len() - i,
    {
        if a[i] != b[i] {
            return false;
        }
        i = i + 1;
    }
    assert(a@ =~= b@);
    true
}

/// Thirty-two bytes of key material, a public key or a digest.
///
/// The first sixteen bytes are `hi`, the last sixteen `lo`, both big-endian.
#[derive(Clone, Copy, PartialEq, Eq, Structural)]
pub struct Key32 {
    pub hi: u128,
    pub lo: u128,
}

impl Key32 {
    /// The thirty-two bytes of the key.
    pub open spec fn bytes(self) -> Seq<u8> {
        be_bytes(self.hi as nat, 16) + be_bytes(self.lo as nat, 16)
    }

    /// The key whose bytes are `bytes`.
    pub open spec fn of_bytes(bytes: Seq<u8>) -> Key32 {
        Key32 {
            hi: be_value(bytes.subrange(0, 16)) as u128,
            lo: be_value(bytes.subrange(16, 32)) as u128,
        }
    }

    /// The key whose bytes are `bytes`.
    pub fn from_bytes(bytes: &[u8]) -> (key: Self)
        requires
            bytes@.len() == 32,
        ensures
            key.bytes() == bytes@,
            key == Key32::of_bytes(bytes@),
    {
        let hi: u128 = read_be(bytes, 0, 16);
        let lo: u128 = read_be(bytes, 16, 16);
        proof {
            lemma_be_bytes_of_value(bytes@.subrange(0, 16));
            lemma_be_bytes_of_value(bytes@.subrange(16, 32));
            assert(bytes@.subrange(0, 16) + bytes@.subrange(16, 32) =~= bytes@);
        }
        Key32 { hi, lo }
    }

    /// The key as a vector of thirty-two bytes.
    pub fn to_bytes(&self) -> (bytes: Vec<u8>)
        ensures
            bytes@ == self.bytes(),
            bytes@.len() == 32,
    {
        let mut bytes: Vec<u8> = Vec::new();
        push_be(&mut bytes, self.hi, 16);
        push_be(&mut bytes, self.lo, 16);
        proof {
            broadcast use lemma_be_bytes_len;
            assert(bytes@ =~= self.bytes());
        }
        bytes
    }

    /// A key has thirty-two bytes, and they determine it.
    pub proof fn lemma_bytes(a: Key32, b: Key32)
        ensures
            a.bytes().len() == 32,
            a.bytes() == b.bytes() ==> a == b,
    {
        lemma_pow256();
        lemma_be_value_of_bytes(a.hi as nat, 16);
        lemma_be_value_of_bytes(a.lo as nat, 16);
        lemma_be_value_of_bytes(b.hi as nat, 16);
        lemma_be_value_of_bytes(b.lo as nat, 16);
        if a.bytes() == b.bytes() {
            assert(a.bytes().subrange(0, 16) =~= be_bytes(a.hi as nat, 16));
            assert(b.bytes().subrange(0, 16) =~= be_bytes(b.hi as nat, 16));
            assert(a.bytes().subrange(16, 32) =~= be_bytes(a.lo as nat, 16));
            assert(b.bytes().subrange(16, 32) =~= be_bytes(b.lo as nat, 16));
        }
    }
}

} // verus!
