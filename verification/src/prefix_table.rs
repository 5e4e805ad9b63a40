//! A table of values under prefixes, searched for the longest match.
//!
//! The values stand in the prefix maps of the `prefix-trie` crate, one for each
//! internet protocol, under the prefixes of the `cidr` crate.

use vstd::prelude::*;
use cidr::{Ipv4Cidr, Ipv6Cidr};
use prefix_trie::PrefixMap;
use crate::ip_prefix::{IpAddress, IpPrefix};

verus! {

/// The map of the `prefix-trie` crate. Verus sees nothing inside a value of it.
#[verifier::external_type_specification]
#[verifier::external_body]
#[verifier::reject_recursive_types(P)]
#[verifier::reject_recursive_types(T)]
pub struct ExPrefixMap<P, T>(PrefixMap<P, T>);

/// The prefix of the `cidr` crate for addresses of thirty-two bits.
#[verifier::external_type_specification]
#[verifier::external_body]
pub struct ExIpv4Cidr(Ipv4Cidr);

/// The prefix of the `cidr` crate for addresses of a hundred and twenty-eight
/// bits.
#[verifier::external_type_specification]
#[verifier::external_body]
pub struct ExIpv6Cidr(Ipv6Cidr);

/// What a map holds: values under the first address and the length of prefixes.
pub uninterp spec fn v4_contents(map: PrefixMap<Ipv4Cidr, u64>) -> Map<(u128, u8), u64>;

/// What a map holds: values under the first address and the length of prefixes.
pub uninterp spec fn v6_contents(map: PrefixMap<Ipv6Cidr, u64>) -> Map<(u128, u8), u64>;

/// The contents of a map without entries.
pub open spec fn no_entries() -> Map<(u128, u8), u64> {
    Map::empty()
}

/// The prefix that a key stands for.
pub open spec fn prefix_of(v6: bool, key: (u128, u8)) -> IpPrefix {
    IpPrefix { v6, address: key.0, length: key.1 }
}

/// Whether a key is the longest of some contents that holds an address.
pub open spec fn longest_key(
    contents: Map<(u128, u8), u64>,
    address: IpAddress,
    key: (u128, u8),
) -> bool {
    &&& contents.contains_key(key)
    &&& prefix_of(address.v6, key).covers(address)
    &&& forall|other: (u128, u8)| #[trigger]
        contents.contains_key(other) && prefix_of(address.v6, other).covers(address) ==> other.1
            <= key.1
}

/// Whether some contents have no key that holds an address.
pub open spec fn no_key(contents: Map<(u128, u8), u64>, address: IpAddress) -> bool {
    forall|other: (u128, u8)| #[trigger]
        contents.contains_key(other) ==> !prefix_of(address.v6, other).covers(address)
}

/// Calls `prefix_trie::PrefixMap::new`, which makes a map without entries.
#[verifier::external_body]
fn v4_new() -> (map: PrefixMap<Ipv4Cidr, u64>)
    ensures
        v4_contents(map) == no_entries(),
{
    PrefixMap::new()
}

/// Calls `prefix_trie::PrefixMap::insert`, which puts the value under the prefix
/// in place of whatever was there. The prefix is made by `cidr::Ipv4Cidr::new`,
/// which takes every address and length with nothing but zeros behind the
/// prefix.
#[verifier::external_body]
fn v4_insert(map: &mut PrefixMap<Ipv4Cidr, u64>, address: u128, length: u8, value: u64)
    requires
        (IpPrefix { v6: false, address, length }).wf(),
    ensures
        v4_contents(*final(map)) == v4_contents(*old(map)).insert((address, length), value),
{
    map.insert(Ipv4Cidr::new((address as u32).into(), length).unwrap(), value);
}

/// Calls `prefix_trie::PrefixMap::get_lpm` with the prefix of one address, and
/// copies the value out: the one of the longest prefix that holds the address,
/// if there is one.
#[verifier::external_body]
fn v4_lpm(map: &PrefixMap<Ipv4Cidr, u64>, address: u128) -> (found: Option<u64>)
    requires
        address <= u32::MAX,
    ensures
        found is None ==> no_key(v4_contents(*map), IpAddress { v6: false, bits: address }),
        found matches Some(value) ==> exists|key: (u128, u8)|
            longest_key(v4_contents(*map), IpAddress { v6: false, bits: address }, key)
                && v4_contents(*map)[key] == value,
{
    map.get_lpm(&Ipv4Cidr::new_host((address as u32).into())).map(|entry| *entry.1)
}

/// Calls `prefix_trie::PrefixMap::new`, which makes a map without entries.
#[verifier::external_body]
fn v6_new() -> (map: PrefixMap<Ipv6Cidr, u64>)
    ensures
        v6_contents(map) == no_entries(),
{
    PrefixMap::new()
}

/// Calls `prefix_trie::PrefixMap::insert`, which puts the value under the prefix
/// in place of whatever was there. The prefix is made by `cidr::Ipv6Cidr::new`,
/// which takes every address and length with nothing but zeros behind the
/// prefix.
#[verifier::external_body]
fn v6_insert(map: &mut PrefixMap<Ipv6Cidr, u64>, address: u128, length: u8, value: u64)
    requires
        (IpPrefix { v6: true, address, length }).wf(),
    ensures
        v6_contents(*final(map)) == v6_contents(*old(map)).insert((address, length), value),
{
    map.insert(Ipv6Cidr::new(address.into(), length).unwrap(), value);
}

/// Calls `prefix_trie::PrefixMap::get_lpm` with the prefix of one address, and
/// copies the value out: the one of the longest prefix that holds the address,
/// if there is one.
#[verifier::external_body]
fn v6_lpm(map: &PrefixMap<Ipv6Cidr, u64>, address: u128) -> (found: Option<u64>)
    ensures
        found is None ==> no_key(v6_contents(*map), IpAddress { v6: true, bits: address }),
        found matches Some(value) ==> exists|key: (u128, u8)|
            longest_key(v6_contents(*map), IpAddress { v6: true, bits: address }, key)
                && v6_contents(*map)[key] == value,
{
    map.get_lpm(&Ipv6Cidr::new_host(address.into())).map(|entry| *entry.1)
}

/// A table of values under prefixes.
pub struct PrefixTable {
    ipv4: PrefixMap<Ipv4Cidr, u64>,
    ipv6: PrefixMap<Ipv6Cidr, u64>,
}

impl View for PrefixTable {
    type V = Map<IpPrefix, u64>;

    closed spec fn view(&self) -> Map<IpPrefix, u64> {
        Map::new(
            |prefix: IpPrefix|
                if prefix.v6 {
                    v6_contents(self.ipv6).contains_key((prefix.address, prefix.length))
                } else {
                    v4_contents(self.ipv4).contains_key((prefix.address, prefix.length))
                },
            |prefix: IpPrefix|
                if prefix.v6 {
                    v6_contents(self.ipv6)[(prefix.address, prefix.length)]
                } else {
                    v4_contents(self.ipv4)[(prefix.address, prefix.length)]
                },
        )
    }
}

/// Whether a prefix is the longest of some entries that holds an address.
pub open spec fn longest_match(
    entries: Map<IpPrefix, u64>,
    address: IpAddress,
    prefix: IpPrefix,
) -> bool {
    &&& entries.contains_key(prefix)
    &&& prefix.covers(address)
    &&& forall|other: IpPrefix| #[trigger]
        entries.contains_key(other) && other.covers(address) ==> other.length <= prefix.length
}

impl PrefixTable {
    pub fn new() -> (table: Self)
        ensures
            table@ == Map::<IpPrefix, u64>::empty(),
    {
        let table = PrefixTable { ipv4: v4_new(), ipv6: v6_new() };
        assert(table@ =~= Map::<IpPrefix, u64>::empty());
        table
    }

    pub fn insert(&mut self, prefix: IpPrefix, value: u64)
        requires
            prefix.wf(),
        ensures
            final(self)@ == old(self)@.insert(prefix, value),
    {
        if prefix.v6 {
            v6_insert(&mut self.ipv6, prefix.address, prefix.length, value);
        } else {
            v4_insert(&mut self.ipv4, prefix.address, prefix.length, value);
        }
        assert(self@ =~= old(self)@.insert(prefix, value));
    }

    /// The value of the longest prefix that holds an address.
    pub fn lookup(&self, address: IpAddress) -> (found: Option<u64>)
        requires
            address.wf(),
        ensures
            found is None ==> forall|other: IpPrefix| #[trigger]
                self@.contains_key(other) ==> !other.covers(address),
            found matches Some(value) ==> exists|prefix: IpPrefix|
                longest_match(self@, address, prefix) && self@[prefix] == value,
    {
        if address.v6 {
            let found = v6_lpm(&self.ipv6, address.bits);
            proof {
                let contents = v6_contents(self.ipv6);
                assert(address == IpAddress { v6: true, bits: address.bits });
                assert forall|other: IpPrefix| #[trigger]
                    self@.contains_key(other) && other.covers(address) implies contents.contains_key(
                    (other.address, other.length),
                ) && prefix_of(true, (other.address, other.length)) == other by {}
                if let Some(value) = found {
                    let key = choose|key: (u128, u8)|
                        longest_key(contents, address, key) && contents[key] == value;
                    let prefix = prefix_of(true, key);
                    assert(longest_match(self@, address, prefix) && self@[prefix] == value);
                }
            }
            found
        } else {
            let found = v4_lpm(&self.ipv4, address.bits);
            proof {
                let contents = v4_contents(self.ipv4);
                assert(address == IpAddress { v6: false, bits: address.bits });
                assert forall|other: IpPrefix| #[trigger]
                    self@.contains_key(other) && other.covers(address) implies contents.contains_key(
                    (other.address, other.length),
                ) && prefix_of(false, (other.address, other.length)) == other by {}
                if let Some(value) = found {
                    let key = choose|key: (u128, u8)|
                        longest_key(contents, address, key) && contents[key] == value;
                    let prefix = prefix_of(false, key);
                    assert(longest_match(self@, address, prefix) && self@[prefix] == value);
                }
            }
            found
        }
    }
}

} // verus!
