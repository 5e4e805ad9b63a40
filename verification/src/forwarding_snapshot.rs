//! What one generation of routes decides for packets.

use vstd::prelude::*;
use std::collections::{HashMap, HashSet};
use crate::forwarding_table::ForwardingPeerTable;
use crate::ip_prefix::IpAddress;
use crate::packet::PeerId;
use crate::prefix_table::PrefixTable;
use crate::route_trait::NextHopPolicy;

verus! {

broadcast use vstd::std_specs::hash::group_hash_axioms;

/// The next peer on the way to another one, and what the way is like.
#[derive(Clone, Copy, Debug, Default, PartialEq, Eq, Structural)]
pub struct ForwardingNextHop {
    pub next_hop_peer_id: PeerId,
    pub path_delivery_bps: u64,
    pub path_latency: i32,
    pub path_len: usize,
    pub version: u32,
}

/// Forwarding decisions of one published generation of routes. They do not
/// change.
pub struct ForwardingDecisionSnapshot {
    pub generation: u64,
    pub capabilities: ForwardingPeerTable,
    pub suppressed_peer_ids: HashSet<PeerId>,
    pub public_ipv6_gateway_peer_id: Option<PeerId>,
    pub least_hop: HashMap<PeerId, ForwardingNextHop>,
    pub least_cost: HashMap<PeerId, ForwardingNextHop>,
    pub max_goodput: HashMap<PeerId, ForwardingNextHop>,
    pub ipv4_peer_ids: HashMap<u32, PeerId>,
    pub ipv6_peer_ids: HashMap<u128, PeerId>,
    /// The peers behind which prefixes are reached.
    pub proxies: PrefixTable,
}

/// The value under a key, if there is one.
pub open spec fn value_at<K, V>(map: Map<K, V>, key: K) -> Option<V> {
    if map.contains_key(key) {
        Some(map[key])
    } else {
        None
    }
}

/// The first of two values that is there.
pub open spec fn or_else<V>(first: Option<V>, second: Option<V>) -> Option<V> {
    if first is Some {
        first
    } else {
        second
    }
}

fn hop_at(map: &HashMap<PeerId, ForwardingNextHop>, peer_id: PeerId) -> (hop: Option<
    ForwardingNextHop,
>)
    ensures
        hop == value_at(map@, peer_id),
{
    match map.get(&peer_id) {
        Some(hop) => Some(*hop),
        None => None,
    }
}

impl ForwardingDecisionSnapshot {
    pub open spec fn wf(self) -> bool {
        &&& self.capabilities.wf()
        &&& forall|prefix: crate::ip_prefix::IpPrefix| #[trigger]
            self.proxies@.contains_key(prefix) ==> self.proxies@[prefix] <= PeerId::MAX
    }

    pub fn from_parts(
        generation: u64,
        capabilities: ForwardingPeerTable,
        suppressed_peer_ids: HashSet<PeerId>,
        public_ipv6_gateway_peer_id: Option<PeerId>,
        least_hop: HashMap<PeerId, ForwardingNextHop>,
        least_cost: HashMap<PeerId, ForwardingNextHop>,
        max_goodput: HashMap<PeerId, ForwardingNextHop>,
        ipv4_peer_ids: HashMap<u32, PeerId>,
        ipv6_peer_ids: HashMap<u128, PeerId>,
        proxies: PrefixTable,
    ) -> (snapshot: Self)
        ensures
            snapshot == (ForwardingDecisionSnapshot {
                generation,
                capabilities,
                suppressed_peer_ids,
                public_ipv6_gateway_peer_id,
                least_hop,
                least_cost,
                max_goodput,
                ipv4_peer_ids,
                ipv6_peer_ids,
                proxies,
            }),
    {
        ForwardingDecisionSnapshot {
            generation,
            capabilities,
            suppressed_peer_ids,
            public_ipv6_gateway_peer_id,
            least_hop,
            least_cost,
            max_goodput,
            ipv4_peer_ids,
            ipv6_peer_ids,
            proxies,
        }
    }

    pub fn generation(&self) -> (generation: u64)
        ensures
            generation == self.generation,
    {
        self.generation
    }

    pub fn capabilities(&self) -> (capabilities: &ForwardingPeerTable)
        ensures
            *capabilities == self.capabilities,
    {
        &self.capabilities
    }

    /// Whether the authenticated route marks a peer as a bridge.
    pub fn is_authorized_bridge(&self, peer_id: PeerId, now: u64) -> (authorized: bool)
        requires
            self.wf(),
        ensures
            authorized == self.capabilities.may_bridge(peer_id, now),
    {
        self.capabilities.is_authorized_bridge(peer_id, now)
    }

    pub fn public_ipv6_gateway_peer_id(&self) -> (peer_id: Option<PeerId>)
        ensures
            peer_id == self.public_ipv6_gateway_peer_id,
    {
        self.public_ipv6_gateway_peer_id
    }

    /// The hop to a peer under a policy: a missing way falls back to the next
    /// simpler one, and a suppressed peer has none.
    pub open spec fn hop_to(self, peer_id: PeerId, policy: NextHopPolicy) -> Option<ForwardingNextHop> {
        let least_hop = value_at(self.least_hop@, peer_id);
        let least_cost = or_else(value_at(self.least_cost@, peer_id), least_hop);
        let max_goodput = or_else(value_at(self.max_goodput@, peer_id), least_cost);
        if self.suppressed_peer_ids@.contains(peer_id) {
            None
        } else {
            match policy {
                NextHopPolicy::LeastHop => least_hop,
                NextHopPolicy::LeastCost => least_cost,
                NextHopPolicy::MaxGoodput => max_goodput,
            }
        }
    }

    pub fn next_hop(&self, peer_id: PeerId, policy: NextHopPolicy) -> (hop: Option<ForwardingNextHop>)
        ensures
            hop == self.hop_to(peer_id, policy),
    {
        if self.suppressed_peer_ids.contains(&peer_id) {
            return None;
        }
        if policy == NextHopPolicy::MaxGoodput {
            let hop = hop_at(&self.max_goodput, peer_id);
            if hop.is_some() {
                return hop;
            }
        }
        if policy != NextHopPolicy::LeastHop {
            let hop = hop_at(&self.least_cost, peer_id);
            if hop.is_some() {
                return hop;
            }
        }
        hop_at(&self.least_hop, peer_id)
    }

    pub fn peer_id_by_ipv4(&self, address: u32) -> (peer_id: Option<PeerId>)
        ensures
            peer_id == value_at(self.ipv4_peer_ids@, address),
    {
        match self.ipv4_peer_ids.get(&address) {
            Some(peer_id) => Some(*peer_id),
            None => None,
        }
    }

    pub fn peer_id_by_ipv6(&self, address: u128) -> (peer_id: Option<PeerId>)
        ensures
            peer_id == value_at(self.ipv6_peer_ids@, address),
    {
        match self.ipv6_peer_ids.get(&address) {
            Some(peer_id) => Some(*peer_id),
            None => None,
        }
    }

    pub fn peer_id_by_ip(&self, address: IpAddress) -> (peer_id: Option<PeerId>)
        requires
            address.wf(),
        ensures
            peer_id == if address.v6 {
                value_at(self.ipv6_peer_ids@, address.bits)
            } else {
                value_at(self.ipv4_peer_ids@, address.bits as u32)
            },
    {
        if address.v6 {
            self.peer_id_by_ipv6(address.bits)
        } else {
            self.peer_id_by_ipv4(address.bits as u32)
        }
    }

    /// The peer of the longest prefix that holds an address.
    pub fn proxy_peer_id_by_ip(&self, address: IpAddress) -> (peer_id: Option<PeerId>)
        requires
            self.wf(),
            address.wf(),
        ensures
            peer_id is None ==> forall|prefix: crate::ip_prefix::IpPrefix| #[trigger]
                self.proxies@.contains_key(prefix) ==> !prefix.covers(address),
            peer_id matches Some(id) ==> exists|prefix: crate::ip_prefix::IpPrefix|
                crate::prefix_table::longest_match(self.proxies@, address, prefix)
                    && self.proxies@[prefix] == id,
    {
        match self.proxies.lookup(address) {
            Some(value) => {
                proof {
                    let prefix = choose|prefix: crate::ip_prefix::IpPrefix|
                        crate::prefix_table::longest_match(self.proxies@, address, prefix)
                            && self.proxies@[prefix] == value;
                    assert(self.proxies@.contains_key(prefix));
                    assert(self.proxies@[prefix] == value as PeerId);
                }
                Some(value as PeerId)
            },
            None => None,
        }
    }

    /// The hops of a policy.
    pub fn next_hop_map(&self, policy: NextHopPolicy) -> (map: &HashMap<PeerId, ForwardingNextHop>)
        ensures
            *map == match policy {
                NextHopPolicy::LeastHop => self.least_hop,
                NextHopPolicy::LeastCost => self.least_cost,
                NextHopPolicy::MaxGoodput => self.max_goodput,
            },
    {
        match policy {
            NextHopPolicy::LeastHop => &self.least_hop,
            NextHopPolicy::LeastCost => &self.least_cost,
            NextHopPolicy::MaxGoodput => &self.max_goodput,
        }
    }
}

/// A suppressed peer is never forwarded to, under no policy.
pub proof fn lemma_suppressed_peer_has_no_hop(
    snapshot: ForwardingDecisionSnapshot,
    peer_id: PeerId,
    policy: NextHopPolicy,
)
    requires
        snapshot.suppressed_peer_ids@.contains(peer_id),
    ensures
        snapshot.hop_to(peer_id, policy) is None,
{
}

/// A peer that is reached by the least hops is reached under every policy.
pub proof fn lemma_every_policy_falls_back(
    snapshot: ForwardingDecisionSnapshot,
    peer_id: PeerId,
    policy: NextHopPolicy,
)
    requires
        snapshot.hop_to(peer_id, NextHopPolicy::LeastHop) is Some,
    ensures
        snapshot.hop_to(peer_id, policy) is Some,
{
}

} // verus!
