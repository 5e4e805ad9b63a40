//! The peers that packets can be forwarded to, and what they can take.

use vstd::prelude::*;
use std::collections::HashMap;
use crate::bytes::read_be;
use crate::ip_prefix::IpAddress;
use crate::packet::PeerId;
use crate::route_trait::is_still_attested;

verus! {

broadcast use vstd::std_specs::hash::group_hash_axioms;

/// What a peer says that it can take.
#[derive(Clone, Copy, Debug, Default, PartialEq, Eq, Structural)]
pub struct PeerFeatureFlag {
    pub ethernet_input: bool,
    pub hybrid_l3: bool,
    pub bridge_input: bool,
    pub multicast_membership: bool,
}

pub struct ForwardingPeerInfo {
    pub peer_id: PeerId,
    pub has_ipv4: bool,
    pub feature_flag: Option<PeerFeatureFlag>,
    pub multicast_groups: Vec<Vec<u8>>,
    /// Set only from authenticated route identity, never from a peer claim.
    pub bridge_authorized: bool,
    /// Nothing means direct authenticated authority; a time ends an attestation.
    pub bridge_authorization_deadline: Option<u64>,
}

impl ForwardingPeerInfo {
    /// Whether the peer can take frames of a bridge.
    pub open spec fn takes_ethernet(self) -> bool {
        &&& self.feature_flag matches Some(features)
        &&& features.ethernet_input
        &&& features.hybrid_l3
        &&& features.bridge_input
    }

    /// Whether the peer may bridge, by what is known of it.
    pub open spec fn is_bridge(self) -> bool {
        self.takes_ethernet() && self.bridge_authorized
    }

    /// Whether the authority to bridge still holds.
    pub open spec fn bridge_current(self, now: u64) -> bool {
        self.bridge_authorized && crate::route_trait::still_attested(
            self.bridge_authorization_deadline,
            now,
        )
    }

    /// Whether the peer says which groups it belongs to.
    pub open spec fn tells_groups(self) -> bool {
        &&& self.feature_flag matches Some(features)
        &&& features.hybrid_l3
        &&& features.multicast_membership
    }

    fn has_ethernet(&self) -> (takes: bool)
        ensures
            takes == self.takes_ethernet(),
    {
        match self.feature_flag {
            Some(features) => features.ethernet_input && features.hybrid_l3
                && features.bridge_input,
            None => false,
        }
    }

    fn has_bridge_now(&self, now: u64) -> (current: bool)
        ensures
            current == self.bridge_current(now),
    {
        self.bridge_authorized && is_still_attested(self.bridge_authorization_deadline, now)
    }

    fn has_groups(&self) -> (tells: bool)
        ensures
            tells == self.tells_groups(),
    {
        match self.feature_flag {
            Some(features) => features.hybrid_l3 && features.multicast_membership,
            None => false,
        }
    }
}

/// The address of a group: four or sixteen bytes that stand for one.
pub open spec fn group_address(bytes: Seq<u8>) -> Option<IpAddress> {
    if bytes.len() == 4 || bytes.len() == 16 {
        let address = IpAddress {
            v6: bytes.len() == 16,
            bits: crate::bytes::be_value(bytes) as u128,
        };
        if address.multicast() {
            Some(address)
        } else {
            None
        }
    } else {
        None
    }
}

fn read_group(bytes: &Vec<u8>) -> (address: Option<IpAddress>)
    ensures
        address == group_address(bytes@),
{
    if bytes.len() != 4 && bytes.len() != 16 {
        return None;
    }
    let bits: u128 = read_be(bytes.as_slice(), 0, bytes.len());
    assert(bytes@.subrange(0, bytes@.len() as int) =~= bytes@);
    let address = IpAddress { v6: bytes.len() == 16, bits };
    if address.is_multicast() {
        Some(address)
    } else {
        None
    }
}

/// The peer, once for each time that its groups name an address.
pub open spec fn memberships(groups: Seq<Vec<u8>>, peer_id: PeerId, address: IpAddress) -> Seq<PeerId>
    decreases groups.len(),
{
    if groups.len() == 0 {
        Seq::empty()
    } else {
        let before = memberships(groups.drop_last(), peer_id, address);
        if group_address(groups.last()@) == Some(address) {
            before.push(peer_id)
        } else {
            before
        }
    }
}

/// The peers that belong to a group, in the order of the table; where `bridges`
/// is set, only those that may bridge.
pub open spec fn group_members(
    peers: Seq<ForwardingPeerInfo>,
    address: IpAddress,
    bridges: bool,
) -> Seq<PeerId>
    decreases peers.len(),
{
    if peers.len() == 0 {
        Seq::empty()
    } else {
        let before = group_members(peers.drop_last(), address, bridges);
        let peer = peers.last();
        if peer.tells_groups() && (bridges ==> peer.is_bridge()) {
            before + memberships(peer.multicast_groups@, peer.peer_id, address)
        } else {
            before
        }
    }
}

/// The identifiers of the peers with an address of the fourth protocol.
pub open spec fn ids_with_ipv4(peers: Seq<ForwardingPeerInfo>) -> Seq<PeerId>
    decreases peers.len(),
{
    if peers.len() == 0 {
        Seq::empty()
    } else if peers.last().has_ipv4 {
        ids_with_ipv4(peers.drop_last()).push(peers.last().peer_id)
    } else {
        ids_with_ipv4(peers.drop_last())
    }
}

/// The identifiers of the peers that may bridge.
pub open spec fn bridge_ids(peers: Seq<ForwardingPeerInfo>) -> Seq<PeerId>
    decreases peers.len(),
{
    if peers.len() == 0 {
        Seq::empty()
    } else if peers.last().is_bridge() {
        bridge_ids(peers.drop_last()).push(peers.last().peer_id)
    } else {
        bridge_ids(peers.drop_last())
    }
}

/// Lists of peers under addresses.
pub struct GroupTable {
    pub v4: HashMap<u128, Vec<PeerId>>,
    pub v6: HashMap<u128, Vec<PeerId>>,
    pub nobody: Vec<PeerId>,
}

impl GroupTable {
    pub open spec fn members(self, address: IpAddress) -> Seq<PeerId> {
        let table = if address.v6 {
            self.v6@
        } else {
            self.v4@
        };
        if table.contains_key(address.bits) {
            table[address.bits]@
        } else {
            Seq::empty()
        }
    }

    pub open spec fn wf(self) -> bool {
        self.nobody@.len() == 0
    }

    fn new() -> (table: Self)
        ensures
            table.wf(),
            forall|address: IpAddress| #[trigger]
                table.members(address) == Seq::<PeerId>::empty(),
    {
        GroupTable { v4: HashMap::new(), v6: HashMap::new(), nobody: Vec::new() }
    }

    fn join(&mut self, address: IpAddress, peer_id: PeerId)
        requires
            old(self).wf(),
        ensures
            final(self).wf(),
            forall|other: IpAddress| #[trigger]
                final(self).members(other) == if other == address {
                    old(self).members(other).push(peer_id)
                } else {
                    old(self).members(other)
                },
    {
        if address.v6 {
            let mut list = match self.v6.remove(&address.bits) {
                Some(list) => list,
                None => Vec::new(),
            };
            list.push(peer_id);
            self.v6.insert(address.bits, list);
        } else {
            let mut list = match self.v4.remove(&address.bits) {
                Some(list) => list,
                None => Vec::new(),
            };
            list.push(peer_id);
            self.v4.insert(address.bits, list);
        }
    }

    fn get(&self, address: IpAddress) -> (members: &[PeerId])
        requires
            self.wf(),
        ensures
            members@ == self.members(address),
    {
        let found = if address.v6 {
            self.v6.get(&address.bits)
        } else {
            self.v4.get(&address.bits)
        };
        match found {
            Some(list) => list.as_slice(),
            None => {
                assert(self.nobody@ =~= Seq::<PeerId>::empty());
                self.nobody.as_slice()
            },
        }
    }
}

/// The peers by identifier, with what forwarding looks up of them.
pub struct ForwardingPeerTable {
    pub peers: Vec<ForwardingPeerInfo>,
    pub peer_indexes: HashMap<PeerId, usize>,
    pub ipv4_peers: Vec<PeerId>,
    pub ethernet_peers: Vec<PeerId>,
    pub multicast_peers: GroupTable,
    pub ethernet_multicast_peers: GroupTable,
}

/// Whether peers stand in the order of their identifiers, each one once.
pub open spec fn by_identifier(peers: Seq<ForwardingPeerInfo>) -> bool {
    forall|i: int, j: int|
        0 <= i < j < peers.len() ==> (#[trigger] peers[i]).peer_id < (#[trigger] peers[j]).peer_id
}

/// Whether some peer has an identifier.
pub open spec fn has_peer(peers: Seq<ForwardingPeerInfo>, peer_id: PeerId) -> bool {
    exists|i: int| 0 <= i < peers.len() && (#[trigger] peers[i]).peer_id == peer_id
}

/// Whether a list holds one of the peers for each of their identifiers, in the
/// order of the identifiers.
pub open spec fn one_of_each(list: Seq<ForwardingPeerInfo>, peers: Seq<ForwardingPeerInfo>) -> bool {
    &&& by_identifier(list)
    &&& forall|i: int| 0 <= i < list.len() ==> peers.contains(#[trigger] list[i])
    &&& forall|k: int| 0 <= k < peers.len() ==> has_peer(list, (#[trigger] peers[k]).peer_id)
}

fn insert_peer(list: &mut Vec<ForwardingPeerInfo>, peer: ForwardingPeerInfo)
    requires
        by_identifier(old(list)@),
    ensures
        by_identifier(final(list)@),
        has_peer(final(list)@, peer.peer_id),
        forall|i: int|
            0 <= i < final(list)@.len() ==> (#[trigger] final(list)@[i]) == peer || old(
                list,
            )@.contains(final(list)@[i]),
        forall|id: PeerId| #[trigger] has_peer(old(list)@, id) ==> has_peer(final(list)@, id),
{
    let mut at: usize = 0;
    while at < list.len() && list[at].peer_id < peer.peer_id
        invariant
            at <= list@.len(),
            list@ == old(list)@,
            forall|k: int| 0 <= k < at ==> (#[trigger] list@[k]).peer_id < peer.peer_id,
        decreases list@.len() - at,
    {
        at = at + 1;
    }
    let ghost before = list@;
    if at < list.len() && list[at].peer_id == peer.peer_id {
        list.set(at, peer);
        proof {
            assert(list@[at as int].peer_id == peer.peer_id);
            assert forall|id: PeerId| #[trigger] has_peer(before, id) implies has_peer(list@, id) by {
                let i = choose|i: int|
                    0 <= i < before.len() && (#[trigger] before[i]).peer_id == id;
                assert(list@[i].peer_id == id);
            }
            assert forall|i: int, j: int| 0 <= i < j < list@.len() implies (
            #[trigger] list@[i]).peer_id < (#[trigger] list@[j]).peer_id by {
                assert(before[i].peer_id < before[j].peer_id);
            }
            assert forall|i: int| 0 <= i < list@.len() implies (#[trigger] list@[i]) == peer
                || before.contains(list@[i]) by {
                if i != at {
                    assert(list@[i] == before[i]);
                }
            }
        }
        return ;
    }
    list.insert(at, peer);
    proof {
        assert(list@[at as int].peer_id == peer.peer_id);
        assert forall|i: int| 0 <= i < list@.len() implies (#[trigger] list@[i]) == peer
            || before.contains(list@[i]) by {
            if i < at {
                assert(list@[i] == before[i]);
            } else if i > at {
                assert(list@[i] == before[i - 1]);
            }
        }
        assert forall|i: int, j: int| 0 <= i < j < list@.len() implies (
        #[trigger] list@[i]).peer_id < (#[trigger] list@[j]).peer_id by {
            let bi = if i < at {
                i
            } else {
                i - 1
            };
            let bj = if j < at {
                j
            } else {
                j - 1
            };
            if i != at {
                assert(list@[i] == before[bi]);
            }
            if j != at {
                assert(list@[j] == before[bj]);
            }
            if i != at && j != at {
                assert(before[bi].peer_id < before[bj].peer_id);
            } else if i == at {
                assert(peer.peer_id < before[at as int].peer_id);
                if bj > at {
                    assert(before[at as int].peer_id < before[bj].peer_id);
                }
            }
        }
        assert forall|id: PeerId| #[trigger] has_peer(before, id) implies has_peer(list@, id) by {
            let i = choose|i: int| 0 <= i < before.len() && (#[trigger] before[i]).peer_id == id;
            if i < at {
                assert(list@[i] == before[i]);
            } else {
                assert(list@[i + 1] == before[i]);
            }
        }
    }
}

fn order_peers(given: Vec<ForwardingPeerInfo>) -> (list: Vec<ForwardingPeerInfo>)
    ensures
        one_of_each(list@, given@),
{
    let mut rest = given;
    let mut list: Vec<ForwardingPeerInfo> = Vec::new();
    while rest.len() > 0
        invariant
            rest@.len() <= given@.len(),
            rest@ == given@.take(rest@.len() as int),
            by_identifier(list@),
            forall|i: int| 0 <= i < list@.len() ==> given@.contains(#[trigger] list@[i]),
            forall|k: int|
                rest@.len() <= k < given@.len() ==> has_peer(list@, (#[trigger] given@[k]).peer_id),
        decreases rest@.len(),
    {
        let ghost before = rest@;
        let ghost held = list@;
        if let Some(peer) = rest.pop() {
            assert(peer == given@[before.len() - 1]);
            assert(rest@ =~= given@.take(rest@.len() as int));
            insert_peer(&mut list, peer);
            proof {
                assert forall|i: int| 0 <= i < list@.len() implies given@.contains(
                    #[trigger] list@[i],
                ) by {
                    if list@[i] != peer {
                        let k = choose|k: int| 0 <= k < held.len() && held[k] == list@[i];
                        assert(given@.contains(held[k]));
                    }
                }
                assert forall|k: int| rest@.len() <= k < given@.len() implies has_peer(
                    list@,
                    (#[trigger] given@[k]).peer_id,
                ) by {
                    if k >= before.len() {
                        assert(has_peer(held, given@[k].peer_id));
                    }
                }
            }
        }
    }
    list
}

impl ForwardingPeerTable {
    /// Everything that is looked up is what the peers say.
    pub open spec fn wf(self) -> bool {
        &&& by_identifier(self.peers@)
        &&& forall|id: PeerId| #[trigger]
            self.peer_indexes@.contains_key(id) <==> has_peer(self.peers@, id)
        &&& forall|id: PeerId| #[trigger]
            self.peer_indexes@.contains_key(id) ==> self.peer_indexes@[id] < self.peers@.len()
                && self.peers@[self.peer_indexes@[id] as int].peer_id == id
        &&& self.ipv4_peers@ == ids_with_ipv4(self.peers@)
        &&& self.ethernet_peers@ == bridge_ids(self.peers@)
        &&& self.multicast_peers.wf()
        &&& self.ethernet_multicast_peers.wf()
        &&& forall|address: IpAddress| #[trigger]
            self.multicast_peers.members(address) == group_members(self.peers@, address, false)
        &&& forall|address: IpAddress| #[trigger]
            self.ethernet_multicast_peers.members(address) == group_members(
                self.peers@,
                address,
                true,
            )
    }

    pub fn new(peers: Vec<ForwardingPeerInfo>) -> (table: Self)
        ensures
            table.wf(),
            one_of_each(table.peers@, peers@),
    {
        let list = order_peers(peers);
        let mut peer_indexes: HashMap<PeerId, usize> = HashMap::new();
        let mut ipv4_peers: Vec<PeerId> = Vec::new();
        let mut ethernet_peers: Vec<PeerId> = Vec::new();
        let mut multicast_peers = GroupTable::new();
        let mut ethernet_multicast_peers = GroupTable::new();
        let mut i: usize = 0;
        assert(list@.take(0) =~= Seq::<ForwardingPeerInfo>::empty());
        while i < list.len()
            invariant
                i <= list@.len(),
                by_identifier(list@),
                forall|id: PeerId| #[trigger]
                    peer_indexes@.contains_key(id) <==> has_peer(list@.take(i as int), id),
                forall|id: PeerId| #[trigger]
                    peer_indexes@.contains_key(id) ==> peer_indexes@[id] < i
                        && list@[peer_indexes@[id] as int].peer_id == id,
                ipv4_peers@ == ids_with_ipv4(list@.take(i as int)),
                ethernet_peers@ == bridge_ids(list@.take(i as int)),
                multicast_peers.wf(),
                ethernet_multicast_peers.wf(),
                forall|address: IpAddress| #[trigger]
                    multicast_peers.members(address) == group_members(
                        list@.take(i as int),
                        address,
                        false,
                    ),
                forall|address: IpAddress| #[trigger]
                    ethernet_multicast_peers.members(address) == group_members(
                        list@.take(i as int),
                        address,
                        true,
                    ),
            decreases list@.len() - i,
        {
            let ghost seen = list@.take(i as int);
            let ghost next = list@.take(i + 1);
            let peer = &list[i];
            assert(next.drop_last() =~= seen);
            assert(next.last() == *peer);
            let ghost known = peer_indexes@;
            peer_indexes.insert(peer.peer_id, i);
            proof {
                assert forall|id: PeerId| #[trigger]
                    peer_indexes@.contains_key(id) <==> has_peer(next, id) by {
                    if has_peer(next, id) {
                        let k = choose|k: int|
                            0 <= k < next.len() && (#[trigger] next[k]).peer_id == id;
                        if k < i {
                            assert(seen[k].peer_id == id);
                            assert(has_peer(seen, id));
                        }
                    }
                    if known.contains_key(id) {
                        let k = choose|k: int|
                            0 <= k < seen.len() && (#[trigger] seen[k]).peer_id == id;
                        assert(next[k].peer_id == id);
                    }
                    assert(next[i as int].peer_id == peer.peer_id);
                }
            }
            if peer.has_ipv4 {
                ipv4_peers.push(peer.peer_id);
            }
            let bridge = peer.has_ethernet() && peer.bridge_authorized;
            if bridge {
                ethernet_peers.push(peer.peer_id);
            }
            if peer.has_groups() {
                join_groups(
                    peer,
                    bridge,
                    &mut multicast_peers,
                    &mut ethernet_multicast_peers,
                );
            }
            proof {
                assert forall|address: IpAddress| #[trigger]
                    multicast_peers.members(address) == group_members(next, address, false) by {}
                assert forall|address: IpAddress| #[trigger]
                    ethernet_multicast_peers.members(address) == group_members(
                        next,
                        address,
                        true,
                    ) by {}
            }
            i = i + 1;
        }
        assert(list@.take(i as int) =~= list@);
        ForwardingPeerTable {
            peers: list,
            peer_indexes,
            ipv4_peers,
            ethernet_peers,
            multicast_peers,
            ethernet_multicast_peers,
        }
    }

    /// The peers, by identifier.
    pub fn peers(&self) -> (peers: &[ForwardingPeerInfo])
        ensures
            peers@ == self.peers@,
    {
        self.peers.as_slice()
    }

    pub fn get(&self, peer_id: PeerId) -> (found: Option<&ForwardingPeerInfo>)
        requires
            self.wf(),
        ensures
            found is Some <==> has_peer(self.peers@, peer_id),
            found matches Some(peer) ==> peer.peer_id == peer_id && self.peers@.contains(*peer),
    {
        match self.peer_indexes.get(&peer_id) {
            Some(index) => {
                assert(self.peer_indexes@.contains_key(peer_id));
                Some(&self.peers[*index])
            },
            None => None,
        }
    }

    /// Whether a peer may bridge now: it is known, can take frames, and its
    /// authority still holds.
    pub open spec fn may_bridge(self, peer_id: PeerId, now: u64) -> bool {
        exists|i: int|
            0 <= i < self.peers@.len() && (#[trigger] self.peers@[i]).peer_id == peer_id
                && self.peers@[i].takes_ethernet() && self.peers@[i].bridge_current(now)
    }

    /// Whether a peer is an authenticated bridge with hybrid Ethernet capability.
    pub fn is_authorized_bridge(&self, peer_id: PeerId, now: u64) -> (authorized: bool)
        requires
            self.wf(),
        ensures
            authorized == self.may_bridge(peer_id, now),
    {
        match self.get(peer_id) {
            Some(peer) => {
                proof {
                    let i = choose|i: int| 0 <= i < self.peers@.len() && self.peers@[i] == *peer;
                    assert(self.peers@[i].peer_id == peer_id);
                    self.lemma_one_peer(i);
                }
                peer.has_bridge_now(now) && peer.has_ethernet()
            },
            None => false,
        }
    }

    proof fn lemma_one_peer(self, i: int)
        requires
            self.wf(),
            0 <= i < self.peers@.len(),
        ensures
            forall|j: int|
                0 <= j < self.peers@.len() && (#[trigger] self.peers@[j]).peer_id
                    == self.peers@[i].peer_id ==> j == i,
    {
        assert forall|j: int|
            0 <= j < self.peers@.len() && (#[trigger] self.peers@[j]).peer_id
                == self.peers@[i].peer_id implies j == i by {
            if j < i {
                assert(self.peers@[j].peer_id < self.peers@[i].peer_id);
            } else if i < j {
                assert(self.peers@[i].peer_id < self.peers@[j].peer_id);
            }
        }
    }

    /// Whether a known peer's authority to bridge holds now.
    pub open spec fn authority_holds(self, peer_id: PeerId, now: u64) -> bool {
        exists|i: int|
            0 <= i < self.peers@.len() && (#[trigger] self.peers@[i]).peer_id == peer_id
                && self.peers@[i].bridge_current(now)
    }

    fn holds_authority(&self, peer_id: PeerId, now: u64) -> (holds: bool)
        requires
            self.wf(),
        ensures
            holds == self.authority_holds(peer_id, now),
    {
        match self.get(peer_id) {
            Some(peer) => {
                proof {
                    let i = choose|i: int| 0 <= i < self.peers@.len() && self.peers@[i] == *peer;
                    assert(self.peers@[i].peer_id == peer_id);
                    self.lemma_one_peer(i);
                }
                peer.has_bridge_now(now)
            },
            None => false,
        }
    }

    /// Those of some peers whose authority holds now.
    pub open spec fn with_authority(self, ids: Seq<PeerId>, now: u64) -> Seq<PeerId>
        decreases ids.len(),
    {
        if ids.len() == 0 {
            Seq::empty()
        } else if self.authority_holds(ids.last(), now) {
            self.with_authority(ids.drop_last(), now).push(ids.last())
        } else {
            self.with_authority(ids.drop_last(), now)
        }
    }

    fn keep_with_authority(&self, ids: &[PeerId], now: u64) -> (kept: Vec<PeerId>)
        requires
            self.wf(),
        ensures
            kept@ == self.with_authority(ids@, now),
    {
        let mut kept: Vec<PeerId> = Vec::new();
        let mut i: usize = 0;
        assert(ids@.take(0) =~= Seq::<PeerId>::empty());
        while i < ids.len()
            invariant
                i <= ids@.len(),
                self.wf(),
                kept@ == self.with_authority(ids@.take(i as int), now),
            decreases ids@.len() - i,
        {
            assert(ids@.take(i + 1).drop_last() =~= ids@.take(i as int));
            if self.holds_authority(ids[i], now) {
                kept.push(ids[i]);
            }
            i = i + 1;
        }
        assert(ids@.take(i as int) =~= ids@);
        kept
    }

    /// The peers that may bridge now.
    pub fn ethernet_peers(&self, now: u64) -> (ids: Vec<PeerId>)
        requires
            self.wf(),
        ensures
            ids@ == self.with_authority(bridge_ids(self.peers@), now),
    {
        self.keep_with_authority(self.ethernet_peers.as_slice(), now)
    }

    pub fn ipv4_peers(&self) -> (ids: &[PeerId])
        requires
            self.wf(),
        ensures
            ids@ == ids_with_ipv4(self.peers@),
    {
        self.ipv4_peers.as_slice()
    }

    /// The members of a group.
    pub fn multicast_peers(&self, address: IpAddress) -> (ids: &[PeerId])
        requires
            self.wf(),
        ensures
            ids@ == group_members(self.peers@, address, false),
    {
        self.multicast_peers.get(address)
    }

    /// The members of a group that may bridge now.
    pub fn ethernet_multicast_peers(&self, address: IpAddress, now: u64) -> (ids: Vec<PeerId>)
        requires
            self.wf(),
        ensures
            ids@ == self.with_authority(group_members(self.peers@, address, true), now),
    {
        self.keep_with_authority(self.ethernet_multicast_peers.get(address), now)
    }
}

/// Lets a peer join its groups, and those of bridges where it is one.
fn join_groups(
    peer: &ForwardingPeerInfo,
    bridge: bool,
    everybody: &mut GroupTable,
    bridges: &mut GroupTable,
)
    requires
        old(everybody).wf(),
        old(bridges).wf(),
    ensures
        final(everybody).wf(),
        final(bridges).wf(),
        forall|address: IpAddress| #[trigger]
            final(everybody).members(address) == old(everybody).members(address) + memberships(
                peer.multicast_groups@,
                peer.peer_id,
                address,
            ),
        forall|address: IpAddress| #[trigger]
            final(bridges).members(address) == if bridge {
                old(bridges).members(address) + memberships(
                    peer.multicast_groups@,
                    peer.peer_id,
                    address,
                )
            } else {
                old(bridges).members(address)
            },
{
    let groups = &peer.multicast_groups;
    let mut i: usize = 0;
    proof {
        assert(groups@.take(0) =~= Seq::<Vec<u8>>::empty());
        assert forall|address: IpAddress| #[trigger]
            everybody.members(address) == old(everybody).members(address) + memberships(
                groups@.take(0),
                peer.peer_id,
                address,
            ) by {
            assert(everybody.members(address) =~= old(everybody).members(address)
                + Seq::<PeerId>::empty());
        }
        assert forall|address: IpAddress| bridge implies #[trigger] bridges.members(address) == old(
            bridges,
        ).members(address) + memberships(groups@.take(0), peer.peer_id, address) by {
            assert(bridges.members(address) =~= old(bridges).members(address)
                + Seq::<PeerId>::empty());
        }
    }
    while i < groups.len()
        invariant
            i <= groups@.len(),
            groups@ == peer.multicast_groups@,
            everybody.wf(),
            bridges.wf(),
            forall|address: IpAddress| #[trigger]
                everybody.members(address) == old(everybody).members(address) + memberships(
                    groups@.take(i as int),
                    peer.peer_id,
                    address,
                ),
            bridge ==> forall|address: IpAddress| #[trigger]
                bridges.members(address) == old(bridges).members(address) + memberships(
                    groups@.take(i as int),
                    peer.peer_id,
                    address,
                ),
            !bridge ==> forall|address: IpAddress| #[trigger]
                bridges.members(address) == old(bridges).members(address),
        decreases groups@.len() - i,
    {
        let ghost seen = groups@.take(i as int);
        let ghost next = groups@.take(i + 1);
        let ghost before = *everybody;
        let ghost before_bridges = *bridges;
        assert(next.drop_last() =~= seen);
        if let Some(address) = read_group(&groups[i]) {
            everybody.join(address, peer.peer_id);
            if bridge {
                bridges.join(address, peer.peer_id);
            }
        }
        proof {
            assert forall|address: IpAddress| #[trigger]
                everybody.members(address) == old(everybody).members(address) + memberships(
                    next,
                    peer.peer_id,
                    address,
                ) by {
                assert(before.members(address) == old(everybody).members(address) + memberships(
                    seen,
                    peer.peer_id,
                    address,
                ));
                assert(everybody.members(address) =~= old(everybody).members(address)
                    + memberships(next, peer.peer_id, address));
            }
            if bridge {
                assert forall|address: IpAddress| #[trigger]
                    bridges.members(address) == old(bridges).members(address) + memberships(
                        next,
                        peer.peer_id,
                        address,
                    ) by {
                    assert(before_bridges.members(address) == old(bridges).members(address)
                        + memberships(seen, peer.peer_id, address));
                    assert(bridges.members(address) =~= old(bridges).members(address)
                        + memberships(next, peer.peer_id, address));
                }
            }
        }
        i = i + 1;
    }
    assert(groups@.take(i as int) =~= groups@);
}

/// After its deadline a peer is no bridge any more, whatever the table holds.
pub proof fn lemma_expired_bridge_is_refused(table: ForwardingPeerTable, i: int, now: u64)
    requires
        table.wf(),
        0 <= i < table.peers@.len(),
        table.peers@[i].bridge_authorization_deadline matches Some(end) && end <= now,
    ensures
        !table.may_bridge(table.peers@[i].peer_id, now),
        !table.with_authority(bridge_ids(table.peers@), now).contains(table.peers@[i].peer_id),
{
    table.lemma_one_peer(i);
    assert(!table.authority_holds(table.peers@[i].peer_id, now));
    lemma_with_authority(table, bridge_ids(table.peers@), now);
}

proof fn lemma_with_authority(table: ForwardingPeerTable, ids: Seq<PeerId>, now: u64)
    ensures
        forall|id: PeerId| #[trigger]
            table.with_authority(ids, now).contains(id) ==> table.authority_holds(id, now),
    decreases ids.len(),
{
    if ids.len() > 0 {
        lemma_with_authority(table, ids.drop_last(), now);
        assert forall|id: PeerId| #[trigger]
            table.with_authority(ids, now).contains(id) implies table.authority_holds(id, now) by {
            let kept = table.with_authority(ids, now);
            let before = table.with_authority(ids.drop_last(), now);
            let k = choose|k: int| 0 <= k < kept.len() && kept[k] == id;
            if k < before.len() {
                assert(before[k] == id);
                assert(before.contains(id));
            }
        }
    }
}

/// What a listed route says of its peer.
#[derive(Debug, Default)]
pub struct RouteClaim {
    pub peer_id: PeerId,
    pub ipv4_addr: Option<u32>,
    pub feature_flag: Option<PeerFeatureFlag>,
    pub multicast_groups: Vec<Vec<u8>>,
}

/// What forwarding takes of a claim. A claim never authorizes a bridge.
pub open spec fn info_of(claim: RouteClaim) -> ForwardingPeerInfo {
    ForwardingPeerInfo {
        peer_id: claim.peer_id,
        has_ipv4: claim.ipv4_addr is Some,
        feature_flag: claim.feature_flag,
        multicast_groups: claim.multicast_groups,
        bridge_authorized: false,
        bridge_authorization_deadline: None,
    }
}

/// What forwarding takes of some claims.
pub open spec fn infos_of(claims: Seq<RouteClaim>) -> Seq<ForwardingPeerInfo> {
    claims.map_values(|claim: RouteClaim| info_of(claim))
}

/// The peers of listed routes.
pub fn forwarding_peers_of(routes: Vec<RouteClaim>) -> (table: ForwardingPeerTable)
    ensures
        table.wf(),
        one_of_each(table.peers@, infos_of(routes@)),
{
    let ghost claims = routes@;
    let mut routes = routes;
    let mut peers: Vec<ForwardingPeerInfo> = Vec::new();
    while routes.len() > 0
        invariant
            routes@.len() + peers@.len() == claims.len(),
            routes@ == claims.take(routes@.len() as int),
            forall|k: int|
                0 <= k < peers@.len() ==> #[trigger] peers@[k] == info_of(
                    claims[claims.len() - 1 - k],
                ),
        decreases routes@.len(),
    {
        let claim = routes.pop().unwrap();
        assert(claim == claims[routes@.len() as int]);
        peers.push(
            ForwardingPeerInfo {
                peer_id: claim.peer_id,
                has_ipv4: claim.ipv4_addr.is_some(),
                feature_flag: claim.feature_flag,
                multicast_groups: claim.multicast_groups,
                bridge_authorized: false,
                bridge_authorization_deadline: None,
            },
        );
        assert(routes@ =~= claims.take(routes@.len() as int));
    }
    let ghost taken = peers@;
    let table = ForwardingPeerTable::new(peers);
    proof {
        let infos = infos_of(claims);
        assert forall|i: int| 0 <= i < table.peers@.len() implies infos.contains(
            #[trigger] table.peers@[i],
        ) by {
            let k = taken.index_of(table.peers@[i]);
            assert(taken.contains(table.peers@[i]));
            assert(infos[claims.len() - 1 - k] == taken[k]);
        }
        assert forall|k: int| 0 <= k < infos.len() implies has_peer(
            table.peers@,
            (#[trigger] infos[k]).peer_id,
        ) by {
            assert(taken[claims.len() - 1 - k] == infos[k]);
        }
    }
    table
}

/// No listed route makes its peer a bridge by what it says.
pub proof fn lemma_claims_authorize_no_bridge(
    table: ForwardingPeerTable,
    claims: Seq<RouteClaim>,
    peer_id: PeerId,
    now: u64,
)
    requires
        one_of_each(table.peers@, infos_of(claims)),
    ensures
        !table.may_bridge(peer_id, now),
{
    assert forall|i: int| 0 <= i < table.peers@.len() implies !(
    #[trigger] table.peers@[i]).bridge_authorized by {
        let infos = infos_of(claims);
        assert(infos.contains(table.peers@[i]));
    }
}

} // verus!
