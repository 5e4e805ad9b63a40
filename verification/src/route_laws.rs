//! What holds of routes and their snapshots: who is forwarded to, who may
//! bridge, what readers see and what is kept of it.

use crate::flow_table::{FlowKey, FlowPin};
use crate::forwarding_snapshot::ForwardingDecisionSnapshot;
use crate::forwarding_table::{ForwardingPeerInfo, ForwardingPeerTable};
use crate::ip_prefix::{IpAddress, IpPrefix};
use crate::packet::{PeerHeader, PeerId, PeerIdentityType, SecureAuthLevel};
use crate::publish_hook::{ForwardingSnapshotPublishHook, ForwardingSnapshotSourceToken};
use crate::route_trait::NextHopPolicy;
use crate::rpc_service::{CredentialTerms, ManagementError, PeerInfo, PeerListing};
use crate::snapshot_store::{
    ForwardingDecisionSnapshotStoreInner, ForwardingSnapshotCommitError,
    ForwardingSnapshotPublishError,
};
use vstd::prelude::*;

verus! {

/// A verified peer can have every role. Only an administrator confirms the
/// secret of the network, and only a shared node or a foreign relay goes
/// unverified, the relay as no evidence; nobody goes unencrypted.
pub proof fn lemma_roles_have_their_levels(role: PeerIdentityType)
    ensures
        crate::route_trait::role_may_have(role, SecureAuthLevel::PeerVerified),
        crate::route_trait::role_may_have(role, SecureAuthLevel::NetworkSecretConfirmed) <==> role
            == PeerIdentityType::Admin,
        crate::route_trait::role_may_have(role, SecureAuthLevel::EncryptedUnauthenticated) <==> (
        role == PeerIdentityType::SharedNode || role == PeerIdentityType::ForeignRelay),
        !crate::route_trait::role_may_have(role, SecureAuthLevel::Unauthenticated),
        crate::route_trait::role_is_evidence(role, SecureAuthLevel::PeerVerified),
        crate::route_trait::role_is_evidence(role, SecureAuthLevel::NetworkSecretConfirmed) <==> role
            == PeerIdentityType::Admin,
        crate::route_trait::role_is_evidence(role, SecureAuthLevel::EncryptedUnauthenticated)
            <==> role == PeerIdentityType::SharedNode,
        !crate::route_trait::role_is_evidence(role, SecureAuthLevel::Unauthenticated),
{
}

/// An attestation holds until its deadline and not from then on; direct
/// authority has none.
pub proof fn lemma_attestations_end(end: u64, now: u64)
    ensures
        crate::route_trait::still_attested(None, now),
        crate::route_trait::still_attested(Some(end), now) <==> now < end,
{
}

/// Every policy takes its own hop where there is one. Where there is none, the
/// best goodput falls back to the least cost, and that to the least hops.
pub proof fn lemma_policies_prefer_their_own(snapshot: ForwardingDecisionSnapshot, peer_id: PeerId)
    requires
        !snapshot.suppressed_peer_ids@.contains(peer_id),
    ensures
        ({
            let hop = |policy: NextHopPolicy| snapshot.hop_to(peer_id, policy);
            &&& snapshot.max_goodput@.contains_key(peer_id) ==> hop(NextHopPolicy::MaxGoodput)
                == Some(snapshot.max_goodput@[peer_id])
            &&& snapshot.least_cost@.contains_key(peer_id) ==> hop(NextHopPolicy::LeastCost)
                == Some(snapshot.least_cost@[peer_id])
            &&& snapshot.least_hop@.contains_key(peer_id) ==> hop(NextHopPolicy::LeastHop) == Some(
                snapshot.least_hop@[peer_id],
            )
            &&& !snapshot.max_goodput@.contains_key(peer_id) ==> hop(NextHopPolicy::MaxGoodput)
                == hop(NextHopPolicy::LeastCost)
            &&& !snapshot.least_cost@.contains_key(peer_id) ==> hop(NextHopPolicy::LeastCost)
                == hop(NextHopPolicy::LeastHop)
            &&& !snapshot.least_hop@.contains_key(peer_id) ==> hop(NextHopPolicy::LeastHop) is None
        }),
{
}

/// Whether a peer says that it belongs to a group.
pub open spec fn joins(peer: ForwardingPeerInfo, address: IpAddress) -> bool {
    &&& peer.feature_flag is Some
    &&& peer.feature_flag->0.hybrid_l3
    &&& peer.feature_flag->0.multicast_membership
    &&& exists|g: int|
        0 <= g < peer.multicast_groups@.len() && crate::forwarding_table::group_address(
            (#[trigger] peer.multicast_groups@[g])@,
        ) == Some(address)
}

/// Whether a peer takes frames of a bridge and is authorized to bridge.
pub open spec fn bridges(peer: ForwardingPeerInfo) -> bool {
    &&& peer.feature_flag is Some
    &&& peer.feature_flag->0.ethernet_input
    &&& peer.feature_flag->0.hybrid_l3
    &&& peer.feature_flag->0.bridge_input
    &&& peer.bridge_authorized
}

proof fn lemma_memberships(groups: Seq<Vec<u8>>, peer_id: PeerId, address: IpAddress, id: PeerId)
    ensures
        crate::forwarding_table::memberships(groups, peer_id, address).contains(id) <==> id
            == peer_id && exists|g: int|
            0 <= g < groups.len() && crate::forwarding_table::group_address(
                (#[trigger] groups[g])@,
            ) == Some(address),
    decreases groups.len(),
{
    if groups.len() > 0 {
        let rest = groups.drop_last();
        lemma_memberships(rest, peer_id, address, id);
        let before = crate::forwarding_table::memberships(rest, peer_id, address);
        let all = crate::forwarding_table::memberships(groups, peer_id, address);
        assert(groups[groups.len() - 1] == groups.last());
        assert(forall|g: int| 0 <= g < rest.len() ==> #[trigger] rest[g] == groups[g]);
        if before.contains(id) {
            let k = choose|k: int| 0 <= k < before.len() && before[k] == id;
            assert(all[k] == id);
            let g = choose|g: int|
                0 <= g < rest.len() && crate::forwarding_table::group_address(
                    (#[trigger] rest[g])@,
                ) == Some(address);
            assert(groups[g] == rest[g]);
        }
        if crate::forwarding_table::group_address(groups.last()@) == Some(address) {
            assert(all[all.len() - 1] == peer_id);
        }
        if all.contains(id) && !before.contains(id) {
            let k = choose|k: int| 0 <= k < all.len() && all[k] == id;
            if k < before.len() {
                assert(before[k] == id);
            }
        }
        if id == peer_id && exists|g: int|
            0 <= g < groups.len() && crate::forwarding_table::group_address(
                (#[trigger] groups[g])@,
            ) == Some(address) {
            let g = choose|g: int|
                0 <= g < groups.len() && crate::forwarding_table::group_address(
                    (#[trigger] groups[g])@,
                ) == Some(address);
            if g < rest.len() {
                assert(rest[g] == groups[g]);
            }
        }
    }
}

/// The members of a group are the peers that say so; those that a bridge sends
/// to are the ones among them that are bridges themselves.
pub proof fn lemma_group_members_say_so(
    peers: Seq<ForwardingPeerInfo>,
    address: IpAddress,
    only_bridges: bool,
    id: PeerId,
)
    ensures
        crate::forwarding_table::group_members(peers, address, only_bridges).contains(id)
            <==> exists|i: int|
            0 <= i < peers.len() && (#[trigger] peers[i]).peer_id == id && joins(peers[i], address)
                && (only_bridges ==> bridges(peers[i])),
    decreases peers.len(),
{
    let all = crate::forwarding_table::group_members(peers, address, only_bridges);
    if peers.len() > 0 {
        let rest = peers.drop_last();
        let peer = peers.last();
        lemma_group_members_say_so(rest, address, only_bridges, id);
        lemma_memberships(peer.multicast_groups@, peer.peer_id, address, id);
        let before = crate::forwarding_table::group_members(rest, address, only_bridges);
        let own = crate::forwarding_table::memberships(
            peer.multicast_groups@,
            peer.peer_id,
            address,
        );
        assert(peers[peers.len() - 1] == peer);
        assert(forall|i: int| 0 <= i < rest.len() ==> #[trigger] rest[i] == peers[i]);
        if before.contains(id) {
            let k = choose|k: int| 0 <= k < before.len() && before[k] == id;
            assert(all[k] == id);
            let i = choose|i: int|
                0 <= i < rest.len() && (#[trigger] rest[i]).peer_id == id && joins(rest[i], address)
                    && (only_bridges ==> bridges(rest[i]));
            assert(peers[i] == rest[i]);
        }
        if own.contains(id) && peer.tells_groups() && (only_bridges ==> peer.is_bridge()) {
            let k = choose|k: int| 0 <= k < own.len() && own[k] == id;
            assert(all[before.len() + k] == id);
        }
        if all.contains(id) && !before.contains(id) {
            let k = choose|k: int| 0 <= k < all.len() && all[k] == id;
            if k < before.len() {
                assert(before[k] == id);
            } else {
                assert(own[k - before.len()] == id);
            }
        }
        if exists|i: int|
            0 <= i < peers.len() && (#[trigger] peers[i]).peer_id == id && joins(peers[i], address)
                && (only_bridges ==> bridges(peers[i])) {
            let i = choose|i: int|
                0 <= i < peers.len() && (#[trigger] peers[i]).peer_id == id && joins(
                    peers[i],
                    address,
                ) && (only_bridges ==> bridges(peers[i]));
            if i < rest.len() {
                assert(rest[i] == peers[i]);
            }
        }
    }
}

/// The peers with an address of the fourth protocol are those that have one.
pub proof fn lemma_ipv4_peers_have_an_address(peers: Seq<ForwardingPeerInfo>, id: PeerId)
    ensures
        crate::forwarding_table::ids_with_ipv4(peers).contains(id) <==> exists|i: int|
            0 <= i < peers.len() && (#[trigger] peers[i]).peer_id == id && peers[i].has_ipv4,
    decreases peers.len(),
{
    if peers.len() > 0 {
        let rest = peers.drop_last();
        lemma_ipv4_peers_have_an_address(rest, id);
        let before = crate::forwarding_table::ids_with_ipv4(rest);
        let all = crate::forwarding_table::ids_with_ipv4(peers);
        assert(peers[peers.len() - 1] == peers.last());
        assert(forall|i: int| 0 <= i < rest.len() ==> #[trigger] rest[i] == peers[i]);
        if before.contains(id) {
            let k = choose|k: int| 0 <= k < before.len() && before[k] == id;
            assert(all[k] == id);
            let i = choose|i: int|
                0 <= i < rest.len() && (#[trigger] rest[i]).peer_id == id && rest[i].has_ipv4;
            assert(peers[i] == rest[i]);
        }
        if peers.last().has_ipv4 {
            assert(all[all.len() - 1] == peers.last().peer_id);
        }
        if all.contains(id) && !before.contains(id) {
            let k = choose|k: int| 0 <= k < all.len() && all[k] == id;
            if k < before.len() {
                assert(before[k] == id);
            }
        }
        if exists|i: int|
            0 <= i < peers.len() && (#[trigger] peers[i]).peer_id == id && peers[i].has_ipv4 {
            let i = choose|i: int|
                0 <= i < peers.len() && (#[trigger] peers[i]).peer_id == id && peers[i].has_ipv4;
            if i < rest.len() {
                assert(rest[i] == peers[i]);
            }
        }
    }
}

proof fn lemma_bridge_ids(peers: Seq<ForwardingPeerInfo>, id: PeerId)
    ensures
        crate::forwarding_table::bridge_ids(peers).contains(id) <==> exists|i: int|
            0 <= i < peers.len() && (#[trigger] peers[i]).peer_id == id && bridges(peers[i]),
    decreases peers.len(),
{
    if peers.len() > 0 {
        let rest = peers.drop_last();
        lemma_bridge_ids(rest, id);
        let before = crate::forwarding_table::bridge_ids(rest);
        let all = crate::forwarding_table::bridge_ids(peers);
        assert(peers[peers.len() - 1] == peers.last());
        assert(forall|i: int| 0 <= i < rest.len() ==> #[trigger] rest[i] == peers[i]);
        if before.contains(id) {
            let k = choose|k: int| 0 <= k < before.len() && before[k] == id;
            assert(all[k] == id);
            let i = choose|i: int|
                0 <= i < rest.len() && (#[trigger] rest[i]).peer_id == id && bridges(rest[i]);
            assert(peers[i] == rest[i]);
        }
        if peers.last().is_bridge() {
            assert(all[all.len() - 1] == peers.last().peer_id);
        }
        if all.contains(id) && !before.contains(id) {
            let k = choose|k: int| 0 <= k < all.len() && all[k] == id;
            if k < before.len() {
                assert(before[k] == id);
            }
        }
        if exists|i: int|
            0 <= i < peers.len() && (#[trigger] peers[i]).peer_id == id && bridges(peers[i]) {
            let i = choose|i: int|
                0 <= i < peers.len() && (#[trigger] peers[i]).peer_id == id && bridges(peers[i]);
            if i < rest.len() {
                assert(rest[i] == peers[i]);
            }
        }
    }
}

proof fn lemma_kept_with_authority(table: ForwardingPeerTable, ids: Seq<PeerId>, now: u64, id: PeerId)
    ensures
        table.with_authority(ids, now).contains(id) <==> ids.contains(id) && table.authority_holds(
            id,
            now,
        ),
    decreases ids.len(),
{
    if ids.len() > 0 {
        let rest = ids.drop_last();
        lemma_kept_with_authority(table, rest, now, id);
        let before = table.with_authority(rest, now);
        let all = table.with_authority(ids, now);
        assert(ids[ids.len() - 1] == ids.last());
        if before.contains(id) {
            let k = choose|k: int| 0 <= k < before.len() && before[k] == id;
            assert(all[k] == id);
        }
        if table.authority_holds(ids.last(), now) {
            assert(all[all.len() - 1] == ids.last());
        }
        if all.contains(id) && !before.contains(id) {
            let k = choose|k: int| 0 <= k < all.len() && all[k] == id;
            if k < before.len() {
                assert(before[k] == id);
            }
        }
        if rest.contains(id) {
            let k = choose|k: int| 0 <= k < rest.len() && rest[k] == id;
            assert(ids[k] == id);
        }
        if ids.contains(id) {
            let k = choose|k: int| 0 <= k < ids.len() && ids[k] == id;
            if k < rest.len() {
                assert(rest[k] == id);
            }
        }
    }
}

/// Frames go to the peers that may bridge, and to no others: a peer may that
/// takes frames and whose authority was authenticated and has not ended.
pub proof fn lemma_frames_go_to_bridges(table: ForwardingPeerTable, now: u64, i: int)
    requires
        table.wf(),
        0 <= i < table.peers@.len(),
    ensures
        ({
            let peer = table.peers@[i];
            let may = bridges(peer) && (peer.bridge_authorization_deadline is Some ==> now
                < peer.bridge_authorization_deadline->0);
            &&& table.may_bridge(peer.peer_id, now) <==> may
            &&& table.with_authority(crate::forwarding_table::bridge_ids(table.peers@), now)
                .contains(peer.peer_id) <==> may
        }),
{
    let peer = table.peers@[i];
    assert forall|j: int|
        0 <= j < table.peers@.len() && (#[trigger] table.peers@[j]).peer_id
            == peer.peer_id implies j == i by {
        if j < i {
            assert(table.peers@[j].peer_id < table.peers@[i].peer_id);
        } else if i < j {
            assert(table.peers@[i].peer_id < table.peers@[j].peer_id);
        }
    }
    lemma_bridge_ids(table.peers@, peer.peer_id);
    lemma_kept_with_authority(
        table,
        crate::forwarding_table::bridge_ids(table.peers@),
        now,
        peer.peer_id,
    );
}

/// A publication is taken from a source that is known and not about to change,
/// and only if it is newer than what the source has published. What readers see
/// of the active source is then that publication; a second one that is not newer
/// is stale.
pub proof fn lemma_taken_publication_is_the_newest<H: ForwardingSnapshotPublishHook>(
    before: ForwardingDecisionSnapshotStoreInner<H>,
    after: ForwardingDecisionSnapshotStoreInner<H>,
    source_token: ForwardingSnapshotSourceToken,
    snapshot: ForwardingDecisionSnapshot,
    accepted: bool,
    outcome: Result<(), ForwardingSnapshotPublishError>,
    generation: u64,
)
    requires
        before.wf(),
        before.publishes(after, source_token, snapshot, accepted, outcome),
    ensures
        outcome is Ok ==> {
            &&& source_token.0 != 0
            &&& before.transitioning_source != Some(source_token)
            &&& before.active_source_token == source_token
                || before.pending_snapshots@.contains_key(source_token.0)
            &&& before.active_source_token == source_token ==> {
                &&& after.published is Some
                &&& after.published->0.snapshot == snapshot
                &&& before.published is Some ==> before.published->0.snapshot.generation
                    < snapshot.generation
            }
            &&& before.active_source_token != source_token ==> {
                &&& after.published == before.published
                &&& after.pending_snapshots@[source_token.0] == Some(snapshot)
            }
            &&& generation <= snapshot.generation ==> after.publish_check(source_token, generation)
                is Some
            &&& generation > snapshot.generation ==> after.publish_check(source_token, generation)
                is None
        },
        outcome is Err ==> after.published == before.published,
        accepted && before.wf() && source_token.0 != 0 && before.transitioning_source is None
            && before.active_source_token == source_token && (before.published is Some
            ==> before.published->0.snapshot.generation < snapshot.generation) ==> outcome is Ok,
{
}

/// Once a prepared source was committed, readers see what it had published last.
pub proof fn lemma_commit_shows_the_prepared<H: ForwardingSnapshotPublishHook>(
    before: ForwardingDecisionSnapshotStoreInner<H>,
    prepared: ForwardingDecisionSnapshotStoreInner<H>,
    after: ForwardingDecisionSnapshotStoreInner<H>,
    source_token: ForwardingSnapshotSourceToken,
    snapshot: ForwardingDecisionSnapshot,
    accepted: bool,
    committed: bool,
)
    requires
        before.wf(),
        before.active_source_token != source_token,
        before.publishes(
            prepared,
            source_token,
            snapshot,
            accepted,
            Ok::<(), ForwardingSnapshotPublishError>(()),
        ),
        prepared.commits(
            after,
            source_token,
            committed,
            Ok::<(), ForwardingSnapshotCommitError>(()),
        ),
    ensures
        after.active_source_token == source_token,
        after.published is Some,
        after.published->0.source_token == source_token,
        after.published->0.snapshot == snapshot,
        !after.pending_snapshots@.contains_key(source_token.0),
        forall|other: u64|
            other != source_token.0 ==> (#[trigger] after.pending_snapshots@.contains_key(other)
                <==> before.pending_snapshots@.contains_key(other)),
{
}

/// Making room forgets nothing below the capacity. At the capacity it forgets
/// what is too old or of another generation, and nothing else where that is
/// enough; else a quarter of the room becomes free.
pub proof fn lemma_room_is_made_of_what_is_old(
    before: Map<FlowKey, FlowPin>,
    after: Map<FlowKey, FlowPin>,
    capacity: usize,
    now_ns: u64,
    ttl_ns: u64,
    generation: Option<u64>,
    key: FlowKey,
)
    requires
        crate::flow_table::room_made(before, after, capacity, now_ns, ttl_ns, generation),
    ensures
        after.dom().len() < capacity,
        before.dom().len() < capacity ==> after == before,
        after.contains_key(key) ==> before.contains_key(key) && after[key] == before[key],
        before.dom().len() >= capacity && after.contains_key(key) ==> {
            &&& now_ns <= before[key].created_at + ttl_ns
            &&& generation is Some ==> before[key].generation == generation->0
        },
        before.contains_key(key) && !after.contains_key(key) && now_ns <= before[key].created_at
            + ttl_ns && (generation is Some ==> before[key].generation == generation->0)
            && capacity <= usize::MAX / 3 ==> after.dom().len() == capacity * 3 / 4,
{
}

/// The entry that an address is found by is the only one of its length; no entry
/// that holds the address is longer.
pub proof fn lemma_one_entry_is_longest(
    entries: Map<IpPrefix, u64>,
    address: IpAddress,
    a: IpPrefix,
    b: IpPrefix,
)
    requires
        a.wf(),
        b.wf(),
        crate::prefix_table::longest_match(entries, address, a),
        entries.contains_key(b),
        b.covers(address),
    ensures
        b.length <= a.length,
        b.length == a.length ==> b == a,
        crate::prefix_table::longest_match(entries, address, b) ==> b == a,
{
    if b.length == a.length {
        crate::ip_prefix::lemma_covering_prefix_is_unique(a, b, address);
    }
}

/// A number of eight bits is written in decimal digits that stand for it, without
/// leading zeros.
pub proof fn lemma_octets_are_decimal(value: u8)
    ensures
        ({
            let text = crate::rpc_service::octet_text(value);
            &&& 1 <= text.len() <= 3
            &&& forall|i: int| 0 <= i < text.len() ==> '0' <= #[trigger] text[i] && text[i] <= '9'
            &&& text.len() > 1 ==> text[0] != '0'
            &&& text.len() == 1 ==> value == text[0] as int - 48
            &&& text.len() == 2 ==> value == 10 * (text[0] as int - 48) + (text[1] as int - 48)
            &&& text.len() == 3 ==> value == 100 * (text[0] as int - 48) + 10 * (text[1] as int
                - 48) + (text[2] as int - 48)
        }),
{
}

/// Credentials are managed only from the node itself, with the secret of the
/// network as the token.
pub proof fn lemma_the_secret_is_the_token(
    b: u8,
    c: u8,
    d: u8,
    network_secret: Seq<char>,
    admin_token: Option<Seq<char>>,
)
    ensures
        crate::rpc_service::may_manage(
            Some(crate::rpc_service::dotted(127, b, c, d)),
            Some(network_secret),
            admin_token,
        ) <==> network_secret.len() > 0 && admin_token == Some(network_secret),
{
    assert(crate::rpc_service::is_loopback(crate::rpc_service::dotted(127, b, c, d)));
}

/// A credential is issued as it was asked for: for the time that was given, and
/// for more than one use unless that was refused.
pub proof fn lemma_credentials_are_as_asked(
    authorized: bool,
    network_secret: Option<Seq<char>>,
    ttl_seconds: i64,
    reusable: Option<bool>,
)
    ensures
        ({
            let terms = crate::rpc_service::generation_of(
                authorized,
                network_secret,
                ttl_seconds,
                reusable,
            );
            &&& terms is Ok <==> authorized && network_secret is Some && network_secret->0.len() > 0
                && ttl_seconds > 0
            &&& terms is Ok ==> terms->Ok_0.ttl_seconds == ttl_seconds
            &&& terms is Ok ==> (terms->Ok_0.reusable <==> reusable != Some(false))
            &&& !authorized ==> terms == Err::<CredentialTerms, ManagementError>(
                ManagementError::NotAuthorized,
            )
        }),
{
}

/// What is said of a peer are its connections in the network of the node; those
/// in foreign networks only where it has none there.
pub proof fn lemma_own_connections_come_first(listing: PeerListing, info: PeerInfo)
    requires
        crate::rpc_service::described(listing, info),
    ensures
        info.peer_id == listing.peer_id,
        listing.own_conns is Some ==> info.conns@ == listing.own_conns->0@,
        listing.own_conns is None && listing.foreign_conns is Some ==> info.conns@
            == listing.foreign_conns->0@,
        listing.own_conns is None && listing.foreign_conns is None ==> info.conns@.len() == 0,
{
}

/// What a relay may change in a header does not change what authenticates it:
/// the count of forwards, the two lowest flags and the lowest control mark.
/// Everything else does.
pub proof fn lemma_relays_change_only_their_marks(a: PeerHeader, b: PeerHeader)
    ensures
        a.stable_bytes() == b.stable_bytes() <==> {
            &&& a.from_peer_id == b.from_peer_id
            &&& a.to_peer_id == b.to_peer_id
            &&& a.packet_type == b.packet_type
            &&& a.flags / 4 == b.flags / 4
            &&& a.controls / 2 == b.controls / 2
            &&& a.flow_shard == b.flow_shard
            &&& a.len == b.len
        },
{
    let (f, g) = (a.flags, b.flags);
    let (p, q) = (a.controls, b.controls);
    PeerHeader::lemma_stable_fields(a, b);
    assert((f & 0xfc == g & 0xfc) <==> (f / 4 == g / 4)) by (bit_vector);
    assert((p & 0xfe == q & 0xfe) <==> (p / 2 == q / 2)) by (bit_vector);
}

/// The marks of a header stand in fixed bits.
pub proof fn lemma_header_marks(header: PeerHeader)
    ensures
        header.encrypted() <==> header.flags % 2 == 1,
        header.hybrid() <==> (header.controls / 2) % 2 == 1,
        header.critical() <==> (header.controls / 4) % 2 == 1,
{
    let f = header.flags;
    let c = header.controls;
    assert((f & 0x01 != 0) <==> f % 2 == 1) by (bit_vector);
    assert((c & 0x02 != 0) <==> (c / 2) % 2 == 1) by (bit_vector);
    assert((c & 0x04 != 0) <==> (c / 4) % 2 == 1) by (bit_vector);
}

} // verus!
