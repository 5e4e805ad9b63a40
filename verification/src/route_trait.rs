//! Routes: what is known of peers, and what a route is chosen by.

use vstd::prelude::*;
use crate::packet::{PeerId, PeerIdentityType, SecureAuthLevel};

verus! {

/// The length of a static key.
pub const STATIC_KEY_LEN: usize = 32;

/// What authentication has shown of a peer.
#[derive(Clone, Debug)]
pub struct AuthenticatedRoutePeerEvidence {
    pub peer_id: PeerId,
    pub identity_type: PeerIdentityType,
    pub noise_static_pubkey: Vec<u8>,
    pub secure_auth_level: SecureAuthLevel,
}

/// Whether a role can go with a level of authentication. A foreign relay may
/// have an encrypted transport within its scope without being verified.
pub open spec fn role_may_have(identity_type: PeerIdentityType, level: SecureAuthLevel) -> bool {
    match identity_type {
        PeerIdentityType::Admin => level == SecureAuthLevel::PeerVerified || level
            == SecureAuthLevel::NetworkSecretConfirmed,
        PeerIdentityType::Credential => level == SecureAuthLevel::PeerVerified,
        PeerIdentityType::SharedNode => level == SecureAuthLevel::EncryptedUnauthenticated || level
            == SecureAuthLevel::PeerVerified,
        PeerIdentityType::ForeignRelay => level == SecureAuthLevel::EncryptedUnauthenticated
            || level == SecureAuthLevel::PeerVerified,
    }
}

/// Whether a role and a level are evidence of a peer. A foreign relay has to be
/// verified for that.
pub open spec fn role_is_evidence(identity_type: PeerIdentityType, level: SecureAuthLevel) -> bool {
    &&& role_may_have(identity_type, level)
    &&& identity_type == PeerIdentityType::ForeignRelay ==> level == SecureAuthLevel::PeerVerified
}

impl AuthenticatedRoutePeerEvidence {
    /// Whether this is evidence of a peer.
    ///
    /// Route topology data cannot satisfy this check. The static key must be
    /// one complete public key, and the role must match its level.
    pub fn validate_for(&self, expected_peer_id: PeerId) -> (valid: bool)
        ensures
            valid == (self.peer_id == expected_peer_id && self.noise_static_pubkey@.len()
                == STATIC_KEY_LEN && role_is_evidence(self.identity_type, self.secure_auth_level)),
    {
        self.peer_id == expected_peer_id && self.noise_static_pubkey.len() == STATIC_KEY_LEN
            && Self::is_allowed_role_auth_pair(self.identity_type, self.secure_auth_level) && (
        self.identity_type != PeerIdentityType::ForeignRelay || self.secure_auth_level
            == SecureAuthLevel::PeerVerified)
    }

    pub fn is_allowed_role_auth_pair(
        identity_type: PeerIdentityType,
        secure_auth_level: SecureAuthLevel,
    ) -> (allowed: bool)
        ensures
            allowed == role_may_have(identity_type, secure_auth_level),
    {
        match identity_type {
            PeerIdentityType::Admin => secure_auth_level == SecureAuthLevel::PeerVerified
                || secure_auth_level == SecureAuthLevel::NetworkSecretConfirmed,
            PeerIdentityType::Credential => secure_auth_level == SecureAuthLevel::PeerVerified,
            PeerIdentityType::SharedNode => secure_auth_level
                == SecureAuthLevel::EncryptedUnauthenticated || secure_auth_level
                == SecureAuthLevel::PeerVerified,
            PeerIdentityType::ForeignRelay => secure_auth_level
                == SecureAuthLevel::EncryptedUnauthenticated || secure_auth_level
                == SecureAuthLevel::PeerVerified,
        }
    }
}

/// What authentication has shown of a peer that bridges networks.
#[derive(Clone, Debug)]
pub struct BridgeRoutePeerEvidence {
    pub peer_id: PeerId,
    pub noise_static_pubkey: Vec<u8>,
    /// Nothing means direct authenticated authority; a time ends an attestation.
    pub deadline: Option<u64>,
    pub generation: u64,
}

/// Whether an attestation still holds.
pub open spec fn still_attested(deadline: Option<u64>, now: u64) -> bool {
    deadline matches Some(end) ==> end > now
}

pub fn is_still_attested(deadline: Option<u64>, now: u64) -> (holds: bool)
    ensures
        holds == still_attested(deadline, now),
{
    match deadline {
        Some(end) => end > now,
        None => true,
    }
}

impl BridgeRoutePeerEvidence {
    pub fn validate_for(&self, expected_peer_id: PeerId, now: u64) -> (valid: bool)
        ensures
            valid == (self.peer_id == expected_peer_id && self.noise_static_pubkey@.len()
                == STATIC_KEY_LEN && still_attested(self.deadline, now)),
    {
        self.peer_id == expected_peer_id && self.noise_static_pubkey.len() == STATIC_KEY_LEN
            && is_still_attested(self.deadline, now)
    }
}

/// The owner of a foreign network: its key and its generation.
#[derive(Clone, Debug)]
pub struct ForeignOwner {
    pub key: Vec<u8>,
    pub generation: u64,
}

/// One update of route authority. All origins are published in one operation,
/// and what is missing is revoked.
#[derive(Clone, Debug)]
pub struct OriginAuthPublication {
    pub peer_id: PeerId,
    pub generic: Option<AuthenticatedRoutePeerEvidence>,
    pub bridge: Option<BridgeRoutePeerEvidence>,
    pub foreign_owner: Option<ForeignOwner>,
}

/// Why an update of route authority was refused.
#[derive(Clone, Copy, Debug, PartialEq, Eq, Structural)]
pub enum RouteOriginAuthPublishError {
    SourceNotRegistered,
    StaleGeneration,
    InvalidPublication,
    AuthGenerationExhausted,
    PublicationRejected,
}

/// What a route is chosen by.
#[derive(Clone, Copy, Debug, Default, PartialEq, Eq, Structural)]
pub enum NextHopPolicy {
    #[default]
    LeastHop,
    LeastCost,
    MaxGoodput,
}

#[derive(Clone, Copy, Debug, Default, PartialEq, Eq, Structural)]
pub struct RouteQuality {
    pub delivery_bps: u64,
    pub latency_ms: u64,
    pub hops: usize,
}

/// Computes what routes cost. Times are in milliseconds.
pub trait RouteCostCalculatorInterface: Sized {
    fn begin_update(&mut self)
        default_ensures
            *final(self) == *old(self),
    {
    }

    fn end_update(&mut self)
        default_ensures
            *final(self) == *old(self),
    {
    }

    fn calculate_cost(&self, _src: PeerId, _dst: PeerId) -> (cost: i32)
        default_ensures
            cost == 1,
    {
        1
    }

    fn calculate_delivery_bps(&self, _src: PeerId, _dst: PeerId) -> (rate: Option<u64>)
        default_ensures
            rate is None,
    {
        None
    }

    fn need_update(&self) -> (needed: bool)
        default_ensures
            !needed,
    {
        false
    }

    /// Whether the costs have changed: they are updated with the rest.
    fn cost_need_update(&self) -> (needed: bool)
        default_ensures
            call_ensures(Self::need_update, (self,), needed),
    {
        self.need_update()
    }

    /// Whether the rates have changed: they are updated with the rest.
    fn delivery_need_update(&self) -> (needed: bool)
        default_ensures
            call_ensures(Self::need_update, (self,), needed),
    {
        self.need_update()
    }

    fn next_update_in(&self) -> (ms: Option<u64>)
        default_ensures
            ms is None,
    {
        None
    }

    fn next_delivery_update_in(&self) -> (ms: Option<u64>)
        default_ensures
            call_ensures(Self::next_update_in, (self,), ms),
    {
        self.next_update_in()
    }

    fn dump(&self) -> (text: String)
        default_ensures
            text@ == "All routes have cost 1"@,
    {
        "All routes have cost 1".to_string()
    }
}

/// Gives every route the same cost.
#[derive(Clone, Copy, Debug, Default)]
pub struct DefaultRouteCostCalculator;

impl RouteCostCalculatorInterface for DefaultRouteCostCalculator {

}

/// A route that nothing can be asked of.
#[derive(Clone, Copy, Debug)]
pub struct MockRoute {}

} // verus!
