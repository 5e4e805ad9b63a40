//! What a relay session may speak for: the authority that the routes give a
//! peer, and the binding of a session to it.

use vstd::prelude::*;
use crate::bytes::Key32;
use crate::packet::{
    Packet, PacketModel, PeerId, PeerIdentityType, SecureAuthLevel, VerifiedOrigin,
    PACKET_ETHERNET,
};
use crate::peer_session::{PeerSession, PeerSessionModel};
use crate::relay_wire::RelayError;

verus! {

/// The authenticated identity of an origin.
#[derive(Clone, Copy, PartialEq, Eq, Structural)]
pub struct OriginAuthEntry {
    pub noise_static_pubkey: Key32,
    pub identity_type: PeerIdentityType,
    pub secure_auth_level: SecureAuthLevel,
    pub revision: u64,
}

/// A grant to send complete Ethernet packets.
#[derive(Clone, Copy, PartialEq, Eq, Structural)]
pub struct OriginAuthGrant {
    pub noise_static_pubkey: Key32,
    pub revision: u64,
    pub live: bool,
}

/// What one snapshot of the routes says of a peer.
#[derive(Clone, Copy, PartialEq, Eq, Structural)]
pub struct RelayAuthority {
    pub generic: Option<OriginAuthEntry>,
    pub bridge: Option<OriginAuthGrant>,
}

/// The authority that a session was bound to when it was established.
#[derive(Clone, Copy, PartialEq, Eq, Structural)]
pub struct RelaySessionAuthBinding {
    pub peer_id: PeerId,
    pub metadata_session_id: u128,
    pub noise_static_pubkey: Key32,
    pub generic_revision: Option<u64>,
    pub bridge_revision: Option<u64>,
}

/// An identity and, where there is one, a live grant.
pub struct ValidatedAuthority {
    pub generic: OriginAuthEntry,
    pub bridge: Option<OriginAuthGrant>,
}

impl RelayAuthority {
    pub open spec fn live_bridge(self) -> Option<OriginAuthGrant> {
        match self.bridge {
            Some(grant) => if grant.live {
                Some(grant)
            } else {
                None
            },
            None => None,
        }
    }

    fn live_bridge_of(&self) -> (grant: Option<OriginAuthGrant>)
        ensures
            grant == self.live_bridge(),
    {
        match self.bridge {
            Some(grant) => {
                if grant.live {
                    Some(grant)
                } else {
                    None
                }
            },
            None => None,
        }
    }

    /// Binding a session to the authority of its peer.
    pub open spec fn binding(self, peer_id: PeerId, session: PeerSessionModel) -> Result<
        RelaySessionAuthBinding,
        RelayError,
    > {
        match session.peer_static_pubkey {
            None => Err(RelayError::SessionWithoutPeerKey),
            Some(key) => match self.generic {
                Some(entry) => if entry.noise_static_pubkey != key {
                    Err(RelayError::SessionKeyMismatch)
                } else {
                    Ok(
                        RelaySessionAuthBinding {
                            peer_id,
                            metadata_session_id: session.metadata_session_id,
                            noise_static_pubkey: key,
                            generic_revision: Some(entry.revision),
                            bridge_revision: match self.live_bridge() {
                                Some(grant) => Some(grant.revision),
                                None => None,
                            },
                        },
                    )
                },
                None => Err(RelayError::SessionKeyMismatch),
            },
        }
    }

    pub fn bind_relay_session_auth(&self, peer_id: PeerId, session: &PeerSession) -> (bound: Result<
        RelaySessionAuthBinding,
        RelayError,
    >)
        ensures
            bound == self.binding(peer_id, session@),
    {
        let key = match session.peer_static_pubkey() {
            Some(key) => key,
            None => {
                return Err(RelayError::SessionWithoutPeerKey);
            },
        };
        match self.generic {
            Some(entry) => {
                if entry.noise_static_pubkey != key {
                    return Err(RelayError::SessionKeyMismatch);
                }
                Ok(
                    RelaySessionAuthBinding {
                        peer_id,
                        metadata_session_id: session.metadata_session_id(),
                        noise_static_pubkey: key,
                        generic_revision: Some(entry.revision),
                        bridge_revision: match self.live_bridge_of() {
                            Some(grant) => Some(grant.revision),
                            None => None,
                        },
                    },
                )
            },
            None => Err(RelayError::SessionKeyMismatch),
        }
    }

    /// Whether a session speaks for its peer. A complete Ethernet packet needs
    /// a live grant to the same key.
    pub open spec fn identity_check(self, session: PeerSessionModel, requires_bridge_grant: bool) -> Result<
        (),
        RelayError,
    > {
        match self.generic {
            None => Err(RelayError::OriginWithoutIdentity),
            Some(entry) => match session.peer_static_pubkey {
                None => Err(RelayError::SessionWithoutPeerKey),
                Some(key) => if entry.noise_static_pubkey != key {
                    Err(RelayError::SessionKeyMismatch)
                } else if requires_bridge_grant {
                    match self.live_bridge() {
                        None => Err(RelayError::BridgeGrantMissing),
                        Some(grant) => if grant.noise_static_pubkey != key {
                            Err(RelayError::BridgeGrantKeyMismatch)
                        } else {
                            Ok(())
                        },
                    }
                } else {
                    Ok(())
                },
            },
        }
    }

    /// Whether a bound session still speaks for its peer: nothing that it was
    /// bound to has changed.
    pub open spec fn binding_check(
        self,
        peer_id: PeerId,
        session: PeerSessionModel,
        requires_bridge_grant: bool,
        binding: Option<RelaySessionAuthBinding>,
    ) -> Result<(), RelayError> {
        match self.identity_check(session, requires_bridge_grant) {
            Err(e) => Err(e),
            Ok(_) => match binding {
                None => Err(RelayError::BindingMissing),
                Some(binding) => if binding.peer_id != peer_id || binding.metadata_session_id
                    != session.metadata_session_id || Some(binding.noise_static_pubkey)
                    != session.peer_static_pubkey || binding.generic_revision != Some(
                    self.generic->0.revision,
                ) {
                    Err(RelayError::BindingChanged)
                } else if requires_bridge_grant && binding.bridge_revision != Some(
                    self.live_bridge()->0.revision,
                ) {
                    Err(RelayError::BridgeGrantChanged)
                } else {
                    Ok(())
                },
            },
        }
    }

    pub open spec fn validated(self) -> ValidatedAuthority {
        ValidatedAuthority { generic: self.generic->0, bridge: self.live_bridge() }
    }

    pub fn validate_relay_session_identity(&self, session: &PeerSession, requires_bridge_grant: bool) -> (result:
        Result<ValidatedAuthority, RelayError>)
        ensures
            result == (match self.identity_check(session@, requires_bridge_grant) {
                Ok(_) => Ok::<ValidatedAuthority, RelayError>(self.validated()),
                Err(e) => Err(e),
            }),
    {
        let generic = match self.generic {
            Some(entry) => entry,
            None => {
                return Err(RelayError::OriginWithoutIdentity);
            },
        };
        let key = match session.peer_static_pubkey() {
            Some(key) => key,
            None => {
                return Err(RelayError::SessionWithoutPeerKey);
            },
        };
        if generic.noise_static_pubkey != key {
            return Err(RelayError::SessionKeyMismatch);
        }
        let bridge = self.live_bridge_of();
        if requires_bridge_grant {
            match bridge {
                None => {
                    return Err(RelayError::BridgeGrantMissing);
                },
                Some(grant) => {
                    if grant.noise_static_pubkey != key {
                        return Err(RelayError::BridgeGrantKeyMismatch);
                    }
                },
            }
        }
        Ok(ValidatedAuthority { generic, bridge })
    }

    pub fn validate_relay_session_auth(
        &self,
        peer_id: PeerId,
        session: &PeerSession,
        requires_bridge_grant: bool,
        binding: Option<RelaySessionAuthBinding>,
    ) -> (result: Result<ValidatedAuthority, RelayError>)
        ensures
            result == (match self.binding_check(peer_id, session@, requires_bridge_grant, binding) {
                Ok(_) => Ok::<ValidatedAuthority, RelayError>(self.validated()),
                Err(e) => Err(e),
            }),
    {
        let authority = match self.validate_relay_session_identity(session, requires_bridge_grant) {
            Ok(authority) => authority,
            Err(e) => {
                return Err(e);
            },
        };
        let binding = match binding {
            Some(binding) => binding,
            None => {
                return Err(RelayError::BindingMissing);
            },
        };
        if binding.peer_id != peer_id || binding.metadata_session_id
            != session.metadata_session_id() || Some(binding.noise_static_pubkey)
            != session.peer_static_pubkey() || binding.generic_revision != Some(
            authority.generic.revision,
        ) {
            return Err(RelayError::BindingChanged);
        }
        if requires_bridge_grant {
            if let Some(grant) = authority.bridge {
                if binding.bridge_revision != Some(grant.revision) {
                    return Err(RelayError::BridgeGrantChanged);
                }
            }
        }
        Ok(authority)
    }

    /// Whether the grant, the session and the binding agree.
    pub open spec fn bridge_valid(
        self,
        key: Key32,
        binding: Option<RelaySessionAuthBinding>,
    ) -> bool {
        &&& self.live_bridge() matches Some(grant)
        &&& grant.noise_static_pubkey == key
        &&& binding matches Some(b)
        &&& b.bridge_revision == Some(grant.revision)
    }

    pub fn bridge_grant_valid(&self, key: Key32, binding: Option<RelaySessionAuthBinding>) -> (valid:
        bool)
        ensures
            valid == self.bridge_valid(key, binding),
    {
        match self.live_bridge_of() {
            Some(grant) => match binding {
                Some(binding) => grant.noise_static_pubkey == key && binding.bridge_revision
                    == Some(grant.revision),
                None => false,
            },
            None => false,
        }
    }
}

/// Whether a verified Ethernet packet speaks for an administrator of the
/// network, and may carry what it carries.
pub open spec fn ethernet_authorized(
    packet: PacketModel,
    peer_id: PeerId,
    binding: Option<RelaySessionAuthBinding>,
    authority: RelayAuthority,
) -> bool {
    &&& packet.header matches Some(header)
    &&& header.from_peer_id == peer_id
    &&& header.packet_type == PACKET_ETHERNET
    &&& binding is Some
    &&& packet.verified_origin == Some(
        VerifiedOrigin {
            peer_id,
            identity_type: PeerIdentityType::Admin,
            secure_auth_level: SecureAuthLevel::PeerVerified,
            session_id: binding->0.metadata_session_id,
        },
    )
    &&& authority.generic matches Some(generic) && {
        &&& generic.identity_type == PeerIdentityType::Admin
        &&& generic.secure_auth_level == SecureAuthLevel::PeerVerified || generic.secure_auth_level
            == SecureAuthLevel::NetworkSecretConfirmed
        &&& binding->0.noise_static_pubkey == generic.noise_static_pubkey
        &&& binding->0.generic_revision == Some(generic.revision)
        &&& packet.header->0.hybrid() || authority.bridge_valid(
            generic.noise_static_pubkey,
            binding,
        )
    }
}

pub fn ethernet_origin_is_authorized(
    packet: &Packet,
    peer_id: PeerId,
    binding: Option<RelaySessionAuthBinding>,
    authority: &RelayAuthority,
) -> (authorized: bool)
    ensures
        authorized == ethernet_authorized(packet@, peer_id, binding, *authority),
{
    let header = match packet.header {
        Some(header) => header,
        None => {
            return false;
        },
    };
    if header.from_peer_id != peer_id || header.packet_type != PACKET_ETHERNET {
        return false;
    }
    let bound = match binding {
        Some(bound) => bound,
        None => {
            return false;
        },
    };
    let expected = VerifiedOrigin {
        peer_id,
        identity_type: PeerIdentityType::Admin,
        secure_auth_level: SecureAuthLevel::PeerVerified,
        session_id: bound.metadata_session_id,
    };
    if packet.verified_origin != Some(expected) {
        return false;
    }
    let generic = match authority.generic {
        Some(generic) => generic,
        None => {
            return false;
        },
    };
    let verified = generic.secure_auth_level == SecureAuthLevel::PeerVerified
        || generic.secure_auth_level == SecureAuthLevel::NetworkSecretConfirmed;
    if generic.identity_type != PeerIdentityType::Admin || !verified || bound.noise_static_pubkey
        != generic.noise_static_pubkey || bound.generic_revision != Some(generic.revision) {
        return false;
    }
    if header.is_hybrid_ip_ethernet() {
        return true;
    }
    authority.bridge_grant_valid(generic.noise_static_pubkey, binding)
}

/// How far an origin is authenticated by a relay session. A grant, or a proof of
/// the network secret on another hop, does not raise it above a verified peer.
pub open spec fn relayed_level(authority: ValidatedAuthority) -> SecureAuthLevel {
    if authority.bridge is Some || authority.generic.secure_auth_level
        == SecureAuthLevel::NetworkSecretConfirmed || authority.generic.secure_auth_level
        == SecureAuthLevel::PeerVerified {
        SecureAuthLevel::PeerVerified
    } else {
        SecureAuthLevel::EncryptedUnauthenticated
    }
}

pub fn relayed_auth_level(authority: &ValidatedAuthority) -> (level: SecureAuthLevel)
    ensures
        level == relayed_level(*authority),
{
    if authority.bridge.is_some() || authority.generic.secure_auth_level
        == SecureAuthLevel::NetworkSecretConfirmed || authority.generic.secure_auth_level
        == SecureAuthLevel::PeerVerified {
        SecureAuthLevel::PeerVerified
    } else {
        SecureAuthLevel::EncryptedUnauthenticated
    }
}

/// A session that was just bound is valid against the same snapshot, and no
/// longer once the identity, the key or a grant that is asked for has changed.
pub proof fn lemma_binding_holds_until_authority_changes(
    before: RelayAuthority,
    after: RelayAuthority,
    peer_id: PeerId,
    session: PeerSessionModel,
    requires_bridge_grant: bool,
)
    requires
        before.binding(peer_id, session) is Ok,
    ensures
        ({
            let binding = Some(before.binding(peer_id, session)->Ok_0);
            &&& before.binding_check(peer_id, session, false, binding) is Ok
            &&& after.generic is None ==> after.binding_check(
                peer_id,
                session,
                requires_bridge_grant,
                binding,
            ) is Err
            &&& after.generic is Some && (after.generic->0.revision != before.generic->0.revision
                || Some(after.generic->0.noise_static_pubkey) != session.peer_static_pubkey)
                ==> after.binding_check(peer_id, session, requires_bridge_grant, binding) is Err
            &&& requires_bridge_grant && (after.live_bridge() is None || before.live_bridge()
                is None || after.live_bridge()->0.revision != before.live_bridge()->0.revision)
                ==> after.binding_check(peer_id, session, requires_bridge_grant, binding) is Err
        }),
{
}

} // verus!
