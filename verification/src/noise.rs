//! Noise handshakes between relay peers.

use vstd::prelude::*;
use crate::bytes::{copy_range, Key32};
use crate::packet::{Packet, PacketModel, PACKET_RELAY_HANDSHAKE};
use crate::relay_wire::{RelayError, RELAY_HANDSHAKE_ID_SIZE};

verus! {

/// Room for one handshake message.
pub const NOISE_MESSAGE_CAPACITY: usize = 4096;

/// `snow::HandshakeState`: a handshake under way.
#[verifier::external_type_specification]
#[verifier::external_body]
pub struct ExHandshakeState(snow::HandshakeState);

/// `snow::TransportState`: a finished handshake.
#[verifier::external_type_specification]
#[verifier::external_body]
pub struct ExTransportState(snow::TransportState);

/// What a responder reads out of a first handshake message: the payload and the
/// static key of the initiator.
pub uninterp spec fn noise_opened(
    params: Seq<char>,
    prologue: Seq<u8>,
    private_key: Seq<u8>,
    message: Seq<u8>,
    capacity: nat,
) -> Option<(Seq<u8>, Seq<u8>)>;

/// Calls `snow::Builder` up to `build_responder`, then `read_message` and
/// `get_remote_static` of the handshake. A responder draws nothing at random
/// before it writes, so what it reads, and whether it can, is a function of the
/// arguments alone. The handshake that it goes on with has no value in
/// contracts.
#[verifier::external_body]
fn noise_open_first(
    params: &str,
    prologue: &[u8],
    private_key: &[u8],
    message: &[u8],
    capacity: usize,
) -> (opened: Option<(snow::HandshakeState, Vec<u8>, Vec<u8>)>)
    requires
        private_key@.len() == 32,
        capacity <= 65_535,
    ensures
        opened is Some <==> noise_opened(
            params@,
            prologue@,
            private_key@,
            message@,
            capacity as nat,
        ) is Some,
        opened is Some ==> Some(((opened->0).1@, (opened->0).2@)) == noise_opened(
            params@,
            prologue@,
            private_key@,
            message@,
            capacity as nat,
        ),
{
    let builder = snow::Builder::new(params.parse().ok()?);
    let keyed = builder.prologue(prologue).ok()?.local_private_key(private_key).ok()?;
    let mut handshake = keyed.build_responder().ok()?;
    let mut payload = vec![0u8; capacity];
    let len: usize = handshake.read_message(message, &mut payload).ok()?;
    payload.truncate(len);
    let remote = handshake.get_remote_static().map(|key| key.to_vec()).unwrap_or_default();
    Some((handshake, payload, remote))
}

/// The first message of an initiator, made with the ephemeral key that is drawn
/// for it.
pub uninterp spec fn noise_begun(
    params: Seq<char>,
    prologue: Seq<u8>,
    private_key: Seq<u8>,
    remote_key: Seq<u8>,
    payload: Seq<u8>,
    capacity: nat,
    drawn: Seq<u8>,
) -> Option<Seq<u8>>;

/// Calls `snow::Builder` up to `build_initiator`, then `write_message` of the
/// handshake. The message is a function of the arguments and of an ephemeral key
/// that is drawn at random; it fits the room that is given. The handshake that
/// goes on has no value in contracts. With less room than the keys of a message
/// take, the call can panic.
#[verifier::external_body]
fn noise_begin(
    params: &str,
    prologue: &[u8],
    private_key: &[u8],
    remote_key: &[u8],
    payload: &[u8],
    capacity: usize,
) -> (begun: Option<(snow::HandshakeState, Vec<u8>)>)
    requires
        private_key@.len() == 32,
        remote_key@.len() == 32,
        capacity == NOISE_MESSAGE_CAPACITY,
    ensures
        exists|drawn: Seq<u8>| #[trigger]
            noise_begun(
                params@,
                prologue@,
                private_key@,
                remote_key@,
                payload@,
                capacity as nat,
                drawn,
            ) == (if begun is Some {
                Some((begun->0).1@)
            } else {
                None
            }),
        begun is Some ==> (begun->0).1@.len() <= capacity,
{
    let builder = snow::Builder::new(params.parse().ok()?);
    let keyed = builder.prologue(prologue).ok()?.local_private_key(private_key).ok()?;
    let mut handshake = keyed.remote_public_key(remote_key).ok()?.build_initiator().ok()?;
    let mut message = vec![0u8; capacity];
    let len: usize = handshake.write_message(payload, &mut message).ok()?;
    message.truncate(len);
    Some((handshake, message))
}

/// The next message of a handshake, made with the ephemeral key that is drawn
/// for it. What the handshake holds is hidden.
pub uninterp spec fn noise_written(
    hidden: Seq<u8>,
    payload: Seq<u8>,
    capacity: nat,
    drawn: Seq<u8>,
) -> Option<Seq<u8>>;

/// Calls `write_message` of a handshake. The message is a function of what the
/// handshake holds, which is hidden, of the payload, and of an ephemeral key that
/// is drawn at random; it fits the room that is given. With less room than the
/// keys of a message take, the call can panic.
#[verifier::external_body]
fn noise_write(handshake: &mut snow::HandshakeState, payload: &[u8], capacity: usize) -> (message:
    Option<Vec<u8>>)
    requires
        capacity == NOISE_MESSAGE_CAPACITY,
    ensures
        exists|hidden: Seq<u8>, drawn: Seq<u8>| #[trigger]
            noise_written(hidden, payload@, capacity as nat, drawn) == (if message is Some {
                Some(message->0@)
            } else {
                None
            }),
        message is Some ==> message->0@.len() <= capacity,
{
    let mut message = vec![0u8; capacity];
    let len: usize = handshake.write_message(payload, &mut message).ok()?;
    message.truncate(len);
    Some(message)
}

/// What a handshake reads out of a message. What the handshake holds is hidden.
pub uninterp spec fn noise_understood(hidden: Seq<u8>, message: Seq<u8>, capacity: nat) -> Option<
    Seq<u8>,
>;

/// Calls `read_message` of a handshake. The payload is a function of what the
/// handshake holds, which is hidden, and of the message; it is no longer than
/// the message, nor than the room that is given.
#[verifier::external_body]
fn noise_read(handshake: &mut snow::HandshakeState, message: &[u8], capacity: usize) -> (payload:
    Option<Vec<u8>>)
    requires
        capacity <= 65_535,
    ensures
        exists|hidden: Seq<u8>| #[trigger]
            noise_understood(hidden, message@, capacity as nat) == (if payload is Some {
                Some(payload->0@)
            } else {
                None
            }),
        payload is Some ==> payload->0@.len() <= message@.len() && payload->0@.len() <= capacity,
{
    let mut payload = vec![0u8; capacity];
    let len: usize = handshake.read_message(message, &mut payload).ok()?;
    payload.truncate(len);
    Some(payload)
}

/// Whether a handshake has come to its end. What the handshake holds is hidden.
pub uninterp spec fn noise_ended(hidden: Seq<u8>) -> bool;

/// Calls `into_transport_mode` of a handshake, which fails while messages of the
/// handshake are missing: whether it does is a function of what the handshake
/// holds, which is hidden. The transport has no value in contracts.
#[verifier::external_body]
fn noise_finish(handshake: snow::HandshakeState) -> (transport: Option<snow::TransportState>)
    ensures
        exists|hidden: Seq<u8>| #[trigger] noise_ended(hidden) == (transport is Some),
{
    handshake.into_transport_mode().ok()
}

/// What a transport makes of a payload. What the transport holds is hidden.
pub uninterp spec fn transport_sealed(hidden: Seq<u8>, payload: Seq<u8>, capacity: nat) -> Option<
    Seq<u8>,
>;

/// Calls `write_message` of a transport. The message is a function of what the
/// transport holds, which is hidden, and of the payload; it is the payload and a
/// tag of sixteen bytes long, and none is written that does not fit.
#[verifier::external_body]
fn transport_write(transport: &mut snow::TransportState, payload: &[u8], capacity: usize) -> (message:
    Option<Vec<u8>>)
    requires
        capacity <= 65_535,
    ensures
        exists|hidden: Seq<u8>| #[trigger]
            transport_sealed(hidden, payload@, capacity as nat) == (if message is Some {
                Some(message->0@)
            } else {
                None
            }),
        message is Some ==> message->0@.len() == payload@.len() + 16 && payload@.len() + 16
            <= capacity,
{
    let mut message = vec![0u8; capacity];
    let len: usize = transport.write_message(payload, &mut message).ok()?;
    message.truncate(len);
    Some(message)
}

/// What a transport makes of a message. What the transport holds is hidden.
pub uninterp spec fn transport_unsealed(hidden: Seq<u8>, message: Seq<u8>, capacity: nat) -> Option<
    Seq<u8>,
>;

/// Calls `read_message` of a transport. The payload is a function of what the
/// transport holds, which is hidden, and of the message; it is a tag of sixteen
/// bytes shorter than the message.
#[verifier::external_body]
fn transport_read(transport: &mut snow::TransportState, message: &[u8], capacity: usize) -> (payload:
    Option<Vec<u8>>)
    requires
        capacity <= 65_535,
    ensures
        exists|hidden: Seq<u8>| #[trigger]
            transport_unsealed(hidden, message@, capacity as nat) == (if payload is Some {
                Some(payload->0@)
            } else {
                None
            }),
        payload is Some ==> payload->0@.len() + 16 == message@.len() && payload->0@.len()
            <= capacity,
{
    let mut payload = vec![0u8; capacity];
    let len: usize = transport.read_message(message, &mut payload).ok()?;
    payload.truncate(len);
    Some(payload)
}

/// A handshake under way.
pub struct NoiseHandshake {
    state: snow::HandshakeState,
}

/// A finished handshake.
pub struct NoiseTransport {
    state: snow::TransportState,
}

/// A first handshake message, opened.
pub struct OpenedMessage {
    pub handshake: NoiseHandshake,
    pub payload: Vec<u8>,
    pub remote_static: Vec<u8>,
}

/// The bytes of `lowertier-relay-noise`.
pub open spec fn prologue_bytes() -> Seq<u8> {
    seq![
        108u8, 111, 119, 101, 114, 116, 105, 101, 114, 45, 114, 101, 108, 97, 121, 45, 110, 111,
        105, 115, 101,
    ]
}

fn relay_noise_prologue() -> (prologue: Vec<u8>)
    ensures
        prologue@ == prologue_bytes(),
{
    let prologue: Vec<u8> = vec![
        108u8, 111, 119, 101, 114, 116, 105, 101, 114, 45, 114, 101, 108, 97, 121, 45, 110, 111,
        105, 115, 101,
    ];
    assert(prologue@ =~= prologue_bytes());
    prologue
}

/// The handshake pattern and its primitives.
pub open spec fn relay_params() -> Seq<char> {
    "Noise_IK_25519_ChaChaPoly_SHA256"@
}

/// What a packet must have before its noise message is looked at.
pub open spec fn handshake_packet_check(packet: PacketModel, expected_type: u8) -> Result<
    (),
    RelayError,
> {
    match packet.header {
        None => Err(RelayError::NoHeader),
        Some(header) => if header.packet_type != expected_type {
            Err(RelayError::PacketTypeMismatch)
        } else if packet.payload.len() < RELAY_HANDSHAKE_ID_SIZE {
            Err(RelayError::HandshakeIdMissing)
        } else {
            Ok(())
        },
    }
}

/// The noise message of a handshake packet.
pub open spec fn noise_part(packet: PacketModel) -> Seq<u8> {
    packet.payload.skip(RELAY_HANDSHAKE_ID_SIZE as int)
}

fn noise_part_of(packet: &Packet, expected_type: u8) -> (part: Result<Vec<u8>, RelayError>)
    ensures
        match handshake_packet_check(packet@, expected_type) {
            Err(e) => part == Err::<Vec<u8>, RelayError>(e),
            Ok(_) => part matches Ok(p) && p@ == noise_part(packet@),
        },
{
    let header = match packet.header {
        Some(header) => header,
        None => {
            return Err(RelayError::NoHeader);
        },
    };
    if header.packet_type != expected_type {
        return Err(RelayError::PacketTypeMismatch);
    }
    let n: usize = packet.payload.len();
    if n < RELAY_HANDSHAKE_ID_SIZE {
        return Err(RelayError::HandshakeIdMissing);
    }
    let part = copy_range(packet.payload.as_slice(), RELAY_HANDSHAKE_ID_SIZE, n);
    assert(part@ =~= noise_part(packet@));
    Ok(part)
}

/// What a responder learns from the first message of a handshake.
pub open spec fn first_message_opened(private_key: Key32, packet: PacketModel) -> Option<
    (Seq<u8>, Seq<u8>),
> {
    noise_opened(
        relay_params(),
        prologue_bytes(),
        private_key.bytes(),
        noise_part(packet),
        NOISE_MESSAGE_CAPACITY as nat,
    )
}

/// What came out of a call that gives bytes or fails.
pub open spec fn bytes_of(result: Result<Vec<u8>, RelayError>) -> Option<Seq<u8>> {
    match result {
        Ok(bytes) => Some(bytes@),
        Err(_) => None,
    }
}

/// Whether this can be the first message of a handshake between two keys, for
/// some ephemeral key.
pub open spec fn can_begin(
    private_key: Key32,
    remote_key: Key32,
    payload: Seq<u8>,
    message: Option<Seq<u8>>,
) -> bool {
    exists|drawn: Seq<u8>| #[trigger]
        noise_begun(
            relay_params(),
            prologue_bytes(),
            private_key.bytes(),
            remote_key.bytes(),
            payload,
            NOISE_MESSAGE_CAPACITY as nat,
            drawn,
        ) == message
}

/// Whether a handshake can make this of a payload.
pub open spec fn can_write(payload: Seq<u8>, message: Option<Seq<u8>>) -> bool {
    exists|hidden: Seq<u8>, drawn: Seq<u8>| #[trigger]
        noise_written(hidden, payload, NOISE_MESSAGE_CAPACITY as nat, drawn) == message
}

/// Whether a handshake can read this out of a message.
pub open spec fn can_read(message: Seq<u8>, payload: Option<Seq<u8>>) -> bool {
    exists|hidden: Seq<u8>| #[trigger]
        noise_understood(hidden, message, NOISE_MESSAGE_CAPACITY as nat) == payload
}

/// Whether a handshake can have come to its end, or not.
pub open spec fn can_end(ended: bool) -> bool {
    exists|hidden: Seq<u8>| #[trigger] noise_ended(hidden) == ended
}

/// Whether a transport can make this of a payload.
pub open spec fn can_seal(payload: Seq<u8>, message: Option<Seq<u8>>) -> bool {
    exists|hidden: Seq<u8>| #[trigger]
        transport_sealed(hidden, payload, NOISE_MESSAGE_CAPACITY as nat) == message
}

/// Whether a transport can read this out of a message.
pub open spec fn can_unseal(message: Seq<u8>, payload: Option<Seq<u8>>) -> bool {
    exists|hidden: Seq<u8>| #[trigger]
        transport_unsealed(hidden, message, NOISE_MESSAGE_CAPACITY as nat) == payload
}

/// Opens the first message of a handshake.
pub fn open_first_message(private_key: Key32, packet: &Packet) -> (opened: Result<
    OpenedMessage,
    RelayError,
>)
    ensures
        match handshake_packet_check(packet@, PACKET_RELAY_HANDSHAKE) {
            Err(e) => opened is Err && opened->Err_0 == e,
            Ok(_) => match first_message_opened(private_key, packet@) {
                None => opened is Err && opened->Err_0 == RelayError::NoiseFailed,
                Some((payload, remote_static)) => opened matches Ok(o) && o.payload@ == payload
                    && o.remote_static@ == remote_static,
            },
        },
{
    let message = match noise_part_of(packet, PACKET_RELAY_HANDSHAKE) {
        Ok(message) => message,
        Err(e) => {
            return Err(e);
        },
    };
    let prologue = relay_noise_prologue();
    let key = private_key.to_bytes();
    match noise_open_first(
        "Noise_IK_25519_ChaChaPoly_SHA256",
        prologue.as_slice(),
        key.as_slice(),
        message.as_slice(),
        NOISE_MESSAGE_CAPACITY,
    ) {
        Some((state, payload, remote_static)) => Ok(
            OpenedMessage { handshake: NoiseHandshake { state }, payload, remote_static },
        ),
        None => Err(RelayError::NoiseFailed),
    }
}

/// Starts a handshake: the first message carries `payload`.
pub fn start_handshake(private_key: Key32, remote_key: Key32, payload: &Vec<u8>) -> (started: Result<
    (NoiseHandshake, Vec<u8>),
    RelayError,
>)
    ensures
        match started {
            Ok((_, message)) => {
                &&& can_begin(private_key, remote_key, payload@, Some(message@))
                &&& message@.len() <= NOISE_MESSAGE_CAPACITY
            },
            Err(e) => {
                &&& can_begin(private_key, remote_key, payload@, None)
                &&& e == RelayError::NoiseFailed
            },
        },
{
    let prologue = relay_noise_prologue();
    let private_bytes = private_key.to_bytes();
    let remote_bytes = remote_key.to_bytes();
    match noise_begin(
        "Noise_IK_25519_ChaChaPoly_SHA256",
        prologue.as_slice(),
        private_bytes.as_slice(),
        remote_bytes.as_slice(),
        payload.as_slice(),
        NOISE_MESSAGE_CAPACITY,
    ) {
        Some((state, message)) => Ok((NoiseHandshake { state }, message)),
        None => Err(RelayError::NoiseFailed),
    }
}

impl NoiseHandshake {
    /// Writes the next message of the handshake.
    pub fn write(&mut self, payload: &Vec<u8>) -> (message: Result<Vec<u8>, RelayError>)
        ensures
            can_write(payload@, bytes_of(message)),
            message is Err ==> message->Err_0 == RelayError::NoiseFailed,
            message is Ok ==> message->Ok_0@.len() <= NOISE_MESSAGE_CAPACITY,
    {
        match noise_write(&mut self.state, payload.as_slice(), NOISE_MESSAGE_CAPACITY) {
            Some(message) => Ok(message),
            None => Err(RelayError::NoiseFailed),
        }
    }

    /// Reads the next message of the handshake out of a packet.
    pub fn read_packet(&mut self, expected_type: u8, packet: &Packet) -> (payload: Result<
        Vec<u8>,
        RelayError,
    >)
        ensures
            match handshake_packet_check(packet@, expected_type) {
                Err(e) => payload is Err && payload->Err_0 == e,
                Ok(_) => {
                    &&& can_read(noise_part(packet@), bytes_of(payload))
                    &&& payload is Err ==> payload->Err_0 == RelayError::NoiseFailed
                    &&& payload is Ok ==> payload->Ok_0@.len() <= noise_part(packet@).len()
                },
            },
    {
        let message = match noise_part_of(packet, expected_type) {
            Ok(message) => message,
            Err(e) => {
                return Err(e);
            },
        };
        match noise_read(&mut self.state, message.as_slice(), NOISE_MESSAGE_CAPACITY) {
            Some(payload) => Ok(payload),
            None => Err(RelayError::NoiseFailed),
        }
    }

    /// Ends the handshake.
    pub fn into_transport(self) -> (transport: Result<NoiseTransport, RelayError>)
        ensures
            can_end(transport is Ok),
            transport is Err ==> transport->Err_0 == RelayError::NoiseFailed,
    {
        match noise_finish(self.state) {
            Some(state) => Ok(NoiseTransport { state }),
            None => Err(RelayError::NoiseFailed),
        }
    }
}

impl NoiseTransport {
    /// Seals a message.
    pub fn write(&mut self, payload: &Vec<u8>) -> (message: Result<Vec<u8>, RelayError>)
        ensures
            can_seal(payload@, bytes_of(message)),
            message is Err ==> message->Err_0 == RelayError::NoiseFailed,
            message is Ok ==> message->Ok_0@.len() == payload@.len() + 16,
            payload@.len() + 16 > NOISE_MESSAGE_CAPACITY ==> message is Err,
    {
        match transport_write(&mut self.state, payload.as_slice(), NOISE_MESSAGE_CAPACITY) {
            Some(message) => Ok(message),
            None => Err(RelayError::NoiseFailed),
        }
    }

    /// Opens the message in a packet.
    pub fn read_packet(&mut self, expected_type: u8, packet: &Packet) -> (payload: Result<
        Vec<u8>,
        RelayError,
    >)
        ensures
            match handshake_packet_check(packet@, expected_type) {
                Err(e) => payload is Err && payload->Err_0 == e,
                Ok(_) => {
                    &&& can_unseal(noise_part(packet@), bytes_of(payload))
                    &&& payload is Err ==> payload->Err_0 == RelayError::NoiseFailed
                    &&& payload is Ok ==> payload->Ok_0@.len() + 16 == noise_part(packet@).len()
                },
            },
    {
        let message = match noise_part_of(packet, expected_type) {
            Ok(message) => message,
            Err(e) => {
                return Err(e);
            },
        };
        match transport_read(&mut self.state, message.as_slice(), NOISE_MESSAGE_CAPACITY) {
            Some(payload) => Ok(payload),
            None => Err(RelayError::NoiseFailed),
        }
    }
}

} // verus!
