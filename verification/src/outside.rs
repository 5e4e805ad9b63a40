//! Calls into the cryptographic and random-number crates.

use vstd::prelude::*;

verus! {

/// The HMAC-SHA-256 code of a message under a key.
pub uninterp spec fn hmac_sha256(key: Seq<u8>, message: Seq<u8>) -> Seq<u8>;

/// Calls `hmac::Hmac::<sha2::Sha256>`: `new_from_slice`, which accepts a key of
/// any length, then `update` with the whole message and `finalize`. The code is
/// a function of key and message alone and has thirty-two bytes.
#[verifier::external_body]
pub(crate) fn hmac_sha256_of(key: &[u8], message: &[u8]) -> (code: Vec<u8>)
    ensures
        code@ == hmac_sha256(key@, message@),
        code@.len() == 32,
{
    let mut mac = <hmac::Hmac<sha2::Sha256> as hmac::Mac>::new_from_slice(key).unwrap();
    hmac::Mac::update(&mut mac, message);
    hmac::Mac::finalize(mac).into_bytes().to_vec()
}

/// The SHA-256 digest of a message.
pub uninterp spec fn sha256(message: Seq<u8>) -> Seq<u8>;

/// Calls `sha2::Sha256::digest`. The digest is a function of the message alone
/// and has thirty-two bytes.
#[verifier::external_body]
pub(crate) fn sha256_of(message: &[u8]) -> (digest: Vec<u8>)
    ensures
        digest@ == sha256(message@),
        digest@.len() == 32,
{
    <sha2::Sha256 as sha2::Digest>::digest(message).to_vec()
}

/// Calls `try_fill_bytes` of `rand::rngs::OsRng` on sixteen bytes. Nothing is
/// claimed of the bytes, nor of when the operating system has none to give.
#[verifier::external_body]
pub(crate) fn random_u128() -> (drawn: Option<u128>) {
    let mut bytes = [0u8; 16];
    match rand::RngCore::try_fill_bytes(&mut rand::rngs::OsRng, &mut bytes) {
        Ok(()) => Some(u128::from_be_bytes(bytes)),
        Err(_) => None,
    }
}

/// The version-4 identifier made of random bits: the four version bits and the
/// two variant bits are fixed, all others are kept.
pub open spec fn v4_identifier(random: u128) -> u128 {
    (random & 0xffff_ffff_ffff_0fff_3fff_ffff_ffff_ffff) | 0x0000_0000_0000_4000_8000_0000_0000_0000
}

/// Whether an identifier is a version-4 one of some random bits.
pub open spec fn is_v4_identifier(id: u128) -> bool {
    exists|random: u128| id == #[trigger] v4_identifier(random)
}

/// Calls `uuid::Builder::from_random_bytes`, which sets the version and variant
/// bits of the given bytes and keeps the rest.
#[verifier::external_body]
pub(crate) fn uuid_from_random(random: u128) -> (id: u128)
    ensures
        id == v4_identifier(random),
{
    uuid::Builder::from_random_bytes(random.to_be_bytes()).into_uuid().as_u128()
}

/// A fresh version-4 identifier, or none when the system has no random bytes.
pub fn new_uuid() -> (id: Option<u128>)
    ensures
        id matches Some(v) ==> is_v4_identifier(v),
{
    match random_u128() {
        Some(random) => Some(uuid_from_random(random)),
        None => None,
    }
}

/// A fresh identifier that is not zero, or none when the system has no random
/// bytes.
pub fn new_transition_id() -> (id: Option<u128>)
    ensures
        id matches Some(v) ==> v != 0,
{
    random_nonzero()
}

/// What a draw of sixteen random bytes leads to.
#[derive(Clone, Copy, Debug, PartialEq, Eq, Structural)]
pub enum Draw {
    /// All bytes are zero: they are drawn again.
    Again,
    /// The system has no random bytes.
    Nothing,
    Value { value: u128 },
}

/// Decides on a draw: zero is drawn again, every other value is taken.
pub fn nonzero_draw(drawn: Option<u128>) -> (draw: Draw)
    ensures
        draw == (match drawn {
            None => Draw::Nothing,
            Some(value) => if value == 0 {
                Draw::Again
            } else {
                Draw::Value { value }
            },
        }),
{
    match drawn {
        None => Draw::Nothing,
        Some(value) => if value == 0 {
            Draw::Again
        } else {
            Draw::Value { value }
        },
    }
}

/// Sixteen random bytes that are not all zero, or none when the system has no
/// random bytes. Each draw goes by `nonzero_draw`. Which bytes come, and when
/// there are none, rests on the system.
pub fn random_nonzero() -> (value: Option<u128>)
    ensures
        value matches Some(v) ==> v != 0,
{
    let mut draws_left: u64 = u64::MAX;
    while draws_left > 0
        decreases draws_left,
    {
        match nonzero_draw(random_u128()) {
            Draw::Value { value } => {
                return Some(value);
            },
            Draw::Nothing => {
                return None;
            },
            Draw::Again => {},
        }
        draws_left = draws_left - 1;
    }
    None
}

} // verus!
