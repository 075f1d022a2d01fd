//! What the library takes from other crates and from the system. Every item here is believed, not
//! proved: each states what the code that it calls promises.

use crate::hex::{hex_bytes, hex_text, is_single_case_hex};
use dashmap::DashMap;
use ed25519_dalek::pkcs8::{DecodePublicKey, EncodePublicKey};
use ed25519_dalek::Signer;
use rand::rngs::OsRng;
use rand::RngCore;
use std::collections::hash_map::RandomState;
use std::ops::RangeInclusive;
use std::str::FromStr;
use std::time::{SystemTime, SystemTimeError};
use tokio_util::bytes::BytesMut;
use tokio_util::codec::{AnyDelimiterCodec, AnyDelimiterCodecError, Decoder, Encoder};
use vstd::prelude::*;
use vstd::string::*;

verus! {

/// The public key that belongs to an Ed25519 secret seed.
pub uninterp spec fn ed25519_public_key(seed: Seq<u8>) -> Seq<u8>;

/// The Ed25519 signature of a message under a secret seed.
pub uninterp spec fn ed25519_signature(seed: Seq<u8>, message: Seq<u8>) -> Seq<u8>;

/// Whether a signature of a message passes strict verification under a public key, with the text
/// of the error where it does not.
pub uninterp spec fn ed25519_strict_verdict(
    key: Seq<u8>,
    message: Seq<u8>,
    signature: Seq<u8>,
) -> Result<(), Seq<char>>;

/// The public key that a DER document holds, or the text of the error where it holds none.
pub uninterp spec fn spki_public_key(der: Seq<u8>) -> Result<Seq<u8>, Seq<char>>;

/// What stands before the 32 bytes of an Ed25519 public key in its DER document: a sequence of the
/// algorithm's identifier 1.3.101.112 without parameters, and the head of a bit string.
pub open spec fn spki_head() -> Seq<u8> {
    seq![0x30u8, 0x2a, 0x30, 0x05, 0x06, 0x03, 0x2b, 0x65, 0x70, 0x03, 0x21, 0x00]
}

/// The encoding of the neutral element of the curve.
pub open spec fn neutral_point() -> Seq<u8> {
    Seq::new(32, |i: int| if i == 0 { 1u8 } else { 0u8 })
}

/// `ed25519_dalek::SigningKey::verifying_key`, on the key of a seed. A function of the seed, which
/// is named and not stated.
#[verifier::external_body]
pub(crate) fn verifying_key(seed: &[u8; 32]) -> (key: [u8; 32])
    ensures
        key@ == ed25519_public_key(seed@),
{
    ed25519_dalek::SigningKey::from_bytes(seed).verifying_key().to_bytes()
}

/// `Signer::sign` of `ed25519_dalek::SigningKey`. A function of the seed and the message, which is
/// named and not stated. The signature passes strict verification under the seed's own public key,
/// but where its first half is the neutral point, which strict verification refuses.
#[verifier::external_body]
pub(crate) fn sign(seed: &[u8; 32], message: &[u8]) -> (signature: [u8; 64])
    ensures
        signature@ == ed25519_signature(seed@, message@),
        signature@.take(32) != neutral_point() ==> ed25519_strict_verdict(
            ed25519_public_key(seed@),
            message@,
            signature@,
        ) is Ok,
{
    ed25519_dalek::SigningKey::from_bytes(seed).sign(message).to_bytes()
}

/// `ed25519_dalek::VerifyingKey::verify_strict`. A function of the key, the message and the
/// signature, which is named and not stated. A key that is no point of the curve is refused with
/// the error of `VerifyingKey::from_bytes`.
#[verifier::external_body]
pub(crate) fn verify_strict(key: &[u8; 32], message: &[u8], signature: &[u8; 64]) -> (verdict:
    Result<(), String>)
    ensures
        text_verdict(verdict) == ed25519_strict_verdict(key@, message@, signature@),
{
    ed25519_dalek::VerifyingKey::from_bytes(key).and_then(
        |key| key.verify_strict(message, &ed25519_dalek::Signature::from_bytes(signature)),
    ).map_err(|error| error.to_string())
}

/// A verdict with the characters of its text.
pub open spec fn text_verdict(verdict: Result<(), String>) -> Result<(), Seq<char>> {
    match verdict {
        Ok(()) => Ok(()),
        Err(text) => Err(text@),
    }
}

/// `EncodePublicKey::to_public_key_der` of `ed25519_dalek::VerifyingKey`, on the public key of a
/// seed. It succeeds on each such key, the document is the fixed head and the key, and decoding
/// the document gives the key.
#[verifier::external_body]
pub(crate) fn public_key_der(seed: &[u8; 32]) -> (der: Result<Vec<u8>, String>)
    ensures
        der is Ok,
        der->Ok_0@.len() == 44,
        der->Ok_0@ == spki_head() + ed25519_public_key(seed@),
        spki_public_key(der->Ok_0@) is Ok,
        spki_public_key(der->Ok_0@)->Ok_0 == ed25519_public_key(seed@),
{
    ed25519_dalek::SigningKey::from_bytes(seed).verifying_key().to_public_key_der().map(
        |document| document.to_vec(),
    ).map_err(|error| error.to_string())
}

/// `DecodePublicKey::from_public_key_der` of `ed25519_dalek::VerifyingKey`. A function of the
/// document, which is named and not stated in full: what is accepted is the fixed head and the key.
#[verifier::external_body]
pub(crate) fn key_from_der(der: &[u8]) -> (key: Result<[u8; 32], String>)
    ensures
        match key {
            Ok(key) => der@ == spki_head() + key@ && spki_public_key(der@) is Ok && spki_public_key(
                der@,
            )->Ok_0 == key@,
            Err(text) => spki_public_key(der@) is Err && spki_public_key(der@)->Err_0 == text@,
        },
{
    ed25519_dalek::VerifyingKey::from_public_key_der(der).map(|key| key.to_bytes()).map_err(
        |error| error.to_string(),
    )
}

/// `ToString::to_string` of `ed25519_dalek::Signature`: the 64 bytes in capital hexadecimal digits.
#[verifier::external_body]
pub(crate) fn signature_to_text(signature: &[u8; 64]) -> (text: String)
    ensures
        text@ == hex_text(signature@, true),
{
    ed25519_dalek::Signature::from_bytes(signature).to_string()
}

/// `FromStr::from_str` of `ed25519_dalek::Signature`: 128 hexadecimal digits with letters of one
/// case are the signature that they spell; anything else is an error with one fixed text.
#[verifier::external_body]
pub(crate) fn signature_from_text(text: &str) -> (signature: Result<[u8; 64], String>)
    ensures
        match signature {
            Ok(bytes) => text@.len() == 128 && is_single_case_hex(text@) && bytes@ == hex_bytes(
                text@,
            ),
            Err(error) => !(text@.len() == 128 && is_single_case_hex(text@)) && error@
                == "signature error"@,
        },
{
    ed25519_dalek::Signature::from_str(text).map(|signature| signature.to_bytes()).map_err(
        |error| error.to_string(),
    )
}

/// `ed25519_dalek::SigningKey::generate` from the system's random source. Any seed may come back.
#[verifier::external_body]
pub(crate) fn random_seed() -> (seed: [u8; 32]) {
    ed25519_dalek::SigningKey::generate(&mut OsRng).to_bytes()
}

/// `RngCore::fill_bytes` of `rand::rngs::OsRng`. Any bytes may come back.
#[verifier::external_body]
pub(crate) fn random_nonce() -> (nonce: [u8; 32]) {
    let mut nonce = [0u8; 32];
    OsRng.fill_bytes(&mut nonce);
    nonce
}

/// `fastrand::u16`: some port of a range, which must hold one.
#[verifier::external_body]
pub(crate) fn random_port(range: &RangeInclusive<u16>) -> (port: u16)
    requires
        range@.start <= range@.end,
        !range@.exhausted,
    ensures
        range@.start <= port <= range@.end,
{
    fastrand::u16(range.clone())
}

/// `hex::encode`: two small hexadecimal digits for each byte.
#[verifier::external_body]
pub(crate) fn hex_encode(bytes: &[u8]) -> (text: String)
    ensures
        text@ == hex_text(bytes@, false),
{
    hex::encode(bytes)
}

#[verifier::external_type_specification]
#[verifier::external_body]
pub struct ExSystemTime(SystemTime);

#[verifier::external_type_specification]
#[verifier::external_body]
pub struct ExSystemTimeError(SystemTimeError);

/// `SystemTime::now`. Nothing is known of the moment.
pub assume_specification[ SystemTime::now ]() -> (now: SystemTime)
;

/// `SystemTime::duration_since`, from the Unix epoch. The duration is given as its whole seconds and
/// the nanoseconds beyond them, which make up less than a second. How long it is follows from the
/// moment, of which nothing is known.
#[verifier::external_body]
pub(crate) fn since_epoch(time: &SystemTime) -> (elapsed: Result<(u64, u32), SystemTimeError>)
    ensures
        elapsed is Ok ==> elapsed->Ok_0.1 < 1_000_000_000,
{
    time.duration_since(SystemTime::UNIX_EPOCH).map(
        |elapsed| (elapsed.as_secs(), elapsed.subsec_nanos()),
    )
}

#[verifier::external_type_specification]
#[verifier::external_body]
pub struct ExAnyDelimiterCodecError(AnyDelimiterCodecError);

/// How many bytes stand before the first delimiter, or before the end where there is none.
pub open spec fn undelimited(bytes: Seq<u8>, delimiter: u8) -> nat
    decreases bytes.len(),
{
    if bytes.len() == 0 || bytes[0] == delimiter {
        0
    } else {
        1 + undelimited(bytes.skip(1), delimiter)
    }
}

/// `Decoder::decode` of a fresh `tokio_util::codec::AnyDelimiterCodec`: the bytes before a
/// delimiter that stands no further than at index `limit` are taken out of the buffer together
/// with it; a longer run of bytes without a delimiter is an error, a shorter one is left for later.
#[verifier::external_body]
pub(crate) fn decode_frame(buffer: &mut Vec<u8>, delimiter: u8, limit: usize) -> (frame: Result<
    Option<Vec<u8>>,
    AnyDelimiterCodecError,
>)
    ensures
        ({
            let run = undelimited(old(buffer)@, delimiter) as int;
            match frame {
                Ok(Some(frame)) => run < old(buffer)@.len() && run <= limit && frame@ == old(
                    buffer,
                )@.take(run) && final(buffer)@ == old(buffer)@.skip(run + 1),
                Ok(None) => run == old(buffer)@.len() && run <= limit && final(buffer)@ == old(
                    buffer,
                )@,
                Err(_) => run > limit && final(buffer)@ == old(buffer)@,
            }
        }),
{
    let mut codec = AnyDelimiterCodec::new_with_max_length(vec![delimiter], vec![delimiter], limit);
    let mut bytes = BytesMut::from(buffer.as_slice());
    let frame = codec.decode(&mut bytes);
    *buffer = bytes.to_vec();
    frame.map(|frame| frame.map(|frame| frame.to_vec()))
}

/// `Decoder::decode_eof` of a fresh `tokio_util::codec::AnyDelimiterCodec`: as `decode`, but bytes
/// that no delimiter follows are a frame too.
#[verifier::external_body]
pub(crate) fn decode_last_frame(buffer: &mut Vec<u8>, delimiter: u8, limit: usize) -> (frame:
    Result<Option<Vec<u8>>, AnyDelimiterCodecError>)
    ensures
        ({
            let run = undelimited(old(buffer)@, delimiter) as int;
            match frame {
                Ok(Some(frame)) => old(buffer)@.len() > 0 && run <= limit && frame@ == old(
                    buffer,
                )@.take(run) && final(buffer)@ == (if run < old(buffer)@.len() {
                    old(buffer)@.skip(run + 1)
                } else {
                    Seq::empty()
                }),
                Ok(None) => old(buffer)@.len() == 0 && final(buffer)@ == old(buffer)@,
                Err(_) => run > limit && final(buffer)@ == old(buffer)@,
            }
        }),
{
    let mut codec = AnyDelimiterCodec::new_with_max_length(vec![delimiter], vec![delimiter], limit);
    let mut bytes = BytesMut::from(buffer.as_slice());
    let frame = codec.decode_eof(&mut bytes);
    *buffer = bytes.to_vec();
    frame.map(|frame| frame.map(|frame| frame.to_vec()))
}

/// `Encoder::encode` of `tokio_util::codec::AnyDelimiterCodec`, into an empty buffer: the text's
/// bytes and the delimiter, whatever the length.
#[verifier::external_body]
pub(crate) fn encode_frame(text: &str, delimiter: u8) -> (bytes: Result<
    Vec<u8>,
    AnyDelimiterCodecError,
>)
    ensures
        bytes is Ok,
        bytes->Ok_0@ == text.spec_bytes().push(delimiter),
{
    let mut codec = AnyDelimiterCodec::new(vec![delimiter], vec![delimiter]);
    let mut bytes = BytesMut::new();
    codec.encode(text, &mut bytes).map(|_| bytes.to_vec())
}

#[verifier::external_type_specification]
#[verifier::external_body]
#[verifier::reject_recursive_types(K)]
#[verifier::reject_recursive_types(V)]
#[verifier::reject_recursive_types(S)]
pub struct ExDashMap<K, V, S>(DashMap<K, V, S>);

/// What a concurrent map of connections by key holds.
pub uninterp spec fn dash_entries(map: DashMap<[u8; 44], u64, RandomState>) -> Map<Seq<u8>, u64>;

/// `DashMap::new`: an empty map.
#[verifier::external_body]
pub(crate) fn dash_new() -> (map: DashMap<[u8; 44], u64, RandomState>)
    ensures
        forall|key: Seq<u8>| !dash_entries(map).contains_key(key),
{
    DashMap::new()
}

/// `DashMap::insert`: sets the key's value and gives back the one that it replaces. The map is
/// borrowed for writing, so that nobody else changes it meanwhile.
#[verifier::external_body]
pub(crate) fn dash_insert(
    map: &mut DashMap<[u8; 44], u64, RandomState>,
    key: [u8; 44],
    value: u64,
) -> (replaced: Option<u64>)
    ensures
        dash_entries(*final(map)) == dash_entries(*old(map)).insert(key@, value),
        replaced == (if dash_entries(*old(map)).contains_key(key@) {
            Some(dash_entries(*old(map))[key@])
        } else {
            None
        }),
{
    map.insert(key, value)
}

/// `DashMap::remove`: takes the key's entry out and gives back its value. The map is borrowed for
/// writing, so that nobody else changes it meanwhile.
#[verifier::external_body]
pub(crate) fn dash_remove(map: &mut DashMap<[u8; 44], u64, RandomState>, key: &[u8; 44]) -> (taken:
    Option<u64>)
    ensures
        dash_entries(*final(map)) == dash_entries(*old(map)).remove(key@),
        taken == (if dash_entries(*old(map)).contains_key(key@) {
            Some(dash_entries(*old(map))[key@])
        } else {
            None
        }),
{
    map.remove(key).map(|entry| entry.1)
}

} // verus!
