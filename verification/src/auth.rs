//! Authentication of clients: the server's challenge, the client's answer, and the verdict.

use crate::hex::{
    hex_bytes, hex_round_trip, hex_text, is_lower_hex_letter, is_single_case_hex,
};
use crate::keys::{SigningKey, VerifyingKey};
use crate::outside::{
    ed25519_public_key, ed25519_signature, ed25519_strict_verdict, neutral_point, random_nonce,
    sign, signature_from_text, signature_to_text, since_epoch, spki_head, spki_public_key,
    verify_strict,
};
use crate::shared::{
    client_view, decoded_key, encoded_key, ClientMessage, ClientMessageView, KeyError, KeyFault,
    PeerKey, ReceiveError, ServerMessage,
};
use crate::text::copy_bytes;
use std::time::{SystemTime, SystemTimeError};
use vstd::prelude::*;
use vstd::string::*;

verus! {

/// For how many seconds a challenge may be answered.
pub const CHALLENGE_LIFETIME: u64 = 30;

/// Why a client is not authenticated.
#[derive(Debug, PartialEq, Eq)]
pub enum AuthError {
    /// The client's key is not among those that are allowed.
    InvalidClientKey,
    /// The answer came too late.
    ChallengeExpired,
    /// The signature cannot be read or does not verify, with the verifier's own words.
    Signature(String),
    /// The client's key is no key.
    Key(KeyError),
    /// The client sent something else than an answer, or nothing.
    NoAnswer,
    /// The server sent something else than a challenge, or nothing.
    NoChallenge,
    /// No message could be received.
    Receive(ReceiveError),
    /// The system's clock is set to a time before the Unix epoch.
    Clock,
}

/// An `AuthError` as a value.
pub enum AuthFault {
    InvalidClientKey,
    ChallengeExpired,
    Signature(Seq<char>),
    Key(KeyFault),
    NoAnswer,
    NoChallenge,
    Receive(ReceiveError),
    Clock,
}

impl View for AuthError {
    type V = AuthFault;

    open spec fn view(&self) -> AuthFault {
        match self {
            AuthError::InvalidClientKey => AuthFault::InvalidClientKey,
            AuthError::ChallengeExpired => AuthFault::ChallengeExpired,
            AuthError::Signature(text) => AuthFault::Signature(text@),
            AuthError::Key(error) => AuthFault::Key(error@),
            AuthError::NoAnswer => AuthFault::NoAnswer,
            AuthError::NoChallenge => AuthFault::NoChallenge,
            AuthError::Receive(error) => AuthFault::Receive(*error),
            AuthError::Clock => AuthFault::Clock,
        }
    }
}

impl AuthFault {
    /// The words in which a fault is reported.
    pub open spec fn text(self) -> Seq<char> {
        match self {
            AuthFault::InvalidClientKey => "Invalid client key"@,
            AuthFault::ChallengeExpired => "Challenge has expired"@,
            AuthFault::Signature(text) => text,
            AuthFault::Key(fault) => fault.text(),
            AuthFault::NoAnswer => "server requires secret, but no secret was provided"@,
            AuthFault::NoChallenge =>
                "expected authentication challenge, but no challenge was sent"@,
            AuthFault::Receive(error) => error.text(),
            AuthFault::Clock => "system clock is set before the Unix epoch"@,
        }
    }
}

impl AuthError {
    /// The words in which the error is reported.
    pub fn message(&self) -> (text: String)
        ensures
            text@ == self@.text(),
    {
        match self {
            AuthError::InvalidClientKey => "Invalid client key".to_owned(),
            AuthError::ChallengeExpired => "Challenge has expired".to_owned(),
            AuthError::Signature(text) => text.clone(),
            AuthError::Key(error) => error.message(),
            AuthError::NoAnswer =>
                "server requires secret, but no secret was provided".to_owned(),
            AuthError::NoChallenge =>
                "expected authentication challenge, but no challenge was sent".to_owned(),
            AuthError::Receive(error) => error.message(),
            AuthError::Clock => "system clock is set before the Unix epoch".to_owned(),
        }
    }
}

/// A verdict as a value.
pub open spec fn verdict_view(verdict: Result<(), AuthError>) -> Result<(), AuthFault> {
    match verdict {
        Ok(()) => Ok(()),
        Err(error) => Err(error@),
    }
}

/// What every challenge starts with.
pub open spec fn domain() -> Seq<u8> {
    "P2P_RELAY_V1_CHALLENGE".spec_bytes()
}

/// A number in `width` bytes, the most significant first.
pub open spec fn big_endian(n: nat, width: nat) -> Seq<u8>
    decreases width,
{
    if width == 0 {
        Seq::empty()
    } else {
        big_endian(n / 0x100, (width - 1) as nat).push((n % 0x100) as u8)
    }
}

/// The challenge of a moment and a nonce.
pub open spec fn challenge_bytes(timestamp: u64, nonce: Seq<u8>) -> Seq<u8> {
    domain() + big_endian(timestamp as nat, 8) + nonce
}

/// Whether bytes are a challenge of a moment, with whatever nonce.
pub open spec fn is_challenge_of(bytes: Seq<u8>, timestamp: u64) -> bool {
    exists|nonce: Seq<u8>|
        nonce.len() == 32 && bytes == #[trigger] challenge_bytes(timestamp, nonce)
}

/// Writes a number in `width` bytes, the most significant first.
fn big_endian_bytes(n: u64, width: u8) -> (bytes: Vec<u8>)
    ensures
        bytes@ == big_endian(n as nat, width as nat),
    decreases width,
{
    if width == 0 {
        Vec::new()
    } else {
        let mut bytes = big_endian_bytes(n / 0x100, width - 1);
        bytes.push((n % 0x100) as u8);
        bytes
    }
}

/// Puts a challenge together from the time in seconds and a nonce.
pub fn compose_challenge(timestamp: u64, nonce: &[u8; 32]) -> (challenge: Vec<u8>)
    ensures
        challenge@ == challenge_bytes(timestamp, nonce@),
{
    let mut challenge = copy_bytes("P2P_RELAY_V1_CHALLENGE".as_bytes());
    let mut moment = big_endian_bytes(timestamp, 8);
    challenge.append(&mut moment);
    challenge.extend_from_slice(nonce.as_slice());
    assert(challenge@ =~= challenge_bytes(timestamp, nonce@));
    challenge
}

/// Whether the system's clock can give this: `SystemTime::now` gave some moment, and these are the
/// nanoseconds from the Unix epoch to it, or `None` where the moment lies before the epoch.
pub closed spec fn is_clock_time(elapsed: Option<nat>) -> bool {
    exists|moment: SystemTime, parts: Result<(u64, u32), SystemTimeError>|
        {
            &&& call_ensures(SystemTime::now, (), moment)
            &&& #[trigger] call_ensures(since_epoch, (&moment,), parts)
            &&& match parts {
                Ok((seconds, nanoseconds)) => elapsed == Some(
                    (seconds * 1_000_000_000 + nanoseconds) as nat,
                ),
                Err(_) => elapsed is None,
            }
        }
}

/// Whether the system's clock can give this: the whole seconds from the Unix epoch to the moment
/// that it gave, or `None` where the moment lies before the epoch.
pub open spec fn is_clock_reading(seconds: Option<u64>) -> bool {
    match seconds {
        Some(seconds) => exists|elapsed: nat|
            #[trigger] is_clock_time(Some(elapsed)) && seconds * 1_000_000_000 <= elapsed < (seconds
                + 1) * 1_000_000_000,
        None => is_clock_time(None),
    }
}

/// Whether the system's random source can give this nonce.
pub closed spec fn is_drawn_nonce(nonce: [u8; 32]) -> bool {
    call_ensures(random_nonce, (), nonce)
}

/// The seconds since the Unix epoch, or `None` where the clock is set before it.
pub(crate) fn unix_time() -> (seconds: Option<u64>)
    ensures
        is_clock_reading(seconds),
{
    match since_epoch(&SystemTime::now()) {
        Ok((seconds, nanoseconds)) => {
            let ghost elapsed = (seconds * 1_000_000_000 + nanoseconds) as nat;
            assert(is_clock_time(Some(elapsed)));
            Some(seconds)
        },
        Err(_) => None,
    }
}

/// A challenge for this moment with a fresh nonce, and the moment. `None` where the clock is set
/// before the Unix epoch.
pub fn generate_challenge() -> (challenge: Option<(Vec<u8>, u64)>)
    ensures
        match challenge {
            Some((bytes, timestamp)) => {
                &&& is_clock_reading(Some(timestamp))
                &&& exists|elapsed: nat|
                    #[trigger] is_clock_time(Some(elapsed)) && timestamp * 1_000_000_000 <= elapsed
                        < (timestamp + 1) * 1_000_000_000
                &&& is_challenge_of(bytes@, timestamp)
                &&& exists|nonce: [u8; 32]| #[trigger]
                    is_drawn_nonce(nonce) && bytes@ == challenge_bytes(timestamp, nonce@)
            },
            None => is_clock_reading(None),
        },
{
    let nonce = random_nonce();
    assert(is_drawn_nonce(nonce));
    match unix_time() {
        Some(timestamp) => {
            let bytes = compose_challenge(timestamp, &nonce);
            Some((bytes, timestamp))
        },
        None => None,
    }
}

/// Whether a challenge of the moment `timestamp` may still be answered at the moment `now`.
pub open spec fn is_fresh(timestamp: u64, now: u64) -> bool {
    timestamp <= now && now - timestamp < CHALLENGE_LIFETIME
}

/// The verdict on a signature, given as text, of a challenge: the key must be allowed, the
/// challenge fresh, the text a signature, and the signature good; the first that fails is reported.
pub open spec fn signature_verdict(
    allowed: Seq<Seq<u8>>,
    key: Seq<u8>,
    challenge: Seq<u8>,
    signature: Seq<char>,
    timestamp: u64,
    now: u64,
) -> Result<(), AuthFault> {
    if !allowed.contains(key) {
        Err(AuthFault::InvalidClientKey)
    } else if !is_fresh(timestamp, now) {
        Err(AuthFault::ChallengeExpired)
    } else if !(signature.len() == 128 && is_single_case_hex(signature)) {
        Err(AuthFault::Signature("signature error"@))
    } else {
        match ed25519_strict_verdict(key, challenge, hex_bytes(signature)) {
            Ok(()) => Ok(()),
            Err(text) => Err(AuthFault::Signature(text)),
        }
    }
}

/// The verdict on what arrived in reply to a challenge.
pub open spec fn reply_verdict(
    allowed: Seq<Seq<u8>>,
    challenge: Seq<u8>,
    timestamp: u64,
    reply: Result<Option<ClientMessageView>, ReceiveError>,
    now: u64,
) -> Result<(), AuthFault> {
    match reply {
        Ok(Some(ClientMessageView::Authenticate { public_key, signature })) =>
            match decoded_key(public_key) {
            Ok(key) => signature_verdict(allowed, key, challenge, signature, timestamp, now),
            Err(fault) => Err(AuthFault::Key(fault)),
        },
        Ok(_) => Err(AuthFault::NoAnswer),
        Err(error) => Err(AuthFault::Receive(error)),
    }
}

/// What arrived from a client, or why nothing did.
pub open spec fn client_reply_view(
    reply: Result<Option<ClientMessage>, ReceiveError>,
) -> Result<Option<ClientMessageView>, ReceiveError> {
    match reply {
        Ok(message) => Ok(client_view(message)),
        Err(error) => Err(error),
    }
}

/// The answer to a challenge under a secret seed, as text.
pub open spec fn answer_text(seed: Seq<u8>, challenge: Seq<u8>) -> Seq<char> {
    hex_text(ed25519_signature(seed, challenge), true)
}

/// The message that answers a challenge under a secret seed.
pub open spec fn answer_message(seed: Seq<u8>, challenge: Seq<u8>) -> ClientMessageView {
    ClientMessageView::Authenticate {
        public_key: encoded_key(seed),
        signature: answer_text(seed, challenge),
    }
}

/// The one case in which strict verification refuses an honest signature: its first half is the
/// neutral point of the curve.
pub open spec fn is_degenerate(seed: Seq<u8>, challenge: Seq<u8>) -> bool {
    ed25519_signature(seed, challenge).take(32) == neutral_point()
}

/// Whether the answer to a challenge under a secret seed is accepted by every server that allows
/// the seed's public key, as long as the challenge is fresh.
pub open spec fn is_convincing(seed: Seq<u8>, challenge: Seq<u8>) -> bool {
    forall|allowed: Seq<Seq<u8>>, timestamp: u64, now: u64|
        allowed.contains(ed25519_public_key(seed)) && is_fresh(timestamp, now)
            ==> #[trigger] reply_verdict(
            allowed,
            challenge,
            timestamp,
            Ok(Some(answer_message(seed, challenge))),
            now,
        ) == Ok::<(), AuthFault>(())
}

/// Struct to answer server authentication challenges
pub struct ClientAuthenticator {
    signing_key: SigningKey,
}

impl View for ClientAuthenticator {
    type V = Seq<u8>;

    closed spec fn view(&self) -> Seq<u8> {
        self.signing_key@
    }
}

impl ClientAuthenticator {
    /// Instanciate a new ClientAuthenticator
    pub fn new(signing_key: SigningKey) -> (authenticator: ClientAuthenticator)
        ensures
            authenticator@ == signing_key@,
    {
        ClientAuthenticator { signing_key }
    }

    /// Generate a reply message for a challenge. It verifies under the client's own public key,
    /// but in the degenerate case.
    pub fn answer(&self, challenge: &[u8]) -> (text: String)
        ensures
            text@ == answer_text(self@, challenge@),
            text@.len() == 128 && is_single_case_hex(text@),
            hex_bytes(text@) == ed25519_signature(self@, challenge@),
            !is_degenerate(self@, challenge@) ==> ed25519_strict_verdict(
                ed25519_public_key(self@),
                challenge@,
                hex_bytes(text@),
            ) is Ok,
    {
        let signature = sign(&self.signing_key.to_bytes(), challenge);
        proof {
            hex_round_trip(signature@, true);
        }
        signature_to_text(&signature)
    }

    /// As the client, answer a challenge to attempt to authenticate with the server: from what
    /// arrived, the message to send. A server that allows the client's key accepts the message
    /// as long as the challenge is fresh, but in the degenerate case.
    pub fn client_handshake(&self, message: Result<Option<ServerMessage>, ReceiveError>) -> (reply:
        Result<ClientMessage, AuthError>)
        ensures
            match message {
                Ok(Some(ServerMessage::Challenge(challenge))) => {
                    &&& reply matches Ok(reply) && reply@ == answer_message(self@, challenge@)
                    &&& !is_degenerate(self@, challenge@) ==> is_convincing(self@, challenge@)
                },
                Ok(_) => reply matches Err(error) && error@ == AuthFault::NoChallenge,
                Err(fault) => reply matches Err(error) && error@ == AuthFault::Receive(fault),
            },
    {
        match message {
            Ok(Some(ServerMessage::Challenge(challenge))) => {
                let public_key = match PeerKey::from_signing_key(&self.signing_key) {
                    Ok(public_key) => public_key,
                    Err(error) => {
                        return Err(AuthError::Key(error));
                    },
                };
                let signature = self.answer(challenge.as_slice());
                Ok(ClientMessage::Authenticate { public_key, signature })
            },
            Ok(_) => Err(AuthError::NoChallenge),
            Err(error) => Err(AuthError::Receive(error)),
        }
    }
}

/// Struct for authenticating clients that have a signing key.
pub struct ServerAuthenticator {
    allowed_clients: Vec<VerifyingKey>,
}

/// The encodings of keys.
pub open spec fn key_views(keys: Seq<VerifyingKey>) -> Seq<Seq<u8>> {
    Seq::new(keys.len(), |i: int| keys[i]@)
}

impl View for ServerAuthenticator {
    type V = Seq<Seq<u8>>;

    closed spec fn view(&self) -> Seq<Seq<u8>> {
        key_views(self.allowed_clients@)
    }
}

impl ServerAuthenticator {
    /// Instanciate a new ServerAuthenticator
    pub fn new(allowed_clients: Vec<VerifyingKey>) -> (authenticator: ServerAuthenticator)
        ensures
            authenticator@ == key_views(allowed_clients@),
    {
        ServerAuthenticator { allowed_clients }
    }

    /// Whether a key is among those that are allowed.
    pub fn allows(&self, key: &VerifyingKey) -> (allowed: bool)
        ensures
            allowed == self@.contains(key@),
    {
        let mut i: usize = 0;
        while i < self.allowed_clients.len()
            invariant
                i <= self.allowed_clients@.len(),
                forall|j: int| 0 <= j < i ==> self@[j] != key@,
            decreases self.allowed_clients@.len() - i,
        {
            if self.allowed_clients[i].same(key) {
                assert(self@[i as int] == key@);
                return true;
            }
            i = i + 1;
        }
        false
    }

    /// Validate a reply to a challenge at a given moment.
    pub fn validate_signature_at(
        &self,
        verifying_key: &VerifyingKey,
        challenge: &[u8],
        signature_str: &str,
        timestamp: u64,
        now: u64,
    ) -> (verdict: Result<(), AuthError>)
        ensures
            verdict_view(verdict) == signature_verdict(
                self@,
                verifying_key@,
                challenge@,
                signature_str@,
                timestamp,
                now,
            ),
    {
        if !self.allows(verifying_key) {
            return Err(AuthError::InvalidClientKey);
        }
        if now < timestamp || now - timestamp >= CHALLENGE_LIFETIME {
            return Err(AuthError::ChallengeExpired);
        }
        match signature_from_text(signature_str) {
            Ok(signature) => {
                match verify_strict(&verifying_key.to_bytes(), challenge, &signature) {
                    Ok(()) => Ok(()),
                    Err(text) => Err(AuthError::Signature(text)),
                }
            },
            Err(text) => Err(AuthError::Signature(text)),
        }
    }

    /// Validate a reply to a challenge. The verdict on an allowed key is that of the moment of the
    /// call, as the clock gives it.
    pub fn validate_signature(
        &self,
        verifying_key: &VerifyingKey,
        challenge: &[u8],
        signature_str: &str,
        timestamp: u64,
    ) -> (verdict: Result<(), AuthError>)
        ensures
            !self@.contains(verifying_key@) ==> verdict_view(verdict) == Err::<(), AuthFault>(
                AuthFault::InvalidClientKey,
            ),
            self@.contains(verifying_key@) ==> (verdict_view(verdict) == Err::<(), AuthFault>(
                AuthFault::Clock,
            ) && is_clock_reading(None)) || exists|now: u64|
                is_clock_reading(Some(now)) && (exists|elapsed: nat|
                    #[trigger] is_clock_time(Some(elapsed)) && now * 1_000_000_000 <= elapsed < (now
                        + 1) * 1_000_000_000) && verdict_view(verdict)
                    == #[trigger] signature_verdict(
                    self@,
                    verifying_key@,
                    challenge@,
                    signature_str@,
                    timestamp,
                    now,
                ),
    {
        let now: u64 = if self.allows(verifying_key) {
            match unix_time() {
                Some(now) => now,
                None => {
                    return Err(AuthError::Clock);
                },
            }
        } else {
            0
        };
        self.validate_signature_at(verifying_key, challenge, signature_str, timestamp, now)
    }

    /// As the server, validate what arrived in response to a challenge, at a given moment.
    pub fn server_handshake_at(
        &self,
        challenge: &[u8],
        timestamp: u64,
        reply: Result<Option<ClientMessage>, ReceiveError>,
        now: u64,
    ) -> (verdict: Result<(), AuthError>)
        ensures
            verdict_view(verdict) == reply_verdict(
                self@,
                challenge@,
                timestamp,
                client_reply_view(reply),
                now,
            ),
    {
        match reply {
            Ok(Some(ClientMessage::Authenticate { public_key, signature })) => {
                match public_key.to_verifying_key() {
                    Ok(key) => self.validate_signature_at(
                        &key,
                        challenge,
                        signature.as_str(),
                        timestamp,
                        now,
                    ),
                    Err(error) => Err(AuthError::Key(error)),
                }
            },
            Ok(_) => Err(AuthError::NoAnswer),
            Err(error) => Err(AuthError::Receive(error)),
        }
    }

    /// Whether the verdict on what arrived depends on when it came.
    pub fn asks_clock(&self, reply: &Result<Option<ClientMessage>, ReceiveError>) -> (asks: bool)
        ensures
            asks == is_timed(self@, client_reply_view(*reply)),
    {
        match reply {
            Ok(Some(ClientMessage::Authenticate { public_key, .. })) => {
                match public_key.to_verifying_key() {
                    Ok(key) => self.allows(&key),
                    Err(_) => false,
                }
            },
            _ => false,
        }
    }

    /// As the server, validate what arrived in response to a challenge. The verdict on an answer
    /// under an allowed key is that of the moment of the call, as the clock gives it; any other
    /// does not depend on it.
    pub fn server_handshake(
        &self,
        challenge: &[u8],
        timestamp: u64,
        reply: Result<Option<ClientMessage>, ReceiveError>,
    ) -> (verdict: Result<(), AuthError>)
        ensures
            !is_timed(self@, client_reply_view(reply)) ==> forall|now: u64|
                verdict_view(verdict) == #[trigger] reply_verdict(
                    self@,
                    challenge@,
                    timestamp,
                    client_reply_view(reply),
                    now,
                ),
            is_timed(self@, client_reply_view(reply)) ==> (verdict_view(verdict) == Err::<
                (),
                AuthFault,
            >(AuthFault::Clock) && is_clock_reading(None)) || exists|now: u64|
                is_clock_reading(Some(now)) && (exists|elapsed: nat|
                    #[trigger] is_clock_time(Some(elapsed)) && now * 1_000_000_000 <= elapsed < (now
                        + 1) * 1_000_000_000) && verdict_view(verdict) == #[trigger] reply_verdict(
                    self@,
                    challenge@,
                    timestamp,
                    client_reply_view(reply),
                    now,
                ),
    {
        let now: u64 = if self.asks_clock(&reply) {
            match unix_time() {
                Some(now) => now,
                None => {
                    return Err(AuthError::Clock);
                },
            }
        } else {
            0
        };
        self.server_handshake_at(challenge, timestamp, reply, now)
    }
}

/// Whether the verdict on a reply depends on when it came: an answer under an allowed key.
pub open spec fn is_timed(
    allowed: Seq<Seq<u8>>,
    reply: Result<Option<ClientMessageView>, ReceiveError>,
) -> bool {
    reply matches Ok(Some(ClientMessageView::Authenticate { public_key, signature })) && (
    decoded_key(public_key) matches Ok(key) && allowed.contains(key))
}

proof fn lemma_domain_length()
    ensures
        domain().len() == 22,
{
    reveal_strlit("P2P_RELAY_V1_CHALLENGE");
    is_ascii_spec_bytes("P2P_RELAY_V1_CHALLENGE");
}

/// Whether a number can be written in `width` bytes.
pub open spec fn fits(n: nat, width: nat) -> bool
    decreases width,
{
    if width == 0 {
        n == 0
    } else {
        fits(n / 0x100, (width - 1) as nat)
    }
}

proof fn lemma_seconds_fit(n: u64)
    ensures
        fits(n as nat, 8),
{
    reveal_with_fuel(fits, 9);
    let n1 = n as nat / 0x100;
    assert(n1 < 0x100_0000_0000_0000);
    let n2 = n1 / 0x100;
    assert(n2 < 0x1_0000_0000_0000);
    let n3 = n2 / 0x100;
    assert(n3 < 0x100_0000_0000);
    let n4 = n3 / 0x100;
    assert(n4 < 0x1_0000_0000);
    let n5 = n4 / 0x100;
    assert(n5 < 0x100_0000);
    let n6 = n5 / 0x100;
    assert(n6 < 0x1_0000);
    let n7 = n6 / 0x100;
    assert(n7 < 0x100);
}

/// A number takes as many bytes as it is written in, and can be told from them.
pub proof fn big_endian_is_injective(a: nat, b: nat, width: nat)
    requires
        fits(a, width),
        fits(b, width),
    ensures
        big_endian(a, width).len() == width,
        big_endian(a, width) == big_endian(b, width) ==> a == b,
    decreases width,
{
    if width > 0 {
        let a_head = big_endian(a / 0x100, (width - 1) as nat);
        let b_head = big_endian(b / 0x100, (width - 1) as nat);
        big_endian_is_injective(a / 0x100, b / 0x100, (width - 1) as nat);
        big_endian_is_injective(b / 0x100, a / 0x100, (width - 1) as nat);
        if big_endian(a, width) == big_endian(b, width) {
            assert(big_endian(a, width).drop_last() =~= a_head);
            assert(big_endian(b, width).drop_last() =~= b_head);
            assert(big_endian(a, width).last() == (a % 0x100) as u8);
            assert(big_endian(b, width).last() == (b % 0x100) as u8);
        }
    }
}

/// A challenge has 62 bytes: what every challenge starts with, the moment, and the nonce.
pub proof fn challenge_layout(timestamp: u64, nonce: Seq<u8>)
    requires
        nonce.len() == 32,
    ensures
        challenge_bytes(timestamp, nonce).len() == 62,
        challenge_bytes(timestamp, nonce).take(22) == domain(),
        challenge_bytes(timestamp, nonce).subrange(22, 30) == big_endian(timestamp as nat, 8),
        challenge_bytes(timestamp, nonce).skip(30) == nonce,
{
    lemma_domain_length();
    lemma_seconds_fit(timestamp);
    big_endian_is_injective(timestamp as nat, timestamp as nat, 8);
    let bytes = challenge_bytes(timestamp, nonce);
    assert(bytes.take(22) =~= domain());
    assert(bytes.subrange(22, 30) =~= big_endian(timestamp as nat, 8));
    assert(bytes.skip(30) =~= nonce);
}

/// Challenges of different moments or nonces are different.
pub proof fn challenge_is_injective(a: u64, a_nonce: Seq<u8>, b: u64, b_nonce: Seq<u8>)
    requires
        a_nonce.len() == 32,
        b_nonce.len() == 32,
        challenge_bytes(a, a_nonce) == challenge_bytes(b, b_nonce),
    ensures
        a == b,
        a_nonce == b_nonce,
{
    challenge_layout(a, a_nonce);
    challenge_layout(b, b_nonce);
    lemma_seconds_fit(a);
    lemma_seconds_fit(b);
    big_endian_is_injective(a as nat, b as nat, 8);
}

/// A reply is accepted only if it is an answer under an allowed key, given in time, whose
/// signature of this very challenge passes strict verification.
pub proof fn accepted_reply_is_signed(
    allowed: Seq<Seq<u8>>,
    challenge: Seq<u8>,
    timestamp: u64,
    reply: Result<Option<ClientMessageView>, ReceiveError>,
    now: u64,
)
    requires
        reply_verdict(allowed, challenge, timestamp, reply, now) is Ok,
    ensures
        reply matches Ok(Some(ClientMessageView::Authenticate { public_key, signature })) && (
        decoded_key(public_key) matches Ok(key) && allowed.contains(key) && is_fresh(timestamp, now)
            && signature.len() == 128 && is_single_case_hex(signature) && ed25519_strict_verdict(
            key,
            challenge,
            hex_bytes(signature),
        ) is Ok),
{
}

/// A client whose key is not allowed is refused for that, whatever it signed and whenever.
pub proof fn unknown_key_is_refused(
    allowed: Seq<Seq<u8>>,
    challenge: Seq<u8>,
    timestamp: u64,
    public_key: Seq<u8>,
    signature: Seq<char>,
    now: u64,
)
    requires
        decoded_key(public_key) matches Ok(key) && !allowed.contains(key),
    ensures
        reply_verdict(
            allowed,
            challenge,
            timestamp,
            Ok(Some(ClientMessageView::Authenticate { public_key, signature })),
            now,
        ) == Err::<(), AuthFault>(AuthFault::InvalidClientKey),
{
}

/// An answer that comes when the challenge is no longer fresh is refused, even a good one.
pub proof fn late_answer_is_refused(
    allowed: Seq<Seq<u8>>,
    challenge: Seq<u8>,
    timestamp: u64,
    reply: Result<Option<ClientMessageView>, ReceiveError>,
    now: u64,
)
    requires
        now >= timestamp + CHALLENGE_LIFETIME,
    ensures
        reply_verdict(allowed, challenge, timestamp, reply, now) is Err,
{
}

/// What counts as the clock's time is what the clock gave: the seconds and nanoseconds from the
/// Unix epoch to a moment of `SystemTime::now`, and nothing before the epoch.
pub(crate) proof fn clock_time_is_what_the_clock_gave(elapsed: Option<nat>)
    requires
        is_clock_time(elapsed),
    ensures
        exists|moment: SystemTime, parts: Result<(u64, u32), SystemTimeError>|
            {
                &&& call_ensures(SystemTime::now, (), moment)
                &&& #[trigger] call_ensures(since_epoch, (&moment,), parts)
                &&& parts matches Ok((seconds, nanoseconds)) ==> nanoseconds < 1_000_000_000
                    && elapsed == Some((seconds * 1_000_000_000 + nanoseconds) as nat)
                &&& parts is Err ==> elapsed is None
            },
{
}

/// A drawn nonce is one that the random source gave, all of it.
pub(crate) proof fn drawn_nonce_is_what_was_drawn(nonce: [u8; 32])
    requires
        is_drawn_nonce(nonce),
    ensures
        call_ensures(random_nonce, (), nonce),
{
}

/// A reading of the clock is the number of whole seconds that had passed at the moment that the
/// clock gave: not more, and less than a second short of it.
pub proof fn clock_readings_are_whole_seconds(seconds: u64)
    ensures
        is_clock_reading(Some(seconds)) <==> exists|elapsed: nat|
            #[trigger] is_clock_time(Some(elapsed)) && 0 <= elapsed - seconds * 1_000_000_000
                < 1_000_000_000,
        is_clock_reading(None) <==> is_clock_time(None),
{
}

/// Of two readings of the clock, the later is not the smaller. Where at least some number of
/// seconds passed between the two moments, the readings are at least so far apart; where less, at
/// most so far.
pub proof fn clock_readings_keep_distances(
    earlier: nat,
    later: nat,
    first: u64,
    second: u64,
    distance: nat,
)
    requires
        0 <= earlier - first * 1_000_000_000 < 1_000_000_000,
        0 <= later - second * 1_000_000_000 < 1_000_000_000,
    ensures
        later >= earlier ==> second >= first,
        later >= earlier + distance * 1_000_000_000 ==> second >= first + distance,
        later < earlier + distance * 1_000_000_000 ==> second <= first + distance,
{
}

/// A challenge is answered in vain when thirty seconds have passed by the clock since it was made:
/// whatever the answer says, and where it comes under an allowed key, for that reason. While less
/// than twenty-nine seconds have passed the answer is never too late.
pub proof fn answers_are_timed_by_the_clock(
    allowed: Seq<Seq<u8>>,
    challenge: Seq<u8>,
    made: nat,
    answered: nat,
    timestamp: u64,
    now: u64,
    reply: Result<Option<ClientMessageView>, ReceiveError>,
)
    requires
        0 <= made - timestamp * 1_000_000_000 < 1_000_000_000,
        0 <= answered - now * 1_000_000_000 < 1_000_000_000,
    ensures
        answered >= made + 30_000_000_000 ==> reply_verdict(
            allowed,
            challenge,
            timestamp,
            reply,
            now,
        ) is Err,
        answered >= made + 30_000_000_000 && is_timed(allowed, reply) ==> reply_verdict(
            allowed,
            challenge,
            timestamp,
            reply,
            now,
        ) == Err::<(), AuthFault>(AuthFault::ChallengeExpired),
        made <= answered < made + 29_000_000_000 ==> reply_verdict(
            allowed,
            challenge,
            timestamp,
            reply,
            now,
        ) != Err::<(), AuthFault>(AuthFault::ChallengeExpired),
{
    clock_readings_keep_distances(made, answered, timestamp, now, 30);
    clock_readings_keep_distances(made, answered, timestamp, now, 29);
}

/// The verdict on an answer. A key that cannot be read is reported as such; then a key that is not
/// allowed; then an answer that does not come within thirty seconds of the challenge; then text
/// that is no signature; then what strict verification says of the signature of this challenge
/// under this key. Nothing else is held against an answer.
pub proof fn answers_are_judged_in_order(
    allowed: Seq<Seq<u8>>,
    challenge: Seq<u8>,
    timestamp: u64,
    public_key: Seq<u8>,
    signature: Seq<char>,
    now: u64,
)
    ensures
        ({
            let verdict = reply_verdict(
                allowed,
                challenge,
                timestamp,
                Ok(Some(ClientMessageView::Authenticate { public_key, signature })),
                now,
            );
            let in_time = timestamp <= now < timestamp + 30;
            let readable = signature.len() == 128 && is_single_case_hex(signature);
            match spki_public_key(public_key) {
                Err(text) => verdict == Err::<(), AuthFault>(
                    AuthFault::Key(KeyFault::Encoding(text)),
                ),
                Ok(key) => {
                    &&& !allowed.contains(key) ==> verdict == Err::<(), AuthFault>(
                        AuthFault::InvalidClientKey,
                    )
                    &&& allowed.contains(key) && !in_time ==> verdict == Err::<(), AuthFault>(
                        AuthFault::ChallengeExpired,
                    )
                    &&& allowed.contains(key) && in_time && !readable ==> verdict == Err::<
                        (),
                        AuthFault,
                    >(AuthFault::Signature("signature error"@))
                    &&& allowed.contains(key) && in_time && readable ==> verdict == match
                        ed25519_strict_verdict(key, challenge, hex_bytes(signature)) {
                        Ok(()) => Ok::<(), AuthFault>(()),
                        Err(text) => Err(AuthFault::Signature(text)),
                    }
                },
            }
        }),
{
}

/// Whatever is no answer is refused: another message or the end of the stream for want of an
/// answer, and a failure to receive for that failure.
pub proof fn other_replies_are_refused(
    allowed: Seq<Seq<u8>>,
    challenge: Seq<u8>,
    timestamp: u64,
    key: Seq<u8>,
    port: u16,
    error: ReceiveError,
    now: u64,
)
    ensures
        ({
            let no_answer = Err::<(), AuthFault>(AuthFault::NoAnswer);
            let hello = Ok(Some(ClientMessageView::Hello(key, port)));
            let accept = Ok(Some(ClientMessageView::Accept(key)));
            &&& reply_verdict(allowed, challenge, timestamp, hello, now) == no_answer
            &&& reply_verdict(allowed, challenge, timestamp, accept, now) == no_answer
            &&& reply_verdict(allowed, challenge, timestamp, Ok(None), now) == no_answer
            &&& reply_verdict(allowed, challenge, timestamp, Err(error), now) == Err::<
                (),
                AuthFault,
            >(AuthFault::Receive(error))
        }),
{
}

/// The moment matters for answers under allowed keys, and for nothing else.
pub proof fn only_answers_of_allowed_clients_are_timed(
    allowed: Seq<Seq<u8>>,
    challenge: Seq<u8>,
    timestamp: u64,
    reply: Result<Option<ClientMessageView>, ReceiveError>,
    now: u64,
    other: u64,
)
    ensures
        is_timed(allowed, reply) <==> (reply matches Ok(
            Some(ClientMessageView::Authenticate { public_key, .. }),
        ) && (spki_public_key(public_key) matches Ok(key) && allowed.contains(key))),
        !is_timed(allowed, reply) ==> reply_verdict(allowed, challenge, timestamp, reply, now)
            == reply_verdict(allowed, challenge, timestamp, reply, other),
{
}

/// An answer carries the client's own public key and, in capital digits, its signature of the
/// challenge that came.
pub proof fn answers_are_signed_by_their_client(seed: Seq<u8>, challenge: Seq<u8>)
    ensures
        answer_message(seed, challenge) matches ClientMessageView::Authenticate {
            public_key,
            signature,
        } && public_key == spki_head() + ed25519_public_key(seed) && hex_bytes(signature)
            == ed25519_signature(seed, challenge) && is_single_case_hex(signature) && forall|i: int|
            0 <= i < signature.len() ==> !is_lower_hex_letter(#[trigger] signature[i]),
{
    let bytes = ed25519_signature(seed, challenge);
    hex_round_trip(bytes, true);
    let text = answer_text(seed, challenge);
    assert forall|i: int| 0 <= i < text.len() implies !is_lower_hex_letter(#[trigger] text[i]) by {
        let byte = bytes[i / 2];
        assert(0 <= byte as int / 16 < 16);
    }
}

/// A convincing answer is accepted wherever the client's key is allowed, if it comes within thirty
/// seconds.
pub proof fn convincing_answers_are_accepted(
    allowed: Seq<Seq<u8>>,
    seed: Seq<u8>,
    challenge: Seq<u8>,
    timestamp: u64,
    now: u64,
)
    requires
        is_convincing(seed, challenge),
        allowed.contains(ed25519_public_key(seed)),
        timestamp <= now < timestamp + 30,
    ensures
        reply_verdict(
            allowed,
            challenge,
            timestamp,
            Ok(Some(answer_message(seed, challenge))),
            now,
        ) == Ok::<(), AuthFault>(()),
{
}

/// A degenerate signature is one whose first half is a one and zeros.
pub proof fn degenerate_signatures_are_rare(seed: Seq<u8>, challenge: Seq<u8>)
    requires
        is_degenerate(seed, challenge),
        ed25519_signature(seed, challenge).len() == 64,
    ensures
        ed25519_signature(seed, challenge)[0] == 1,
        forall|i: int| 1 <= i < 32 ==> #[trigger] ed25519_signature(seed, challenge)[i] == 0,
{
    let signature = ed25519_signature(seed, challenge);
    let half = neutral_point();
    assert(signature.take(32)[0] == half[0]);
    assert forall|i: int| 1 <= i < 32 implies #[trigger] signature[i] == 0 by {
        assert(signature.take(32)[i] == half[i]);
    }
}

/// The number that bytes stand for, the most significant first.
pub open spec fn big_endian_value(bytes: Seq<u8>) -> nat
    decreases bytes.len(),
{
    if bytes.len() == 0 {
        0
    } else {
        big_endian_value(bytes.drop_last()) * 0x100 + bytes.last() as nat
    }
}

/// A number is read back from its bytes.
pub proof fn big_endian_round_trip(n: nat, width: nat)
    requires
        fits(n, width),
    ensures
        big_endian_value(big_endian(n, width)) == n,
    decreases width,
{
    if width > 0 {
        big_endian_round_trip(n / 0x100, (width - 1) as nat);
        let bytes = big_endian(n, width);
        assert(bytes.drop_last() =~= big_endian(n / 0x100, (width - 1) as nat));
    }
}

/// The moment of a challenge is read back from it, for every moment.
pub proof fn challenge_tells_its_moment(timestamp: u64, nonce: Seq<u8>)
    requires
        nonce.len() == 32,
    ensures
        big_endian_value(challenge_bytes(timestamp, nonce).subrange(22, 30)) == timestamp,
{
    challenge_layout(timestamp, nonce);
    lemma_seconds_fit(timestamp);
    big_endian_round_trip(timestamp as nat, 8);
}

/// Bytes are a challenge of a moment exactly if they are made of that moment and some nonce.
pub proof fn challenges_are_made_of_their_moment(bytes: Seq<u8>, timestamp: u64)
    ensures
        is_challenge_of(bytes, timestamp) ==> bytes.len() == 62 && bytes.take(22) == domain()
            && big_endian_value(bytes.subrange(22, 30)) == timestamp,
{
    if is_challenge_of(bytes, timestamp) {
        let nonce = choose|nonce: Seq<u8>|
            nonce.len() == 32 && bytes == #[trigger] challenge_bytes(timestamp, nonce);
        challenge_layout(timestamp, nonce);
        challenge_tells_its_moment(timestamp, nonce);
    }
}

/// Errors are seen as what they are, verdicts and messages too, and the words of an error that
/// another part reports are passed on.
pub proof fn auth_values_are_seen_as_they_are(
    text: String,
    key_error: KeyError,
    error: ReceiveError,
    auth_error: AuthError,
    message: ClientMessage,
    keys: Seq<VerifyingKey>,
    i: int,
)
    ensures
        AuthError::InvalidClientKey@ == AuthFault::InvalidClientKey,
        AuthError::ChallengeExpired@ == AuthFault::ChallengeExpired,
        AuthError::Signature(text)@ == AuthFault::Signature(text@),
        AuthError::Key(key_error)@ == AuthFault::Key(key_error@),
        AuthError::NoAnswer@ == AuthFault::NoAnswer,
        AuthError::NoChallenge@ == AuthFault::NoChallenge,
        AuthError::Receive(error)@ == AuthFault::Receive(error),
        AuthError::Clock@ == AuthFault::Clock,
        AuthFault::Signature(text@).text() == text@,
        AuthFault::Key(key_error@).text() == key_error@.text(),
        AuthFault::Receive(error).text() == error.text(),
        verdict_view(Ok(())) == Ok::<(), AuthFault>(()),
        verdict_view(Err(auth_error)) == Err::<(), AuthFault>(auth_error@),
        client_reply_view(Ok(Some(message))) == Ok::<_, ReceiveError>(Some(message@)),
        client_reply_view(Ok(None)) == Ok::<Option<ClientMessageView>, ReceiveError>(None),
        client_reply_view(Err(error)) == Err::<Option<ClientMessageView>, _>(error),
        key_views(keys).len() == keys.len(),
        0 <= i < keys.len() ==> key_views(keys)[i] == keys[i]@,
{
}

/// A signature is good exactly if the key is allowed, thirty seconds have not passed since the
/// challenge, and the text spells a signature of the challenge that passes strict verification
/// under the key; what fails first is reported.
pub proof fn signatures_are_judged_in_order(
    allowed: Seq<Seq<u8>>,
    key: Seq<u8>,
    challenge: Seq<u8>,
    signature: Seq<char>,
    timestamp: u64,
    now: u64,
)
    ensures
        ({
            let verdict = signature_verdict(allowed, key, challenge, signature, timestamp, now);
            let in_time = timestamp <= now < timestamp + 30;
            let readable = signature.len() == 128 && is_single_case_hex(signature);
            let strict = ed25519_strict_verdict(key, challenge, hex_bytes(signature));
            &&& verdict is Ok <==> allowed.contains(key) && in_time && readable && strict is Ok
            &&& verdict == Err::<(), AuthFault>(AuthFault::InvalidClientKey) <==> !allowed.contains(
                key,
            )
            &&& verdict == Err::<(), AuthFault>(AuthFault::ChallengeExpired) <==> allowed.contains(
                key,
            ) && !in_time
            &&& allowed.contains(key) && in_time && !readable ==> verdict == Err::<(), AuthFault>(
                AuthFault::Signature("signature error"@),
            )
            &&& allowed.contains(key) && in_time && readable && strict is Err ==> verdict == Err::<
                (),
                AuthFault,
            >(AuthFault::Signature(strict->Err_0))
        }),
{
}

} // verus!
