use bore::auth::{
    compose_challenge, generate_challenge, AuthError, ClientAuthenticator, ServerAuthenticator,
};
use bore::keys::{SigningKey, VerifyingKey};
use bore::shared::{
    generate_signing_key, ClientMessage, KeyError, PeerKey, ReceiveError, ServerMessage,
};

fn bytes_of(text: &str) -> Vec<u8> {
    (0..text.len() / 2).map(|i| u8::from_str_radix(&text[2 * i..2 * i + 2], 16).unwrap()).collect()
}

fn array_of(text: &str) -> [u8; 32] {
    bytes_of(text).try_into().unwrap()
}

const SEED: &str = "9d61b19deffd5a60ba844af492ec2cc44449c5697b326919703bac031cae7f60";
const PUBLIC: &str = "d75a980182b10ab7d54bfed3c964073a0ee172f3daa62325af021a68f707511a";
const SIGNED_NOTHING: &str = "e5564300c360ac729086e2cc806e828a84877f1eb8e5d974d873e06522490155\
                              5fb8821590a33bacc61e39701cf9b46bd25bf5f0595bbe24655141438e7a100b";

fn known_key() -> SigningKey {
    SigningKey::from_bytes(&array_of(SEED))
}

fn answer_of(client: &ClientAuthenticator, challenge: &[u8]) -> ClientMessage {
    client.client_handshake(Ok(Some(ServerMessage::Challenge(challenge.to_vec())))).unwrap()
}

#[test]
fn auth_handshake() {
    let key = generate_signing_key();
    let server_auth = ServerAuthenticator::new(vec![key.verifying_key()]);
    let client_auth = ClientAuthenticator::new(key);

    let (challenge, timestamp) = generate_challenge().unwrap();
    let answer = answer_of(&client_auth, &challenge);
    let verdict = server_auth.server_handshake(&challenge, timestamp, Ok(Some(answer)));
    assert_eq!(verdict, Ok(()));
}

#[test]
fn auth_handshake_fail() {
    let key1 = generate_signing_key();
    let key2 = generate_signing_key();
    let client_auth = ClientAuthenticator::new(key1);
    let server_auth = ServerAuthenticator::new(vec![key2.verifying_key()]);

    let (challenge, timestamp) = generate_challenge().unwrap();
    let answer = answer_of(&client_auth, &challenge);
    let verdict = server_auth.server_handshake(&challenge, timestamp, Ok(Some(answer)));
    assert!(verdict.is_err());
    assert_eq!(verdict, Err(AuthError::InvalidClientKey));
}

#[test]
fn public_half_of_a_known_key() {
    assert_eq!(known_key().verifying_key().to_bytes(), array_of(PUBLIC));
    assert_eq!(known_key().to_bytes(), array_of(SEED));
}

#[test]
fn known_signature_in_capital_digits() {
    let client = ClientAuthenticator::new(known_key());
    assert_eq!(client.answer(&[]), SIGNED_NOTHING.to_uppercase());
    let other = SigningKey::from_bytes(&array_of(
        "4ccd089b28ff96da9db6c346ec114e0f5b8a319f35aba624da8cf6ed4fb8a6fb",
    ));
    assert_eq!(
        ClientAuthenticator::new(other).answer(&[0x72]).to_lowercase(),
        "92a009a9f0d4cab8720e820b5f642540a2b27b5416503f8fb3762223ebdb69da\
         085ac1e43e15996e458f3613d0f11d8c387b2eaeb4302aeeb00d291612bb0c00"
    );
}

#[test]
fn composed_challenge() {
    let challenge = compose_challenge(0x0102030405060708, &[0xab; 32]);
    let mut expected = b"P2P_RELAY_V1_CHALLENGE".to_vec();
    expected.extend_from_slice(&[1, 2, 3, 4, 5, 6, 7, 8]);
    expected.extend_from_slice(&[0xab; 32]);
    assert_eq!(challenge, expected);
    assert_eq!(challenge.len(), 62);
}

#[test]
fn challenges_differ() {
    let nonce = [7u8; 32];
    let mut other = nonce;
    other[31] = 8;
    assert_ne!(compose_challenge(1, &nonce), compose_challenge(2, &nonce));
    assert_ne!(compose_challenge(1, &nonce), compose_challenge(1, &other));
    assert_ne!(compose_challenge(1, &nonce), compose_challenge(256, &nonce));
}

#[test]
fn generated_challenge_is_of_now_and_fresh() {
    let (a, timestamp) = generate_challenge().unwrap();
    let (b, _) = generate_challenge().unwrap();
    assert_eq!(a.len(), 62);
    assert_eq!(&a[..22], b"P2P_RELAY_V1_CHALLENGE");
    assert_eq!(a[22..30], timestamp.to_be_bytes());
    assert_ne!(a[30..], b[30..]);
    // The clock of any machine that runs this stands after 2020.
    assert!(timestamp > 1_577_836_800);
}

#[test]
fn answers_in_time_and_too_late() {
    let server = ServerAuthenticator::new(vec![known_key().verifying_key()]);
    let client = ClientAuthenticator::new(known_key());
    let challenge = compose_challenge(1000, &[1; 32]);
    let at = |now: u64| {
        server.server_handshake_at(&challenge, 1000, Ok(Some(answer_of(&client, &challenge))), now)
    };
    assert_eq!(at(1000), Ok(()));
    assert_eq!(at(1029), Ok(()));
    assert_eq!(at(1030), Err(AuthError::ChallengeExpired));
    assert_eq!(at(u64::MAX), Err(AuthError::ChallengeExpired));
    assert_eq!(at(999), Err(AuthError::ChallengeExpired));
}

#[test]
fn answer_to_an_old_challenge_has_expired() {
    let server = ServerAuthenticator::new(vec![known_key().verifying_key()]);
    let client = ClientAuthenticator::new(known_key());
    let challenge = compose_challenge(1000, &[1; 32]);
    let verdict =
        server.server_handshake(&challenge, 1000, Ok(Some(answer_of(&client, &challenge))));
    assert_eq!(verdict, Err(AuthError::ChallengeExpired));
}

#[test]
fn answer_to_another_challenge() {
    let server = ServerAuthenticator::new(vec![known_key().verifying_key()]);
    let client = ClientAuthenticator::new(known_key());
    let challenge = compose_challenge(1000, &[1; 32]);
    let other = compose_challenge(1000, &[2; 32]);
    let verdict =
        server.server_handshake_at(&challenge, 1000, Ok(Some(answer_of(&client, &other))), 1000);
    match verdict {
        Err(AuthError::Signature(text)) => {
            assert_eq!(text, "signature error: Verification equation was not satisfied")
        },
        other => panic!("{:?}", other),
    }
}

#[test]
fn key_that_is_not_allowed_comes_first() {
    let server = ServerAuthenticator::new(vec![]);
    let key = known_key().verifying_key();
    assert_eq!(
        server.validate_signature_at(&key, &[], "nonsense", 0, 1000),
        Err(AuthError::InvalidClientKey)
    );
    assert_eq!(server.validate_signature(&key, &[], "nonsense", 0), Err(AuthError::InvalidClientKey));
    assert!(!server.allows(&key));
}

#[test]
fn expiry_comes_before_the_signature() {
    let server = ServerAuthenticator::new(vec![known_key().verifying_key()]);
    let key = known_key().verifying_key();
    assert_eq!(
        server.validate_signature_at(&key, &[], "nonsense", 0, 30),
        Err(AuthError::ChallengeExpired)
    );
    assert_eq!(server.validate_signature(&key, &[], "nonsense", 0), Err(AuthError::ChallengeExpired));
}

#[test]
fn replies_that_ask_for_the_clock() {
    let server = ServerAuthenticator::new(vec![known_key().verifying_key()]);
    let reply = |public_key: PeerKey| {
        Ok(Some(ClientMessage::Authenticate { public_key, signature: String::new() }))
    };
    assert!(server.asks_clock(&reply(PeerKey::from_signing_key(&known_key()).unwrap())));
    let other = PeerKey::from_signing_key(&generate_signing_key()).unwrap();
    assert!(!server.asks_clock(&reply(other)));
    assert!(!server.asks_clock(&reply(PeerKey([0; 44]))));
    assert!(!server.asks_clock(&Ok(None)));
    assert!(!server.asks_clock(&Err(ReceiveError::Parse)));
}

#[test]
fn signature_of_this_moment() {
    let server = ServerAuthenticator::new(vec![known_key().verifying_key()]);
    let key = known_key().verifying_key();
    let (_, now) = generate_challenge().unwrap();
    assert_eq!(server.validate_signature(&key, &[], SIGNED_NOTHING, now), Ok(()));
    assert_eq!(
        server.validate_signature(&key, &[], SIGNED_NOTHING, now - 31),
        Err(AuthError::ChallengeExpired)
    );
    assert_eq!(
        server.validate_signature(&key, &[], SIGNED_NOTHING, now + 1000),
        Err(AuthError::ChallengeExpired)
    );
}

#[test]
fn signature_text() {
    let server = ServerAuthenticator::new(vec![known_key().verifying_key()]);
    let key = known_key().verifying_key();
    let check = |text: &str| server.validate_signature_at(&key, &[], text, 10, 20);
    assert_eq!(check(&SIGNED_NOTHING.to_uppercase()), Ok(()));
    assert_eq!(check(SIGNED_NOTHING), Ok(()));
    let unreadable = Err(AuthError::Signature("signature error".to_string()));
    assert_eq!(check(""), unreadable);
    assert_eq!(check("nonsense"), unreadable);
    assert_eq!(check(&SIGNED_NOTHING[1..]), unreadable);
    assert_eq!(check(&format!("{}0", SIGNED_NOTHING)), unreadable);
    assert_eq!(check(&SIGNED_NOTHING.replacen('e', "E", 1)), unreadable);
    assert_eq!(check(&SIGNED_NOTHING.replacen('e', "g", 1)), unreadable);
}

#[test]
fn replies_that_are_no_answers() {
    let server = ServerAuthenticator::new(vec![known_key().verifying_key()]);
    let key = PeerKey::from_signing_key(&known_key()).unwrap();
    let check = |reply: Result<Option<ClientMessage>, ReceiveError>| {
        server.server_handshake_at(&[], 10, reply, 10)
    };
    assert_eq!(check(Ok(None)), Err(AuthError::NoAnswer));
    assert_eq!(check(Ok(Some(ClientMessage::Hello(key, 5)))), Err(AuthError::NoAnswer));
    assert_eq!(check(Ok(Some(ClientMessage::Accept(key)))), Err(AuthError::NoAnswer));
    for error in [ReceiveError::Frame, ReceiveError::Parse, ReceiveError::TimedOut] {
        assert_eq!(check(Err(error)), Err(AuthError::Receive(error)));
        assert_eq!(
            server.server_handshake(&[], 10, Err(error)),
            Err(AuthError::Receive(error))
        );
    }
    assert_eq!(server.server_handshake(&[], 10, Ok(None)), Err(AuthError::NoAnswer));
}

#[test]
fn answer_under_a_key_that_is_none() {
    let server = ServerAuthenticator::new(vec![known_key().verifying_key()]);
    let public_key = PeerKey([0; 44]);
    let message = ClientMessage::Authenticate { public_key, signature: SIGNED_NOTHING.to_string() };
    let verdict = server.server_handshake_at(&[], 10, Ok(Some(message)), 10);
    assert!(matches!(verdict, Err(AuthError::Key(KeyError::Encoding(_)))));
    let message = ClientMessage::Authenticate { public_key, signature: SIGNED_NOTHING.to_string() };
    let verdict = server.server_handshake(&[], 10, Ok(Some(message)));
    assert!(matches!(verdict, Err(AuthError::Key(KeyError::Encoding(_)))));
}

#[test]
fn client_without_a_challenge() {
    let client = ClientAuthenticator::new(known_key());
    assert_eq!(client.client_handshake(Ok(None)), Err(AuthError::NoChallenge));
    assert_eq!(
        client.client_handshake(Ok(Some(ServerMessage::Heartbeat))),
        Err(AuthError::NoChallenge)
    );
    assert_eq!(
        client.client_handshake(Err(ReceiveError::TimedOut)),
        Err(AuthError::Receive(ReceiveError::TimedOut))
    );
}

#[test]
fn client_answers_with_its_own_key() {
    let client = ClientAuthenticator::new(known_key());
    let message = client.client_handshake(Ok(Some(ServerMessage::Challenge(vec![])))).unwrap();
    assert_eq!(
        message,
        ClientMessage::Authenticate {
            public_key: PeerKey::from_signing_key(&known_key()).unwrap(),
            signature: SIGNED_NOTHING.to_uppercase(),
        }
    );
}

#[test]
fn allowed_among_others() {
    let other = VerifyingKey::from_bytes(&[9; 32]);
    let server = ServerAuthenticator::new(vec![other, known_key().verifying_key()]);
    assert!(server.allows(&known_key().verifying_key()));
    assert!(server.allows(&VerifyingKey::from_bytes(&[9; 32])));
    assert!(!server.allows(&VerifyingKey::from_bytes(&[8; 32])));
}

#[test]
fn weak_key_is_refused_by_strict_verification() {
    // The neutral point is a public key under which everything could be signed.
    let mut neutral = [0u8; 32];
    neutral[0] = 1;
    let key = VerifyingKey::from_bytes(&neutral);
    let server = ServerAuthenticator::new(vec![VerifyingKey::from_bytes(&neutral)]);
    let signature = format!("01{}", "0".repeat(126));
    assert!(matches!(
        server.validate_signature_at(&key, &[], &signature, 0, 0),
        Err(AuthError::Signature(_))
    ));
}

#[test]
fn words_of_auth_errors() {
    assert_eq!(AuthError::InvalidClientKey.message(), "Invalid client key");
    assert_eq!(AuthError::ChallengeExpired.message(), "Challenge has expired");
    assert_eq!(AuthError::Signature("x".to_string()).message(), "x");
    assert_eq!(
        AuthError::Key(KeyError::Length(3)).message(),
        "expected a 44-byte public key, got 3 bytes"
    );
    assert_eq!(
        AuthError::NoAnswer.message(),
        "server requires secret, but no secret was provided"
    );
    assert_eq!(
        AuthError::NoChallenge.message(),
        "expected authentication challenge, but no challenge was sent"
    );
    assert_eq!(
        AuthError::Receive(ReceiveError::TimedOut).message(),
        "timed out waiting for initial message"
    );
    assert_eq!(AuthError::Clock.message(), "system clock is set before the Unix epoch");
}
