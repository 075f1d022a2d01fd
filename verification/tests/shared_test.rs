use bore::keys::{SigningKey, VerifyingKey};
use bore::shared::{generate_signing_key, KeyError, PeerKey, ReceiveError};

fn known_key() -> SigningKey {
    SigningKey::from_bytes(&[
        0x9d, 0x61, 0xb1, 0x9d, 0xef, 0xfd, 0x5a, 0x60, 0xba, 0x84, 0x4a, 0xf4, 0x92, 0xec, 0x2c,
        0xc4, 0x44, 0x49, 0xc5, 0x69, 0x7b, 0x32, 0x69, 0x19, 0x70, 0x3b, 0xac, 0x03, 0x1c, 0xae,
        0x7f, 0x60,
    ])
}

#[test]
fn peer_key_of_a_known_key() {
    let key = PeerKey::from_signing_key(&known_key()).unwrap();
    assert_eq!(
        key.to_hex(),
        "302a300506032b6570032100\
         d75a980182b10ab7d54bfed3c964073a0ee172f3daa62325af021a68f707511a"
    );
}

#[test]
fn peer_key_gives_back_the_public_key() {
    let signing = generate_signing_key();
    let key = PeerKey::from_signing_key(&signing).unwrap();
    assert!(key.to_verifying_key().unwrap().same(&signing.verifying_key()));
    assert_eq!(key.to_verifying_key().unwrap().to_bytes(), key.0[12..]);
}

#[test]
fn generated_keys_differ() {
    assert_ne!(generate_signing_key().to_bytes(), generate_signing_key().to_bytes());
}

#[test]
fn peer_key_from_bytes() {
    let bytes: Vec<u8> = (0..44).collect();
    assert_eq!(PeerKey::from_bytes(bytes.clone()).unwrap().0.to_vec(), bytes);
    for length in [0, 43, 45, 100] {
        let error = PeerKey::from_bytes(vec![7; length]).unwrap_err();
        assert_eq!(error, KeyError::Length(length));
        assert_eq!(
            error.message(),
            format!("expected a 44-byte public key, got {} bytes", length)
        );
    }
}

#[test]
fn peer_key_that_is_no_key() {
    assert!(matches!(PeerKey([0; 44]).to_verifying_key(), Err(KeyError::Encoding(_))));
    let mut key = PeerKey::from_signing_key(&known_key()).unwrap();
    key.0[8] = 0x71;
    let error = match key.to_verifying_key() {
        Err(error) => error,
        Ok(_) => panic!("another algorithm"),
    };
    assert!(!error.message().is_empty());
    // A length byte that does not fit.
    let mut key = PeerKey::from_signing_key(&known_key()).unwrap();
    key.0[1] = 0x2b;
    assert!(key.to_verifying_key().is_err());
}

#[test]
fn peer_key_from_elements() {
    let key = PeerKey::from_signing_key(&known_key()).unwrap();
    assert_eq!(PeerKey::from_elements(&key.0), Ok(key));
    assert_eq!(PeerKey::from_elements(&key.0[..43]), Err(43));
    assert_eq!(PeerKey::from_elements(&[]), Err(0));
    let mut more = key.0.to_vec();
    more.push(1);
    assert_eq!(PeerKey::from_elements(&more), Ok(key));
}

#[test]
fn peer_keys_are_shown_in_small_digits() {
    let mut bytes = [0u8; 44];
    bytes[0] = 0xab;
    bytes[43] = 0x0f;
    assert_eq!(PeerKey(bytes).to_hex(), format!("ab{}0f", "00".repeat(42)));
    bytes[0] = 0xac;
    assert_eq!(PeerKey(bytes).to_hex(), format!("ac{}0f", "00".repeat(42)));
}

#[test]
fn verifying_keys_are_compared_by_their_bytes() {
    let a = VerifyingKey::from_bytes(&[1; 32]);
    assert!(a.same(&VerifyingKey::from_bytes(&[1; 32])));
    let mut other = [1; 32];
    other[31] = 2;
    assert!(!a.same(&VerifyingKey::from_bytes(&other)));
    assert_eq!(a.to_bytes(), [1; 32]);
}

#[test]
fn words_of_receive_errors() {
    assert_eq!(ReceiveError::Frame.message(), "frame error, invalid byte length");
    assert_eq!(ReceiveError::Parse.message(), "unable to parse message");
    assert_eq!(ReceiveError::TimedOut.message(), "timed out waiting for initial message");
}
