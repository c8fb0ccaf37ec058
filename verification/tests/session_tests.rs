use double_ratchet::messages::{decode_message, decode_prekey};
use double_ratchet::{
    Curve25519PublicKey, Curve25519SecretKey, Message, OlmMessage, RemoteShared3DHSecret, Session,
    SessionError, SessionKeys, Shared3DHSecret,
};

fn ratchet_key_bytes(message: &OlmMessage) -> Vec<u8> {
    let inner = match message {
        OlmMessage::PreKey(m) => decode_prekey(m.inner.as_slice()).unwrap().message,
        OlmMessage::Normal(m) => m.inner.clone(),
    };
    decode_message(inner.as_slice()).unwrap().ratchet_key
}

fn ratchet_key_of(message: &OlmMessage) -> Curve25519PublicKey {
    Curve25519PublicKey::from_bytes(ratchet_key_bytes(message)).unwrap()
}

/// Builds an initiator/responder pair; the responder has not yet
/// decrypted anything.  Returns both sessions and the initiator's first
/// (pre-key) message carrying `first_plaintext`.
fn handshake(first_plaintext: &[u8]) -> (Session, Session, OlmMessage) {
    let alice_identity = Curve25519SecretKey::generate();
    let alice_ephemeral = Curve25519SecretKey::generate();
    let bob_identity = Curve25519SecretKey::generate();
    let bob_one_time = Curve25519SecretKey::generate();

    let shared = Shared3DHSecret::new(
        &alice_identity,
        &alice_ephemeral,
        &bob_identity.public_key(),
        &bob_one_time.public_key(),
    );
    let keys = SessionKeys::new(
        alice_identity.public_key(),
        alice_ephemeral.public_key(),
        bob_one_time.public_key(),
    );
    let mut alice = Session::new(shared, keys);
    let first = alice.encrypt(first_plaintext).unwrap();

    let remote_shared = RemoteShared3DHSecret::new(
        &bob_identity,
        &bob_one_time,
        &alice_identity.public_key(),
        &alice_ephemeral.public_key(),
    );
    let bob = Session::new_remote(remote_shared, ratchet_key_of(&first));
    (alice, bob, first)
}

#[test]
fn shared_secret_agreement() {
    let alice_identity = Curve25519SecretKey::generate();
    let alice_ephemeral = Curve25519SecretKey::generate();
    let bob_identity = Curve25519SecretKey::generate();
    let bob_one_time = Curve25519SecretKey::generate();

    let initiator = Shared3DHSecret::new(
        &alice_identity,
        &alice_ephemeral,
        &bob_identity.public_key(),
        &bob_one_time.public_key(),
    );
    let responder = RemoteShared3DHSecret::new(
        &bob_identity,
        &bob_one_time,
        &alice_identity.public_key(),
        &alice_ephemeral.public_key(),
    );
    assert_eq!(initiator.as_bytes(), responder.as_bytes());
    assert_eq!(initiator.as_bytes().len(), 96);
}

#[test]
fn first_message_round_trip() {
    let (_alice, mut bob, first) = handshake(b"hello");
    assert!(matches!(first, OlmMessage::PreKey(_)));
    assert_eq!(bob.decrypt(&first).unwrap(), b"hello".to_vec());
}

#[test]
fn fifty_messages_round_trip() {
    let (mut alice, mut bob, first) = handshake(b"message 0");
    assert_eq!(bob.decrypt(&first).unwrap(), b"message 0".to_vec());
    for i in 1..50 {
        let plaintext = format!("message {}", i);
        let message = alice.encrypt(plaintext.as_bytes()).unwrap();
        assert_eq!(bob.decrypt(&message).unwrap(), plaintext.as_bytes().to_vec());
    }
}

#[test]
fn varint_index_boundary_round_trip() {
    let (mut alice, mut bob, first) = handshake(b"start");
    assert_eq!(bob.decrypt(&first).unwrap(), b"start".to_vec());
    for i in 1..130 {
        let plaintext = format!("n{}", i);
        let message = alice.encrypt(plaintext.as_bytes()).unwrap();
        assert_eq!(bob.decrypt(&message).unwrap(), plaintext.as_bytes().to_vec());
    }
}

#[test]
fn out_of_order_delivery() {
    let (mut alice, mut bob, m1) = handshake(b"m1");
    let m2 = alice.encrypt(b"m2").unwrap();
    let m3 = alice.encrypt(b"m3").unwrap();
    assert_eq!(bob.decrypt(&m2).unwrap(), b"m2".to_vec());
    assert_eq!(bob.decrypt(&m1).unwrap(), b"m1".to_vec());
    assert_eq!(bob.decrypt(&m3).unwrap(), b"m3".to_vec());
}

#[test]
fn replayed_message_rejected() {
    let (mut alice, mut bob, m1) = handshake(b"m1");
    let m2 = alice.encrypt(b"m2").unwrap();
    assert_eq!(bob.decrypt(&m2).unwrap(), b"m2".to_vec());
    assert_eq!(bob.decrypt(&m1).unwrap(), b"m1".to_vec());
    assert_eq!(bob.decrypt(&m1), Err(SessionError::SkippedKeyExhausted));
    assert_eq!(bob.decrypt(&m2), Err(SessionError::SkippedKeyExhausted));
}

#[test]
fn tampered_ciphertext_rejected_and_state_kept() {
    let (mut alice, mut bob, first) = handshake(b"hello");
    let tampered = match &first {
        OlmMessage::PreKey(m) => {
            let mut bytes = m.inner.clone();
            let n = bytes.len();
            bytes[n - 9] ^= 0x01;
            OlmMessage::PreKey(double_ratchet::PreKeyMessage { inner: bytes })
        },
        OlmMessage::Normal(_) => unreachable!(),
    };
    assert_eq!(bob.decrypt(&tampered), Err(SessionError::AuthenticationFailed));
    assert_eq!(bob.decrypt(&first).unwrap(), b"hello".to_vec());
    let next = alice.encrypt(b"next").unwrap();
    assert_eq!(bob.decrypt(&next).unwrap(), b"next".to_vec());
}

#[test]
fn tampered_mac_rejected_and_state_kept() {
    let (_alice, mut bob, first) = handshake(b"hello");
    let tampered = match &first {
        OlmMessage::PreKey(m) => {
            let mut bytes = m.inner.clone();
            let n = bytes.len();
            bytes[n - 1] ^= 0x80;
            OlmMessage::PreKey(double_ratchet::PreKeyMessage { inner: bytes })
        },
        OlmMessage::Normal(_) => unreachable!(),
    };
    assert_eq!(bob.decrypt(&tampered), Err(SessionError::AuthenticationFailed));
    assert_eq!(bob.decrypt(&first).unwrap(), b"hello".to_vec());
}

#[test]
fn prekey_framing_ends_after_first_receipt() {
    let (mut alice, mut bob, first) = handshake(b"hello");
    let second = alice.encrypt(b"still prekey").unwrap();
    assert!(matches!(second, OlmMessage::PreKey(_)));

    assert_eq!(bob.decrypt(&first).unwrap(), b"hello".to_vec());
    let reply = bob.encrypt(b"hi").unwrap();
    assert!(matches!(reply, OlmMessage::Normal(_)));

    assert_eq!(alice.decrypt(&reply).unwrap(), b"hi".to_vec());
    let third = alice.encrypt(b"no more prekey").unwrap();
    assert!(matches!(third, OlmMessage::Normal(_)));
    assert_eq!(bob.decrypt(&third).unwrap(), b"no more prekey".to_vec());
}

#[test]
fn hello_hi_scenario_with_ratchet_step() {
    let (mut alice, mut bob, hello) = handshake(b"hello");
    assert!(matches!(hello, OlmMessage::PreKey(_)));
    assert_eq!(bob.decrypt(&hello).unwrap(), b"hello".to_vec());

    let hi = bob.encrypt(b"hi").unwrap();
    assert!(matches!(hi, OlmMessage::Normal(_)));
    assert_eq!(alice.decrypt(&hi).unwrap(), b"hi".to_vec());

    // Alice's sending side went through a DH-ratchet trigger: her next
    // message announces a fresh ratchet key, and Bob can still read it.
    let after = alice.encrypt(b"after the step").unwrap();
    assert_ne!(ratchet_key_bytes(&hello), ratchet_key_bytes(&after));
    assert_eq!(bob.decrypt(&after).unwrap(), b"after the step".to_vec());
}

#[test]
fn garbage_message_is_decode_error() {
    let (_alice, mut bob, _first) = handshake(b"hello");
    let garbage = OlmMessage::Normal(Message { inner: vec![1, 2, 3] });
    assert_eq!(bob.decrypt(&garbage), Err(SessionError::DecodeError));
}

#[test]
fn wrong_length_key_is_invalid() {
    assert!(matches!(
        Curve25519PublicKey::from_bytes(vec![0u8; 31]),
        Err(SessionError::InvalidKey)
    ));
    assert!(matches!(
        Curve25519SecretKey::from_bytes(vec![0u8; 33]),
        Err(SessionError::InvalidKey)
    ));
    assert!(Curve25519PublicKey::from_bytes(vec![0u8; 32]).is_ok());
}

#[test]
fn decrypt_before_any_ratchet_is_protocol_error() {
    let (_alice, mut bob, first) = handshake(b"hello");
    assert_eq!(bob.decrypt(&first).unwrap(), b"hello".to_vec());
    let reply = bob.encrypt(b"hi").unwrap();
    // A different responder session knows neither this ratchet key nor
    // owns a key pair to ratchet with: it must refuse and keep state.
    let (_alice2, mut bob2, first2) = handshake(b"unrelated");
    assert_eq!(bob2.decrypt(&reply), Err(SessionError::ProtocolStateError));
    assert_eq!(bob2.decrypt(&first2).unwrap(), b"unrelated".to_vec());
    // An initiator session owns a ratchet key pair, so it reaches the
    // MAC check through a DH-ratchet step and fails authentication.
    let (mut stranger, _bob3, _msg) = handshake(b"x");
    assert_eq!(stranger.decrypt(&reply), Err(SessionError::AuthenticationFailed));
    assert!(stranger.encrypt(b"still works").is_ok());
}

#[test]
fn too_large_gap_is_rejected() {
    let (mut alice, mut bob, first) = handshake(b"m0");
    assert_eq!(bob.decrypt(&first).unwrap(), b"m0".to_vec());
    let mut last = None;
    for i in 1..=2002 {
        let plaintext = format!("m{}", i);
        last = Some(alice.encrypt(plaintext.as_bytes()).unwrap());
    }
    assert_eq!(bob.decrypt(&last.unwrap()), Err(SessionError::SkippedKeyExhausted));
}

#[test]
fn skipped_key_cache_evicts_oldest() {
    let (mut alice, mut bob, first) = handshake(b"m0");
    assert_eq!(bob.decrypt(&first).unwrap(), b"m0".to_vec());
    let mut kept = Vec::new();
    for i in 1..=45 {
        let plaintext = format!("m{}", i);
        kept.push((plaintext.clone(), alice.encrypt(plaintext.as_bytes()).unwrap()));
    }
    // Deliver the newest first: positions 1..=44 are skipped, and only
    // the newest 40 cache entries survive.
    let (last_text, last_msg) = kept.pop().unwrap();
    assert_eq!(bob.decrypt(&last_msg).unwrap(), last_text.as_bytes().to_vec());
    let (first_text, first_msg) = kept.remove(0);
    assert_eq!(first_text, "m1");
    assert_eq!(bob.decrypt(&first_msg), Err(SessionError::SkippedKeyExhausted));
    let (late_text, late_msg) = kept.pop().unwrap();
    assert_eq!(late_text, "m44");
    assert_eq!(bob.decrypt(&late_msg).unwrap(), late_text.as_bytes().to_vec());
    assert_eq!(bob.decrypt(&late_msg), Err(SessionError::SkippedKeyExhausted));
}

#[test]
fn matches_inbound_session_checks_embedded_keys() {
    let alice_identity = Curve25519SecretKey::generate();
    let alice_ephemeral = Curve25519SecretKey::generate();
    let bob_identity = Curve25519SecretKey::generate();
    let bob_one_time = Curve25519SecretKey::generate();

    let shared = Shared3DHSecret::new(
        &alice_identity,
        &alice_ephemeral,
        &bob_identity.public_key(),
        &bob_one_time.public_key(),
    );
    let keys = SessionKeys::new(
        alice_identity.public_key(),
        alice_ephemeral.public_key(),
        bob_one_time.public_key(),
    );
    let mut alice = Session::new(shared, keys);
    let first = alice.encrypt(b"hello").unwrap();
    let prekey = match &first {
        OlmMessage::PreKey(m) => m,
        OlmMessage::Normal(_) => unreachable!(),
    };
    assert!(alice.matches_inbound_session_from(&alice_identity.public_key(), prekey));
    let other = Curve25519SecretKey::generate();
    assert!(!alice.matches_inbound_session_from(&other.public_key(), prekey));
}
