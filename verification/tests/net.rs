use chacha20poly1305::aead::Aead;
use chacha20poly1305::KeyInit;
use ed25519_dalek::Verifier;
use nara::net::{handshake_payload, session_keys, ClientConnection, ConnectionState, ServerError};

fn open(key: &[u8; 32], counter: u32, ct: &[u8]) -> Vec<u8> {
    let cipher = chacha20poly1305::ChaCha20Poly1305::new(&chacha20poly1305::Key::from(*key));
    let mut nonce = [0u8; 12];
    nonce[..4].copy_from_slice(&counter.to_be_bytes());
    cipher.decrypt(&chacha20poly1305::Nonce::from(nonce), ct).unwrap()
}

#[test]
fn nonce_is_big_endian_counter() {
    assert_eq!(ClientConnection::nonce(0), [0u8; 12]);
    assert_eq!(ClientConnection::nonce(0x0102_0304), [1, 2, 3, 4, 0, 0, 0, 0, 0, 0, 0, 0]);
    assert_ne!(ClientConnection::nonce(1), ClientConnection::nonce(256));
}

#[test]
fn send_before_handshake_has_no_cipher() {
    let (tx, _rx) = tokio::sync::mpsc::unbounded_channel::<Vec<u8>>();
    let c = ClientConnection::new(3, tx);
    assert_eq!(c.state(), ConnectionState::Handshaking);
    assert_eq!(c.id(), 3);
    assert!(matches!(c.seal_next(b"hi"), Err(ServerError::CipherNotInitialized)));
}

#[test]
fn session_keys_match_hkdf() {
    let secret = [7u8; 32];
    let (send, recv) = session_keys(&secret);
    let hk = hkdf::Hkdf::<sha2::Sha256>::new(None, &secret);
    let mut k1 = [0u8; 32];
    let mut k2 = [0u8; 32];
    hk.expand(b"key 1", &mut k1).unwrap();
    hk.expand(b"key 2", &mut k2).unwrap();
    assert_eq!(send, k1);
    assert_eq!(recv, k2);
    assert_ne!(send, secret);
}

#[test]
fn handshake_payload_is_key_and_signature() {
    let identity = [3u8; 32];
    let my_secret = [5u8; 32];
    let payload = handshake_payload(&my_secret, &identity);
    let my_public = x25519_dalek::PublicKey::from(&x25519_dalek::StaticSecret::from(my_secret));
    assert_eq!(&payload[..32], my_public.as_bytes());
    let signing = ed25519_dalek::SigningKey::from_bytes(&identity);
    let sig = ed25519_dalek::Signature::from_bytes(&payload[32..].try_into().unwrap());
    assert!(signing.verifying_key().verify(my_public.as_bytes(), &sig).is_ok());
}

#[test]
fn respond_handshake_sends_plain_reply_and_both_sides_agree_on_keys() {
    let (tx, mut rx) = tokio::sync::mpsc::unbounded_channel::<Vec<u8>>();
    let c = ClientConnection::new(1, tx);
    let my_secret = [11u8; 32];
    let identity = [4u8; 32];
    let client_secret = x25519_dalek::StaticSecret::from([23u8; 32]);
    let client_public = x25519_dalek::PublicKey::from(&client_secret);
    let mut c = c
        .respond_handshake(&my_secret, client_public.as_bytes(), &identity, |h| h.to_vec())
        .ok()
        .unwrap();
    assert_eq!(c.state(), ConnectionState::Authenticated);
    assert_eq!(c.send_count(), 0);
    // the reply is readable: our public key and its signature
    let first = rx.try_recv().unwrap();
    assert_eq!(first, handshake_payload(&my_secret, &identity).to_vec());
    let server_public: [u8; 32] = first[..32].try_into().unwrap();
    // the client reaches the same secret from the reply
    let client_shared = client_secret.diffie_hellman(&x25519_dalek::PublicKey::from(server_public));
    let (send_key, _) = session_keys(client_shared.as_bytes());
    assert!(c.send(b"next").is_ok());
    assert_eq!(c.send_count(), 1);
    let second = rx.try_recv().unwrap();
    assert_eq!(second.len(), 4 + 16);
    assert_eq!(open(&send_key, 0, &second), b"next");
    let sealed = c.seal_next(b"peek").ok().unwrap();
    assert_eq!(open(&send_key, 1, &sealed), b"peek");
    assert_ne!(&sealed[..4], b"peek");
}

#[test]
fn send_to_closed_channel_reports_id_and_keeps_counter() {
    let (tx, rx) = tokio::sync::mpsc::unbounded_channel::<Vec<u8>>();
    drop(rx);
    let c = ClientConnection::new(9, tx);
    match c.respond_handshake(&[1u8; 32], &[2u8; 32], &[3u8; 32], |h| h.to_vec()) {
        Err(ServerError::ChannelEntryError { id, .. }) => assert_eq!(id, 9),
        _ => panic!("expected a channel error"),
    }
}
