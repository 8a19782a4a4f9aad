//! Per-client connection state: the handshake that establishes the session
//! keys, and the counter-nonce encryption of everything sent afterwards.
use vstd::prelude::*;

use crate::outside::{
    aead_seal, chacha20poly1305_seal, channel_send, ed25519_sign, ed25519_signature, hkdf_sha256_expand32,
    hkdf_sha256_okm, x25519_dh, x25519_public, x25519_public_key, x25519_shared_secret,
};
use tokio::sync::mpsc::error::SendError;
use tokio::sync::mpsc::UnboundedSender;

verus! {

/// HKDF info for the key this side encrypts with ("key 1").
pub const SEND_KEY_INFO: [u8; 5] = [107, 101, 121, 32, 49];

/// HKDF info for the key this side decrypts with ("key 2").
pub const RECV_KEY_INFO: [u8; 5] = [107, 101, 121, 32, 50];

#[derive(Debug, PartialEq, Eq, Structural, Clone, Copy)]
pub enum ConnectionState {
    Handshaking,
    Authenticated,
}

/// What goes wrong serving a connection.
#[derive(Debug)]
pub enum ServerError {
    ChannelEntryError { id: u32, source: SendError<Vec<u8>> },
    CipherEncrypt { source: chacha20poly1305::Error },
    CipherNotInitialized,
    HandshakeFailure,
}

/// One client's connection. Until the handshake completes no key is set.
pub struct ClientConnection {
    send_tx: UnboundedSender<Vec<u8>>,
    /// Send/recv nonce counters for chacha20poly1305.
    send_nonce_count: u32,
    recv_nonce_count: u32,
    /// The chacha20poly1305 keys.
    send_key: Option<[u8; 32]>,
    recv_key: Option<[u8; 32]>,
    /// The player id associated with this connection.
    id: u32,
    state: ConnectionState,
    /// Every message handed to the channel so far, in order.
    sent: Ghost<Seq<Seq<u8>>>,
}

/// The 12-byte nonce of message number `counter`: the counter big-endian,
/// then eight zero bytes.
pub open spec fn nonce_bytes(counter: u32) -> Seq<u8> {
    seq![
        (counter >> 24u32) as u8,
        (counter >> 16u32) as u8,
        (counter >> 8u32) as u8,
        counter as u8,
        0u8,
        0u8,
        0u8,
        0u8,
        0u8,
        0u8,
        0u8,
        0u8,
    ]
}

/// Distinct message numbers get distinct nonces.
pub proof fn lemma_nonce_injective(a: u32, b: u32)
    requires
        a != b,
    ensures
        nonce_bytes(a) != nonce_bytes(b),
{
    if nonce_bytes(a) == nonce_bytes(b) {
        assert(nonce_bytes(a)[0] == nonce_bytes(b)[0]);
        assert(nonce_bytes(a)[1] == nonce_bytes(b)[1]);
        assert(nonce_bytes(a)[2] == nonce_bytes(b)[2]);
        assert(nonce_bytes(a)[3] == nonce_bytes(b)[3]);
        assert(((a >> 24u32) as u8 == (b >> 24u32) as u8 && (a >> 16u32) as u8 == (b >> 16u32) as u8 && (a
            >> 8u32) as u8 == (b >> 8u32) as u8 && a as u8 == b as u8) ==> a == b) by (bit_vector);
    }
}

/// The handshake payload: the public key of our ephemeral secret, then its
/// signature under the server's identity key.
pub open spec fn spec_handshake_payload(my_secret: Seq<u8>, identity_key: Seq<u8>) -> Seq<u8> {
    x25519_public_key(my_secret) + ed25519_signature(identity_key, x25519_public_key(my_secret))
}

/// The session keys of a handshake between our secret and their public key.
pub open spec fn spec_handshake_keys(my_secret: Seq<u8>, their_public: Seq<u8>) -> (Seq<u8>, Seq<u8>) {
    spec_session_keys(x25519_shared_secret(my_secret, their_public))
}

/// The session keys derived from a shared secret: (send key, receive key).
pub open spec fn spec_session_keys(shared_secret: Seq<u8>) -> (Seq<u8>, Seq<u8>) {
    (hkdf_sha256_okm(shared_secret, SEND_KEY_INFO@), hkdf_sha256_okm(shared_secret, RECV_KEY_INFO@))
}

/// The payload sent back to the client: the public key of `my_secret`
/// and its signature under `identity_key`.
pub fn handshake_payload(my_secret: &[u8; 32], identity_key: &[u8; 32]) -> (handshake: [u8; 96])
    ensures
        handshake@ == spec_handshake_payload(my_secret@, identity_key@),
{
    let my_public = x25519_public(my_secret);
    let signature = ed25519_sign(identity_key, my_public.as_slice());
    let mut handshake = [0u8; 96];
    let mut i: usize = 0;
    while i < 32
        invariant
            i <= 32,
            handshake@.len() == 96,
            forall|k: int| 0 <= k < i ==> #[trigger] handshake@[k] == my_public@[k],
        decreases 32 - i,
    {
        handshake[i] = my_public[i];
        i = i + 1;
    }
    while i < 96
        invariant
            32 <= i <= 96,
            handshake@.len() == 96,
            forall|k: int| 0 <= k < 32 ==> #[trigger] handshake@[k] == my_public@[k],
            forall|k: int| 32 <= k < i ==> #[trigger] handshake@[k] == signature@[k - 32],
        decreases 96 - i,
    {
        handshake[i] = signature[i - 32];
        i = i + 1;
    }
    assert(handshake@ =~= my_public@ + signature@);
    handshake
}

/// The session keys derived from `shared_secret`: (send key, receive key).
pub fn session_keys(shared_secret: &[u8; 32]) -> (keys: ([u8; 32], [u8; 32]))
    ensures
        (keys.0@, keys.1@) == spec_session_keys(shared_secret@),
{
    let send_info = SEND_KEY_INFO;
    let recv_info = RECV_KEY_INFO;
    let send_key = hkdf_sha256_expand32(shared_secret, send_info.as_slice());
    let recv_key = hkdf_sha256_expand32(shared_secret, recv_info.as_slice());
    (send_key, recv_key)
}

impl ClientConnection {
    pub closed spec fn spec_id(&self) -> u32 {
        self.id
    }

    pub closed spec fn spec_state(&self) -> ConnectionState {
        self.state
    }

    /// Number of messages sent so far; the next one uses it as its nonce.
    pub closed spec fn spec_send_count(&self) -> u32 {
        self.send_nonce_count
    }

    pub closed spec fn spec_recv_count(&self) -> u32 {
        self.recv_nonce_count
    }

    /// The key messages are sent with, once the handshake set it.
    pub closed spec fn spec_send_key(&self) -> Option<Seq<u8>> {
        match self.send_key {
            Some(k) => Some(k@),
            None => None,
        }
    }

    /// The key messages are received with, once the handshake set it.
    pub closed spec fn spec_recv_key(&self) -> Option<Seq<u8>> {
        match self.recv_key {
            Some(k) => Some(k@),
            None => None,
        }
    }

    /// Every message handed to the channel so far, in order.
    pub closed spec fn spec_sent(&self) -> Seq<Seq<u8>> {
        self.sent@
    }

    pub fn new(id: u32, send_tx: UnboundedSender<Vec<u8>>) -> (c: Self)
        ensures
            c.spec_sent() == Seq::<Seq<u8>>::empty(),
            c.spec_id() == id,
            c.spec_state() == ConnectionState::Handshaking,
            c.spec_send_count() == 0,
            c.spec_recv_count() == 0,
            c.spec_send_key() is None,
            c.spec_recv_key() is None,
    {
        Self {
            send_tx,
            send_nonce_count: 0,
            recv_nonce_count: 0,
            send_key: None,
            recv_key: None,
            id,
            state: ConnectionState::Handshaking,
            sent: Ghost(Seq::empty()),
        }
    }

    pub fn id(&self) -> (id: u32)
        ensures
            id == self.spec_id(),
    {
        self.id
    }

    pub fn state(&self) -> (s: ConnectionState)
        ensures
            s == self.spec_state(),
    {
        self.state
    }

    /// Number of messages sent so far.
    pub fn send_count(&self) -> (n: u32)
        ensures
            n == self.spec_send_count(),
    {
        self.send_nonce_count
    }

    /// Produces the nonce of message number `nonce_counter`.
    pub fn nonce(nonce_counter: u32) -> (n: [u8; 12])
        ensures
            n@ == nonce_bytes(nonce_counter),
    {
        let mut bytes = [0u8; 12];
        bytes[0] = (nonce_counter >> 24u32) as u8;
        bytes[1] = (nonce_counter >> 16u32) as u8;
        bytes[2] = (nonce_counter >> 8u32) as u8;
        bytes[3] = nonce_counter as u8;
        assert(bytes@ =~= nonce_bytes(nonce_counter));
        bytes
    }

    /// The ciphertext the next message would be sent as: `serialized`
    /// sealed under the send key with the current message number's nonce.
    pub fn seal_next(&self, serialized: &[u8]) -> (r: Result<Vec<u8>, ServerError>)
        requires
            serialized@.len() + 16 <= isize::MAX,
        ensures
            self.spec_send_key() is None ==> r matches Err(ServerError::CipherNotInitialized),
            self.spec_send_key() is Some && serialized@.len() / 64 >= u32::MAX ==> r matches Err(
                ServerError::CipherEncrypt { .. },
            ),
            self.spec_send_key() is Some && serialized@.len() / 64 < u32::MAX ==> (r matches Ok(c) && c@
                == chacha20poly1305_seal(
                self.spec_send_key()->0,
                nonce_bytes(self.spec_send_count()),
                serialized@,
            )),
    {
        match &self.send_key {
            Some(key) => {
                let nonce = ClientConnection::nonce(self.send_nonce_count);
                match aead_seal(key, &nonce, serialized) {
                    Ok(encoded) => Ok(encoded),
                    Err(e) => Err(ServerError::CipherEncrypt { source: e }),
                }
            },
            None => Err(ServerError::CipherNotInitialized),
        }
    }

    /// Hands `message` to the channel, logging it when the channel took it.
    fn queue(&mut self, message: Vec<u8>) -> (r: Result<(), ServerError>)
        ensures
            final(self).spec_id() == old(self).spec_id(),
            final(self).spec_state() == old(self).spec_state(),
            final(self).spec_send_key() == old(self).spec_send_key(),
            final(self).spec_recv_key() == old(self).spec_recv_key(),
            final(self).spec_send_count() == old(self).spec_send_count(),
            final(self).spec_recv_count() == old(self).spec_recv_count(),
            r is Ok || (r matches Err(ServerError::ChannelEntryError { id, .. }) && id == old(self).spec_id()),
            r is Ok ==> final(self).spec_sent() == old(self).spec_sent().push(message@),
            r is Err ==> final(self).spec_sent() == old(self).spec_sent(),
    {
        let ghost bytes = message@;
        match channel_send(&self.send_tx, message) {
            Ok(()) => {
                self.sent = Ghost(self.sent@.push(bytes));
                Ok(())
            },
            Err(e) => Err(ServerError::ChannelEntryError { id: self.id, source: e }),
        }
    }

    /// Encrypts `serialized` (an encoded packet) with the send key and the
    /// current message number as nonce, and queues it; the message number
    /// advances only when the message was queued.
    pub fn send(&mut self, serialized: &[u8]) -> (r: Result<(), ServerError>)
        requires
            old(self).spec_state() == ConnectionState::Authenticated,
            serialized@.len() + 16 <= isize::MAX,
            old(self).spec_send_count() < u32::MAX,
        ensures
            final(self).spec_id() == old(self).spec_id(),
            final(self).spec_state() == old(self).spec_state(),
            final(self).spec_send_key() == old(self).spec_send_key(),
            final(self).spec_recv_key() == old(self).spec_recv_key(),
            final(self).spec_recv_count() == old(self).spec_recv_count(),
            old(self).spec_send_key() is None ==> r matches Err(ServerError::CipherNotInitialized),
            old(self).spec_send_key() is Some && serialized@.len() / 64 >= u32::MAX ==> r matches Err(
                ServerError::CipherEncrypt { .. },
            ),
            old(self).spec_send_key() is Some && serialized@.len() / 64 < u32::MAX ==> (r is Ok || (r matches Err(
                ServerError::ChannelEntryError { id, .. },
            ) && id == old(self).spec_id())),
            r is Ok ==> final(self).spec_send_count() == old(self).spec_send_count() + 1,
            r is Ok ==> final(self).spec_sent() == old(self).spec_sent().push(
                chacha20poly1305_seal(
                    old(self).spec_send_key()->0,
                    nonce_bytes(old(self).spec_send_count()),
                    serialized@,
                ),
            ),
            r is Err ==> final(self).spec_send_count() == old(self).spec_send_count(),
            r is Err ==> final(self).spec_sent() == old(self).spec_sent(),
    {
        let encoded = match self.seal_next(serialized) {
            Ok(encoded) => encoded,
            Err(e) => {
                return Err(e);
            },
        };
        match self.queue(encoded) {
            Ok(()) => {},
            Err(e) => {
                return Err(e);
            },
        }
        self.send_nonce_count = self.send_nonce_count + 1;
        Ok(())
    }

    /// Answers the client's handshake: installs the session keys derived
    /// from the X25519 secret of `my_secret` and `their_public`, and sends
    /// back, unencrypted so that the client can derive the same secret, the
    /// encoding (by `encode`) of our public key signed with `identity_key`.
    /// On success the connection is authenticated.
    pub fn respond_handshake<F: FnOnce([u8; 96]) -> Vec<u8>>(
        self,
        my_secret: &[u8; 32],
        their_public: &[u8; 32],
        identity_key: &[u8; 32],
        encode: F,
    ) -> (r: Result<ClientConnection, ServerError>)
        requires
            self.spec_state() == ConnectionState::Handshaking,
            forall|h: [u8; 96]| call_requires(encode, (h,)),
        ensures
            r is Ok || (r matches Err(ServerError::ChannelEntryError { id, .. }) && id == self.spec_id()),
            r matches Ok(c) ==> {
                &&& c.spec_state() == ConnectionState::Authenticated
                &&& c.spec_id() == self.spec_id()
                &&& c.spec_send_key() == Some(spec_handshake_keys(my_secret@, their_public@).0)
                &&& c.spec_recv_key() == Some(spec_handshake_keys(my_secret@, their_public@).1)
                &&& c.spec_send_count() == self.spec_send_count()
                &&& c.spec_recv_count() == self.spec_recv_count()
                &&& exists|h: [u8; 96], e: Vec<u8>|
                    h@ == spec_handshake_payload(my_secret@, identity_key@) && #[trigger] call_ensures(
                        encode,
                        (h,),
                        e,
                    ) && c.spec_sent() == self.spec_sent().push(e@)
            },
    {
        let mut this = self;
        let shared = x25519_dh(my_secret, their_public);
        let (send_key, recv_key) = session_keys(&shared);
        this.send_key = Some(send_key);
        this.recv_key = Some(recv_key);
        let handshake = handshake_payload(my_secret, identity_key);
        let encoded = encode(handshake);
        let ghost e = encoded;
        match this.queue(encoded) {
            Ok(()) => {},
            Err(e) => {
                return Err(e);
            },
        }
        assert(call_ensures(encode, (handshake,), e) && this.spec_sent() == self.spec_sent().push(e@));
        Ok(
            ClientConnection {
                send_tx: this.send_tx,
                send_nonce_count: this.send_nonce_count,
                recv_nonce_count: this.recv_nonce_count,
                send_key: this.send_key,
                recv_key: this.recv_key,
                id: this.id,
                state: ConnectionState::Authenticated,
                sent: this.sent,
            },
        )
    }
}

} // verus!
