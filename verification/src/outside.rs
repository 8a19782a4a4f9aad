//! Declarations of the outside types that the library carries or calls into.
use vstd::prelude::*;

verus! {

/// A 2-D vector of `f32`s. The library never looks inside one: it only
/// stores positions and velocities and hands them back.
#[verifier::external_type_specification]
#[verifier::external_body]
pub struct ExVec2(glam::Vec2);

/// A growable byte buffer of the `bytes` crate.
#[verifier::external_type_specification]
#[verifier::external_body]
pub struct ExBytesMut(bytes::BytesMut);

/// A frozen, cheaply clonable byte buffer of the `bytes` crate.
#[verifier::external_type_specification]
#[verifier::external_body]
pub struct ExBytes(bytes::Bytes);

/// The error `bitcode` reports when bytes do not decode.
#[verifier::external_type_specification]
#[verifier::external_body]
pub struct ExBitcodeError(bitcode::Error);

/// The bytes a `BytesMut` holds, in order.
pub uninterp spec fn bytes_mut_contents(b: bytes::BytesMut) -> Seq<u8>;

/// The bytes a `Bytes` holds, in order.
pub uninterp spec fn bytes_contents(b: bytes::Bytes) -> Seq<u8>;

/// `BytesMut::with_capacity`: an empty buffer (with room for `capacity`
/// bytes, which is not modelled). Allocating more than `isize::MAX` bytes
/// panics, so `requires` leaves that out.
#[verifier::external_body]
pub(crate) fn bytes_mut_with_capacity(capacity: usize) -> (b: bytes::BytesMut)
    requires
        capacity <= isize::MAX,
    ensures
        bytes_mut_contents(b) == Seq::<u8>::empty(),
{
    bytes::BytesMut::with_capacity(capacity)
}

/// `BufMut::put_u8` on a `BytesMut`: appends one byte. Growing past
/// `isize::MAX` bytes panics, so `requires` leaves that out.
#[verifier::external_body]
pub(crate) fn bytes_mut_put_u8(b: &mut bytes::BytesMut, n: u8)
    requires
        bytes_mut_contents(*old(b)).len() < isize::MAX,
    ensures
        bytes_mut_contents(*final(b)) == bytes_mut_contents(*old(b)).push(n),
{
    bytes::BufMut::put_u8(b, n)
}

/// `BytesMut::extend_from_slice`: appends the bytes of `extend`. Growing
/// past `isize::MAX` bytes panics, so `requires` leaves that out.
#[verifier::external_body]
pub(crate) fn bytes_mut_extend_from_slice(b: &mut bytes::BytesMut, extend: &[u8])
    requires
        bytes_mut_contents(*old(b)).len() + extend@.len() <= isize::MAX,
    ensures
        bytes_mut_contents(*final(b)) == bytes_mut_contents(*old(b)) + extend@,
{
    b.extend_from_slice(extend)
}

/// `BytesMut::freeze`: the same bytes, frozen.
#[verifier::external_body]
pub(crate) fn bytes_mut_freeze(b: bytes::BytesMut) -> (r: bytes::Bytes)
    ensures
        bytes_contents(r) == bytes_mut_contents(b),
{
    b.freeze()
}

/// The sending half of an unbounded tokio channel.
#[verifier::external_type_specification]
#[verifier::external_body]
#[verifier::reject_recursive_types(T)]
pub struct ExUnboundedSender<T>(tokio::sync::mpsc::UnboundedSender<T>);

/// What tokio hands back when the receiving half of a channel is gone.
#[verifier::external_type_specification]
#[verifier::external_body]
#[verifier::reject_recursive_types(T)]
pub struct ExSendError<T>(tokio::sync::mpsc::error::SendError<T>);

/// The opaque error of the `aead` crate, re-exported by `chacha20poly1305`.
#[verifier::external_type_specification]
#[verifier::external_body]
pub struct ExAeadError(chacha20poly1305::Error);

/// `UnboundedSender::send`: queues `message` unless the receiver is gone.
/// Which of the two happens depends on the other end of the channel, so
/// nothing is stated of the result.
#[verifier::external_body]
pub(crate) fn channel_send(
    tx: &tokio::sync::mpsc::UnboundedSender<Vec<u8>>,
    message: Vec<u8>,
) -> (r: Result<(), tokio::sync::mpsc::error::SendError<Vec<u8>>>) {
    tx.send(message)
}

/// ChaCha20-Poly1305 encryption of `plaintext` under `key` and `nonce`,
/// with no associated data: the ciphertext followed by the 16-byte tag.
pub uninterp spec fn chacha20poly1305_seal(key: Seq<u8>, nonce: Seq<u8>, plaintext: Seq<u8>) -> Seq<u8>;

/// `Aead::encrypt` of a `ChaCha20Poly1305` built from `key`. The crate's
/// source refuses a message of `u32::MAX` 64-byte blocks or more and
/// otherwise returns the plaintext's length plus the 16-byte tag; the bytes
/// themselves are named, not stated. The buffer of `len + 16` bytes must fit
/// in memory, so `requires` bounds the length.
#[verifier::external_body]
pub(crate) fn aead_seal(key: &[u8; 32], nonce: &[u8; 12], plaintext: &[u8]) -> (r: Result<
    Vec<u8>,
    chacha20poly1305::Error,
>)
    requires
        plaintext@.len() + 16 <= isize::MAX,
    ensures
        r is Ok <==> plaintext@.len() / 64 < u32::MAX,
        r matches Ok(c) ==> c@ == chacha20poly1305_seal(key@, nonce@, plaintext@),
        r matches Ok(c) ==> c@.len() == plaintext@.len() + 16,
{
    let cipher: chacha20poly1305::ChaCha20Poly1305 = chacha20poly1305::KeyInit::new(
        &chacha20poly1305::Key::from(*key),
    );
    chacha20poly1305::aead::Aead::encrypt(&cipher, &chacha20poly1305::Nonce::from(*nonce), plaintext)
}

/// HKDF-SHA256 with no salt: 32 bytes of output keying material expanded
/// from `ikm` with `info`.
pub uninterp spec fn hkdf_sha256_okm(ikm: Seq<u8>, info: Seq<u8>) -> Seq<u8>;

/// `Hkdf::<Sha256>::new(None, ikm)` followed by `expand(info, ..)` into 32
/// bytes. `expand` only fails for more than 255 * 32 bytes of output, so it
/// cannot fail here; the bytes are named, not stated.
#[verifier::external_body]
pub(crate) fn hkdf_sha256_expand32(ikm: &[u8; 32], info: &[u8]) -> (okm: [u8; 32])
    ensures
        okm@ == hkdf_sha256_okm(ikm@, info@),
{
    let mut okm = [0u8; 32];
    let _ = hkdf::Hkdf::<sha2::Sha256>::new(None, ikm).expand(info, &mut okm);
    okm
}

/// The Ed25519 signature (RFC 8032, deterministic) of `message` under the
/// secret key `secret`.
pub uninterp spec fn ed25519_signature(secret: Seq<u8>, message: Seq<u8>) -> Seq<u8>;

/// `SigningKey::from_bytes(secret).sign(message).to_bytes()`. Signing with
/// a `SigningKey` never fails in the crate's source; the bytes are named,
/// not stated.
#[verifier::external_body]
pub(crate) fn ed25519_sign(secret: &[u8; 32], message: &[u8]) -> (sig: [u8; 64])
    ensures
        sig@ == ed25519_signature(secret@, message@),
{
    let key = ed25519_dalek::SigningKey::from_bytes(secret);
    ed25519_dalek::Signer::sign(&key, message).to_bytes()
}

/// The X25519 public key of the secret scalar `secret` (clamped, times the
/// base point, as a Montgomery u-coordinate).
pub uninterp spec fn x25519_public_key(secret: Seq<u8>) -> Seq<u8>;

/// The X25519 shared secret of our secret `secret` and their public key
/// `their_public` (the clamped scalar times their point).
pub uninterp spec fn x25519_shared_secret(secret: Seq<u8>, their_public: Seq<u8>) -> Seq<u8>;

/// `PublicKey::from(&StaticSecret::from(secret))`: the public key of a
/// secret. It never fails in the crate's source; the bytes are named, not
/// stated.
#[verifier::external_body]
pub(crate) fn x25519_public(secret: &[u8; 32]) -> (public: [u8; 32])
    ensures
        public@ == x25519_public_key(secret@),
{
    x25519_dalek::PublicKey::from(&x25519_dalek::StaticSecret::from(*secret)).to_bytes()
}

/// `StaticSecret::from(secret).diffie_hellman(&PublicKey::from(their_public))`:
/// the shared secret. It never fails in the crate's source; the bytes are
/// named, not stated.
#[verifier::external_body]
pub(crate) fn x25519_dh(secret: &[u8; 32], their_public: &[u8; 32]) -> (shared: [u8; 32])
    ensures
        shared@ == x25519_shared_secret(secret@, their_public@),
{
    let ours = x25519_dalek::StaticSecret::from(*secret);
    ours.diffie_hellman(&x25519_dalek::PublicKey::from(*their_public)).to_bytes()
}

/// glam's component-wise `f32` addition of two vectors. Nothing is stated
/// of the sum: it is floating-point arithmetic.
#[verifier::external_body]
pub(crate) fn vec2_add(a: glam::Vec2, b: glam::Vec2) -> (sum: glam::Vec2) {
    a + b
}

} // verus!
