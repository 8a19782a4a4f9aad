//! The wire layer shared by client and server: the build seed, packet ids,
//! junk padding that shifts byte offsets from build to build, and the framing
//! of client-bound packets.
use vstd::prelude::*;
use vstd::string::StringSliceAdditionalSpecFns;

use crate::outside::{
    bytes_contents, bytes_mut_extend_from_slice, bytes_mut_freeze, bytes_mut_put_u8,
    bytes_mut_with_capacity,
};

verus! {

/// Length of the handshake payload: a 32-byte public key and a 64-byte
/// signature.
pub const HANDSHAKE_LEN: usize = 96;

pub type HandShake = [u8; 96];

/// Index the handshake packet is registered under.
pub const HANDSHAKE_PACKET_INDEX: u8 = 0;

/// The value of the decimal digits `s`, most significant first; a byte
/// counts as its distance above the digit `0`.
pub open spec fn decimal_value(s: Seq<u8>) -> int
    decreases s.len(),
{
    if s.len() == 0 {
        0
    } else {
        decimal_value(s.drop_last()) * 10 + (s.last() - 48)
    }
}

/// Whether no byte of `s` lies below the ASCII digit `0`.
pub open spec fn none_below_zero_digit(s: Seq<u8>) -> bool {
    forall|i: int| 0 <= i < s.len() ==> 48 <= #[trigger] s[i]
}

/// The value of a prefix of digits is at most the value of the whole.
pub proof fn lemma_decimal_prefix(s: Seq<u8>, k: int)
    requires
        none_below_zero_digit(s),
        0 <= k <= s.len(),
    ensures
        0 <= decimal_value(s.take(k)) <= decimal_value(s),
    decreases s.len() - k,
{
    if k < s.len() {
        lemma_decimal_prefix(s.drop_last(), k);
        assert(s.drop_last().take(k) =~= s.take(k));
        lemma_decimal_nonneg(s.drop_last());
    } else {
        assert(s.take(k) =~= s);
        lemma_decimal_nonneg(s);
    }
}

proof fn lemma_decimal_nonneg(s: Seq<u8>)
    requires
        none_below_zero_digit(s),
    ensures
        decimal_value(s) >= 0,
    decreases s.len(),
{
    if s.len() > 0 {
        lemma_decimal_nonneg(s.drop_last());
    }
}

/// Parses the decimal digits of `s` into a byte. Each byte counts as its
/// distance above `0` (so a non-digit adds more than 9); no byte may lie
/// below `0` and the value must fit in a `u8`.
pub fn parse_u8(s: &str) -> (val: u8)
    requires
        none_below_zero_digit(s.spec_bytes()),
        decimal_value(s.spec_bytes()) <= 255,
    ensures
        val == decimal_value(s.spec_bytes()),
{
    let bytes = s.as_bytes();
    let mut val: u8 = 0;
    let mut i: usize = 0;
    while i < bytes.len()
        invariant
            bytes@ == s.spec_bytes(),
            none_below_zero_digit(bytes@),
            decimal_value(bytes@) <= 255,
            i <= bytes.len(),
            val == decimal_value(bytes@.take(i as int)),
        decreases bytes.len() - i,
    {
        proof {
            lemma_decimal_prefix(bytes@, i as int + 1);
            assert(bytes@.take(i as int + 1).drop_last() =~= bytes@.take(i as int));
            assert(bytes@.take(i as int + 1).last() == bytes@[i as int]);
        }
        let b = bytes[i];
        val = val * 10 + (b - 48);
        i = i + 1;
    }
    assert(bytes@.take(i as int) =~= bytes@);
    val
}

/// The padding length before the payload of a handshake packet.
pub open spec fn spec_junk_size_a(seed: u8) -> usize {
    ((seed % 3) + 1) as usize
}

/// The padding length after the payload of a handshake packet.
pub open spec fn spec_junk_size_b(seed: u8) -> usize {
    ((seed % 5) + 1) as usize
}

pub fn junk_size_a(seed: u8) -> (n: usize)
    ensures
        n == spec_junk_size_a(seed),
{
    ((seed % 3) + 1) as usize
}

pub fn junk_size_b(seed: u8) -> (n: usize)
    ensures
        n == spec_junk_size_b(seed),
{
    ((seed % 5) + 1) as usize
}

/// One step of the xorshift64 generator.
pub open spec fn xorshift(state: u64) -> u64 {
    let s1 = state ^ (state << 13u64);
    let s2 = s1 ^ (s1 >> 7u64);
    s2 ^ (s2 << 17u64)
}

/// The generator state after `k` steps from `start`.
pub open spec fn xorshift_iter(start: u64, k: nat) -> u64
    decreases k,
{
    if k == 0 {
        start
    } else {
        xorshift(xorshift_iter(start, (k - 1) as nat))
    }
}

/// Padding bytes of length `N`.
#[derive(Debug)]
pub struct JunkData<const N: usize>(pub [u8; N]);

impl<const N: usize> JunkData<N> {
    /// Fills the padding from a xorshift64 generator seeded with
    /// `entropy + seed` (wrapping): byte `i` is the low byte of the state
    /// after `i + 1` steps.
    pub fn random(entropy: u64, seed: u8) -> (j: Self)
        ensures
            forall|i: int|
                0 <= i < N ==> #[trigger] j.0@[i] == (xorshift_iter(entropy.wrapping_add(seed as u64), (i + 1) as nat)
                    & 0xff) as u8,
    {
        let mut data = [0u8; N];
        let ghost start = entropy.wrapping_add(seed as u64);
        let mut state = entropy.wrapping_add(seed as u64);
        let mut i: usize = 0;
        while i < N
            invariant
                i <= N,
                data@.len() == N,
                state == xorshift_iter(start, i as nat),
                forall|k: int| 0 <= k < i ==> #[trigger] data@[k] == (xorshift_iter(start, (k + 1) as nat) & 0xff) as u8,
            decreases N - i,
        {
            state = state ^ (state << 13u64);
            state = state ^ (state >> 7u64);
            state = state ^ (state << 17u64);
            data[i] = (state & 0xFF) as u8;
            i = i + 1;
        }
        JunkData(data)
    }

    /// The default padding under build seed `seed`: the padding drawn from
    /// entropy 0.
    pub fn default(seed: u8) -> (j: Self)
        ensures
            forall|i: int|
                0 <= i < N ==> #[trigger] j.0@[i] == (xorshift_iter(seed as u64, (i + 1) as nat) & 0xff) as u8,
    {
        assert(0u64.wrapping_add(seed as u64) == seed as u64);
        Self::random(0, seed)
    }
}

/// The first packet each side sends: an ephemeral public key and its
/// signature, between junk padding whose lengths depend on the build seed.
#[derive(Debug)]
pub struct HandshakePacket<const A: usize, const B: usize> {
    pub _junk_a: JunkData<A>,
    pub handshake: HandShake,
    pub _junk_b: JunkData<B>,
}

impl<const A: usize, const B: usize> HandshakePacket<A, B> {
    /// Wraps `handshake` in padding drawn from `sequence_or_time` (before)
    /// and `sequence_or_time * 31`, wrapping (after).
    pub fn new(handshake: HandShake, sequence_or_time: u64, seed: u8) -> (p: Self)
        ensures
            p.handshake == handshake,
            forall|i: int|
                0 <= i < A ==> #[trigger] p._junk_a.0@[i] == (xorshift_iter(
                    sequence_or_time.wrapping_add(seed as u64),
                    (i + 1) as nat,
                ) & 0xff) as u8,
            forall|i: int|
                0 <= i < B ==> #[trigger] p._junk_b.0@[i] == (xorshift_iter(
                    sequence_or_time.wrapping_mul(31).wrapping_add(seed as u64),
                    (i + 1) as nat,
                ) & 0xff) as u8,
    {
        Self {
            _junk_a: JunkData::random(sequence_or_time, seed),
            handshake,
            _junk_b: JunkData::random(sequence_or_time.wrapping_mul(31), seed),
        }
    }
}

/// Packets the server sends to clients.
#[derive(Debug)]
pub enum ClientPacket<const A: usize, const B: usize> {
    Handshake(HandshakePacket<A, B>),
}

/// Packets clients send to the server.
#[derive(Debug)]
pub enum ServerPacket<const A: usize, const B: usize> {
    Handshake(HandshakePacket<A, B>),
}

#[derive(Clone, Copy, Debug, PartialEq, Eq, Structural)]
pub enum EntityType {
    Player,
    Shape,
    Bullet,
}

/// The id a packet registered under `index` carries on the wire: its index
/// masked with the build seed.
pub open spec fn spec_packet_id(index: u8, seed: u8) -> u8 {
    index ^ seed
}

/// The same seed unmasks an id back to its index, so ids of distinct
/// indices differ.
pub proof fn lemma_packet_id_unmasks(index: u8, seed: u8)
    ensures
        spec_packet_id(index, seed) ^ seed == index,
        forall|other: u8| other != index ==> spec_packet_id(other, seed) != spec_packet_id(index, seed),
{
    assert((index ^ seed) ^ seed == index) by (bit_vector);
    assert forall|other: u8| other != index implies spec_packet_id(other, seed) != spec_packet_id(index, seed) by {
        assert(other != index ==> other ^ seed != index ^ seed) by (bit_vector);
    }
}

/// A packet kind registered under an index.
pub trait Packet {
    spec fn spec_index() -> u8;

    fn id(seed: u8) -> (id: u8)
        ensures
            id == spec_packet_id(Self::spec_index(), seed),
    ;
}

impl<const A: usize, const B: usize> Packet for HandshakePacket<A, B> {
    open spec fn spec_index() -> u8 {
        HANDSHAKE_PACKET_INDEX
    }

    fn id(seed: u8) -> (id: u8) {
        HANDSHAKE_PACKET_INDEX ^ seed
    }
}

/// What goes wrong reading a packet.
#[derive(Debug)]
pub enum SharedError {
    DecodeError { source: bitcode::Error },
    InvalidByteSize,
}

/// Framing of packets sent to clients: the packet's wire id, then its
/// encoded payload.
pub trait ClientBoundPacket: Packet {
    fn encode(raw_payload: &[u8], seed: u8) -> (framed: bytes::Bytes)
        requires
            raw_payload@.len() < isize::MAX,
        ensures
            bytes_contents(framed) == seq![spec_packet_id(Self::spec_index(), seed)] + raw_payload@,
    {
        let mut bytes = bytes_mut_with_capacity(1 + raw_payload.len());
        bytes_mut_put_u8(&mut bytes, Self::id(seed));
        bytes_mut_extend_from_slice(&mut bytes, raw_payload);
        bytes_mut_freeze(bytes)
    }

    /// Refuses empty input; otherwise hands `data` to `decode_payload` and
    /// reports its failure as a decode error.
    fn decode<P, F: FnOnce(&[u8]) -> Result<P, bitcode::Error>>(data: &[u8], decode_payload: F) -> (r: Result<
        P,
        SharedError,
    >)
        requires
            data@.len() > 0 ==> call_requires(decode_payload, (data,)),
        ensures
            data@.len() == 0 ==> r matches Err(SharedError::InvalidByteSize),
            data@.len() > 0 ==> exists|d: Result<P, bitcode::Error>|
                #[trigger] call_ensures(decode_payload, (data,), d) && match d {
                    Ok(p) => r == Ok::<P, SharedError>(p),
                    Err(e) => r == Err::<P, SharedError>(SharedError::DecodeError { source: e }),
                },
    {
        if data.len() == 0 {
            return Err(SharedError::InvalidByteSize);
        }
        match decode_payload(data) {
            Ok(p) => Ok(p),
            Err(e) => Err(SharedError::DecodeError { source: e }),
        }
    }
}

impl<const A: usize, const B: usize> ClientBoundPacket for HandshakePacket<A, B> {

}

} // verus!
