use nara::packets::{
    junk_size_a, junk_size_b, parse_u8, ClientBoundPacket, ClientPacket, EntityType, HandshakePacket,
    JunkData, Packet, SharedError,
};

fn xorshift(mut s: u64) -> u64 {
    s ^= s << 13;
    s ^= s >> 7;
    s ^= s << 17;
    s
}

#[test]
fn parse_u8_reads_decimal() {
    assert_eq!(parse_u8("0"), 0);
    assert_eq!(parse_u8("7"), 7);
    assert_eq!(parse_u8("42"), 42);
    assert_eq!(parse_u8("255"), 255);
    assert_eq!(parse_u8(""), 0);
    assert_eq!(parse_u8("007"), 7);
    assert_eq!(parse_u8("a"), 49);
    assert_eq!(parse_u8("1:"), 20);
}

#[test]
fn junk_sizes_follow_seed() {
    assert_eq!(junk_size_a(0), 1);
    assert_eq!(junk_size_a(5), 3);
    assert_eq!(junk_size_b(4), 5);
    assert_eq!(junk_size_b(10), 1);
}

#[test]
fn junk_is_xorshift_stream() {
    let j: JunkData<4> = JunkData::random(100, 7);
    let mut s = 107u64;
    for k in 0..4 {
        s = xorshift(s);
        assert_eq!(j.0[k], (s & 0xff) as u8);
    }
    let w: JunkData<2> = JunkData::random(u64::MAX, 3);
    let mut s = 2u64;
    for k in 0..2 {
        s = xorshift(s);
        assert_eq!(w.0[k], (s & 0xff) as u8);
    }
    let z: JunkData<0> = JunkData::random(1, 1);
    assert_eq!(z.0.len(), 0);
}

#[test]
fn handshake_packet_pads_payload() {
    let payload = [9u8; 96];
    let p: HandshakePacket<2, 3> = HandshakePacket::new(payload, 5, 1);
    assert_eq!(p.handshake, payload);
    let a: JunkData<2> = JunkData::random(5, 1);
    let b: JunkData<3> = JunkData::random(155, 1);
    assert_eq!(p._junk_a.0, a.0);
    assert_eq!(p._junk_b.0, b.0);
    let c = ClientPacket::Handshake(p);
    assert!(matches!(c, ClientPacket::Handshake(_)));
}

#[test]
fn packet_ids_are_masked_indices() {
    assert_eq!(<HandshakePacket<1, 1> as Packet>::id(0), 0);
    assert_eq!(<HandshakePacket<1, 1> as Packet>::id(0xa5), 0xa5);
    assert_eq!(<HandshakePacket<1, 1> as Packet>::id(0xa5) ^ 0xa5, 0);
}

#[test]
fn encode_prefixes_packet_id() {
    let framed = <HandshakePacket<1, 1> as ClientBoundPacket>::encode(&[1, 2, 3], 0x42);
    assert_eq!(&framed[..], &[0x42, 1, 2, 3]);
    let empty = <HandshakePacket<1, 1> as ClientBoundPacket>::encode(&[], 9);
    assert_eq!(&empty[..], &[9]);
}

#[test]
fn decode_refuses_empty_input() {
    let r: Result<u8, SharedError> =
        <HandshakePacket<1, 1> as ClientBoundPacket>::decode(&[], |_| -> Result<u8, bitcode::Error> {
            panic!("must not decode empty input")
        });
    assert!(matches!(r, Err(SharedError::InvalidByteSize)));
}

#[test]
fn decode_passes_payload_through() {
    let r: Result<u8, SharedError> =
        <HandshakePacket<1, 1> as ClientBoundPacket>::decode(&[4, 5], |d| Ok(d[0] + d[1]));
    assert!(matches!(r, Ok(9)));
    let bad = bitcode::decode::<u32>(&[1]).unwrap_err();
    let r: Result<u8, SharedError> =
        <HandshakePacket<1, 1> as ClientBoundPacket>::decode(&[4], move |_| Err(bad));
    assert!(matches!(r, Err(SharedError::DecodeError { .. })));
}

#[test]
fn entity_types_compare() {
    assert_eq!(EntityType::Player, EntityType::Player);
    assert_ne!(EntityType::Shape, EntityType::Bullet);
}

#[test]
fn junk_default_is_random_from_zero() {
    assert_eq!(nara::packets::JunkData::<7>::default(42).0, nara::packets::JunkData::<7>::random(0, 42).0);
    assert_eq!(nara::packets::JunkData::<3>::default(9).0, nara::packets::JunkData::<5>::random(0, 9).0[..3]);
    assert_eq!(nara::packets::JunkData::<4>::default(0).0, [0u8; 4]);
}
