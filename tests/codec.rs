use zcash_wire::bytes::DecodeError;
use zcash_wire::checksum::checksum;
use zcash_wire::compact_size::{read_compact_size, read_string, write_compact_size, write_string};
use zcash_wire::message::{frame, Message, MessageHeader, Version, PROTOCOL_VERSION};
use zcash_wire::netaddr::{decode_addr, write_addr, IpAddress, NetAddr, SocketAddress};

fn v4(a: u8, b: u8, c: u8, d: u8, port: u16) -> SocketAddress {
    SocketAddress { ip: IpAddress::V4([a, b, c, d]), port }
}

fn sample_version(user_agent: &str) -> Version {
    Version {
        version: PROTOCOL_VERSION,
        services: 1,
        timestamp: 1_600_000_000,
        addr_recv: NetAddr { services: 1, addr: v4(127, 0, 0, 1, 8233) },
        addr_from: NetAddr {
            services: 9,
            addr: SocketAddress {
                ip: IpAddress::V6([0x20, 0x01, 0x0d, 0xb8, 0, 0, 0, 0, 0, 0, 0, 0, 0, 0, 0, 1]),
                port: 18233,
            },
        },
        nonce: 0x0123_4567_89ab_cdef,
        user_agent: String::from(user_agent),
        start_height: 42,
        relay: false,
    }
}

#[test]
fn compact_size_widths_at_tier_boundaries() {
    let cases: [(u64, usize); 5] = [(0, 1), (0xfc, 1), (0xfd, 3), (0xffff, 3), (0x10000, 5)];
    for (value, width) in cases {
        let mut buf = Vec::new();
        assert_eq!(write_compact_size(&mut buf, value), width);
        assert_eq!(buf.len(), width);
        assert_eq!(read_compact_size(&buf, 0), Ok((value, width)));
    }
}

#[test]
fn compact_size_exact_bytes() {
    let mut buf = Vec::new();
    write_compact_size(&mut buf, 0xfd);
    assert_eq!(buf, vec![0xfd, 0xfd, 0x00]);
    let mut buf = Vec::new();
    write_compact_size(&mut buf, 0x1_0000);
    assert_eq!(buf, vec![0xfe, 0x00, 0x00, 0x01, 0x00]);
    let mut buf = Vec::new();
    write_compact_size(&mut buf, 0x1_0000_0000);
    assert_eq!(buf, vec![0xff, 0, 0, 0, 0, 1, 0, 0, 0]);
    assert_eq!(read_compact_size(&buf, 0), Ok((0x1_0000_0000, 9)));
}

#[test]
fn compact_size_truncated() {
    assert_eq!(read_compact_size(&[], 0), Err(DecodeError::Truncated));
    assert_eq!(read_compact_size(&[0xfe, 1, 2], 0), Err(DecodeError::Truncated));
}

#[test]
fn string_is_length_prefixed() {
    let mut buf = Vec::new();
    assert_eq!(write_string(&mut buf, "abc"), 4);
    assert_eq!(buf, vec![3, b'a', b'b', b'c']);
    let (s, end) = read_string(&buf, 0).unwrap();
    assert_eq!(s, "abc");
    assert_eq!(end, 4);
}

#[test]
fn string_invalid_utf8_is_a_decode_error() {
    assert_eq!(read_string(&[2, 0xff, 0xfe], 0), Err(DecodeError::InvalidUtf8));
    assert_eq!(read_string(&[5, b'a'], 0), Err(DecodeError::Truncated));
}

#[test]
fn ipv4_address_round_trips_as_ipv4() {
    let a = NetAddr { services: 1, addr: v4(10, 1, 2, 3, 8233) };
    let mut buf = Vec::new();
    write_addr(&mut buf, &a);
    assert_eq!(buf.len(), 26);
    assert_eq!(&buf[8..24], &[0, 0, 0, 0, 0, 0, 0, 0, 0, 0, 0xff, 0xff, 10, 1, 2, 3]);
    // the port is big-endian
    assert_eq!(&buf[24..26], &[0x20, 0x29]);
    assert_eq!(decode_addr(&buf, 0), Ok((a, 26)));
}

#[test]
fn ipv6_address_round_trips_unchanged() {
    let ip = IpAddress::V6([0, 0, 0, 0, 0, 0, 0, 0, 0, 0, 0, 0, 0, 0, 0, 1]);
    let a = NetAddr { services: 0, addr: SocketAddress { ip, port: 1 } };
    let mut buf = Vec::new();
    write_addr(&mut buf, &a);
    assert_eq!(decode_addr(&buf, 0), Ok((a, 26)));
}

#[test]
fn mapped_ipv6_address_comes_back_as_ipv4() {
    let ip = IpAddress::V6([0, 0, 0, 0, 0, 0, 0, 0, 0, 0, 0xff, 0xff, 192, 168, 0, 1]);
    let a = NetAddr { services: 0, addr: SocketAddress { ip, port: 1 } };
    let mut buf = Vec::new();
    write_addr(&mut buf, &a);
    let (back, _) = decode_addr(&buf, 0).unwrap();
    assert_eq!(back.addr.ip, IpAddress::V4([192, 168, 0, 1]));
}

#[test]
fn header_fields_are_split_out() {
    let mut bytes = [0u8; 24];
    bytes[..4].copy_from_slice(&[0xfa, 0x1a, 0xf9, 0xbf]);
    bytes[4..8].copy_from_slice(b"ping");
    bytes[16..20].copy_from_slice(&[8, 0, 0, 0]);
    bytes[20..24].copy_from_slice(&[1, 2, 3, 4]);
    let h = MessageHeader::from(bytes);
    assert_eq!(h.magic, [0xfa, 0x1a, 0xf9, 0xbf]);
    assert_eq!(&h.command[..4], b"ping");
    assert_eq!(h.body_length, 8);
    assert_eq!(h.checksum, 0x0403_0201);
}

#[test]
fn empty_body_checksum() {
    // first four bytes of SHA-256(SHA-256(""))
    assert_eq!(checksum(&[]), [0x5d, 0xf6, 0xe0, 0xe2]);
}

#[test]
fn verack_frame_exact_bytes() {
    let f = Message::Verack.encode();
    let mut want = vec![0xfa, 0x1a, 0xf9, 0xbf];
    want.extend_from_slice(b"verack\0\0\0\0\0\0");
    want.extend_from_slice(&[0, 0, 0, 0, 0x5d, 0xf6, 0xe0, 0xe2]);
    assert_eq!(f, want);
}

#[test]
fn ping_frame_layout() {
    let f = Message::Ping(0x0102_0304_0506_0708).encode();
    assert_eq!(f.len(), 32);
    assert_eq!(&f[4..16], b"ping\0\0\0\0\0\0\0\0");
    assert_eq!(&f[16..20], &[8, 0, 0, 0]);
    assert_eq!(&f[24..32], &[8, 7, 6, 5, 4, 3, 2, 1]);
    assert_eq!(&f[20..24], &checksum(&f[24..32]));
}

#[test]
fn every_variant_round_trips() {
    let messages = vec![
        Message::Version(sample_version("")),
        Message::Version(sample_version("/harness:0.1/")),
        Message::Verack,
        Message::Ping(0),
        Message::Ping(u64::MAX),
        Message::Pong(77),
    ];
    for m in messages {
        let f = m.encode();
        assert_eq!(Message::decode(&f), Ok((m.clone(), f.len())));
    }
}

#[test]
fn version_body_length() {
    let v = sample_version("abc");
    let f = v.encode();
    // 85 fixed bytes, one length byte and the three characters
    assert_eq!(f.len(), 24 + 85 + 1 + 3);
    assert_eq!(&f[16..20], &[89, 0, 0, 0]);
    assert_eq!(Message::decode(&f), Ok((Message::Version(v), f.len())));
}

#[test]
fn negative_timestamp_round_trips() {
    let mut v = sample_version("x");
    v.timestamp = -5;
    v.relay = true;
    let f = v.encode();
    assert_eq!(Message::decode(&f), Ok((Message::Version(v), f.len())));
}

#[test]
fn flipping_any_body_byte_is_a_checksum_mismatch() {
    let f = Message::Version(sample_version("ua")).encode();
    for i in 24..f.len() {
        let mut g = f.clone();
        g[i] ^= 0x01;
        assert_eq!(Message::decode(&g), Err(DecodeError::ChecksumMismatch));
    }
}

#[test]
fn decode_errors() {
    let f = Message::Ping(5).encode();
    assert_eq!(Message::decode(&f[..20]), Err(DecodeError::Truncated));
    assert_eq!(Message::decode(&f[..30]), Err(DecodeError::Truncated));
    let mut bad = f.clone();
    bad[0] = 0;
    assert_eq!(Message::decode(&bad), Err(DecodeError::BadMagic));

    let body = [0u8; 9];
    let g = frame(b"ping\0\0\0\0\0\0\0\0", &body, checksum(&body));
    assert_eq!(Message::decode(&g), Err(DecodeError::LengthMismatch));

    let h = frame(b"getaddr\0\0\0\0\0", &[], checksum(&[]));
    assert_eq!(Message::decode(&h), Err(DecodeError::UnknownCommand));

    let mut vbody = Vec::new();
    sample_version("ab").encode_body(&mut vbody);
    let n = vbody.len();
    // the two user-agent bytes stand before the start height and relay flag
    vbody[n - 7] = 0xfe;
    vbody[n - 6] = 0xff;
    let u = frame(b"version\0\0\0\0\0", &vbody, checksum(&vbody));
    assert_eq!(Message::decode(&u), Err(DecodeError::InvalidUtf8));
}

#[test]
fn decode_takes_one_frame_from_a_stream() {
    let mut stream = Message::Pong(3).encode();
    let first = stream.len();
    stream.extend(Message::Verack.encode());
    assert_eq!(Message::decode(&stream), Ok((Message::Pong(3), first)));
    assert_eq!(Message::decode(&stream[first..]), Ok((Message::Verack, 24)));
}

#[test]
fn new_version_defaults() {
    let v = Version::new(v4(127, 0, 0, 1, 8233), v4(0, 0, 0, 0, 0));
    assert_eq!(v.version, 170_013);
    assert_eq!(v.services, 1);
    assert_eq!(v.addr_recv, NetAddr { services: 1, addr: v4(127, 0, 0, 1, 8233) });
    assert_eq!(v.user_agent, "");
    assert_eq!(v.start_height, 0);
    assert!(!v.relay);
    assert!(v.timestamp > 1_500_000_000);
}

#[test]
fn short_address_is_truncated() {
    assert_eq!(decode_addr(&[0u8; 25], 0), Err(DecodeError::Truncated));
    assert_eq!(decode_addr(&[0u8; 31], 5).map(|(_, end)| end), Ok(31));
}

#[test]
fn version_body_decodes_at_an_offset() {
    let v = sample_version("offset");
    let mut buf = vec![0xaa, 0xbb];
    v.encode_body(&mut buf);
    let end = buf.len();
    buf.push(0xcc);
    assert_eq!(Version::decode(&buf, 2), Ok((v, end)));
    assert_eq!(Version::decode(&buf[..end - 1], 2), Err(DecodeError::Truncated));
}
