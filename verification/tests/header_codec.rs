use forward_optimal::endpoint::Endpoint;
use forward_optimal::header::decode_header;
use forward_optimal::header::encode_header;

const SIGNATURE: [u8; 12] = [
    0x0d, 0x0a, 0x0d, 0x0a, 0x00, 0x0d, 0x0a, 0x51, 0x55, 0x49, 0x54, 0x0a,
];

#[test]
fn encode_v4_pair_shape() {
    let src = Endpoint::V4 { ip: [192, 168, 0, 10], port: 50000 };
    let dst = Endpoint::V4 { ip: [10, 0, 0, 1], port: 8080 };
    let h = encode_header(&src, &dst);
    assert_eq!(h.len(), 28);
    assert_eq!(&h[0..12], &SIGNATURE);
    assert_eq!(h[12], 0x21);
    assert_eq!(h[13], 0x11);
    assert_eq!(h[14], 0x00);
    assert_eq!(h[15], 0x0c);
    assert_eq!(&h[16..20], &[192, 168, 0, 10]);
    assert_eq!(&h[20..24], &[10, 0, 0, 1]);
    assert_eq!(&h[24..26], &50000u16.to_be_bytes());
    assert_eq!(&h[26..28], &8080u16.to_be_bytes());
}

#[test]
fn encode_v6_pair_shape() {
    let sip: [u8; 16] = [0x20, 0x01, 0x0d, 0xb8, 0, 0, 0, 0, 0, 0, 0, 0, 0, 0, 0, 1];
    let dip: [u8; 16] = [0xfe, 0x80, 0, 0, 0, 0, 0, 0, 0, 0, 0, 0, 0, 0, 0, 2];
    let src = Endpoint::V6 { ip: sip, port: 443 };
    let dst = Endpoint::V6 { ip: dip, port: 65535 };
    let h = encode_header(&src, &dst);
    assert_eq!(h.len(), 52);
    assert_eq!(&h[0..12], &SIGNATURE);
    assert_eq!(h[12], 0x21);
    assert_eq!(h[13], 0x21);
    assert_eq!(h[14], 0x00);
    assert_eq!(h[15], 0x24);
    assert_eq!(&h[16..32], &sip);
    assert_eq!(&h[32..48], &dip);
    assert_eq!(&h[48..50], &[0x01, 0xbb]);
    assert_eq!(&h[50..52], &[0xff, 0xff]);
}

#[test]
fn encode_mismatched_families_degrades() {
    let src = Endpoint::V4 { ip: [127, 0, 0, 1], port: 12345 };
    let dst = Endpoint::V6 { ip: [0; 16], port: 80 };
    let h = encode_header(&src, &dst);
    assert_eq!(h.len(), 16);
    assert_eq!(&h[0..12], &SIGNATURE);
    assert_eq!(h[12], 0x21);
    assert_eq!(h[13], 0x00);
    assert_eq!(h[14], 0x00);
    assert_eq!(h[15], 0x00);

    let other = encode_header(&dst, &src);
    assert_eq!(other.len(), 16);
    assert_eq!(other[13], 0x00);
}

#[test]
fn round_trip_v4() {
    let src = Endpoint::V4 { ip: [1, 2, 3, 4], port: 80 };
    let dst = Endpoint::V4 { ip: [5, 6, 7, 8], port: 443 };
    let h = encode_header(&src, &dst);
    let decoded = decode_header(&h).expect("a v4 header must decode");
    assert_eq!(decoded.0, src);
    assert_eq!(decoded.1, dst);
}

#[test]
fn round_trip_v6() {
    let sip: [u8; 16] = [1, 2, 3, 4, 5, 6, 7, 8, 9, 10, 11, 12, 13, 14, 15, 16];
    let dip: [u8; 16] = [0xff; 16];
    let src = Endpoint::V6 { ip: sip, port: 1 };
    let dst = Endpoint::V6 { ip: dip, port: 65534 };
    let h = encode_header(&src, &dst);
    let decoded = decode_header(&h).expect("a v6 header must decode");
    assert_eq!(decoded.0, src);
    assert_eq!(decoded.1, dst);
}

#[test]
fn decode_rejects_short_input() {
    assert!(decode_header(&[]).is_none());
    assert!(decode_header(&[0x0d, 0x0a, 0x0d, 0x0a]).is_none());
}

#[test]
fn decode_rejects_bad_signature() {
    let src = Endpoint::V4 { ip: [1, 2, 3, 4], port: 80 };
    let dst = Endpoint::V4 { ip: [5, 6, 7, 8], port: 443 };
    let mut h = encode_header(&src, &dst);
    h[0] = 0x0e;
    assert!(decode_header(&h).is_none());
}

#[test]
fn decode_rejects_unspecified_form() {
    let src = Endpoint::V4 { ip: [1, 2, 3, 4], port: 80 };
    let dst = Endpoint::V6 { ip: [0; 16], port: 443 };
    let h = encode_header(&src, &dst);
    assert!(decode_header(&h).is_none());
}

#[test]
fn decode_rejects_truncated_payload() {
    let src = Endpoint::V4 { ip: [1, 2, 3, 4], port: 80 };
    let dst = Endpoint::V4 { ip: [5, 6, 7, 8], port: 443 };
    let mut h = encode_header(&src, &dst);
    h.truncate(27);
    assert!(decode_header(&h).is_none());
}
