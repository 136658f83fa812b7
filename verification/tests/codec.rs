use universal_nft::codec::{clone_bytes, decode_payload, encode_inbound, encode_outbound};
use universal_nft::errors::BridgeError;
use universal_nft::identity::Identity;

#[test]
fn decode_hand_built_payload() {
    // Recipient words 1..4, name "ab", symbol "c", empty uri.
    let mut p: Vec<u8> = Vec::new();
    for w in 1u64..5 {
        p.extend_from_slice(&[0, 0, 0, 0, 0, 0, 0, w as u8]);
    }
    p.extend_from_slice(&[0, 2, b'a', b'b']);
    p.extend_from_slice(&[0, 1, b'c']);
    p.extend_from_slice(&[0, 0]);
    let d = decode_payload(&p).unwrap();
    assert_eq!(d.recipient, Identity { w0: 1, w1: 2, w2: 3, w3: 4 });
    assert_eq!(d.name, b"ab".to_vec());
    assert_eq!(d.symbol, b"c".to_vec());
    assert_eq!(d.uri, Vec::<u8>::new());
}

#[test]
fn decode_recipient_big_endian() {
    let mut p = vec![0u8; 32];
    p[0] = 0x01;
    p[7] = 0x02;
    p[15] = 0x03;
    p.extend_from_slice(&[0, 0, 0, 0, 0, 0]);
    let d = decode_payload(&p).unwrap();
    assert_eq!(d.recipient.w0, 0x0100_0000_0000_0002);
    assert_eq!(d.recipient.w1, 3);
    assert_eq!(d.recipient.w2, 0);
    assert_eq!(d.recipient.w3, 0);
}

#[test]
fn decode_rejects_short_and_trailing_input() {
    assert_eq!(
        decode_payload(&vec![0u8; 33]).unwrap_err(),
        BridgeError::MalformedPayload
    );
    // A well-formed envelope with one byte appended is rejected.
    let mut p = vec![0u8; 38];
    assert!(decode_payload(&p).is_ok());
    p.push(0);
    assert_eq!(decode_payload(&p).unwrap_err(), BridgeError::MalformedPayload);
}

#[test]
fn decode_rejects_truncated_field() {
    // Name length says 5 but only 3 name bytes follow.
    let mut p = vec![0u8; 32];
    p.extend_from_slice(&[0, 5, b'x', b'y', b'z']);
    assert_eq!(decode_payload(&p).unwrap_err(), BridgeError::MalformedPayload);
}

#[test]
fn inbound_round_trip() {
    let recipient = Identity {
        w0: 0xdead_beef_0102_0304,
        w1: 5,
        w2: u64::MAX,
        w3: 7,
    };
    let name = b"Zeta NFT".to_vec();
    let symbol = b"ZNFT".to_vec();
    let uri = b"https://zetachain.com/nft.json".to_vec();
    let p = encode_inbound(recipient, &name, &symbol, &uri);
    let d = decode_payload(&p).unwrap();
    assert_eq!(d.recipient, recipient);
    assert_eq!(d.name, name);
    assert_eq!(d.symbol, symbol);
    assert_eq!(d.uri, uri);
}

#[test]
fn outbound_payload_exact_bytes() {
    let holder = Identity {
        w0: 0x0102_0304_0506_0708,
        w1: 0,
        w2: 1,
        w3: 0xffff_ffff_ffff_ffff,
    };
    let p = encode_outbound(0x1122_3344_5566_7788, holder);
    assert_eq!(p.len(), 40);
    assert_eq!(&p[0..8], &[0x11, 0x22, 0x33, 0x44, 0x55, 0x66, 0x77, 0x88]);
    assert_eq!(&p[8..16], &[0x01, 0x02, 0x03, 0x04, 0x05, 0x06, 0x07, 0x08]);
    assert_eq!(&p[16..24], &[0u8; 8]);
    assert_eq!(&p[24..32], &[0, 0, 0, 0, 0, 0, 0, 1]);
    assert_eq!(&p[32..40], &[0xff; 8]);
}

#[test]
fn clone_bytes_copies() {
    let v = vec![1u8, 2, 3];
    assert_eq!(clone_bytes(&v), v);
    assert_eq!(clone_bytes(&Vec::new()), Vec::<u8>::new());
}
