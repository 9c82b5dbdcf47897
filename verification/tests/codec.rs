use base64_bytes::codec::{decode, encode, DecodeError, Encoded};

fn round_trips(bytes: Vec<u8>) {
    let human = encode(&bytes, true);
    let binary = encode(&bytes, false);
    let from_human = decode(human).unwrap();
    let from_binary = decode(binary).unwrap();
    assert_eq!(from_human, bytes);
    assert_eq!(from_binary, bytes);
    assert_eq!(from_human, from_binary);
}

#[test]
fn human_readable_encoding_is_base64_text() {
    match encode(&vec![0x00u8, 0x01, 0x02], true) {
        Encoded::Text(s) => assert_eq!(s, "AAEC"),
        Encoded::Bytes(_) => panic!("human-readable mode must produce text"),
    }
}

#[test]
fn human_readable_encoding_of_empty_is_empty_text() {
    match encode(&Vec::new(), true) {
        Encoded::Text(s) => assert_eq!(s, ""),
        Encoded::Bytes(_) => panic!("human-readable mode must produce text"),
    }
}

#[test]
fn binary_encoding_leaves_bytes_unchanged() {
    let bytes: Vec<u8> = vec![0xde, 0xad, 0xbe, 0xef, 0x00];
    match encode(&bytes, false) {
        Encoded::Bytes(b) => assert_eq!(b, bytes),
        Encoded::Text(_) => panic!("binary mode must produce raw bytes"),
    }
}

#[test]
fn base64_text_decodes_to_its_bytes() {
    let decoded = decode(Encoded::Text("AAEC".to_string())).unwrap();
    assert_eq!(decoded, vec![0x00u8, 0x01, 0x02]);
}

#[test]
fn malformed_base64_is_rejected() {
    let result = decode(Encoded::Text("not-valid-base64!".to_string()));
    match result {
        Err(DecodeError::InvalidBase64 { message }) => {
            assert!(message.starts_with("invalid base64:"));
        }
        Ok(_) => panic!("malformed base-64 must be rejected"),
    }
}

#[test]
fn truncated_base64_group_is_rejected() {
    assert!(decode(Encoded::Text("AAEC=".to_string())).is_err());
    assert!(decode(Encoded::Text("A".to_string())).is_err());
}

#[test]
fn missing_padding_is_rejected() {
    assert!(decode(Encoded::Text("AA".to_string())).is_err());
}

#[test]
fn round_trip_is_identity_for_many_lengths() {
    for len in [0usize, 1, 10, 1000, 65536] {
        let bytes: Vec<u8> = (0..len).map(|i| (i % 251) as u8).collect();
        round_trips(bytes);
    }
}

#[test]
fn round_trip_is_identity_for_all_single_bytes() {
    for b in 0..=255u8 {
        round_trips(vec![b]);
        round_trips(vec![b, b.wrapping_add(1)]);
    }
}

#[test]
fn both_modes_decode_to_the_same_content() {
    let bytes: Vec<u8> = vec![0xff, 0x00, 0x10, 0x20, 0x7f, 0x80];
    let human = decode(encode(&bytes, true)).unwrap();
    let binary = decode(encode(&bytes, false)).unwrap();
    assert_eq!(human, binary);
    assert_eq!(human, bytes);
}

#[test]
fn error_message_is_reachable() {
    let err = decode(Encoded::Text("****".to_string())).unwrap_err();
    let DecodeError::InvalidBase64 { message } = &err;
    assert_eq!(err.message(), message);
    assert!(!message.is_empty());
}
