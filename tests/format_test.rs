use clipass::codec::{push_le, read_le};
use clipass::entries::{decode_entries, encode_entries};
use clipass::error::ClipassError;
use clipass::header::{KdfParams, VaultHeader, HEADER_SIZE, NONCE_SIZE, SALT_SIZE, VERSION};

fn sample_header() -> VaultHeader {
    VaultHeader::new(
        (0u8..32).collect(),
        (100u8..112).collect(),
        0x0102_0304_0506_0708,
        0x1112_1314_1516_1718,
        KdfParams { memory_cost: 65536, time_cost: 3, parallelism: 4 },
    )
}

#[test]
fn little_endian_bytes() {
    let mut buf = vec![9u8];
    push_le(&mut buf, 0x0102_0304, 4);
    assert_eq!(buf, vec![9, 4, 3, 2, 1]);
    assert_eq!(read_le(&buf, 1, 4), 0x0102_0304);
    let mut wide = Vec::new();
    push_le(&mut wide, u64::MAX, 8);
    assert_eq!(wide, vec![0xff; 8]);
    assert_eq!(read_le(&wide, 0, 8), u64::MAX);
    assert_eq!(read_le(&wide, 3, 0), 0);
}

#[test]
fn default_kdf_params() {
    let k = KdfParams::default();
    assert_eq!(k, KdfParams { memory_cost: 65536, time_cost: 3, parallelism: 4 });
}

#[test]
fn header_layout() {
    let bytes = sample_header().serialize();
    assert_eq!(bytes.len(), HEADER_SIZE);
    assert_eq!(HEADER_SIZE, 80);
    assert_eq!(&bytes[0..4], b"CLIP");
    assert_eq!(&bytes[4..6], &[3, 0]);
    assert_eq!(&bytes[6..8], &[80, 0]);
    assert_eq!(&bytes[8..16], &[8, 7, 6, 5, 4, 3, 2, 1]);
    assert_eq!(&bytes[16..24], &[0x18, 0x17, 0x16, 0x15, 0x14, 0x13, 0x12, 0x11]);
    assert_eq!(&bytes[24..28], &[0, 0, 1, 0]);
    assert_eq!(&bytes[28..32], &[3, 0, 0, 0]);
    assert_eq!(&bytes[32..36], &[4, 0, 0, 0]);
    assert_eq!(bytes[36..68].to_vec(), (0u8..32).collect::<Vec<u8>>());
    assert_eq!(bytes[68..80].to_vec(), (100u8..112).collect::<Vec<u8>>());
}

#[test]
fn header_reads_back() {
    let mut bytes = sample_header().serialize();
    bytes.extend_from_slice(b"trailing ciphertext");
    let h = VaultHeader::deserialize(&bytes).expect("valid header");
    assert_eq!(h.created_at, 0x0102_0304_0506_0708);
    assert_eq!(h.modified_at, 0x1112_1314_1516_1718);
    assert_eq!(h.kdf, KdfParams { memory_cost: 65536, time_cost: 3, parallelism: 4 });
    assert_eq!(h.salt.len(), SALT_SIZE);
    assert_eq!(h.salt, (0u8..32).collect::<Vec<u8>>());
    assert_eq!(h.nonce.len(), NONCE_SIZE);
    assert_eq!(h.nonce, (100u8..112).collect::<Vec<u8>>());
}

#[test]
fn header_size_field_is_not_checked() {
    let mut bytes = sample_header().serialize();
    bytes[6] = 200;
    assert!(VaultHeader::deserialize(&bytes).is_ok());
}

#[test]
fn header_rejects_bad_magic_version_and_length() {
    let good = sample_header().serialize();
    let mut bad_magic = good.clone();
    bad_magic[0] = b'X';
    assert!(matches!(VaultHeader::deserialize(&bad_magic), Err(ClipassError::HeaderError(_))));
    let mut bad_version = good.clone();
    bad_version[4] = (VERSION - 1) as u8;
    assert!(matches!(VaultHeader::deserialize(&bad_version), Err(ClipassError::HeaderError(_))));
    let short = good[..HEADER_SIZE - 1].to_vec();
    assert!(matches!(VaultHeader::deserialize(&short), Err(ClipassError::HeaderError(_))));
    assert!(matches!(VaultHeader::deserialize(&Vec::new()), Err(ClipassError::HeaderError(_))));
}

#[test]
fn entries_encode_as_a_json_object() {
    let entries = vec![
        ("b".to_string(), "2".to_string()),
        ("a".to_string(), "say \"hi\"".to_string()),
    ];
    let json = encode_entries(&entries);
    assert_eq!(String::from_utf8(json).unwrap(), r#"{"a":"say \"hi\"","b":"2"}"#);
    assert_eq!(encode_entries(&Vec::new()), b"{}".to_vec());
}

#[test]
fn entries_decode_from_a_json_object() {
    let mut pairs = decode_entries(r#"{"x":"y","e":"é"}"#.as_bytes()).expect("valid json");
    pairs.sort();
    assert_eq!(
        pairs,
        vec![("e".to_string(), "\u{e9}".to_string()), ("x".to_string(), "y".to_string())]
    );
    assert!(decode_entries(b"not json").is_none());
    assert!(decode_entries(br#"{"x":1}"#).is_none());
    assert!(decode_entries(br#"["x","y"]"#).is_none());
}
