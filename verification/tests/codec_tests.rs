use bitcoin::consensus::Encodable;

/// Plain SHA-256 through the bitcoin crate, as an owned byte vector.
fn ref_sha256(data: &[u8]) -> Vec<u8> {
    let h = <bitcoin::hashes::sha256::Hash as bitcoin::hashes::Hash>::hash(data);
    <bitcoin::hashes::sha256::Hash as bitcoin::hashes::Hash>::to_byte_array(h).to_vec()
}

use templatehash::decode_compact_size;
use templatehash::encode_compact_size;
use templatehash::sha_annex;
use templatehash::sha_outputs;
use templatehash::sha_sequences;
use templatehash::TemplateHash;
use templatehash::TransactionTemplate;
use templatehash::TxOut;

/// The hex bytes of a string of hex digits; panics on bad input (test helper).
fn unhex(s: &str) -> Vec<u8> {
    assert!(s.len() % 2 == 0);
    let digits: Vec<u8> = s
        .bytes()
        .map(|b| match b {
            b'0'..=b'9' => b - b'0',
            b'a'..=b'f' => b - b'a' + 10,
            _ => panic!("not a lowercase hex digit"),
        })
        .collect();
    digits.chunks(2).map(|p| p[0] * 16 + p[1]).collect()
}

#[test]
fn test_compact_size_boundaries() {
    let cases: Vec<(u64, Vec<u8>)> = vec![
        (0, vec![0x00]),
        (1, vec![0x01]),
        (0xfc, vec![0xfc]),
        (0xfd, vec![0xfd, 0xfd, 0x00]),
        (0xffff, vec![0xfd, 0xff, 0xff]),
        (0x10000, vec![0xfe, 0x00, 0x00, 0x01, 0x00]),
        (0xffff_ffff, vec![0xfe, 0xff, 0xff, 0xff, 0xff]),
        (0x1_0000_0000, vec![0xff, 0x00, 0x00, 0x00, 0x00, 0x01, 0x00, 0x00, 0x00]),
    ];
    for (n, expected) in cases {
        let e = encode_compact_size(n);
        assert_eq!(e, expected);

        // The encoding agrees with the bitcoin crate's own.
        let mut reference: Vec<u8> = Vec::new();
        bitcoin::consensus::encode::VarInt(n).consensus_encode(&mut reference).unwrap();
        assert_eq!(e, reference);

        // And it round-trips.
        let d = decode_compact_size(&e);
        assert_eq!(d, Some((n, e.len())));
    }
}

#[test]
fn test_compact_size_decode_rejects() {
    // Too short.
    assert_eq!(decode_compact_size(&[]), None);
    assert_eq!(decode_compact_size(&[0xfd, 0x01]), None);
    assert_eq!(decode_compact_size(&[0xfe, 0x01, 0x02, 0x03]), None);
    assert_eq!(decode_compact_size(&[0xff, 0x01, 0x02, 0x03, 0x04, 0x05, 0x06, 0x07]), None);
    // Non-minimal encodings.
    assert_eq!(decode_compact_size(&[0xfd, 0xfc, 0x00]), None);
    assert_eq!(decode_compact_size(&[0xfe, 0xff, 0xff, 0x00, 0x00]), None);
    assert_eq!(
        decode_compact_size(&[0xff, 0xff, 0xff, 0xff, 0xff, 0x00, 0x00, 0x00, 0x00]),
        None,
    );
}

#[test]
fn test_compact_size_boundary_digests() {
    // The compact-size prefix reaches the digests through the script and the
    // annex: a boundary-length payload must digest like its reference
    // encoding.
    for len in [0usize, 1, 0xfc, 0xfd, 0xffff, 0x10000] {
        let payload = vec![0x77u8; len];

        let ours = sha_annex(&payload);
        let mut reference: Vec<u8> = Vec::new();
        bitcoin::consensus::encode::VarInt(len as u64)
            .consensus_encode(&mut reference)
            .unwrap();
        reference.extend_from_slice(&payload);
        let expected = ref_sha256(&reference);
        assert_eq!(ours, expected);

        let outputs = vec![TxOut { value: 9, script_pubkey: payload }];
        let ours_out = sha_outputs(&outputs);
        let mut out_ref: Vec<u8> = Vec::new();
        let txo = bitcoin::TxOut {
            value: bitcoin::Amount::from_sat(9),
            script_pubkey: bitcoin::ScriptBuf::from_bytes(outputs[0].script_pubkey.clone()),
        };
        txo.consensus_encode(&mut out_ref).unwrap();
        let expected_out = ref_sha256(&out_ref);
        assert_eq!(ours_out, expected_out);
    }
}

#[test]
fn test_empty_collections() {
    // SHA-256 of the empty byte string.
    let empty_digest = unhex("e3b0c44298fc1c149afbf4c8996fb92427ae41e4649b934ca495991b7852b855");
    assert_eq!(sha_sequences(&vec![]), empty_digest);
    assert_eq!(sha_outputs(&vec![]), empty_digest);

    // A template with zero outputs is a valid input.
    let t = TransactionTemplate {
        version: 2,
        lock_time: 0,
        sequences: vec![0],
        outputs: vec![],
    };
    let h = t.templatehash(0, None);
    assert_eq!(h.as_bytes().len(), 32);
}

#[test]
fn test_hex_render_and_parse() {
    let t = TransactionTemplate {
        version: 2,
        lock_time: 0,
        sequences: vec![3],
        outputs: vec![TxOut { value: 1000, script_pubkey: vec![0x00, 0x14] }],
    };
    let h = t.templatehash(0, None);
    let hex = h.to_hex();
    assert_eq!(hex.len(), 64);
    assert!(hex.bytes().all(|b| b.is_ascii_hexdigit() && !b.is_ascii_uppercase()));

    let parsed = TemplateHash::from_hex(&hex).expect("round trip");
    assert_eq!(parsed, h);

    // A known rendering: the digest bytes come back out as the same hex.
    let known = "e3b0c44298fc1c149afbf4c8996fb92427ae41e4649b934ca495991b7852b855";
    let parsed_known = TemplateHash::from_hex(known).expect("valid hex");
    assert_eq!(parsed_known.as_bytes(), &unhex(known));
    assert_eq!(parsed_known.to_hex(), known);
}

#[test]
fn test_from_hex_rejects() {
    // Wrong length.
    assert!(TemplateHash::from_hex("").is_none());
    assert!(TemplateHash::from_hex("ab").is_none());
    assert!(TemplateHash::from_hex(&"a".repeat(63)).is_none());
    assert!(TemplateHash::from_hex(&"a".repeat(65)).is_none());
    // Not lowercase hex.
    assert!(TemplateHash::from_hex(&"A".repeat(64)).is_none());
    assert!(TemplateHash::from_hex(&"g".repeat(64)).is_none());
    let mut s = "a".repeat(63);
    s.push(' ');
    assert!(TemplateHash::from_hex(&s).is_none());
}
