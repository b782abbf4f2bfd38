use bitcoin::consensus::Encodable;

/// Plain SHA-256 through the bitcoin crate, as an owned byte vector.
fn ref_sha256(data: &[u8]) -> Vec<u8> {
    let h = <bitcoin::hashes::sha256::Hash as bitcoin::hashes::Hash>::hash(data);
    <bitcoin::hashes::sha256::Hash as bitcoin::hashes::Hash>::to_byte_array(h).to_vec()
}

use templatehash::sha_annex;
use templatehash::sha_outputs;
use templatehash::sha_sequences;
use templatehash::tagged_hash;
use templatehash::templatehash;
use templatehash::TemplateHash;
use templatehash::ToTemplateHash;
use templatehash::Transaction;
use templatehash::TransactionTemplate;
use templatehash::TxIn;
use templatehash::TxOut;

/// One committed-field vector: the fields, the input index and the annex.
struct Vector {
    version: u32,
    lock_time: u32,
    sequences: Vec<u32>,
    outputs: Vec<(u64, Vec<u8>)>,
    input_index: u32,
    annex: Option<Vec<u8>>,
}

fn template_of(v: &Vector) -> TransactionTemplate {
    TransactionTemplate {
        version: v.version,
        lock_time: v.lock_time,
        sequences: v.sequences.clone(),
        outputs: v
            .outputs
            .iter()
            .map(|(value, script)| TxOut { value: *value, script_pubkey: script.clone() })
            .collect(),
    }
}

fn transaction_of(v: &Vector) -> Transaction {
    Transaction {
        version: v.version,
        lock_time: v.lock_time,
        input: v.sequences.iter().map(|s| TxIn { sequence: *s }).collect(),
        output: v
            .outputs
            .iter()
            .map(|(value, script)| TxOut { value: *value, script_pubkey: script.clone() })
            .collect(),
    }
}

/// The expected digest, derived independently with the bitcoin crate's own
/// consensus encoders and SHA-256 engine, following the tagged-hash scheme:
/// SHA256(SHA256(tag) || SHA256(tag) || committed fields).
fn expected_templatehash(v: &Vector) -> Vec<u8> {
    let mut seq_bytes: Vec<u8> = Vec::new();
    for s in &v.sequences {
        bitcoin::Sequence(*s).consensus_encode(&mut seq_bytes).unwrap();
    }
    let sha_seq = ref_sha256(&seq_bytes);

    let mut out_bytes: Vec<u8> = Vec::new();
    for (value, script) in &v.outputs {
        let txo = bitcoin::TxOut {
            value: bitcoin::Amount::from_sat(*value),
            script_pubkey: bitcoin::ScriptBuf::from_bytes(script.clone()),
        };
        txo.consensus_encode(&mut out_bytes).unwrap();
    }
    let sha_out = ref_sha256(&out_bytes);

    let sha_ann = v.annex.as_ref().map(|a| {
        let mut ann_bytes: Vec<u8> = Vec::new();
        bitcoin::consensus::encode::VarInt(a.len() as u64)
            .consensus_encode(&mut ann_bytes)
            .unwrap();
        ann_bytes.extend_from_slice(a);
        ref_sha256(&ann_bytes)
    });

    let mut data: Vec<u8> = Vec::new();
    bitcoin::transaction::Version(v.version as i32).consensus_encode(&mut data).unwrap();
    bitcoin::absolute::LockTime::from_consensus(v.lock_time)
        .consensus_encode(&mut data)
        .unwrap();
    data.extend_from_slice(&sha_seq);
    data.extend_from_slice(&sha_out);
    data.push(if sha_ann.is_some() { 1 } else { 0 });
    v.input_index.consensus_encode(&mut data).unwrap();
    if let Some(sa) = sha_ann {
        data.extend_from_slice(&sa);
    }

    let tag_hash = ref_sha256(b"TemplateHash");
    let mut preimage: Vec<u8> = Vec::new();
    preimage.extend_from_slice(&tag_hash);
    preimage.extend_from_slice(&tag_hash);
    preimage.extend_from_slice(&data);
    ref_sha256(&preimage)
}

fn vectors() -> Vec<Vector> {
    vec![
        Vector {
            version: 2,
            lock_time: 0,
            sequences: vec![0, 42],
            outputs: vec![
                (424242, b"hello, world".to_vec()),
                (42, b"goodbye, world".to_vec()),
            ],
            input_index: 1,
            annex: None,
        },
        Vector {
            version: 1,
            lock_time: 500_000_000,
            sequences: vec![0xffff_ffff],
            outputs: vec![(21_000_000, vec![0x51])],
            input_index: 0,
            annex: Some(vec![0x50, 0x01, 0x02, 0x03]),
        },
        Vector {
            version: 3,
            lock_time: 812_345,
            sequences: vec![0xfffffffd, 0, 7],
            outputs: vec![],
            input_index: 2,
            annex: Some(vec![0x50]),
        },
    ]
}

#[test]
fn test_templatehash() {
    for v in vectors() {
        let tx = transaction_of(&v);
        let computed = tx.to_templatehash(v.input_index, v.annex.as_deref());
        assert_eq!(computed.as_bytes(), &expected_templatehash(&v));
    }
}

#[test]
fn test_templatehash_template_agrees_with_transaction() {
    for v in vectors() {
        let tx = transaction_of(&v);
        let t = template_of(&v);
        let from_tx = TemplateHash::from_transaction(&tx, v.input_index, v.annex.as_deref());
        let from_template = t.templatehash(v.input_index, v.annex.as_deref());
        assert_eq!(from_tx, from_template);
    }
}

#[test]
fn test_templatehash_low_level_agrees() {
    for v in vectors() {
        let t = template_of(&v);
        let high = t.templatehash(v.input_index, v.annex.as_deref());
        let low = templatehash(
            v.version,
            v.lock_time,
            sha_sequences(&t.sequences),
            sha_outputs(&t.outputs),
            v.input_index,
            v.annex.as_deref().map(sha_annex),
        );
        assert_eq!(high.as_bytes(), low.as_bytes());
    }
}

#[test]
fn test_determinism() {
    for v in vectors() {
        let t = template_of(&v);
        let h1 = t.templatehash(v.input_index, v.annex.as_deref());
        let h2 = t.templatehash(v.input_index, v.annex.as_deref());
        assert_eq!(h1, h2);
        assert_eq!(h1.as_bytes(), h2.as_bytes());
        assert_eq!(h1.to_hex(), h2.to_hex());
    }
}

#[test]
fn test_domain_separation() {
    let preimages: Vec<Vec<u8>> = vec![
        vec![],
        vec![0x00],
        b"TemplateHash".to_vec(),
        vec![0xab; 100],
    ];
    for p in preimages {
        let tagged = tagged_hash(&p);
        let plain = ref_sha256(&p);
        assert_ne!(tagged, plain);
    }
}

#[test]
fn test_annex_presence_sensitivity() {
    let t = TransactionTemplate {
        version: 2,
        lock_time: 0,
        sequences: vec![0xffff_fffe],
        outputs: vec![TxOut { value: 5000, script_pubkey: vec![0x6a] }],
    };
    let without = t.templatehash(0, None);
    let annexes: Vec<Vec<u8>> = vec![
        vec![0x50],
        vec![0x50, 0x00],
        vec![0x00; 32],
        vec![0x50; 77],
    ];
    for a in annexes {
        let with = t.templatehash(0, Some(&a));
        assert_ne!(without, with);
    }
}

#[test]
fn test_index_sensitivity() {
    let t = TransactionTemplate {
        version: 2,
        lock_time: 100,
        sequences: vec![1, 2, 3],
        outputs: vec![TxOut { value: 1, script_pubkey: vec![] }],
    };
    let h0 = t.templatehash(0, None);
    let h1 = t.templatehash(1, None);
    let h2 = t.templatehash(2, None);
    assert_ne!(h0, h1);
    assert_ne!(h0, h2);
    assert_ne!(h1, h2);
}
