//! Deterministic, domain-separated template-hash commitments.
//!
//! A template hash commits to a fixed subset of a transaction's fields —
//! version, lock time, every input's sequence number, every output — together
//! with one input index and an optional witness annex. The digest is a tagged
//! hash: SHA-256 applied to a preimage seeded with the double hash of the
//! fixed ASCII tag `"TemplateHash"`, which separates this commitment scheme
//! from unrelated uses of SHA-256.

mod codec;
mod hashing;
mod template;

pub use codec::decode_compact_size;
pub use codec::encode_compact_size;
pub use codec::lemma_compact_size_round_trip;
pub use codec::spec_compact_size;
pub use codec::spec_decode_compact_size;
pub use codec::hex_digit;
pub use codec::lemma_hex_round_trip;
pub use codec::spec_hex;
pub use codec::spec_hex_value;
pub use codec::spec_parse_hex;
pub use hashing::lemma_tag_seeding_changes_preimage;
pub use hashing::sha256_of;
pub use hashing::spec_tag;
pub use hashing::spec_tagged_hash;
pub use hashing::tagged_hash;
pub use template::lemma_annex_presence_changes_preimage;
pub use template::lemma_empty_digests;
pub use template::lemma_index_changes_preimage;
pub use template::lemma_templatehash_deterministic;
pub use template::sha_annex;
pub use template::sha_outputs;
pub use template::sha_sequences;
pub use template::spec_annex_arg;
pub use template::spec_annex_bytes;
pub use template::spec_outputs_bytes;
pub use template::spec_sequences_bytes;
pub use template::spec_template_digest;
pub use template::spec_template_hash_bytes;
pub use template::spec_templatehash;
pub use template::spec_txout_bytes;
pub use template::templatehash;
pub use template::TemplateHash;
pub use template::ToTemplateHash;
pub use template::Transaction;
pub use template::TransactionTemplate;
pub use template::TxIn;
pub use template::TxOut;
