//! The tagged-hash engine: plain SHA-256 through a trusted wrapper, and the
//! domain-separated construction `SHA256(SHA256(tag) ‖ SHA256(tag) ‖ data)`
//! with the fixed ASCII tag `"TemplateHash"`.

use vstd::prelude::*;
use crate::codec::push_bytes;

verus! {

/// The 32-byte SHA-256 digest of a byte sequence.
pub uninterp spec fn sha256_of(data: Seq<u8>) -> Seq<u8>;

/// Relies on `bitcoin::hashes::sha256::Hash::hash` (the `Hash` trait's default
/// `hash`, which feeds the bytes to a fresh SHA-256 engine and finalizes it):
/// the 32-byte digest is a function of the input bytes alone.
#[verifier::external_body]
pub(crate) fn sha256(data: &[u8]) -> (r: Vec<u8>)
    ensures
        r@ == sha256_of(data@),
        r@.len() == 32,
{
    let h = <bitcoin::hashes::sha256::Hash as bitcoin::hashes::Hash>::hash(data);
    <bitcoin::hashes::sha256::Hash as bitcoin::hashes::Hash>::to_byte_array(h).to_vec()
}

/// The ASCII bytes of the fixed tag `"TemplateHash"`.
pub open spec fn spec_tag() -> Seq<u8> {
    seq![
        0x54u8,
        0x65u8,
        0x6du8,
        0x70u8,
        0x6cu8,
        0x61u8,
        0x74u8,
        0x65u8,
        0x48u8,
        0x61u8,
        0x73u8,
        0x68u8,
    ]
}

/// The tag bytes as an owned vector.
fn tag_bytes() -> (r: Vec<u8>)
    ensures
        r@ == spec_tag(),
{
    let mut r: Vec<u8> = Vec::new();
    r.push(0x54);
    r.push(0x65);
    r.push(0x6d);
    r.push(0x70);
    r.push(0x6c);
    r.push(0x61);
    r.push(0x74);
    r.push(0x65);
    r.push(0x48);
    r.push(0x61);
    r.push(0x73);
    r.push(0x68);
    proof {
        assert(r@ =~= spec_tag());
    }
    r
}

/// The domain-separated digest of `data`: SHA-256 over a preimage seeded with
/// the hash of the tag, twice, before the data itself.
pub open spec fn spec_tagged_hash(data: Seq<u8>) -> Seq<u8> {
    sha256_of(sha256_of(spec_tag()) + sha256_of(spec_tag()) + data)
}

/// Law: the tag seeding changes what is hashed — the tagged-hash preimage of
/// `data` is never `data` itself, since the two copies of the 32-byte tag
/// digest prepend 64 bytes. The digests of the two preimages are not related
/// here: nothing can be claimed of SHA-256's values themselves.
pub proof fn lemma_tag_seeding_changes_preimage(data: Seq<u8>)
    requires
        sha256_of(spec_tag()).len() == 32,
    ensures
        sha256_of(spec_tag()) + sha256_of(spec_tag()) + data != data,
{
    assert((sha256_of(spec_tag()) + sha256_of(spec_tag()) + data).len() == 64 + data.len());
}

/// Computes the tagged hash of `data` under the fixed tag `"TemplateHash"`.
pub fn tagged_hash(data: &[u8]) -> (r: Vec<u8>)
    ensures
        r@ == spec_tagged_hash(data@),
        r@.len() == 32,
{
    let tag = tag_bytes();
    let tag_hash = sha256(tag.as_slice());
    let mut preimage: Vec<u8> = Vec::new();
    push_bytes(&mut preimage, tag_hash.as_slice());
    push_bytes(&mut preimage, tag_hash.as_slice());
    push_bytes(&mut preimage, data);
    proof {
        assert(preimage@ =~= sha256_of(spec_tag()) + sha256_of(spec_tag()) + data@);
    }
    sha256(preimage.as_slice())
}

} // verus!
