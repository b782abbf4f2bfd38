//! Template types, the three field digesters, and the template-hash combiner.
//!
//! A template commits to a transaction's version, lock time, every input's
//! sequence number and every output. The committed fields are folded into
//! three intermediate plain SHA-256 digests, then combined with the input
//! index and the optional annex digest under the tagged hash.

use vstd::prelude::*;
use vstd::bytes::*;
use crate::codec::push_bytes;
use crate::codec::push_compact_size;
use crate::codec::append_hex_byte;
use crate::codec::spec_compact_size;
use crate::codec::spec_hex;
use crate::codec::spec_parse_hex;
use crate::codec::hex_value;
use vstd::string::StrSliceExecFns;
use crate::hashing::sha256;
use crate::hashing::sha256_of;
use crate::hashing::spec_tagged_hash;
use crate::hashing::tagged_hash;

verus! {

/// A transaction output: an amount in satoshis and an output script.
pub struct TxOut {
    pub value: u64,
    pub script_pubkey: Vec<u8>,
}

/// The slice of a transaction input that the template commits to: its
/// sequence number.
pub struct TxIn {
    pub sequence: u32,
}

/// A transaction reduced to the fields this crate reads: version, lock time,
/// inputs and outputs.
pub struct Transaction {
    pub version: u32,
    pub lock_time: u32,
    pub input: Vec<TxIn>,
    pub output: Vec<TxOut>,
}

/// A hand-built template: exactly the committed fields, so callers need not
/// invent dummy values for data the template hash does not commit to.
pub struct TransactionTemplate {
    pub version: u32,
    pub lock_time: u32,
    pub sequences: Vec<u32>,
    pub outputs: Vec<TxOut>,
}

/// The concatenated 4-byte little-endian encodings of the sequence numbers,
/// in list order.
pub open spec fn spec_sequences_bytes(seqs: Seq<u32>) -> Seq<u8>
    decreases seqs.len(),
{
    if seqs.len() == 0 {
        Seq::empty()
    } else {
        spec_u32_to_le_bytes(seqs[0]) + spec_sequences_bytes(seqs.skip(1))
    }
}

/// The consensus encoding of one output: the amount in 8 little-endian bytes,
/// then the script prefixed by its compact-size length.
pub open spec fn spec_txout_bytes(o: TxOut) -> Seq<u8> {
    spec_u64_to_le_bytes(o.value) + spec_compact_size(o.script_pubkey@.len() as u64)
        + o.script_pubkey@
}

/// The concatenated encodings of the outputs, in list order.
pub open spec fn spec_outputs_bytes(outs: Seq<TxOut>) -> Seq<u8>
    decreases outs.len(),
{
    if outs.len() == 0 {
        Seq::empty()
    } else {
        spec_txout_bytes(outs[0]) + spec_outputs_bytes(outs.skip(1))
    }
}

/// The annex bytes prefixed by their compact-size length.
pub open spec fn spec_annex_bytes(annex: Seq<u8>) -> Seq<u8> {
    spec_compact_size(annex.len() as u64) + annex
}

/// The combiner's preimage: version, lock time, the two list digests, a
/// one-byte annex-presence flag, the input index, and the annex digest only
/// when present.
pub open spec fn spec_template_hash_bytes(
    version: u32,
    lock_time: u32,
    sha_seq: Seq<u8>,
    sha_out: Seq<u8>,
    input_index: u32,
    sha_ann: Option<Seq<u8>>,
) -> Seq<u8> {
    spec_u32_to_le_bytes(version) + spec_u32_to_le_bytes(lock_time) + sha_seq + sha_out + seq![
        if sha_ann is Some {
            1u8
        } else {
            0u8
        },
    ] + spec_u32_to_le_bytes(input_index) + (match sha_ann {
        Some(a) => a,
        None => Seq::empty(),
    })
}

/// The template hash from pre-computed sub-digests: the tagged hash of the
/// combiner's preimage.
pub open spec fn spec_templatehash(
    version: u32,
    lock_time: u32,
    sha_seq: Seq<u8>,
    sha_out: Seq<u8>,
    input_index: u32,
    sha_ann: Option<Seq<u8>>,
) -> Seq<u8> {
    spec_tagged_hash(
        spec_template_hash_bytes(version, lock_time, sha_seq, sha_out, input_index, sha_ann),
    )
}

/// The whole pipeline on the committed fields: the three field digests,
/// combined with the input index and the annex digest under the tagged hash.
pub open spec fn spec_template_digest(
    version: u32,
    lock_time: u32,
    sequences: Seq<u32>,
    outputs: Seq<TxOut>,
    input_index: u32,
    annex: Option<Seq<u8>>,
) -> Seq<u8> {
    spec_templatehash(
        version,
        lock_time,
        sha256_of(spec_sequences_bytes(sequences)),
        sha256_of(spec_outputs_bytes(outputs)),
        input_index,
        match annex {
            Some(a) => Some(sha256_of(spec_annex_bytes(a))),
            None => None,
        },
    )
}

/// The view of an optional annex argument.
pub open spec fn spec_annex_arg(annex: Option<&[u8]>) -> Option<Seq<u8>> {
    match annex {
        Some(a) => Some(a@),
        None => None,
    }
}

/// A 32-byte template-hash digest, compared by byte equality.
#[derive(Debug)]
pub struct TemplateHash {
    bytes: Vec<u8>,
}

impl View for TemplateHash {
    type V = Seq<u8>;

    closed spec fn view(&self) -> Seq<u8> {
        self.bytes@
    }
}

impl PartialEq for TemplateHash {
    fn eq(&self, other: &TemplateHash) -> (r: bool) {
        let r = self.bytes == other.bytes;
        proof {
            if r {
                assert(self.bytes@ =~= other.bytes@);
            }
        }
        r
    }
}

impl vstd::std_specs::cmp::PartialEqSpecImpl for TemplateHash {
    open spec fn obeys_eq_spec() -> bool {
        true
    }

    open spec fn eq_spec(&self, other: &TemplateHash) -> bool {
        self@ == other@
    }
}

impl TemplateHash {
    /// The digest bytes.
    pub fn as_bytes(&self) -> (r: &Vec<u8>)
        ensures
            r@ == self@,
    {
        &self.bytes
    }

    /// The digest as a lowercase hex string, two characters per byte.
    pub fn to_hex(&self) -> (r: String)
        ensures
            r@ == spec_hex(self@),
    {
        let mut s = String::new();
        let mut i: usize = 0;
        while i < self.bytes.len()
            invariant
                i <= self.bytes@.len(),
                s@ == spec_hex(self.bytes@.take(i as int)),
            decreases self.bytes@.len() - i,
        {
            let b = self.bytes[i];
            append_hex_byte(&mut s, b);
            proof {
                crate::codec::lemma_spec_hex_push(self.bytes@.take(i as int), b);
                assert(self.bytes@.take(i + 1 as int) =~= self.bytes@.take(i as int).push(
                    self.bytes@[i as int],
                ));
            }
            i = i + 1;
        }
        proof {
            assert(self.bytes@.take(self.bytes@.len() as int) =~= self.bytes@);
        }
        s
    }

    /// Parses a 64-character lowercase hex string into a digest: `Some`
    /// exactly when the string has 64 characters, all lowercase hex digits.
    pub fn from_hex(s: &str) -> (r: Option<TemplateHash>)
        ensures
            match r {
                Some(h) => s@.len() == 64 && spec_parse_hex(s@) == Some(h@),
                None => s@.len() != 64 || spec_parse_hex(s@) is None,
            },
    {
        let len = s.unicode_len();
        if len != 64 {
            return None;
        }
        let mut bytes: Vec<u8> = Vec::new();
        let mut i: usize = 0;
        proof {
            assert(s@.skip(0) =~= s@);
            if spec_parse_hex(s@) is Some {
                assert(Seq::<u8>::empty() + spec_parse_hex(s@).unwrap() =~= spec_parse_hex(
                    s@,
                ).unwrap());
            }
        }
        while i < 64
            invariant
                i % 2 == 0,
                i <= 64,
                s@.len() == 64,
                bytes@.len() == i / 2,
                (match spec_parse_hex(s@.skip(i as int)) {
                    Some(rest) => spec_parse_hex(s@) == Some(bytes@ + rest),
                    None => spec_parse_hex(s@) is None,
                }),
            decreases 64 - i,
        {
            let c0 = s.get_char(i);
            let c1 = s.get_char(i + 1);
            let tail = Ghost(s@.skip(i as int));
            proof {
                assert(tail@[0] == s@[i as int]);
                assert(tail@[1] == s@[i as int + 1]);
                assert(tail@.skip(2) =~= s@.skip(i as int + 2));
            }
            let h = match hex_value(c0) {
                Some(h) => h,
                None => {
                    return None;
                },
            };
            let l = match hex_value(c1) {
                Some(l) => l,
                None => {
                    return None;
                },
            };
            let prev = Ghost(bytes@);
            bytes.push(h * 16 + l);
            proof {
                let b = (h * 16 + l) as u8;
                assert(spec_parse_hex(tail@) == (match spec_parse_hex(s@.skip(i as int + 2)) {
                    Some(rest) => Some(seq![b] + rest),
                    None => Option::<Seq<u8>>::None,
                }));
                if spec_parse_hex(s@.skip(i as int + 2)) is Some {
                    let rest = spec_parse_hex(s@.skip(i as int + 2)).unwrap();
                    assert(prev@ + (seq![b] + rest) =~= bytes@ + rest);
                }
            }
            i = i + 2;
        }
        proof {
            assert(s@.skip(64) =~= Seq::<char>::empty());
            assert(spec_parse_hex(s@.skip(64)) == Some(Seq::<u8>::empty()));
            assert(bytes@ + Seq::<u8>::empty() =~= bytes@);
        }
        Some(TemplateHash { bytes })
    }

    /// The template hash of a transaction, for one input and its optional
    /// annex.
    pub fn from_transaction(tx: &Transaction, input_index: u32, annex: Option<&[u8]>) -> (r:
        TemplateHash)
        requires
            (input_index as int) < tx.input@.len(),
        ensures
            r@ == spec_template_digest(
                tx.version,
                tx.lock_time,
                tx.input@.map_values(|t: TxIn| t.sequence),
                tx.output@,
                input_index,
                spec_annex_arg(annex),
            ),
    {
        tx.to_templatehash(input_index, annex)
    }
}

/// The plain SHA-256 digest over the concatenated 4-byte little-endian
/// sequence numbers of all inputs, in list order.
pub fn sha_sequences(sequences: &Vec<u32>) -> (r: Vec<u8>)
    ensures
        r@ == sha256_of(spec_sequences_bytes(sequences@)),
        r@.len() == 32,
{
    let mut data: Vec<u8> = Vec::new();
    let mut i: usize = 0;
    while i < sequences.len()
        invariant
            i <= sequences@.len(),
            data@ == spec_sequences_bytes(sequences@.take(i as int)),
        decreases sequences@.len() - i,
    {
        let bs = u32_to_le_bytes(sequences[i]);
        push_bytes(&mut data, bs.as_slice());
        proof {
            lemma_sequences_bytes_push(sequences@.take(i as int), sequences@[i as int]);
            assert(sequences@.take(i + 1 as int) =~= sequences@.take(i as int).push(
                sequences@[i as int],
            ));
        }
        i = i + 1;
    }
    proof {
        assert(sequences@.take(sequences@.len() as int) =~= sequences@);
    }
    sha256(data.as_slice())
}

/// The plain SHA-256 digest over the concatenated encodings of all outputs,
/// in list order.
pub fn sha_outputs(outputs: &Vec<TxOut>) -> (r: Vec<u8>)
    ensures
        r@ == sha256_of(spec_outputs_bytes(outputs@)),
        r@.len() == 32,
{
    let mut data: Vec<u8> = Vec::new();
    let mut i: usize = 0;
    while i < outputs.len()
        invariant
            i <= outputs@.len(),
            data@ == spec_outputs_bytes(outputs@.take(i as int)),
        decreases outputs@.len() - i,
    {
        let o = &outputs[i];
        let vb = u64_to_le_bytes(o.value);
        push_bytes(&mut data, vb.as_slice());
        push_compact_size(&mut data, o.script_pubkey.len() as u64);
        push_bytes(&mut data, o.script_pubkey.as_slice());
        proof {
            lemma_outputs_bytes_push(outputs@.take(i as int), outputs@[i as int]);
            assert(outputs@.take(i + 1 as int) =~= outputs@.take(i as int).push(
                outputs@[i as int],
            ));
            assert(data@ =~= spec_outputs_bytes(outputs@.take(i + 1 as int)));
        }
        i = i + 1;
    }
    proof {
        assert(outputs@.take(outputs@.len() as int) =~= outputs@);
    }
    sha256(data.as_slice())
}

/// The plain SHA-256 digest over the annex bytes prefixed by their
/// compact-size length. The caller passes the annex bytes exactly as they are
/// to be committed, marker byte included; nothing of their content is checked.
pub fn sha_annex(annex: &[u8]) -> (r: Vec<u8>)
    ensures
        r@ == sha256_of(spec_annex_bytes(annex@)),
        r@.len() == 32,
{
    let mut data: Vec<u8> = Vec::new();
    push_compact_size(&mut data, annex.len() as u64);
    push_bytes(&mut data, annex);
    proof {
        assert(data@ =~= spec_annex_bytes(annex@));
    }
    sha256(data.as_slice())
}

/// The template hash from the components of a template, for callers who have
/// the three sub-digests already.
pub fn templatehash(
    version: u32,
    lock_time: u32,
    sha_sequences: Vec<u8>,
    sha_outputs: Vec<u8>,
    input_index: u32,
    sha_annex: Option<Vec<u8>>,
) -> (r: TemplateHash)
    ensures
        r@ == spec_templatehash(
            version,
            lock_time,
            sha_sequences@,
            sha_outputs@,
            input_index,
            (match sha_annex {
                Some(a) => Some(a@),
                None => None,
            }),
        ),
{
    let mut data: Vec<u8> = Vec::new();
    let vb = u32_to_le_bytes(version);
    push_bytes(&mut data, vb.as_slice());
    let lb = u32_to_le_bytes(lock_time);
    push_bytes(&mut data, lb.as_slice());
    push_bytes(&mut data, sha_sequences.as_slice());
    push_bytes(&mut data, sha_outputs.as_slice());
    match &sha_annex {
        Some(_) => data.push(1),
        None => data.push(0),
    }
    let ib = u32_to_le_bytes(input_index);
    push_bytes(&mut data, ib.as_slice());
    match &sha_annex {
        Some(a) => push_bytes(&mut data, a.as_slice()),
        None => (),
    }
    proof {
        assert(data@ =~= spec_template_hash_bytes(
            version,
            lock_time,
            sha_sequences@,
            sha_outputs@,
            input_index,
            (match sha_annex {
                Some(a) => Some(a@),
                None => None,
            }),
        ));
    }
    TemplateHash { bytes: tagged_hash(data.as_slice()) }
}

/// The capability the combiner needs of its callers: a reduction to the four
/// committed fields, and a template hash computed from them.
pub trait ToTemplateHash: Sized {
    /// The committed version field.
    spec fn committed_version(&self) -> u32;

    /// The committed lock-time field.
    spec fn committed_lock_time(&self) -> u32;

    /// The committed sequence numbers of all inputs, in order.
    spec fn committed_sequences(&self) -> Seq<u32>;

    /// The committed outputs, in order.
    spec fn committed_outputs(&self) -> Seq<TxOut>;

    /// The template hash for one input index and its optional annex. The
    /// index must name an input: the sequence and output digests still cover
    /// every input and output.
    fn to_templatehash(&self, input_index: u32, annex: Option<&[u8]>) -> (r: TemplateHash)
        requires
            (input_index as int) < self.committed_sequences().len(),
        ensures
            r@ == spec_template_digest(
                self.committed_version(),
                self.committed_lock_time(),
                self.committed_sequences(),
                self.committed_outputs(),
                input_index,
                spec_annex_arg(annex),
            ),
    ;
}

impl ToTemplateHash for Transaction {
    open spec fn committed_version(&self) -> u32 {
        self.version
    }

    open spec fn committed_lock_time(&self) -> u32 {
        self.lock_time
    }

    open spec fn committed_sequences(&self) -> Seq<u32> {
        self.input@.map_values(|t: TxIn| t.sequence)
    }

    open spec fn committed_outputs(&self) -> Seq<TxOut> {
        self.output@
    }

    fn to_templatehash(&self, input_index: u32, annex: Option<&[u8]>) -> (r: TemplateHash) {
        let mut seqs: Vec<u32> = Vec::new();
        let mut i: usize = 0;
        while i < self.input.len()
            invariant
                i <= self.input@.len(),
                seqs@ == self.input@.take(i as int).map_values(|t: TxIn| t.sequence),
            decreases self.input@.len() - i,
        {
            seqs.push(self.input[i].sequence);
            proof {
                assert(self.input@.take(i + 1 as int).map_values(|t: TxIn| t.sequence)
                    =~= self.input@.take(i as int).map_values(|t: TxIn| t.sequence).push(
                    self.input@[i as int].sequence,
                ));
            }
            i = i + 1;
        }
        proof {
            assert(self.input@.take(self.input@.len() as int) =~= self.input@);
        }
        let ss = sha_sequences(&seqs);
        let so = sha_outputs(&self.output);
        let sa = match annex {
            Some(a) => Some(sha_annex(a)),
            None => None,
        };
        templatehash(self.version, self.lock_time, ss, so, input_index, sa)
    }
}

impl ToTemplateHash for TransactionTemplate {
    open spec fn committed_version(&self) -> u32 {
        self.version
    }

    open spec fn committed_lock_time(&self) -> u32 {
        self.lock_time
    }

    open spec fn committed_sequences(&self) -> Seq<u32> {
        self.sequences@
    }

    open spec fn committed_outputs(&self) -> Seq<TxOut> {
        self.outputs@
    }

    fn to_templatehash(&self, input_index: u32, annex: Option<&[u8]>) -> (r: TemplateHash) {
        let ss = sha_sequences(&self.sequences);
        let so = sha_outputs(&self.outputs);
        let sa = match annex {
            Some(a) => Some(sha_annex(a)),
            None => None,
        };
        templatehash(self.version, self.lock_time, ss, so, input_index, sa)
    }
}

impl TransactionTemplate {
    /// The template hash of this template, for one input and its optional
    /// annex.
    pub fn templatehash(&self, input_index: u32, annex: Option<&[u8]>) -> (r: TemplateHash)
        requires
            (input_index as int) < self.sequences@.len(),
        ensures
            r@ == spec_template_digest(
                self.version,
                self.lock_time,
                self.sequences@,
                self.outputs@,
                input_index,
                spec_annex_arg(annex),
            ),
    {
        self.to_templatehash(input_index, annex)
    }
}

/// Law: folding one more sequence number appends exactly its encoding.
pub proof fn lemma_sequences_bytes_push(seqs: Seq<u32>, x: u32)
    ensures
        spec_sequences_bytes(seqs.push(x)) == spec_sequences_bytes(seqs) + spec_u32_to_le_bytes(x),
    decreases seqs.len(),
{
    if seqs.len() == 0 {
        assert(seqs.push(x)[0] == x);
        assert(seqs.push(x).skip(1) =~= Seq::<u32>::empty());
        assert(spec_sequences_bytes(seqs.push(x).skip(1)) == Seq::<u8>::empty());
        assert(spec_sequences_bytes(seqs) == Seq::<u8>::empty());
        assert(spec_sequences_bytes(seqs.push(x)) =~= spec_sequences_bytes(seqs)
            + spec_u32_to_le_bytes(x));
    } else {
        lemma_sequences_bytes_push(seqs.skip(1), x);
        assert(seqs.push(x).skip(1) =~= seqs.skip(1).push(x));
        assert(seqs.push(x)[0] == seqs[0]);
        assert(spec_sequences_bytes(seqs.push(x)) =~= spec_sequences_bytes(seqs)
            + spec_u32_to_le_bytes(x));
    }
}

/// Law: folding one more output appends exactly its encoding.
pub proof fn lemma_outputs_bytes_push(outs: Seq<TxOut>, x: TxOut)
    ensures
        spec_outputs_bytes(outs.push(x)) == spec_outputs_bytes(outs) + spec_txout_bytes(x),
    decreases outs.len(),
{
    if outs.len() == 0 {
        assert(outs.push(x)[0] == x);
        assert(outs.push(x).skip(1) =~= Seq::<TxOut>::empty());
        assert(spec_outputs_bytes(outs.push(x).skip(1)) == Seq::<u8>::empty());
        assert(spec_outputs_bytes(outs) == Seq::<u8>::empty());
        assert(spec_outputs_bytes(outs.push(x)) =~= spec_outputs_bytes(outs)
            + spec_txout_bytes(x));
    } else {
        lemma_outputs_bytes_push(outs.skip(1), x);
        assert(outs.push(x).skip(1) =~= outs.skip(1).push(x));
        assert(outs.push(x)[0] == outs[0]);
        assert(spec_outputs_bytes(outs.push(x)) =~= spec_outputs_bytes(outs)
            + spec_txout_bytes(x));
    }
}

/// Law: the template hash is a function of the committed fields, the input
/// index and the annex alone — any two results computed from equal inputs
/// have equal bytes.
pub proof fn lemma_templatehash_deterministic(
    h1: TemplateHash,
    h2: TemplateHash,
    version: u32,
    lock_time: u32,
    sequences: Seq<u32>,
    outputs: Seq<TxOut>,
    input_index: u32,
    annex: Option<Seq<u8>>,
)
    requires
        h1@ == spec_template_digest(version, lock_time, sequences, outputs, input_index, annex),
        h2@ == spec_template_digest(version, lock_time, sequences, outputs, input_index, annex),
    ensures
        h1@ == h2@,
{
}

/// Law: the combiner's preimage with an annex digest present differs from the
/// preimage with it absent, for every digest value — the two byte strings
/// differ at the presence flag. The hashed preimages differ; nothing is
/// claimed of the SHA-256 digests themselves.
pub proof fn lemma_annex_presence_changes_preimage(
    version: u32,
    lock_time: u32,
    sha_seq: Seq<u8>,
    sha_out: Seq<u8>,
    input_index: u32,
    ann: Seq<u8>,
)
    ensures
        spec_template_hash_bytes(version, lock_time, sha_seq, sha_out, input_index, None)
            != spec_template_hash_bytes(
            version,
            lock_time,
            sha_seq,
            sha_out,
            input_index,
            Some(ann),
        ),
{
    lemma_auto_spec_u32_to_from_le_bytes();
    let p0 = spec_template_hash_bytes(version, lock_time, sha_seq, sha_out, input_index, None);
    let p1 = spec_template_hash_bytes(
        version,
        lock_time,
        sha_seq,
        sha_out,
        input_index,
        Some(ann),
    );
    let off = 8 + sha_seq.len() + sha_out.len();
    assert(p0[off as int] == 0u8);
    assert(p1[off as int] == 1u8);
}

/// Law: two distinct input indexes give distinct combiner preimages when the
/// other committed data agree. The hashed preimages differ; nothing is
/// claimed of the SHA-256 digests themselves.
pub proof fn lemma_index_changes_preimage(
    version: u32,
    lock_time: u32,
    sha_seq: Seq<u8>,
    sha_out: Seq<u8>,
    i1: u32,
    i2: u32,
    ann: Option<Seq<u8>>,
)
    requires
        i1 != i2,
    ensures
        spec_template_hash_bytes(version, lock_time, sha_seq, sha_out, i1, ann)
            != spec_template_hash_bytes(version, lock_time, sha_seq, sha_out, i2, ann),
{
    lemma_auto_spec_u32_to_from_le_bytes();
    let p1 = spec_template_hash_bytes(version, lock_time, sha_seq, sha_out, i1, ann);
    let p2 = spec_template_hash_bytes(version, lock_time, sha_seq, sha_out, i2, ann);
    let off = (9 + sha_seq.len() + sha_out.len()) as int;
    assert(p1.subrange(off, off + 4) =~= spec_u32_to_le_bytes(i1));
    assert(p2.subrange(off, off + 4) =~= spec_u32_to_le_bytes(i2));
    if p1 == p2 {
        assert(spec_u32_from_le_bytes(spec_u32_to_le_bytes(i1)) == i1);
        assert(spec_u32_from_le_bytes(spec_u32_to_le_bytes(i2)) == i2);
        assert(false);
    }
}

/// Law: with no sequences and no outputs the digested byte strings are empty,
/// so each list digest is the SHA-256 of the empty byte string.
pub proof fn lemma_empty_digests()
    ensures
        spec_sequences_bytes(Seq::<u32>::empty()) == Seq::<u8>::empty(),
        spec_outputs_bytes(Seq::<TxOut>::empty()) == Seq::<u8>::empty(),
        sha256_of(spec_sequences_bytes(Seq::<u32>::empty())) == sha256_of(Seq::<u8>::empty()),
        sha256_of(spec_outputs_bytes(Seq::<TxOut>::empty())) == sha256_of(Seq::<u8>::empty()),
{
}

} // verus!
