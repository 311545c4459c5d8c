//! The wire codec for gossip payloads and block-list responses.
//!
//! Every value the core puts on the wire is laid out here as plain bytes:
//! little-endian 64-bit integers, raw 32-byte roots, one byte per
//! aggregation bit, and the 96 serialized signature bytes. Decoding accepts
//! exactly the byte strings that encoding produces, and the payload byte
//! form of a message determines the message.

use vstd::prelude::*;
use vstd::bytes::{
    lemma_auto_spec_u64_to_from_le_bytes, spec_u64_from_le_bytes, spec_u64_to_le_bytes,
    u64_from_le_bytes, u64_to_le_bytes,
};
use crate::attestation::{Attestation, AttestationData};
use crate::chain::BeaconBlock;
use crate::signature::{Signature, TSignature, SIGNATURE_BYTES_LEN};
use crate::types::Hash256;

verus! {

/// Byte length of an encoded beacon block.
pub const BLOCK_BYTES_LEN: usize = 200;

/// Append `x` to `out` as 8 little-endian bytes.
pub fn append_u64(out: &mut Vec<u8>, x: u64)
    ensures
        final(out)@ == old(out)@ + spec_u64_to_le_bytes(x),
{
    let bytes = u64_to_le_bytes(x);
    let mut i: usize = 0;
    while i < bytes.len()
        invariant
            i <= bytes@.len(),
            bytes@ == spec_u64_to_le_bytes(x),
            out@ == old(out)@ + bytes@.take(i as int),
        decreases bytes@.len() - i,
    {
        out.push(bytes[i]);
        proof {
            assert(old(out)@ + bytes@.take(i as int) + seq![bytes@[i as int]] =~= old(out)@
                + bytes@.take(i as int + 1));
        }
        i = i + 1;
    }
    proof {
        assert(bytes@.take(bytes@.len() as int) =~= bytes@);
    }
}

/// Append the bytes of `s` to `out`.
pub fn append_bytes(out: &mut Vec<u8>, s: &[u8])
    ensures
        final(out)@ == old(out)@ + s@,
{
    let mut i: usize = 0;
    while i < s.len()
        invariant
            i <= s@.len(),
            out@ == old(out)@ + s@.take(i as int),
        decreases s@.len() - i,
    {
        out.push(s[i]);
        proof {
            assert(old(out)@ + s@.take(i as int) + seq![s@[i as int]] =~= old(out)@ + s@.take(
                i as int + 1,
            ));
        }
        i = i + 1;
    }
    proof {
        assert(s@.take(s@.len() as int) =~= s@);
    }
}

/// Read 8 little-endian bytes at `off` as a 64-bit integer.
pub fn read_u64(data: &[u8], off: usize) -> (r: u64)
    requires
        off + 8 <= data@.len(),
    ensures
        r == spec_u64_from_le_bytes(data@.subrange(off as int, off as int + 8)),
{
    let len = data.len();
    u64_from_le_bytes(&data[off..off + 8])
}

/// Read 32 bytes at `off` as a hash.
pub fn read_hash(data: &[u8], off: usize) -> (r: Hash256)
    requires
        off + 32 <= data@.len(),
    ensures
        r@ == data@.subrange(off as int, off as int + 32),
{
    let len = data.len();
    let mut bytes: [u8; 32] = [0u8; 32];
    let mut i: usize = 0;
    while i < 32
        invariant
            i <= 32,
            len == data@.len(),
            off + 32 <= len,
            bytes@.len() == 32,
            forall|j: int| 0 <= j < i ==> bytes@[j] == data@[off + j],
        decreases 32 - i,
    {
        bytes[i] = data[off + i];
        i = i + 1;
    }
    proof {
        assert(bytes@ =~= data@.subrange(off as int, off as int + 32));
    }
    Hash256::from_bytes(bytes)
}

/// The payload byte form of a beacon block: slot, parent root, state root,
/// signing root, signature bytes.
pub open spec fn spec_block_payload<P, T: TSignature<P>>(b: BeaconBlock<P, T>) -> Seq<u8> {
    spec_u64_to_le_bytes(b.slot) + b.parent_root@ + b.state_root@ + b.root@
        + b.signature.spec_point().spec_bytes()
}

/// Encode one block.
pub fn encode_block<P, T: TSignature<P>>(b: &BeaconBlock<P, T>) -> (r: Vec<u8>)
    ensures
        r@ == spec_block_payload(*b),
        r@.len() == BLOCK_BYTES_LEN,
{
    let mut out: Vec<u8> = Vec::new();
    append_u64(&mut out, b.slot);
    append_bytes(&mut out, b.parent_root.bytes.as_slice());
    append_bytes(&mut out, b.state_root.bytes.as_slice());
    append_bytes(&mut out, b.root.bytes.as_slice());
    let sig = b.signature.serialize();
    append_bytes(&mut out, sig.as_slice());
    proof {
        lemma_auto_spec_u64_to_from_le_bytes();
        assert(Seq::<u8>::empty() + spec_u64_to_le_bytes(b.slot) =~= spec_u64_to_le_bytes(b.slot));
        assert(out@ =~= spec_block_payload(*b));
    }
    out
}

/// Why a payload failed to decode.
#[derive(Clone, Copy, Debug, PartialEq, Eq, Structural)]
pub enum DecodeError {
    /// The payload length does not fit the expected layout.
    InvalidLength,
    /// A bitfield byte is neither zero nor one.
    InvalidBitfield,
    /// The signature bytes do not deserialize.
    InvalidSignature,
    /// No topic of the message is recognized.
    UnknownTopic,
}

/// Decode one block: accepts exactly the byte strings `encode_block` makes.
pub fn decode_block<P, T: TSignature<P>>(data: &[u8]) -> (r: Result<BeaconBlock<P, T>, DecodeError>)
    ensures
        r is Ok <==> data@.len() == BLOCK_BYTES_LEN && T::spec_valid_bytes(
            data@.subrange(104, 200),
        ),
        r matches Ok(b) ==> spec_block_payload(b) == data@,
{
    if data.len() != BLOCK_BYTES_LEN {
        return Err(DecodeError::InvalidLength);
    }
    let slot = read_u64(data, 0);
    let parent_root = read_hash(data, 8);
    let state_root = read_hash(data, 40);
    let root = read_hash(data, 72);
    let signature = match Signature::<P, T>::deserialize(&data[104..200]) {
        Ok(s) => s,
        Err(_) => {
            return Err(DecodeError::InvalidSignature);
        },
    };
    let b = BeaconBlock { slot, parent_root, state_root, root, signature };
    proof {
        lemma_auto_spec_u64_to_from_le_bytes();
        assert(spec_u64_to_le_bytes(spec_u64_from_le_bytes(data@.subrange(0, 8))) == data@.subrange(
            0,
            8,
        ));
        assert(spec_block_payload(b) =~= data@);
    }
    Ok(b)
}

/// The byte form of a list of blocks: each block's payload, concatenated.
pub open spec fn spec_blocks_payload<P, T: TSignature<P>>(blocks: Seq<BeaconBlock<P, T>>) -> Seq<
    u8,
>
    decreases blocks.len(),
{
    if blocks.len() == 0 {
        Seq::empty()
    } else {
        spec_blocks_payload(blocks.drop_last()) + spec_block_payload(blocks.last())
    }
}

/// Encode a list of blocks for a block-range or recent-blocks response.
pub fn encode_blocks<P, T: TSignature<P>>(blocks: &Vec<BeaconBlock<P, T>>) -> (r: Vec<u8>)
    ensures
        r@ == spec_blocks_payload(blocks@),
{
    let mut out: Vec<u8> = Vec::new();
    let mut i: usize = 0;
    while i < blocks.len()
        invariant
            i <= blocks@.len(),
            out@ == spec_blocks_payload(blocks@.take(i as int)),
        decreases blocks@.len() - i,
    {
        let piece = encode_block(&blocks[i]);
        append_bytes(&mut out, piece.as_slice());
        proof {
            assert(blocks@.take(i as int + 1).drop_last() =~= blocks@.take(i as int));
            assert(blocks@.take(i as int + 1).last() == blocks@[i as int]);
        }
        i = i + 1;
    }
    proof {
        assert(blocks@.take(blocks@.len() as int) =~= blocks@);
    }
    out
}

/// One byte per aggregation bit: one for a set bit, zero for a clear one.
pub open spec fn spec_bits_bytes(bits: Seq<bool>) -> Seq<u8> {
    Seq::new(
        bits.len(),
        |i: int|
            if bits[i] {
                1u8
            } else {
                0u8
            },
    )
}

/// Fixed part of an encoded attestation: everything but the bitfield.
pub const ATTESTATION_FIXED_BYTES_LEN: usize = 152;

/// The payload byte form of an attestation: attested root, target epoch,
/// committee id, bit count, one byte per bit, signature bytes.
pub open spec fn spec_attestation_payload<P, T: TSignature<P>>(a: Attestation<P, T>) -> Seq<u8> {
    a.data.beacon_block_root@ + spec_u64_to_le_bytes(a.data.target_epoch) + spec_u64_to_le_bytes(
        a.data.committee_id,
    ) + spec_u64_to_le_bytes(a.aggregation_bits@.len() as u64) + spec_bits_bytes(
        a.aggregation_bits@,
    ) + a.signature.spec_point().spec_bytes()
}

/// Encode one attestation.
pub fn encode_attestation<P, T: TSignature<P>>(a: &Attestation<P, T>) -> (r: Vec<u8>)
    requires
        a.aggregation_bits@.len() <= u64::MAX,
    ensures
        r@ == spec_attestation_payload(*a),
{
    let mut out: Vec<u8> = Vec::new();
    append_bytes(&mut out, a.data.beacon_block_root.bytes.as_slice());
    append_u64(&mut out, a.data.target_epoch);
    append_u64(&mut out, a.data.committee_id);
    append_u64(&mut out, a.aggregation_bits.len() as u64);
    let ghost mid = out@;
    let mut i: usize = 0;
    proof {
        assert(spec_bits_bytes(a.aggregation_bits@.take(0)) =~= Seq::<u8>::empty());
        assert(out@ =~= mid + spec_bits_bytes(a.aggregation_bits@.take(0)));
    }
    while i < a.aggregation_bits.len()
        invariant
            i <= a.aggregation_bits@.len(),
            out@ == mid + spec_bits_bytes(a.aggregation_bits@.take(i as int)),
        decreases a.aggregation_bits@.len() - i,
    {
        let byte: u8 = if a.aggregation_bits[i] {
            1
        } else {
            0
        };
        out.push(byte);
        proof {
            assert(mid + spec_bits_bytes(a.aggregation_bits@.take(i as int)) + seq![byte] =~= mid
                + spec_bits_bytes(a.aggregation_bits@.take(i as int + 1)));
        }
        i = i + 1;
    }
    proof {
        assert(a.aggregation_bits@.take(a.aggregation_bits@.len() as int)
            =~= a.aggregation_bits@);
    }
    let sig = a.signature.serialize();
    append_bytes(&mut out, sig.as_slice());
    proof {
        assert(out@ =~= spec_attestation_payload(*a));
    }
    out
}

/// Whether `data` is a well-formed block payload (for signature backend `T`).
pub open spec fn spec_block_payload_ok<P, T: TSignature<P>>(data: Seq<u8>) -> bool {
    data.len() == BLOCK_BYTES_LEN && T::spec_valid_bytes(data.subrange(104, 200))
}

/// Whether `data` is a well-formed attestation payload: the bit count
/// matches the length, every bit byte is zero or one, and the signature
/// bytes deserialize.
pub open spec fn spec_attestation_payload_ok<P, T: TSignature<P>>(data: Seq<u8>) -> bool {
    &&& data.len() >= ATTESTATION_FIXED_BYTES_LEN
    &&& spec_u64_from_le_bytes(data.subrange(48, 56)) == data.len()
        - ATTESTATION_FIXED_BYTES_LEN
    &&& forall|i: int| 56 <= i < data.len() - 96 ==> data[i] == 0u8 || data[i] == 1u8
    &&& T::spec_valid_bytes(data.subrange(data.len() - 96, data.len() as int))
}

/// Decode one attestation: accepts exactly the byte strings
/// `encode_attestation` makes.
pub fn decode_attestation<P, T: TSignature<P>>(data: &[u8]) -> (r: Result<
    Attestation<P, T>,
    DecodeError,
>)
    ensures
        r is Ok <==> spec_attestation_payload_ok::<P, T>(data@),
        r matches Ok(a) ==> spec_attestation_payload(a) == data@,
{
    let len = data.len();
    if len < ATTESTATION_FIXED_BYTES_LEN {
        return Err(DecodeError::InvalidLength);
    }
    let beacon_block_root = read_hash(data, 0);
    let target_epoch = read_u64(data, 32);
    let committee_id = read_u64(data, 40);
    let n = read_u64(data, 48);
    let nbits = len - ATTESTATION_FIXED_BYTES_LEN;
    if n != (nbits as u64) {
        return Err(DecodeError::InvalidLength);
    }
    let mut bits: Vec<bool> = Vec::new();
    let mut i: usize = 0;
    while i < nbits
        invariant
            i <= nbits,
            len == data@.len(),
            nbits == len - ATTESTATION_FIXED_BYTES_LEN,
            len >= ATTESTATION_FIXED_BYTES_LEN,
            bits@.len() == i,
            forall|j: int| 0 <= j < i ==> #[trigger] data@[56 + j] == 0u8 || data@[56 + j] == 1u8,
            forall|j: int|
                0 <= j < i ==> #[trigger] bits@[j] == (data@[56 + j] == 1u8),
        decreases nbits - i,
    {
        let byte = data[56 + i];
        if byte != 0 && byte != 1 {
            return Err(DecodeError::InvalidBitfield);
        }
        bits.push(byte == 1);
        i = i + 1;
    }
    let signature = match Signature::<P, T>::deserialize(&data[len - 96..len]) {
        Ok(s) => s,
        Err(_) => {
            return Err(DecodeError::InvalidSignature);
        },
    };
    let a = Attestation {
        aggregation_bits: bits,
        data: AttestationData { beacon_block_root, target_epoch, committee_id },
        signature,
    };
    proof {
        lemma_auto_spec_u64_to_from_le_bytes();
        assert(spec_u64_to_le_bytes(spec_u64_from_le_bytes(data@.subrange(32, 40)))
            == data@.subrange(32, 40));
        assert(spec_u64_to_le_bytes(spec_u64_from_le_bytes(data@.subrange(40, 48)))
            == data@.subrange(40, 48));
        assert(spec_u64_to_le_bytes(spec_u64_from_le_bytes(data@.subrange(48, 56)))
            == data@.subrange(48, 56));
        assert(spec_bits_bytes(a.aggregation_bits@) =~= data@.subrange(56, data@.len() - 96));
        assert(spec_attestation_payload(a) =~= data@);
    }
    Ok(a)
}

/// A decoded application payload, tagged by the kind of topic it rides on.
pub enum PubsubMessage<P, T: TSignature<P>> {
    Block(BeaconBlock<P, T>),
    Attestation(Attestation<P, T>),
}

/// The payload byte form of a pubsub message.
pub open spec fn spec_pubsub_payload<P, T: TSignature<P>>(m: PubsubMessage<P, T>) -> Seq<u8> {
    match m {
        PubsubMessage::Block(b) => spec_block_payload(b),
        PubsubMessage::Attestation(a) => spec_attestation_payload(a),
    }
}

/// The kind of payload a topic announces.
#[derive(Clone, Copy, Debug, PartialEq, Eq, Structural)]
pub enum GossipKind {
    Block,
    Attestation,
}

/// The kind of a pubsub message.
pub open spec fn spec_pubsub_kind<P, T: TSignature<P>>(m: PubsubMessage<P, T>) -> GossipKind {
    match m {
        PubsubMessage::Block(_) => GossipKind::Block,
        PubsubMessage::Attestation(_) => GossipKind::Attestation,
    }
}

/// The codec for gossip payloads, keyed on the topic strings the host
/// configured for blocks and attestations.
pub struct GossipCodec {
    pub block_topic: Vec<u8>,
    pub attestation_topic: Vec<u8>,
}

/// The kind named by the first recognized topic of the list, if any.
pub open spec fn spec_first_kind(codec: &GossipCodec, topics: Seq<Seq<u8>>) -> Option<GossipKind>
    decreases topics.len(),
{
    if topics.len() == 0 {
        None
    } else if topics[0] == codec.block_topic@ {
        Some(GossipKind::Block)
    } else if topics[0] == codec.attestation_topic@ {
        Some(GossipKind::Attestation)
    } else {
        spec_first_kind(codec, topics.drop_first())
    }
}

/// Whether a message on `topics` with payload `data` decodes: some topic
/// is recognized and the payload is well formed for the kind it names.
pub open spec fn spec_decodable<P, T: TSignature<P>>(
    codec: &GossipCodec,
    topics: Seq<Seq<u8>>,
    data: Seq<u8>,
) -> bool {
    match spec_first_kind(codec, topics) {
        Some(GossipKind::Block) => spec_block_payload_ok::<P, T>(data),
        Some(GossipKind::Attestation) => spec_attestation_payload_ok::<P, T>(data),
        None => false,
    }
}

/// The views of a list of topics.
pub open spec fn spec_topic_views(topics: Seq<Vec<u8>>) -> Seq<Seq<u8>> {
    topics.map_values(|t: Vec<u8>| t@)
}

impl GossipCodec {
    /// Encode a message once; the same payload goes out on every topic.
    pub fn encode<P, T: TSignature<P>>(&self, message: &PubsubMessage<P, T>) -> (r: Vec<u8>)
        requires
            message matches PubsubMessage::Attestation(a) ==> a.aggregation_bits@.len()
                <= u64::MAX,
        ensures
            r@ == spec_pubsub_payload(*message),
    {
        match message {
            PubsubMessage::Block(b) => encode_block(b),
            PubsubMessage::Attestation(a) => encode_attestation(a),
        }
    }

    /// Decode `data` against a topic list: the first recognized topic
    /// picks the payload kind. Succeeds exactly when some topic is
    /// recognized and the payload is well formed for that kind.
    pub fn decode<P, T: TSignature<P>>(&self, topics: &Vec<Vec<u8>>, data: &Vec<u8>) -> (r: Result<
        PubsubMessage<P, T>,
        DecodeError,
    >)
        ensures
            r is Ok <==> spec_decodable::<P, T>(self, spec_topic_views(topics@), data@),
            r matches Ok(m) ==> {
                &&& spec_pubsub_payload(m) == data@
                &&& spec_first_kind(self, spec_topic_views(topics@)) == Some(spec_pubsub_kind(m))
            },
    {
        let ghost views = spec_topic_views(topics@);
        let mut i: usize = 0;
        proof {
            assert(views.skip(0) =~= views);
        }
        while i < topics.len()
            invariant
                i <= topics@.len(),
                views == spec_topic_views(topics@),
                spec_first_kind(self, views) == spec_first_kind(self, views.skip(i as int)),
            decreases topics@.len() - i,
        {
            proof {
                assert(views.skip(i as int).drop_first() =~= views.skip(i as int + 1));
                assert(views.skip(i as int)[0] == topics@[i as int]@);
            }
            if crate::types::bytes_eq(topics[i].as_slice(), self.block_topic.as_slice()) {
                return match decode_block(data.as_slice()) {
                    Ok(b) => Ok(PubsubMessage::Block(b)),
                    Err(e) => Err(e),
                };
            }
            if crate::types::bytes_eq(topics[i].as_slice(), self.attestation_topic.as_slice()) {
                return match decode_attestation(data.as_slice()) {
                    Ok(a) => Ok(PubsubMessage::Attestation(a)),
                    Err(e) => Err(e),
                };
            }
            i = i + 1;
        }
        proof {
            assert(views.skip(views.len() as int) =~= Seq::<Seq<u8>>::empty());
        }
        Err(DecodeError::UnknownTopic)
    }
}

/// Equal block payloads mean equal blocks: the payload determines every
/// field, the signature through the backend's injective serialization.
pub proof fn lemma_block_payload_injective<P, T: TSignature<P>>(
    a: BeaconBlock<P, T>,
    b: BeaconBlock<P, T>,
)
    requires
        spec_block_payload(a) == spec_block_payload(b),
        a.signature.spec_point().spec_bytes().len() == 96,
        b.signature.spec_point().spec_bytes().len() == 96,
    ensures
        a == b,
{
    lemma_auto_spec_u64_to_from_le_bytes();
    let pa = spec_block_payload(a);
    let pb = spec_block_payload(b);
    assert(pa.subrange(0, 8) =~= spec_u64_to_le_bytes(a.slot));
    assert(pb.subrange(0, 8) =~= spec_u64_to_le_bytes(b.slot));
    assert(a.slot == b.slot) by {
        assert(spec_u64_from_le_bytes(spec_u64_to_le_bytes(a.slot)) == a.slot);
        assert(spec_u64_from_le_bytes(spec_u64_to_le_bytes(b.slot)) == b.slot);
    }
    assert(pa.subrange(8, 40) =~= a.parent_root@);
    assert(pb.subrange(8, 40) =~= b.parent_root@);
    assert(a.parent_root.bytes =~= b.parent_root.bytes);
    assert(pa.subrange(40, 72) =~= a.state_root@);
    assert(pb.subrange(40, 72) =~= b.state_root@);
    assert(a.state_root.bytes =~= b.state_root.bytes);
    assert(pa.subrange(72, 104) =~= a.root@);
    assert(pb.subrange(72, 104) =~= b.root@);
    assert(a.root.bytes =~= b.root.bytes);
    assert(pa.subrange(104, 200) =~= a.signature.spec_point().spec_bytes());
    assert(pb.subrange(104, 200) =~= b.signature.spec_point().spec_bytes());
    crate::signature::lemma_signature_injective(&a.signature, &b.signature);
}

/// Equal attestation payloads mean the same attestation, up to the
/// bitfield being compared by contents.
pub proof fn lemma_attestation_payload_injective<P, T: TSignature<P>>(
    a: Attestation<P, T>,
    b: Attestation<P, T>,
)
    requires
        spec_attestation_payload(a) == spec_attestation_payload(b),
        a.signature.spec_point().spec_bytes().len() == 96,
        b.signature.spec_point().spec_bytes().len() == 96,
        a.aggregation_bits@.len() <= u64::MAX,
        b.aggregation_bits@.len() <= u64::MAX,
    ensures
        a.data == b.data,
        a.aggregation_bits@ == b.aggregation_bits@,
        a.signature == b.signature,
{
    lemma_auto_spec_u64_to_from_le_bytes();
    let pa = spec_attestation_payload(a);
    let pb = spec_attestation_payload(b);
    let na = a.aggregation_bits@.len() as int;
    let nb = b.aggregation_bits@.len() as int;
    assert(pa.len() == 152 + na);
    assert(pb.len() == 152 + nb);
    assert(na == nb);
    assert(pa.subrange(0, 32) =~= a.data.beacon_block_root@);
    assert(pb.subrange(0, 32) =~= b.data.beacon_block_root@);
    assert(a.data.beacon_block_root.bytes =~= b.data.beacon_block_root.bytes);
    assert(pa.subrange(32, 40) =~= spec_u64_to_le_bytes(a.data.target_epoch));
    assert(pb.subrange(32, 40) =~= spec_u64_to_le_bytes(b.data.target_epoch));
    assert(a.data.target_epoch == b.data.target_epoch) by {
        assert(spec_u64_from_le_bytes(spec_u64_to_le_bytes(a.data.target_epoch))
            == a.data.target_epoch);
        assert(spec_u64_from_le_bytes(spec_u64_to_le_bytes(b.data.target_epoch))
            == b.data.target_epoch);
    }
    assert(pa.subrange(40, 48) =~= spec_u64_to_le_bytes(a.data.committee_id));
    assert(pb.subrange(40, 48) =~= spec_u64_to_le_bytes(b.data.committee_id));
    assert(a.data.committee_id == b.data.committee_id) by {
        assert(spec_u64_from_le_bytes(spec_u64_to_le_bytes(a.data.committee_id))
            == a.data.committee_id);
        assert(spec_u64_from_le_bytes(spec_u64_to_le_bytes(b.data.committee_id))
            == b.data.committee_id);
    }
    assert(pa.subrange(56, 56 + na) =~= spec_bits_bytes(a.aggregation_bits@));
    assert(pb.subrange(56, 56 + nb) =~= spec_bits_bytes(b.aggregation_bits@));
    assert forall|i: int| 0 <= i < na implies a.aggregation_bits@[i] == b.aggregation_bits@[i] by {
        assert(spec_bits_bytes(a.aggregation_bits@)[i] == spec_bits_bytes(b.aggregation_bits@)[i]);
    }
    assert(a.aggregation_bits@ =~= b.aggregation_bits@);
    assert(pa.subrange(56 + na, 152 + na) =~= a.signature.spec_point().spec_bytes());
    assert(pb.subrange(56 + nb, 152 + nb) =~= b.signature.spec_point().spec_bytes());
    crate::signature::lemma_signature_injective(&a.signature, &b.signature);
}

/// A message whose signature really serializes to the wrapper's byte
/// count and whose bitfield length fits the wire's count field.
pub open spec fn spec_pubsub_wf<P, T: TSignature<P>>(m: PubsubMessage<P, T>) -> bool {
    match m {
        PubsubMessage::Block(b) => b.signature.spec_point().spec_bytes().len()
            == SIGNATURE_BYTES_LEN,
        PubsubMessage::Attestation(a) => a.signature.spec_point().spec_bytes().len()
            == SIGNATURE_BYTES_LEN && a.aggregation_bits@.len() <= u64::MAX,
    }
}

/// The round-trip law: the payload bytes determine the message among
/// messages of one kind. Together with the contracts of `encode` and
/// `decode` — encoding yields the payload bytes, and decoding yields a
/// message with exactly those bytes, of the kind the topics name —
/// encode-then-decode against the same topic list gives the message back.
pub proof fn lemma_pubsub_payload_injective<P, T: TSignature<P>>(
    a: PubsubMessage<P, T>,
    b: PubsubMessage<P, T>,
)
    requires
        spec_pubsub_kind(a) == spec_pubsub_kind(b),
        spec_pubsub_payload(a) == spec_pubsub_payload(b),
        spec_pubsub_wf(a),
        spec_pubsub_wf(b),
    ensures
        match (a, b) {
            (PubsubMessage::Block(x), PubsubMessage::Block(y)) => x == y,
            (PubsubMessage::Attestation(x), PubsubMessage::Attestation(y)) => x.data == y.data
                && x.aggregation_bits@ == y.aggregation_bits@ && x.signature == y.signature,
            _ => false,
        },
{
    match (a, b) {
        (PubsubMessage::Block(x), PubsubMessage::Block(y)) => {
            lemma_block_payload_injective(x, y);
        },
        (PubsubMessage::Attestation(x), PubsubMessage::Attestation(y)) => {
            lemma_attestation_payload_injective(x, y);
        },
        _ => {},
    }
}

} // verus!
