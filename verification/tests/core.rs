//! Tests of the primitive types, the signature wrapper and the codec.

use eth2_network::attestation::{Attestation, AttestationData};
use eth2_network::chain::BeaconBlock;
use eth2_network::codec::{
    decode_attestation, decode_block, encode_attestation, encode_block, DecodeError, GossipCodec,
    PubsubMessage, BLOCK_BYTES_LEN,
};
use eth2_network::signature::{Error, FakeSignature, Signature, SIGNATURE_BYTES_LEN};
use eth2_network::types::{
    epoch_start_slot, slot_epoch, ChainSpec, Domain, Fork, Hash256, RelativeEpoch,
    RelativeEpochError,
};

type Sig = Signature<u64, FakeSignature>;

fn h(x: u8) -> Hash256 {
    Hash256::from_bytes([x; 32])
}

fn sig(x: u8) -> Sig {
    Sig::deserialize(&[x; SIGNATURE_BYTES_LEN]).unwrap()
}

fn block(slot: u64, parent: u8, state: u8, root: u8) -> BeaconBlock<u64, FakeSignature> {
    BeaconBlock {
        slot,
        parent_root: h(parent),
        state_root: h(state),
        root: h(root),
        signature: sig(9),
    }
}

#[test]
fn signature_zero_is_all_zero_bytes() {
    let z = Sig::zero();
    assert_eq!(z.serialize(), [0u8; SIGNATURE_BYTES_LEN]);
}

#[test]
fn signature_deserialize_rejects_wrong_length() {
    match Sig::deserialize(&[0u8; 95]) {
        Err(e) => assert_eq!(e, Error::InvalidByteLength { got: 95, expected: SIGNATURE_BYTES_LEN }),
        Ok(_) => panic!("expected a length error"),
    }
}

#[test]
fn signature_serialize_round_trip() {
    let s = sig(0xab);
    let bytes = s.serialize();
    assert_eq!(bytes, [0xab; SIGNATURE_BYTES_LEN]);
    let back = Sig::deserialize(&bytes).unwrap();
    assert_eq!(back.serialize(), bytes);
}

#[test]
fn signature_add_assign_keeps_fake_point() {
    let mut a = sig(1);
    let b = sig(2);
    a.add_assign(&b);
    assert_eq!(a.serialize(), [1u8; SIGNATURE_BYTES_LEN]);
}

#[test]
fn fake_signature_accepts_everything() {
    let s = sig(3);
    assert!(s.verify(&42u64, b"any message"));
    assert!(s.fast_aggregate_verify(&[1u64, 2u64], b"any message"));
}

#[test]
fn hash_zero_and_same() {
    assert!(Hash256::zero().is_zero());
    assert!(!h(1).is_zero());
    assert!(h(5).same(&h(5)));
    assert!(!h(5).same(&h(6)));
}

#[test]
fn domain_packs_tag_and_version() {
    let spec = ChainSpec { slots_per_epoch: 8 };
    let fork = Fork { previous_version: [9, 9, 9, 9], current_version: [1, 2, 3, 4], epoch: 10 };
    // At an epoch past the fork boundary the current version applies.
    let d = spec.get_domain(10, Domain::BeaconProposer, &fork);
    let expected: u64 = (1u64 << 32) | (2u64 << 40) | (3u64 << 48) | (4u64 << 56);
    assert_eq!(d, expected);
    // Before the boundary the previous version applies, and the attestation
    // tag lands in the low half.
    let d2 = spec.get_domain(9, Domain::Attestation, &fork);
    let expected2: u64 =
        2u64 | (9u64 << 32) | (9u64 << 40) | (9u64 << 48) | (9u64 << 56);
    assert_eq!(d2, expected2);
}

#[test]
fn epoch_slot_arithmetic() {
    assert_eq!(epoch_start_slot(5, 8), 40);
    assert_eq!(epoch_start_slot(u64::MAX, 2), u64::MAX);
    assert_eq!(slot_epoch(40, 8), 5);
    assert_eq!(slot_epoch(47, 8), 5);
}

#[test]
fn relative_epoch_classification() {
    assert_eq!(RelativeEpoch::from_epoch(5, 4), Ok(RelativeEpoch::Previous));
    assert_eq!(RelativeEpoch::from_epoch(5, 5), Ok(RelativeEpoch::Current));
    assert_eq!(RelativeEpoch::from_epoch(5, 6), Ok(RelativeEpoch::Next));
    assert_eq!(RelativeEpoch::from_epoch(5, 3), Err(RelativeEpochError::EpochTooLow));
    assert_eq!(RelativeEpoch::from_epoch(5, 7), Err(RelativeEpochError::EpochTooHigh));
    assert_eq!(RelativeEpoch::from_slot(40, 41, 8), Ok(RelativeEpoch::Current));
    assert_eq!(RelativeEpoch::from_slot(40, 48, 8), Ok(RelativeEpoch::Next));
}

#[test]
fn block_codec_round_trip() {
    let b = block(77, 1, 2, 3);
    let bytes = encode_block(&b);
    assert_eq!(bytes.len(), BLOCK_BYTES_LEN);
    let back: BeaconBlock<u64, FakeSignature> = decode_block(bytes.as_slice()).unwrap();
    assert_eq!(back.slot, 77);
    assert_eq!(back.parent_root, h(1));
    assert_eq!(back.state_root, h(2));
    assert_eq!(back.root, h(3));
    assert_eq!(back.signature.serialize(), b.signature.serialize());
}

#[test]
fn block_decode_rejects_wrong_length() {
    let r: Result<BeaconBlock<u64, FakeSignature>, _> = decode_block(&[0u8; 199]);
    match r {
        Err(e) => assert_eq!(e, DecodeError::InvalidLength),
        Ok(_) => panic!("expected a length error"),
    }
}

#[test]
fn attestation_codec_round_trip() {
    let a = Attestation {
        aggregation_bits: vec![true, false, true],
        data: AttestationData { beacon_block_root: h(7), target_epoch: 12, committee_id: 3 },
        signature: sig(0x5a),
    };
    let bytes = encode_attestation(&a);
    let back: Attestation<u64, FakeSignature> = decode_attestation(bytes.as_slice()).unwrap();
    assert_eq!(back.aggregation_bits, vec![true, false, true]);
    assert_eq!(back.data.beacon_block_root, h(7));
    assert_eq!(back.data.target_epoch, 12);
    assert_eq!(back.data.committee_id, 3);
    assert_eq!(back.signature.serialize(), a.signature.serialize());
}

#[test]
fn attestation_decode_rejects_bad_bit_byte() {
    let a = Attestation {
        aggregation_bits: vec![true],
        data: AttestationData { beacon_block_root: h(7), target_epoch: 1, committee_id: 1 },
        signature: sig(1),
    };
    let mut bytes = encode_attestation(&a);
    bytes[56] = 2;
    let r: Result<Attestation<u64, FakeSignature>, _> = decode_attestation(bytes.as_slice());
    match r {
        Err(e) => assert_eq!(e, DecodeError::InvalidBitfield),
        Ok(_) => panic!("expected a bitfield error"),
    }
}

#[test]
fn attestation_decode_rejects_wrong_count() {
    let a = Attestation {
        aggregation_bits: vec![true, true],
        data: AttestationData { beacon_block_root: h(7), target_epoch: 1, committee_id: 1 },
        signature: sig(1),
    };
    let mut bytes = encode_attestation(&a);
    // Claim three bits while carrying two.
    bytes[48] = 3;
    let r: Result<Attestation<u64, FakeSignature>, _> = decode_attestation(bytes.as_slice());
    match r {
        Err(e) => assert_eq!(e, DecodeError::InvalidLength),
        Ok(_) => panic!("expected a length error"),
    }
}

fn test_codec() -> GossipCodec {
    GossipCodec {
        block_topic: b"/eth2/beacon_block/ssz".to_vec(),
        attestation_topic: b"/eth2/beacon_attestation/ssz".to_vec(),
    }
}

#[test]
fn pubsub_decode_picks_kind_by_topic() {
    let codec = test_codec();
    let b = block(5, 1, 2, 3);
    let data = codec.encode(&PubsubMessage::Block(b));
    let topics = vec![b"unknown".to_vec(), b"/eth2/beacon_block/ssz".to_vec()];
    match codec.decode::<u64, FakeSignature>(&topics, &data).unwrap() {
        PubsubMessage::Block(back) => assert_eq!(back.slot, 5),
        PubsubMessage::Attestation(_) => panic!("decoded the wrong kind"),
    }
}

#[test]
fn pubsub_decode_rejects_unknown_topics() {
    let codec = test_codec();
    let data = vec![0u8; 200];
    let topics = vec![b"nothing".to_vec()];
    let r = codec.decode::<u64, FakeSignature>(&topics, &data);
    match r {
        Err(e) => assert_eq!(e, DecodeError::UnknownTopic),
        Ok(_) => panic!("expected an unknown-topic error"),
    }
}

#[test]
fn pubsub_round_trip_attestation() {
    let codec = test_codec();
    let a = Attestation {
        aggregation_bits: vec![false, true],
        data: AttestationData { beacon_block_root: h(9), target_epoch: 4, committee_id: 2 },
        signature: sig(0x11),
    };
    let data = codec.encode(&PubsubMessage::Attestation(a));
    let topics = vec![b"/eth2/beacon_attestation/ssz".to_vec()];
    match codec.decode::<u64, FakeSignature>(&topics, &data).unwrap() {
        PubsubMessage::Attestation(back) => {
            assert_eq!(back.aggregation_bits, vec![false, true]);
            assert_eq!(back.data.beacon_block_root, h(9));
        },
        PubsubMessage::Block(_) => panic!("decoded the wrong kind"),
    }
}
