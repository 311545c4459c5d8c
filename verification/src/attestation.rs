//! Attestations and their indexed form.
//!
//! An attestation arrives with a committee identifier and one aggregation
//! bit per committee member; rewriting it against a state yields the
//! explicit validator indices whose keys the aggregate signature is checked
//! against.

use vstd::prelude::*;
use vstd::bytes::spec_u64_to_le_bytes;
use crate::chain::{BeaconState, Validator};
use crate::codec::{append_bytes, append_u64};
use crate::signature::{Signature, TSignature};
use crate::types::{Epoch, Hash256};

verus! {

/// What an attestation points at: the block it attests to, the target epoch
/// and the committee that cast it.
#[derive(Clone, Copy, Debug)]
pub struct AttestationData {
    pub beacon_block_root: Hash256,
    pub target_epoch: Epoch,
    pub committee_id: u64,
}

/// An aggregate attestation as gossiped: one bit per committee member.
pub struct Attestation<P, T: TSignature<P>> {
    pub aggregation_bits: Vec<bool>,
    pub data: AttestationData,
    pub signature: Signature<P, T>,
}

/// An attestation rewritten with the explicit indices of the validators
/// whose bits are set, in committee order.
pub struct IndexedAttestation<P, T: TSignature<P>> {
    pub attesting_indices: Vec<u64>,
    pub data: AttestationData,
    pub signature: Signature<P, T>,
}

/// Why an attestation has no indexed form under a given state.
#[derive(Clone, Copy, Debug, PartialEq, Eq, Structural)]
pub enum AttestationError {
    /// The state's tables know no committee under the attestation's id.
    UnknownCommittee,
    /// The bitfield length does not match the committee size.
    BitfieldLengthMismatch,
}

/// The committee members at set bit positions, in committee order.
pub open spec fn spec_attesting_indices(committee: Seq<u64>, bits: Seq<bool>) -> Seq<u64>
    recommends
        committee.len() == bits.len(),
    decreases committee.len(),
{
    if committee.len() == 0 {
        Seq::empty()
    } else {
        let rest = spec_attesting_indices(committee.drop_first(), bits.drop_first());
        if bits[0] {
            seq![committee[0]] + rest
        } else {
            rest
        }
    }
}

/// Rewrite `attestation` against `state`: look its committee up and keep the
/// members whose aggregation bit is set.
pub fn get_indexed_attestation<P: Copy, T: TSignature<P> + Copy>(
    state: &BeaconState<P>,
    attestation: &Attestation<P, T>,
) -> (r: Result<IndexedAttestation<P, T>, AttestationError>)
    ensures
        r is Ok <==> match state.spec_committee(attestation.data.committee_id) {
            Some(c) => c@.len() == attestation.aggregation_bits@.len(),
            None => false,
        },
        r matches Ok(ia) ==> {
            &&& ia.data == attestation.data
            &&& ia.signature == attestation.signature
            &&& match state.spec_committee(attestation.data.committee_id) {
                Some(c) => ia.attesting_indices@ == spec_attesting_indices(
                    c@,
                    attestation.aggregation_bits@,
                ),
                None => false,
            }
        },
        r matches Err(e) ==> e == (match state.spec_committee(attestation.data.committee_id) {
            Some(c) => AttestationError::BitfieldLengthMismatch,
            None => AttestationError::UnknownCommittee,
        }),
{
    let committee = match state.committee(attestation.data.committee_id) {
        Some(c) => c,
        None => {
            return Err(AttestationError::UnknownCommittee);
        },
    };
    if committee.len() != attestation.aggregation_bits.len() {
        return Err(AttestationError::BitfieldLengthMismatch);
    }
    let ghost full = spec_attesting_indices(committee@, attestation.aggregation_bits@);
    let mut indices: Vec<u64> = Vec::new();
    let mut i: usize = 0;
    proof {
        assert(committee@.skip(0) =~= committee@);
        assert(attestation.aggregation_bits@.skip(0) =~= attestation.aggregation_bits@);
    }
    while i < committee.len()
        invariant
            i <= committee@.len(),
            committee@.len() == attestation.aggregation_bits@.len(),
            full == spec_attesting_indices(committee@, attestation.aggregation_bits@),
            full == indices@ + spec_attesting_indices(
                committee@.skip(i as int),
                attestation.aggregation_bits@.skip(i as int),
            ),
        decreases committee@.len() - i,
    {
        proof {
            assert(committee@.skip(i as int).drop_first() =~= committee@.skip(i as int + 1));
            assert(attestation.aggregation_bits@.skip(i as int).drop_first()
                =~= attestation.aggregation_bits@.skip(i as int + 1));
            assert(committee@.skip(i as int)[0] == committee@[i as int]);
            assert(attestation.aggregation_bits@.skip(i as int)[0]
                == attestation.aggregation_bits@[i as int]);
        }
        if attestation.aggregation_bits[i] {
            indices.push(committee[i]);
            proof {
                assert(indices@ + spec_attesting_indices(
                    committee@.skip(i as int + 1),
                    attestation.aggregation_bits@.skip(i as int + 1),
                ) =~= full);
            }
        }
        i = i + 1;
    }
    proof {
        assert(committee@.skip(committee@.len() as int) =~= Seq::<u64>::empty());
        assert(indices@ + Seq::<u64>::empty() =~= indices@);
    }
    Ok(IndexedAttestation { attesting_indices: indices, data: attestation.data, signature: attestation.signature })
}

/// The public keys at `indices` of the registry, or nothing if an index is
/// out of range.
pub open spec fn spec_pubkeys<P>(validators: Seq<Validator<P>>, indices: Seq<u64>) -> Option<
    Seq<P>,
>
    decreases indices.len(),
{
    if indices.len() == 0 {
        Some(Seq::empty())
    } else if indices[0] < validators.len() {
        match spec_pubkeys(validators, indices.drop_first()) {
            Some(rest) => Some(seq![validators[indices[0] as int].pubkey] + rest),
            None => None,
        }
    } else {
        None
    }
}

/// Resolve each attesting index to its validator's key.
pub fn collect_pubkeys<P: Copy>(validators: &Vec<Validator<P>>, indices: &Vec<u64>) -> (r: Option<
    Vec<P>,
>)
    ensures
        match r {
            Some(ks) => spec_pubkeys(validators@, indices@) == Some(ks@),
            None => spec_pubkeys(validators@, indices@) is None,
        },
{
    let mut keys: Vec<P> = Vec::new();
    let mut i: usize = 0;
    proof {
        assert(indices@.skip(0) =~= indices@);
    }
    while i < indices.len()
        invariant
            i <= indices@.len(),
            keys@.len() == i,
            spec_pubkeys(validators@, indices@) == match spec_pubkeys(
                validators@,
                indices@.skip(i as int),
            ) {
                Some(rest) => Some(keys@ + rest),
                None => None::<Seq<P>>,
            },
        decreases indices@.len() - i,
    {
        proof {
            assert(indices@.skip(i as int).drop_first() =~= indices@.skip(i as int + 1));
            assert(indices@.skip(i as int)[0] == indices@[i as int]);
        }
        let idx = indices[i];
        if idx >= validators.len() as u64 {
            return None;
        }
        keys.push(validators[idx as usize].pubkey);
        proof {
            let ghost prev = keys@.drop_last();
            assert(prev =~= keys@.take(keys@.len() - 1));
            if spec_pubkeys(validators@, indices@.skip(i as int + 1)) is Some {
                let rest = spec_pubkeys(validators@, indices@.skip(i as int + 1)).unwrap();
                assert(prev + (seq![validators@[indices@[i as int] as int].pubkey] + rest)
                    =~= keys@ + rest);
            }
        }
        i = i + 1;
    }
    proof {
        assert(indices@.skip(indices@.len() as int) =~= Seq::<u64>::empty());
        assert(keys@ + Seq::<P>::empty() =~= keys@);
    }
    Some(keys)
}

/// The bytes an attestation's aggregate signature is checked over: the
/// attested block root, the target epoch, the committee id, and the signing
/// domain.
pub open spec fn spec_attestation_message(data: AttestationData, domain: u64) -> Seq<u8> {
    data.beacon_block_root@ + spec_u64_to_le_bytes(data.target_epoch) + spec_u64_to_le_bytes(
        data.committee_id,
    ) + spec_u64_to_le_bytes(domain)
}

pub fn attestation_message(data: &AttestationData, domain: u64) -> (r: Vec<u8>)
    ensures
        r@ == spec_attestation_message(*data, domain),
{
    let mut out: Vec<u8> = Vec::new();
    append_bytes(&mut out, data.beacon_block_root.bytes.as_slice());
    append_u64(&mut out, data.target_epoch);
    append_u64(&mut out, data.committee_id);
    append_u64(&mut out, domain);
    proof {
        assert(out@ =~= spec_attestation_message(*data, domain));
    }
    out
}

/// Whether the aggregate signature of `indexed` is valid against the
/// registry of `state`, under `domain`.
pub open spec fn spec_indexed_signature_valid<P, T: TSignature<P>>(
    state: &BeaconState<P>,
    indexed: &IndexedAttestation<P, T>,
    domain: u64,
) -> bool {
    match spec_pubkeys(state.validators@, indexed.attesting_indices@) {
        Some(keys) => indexed.signature.spec_point().spec_fast_aggregate_verify(
            keys,
            spec_attestation_message(indexed.data, domain),
        ),
        None => false,
    }
}

/// Check the aggregate signature of `indexed` against `state`'s registry.
pub fn indexed_attestation_signature_valid<P: Copy, T: TSignature<P>>(
    state: &BeaconState<P>,
    indexed: &IndexedAttestation<P, T>,
    domain: u64,
) -> (r: bool)
    ensures
        r == spec_indexed_signature_valid(state, indexed, domain),
{
    match collect_pubkeys(&state.validators, &indexed.attesting_indices) {
        Some(keys) => {
            let msg = attestation_message(&indexed.data, domain);
            indexed.signature.fast_aggregate_verify(keys.as_slice(), msg.as_slice())
        },
        None => false,
    }
}

/// Whether `attestation` has an indexed form under `state` whose aggregate
/// signature is valid under `domain`.
pub open spec fn spec_attestation_valid_under<P, T: TSignature<P>>(
    state: &BeaconState<P>,
    attestation: &Attestation<P, T>,
    domain: u64,
) -> bool {
    match state.spec_committee(attestation.data.committee_id) {
        Some(c) => {
            &&& c@.len() == attestation.aggregation_bits@.len()
            &&& match spec_pubkeys(
                state.validators@,
                spec_attesting_indices(c@, attestation.aggregation_bits@),
            ) {
                Some(keys) => attestation.signature.spec_point().spec_fast_aggregate_verify(
                    keys,
                    spec_attestation_message(attestation.data, domain),
                ),
                None => false,
            }
        },
        None => false,
    }
}

} // verus!
