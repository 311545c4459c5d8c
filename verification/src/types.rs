//! Primitive chain types: hashes, slots, epochs, forks and domains.
//!
//! These are the plain-value forms of the identifiers the networking core
//! reads: a block root is 32 bytes, a fork version 4 bytes, slots and epochs
//! unsigned 64-bit counters.

use vstd::prelude::*;

verus! {

/// A slot number of the beacon chain.
pub type Slot = u64;

/// An epoch number of the beacon chain.
pub type Epoch = u64;

/// An opaque, equatable, hashable identity the transport assigns to a peer.
#[derive(Clone, Copy, Debug, Hash, PartialEq, Eq, Structural)]
pub struct PeerId {
    pub id: u64,
}

/// An opaque identifier of a gossip message in flight, usable to
/// re-propagate a held message after validation.
#[derive(Clone, Copy, Debug, Hash, PartialEq, Eq, Structural)]
pub struct MessageId {
    pub id: u64,
}

/// Compare two byte slices for equality of contents.
pub fn bytes_eq(a: &[u8], b: &[u8]) -> (r: bool)
    ensures
        r <==> a@ == b@,
{
    if a.len() != b.len() {
        return false;
    }
    let mut i: usize = 0;
    while i < a.len()
        invariant
            i <= a@.len(),
            a@.len() == b@.len(),
            forall|j: int| 0 <= j < i ==> a@[j] == b@[j],
        decreases a@.len() - i,
    {
        if a[i] != b[i] {
            return false;
        }
        i = i + 1;
    }
    proof {
        assert(a@ =~= b@);
    }
    true
}

/// A 32-byte hash identifying a block, a state or a checkpoint.
#[derive(Clone, Copy, Debug, PartialEq, Eq, Hash)]
pub struct Hash256 {
    pub bytes: [u8; 32],
}

impl View for Hash256 {
    type V = Seq<u8>;

    open spec fn view(&self) -> Seq<u8> {
        self.bytes@
    }
}

impl Hash256 {
    /// Whether every byte of the hash is zero.
    pub open spec fn spec_is_zero(&self) -> bool {
        forall|i: int| 0 <= i < 32 ==> self@[i] == 0u8
    }

    /// The all-zero hash, used where no block is known.
    pub fn zero() -> (r: Self)
        ensures
            r.spec_is_zero(),
    {
        Hash256 { bytes: [0u8; 32] }
    }

    /// Build a hash from its 32 bytes.
    pub fn from_bytes(bytes: [u8; 32]) -> (r: Self)
        ensures
            r@ == bytes@,
    {
        Hash256 { bytes }
    }

    pub fn is_zero(&self) -> (r: bool)
        ensures
            r == self.spec_is_zero(),
    {
        let mut i: usize = 0;
        while i < 32
            invariant
                i <= 32,
                forall|j: int| 0 <= j < i ==> self@[j] == 0u8,
            decreases 32 - i,
        {
            if self.bytes[i] != 0 {
                proof {
                    assert(self@[i as int] == self.bytes@[i as int]);
                }
                return false;
            }
            i = i + 1;
        }
        true
    }

    /// Whether two hashes hold the same bytes.
    pub fn same(&self, other: &Hash256) -> (r: bool)
        ensures
            r <==> self@ == other@,
    {
        bytes_eq(self.bytes.as_slice(), other.bytes.as_slice())
    }
}

/// Compare two 4-byte fork versions.
pub fn fork_version_eq(a: &[u8; 4], b: &[u8; 4]) -> (r: bool)
    ensures
        r <==> a@ == b@,
{
    bytes_eq(a.as_slice(), b.as_slice())
}

/// The fork schedule a state sits on: the previous and current 4-byte
/// versions and the epoch at which the current one took effect.
#[derive(Clone, Copy, Debug)]
pub struct Fork {
    pub previous_version: [u8; 4],
    pub current_version: [u8; 4],
    pub epoch: Epoch,
}

impl Fork {
    /// The version in force at `epoch`.
    pub open spec fn spec_fork_version(&self, epoch: Epoch) -> Seq<u8> {
        if epoch < self.epoch {
            self.previous_version@
        } else {
            self.current_version@
        }
    }

    pub fn get_fork_version(&self, epoch: Epoch) -> (r: [u8; 4])
        ensures
            r@ == self.spec_fork_version(epoch),
    {
        if epoch < self.epoch {
            self.previous_version
        } else {
            self.current_version
        }
    }
}

/// The signature domains the core distinguishes.
#[derive(Clone, Copy, Debug, PartialEq, Eq, Structural)]
pub enum Domain {
    BeaconProposer,
    Randao,
    Attestation,
    Deposit,
    VoluntaryExit,
    Transfer,
}

/// The constant tag of a signature domain.
pub open spec fn spec_domain_constant(domain: Domain) -> u32 {
    match domain {
        Domain::BeaconProposer => 0u32,
        Domain::Randao => 1u32,
        Domain::Attestation => 2u32,
        Domain::Deposit => 3u32,
        Domain::VoluntaryExit => 4u32,
        Domain::Transfer => 5u32,
    }
}

/// A domain value: the 4-byte domain tag and the 4-byte fork version packed
/// little-endian into one 64-bit integer, tag in the low half.
pub open spec fn spec_domain_u64(constant: u32, version: Seq<u8>) -> u64
    recommends
        version.len() == 4,
{
    (constant as u64) | (version[0] as u64) << 32 | (version[1] as u64) << 40 | (version[2] as u64)
        << 48 | (version[3] as u64) << 56
}

/// The chain parameters the networking core consumes: the epoch length and
/// the domain tags used when signing.
#[derive(Clone, Copy, Debug)]
pub struct ChainSpec {
    pub slots_per_epoch: u64,
}

impl ChainSpec {
    /// A spec is usable only with a non-zero epoch length.
    pub open spec fn well_formed(&self) -> bool {
        self.slots_per_epoch >= 1
    }

    /// The signing domain for `epoch` under `domain`, against `fork`.
    pub open spec fn spec_get_domain(&self, epoch: Epoch, domain: Domain, fork: &Fork) -> u64 {
        spec_domain_u64(spec_domain_constant(domain), fork.spec_fork_version(epoch))
    }

    pub fn get_domain(&self, epoch: Epoch, domain: Domain, fork: &Fork) -> (r: u64)
        ensures
            r == self.spec_get_domain(epoch, domain, fork),
    {
        let constant: u32 = match domain {
            Domain::BeaconProposer => 0u32,
            Domain::Randao => 1u32,
            Domain::Attestation => 2u32,
            Domain::Deposit => 3u32,
            Domain::VoluntaryExit => 4u32,
            Domain::Transfer => 5u32,
        };
        let version = fork.get_fork_version(epoch);
        (constant as u64) | (version[0] as u64) << 32 | (version[1] as u64) << 40 | (version[2]
            as u64) << 48 | (version[3] as u64) << 56
    }
}

/// The epoch a slot belongs to.
pub open spec fn spec_slot_epoch(slot: Slot, slots_per_epoch: u64) -> Epoch
    recommends
        slots_per_epoch >= 1,
{
    (slot / slots_per_epoch) as Epoch
}

pub fn slot_epoch(slot: Slot, slots_per_epoch: u64) -> (r: Epoch)
    requires
        slots_per_epoch >= 1,
    ensures
        r == spec_slot_epoch(slot, slots_per_epoch),
{
    slot / slots_per_epoch
}

/// The first slot of an epoch, saturating at the largest slot so that slot
/// arithmetic never panics.
pub open spec fn spec_epoch_start_slot(epoch: Epoch, slots_per_epoch: u64) -> Slot {
    if epoch * slots_per_epoch <= u64::MAX {
        (epoch * slots_per_epoch) as Slot
    } else {
        u64::MAX as Slot
    }
}

pub fn epoch_start_slot(epoch: Epoch, slots_per_epoch: u64) -> (r: Slot)
    ensures
        r == spec_epoch_start_slot(epoch, slots_per_epoch),
{
    match epoch.checked_mul(slots_per_epoch) {
        Some(s) => s,
        None => u64::MAX,
    }
}

/// The relation of one epoch to a base epoch, where only the epoch just
/// before, the same epoch and the epoch just after are representable.
#[derive(Clone, Copy, Debug, PartialEq, Eq, Structural)]
pub enum RelativeEpoch {
    Previous,
    Current,
    Next,
}

/// Why a pair of epochs has no `RelativeEpoch` relation.
#[derive(Clone, Copy, Debug, PartialEq, Eq, Structural)]
pub enum RelativeEpochError {
    EpochTooLow,
    EpochTooHigh,
}

impl RelativeEpoch {
    /// Classify `other` against `base`.
    pub fn from_epoch(base: Epoch, other: Epoch) -> (r: Result<Self, RelativeEpochError>)
        ensures
            r == Ok::<Self, RelativeEpochError>(RelativeEpoch::Previous) <==> (base >= 1 && other
                == base - 1),
            r == Ok::<Self, RelativeEpochError>(RelativeEpoch::Current) <==> other == base,
            r == Ok::<Self, RelativeEpochError>(RelativeEpoch::Next) <==> (base < u64::MAX && other
                == base + 1),
            r == Err::<Self, RelativeEpochError>(RelativeEpochError::EpochTooLow) <==> (base >= 2
                && other < base - 1),
            r == Err::<Self, RelativeEpochError>(RelativeEpochError::EpochTooHigh) <==> (other
                > base + 1 || (base == u64::MAX && other == base + 1)),
    {
        if other == base {
            Ok(RelativeEpoch::Current)
        } else if base >= 1 && other == base - 1 {
            Ok(RelativeEpoch::Previous)
        } else if other < base {
            Err(RelativeEpochError::EpochTooLow)
        } else if base < u64::MAX && other == base + 1 {
            Ok(RelativeEpoch::Next)
        } else {
            Err(RelativeEpochError::EpochTooHigh)
        }
    }

    /// Classify the epoch of `other_slot` against the epoch of `base_slot`.
    pub fn from_slot(base_slot: Slot, other_slot: Slot, slots_per_epoch: u64) -> (r: Result<
        Self,
        RelativeEpochError,
    >)
        requires
            slots_per_epoch >= 1,
        ensures
            r == Self::spec_from_slot(base_slot, other_slot, slots_per_epoch),
    {
        Self::from_epoch(
            slot_epoch(base_slot, slots_per_epoch),
            slot_epoch(other_slot, slots_per_epoch),
        )
    }

    /// The result of `from_slot`, as a specification value.
    pub open spec fn spec_from_slot(
        base_slot: Slot,
        other_slot: Slot,
        slots_per_epoch: u64,
    ) -> Result<Self, RelativeEpochError>
        recommends
            slots_per_epoch >= 1,
    {
        let base = spec_slot_epoch(base_slot, slots_per_epoch);
        let other = spec_slot_epoch(other_slot, slots_per_epoch);
        if other == base {
            Ok(RelativeEpoch::Current)
        } else if base >= 1 && other == base - 1 {
            Ok(RelativeEpoch::Previous)
        } else if other < base {
            Err(RelativeEpochError::EpochTooLow)
        } else if base < u64::MAX && other == base + 1 {
            Ok(RelativeEpoch::Next)
        } else {
            Err(RelativeEpochError::EpochTooHigh)
        }
    }
}

} // verus!
