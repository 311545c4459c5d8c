//! The chain capability the networking core consumes, held as plain values.
//!
//! Block import, fork choice and state transition live outside this crate;
//! the core only reads from the chain. This module materializes exactly what
//! the core reads: the head and its state, the walk of block roots back from
//! the head, the block and state store, and the per-slot proposer and
//! committee tables that states carry for signature checks.

use vstd::prelude::*;
use crate::signature::{Signature, TSignature};
use crate::types::{ChainSpec, Epoch, Fork, Hash256, Slot};

verus! {

/// The entry a validator registry holds for one validator: the key the core
/// verifies signatures against.
pub struct Validator<P> {
    pub pubkey: P,
}

impl<P: Copy> Clone for Validator<P> {
    fn clone(&self) -> (r: Self)
        ensures
            r == *self,
    {
        Validator { pubkey: self.pubkey }
    }
}

impl<P: Copy> Copy for Validator<P> {

}

/// A beacon state, reduced to the fields and tables the networking core
/// reads: the slot, the fork, the finalized checkpoint, the validator
/// registry, and the proposer and committee assignments the chain has
/// computed for it.
pub struct BeaconState<P> {
    pub slot: Slot,
    pub fork: Fork,
    pub finalized_root: Hash256,
    pub finalized_epoch: Epoch,
    pub validators: Vec<Validator<P>>,
    /// Proposer assignment by slot.
    pub proposers: Vec<(Slot, u64)>,
    /// Committee membership (validator indices) by committee identifier.
    pub committees: Vec<(u64, Vec<u64>)>,
}

/// First entry of `entries` carrying `slot`, scanning from the front.
pub open spec fn spec_slot_lookup(entries: Seq<(Slot, u64)>, slot: Slot) -> Option<u64>
    decreases entries.len(),
{
    if entries.len() == 0 {
        None
    } else if entries[0].0 == slot {
        Some(entries[0].1)
    } else {
        spec_slot_lookup(entries.drop_first(), slot)
    }
}

/// First committee of `entries` carrying `key`, scanning from the front.
pub open spec fn spec_committee_lookup(entries: Seq<(u64, Vec<u64>)>, key: u64) -> Option<Vec<u64>>
    decreases entries.len(),
{
    if entries.len() == 0 {
        None
    } else if entries[0].0 == key {
        Some(entries[0].1)
    } else {
        spec_committee_lookup(entries.drop_first(), key)
    }
}

impl<P> BeaconState<P> {
    /// The proposer index assigned to `slot`, if the state's tables cover it.
    pub open spec fn spec_proposer_at(&self, slot: Slot) -> Option<u64> {
        spec_slot_lookup(self.proposers@, slot)
    }

    pub fn proposer_at(&self, slot: Slot) -> (r: Option<u64>)
        ensures
            r == self.spec_proposer_at(slot),
    {
        let mut i: usize = 0;
        proof {
            assert(self.proposers@.skip(0) =~= self.proposers@);
        }
        while i < self.proposers.len()
            invariant
                i <= self.proposers@.len(),
                spec_slot_lookup(self.proposers@.skip(i as int), slot) == spec_slot_lookup(
                    self.proposers@,
                    slot,
                ),
            decreases self.proposers@.len() - i,
        {
            if self.proposers[i].0 == slot {
                proof {
                    assert(self.proposers@.skip(i as int)[0] == self.proposers@[i as int]);
                }
                return Some(self.proposers[i].1);
            }
            proof {
                assert(self.proposers@.skip(i as int).drop_first() =~= self.proposers@.skip(
                    i as int + 1,
                ));
            }
            i = i + 1;
        }
        proof {
            assert(self.proposers@.skip(i as int) =~= Seq::<(Slot, u64)>::empty());
        }
        None
    }

    /// The committee registered under `key`, if any.
    pub open spec fn spec_committee(&self, key: u64) -> Option<Vec<u64>> {
        spec_committee_lookup(self.committees@, key)
    }

    pub fn committee(&self, key: u64) -> (r: Option<&Vec<u64>>)
        ensures
            match r {
                Some(c) => self.spec_committee(key) == Some(*c),
                None => self.spec_committee(key) is None,
            },
    {
        let mut i: usize = 0;
        proof {
            assert(self.committees@.skip(0) =~= self.committees@);
        }
        while i < self.committees.len()
            invariant
                i <= self.committees@.len(),
                spec_committee_lookup(self.committees@.skip(i as int), key)
                    == spec_committee_lookup(self.committees@, key),
            decreases self.committees@.len() - i,
        {
            if self.committees[i].0 == key {
                proof {
                    assert(self.committees@.skip(i as int)[0] == self.committees@[i as int]);
                }
                return Some(&self.committees[i].1);
            }
            proof {
                assert(self.committees@.skip(i as int).drop_first() =~= self.committees@.skip(
                    i as int + 1,
                ));
            }
            i = i + 1;
        }
        proof {
            assert(self.committees@.skip(i as int) =~= Seq::<(u64, Vec<u64>)>::empty());
        }
        None
    }
}

/// A beacon block, reduced to what the networking core reads. `root` is the
/// block's signing root, computed by tree-hashing when the block was made;
/// the store and the chain walk key blocks by it, and the proposer's
/// signature is over it.
pub struct BeaconBlock<P, T: TSignature<P>> {
    pub slot: Slot,
    pub parent_root: Hash256,
    pub state_root: Hash256,
    pub root: Hash256,
    pub signature: Signature<P, T>,
}

impl<P, T: TSignature<P> + Copy> Clone for BeaconBlock<P, T> {
    fn clone(&self) -> (r: Self)
        ensures
            r == *self,
    {
        BeaconBlock {
            slot: self.slot,
            parent_root: self.parent_root,
            state_root: self.state_root,
            root: self.root,
            signature: self.signature,
        }
    }
}

impl<P, T: TSignature<P> + Copy> Copy for BeaconBlock<P, T> {

}

/// Last entry of `entries` keyed by `key`, scanning from the back: a later
/// write to the same key shadows an earlier one.
pub open spec fn spec_assoc_get<V>(entries: Seq<(Hash256, V)>, key: Seq<u8>) -> Option<V>
    decreases entries.len(),
{
    if entries.len() == 0 {
        None
    } else if entries.last().0@ == key {
        Some(entries.last().1)
    } else {
        spec_assoc_get(entries.drop_last(), key)
    }
}

pub proof fn lemma_assoc_get_push<V>(entries: Seq<(Hash256, V)>, e: (Hash256, V), key: Seq<u8>)
    ensures
        spec_assoc_get(entries.push(e), key) == if e.0@ == key {
            Some(e.1)
        } else {
            spec_assoc_get(entries, key)
        },
{
    assert(entries.push(e).drop_last() =~= entries);
    assert(entries.push(e).last() == e);
}

/// The block and state store: a root-keyed mapping in which a later write
/// under a root shadows an earlier one. The networking core only reads it.
pub struct Store<P, T: TSignature<P>> {
    blocks: Vec<(Hash256, BeaconBlock<P, T>)>,
    states: Vec<(Hash256, BeaconState<P>)>,
}

impl<P, T: TSignature<P>> Store<P, T> {
    /// The block stored under `root`, if any.
    pub closed spec fn spec_get_block(&self, root: Seq<u8>) -> Option<BeaconBlock<P, T>> {
        spec_assoc_get(self.blocks@, root)
    }

    /// The state stored under `root`, if any.
    pub closed spec fn spec_get_state(&self, root: Seq<u8>) -> Option<BeaconState<P>> {
        spec_assoc_get(self.states@, root)
    }

    pub fn new() -> (r: Self)
        ensures
            forall|k: Seq<u8>| r.spec_get_block(k) is None,
            forall|k: Seq<u8>| r.spec_get_state(k) is None,
    {
        Store { blocks: Vec::new(), states: Vec::new() }
    }

    pub fn get_block(&self, root: &Hash256) -> (r: Option<&BeaconBlock<P, T>>)
        ensures
            match r {
                Some(b) => self.spec_get_block(root@) == Some(*b),
                None => self.spec_get_block(root@) is None,
            },
    {
        let mut i: usize = self.blocks.len();
        proof {
            assert(self.blocks@.take(i as int) =~= self.blocks@);
        }
        while i > 0
            invariant
                i <= self.blocks@.len(),
                spec_assoc_get(self.blocks@.take(i as int), root@) == spec_assoc_get(
                    self.blocks@,
                    root@,
                ),
            decreases i,
        {
            let entry_root = &self.blocks[i - 1].0;
            proof {
                assert(self.blocks@.take(i as int).last() == self.blocks@[i as int - 1]);
                assert(self.blocks@.take(i as int).drop_last() =~= self.blocks@.take(i as int - 1));
            }
            if entry_root.same(root) {
                return Some(&self.blocks[i - 1].1);
            }
            i = i - 1;
        }
        proof {
            assert(self.blocks@.take(0) =~= Seq::<(Hash256, BeaconBlock<P, T>)>::empty());
        }
        None
    }

    pub fn get_state(&self, root: &Hash256) -> (r: Option<&BeaconState<P>>)
        ensures
            match r {
                Some(s) => self.spec_get_state(root@) == Some(*s),
                None => self.spec_get_state(root@) is None,
            },
    {
        let mut i: usize = self.states.len();
        proof {
            assert(self.states@.take(i as int) =~= self.states@);
        }
        while i > 0
            invariant
                i <= self.states@.len(),
                spec_assoc_get(self.states@.take(i as int), root@) == spec_assoc_get(
                    self.states@,
                    root@,
                ),
            decreases i,
        {
            let entry_root = &self.states[i - 1].0;
            proof {
                assert(self.states@.take(i as int).last() == self.states@[i as int - 1]);
                assert(self.states@.take(i as int).drop_last() =~= self.states@.take(i as int - 1));
            }
            if entry_root.same(root) {
                return Some(&self.states[i - 1].1);
            }
            i = i - 1;
        }
        proof {
            assert(self.states@.take(0) =~= Seq::<(Hash256, BeaconState<P>)>::empty());
        }
        None
    }

    /// Whether a block is stored under `root`.
    pub fn block_exists(&self, root: &Hash256) -> (r: bool)
        ensures
            r == self.spec_get_block(root@) is Some,
    {
        match self.get_block(root) {
            Some(_) => true,
            None => false,
        }
    }

    pub fn put_block(&mut self, root: Hash256, block: BeaconBlock<P, T>)
        ensures
            final(self).spec_get_block(root@) == Some(block),
            forall|k: Seq<u8>|
                k != root@ ==> final(self).spec_get_block(k) == old(self).spec_get_block(k),
            forall|k: Seq<u8>| final(self).spec_get_state(k) == old(self).spec_get_state(k),
    {
        let ghost entries = self.blocks@;
        self.blocks.push((root, block));
        proof {
            assert forall|k: Seq<u8>| true implies spec_assoc_get(
                entries.push((root, block)),
                k,
            ) == if root@ == k {
                Some(block)
            } else {
                spec_assoc_get(entries, k)
            } by {
                lemma_assoc_get_push(entries, (root, block), k);
            }
        }
    }

    pub fn put_state(&mut self, root: Hash256, state: BeaconState<P>)
        ensures
            final(self).spec_get_state(root@) == Some(state),
            forall|k: Seq<u8>|
                k != root@ ==> final(self).spec_get_state(k) == old(self).spec_get_state(k),
            forall|k: Seq<u8>| final(self).spec_get_block(k) == old(self).spec_get_block(k),
    {
        let ghost entries = self.states@;
        let ghost st = state;
        self.states.push((root, state));
        proof {
            assert forall|k: Seq<u8>| true implies spec_assoc_get(entries.push((root, st)), k)
                == if root@ == k {
                Some(st)
            } else {
                spec_assoc_get(entries, k)
            } by {
                lemma_assoc_get_push(entries, (root, st), k);
            }
        }
    }
}

/// The narrow, read-only handle to the beacon chain that the networking core
/// consumes: the head, the walk of block roots back from it, the store, and
/// the chain parameters.
pub struct ChainHandle<P, T: TSignature<P>> {
    /// Root of the head block.
    pub head_block_root: Hash256,
    /// Root of the head block's state.
    pub head_state_root: Hash256,
    /// The head block's state.
    pub head_state: BeaconState<P>,
    /// `(root, slot)` of each block on the canonical chain, walking backwards
    /// from the head; slots never increase along the walk.
    pub block_roots: Vec<(Hash256, Slot)>,
    /// The block and state store.
    pub store: Store<P, T>,
    /// Chain parameters.
    pub chain_spec: ChainSpec,
}

impl<P, T: TSignature<P>> ChainHandle<P, T> {
    /// The handle is usable when the chain parameters are, the root walk
    /// really does run backwards, and a block the walk lists at a slot is
    /// stored under that slot (the chain-in-store invariant).
    pub open spec fn well_formed(&self) -> bool {
        &&& self.chain_spec.well_formed()
        &&& forall|i: int, j: int|
            0 <= i <= j < self.block_roots@.len() ==> self.block_roots@[i].1
                >= self.block_roots@[j].1
        &&& forall|i: int|
            0 <= i < self.block_roots@.len() ==> match self.store.spec_get_block(
                #[trigger] self.block_roots@[i].0@,
            ) {
                Some(b) => b.slot == self.block_roots@[i].1,
                None => true,
            }
    }

    /// The root the canonical chain walk reports first for `slot`.
    pub open spec fn spec_root_at_slot(&self, slot: Slot) -> Option<Hash256> {
        spec_root_lookup(self.block_roots@, slot)
    }

    /// The first `(root, slot)` entry of the walk at exactly `slot`.
    pub fn root_at_slot(&self, slot: Slot) -> (r: Option<Hash256>)
        ensures
            r == self.spec_root_at_slot(slot),
    {
        let mut i: usize = 0;
        proof {
            assert(self.block_roots@.skip(0) =~= self.block_roots@);
        }
        while i < self.block_roots.len()
            invariant
                i <= self.block_roots@.len(),
                spec_root_lookup(self.block_roots@.skip(i as int), slot) == spec_root_lookup(
                    self.block_roots@,
                    slot,
                ),
            decreases self.block_roots@.len() - i,
        {
            if self.block_roots[i].1 == slot {
                proof {
                    assert(self.block_roots@.skip(i as int)[0] == self.block_roots@[i as int]);
                }
                return Some(self.block_roots[i].0);
            }
            proof {
                assert(self.block_roots@.skip(i as int).drop_first() =~= self.block_roots@.skip(
                    i as int + 1,
                ));
            }
            i = i + 1;
        }
        proof {
            assert(self.block_roots@.skip(i as int) =~= Seq::<(Hash256, Slot)>::empty());
        }
        None
    }
}

/// First entry of the walk carrying `slot`, scanning from the head.
pub open spec fn spec_root_lookup(entries: Seq<(Hash256, Slot)>, slot: Slot) -> Option<Hash256>
    decreases entries.len(),
{
    if entries.len() == 0 {
        None
    } else if entries[0].1 == slot {
        Some(entries[0].0)
    } else {
        spec_root_lookup(entries.drop_first(), slot)
    }
}

} // verus!
