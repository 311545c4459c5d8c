//! Aggregate signatures over a pluggable cryptographic backend.
//!
//! `Signature` wraps a backend point type implementing [`TSignature`]; the
//! backend supplies the cryptography while the wrapper fixes the byte-level
//! interface that the rest of the networking core relies on.

use vstd::prelude::*;

verus! {

/// Length of a serialized signature in bytes.
pub const SIGNATURE_BYTES_LEN: usize = 96;

/// Errors that signature byte handling can report.
#[derive(Clone, Copy, Debug, PartialEq, Eq, Structural)]
pub enum Error {
    /// The input slice does not have the length of a serialized signature.
    InvalidByteLength { got: usize, expected: usize },
}

/// A signature backend: a point on the signature group together with the
/// operations the networking core needs. Implementors supply the abstract
/// specification functions and must meet the contracts stated here.
pub trait TSignature<PublicKey>: Sized {
    /// Whether this point is the identity (the "zero" signature).
    spec fn spec_is_zero(&self) -> bool;

    /// The canonical serialized form of this point.
    spec fn spec_bytes(&self) -> Seq<u8>;

    /// The group operation used when aggregating signatures.
    spec fn spec_add(self, other: Self) -> Self;

    /// Which byte strings deserialize successfully.
    spec fn spec_valid_bytes(bytes: Seq<u8>) -> bool;

    /// Whether this point is a valid signature by `pubkey` over `msg`.
    spec fn spec_verify(&self, pubkey: &PublicKey, msg: Seq<u8>) -> bool;

    /// Whether this point is a valid aggregate signature over `msg` by the
    /// aggregate of `pubkeys`.
    spec fn spec_fast_aggregate_verify(&self, pubkeys: Seq<PublicKey>, msg: Seq<u8>) -> bool;

    /// Serialization is injective: equal byte forms mean equal points.
    proof fn lemma_serialized_injective(&self, other: &Self)
        ensures
            self.spec_bytes() == other.spec_bytes() ==> *self == *other,
    ;

    fn zero() -> (r: Self)
        ensures
            r.spec_is_zero(),
    ;

    fn add_assign(&mut self, other: &Self)
        ensures
            *final(self) == (*old(self)).spec_add(*other),
    ;

    fn serialize(&self) -> (r: [u8; SIGNATURE_BYTES_LEN])
        ensures
            r@ == self.spec_bytes(),
            Self::spec_valid_bytes(r@),
    ;

    fn deserialize(bytes: &[u8]) -> (r: Result<Self, Error>)
        ensures
            r is Ok <==> Self::spec_valid_bytes(bytes@),
            r matches Ok(s) ==> s.spec_bytes() == bytes@,
    ;

    fn verify(&self, pubkey: &PublicKey, msg: &[u8]) -> (r: bool)
        ensures
            r == self.spec_verify(pubkey, msg@),
    ;

    fn fast_aggregate_verify(&self, pubkeys: &[PublicKey], msg: &[u8]) -> (r: bool)
        ensures
            r == self.spec_fast_aggregate_verify(pubkeys@, msg@),
    ;
}

/// A signature tagged with the public-key type it verifies against.
pub struct Signature<PublicKey, T: TSignature<PublicKey>> {
    point: T,
    _phantom: core::marker::PhantomData<PublicKey>,
}

impl<PublicKey, T: TSignature<PublicKey> + Copy> Clone for Signature<PublicKey, T> {
    fn clone(&self) -> (r: Self)
        ensures
            r == *self,
    {
        Signature { point: self.point, _phantom: core::marker::PhantomData }
    }
}

impl<PublicKey, T: TSignature<PublicKey> + Copy> Copy for Signature<PublicKey, T> {

}

impl<PublicKey, T: TSignature<PublicKey>> Signature<PublicKey, T> {
    /// The backend point carried by this signature.
    pub closed spec fn spec_point(&self) -> T {
        self.point
    }

    pub fn zero() -> (r: Self)
        ensures
            r.spec_point().spec_is_zero(),
    {
        Self { point: T::zero(), _phantom: core::marker::PhantomData }
    }

    pub fn add_assign(&mut self, other: &Self)
        ensures
            final(self).spec_point() == old(self).spec_point().spec_add(other.spec_point()),
    {
        self.point.add_assign(&other.point)
    }

    pub fn serialize(&self) -> (r: [u8; SIGNATURE_BYTES_LEN])
        ensures
            r@ == self.spec_point().spec_bytes(),
            T::spec_valid_bytes(r@),
    {
        self.point.serialize()
    }

    pub fn deserialize(bytes: &[u8]) -> (r: Result<Self, Error>)
        ensures
            r is Ok <==> T::spec_valid_bytes(bytes@),
            r matches Ok(s) ==> s.spec_point().spec_bytes() == bytes@,
    {
        match T::deserialize(bytes) {
            Ok(point) => Ok(Self { point, _phantom: core::marker::PhantomData }),
            Err(e) => Err(e),
        }
    }

    pub fn verify(&self, pubkey: &PublicKey, msg: &[u8]) -> (r: bool)
        ensures
            r == self.spec_point().spec_verify(pubkey, msg@),
    {
        self.point.verify(pubkey, msg)
    }

    pub fn fast_aggregate_verify(&self, pubkeys: &[PublicKey], msg: &[u8]) -> (r: bool)
        ensures
            r == self.spec_point().spec_fast_aggregate_verify(pubkeys@, msg@),
    {
        self.point.fast_aggregate_verify(pubkeys, msg)
    }
}

/// Two signatures with the same canonical byte form are the same
/// signature: the backend's serialization is injective.
pub proof fn lemma_signature_injective<PublicKey, T: TSignature<PublicKey>>(
    a: &Signature<PublicKey, T>,
    b: &Signature<PublicKey, T>,
)
    ensures
        a.spec_point().spec_bytes() == b.spec_point().spec_bytes() ==> *a == *b,
{
    if a.spec_point().spec_bytes() == b.spec_point().spec_bytes() {
        a.point.lemma_serialized_injective(&b.point);
    }
}

/// A transparent backend that carries the serialized bytes and accepts every
/// (signature, key, message) triple. Aggregation leaves the point unchanged.
/// It stands in for a cryptographic backend wherever real key material is
/// not in play, such as in tests of the networking core.
#[derive(Clone, Copy, Debug)]
pub struct FakeSignature {
    pub bytes: [u8; SIGNATURE_BYTES_LEN],
}

impl<PublicKey> TSignature<PublicKey> for FakeSignature {
    open spec fn spec_is_zero(&self) -> bool {
        forall|i: int| 0 <= i < SIGNATURE_BYTES_LEN ==> self.bytes@[i] == 0u8
    }

    open spec fn spec_bytes(&self) -> Seq<u8> {
        self.bytes@
    }

    open spec fn spec_add(self, other: Self) -> Self {
        self
    }

    open spec fn spec_valid_bytes(bytes: Seq<u8>) -> bool {
        bytes.len() == SIGNATURE_BYTES_LEN
    }

    open spec fn spec_verify(&self, pubkey: &PublicKey, msg: Seq<u8>) -> bool {
        true
    }

    open spec fn spec_fast_aggregate_verify(&self, pubkeys: Seq<PublicKey>, msg: Seq<u8>) -> bool {
        true
    }

    proof fn lemma_serialized_injective(&self, other: &Self) {
        if self.bytes@ == other.bytes@ {
            assert(self.bytes =~= other.bytes);
        }
    }

    fn zero() -> (r: Self) {
        FakeSignature { bytes: [0u8; SIGNATURE_BYTES_LEN] }
    }

    fn add_assign(&mut self, other: &Self) {
    }

    fn serialize(&self) -> (r: [u8; SIGNATURE_BYTES_LEN]) {
        self.bytes
    }

    fn deserialize(bytes: &[u8]) -> (r: Result<Self, Error>) {
        if bytes.len() != SIGNATURE_BYTES_LEN {
            return Err(Error::InvalidByteLength { got: bytes.len(), expected: SIGNATURE_BYTES_LEN });
        }
        let mut out: [u8; SIGNATURE_BYTES_LEN] = [0u8; SIGNATURE_BYTES_LEN];
        let mut i: usize = 0;
        while i < SIGNATURE_BYTES_LEN
            invariant
                i <= SIGNATURE_BYTES_LEN,
                bytes@.len() == SIGNATURE_BYTES_LEN,
                out@.len() == SIGNATURE_BYTES_LEN,
                forall|j: int| 0 <= j < i ==> out@[j] == bytes@[j],
            decreases SIGNATURE_BYTES_LEN - i,
        {
            out[i] = bytes[i];
            i = i + 1;
        }
        proof {
            assert(out@ =~= bytes@);
        }
        Ok(FakeSignature { bytes: out })
    }

    fn verify(&self, pubkey: &PublicKey, msg: &[u8]) -> (r: bool) {
        true
    }

    fn fast_aggregate_verify(&self, pubkeys: &[PublicKey], msg: &[u8]) -> (r: bool) {
        true
    }
}

} // verus!
