//! Points of the two source groups of BN254, held in their compressed
//! encoding. The group law is `ark-ec`'s.

use crate::dto::{CustomError, ErrorKind};
use ark_bn254::{Bn254, G1Affine, G2Affine};
use ark_ec::CurveGroup;
use ark_serialize::{CanonicalDeserialize, CanonicalSerialize};
use vstd::prelude::*;

verus! {

/// Length of the compressed encoding of a point of the first group.
pub const G1_BYTES: usize = 32;

/// Length of the compressed encoding of a point of the second group.
pub const G2_BYTES: usize = 64;

/// A point of the first group, by its compressed encoding.
#[derive(Debug)]
pub struct G1Point {
    pub bytes: Vec<u8>,
}

/// A point of the second group, by its compressed encoding.
#[derive(Debug)]
pub struct G2Point {
    pub bytes: Vec<u8>,
}

/// The encoding of the sum of the two points of the first group that `a` and
/// `b` encode; `None` where one of them encodes no point.
pub uninterp spec fn g1_sum(a: Seq<u8>, b: Seq<u8>) -> Option<Seq<u8>>;

/// The encoding of the sum of the two points of the second group that `a`
/// and `b` encode; `None` where one of them encodes no point.
pub uninterp spec fn g2_sum(a: Seq<u8>, b: Seq<u8>) -> Option<Seq<u8>>;

/// Adds two points of the first group: both are decoded with
/// `CanonicalDeserialize::deserialize_compressed`, added with `ark-ec`'s
/// `Add` for affine points, and the sum is encoded with
/// `CanonicalSerialize::serialize_compressed`. The contract only names the
/// outcome.
#[verifier::external_body]
pub(crate) fn g1_add(a: &G1Point, b: &G1Point) -> (r: Option<G1Point>)
    ensures
        (match r {
            Some(p) => Some(p.bytes@),
            None => None,
        }) == g1_sum(a.bytes@, b.bytes@),
{
    let x = G1Affine::deserialize_compressed(a.bytes.as_slice()).ok()?;
    let y = G1Affine::deserialize_compressed(b.bytes.as_slice()).ok()?;
    let mut bytes = Vec::new();
    (x + y).into_affine().serialize_compressed(&mut bytes).ok()?;
    Some(G1Point { bytes })
}

/// Adds two points of the second group, as `g1_add` does in the first.
#[verifier::external_body]
pub(crate) fn g2_add(a: &G2Point, b: &G2Point) -> (r: Option<G2Point>)
    ensures
        (match r {
            Some(p) => Some(p.bytes@),
            None => None,
        }) == g2_sum(a.bytes@, b.bytes@),
{
    let x = G2Affine::deserialize_compressed(a.bytes.as_slice()).ok()?;
    let y = G2Affine::deserialize_compressed(b.bytes.as_slice()).ok()?;
    let mut bytes = Vec::new();
    (x + y).into_affine().serialize_compressed(&mut bytes).ok()?;
    Some(G2Point { bytes })
}

/// A Groth16 proof: the three group elements `A`, `B` and `C`.
#[derive(Debug)]
pub struct Proof {
    pub a: G1Point,
    pub b: G2Point,
    pub c: G1Point,
}

impl Proof {
    /// The proof's canonical encoding: `A`, then `B`, then `C`.
    pub open spec fn spec_bytes(self) -> Seq<u8> {
        self.a.bytes@ + self.b.bytes@ + self.c.bytes@
    }

    /// Every element has the length of its group's encoding.
    pub open spec fn framed(self) -> bool {
        &&& self.a.bytes@.len() == G1_BYTES
        &&& self.b.bytes@.len() == G2_BYTES
        &&& self.c.bytes@.len() == G1_BYTES
    }

    /// The proof's canonical encoding.
    pub fn to_bytes(&self) -> (r: Vec<u8>)
        ensures
            r@ == self.spec_bytes(),
    {
        let mut out: Vec<u8> = Vec::new();
        append_bytes(&mut out, &self.a.bytes);
        append_bytes(&mut out, &self.b.bytes);
        append_bytes(&mut out, &self.c.bytes);
        out
    }

    /// Cuts an encoded proof into its three elements; `None` unless `bytes`
    /// is exactly as long as the three encodings together.
    pub fn from_bytes(bytes: &Vec<u8>) -> (r: Option<Proof>)
        ensures
            r is Some <==> bytes@.len() == G1_BYTES + G2_BYTES + G1_BYTES,
            r matches Some(p) ==> p.framed() && p.spec_bytes() == bytes@,
    {
        if bytes.len() != G1_BYTES + G2_BYTES + G1_BYTES {
            return None;
        }
        let a = slice_bytes(bytes, 0, G1_BYTES);
        let b = slice_bytes(bytes, G1_BYTES, G1_BYTES + G2_BYTES);
        let c = slice_bytes(bytes, G1_BYTES + G2_BYTES, G1_BYTES + G2_BYTES + G1_BYTES);
        let p = Proof { a: G1Point { bytes: a }, b: G2Point { bytes: b }, c: G1Point { bytes: c } };
        assert(p.spec_bytes() =~= bytes@);
        Some(p)
    }
}

/// Whether `ark-groth16` reads a proof from `bytes`.
pub uninterp spec fn is_proof_encoding(bytes: Seq<u8>) -> bool;

/// Tries `CanonicalDeserialize::deserialize_compressed_unchecked` of
/// `ark-groth16`'s proof on the bytes. The contract only names the outcome.
#[verifier::external_body]
fn decodes_as_proof(bytes: &Vec<u8>) -> (r: bool)
    ensures
        r == is_proof_encoding(bytes@),
{
    ark_groth16::Proof::<Bn254>::deserialize_compressed_unchecked(bytes.as_slice()).is_ok()
}

/// Reads a proof from its canonical encoding, as the prover wrote it. Bytes
/// of another length than a proof's, and bytes that encode no proof, are a
/// `DeserializationFailure`.
pub fn parse_proof(data: &Vec<u8>) -> (r: Result<Proof, CustomError>)
    ensures
        r is Ok <==> data@.len() == G1_BYTES + G2_BYTES + G1_BYTES && is_proof_encoding(data@),
        r matches Ok(p) ==> p.framed() && p.spec_bytes() == data@,
        r matches Err(e) ==> e.spec_kind() == ErrorKind::DeserializationFailure && e.spec_message()
            == "Failed to deserialize proof"@,
{
    match Proof::from_bytes(data) {
        Some(p) => {
            if decodes_as_proof(data) {
                Ok(p)
            } else {
                Err(
                    CustomError::new(
                        ErrorKind::DeserializationFailure,
                        "Failed to deserialize proof",
                    ),
                )
            }
        },
        None => Err(
            CustomError::new(ErrorKind::DeserializationFailure, "Failed to deserialize proof"),
        ),
    }
}

/// Appends `more` to `out`.
fn append_bytes(out: &mut Vec<u8>, more: &Vec<u8>)
    ensures
        final(out)@ == old(out)@ + more@,
{
    let ghost before = out@;
    let mut i: usize = 0;
    while i < more.len()
        invariant
            i <= more.len(),
            out@ == before + more@.take(i as int),
        decreases more.len() - i,
    {
        out.push(more[i]);
        assert(out@ =~= before + more@.take(i as int + 1));
        i += 1;
    }
    assert(more@.take(more.len() as int) =~= more@);
}

/// The bytes of `bytes` from `from` up to `to`.
pub fn slice_bytes(bytes: &Vec<u8>, from: usize, to: usize) -> (r: Vec<u8>)
    requires
        from <= to <= bytes.len(),
    ensures
        r@ == bytes@.subrange(from as int, to as int),
{
    let mut out: Vec<u8> = Vec::new();
    let mut i: usize = from;
    while i < to
        invariant
            from <= i <= to,
            to <= bytes.len(),
            out@ == bytes@.subrange(from as int, i as int),
        decreases to - i,
    {
        out.push(bytes[i]);
        assert(out@ =~= bytes@.subrange(from as int, i as int + 1));
        i += 1;
    }
    out
}

} // verus!
