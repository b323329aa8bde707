//! The direct prover: a Groth16 proof from the full witness, made by
//! `ark-groth16` with the reduction of `ark-circom`. What is decided here is
//! which requests reach it.

use crate::curve::Proof;
use crate::dto::{CustomError, ErrorKind};
use crate::field::{values, Scalar};
use crate::keys::{
    first_a_query, first_b_g2_query, has_proving_key_frame, proving_key_framed,
    read_first_a_query, read_first_b_g2_query,
};
use crate::qap::MAX_DOMAIN_SIZE;
use crate::r1cs::{matrix_in_range, ConstraintMatrices};
use ark_bn254::{Bn254, Fr};
use ark_circom::CircomReduction;
use ark_ff::{BigInt, PrimeField};
use ark_groth16::{Groth16, ProvingKey};
use ark_relations::r1cs::ConstraintMatrices as Matrices;
use ark_relations::r1cs::Matrix;
use ark_serialize::{CanonicalDeserialize, CanonicalSerialize};
use vstd::prelude::*;

verus! {

/// How many elements the `a_query` and the `b_g2_query` of the proving key
/// encoded in `pk` have; `None` where the bytes do not decode.
pub uninterp spec fn key_query_sizes(pk: Seq<u8>) -> Option<(nat, nat)>;

/// Decodes a proving key with
/// `CanonicalDeserialize::deserialize_compressed_unchecked` and hands out the
/// lengths of its `a_query` and `b_g2_query`. The decoder reserves room for
/// every vector by the length that the bytes announce, hence the demand that
/// the lengths fit the bytes. The contract only names the outcome.
#[verifier::external_body]
fn proving_key_sizes(pk: &Vec<u8>) -> (r: Option<(usize, usize)>)
    requires
        proving_key_framed(pk@),
    ensures
        (match r {
            Some(s) => Some((s.0 as nat, s.1 as nat)),
            None => None,
        }) == key_query_sizes(pk@),
{
    let key = ProvingKey::<Bn254>::deserialize_compressed_unchecked(pk.as_slice()).ok()?;
    Some((key.a_query.len(), key.b_g2_query.len()))
}

/// The canonical encoding, by `ark-serialize`, of the three matrices, the
/// assignment and the two blinding factors together.
pub uninterp spec fn system_encoding(
    a: Seq<Seq<(int, int)>>,
    b: Seq<Seq<(int, int)>>,
    c: Seq<Seq<(int, int)>>,
    w: Seq<int>,
    blinding: Seq<int>,
) -> Seq<u8>;

/// Encodes the matrices, the assignment and the blinding factors `r` and `s`
/// with `CanonicalSerialize::serialize_compressed`, as one tuple of
/// `ark-relations` matrices and vectors of field elements. The contract only
/// names the outcome.
#[verifier::external_body]
fn encode_system(m: &ConstraintMatrices, w: &Vec<Scalar>, r: &Scalar, s: &Scalar) -> (out: Vec<u8>)
    ensures
        out@ == system_encoding(
            m.a_view(),
            m.b_view(),
            m.c_view(),
            values(w@),
            seq![r@ as int, s@ as int],
        ),
{
    let f = |s: &Scalar| Fr::from_bigint(BigInt(s.limbs())).unwrap();
    let [a, b, c] = [&m.a, &m.b, &m.c].map(|t| -> Matrix<Fr> {
        t.iter().map(|r| r.iter().map(|e| (f(&e.0), e.1)).collect()).collect()
    });
    let rs = vec![f(r), f(s)];
    let xs: Vec<Fr> = w.iter().map(f).collect();
    let mut out = Vec::new();
    (a, b, c, xs, rs).serialize_compressed(&mut out).unwrap();
    out
}

/// `system` encodes matrices of `nc` rows each, an assignment that starts
/// with `ni` public variables, and two blinding factors that are both zero,
/// and no row of the first two matrices reaches past the assignment.
pub open spec fn encodes_sound_system(system: Seq<u8>, ni: nat, nc: nat) -> bool {
    exists|
        a: Seq<Seq<(int, int)>>,
        b: Seq<Seq<(int, int)>>,
        c: Seq<Seq<(int, int)>>,
        w: Seq<int>,
        blinding: Seq<int>,
    |
        #[trigger] system_encoding(a, b, c, w, blinding) == system && a.len() == nc && b.len()
            == nc && 1 <= ni <= w.len() && blinding == seq![0int, 0int] && matrix_in_range(
            a,
            w.len() as int,
        ) && matrix_in_range(b, w.len() as int)
}

/// The six counts that go with the matrices: public variables, private
/// variables, constraints, and the entries of each matrix.
pub open spec fn counts(m: ConstraintMatrices) -> Seq<nat> {
    seq![
        m.num_instance_variables as nat,
        m.num_witness_variables as nat,
        m.num_constraints as nat,
        m.a_num_non_zero as nat,
        m.b_num_non_zero as nat,
        m.c_num_non_zero as nat,
    ]
}

/// The encoding of the proof that `ark-groth16` makes from the proving key
/// encoded in `pk`, the system encoded in `system`, which holds the
/// blinding factors too, and the counts that go with it; `None` where it
/// makes none.
pub uninterp spec fn groth16_proof(pk: Seq<u8>, system: Seq<u8>, counts: Seq<nat>) -> Option<
    Seq<u8>,
>;

/// Runs `Groth16::<Bn254, CircomReduction>::create_proof_with_reduction_and_matrices`
/// of `ark-groth16` on the decoded key and system, and encodes the proof
/// with `CanonicalSerialize::serialize_compressed`. The call indexes the
/// assignment by the columns of the first two matrices, slices it at the
/// number of public variables, and takes the first element of two of the
/// key's queries; with a blinding factor that is not zero it takes the first
/// element of a third query too. Hence the demands: the system is one that
/// was encoded without blinding. The contract only names the outcome.
#[verifier::external_body]
fn groth16_prove(
    pk: &Vec<u8>,
    system: &Vec<u8>,
    ni: usize,
    nw: usize,
    nc: usize,
    za: usize,
    zb: usize,
    zc: usize,
) -> (r: Option<Vec<u8>>)
    requires
        proving_key_framed(pk@),
        encodes_sound_system(system@, ni as nat, nc as nat),
        nc + ni <= usize::MAX,
        key_query_sizes(pk@) matches Some(sizes) && sizes.0 >= 1 && sizes.1 >= 1,
    ensures
        (match r {
            Some(bytes) => Some(bytes@),
            None => None,
        }) == groth16_proof(
            pk@,
            system@,
            seq![ni as nat, nw as nat, nc as nat, za as nat, zb as nat, zc as nat],
        ),
{
    let key = ProvingKey::<Bn254>::deserialize_compressed_unchecked(pk.as_slice()).ok()?;
    let (a, b, c, w, rs) = <(Matrix<Fr>, Matrix<Fr>, Matrix<Fr>, Vec<Fr>, Vec<Fr>)>
        ::deserialize_compressed(system.as_slice()).ok()?;
    let ms = Matrices { num_instance_variables: ni, num_witness_variables: nw,
        num_constraints: nc, a_num_non_zero: za, b_num_non_zero: zb, c_num_non_zero: zc, a, b, c };
    let p = Groth16::<Bn254, CircomReduction>::create_proof_with_reduction_and_matrices(
        &key, rs[0], rs[1], &ms, ni, nc, &w).ok()?;
    let mut out = Vec::new();
    p.serialize_compressed(&mut out).ok()?;
    Some(out)
}

/// The proving key encoded in `pk` can be proved with: its frame fits, the
/// two queries that the prover starts from are not empty, neither in the
/// frame nor as the key decodes.
pub open spec fn key_usable(pk: Seq<u8>) -> bool {
    &&& proving_key_framed(pk)
    &&& first_a_query(pk) is Some
    &&& first_b_g2_query(pk) is Some
    &&& key_query_sizes(pk) matches Some(sizes) && sizes.0 >= 1 && sizes.1 >= 1
}

/// Why a request for a direct proof is refused before any proving, as kind
/// and message; `None` where it is not. The key is looked at first: one
/// whose frame does not fit, that does not decode, or that has nothing to
/// prove with, is a `DeserializationFailure`. An assignment that does not
/// fit the matrices, or does not satisfy a constraint, is a
/// `CircuitUnsatisfied`: an unsatisfied witness fails here, and not later at
/// verification. A system with more constraints and public variables than
/// the largest domain has points is a `ProofGenerationError`.
pub open spec fn prove_refusal(pk: Seq<u8>, m: ConstraintMatrices, w: Seq<int>) -> Option<
    (ErrorKind, Seq<char>),
> {
    if !key_usable(pk) {
        Some((ErrorKind::DeserializationFailure, "Failed to deserialize proving key"@))
    } else if !m.fits(w) {
        Some((ErrorKind::CircuitUnsatisfied, "Witness does not fit the constraint system"@))
    } else if !m.satisfied_by(w) {
        Some((ErrorKind::CircuitUnsatisfied, "Witness does not satisfy the constraints"@))
    } else if m.num_constraints + m.num_instance_variables > MAX_DOMAIN_SIZE {
        Some((ErrorKind::ProofGenerationError, "Constraint system is too large"@))
    } else {
        None
    }
}

/// What the prover's outcome means for the caller: the proof, where there
/// is one and it has the length of a proof; else an error.
pub open spec fn proof_outcome(made: Option<Seq<u8>>) -> Result<Seq<u8>, (ErrorKind, Seq<char>)> {
    match made {
        None => Err((ErrorKind::ProofGenerationError, "Proof generation failed"@)),
        Some(bytes) => if bytes.len() == 128 {
            Ok(bytes)
        } else {
            Err((ErrorKind::DeserializationFailure, "Failed to deserialize proof"@))
        },
    }
}

/// `r` says what `outcome` says.
pub open spec fn delivers(r: Result<Proof, CustomError>, outcome: Result<
    Seq<u8>,
    (ErrorKind, Seq<char>),
>) -> bool {
    match r {
        Ok(p) => outcome == Ok::<Seq<u8>, (ErrorKind, Seq<char>)>(p.spec_bytes()) && p.framed(),
        Err(e) => outcome == Err::<Seq<u8>, (ErrorKind, Seq<char>)>(
            (e.spec_kind(), e.spec_message()),
        ),
    }
}

/// Frames what the prover made as a proof.
pub fn proof_from(made: Option<Vec<u8>>) -> (r: Result<Proof, CustomError>)
    ensures
        delivers(
            r,
            proof_outcome(
                match made {
                    Some(bytes) => Some(bytes@),
                    None => None,
                },
            ),
        ),
{
    match made {
        None => Err(CustomError::new(ErrorKind::ProofGenerationError, "Proof generation failed")),
        Some(bytes) => match Proof::from_bytes(&bytes) {
            Some(p) => Ok(p),
            None => Err(
                CustomError::new(ErrorKind::DeserializationFailure, "Failed to deserialize proof"),
            ),
        },
    }
}

/// What `prove` comes to: the refusal, or what the prover's outcome means.
/// The proof is made without blinding: both factors are zero.
pub open spec fn prove_result(pk: Seq<u8>, m: ConstraintMatrices, w: Seq<int>) -> Result<
    Seq<u8>,
    (ErrorKind, Seq<char>),
> {
    match prove_refusal(pk, m, w) {
        Some(refusal) => Err(refusal),
        None => proof_outcome(
            groth16_proof(
                pk,
                system_encoding(m.a_view(), m.b_view(), m.c_view(), w, seq![0int, 0int]),
                counts(m),
            ),
        ),
    }
}

/// Whether the proving key can be proved with.
pub fn is_key_usable(proving_key: &Vec<u8>) -> (r: bool)
    ensures
        r == key_usable(proving_key@),
{
    if !has_proving_key_frame(proving_key) {
        return false;
    }
    if read_first_a_query(proving_key).is_none() || read_first_b_g2_query(proving_key).is_none() {
        return false;
    }
    match proving_key_sizes(proving_key) {
        Some(sizes) => sizes.0 >= 1 && sizes.1 >= 1,
        None => false,
    }
}

/// Proves, from the full assignment, that the constraint system is
/// satisfied. The key is looked at first, then the assignment is checked
/// against the matrices, then the proof is made.
pub fn prove(proving_key: &Vec<u8>, matrices: &ConstraintMatrices, full_assignment: &Vec<Scalar>) -> (r:
    Result<Proof, CustomError>)
    ensures
        delivers(r, prove_result(proving_key@, *matrices, values(full_assignment@))),
{
    if !is_key_usable(proving_key) {
        return Err(
            CustomError::new(
                ErrorKind::DeserializationFailure,
                "Failed to deserialize proving key",
            ),
        );
    }
    if !matrices.check_fits(full_assignment) {
        return Err(
            CustomError::new(
                ErrorKind::CircuitUnsatisfied,
                "Witness does not fit the constraint system",
            ),
        );
    }
    match matrices.first_unsatisfied(full_assignment) {
        Some(i) => {
            return Err(
                CustomError::new(
                    ErrorKind::CircuitUnsatisfied,
                    "Witness does not satisfy the constraints",
                ),
            );
        },
        None => {},
    }
    let fits_domain = match matrices.num_constraints.checked_add(matrices.num_instance_variables) {
        Some(total) => total <= MAX_DOMAIN_SIZE,
        None => false,
    };
    if !fits_domain {
        return Err(
            CustomError::new(ErrorKind::ProofGenerationError, "Constraint system is too large"),
        );
    }
    let zero = Scalar::zero();
    let system = encode_system(matrices, full_assignment, &zero, &zero);
    assert(encodes_sound_system(
        system@,
        matrices.num_instance_variables as nat,
        matrices.num_constraints as nat,
    )) by {
        let w = values(full_assignment@);
        assert(system_encoding(
            matrices.a_view(),
            matrices.b_view(),
            matrices.c_view(),
            w,
            seq![0int, 0int],
        ) == system@);
    }
    proof_from(
        groth16_prove(
            proving_key,
            &system,
            matrices.num_instance_variables,
            matrices.num_witness_variables,
            matrices.num_constraints,
            matrices.a_num_non_zero,
            matrices.b_num_non_zero,
            matrices.c_num_non_zero,
        ),
    )
}

} // verus!
