//! Checking a proof against a verifying key and public inputs. The pairing
//! check is `ark-groth16`'s; what is decided here is which requests reach
//! it, and what each of its outcomes means for the caller.

use crate::curve::Proof;
use crate::dto::{CustomError, ErrorKind, VerifyProofRequest, VerifyProofResponse};
use crate::field::{decimal_residue, fr_from_decimal, values, Scalar};
use crate::inputs::strings_view;
use crate::text::joined;
use crate::keys::{has_verifying_key_frame, verifying_key_framed};
use ark_bn254::{Bn254, Fr};
use ark_ff::{BigInt, PrimeField};
use ark_groth16::{prepare_verifying_key, Groth16, VerifyingKey};
use ark_relations::r1cs::SynthesisError;
use ark_serialize::CanonicalDeserialize;
use vstd::prelude::*;
use vstd::string::StringExecFns;

verus! {

/// How a pairing check ends.
#[derive(Clone, Copy, Debug, PartialEq, Eq, Structural)]
pub enum VerifyOutcome {
    /// The pairing equation holds.
    Accepted,
    /// The pairing equation does not hold.
    Rejected,
    /// The verifying key's bytes do not decode.
    BadKey,
    /// The proof's bytes do not decode.
    BadProof,
    /// The public inputs are not as many as the key takes.
    Malformed,
    /// The pairing product has no final exponentiation.
    Degenerate,
    /// The verifier ended with an error of another kind.
    Failed,
}

/// How `ark-groth16` ends on the verifying key encoded in `vk`, the public
/// inputs `inputs` and the proof encoded in `proof`.
pub uninterp spec fn groth16_outcome(vk: Seq<u8>, inputs: Seq<int>, proof: Seq<u8>) -> VerifyOutcome;

/// Decodes the key and the proof with
/// `CanonicalDeserialize::deserialize_compressed`, prepares the key with
/// `prepare_verifying_key` and runs `Groth16::verify_proof` of
/// `ark-groth16`, whose two errors, `MalformedVerifyingKey` and
/// `UnexpectedIdentity`, are told apart. The decoder reserves room for the key's vector by the
/// length that the bytes announce, hence the demand that the length fits the
/// bytes. The contract only names the outcome.
#[verifier::external_body]
pub(crate) fn groth16_check(vk: &Vec<u8>, inputs: &Vec<Scalar>, proof: &Vec<u8>) -> (r:
    VerifyOutcome)
    requires
        verifying_key_framed(vk@),
    ensures
        r == groth16_outcome(vk@, values(inputs@), proof@),
{
    let Ok(key) = VerifyingKey::<Bn254>::deserialize_compressed(vk.as_slice()) else {
        return VerifyOutcome::BadKey;
    };
    let Ok(pf) = ark_groth16::Proof::<Bn254>::deserialize_compressed(proof.as_slice()) else {
        return VerifyOutcome::BadProof;
    };
    let xs: Vec<Fr> = inputs.iter().map(|s| Fr::from_bigint(BigInt(s.limbs())).unwrap()).collect();
    match Groth16::<Bn254>::verify_proof(&prepare_verifying_key(&key), &pf, &xs) {
        Ok(true) => VerifyOutcome::Accepted,
        Ok(false) => VerifyOutcome::Rejected,
        Err(SynthesisError::MalformedVerifyingKey) => VerifyOutcome::Malformed,
        Err(SynthesisError::UnexpectedIdentity) => VerifyOutcome::Degenerate,
        Err(_) => VerifyOutcome::Failed,
    }
}

/// The field elements that a list of public inputs writes; `None` where one
/// of the texts is refused.
pub open spec fn residues(texts: Seq<Seq<char>>) -> Option<Seq<int>> {
    if forall|i: int| 0 <= i < texts.len() ==> (#[trigger] decimal_residue(texts[i])) is Some {
        Some(Seq::new(texts.len(), |i: int| decimal_residue(texts[i]).unwrap()))
    } else {
        None
    }
}

/// What is reported for a public input that is no field element.
pub open spec fn parse_failure(e: CustomError) -> bool {
    e.spec_kind() == ErrorKind::InputParseError && e.spec_message()
        == "Failed to parse input string"@
}

/// Reads public inputs, given as decimal texts, into the scalar field. A text
/// that is refused is an `InputParseError`.
pub fn public_inputs_to_scalars(inputs: &Vec<String>) -> (r: Result<Vec<Scalar>, CustomError>)
    ensures
        match residues(strings_view(inputs@)) {
            Some(xs) => r matches Ok(v) && values(v@) == xs,
            None => r matches Err(e) && parse_failure(e),
        },
{
    let ghost texts = strings_view(inputs@);
    let mut out: Vec<Scalar> = Vec::new();
    let mut i: usize = 0;
    while i < inputs.len()
        invariant
            i <= inputs.len(),
            texts == strings_view(inputs@),
            out.len() == i,
            forall|k: int|
                0 <= k < i ==> #[trigger] decimal_residue(texts[k]) == Some(out[k]@ as int),
        decreases inputs.len() - i,
    {
        match fr_from_decimal(inputs[i].as_str()) {
            Some(x) => out.push(x),
            None => {
                assert(decimal_residue(texts[i as int]) is None);
                return Err(
                    CustomError::new(ErrorKind::InputParseError, "Failed to parse input string"),
                );
            },
        }
        i += 1;
    }
    assert(values(out@) =~= residues(texts).unwrap());
    Ok(out)
}

/// What an outcome of the pairing check means: a proof that is accepted or
/// rejected is an answer, and so is one whose pairing product has no final
/// exponentiation: the pairing equation does not hold of it. Everything
/// else is an error with its kind and message.
pub open spec fn verdict(outcome: VerifyOutcome) -> Result<bool, (ErrorKind, Seq<char>)> {
    match outcome {
        VerifyOutcome::Accepted => Ok(true),
        VerifyOutcome::Rejected => Ok(false),
        VerifyOutcome::BadKey => Err(
            (ErrorKind::DeserializationFailure, "Failed to deserialize verifying key"@),
        ),
        VerifyOutcome::BadProof => Err(
            (ErrorKind::DeserializationFailure, "Failed to deserialize proof"@),
        ),
        VerifyOutcome::Malformed => Err(
            (ErrorKind::InputParseError, "Public inputs do not fit the verifying key"@),
        ),
        VerifyOutcome::Degenerate => Ok(false),
        VerifyOutcome::Failed => Err(
            (ErrorKind::DeserializationFailure, "Verification could not be made"@),
        ),
    }
}

/// `r` says what `v` says.
pub open spec fn tells(r: Result<bool, CustomError>, v: Result<bool, (ErrorKind, Seq<char>)>) -> bool {
    match r {
        Ok(b) => v == Ok::<bool, (ErrorKind, Seq<char>)>(b),
        Err(e) => v == Err::<bool, (ErrorKind, Seq<char>)>((e.spec_kind(), e.spec_message())),
    }
}

/// Turns an outcome of the pairing check into the caller's answer: an
/// invalid proof is the answer `false`, not an error.
pub fn verdict_of(outcome: VerifyOutcome) -> (r: Result<bool, CustomError>)
    ensures
        tells(r, verdict(outcome)),
{
    match outcome {
        VerifyOutcome::Accepted => Ok(true),
        VerifyOutcome::Rejected => Ok(false),
        VerifyOutcome::BadKey => Err(
            CustomError::new(
                ErrorKind::DeserializationFailure,
                "Failed to deserialize verifying key",
            ),
        ),
        VerifyOutcome::BadProof => Err(
            CustomError::new(ErrorKind::DeserializationFailure, "Failed to deserialize proof"),
        ),
        VerifyOutcome::Malformed => Err(
            CustomError::new(
                ErrorKind::InputParseError,
                "Public inputs do not fit the verifying key",
            ),
        ),
        VerifyOutcome::Degenerate => Ok(false),
        VerifyOutcome::Failed => Err(
            CustomError::new(ErrorKind::DeserializationFailure, "Verification could not be made"),
        ),
    }
}

/// How the check of a proof against a key ends: a key whose frame does not
/// fit its bytes is not decoded at all.
pub open spec fn check_outcome(vk: Seq<u8>, inputs: Seq<int>, proof: Seq<u8>) -> VerifyOutcome {
    if verifying_key_framed(vk) {
        groth16_outcome(vk, inputs, proof)
    } else {
        VerifyOutcome::BadKey
    }
}

/// Verifies `proof` against the verifying key encoded in `verifying_key` and
/// the public inputs, given as decimal texts. The inputs are read first: a
/// malformed one is an `InputParseError` whatever the key and the proof
/// are.
pub fn verify(verifying_key: &Vec<u8>, public_inputs: &Vec<String>, proof: &Proof) -> (r: Result<
    bool,
    CustomError,
>)
    ensures
        match residues(strings_view(public_inputs@)) {
            Some(xs) => tells(r, verdict(check_outcome(verifying_key@, xs, proof.spec_bytes()))),
            None => r matches Err(e) && parse_failure(e),
        },
{
    let inputs = match public_inputs_to_scalars(public_inputs) {
        Ok(v) => v,
        Err(e) => {
            return Err(e);
        },
    };
    if !has_verifying_key_frame(verifying_key) {
        return verdict_of(VerifyOutcome::BadKey);
    }
    let bytes = proof.to_bytes();
    verdict_of(groth16_check(verifying_key, &inputs, &bytes))
}

/// The message of the error for `failure` in a request on the circuit
/// `circuit_id`: bytes that do not decode are reported with the circuit
/// that they belong to.
pub open spec fn in_context(failure: (ErrorKind, Seq<char>), circuit_id: Seq<char>) -> Seq<char> {
    if failure.0 == ErrorKind::DeserializationFailure {
        failure.1 + " of "@ + circuit_id
    } else {
        failure.1
    }
}

/// Answers a verification request. Without a verifying key for the circuit
/// the request is an `ArtifactNotFound`; else the answer carries the request's
/// inputs and proof back, with the verdict. A key or a proof that does not
/// decode is reported with the circuit's id.
pub fn verify_proof(
    request: VerifyProofRequest,
    verifying_key: Option<Vec<u8>>,
    time_taken: i64,
) -> (r: Result<VerifyProofResponse, CustomError>)
    ensures
        match verifying_key {
            None => r matches Err(e) && e.spec_kind() == ErrorKind::ArtifactNotFound
                && e.spec_message() == "Verifying key not found"@,
            Some(key) => match residues(strings_view(request.public_inputs@)) {
                None => r matches Err(e) && parse_failure(e),
                Some(xs) => match verdict(check_outcome(key@, xs, request.proof.spec_bytes())) {
                    Ok(valid) => r matches Ok(res) && res.is_valid == valid && res.circuit_id
                        == request.circuit_id && res.public_inputs == Some(request.public_inputs)
                        && res.proof == Some(request.proof) && res.verifier_key is None
                        && res.time_taken == Some(time_taken) && (res.remarks matches Some(text)
                        && text@ == "Verification completed"@),
                    Err(failure) => r matches Err(e) && e.spec_kind() == failure.0
                        && e.spec_message() == in_context(failure, request.circuit_id@),
                },
            },
        },
{
    let key = match verifying_key {
        Some(key) => key,
        None => {
            return Err(CustomError::new(ErrorKind::ArtifactNotFound, "Verifying key not found"));
        },
    };
    let valid = match verify(&key, &request.public_inputs, &request.proof) {
        Ok(valid) => valid,
        Err(e) => {
            return match e.kind() {
                ErrorKind::DeserializationFailure => {
                    let mut message = joined(e.message(), " of ");
                    message.append(request.circuit_id.as_str());
                    Err(CustomError::new(ErrorKind::DeserializationFailure, message.as_str()))
                },
                _ => Err(e),
            };
        },
    };
    Ok(
        VerifyProofResponse {
            circuit_id: request.circuit_id,
            public_inputs: Some(request.public_inputs),
            verifier_key: None,
            proof: Some(request.proof),
            is_valid: valid,
            time_taken: Some(time_taken),
            remarks: Some(String::from_str("Verification completed")),
        },
    )
}

} // verus!
