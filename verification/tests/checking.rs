use ark_bn254::{Bn254, Fr};
use ark_groth16::Groth16;
use ark_relations::r1cs::{
    ConstraintSynthesizer, ConstraintSystemRef, LinearCombination, SynthesisError, Variable,
};
use ark_serialize::CanonicalSerialize;
use ark_std::rand::rngs::StdRng;
use ark_std::rand::SeedableRng;
use mpc_prover::curve::{parse_proof, G1Point, G2Point, Proof};
use mpc_prover::dto::{ErrorKind, VerifyProofRequest};
use mpc_prover::field::{Scalar, MODULUS_L0, MODULUS_L1, MODULUS_L2, MODULUS_L3};
use mpc_prover::service::SETUP_SEED_BYTE;
use mpc_prover::verify::{
    public_inputs_to_scalars, verdict_of, verify, verify_proof, VerifyOutcome,
};

const MODULUS: &str =
    "21888242871839275222246405745257275088548364400416034343698204186575808495617";

/// The circuit `c = a + b`, with `c` public.
struct Adder {
    a: Option<Fr>,
    b: Option<Fr>,
}

impl ConstraintSynthesizer<Fr> for Adder {
    fn generate_constraints(self, cs: ConstraintSystemRef<Fr>) -> Result<(), SynthesisError> {
        let a = cs.new_witness_variable(|| self.a.ok_or(SynthesisError::AssignmentMissing))?;
        let b = cs.new_witness_variable(|| self.b.ok_or(SynthesisError::AssignmentMissing))?;
        let c = cs.new_input_variable(|| {
            let a = self.a.ok_or(SynthesisError::AssignmentMissing)?;
            let b = self.b.ok_or(SynthesisError::AssignmentMissing)?;
            Ok(a + b)
        })?;
        cs.enforce_constraint(
            LinearCombination::from(a) + b,
            LinearCombination::from(Variable::One),
            LinearCombination::from(c),
        )
    }
}

fn strings(xs: &[&str]) -> Vec<String> {
    xs.iter().map(|x| x.to_string()).collect()
}

/// Registers the adder and proves `1 + 2`: the verifying key's bytes and the
/// proof.
fn adder_key_and_proof() -> (Vec<u8>, Proof) {
    let mut rng = StdRng::from_seed([SETUP_SEED_BYTE; 32]);
    let pk = Groth16::<Bn254>::generate_random_parameters_with_reduction(
        Adder { a: None, b: None },
        &mut rng,
    )
    .unwrap();
    let proof = Groth16::<Bn254>::create_random_proof_with_reduction(
        Adder { a: Some(Fr::from(1u64)), b: Some(Fr::from(2u64)) },
        &pk,
        &mut rng,
    )
    .unwrap();
    let mut vk = Vec::new();
    pk.vk.serialize_compressed(&mut vk).unwrap();
    let mut bytes = Vec::new();
    proof.serialize_compressed(&mut bytes).unwrap();
    (vk, Proof::from_bytes(&bytes).unwrap())
}

fn copy_of(p: &Proof) -> Proof {
    Proof {
        a: G1Point { bytes: p.a.bytes.clone() },
        b: G2Point { bytes: p.b.bytes.clone() },
        c: G1Point { bytes: p.c.bytes.clone() },
    }
}

#[test]
fn adder_proof_verifies_against_three_and_not_against_four() {
    let (vk, proof) = adder_key_and_proof();
    assert_eq!(verify(&vk, &strings(&["3"]), &proof).unwrap(), true);
    assert_eq!(verify(&vk, &strings(&["4"]), &proof).unwrap(), false);
}

#[test]
fn proof_with_one_byte_changed_does_not_verify() {
    let (vk, proof) = adder_key_and_proof();
    let bytes = proof.to_bytes();
    for at in [0usize, 17, 31, 32, 70, 95, 96, 127] {
        let mut changed = bytes.clone();
        changed[at] ^= 0x01;
        let p = Proof::from_bytes(&changed).unwrap();
        match verify(&vk, &strings(&["3"]), &p) {
            Ok(valid) => assert!(!valid, "byte {}", at),
            Err(e) => assert_eq!(e.kind(), ErrorKind::DeserializationFailure),
        }
    }
}

#[test]
fn proof_frames_its_three_elements() {
    let (_, proof) = adder_key_and_proof();
    assert_eq!(proof.a.bytes.len(), 32);
    assert_eq!(proof.b.bytes.len(), 64);
    assert_eq!(proof.c.bytes.len(), 32);
    let bytes = proof.to_bytes();
    assert_eq!(bytes.len(), 128);
    assert_eq!(&bytes[..32], &proof.a.bytes[..]);
    assert_eq!(&bytes[32..96], &proof.b.bytes[..]);
    assert_eq!(&bytes[96..], &proof.c.bytes[..]);
    assert!(Proof::from_bytes(&bytes[..127].to_vec()).is_none());
    let mut longer = bytes.clone();
    longer.push(0);
    assert!(Proof::from_bytes(&longer).is_none());
    assert!(Proof::from_bytes(&vec![]).is_none());
}

#[test]
fn proof_is_read_back_from_its_encoding() {
    let (_, proof) = adder_key_and_proof();
    let bytes = proof.to_bytes();
    let back = parse_proof(&bytes).unwrap();
    assert_eq!(back.to_bytes(), bytes);
    assert_eq!(back.a.bytes, proof.a.bytes);
}

#[test]
fn bytes_that_are_no_proof_are_refused() {
    let (_, proof) = adder_key_and_proof();
    let bytes = proof.to_bytes();
    for data in [vec![], bytes[..127].to_vec(), vec![0xffu8; 128]] {
        let e = parse_proof(&data).unwrap_err();
        assert_eq!(e.kind(), ErrorKind::DeserializationFailure);
        assert_eq!(e.message(), "Failed to deserialize proof");
    }
}

#[test]
fn malformed_public_input_is_no_verification_failure() {
    let (vk, proof) = adder_key_and_proof();
    let e = verify(&vk, &strings(&["three"]), &proof).unwrap_err();
    assert_eq!(e.kind(), ErrorKind::InputParseError);
    assert_eq!(e.message(), "Failed to parse input string");
}

#[test]
fn malformed_public_input_is_found_before_the_key_is_read() {
    let (_, proof) = adder_key_and_proof();
    let e = verify(&vec![1, 2, 3], &strings(&["three"]), &proof).unwrap_err();
    assert_eq!(e.kind(), ErrorKind::InputParseError);
}

#[test]
fn key_that_does_not_decode_is_a_deserialization_failure() {
    let (_, proof) = adder_key_and_proof();
    let e = verify(&vec![1, 2, 3], &strings(&["3"]), &proof).unwrap_err();
    assert_eq!(e.kind(), ErrorKind::DeserializationFailure);
    assert_eq!(e.message(), "Failed to deserialize verifying key");
}

#[test]
fn key_that_announces_more_than_it_holds_is_a_deserialization_failure() {
    let (vk, proof) = adder_key_and_proof();
    let mut absurd = vk[..224].to_vec();
    absurd.extend_from_slice(&(1u64 << 61).to_le_bytes());
    absurd.extend_from_slice(&vk[232..]);
    for key in [absurd, vk[..231].to_vec(), vk[..vk.len() - 1].to_vec()] {
        let e = verify(&key, &strings(&["3"]), &proof).unwrap_err();
        assert_eq!(e.kind(), ErrorKind::DeserializationFailure);
        assert_eq!(e.message(), "Failed to deserialize verifying key");
    }
}

#[test]
fn proof_that_does_not_decode_is_a_deserialization_failure() {
    let (vk, _) = adder_key_and_proof();
    let junk = Proof::from_bytes(&vec![0xffu8; 128]).unwrap();
    let e = verify(&vk, &strings(&["3"]), &junk).unwrap_err();
    assert_eq!(e.kind(), ErrorKind::DeserializationFailure);
    assert_eq!(e.message(), "Failed to deserialize proof");
}

#[test]
fn wrong_number_of_public_inputs_is_an_input_error() {
    let (vk, proof) = adder_key_and_proof();
    for inputs in [strings(&[]), strings(&["3", "4"])] {
        let e = verify(&vk, &inputs, &proof).unwrap_err();
        assert_eq!(e.kind(), ErrorKind::InputParseError);
        assert_eq!(e.message(), "Public inputs do not fit the verifying key");
    }
}

#[test]
fn every_outcome_has_its_meaning() {
    assert_eq!(verdict_of(VerifyOutcome::Accepted).unwrap(), true);
    assert_eq!(verdict_of(VerifyOutcome::Rejected).unwrap(), false);
    let e = verdict_of(VerifyOutcome::BadKey).unwrap_err();
    assert_eq!(e.kind(), ErrorKind::DeserializationFailure);
    assert_eq!(e.message(), "Failed to deserialize verifying key");
    let e = verdict_of(VerifyOutcome::BadProof).unwrap_err();
    assert_eq!(e.kind(), ErrorKind::DeserializationFailure);
    assert_eq!(e.message(), "Failed to deserialize proof");
    let e = verdict_of(VerifyOutcome::Malformed).unwrap_err();
    assert_eq!(e.kind(), ErrorKind::InputParseError);
    assert_eq!(e.message(), "Public inputs do not fit the verifying key");
    assert_eq!(verdict_of(VerifyOutcome::Degenerate).unwrap(), false);
    let e = verdict_of(VerifyOutcome::Failed).unwrap_err();
    assert_eq!(e.kind(), ErrorKind::DeserializationFailure);
    assert_eq!(e.message(), "Verification could not be made");
}

#[test]
fn decimal_texts_are_read_as_field_elements() {
    let got = public_inputs_to_scalars(&strings(&["3", "0", "18446744073709551616"])).unwrap();
    assert_eq!(got[0], Scalar::from_u64(3));
    assert_eq!(got[1], Scalar::zero());
    assert_eq!(got[2], Scalar::from_limbs(0, 1, 0, 0).unwrap());
}

#[test]
fn decimal_texts_are_reduced_modulo_the_field_order() {
    let above = "21888242871839275222246405745257275088548364400416034343698204186575808495618";
    let below = "21888242871839275222246405745257275088548364400416034343698204186575808495616";
    let got = public_inputs_to_scalars(&strings(&[MODULUS, above, below])).unwrap();
    assert_eq!(got[0], Scalar::zero());
    assert_eq!(got[1], Scalar::one());
    assert_eq!(
        got[2],
        Scalar::from_limbs(MODULUS_L0 - 1, MODULUS_L1, MODULUS_L2, MODULUS_L3).unwrap()
    );
}

#[test]
fn leading_zeros_do_not_change_the_number() {
    let got = public_inputs_to_scalars(&strings(&["007"])).unwrap();
    assert_eq!(got, vec![Scalar::from_u64(7)]);
}

#[test]
fn texts_that_are_no_numbers_are_refused() {
    for text in ["", "abc", "1.5", "0x10", " 3", "3 "] {
        let e = public_inputs_to_scalars(&strings(&["1", text])).unwrap_err();
        assert_eq!(e.kind(), ErrorKind::InputParseError, "{:?}", text);
        assert_eq!(e.message(), "Failed to parse input string");
    }
}

#[test]
fn no_public_inputs_are_no_scalars() {
    assert!(public_inputs_to_scalars(&vec![]).unwrap().is_empty());
}

#[test]
fn request_without_a_key_is_not_found() {
    let (_, proof) = adder_key_and_proof();
    let request = VerifyProofRequest {
        circuit_id: "circuit_missing_1".to_string(),
        proof,
        public_inputs: strings(&["3"]),
    };
    let e = verify_proof(request, None, 5).unwrap_err();
    assert_eq!(e.kind(), ErrorKind::ArtifactNotFound);
    assert_eq!(e.message(), "Verifying key not found");
}

#[test]
fn answer_carries_the_request_and_the_verdict() {
    let (vk, proof) = adder_key_and_proof();
    let bytes = proof.to_bytes();
    let request = VerifyProofRequest {
        circuit_id: "circuit_adder_1".to_string(),
        proof: copy_of(&proof),
        public_inputs: strings(&["3"]),
    };
    let res = verify_proof(request, Some(vk.clone()), 12).unwrap();
    assert_eq!(res.circuit_id, "circuit_adder_1");
    assert_eq!(res.public_inputs, Some(strings(&["3"])));
    assert!(res.verifier_key.is_none());
    assert_eq!(res.proof.unwrap().to_bytes(), bytes);
    assert!(res.is_valid);
    assert_eq!(res.time_taken, Some(12));
    assert_eq!(res.remarks, Some("Verification completed".to_string()));

    let request = VerifyProofRequest {
        circuit_id: "circuit_adder_1".to_string(),
        proof,
        public_inputs: strings(&["4"]),
    };
    let res = verify_proof(request, Some(vk), 12).unwrap();
    assert!(!res.is_valid);
    assert_eq!(res.remarks, Some("Verification completed".to_string()));
}

#[test]
fn request_with_a_corrupt_key_names_the_circuit() {
    let (_, proof) = adder_key_and_proof();
    let request = VerifyProofRequest {
        circuit_id: "circuit_adder_1".to_string(),
        proof,
        public_inputs: strings(&["3"]),
    };
    let e = verify_proof(request, Some(vec![0u8; 16]), 0).unwrap_err();
    assert_eq!(e.kind(), ErrorKind::DeserializationFailure);
    assert_eq!(e.message(), "Failed to deserialize verifying key of circuit_adder_1");
}

#[test]
fn request_with_a_malformed_input_is_an_error() {
    let (vk, proof) = adder_key_and_proof();
    let request = VerifyProofRequest {
        circuit_id: "circuit_adder_1".to_string(),
        proof,
        public_inputs: strings(&["3x"]),
    };
    let e = verify_proof(request, Some(vk), 0).unwrap_err();
    assert_eq!(e.kind(), ErrorKind::InputParseError);
}
