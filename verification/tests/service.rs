use ark_bn254::{Bn254, Fr, G1Affine, G1Projective, G2Affine, G2Projective};
use ark_circom::CircomReduction;
use ark_ec::{CurveGroup, PrimeGroup};
use ark_groth16::Groth16;
use ark_relations::r1cs::{
    ConstraintSynthesizer, ConstraintSystemRef, LinearCombination, SynthesisError, Variable,
};
use ark_serialize::CanonicalSerialize;
use ark_std::rand::rngs::StdRng;
use ark_std::rand::SeedableRng;
use mpc_prover::curve::{G1Point, G2Point};
use mpc_prover::dto::ErrorKind;
use mpc_prover::field::Scalar;
use mpc_prover::prover::{PartyOutput, ProvingSession};
use mpc_prover::r1cs::ConstraintMatrices;
use mpc_prover::service::{
    create_proof_with_naive_mpc, create_proof_without_mpc, plan_direct_proof, plan_shared_proof,
    read_proof_request, read_save_request, save_circuit, save_circuit_response, setup_failure,
    store_failure, UploadedFile, SETUP_SEED_BYTE,
};
use mpc_prover::store::DirEntry;
use mpc_prover::verify::verify;

struct Plus {
    a: Option<Fr>,
    b: Option<Fr>,
}

impl ConstraintSynthesizer<Fr> for Plus {
    fn generate_constraints(self, cs: ConstraintSystemRef<Fr>) -> Result<(), SynthesisError> {
        let a = cs.new_witness_variable(|| self.a.ok_or(SynthesisError::AssignmentMissing))?;
        let b = cs.new_witness_variable(|| self.b.ok_or(SynthesisError::AssignmentMissing))?;
        let c = cs.new_input_variable(|| {
            let a = self.a.ok_or(SynthesisError::AssignmentMissing)?;
            let b = self.b.ok_or(SynthesisError::AssignmentMissing)?;
            Ok(a + b)
        })?;
        cs.enforce_constraint(
            LinearCombination::from(a) + b,
            LinearCombination::from(Variable::One),
            LinearCombination::from(c),
        )
    }
}

fn bytes_of<T: CanonicalSerialize>(value: &T) -> Vec<u8> {
    let mut bytes = Vec::new();
    value.serialize_compressed(&mut bytes).unwrap();
    bytes
}

fn plus_keys() -> (Vec<u8>, Vec<u8>) {
    let mut rng = StdRng::from_seed([SETUP_SEED_BYTE; 32]);
    let pk = Groth16::<Bn254, CircomReduction>::generate_random_parameters_with_reduction(
        Plus { a: None, b: None },
        &mut rng,
    )
    .unwrap();
    (bytes_of(&pk), bytes_of(&pk.vk))
}

fn row_of(entries: &[(u64, usize)]) -> Vec<(Scalar, usize)> {
    entries.iter().map(|(c, i)| (Scalar::from_u64(*c), *i)).collect()
}

fn plus_matrices() -> ConstraintMatrices {
    ConstraintMatrices {
        num_instance_variables: 2,
        num_witness_variables: 2,
        num_constraints: 1,
        a_num_non_zero: 2,
        b_num_non_zero: 1,
        c_num_non_zero: 1,
        a: vec![row_of(&[(1, 2), (1, 3)])],
        b: vec![row_of(&[(1, 0)])],
        c: vec![row_of(&[(1, 1)])],
    }
}

fn witness(xs: &[u64]) -> Vec<Scalar> {
    xs.iter().map(|x| Scalar::from_u64(*x)).collect()
}

fn fields(items: &[(&str, &[u8])]) -> Vec<(String, Vec<u8>)> {
    items.iter().map(|(n, b)| (n.to_string(), b.to_vec())).collect()
}

fn proof_fields(id: &str, inputs: &str) -> Vec<(String, Vec<u8>)> {
    fields(&[("circuit_id", id.as_bytes()), ("input_file", inputs.as_bytes())])
}

fn adder_entries() -> Vec<DirEntry> {
    vec![
        DirEntry { file_name: "adder.r1cs".to_string(), modified: 5 },
        DirEntry { file_name: "adder.wasm".to_string(), modified: 6 },
        DirEntry { file_name: "proving_key.bin".to_string(), modified: 7 },
    ]
}

fn point1(k: u64) -> G1Point {
    let p: G1Affine = (G1Projective::generator() * Fr::from(k)).into_affine();
    G1Point { bytes: bytes_of(&p) }
}

fn point2(k: u64) -> G2Point {
    let p: G2Affine = (G2Projective::generator() * Fr::from(k)).into_affine();
    G2Point { bytes: bytes_of(&p) }
}

fn delivered(parties: usize) -> ProvingSession {
    let mut session = ProvingSession::new(parties);
    for party in 0..parties {
        session = session.record_extension(party).0;
    }
    for party in 0..parties {
        let k = 10 * (party as u64 + 1);
        let out = PartyOutput { a: point1(k), b: point2(k + 1), c: point1(k + 2) };
        session = session.record_output(party, out).0;
    }
    session
}

/// A key whose first vector announces more points than any memory holds.
fn key_with_absurd_length() -> Vec<u8> {
    let mut bytes = vec![0u8; 224];
    bytes.extend_from_slice(&(1u64 << 61).to_le_bytes());
    bytes.extend_from_slice(&[0u8; 256]);
    bytes
}

#[test]
fn setup_seed_is_fixed() {
    assert_eq!(SETUP_SEED_BYTE, 42);
}

#[test]
fn registration_lays_out_the_circuit() {
    let body = fields(&[
        ("circuit_name", b"adder"),
        ("r1cs_file", &[1]),
        ("witness_generator", &[2]),
    ]);
    let (req, reg) = save_circuit(&body, 1700000000000).unwrap();
    assert_eq!(req.circuit_name, "adder");
    assert_eq!(req.r1cs_filepath, vec![1]);
    assert_eq!(req.witness_generator_filepath, vec![2]);
    assert_eq!(reg.circuit_id, "circuit_adder_1700000000000");
    assert_eq!(reg.r1cs_path, "circuit_adder_1700000000000/adder.r1cs");
    assert_eq!(reg.wasm_path, "circuit_adder_1700000000000/adder.wasm");
    assert_eq!(reg.proving_key_path, "circuit_adder_1700000000000/proving_key.bin");
    assert_eq!(reg.verifying_key_path, "circuit_adder_1700000000000/verifying_key.bin");
    let res = save_circuit_response(reg, req, true, 33).unwrap();
    assert_eq!(res.circuit_id, "circuit_adder_1700000000000");
    assert_eq!(res.circuit_name, "adder");
    assert_eq!(res.time_taken, 33);
}

#[test]
fn registration_with_another_field_is_refused() {
    let e = save_circuit(&fields(&[("foo", b"x")]), 1).unwrap_err();
    assert_eq!(e.kind(), ErrorKind::InputParseError);
    assert_eq!(e.message(), "Invalid field");
    let body = fields(&[("circuit_name", b"adder"), ("circuit_id", b"x"), ("r1cs_file", &[1])]);
    let e = save_circuit(&body, 1).unwrap_err();
    assert_eq!(e.message(), "Invalid field");
    let e = read_save_request(&fields(&[("circuit_name", &[0xff])])).unwrap_err();
    assert_eq!(e.kind(), ErrorKind::InputParseError);
}

#[test]
fn last_field_of_a_name_counts() {
    let body = fields(&[("circuit_name", b"one"), ("r1cs_file", &[1]), ("circuit_name", b"two")]);
    let req = read_save_request(&body).unwrap();
    assert_eq!(req.circuit_name, "two");
    assert_eq!(req.r1cs_filepath, vec![1]);
    assert!(req.witness_generator_filepath.is_empty());
}

#[test]
fn registration_without_keys_has_no_answer() {
    let body = fields(&[("circuit_name", b"bad"), ("r1cs_file", &[]), ("witness_generator", &[])]);
    let (req, reg) = save_circuit(&body, 5).unwrap();
    let e = save_circuit_response(reg, req, false, 1).unwrap_err();
    assert_eq!(e.kind(), ErrorKind::DeserializationFailure);
    assert_eq!(e.message(), "Failed to set up circuit circuit_bad_5");
    let e = setup_failure("circuit_bad_5");
    assert_eq!(e.kind(), ErrorKind::DeserializationFailure);
    assert_eq!(e.message(), "Failed to set up circuit circuit_bad_5");
}

#[test]
fn same_files_under_two_names_are_two_circuits() {
    let one = fields(&[("circuit_name", b"adder"), ("r1cs_file", &[1]), ("witness_generator", &[2])]);
    let two = fields(&[("circuit_name", b"summer"), ("r1cs_file", &[1]), ("witness_generator", &[2])]);
    let a = save_circuit(&one, 1700000000000).unwrap().1;
    let b = save_circuit(&two, 1700000000000).unwrap().1;
    assert_ne!(a.circuit_id, b.circuit_id);
    assert_ne!(a.r1cs_path, b.r1cs_path);
    assert_ne!(a.proving_key_path, b.proving_key_path);
}

#[test]
fn file_that_could_not_be_stored_is_a_storage_failure() {
    let e = store_failure(UploadedFile::ConstraintSystem);
    assert_eq!(e.kind(), ErrorKind::StorageFailure);
    assert_eq!(e.message(), "Error occurred while reading the r1cs file");
    let e = store_failure(UploadedFile::WitnessGenerator);
    assert_eq!(e.kind(), ErrorKind::StorageFailure);
    assert_eq!(e.message(), "Error occurred while reading the wasm file");
}

#[test]
fn proof_request_is_read_from_its_fields() {
    let req = read_proof_request(&proof_fields("circuit_adder_1", "{}")).unwrap();
    assert_eq!(req.circuit_id, "circuit_adder_1");
    assert_eq!(req.input_file_str, "{}");
    let e = read_proof_request(&fields(&[("circuit_name", b"adder")])).unwrap_err();
    assert_eq!(e.kind(), ErrorKind::InputParseError);
    assert_eq!(e.message(), "Invalid field");
}

#[test]
fn direct_proof_is_planned() {
    let (pk, _) = plus_keys();
    let body = proof_fields("circuit_adder_1", r#"{"a": 1, "b": 2}"#);
    let (req, plan) = plan_direct_proof(&body, &Some(pk), &adder_entries()).unwrap();
    assert_eq!(req.circuit_id, "circuit_adder_1");
    assert_eq!(plan.files.r1cs_path, "circuit_adder_1/adder.r1cs");
    assert_eq!(plan.files.witness_path, "circuit_adder_1/adder.wasm");
    let mut inputs = plan.inputs;
    inputs.sort_by(|a, b| a.0.cmp(&b.0));
    assert_eq!(
        inputs,
        vec![("a".to_string(), Scalar::from_u64(1)), ("b".to_string(), Scalar::from_u64(2))]
    );
}

#[test]
fn proof_request_with_another_field_is_refused_before_anything_is_looked_at() {
    let body = fields(&[("circuit_name", b"adder")]);
    let e = plan_direct_proof(&body, &None, &vec![]).unwrap_err();
    assert_eq!(e.kind(), ErrorKind::InputParseError);
    assert_eq!(e.message(), "Invalid field");
    let e = plan_shared_proof(&body, &None, &None, &vec![]).unwrap_err();
    assert_eq!(e.message(), "Invalid field");
    let session = ProvingSession::new(0);
    let e = create_proof_with_naive_mpc(&body, &None, &None, &vec![], session, 0).unwrap_err();
    assert_eq!(e.kind(), ErrorKind::InputParseError);
    assert_eq!(e.message(), "Invalid field");
}

#[test]
fn proof_without_a_proving_key_is_not_found() {
    let body = proof_fields("circuit_adder_1", r#"{"a": 1}"#);
    let e = plan_direct_proof(&body, &None, &vec![]).unwrap_err();
    assert_eq!(e.kind(), ErrorKind::ArtifactNotFound);
    assert_eq!(e.message(), "Proving key not found");
    let e = plan_shared_proof(&body, &None, &None, &vec![]).unwrap_err();
    assert_eq!(e.message(), "Proving key not found");
}

#[test]
fn corrupt_proving_key_names_the_circuit() {
    let body = proof_fields("circuit_adder_1", r#"{"a": 1, "b": 2}"#);
    for key in [vec![1u8, 2, 3], key_with_absurd_length(), vec![0xffu8; 4096]] {
        let e = plan_direct_proof(&body, &Some(key.clone()), &adder_entries()).unwrap_err();
        assert_eq!(e.kind(), ErrorKind::DeserializationFailure);
        assert_eq!(e.message(), "Failed to deserialize proving key of circuit_adder_1");
        let e = create_proof_without_mpc(
            &body,
            &Some(key),
            &adder_entries(),
            &plus_matrices(),
            &witness(&[1, 4, 1, 2]),
            0,
        )
        .unwrap_err();
        assert_eq!(e.kind(), ErrorKind::DeserializationFailure);
        assert_eq!(e.message(), "Failed to deserialize proving key of circuit_adder_1");
    }
}

#[test]
fn shared_proof_needs_the_verifying_key_too() {
    let (pk, vk) = plus_keys();
    let body = proof_fields("circuit_adder_1", r#"{"a": 1, "b": 2}"#);
    let e = plan_shared_proof(&body, &Some(pk.clone()), &None, &adder_entries()).unwrap_err();
    assert_eq!(e.kind(), ErrorKind::ArtifactNotFound);
    assert_eq!(e.message(), "Verifying key not found");
    let e = plan_shared_proof(&body, &Some(pk.clone()), &Some(vec![7; 9]), &adder_entries())
        .unwrap_err();
    assert_eq!(e.kind(), ErrorKind::DeserializationFailure);
    assert_eq!(e.message(), "Failed to deserialize verifying key of circuit_adder_1");
    let (_, plan) = plan_shared_proof(&body, &Some(pk), &Some(vk), &adder_entries()).unwrap();
    assert_eq!(plan.files.r1cs_path, "circuit_adder_1/adder.r1cs");
    assert_eq!(plan.inputs.len(), 2);
}

#[test]
fn proof_without_a_constraint_system_is_not_found() {
    let (pk, _) = plus_keys();
    let body = proof_fields("circuit_adder_1", "{}");
    let entries = vec![DirEntry { file_name: "adder.wasm".to_string(), modified: 6 }];
    let e = plan_direct_proof(&body, &Some(pk), &entries).unwrap_err();
    assert_eq!(e.kind(), ErrorKind::ArtifactNotFound);
    assert_eq!(e.message(), "No .r1cs files found in directory circuit_adder_1");
}

#[test]
fn inputs_are_read_before_any_key_is_touched() {
    let body = proof_fields("circuit_adder_1", "not json");
    let e = plan_direct_proof(&body, &None, &vec![]).unwrap_err();
    assert_eq!(e.kind(), ErrorKind::InputParseError);
    assert_eq!(e.message(), "Malformed input mapping");
    let e = plan_direct_proof(&body, &Some(vec![1, 2, 3]), &adder_entries()).unwrap_err();
    assert_eq!(e.message(), "Malformed input mapping");
    let body = proof_fields("circuit_adder_1", r#"{"a": -1}"#);
    let e = plan_shared_proof(&body, &Some(key_with_absurd_length()), &None, &adder_entries())
        .unwrap_err();
    assert_eq!(e.kind(), ErrorKind::InputParseError);
    assert_eq!(e.message(), "Invalid number");
    let e = create_proof_without_mpc(
        &body,
        &None,
        &vec![],
        &plus_matrices(),
        &witness(&[1, 3, 1, 2]),
        0,
    )
    .unwrap_err();
    assert_eq!(e.message(), "Invalid number");
}

#[test]
fn direct_proof_answer_carries_the_circuit_id_and_verifies() {
    let (pk, vk) = plus_keys();
    let body = proof_fields("circuit_adder_1", r#"{"a": 1, "b": 2}"#);
    let res = create_proof_without_mpc(
        &body,
        &Some(pk),
        &adder_entries(),
        &plus_matrices(),
        &witness(&[1, 3, 1, 2]),
        21,
    )
    .unwrap();
    assert_eq!(res.circuit_id, "circuit_adder_1");
    assert_eq!(res.time_taken, 21);
    assert_eq!(verify(&vk, &vec!["3".to_string()], &res.proof).unwrap(), true);
    assert_eq!(verify(&vk, &vec!["4".to_string()], &res.proof).unwrap(), false);
}

#[test]
fn unsatisfied_witness_gives_no_proof() {
    let (pk, _) = plus_keys();
    let body = proof_fields("circuit_adder_1", r#"{"a": 1, "b": 2}"#);
    let e = create_proof_without_mpc(
        &body,
        &Some(pk),
        &adder_entries(),
        &plus_matrices(),
        &witness(&[1, 4, 1, 2]),
        0,
    )
    .unwrap_err();
    assert_eq!(e.kind(), ErrorKind::CircuitUnsatisfied);
    assert_eq!(e.message(), "Witness does not satisfy the constraints");
}

#[test]
fn shared_proof_answer_carries_the_circuit_id_and_the_completed_proof() {
    let mut rng = StdRng::from_seed([SETUP_SEED_BYTE; 32]);
    let key = Groth16::<Bn254, CircomReduction>::generate_random_parameters_with_reduction(
        Plus { a: None, b: None },
        &mut rng,
    )
    .unwrap();
    let (pk, vk) = plus_keys();
    let body = proof_fields("circuit_adder_1", r#"{"a": 1, "b": 2}"#);
    let res = create_proof_with_naive_mpc(
        &body,
        &Some(pk),
        &Some(vk),
        &adder_entries(),
        delivered(2),
        9,
    )
    .unwrap();
    assert_eq!(res.circuit_id, "circuit_adder_1");
    assert_eq!(res.time_taken, 9);
    let g1 = G1Projective::generator();
    let g2 = G2Projective::generator();
    let a: G1Affine = (g1 * Fr::from(10u64) + key.a_query[0] + key.vk.alpha_g1).into_affine();
    let b: G2Affine = (g2 * Fr::from(11u64) + key.b_g2_query[0] + key.vk.beta_g2).into_affine();
    assert_eq!(res.proof.a.bytes, bytes_of(&a));
    assert_eq!(res.proof.b.bytes, bytes_of(&b));
    assert_eq!(res.proof.c.bytes, point1(12).bytes);
}

#[test]
fn session_that_failed_gives_no_shared_proof() {
    let (pk, vk) = plus_keys();
    let body = proof_fields("circuit_adder_1", r#"{"a": 1, "b": 2}"#);
    let session = ProvingSession::new(2).abort(ErrorKind::NetworkTimeout);
    let e = create_proof_with_naive_mpc(
        &body,
        &Some(pk.clone()),
        &Some(vk.clone()),
        &adder_entries(),
        session,
        9,
    )
    .unwrap_err();
    assert_eq!(e.kind(), ErrorKind::NetworkTimeout);
    let session = ProvingSession::new(2).record_extension(0).0;
    let e = create_proof_with_naive_mpc(&body, &Some(pk), &Some(vk), &adder_entries(), session, 9)
        .unwrap_err();
    assert_eq!(e.kind(), ErrorKind::PartyFailure);
    assert_eq!(e.message(), "A party did not deliver");
}
