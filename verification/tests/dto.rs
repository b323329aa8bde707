use mpc_prover::dto::{
    status_code, CreateProofWithoutMpcRequest, CustomError, ErrorKind, GetCircuitFilesRequest,
    SaveCircuitRequest, SaveCircuitResponse, VerifyProofResponse,
};

#[test]
fn error_keeps_kind_and_message() {
    let e = CustomError::new(ErrorKind::ArtifactNotFound, "Proving key not found");
    assert_eq!(e.kind(), ErrorKind::ArtifactNotFound);
    assert_eq!(e.message(), "Proving key not found");
}

#[test]
fn error_text_names_kind_and_message() {
    let e = CustomError::new(ErrorKind::ArtifactNotFound, "Proving key not found");
    assert_eq!(e.to_string(), "Error: artifact not found - Proving key not found");
    let e = CustomError::new(ErrorKind::InputParseError, "");
    assert_eq!(e.to_string(), "Error: invalid input - ");
}

#[test]
fn every_kind_has_its_description() {
    assert_eq!(ErrorKind::ArtifactNotFound.description(), "artifact not found");
    assert_eq!(ErrorKind::DeserializationFailure.description(), "deserialization failure");
    assert_eq!(ErrorKind::InputParseError.description(), "invalid input");
    assert_eq!(ErrorKind::CircuitUnsatisfied.description(), "circuit unsatisfied");
    assert_eq!(ErrorKind::NetworkTimeout.description(), "network timeout");
    assert_eq!(ErrorKind::PartyFailure.description(), "party failure");
    assert_eq!(ErrorKind::StorageFailure.description(), "storage failure");
    assert_eq!(ErrorKind::ProofGenerationError.description(), "proof generation failed");
}

#[test]
fn defaults_are_empty() {
    let r = SaveCircuitRequest::default();
    assert!(r.circuit_name.is_empty());
    assert!(r.r1cs_filepath.is_empty());
    assert!(r.witness_generator_filepath.is_empty());
    let r = CreateProofWithoutMpcRequest::default();
    assert!(r.circuit_id.is_empty());
    assert!(r.input_file_str.is_empty());
    let r = SaveCircuitResponse::default();
    assert!(r.circuit_id.is_empty());
    assert!(r.circuit_name.is_empty());
    assert_eq!(r.time_taken, 0);
    let r = VerifyProofResponse::default();
    assert!(r.circuit_id.is_empty());
    assert!(r.public_inputs.is_none());
    assert!(r.verifier_key.is_none());
    assert!(r.proof.is_none());
    assert!(!r.is_valid);
    assert!(r.time_taken.is_none());
    assert!(r.remarks.is_none());
}

#[test]
fn files_request_names_its_circuit() {
    let r = GetCircuitFilesRequest { circuit_id: "circuit_a_1".to_string() };
    assert_eq!(r.circuit_id, "circuit_a_1");
}

#[test]
fn save_request_takes_its_three_fields() {
    let mut r = SaveCircuitRequest::default();
    r.accept_field("circuit_name", b"adder".to_vec()).unwrap();
    r.accept_field("r1cs_file", vec![1, 2, 3]).unwrap();
    r.accept_field("witness_generator", vec![0xff, 0x00]).unwrap();
    assert_eq!(r.circuit_name, "adder");
    assert_eq!(r.r1cs_filepath, vec![1, 2, 3]);
    assert_eq!(r.witness_generator_filepath, vec![0xff, 0x00]);
}

#[test]
fn save_request_decodes_the_name() {
    let mut r = SaveCircuitRequest::default();
    r.accept_field("circuit_name", "zähler".as_bytes().to_vec()).unwrap();
    assert_eq!(r.circuit_name, "zähler");
}

#[test]
fn save_request_refuses_other_fields() {
    let mut r = SaveCircuitRequest::default();
    r.accept_field("circuit_name", b"adder".to_vec()).unwrap();
    let e = r.accept_field("circuit_id", b"x".to_vec()).unwrap_err();
    assert_eq!(e.kind(), ErrorKind::InputParseError);
    assert_eq!(e.message(), "Invalid field");
    assert_eq!(r.circuit_name, "adder");
}

#[test]
fn save_request_refuses_a_name_that_is_no_text() {
    let mut r = SaveCircuitRequest::default();
    r.accept_field("circuit_name", b"adder".to_vec()).unwrap();
    let e = r.accept_field("circuit_name", vec![0xff, 0xfe]).unwrap_err();
    assert_eq!(e.kind(), ErrorKind::InputParseError);
    assert_eq!(e.message(), "Invalid field");
    assert_eq!(r.circuit_name, "adder");
}

#[test]
fn proof_request_takes_its_two_fields() {
    let mut r = CreateProofWithoutMpcRequest::default();
    r.accept_field("circuit_id", b"circuit_adder_1".to_vec()).unwrap();
    r.accept_field("input_file", br#"{"a": 1, "b": 2}"#.to_vec()).unwrap();
    assert_eq!(r.circuit_id, "circuit_adder_1");
    assert_eq!(r.input_file_str, r#"{"a": 1, "b": 2}"#);
}

#[test]
fn proof_request_refuses_other_fields_and_bad_text() {
    let mut r = CreateProofWithoutMpcRequest::default();
    r.accept_field("circuit_id", b"circuit_adder_1".to_vec()).unwrap();
    let e = r.accept_field("circuit_name", b"x".to_vec()).unwrap_err();
    assert_eq!(e.kind(), ErrorKind::InputParseError);
    assert_eq!(e.message(), "Invalid field");
    let e = r.accept_field("input_file", vec![0xc0]).unwrap_err();
    assert_eq!(e.kind(), ErrorKind::InputParseError);
    assert_eq!(r.circuit_id, "circuit_adder_1");
    assert!(r.input_file_str.is_empty());
}

#[test]
fn every_kind_has_its_status() {
    assert_eq!(status_code(ErrorKind::ArtifactNotFound), 404);
    assert_eq!(status_code(ErrorKind::InputParseError), 400);
    for kind in [
        ErrorKind::DeserializationFailure,
        ErrorKind::CircuitUnsatisfied,
        ErrorKind::NetworkTimeout,
        ErrorKind::PartyFailure,
        ErrorKind::StorageFailure,
        ErrorKind::ProofGenerationError,
    ] {
        assert_eq!(status_code(kind), 500);
    }
}
