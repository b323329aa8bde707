//! The requests and responses of the proving service, and its error type.

use crate::curve::Proof;
use crate::field::Scalar;
use crate::text::{joined, str_eq, string_from_utf8};
use vstd::prelude::*;
use vstd::string::StringExecFns;
use vstd::utf8::{decode_utf8, valid_utf8};

verus! {

/// What went wrong with a request.
#[derive(Clone, Copy, Debug, PartialEq, Eq, Structural)]
pub enum ErrorKind {
    /// A circuit, or one of its stored files or keys, is missing.
    ArtifactNotFound,
    /// Stored key or proof bytes do not decode.
    DeserializationFailure,
    /// A field of the request, an input mapping or a public input is
    /// malformed.
    InputParseError,
    /// The witness does not satisfy the constraints.
    CircuitUnsatisfied,
    /// A party did not answer in time.
    NetworkTimeout,
    /// A party failed during a round.
    PartyFailure,
    /// The artifact store could not be written.
    StorageFailure,
    /// The prover made no proof.
    ProofGenerationError,
}

impl ErrorKind {
    /// A short description, as it appears in the error's text.
    pub open spec fn spec_description(self) -> Seq<char> {
        match self {
            ErrorKind::ArtifactNotFound => "artifact not found"@,
            ErrorKind::DeserializationFailure => "deserialization failure"@,
            ErrorKind::InputParseError => "invalid input"@,
            ErrorKind::CircuitUnsatisfied => "circuit unsatisfied"@,
            ErrorKind::NetworkTimeout => "network timeout"@,
            ErrorKind::PartyFailure => "party failure"@,
            ErrorKind::StorageFailure => "storage failure"@,
            ErrorKind::ProofGenerationError => "proof generation failed"@,
        }
    }

    pub fn description(&self) -> (r: &'static str)
        ensures
            r@ == self.spec_description(),
    {
        match self {
            ErrorKind::ArtifactNotFound => "artifact not found",
            ErrorKind::DeserializationFailure => "deserialization failure",
            ErrorKind::InputParseError => "invalid input",
            ErrorKind::CircuitUnsatisfied => "circuit unsatisfied",
            ErrorKind::NetworkTimeout => "network timeout",
            ErrorKind::PartyFailure => "party failure",
            ErrorKind::StorageFailure => "storage failure",
            ErrorKind::ProofGenerationError => "proof generation failed",
        }
    }
}

/// The HTTP status that an error of this kind is answered with: not found
/// for a missing artifact, bad request for a malformed one, and internal
/// server error for everything else.
pub open spec fn spec_status_code(kind: ErrorKind) -> u16 {
    match kind {
        ErrorKind::ArtifactNotFound => 404,
        ErrorKind::InputParseError => 400,
        _ => 500,
    }
}

/// The HTTP status that an error of this kind is answered with.
pub fn status_code(kind: ErrorKind) -> (r: u16)
    ensures
        r == spec_status_code(kind),
{
    match kind {
        ErrorKind::ArtifactNotFound => 404,
        ErrorKind::InputParseError => 400,
        _ => 500,
    }
}

/// An error of the service: its kind and a message for the caller.
#[derive(Debug)]
pub struct CustomError {
    kind: ErrorKind,
    message: String,
}

impl CustomError {
    pub closed spec fn spec_kind(self) -> ErrorKind {
        self.kind
    }

    pub closed spec fn spec_message(self) -> Seq<char> {
        self.message@
    }

    /// The error's text: `Error: `, the kind's description, ` - ` and the
    /// message.
    pub open spec fn spec_text(self) -> Seq<char> {
        "Error: "@ + self.spec_kind().spec_description() + " - "@ + self.spec_message()
    }

    pub fn new(kind: ErrorKind, message: &str) -> (r: Self)
        ensures
            r.spec_kind() == kind,
            r.spec_message() == message@,
    {
        Self { kind, message: String::from_str(message) }
    }

    pub fn kind(&self) -> (r: ErrorKind)
        ensures
            r == self.spec_kind(),
    {
        self.kind
    }

    pub fn message(&self) -> (r: &str)
        ensures
            r@ == self.spec_message(),
    {
        self.message.as_str()
    }

    /// The error's text.
    pub fn to_string(&self) -> (r: String)
        ensures
            r@ == self.spec_text(),
    {
        let mut s = joined("Error: ", self.kind.description());
        s.append(" - ");
        s.append(self.message.as_str());
        s
    }
}

/// What `POST /save_circuit` carries.
#[derive(Debug)]
pub struct SaveCircuitRequest {
    pub circuit_name: String,
    pub r1cs_filepath: Vec<u8>,
    pub witness_generator_filepath: Vec<u8>,
}

impl Default for SaveCircuitRequest {
    fn default() -> (r: Self)
        ensures
            r.circuit_name@.len() == 0,
            r.r1cs_filepath@.len() == 0,
            r.witness_generator_filepath@.len() == 0,
    {
        Self {
            circuit_name: String::new(),
            r1cs_filepath: Vec::new(),
            witness_generator_filepath: Vec::new(),
        }
    }
}

/// What the two proof endpoints carry.
#[derive(Debug)]
pub struct CreateProofWithoutMpcRequest {
    pub circuit_id: String,
    pub input_file_str: String,
}

impl Default for CreateProofWithoutMpcRequest {
    fn default() -> (r: Self)
        ensures
            r.circuit_id@.len() == 0,
            r.input_file_str@.len() == 0,
    {
        Self { circuit_id: String::new(), input_file_str: String::new() }
    }
}

/// The answer to `POST /save_circuit`.
#[derive(Debug)]
pub struct SaveCircuitResponse {
    pub circuit_id: String,
    pub circuit_name: String,
    pub time_taken: i64,
}

impl Default for SaveCircuitResponse {
    fn default() -> (r: Self)
        ensures
            r.circuit_id@.len() == 0,
            r.circuit_name@.len() == 0,
            r.time_taken == 0,
    {
        Self { circuit_id: String::new(), circuit_name: String::new(), time_taken: 0 }
    }
}

/// The answer to `POST /create_proof_without_mpc`.
#[derive(Debug)]
pub struct CreateProofWithoutMpcResponse {
    pub circuit_id: String,
    pub proof: Proof,
    pub time_taken: i64,
}

/// The answer to `POST /create_proof_with_naive_mpc`.
#[derive(Debug)]
pub struct CreateProofWithNaiveMpcResponse {
    pub circuit_id: String,
    pub proof: Proof,
    pub time_taken: i64,
}

/// What `POST /verify_proof` carries.
#[derive(Debug)]
pub struct VerifyProofRequest {
    pub circuit_id: String,
    pub proof: Proof,
    pub public_inputs: Vec<String>,
}

/// The answer to `POST /verify_proof`.
#[derive(Debug)]
pub struct VerifyProofResponse {
    pub circuit_id: String,
    pub public_inputs: Option<Vec<String>>,
    pub verifier_key: Option<Vec<u8>>,
    pub proof: Option<Proof>,
    pub is_valid: bool,
    pub time_taken: Option<i64>,
    pub remarks: Option<String>,
}

impl Default for VerifyProofResponse {
    fn default() -> (r: Self)
        ensures
            r.circuit_id@.len() == 0,
            r.public_inputs is None,
            r.verifier_key is None,
            r.proof is None,
            !r.is_valid,
            r.time_taken is None,
            r.remarks is None,
    {
        Self {
            circuit_id: String::new(),
            public_inputs: None,
            verifier_key: None,
            proof: None,
            is_valid: false,
            time_taken: None,
            remarks: None,
        }
    }
}

/// The path parameter of `GET /get_circuit_files/{circuit_id}`.
#[derive(Debug)]
pub struct GetCircuitFilesRequest {
    pub circuit_id: String,
}

/// The answer to `GET /get_circuit_files/{circuit_id}`.
#[derive(Debug)]
pub struct GetCircuitFilesResponse {
    pub r1cs_file: Vec<u8>,
    pub witness_generator: Vec<u8>,
    pub time_taken: i64,
}

/// The values given for one named circuit input.
#[derive(Debug)]
pub struct InputVec(pub Vec<Scalar>);

/// What one multipart field does to a `save_circuit` request: the field's
/// name decides which part of the request its content becomes.
pub open spec fn save_circuit_field(
    before: SaveCircuitRequest,
    name: Seq<char>,
    bytes: Seq<u8>,
    after: SaveCircuitRequest,
) -> bool {
    if name == "circuit_name"@ {
        &&& valid_utf8(bytes)
        &&& after.circuit_name@ == decode_utf8(bytes)
        &&& after.r1cs_filepath == before.r1cs_filepath
        &&& after.witness_generator_filepath == before.witness_generator_filepath
    } else if name == "r1cs_file"@ {
        &&& after.circuit_name == before.circuit_name
        &&& after.r1cs_filepath@ == bytes
        &&& after.witness_generator_filepath == before.witness_generator_filepath
    } else if name == "witness_generator"@ {
        &&& after.circuit_name == before.circuit_name
        &&& after.r1cs_filepath == before.r1cs_filepath
        &&& after.witness_generator_filepath@ == bytes
    } else {
        false
    }
}

/// What one multipart field does to a proof request.
pub open spec fn proof_request_field(
    before: CreateProofWithoutMpcRequest,
    name: Seq<char>,
    bytes: Seq<u8>,
    after: CreateProofWithoutMpcRequest,
) -> bool {
    if name == "circuit_id"@ {
        &&& valid_utf8(bytes)
        &&& after.circuit_id@ == decode_utf8(bytes)
        &&& after.input_file_str == before.input_file_str
    } else if name == "input_file"@ {
        &&& valid_utf8(bytes)
        &&& after.circuit_id == before.circuit_id
        &&& after.input_file_str@ == decode_utf8(bytes)
    } else {
        false
    }
}

impl CreateProofWithoutMpcRequest {
    /// Takes one multipart field into the request. A field of another name,
    /// or content that is not valid UTF-8, is an `InputParseError` with the
    /// message `Invalid field`, and leaves the request as it was.
    pub fn accept_field(&mut self, name: &str, bytes: Vec<u8>) -> (r: Result<(), CustomError>)
        ensures
            r is Ok <==> (name@ == "circuit_id"@ || name@ == "input_file"@) && valid_utf8(bytes@),
            r is Ok ==> proof_request_field(*old(self), name@, bytes@, *final(self)),
            r matches Err(e) ==> *final(self) == *old(self) && e.spec_kind()
                == ErrorKind::InputParseError && e.spec_message() == "Invalid field"@,
    {
        proof {
            reveal_strlit("circuit_id");
            reveal_strlit("input_file");
        }
        let is_id = str_eq(name, "circuit_id");
        let is_input = str_eq(name, "input_file");
        if !is_id && !is_input {
            return Err(CustomError::new(ErrorKind::InputParseError, "Invalid field"));
        }
        match string_from_utf8(bytes) {
            Some(text) => {
                if is_id {
                    self.circuit_id = text;
                } else {
                    self.input_file_str = text;
                }
                Ok(())
            },
            None => Err(CustomError::new(ErrorKind::InputParseError, "Invalid field")),
        }
    }
}

impl SaveCircuitRequest {
    /// Takes one multipart field into the request. A field of another name,
    /// or a name that is not valid UTF-8, is an `InputParseError` with the
    /// message `Invalid field`, and leaves the request as it was.
    pub fn accept_field(&mut self, name: &str, bytes: Vec<u8>) -> (r: Result<(), CustomError>)
        ensures
            r is Ok <==> ((name@ == "circuit_name"@ && valid_utf8(bytes@)) || name@
                == "r1cs_file"@ || name@ == "witness_generator"@),
            r is Ok ==> save_circuit_field(*old(self), name@, bytes@, *final(self)),
            r matches Err(e) ==> *final(self) == *old(self) && e.spec_kind()
                == ErrorKind::InputParseError && e.spec_message() == "Invalid field"@,
    {
        proof {
            reveal_strlit("circuit_name");
            reveal_strlit("r1cs_file");
            reveal_strlit("witness_generator");
            assert("circuit_name"@.len() == 12);
            assert("r1cs_file"@.len() == 9);
            assert("witness_generator"@.len() == 17);
        }
        if str_eq(name, "circuit_name") {
            match string_from_utf8(bytes) {
                Some(text) => {
                    self.circuit_name = text;
                    Ok(())
                },
                None => Err(CustomError::new(ErrorKind::InputParseError, "Invalid field")),
            }
        } else if str_eq(name, "r1cs_file") {
            self.r1cs_filepath = bytes;
            Ok(())
        } else if str_eq(name, "witness_generator") {
            self.witness_generator_filepath = bytes;
            Ok(())
        } else {
            Err(CustomError::new(ErrorKind::InputParseError, "Invalid field"))
        }
    }
}

} // verus!
