//! The operations of the service, each as a function of the values that
//! come from outside: the fields of the request, what the store holds, and
//! what the witness generator and the parties hand back.

use crate::dto::{
    CreateProofWithNaiveMpcResponse, CreateProofWithoutMpcRequest, CreateProofWithoutMpcResponse,
    CustomError, ErrorKind, SaveCircuitRequest, SaveCircuitResponse,
};
use crate::field::{values, Scalar};
use crate::groth16::{is_key_usable, key_usable, prove, prove_result};
use crate::inputs::{input_map_outcome, input_pushes, parse_input_map, push_view, pushes};
use crate::json::json_input_entries;
use crate::keys::{has_verifying_key_frame, verifying_key_framed};
use crate::prover::{
    complete_proof, key_offsets, proof_offsets, with_offsets_g1, with_offsets_g2, ProvingSession,
};
use crate::r1cs::ConstraintMatrices;
use crate::store::{
    circuit_file_paths, circuit_id, circuit_id_text, file_path, files_of, has_extension,
    is_latest, no_files_message, path_in, proving_key_path, r1cs_file_name, verifying_key_path,
    wasm_file_name, CircuitFiles, DirEntry,
};
use crate::text::{copy_bytes, joined};
use vstd::prelude::*;
use vstd::utf8::{decode_utf8, valid_utf8};

verus! {

/// Every byte of the seed from which a circuit's keys are generated. A fixed
/// seed makes the keys reproducible; it is no secret.
pub const SETUP_SEED_BYTE: u8 = 42;

/// The fields of a multipart request: names with their contents.
pub open spec fn fields_view(fields: Seq<(String, Vec<u8>)>) -> Seq<(Seq<char>, Seq<u8>)> {
    Seq::new(fields.len(), |i: int| (fields[i].0@, fields[i].1@))
}

/// What is reported for a field that the request does not have, or whose
/// content is no text where text is asked.
pub open spec fn invalid_field(e: CustomError) -> bool {
    e.spec_kind() == ErrorKind::InputParseError && e.spec_message() == "Invalid field"@
}

/// The registration request that the fields make: the circuit's name, its
/// constraint system and its witness generator, each as the last field of
/// its name gives it. `None` where a field has another name, or the name of
/// the circuit is no text.
pub open spec fn save_request_of(fields: Seq<(Seq<char>, Seq<u8>)>) -> Option<
    (Seq<char>, Seq<u8>, Seq<u8>),
>
    decreases fields.len(),
{
    if fields.len() == 0 {
        Some((Seq::empty(), Seq::empty(), Seq::empty()))
    } else {
        match save_request_of(fields.drop_last()) {
            None => None,
            Some(before) => {
                let name = fields.last().0;
                let bytes = fields.last().1;
                if name == "circuit_name"@ {
                    if valid_utf8(bytes) {
                        Some((decode_utf8(bytes), before.1, before.2))
                    } else {
                        None
                    }
                } else if name == "r1cs_file"@ {
                    Some((before.0, bytes, before.2))
                } else if name == "witness_generator"@ {
                    Some((before.0, before.1, bytes))
                } else {
                    None
                }
            },
        }
    }
}

/// Once a field is refused, the request is refused.
pub proof fn lemma_save_request_refused(fields: Seq<(Seq<char>, Seq<u8>)>, upto: int)
    requires
        0 <= upto <= fields.len(),
        save_request_of(fields.take(upto)) is None,
    ensures
        save_request_of(fields) is None,
    decreases fields.len() - upto,
{
    if upto == fields.len() {
        assert(fields.take(upto) =~= fields);
    } else {
        let next = fields.take(upto + 1);
        assert(next.drop_last() =~= fields.take(upto));
        lemma_save_request_refused(fields, upto + 1);
    }
}

/// `request` holds what `made` says.
pub open spec fn is_save_request(request: SaveCircuitRequest, made: (Seq<char>, Seq<u8>, Seq<u8>)) -> bool {
    &&& request.circuit_name@ == made.0
    &&& request.r1cs_filepath@ == made.1
    &&& request.witness_generator_filepath@ == made.2
}

/// Builds a registration request from the fields of the multipart body, in
/// their order. The first field that is refused makes the request an
/// `InputParseError` with the message `Invalid field`.
pub fn read_save_request(fields: &Vec<(String, Vec<u8>)>) -> (r: Result<
    SaveCircuitRequest,
    CustomError,
>)
    ensures
        match save_request_of(fields_view(fields@)) {
            Some(made) => r matches Ok(request) && is_save_request(request, made),
            None => r matches Err(e) && invalid_field(e),
        },
{
    let ghost fv = fields_view(fields@);
    let mut request = SaveCircuitRequest::default();
    let mut i: usize = 0;
    assert(fv.take(0) =~= Seq::empty());
    assert(request.circuit_name@ =~= Seq::empty() && request.r1cs_filepath@ =~= Seq::empty()
        && request.witness_generator_filepath@ =~= Seq::empty());
    while i < fields.len()
        invariant
            i <= fields.len(),
            fv == fields_view(fields@),
            save_request_of(fv.take(i as int)) matches Some(made) && is_save_request(request, made),
        decreases fields.len() - i,
    {
        proof {
            let next = fv.take(i as int + 1);
            assert(next.drop_last() =~= fv.take(i as int));
            assert(next.last() == fv[i as int]);
        }
        match request.accept_field(fields[i].0.as_str(), copy_bytes(&fields[i].1)) {
            Ok(()) => {},
            Err(e) => {
                proof {
                    lemma_save_request_refused(fv, i as int + 1);
                }
                return Err(e);
            },
        }
        i += 1;
    }
    assert(fv.take(fields.len() as int) =~= fv);
    Ok(request)
}

/// Where a circuit that is being registered gets its id and its files.
#[derive(Debug)]
pub struct Registration {
    pub circuit_id: String,
    pub r1cs_path: String,
    pub wasm_path: String,
    pub proving_key_path: String,
    pub verifying_key_path: String,
}

/// `r` is the registration of the circuit `name` at `now` milliseconds since
/// the epoch: its id is made of its name and the time, and its four files
/// lie in the directory named by the id.
pub open spec fn is_registration(r: Registration, name: Seq<char>, now: int) -> bool {
    &&& r.circuit_id@ == circuit_id_text(name, now)
    &&& r.r1cs_path@ == path_in(r.circuit_id@, name + ".r1cs"@)
    &&& r.wasm_path@ == path_in(r.circuit_id@, name + ".wasm"@)
    &&& r.proving_key_path@ == path_in(r.circuit_id@, "proving_key.bin"@)
    &&& r.verifying_key_path@ == path_in(r.circuit_id@, "verifying_key.bin"@)
}

/// Takes a registration in: the request that the fields make, and where the
/// circuit gets its id and its files at `now_millis` milliseconds since the
/// epoch. A field that is refused refuses the registration before anything
/// is laid out.
pub fn save_circuit(fields: &Vec<(String, Vec<u8>)>, now_millis: i64) -> (r: Result<
    (SaveCircuitRequest, Registration),
    CustomError,
>)
    ensures
        match save_request_of(fields_view(fields@)) {
            Some(made) => r matches Ok(taken) && is_save_request(taken.0, made) && is_registration(
                taken.1,
                made.0,
                now_millis as int,
            ),
            None => r matches Err(e) && invalid_field(e),
        },
{
    let request = match read_save_request(fields) {
        Ok(request) => request,
        Err(e) => {
            return Err(e);
        },
    };
    let id = circuit_id(request.circuit_name.as_str(), now_millis);
    let r1cs = r1cs_file_name(request.circuit_name.as_str());
    let wasm = wasm_file_name(request.circuit_name.as_str());
    let registration = Registration {
        r1cs_path: file_path(id.as_str(), r1cs.as_str()),
        wasm_path: file_path(id.as_str(), wasm.as_str()),
        proving_key_path: proving_key_path(id.as_str()),
        verifying_key_path: verifying_key_path(id.as_str()),
        circuit_id: id,
    };
    Ok((request, registration))
}

/// Which of a circuit's two uploaded files could not be stored.
#[derive(Clone, Copy, Debug, PartialEq, Eq, Structural)]
pub enum UploadedFile {
    ConstraintSystem,
    WitnessGenerator,
}

/// The error for an uploaded file that could not be stored.
pub fn store_failure(file: UploadedFile) -> (r: CustomError)
    ensures
        r.spec_kind() == ErrorKind::StorageFailure,
        r.spec_message() == (match file {
            UploadedFile::ConstraintSystem => "Error occurred while reading the r1cs file"@,
            UploadedFile::WitnessGenerator => "Error occurred while reading the wasm file"@,
        }),
{
    match file {
        UploadedFile::ConstraintSystem => CustomError::new(
            ErrorKind::StorageFailure,
            "Error occurred while reading the r1cs file",
        ),
        UploadedFile::WitnessGenerator => CustomError::new(
            ErrorKind::StorageFailure,
            "Error occurred while reading the wasm file",
        ),
    }
}

/// The error for a circuit whose uploaded files do not read as a circuit,
/// or for which no keys could be generated: it names the circuit.
pub fn setup_failure(circuit_id: &str) -> (r: CustomError)
    ensures
        r.spec_kind() == ErrorKind::DeserializationFailure,
        r.spec_message() == "Failed to set up circuit "@ + circuit_id@,
{
    let message = joined("Failed to set up circuit ", circuit_id);
    CustomError::new(ErrorKind::DeserializationFailure, message.as_str())
}

/// Ends a registration. Where the keys were generated and stored, the answer
/// names the circuit; where they were not, there is no answer with an id,
/// but the error of a failed setup.
pub fn save_circuit_response(
    registration: Registration,
    request: SaveCircuitRequest,
    keys_stored: bool,
    time_taken: i64,
) -> (r: Result<SaveCircuitResponse, CustomError>)
    ensures
        match r {
            Ok(res) => keys_stored && res.circuit_id == registration.circuit_id
                && res.circuit_name == request.circuit_name && res.time_taken == time_taken,
            Err(e) => !keys_stored && e.spec_kind() == ErrorKind::DeserializationFailure
                && e.spec_message() == "Failed to set up circuit "@ + registration.circuit_id@,
        },
{
    if !keys_stored {
        return Err(setup_failure(registration.circuit_id.as_str()));
    }
    Ok(
        SaveCircuitResponse {
            circuit_id: registration.circuit_id,
            circuit_name: request.circuit_name,
            time_taken,
        },
    )
}

/// The proof request that the fields make: the circuit's id and the text of
/// its input mapping, each as the last field of its name gives it. `None`
/// where a field has another name or its content is no text.
pub open spec fn proof_request_of(fields: Seq<(Seq<char>, Seq<u8>)>) -> Option<
    (Seq<char>, Seq<char>),
>
    decreases fields.len(),
{
    if fields.len() == 0 {
        Some((Seq::empty(), Seq::empty()))
    } else {
        match proof_request_of(fields.drop_last()) {
            None => None,
            Some(before) => {
                let name = fields.last().0;
                let bytes = fields.last().1;
                if name == "circuit_id"@ && valid_utf8(bytes) {
                    Some((decode_utf8(bytes), before.1))
                } else if name == "input_file"@ && valid_utf8(bytes) {
                    Some((before.0, decode_utf8(bytes)))
                } else {
                    None
                }
            },
        }
    }
}

/// Once a field is refused, the request is refused.
pub proof fn lemma_proof_request_refused(fields: Seq<(Seq<char>, Seq<u8>)>, upto: int)
    requires
        0 <= upto <= fields.len(),
        proof_request_of(fields.take(upto)) is None,
    ensures
        proof_request_of(fields) is None,
    decreases fields.len() - upto,
{
    if upto == fields.len() {
        assert(fields.take(upto) =~= fields);
    } else {
        let next = fields.take(upto + 1);
        assert(next.drop_last() =~= fields.take(upto));
        lemma_proof_request_refused(fields, upto + 1);
    }
}

/// `request` holds what `made` says.
pub open spec fn is_proof_request(request: CreateProofWithoutMpcRequest, made: (Seq<char>, Seq<char>)) -> bool {
    request.circuit_id@ == made.0 && request.input_file_str@ == made.1
}

/// Builds a proof request from the fields of the multipart body, in their
/// order. The first field that is refused makes the request an
/// `InputParseError` with the message `Invalid field`.
pub fn read_proof_request(fields: &Vec<(String, Vec<u8>)>) -> (r: Result<
    CreateProofWithoutMpcRequest,
    CustomError,
>)
    ensures
        match proof_request_of(fields_view(fields@)) {
            Some(made) => r matches Ok(request) && is_proof_request(request, made),
            None => r matches Err(e) && invalid_field(e),
        },
{
    let ghost fv = fields_view(fields@);
    let mut request = CreateProofWithoutMpcRequest::default();
    let mut i: usize = 0;
    assert(fv.take(0) =~= Seq::empty());
    assert(request.circuit_id@ =~= Seq::empty() && request.input_file_str@ =~= Seq::empty());
    proof {
        reveal_strlit("circuit_id");
        reveal_strlit("input_file");
        assert("circuit_id"@ != "input_file"@) by {
            assert("circuit_id"@[0] == 'c');
            assert("input_file"@[0] == 'i');
        }
    }
    while i < fields.len()
        invariant
            i <= fields.len(),
            fv == fields_view(fields@),
            "circuit_id"@ != "input_file"@,
            proof_request_of(fv.take(i as int)) matches Some(made) && is_proof_request(
                request,
                made,
            ),
        decreases fields.len() - i,
    {
        proof {
            let next = fv.take(i as int + 1);
            assert(next.drop_last() =~= fv.take(i as int));
            assert(next.last() == fv[i as int]);
        }
        match request.accept_field(fields[i].0.as_str(), copy_bytes(&fields[i].1)) {
            Ok(()) => {},
            Err(e) => {
                proof {
                    lemma_proof_request_refused(fv, i as int + 1);
                }
                return Err(e);
            },
        }
        i += 1;
    }
    assert(fv.take(fields.len() as int) =~= fv);
    Ok(request)
}

/// What a proof request comes to before any proving: the circuit's files,
/// and the inputs in the order in which the witness generator gets them.
#[derive(Debug)]
pub struct ProofPlan {
    pub files: CircuitFiles,
    pub inputs: Vec<(String, Scalar)>,
}

/// `plan` is the plan for the circuit `circuit_id`, whose directory has the
/// entries `entries`, with the input mapping written in `inputs`.
pub open spec fn plan_for(
    plan: ProofPlan,
    circuit_id: Seq<char>,
    inputs: Seq<char>,
    entries: Seq<DirEntry>,
) -> bool {
    &&& exists|i: int| #[trigger]
        is_latest(entries, "r1cs"@, i) && files_of(plan.files, circuit_id, entries, i)
    &&& json_input_entries(inputs) matches Some(members)
    &&& input_map_outcome(members) matches Ok(map)
    &&& push_view(plan.inputs@) == pushes(map)
}

/// The views of the two keys as the store holds them.
pub open spec fn key_view(key: Option<Vec<u8>>) -> Option<Seq<u8>> {
    match key {
        Some(bytes) => Some(bytes@),
        None => None,
    }
}

/// The kind and message of the error for which a proof request is refused
/// before any witness is made; `None` where it is not refused. The fields
/// are read first and the input mapping right after them, before any key is
/// touched. Then the proving key is looked for, and looked at: a key that is
/// absent is an `ArtifactNotFound`, one that cannot be proved with a
/// `DeserializationFailure` that names the circuit. Where the verifying key
/// is wanted, it comes next, in the same way. The constraint system is
/// looked for last.
pub open spec fn refusal(
    fields: Seq<(Seq<char>, Seq<u8>)>,
    proving_key: Option<Seq<u8>>,
    verifying_key: Option<Seq<u8>>,
    wants_verifying_key: bool,
    entries: Seq<DirEntry>,
) -> Option<(ErrorKind, Seq<char>)> {
    match proof_request_of(fields) {
        None => Some((ErrorKind::InputParseError, "Invalid field"@)),
        Some(request) => match inputs_refusal(request.1) {
            Some(refused) => Some(refused),
            None => if proving_key is None {
                Some((ErrorKind::ArtifactNotFound, "Proving key not found"@))
            } else if !key_usable(proving_key.unwrap()) {
                Some(
                    (
                        ErrorKind::DeserializationFailure,
                        "Failed to deserialize proving key of "@ + request.0,
                    ),
                )
            } else if wants_verifying_key && verifying_key is None {
                Some((ErrorKind::ArtifactNotFound, "Verifying key not found"@))
            } else if wants_verifying_key && !verifying_key_framed(verifying_key.unwrap()) {
                Some(
                    (
                        ErrorKind::DeserializationFailure,
                        "Failed to deserialize verifying key of "@ + request.0,
                    ),
                )
            } else if forall|j: int| !has_extension(entries, "r1cs"@, j) {
                Some((ErrorKind::ArtifactNotFound, no_files_message("r1cs"@, request.0)))
            } else {
                None
            },
        },
    }
}

/// Why the input mapping written in `inputs` is refused; `None` where it is
/// taken.
pub open spec fn inputs_refusal(inputs: Seq<char>) -> Option<(ErrorKind, Seq<char>)> {
    match json_input_entries(inputs) {
        None => Some((ErrorKind::InputParseError, "Malformed input mapping"@)),
        Some(members) => match input_map_outcome(members) {
            Err(e) => Some((ErrorKind::InputParseError, e.spec_message())),
            Ok(_) => None,
        },
    }
}

/// `e` is the error that `refused` says.
pub open spec fn is_refusal(e: CustomError, refused: (ErrorKind, Seq<char>)) -> bool {
    e.spec_kind() == refused.0 && e.spec_message() == refused.1
}

/// `r` is the answer to the request: the request with its plan, or the
/// refusal.
pub open spec fn answers(
    r: Result<(CreateProofWithoutMpcRequest, ProofPlan), CustomError>,
    fields: Seq<(Seq<char>, Seq<u8>)>,
    proving_key: Option<Seq<u8>>,
    verifying_key: Option<Seq<u8>>,
    wants_verifying_key: bool,
    entries: Seq<DirEntry>,
) -> bool {
    match refusal(fields, proving_key, verifying_key, wants_verifying_key, entries) {
        Some(refused) => r matches Err(e) && is_refusal(e, refused),
        None => r matches Ok(taken) && is_proof_request(taken.0, proof_request_of(fields).unwrap())
            && plan_for(taken.1, taken.0.circuit_id@, taken.0.input_file_str@, entries),
    }
}

/// Reads the request and plans its proof.
fn plan(
    fields: &Vec<(String, Vec<u8>)>,
    proving_key: &Option<Vec<u8>>,
    verifying_key: &Option<Vec<u8>>,
    wants_verifying_key: bool,
    entries: &Vec<DirEntry>,
) -> (r: Result<(CreateProofWithoutMpcRequest, ProofPlan), CustomError>)
    ensures
        answers(
            r,
            fields_view(fields@),
            key_view(*proving_key),
            key_view(*verifying_key),
            wants_verifying_key,
            entries@,
        ),
{
    let request = match read_proof_request(fields) {
        Ok(request) => request,
        Err(e) => {
            return Err(e);
        },
    };
    let map = match parse_input_map(request.input_file_str.as_str()) {
        Ok(map) => map,
        Err(e) => {
            return Err(e);
        },
    };
    match proving_key {
        None => {
            return Err(CustomError::new(ErrorKind::ArtifactNotFound, "Proving key not found"));
        },
        Some(key) => {
            if !is_key_usable(key) {
                let message = joined(
                    "Failed to deserialize proving key of ",
                    request.circuit_id.as_str(),
                );
                return Err(CustomError::new(ErrorKind::DeserializationFailure, message.as_str()));
            }
        },
    }
    if wants_verifying_key {
        match verifying_key {
            None => {
                return Err(
                    CustomError::new(ErrorKind::ArtifactNotFound, "Verifying key not found"),
                );
            },
            Some(key) => {
                if !has_verifying_key_frame(key) {
                    let message = joined(
                        "Failed to deserialize verifying key of ",
                        request.circuit_id.as_str(),
                    );
                    return Err(
                        CustomError::new(ErrorKind::DeserializationFailure, message.as_str()),
                    );
                }
            },
        }
    }
    let files = match circuit_file_paths(request.circuit_id.as_str(), entries) {
        Ok(files) => files,
        Err(e) => {
            return Err(e);
        },
    };
    proof {
        let found = choose|i: int| #[trigger]
            is_latest(entries@, "r1cs"@, i) && files_of(files, request.circuit_id@, entries@, i);
        assert(has_extension(entries@, "r1cs"@, found));
    }
    let inputs = input_pushes(&map);
    Ok((request, ProofPlan { files, inputs }))
}

/// Plans a proof from the full witness: what the witness generator is to
/// be run on.
pub fn plan_direct_proof(
    fields: &Vec<(String, Vec<u8>)>,
    proving_key: &Option<Vec<u8>>,
    entries: &Vec<DirEntry>,
) -> (r: Result<(CreateProofWithoutMpcRequest, ProofPlan), CustomError>)
    ensures
        answers(r, fields_view(fields@), key_view(*proving_key), None, false, entries@),
{
    plan(fields, proving_key, &None, false, entries)
}

/// Plans a proof by the parties. It needs both keys: the proving key is
/// shared out among the parties, and the verifying key completes the proof.
pub fn plan_shared_proof(
    fields: &Vec<(String, Vec<u8>)>,
    proving_key: &Option<Vec<u8>>,
    verifying_key: &Option<Vec<u8>>,
    entries: &Vec<DirEntry>,
) -> (r: Result<(CreateProofWithoutMpcRequest, ProofPlan), CustomError>)
    ensures
        answers(
            r,
            fields_view(fields@),
            key_view(*proving_key),
            key_view(*verifying_key),
            true,
            entries@,
        ),
{
    plan(fields, proving_key, verifying_key, true, entries)
}

/// Answers a request for a proof from the full witness. `matrices` and
/// `full_assignment` are what the witness generator made of the planned
/// inputs. A request that is refused is refused as it was when it was
/// planned, whatever the witness is; else the witness is checked and the
/// proof made, and the answer carries the request's circuit id.
pub fn create_proof_without_mpc(
    fields: &Vec<(String, Vec<u8>)>,
    proving_key: &Option<Vec<u8>>,
    entries: &Vec<DirEntry>,
    matrices: &ConstraintMatrices,
    full_assignment: &Vec<Scalar>,
    time_taken: i64,
) -> (r: Result<CreateProofWithoutMpcResponse, CustomError>)
    ensures
        match refusal(fields_view(fields@), key_view(*proving_key), None, false, entries@) {
            Some(refused) => r matches Err(e) && is_refusal(e, refused),
            None => match prove_result(
                proving_key->Some_0@,
                *matrices,
                values(full_assignment@),
            ) {
                Err(failed) => r matches Err(e) && is_refusal(e, failed),
                Ok(bytes) => r matches Ok(res) && res.circuit_id@ == proof_request_of(
                    fields_view(fields@),
                ).unwrap().0 && res.proof.spec_bytes() == bytes && res.proof.framed()
                    && res.time_taken == time_taken,
            },
        },
{
    let request = match plan(fields, proving_key, &None, false, entries) {
        Ok(taken) => taken.0,
        Err(e) => {
            return Err(e);
        },
    };
    let key = proving_key.as_ref().unwrap();
    match prove(key, matrices, full_assignment) {
        Ok(proof) => Ok(
            CreateProofWithoutMpcResponse { circuit_id: request.circuit_id, proof, time_taken },
        ),
        Err(e) => Err(e),
    }
}

/// What a session comes to when it ends: the kind and message of the error
/// for a session that was given up or in which a party has not delivered,
/// or `None` where the first party's delivery is the witness's part of the
/// proof.
pub open spec fn session_failure(session: ProvingSession) -> Option<(ErrorKind, Seq<char>)> {
    match session.aborted() {
        Some(kind) => Some((kind, "Session aborted"@)),
        None => if session.parties() >= 1 && session.all_delivered() {
            None
        } else {
            Some((ErrorKind::PartyFailure, "A party did not deliver"@))
        },
    }
}

/// Answers a request for a proof by the parties. `session` is the session
/// as the parties left it. A request that is refused is refused as it was
/// when it was planned. A session that was given up, or in which a party
/// has not delivered, gives no proof. Else the proof is completed from what
/// the first party delivered and the public offsets that the two keys hold,
/// and the answer carries the request's circuit id.
pub fn create_proof_with_naive_mpc(
    fields: &Vec<(String, Vec<u8>)>,
    proving_key: &Option<Vec<u8>>,
    verifying_key: &Option<Vec<u8>>,
    entries: &Vec<DirEntry>,
    session: ProvingSession,
    time_taken: i64,
) -> (r: Result<CreateProofWithNaiveMpcResponse, CustomError>)
    ensures
        match refusal(
            fields_view(fields@),
            key_view(*proving_key),
            key_view(*verifying_key),
            true,
            entries@,
        ) {
            Some(refused) => r matches Err(e) && is_refusal(e, refused),
            None => match session_failure(session) {
                Some(failed) => r matches Err(e) && is_refusal(e, failed),
                None => {
                    let out = session.output_of(0).unwrap();
                    let o = key_offsets(proving_key->Some_0@, verifying_key->Some_0@).unwrap();
                    let a = with_offsets_g1(out.a.bytes@, o.0, o.1);
                    let b = with_offsets_g2(out.b.bytes@, o.2, o.3);
                    if a is Some && b is Some {
                        r matches Ok(res) && res.circuit_id@ == proof_request_of(
                            fields_view(fields@),
                        ).unwrap().0 && Some(res.proof.a.bytes@) == a && Some(res.proof.b.bytes@)
                            == b && res.proof.c == out.c && res.time_taken == time_taken
                    } else {
                        r matches Err(e) && e.spec_kind() == ErrorKind::DeserializationFailure
                            && e.spec_message() == "Failed to decode a group element"@
                    }
                },
            },
        },
{
    let request = match plan(fields, proving_key, verifying_key, true, entries) {
        Ok(taken) => taken.0,
        Err(e) => {
            return Err(e);
        },
    };
    let output = match session.finish() {
        Ok(output) => output,
        Err(e) => {
            return Err(e);
        },
    };
    let offsets = proof_offsets(
        proving_key.as_ref().unwrap(),
        verifying_key.as_ref().unwrap(),
    ).unwrap();
    match complete_proof(output, &offsets.0, &offsets.1, &offsets.2, &offsets.3) {
        Ok(proof) => Ok(
            CreateProofWithNaiveMpcResponse { circuit_id: request.circuit_id, proof, time_taken },
        ),
        Err(e) => Err(e),
    }
}

} // verus!
