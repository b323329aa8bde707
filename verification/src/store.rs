//! The naming rules of the artifact store: how a circuit gets its id, where
//! its files lie, and which of several files of one kind is the current one.

use crate::dto::{CustomError, ErrorKind, GetCircuitFilesResponse};
use crate::text::{joined, lemma_signed_decimal, signed_decimal, signed_decimal_text, str_eq};
use vstd::prelude::*;
use vstd::string::StringExecFns;
use vstd::string::StrSliceExecFns;

verus! {

/// The id of a circuit registered under `name` at `millis` milliseconds
/// since the epoch.
pub open spec fn circuit_id_text(name: Seq<char>, millis: int) -> Seq<char> {
    "circuit_"@ + name + "_"@ + signed_decimal(millis)
}

/// Derives a circuit's id from its name and the time of its registration.
pub fn circuit_id(name: &str, millis: i64) -> (r: String)
    ensures
        r@ == circuit_id_text(name@, millis as int),
{
    let mut s = joined("circuit_", name);
    s.append("_");
    let stamp = signed_decimal_text(millis);
    s.append(stamp.as_str());
    s
}

/// Two registrations get the same id only where both the name and the time
/// are the same: registrations under different names, or at different
/// times, never share an id.
pub proof fn lemma_circuit_ids_distinct(n1: Seq<char>, t1: int, n2: Seq<char>, t2: int)
    requires
        circuit_id_text(n1, t1) == circuit_id_text(n2, t2),
    ensures
        n1 == n2,
        t1 == t2,
{
    reveal_strlit("circuit_");
    reveal_strlit("_");
    let head = "circuit_"@;
    let d1 = signed_decimal(t1);
    let d2 = signed_decimal(t2);
    let id1 = circuit_id_text(n1, t1);
    let id2 = circuit_id_text(n2, t2);
    lemma_signed_decimal(t1, t2);
    lemma_signed_decimal(t2, t1);
    assert(id1.len() == 8 + n1.len() + 1 + d1.len());
    assert(id2.len() == 8 + n2.len() + 1 + d2.len());
    // the underscore before the time is the last one of the id
    let l1 = n1.len() as int;
    let l2 = n2.len() as int;
    assert(id1[8 + l1] == '_');
    assert(id2[8 + l2] == '_');
    if l1 < l2 {
        let k = 8 + l2;
        assert(id1[k] == d1[k - 8 - l1 - 1]);
        assert(false);
    }
    if l2 < l1 {
        let k = 8 + l1;
        assert(id2[k] == d2[k - 8 - l2 - 1]);
        assert(false);
    }
    assert forall|i: int| 0 <= i < n1.len() implies n1[i] == n2[i] by {
        assert(id1[8 + i] == n1[i]);
        assert(id2[8 + i] == n2[i]);
    }
    assert(n1 =~= n2);
    assert forall|i: int| 0 <= i < d1.len() implies d1[i] == d2[i] by {
        assert(id1[8 + l1 + 1 + i] == d1[i]);
        assert(id2[8 + l2 + 1 + i] == d2[i]);
    }
    assert(d1 =~= d2);
}

/// The path of `file` inside the directory `dir`.
pub open spec fn path_in(dir: Seq<char>, file: Seq<char>) -> Seq<char> {
    dir + "/"@ + file
}

/// The path of `file` inside the directory `dir`.
pub fn file_path(dir: &str, file: &str) -> (r: String)
    ensures
        r@ == path_in(dir@, file@),
{
    let mut s = joined(dir, "/");
    s.append(file);
    s
}

/// Where the proving key of the circuit `circuit_id` lies.
pub fn proving_key_path(circuit_id: &str) -> (r: String)
    ensures
        r@ == path_in(circuit_id@, "proving_key.bin"@),
{
    file_path(circuit_id, "proving_key.bin")
}

/// Where the verifying key of the circuit `circuit_id` lies.
pub fn verifying_key_path(circuit_id: &str) -> (r: String)
    ensures
        r@ == path_in(circuit_id@, "verifying_key.bin"@),
{
    file_path(circuit_id, "verifying_key.bin")
}

/// The name of the file that holds the constraint system of the circuit
/// named `circuit_name`.
pub fn r1cs_file_name(circuit_name: &str) -> (r: String)
    ensures
        r@ == circuit_name@ + ".r1cs"@,
{
    joined(circuit_name, ".r1cs")
}

/// The name of the file that holds the witness generator of the circuit
/// named `circuit_name`.
pub fn wasm_file_name(circuit_name: &str) -> (r: String)
    ensures
        r@ == circuit_name@ + ".wasm"@,
{
    joined(circuit_name, ".wasm")
}

/// The position of the last dot of `name` before position `upto`, or -1.
pub open spec fn last_dot(name: Seq<char>, upto: int) -> int
    decreases upto,
{
    if upto <= 0 {
        -1
    } else if name[upto - 1] == '.' {
        upto - 1
    } else {
        last_dot(name, upto - 1)
    }
}

/// Where the extension of the file name `name` is cut off: at its last dot,
/// unless it has none, or its only dot comes first, or it is `..`.
pub open spec fn extension_cut(name: Seq<char>) -> Option<int> {
    let dot = last_dot(name, name.len() as int);
    if dot <= 0 || name == seq!['.', '.'] {
        None
    } else {
        Some(dot)
    }
}

/// The extension of the file name `name`: what follows its last dot.
pub open spec fn extension(name: Seq<char>) -> Option<Seq<char>> {
    match extension_cut(name) {
        Some(dot) => Some(name.subrange(dot + 1, name.len() as int)),
        None => None,
    }
}

/// The file name `name` up to where its extension is cut off.
pub open spec fn stem(name: Seq<char>) -> Seq<char> {
    match extension_cut(name) {
        Some(dot) => name.subrange(0, dot),
        None => name,
    }
}

/// `name` is no name of a file: it is empty, or stands for a directory
/// itself or for its parent.
pub open spec fn names_no_file(name: Seq<char>) -> bool {
    name.len() == 0 || name == seq!['.'] || name == seq!['.', '.']
}

/// The file name `name` with its extension, if it has one, replaced by
/// `ext`: the stem, a dot and `ext`, or the stem alone where `ext` is empty.
/// What names no file is left as it is.
pub open spec fn replaced_extension(name: Seq<char>, ext: Seq<char>) -> Seq<char> {
    if names_no_file(name) {
        name
    } else if ext.len() == 0 {
        stem(name)
    } else {
        stem(name) + "."@ + ext
    }
}

/// Finds where the extension of a file name is cut off.
fn find_extension_cut(name: &str) -> (r: Option<usize>)
    ensures
        match r {
            Some(dot) => extension_cut(name@) == Some(dot as int) && 0 < dot < name@.len(),
            None => extension_cut(name@) is None,
        },
{
    proof {
        reveal_strlit("..");
        assert(".."@ =~= seq!['.', '.']);
    }
    if str_eq(name, "..") {
        return None;
    }
    let len = name.unicode_len();
    let mut i: usize = len;
    while i > 0
        invariant
            i <= len,
            len == name@.len(),
            name@ != seq!['.', '.'],
            last_dot(name@, len as int) == last_dot(name@, i as int),
        decreases i,
    {
        if name.get_char(i - 1) == '.' {
            if i - 1 == 0 {
                return None;
            }
            return Some(i - 1);
        }
        i -= 1;
    }
    None
}

/// The extension of a file name, as the part after its last dot.
pub fn extension_of(name: &str) -> (r: Option<String>)
    ensures
        match r {
            Some(e) => extension(name@) == Some(e@),
            None => extension(name@) is None,
        },
{
    match find_extension_cut(name) {
        Some(dot) => {
            let len = name.unicode_len();
            Some(String::from_str(name.substring_char(dot + 1, len)))
        },
        None => None,
    }
}

/// Replaces the extension of a file name, or adds one where it has none.
pub fn with_extension(name: &str, ext: &str) -> (r: String)
    ensures
        r@ == replaced_extension(name@, ext@),
{
    proof {
        reveal_strlit(".");
        reveal_strlit("..");
        assert("."@ =~= seq!['.']);
        assert(".."@ =~= seq!['.', '.']);
    }
    if name.unicode_len() == 0 || str_eq(name, ".") || str_eq(name, "..") {
        return String::from_str(name);
    }
    let mut s = match find_extension_cut(name) {
        Some(dot) => String::from_str(name.substring_char(0, dot)),
        None => String::from_str(name),
    };
    if ext.unicode_len() > 0 {
        s.append(".");
        s.append(ext);
    }
    s
}

/// One file of a circuit's directory: its name and when it was last
/// modified, in nanoseconds since the epoch.
#[derive(Debug)]
pub struct DirEntry {
    pub file_name: String,
    pub modified: u128,
}

/// Entry `i` has the extension `ext`.
pub open spec fn has_extension(entries: Seq<DirEntry>, ext: Seq<char>, i: int) -> bool {
    0 <= i < entries.len() && extension(entries[i].file_name@) == Some(ext)
}

/// Entry `i` is the latest with the extension `ext`: none with that
/// extension was modified later, and those before it were modified earlier.
pub open spec fn is_latest(entries: Seq<DirEntry>, ext: Seq<char>, i: int) -> bool {
    &&& has_extension(entries, ext, i)
    &&& forall|j: int| #[trigger]
        has_extension(entries, ext, j) ==> entries[j].modified <= entries[i].modified
    &&& forall|j: int|
        j < i && #[trigger] has_extension(entries, ext, j) ==> entries[j].modified
            < entries[i].modified
}

/// Picks the most recently modified entry with the extension `ext`, the
/// first of them where several were modified at the same time.
pub fn latest_with_extension(entries: &Vec<DirEntry>, ext: &str) -> (r: Option<usize>)
    ensures
        match r {
            Some(i) => is_latest(entries@, ext@, i as int),
            None => forall|j: int| !has_extension(entries@, ext@, j),
        },
{
    let mut best: Option<usize> = None;
    let mut k: usize = 0;
    while k < entries.len()
        invariant
            k <= entries.len(),
            match best {
                Some(i) => i < k && is_latest(entries@.take(k as int), ext@, i as int),
                None => forall|j: int| !has_extension(entries@.take(k as int), ext@, j),
            },
        decreases entries.len() - k,
    {
        let ghost before = entries@.take(k as int);
        let ghost now = entries@.take(k as int + 1);
        proof {
            assert forall|j: int| 0 <= j < k implies #[trigger] has_extension(now, ext@, j)
                == has_extension(before, ext@, j) by {
                assert(now[j] == before[j]);
            }
            assert(now[k as int] == entries@[k as int]);
        }
        let matches = match extension_of(entries[k].file_name.as_str()) {
            Some(e) => str_eq(e.as_str(), ext),
            None => false,
        };
        assert(matches == has_extension(now, ext@, k as int));
        if matches {
            let newer = match best {
                Some(i) => entries[k].modified > entries[i].modified,
                None => true,
            };
            if newer {
                proof {
                    assert forall|j: int| #[trigger] has_extension(now, ext@, j) implies now[j].modified
                        <= now[k as int].modified by {
                        if j < k {
                            assert(has_extension(before, ext@, j));
                        }
                    }
                    assert forall|j: int| j < k && #[trigger] has_extension(now, ext@, j) implies now[j].modified
                        < now[k as int].modified by {
                        assert(has_extension(before, ext@, j));
                    }
                }
                best = Some(k);
            } else {
                proof {
                    let i = best.unwrap() as int;
                    assert(has_extension(now, ext@, i));
                    assert forall|j: int| #[trigger] has_extension(now, ext@, j) implies now[j].modified
                        <= now[i].modified by {
                        if j < k {
                            assert(has_extension(before, ext@, j));
                        }
                    }
                    assert forall|j: int| j < i && #[trigger] has_extension(now, ext@, j) implies now[j].modified
                        < now[i].modified by {
                        assert(has_extension(before, ext@, j));
                    }
                }
            }
        } else {
            proof {
                match best {
                    Some(b) => {
                        let i = b as int;
                        assert(has_extension(now, ext@, i));
                        assert forall|j: int| #[trigger] has_extension(now, ext@, j) implies now[j].modified
                            <= now[i].modified by {
                            assert(has_extension(before, ext@, j));
                        }
                        assert forall|j: int| j < i && #[trigger] has_extension(now, ext@, j) implies now[j].modified
                            < now[i].modified by {
                            assert(has_extension(before, ext@, j));
                        }
                    },
                    None => {
                        assert forall|j: int| !has_extension(now, ext@, j) by {
                            if 0 <= j < k {
                                assert(!has_extension(before, ext@, j));
                            }
                        }
                    },
                }
            }
        }
        k += 1;
    }
    assert(entries@.take(entries.len() as int) =~= entries@);
    best
}

/// What is reported where a directory holds no file with the extension.
pub open spec fn no_files_message(ext: Seq<char>, dir: Seq<char>) -> Seq<char> {
    "No ."@ + ext + " files found in directory "@ + dir
}

/// The error for a directory that holds no file with the extension.
fn no_files_error(extension: &str, dir_path: &str) -> (e: CustomError)
    ensures
        e.spec_kind() == ErrorKind::ArtifactNotFound,
        e.spec_message() == no_files_message(extension@, dir_path@),
{
    let mut message = joined("No .", extension);
    message.append(" files found in directory ");
    message.append(dir_path);
    CustomError::new(ErrorKind::ArtifactNotFound, message.as_str())
}

/// The path of the most recently modified file with the extension
/// `extension` among the entries of the directory `dir_path`; an
/// `ArtifactNotFound` where there is none.
pub fn find_latest_file_with_extension(
    dir_path: &str,
    entries: &Vec<DirEntry>,
    extension: &str,
) -> (r: Result<String, CustomError>)
    ensures
        match r {
            Ok(path) => exists|i: int| #[trigger]
                is_latest(entries@, extension@, i) && path@ == path_in(
                    dir_path@,
                    entries[i].file_name@,
                ),
            Err(e) => (forall|j: int| !has_extension(entries@, extension@, j)) && e.spec_kind()
                == ErrorKind::ArtifactNotFound && e.spec_message() == no_files_message(
                extension@,
                dir_path@,
            ),
        },
{
    match latest_with_extension(entries, extension) {
        Some(i) => {
            assert(is_latest(entries@, extension@, i as int));
            Ok(file_path(dir_path, entries[i].file_name.as_str()))
        },
        None => Err(no_files_error(extension, dir_path)),
    }
}

/// Where the current constraint system of a circuit lies, and its witness
/// generator beside it.
#[derive(Debug)]
pub struct CircuitFiles {
    pub r1cs_path: String,
    pub witness_path: String,
}

/// `files` are the paths that go with entry `i` of the directory `dir`: the
/// entry itself, and the file of the same name with the extension `wasm`.
pub open spec fn files_of(files: CircuitFiles, dir: Seq<char>, entries: Seq<DirEntry>, i: int) -> bool {
    &&& files.r1cs_path@ == path_in(dir, entries[i].file_name@)
    &&& files.witness_path@ == path_in(dir, replaced_extension(entries[i].file_name@, "wasm"@))
}

/// Finds the files of the circuit whose directory `circuit_id` has the
/// entries `entries`: the most recently modified constraint system, and the
/// witness generator that shares its name. A directory without a
/// constraint system is an `ArtifactNotFound`.
pub fn circuit_file_paths(circuit_id: &str, entries: &Vec<DirEntry>) -> (r: Result<
    CircuitFiles,
    CustomError,
>)
    ensures
        match r {
            Ok(files) => exists|i: int| #[trigger]
                is_latest(entries@, "r1cs"@, i) && files_of(files, circuit_id@, entries@, i),
            Err(e) => (forall|j: int| !has_extension(entries@, "r1cs"@, j)) && e.spec_kind()
                == ErrorKind::ArtifactNotFound && e.spec_message() == no_files_message(
                "r1cs"@,
                circuit_id@,
            ),
        },
{
    match latest_with_extension(entries, "r1cs") {
        Some(i) => {
            assert(is_latest(entries@, "r1cs"@, i as int));
            let name = entries[i].file_name.as_str();
            let companion = with_extension(name, "wasm");
            Ok(
                CircuitFiles {
                    r1cs_path: file_path(circuit_id, name),
                    witness_path: file_path(circuit_id, companion.as_str()),
                },
            )
        },
        None => Err(no_files_error("r1cs", circuit_id)),
    }
}

/// Why a request for a circuit's files is refused, given the entries of its
/// directory and what was read of the two files; `None` where it is not. A
/// circuit without a constraint system is looked for first, then a
/// constraint system that could not be read, then a witness generator that
/// could not be read.
pub open spec fn files_refusal(
    circuit_id: Seq<char>,
    entries: Seq<DirEntry>,
    r1cs_file: Option<Vec<u8>>,
    witness_generator: Option<Vec<u8>>,
) -> Option<Seq<char>> {
    if forall|j: int| !has_extension(entries, "r1cs"@, j) {
        Some(no_files_message("r1cs"@, circuit_id))
    } else if r1cs_file is None {
        Some("Failed to read the r1cs file"@)
    } else if witness_generator is None {
        Some("Failed to read the wasm file"@)
    } else {
        None
    }
}

/// Answers a request for a circuit's files. `entries` is what the circuit's
/// directory holds, `r1cs_file` and `witness_generator` what was read at the
/// two paths that `circuit_file_paths` gives for these entries. A circuit
/// that was never registered has no entries; it, and a circuit of which a
/// file is absent, is an `ArtifactNotFound`. Else the answer holds the two
/// files.
pub fn get_circuit_files(
    circuit_id: &str,
    entries: &Vec<DirEntry>,
    r1cs_file: Option<Vec<u8>>,
    witness_generator: Option<Vec<u8>>,
    time_taken: i64,
) -> (r: Result<GetCircuitFilesResponse, CustomError>)
    ensures
        match files_refusal(circuit_id@, entries@, r1cs_file, witness_generator) {
            Some(message) => r matches Err(e) && e.spec_kind() == ErrorKind::ArtifactNotFound
                && e.spec_message() == message,
            None => r matches Ok(res) && Some(res.r1cs_file) == r1cs_file && Some(
                res.witness_generator,
            ) == witness_generator && res.time_taken == time_taken,
        },
{
    match circuit_file_paths(circuit_id, entries) {
        Ok(files) => {
            proof {
                let found = choose|i: int| #[trigger]
                    is_latest(entries@, "r1cs"@, i) && files_of(files, circuit_id@, entries@, i);
                assert(has_extension(entries@, "r1cs"@, found));
            }
        },
        Err(e) => {
            return Err(e);
        },
    }
    match r1cs_file {
        None => Err(CustomError::new(ErrorKind::ArtifactNotFound, "Failed to read the r1cs file")),
        Some(r1cs) => match witness_generator {
            None => Err(
                CustomError::new(ErrorKind::ArtifactNotFound, "Failed to read the wasm file"),
            ),
            Some(wasm) => Ok(
                GetCircuitFilesResponse { r1cs_file: r1cs, witness_generator: wasm, time_taken },
            ),
        },
    }
}

} // verus!
