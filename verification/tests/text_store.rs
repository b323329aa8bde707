use mpc_prover::dto::ErrorKind;
use mpc_prover::store::{
    circuit_file_paths, circuit_id, extension_of, file_path, find_latest_file_with_extension,
    get_circuit_files, latest_with_extension, proving_key_path, r1cs_file_name,
    verifying_key_path, wasm_file_name, with_extension, DirEntry,
};
use mpc_prover::text::{joined, decimal_text, signed_decimal_text, str_eq};

fn entry(name: &str, modified: u128) -> DirEntry {
    DirEntry { file_name: name.to_string(), modified }
}

#[test]
fn decimal_text_of_numbers() {
    assert_eq!(decimal_text(0), "0");
    assert_eq!(decimal_text(7), "7");
    assert_eq!(decimal_text(10), "10");
    assert_eq!(decimal_text(1234567890), "1234567890");
    assert_eq!(decimal_text(u64::MAX), "18446744073709551615");
}

#[test]
fn signed_decimal_text_of_numbers() {
    assert_eq!(signed_decimal_text(0), "0");
    assert_eq!(signed_decimal_text(-1), "-1");
    assert_eq!(signed_decimal_text(1700000000000), "1700000000000");
    assert_eq!(signed_decimal_text(i64::MAX), "9223372036854775807");
    assert_eq!(signed_decimal_text(i64::MIN), "-9223372036854775808");
}

#[test]
fn strings_compare_and_join() {
    assert!(str_eq("abc", "abc"));
    assert!(!str_eq("abc", "abd"));
    assert!(!str_eq("abc", "ab"));
    assert_eq!(joined("ab", "cd"), "abcd");
    assert_eq!(joined("", ""), "");
}

#[test]
fn circuit_id_is_made_of_name_and_time() {
    assert_eq!(circuit_id("adder", 1700000000000), "circuit_adder_1700000000000");
    assert_eq!(circuit_id("", 0), "circuit__0");
    assert_eq!(circuit_id("a_b", -5), "circuit_a_b_-5");
}

#[test]
fn different_names_get_different_ids() {
    assert_ne!(circuit_id("adder", 1), circuit_id("adder2", 1));
    assert_ne!(circuit_id("a", 11), circuit_id("a_1", 1));
    assert_ne!(circuit_id("adder", 1), circuit_id("adder", 2));
}

#[test]
fn paths_of_a_circuit() {
    assert_eq!(file_path("dir", "file.bin"), "dir/file.bin");
    assert_eq!(proving_key_path("circuit_x_1"), "circuit_x_1/proving_key.bin");
    assert_eq!(verifying_key_path("circuit_x_1"), "circuit_x_1/verifying_key.bin");
    assert_eq!(r1cs_file_name("adder"), "adder.r1cs");
    assert_eq!(wasm_file_name("adder"), "adder.wasm");
}

#[test]
fn extension_is_what_follows_the_last_dot() {
    assert_eq!(extension_of("adder.r1cs"), Some("r1cs".to_string()));
    assert_eq!(extension_of("a.b.c"), Some("c".to_string()));
    assert_eq!(extension_of("trailing."), Some("".to_string()));
    assert_eq!(extension_of(".hidden.txt"), Some("txt".to_string()));
}

#[test]
fn some_names_have_no_extension() {
    assert_eq!(extension_of("noext"), None);
    assert_eq!(extension_of(".hidden"), None);
    assert_eq!(extension_of(".."), None);
    assert_eq!(extension_of(""), None);
    assert_eq!(extension_of("."), None);
}

#[test]
fn extension_agrees_with_the_standard_library() {
    let names = [
        "adder.r1cs", "a.b.c", "trailing.", ".hidden", ".hidden.txt", "noext", "..", "x..y", "",
        ".", "...", "a", ".a.",
    ];
    for name in names {
        let expected = std::path::Path::new(name)
            .extension()
            .and_then(|e| e.to_str())
            .map(|e| e.to_string());
        assert_eq!(extension_of(name), expected, "{:?}", name);
        for ext in ["wasm", ""] {
            let replaced = std::path::Path::new(name).with_extension(ext);
            assert_eq!(with_extension(name, ext), replaced.to_str().unwrap(), "{:?}", name);
        }
    }
}

#[test]
fn extension_is_replaced_or_added() {
    assert_eq!(with_extension("adder.r1cs", "wasm"), "adder.wasm");
    assert_eq!(with_extension("a.b.r1cs", "wasm"), "a.b.wasm");
    assert_eq!(with_extension("noext", "wasm"), "noext.wasm");
    assert_eq!(with_extension(".hidden", "wasm"), ".hidden.wasm");
    assert_eq!(with_extension("adder.r1cs", ""), "adder");
    assert_eq!(with_extension("..", "wasm"), "..");
    assert_eq!(with_extension("", "wasm"), "");
}

#[test]
fn latest_file_is_the_most_recently_modified() {
    let entries = vec![
        entry("old.r1cs", 10),
        entry("new.r1cs", 30),
        entry("newest.wasm", 99),
        entry("mid.r1cs", 20),
    ];
    assert_eq!(latest_with_extension(&entries, "r1cs"), Some(1));
    assert_eq!(latest_with_extension(&entries, "wasm"), Some(2));
    assert_eq!(latest_with_extension(&entries, "bin"), None);
}

#[test]
fn first_of_equally_recent_files_wins() {
    let entries = vec![entry("a.r1cs", 5), entry("b.r1cs", 7), entry("c.r1cs", 7)];
    assert_eq!(latest_with_extension(&entries, "r1cs"), Some(1));
}

#[test]
fn latest_file_path_lies_in_the_directory() {
    let entries = vec![entry("a.r1cs", 5), entry("b.r1cs", 7)];
    let path = find_latest_file_with_extension("circuit_x_1", &entries, "r1cs").unwrap();
    assert_eq!(path, "circuit_x_1/b.r1cs");
}

#[test]
fn directory_without_such_a_file_is_not_found() {
    let entries = vec![entry("a.wasm", 5)];
    let e = find_latest_file_with_extension("circuit_x_1", &entries, "r1cs").unwrap_err();
    assert_eq!(e.kind(), ErrorKind::ArtifactNotFound);
    assert_eq!(e.message(), "No .r1cs files found in directory circuit_x_1");
}

#[test]
fn circuit_files_go_together() {
    let entries = vec![entry("adder.wasm", 9), entry("adder.r1cs", 5)];
    let files = circuit_file_paths("circuit_adder_1", &entries).unwrap();
    assert_eq!(files.r1cs_path, "circuit_adder_1/adder.r1cs");
    assert_eq!(files.witness_path, "circuit_adder_1/adder.wasm");
}

#[test]
fn unregistered_circuit_has_no_files() {
    let e = circuit_file_paths("circuit_missing_1", &vec![]).unwrap_err();
    assert_eq!(e.kind(), ErrorKind::ArtifactNotFound);
    assert_eq!(e.message(), "No .r1cs files found in directory circuit_missing_1");
}

#[test]
fn circuit_files_are_handed_out_whole() {
    let entries = vec![entry("adder.r1cs", 5), entry("adder.wasm", 9)];
    let res =
        get_circuit_files("circuit_a_1", &entries, Some(vec![1, 2]), Some(vec![3]), 17).unwrap();
    assert_eq!(res.r1cs_file, vec![1, 2]);
    assert_eq!(res.witness_generator, vec![3]);
    assert_eq!(res.time_taken, 17);
}

#[test]
fn files_of_an_unregistered_circuit_are_not_found() {
    let e = get_circuit_files("circuit_missing_0", &vec![], None, None, 0).unwrap_err();
    assert_eq!(e.kind(), ErrorKind::ArtifactNotFound);
    assert_eq!(e.message(), "No .r1cs files found in directory circuit_missing_0");
    let e = get_circuit_files("circuit_missing_0", &vec![], Some(vec![1]), Some(vec![2]), 0)
        .unwrap_err();
    assert_eq!(e.kind(), ErrorKind::ArtifactNotFound);
}

#[test]
fn missing_circuit_file_is_not_found() {
    let entries = vec![entry("a.r1cs", 5)];
    let e = get_circuit_files("x", &entries, None, Some(vec![3]), 0).unwrap_err();
    assert_eq!(e.kind(), ErrorKind::ArtifactNotFound);
    assert_eq!(e.message(), "Failed to read the r1cs file");
    let e = get_circuit_files("x", &entries, Some(vec![1]), None, 0).unwrap_err();
    assert_eq!(e.kind(), ErrorKind::ArtifactNotFound);
    assert_eq!(e.message(), "Failed to read the wasm file");
    let e = get_circuit_files("x", &entries, None, None, 0).unwrap_err();
    assert_eq!(e.message(), "Failed to read the r1cs file");
}

#[test]
fn latest_constraint_system_goes_with_the_program_of_its_name() {
    let entries =
        vec![entry("x.r1cs", 1), entry("y.r1cs", 2), entry("x.wasm", 3), entry("y.wasm", 1)];
    let files = circuit_file_paths("circuit_a_1", &entries).unwrap();
    assert_eq!(files.r1cs_path, "circuit_a_1/y.r1cs");
    assert_eq!(files.witness_path, "circuit_a_1/y.wasm");
}
