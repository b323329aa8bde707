use mpc_prover::dto::{ErrorKind, InputVec};
use mpc_prover::field::Scalar;
use mpc_prover::inputs::{
    deserialize_as_vec_u64, input_map_from_entries, input_pushes, parse_input_map,
    parse_public_inputs, read_integer, InputError, InputValue,
};

fn plain(map: &[(String, InputVec)]) -> Vec<(String, Vec<Scalar>)> {
    map.iter().map(|(k, v)| (k.clone(), v.0.clone())).collect()
}

fn nums(xs: &[u64]) -> Vec<Scalar> {
    xs.iter().map(|x| Scalar::from_u64(*x)).collect()
}

fn number(text: &str) -> InputValue {
    InputValue::Number(text.to_string())
}

fn array(items: &[Option<&str>]) -> InputValue {
    InputValue::Array(items.iter().map(|x| x.map(|t| t.to_string())).collect())
}

fn sorted_names(map: &[(String, InputVec)]) -> Vec<(String, Vec<Scalar>)> {
    let mut got = plain(map);
    got.sort_by(|a, b| a.0.cmp(&b.0));
    got
}

#[test]
fn single_number_is_a_list_of_one() {
    assert_eq!(deserialize_as_vec_u64(&number("7")), Ok(nums(&[7])));
    assert_eq!(deserialize_as_vec_u64(&number("18446744073709551615")), Ok(nums(&[u64::MAX])));
}

#[test]
fn number_above_64_bits_is_taken() {
    let got = deserialize_as_vec_u64(&number("18446744073709551616")).unwrap();
    assert_eq!(got, vec![Scalar::from_limbs(0, 1, 0, 0).unwrap()]);
    let below = "21888242871839275222246405745257275088548364400416034343698204186575808495616";
    let got = deserialize_as_vec_u64(&number(below)).unwrap();
    assert_eq!(got[0].limbs()[0], 0x43e1_f593_f000_0000);
}

#[test]
fn number_that_is_not_below_the_field_order_stands_for_its_residue() {
    let order = "21888242871839275222246405745257275088548364400416034343698204186575808495617";
    assert_eq!(deserialize_as_vec_u64(&number(order)), Ok(nums(&[0])));
}

#[test]
fn integers_are_read_from_decimal_digits_only() {
    assert_eq!(read_integer("12"), Some(Scalar::from_u64(12)));
    assert_eq!(read_integer("0"), Some(Scalar::zero()));
    for text in ["", "-1", "1.5", "1e3", "+1", " 1", "1_0", "0x10", "१"] {
        assert_eq!(read_integer(text), None, "{:?}", text);
    }
}

#[test]
fn array_of_numbers_is_itself() {
    let v = array(&[Some("1"), Some("2"), Some("3")]);
    assert_eq!(deserialize_as_vec_u64(&v), Ok(nums(&[1, 2, 3])));
    assert_eq!(deserialize_as_vec_u64(&array(&[])), Ok(vec![]));
}

#[test]
fn number_that_is_no_integer_is_invalid() {
    assert_eq!(deserialize_as_vec_u64(&number("-1")), Err(InputError::InvalidNumber));
    assert_eq!(deserialize_as_vec_u64(&number("1.5")), Err(InputError::InvalidNumber));
    let v = array(&[Some("1"), None, Some("3")]);
    assert_eq!(deserialize_as_vec_u64(&v), Err(InputError::InvalidNumber));
    let v = array(&[Some("1"), Some("-2")]);
    assert_eq!(deserialize_as_vec_u64(&v), Err(InputError::InvalidNumber));
}

#[test]
fn other_values_are_neither_number_nor_array() {
    assert_eq!(deserialize_as_vec_u64(&InputValue::Other), Err(InputError::NotNumberOrArray));
}

#[test]
fn input_error_messages() {
    assert_eq!(InputError::InvalidNumber.message(), "Invalid number");
    assert_eq!(InputError::NotNumberOrArray.message(), "Expected number or array of numbers");
    assert_eq!(InputError::DuplicateName.message(), "Duplicate input name");
}

#[test]
fn entries_are_read_in_order() {
    let entries =
        vec![("b".to_string(), array(&[Some("2"), Some("3")])), ("a".to_string(), number("1"))];
    let map = input_map_from_entries(entries).unwrap();
    assert_eq!(plain(&map), vec![("b".to_string(), nums(&[2, 3])), ("a".to_string(), nums(&[1]))]);
}

#[test]
fn first_refused_entry_decides_the_error() {
    let entries = vec![
        ("a".to_string(), number("1")),
        ("b".to_string(), InputValue::Other),
        ("c".to_string(), number("-1")),
    ];
    let e = input_map_from_entries(entries).unwrap_err();
    assert_eq!(e.kind(), ErrorKind::InputParseError);
    assert_eq!(e.message(), "Expected number or array of numbers");
}

#[test]
fn name_that_comes_twice_is_refused() {
    let entries = vec![
        ("a".to_string(), number("1")),
        ("b".to_string(), number("2")),
        ("a".to_string(), number("3")),
    ];
    let e = input_map_from_entries(entries).unwrap_err();
    assert_eq!(e.kind(), ErrorKind::InputParseError);
    assert_eq!(e.message(), "Duplicate input name");
}

#[test]
fn input_mapping_is_read_from_json() {
    let map = parse_input_map(r#"{"a": 1, "b": [2, 3]}"#).unwrap();
    assert_eq!(
        sorted_names(&map),
        vec![("a".to_string(), nums(&[1])), ("b".to_string(), nums(&[2, 3]))]
    );
}

#[test]
fn large_integers_are_read_from_json_as_they_were_written() {
    let map = parse_input_map(r#"{"a": 18446744073709551616, "b": [340282366920938463463374607431768211456]}"#)
        .unwrap();
    assert_eq!(
        sorted_names(&map),
        vec![
            ("a".to_string(), vec![Scalar::from_limbs(0, 1, 0, 0).unwrap()]),
            ("b".to_string(), vec![Scalar::from_limbs(0, 0, 1, 0).unwrap()]),
        ]
    );
}

#[test]
fn adder_inputs_are_read_from_json() {
    let map = parse_input_map(r#"{"a": 1, "b": 2}"#).unwrap();
    let mut pushes = input_pushes(&map);
    pushes.sort_by(|a, b| a.0.cmp(&b.0));
    assert_eq!(
        pushes,
        vec![("a".to_string(), Scalar::from_u64(1)), ("b".to_string(), Scalar::from_u64(2))]
    );
}

#[test]
fn negative_and_fractional_numbers_are_invalid() {
    for text in [r#"{"a": -1}"#, r#"{"a": 1.5}"#, r#"{"a": [1, -2]}"#, r#"{"a": [1, "2"]}"#, r#"{"a": 1e2}"#] {
        let e = parse_input_map(text).unwrap_err();
        assert_eq!(e.kind(), ErrorKind::InputParseError);
        assert_eq!(e.message(), "Invalid number", "{}", text);
    }
}

#[test]
fn strings_and_objects_are_no_inputs() {
    for text in [r#"{"a": "1"}"#, r#"{"a": {"b": 1}}"#, r#"{"a": null}"#, r#"{"a": true}"#] {
        let e = parse_input_map(text).unwrap_err();
        assert_eq!(e.kind(), ErrorKind::InputParseError);
        assert_eq!(e.message(), "Expected number or array of numbers", "{}", text);
    }
}

#[test]
fn text_that_is_no_json_object_is_malformed() {
    for text in ["", "[1, 2]", "{", "7", r#"{"a": 1"#] {
        let e = parse_input_map(text).unwrap_err();
        assert_eq!(e.kind(), ErrorKind::InputParseError);
        assert_eq!(e.message(), "Malformed input mapping", "{}", text);
    }
}

#[test]
fn empty_mapping_has_no_inputs() {
    let map = parse_input_map("{}").unwrap();
    assert!(map.is_empty());
    assert!(input_pushes(&map).is_empty());
}

#[test]
fn inputs_are_pushed_value_by_value() {
    let map = vec![
        ("x".to_string(), InputVec(nums(&[4, 5]))),
        ("empty".to_string(), InputVec(vec![])),
        ("y".to_string(), InputVec(nums(&[6]))),
    ];
    assert_eq!(
        input_pushes(&map),
        vec![
            ("x".to_string(), Scalar::from_u64(4)),
            ("x".to_string(), Scalar::from_u64(5)),
            ("y".to_string(), Scalar::from_u64(6)),
        ]
    );
}

#[test]
fn public_inputs_are_read_from_json() {
    assert_eq!(parse_public_inputs(r#"["3"]"#).unwrap(), vec!["3".to_string()]);
    assert_eq!(
        parse_public_inputs(r#"["1", "22"]"#).unwrap(),
        vec!["1".to_string(), "22".to_string()]
    );
    assert_eq!(parse_public_inputs("[]").unwrap(), Vec::<String>::new());
}

#[test]
fn public_inputs_that_are_no_array_of_strings_are_malformed() {
    for text in ["", "[3]", r#"{"a": "3"}"#, r#"["3""#] {
        let e = parse_public_inputs(text).unwrap_err();
        assert_eq!(e.kind(), ErrorKind::InputParseError);
        assert_eq!(e.message(), "Malformed public inputs", "{}", text);
    }
}
