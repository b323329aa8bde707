//! The input mapping of a proof request: each named circuit input is given
//! as one integer or as an array of them. An integer is written in decimal
//! and read into the scalar field, so every value that the field can hold is
//! an input.

use crate::dto::{CustomError, ErrorKind, InputVec};
use crate::field::{all_digits, digits_value, fr_from_decimal, modulus, values, Scalar};
use crate::json::{json_input_entries, json_strings, parse_input_entries, parse_strings};
use crate::text::str_eq;
use vstd::prelude::*;
use vstd::string::StrSliceExecFns;

verus! {

/// What the value given for one input name looks like: a number, as it was
/// written; an array, with the text of each item that is a number; or
/// anything else.
#[derive(Debug)]
pub enum InputValue {
    Number(String),
    Array(Vec<Option<String>>),
    Other,
}

/// An `InputValue` as a mathematical value.
pub enum InputShape {
    Number(Seq<char>),
    Array(Seq<Option<Seq<char>>>),
    Other,
}

/// The texts of a list of items.
pub open spec fn items_view(items: Seq<Option<String>>) -> Seq<Option<Seq<char>>> {
    Seq::new(
        items.len(),
        |i: int|
            match items[i] {
                Some(t) => Some(t@),
                None => None,
            },
    )
}

impl View for InputValue {
    type V = InputShape;

    open spec fn view(&self) -> InputShape {
        match self {
            InputValue::Number(t) => InputShape::Number(t@),
            InputValue::Array(items) => InputShape::Array(items_view(items@)),
            InputValue::Other => InputShape::Other,
        }
    }
}

/// Why an input mapping is refused.
#[derive(Clone, Copy, Debug, PartialEq, Eq, Structural)]
pub enum InputError {
    /// A number, alone or in an array, is not an integer written in decimal
    /// digits.
    InvalidNumber,
    /// The value is neither a number nor an array.
    NotNumberOrArray,
    /// Two entries have the same name.
    DuplicateName,
}

impl InputError {
    pub open spec fn spec_message(self) -> Seq<char> {
        match self {
            InputError::InvalidNumber => "Invalid number"@,
            InputError::NotNumberOrArray => "Expected number or array of numbers"@,
            InputError::DuplicateName => "Duplicate input name"@,
        }
    }

    pub fn message(&self) -> (r: &'static str)
        ensures
            r@ == self.spec_message(),
    {
        match self {
            InputError::InvalidNumber => "Invalid number",
            InputError::NotNumberOrArray => "Expected number or array of numbers",
            InputError::DuplicateName => "Duplicate input name",
        }
    }
}

/// The field element that a text of decimal digits writes.
pub open spec fn element_of(text: Seq<char>) -> int {
    (digits_value(text) % modulus()) as int
}

/// Every item of `items` is an integer written in decimal digits.
pub open spec fn all_integers(items: Seq<Option<Seq<char>>>) -> bool {
    forall|i: int|
        0 <= i < items.len() ==> (#[trigger] items[i]) is Some && all_digits(items[i].unwrap())
}

/// The field elements that `items`, which are all integers, write.
pub open spec fn integers_of(items: Seq<Option<Seq<char>>>) -> Seq<int> {
    Seq::new(items.len(), |i: int| element_of(items[i].unwrap()))
}

/// The list of field elements that an input value stands for: a single
/// integer is a list of one, an array of integers is itself, and everything
/// else is refused. An integer of any size is taken; one that is not below
/// the field order stands for its residue.
pub open spec fn decoded(v: InputShape) -> Result<Seq<int>, InputError> {
    match v {
        InputShape::Number(t) => if all_digits(t) {
            Ok(seq![element_of(t)])
        } else {
            Err(InputError::InvalidNumber)
        },
        InputShape::Array(items) => if all_integers(items) {
            Ok(integers_of(items))
        } else {
            Err(InputError::InvalidNumber)
        },
        InputShape::Other => Err(InputError::NotNumberOrArray),
    }
}

/// Reads an integer written in decimal digits into the field; `None` for
/// any other text.
pub fn read_integer(text: &str) -> (r: Option<Scalar>)
    ensures
        r is Some <==> all_digits(text@),
        r matches Some(x) ==> x@ == element_of(text@),
{
    let len = text.unicode_len();
    if len == 0 {
        return None;
    }
    let mut i: usize = 0;
    while i < len
        invariant
            i <= len,
            len == text@.len(),
            forall|k: int| 0 <= k < i ==> '0' <= #[trigger] text@[k] <= '9',
        decreases len - i,
    {
        let c = text.get_char(i);
        if !(c >= '0' && c <= '9') {
            return None;
        }
        i += 1;
    }
    fr_from_decimal(text)
}

/// Reads an input value as a list of field elements: an integer of any
/// size is read, whatever the name suggests.
pub fn deserialize_as_vec_u64(v: &InputValue) -> (r: Result<Vec<Scalar>, InputError>)
    ensures
        match r {
            Ok(xs) => decoded(v@) == Ok::<Seq<int>, InputError>(values(xs@)),
            Err(e) => decoded(v@) == Err::<Seq<int>, InputError>(e),
        },
{
    match v {
        InputValue::Number(text) => {
            match read_integer(text.as_str()) {
                Some(x) => {
                    let mut out: Vec<Scalar> = Vec::new();
                    out.push(x);
                    assert(values(out@) =~= seq![element_of(text@)]);
                    Ok(out)
                },
                None => Err(InputError::InvalidNumber),
            }
        },
        InputValue::Array(items) => {
            let ghost iv = items_view(items@);
            let mut out: Vec<Scalar> = Vec::new();
            let mut i: usize = 0;
            while i < items.len()
                invariant
                    i <= items.len(),
                    out.len() == i,
                    iv == items_view(items@),
                    v@ == InputShape::Array(iv),
                    forall|k: int|
                        0 <= k < i ==> (#[trigger] iv[k]) is Some && all_digits(iv[k].unwrap())
                            && out[k]@ == element_of(iv[k].unwrap()),
                decreases items.len() - i,
            {
                let x = match &items[i] {
                    Some(text) => read_integer(text.as_str()),
                    None => None,
                };
                match x {
                    Some(x) => out.push(x),
                    None => {
                        assert(!(iv[i as int] is Some && all_digits(iv[i as int].unwrap())));
                        return Err(InputError::InvalidNumber);
                    },
                }
                i += 1;
            }
            assert(values(out@) =~= integers_of(iv));
            Ok(out)
        },
        InputValue::Other => Err(InputError::NotNumberOrArray),
    }
}

/// The entries of an input mapping as mathematical values.
pub open spec fn entries_view(entries: Seq<(String, InputValue)>) -> Seq<(Seq<char>, InputShape)> {
    Seq::new(entries.len(), |i: int| (entries[i].0@, entries[i].1@))
}

/// The names and values of `map`, as plain sequences.
pub open spec fn input_map_view(map: Seq<(String, InputVec)>) -> Seq<(Seq<char>, Seq<int>)> {
    Seq::new(map.len(), |i: int| (map[i].0@, values(map[i].1.0@)))
}

/// One of the first `upto` entries has the name `name`.
pub open spec fn named_before(map: Seq<(Seq<char>, Seq<int>)>, name: Seq<char>) -> bool {
    exists|k: int| 0 <= k < map.len() && (#[trigger] map[k]).0 == name
}

/// What an input mapping comes to: the list of field elements of every
/// entry, in the entries' order, or the reason for which the first refused
/// entry is refused. An entry is refused for its value, or else for a name
/// that an earlier entry has.
pub open spec fn input_map_outcome(entries: Seq<(Seq<char>, InputShape)>) -> Result<
    Seq<(Seq<char>, Seq<int>)>,
    InputError,
>
    decreases entries.len(),
{
    if entries.len() == 0 {
        Ok(Seq::empty())
    } else {
        match input_map_outcome(entries.drop_last()) {
            Err(e) => Err(e),
            Ok(map) => match decoded(entries.last().1) {
                Err(e) => Err(e),
                Ok(xs) => if named_before(map, entries.last().0) {
                    Err(InputError::DuplicateName)
                } else {
                    Ok(map.push((entries.last().0, xs)))
                },
            },
        }
    }
}

/// In a mapping that is taken, no two entries have the same name.
pub proof fn lemma_names_distinct(entries: Seq<(Seq<char>, InputShape)>)
    requires
        input_map_outcome(entries) is Ok,
    ensures
        input_map_outcome(entries)->Ok_0.len() == entries.len(),
        forall|i: int|
            0 <= i < entries.len() ==> (#[trigger] input_map_outcome(entries)->Ok_0[i]).0
                == entries[i].0,
        forall|i: int, j: int|
            0 <= i < j < entries.len() ==> (#[trigger] entries[i]).0 != (#[trigger] entries[j]).0,
    decreases entries.len(),
{
    if entries.len() > 0 {
        let before = entries.drop_last();
        lemma_names_distinct(before);
        let map = input_map_outcome(before)->Ok_0;
        let n = entries.len() - 1;
        assert forall|i: int, j: int| 0 <= i < j < entries.len() implies (#[trigger] entries[i]).0
            != (#[trigger] entries[j]).0 by {
            if j < n {
                assert(before[i].0 != before[j].0);
            } else {
                assert(map[i].0 == before[i].0);
            }
        }
    }
}

/// `r` reports `outcome`: the same mapping, or an `InputParseError` whose
/// message says why the entry was refused.
pub open spec fn reports(
    r: Result<Vec<(String, InputVec)>, CustomError>,
    outcome: Result<Seq<(Seq<char>, Seq<int>)>, InputError>,
) -> bool {
    match r {
        Ok(map) => outcome == Ok::<Seq<(Seq<char>, Seq<int>)>, InputError>(input_map_view(map@)),
        Err(e) => outcome is Err && e.spec_kind() == ErrorKind::InputParseError && e.spec_message()
            == outcome->Err_0.spec_message(),
    }
}

/// Whether one of the entries of `map` has the name `name`.
fn is_named_before(map: &Vec<(String, InputVec)>, name: &str) -> (r: bool)
    ensures
        r == named_before(input_map_view(map@), name@),
{
    let ghost m = input_map_view(map@);
    let mut k: usize = 0;
    while k < map.len()
        invariant
            k <= map.len(),
            m == input_map_view(map@),
            forall|j: int| 0 <= j < k ==> (#[trigger] m[j]).0 != name@,
        decreases map.len() - k,
    {
        if str_eq(map[k].0.as_str(), name) {
            assert(m[k as int].0 == name@);
            return true;
        }
        k += 1;
    }
    false
}

/// Turns the entries of an input mapping into lists of field elements, in
/// their order. The first entry that is refused makes the whole mapping an
/// `InputParseError`, with the message that says why.
pub fn input_map_from_entries(entries: Vec<(String, InputValue)>) -> (r: Result<
    Vec<(String, InputVec)>,
    CustomError,
>)
    ensures
        reports(r, input_map_outcome(entries_view(entries@))),
{
    let ghost es = entries_view(entries@);
    let mut out: Vec<(String, InputVec)> = Vec::new();
    let mut i: usize = 0;
    assert(es.take(0) =~= Seq::empty());
    assert(input_map_view(out@) =~= Seq::empty());
    while i < entries.len()
        invariant
            i <= entries.len(),
            es == entries_view(entries@),
            input_map_outcome(es.take(i as int)) == Ok::<Seq<(Seq<char>, Seq<int>)>, InputError>(
                input_map_view(out@),
            ),
        decreases entries.len() - i,
    {
        let ghost before = input_map_view(out@);
        proof {
            let next = es.take(i as int + 1);
            assert(next.drop_last() =~= es.take(i as int));
            assert(next.last() == es[i as int]);
        }
        let refused = match deserialize_as_vec_u64(&entries[i].1) {
            Ok(xs) => {
                if is_named_before(&out, entries[i].0.as_str()) {
                    Some(InputError::DuplicateName)
                } else {
                    out.push((entries[i].0.clone(), InputVec(xs)));
                    assert(input_map_view(out@) =~= before.push((es[i as int].0, values(xs@))));
                    None
                }
            },
            Err(e) => Some(e),
        };
        match refused {
            Some(e) => {
                proof {
                    lemma_outcome_stays_refused(es, i as int + 1);
                }
                return Err(CustomError::new(ErrorKind::InputParseError, e.message()));
            },
            None => {},
        }
        i += 1;
    }
    assert(es.take(entries.len() as int) =~= es);
    Ok(out)
}

/// Once a prefix of the entries is refused, the whole mapping is refused for
/// the same reason.
pub proof fn lemma_outcome_stays_refused(entries: Seq<(Seq<char>, InputShape)>, upto: int)
    requires
        0 <= upto <= entries.len(),
        input_map_outcome(entries.take(upto)) is Err,
    ensures
        input_map_outcome(entries) == input_map_outcome(entries.take(upto)),
    decreases entries.len() - upto,
{
    if upto == entries.len() {
        assert(entries.take(upto) =~= entries);
    } else {
        let next = entries.take(upto + 1);
        assert(next.drop_last() =~= entries.take(upto));
        lemma_outcome_stays_refused(entries, upto + 1);
    }
}

/// Reads the input mapping of a proof request from its JSON text: an object
/// whose values are unsigned integers or arrays of them. Text that is no
/// JSON object is an `InputParseError`; so is the first value that is
/// refused.
pub fn parse_input_map(text: &str) -> (r: Result<Vec<(String, InputVec)>, CustomError>)
    ensures
        match json_input_entries(text@) {
            Some(entries) => reports(r, input_map_outcome(entries)),
            None => r matches Err(e) && e.spec_kind() == ErrorKind::InputParseError
                && e.spec_message() == "Malformed input mapping"@,
        },
{
    match parse_input_entries(text) {
        Some(entries) => input_map_from_entries(entries),
        None => Err(CustomError::new(ErrorKind::InputParseError, "Malformed input mapping")),
    }
}

/// Reads a list of public inputs from its JSON text, an array of strings.
/// Any other text is an `InputParseError`.
pub fn parse_public_inputs(text: &str) -> (r: Result<Vec<String>, CustomError>)
    ensures
        match json_strings(text@) {
            Some(items) => r matches Ok(v) && strings_view(v@) == items,
            None => r matches Err(e) && e.spec_kind() == ErrorKind::InputParseError
                && e.spec_message() == "Malformed public inputs"@,
        },
{
    match parse_strings(text) {
        Some(items) => Ok(items),
        None => Err(CustomError::new(ErrorKind::InputParseError, "Malformed public inputs")),
    }
}

/// The texts of a list of strings.
pub open spec fn strings_view(v: Seq<String>) -> Seq<Seq<char>> {
    Seq::new(v.len(), |i: int| v[i]@)
}

/// The values of `map` one by one, each with its input name: entry after
/// entry, and within an entry in the order given.
pub open spec fn pushes(map: Seq<(Seq<char>, Seq<int>)>) -> Seq<(Seq<char>, int)>
    decreases map.len(),
{
    if map.len() == 0 {
        Seq::empty()
    } else {
        pushes(map.drop_last()) + Seq::new(
            map.last().1.len(),
            |k: int| (map.last().0, map.last().1[k]),
        )
    }
}

/// The names and values of `list`, as plain sequences.
pub open spec fn push_view(list: Seq<(String, Scalar)>) -> Seq<(Seq<char>, int)> {
    Seq::new(list.len(), |i: int| (list[i].0@, list[i].1@ as int))
}

/// Lists the inputs in the order in which they are to be handed to the
/// witness generator: one pair of name and value for each value.
pub fn input_pushes(map: &Vec<(String, InputVec)>) -> (r: Vec<(String, Scalar)>)
    ensures
        push_view(r@) == pushes(input_map_view(map@)),
{
    let ghost m = input_map_view(map@);
    let mut out: Vec<(String, Scalar)> = Vec::new();
    let mut i: usize = 0;
    assert(m.take(0) =~= Seq::empty());
    assert(push_view(out@) =~= pushes(m.take(0)));
    while i < map.len()
        invariant
            i <= map.len(),
            m == input_map_view(map@),
            push_view(out@) == pushes(m.take(i as int)),
        decreases map.len() - i,
    {
        let ghost before = push_view(out@);
        let name = &map[i].0;
        let items = &map[i].1.0;
        let mut k: usize = 0;
        assert(push_view(out@) =~= before + Seq::new(
            0nat,
            |j: int| (m[i as int].0, m[i as int].1[j]),
        ));
        while k < items.len()
            invariant
                k <= items.len(),
                i < map.len(),
                m == input_map_view(map@),
                name == &map[i as int].0,
                items == &map[i as int].1.0,
                push_view(out@) == before + Seq::new(
                    k as nat,
                    |j: int| (m[i as int].0, m[i as int].1[j]),
                ),
            decreases items.len() - k,
        {
            let ghost old_out = push_view(out@);
            out.push((name.clone(), items[k]));
            proof {
                assert(push_view(out@) =~= old_out.push((m[i as int].0, m[i as int].1[k as int])));
                assert(push_view(out@) =~= before + Seq::new(
                    (k + 1) as nat,
                    |j: int| (m[i as int].0, m[i as int].1[j]),
                ));
            }
            k += 1;
        }
        proof {
            let next = m.take(i as int + 1);
            assert(next.drop_last() =~= m.take(i as int));
            assert(next.last() == m[i as int]);
        }
        i += 1;
    }
    assert(m.take(map.len() as int) =~= m);
    out
}

} // verus!
