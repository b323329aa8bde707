//! Elements of the BN254 scalar field, held as four little-endian 64-bit limbs.
//!
//! The arithmetic itself is done by `ark-ff`; this module states what each
//! operation returns as an integer modulo the field order.

use ark_ff::{BigInt, PrimeField};
use std::str::FromStr;
use vstd::prelude::*;

verus! {

/// Order of the BN254 scalar field.
pub open spec fn modulus() -> nat {
    21888242871839275222246405745257275088548364400416034343698204186575808495617nat
}

/// The integer whose little-endian base-2^64 digits are `l0, l1, l2, l3`.
pub open spec fn limbs_value(l0: u64, l1: u64, l2: u64, l3: u64) -> nat {
    (l0 as nat) + (l1 as nat) * 0x1_0000_0000_0000_0000nat + (l2 as nat)
        * 0x1_0000_0000_0000_0000_0000_0000_0000_0000nat + (l3 as nat)
        * 0x1_0000_0000_0000_0000_0000_0000_0000_0000_0000_0000_0000_0000nat
}

pub const MODULUS_L0: u64 = 0x43e1_f593_f000_0001;

pub const MODULUS_L1: u64 = 0x2833_e848_79b9_7091;

pub const MODULUS_L2: u64 = 0xb850_45b6_8181_585d;

pub const MODULUS_L3: u64 = 0x3064_4e72_e131_a029;

/// A canonical representative of a residue modulo the field order.
#[derive(Clone, Copy, Debug, PartialEq, Eq, Structural)]
pub struct Scalar {
    l0: u64,
    l1: u64,
    l2: u64,
    l3: u64,
}

impl View for Scalar {
    type V = nat;

    closed spec fn view(&self) -> nat {
        limbs_value(self.l0, self.l1, self.l2, self.l3)
    }
}

impl Scalar {
    /// Every scalar that exists at run time is reduced.
    #[verifier::type_invariant]
    pub open spec fn reduced(self) -> bool {
        self@ < modulus()
    }

    pub fn zero() -> (r: Scalar)
        ensures
            r@ == 0,
    {
        Scalar { l0: 0, l1: 0, l2: 0, l3: 0 }
    }

    pub fn one() -> (r: Scalar)
        ensures
            r@ == 1,
    {
        Scalar { l0: 1, l1: 0, l2: 0, l3: 0 }
    }

    pub fn from_u64(x: u64) -> (r: Scalar)
        ensures
            r@ == x,
    {
        Scalar { l0: x, l1: 0, l2: 0, l3: 0 }
    }

    /// Builds a scalar from its limbs; `None` when the limbs spell a number
    /// that is not below the field order.
    pub fn from_limbs(l0: u64, l1: u64, l2: u64, l3: u64) -> (r: Option<Scalar>)
        ensures
            r is Some <==> limbs_value(l0, l1, l2, l3) < modulus(),
            r matches Some(s) ==> s@ == limbs_value(l0, l1, l2, l3),
    {
        let below = l3 < MODULUS_L3 || (l3 == MODULUS_L3 && (l2 < MODULUS_L2 || (l2 == MODULUS_L2
            && (l1 < MODULUS_L1 || (l1 == MODULUS_L1 && l0 < MODULUS_L0)))));
        if below {
            Some(Scalar { l0, l1, l2, l3 })
        } else {
            None
        }
    }

    /// The limbs as an array, least significant first.
    pub fn limbs(&self) -> (r: [u64; 4])
        ensures
            limbs_value(r[0], r[1], r[2], r[3]) == self@,
            self@ < modulus(),
    {
        proof {
            use_type_invariant(self);
        }
        [self.l0, self.l1, self.l2, self.l3]
    }

    /// The scalar that the limbs in `z` spell, least significant first.
    pub fn of_limbs(z: [u64; 4]) -> (r: Option<Scalar>)
        ensures
            r is Some <==> limbs_value(z[0], z[1], z[2], z[3]) < modulus(),
            r matches Some(s) ==> s@ == limbs_value(z[0], z[1], z[2], z[3]),
    {
        Scalar::from_limbs(z[0], z[1], z[2], z[3])
    }

    /// Whether two scalars are the same residue.
    pub fn equals(&self, other: &Scalar) -> (r: bool)
        ensures
            r == (self@ == other@),
    {
        self.l0 == other.l0 && self.l1 == other.l1 && self.l2 == other.l2 && self.l3 == other.l3
    }

    /// Whether this is the zero element.
    pub fn is_zero(&self) -> (r: bool)
        ensures
            r == (self@ == 0),
    {
        self.l0 == 0 && self.l1 == 0 && self.l2 == 0 && self.l3 == 0
    }
}

/// The views of a sequence of scalars.
pub open spec fn values(v: Seq<Scalar>) -> Seq<int> {
    Seq::new(v.len(), |i: int| v[i]@ as int)
}

/// Every entry of `v` is a reduced residue.
pub open spec fn all_reduced(v: Seq<int>) -> bool {
    forall|i: int| 0 <= i < v.len() ==> 0 <= #[trigger] v[i] < modulus()
}

/// Field addition, done by `ark-ff` on `ark_bn254::Fr` (`Add::add`), between
/// `PrimeField::from_bigint` and `PrimeField::into_bigint`: the result is the
/// integer sum reduced modulo the field order.
#[verifier::external_body]
pub(crate) fn fr_add(a: &Scalar, b: &Scalar) -> (r: Scalar)
    ensures
        r@ == (a@ + b@) % modulus(),
{
    let x = ark_bn254::Fr::from_bigint(BigInt(a.limbs())).unwrap();
    let y = ark_bn254::Fr::from_bigint(BigInt(b.limbs())).unwrap();
    Scalar::of_limbs((x + y).into_bigint().0).unwrap()
}

/// Field multiplication, done by `ark-ff` on `ark_bn254::Fr` (`Mul::mul`),
/// between `PrimeField::from_bigint` and `PrimeField::into_bigint`: the
/// result is the integer product reduced modulo the field order.
#[verifier::external_body]
pub(crate) fn fr_mul(a: &Scalar, b: &Scalar) -> (r: Scalar)
    ensures
        r@ == (a@ * b@) % modulus(),
{
    let x = ark_bn254::Fr::from_bigint(BigInt(a.limbs())).unwrap();
    let y = ark_bn254::Fr::from_bigint(BigInt(b.limbs())).unwrap();
    Scalar::of_limbs((x * y).into_bigint().0).unwrap()
}

/// The text is not empty and holds decimal digits only.
pub open spec fn all_digits(text: Seq<char>) -> bool {
    text.len() > 0 && forall|i: int| 0 <= i < text.len() ==> '0' <= #[trigger] text[i] <= '9'
}

/// The number that a text of decimal digits writes, leading zeros allowed.
pub open spec fn digits_value(text: Seq<char>) -> nat
    decreases text.len(),
{
    if text.len() == 0 {
        0
    } else {
        digits_value(text.drop_last()) * 10 + ((text.last() as u8 - '0' as u8) as nat)
    }
}

/// The residue that `ark-ff` reads from a text, or `None` where it refuses
/// the text.
pub uninterp spec fn decimal_residue(text: Seq<char>) -> Option<int>;

/// Parses a field element with `ark-ff`'s `FromStr` for `ark_bn254::Fr`. A
/// text of decimal digits is read as the number it writes, reduced modulo
/// the field order; for any other text the contract only names the outcome.
#[verifier::external_body]
pub(crate) fn fr_from_decimal(text: &str) -> (r: Option<Scalar>)
    ensures
        (match r {
            Some(x) => Some(x@ as int),
            None => None,
        }) == decimal_residue(text@),
        r is None ==> !all_digits(text@),
        r matches Some(x) ==> (all_digits(text@) ==> x@ == digits_value(text@) % modulus()),
{
    let x = ark_bn254::Fr::from_str(text).ok()?;
    Scalar::of_limbs(x.into_bigint().0)
}

} // verus!
