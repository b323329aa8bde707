//! Fast Fourier transforms over radix-2 evaluation domains of the scalar
//! field, done by `ark-poly`.

use crate::field::{values, Scalar};
use ark_bn254::Fr;
use ark_ff::{BigInt, PrimeField};
use ark_poly::{EvaluationDomain, Radix2EvaluationDomain};
use vstd::prelude::*;

verus! {

/// The evaluations that `ark-poly` computes from `coeffs` on the domain it
/// builds for `size` points, shifted to the coset of `offset`; `None` where
/// it builds no such domain.
pub uninterp spec fn fft_evaluations(size: nat, offset: nat, coeffs: Seq<int>) -> Option<Seq<int>>;

/// The coefficients that `ark-poly` interpolates from `evals` on the domain it
/// builds for `size` points, shifted to the coset of `offset`; `None` where
/// it builds no such domain.
pub uninterp spec fn ifft_coefficients(size: nat, offset: nat, evals: Seq<int>) -> Option<Seq<int>>;

/// Runs `EvaluationDomain::fft_in_place` of `ark-poly` on a copy of `coeffs`,
/// over the domain `Radix2EvaluationDomain::<Fr>::new(size)` moved by
/// `get_coset(offset)`. The contract only names the outcome.
#[verifier::external_body]
pub(crate) fn domain_fft(size: usize, offset: &Scalar, coeffs: &Vec<Scalar>) -> (r: Option<
    Vec<Scalar>,
>)
    ensures
        (match r {
            Some(v) => Some(values(v@)),
            None => None,
        }) == fft_evaluations(size as nat, offset@, values(coeffs@)),
{
    let shift = Fr::from_bigint(BigInt(offset.limbs())).unwrap();
    let d = Radix2EvaluationDomain::<Fr>::new(size)?.get_coset(shift)?;
    let mut v: Vec<Fr> =
        coeffs.iter().map(|s| Fr::from_bigint(BigInt(s.limbs())).unwrap()).collect();
    d.fft_in_place(&mut v);
    Some(v.iter().map(|x| Scalar::of_limbs(x.into_bigint().0).unwrap()).collect())
}

/// Runs `EvaluationDomain::ifft_in_place` of `ark-poly` on a copy of `evals`,
/// over the domain `Radix2EvaluationDomain::<Fr>::new(size)` moved by
/// `get_coset(offset)`. The contract only names the outcome.
#[verifier::external_body]
pub(crate) fn domain_ifft(size: usize, offset: &Scalar, evals: &Vec<Scalar>) -> (r: Option<
    Vec<Scalar>,
>)
    ensures
        (match r {
            Some(v) => Some(values(v@)),
            None => None,
        }) == ifft_coefficients(size as nat, offset@, values(evals@)),
{
    let shift = Fr::from_bigint(BigInt(offset.limbs())).unwrap();
    let d = Radix2EvaluationDomain::<Fr>::new(size)?.get_coset(shift)?;
    let mut v: Vec<Fr> =
        evals.iter().map(|s| Fr::from_bigint(BigInt(s.limbs())).unwrap()).collect();
    d.ifft_in_place(&mut v);
    Some(v.iter().map(|x| Scalar::of_limbs(x.into_bigint().0).unwrap()).collect())
}

} // verus!
