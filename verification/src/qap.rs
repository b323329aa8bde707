//! From a constraint system and an assignment to the values, on an
//! evaluation domain, of the three polynomials of the quadratic arithmetic
//! program; and from there to the parties' shares of them.

use crate::dto::{CustomError, ErrorKind};
use crate::field::{fr_mul, modulus, values, Scalar};
use crate::pss::{pack_from_witness, table_values, PackedSharingParams};
use crate::r1cs::{evaluate_constraint, row_in_range, row_value, ConstraintMatrices};
use vstd::arithmetic::power2::{lemma2_to64, lemma_pow2_unfold, pow2};
use vstd::prelude::*;

verus! {

/// The largest evaluation domain that the scalar field has: two to the
/// power of its two-adicity.
pub const MAX_DOMAIN_SIZE: usize = 268435456;

/// `n` is a power of two.
pub open spec fn is_power_of_two(n: nat) -> bool {
    exists|k: nat| n == pow2(k)
}

/// `size` is the size of the domain for `num_coeffs` values: the least power
/// of two that is not below `num_coeffs`.
pub open spec fn is_domain_size(size: nat, num_coeffs: nat) -> bool {
    &&& is_power_of_two(size)
    &&& size >= num_coeffs
    &&& size == 1 || size / 2 < num_coeffs
}

/// The size of the evaluation domain for `num_coeffs` values; `None` where
/// the field has no domain that large.
pub fn domain_size(num_coeffs: usize) -> (r: Option<usize>)
    ensures
        match r {
            Some(size) => is_domain_size(size as nat, num_coeffs as nat) && size <= MAX_DOMAIN_SIZE,
            None => num_coeffs > MAX_DOMAIN_SIZE,
        },
{
    if num_coeffs > MAX_DOMAIN_SIZE {
        return None;
    }
    let mut size: usize = 1;
    let mut log: u32 = 0;
    proof {
        lemma2_to64();
    }
    while size < num_coeffs
        invariant
            log <= 28,
            size == pow2(log as nat),
            pow2(28) == MAX_DOMAIN_SIZE,
            num_coeffs <= MAX_DOMAIN_SIZE,
            size == 1 || size / 2 < num_coeffs,
        decreases 28 - log,
    {
        proof {
            lemma_pow2_unfold(log as nat + 1);
        }
        size = 2 * size;
        log = log + 1;
    }
    Some(size)
}

/// The values of the first polynomial: the products of the rows of `A` with
/// the assignment, then the public part of the assignment, then zeros.
pub open spec fn qap_a(m: ConstraintMatrices, w: Seq<int>, size: nat) -> Seq<int> {
    Seq::new(
        size,
        |i: int|
            if i < m.num_constraints {
                row_value(m.a_view()[i], w)
            } else if i < m.num_constraints + m.num_instance_variables {
                w[i - m.num_constraints]
            } else {
                0int
            },
    )
}

/// The values of the second polynomial: the products of the rows of `B`
/// with the assignment, then zeros.
pub open spec fn qap_b(m: ConstraintMatrices, w: Seq<int>, size: nat) -> Seq<int> {
    Seq::new(
        size,
        |i: int|
            if i < m.num_constraints {
                row_value(m.b_view()[i], w)
            } else {
                0int
            },
    )
}

/// The values of the third polynomial: row by row the product of the values
/// of the first two, then zeros.
pub open spec fn qap_c(m: ConstraintMatrices, w: Seq<int>, size: nat) -> Seq<int> {
    Seq::new(
        size,
        |i: int|
            if i < m.num_constraints {
                (row_value(m.a_view()[i], w) * row_value(m.b_view()[i], w)) % (modulus() as int)
            } else {
                0int
            },
    )
}

/// For an assignment that satisfies the constraints, the third polynomial
/// takes, row by row, the values of `C` times the assignment.
pub proof fn lemma_satisfied_rows(m: ConstraintMatrices, w: Seq<int>, size: nat, i: int)
    requires
        m.satisfied_by(w),
        0 <= i < m.num_constraints,
        i < size,
    ensures
        qap_c(m, w, size)[i] == row_value(m.c_view()[i], w),
{
    assert(m.holds_at(w, i));
}

/// The quadratic arithmetic program of a constraint system and an
/// assignment: the values of its three polynomials on the evaluation
/// domain, whose size is their length.
#[derive(Debug)]
pub struct Qap {
    pub num_inputs: usize,
    pub num_constraints: usize,
    pub a: Vec<Scalar>,
    pub b: Vec<Scalar>,
    pub c: Vec<Scalar>,
}

/// `q` is the program of `m` and `w`.
pub open spec fn is_qap_of(q: Qap, m: ConstraintMatrices, w: Seq<int>) -> bool {
    &&& q.num_inputs == m.num_instance_variables
    &&& q.num_constraints == m.num_constraints
    &&& is_domain_size(q.a@.len(), (m.num_constraints + m.num_instance_variables) as nat)
    &&& values(q.a@) == qap_a(m, w, q.a@.len())
    &&& values(q.b@) == qap_b(m, w, q.a@.len())
    &&& values(q.c@) == qap_c(m, w, q.a@.len())
}

/// Computes the quadratic arithmetic program of a constraint system and an
/// assignment. An assignment that does not fit the matrices is a
/// `CircuitUnsatisfied`; a system with more constraints and public
/// variables than the largest domain has points is a
/// `ProofGenerationError`.
pub fn to_qap(matrices: &ConstraintMatrices, full_assignment: &Vec<Scalar>) -> (r: Result<
    Qap,
    CustomError,
>)
    ensures
        match r {
            Ok(q) => matrices.fits(values(full_assignment@)) && is_qap_of(
                q,
                *matrices,
                values(full_assignment@),
            ),
            Err(e) => if !matrices.fits(values(full_assignment@)) {
                e.spec_kind() == ErrorKind::CircuitUnsatisfied && e.spec_message()
                    == "Witness does not fit the constraint system"@
            } else {
                matrices.num_constraints + matrices.num_instance_variables > MAX_DOMAIN_SIZE
                    && e.spec_kind() == ErrorKind::ProofGenerationError && e.spec_message()
                    == "Constraint system is too large"@
            },
        },
{
    let ghost w = values(full_assignment@);
    if !matrices.check_fits(full_assignment) {
        return Err(
            CustomError::new(
                ErrorKind::CircuitUnsatisfied,
                "Witness does not fit the constraint system",
            ),
        );
    }
    let nc = matrices.num_constraints;
    let ni = matrices.num_instance_variables;
    let size = match nc.checked_add(ni) {
        Some(total) => domain_size(total),
        None => None,
    };
    let size = match size {
        Some(size) => size,
        None => {
            return Err(
                CustomError::new(
                    ErrorKind::ProofGenerationError,
                    "Constraint system is too large",
                ),
            );
        },
    };
    let mut a: Vec<Scalar> = Vec::new();
    let mut b: Vec<Scalar> = Vec::new();
    let mut c: Vec<Scalar> = Vec::new();
    let mut i: usize = 0;
    while i < size
        invariant
            i <= size,
            nc == matrices.num_constraints,
            ni == matrices.num_instance_variables,
            nc + ni <= size,
            w == values(full_assignment@),
            matrices.fits(w),
            a.len() == i,
            b.len() == i,
            c.len() == i,
            forall|k: int| 0 <= k < i ==> (#[trigger] a[k])@ == qap_a(*matrices, w, size as nat)[k],
            forall|k: int| 0 <= k < i ==> (#[trigger] b[k])@ == qap_b(*matrices, w, size as nat)[k],
            forall|k: int| 0 <= k < i ==> (#[trigger] c[k])@ == qap_c(*matrices, w, size as nat)[k],
        decreases size - i,
    {
        if i < nc {
            assert(row_in_range(matrices.a_view()[i as int], full_assignment.len() as int));
            assert(row_in_range(matrices.b_view()[i as int], full_assignment.len() as int));
            let x = evaluate_constraint(&matrices.a[i], full_assignment);
            let y = evaluate_constraint(&matrices.b[i], full_assignment);
            c.push(fr_mul(&x, &y));
            a.push(x);
            b.push(y);
        } else if i - nc < ni {
            a.push(full_assignment[i - nc]);
            b.push(Scalar::zero());
            c.push(Scalar::zero());
        } else {
            a.push(Scalar::zero());
            b.push(Scalar::zero());
            c.push(Scalar::zero());
        }
        i += 1;
    }
    proof {
        assert(values(a@) =~= qap_a(*matrices, w, size as nat));
        assert(values(b@) =~= qap_b(*matrices, w, size as nat));
        assert(values(c@) =~= qap_c(*matrices, w, size as nat));
    }
    Ok(Qap { num_inputs: ni, num_constraints: nc, a, b, c })
}

/// The parties' shares of a quadratic arithmetic program: row `i` of each
/// table is what party `i` holds of that polynomial's values.
#[derive(Debug)]
pub struct QapShares {
    pub num_inputs: usize,
    pub num_constraints: usize,
    pub a: Vec<Vec<Scalar>>,
    pub b: Vec<Vec<Scalar>>,
    pub c: Vec<Vec<Scalar>>,
}

impl Qap {
    /// Shares the values of the three polynomials out among the parties,
    /// each as a whole vector is shared.
    pub fn pss(self, pp: &PackedSharingParams) -> (r: QapShares)
        ensures
            r.num_inputs == self.num_inputs,
            r.num_constraints == self.num_constraints,
            table_values(r.a@) == pp.packed_witness(values(self.a@)),
            table_values(r.b@) == pp.packed_witness(values(self.b@)),
            table_values(r.c@) == pp.packed_witness(values(self.c@)),
    {
        QapShares {
            num_inputs: self.num_inputs,
            num_constraints: self.num_constraints,
            a: pack_from_witness(pp, self.a),
            b: pack_from_witness(pp, self.b),
            c: pack_from_witness(pp, self.c),
        }
    }
}

} // verus!
