//! Rank-1 constraint systems: three sparse matrices `A`, `B` and `C` over
//! the scalar field, satisfied by an assignment `w` where, row by row,
//! `(A w) * (B w) = C w`.

use crate::algebra::sum;
use crate::field::{fr_add, fr_mul, modulus, values, Scalar};
use vstd::arithmetic::div_mod::lemma_add_mod_noop;
use vstd::prelude::*;

verus! {

/// One row of a sparse matrix: coefficients with the columns they stand in.
pub open spec fn row_view(row: Seq<(Scalar, usize)>) -> Seq<(int, int)> {
    Seq::new(row.len(), |k: int| (row[k].0@ as int, row[k].1 as int))
}

/// A sparse matrix, row by row.
pub open spec fn matrix_view(m: Seq<Vec<(Scalar, usize)>>) -> Seq<Seq<(int, int)>> {
    Seq::new(m.len(), |i: int| row_view(m[i]@))
}

/// Every entry of the row stands in one of the first `vars` columns.
pub open spec fn row_in_range(row: Seq<(int, int)>, vars: int) -> bool {
    forall|k: int| 0 <= k < row.len() ==> 0 <= (#[trigger] row[k]).1 < vars
}

/// Every row of the matrix is in range.
pub open spec fn matrix_in_range(m: Seq<Seq<(int, int)>>, vars: int) -> bool {
    forall|i: int| 0 <= i < m.len() ==> row_in_range(#[trigger] m[i], vars)
}

/// The first `upto` terms of the product of a row with the assignment `w`.
pub open spec fn row_partial(row: Seq<(int, int)>, w: Seq<int>, upto: int) -> int {
    sum(upto, |k: int| row[k].0 * w[row[k].1])
}

/// The product of a row with the assignment `w`, as a field element.
pub open spec fn row_value(row: Seq<(int, int)>, w: Seq<int>) -> int {
    row_partial(row, w, row.len() as int) % (modulus() as int)
}

/// Multiplies one row of a sparse matrix with an assignment.
pub fn evaluate_constraint(row: &Vec<(Scalar, usize)>, assignment: &Vec<Scalar>) -> (r: Scalar)
    requires
        row_in_range(row_view(row@), assignment.len() as int),
    ensures
        r@ == row_value(row_view(row@), values(assignment@)),
{
    let ghost rv = row_view(row@);
    let ghost w = values(assignment@);
    let ghost p = modulus() as int;
    let mut acc = Scalar::zero();
    let mut k: usize = 0;
    while k < row.len()
        invariant
            k <= row.len(),
            rv == row_view(row@),
            w == values(assignment@),
            p == modulus() as int,
            row_in_range(rv, assignment.len() as int),
            acc@ == row_partial(rv, w, k as int) % p,
        decreases row.len() - k,
    {
        assert(0 <= rv[k as int].1 < assignment.len());
        let entry = &row[k];
        let term = fr_mul(&entry.0, &assignment[entry.1]);
        let next = fr_add(&acc, &term);
        proof {
            let before = row_partial(rv, w, k as int);
            let now = rv[k as int].0 * w[rv[k as int].1];
            assert(row_partial(rv, w, k as int + 1) == before + now);
            lemma_add_mod_noop(before, now, p);
        }
        acc = next;
        k += 1;
    }
    acc
}

/// The matrices of a constraint system, with the counts that go with them.
#[derive(Debug)]
pub struct ConstraintMatrices {
    /// How many variables are public, the leading constant one included.
    pub num_instance_variables: usize,
    /// How many variables are private.
    pub num_witness_variables: usize,
    /// How many rows each matrix has.
    pub num_constraints: usize,
    pub a_num_non_zero: usize,
    pub b_num_non_zero: usize,
    pub c_num_non_zero: usize,
    pub a: Vec<Vec<(Scalar, usize)>>,
    pub b: Vec<Vec<(Scalar, usize)>>,
    pub c: Vec<Vec<(Scalar, usize)>>,
}

impl ConstraintMatrices {
    pub open spec fn a_view(self) -> Seq<Seq<(int, int)>> {
        matrix_view(self.a@)
    }

    pub open spec fn b_view(self) -> Seq<Seq<(int, int)>> {
        matrix_view(self.b@)
    }

    pub open spec fn c_view(self) -> Seq<Seq<(int, int)>> {
        matrix_view(self.c@)
    }

    /// The assignment `w` has the length and the order that the matrices
    /// were derived for: it starts with at least the constant, it has one
    /// value for every variable, every matrix has one row for every
    /// constraint, and no row reaches past the assignment.
    pub open spec fn fits(self, w: Seq<int>) -> bool {
        &&& self.num_instance_variables >= 1
        &&& w.len() == self.num_instance_variables + self.num_witness_variables
        &&& self.a.len() == self.num_constraints
        &&& self.b.len() == self.num_constraints
        &&& self.c.len() == self.num_constraints
        &&& matrix_in_range(self.a_view(), w.len() as int)
        &&& matrix_in_range(self.b_view(), w.len() as int)
        &&& matrix_in_range(self.c_view(), w.len() as int)
    }

    /// Constraint `i` holds of `w`.
    pub open spec fn holds_at(self, w: Seq<int>, i: int) -> bool {
        (row_value(self.a_view()[i], w) * row_value(self.b_view()[i], w)) % (modulus() as int)
            == row_value(self.c_view()[i], w)
    }

    /// Every constraint holds of `w`.
    pub open spec fn satisfied_by(self, w: Seq<int>) -> bool {
        forall|i: int| 0 <= i < self.num_constraints ==> #[trigger] self.holds_at(w, i)
    }

    /// Whether the assignment fits the matrices.
    pub fn check_fits(&self, assignment: &Vec<Scalar>) -> (r: bool)
        ensures
            r == self.fits(values(assignment@)),
    {
        if self.num_instance_variables < 1 {
            return false;
        }
        let vars = match self.num_instance_variables.checked_add(self.num_witness_variables) {
            Some(vars) => vars,
            None => {
                assert(values(assignment@).len() == assignment.len());
                return false;
            },
        };
        if assignment.len() != vars || self.a.len() != self.num_constraints || self.b.len()
            != self.num_constraints || self.c.len() != self.num_constraints {
            return false;
        }
        rows_in_range(&self.a, vars) && rows_in_range(&self.b, vars) && rows_in_range(
            &self.c,
            vars,
        )
    }

    /// The first constraint that does not hold of the assignment, if there
    /// is one.
    pub fn first_unsatisfied(&self, assignment: &Vec<Scalar>) -> (r: Option<usize>)
        requires
            self.fits(values(assignment@)),
        ensures
            match r {
                Some(i) => i < self.num_constraints && !self.holds_at(values(assignment@), i as int)
                    && forall|k: int| 0 <= k < i ==> #[trigger] self.holds_at(values(assignment@), k),
                None => self.satisfied_by(values(assignment@)),
            },
    {
        let ghost w = values(assignment@);
        let mut i: usize = 0;
        while i < self.num_constraints
            invariant
                i <= self.num_constraints,
                w == values(assignment@),
                self.fits(w),
                forall|k: int| 0 <= k < i ==> #[trigger] self.holds_at(w, k),
            decreases self.num_constraints - i,
        {
            assert(row_in_range(self.a_view()[i as int], assignment.len() as int));
            assert(row_in_range(self.b_view()[i as int], assignment.len() as int));
            assert(row_in_range(self.c_view()[i as int], assignment.len() as int));
            let a = evaluate_constraint(&self.a[i], assignment);
            let b = evaluate_constraint(&self.b[i], assignment);
            let c = evaluate_constraint(&self.c[i], assignment);
            let ab = fr_mul(&a, &b);
            if !ab.equals(&c) {
                return Some(i);
            }
            i += 1;
        }
        None
    }
}

/// Whether every row of `m` stays within the first `vars` columns.
fn rows_in_range(m: &Vec<Vec<(Scalar, usize)>>, vars: usize) -> (r: bool)
    ensures
        r == matrix_in_range(matrix_view(m@), vars as int),
{
    let ghost mv = matrix_view(m@);
    let mut i: usize = 0;
    while i < m.len()
        invariant
            i <= m.len(),
            mv == matrix_view(m@),
            forall|k: int| 0 <= k < i ==> row_in_range(#[trigger] mv[k], vars as int),
        decreases m.len() - i,
    {
        let row = &m[i];
        let mut k: usize = 0;
        while k < row.len()
            invariant
                k <= row.len(),
                i < m.len(),
                row == &m[i as int],
                mv == matrix_view(m@),
                forall|j: int| 0 <= j < k ==> 0 <= (#[trigger] mv[i as int][j]).1 < vars,
            decreases row.len() - k,
        {
            if row[k].1 >= vars {
                assert(mv[i as int][k as int].1 >= vars);
                assert(!row_in_range(mv[i as int], vars as int));
                return false;
            }
            k += 1;
        }
        i += 1;
    }
    true
}

} // verus!
