//! Packed secret sharing: `l` secrets are spread over `n` parties by a fixed
//! linear map, and recovered from the parties' shares by a second linear map
//! that undoes the first.

use crate::algebra::{
    lemma_mul_congruent, lemma_mul_regroup, lemma_sum_add, lemma_sum_congruent,
    lemma_sum_exchange, lemma_sum_scale, lemma_sum_single, sum,
};
use crate::domain::{domain_fft, domain_ifft, fft_evaluations, ifft_coefficients};
use crate::field::{all_reduced, fr_add, fr_mul, modulus, values, Scalar};
use vstd::arithmetic::div_mod::{
    lemma_add_mod_noop, lemma_fundamental_div_mod, lemma_fundamental_div_mod_converse,
    lemma_mod_twice, lemma_mul_mod_noop_right, lemma_small_mod,
};
use vstd::arithmetic::mul::{
    lemma_mul_inequality, lemma_mul_is_commutative, lemma_mul_is_distributive_add,
    lemma_mul_is_distributive_add_other_way,
};
use vstd::prelude::*;

verus! {

/// The linear map that `tab` tabulates, applied to `x`: `tab[j]` is the image
/// of the `j`-th unit vector, so entry `i` of the result is the sum over `j`
/// of `tab[j][i] * x[j]`, reduced modulo the field order.
pub open spec fn apply(tab: Seq<Seq<int>>, x: Seq<int>, out_len: nat) -> Seq<int> {
    Seq::new(out_len, |i: int| apply_entry(tab, x, i))
}

/// Entry `i` of `apply(tab, x, _)`.
pub open spec fn apply_entry(tab: Seq<Seq<int>>, x: Seq<int>, i: int) -> int {
    apply_partial(tab, x, i, tab.len() as int) % (modulus() as int)
}

/// The first `upto` terms of the sum behind entry `i` of `apply(tab, x, _)`.
pub open spec fn apply_partial(tab: Seq<Seq<int>>, x: Seq<int>, i: int, upto: int) -> int {
    sum(upto, |j: int| tab[j][i] * x[j])
}

/// The views of a table of scalars, row by row.
pub open spec fn table_values(t: Seq<Vec<Scalar>>) -> Seq<Seq<int>> {
    Seq::new(t.len(), |i: int| values(t[i]@))
}

/// Every row of `t` has `cols` entries.
pub open spec fn rows_have(t: Seq<Vec<Scalar>>, cols: nat) -> bool {
    forall|i: int| 0 <= i < t.len() ==> (#[trigger] t[i]).len() == cols
}

/// Entry `a` of what `dec` makes of the image of the `b`-th unit vector under
/// `enc`, before reduction.
pub open spec fn cross(dec: Seq<Seq<int>>, enc: Seq<Seq<int>>, a: int, b: int) -> int {
    cross_partial(dec, enc, a, b, dec.len() as int)
}

/// The first `upto` terms of the sum `cross(dec, enc, a, b)`.
pub open spec fn cross_partial(dec: Seq<Seq<int>>, enc: Seq<Seq<int>>, a: int, b: int, upto: int) -> int {
    sum(upto, |i: int| dec[i][a] * enc[b][i])
}

/// `enc` and `dec` are the two tables of a sharing scheme: `enc` sends each of
/// its `enc.len()` unit secret vectors to one share per party, `dec` sends
/// each of its `dec.len()` unit share vectors back to secrets, and `dec`
/// undoes `enc`.
pub open spec fn valid_tables(enc: Seq<Seq<int>>, dec: Seq<Seq<int>>) -> bool {
    &&& enc.len() >= 1
    &&& forall|j: int| 0 <= j < enc.len() ==> (#[trigger] enc[j]).len() == dec.len()
    &&& forall|i: int| 0 <= i < dec.len() ==> (#[trigger] dec[i]).len() == enc.len()
    &&& inverts(dec, enc)
}

/// `dec` undoes `enc` on every unit vector.
pub open spec fn inverts(dec: Seq<Seq<int>>, enc: Seq<Seq<int>>) -> bool {
    forall|a: int, b: int|
        0 <= a < enc.len() && 0 <= b < enc.len() ==> #[trigger] cross(dec, enc, a, b) % (
        modulus() as int) == (if a == b {
            1int
        } else {
            0int
        })
}

/// The vector of `len` entries that is one at `j` and zero elsewhere.
pub open spec fn unit(len: nat, j: int) -> Seq<int> {
    Seq::new(len, |k: int| if k == j { 1int } else { 0int })
}

/// The multiplicative generator of the scalar field by which the secrets'
/// evaluation domain is shifted away from the shares' domain.
pub const COSET_SHIFT: u64 = 5;

/// The shares of the `j`-th unit vector of `l` secrets in the standard scheme
/// with `4 * l` parties: interpolate on the shifted domain of `2 * l` points,
/// where the second half of the values is zero, and evaluate on the domain of
/// `4 * l` points.
pub open spec fn shares_of_unit(l: nat, j: int) -> Option<Seq<int>> {
    match ifft_coefficients(2 * l, COSET_SHIFT as nat, unit(l, j)) {
        Some(c) => fft_evaluations(4 * l, 1, c),
        None => None,
    }
}

/// The secrets that the `i`-th unit vector of `4 * l` shares decodes to in
/// the standard scheme: interpolate on the shares' domain, evaluate on the
/// secrets' domain and keep the first `l` values.
pub open spec fn secrets_of_unit(l: nat, i: int) -> Option<Seq<int>> {
    match ifft_coefficients(4 * l, 1, unit(4 * l, i)) {
        Some(c) => match fft_evaluations(2 * l, COSET_SHIFT as nat, c) {
            Some(e) => if e.len() >= l {
                Some(e.take(l as int))
            } else {
                None
            },
            None => None,
        },
        None => None,
    }
}

/// The encoding table of the standard scheme for packing factor `l`.
pub open spec fn standard_encode(l: nat) -> Option<Seq<Seq<int>>> {
    if forall|j: int| 0 <= j < l ==> (#[trigger] shares_of_unit(l, j)) is Some {
        Some(Seq::new(l, |j: int| shares_of_unit(l, j).unwrap()))
    } else {
        None
    }
}

/// The decoding table of the standard scheme for packing factor `l`.
pub open spec fn standard_decode(l: nat) -> Option<Seq<Seq<int>>> {
    if forall|i: int| 0 <= i < 4 * l ==> (#[trigger] secrets_of_unit(l, i)) is Some {
        Some(Seq::new(4 * l, |i: int| secrets_of_unit(l, i).unwrap()))
    } else {
        None
    }
}

/// How many chunks of `l` values a vector of `len` values falls into, the
/// last one possibly short.
pub open spec fn chunk_count(len: nat, l: nat) -> nat {
    if l == 0 {
        0
    } else if len % l == 0 {
        len / l
    } else {
        len / l + 1
    }
}

/// The `c`-th chunk of `l` values of `v`, filled up with zeros past the end
/// of `v`.
pub open spec fn chunk(v: Seq<int>, l: nat, c: int) -> Seq<int> {
    Seq::new(l, |k: int| if c * l + k < v.len() { v[c * l + k] } else { 0int })
}

/// `v` filled up with zeros to a whole number of chunks of `l` values.
pub open spec fn padded(v: Seq<int>, l: nat) -> Seq<int> {
    Seq::new(chunk_count(v.len(), l) * l, |k: int| if k < v.len() { v[k] } else { 0int })
}

/// What every party holds for chunk `c`: entry `i` is party `i`'s share.
pub open spec fn column(shares: Seq<Seq<int>>, c: int) -> Seq<int> {
    Seq::new(shares.len(), |i: int| shares[i][c])
}

/// How many shares each party holds; zero where there is no party.
pub open spec fn shares_per_party(shares: Seq<Seq<int>>) -> nat {
    if shares.len() == 0 {
        0
    } else {
        shares[0].len()
    }
}

/// `c * x + y` on every party's shares.
pub open spec fn scale_add_shares(c: int, x: Seq<Seq<int>>, y: Seq<Seq<int>>) -> Seq<Seq<int>> {
    Seq::new(x.len(), |i: int| scale_add(c, x[i], y[i]))
}

/// `c * x + y`, entry by entry, reduced modulo the field order.
pub open spec fn scale_add(c: int, x: Seq<int>, y: Seq<int>) -> Seq<int> {
    Seq::new(x.len(), |i: int| (c * x[i] + y[i]) % (modulus() as int))
}

/// One entry of the round trip: decoding the encoding of `s` gives `s[a]`.
proof fn lemma_round_trip_entry(dec: Seq<Seq<int>>, enc: Seq<Seq<int>>, s: Seq<int>, a: int)
    requires
        inverts(dec, enc),
        s.len() == enc.len(),
        all_reduced(s),
        0 <= a < s.len(),
    ensures
        apply_entry(dec, apply(enc, s, dec.len()), a) == s[a],
{
    let p = modulus() as int;
    let n = dec.len() as int;
    let l = enc.len() as int;
    let x = apply(enc, s, dec.len());
    // the sum that the left-hand side reduces
    let f1 = |i: int| dec[i][a] * x[i];
    // the same with the inner reduction dropped
    let f2 = |i: int| dec[i][a] * sum(l, |j: int| enc[j][i] * s[j]);
    assert forall|i: int| 0 <= i < n implies #[trigger] f1(i) % p == f2(i) % p by {
        let e = sum(l, |j: int| enc[j][i] * s[j]);
        assert(x[i] == e % p);
        lemma_mul_mod_noop_right(dec[i][a] , e, p);
    }
    lemma_sum_congruent(n, f1, f2, p);
    // exchange the two sums
    let f = |i: int, j: int| (dec[i][a] * enc[j][i]) * s[j];
    assert forall|i: int| 0 <= i < n implies #[trigger] f2(i) == sum(l, |j: int| f(i, j)) by {
        let inner = |j: int| enc[j][i] * s[j];
        let scaled = |j: int| f(i, j);
        assert forall|j: int| 0 <= j < l implies #[trigger] scaled(j) == dec[i][a] * inner(j) by {
            lemma_mul_regroup(dec[i][a], enc[j][i], s[j]);
        }
        lemma_sum_scale(l, dec[i][a], inner, scaled);
    }
    let cols = |j: int| cross(dec, enc, a, j) * s[j];
    assert forall|j: int| 0 <= j < l implies #[trigger] cols(j) == sum(n, |i: int| f(i, j)) by {
        let inner = |i: int| dec[i][a] * enc[j][i];
        let scaled = |i: int| f(i, j);
        assert forall|i: int| 0 <= i < n implies #[trigger] scaled(i) == s[j] * inner(i) by {
            lemma_mul_is_commutative(s[j], inner(i));
        }
        lemma_sum_scale(n, s[j], inner, scaled);
        lemma_mul_is_commutative(s[j], sum(n, inner));
    }
    lemma_sum_exchange(n, l, f, f2, cols);
    // each column sum is congruent to s[a] or to zero
    let picked = |j: int|
        if j == a {
            s[j]
        } else {
            0int
        };
    assert forall|j: int| 0 <= j < l implies #[trigger] cols(j) % p == picked(j) % p by {
        let d = if a == j {
            1int
        } else {
            0int
        };
        assert(cross(dec, enc, a, j) % p == d);
        lemma_small_mod(d as nat, p as nat);
        lemma_mul_congruent(cross(dec, enc, a, j), s[j], d, s[j], p);
        assert(d * s[j] == picked(j)) by (nonlinear_arith)
            requires
                d == (if a == j {
                    1int
                } else {
                    0int
                }),
                picked(j) == (if j == a {
                    s[j]
                } else {
                    0int
                }),
        ;
    }
    lemma_sum_congruent(l, cols, picked, p);
    lemma_sum_single(l, a, picked);
    lemma_small_mod(s[a] as nat, p as nat);
    assert(apply_entry(dec, x, a) == sum(n, f1) % p);
}

/// Decoding undoes encoding: where `dec` inverts `enc` on unit vectors, it
/// recovers every vector of reduced secrets from its shares.
pub proof fn lemma_round_trip(dec: Seq<Seq<int>>, enc: Seq<Seq<int>>, s: Seq<int>)
    requires
        inverts(dec, enc),
        s.len() == enc.len(),
        all_reduced(s),
    ensures
        apply(dec, apply(enc, s, dec.len()), enc.len()) == s,
{
    assert forall|a: int| 0 <= a < s.len() implies apply(dec, apply(enc, s, dec.len()), enc.len())[a]
        == s[a] by {
        lemma_round_trip_entry(dec, enc, s, a);
    }
    assert(apply(dec, apply(enc, s, dec.len()), enc.len()) =~= s);
}

/// A tabulated map is linear: it sends `c * x + y` to `c` times the image of
/// `x` plus the image of `y`.
pub proof fn lemma_apply_linear(tab: Seq<Seq<int>>, c: int, x: Seq<int>, y: Seq<int>, out_len: nat)
    requires
        x.len() == tab.len(),
        y.len() == tab.len(),
    ensures
        apply(tab, scale_add(c, x, y), out_len) == scale_add(
            c,
            apply(tab, x, out_len),
            apply(tab, y, out_len),
        ),
{
    let p = modulus() as int;
    let m = tab.len() as int;
    let z = scale_add(c, x, y);
    assert forall|i: int| 0 <= i < out_len implies apply_entry(tab, z, i) == scale_add(
        c,
        apply(tab, x, out_len),
        apply(tab, y, out_len),
    )[i] by {
        let fz = |j: int| tab[j][i] * z[j];
        let fx = |j: int| tab[j][i] * x[j];
        let fy = |j: int| tab[j][i] * y[j];
        let cfx = |j: int| c * fx(j);
        let both = |j: int| cfx(j) + fy(j);
        assert forall|j: int| 0 <= j < m implies #[trigger] fz(j) % p == both(j) % p by {
            lemma_mul_mod_noop_right(tab[j][i], c * x[j] + y[j], p);
            lemma_mul_is_distributive_add(tab[j][i], (c * x[j]), y[j]);
            lemma_mul_regroup(tab[j][i], c, x[j]);
            lemma_mul_is_commutative(tab[j][i], c);
            lemma_mul_regroup(c, tab[j][i], x[j]);
        }
        lemma_sum_congruent(m, fz, both, p);
        lemma_sum_add(m, cfx, fy, both);
        lemma_sum_scale(m, c, fx, cfx);
        let sx = sum(m, fx);
        let sy = sum(m, fy);
        // (c * (sx % p) + sy % p) % p == (c * sx + sy) % p
        lemma_mul_mod_noop_right(c, sx, p);
        lemma_add_mod_noop(c * (sx % p), sy % p, p);
        lemma_add_mod_noop(c * sx, sy, p);
        lemma_add_mod_noop((c * (sx % p)) % p, sy % p, p);
        lemma_add_mod_noop((c * sx) % p, sy, p);
    }
    assert(apply(tab, z, out_len) =~= scale_add(
        c,
        apply(tab, x, out_len),
        apply(tab, y, out_len),
    ));
}

/// The packed sharing scheme of one proving session: the packing factor, the
/// number of parties, and the two linear maps between secrets and shares.
#[derive(Debug)]
pub struct PackedSharingParams {
    encode: Vec<Vec<Scalar>>,
    decode: Vec<Vec<Scalar>>,
}

impl PackedSharingParams {
    /// The two tables fit each other and decoding undoes encoding.
    #[verifier::type_invariant]
    pub closed spec fn wf(self) -> bool {
        valid_tables(table_values(self.encode@), table_values(self.decode@))
    }

    /// The packing factor: how many secrets one share vector carries.
    pub closed spec fn spec_l(self) -> nat {
        self.encode.len() as nat
    }

    /// The number of parties.
    pub closed spec fn spec_n(self) -> nat {
        self.decode.len() as nat
    }

    /// Row `j` holds the shares of the `j`-th unit secret vector.
    pub closed spec fn encode_table(self) -> Seq<Seq<int>> {
        table_values(self.encode@)
    }

    /// Row `i` holds the secrets that the `i`-th unit share vector decodes to.
    pub closed spec fn decode_table(self) -> Seq<Seq<int>> {
        table_values(self.decode@)
    }

    /// The shares of the secrets `s`, one per party.
    pub open spec fn packed(self, s: Seq<int>) -> Seq<int> {
        apply(self.encode_table(), s, self.spec_n())
    }

    /// The secrets that the parties' shares `x` decode to.
    pub open spec fn unpacked(self, x: Seq<int>) -> Seq<int> {
        apply(self.decode_table(), x, self.spec_l())
    }

    /// The shares of a whole vector `v`: party `i` holds, for each chunk of
    /// `v` in turn, its share of that chunk.
    pub open spec fn packed_witness(self, v: Seq<int>) -> Seq<Seq<int>> {
        Seq::new(
            self.spec_n(),
            |i: int|
                Seq::new(
                    chunk_count(v.len(), self.spec_l()),
                    |c: int| self.packed(chunk(v, self.spec_l(), c))[i],
                ),
        )
    }

    /// The values that the parties' shares decode to, chunk after chunk.
    pub open spec fn unpacked_witness(self, shares: Seq<Seq<int>>) -> Seq<int> {
        Seq::new(
            shares_per_party(shares) * self.spec_l(),
            |k: int|
                self.unpacked(column(shares, k / (self.spec_l() as int)))[k % (
                self.spec_l() as int)],
        )
    }

    /// The standard scheme for packing factor `l`, with `4 * l` parties: both
    /// tables are read off the transforms of unit vectors. `None` where the
    /// field has no domains of the sizes needed, or where the tables so
    /// obtained do not undo each other.
    pub fn new(l: usize) -> (r: Option<PackedSharingParams>)
        ensures
            r is Some <==> l <= usize::MAX / 4 && standard_encode(l as nat) is Some
                && standard_decode(l as nat) is Some && valid_tables(
                standard_encode(l as nat).unwrap(),
                standard_decode(l as nat).unwrap(),
            ),
            r matches Some(pp) ==> pp.wf() && Some(pp.encode_table()) == standard_encode(l as nat)
                && Some(pp.decode_table()) == standard_decode(l as nat) && pp.spec_l() == l
                && pp.spec_n() == 4 * l,
    {
        if l > usize::MAX / 4 {
            return None;
        }
        let n = 4 * l;
        let half = 2 * l;
        let one = Scalar::one();
        let shift = Scalar::from_u64(COSET_SHIFT);
        let mut encode: Vec<Vec<Scalar>> = Vec::new();
        let mut j: usize = 0;
        while j < l
            invariant
                j <= l,
                n == 4 * l,
                half == 2 * l,
                one@ == 1,
                shift@ == COSET_SHIFT,
                encode.len() == j,
                forall|k: int|
                    0 <= k < j ==> #[trigger] shares_of_unit(l as nat, k) == Some(
                        values(encode@[k]@),
                    ),
            decreases l - j,
        {
            let e = unit_vector(l, j);
            let c = match domain_ifft(half, &shift, &e) {
                Some(c) => c,
                None => {
                    assert(shares_of_unit(l as nat, j as int) is None);
                    return None;
                },
            };
            let s = match domain_fft(n, &one, &c) {
                Some(s) => s,
                None => {
                    assert(shares_of_unit(l as nat, j as int) is None);
                    return None;
                },
            };
            encode.push(s);
            j += 1;
        }
        let mut decode: Vec<Vec<Scalar>> = Vec::new();
        let mut i: usize = 0;
        while i < n
            invariant
                i <= n,
                n == 4 * l,
                half == 2 * l,
                one@ == 1,
                shift@ == COSET_SHIFT,
                decode.len() == i,
                forall|k: int|
                    0 <= k < i ==> #[trigger] secrets_of_unit(l as nat, k) == Some(
                        values(decode@[k]@),
                    ),
            decreases n - i,
        {
            let e = unit_vector(n, i);
            let c = match domain_ifft(n, &one, &e) {
                Some(c) => c,
                None => {
                    assert(secrets_of_unit(l as nat, i as int) is None);
                    return None;
                },
            };
            let s = match domain_fft(half, &shift, &c) {
                Some(s) => s,
                None => {
                    assert(secrets_of_unit(l as nat, i as int) is None);
                    return None;
                },
            };
            if s.len() < l {
                assert(secrets_of_unit(l as nat, i as int) is None);
                return None;
            }
            decode.push(prefix(&s, l));
            i += 1;
        }
        proof {
            assert(table_values(encode@) =~= standard_encode(l as nat).unwrap());
            assert(table_values(decode@) =~= standard_decode(l as nat).unwrap());
        }
        PackedSharingParams::from_tables(encode, decode)
    }

    /// Takes the two tables as they are, after checking that they fit each
    /// other and that decoding undoes encoding.
    pub fn from_tables(encode: Vec<Vec<Scalar>>, decode: Vec<Vec<Scalar>>) -> (r: Option<
        PackedSharingParams,
    >)
        ensures
            r is Some <==> valid_tables(table_values(encode@), table_values(decode@)),
            r matches Some(pp) ==> pp.wf() && pp.encode_table() == table_values(encode@)
                && pp.decode_table() == table_values(decode@) && pp.spec_l() == encode.len()
                && pp.spec_n() == decode.len(),
    {
        if encode.len() == 0 {
            return None;
        }
        if !all_rows_have(&encode, decode.len()) || !all_rows_have(&decode, encode.len()) {
            proof {
                let e = table_values(encode@);
                let d = table_values(decode@);
                if valid_tables(e, d) {
                    assert forall|j: int| 0 <= j < encode.len() implies (#[trigger] encode@[j]).len()
                        == decode.len() by {
                        assert(e[j].len() == d.len());
                    }
                    assert forall|i: int| 0 <= i < decode.len() implies (#[trigger] decode@[i]).len()
                        == encode.len() by {
                        assert(d[i].len() == e.len());
                    }
                }
            }
            return None;
        }
        if !decode_inverts(&decode, &encode) {
            return None;
        }
        Some(PackedSharingParams { encode, decode })
    }

    pub fn l(&self) -> (r: usize)
        ensures
            r == self.spec_l(),
            r >= 1,
    {
        proof {
            use_type_invariant(self);
        }
        self.encode.len()
    }

    pub fn n(&self) -> (r: usize)
        ensures
            r == self.spec_n(),
    {
        self.decode.len()
    }

    /// Shares one vector of exactly `l` secrets among the `n` parties; `None`
    /// for a vector of any other length.
    pub fn pack_from_public(&self, secrets: &Vec<Scalar>) -> (r: Option<Vec<Scalar>>)
        ensures
            r is Some <==> secrets.len() == self.spec_l(),
            r matches Some(shares) ==> values(shares@) == self.packed(values(secrets@)),
    {
        proof {
            use_type_invariant(self);
        }
        if secrets.len() != self.encode.len() {
            return None;
        }
        proof {
            let e = table_values(self.encode@);
            assert forall|j: int| 0 <= j < self.encode.len() implies (#[trigger] self.encode@[j]).len()
                == self.decode.len() by {
                assert(e[j].len() == self.decode.len());
            }
        }
        Some(apply_table(&self.encode, secrets, self.decode.len()))
    }

    /// Recovers the `l` secrets from one share per party; `None` unless
    /// `shares` holds exactly `n` shares.
    pub fn unpack(&self, shares: &Vec<Scalar>) -> (r: Option<Vec<Scalar>>)
        ensures
            r is Some <==> shares.len() == self.spec_n(),
            r matches Some(secrets) ==> values(secrets@) == self.unpacked(values(shares@)),
    {
        proof {
            use_type_invariant(self);
        }
        if shares.len() != self.decode.len() {
            return None;
        }
        proof {
            let d = table_values(self.decode@);
            assert forall|i: int| 0 <= i < self.decode.len() implies (#[trigger] self.decode@[i]).len()
                == self.encode.len() by {
                assert(d[i].len() == self.encode.len());
            }
        }
        Some(apply_table(&self.decode, shares, self.encode.len()))
    }
}

/// The vector of `len` scalars that is one at `j` and zero elsewhere.
fn unit_vector(len: usize, j: usize) -> (r: Vec<Scalar>)
    ensures
        values(r@) == unit(len as nat, j as int),
{
    let mut v: Vec<Scalar> = Vec::new();
    let mut k: usize = 0;
    while k < len
        invariant
            k <= len,
            v.len() == k,
            forall|m: int| 0 <= m < k ==> (#[trigger] v[m])@ == (if m == j { 1nat } else { 0nat }),
        decreases len - k,
    {
        if k == j {
            v.push(Scalar::one());
        } else {
            v.push(Scalar::zero());
        }
        k += 1;
    }
    proof {
        assert(values(v@) =~= unit(len as nat, j as int));
    }
    v
}

/// The first `len` entries of `v`.
fn prefix(v: &Vec<Scalar>, len: usize) -> (r: Vec<Scalar>)
    requires
        len <= v.len(),
    ensures
        values(r@) == values(v@).take(len as int),
{
    let mut out: Vec<Scalar> = Vec::new();
    let mut k: usize = 0;
    while k < len
        invariant
            k <= len,
            len <= v.len(),
            out.len() == k,
            forall|m: int| 0 <= m < k ==> #[trigger] out[m] == v[m],
        decreases len - k,
    {
        out.push(v[k]);
        k += 1;
    }
    proof {
        assert(values(out@) =~= values(v@).take(len as int));
    }
    out
}

/// Whether every row of `t` has `cols` entries.
fn all_rows_have(t: &Vec<Vec<Scalar>>, cols: usize) -> (r: bool)
    ensures
        r == rows_have(t@, cols as nat),
{
    let mut i: usize = 0;
    while i < t.len()
        invariant
            i <= t.len(),
            forall|k: int| 0 <= k < i ==> (#[trigger] t@[k]).len() == cols,
        decreases t.len() - i,
    {
        if t[i].len() != cols {
            return false;
        }
        i += 1;
    }
    true
}

/// Whether `dec` undoes `enc` on every unit vector.
fn decode_inverts(dec: &Vec<Vec<Scalar>>, enc: &Vec<Vec<Scalar>>) -> (r: bool)
    requires
        rows_have(enc@, dec.len() as nat),
        rows_have(dec@, enc.len() as nat),
    ensures
        r == inverts(table_values(dec@), table_values(enc@)),
{
    let ghost d = table_values(dec@);
    let ghost e = table_values(enc@);
    let ghost p = modulus() as int;
    let l = enc.len();
    let mut a: usize = 0;
    while a < l
        invariant
            a <= l,
            l == enc.len(),
            rows_have(enc@, dec.len() as nat),
            rows_have(dec@, enc.len() as nat),
            d == table_values(dec@),
            e == table_values(enc@),
            p == modulus() as int,
            forall|x: int, y: int|
                0 <= x < a && 0 <= y < l ==> #[trigger] cross(d, e, x, y) % p == (if x == y {
                    1int
                } else {
                    0int
                }),
        decreases l - a,
    {
        let mut b: usize = 0;
        while b < l
            invariant
                a < l,
                b <= l,
                l == enc.len(),
                rows_have(enc@, dec.len() as nat),
                rows_have(dec@, enc.len() as nat),
                d == table_values(dec@),
                e == table_values(enc@),
                p == modulus() as int,
                forall|x: int, y: int|
                    0 <= x < a && 0 <= y < l ==> #[trigger] cross(d, e, x, y) % p == (if x == y {
                        1int
                    } else {
                        0int
                    }),
                forall|y: int|
                    0 <= y < b ==> #[trigger] cross(d, e, a as int, y) % p == (if a == y {
                        1int
                    } else {
                        0int
                    }),
            decreases l - b,
        {
            let mut acc = Scalar::zero();
            let mut i: usize = 0;
            while i < dec.len()
                invariant
                    a < l,
                    b < l,
                    i <= dec.len(),
                    l == enc.len(),
                    rows_have(enc@, dec.len() as nat),
                    rows_have(dec@, enc.len() as nat),
                    d == table_values(dec@),
                    e == table_values(enc@),
                    p == modulus() as int,
                    acc@ == cross_partial(d, e, a as int, b as int, i as int) % p,
                decreases dec.len() - i,
            {
                let term = fr_mul(&dec[i][a], &enc[b][i]);
                let next = fr_add(&acc, &term);
                proof {
                    let before = cross_partial(d, e, a as int, b as int, i as int);
                    let now = d[i as int][a as int] * e[b as int][i as int];
                    assert(cross_partial(d, e, a as int, b as int, i as int + 1) == before + now);
                    lemma_add_mod_noop(before, now, p);
                }
                acc = next;
                i += 1;
            }
            let expected = if a == b {
                Scalar::one()
            } else {
                Scalar::zero()
            };
            if !acc.equals(&expected) {
                proof {
                    assert(cross(d, e, a as int, b as int) % p != (if a == b {
                        1int
                    } else {
                        0int
                    }));
                }
                return false;
            }
            b += 1;
        }
        a += 1;
    }
    true
}

/// Applies the linear map that `tab` tabulates to `x`.
fn apply_table(tab: &Vec<Vec<Scalar>>, x: &Vec<Scalar>, out_len: usize) -> (r: Vec<Scalar>)
    requires
        tab.len() == x.len(),
        rows_have(tab@, out_len as nat),
    ensures
        values(r@) == apply(table_values(tab@), values(x@), out_len as nat),
{
    let ghost t = table_values(tab@);
    let ghost xs = values(x@);
    let ghost p = modulus() as int;
    let mut out: Vec<Scalar> = Vec::new();
    let mut i: usize = 0;
    while i < out_len
        invariant
            i <= out_len,
            out.len() == i,
            tab.len() == x.len(),
            rows_have(tab@, out_len as nat),
            t == table_values(tab@),
            xs == values(x@),
            p == modulus() as int,
            forall|k: int| 0 <= k < i ==> (#[trigger] out[k])@ == apply_entry(t, xs, k),
        decreases out_len - i,
    {
        let mut acc = Scalar::zero();
        let mut j: usize = 0;
        while j < tab.len()
            invariant
                j <= tab.len(),
                i < out_len,
                tab.len() == x.len(),
                rows_have(tab@, out_len as nat),
                t == table_values(tab@),
                xs == values(x@),
                p == modulus() as int,
                acc@ == apply_partial(t, xs, i as int, j as int) % p,
            decreases tab.len() - j,
        {
            let term = fr_mul(&tab[j][i], &x[j]);
            let next = fr_add(&acc, &term);
            proof {
                let before = apply_partial(t, xs, i as int, j as int);
                let now = t[j as int][i as int] * xs[j as int];
                assert(apply_partial(t, xs, i as int, j as int + 1) == before + now);
                lemma_add_mod_noop(before, now, p);
            }
            acc = next;
            j += 1;
        }
        out.push(acc);
        i += 1;
    }
    proof {
        assert(values(out@) =~= apply(t, xs, out_len as nat));
    }
    out
}

/// How many chunks of `l` values a vector of `len` values falls into.
fn count_chunks(len: usize, l: usize) -> (r: usize)
    requires
        l >= 1,
    ensures
        r == chunk_count(len as nat, l as nat),
        r >= 1 ==> (r - 1) * l < len,
        r * l >= len,
{
    let q = len / l;
    let full = len % l == 0;
    proof {
        lemma_fundamental_div_mod(len as int, l as int);
        lemma_mul_is_commutative(l as int, q as int);
        lemma_mul_is_distributive_add_other_way(l as int, q as int, 1);
        if q > 0 {
            lemma_mul_is_distributive_add_other_way(l as int, q as int - 1, 1);
        }
        if !full {
            lemma_mul_inequality(2, l as int, q as int);
        }
    }
    if full {
        q
    } else {
        q + 1
    }
}

/// The `c`-th chunk of `l` values of `v`, filled up with zeros.
fn chunk_of(v: &Vec<Scalar>, l: usize, c: usize) -> (r: Vec<Scalar>)
    requires
        c * l <= v.len(),
    ensures
        values(r@) == chunk(values(v@), l as nat, c as int),
{
    let start = c * l;
    let rest = v.len() - start;
    let mut out: Vec<Scalar> = Vec::new();
    let mut k: usize = 0;
    while k < l
        invariant
            k <= l,
            start == c * l,
            start <= v.len(),
            rest == v.len() - start,
            out.len() == k,
            forall|m: int|
                0 <= m < k ==> (#[trigger] out[m])@ == (if start + m < v.len() {
                    v[start + m]@
                } else {
                    0nat
                }),
        decreases l - k,
    {
        if k < rest {
            out.push(v[start + k]);
        } else {
            out.push(Scalar::zero());
        }
        k += 1;
    }
    proof {
        assert(values(out@) =~= chunk(values(v@), l as nat, c as int));
    }
    out
}

/// Shares a whole vector of values among the parties: the vector is cut into
/// chunks of `l` values, the last one filled up with zeros, each chunk is
/// shared, and party `i` gets its share of every chunk, in the order of the
/// chunks.
pub fn pack_from_witness(pp: &PackedSharingParams, full_assignment: Vec<Scalar>) -> (r: Vec<
    Vec<Scalar>,
>)
    ensures
        table_values(r@) == pp.packed_witness(values(full_assignment@)),
{
    let l = pp.l();
    let n = pp.n();
    let chunks = count_chunks(full_assignment.len(), l);
    let ghost v = values(full_assignment@);
    let mut packed: Vec<Vec<Scalar>> = Vec::new();
    let mut c: usize = 0;
    while c < chunks
        invariant
            c <= chunks,
            l == pp.spec_l(),
            n == pp.spec_n(),
            v == values(full_assignment@),
            chunks >= 1 ==> (chunks - 1) * l < full_assignment.len(),
            packed.len() == c,
            forall|d: int|
                0 <= d < c ==> values((#[trigger] packed[d])@) == pp.packed(
                    chunk(v, l as nat, d),
                ),
        decreases chunks - c,
    {
        proof {
            lemma_mul_inequality(c as int, chunks - 1, l as int);
        }
        let secrets = chunk_of(&full_assignment, l, c);
        assert(secrets.len() == values(secrets@).len());
        let shares = match pp.pack_from_public(&secrets) {
            Some(s) => s,
            None => Vec::new(),
        };
        assert(values(shares@) == pp.packed(chunk(v, l as nat, c as int)));
        packed.push(shares);
        c += 1;
    }
    let mut out: Vec<Vec<Scalar>> = Vec::new();
    let mut i: usize = 0;
    while i < n
        invariant
            i <= n,
            l == pp.spec_l(),
            n == pp.spec_n(),
            packed.len() == chunks,
            forall|d: int|
                0 <= d < chunks ==> values((#[trigger] packed[d])@) == pp.packed(
                    chunk(v, l as nat, d),
                ),
            out.len() == i,
            forall|k: int|
                0 <= k < i ==> values((#[trigger] out[k])@) == Seq::new(
                    chunks as nat,
                    |d: int| pp.packed(chunk(v, l as nat, d))[k],
                ),
        decreases n - i,
    {
        let mut row: Vec<Scalar> = Vec::new();
        let mut d: usize = 0;
        while d < chunks
            invariant
                d <= chunks,
                i < n,
                l == pp.spec_l(),
                n == pp.spec_n(),
                packed.len() == chunks,
                forall|e: int|
                    0 <= e < chunks ==> values((#[trigger] packed[e])@) == pp.packed(
                        chunk(v, l as nat, e),
                    ),
                row.len() == d,
                forall|e: int|
                    0 <= e < d ==> (#[trigger] row[e])@ == pp.packed(chunk(v, l as nat, e))[i as int],
            decreases chunks - d,
        {
            proof {
                assert(values(packed[d as int]@).len() == n);
                assert(values(packed[d as int]@)[i as int] == packed[d as int][i as int]@);
            }
            row.push(packed[d][i]);
            d += 1;
        }
        proof {
            assert(values(row@) =~= Seq::new(
                chunks as nat,
                |d: int| pp.packed(chunk(v, l as nat, d))[i as int],
            ));
        }
        out.push(row);
        i += 1;
    }
    proof {
        assert(table_values(out@) =~= pp.packed_witness(v));
    }
    out
}

/// What every party holds for chunk `c`.
fn column_of(shares: &Vec<Vec<Scalar>>, c: usize) -> (r: Vec<Scalar>)
    requires
        forall|i: int| 0 <= i < shares.len() ==> c < (#[trigger] shares[i]).len(),
    ensures
        values(r@) == column(table_values(shares@), c as int),
{
    let mut out: Vec<Scalar> = Vec::new();
    let mut i: usize = 0;
    while i < shares.len()
        invariant
            i <= shares.len(),
            forall|k: int| 0 <= k < shares.len() ==> c < (#[trigger] shares[k]).len(),
            out.len() == i,
            forall|k: int| 0 <= k < i ==> #[trigger] out[k] == shares[k][c as int],
        decreases shares.len() - i,
    {
        out.push(shares[i][c]);
        i += 1;
    }
    proof {
        assert(values(out@) =~= column(table_values(shares@), c as int));
    }
    out
}

/// Recovers a vector of values from the parties' shares, chunk after chunk.
/// `None` unless there is one row of shares per party, all rows are equally
/// long, and the values fit a vector.
pub fn unpack_to_witness(pp: &PackedSharingParams, shares: &Vec<Vec<Scalar>>) -> (r: Option<
    Vec<Scalar>,
>)
    ensures
        r is Some <==> shares.len() == pp.spec_n() && rows_have(
            shares@,
            shares_per_party(table_values(shares@)),
        ) && shares_per_party(table_values(shares@)) * pp.spec_l() <= usize::MAX,
        r matches Some(v) ==> values(v@) == pp.unpacked_witness(table_values(shares@)),
{
    let l = pp.l();
    let n = pp.n();
    let ghost sh = table_values(shares@);
    if shares.len() != n {
        return None;
    }
    let chunks = if shares.len() == 0 {
        0
    } else {
        shares[0].len()
    };
    assert(chunks == shares_per_party(sh));
    if !all_rows_have(shares, chunks) {
        return None;
    }
    if chunks > usize::MAX / l {
        proof {
            lemma_fundamental_div_mod(usize::MAX as int, l as int);
            lemma_mul_inequality((usize::MAX / l) as int + 1, chunks as int, l as int);
            lemma_mul_is_distributive_add_other_way(l as int, (usize::MAX / l) as int, 1);
            lemma_mul_is_commutative(l as int, (usize::MAX / l) as int);
        }
        return None;
    }
    proof {
        lemma_mul_inequality(chunks as int, (usize::MAX / l) as int, l as int);
        lemma_fundamental_div_mod(usize::MAX as int, l as int);
        lemma_mul_is_commutative(l as int, (usize::MAX / l) as int);
    }
    let mut out: Vec<Scalar> = Vec::new();
    let mut c: usize = 0;
    while c < chunks
        invariant
            c <= chunks,
            l == pp.spec_l(),
            l >= 1,
            n == pp.spec_n(),
            shares.len() == n,
            sh == table_values(shares@),
            rows_have(shares@, chunks as nat),
            chunks * l <= usize::MAX,
            out.len() == c * l,
            forall|k: int|
                0 <= k < c * l ==> (#[trigger] out[k])@ == pp.unpacked(
                    column(sh, k / (l as int)),
                )[k % (l as int)],
        decreases chunks - c,
    {
        let col = column_of(shares, c);
        let secrets = match pp.unpack(&col) {
            Some(s) => s,
            None => Vec::new(),
        };
        assert(col.len() == values(col@).len());
        assert(values(secrets@) == pp.unpacked(column(sh, c as int)));
        assert(secrets.len() == values(secrets@).len());
        proof {
            lemma_mul_is_distributive_add_other_way(l as int, c as int, 1);
            lemma_mul_inequality(c as int + 1, chunks as int, l as int);
        }
        let mut k: usize = 0;
        while k < l
            invariant
                k <= l,
                c < chunks,
                l == pp.spec_l(),
                l >= 1,
                secrets.len() == l,
                values(secrets@) == pp.unpacked(column(sh, c as int)),
                chunks * l <= usize::MAX,
                (c + 1) * l == c * l + l,
                (c + 1) * l <= chunks * l,
                out.len() == c * l + k,
                forall|m: int|
                    0 <= m < c * l + k ==> (#[trigger] out[m])@ == pp.unpacked(
                        column(sh, m / (l as int)),
                    )[m % (l as int)],
            decreases l - k,
        {
            proof {
                let m = c * l + k;
                lemma_fundamental_div_mod_converse(m, l as int, c as int, k as int);
                assert(values(secrets@)[k as int] == secrets[k as int]@);
            }
            out.push(secrets[k]);
            k += 1;
        }
        c += 1;
    }
    proof {
        assert(values(out@) =~= pp.unpacked_witness(sh));
    }
    Some(out)
}

/// `c * x + y` on vectors of scalars; `None` where the two differ in length.
pub fn combine(c: &Scalar, x: &Vec<Scalar>, y: &Vec<Scalar>) -> (r: Option<Vec<Scalar>>)
    ensures
        r is Some <==> x.len() == y.len(),
        r matches Some(z) ==> values(z@) == scale_add(c@ as int, values(x@), values(y@)),
{
    if x.len() != y.len() {
        return None;
    }
    let mut out: Vec<Scalar> = Vec::new();
    let mut i: usize = 0;
    while i < x.len()
        invariant
            i <= x.len(),
            x.len() == y.len(),
            out.len() == i,
            forall|k: int|
                0 <= k < i ==> (#[trigger] out[k])@ as int == ((c@ as int) * (x[k]@ as int) + (
                y[k]@ as int)) % (modulus() as int),
        decreases x.len() - i,
    {
        let scaled = fr_mul(c, &x[i]);
        let total = fr_add(&scaled, &y[i]);
        proof {
            let p = modulus() as int;
            let cx = (c@ as int) * (x[i as int]@ as int);
            let yi = y[i as int]@ as int;
            lemma_add_mod_noop(cx, yi, p);
            lemma_add_mod_noop(cx % p, yi, p);
            lemma_mod_twice(cx, p);
        }
        out.push(total);
        i += 1;
    }
    proof {
        assert(values(out@) =~= scale_add(c@ as int, values(x@), values(y@)));
    }
    Some(out)
}

impl PackedSharingParams {
    /// There is at least one party.
    pub proof fn lemma_has_parties(self)
        requires
            self.wf(),
        ensures
            self.spec_n() >= 1,
    {
        let d = self.decode_table();
        let e = self.encode_table();
        assert(cross(d, e, 0, 0) % (modulus() as int) == 1);
    }

    /// Round trip on one chunk: the shares of `l` secrets decode to those
    /// secrets.
    pub proof fn lemma_unpack_pack(self, s: Seq<int>)
        requires
            self.wf(),
            s.len() == self.spec_l(),
            all_reduced(s),
        ensures
            self.unpacked(self.packed(s)) == s,
    {
        lemma_round_trip(self.decode_table(), self.encode_table(), s);
    }

    /// Linearity on one chunk: combining the shares of `s1` and `s2` party by
    /// party as `c * x + y`, and then decoding, gives `c * s1 + s2`.
    pub proof fn lemma_unpack_linear(self, c: int, s1: Seq<int>, s2: Seq<int>)
        requires
            self.wf(),
            s1.len() == self.spec_l(),
            s2.len() == self.spec_l(),
            all_reduced(s1),
            all_reduced(s2),
        ensures
            self.unpacked(scale_add(c, self.packed(s1), self.packed(s2))) == scale_add(c, s1, s2),
    {
        lemma_apply_linear(
            self.decode_table(),
            c,
            self.packed(s1),
            self.packed(s2),
            self.spec_l(),
        );
        self.lemma_unpack_pack(s1);
        self.lemma_unpack_pack(s2);
    }

    /// Sharing is linear on one chunk: the shares of `c * s1 + s2` are what
    /// every party gets by combining its own shares of `s1` and `s2`.
    pub proof fn lemma_pack_linear(self, c: int, s1: Seq<int>, s2: Seq<int>)
        requires
            self.wf(),
            s1.len() == self.spec_l(),
            s2.len() == self.spec_l(),
        ensures
            self.packed(scale_add(c, s1, s2)) == scale_add(c, self.packed(s1), self.packed(s2)),
    {
        lemma_apply_linear(self.encode_table(), c, s1, s2, self.spec_n());
    }

    /// Round trip on a whole vector, of any length: the shares of `v` decode
    /// to `v` filled up with zeros to a whole number of chunks, so the first
    /// `v.len()` values are `v` itself, and nothing is added where `v` is a
    /// whole number of chunks.
    pub proof fn lemma_unpack_pack_witness(self, v: Seq<int>)
        requires
            self.wf(),
            all_reduced(v),
        ensures
            self.unpacked_witness(self.packed_witness(v)) == padded(v, self.spec_l()),
            self.unpacked_witness(self.packed_witness(v)).take(v.len() as int) == v,
            v.len() % self.spec_l() == 0 ==> self.unpacked_witness(self.packed_witness(v)) == v,
    {
        let l = self.spec_l() as int;
        let chunks = chunk_count(v.len(), self.spec_l()) as int;
        let sh = self.packed_witness(v);
        self.lemma_has_parties();
        assert(shares_per_party(sh) == chunks);
        lemma_padded_length(v.len(), self.spec_l());
        assert forall|k: int| 0 <= k < chunks * l implies self.unpacked_witness(sh)[k] == padded(
            v,
            self.spec_l(),
        )[k] by {
            let c = k / l;
            lemma_fundamental_div_mod(k, l);
            lemma_mul_is_commutative(l, c);
            assert(0 <= c < chunks) by {
                if c >= chunks {
                    lemma_mul_inequality(chunks, c, l);
                }
            }
            let s = chunk(v, self.spec_l(), c);
            assert(column(sh, c) =~= self.packed(s));
            self.lemma_unpack_pack(s);
        }
        assert(self.unpacked_witness(sh) =~= padded(v, self.spec_l()));
        assert(padded(v, self.spec_l()).take(v.len() as int) =~= v);
        if v.len() % self.spec_l() == 0 {
            lemma_fundamental_div_mod(v.len() as int, l);
            lemma_mul_is_commutative(l, v.len() as int / l);
            assert(padded(v, self.spec_l()) =~= v);
        }
    }

    /// Linearity on whole vectors: combining, party by party, the shares of
    /// two equally long vectors as `c * x + y`, and then decoding, gives
    /// `c * v1 + v2`, filled up with zeros to a whole number of chunks.
    pub proof fn lemma_unpack_linear_witness(self, c: int, v1: Seq<int>, v2: Seq<int>)
        requires
            self.wf(),
            v1.len() == v2.len(),
            all_reduced(v1),
            all_reduced(v2),
        ensures
            self.unpacked_witness(
                scale_add_shares(c, self.packed_witness(v1), self.packed_witness(v2)),
            ) == scale_add(c, padded(v1, self.spec_l()), padded(v2, self.spec_l())),
    {
        let l = self.spec_l() as int;
        let chunks = chunk_count(v1.len(), self.spec_l()) as int;
        let a = self.packed_witness(v1);
        let b = self.packed_witness(v2);
        let sh = scale_add_shares(c, a, b);
        let want = scale_add(c, padded(v1, self.spec_l()), padded(v2, self.spec_l()));
        self.lemma_has_parties();
        assert(shares_per_party(sh) == chunks);
        assert forall|k: int| 0 <= k < chunks * l implies self.unpacked_witness(sh)[k]
            == want[k] by {
            let ch = k / l;
            lemma_fundamental_div_mod(k, l);
            lemma_mul_is_commutative(l, ch);
            assert(0 <= ch < chunks) by {
                if ch >= chunks {
                    lemma_mul_inequality(chunks, ch, l);
                }
            }
            let s1 = chunk(v1, self.spec_l(), ch);
            let s2 = chunk(v2, self.spec_l(), ch);
            assert(column(sh, ch) =~= scale_add(c, self.packed(s1), self.packed(s2)));
            self.lemma_unpack_linear(c, s1, s2);
        }
        assert(self.unpacked_witness(sh) =~= want);
    }
}

/// A vector filled up to whole chunks is at least as long as it was.
pub proof fn lemma_padded_length(len: nat, l: nat)
    requires
        l >= 1,
    ensures
        chunk_count(len, l) * l >= len,
        len % l == 0 ==> chunk_count(len, l) * l == len,
{
    lemma_fundamental_div_mod(len as int, l as int);
    lemma_mul_is_commutative(l as int, len as int / l as int);
    lemma_mul_is_distributive_add_other_way(l as int, len as int / l as int, 1);
}

} // verus!
