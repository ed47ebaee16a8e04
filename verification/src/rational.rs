//! The scalar type of the kernel: exact rational numbers.
//!
//! A `Ratio` stores a numerator and a positive denominator; values are not
//! reduced, and equality and order compare the rational values by cross
//! multiplication. The ghost model is `Rat`, a pair of unbounded integers,
//! with spec-level arithmetic mirroring the executable operations exactly.

use vstd::prelude::*;

verus! {

/// Ghost model of a rational number: the value `n / d`. Well-formed values
/// keep `d` positive, so that comparison by cross multiplication is the
/// usual order on rationals.
pub ghost struct Rat {
    pub n: int,
    pub d: int,
}

pub open spec fn rat_wf(a: Rat) -> bool {
    a.d > 0
}

/// `a` and `b` denote the same rational value.
pub open spec fn rat_eq(a: Rat, b: Rat) -> bool {
    a.n * b.d == b.n * a.d
}

/// `a <= b` as rational values (meaningful when both are well-formed).
pub open spec fn rat_le(a: Rat, b: Rat) -> bool {
    a.n * b.d <= b.n * a.d
}

/// `a < b` as rational values (meaningful when both are well-formed).
pub open spec fn rat_lt(a: Rat, b: Rat) -> bool {
    a.n * b.d < b.n * a.d
}

pub open spec fn rat_int(i: int) -> Rat {
    Rat { n: i, d: 1 }
}

pub open spec fn rat_add(a: Rat, b: Rat) -> Rat {
    Rat { n: a.n * b.d + b.n * a.d, d: a.d * b.d }
}

pub open spec fn rat_sub(a: Rat, b: Rat) -> Rat {
    Rat { n: a.n * b.d - b.n * a.d, d: a.d * b.d }
}

pub open spec fn rat_mul(a: Rat, b: Rat) -> Rat {
    Rat { n: a.n * b.n, d: a.d * b.d }
}

/// Division; intended for divisors with `b.n > 0`, which keeps the result
/// well-formed.
pub open spec fn rat_div(a: Rat, b: Rat) -> Rat {
    Rat { n: a.n * b.d, d: a.d * b.n }
}

pub open spec fn rat_neg(a: Rat) -> Rat {
    Rat { n: -a.n, d: a.d }
}

pub open spec fn in_i64(i: int) -> bool {
    i64::MIN <= i <= i64::MAX
}

/// Both components of `a` are representable in the stored integer type.
pub open spec fn rat_in_i64(a: Rat) -> bool {
    in_i64(a.n) && in_i64(a.d)
}

/// A product of two factors bounded in magnitude is bounded by the product
/// of the bounds.
pub proof fn lemma_mul_bound(a: int, b: int, am: int, bm: int)
    requires
        -am <= a <= am,
        -bm <= b <= bm,
        0 <= am,
        0 <= bm,
    ensures
        -(am * bm) <= a * b <= am * bm,
{
    assert(-(am * bm) <= a * b <= am * bm) by (nonlinear_arith)
        requires
            -am <= a <= am,
            -bm <= b <= bm,
            0 <= am,
            0 <= bm,
    ;
}

pub proof fn lemma_pos_mul(a: int, b: int)
    requires
        0 < a,
        0 < b,
    ensures
        0 < a * b,
{
    assert(0 < a * b) by (nonlinear_arith)
        requires
            0 < a,
            0 < b,
    ;
}

/// Exact rational scalar: the coordinate type of the kernel. The stored
/// denominator is always positive; values are not reduced, and `==`, `<=`
/// compare the denoted rational values.
#[derive(Clone, Copy, Debug)]
pub struct Ratio {
    num: i64,
    den: i64,
}

impl View for Ratio {
    type V = Rat;

    closed spec fn view(&self) -> Rat {
        Rat { n: self.num as int, d: self.den as int }
    }
}

impl Ratio {
    #[verifier::type_invariant]
    spec fn positive_den(self) -> bool {
        self.den > 0
    }

    /// The rational `num / den`.
    pub fn new(num: i64, den: i64) -> (r: Self)
        requires
            den > 0,
        ensures
            r@ == (Rat { n: num as int, d: den as int }),
    {
        Ratio { num, den }
    }

    /// The additive identity.
    pub fn zero() -> (r: Self)
        ensures
            r@ == rat_int(0),
    {
        Ratio { num: 0, den: 1 }
    }

    /// The multiplicative identity.
    pub fn one() -> (r: Self)
        ensures
            r@ == rat_int(1),
    {
        Ratio { num: 1, den: 1 }
    }

    pub fn add(self, other: Ratio) -> (r: Ratio)
        requires
            rat_in_i64(rat_add(self@, other@)),
        ensures
            r@ == rat_add(self@, other@),
    {
        proof {
            use_type_invariant(self);
            use_type_invariant(other);
            lemma_mul_bound(self@.n, other@.d, 0x8000_0000_0000_0000, 0x7fff_ffff_ffff_ffff);
            lemma_mul_bound(other@.n, self@.d, 0x8000_0000_0000_0000, 0x7fff_ffff_ffff_ffff);
            lemma_pos_mul(self@.d, other@.d);
        }
        let n: i128 = self.num as i128 * other.den as i128 + other.num as i128 * self.den as i128;
        let d: i128 = self.den as i128 * other.den as i128;
        Ratio { num: n as i64, den: d as i64 }
    }

    pub fn sub(self, other: Ratio) -> (r: Ratio)
        requires
            rat_in_i64(rat_sub(self@, other@)),
        ensures
            r@ == rat_sub(self@, other@),
    {
        proof {
            use_type_invariant(self);
            use_type_invariant(other);
            lemma_mul_bound(self@.n, other@.d, 0x8000_0000_0000_0000, 0x7fff_ffff_ffff_ffff);
            lemma_mul_bound(other@.n, self@.d, 0x8000_0000_0000_0000, 0x7fff_ffff_ffff_ffff);
            lemma_pos_mul(self@.d, other@.d);
        }
        let n: i128 = self.num as i128 * other.den as i128 - other.num as i128 * self.den as i128;
        let d: i128 = self.den as i128 * other.den as i128;
        Ratio { num: n as i64, den: d as i64 }
    }

    pub fn mul(self, other: Ratio) -> (r: Ratio)
        requires
            rat_in_i64(rat_mul(self@, other@)),
        ensures
            r@ == rat_mul(self@, other@),
    {
        proof {
            use_type_invariant(self);
            use_type_invariant(other);
            lemma_mul_bound(self@.n, other@.n, 0x8000_0000_0000_0000, 0x8000_0000_0000_0000);
            lemma_pos_mul(self@.d, other@.d);
        }
        let n: i128 = self.num as i128 * other.num as i128;
        let d: i128 = self.den as i128 * other.den as i128;
        Ratio { num: n as i64, den: d as i64 }
    }

    /// Division by a positive rational.
    pub fn div(self, other: Ratio) -> (r: Ratio)
        requires
            other@.n > 0,
            rat_in_i64(rat_div(self@, other@)),
        ensures
            r@ == rat_div(self@, other@),
    {
        proof {
            use_type_invariant(self);
            use_type_invariant(other);
            lemma_mul_bound(self@.n, other@.d, 0x8000_0000_0000_0000, 0x7fff_ffff_ffff_ffff);
            lemma_pos_mul(self@.d, other@.n);
        }
        let n: i128 = self.num as i128 * other.den as i128;
        let d: i128 = self.den as i128 * other.num as i128;
        Ratio { num: n as i64, den: d as i64 }
    }

    /// Any reachable value is well-formed: its denominator is positive.
    pub fn wf_fact(&self)
        ensures
            rat_wf(self@),
    {
        proof {
            use_type_invariant(*self);
        }
    }

    /// Whether the value is exactly zero.
    pub fn num_is_zero(self) -> (r: bool)
        ensures
            r == (self@.n == 0),
    {
        self.num == 0
    }

    /// Ordering comparison on the denoted rational values.
    pub fn le(self, other: Ratio) -> (r: bool)
        ensures
            r == rat_le(self@, other@),
    {
        proof {
            use_type_invariant(self);
            use_type_invariant(other);
            lemma_mul_bound(self@.n, other@.d, 0x8000_0000_0000_0000, 0x8000_0000_0000_0000);
            lemma_mul_bound(other@.n, self@.d, 0x8000_0000_0000_0000, 0x8000_0000_0000_0000);
        }
        self.num as i128 * other.den as i128 <= other.num as i128 * self.den as i128
    }

    /// Strict ordering comparison on the denoted rational values.
    pub fn lt(self, other: Ratio) -> (r: bool)
        ensures
            r == rat_lt(self@, other@),
    {
        proof {
            use_type_invariant(self);
            use_type_invariant(other);
            lemma_mul_bound(self@.n, other@.d, 0x8000_0000_0000_0000, 0x8000_0000_0000_0000);
            lemma_mul_bound(other@.n, self@.d, 0x8000_0000_0000_0000, 0x8000_0000_0000_0000);
        }
        (self.num as i128 * other.den as i128) < (other.num as i128 * self.den as i128)
    }
}

impl PartialEq for Ratio {
    fn eq(&self, other: &Ratio) -> (r: bool) {
        proof {
            use_type_invariant(*self);
            use_type_invariant(*other);
            lemma_mul_bound(self@.n, other@.d, 0x8000_0000_0000_0000, 0x8000_0000_0000_0000);
            lemma_mul_bound(other@.n, self@.d, 0x8000_0000_0000_0000, 0x8000_0000_0000_0000);
        }
        self.num as i128 * other.den as i128 == other.num as i128 * self.den as i128
    }
}

impl vstd::std_specs::cmp::PartialEqSpecImpl for Ratio {
    open spec fn obeys_eq_spec() -> bool {
        true
    }

    open spec fn eq_spec(&self, other: &Ratio) -> bool {
        rat_eq(self@, other@)
    }
}


/// Left-fold sum of a sequence of rationals, starting from zero.
pub open spec fn rat_sum(s: Seq<Rat>) -> Rat
    decreases s.len(),
{
    if s.len() == 0 {
        rat_int(0)
    } else {
        rat_add(rat_sum(s.drop_last()), s.last())
    }
}

/// Unreduced rational addition is commutative on representations.
pub proof fn lemma_rat_add_comm(a: Rat, b: Rat)
    ensures
        rat_add(a, b) == rat_add(b, a),
{
    assert(a.n * b.d + b.n * a.d == b.n * a.d + a.n * b.d) by (nonlinear_arith);
    assert(a.d * b.d == b.d * a.d) by (nonlinear_arith);
}

/// Unreduced rational addition is associative on representations.
#[verifier::rlimit(50)]
pub proof fn lemma_rat_add_assoc(a: Rat, b: Rat, c: Rat)
    ensures
        rat_add(rat_add(a, b), c) == rat_add(a, rat_add(b, c)),
{
    assert((a.n * b.d + b.n * a.d) * c.d + c.n * (a.d * b.d) == a.n * (b.d * c.d) + (b.n * c.d
        + c.n * b.d) * a.d) by (nonlinear_arith);
    assert((a.d * b.d) * c.d == a.d * (b.d * c.d)) by (nonlinear_arith);
}

pub proof fn lemma_rat_add_zero(a: Rat)
    ensures
        rat_add(a, rat_int(0)) == a,
        rat_add(rat_int(0), a) == a,
{
}

/// The sum of a concatenation is the sum of the two parts.
pub proof fn lemma_rat_sum_concat(x: Seq<Rat>, y: Seq<Rat>)
    ensures
        rat_sum(x + y) == rat_add(rat_sum(x), rat_sum(y)),
    decreases y.len(),
{
    if y.len() == 0 {
        assert(x + y =~= x);
        lemma_rat_add_zero(rat_sum(x));
    } else {
        lemma_rat_sum_concat(x, y.drop_last());
        assert((x + y).drop_last() =~= x + y.drop_last());
        assert((x + y).last() == y.last());
        lemma_rat_add_assoc(rat_sum(x), rat_sum(y.drop_last()), y.last());
    }
}

/// The sum is unchanged by a cyclic rotation of the sequence.
pub proof fn lemma_rat_sum_rotate(s: Seq<Rat>, k: int)
    requires
        0 <= k <= s.len(),
    ensures
        rat_sum(s.subrange(k, s.len() as int) + s.subrange(0, k)) == rat_sum(s),
{
    let front = s.subrange(0, k);
    let back = s.subrange(k, s.len() as int);
    assert(front + back =~= s);
    lemma_rat_sum_concat(front, back);
    lemma_rat_sum_concat(back, front);
    lemma_rat_add_comm(rat_sum(front), rat_sum(back));
}

/// The sum is unchanged by reversing the sequence.
pub proof fn lemma_rat_sum_reverse(s: Seq<Rat>)
    ensures
        rat_sum(s.reverse()) == rat_sum(s),
    decreases s.len(),
{
    if s.len() == 0 {
        assert(s.reverse() =~= s);
    } else {
        let dl = s.drop_last();
        lemma_rat_sum_reverse(dl);
        assert(s.reverse() =~= seq![s.last()] + dl.reverse());
        lemma_rat_sum_concat(seq![s.last()], dl.reverse());
        assert(seq![s.last()].drop_last() =~= Seq::<Rat>::empty());
        assert(seq![s.last()].len() == 1);
        assert(rat_sum(seq![s.last()].drop_last()) == rat_int(0));
        assert(rat_sum(seq![s.last()]) == rat_add(rat_sum(seq![s.last()].drop_last()), s.last()));
        lemma_rat_add_zero(s.last());
        assert(rat_sum(s.reverse()) == rat_add(s.last(), rat_sum(dl)));
        lemma_rat_add_comm(s.last(), rat_sum(dl));
        assert(rat_sum(s) == rat_add(rat_sum(dl), s.last()));
    }
}

/// Negating every element negates the sum.
pub proof fn lemma_rat_sum_neg(s: Seq<Rat>)
    ensures
        rat_sum(s.map_values(|a: Rat| rat_neg(a))) == rat_neg(rat_sum(s)),
    decreases s.len(),
{
    let m = s.map_values(|a: Rat| rat_neg(a));
    if s.len() == 0 {
    } else {
        lemma_rat_sum_neg(s.drop_last());
        assert(m.drop_last() =~= s.drop_last().map_values(|a: Rat| rat_neg(a)));
        assert(m.last() == rat_neg(s.last()));
        let x = rat_sum(s.drop_last());
        let y = s.last();
        assert((-x.n) * y.d + (-y.n) * x.d == -(x.n * y.d + y.n * x.d)) by (nonlinear_arith);
    }
}

/// The rational order is transitive (over positive denominators).
pub proof fn lemma_rat_le_trans(a: Rat, b: Rat, c: Rat)
    requires
        rat_wf(a),
        rat_wf(b),
        rat_wf(c),
        rat_le(a, b),
        rat_le(b, c),
    ensures
        rat_le(a, c),
{
    assert(a.n * c.d <= c.n * a.d) by (nonlinear_arith)
        requires
            a.n * b.d <= b.n * a.d,
            b.n * c.d <= c.n * b.d,
            a.d > 0,
            b.d > 0,
            c.d > 0,
    ;
}

/// Adding and then subtracting the same value is the identity, up to value
/// equality.
pub proof fn lemma_rat_add_sub_cancel(a: Rat, m: Rat)
    requires
        rat_wf(a),
        rat_wf(m),
    ensures
        rat_eq(rat_sub(rat_add(a, m), a), m),
{
    assert(((a.n * m.d + m.n * a.d) * a.d - a.n * (a.d * m.d)) * m.d == m.n * ((a.d * m.d) * a.d))
        by (nonlinear_arith);
}

} // verus!
