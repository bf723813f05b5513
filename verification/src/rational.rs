//! Exact nonnegative rational numbers, the value domain of the resistance
//! calculator, together with the spec-level model of series and parallel
//! combination.

use vstd::prelude::*;

verus! {

/// Mathematical model of a rational number `num / den`.
pub ghost struct Rat {
    pub num: int,
    pub den: int,
}

/// A well-formed rational: positive denominator, nonnegative numerator.
pub open spec fn rat_wf(r: Rat) -> bool {
    r.den > 0 && r.num >= 0
}

/// A strictly positive well-formed rational.
pub open spec fn rat_pos(r: Rat) -> bool {
    rat_wf(r) && r.num > 0
}

/// The rational zero.
pub open spec fn rat_zero() -> Rat {
    Rat { num: 0, den: 1 }
}

/// Equality of the represented rational values (cross-multiplication).
pub open spec fn rat_eq(a: Rat, b: Rat) -> bool {
    a.num * b.den == b.num * a.den
}

/// Order on the represented rational values (cross-multiplication).
pub open spec fn rat_le(a: Rat, b: Rat) -> bool {
    a.num * b.den <= b.num * a.den
}

/// Exact sum of two rationals, over the product denominator.
pub open spec fn rat_add(a: Rat, b: Rat) -> Rat {
    Rat { num: a.num * b.den + b.num * a.den, den: a.den * b.den }
}

/// Reciprocal of a rational.
pub open spec fn rat_inv(a: Rat) -> Rat {
    Rat { num: a.den, den: a.num }
}

/// Whether a rational's components both fit in 64 bits, so that a `Ratio`
/// can carry it exactly.
pub open spec fn rat_fits(r: Rat) -> bool {
    r.num <= u64::MAX && r.den <= u64::MAX
}

/// The product of two nonnegative 64-bit values fits in 128 bits.
pub(crate) proof fn lemma_u64_mul_in_u128(a: int, b: int)
    by (nonlinear_arith)
    requires
        0 <= a <= u64::MAX,
        0 <= b <= u64::MAX,
    ensures
        0 <= a * b <= u64::MAX * u64::MAX,
{
}

/// The product of two positive integers is positive.
pub(crate) proof fn lemma_mul_pos(a: int, b: int)
    by (nonlinear_arith)
    requires
        a > 0,
        b > 0,
    ensures
        a * b > 0,
{
}

/// The product of two nonnegative integers is nonnegative.
pub(crate) proof fn lemma_mul_nonneg(a: int, b: int)
    by (nonlinear_arith)
    requires
        a >= 0,
        b >= 0,
    ensures
        a * b >= 0,
{
}

/// An exact nonnegative rational with 64-bit numerator and denominator.
/// The denominator of a well-formed value is never zero.
#[derive(Clone, Copy, Debug)]
pub struct Ratio {
    num: u64,
    den: u64,
}

impl View for Ratio {
    type V = Rat;

    closed spec fn view(&self) -> Rat {
        Rat { num: self.num as int, den: self.den as int }
    }
}

impl Ratio {
    /// Validity: the represented rational is well-formed.
    pub open spec fn wf(&self) -> bool {
        rat_wf(self@)
    }

    /// Builds `num / den`; rejects a zero denominator.
    pub fn new(num: u64, den: u64) -> (r: Option<Ratio>)
        ensures
            r is Some <==> den > 0,
            r matches Some(v) ==> v.wf() && v@ == (Rat { num: num as int, den: den as int }),
    {
        if den > 0 {
            Some(Ratio { num, den })
        } else {
            None
        }
    }

    /// The rational zero, written `0 / 1`.
    pub fn zero() -> (r: Ratio)
        ensures
            r.wf(),
            r@ == rat_zero(),
    {
        Ratio { num: 0, den: 1 }
    }

    /// The numerator.
    pub fn numer(&self) -> (n: u64)
        ensures
            n == self@.num,
    {
        self.num
    }

    /// The denominator.
    pub fn denom(&self) -> (d: u64)
        ensures
            d == self@.den,
    {
        self.den
    }

    /// Exact equality of the represented rational values, by
    /// cross-multiplication in 128 bits.
    pub fn eq_rat(&self, other: &Ratio) -> (r: bool)
        requires
            self.wf(),
            other.wf(),
        ensures
            r == rat_eq(self@, other@),
    {
        proof {
            lemma_u64_mul_in_u128(self.num as int, other.den as int);
            lemma_u64_mul_in_u128(other.num as int, self.den as int);
        }
        (self.num as u128) * (other.den as u128) == (other.num as u128) * (self.den as u128)
    }

    /// Exact order on the represented rational values, by
    /// cross-multiplication in 128 bits.
    pub fn le_rat(&self, other: &Ratio) -> (r: bool)
        requires
            self.wf(),
            other.wf(),
        ensures
            r == rat_le(self@, other@),
    {
        proof {
            lemma_u64_mul_in_u128(self.num as int, other.den as int);
            lemma_u64_mul_in_u128(other.num as int, self.den as int);
        }
        (self.num as u128) * (other.den as u128) <= (other.num as u128) * (self.den as u128)
    }

    /// The reciprocal, defined for strictly positive values only.
    pub fn recip(&self) -> (r: Ratio)
        requires
            self.wf(),
            self@.num > 0,
        ensures
            r.wf(),
            r@ == rat_inv(self@),
            r@.num > 0,
    {
        Ratio { num: self.den, den: self.num }
    }

    /// Exact sum over the product denominator; `None` exactly when the
    /// unreduced sum no longer fits in 64 bits.
    pub fn checked_add(&self, other: &Ratio) -> (r: Option<Ratio>)
        requires
            self.wf(),
            other.wf(),
        ensures
            r matches Some(v) ==> v.wf() && v@ == rat_add(self@, other@),
            r is Some <==> rat_fits(rat_add(self@, other@)),
    {
        proof {
            lemma_u64_mul_in_u128(self.num as int, other.den as int);
            lemma_u64_mul_in_u128(other.num as int, self.den as int);
            lemma_u64_mul_in_u128(self.den as int, other.den as int);
            lemma_mul_pos(self.den as int, other.den as int);
        }
        let n1 = (self.num as u128) * (other.den as u128);
        let n2 = (other.num as u128) * (self.den as u128);
        let d = (self.den as u128) * (other.den as u128);
        if n1 > u64::MAX as u128 || n2 > u64::MAX as u128 || d > u64::MAX as u128 {
            None
        } else {
            let n = n1 + n2;
            if n > u64::MAX as u128 {
                None
            } else {
                Some(Ratio { num: n as u64, den: d as u64 })
            }
        }
    }
}

/// The rational values that a sequence of `Ratio` represents.
pub open spec fn views(s: Seq<Ratio>) -> Seq<Rat> {
    s.map_values(|r: Ratio| r@)
}

/// Every element is strictly positive.
pub open spec fn all_pos(s: Seq<Rat>) -> bool {
    forall|i: int| 0 <= i < s.len() ==> rat_pos(#[trigger] s[i])
}

/// The exact sum of a sequence of rationals, accumulated left to right from
/// zero. This is what a series circuit's equivalent resistance is.
pub open spec fn sum_rats(s: Seq<Rat>) -> Rat
    decreases s.len(),
{
    if s.len() == 0 {
        rat_zero()
    } else {
        rat_add(sum_rats(s.drop_last()), s.last())
    }
}

/// Whether every intermediate value of `sum_rats` fits in 64 bits.
pub open spec fn sum_rats_fits(s: Seq<Rat>) -> bool
    decreases s.len(),
{
    s.len() == 0 || (sum_rats_fits(s.drop_last()) && rat_fits(
        rat_add(sum_rats(s.drop_last()), s.last()),
    ))
}

/// The exact sum of the reciprocals of a sequence of rationals: the total
/// conductance of the branches of a parallel circuit.
pub open spec fn conductance_sum(s: Seq<Rat>) -> Rat
    decreases s.len(),
{
    if s.len() == 0 {
        rat_zero()
    } else {
        rat_add(conductance_sum(s.drop_last()), rat_inv(s.last()))
    }
}

/// Whether every intermediate value of `conductance_sum` fits in 64 bits.
pub open spec fn conductance_sum_fits(s: Seq<Rat>) -> bool
    decreases s.len(),
{
    s.len() == 0 || (conductance_sum_fits(s.drop_last()) && rat_fits(
        rat_add(conductance_sum(s.drop_last()), rat_inv(s.last())),
    ))
}

/// A parallel circuit's equivalent resistance: the reciprocal of the total
/// conductance.
pub open spec fn parallel_rats(s: Seq<Rat>) -> Rat {
    rat_inv(conductance_sum(s))
}

/// Adding well-formed rationals gives a well-formed rational.
pub(crate) proof fn lemma_rat_add_wf(a: Rat, b: Rat)
    requires
        rat_wf(a),
        rat_wf(b),
    ensures
        rat_wf(rat_add(a, b)),
{
    lemma_mul_pos(a.den, b.den);
    lemma_mul_nonneg(a.num, b.den);
    lemma_mul_nonneg(b.num, a.den);
}

/// Adding a strictly positive rational to a well-formed one gives a strictly
/// positive rational.
pub(crate) proof fn lemma_rat_add_pos(a: Rat, b: Rat)
    requires
        rat_wf(a),
        rat_pos(b),
    ensures
        rat_pos(rat_add(a, b)),
{
    lemma_rat_add_wf(a, b);
    lemma_mul_pos(b.num, a.den);
    lemma_mul_nonneg(a.num, b.den);
}

/// The total conductance of well-formed positive branches is well-formed,
/// and strictly positive as soon as there is a branch.
pub(crate) proof fn lemma_conductance_sum_pos(s: Seq<Rat>)
    requires
        all_pos(s),
    ensures
        rat_wf(conductance_sum(s)),
        s.len() > 0 ==> conductance_sum(s).num > 0,
    decreases s.len(),
{
    if s.len() > 0 {
        lemma_conductance_sum_pos(s.drop_last());
        lemma_rat_add_pos(conductance_sum(s.drop_last()), rat_inv(s.last()));
    }
}

/// One step of a prefix: dropping the last element of `take(i + 1)` gives
/// `take(i)`, and its last element is `s[i]`.
pub(crate) proof fn lemma_take_succ(s: Seq<Rat>, i: int)
    requires
        0 <= i < s.len(),
    ensures
        s.take(i + 1).drop_last() =~= s.take(i),
        s.take(i + 1).last() == s[i],
{
}

/// Cross-multiplied form of `rat_le(b, rat_add(t, b))`: a term is bounded by
/// a sum that ends with it, when the rest of the sum is well-formed.
pub(crate) proof fn lemma_le_add_base(bn: int, bd: int, tn: int, td: int)
    by (nonlinear_arith)
    requires
        bd > 0,
        td > 0,
        tn >= 0,
    ensures
        bn * (td * bd) <= (tn * bd + bn * td) * bd,
{
}

/// Cross-multiplied form of `rat_le(a, rat_add(t, c))` given `rat_le(a, t)`:
/// a bound on a sum survives adding a well-formed term.
pub(crate) proof fn lemma_le_add_right(an: int, ad: int, tn: int, td: int, cn: int, cd: int)
    by (nonlinear_arith)
    requires
        an * td <= tn * ad,
        ad > 0,
        td > 0,
        cd > 0,
        cn >= 0,
    ensures
        an * (td * cd) <= (tn * cd + cn * td) * ad,
{
}

/// Each branch's conductance is bounded by the total conductance.
pub(crate) proof fn lemma_inv_le_conductance_sum(s: Seq<Rat>, i: int)
    requires
        all_pos(s),
        0 <= i < s.len(),
    ensures
        rat_le(rat_inv(s[i]), conductance_sum(s)),
    decreases s.len(),
{
    let t = conductance_sum(s.drop_last());
    lemma_conductance_sum_pos(s.drop_last());
    if i == s.len() - 1 {
        lemma_le_add_base(s[i].den, s[i].num, t.num, t.den);
    } else {
        lemma_inv_le_conductance_sum(s.drop_last(), i);
        lemma_le_add_right(s[i].den, s[i].num, t.num, t.den, s.last().den, s.last().num);
    }
}

/// If the whole series sum fits, so does the sum of every prefix.
pub(crate) proof fn lemma_sum_rats_fits_prefix(s: Seq<Rat>, k: int)
    requires
        sum_rats_fits(s),
        0 <= k <= s.len(),
    ensures
        sum_rats_fits(s.take(k)),
    decreases s.len(),
{
    if k == s.len() {
        assert(s.take(k) =~= s);
    } else {
        lemma_sum_rats_fits_prefix(s.drop_last(), k);
        assert(s.drop_last().take(k) =~= s.take(k));
    }
}

/// If the whole conductance sum fits, so does the sum of every prefix.
pub(crate) proof fn lemma_conductance_sum_fits_prefix(s: Seq<Rat>, k: int)
    requires
        conductance_sum_fits(s),
        0 <= k <= s.len(),
    ensures
        conductance_sum_fits(s.take(k)),
    decreases s.len(),
{
    if k == s.len() {
        assert(s.take(k) =~= s);
    } else {
        lemma_conductance_sum_fits_prefix(s.drop_last(), k);
        assert(s.drop_last().take(k) =~= s.take(k));
    }
}

/// The accumulation step of a series sum, as a fold operator.
pub(crate) open spec fn series_step() -> spec_fn(Rat, Rat) -> Rat {
    |acc: Rat, r: Rat| rat_add(acc, r)
}

/// The accumulation step of a conductance sum, as a fold operator.
pub(crate) open spec fn conductance_step() -> spec_fn(Rat, Rat) -> Rat {
    |acc: Rat, r: Rat| rat_add(acc, rat_inv(r))
}

/// Ring identity behind `lemma_rat_add_swap`: the numerators agree.
pub(crate) proof fn lemma_add_swap_num(vn: int, vd: int, xn: int, xd: int, yn: int, yd: int)
    ensures
        (vn * xd + xn * vd) * yd + yn * (vd * xd) == (vn * yd + yn * vd) * xd + xn * (vd * yd),
{
    assert((vn * xd + xn * vd) * yd == vn * (xd * yd) + xn * (vd * yd)) by (nonlinear_arith);
    assert((vn * yd + yn * vd) * xd == vn * (xd * yd) + yn * (vd * xd)) by (nonlinear_arith);
}

/// The order in which two rationals are added onto an accumulator does not
/// matter: the unreduced results agree component by component.
pub(crate) proof fn lemma_rat_add_swap(v: Rat, x: Rat, y: Rat)
    ensures
        rat_add(rat_add(v, x), y) == rat_add(rat_add(v, y), x),
{
    assert(rat_add(rat_add(v, x), y).num == (v.num * x.den + x.num * v.den) * y.den + y.num * (
    v.den * x.den));
    assert(rat_add(rat_add(v, y), x).num == (v.num * y.den + y.num * v.den) * x.den + x.num * (
    v.den * y.den));
    lemma_add_swap_num(v.num, v.den, x.num, x.den, y.num, y.den);
    assert((v.den * x.den) * y.den == (v.den * y.den) * x.den) by (nonlinear_arith);
}

/// The series step is a commutative fold operator.
pub(crate) proof fn lemma_series_step_commutes()
    ensures
        vstd::seq_lib::commutative_foldl(series_step()),
{
    let f = series_step();
    assert forall|x: Rat, y: Rat, v: Rat| #[trigger] f(f(v, x), y) == f(f(v, y), x) by {
        lemma_rat_add_swap(v, x, y);
    }
}

/// The conductance step is a commutative fold operator.
pub(crate) proof fn lemma_conductance_step_commutes()
    ensures
        vstd::seq_lib::commutative_foldl(conductance_step()),
{
    let f = conductance_step();
    assert forall|x: Rat, y: Rat, v: Rat| #[trigger] f(f(v, x), y) == f(f(v, y), x) by {
        lemma_rat_add_swap(v, rat_inv(x), rat_inv(y));
    }
}

/// `sum_rats` is the left fold of the series step from zero.
pub(crate) proof fn lemma_sum_rats_is_fold(s: Seq<Rat>)
    ensures
        sum_rats(s) == s.fold_left(rat_zero(), series_step()),
    decreases s.len(),
{
    if s.len() > 0 {
        lemma_sum_rats_is_fold(s.drop_last());
    }
}

/// `conductance_sum` is the left fold of the conductance step from zero.
pub(crate) proof fn lemma_conductance_sum_is_fold(s: Seq<Rat>)
    ensures
        conductance_sum(s) == s.fold_left(rat_zero(), conductance_step()),
    decreases s.len(),
{
    if s.len() > 0 {
        lemma_conductance_sum_is_fold(s.drop_last());
    }
}

} // verus!
