//! Basic electrical theory: descriptive types for charge, current, voltage
//! and circuit laws, and a verified calculator for the equivalent resistance
//! of series and parallel resistor networks over exact rationals.

use vstd::prelude::*;

pub mod rational;
pub mod theory;

verus! {

use crate::rational::{
    Ratio, Rat, all_pos, conductance_sum, conductance_sum_fits, parallel_rats, rat_add, rat_inv,
    rat_le, rat_pos, rat_zero, sum_rats, sum_rats_fits, views,
};
use crate::rational::{
    conductance_step, lemma_conductance_step_commutes, lemma_conductance_sum_fits_prefix,
    lemma_conductance_sum_is_fold, lemma_conductance_sum_pos, lemma_inv_le_conductance_sum,
    lemma_series_step_commutes, lemma_sum_rats_fits_prefix, lemma_sum_rats_is_fold,
    lemma_take_succ, series_step,
};
use vstd::seq_lib::lemma_fold_left_permutation;

/// Why a resistance computation was rejected.
#[derive(Clone, Copy, Debug, PartialEq, Eq, Structural)]
pub enum CircuitError {
    /// The resistance at this position is not strictly positive.
    InvalidInput { index: usize },
    /// A parallel circuit needs at least one branch.
    EmptyInput,
    /// The exact numerator or denominator no longer fits in 64 bits.
    Overflow,
}

/// The resistance calculator: equivalent resistance of series and parallel
/// resistor networks.
pub struct Resistance;

impl Resistance {
    /// Equivalent resistance of resistors connected in series: the exact sum
    /// of the individual resistances, accumulated left to right. An empty
    /// network is the additive identity, zero. A resistance that is not
    /// strictly positive is rejected with its position, and `Overflow` is
    /// reported exactly when some intermediate exact sum leaves 64 bits.
    pub fn series(resistors: Vec<Ratio>) -> (r: Result<Ratio, CircuitError>)
        requires
            forall|i: int| 0 <= i < resistors@.len() ==> (#[trigger] resistors@[i]).wf(),
        ensures
            match r {
                Ok(v) => {
                    &&& all_pos(views(resistors@))
                    &&& sum_rats_fits(views(resistors@))
                    &&& v.wf()
                    &&& v@ == sum_rats(views(resistors@))
                },
                Err(CircuitError::InvalidInput { index }) => {
                    &&& index < resistors@.len()
                    &&& views(resistors@)[index as int].num == 0
                    &&& forall|j: int| 0 <= j < index ==> views(resistors@)[j].num > 0
                },
                Err(CircuitError::EmptyInput) => false,
                Err(CircuitError::Overflow) => all_pos(views(resistors@)) && !sum_rats_fits(
                    views(resistors@),
                ),
            },
    {
        let ghost vs = views(resistors@);
        let n = resistors.len();
        let mut i: usize = 0;
        while i < n
            invariant
                i <= n,
                n == resistors@.len(),
                vs == views(resistors@),
                forall|k: int| 0 <= k < n ==> (#[trigger] resistors@[k]).wf(),
                forall|j: int| 0 <= j < i ==> views(resistors@)[j].num > 0,
            decreases n - i,
        {
            if resistors[i].numer() == 0 {
                return Err(CircuitError::InvalidInput { index: i });
            }
            i += 1;
        }
        let mut acc = Ratio::zero();
        let mut i: usize = 0;
        while i < n
            invariant
                i <= n,
                n == resistors@.len(),
                vs == views(resistors@),
                forall|k: int| 0 <= k < n ==> (#[trigger] resistors@[k]).wf(),
                all_pos(vs),
                acc.wf(),
                acc@ == sum_rats(vs.take(i as int)),
                sum_rats_fits(vs.take(i as int)),
            decreases n - i,
        {
            proof {
                lemma_take_succ(vs, i as int);
            }
            match acc.checked_add(&resistors[i]) {
                Some(v) => {
                    acc = v;
                },
                None => {
                    proof {
                        if sum_rats_fits(vs) {
                            lemma_sum_rats_fits_prefix(vs, i as int + 1);
                        }
                    }
                    return Err(CircuitError::Overflow);
                },
            }
            i += 1;
        }
        proof {
            assert(vs.take(n as int) =~= vs);
        }
        Ok(acc)
    }

    /// Equivalent resistance of resistors connected in parallel: the
    /// reciprocal of the sum of the reciprocals, with the reciprocals
    /// accumulated left to right and a single final reciprocal at the end.
    /// A network with no branches has no equivalent and is rejected, as is a
    /// resistance that is not strictly positive; `Overflow` is reported
    /// exactly when some intermediate exact sum leaves 64 bits.
    pub fn parallel(resistors: Vec<Ratio>) -> (r: Result<Ratio, CircuitError>)
        requires
            forall|i: int| 0 <= i < resistors@.len() ==> (#[trigger] resistors@[i]).wf(),
        ensures
            match r {
                Ok(v) => {
                    &&& resistors@.len() > 0
                    &&& all_pos(views(resistors@))
                    &&& conductance_sum_fits(views(resistors@))
                    &&& v.wf()
                    &&& v@ == parallel_rats(views(resistors@))
                    &&& v@.num > 0
                },
                Err(CircuitError::EmptyInput) => resistors@.len() == 0,
                Err(CircuitError::InvalidInput { index }) => {
                    &&& resistors@.len() > 0
                    &&& index < resistors@.len()
                    &&& views(resistors@)[index as int].num == 0
                    &&& forall|j: int| 0 <= j < index ==> views(resistors@)[j].num > 0
                },
                Err(CircuitError::Overflow) => {
                    &&& resistors@.len() > 0
                    &&& all_pos(views(resistors@))
                    &&& !conductance_sum_fits(views(resistors@))
                },
            },
    {
        let ghost vs = views(resistors@);
        let n = resistors.len();
        if n == 0 {
            return Err(CircuitError::EmptyInput);
        }
        let mut i: usize = 0;
        while i < n
            invariant
                i <= n,
                n == resistors@.len(),
                vs == views(resistors@),
                forall|k: int| 0 <= k < n ==> (#[trigger] resistors@[k]).wf(),
                forall|j: int| 0 <= j < i ==> views(resistors@)[j].num > 0,
            decreases n - i,
        {
            if resistors[i].numer() == 0 {
                return Err(CircuitError::InvalidInput { index: i });
            }
            i += 1;
        }
        let mut acc = Ratio::zero();
        let mut i: usize = 0;
        while i < n
            invariant
                i <= n,
                n == resistors@.len(),
                vs == views(resistors@),
                forall|k: int| 0 <= k < n ==> (#[trigger] resistors@[k]).wf(),
                all_pos(vs),
                acc.wf(),
                acc@ == conductance_sum(vs.take(i as int)),
                conductance_sum_fits(vs.take(i as int)),
            decreases n - i,
        {
            proof {
                lemma_take_succ(vs, i as int);
            }
            let branch = resistors[i].recip();
            match acc.checked_add(&branch) {
                Some(v) => {
                    acc = v;
                },
                None => {
                    proof {
                        if conductance_sum_fits(vs) {
                            lemma_conductance_sum_fits_prefix(vs, i as int + 1);
                        }
                    }
                    return Err(CircuitError::Overflow);
                },
            }
            i += 1;
        }
        proof {
            assert(vs.take(n as int) =~= vs);
            lemma_conductance_sum_pos(vs);
        }
        Ok(acc.recip())
    }
}

/// Putting resistors in parallel always gives a smaller resistor: for every
/// nonempty sequence of strictly positive rationals, the equivalent parallel
/// resistance is at most each branch, in particular at most the smallest.
pub proof fn lemma_parallel_le_min(s: Seq<Rat>)
    requires
        all_pos(s),
        s.len() > 0,
    ensures
        forall|i: int| 0 <= i < s.len() ==> rat_le(parallel_rats(s), #[trigger] s[i]),
{
    lemma_conductance_sum_pos(s);
    let t = conductance_sum(s);
    assert forall|i: int| 0 <= i < s.len() implies rat_le(parallel_rats(s), s[i]) by {
        lemma_inv_le_conductance_sum(s, i);
        assert(t.den * s[i].den == s[i].den * t.den) by (nonlinear_arith);
        assert(s[i].num * t.num == t.num * s[i].num) by (nonlinear_arith);
    }
}

/// A one-branch parallel circuit is just that resistor: for any strictly
/// positive rational `r`, the parallel combination of `[r]` is exactly `r`.
pub proof fn lemma_parallel_singleton(r: Rat)
    requires
        rat_pos(r),
    ensures
        parallel_rats(seq![r]) == r,
{
    let s = seq![r];
    assert(s.drop_last() =~= Seq::<Rat>::empty());
    assert(conductance_sum(Seq::<Rat>::empty()) == rat_zero());
    assert(conductance_sum(s) == rat_add(rat_zero(), rat_inv(r)));
    assert(rat_add(rat_zero(), rat_inv(r)).num == 0 * r.num + r.den * 1);
    assert(parallel_rats(s) == r);
}

/// Permuting the resistors does not change the equivalent series resistance:
/// two sequences with the same multiset of values have exactly the same sum.
pub proof fn lemma_series_permutation(s1: Seq<Rat>, s2: Seq<Rat>)
    requires
        s1.to_multiset() == s2.to_multiset(),
    ensures
        sum_rats(s1) == sum_rats(s2),
{
    lemma_series_step_commutes();
    lemma_sum_rats_is_fold(s1);
    lemma_sum_rats_is_fold(s2);
    lemma_fold_left_permutation(s1, s2, series_step(), rat_zero());
}

/// Permuting the branches does not change the equivalent parallel
/// resistance: two sequences with the same multiset of values have exactly
/// the same parallel combination.
pub proof fn lemma_parallel_permutation(s1: Seq<Rat>, s2: Seq<Rat>)
    requires
        s1.to_multiset() == s2.to_multiset(),
    ensures
        parallel_rats(s1) == parallel_rats(s2),
{
    lemma_conductance_step_commutes();
    lemma_conductance_sum_is_fold(s1);
    lemma_conductance_sum_is_fold(s2);
    lemma_fold_left_permutation(s1, s2, conductance_step(), rat_zero());
}

} // verus!
