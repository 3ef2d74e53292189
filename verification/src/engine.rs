//! Threading whole operator terms (ordered products of elementary
//! operators) through Slater determinants, and enumerating every
//! contribution an operator makes when applied to a set of source
//! determinants.

use vstd::prelude::*;
use crate::determinant::AC;
use crate::determinant::Slater;
use crate::determinant::ac_pos;
use crate::determinant::elem_result;
use crate::determinant::occ;
use crate::determinant::result_model;
use crate::determinant::sign_below;
use crate::determinant::lemma_count_below_agree;
use crate::determinant::lemma_set_bit;

verus! {

/// What threading a whole term through the determinant with bit
/// pattern `d` yields. The elementary operators act right-to-left: the
/// last written operator acts first (the physics convention for a
/// product adjacent to the state vector). Phases multiply along the
/// chain; one null step makes the whole chain the null result.
pub open spec fn term_result(d: u64, ops: Seq<AC>) -> Option<(int, u64)>
    decreases ops.len(),
{
    if ops.len() == 0 {
        Some((1int, d))
    } else {
        match elem_result(d, ops.last()) {
            None => None,
            Some((s, nd)) => match term_result(nd, ops.drop_last()) {
                None => None,
                Some((s2, fd)) => Some((s * s2, fd)),
            },
        }
    }
}

/// Every position a term's elementary operators act on lies below the
/// bit width of the determinant word.
pub open spec fn term_wf(ops: Seq<AC>) -> bool {
    forall|k: int| 0 <= k < ops.len() ==> ac_pos(ops[k]) < 64
}

impl Slater {
    /// Applies a whole term to this determinant, the last written
    /// elementary operator first: `None` when some step along the
    /// chain is the physical null result, otherwise the accumulated
    /// phase and the final determinant, exactly as `term_result`
    /// describes them.
    pub fn apply_term(&self, ops: &Vec<AC>) -> (r: Option<(i32, Self)>)
        requires
            term_wf(ops@),
        ensures
            result_model(r) == term_result(self.index, ops@),
    {
        let mut sign: i32 = 1;
        let mut cur: Slater = *self;
        let mut k: usize = ops.len();
        proof {
            assert(ops@.take(ops@.len() as int) =~= ops@);
        }
        while k > 0
            invariant
                k <= ops@.len(),
                term_wf(ops@),
                sign == 1i32 || sign == -1i32,
                term_result(self.index, ops@) == (match term_result(
                    cur.index,
                    ops@.take(k as int),
                ) {
                    None => None::<(int, u64)>,
                    Some((s, fd)) => Some((sign as int * s, fd)),
                }),
            decreases k,
        {
            let idx = k - 1;
            proof {
                assert(ops@.take(k as int).drop_last() =~= ops@.take(idx as int));
                assert(ops@.take(k as int).last() == ops@[idx as int]);
            }
            match cur.apply(&ops[idx]) {
                None => {
                    return None;
                },
                Some((s, nd)) => {
                    proof {
                        let a = sign as int;
                        let b = s as int;
                        assert(b == 1 || b == -1);
                        let tr = term_result(nd.index, ops@.take(idx as int));
                        if let Some((s2, _fd)) = tr {
                            assert(a * (b * s2) == (a * b) * s2) by (nonlinear_arith);
                        }
                    }
                    sign = sign * s;
                    cur = nd;
                    k = idx;
                },
            }
        }
        proof {
            assert(ops@.take(0) =~= Seq::<AC>::empty());
        }
        Some((sign, cur))
    }
}

/// One successful path through the apply engine: threading term number
/// `term` of an operator through source determinant number `source`
/// reached the determinant `det` with accumulated phase `sign`.
#[derive(Clone, Copy, Debug, PartialEq, Eq, Structural)]
pub struct Contribution {
    /// Position of the term in the operator's term list.
    pub term: usize,
    /// Position of the source determinant in the source list.
    pub source: usize,
    /// The accumulated fermionic phase of the chain, +1 or -1.
    pub sign: i32,
    /// The determinant the chain ended on.
    pub det: Slater,
}

/// A contribution record is faithful to the given terms and sources:
/// its indices are in range and threading that term through that
/// source yields exactly the recorded phase and determinant.
pub open spec fn contribution_matches(
    c: Contribution,
    sources: Seq<Slater>,
    terms: Seq<Vec<AC>>,
) -> bool {
    &&& (c.term as int) < terms.len()
    &&& (c.source as int) < sources.len()
    &&& term_result(sources[c.source as int].index, terms[c.term as int]@) == Some(
        (c.sign as int, c.det.index),
    )
}

/// Enumerates every contribution an operator's terms make when applied
/// to the given source determinants: one record for each (term,
/// source) pair whose chain of elementary operators succeeds, each
/// such pair exactly once, and no other records. Summing the records'
/// weighted amplitudes per output determinant is all that is left of
/// applying the operator to a superposition over the sources.
pub fn contributions(sources: &Vec<Slater>, terms: &Vec<Vec<AC>>) -> (r: Vec<Contribution>)
    requires
        forall|t: int| 0 <= t < terms@.len() ==> term_wf(#[trigger] terms@[t]@),
    ensures
        forall|m: int|
            0 <= m < r@.len() ==> contribution_matches(#[trigger] r@[m], sources@, terms@),
        forall|t: int, s: int|
            0 <= t < terms@.len() && 0 <= s < sources@.len() && (#[trigger] term_result(
                sources@[s].index,
                terms@[t]@,
            )) is Some ==> exists|m: int|
                0 <= m < r@.len() && (#[trigger] r@[m]).term as int == t && r@[m].source as int
                    == s,
        forall|m1: int, m2: int|
            0 <= m1 < m2 < r@.len() ==> !((#[trigger] r@[m1]).term == (#[trigger] r@[m2]).term
                && r@[m1].source == r@[m2].source),
{
    let mut r: Vec<Contribution> = Vec::new();
    let mut t: usize = 0;
    while t < terms.len()
        invariant
            t <= terms@.len(),
            forall|t2: int| 0 <= t2 < terms@.len() ==> term_wf(#[trigger] terms@[t2]@),
            forall|m: int|
                0 <= m < r@.len() ==> contribution_matches(#[trigger] r@[m], sources@, terms@),
            forall|t2: int, s2: int|
                0 <= t2 < t && 0 <= s2 < sources@.len() && (#[trigger] term_result(
                    sources@[s2].index,
                    terms@[t2]@,
                )) is Some ==> exists|m: int|
                    0 <= m < r@.len() && (#[trigger] r@[m]).term as int == t2 && r@[m].source
                        as int == s2,
            forall|m: int| 0 <= m < r@.len() ==> ((#[trigger] r@[m]).term as int) < t,
            forall|m1: int, m2: int|
                0 <= m1 < m2 < r@.len() ==> !((#[trigger] r@[m1]).term == (#[trigger] r@[m2]).term
                    && r@[m1].source == r@[m2].source),
        decreases terms@.len() - t,
    {
        let mut s: usize = 0;
        while s < sources.len()
            invariant
                t < terms@.len(),
                s <= sources@.len(),
                forall|t2: int| 0 <= t2 < terms@.len() ==> term_wf(#[trigger] terms@[t2]@),
                forall|m: int|
                    0 <= m < r@.len() ==> contribution_matches(#[trigger] r@[m], sources@, terms@),
                forall|t2: int, s2: int|
                    0 <= t2 < terms@.len() && 0 <= s2 < sources@.len() && (t2 < t || (t2 == t && s2
                        < s)) && (#[trigger] term_result(
                        sources@[s2].index,
                        terms@[t2]@,
                    )) is Some ==> exists|m: int|
                        0 <= m < r@.len() && (#[trigger] r@[m]).term as int == t2 && r@[m].source
                            as int == s2,
                forall|m: int|
                    0 <= m < r@.len() ==> ((#[trigger] r@[m]).term as int) < t || (r@[m].term
                        as int == t && (r@[m].source as int) < s),
                forall|m1: int, m2: int|
                    0 <= m1 < m2 < r@.len() ==> !((#[trigger] r@[m1]).term == (
                    #[trigger] r@[m2]).term && r@[m1].source == r@[m2].source),
            decreases sources@.len() - s,
        {
            let ghost prev = r@;
            match sources[s].apply_term(&terms[t]) {
                Some((sg, d)) => {
                    let c = Contribution { term: t, source: s, sign: sg, det: d };
                    r.push(c);
                    proof {
                        assert(r@ == prev.push(c));
                        assert(r@[prev.len() as int] == c);
                        assert(forall|m: int| 0 <= m < prev.len() ==> r@[m] == prev[m]);
                        assert forall|t2: int, s2: int|
                            0 <= t2 < terms@.len() && 0 <= s2 < sources@.len() && (t2 < t || (t2
                                == t && s2 < s + 1)) && (#[trigger] term_result(
                                sources@[s2].index,
                                terms@[t2]@,
                            )) is Some implies exists|m: int|
                            0 <= m < r@.len() && (#[trigger] r@[m]).term as int == t2
                                && r@[m].source as int == s2 by {
                            if t2 == t && s2 == s as int {
                                assert(r@[prev.len() as int].term as int == t2 && r@[prev.len()
                                    as int].source as int == s2);
                            } else {
                                let m = choose|m: int|
                                    0 <= m < prev.len() && (#[trigger] prev[m]).term as int == t2
                                        && prev[m].source as int == s2;
                                assert(r@[m].term as int == t2 && r@[m].source as int == s2);
                            }
                        }
                    }
                },
                None => {
                },
            }
            s = s + 1;
        }
        t = t + 1;
    }
    r
}

/// Creating a particle at an unoccupied position and then immediately
/// annihilating it again restores the original determinant, and the
/// two fermionic phases cancel to a net +1. The term is written in
/// physics order, so the creation (rightmost) acts first.
pub proof fn lemma_create_annihilate_cancel(d: u64, j: u64)
    requires
        j < 64,
        !occ(d, j),
    ensures
        term_result(d, seq![AC::Annihilate(j), AC::Create(j)]) == Some((1int, d)),
{
    let ops = seq![AC::Annihilate(j), AC::Create(j)];
    let d2 = d | (1u64 << j);
    assert(ops.last() == AC::Create(j));
    assert(ops.drop_last() =~= seq![AC::Annihilate(j)]);
    assert(seq![AC::Annihilate(j)].drop_last() =~= Seq::<AC>::empty());
    assert(occ(d2, j) && (d2 & !(1u64 << j)) == d) by (bit_vector)
        requires
            j < 64,
            d & (1u64 << j) == 0,
            d2 == d | (1u64 << j),
    ;
    assert forall|i: u64| i < j implies occ(d, i) == occ(d2, i) by {
        lemma_set_bit(d, j, i);
    }
    lemma_count_below_agree(d, d2, j);
    let sg = sign_below(d, j);
    assert(sign_below(d2, j) == sg);
    assert(elem_result(d, AC::Create(j)) == Some((sg, d2)));
    assert(elem_result(d2, AC::Annihilate(j)) == Some((sg, d)));
    assert(term_result(d, Seq::<AC>::empty()) == Some((1int, d)));
    assert(term_result(d2, seq![AC::Annihilate(j)]) == Some((sg * 1, d)));
    assert(term_result(d, ops) == Some((sg * (sg * 1), d)));
    assert(sg * (sg * 1) == 1) by {
        if sg == 1 {
        } else {
            assert(sg == -1);
        }
    }
}

/// The empty product of elementary operators is the identity: applied
/// to any determinant it returns that determinant with phase +1, so an
/// operator made of one such term with unit weight maps every
/// superposition to itself.
pub proof fn lemma_identity_term(d: u64)
    ensures
        term_result(d, Seq::<AC>::empty()) == Some((1int, d)),
{
}

} // verus!
