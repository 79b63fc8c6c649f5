//! Laws of the disambiguation step and the failure taxonomy.
//!
//! These are the engine's order- and severity-properties, stated over the
//! specification functions that the executable code is proved against.

use vstd::prelude::*;
use vstd::seq_lib::{to_multiset_build, to_multiset_contains, to_multiset_len, to_multiset_remove};

use crate::failure::{spec_noop_max, spec_severity, spec_traceback, spec_was_required, FailureV,
    Noop};
use crate::select::{first_hard, has_hard, is_hard, matches_of, max_noop_of, noop_of,
    spec_choose, spec_conflict_msg, spec_literal};
use crate::values::{Types, TypeId, ValueV};

verus! {

/// Whether any candidate failed with a `Throw`.
pub open spec fn has_throw(rs: Seq<Result<ValueV, FailureV>>) -> bool {
    exists|i: int| 0 <= i < rs.len() && (#[trigger] rs[i]) matches Err(FailureV::Throw(_, _))
}

/// Whether one candidate result passes the literal-match step.
pub open spec fn matched(
    t: Types,
    product: TypeId,
    vv: Option<Seq<char>>,
    r: Result<ValueV, FailureV>,
) -> bool {
    r matches Ok(v) && spec_literal(t, product, v, vv) is Some
}

/// The value the literal-match step selects from a matched candidate.
pub open spec fn match_val(
    t: Types,
    product: TypeId,
    vv: Option<Seq<char>>,
    r: Result<ValueV, FailureV>,
) -> ValueV {
    spec_literal(t, product, r->Ok_0, vv).unwrap()
}

proof fn lemma_matches_remove(
    t: Types,
    product: TypeId,
    vv: Option<Seq<char>>,
    rs: Seq<Result<ValueV, FailureV>>,
    i: int,
)
    requires
        0 <= i < rs.len(),
    ensures
        matches_of(t, product, vv, rs).len() == matches_of(t, product, vv, rs.remove(i)).len()
            + (if matched(t, product, vv, rs[i]) { 1int } else { 0int }),
    decreases rs.len(),
{
    if i == 0 {
        assert(rs.remove(0) =~= rs.drop_first());
    } else {
        assert(rs.remove(i).drop_first() =~= rs.drop_first().remove(i - 1));
        assert(rs.remove(i)[0] == rs[0]);
        lemma_matches_remove(t, product, vv, rs.drop_first(), i - 1);
    }
}

proof fn lemma_max_noop_remove(rs: Seq<Result<ValueV, FailureV>>, i: int)
    requires
        0 <= i < rs.len(),
    ensures
        max_noop_of(rs) == spec_noop_max(noop_of(rs[i]), max_noop_of(rs.remove(i))),
    decreases rs.len(),
{
    if i == 0 {
        assert(rs.remove(0) =~= rs.drop_first());
    } else {
        assert(rs.remove(i).drop_first() =~= rs.drop_first().remove(i - 1));
        assert(rs.remove(i)[0] == rs[0]);
        lemma_max_noop_remove(rs.drop_first(), i - 1);
    }
}

proof fn lemma_matched_exists(
    t: Types,
    product: TypeId,
    vv: Option<Seq<char>>,
    rs: Seq<Result<ValueV, FailureV>>,
)
    requires
        matches_of(t, product, vv, rs).len() > 0,
    ensures
        exists|i: int| 0 <= i < rs.len() && matched(t, product, vv, #[trigger] rs[i]),
    decreases rs.len(),
{
    if rs.len() > 0 {
        if matched(t, product, vv, rs[0]) {
        } else {
            lemma_matched_exists(t, product, vv, rs.drop_first());
            let j = choose|j: int| 0 <= j < rs.drop_first().len()
                && matched(t, product, vv, #[trigger] rs.drop_first()[j]);
            assert(rs.drop_first()[j] == rs[j + 1]);
        }
    }
}

/// When exactly one candidate matches, the selected value is that
/// candidate's.
proof fn lemma_unique_match(
    t: Types,
    product: TypeId,
    vv: Option<Seq<char>>,
    rs: Seq<Result<ValueV, FailureV>>,
    i: int,
)
    requires
        matches_of(t, product, vv, rs).len() == 1,
        0 <= i < rs.len(),
        matched(t, product, vv, rs[i]),
    ensures
        matches_of(t, product, vv, rs) == seq![match_val(t, product, vv, rs[i])],
    decreases rs.len(),
{
    if matched(t, product, vv, rs[0]) {
        assert(matches_of(t, product, vv, rs.drop_first()).len() == 0);
        if i > 0 {
            lemma_matches_remove(t, product, vv, rs.drop_first(), i - 1);
            assert(rs.drop_first()[i - 1] == rs[i]);
            assert(false);
        }
        assert(matches_of(t, product, vv, rs)
            =~= seq![match_val(t, product, vv, rs[0])]);
    } else {
        assert(i > 0);
        assert(rs.drop_first()[i - 1] == rs[i]);
        lemma_unique_match(t, product, vv, rs.drop_first(), i - 1);
    }
}

/// With no `Throw` among the candidates, the first hard failure can only
/// be `Invalidated`.
proof fn lemma_first_hard_inv(rs: Seq<Result<ValueV, FailureV>>)
    requires
        !has_throw(rs),
        has_hard(rs),
    ensures
        first_hard(rs) == Err::<ValueV, FailureV>(FailureV::Invalidated),
    decreases rs.len(),
{
    if rs.len() > 0 {
        if is_hard(rs[0]) {
            assert(!(rs[0] matches Err(FailureV::Throw(_, _))));
        } else {
            assert(!has_throw(rs.drop_first())) by {
                if has_throw(rs.drop_first()) {
                    let j = choose|j: int| 0 <= j < rs.drop_first().len()
                        && (#[trigger] rs.drop_first()[j]) matches Err(FailureV::Throw(_, _));
                    assert(rs[j + 1] == rs.drop_first()[j]);
                }
            }
            assert(has_hard(rs.drop_first())) by {
                let j = choose|j: int| 0 <= j < rs.len() && is_hard(#[trigger] rs[j]);
                assert(j != 0);
                assert(rs.drop_first()[j - 1] == rs[j]);
            }
            lemma_first_hard_inv(rs.drop_first());
        }
    }
}

/// With no `Throw` among the candidates, a hard failure is exactly the
/// presence of the `Invalidated` result.
proof fn lemma_has_hard_contains(rs: Seq<Result<ValueV, FailureV>>)
    requires
        !has_throw(rs),
    ensures
        has_hard(rs) <==> rs.contains(Err::<ValueV, FailureV>(FailureV::Invalidated)),
{
    if has_hard(rs) {
        let j = choose|j: int| 0 <= j < rs.len() && is_hard(#[trigger] rs[j]);
        assert(rs[j] == Err::<ValueV, FailureV>(FailureV::Invalidated));
    }
    if rs.contains(Err::<ValueV, FailureV>(FailureV::Invalidated)) {
        let j = choose|j: int| 0 <= j < rs.len()
            && rs[j] == Err::<ValueV, FailureV>(FailureV::Invalidated);
        assert(is_hard(rs[j]));
    }
}

/// Multiset-equal candidate sequences have the same number of matches and
/// the same most severe noop reason.
proof fn lemma_perm_stats(
    t: Types,
    product: TypeId,
    vv: Option<Seq<char>>,
    rs1: Seq<Result<ValueV, FailureV>>,
    rs2: Seq<Result<ValueV, FailureV>>,
)
    requires
        rs1.to_multiset() == rs2.to_multiset(),
    ensures
        matches_of(t, product, vv, rs1).len() == matches_of(t, product, vv, rs2).len(),
        max_noop_of(rs1) == max_noop_of(rs2),
    decreases rs1.len(),
{
    broadcast use vstd::multiset::group_multiset_axioms;

    if rs1.len() == 0 {
        to_multiset_len(rs1);
        to_multiset_len(rs2);
        assert(rs2.len() == 0);
    } else {
        let x = rs1.last();
        assert(rs1 =~= rs1.drop_last().push(x));
        assert(rs1.contains(x)) by {
            assert(rs1[rs1.len() - 1] == x);
        }
        to_multiset_contains(rs1, x);
        to_multiset_contains(rs2, x);
        assert(rs2.contains(x));
        let j = choose|j: int| 0 <= j < rs2.len() && rs2[j] == x;
        let rs2p = rs2.remove(j);
        assert(rs1.drop_last().to_multiset() =~= rs2p.to_multiset()) by {
            to_multiset_build(rs1.drop_last(), x);
            assert(rs1.to_multiset() == rs1.drop_last().to_multiset().insert(x));
            to_multiset_remove(rs2, j);
            assert(rs2p.to_multiset() == rs2.to_multiset().remove(x));
        }
        lemma_perm_stats(t, product, vv, rs1.drop_last(), rs2p);
        lemma_matches_remove(t, product, vv, rs1, rs1.len() - 1);
        assert(rs1.remove(rs1.len() - 1) =~= rs1.drop_last());
        lemma_matches_remove(t, product, vv, rs2, j);
        lemma_max_noop_remove(rs1, rs1.len() - 1);
        lemma_max_noop_remove(rs2, j);
    }
}

proof fn proof_contains_transfer(
    rs1: Seq<Result<ValueV, FailureV>>,
    rs2: Seq<Result<ValueV, FailureV>>,
    e: Result<ValueV, FailureV>,
)
    requires
        rs1.to_multiset() == rs2.to_multiset(),
        rs1.contains(e),
    ensures
        rs2.contains(e),
{
    to_multiset_contains(rs1, e);
    to_multiset_contains(rs2, e);
}

/// Noop order-independence: permuting the candidate results of a `Select`
/// does not change the outcome of disambiguation, as long as no candidate
/// threw — two candidates that throw distinct errors surface whichever
/// settles first.
pub proof fn lemma_choose_order_independent(
    t: Types,
    product: TypeId,
    vv: Option<Seq<char>>,
    rs1: Seq<Result<ValueV, FailureV>>,
    rs2: Seq<Result<ValueV, FailureV>>,
)
    requires
        rs1.to_multiset() == rs2.to_multiset(),
        !has_throw(rs1),
    ensures
        spec_choose(t, product, vv, rs1) == spec_choose(t, product, vv, rs2),
{
    assert(!has_throw(rs2)) by {
        if has_throw(rs2) {
            let j = choose|j: int| 0 <= j < rs2.len()
                && (#[trigger] rs2[j]) matches Err(FailureV::Throw(_, _));
            assert(rs2.contains(rs2[j]));
            to_multiset_contains(rs2, rs2[j]);
            to_multiset_contains(rs1, rs2[j]);
            assert(rs1.contains(rs2[j]));
            let i = choose|i: int| 0 <= i < rs1.len() && rs1[i] == rs2[j];
        }
    }
    lemma_has_hard_contains(rs1);
    lemma_has_hard_contains(rs2);
    lemma_perm_stats(t, product, vv, rs1, rs2);
    if has_hard(rs1) {
        assert(rs1.contains(Err::<ValueV, FailureV>(FailureV::Invalidated)));
        proof_contains_transfer(rs1, rs2, Err::<ValueV, FailureV>(FailureV::Invalidated));
        assert(rs2.contains(Err::<ValueV, FailureV>(FailureV::Invalidated)));
        lemma_first_hard_inv(rs1);
        lemma_first_hard_inv(rs2);
    } else {
        assert(!has_hard(rs2)) by {
            if has_hard(rs2) {
                proof_contains_transfer(rs2, rs1, Err::<ValueV, FailureV>(
                    FailureV::Invalidated,
                ));
            }
        }
        let n = matches_of(t, product, vv, rs1).len();
        if n == 1 {
            lemma_matched_exists(t, product, vv, rs1);
            let i = choose|i: int| 0 <= i < rs1.len()
                && matched(t, product, vv, #[trigger] rs1[i]);
            assert(rs1.contains(rs1[i]));
            proof_contains_transfer(rs1, rs2, rs1[i]);
            assert(rs2.contains(rs1[i]));
            let j = choose|j: int| 0 <= j < rs2.len() && rs2[j] == rs1[i];
            lemma_unique_match(t, product, vv, rs1, i);
            lemma_unique_match(t, product, vv, rs2, j);
        }
    }
}

/// Severity monotonicity: the most severe noop reason among the candidates
/// bounds every candidate's reason, and is itself a candidate's reason
/// unless every candidate was reasonless (then it is the least reason,
/// `NoTask`).
pub proof fn lemma_max_noop_correct(rs: Seq<Result<ValueV, FailureV>>)
    ensures
        forall|i: int| 0 <= i < rs.len()
            ==> spec_severity(noop_of(#[trigger] rs[i])) <= spec_severity(max_noop_of(rs)),
        max_noop_of(rs) == Noop::NoTask || exists|i: int| 0 <= i < rs.len()
            && noop_of(#[trigger] rs[i]) == max_noop_of(rs),
    decreases rs.len(),
{
    if rs.len() > 0 {
        lemma_max_noop_correct(rs.drop_first());
        assert forall|i: int| 0 <= i < rs.len()
            implies spec_severity(noop_of(#[trigger] rs[i]))
                <= spec_severity(max_noop_of(rs)) by {
            if i > 0 {
                assert(rs.drop_first()[i - 1] == rs[i]);
            }
        }
        if max_noop_of(rs) != Noop::NoTask {
            if max_noop_of(rs) == noop_of(rs[0]) {
            } else {
                assert(max_noop_of(rs) == max_noop_of(rs.drop_first()));
                let j = choose|j: int| 0 <= j < rs.drop_first().len()
                    && noop_of(#[trigger] rs.drop_first()[j]) == max_noop_of(rs.drop_first());
                assert(rs[j + 1] == rs.drop_first()[j]);
            }
        }
    }
}

/// Severity monotonicity at the outcome: when every candidate fails softly
/// and none matches, the `Select` reports a noop whose reason is the
/// maximum of the candidates' reasons under `NoTask < NoVariant < Cycle`.
pub proof fn lemma_severity_monotonic(
    t: Types,
    product: TypeId,
    vv: Option<Seq<char>>,
    rs: Seq<Result<ValueV, FailureV>>,
)
    requires
        !has_hard(rs),
        matches_of(t, product, vv, rs).len() == 0,
    ensures
        spec_choose(t, product, vv, rs) == Err::<ValueV, FailureV>(
            FailureV::Noop(max_noop_of(rs)),
        ),
        forall|i: int| 0 <= i < rs.len()
            ==> spec_severity(noop_of(#[trigger] rs[i])) <= spec_severity(max_noop_of(rs)),
        max_noop_of(rs) == Noop::NoTask || exists|i: int| 0 <= i < rs.len()
            && noop_of(#[trigger] rs[i]) == max_noop_of(rs),
{
    lemma_max_noop_correct(rs);
}

/// Conflict detection: two or more candidates whose values satisfy the
/// product make the `Select` fail hard with the conflict error.
pub proof fn lemma_conflict_detection(
    t: Types,
    product: TypeId,
    vv: Option<Seq<char>>,
    rs: Seq<Result<ValueV, FailureV>>,
)
    requires
        !has_hard(rs),
        matches_of(t, product, vv, rs).len() >= 2,
    ensures
        spec_choose(t, product, vv, rs) == Err::<ValueV, FailureV>(FailureV::Throw(
            ValueV::StrV(spec_conflict_msg()),
            spec_traceback(),
        )),
{
}

/// Memoization: in any well-formed store state — the state every engine
/// operation preserves — the work log holds each node key at most once:
/// work for a node is never issued twice.
pub proof fn lemma_work_at_most_once(g: crate::context::GraphV)
    requires
        crate::context::wf_graph(g),
    ensures
        forall|i: int, j: int| #![all_triggers] 0 <= i < j < g.log.len()
            ==> g.log[i] != g.log[j],
{
}

/// Required-conversion: a noop observed at a required boundary (a task's
/// clause, or a generator's request) becomes a `Throw` naming the missing
/// dependency; hard failures pass through unchanged.
pub proof fn lemma_required_conversion(f: FailureV)
    ensures
        f is Noop ==> spec_was_required(f) is Throw,
        !(f is Noop) ==> spec_was_required(f) == f,
        !(spec_was_required(f) is Noop),
{
}

} // verus!
