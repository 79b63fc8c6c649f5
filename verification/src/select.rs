//! The `Select` node: resolving one typed product request for a subject.
//!
//! A `Select` can be satisfied by several sources, but fails if more than one
//! produces a value. The algorithm: check the configured variant, try the
//! subject itself (is-a / has-a), then dispatch across the candidate rule
//! entries and disambiguate their settled results.

use vstd::prelude::*;

use crate::failure::{failure_clone, failure_view, spec_traceback, throw, Failure, FailureV,
    spec_noop_max, Noop, noop_max};
use crate::rules::{spec_entries_for, EntryId, RuleEdges, RuleEntryV, RuleGraph};
use crate::selectors;
use crate::selectors::{SelectV, Variants};
use crate::values::{spec_project_multi, spec_project_str, spec_satisfies, value_clone,
    value_view, values_view, group_view_lemmas, Key, TypeId, Types, Value, ValueV};

verus! {

/// A node that selects a product for a subject: the subject, the variant
/// configuration propagated to dependencies, the selector describing the
/// request, and the candidate rule entries that may answer it.
#[derive(Debug, PartialEq, Eq)]
pub struct Select {
    pub subject: Key,
    pub variants: Variants,
    pub selector: selectors::Select,
    pub entries: Vec<EntryId>,
}

/// Mathematical view of a `Select` node.
pub struct SelectNodeV {
    pub subject: Key,
    pub variants: Seq<(Seq<char>, Seq<char>)>,
    pub selector: SelectV,
    pub entries: Seq<EntryId>,
}

impl DeepView for Select {
    type V = SelectNodeV;

    open spec fn deep_view(&self) -> SelectNodeV {
        SelectNodeV {
            subject: self.subject,
            variants: self.variants.deep_view(),
            selector: self.selector.deep_view(),
            entries: self.entries@,
        }
    }
}

/// The candidate entries of `ids` whose subject type is `subject_type`,
/// in order; ids out of the graph's range are dropped.
pub open spec fn spec_filter_subject_type(
    entries: Seq<RuleEntryV>,
    ids: Seq<EntryId>,
    subject_type: TypeId,
) -> Seq<EntryId>
    decreases ids.len(),
{
    if ids.len() == 0 {
        Seq::empty()
    } else {
        let rest = spec_filter_subject_type(entries, ids.drop_first(), subject_type);
        if ids[0] < entries.len() && entries[ids[0] as int].subject_type == subject_type {
            seq![ids[0]] + rest
        } else {
            rest
        }
    }
}

impl Select {
    /// A `Select` for a product with no variant restriction, with the
    /// candidates the given edges offer for it.
    pub fn new(product: TypeId, subject: Key, variants: Variants, edges: &RuleEdges) -> (r: Select)
        ensures
            r.deep_view() == (SelectNodeV {
                subject,
                variants: variants.deep_view(),
                selector: SelectV { product, variant_key: None },
                entries: spec_entries_for(
                    edges.deep_view().select_edges,
                    SelectV { product, variant_key: None },
                ),
            }),
    {
        let selector = selectors::Select::without_variant(product);
        let entries = edges.entries_for(&selector);
        Select { subject, variants, selector, entries }
    }

    /// A `Select` for a product with an explicit candidate list.
    pub fn new_with_entries(
        product: TypeId,
        subject: Key,
        variants: Variants,
        entries: Vec<EntryId>,
    ) -> (r: Select)
        ensures
            r.deep_view() == (SelectNodeV {
                subject,
                variants: variants.deep_view(),
                selector: SelectV { product, variant_key: None },
                entries: entries@,
            }),
    {
        let selector = selectors::Select::without_variant(product);
        Select { subject, variants, selector, entries }
    }

    /// A `Select` for a full selector: the candidates the edges offer for
    /// it, restricted to those that can apply to the subject's type.
    #[verifier::loop_isolation(false)]
    pub fn new_with_selector(
        graph: &RuleGraph,
        selector: selectors::Select,
        subject: Key,
        variants: Variants,
        edges: &RuleEdges,
    ) -> (r: Select)
        ensures
            r.deep_view() == (SelectNodeV {
                subject,
                variants: variants.deep_view(),
                selector: selector.deep_view(),
                entries: spec_filter_subject_type(
                    graph.entries.deep_view(),
                    spec_entries_for(edges.deep_view().select_edges, selector.deep_view()),
                    subject.type_id,
                ),
            }),
    {
        let all = edges.entries_for(&selector);
        let ghost gv = graph.entries.deep_view();
        let mut entries: Vec<EntryId> = Vec::new();
        let mut i: usize = 0;
        proof {
            assert(all@.skip(0) =~= all@);
            assert(entries@ + spec_filter_subject_type(gv, all@, subject.type_id)
                =~= spec_filter_subject_type(gv, all@, subject.type_id));
        }
        while i < all.len()
            invariant
                i <= all.len(),
                spec_filter_subject_type(gv, all@, subject.type_id) == entries@
                    + spec_filter_subject_type(gv, all@.skip(i as int), subject.type_id),
            decreases all.len() - i,
        {
            proof {
                assert(all@.skip(i as int)[0] == all@[i as int]);
                assert(all@.skip(i as int).drop_first() =~= all@.skip(i as int + 1));
            }
            let id = all[i];
            let ghost epre = entries@;
            let keep = match graph.entry_for(id) {
                Some(e) => e.subject_type == subject.type_id,
                None => false,
            };
            if keep {
                entries.push(id);
            }
            proof {
                let rest = spec_filter_subject_type(gv, all@.skip(i as int + 1),
                    subject.type_id);
                if keep {
                    assert(epre + (seq![id] + rest) =~= entries@ + rest);
                } else {
                    assert(epre + rest =~= entries@ + rest);
                }
            }
            i = i + 1;
        }
        proof {
            assert(all@.skip(all@.len() as int).len() == 0);
            assert(entries@ =~= spec_filter_subject_type(gv, all@, subject.type_id));
        }
        Select { subject, variants, selector, entries }
    }

    /// The requested product type.
    pub fn product(&self) -> (r: TypeId)
        ensures
            r == self.selector.product,
    {
        self.selector.product
    }

    /// Whether one candidate value is usable for this request: it satisfies
    /// the product and, if a variant value is required, its `name` attribute
    /// matches it.
    pub fn select_literal_single(
        &self,
        types: &Types,
        candidate: &Value,
        variant_value: &Option<String>,
    ) -> (r: bool)
        ensures
            r == spec_literal_single(
                *types,
                self.selector.product,
                value_view(*candidate),
                variant_value.deep_view(),
            ),
    {
        if !crate::values::satisfies(types, self.selector.product, candidate) {
            return false;
        }
        match variant_value {
            Some(vv) => match crate::values::project_str(candidate, "name") {
                Some(n) => *n == *vv,
                None => false,
            },
            None => true,
        }
    }

    /// Looks for is-a or has-a relationships between a candidate value and
    /// the requested product; returns the product value, or `None` if no
    /// match was made.
    #[verifier::loop_isolation(false)]
    pub fn select_literal(
        &self,
        types: &Types,
        candidate: Value,
        variant_value: &Option<String>,
    ) -> (r: Option<Value>)
        ensures
            match r {
                Some(v) => spec_literal(
                    *types,
                    self.selector.product,
                    value_view(candidate),
                    variant_value.deep_view(),
                ) == Some(value_view(v)),
                None => spec_literal(
                    *types,
                    self.selector.product,
                    value_view(candidate),
                    variant_value.deep_view(),
                ) is None,
            },
    {
        broadcast use group_view_lemmas;

        if self.select_literal_single(types, &candidate, variant_value) {
            return Some(candidate);
        }
        if crate::values::satisfies(types, types.has_products, &candidate) {
            match crate::values::project_multi(&candidate, "products") {
                Some(children) => {
                    let ghost cv = values_view(children@);
                    let mut i: usize = 0;
                    proof {
                        assert(cv.skip(0) =~= cv);
                    }
                    while i < children.len()
                        invariant
                            i <= children.len(),
                            spec_first_match(*types, self.selector.product, cv,
                                variant_value.deep_view())
                                == spec_first_match(*types, self.selector.product,
                                    cv.skip(i as int), variant_value.deep_view()),
                        decreases children.len() - i,
                    {
                        proof {
                            assert(cv.skip(i as int)[0] == cv[i as int]);
                            assert(cv.skip(i as int).drop_first() =~= cv.skip(i as int + 1));
                        }
                        if self.select_literal_single(types, &children[i], variant_value) {
                            return Some(value_clone(&children[i]));
                        }
                        i = i + 1;
                    }
                    proof {
                        assert(cv.skip(cv.len() as int).len() == 0);
                    }
                    None
                },
                None => None,
            }
        } else {
            None
        }
    }
}

impl Select {
    /// Given the settled results of the configured candidate nodes, select
    /// a single successful value, or fail: hard failures propagate, noops
    /// are absorbed at their highest severity, and two usable successes are
    /// a conflict.
    #[verifier::loop_isolation(false)]
    pub fn choose_task_result(
        &self,
        types: &Types,
        results: Vec<Result<Value, Failure>>,
        variant_value: &Option<String>,
    ) -> (r: Result<Value, Failure>)
        ensures
            result_view(r) == spec_choose(
                *types,
                self.selector.product,
                variant_value.deep_view(),
                results_view(results@),
            ),
    {
        broadcast use group_view_lemmas;

        let ghost rv = results_view(results@);
        let ghost t = *types;
        let ghost prod = self.selector.product;
        let ghost vvv = variant_value.deep_view();
        let mut matches: Vec<Value> = Vec::new();
        let mut max_noop: Noop = Noop::NoTask;
        let mut i: usize = 0;
        proof {
            assert(rv.skip(0) =~= rv);
            assert(values_view(matches@) + matches_of(t, prod, vvv, rv)
                =~= matches_of(t, prod, vvv, rv));
        }
        while i < results.len()
            invariant
                i <= results.len(),
                rv.len() == results@.len(),
                forall|j: int| 0 <= j < i ==> !is_hard(rv[j]),
                has_hard(rv) == has_hard(rv.skip(i as int)),
                has_hard(rv) ==> first_hard(rv) == first_hard(rv.skip(i as int)),
                matches_of(t, prod, vvv, rv) == values_view(matches@)
                    + matches_of(t, prod, vvv, rv.skip(i as int)),
                max_noop_of(rv) == spec_noop_max(max_noop, max_noop_of(rv.skip(i as int))),
            decreases results.len() - i,
        {
            proof {
                assert(rv.skip(i as int)[0] == rv[i as int]);
                assert(rv.skip(i as int).drop_first() =~= rv.skip(i as int + 1));
                assert(rv[i as int] == result_view(results@[i as int]));
            }
            match &results[i] {
                Ok(value) => {
                    let ghost mpre = matches@;
                    match self.select_literal(types, value_clone(value), variant_value) {
                        Some(v) => {
                            let ghost wv = value_view(v);
                            matches.push(v);
                            proof {
                                assert(values_view(matches@)
                                    =~= values_view(mpre).push(wv));
                                let rest = matches_of(t, prod, vvv, rv.skip(i as int + 1));
                                assert(values_view(mpre) + (seq![wv] + rest)
                                    =~= values_view(matches@) + rest);
                            }
                        },
                        None => {},
                    }
                },
                Err(f) => {
                    match f {
                        Failure::Noop(noop) => {
                            max_noop = noop_max(max_noop, *noop);
                        },
                        _ => {
                            proof {
                                assert(is_hard(rv[i as int]));
                                assert(first_hard(rv.skip(i as int)) == rv[i as int]);
                            }
                            return Err(failure_clone(f));
                        },
                    }
                },
            }
            proof {
                let si = rv.skip(i as int);
                let si1 = rv.skip(i as int + 1);
                assert(forall|j: int| 0 <= j < si1.len() ==> si1[j] == #[trigger] si[j + 1]);
                if has_hard(si1) {
                    let j = choose|j: int| 0 <= j < si1.len() && is_hard(si1[j]);
                    assert(is_hard(si[j + 1]));
                    assert(has_hard(si));
                }
                if has_hard(si) {
                    let j = choose|j: int| 0 <= j < si.len() && is_hard(si[j]);
                    assert(j != 0);
                    assert(is_hard(si1[j - 1]));
                    assert(has_hard(si1));
                }
            }
            i = i + 1;
        }
        proof {
            assert(rv.skip(rv.len() as int).len() == 0);
            assert(values_view(matches@) + matches_of(t, prod, vvv, rv.skip(rv.len() as int))
                =~= values_view(matches@));
        }
        if matches.len() > 1 {
            return Err(throw("Conflicting values produced for subject and type."));
        }
        match matches.pop() {
            Some(matched) => Ok(matched),
            None => Err(Failure::Noop(max_noop)),
        }
    }
}

/// Mathematical view of a candidate result.
pub open spec fn result_view(r: Result<Value, Failure>) -> Result<ValueV, FailureV> {
    match r {
        Ok(v) => Ok(value_view(v)),
        Err(f) => Err(failure_view(f)),
    }
}

/// Elementwise view of a sequence of candidate results.
pub open spec fn results_view(rs: Seq<Result<Value, Failure>>) -> Seq<Result<ValueV, FailureV>> {
    Seq::new(rs.len(), |i: int| result_view(rs[i]))
}

/// A hard failure: a `Throw` or an `Invalidated`, which no noop outranks.
pub open spec fn is_hard(r: Result<ValueV, FailureV>) -> bool {
    match r {
        Err(FailureV::Throw(_, _)) => true,
        Err(FailureV::Invalidated) => true,
        _ => false,
    }
}

/// Whether any candidate failed hard.
pub open spec fn has_hard(rs: Seq<Result<ValueV, FailureV>>) -> bool {
    exists|i: int| 0 <= i < rs.len() && is_hard(rs[i])
}

/// The first hard failure among the candidates.
pub open spec fn first_hard(rs: Seq<Result<ValueV, FailureV>>) -> Result<ValueV, FailureV>
    decreases rs.len(),
{
    if rs.len() == 0 {
        Err(FailureV::Invalidated)
    } else if is_hard(rs[0]) {
        rs[0]
    } else {
        first_hard(rs.drop_first())
    }
}

/// The noop reason a candidate contributes; anything else counts as the
/// least severe reason.
pub open spec fn noop_of(r: Result<ValueV, FailureV>) -> Noop {
    match r {
        Err(FailureV::Noop(n)) => n,
        _ => Noop::NoTask,
    }
}

/// The most severe noop reason among the candidates.
pub open spec fn max_noop_of(rs: Seq<Result<ValueV, FailureV>>) -> Noop
    decreases rs.len(),
{
    if rs.len() == 0 {
        Noop::NoTask
    } else {
        spec_noop_max(noop_of(rs[0]), max_noop_of(rs.drop_first()))
    }
}

/// The successes whose literal-match step succeeds, in order, as the values
/// the literal match selected.
pub open spec fn matches_of(
    t: Types,
    product: TypeId,
    vv: Option<Seq<char>>,
    rs: Seq<Result<ValueV, FailureV>>,
) -> Seq<ValueV>
    decreases rs.len(),
{
    if rs.len() == 0 {
        Seq::empty()
    } else {
        let rest = matches_of(t, product, vv, rs.drop_first());
        match rs[0] {
            Ok(v) => match spec_literal(t, product, v, vv) {
                Some(m) => seq![m] + rest,
                None => rest,
            },
            Err(_) => rest,
        }
    }
}

/// The message of the conflict error.
pub open spec fn spec_conflict_msg() -> Seq<char> {
    "Conflicting values produced for subject and type."@
}

/// What disambiguation returns for settled candidate results: the first
/// hard failure if any; else a conflict when two or more candidates match,
/// the unique match when exactly one does, and the most severe noop when
/// none does.
pub open spec fn spec_choose(
    t: Types,
    product: TypeId,
    vv: Option<Seq<char>>,
    rs: Seq<Result<ValueV, FailureV>>,
) -> Result<ValueV, FailureV> {
    if has_hard(rs) {
        first_hard(rs)
    } else {
        let ms = matches_of(t, product, vv, rs);
        if ms.len() > 1 {
            Err(FailureV::Throw(ValueV::StrV(spec_conflict_msg()), spec_traceback()))
        } else if ms.len() == 1 {
            Ok(ms[0])
        } else {
            Err(FailureV::Noop(max_noop_of(rs)))
        }
    }
}

/// Whether a candidate satisfies the product and the required variant.
pub open spec fn spec_literal_single(
    t: Types,
    product: TypeId,
    cand: ValueV,
    vv: Option<Seq<char>>,
) -> bool {
    spec_satisfies(t, product, cand) && match vv {
        Some(v) => spec_project_str(cand, "name"@) == Some(v),
        None => true,
    }
}

/// First child satisfying the product and variant, if any.
pub open spec fn spec_first_match(
    t: Types,
    product: TypeId,
    children: Seq<ValueV>,
    vv: Option<Seq<char>>,
) -> Option<ValueV>
    decreases children.len(),
{
    if children.len() == 0 {
        None
    } else if spec_literal_single(t, product, children[0], vv) {
        Some(children[0])
    } else {
        spec_first_match(t, product, children.drop_first(), vv)
    }
}

/// The is-a / has-a literal match: the candidate itself if it is usable,
/// else the first usable entry of its `products` attribute.
pub open spec fn spec_literal(
    t: Types,
    product: TypeId,
    cand: ValueV,
    vv: Option<Seq<char>>,
) -> Option<ValueV> {
    if spec_literal_single(t, product, cand, vv) {
        Some(cand)
    } else if spec_satisfies(t, t.has_products, cand) {
        match spec_project_multi(cand, "products"@) {
            Some(children) => spec_first_match(t, product, children, vv),
            None => None,
        }
    } else {
        None
    }
}

} // verus!
