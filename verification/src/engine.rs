//! The demand-driven evaluator: `get` runs a node through the memoizing
//! graph store, and each node kind's `run` computes its result, demanding
//! dependent nodes through the same `get`.
//!
//! The store guarantees run-once-or-return-cached behaviour: a second
//! request for a memoized key returns the cached outcome and performs no
//! work at all, and a key that is requested while already in flight is a
//! cycle and reports `Noop(Cycle)`. Every evaluation carries a fuel budget
//! that bounds recursion depth; exhausting it is a hard error.

use vstd::prelude::*;

use crate::context::{evolves, in_keys, lemma_evolves_refl, lemma_evolves_trans, memo_has,
    memo_lookup, node_outcome_clone, node_outcome_view, sound_memo, spec_core_wf,
    spec_expansion_for, spec_leaf_outcome, Core, GlobExpansion, Graph, wf_graph};
use crate::failure::{throw, Failure, FailureV, Noop};
use crate::nodes::{node_key_clone, node_key_view, NodeKey, NodeKeyV, NodeResult, NodeResultV};
use crate::process::ProcessResult;
use crate::values::{bytes_clone, value_view, Value};
use crate::vfs::{wf_digest, PathStat};
use crate::select::spec_choose;
use crate::snapshot::SnapshotData;

verus! {

/// If the environment is well formed, any expansion found in it carries a
/// well-formed digest.
proof fn lemma_expansion_wf(s: Seq<GlobExpansion>, g: crate::snapshot::PathGlobsV)
    requires
        forall|i: int| 0 <= i < s.len() ==> wf_digest(#[trigger] s[i].digest.deep_view()),
        spec_expansion_for(s, g) is Some,
    ensures
        wf_digest(spec_expansion_for(s, g).unwrap().digest.deep_view()),
    decreases s.len(),
{
    if s.len() > 0 && !(s[0].globs.deep_view() == g) {
        assert(forall|i: int| 0 <= i < s.drop_first().len()
            ==> wf_digest(#[trigger] s.drop_first()[i].digest.deep_view()));
        lemma_expansion_wf(s.drop_first(), g);
    }
}

/// Pushing a fresh entry keeps every memoized outcome and memoizes the new
/// one.
proof fn lemma_memo_push(
    m: Seq<(NodeKeyV, Result<crate::nodes::NodeResultV, FailureV>)>,
    e: (NodeKeyV, Result<crate::nodes::NodeResultV, FailureV>),
)
    requires
        !memo_has(m, e.0),
        forall|i: int, j: int| #![all_triggers] 0 <= i < j < m.len() ==> m[i].0 != m[j].0,
    ensures
        forall|k: NodeKeyV| #[trigger] memo_has(m, k)
            ==> memo_has(m.push(e), k) && memo_lookup(m.push(e), k) == memo_lookup(m, k),
        memo_has(m.push(e), e.0),
        memo_lookup(m.push(e), e.0) == e.1,
{
    let p = m.push(e);
    assert(p[m.len() as int] == e);
    assert(memo_has(p, e.0));
    assert forall|k: NodeKeyV| #[trigger] memo_has(m, k) implies memo_has(p, k)
        && memo_lookup(p, k) == memo_lookup(m, k) by {
        let i = choose|i: int| 0 <= i < m.len() && m[i].0 == k;
        assert(p[i] == m[i]);
        assert(memo_has(p, k));
        let j = choose|j: int| 0 <= j < p.len() && p[j].0 == k;
        assert(j < m.len());
        let j2 = choose|j2: int| 0 <= j2 < m.len() && m[j2].0 == k;
        assert(m[j].0 == k && m[j2].0 == k);
        assert(j == j2);
    }
    assert forall|j: int| 0 <= j < p.len() && p[j].0 == e.0 implies j == m.len() by {
        if j < m.len() {
            assert(memo_has(m, e.0));
        }
    }
    let w = choose|j: int| 0 <= j < p.len() && p[j].0 == e.0;
    assert(w == m.len());
}

/// Runs a node through the graph store.
///
/// A memoized key returns its cached outcome and changes nothing — in
/// particular, no work is logged, so repeated requests issue each node's
/// work at most once. A key already in flight reports a cycle. Otherwise
/// the node is run once and its outcome memoized.
pub fn get(core: &Core, g: &mut Graph, key: NodeKey, fuel: u64) -> (r: Result<NodeResult, Failure>)
    requires
        spec_core_wf(*core),
        wf_graph(old(g).deep_view()),
        sound_memo(*core, old(g).deep_view().memo),
    ensures
        wf_graph(final(g).deep_view()),
        sound_memo(*core, final(g).deep_view().memo),
        evolves(old(g).deep_view(), final(g).deep_view()),
        spec_leaf_outcome(*core, node_key_view(key)) matches Some(o) ==> (
            ((memo_has(old(g).deep_view().memo, node_key_view(key))
                || (fuel > 0 && !in_keys(old(g).deep_view().running, node_key_view(key))))
                ==> node_outcome_view(r) == o)
            && ((fuel > 0 && !memo_has(old(g).deep_view().memo, node_key_view(key))
                && !in_keys(old(g).deep_view().running, node_key_view(key))) ==> (
                final(g).deep_view().log
                    == old(g).deep_view().log.push(node_key_view(key))
                && final(g).deep_view().memo
                    == old(g).deep_view().memo.push((node_key_view(key), o))
            ))
        ),
        memo_has(old(g).deep_view().memo, node_key_view(key)) ==> (
            final(g).deep_view() == old(g).deep_view()
            && node_outcome_view(r) == memo_lookup(old(g).deep_view().memo, node_key_view(key))
        ),
        (!memo_has(old(g).deep_view().memo, node_key_view(key))
            && in_keys(old(g).deep_view().running, node_key_view(key))) ==> (
            final(g).deep_view() == old(g).deep_view()
            && node_outcome_view(r) == Err::<crate::nodes::NodeResultV, FailureV>(
                FailureV::Noop(Noop::Cycle),
            )
        ),
        (!memo_has(old(g).deep_view().memo, node_key_view(key))
            && !in_keys(old(g).deep_view().running, node_key_view(key)) && fuel > 0) ==> (
            memo_has(final(g).deep_view().memo, node_key_view(key))
            && memo_lookup(final(g).deep_view().memo, node_key_view(key))
                == node_outcome_view(r)
        ),
        (!memo_has(old(g).deep_view().memo, node_key_view(key))
            && !in_keys(old(g).deep_view().running, node_key_view(key)) && fuel == 0) ==> (
            final(g).deep_view() == old(g).deep_view()
            && node_outcome_view(r) == Err::<crate::nodes::NodeResultV, FailureV>(
                crate::failure::spec_throw("node evaluation budget exhausted"@),
            )
        ),
        node_key_view(key) matches NodeKeyV::Snapshot(gv) ==> (r matches Ok(nr)
            ==> (crate::nodes::node_result_view(nr) matches NodeResultV::Snapshot(d)
                && crate::context::spec_snapshot_ok(*core, gv, d))),
        node_key_view(key) matches NodeKeyV::Task(tv) ==> (
            spec_task_view_deps(*core, tv) matches Some(ds)
                ==> (spec_invoke(*core, tv.task.func, ds) matches Some(o)
                    ==> (r matches Ok(nr) ==> (o matches Ok(v)
                        && crate::nodes::node_result_view(nr) == NodeResultV::Value(v))))),
    decreases fuel,
{
    let ghost kv = node_key_view(key);
    let ghost g0 = g.deep_view();
    let cached = match g.lookup(&key) {
        Some(o) => Some(node_outcome_clone(o)),
        None => None,
    };
    if let Some(o) = cached {
        proof {
            lemma_evolves_refl(g0);
            if spec_leaf_outcome(*core, kv) is Some || kv is Snapshot {
                let i = choose|i: int| 0 <= i < g0.memo.len() && g0.memo[i].0 == kv;
                assert(memo_lookup(g0.memo, kv) == g0.memo[i].1);
            }
        }
        return o;
    }
    if g.running_contains(&key) {
        proof {
            lemma_evolves_refl(g0);
        }
        return Err(Failure::cyclic());
    }
    if fuel == 0 {
        proof {
            lemma_evolves_refl(g0);
        }
        return Err(throw("node evaluation budget exhausted"));
    }
    g.running.push(node_key_clone(&key));
    proof {
        assert(g.deep_view().running =~= g0.running.push(kv));
        assert(g.deep_view().memo =~= g0.memo);
        assert(g.deep_view().log =~= g0.log);
        assert forall|i: int| 0 <= i < g.deep_view().memo.len()
            implies !in_keys(g.deep_view().running, #[trigger] g.deep_view().memo[i].0) by {
            assert(!memo_has(g0.memo, kv));
            assert(g.deep_view().memo[i].0 == g0.memo[i].0);
            if in_keys(g.deep_view().running, g0.memo[i].0) {
                let w = choose|w: int| 0 <= w < g.deep_view().running.len()
                    && g.deep_view().running[w] == g0.memo[i].0;
                if w < g0.running.len() {
                    assert(in_keys(g0.running, g0.memo[i].0));
                } else {
                    assert(g0.memo[i].0 == kv);
                    assert(memo_has(g0.memo, kv));
                }
            }
        }
        assert forall|i: int| 0 <= i < g.deep_view().log.len()
            implies memo_has(g.deep_view().memo, #[trigger] g.deep_view().log[i])
                || in_keys(g.deep_view().running, g.deep_view().log[i]) by {
            assert(g.deep_view().log[i] == g0.log[i]);
            if in_keys(g0.running, g0.log[i]) {
                let w = choose|w: int| 0 <= w < g0.running.len() && g0.running[w] == g0.log[i];
                assert(g.deep_view().running[w] == g0.log[i]);
            }
        }
        assert(!in_keys(g0.log, kv)) by {
            if in_keys(g0.log, kv) {
                let w = choose|w: int| 0 <= w < g0.log.len() && g0.log[w] == kv;
            }
        }
    }
    let ghost g1 = g.deep_view();
    proof {
        assert(g1.running[g0.running.len() as int] == kv);
        assert(in_keys(g1.running, kv));
        assert(g1.log == g0.log);
        assert(!in_keys(g1.log, kv)) by {
            if in_keys(g1.log, kv) {
                let w = choose|w: int| 0 <= w < g1.log.len() && g1.log[w] == kv;
                assert(g0.log[w] == kv);
                assert(in_keys(g0.log, kv));
            }
        }
    }
    let res = run_node(core, g, &key, fuel - 1);
    let ghost g2 = g.deep_view();
    proof {
        assert(g2.running == g1.running);
        assert(g2.running.len() == g0.running.len() + 1);
        assert(g.running@.len() == g2.running.len());
    }
    let _ = g.running.pop();
    let stored = node_outcome_clone(&res);
    g.memo.push((key, stored));
    proof {
        let gf = g.deep_view();
        assert(g2.running == g1.running);
        assert(g2.running =~= g0.running.push(kv));
        assert(gf.running.len() == g0.running.len());
        assert forall|i: int| 0 <= i < gf.running.len()
            implies gf.running[i] == g0.running[i] by {
            assert(gf.running[i] == g2.running[i]);
        }
        assert(gf.running =~= g0.running);
        assert(gf.log =~= g2.log);
        assert(gf.memo =~= g2.memo.push((kv, node_outcome_view(res))));
        assert(!memo_has(g2.memo, kv)) by {
            if memo_has(g2.memo, kv) {
                let w = choose|w: int| 0 <= w < g2.memo.len() && g2.memo[w].0 == kv;
                assert(in_keys(g2.running, g2.memo[w].0)) by {
                    assert(g2.running[g0.running.len() as int] == kv);
                }
            }
        }
        lemma_memo_push(g2.memo, (kv, node_outcome_view(res)));
        // well-formedness of the final state
        assert forall|i: int, j: int| #![all_triggers] 0 <= i < j < gf.memo.len()
            implies gf.memo[i].0 != gf.memo[j].0 by {
            if j < g2.memo.len() {
                assert(gf.memo[i] == g2.memo[i] && gf.memo[j] == g2.memo[j]);
            } else {
                assert(gf.memo[j].0 == kv);
                assert(gf.memo[i] == g2.memo[i]);
                if g2.memo[i].0 == kv {
                    assert(memo_has(g2.memo, kv));
                }
            }
        }
        assert forall|i: int, j: int| #![all_triggers] 0 <= i < j < gf.running.len()
            implies gf.running[i] != gf.running[j] by {
            assert(gf.running[i] == g2.running[i] && gf.running[j] == g2.running[j]);
        }
        assert forall|i: int| 0 <= i < gf.memo.len()
            implies !in_keys(gf.running, #[trigger] gf.memo[i].0) by {
            if in_keys(gf.running, gf.memo[i].0) {
                let w = choose|w: int| 0 <= w < gf.running.len()
                    && gf.running[w] == gf.memo[i].0;
                assert(g2.running[w] == gf.memo[i].0);
                if i < g2.memo.len() {
                    assert(in_keys(g2.running, g2.memo[i].0));
                } else {
                    assert(gf.memo[i].0 == kv);
                    assert(in_keys(g0.running, kv));
                }
            }
        }
        assert forall|i: int| 0 <= i < gf.log.len()
            implies memo_has(gf.memo, #[trigger] gf.log[i])
                || in_keys(gf.running, gf.log[i]) by {
            assert(gf.log[i] == g2.log[i]);
            if memo_has(g2.memo, g2.log[i]) {
                // kept by the push
            } else {
                assert(in_keys(g2.running, g2.log[i]));
                let w = choose|w: int| 0 <= w < g2.running.len() && g2.running[w] == g2.log[i];
                if w < g0.running.len() {
                    assert(gf.running[w] == g2.log[i]);
                } else {
                    assert(g2.log[i] == kv);
                    assert(memo_has(gf.memo, kv));
                }
            }
        }
        // evolution from the entry state
        assert(evolves(g0, gf)) by {
            assert(gf.running == g0.running);
            assert(g0.log.is_prefix_of(g2.log));
            assert(gf.log == g2.log);
            assert(g0.log.is_prefix_of(gf.log));
            assert forall|k: NodeKeyV| #[trigger] memo_has(g0.memo, k)
                implies memo_has(gf.memo, k)
                    && memo_lookup(gf.memo, k) == memo_lookup(g0.memo, k) by {
                assert(memo_has(g1.memo, k));
                assert(memo_has(g2.memo, k));
            }
        }
        // the memo stays sound: kept entries from the callee, the new one
        // from the leaf clause of run_node
        assert forall|i: int| 0 <= i < gf.memo.len()
            implies (spec_leaf_outcome(*core, #[trigger] gf.memo[i].0) matches Some(o)
                ==> gf.memo[i].1 == o) by {
            if i < g2.memo.len() {
                assert(gf.memo[i] == g2.memo[i]);
            } else {
                assert(gf.memo[i] == (kv, node_outcome_view(res)));
            }
        }
        if spec_leaf_outcome(*core, kv) is Some {
            assert(g2.memo == g0.memo);
            assert(g2.log == g0.log.push(kv));
            assert(gf.memo =~= g0.memo.push((kv, spec_leaf_outcome(*core, kv).unwrap())));
        }
    }
    res
}

/// Computes one node's result, logging the work performed.
///
/// Called only by `get`, for a key that is in flight and not yet logged.
pub fn run_node(core: &Core, g: &mut Graph, key: &NodeKey, fuel: u64) -> (r: Result<
    NodeResult,
    Failure,
>)
    requires
        spec_core_wf(*core),
        wf_graph(old(g).deep_view()),
        sound_memo(*core, old(g).deep_view().memo),
        in_keys(old(g).deep_view().running, node_key_view(*key)),
        !in_keys(old(g).deep_view().log, node_key_view(*key)),
    ensures
        wf_graph(final(g).deep_view()),
        sound_memo(*core, final(g).deep_view().memo),
        evolves(old(g).deep_view(), final(g).deep_view()),
        in_keys(final(g).deep_view().log, node_key_view(*key)),
        spec_leaf_outcome(*core, node_key_view(*key)) matches Some(o) ==> (
            node_outcome_view(r) == o
            && final(g).deep_view().memo == old(g).deep_view().memo
            && final(g).deep_view().log
                == old(g).deep_view().log.push(node_key_view(*key))
        ),
        node_key_view(*key) matches NodeKeyV::Snapshot(gv) ==> (r matches Ok(nr)
            ==> (crate::nodes::node_result_view(nr) matches NodeResultV::Snapshot(d)
                && crate::context::spec_snapshot_ok(*core, gv, d))),
        (node_key_view(*key) is Select || node_key_view(*key) is Task) ==> (
            r matches Ok(nr) ==> crate::nodes::node_result_view(nr) is Value),
        node_key_view(*key) matches NodeKeyV::Task(tv) ==> (
            spec_task_view_deps(*core, tv) matches Some(ds)
                ==> (spec_invoke(*core, tv.task.func, ds) matches Some(o)
                    ==> (r matches Ok(nr) ==> (o matches Ok(v)
                        && crate::nodes::node_result_view(nr) == NodeResultV::Value(v))))),
    decreases fuel,
{
    let ghost kv = node_key_view(*key);
    let ghost g0 = g.deep_view();
    g.log.push(node_key_clone(key));
    proof {
        let g1 = g.deep_view();
        assert(g1.log =~= g0.log.push(kv));
        assert(g1.memo =~= g0.memo);
        assert(g1.running =~= g0.running);
        assert forall|i: int, j: int| #![all_triggers] 0 <= i < j < g1.log.len()
            implies g1.log[i] != g1.log[j] by {
            if j < g0.log.len() {
                assert(g1.log[i] == g0.log[i] && g1.log[j] == g0.log[j]);
            } else {
                assert(g1.log[j] == kv);
                assert(g1.log[i] == g0.log[i]);
                if g0.log[i] == kv {
                    assert(in_keys(g0.log, kv));
                }
            }
        }
        assert forall|i: int| 0 <= i < g1.log.len()
            implies memo_has(g1.memo, #[trigger] g1.log[i])
                || in_keys(g1.running, g1.log[i]) by {
            if i < g0.log.len() {
                assert(g1.log[i] == g0.log[i]);
            } else {
                assert(g1.log[i] == kv);
            }
        }
        assert forall|i: int| 0 <= i < g1.memo.len()
            implies !in_keys(g1.running, #[trigger] g1.memo[i].0) by {
            assert(g1.memo[i] == g0.memo[i]);
        }
        assert(evolves(g0, g1)) by {
            assert(g0.log.is_prefix_of(g1.log)) by {
                assert(g1.log.subrange(0, g0.log.len() as int) =~= g0.log);
            }
        }
    }
    let ghost g1 = g.deep_view();
    let r = match key {
        NodeKey::DigestFile(f) => match core.vfs.read_file(&f.0.0) {
            Some(rec) => Ok(NodeResult::Digest(rec.digest.clone())),
            None => {
                let mut msg = "Error reading file ".to_owned();
                msg.append(crate::digest::to_hex(&f.0.0).as_str());
                Err(Failure::Throw(Value::StrV(msg), "<engine internals>".to_owned()))
            },
        },
        NodeKey::ReadLink(l) => match core.vfs.read_link(&l.0.0) {
            Some(dest) => Ok(NodeResult::LinkDest(crate::nodes::LinkDest(bytes_clone(dest)))),
            None => {
                let mut msg = "Failed to read_link for ".to_owned();
                msg.append(crate::digest::to_hex(&l.0.0).as_str());
                Err(Failure::Throw(Value::StrV(msg), "<engine internals>".to_owned()))
            },
        },
        NodeKey::Scandir(d) => match core.vfs.scandir(&d.0.0) {
            Some(listing) => Ok(NodeResult::DirectoryListing(listing.clone())),
            None => {
                let mut msg = "Failed to scandir for ".to_owned();
                msg.append(crate::digest::to_hex(&d.0.0).as_str());
                Err(Failure::Throw(Value::StrV(msg), "<engine internals>".to_owned()))
            },
        },
        NodeKey::ExecuteProcess(p) => match core.process_run_for(&p.0) {
            Some(run) => match &run.result {
                Ok(res) => Ok(NodeResult::ProcessResult(ProcessResult(res.clone()))),
                Err(e) => {
                    let mut msg = "Failed to execute process: ".to_owned();
                    msg.append(e.as_str());
                    Err(Failure::Throw(Value::StrV(msg), "<engine internals>".to_owned()))
                },
            },
            None => Err(throw("Failed to execute process: the runner gave no answer")),
        },
        NodeKey::Select(s) => {
            if fuel == 0 {
                Err(throw("node evaluation budget exhausted"))
            } else {
                match s.run(core, g, fuel - 1) {
                    Ok(v) => Ok(NodeResult::Value(v)),
                    Err(f) => Err(f),
                }
            }
        },
        NodeKey::Snapshot(s) => {
            if fuel == 0 {
                Err(throw("node evaluation budget exhausted"))
            } else {
                match snapshot_run(core, g, &s.0, fuel - 1) {
                    Ok(data) => Ok(NodeResult::Snapshot(data)),
                    Err(f) => Err(f),
                }
            }
        },
        NodeKey::Task(t) => {
            if fuel == 0 {
                Err(throw("node evaluation budget exhausted"))
            } else {
                match t.run(core, g, fuel - 1) {
                    Ok(v) => Ok(NodeResult::Value(v)),
                    Err(f) => Err(f),
                }
            }
        },
    };
    proof {
        lemma_evolves_trans(g0, g1, g.deep_view());
        let gf = g.deep_view();
        assert(in_keys(gf.log, kv)) by {
            assert(g1.log.is_prefix_of(gf.log));
            assert(gf.log.subrange(0, g1.log.len() as int) =~= g1.log);
            assert(gf.log[g0.log.len() as int] == g1.log[g0.log.len() as int]);
            assert(gf.log[g0.log.len() as int] == kv);
        }
    }
    r
}

/// Captures the snapshot for a parsed path-globs request: expands the
/// globs through the VFS, demands a `DigestFile` node for every file found
/// (recording the dependency and its work), and returns the digested tree.
///
/// Succeeds with the environment's expansion of the request when every
/// file digest settles; the digest of the result is well formed.
#[verifier::loop_isolation(false)]
pub fn snapshot_run(
    core: &Core,
    g: &mut Graph,
    globs: &crate::snapshot::PathGlobs,
    fuel: u64,
) -> (r: Result<SnapshotData, Failure>)
    requires
        spec_core_wf(*core),
        wf_graph(old(g).deep_view()),
        sound_memo(*core, old(g).deep_view().memo),
    ensures
        wf_graph(final(g).deep_view()),
        sound_memo(*core, final(g).deep_view().memo),
        evolves(old(g).deep_view(), final(g).deep_view()),
        r matches Ok(data) ==> wf_digest(data.deep_view().digest)
            && spec_expansion_for(core.glob_expansions@, globs.deep_view()) is Some
            && data.deep_view().digest == spec_expansion_for(
                core.glob_expansions@,
                globs.deep_view(),
            ).unwrap().digest.deep_view()
            && data.deep_view().path_stats == spec_expansion_for(
                core.glob_expansions@,
                globs.deep_view(),
            ).unwrap().path_stats.deep_view(),
        fuel > 0 ==> (spec_expansion_for(core.glob_expansions@, globs.deep_view()) is None
            ==> (final(g).deep_view() == old(g).deep_view()
                && (r matches Err(rf) && crate::failure::failure_view(rf)
                    == crate::failure::spec_throw("PathGlobs expansion failed"@)))),
        fuel > 1 ==> (spec_expansion_for(core.glob_expansions@, globs.deep_view())
            matches Some(exp) ==> ((forall|k: int| #![trigger exp.path_stats@[k]]
                0 <= k < exp.path_stats@.len()
                ==> (exp.path_stats@[k] matches PathStat::File { path: _, stat: st } ==> (
                    crate::vfs::spec_assoc_bytes(core.vfs.files.deep_view(), st.0@) is Some
                    && !in_keys(
                        old(g).deep_view().running,
                        NodeKeyV::DigestFile(st.0@),
                    )))) ==> r is Ok)),
    decreases fuel,
{
    let ghost g0 = g.deep_view();
    let ghost spec_exp = spec_expansion_for(core.glob_expansions@, globs.deep_view());
    proof {
        lemma_evolves_refl(g0);
    }
    if fuel == 0 {
        return Err(throw("node evaluation budget exhausted"));
    }
    let exp = match core.expansion_for(globs) {
        Some(e) => e,
        None => {
            return Err(throw("PathGlobs expansion failed"));
        },
    };
    let mut i: usize = 0;
    while i < exp.path_stats.len()
        invariant
            spec_core_wf(*core),
            wf_graph(g.deep_view()),
            sound_memo(*core, g.deep_view().memo),
            evolves(g0, g.deep_view()),
            spec_exp == Some(*exp),
        decreases exp.path_stats.len() - i,
    {
        let ghost gm = g.deep_view();
        match &exp.path_stats[i] {
            PathStat::File { path: _, stat } => {
                let node = NodeKey::DigestFile(crate::nodes::DigestFile(crate::vfs::File(
                    bytes_clone(&stat.0),
                )));
                match get(core, g, node, fuel - 1) {
                    Ok(_) => {},
                    Err(f) => {
                        proof {
                            lemma_evolves_trans(g0, gm, g.deep_view());
                            // a failed file digest contradicts the
                            // success-owed conditions at this very stat
                            if fuel > 1
                                && crate::vfs::spec_assoc_bytes(
                                core.vfs.files.deep_view(),
                                stat.0@,
                            ) is Some && !in_keys(g0.running, NodeKeyV::DigestFile(stat.0@)) {
                                assert(gm.running == g0.running);
                                assert(false);
                            }
                        }
                        return Err(f);
                    },
                }
            },
            PathStat::Dir { .. } => {},
        }
        proof {
            lemma_evolves_trans(g0, gm, g.deep_view());
        }
        i = i + 1;
    }
    let mut path_stats: Vec<PathStat> = Vec::new();
    let mut j: usize = 0;
    while j < exp.path_stats.len()
        invariant
            j <= exp.path_stats.len(),
            path_stats@.len() == j,
            forall|k: int| #![all_triggers] 0 <= k < j
                ==> path_stats@[k].deep_view() == exp.path_stats@[k].deep_view(),
        decreases exp.path_stats.len() - j,
    {
        path_stats.push(exp.path_stats[j].clone());
        j = j + 1;
    }
    let data = SnapshotData { digest: exp.digest.clone(), path_stats };
    proof {
        assert(data.deep_view().path_stats =~= exp.path_stats.deep_view());
        lemma_expansion_wf(core.glob_expansions@, globs.deep_view());
    }
    Ok(data)
}

/// Whether a digest can be packed into a host value.
fn digest_is_wf(d: &crate::vfs::Digest) -> (r: bool)
    ensures
        r == wf_digest(d.deep_view()),
{
    d.fingerprint.len() == 32 && d.serialized_bytes_length <= i64::MAX as u64
}

/// Whether a select reaches rule dispatch: the variant check passes, the
/// subject is interned, and the literal match has nothing to say.
pub open spec fn spec_dispatches(c: Core, s: crate::select::Select) -> bool {
    &&& spec_select_vv(s) is Some
    &&& crate::context::spec_val_for(c, s.subject) is Some
    &&& crate::select::spec_literal(
        c.types,
        s.selector.product,
        crate::context::spec_val_for(c, s.subject).unwrap(),
        spec_select_vv(s).unwrap(),
    ) is None
}

/// The variant value a selector must honour under a configuration:
/// `None` when a required variant is not configured, `Some(vv)` otherwise.
pub open spec fn spec_vv_of(
    vk: Option<Seq<char>>,
    variants: Seq<(Seq<char>, Seq<char>)>,
) -> Option<Option<Seq<char>>> {
    match vk {
        Some(k) => match crate::selectors::spec_variants_find(variants, k) {
            Some(v) => Some(Some(v)),
            None => None,
        },
        None => Some(None),
    }
}

/// The variant value a select must honour: `None` when a required variant
/// is not configured, `Some(vv)` otherwise.
pub open spec fn spec_select_vv(s: crate::select::Select) -> Option<Option<Seq<char>>> {
    spec_vv_of(s.deep_view().selector.variant_key, s.deep_view().variants)
}

/// What a selector resolves to when the subject itself answers it: the
/// configured variant is honoured and the literal match succeeds. `None`
/// when the resolution would have to consult rules.
pub open spec fn spec_clause_literal(
    c: Core,
    subject: crate::values::Key,
    variants: Seq<(Seq<char>, Seq<char>)>,
    sel: crate::selectors::SelectV,
) -> Option<crate::values::ValueV> {
    match spec_vv_of(sel.variant_key, variants) {
        Some(vv) => match crate::context::spec_val_for(c, subject) {
            Some(sub) => crate::select::spec_literal(c.types, sel.product, sub, vv),
            None => None,
        },
        None => None,
    }
}

/// The values a whole clause resolves to when every selector is answered
/// by the subject itself, in clause order.
pub open spec fn spec_clause_literals(
    c: Core,
    subject: crate::values::Key,
    variants: Seq<(Seq<char>, Seq<char>)>,
    clause: Seq<crate::selectors::SelectV>,
) -> Option<Seq<crate::values::ValueV>>
    decreases clause.len(),
{
    if clause.len() == 0 {
        Some(Seq::empty())
    } else {
        match (
            spec_clause_literal(c, subject, variants, clause[0]),
            spec_clause_literals(c, subject, variants, clause.drop_first()),
        ) {
            (Some(v), Some(rest)) => Some(seq![v] + rest),
            _ => None,
        }
    }
}

/// If every clause selector is answered by the subject, the resolved
/// values line up with the clause index by index.
proof fn lemma_clause_literals_structure(
    c: Core,
    subject: crate::values::Key,
    variants: Seq<(Seq<char>, Seq<char>)>,
    clause: Seq<crate::selectors::SelectV>,
)
    ensures
        spec_clause_literals(c, subject, variants, clause) matches Some(ds) ==> (
            ds.len() == clause.len()
            && forall|j: int| #![all_triggers] 0 <= j < clause.len()
                ==> spec_clause_literal(c, subject, variants, clause[j]) == Some(ds[j])
        ),
    decreases clause.len(),
{
    if clause.len() > 0 {
        lemma_clause_literals_structure(c, subject, variants, clause.drop_first());
        if spec_clause_literals(c, subject, variants, clause) is Some {
            let ds = spec_clause_literals(c, subject, variants, clause).unwrap();
            let rest = spec_clause_literals(c, subject, variants, clause.drop_first()).unwrap();
            assert forall|j: int| 0 <= j < clause.len()
                implies spec_clause_literal(c, subject, variants, #[trigger] clause[j])
                    == Some(ds[j]) by {
                if j > 0 {
                    assert(clause.drop_first()[j - 1] == clause[j]);
                    assert(ds[j] == rest[j - 1]);
                }
            }
        }
    }
}

/// The clause values of a task node when the subject answers the whole
/// clause literally.
pub open spec fn spec_task_literal_deps(c: Core, t: crate::nodes::Task) -> Option<
    Seq<crate::values::ValueV>,
> {
    spec_clause_literals(c, t.subject, t.variants.deep_view(), t.task.clause.deep_view())
}

/// The same, over a task node's view.
pub open spec fn spec_task_view_deps(c: Core, tv: crate::nodes::TaskNodeV) -> Option<
    Seq<crate::values::ValueV>,
> {
    spec_clause_literals(c, tv.subject, tv.variants, tv.task.clause)
}

/// What invoking a task function returns for given dependency values, for
/// the function behaviours whose result the engine can see through
/// directly; a coroutine body's outcome goes through the drive loop
/// instead (`None` here).
pub open spec fn spec_invoke(
    c: Core,
    func: crate::rules::FuncId,
    ds: Seq<crate::values::ValueV>,
) -> Option<Result<crate::values::ValueV, FailureV>> {
    if func >= c.funcs@.len() {
        Some(Err(crate::failure::spec_throw("unknown task function"@)))
    } else {
        match c.funcs@[func as int] {
            crate::rules::FuncDef::ConstFn(v) => if crate::values::value_view(v) is GenV {
                None
            } else {
                Some(Ok(crate::values::value_view(v)))
            },
            crate::rules::FuncDef::StrLenFn => if ds.len() == 0 {
                Some(Err(crate::failure::spec_throw("len requires an argument"@)))
            } else {
                match ds[0] {
                    crate::values::ValueV::StrV(str0) => if str0.len() <= i64::MAX {
                        Some(Ok(crate::values::ValueV::IntV(str0.len() as i64)))
                    } else {
                        Some(Err(crate::failure::spec_throw("string length overflows"@)))
                    },
                    _ => Some(Err(crate::failure::spec_throw(
                        "len requires a string argument"@,
                    ))),
                }
            },
            crate::rules::FuncDef::GeneratorFn(_) => None,
            crate::rules::FuncDef::RaiseFn(m) => Some(Err(crate::failure::spec_throw(m@))),
        }
    }
}

impl crate::select::Select {
    /// Resolves this product request: the configured variant is checked,
    /// the subject itself is offered first (is-a / has-a), and otherwise
    /// the candidate rule entries are dispatched and disambiguated.
    ///
    /// A select whose required variant is not configured reports
    /// `Noop(NoVariant)` and performs no work. A subject that literally
    /// satisfies the product is returned verbatim, and no rule is
    /// consulted: the store is left untouched.
    pub fn run(&self, core: &Core, g: &mut Graph, fuel: u64) -> (r: Result<Value, Failure>)
        requires
            spec_core_wf(*core),
            wf_graph(old(g).deep_view()),
            sound_memo(*core, old(g).deep_view().memo),
        ensures
            wf_graph(final(g).deep_view()),
            sound_memo(*core, final(g).deep_view().memo),
            evolves(old(g).deep_view(), final(g).deep_view()),
            (fuel > 0 && spec_select_vv(*self) is None) ==> (
                final(g).deep_view() == old(g).deep_view()
                && crate::select::result_view(r) == Err::<crate::values::ValueV, FailureV>(
                    FailureV::Noop(Noop::NoVariant),
                )
            ),
            fuel > 0 ==> (spec_select_vv(*self) matches Some(vv)
                ==> (crate::context::spec_val_for(*core, self.subject) matches Some(sub)
                ==> (crate::select::spec_literal(
                    core.types,
                    self.selector.product,
                    sub,
                    vv,
                ) matches Some(l)
                ==> (final(g).deep_view() == old(g).deep_view()
                    && crate::select::result_view(r)
                        == Ok::<crate::values::ValueV, FailureV>(l))))),
            fuel == 0 ==> (final(g).deep_view() == old(g).deep_view()
                && crate::select::result_view(r) == Err::<crate::values::ValueV, FailureV>(
                    crate::failure::spec_throw("node evaluation budget exhausted"@),
                )),
            (fuel > 1 && spec_dispatches(*core, *self)) ==> exists|rv: Seq<
                Result<crate::values::ValueV, FailureV>,
            >|
                crate::select::result_view(r) == spec_choose(
                    core.types,
                    self.selector.product,
                    spec_select_vv(*self).unwrap(),
                    rv,
                ) && rv.len() == (if crate::context::spec_singleton_for(
                    core.singletons@,
                    self.selector.product,
                ) is Some {
                    1int
                } else {
                    self.entries@.len() as int
                }) && (crate::context::spec_singleton_for(
                    core.singletons@,
                    self.selector.product,
                ) is None ==> forall|i: int| #![all_triggers] 0 <= i < rv.len() ==> (
                    spec_candidate_ok(*core, self.entries@[i], rv[i])
                    && task_entry_ok(
                        *core,
                        *self,
                        self.entries@[i],
                        rv[i],
                        final(g).deep_view().memo,
                    )
                )),
            (fuel > 1 && spec_dispatches(*core, *self)) ==> (
                crate::context::spec_singleton_for(
                    core.singletons@,
                    self.selector.product,
                ) matches Some(sv) ==> crate::select::result_view(r) == spec_choose(
                    core.types,
                    self.selector.product,
                    spec_select_vv(*self).unwrap(),
                    seq![Ok::<crate::values::ValueV, FailureV>(sv)],
                )
            ),
        decreases fuel,
    {
        let ghost g0 = g.deep_view();
        proof {
            lemma_evolves_refl(g0);
        }
        if fuel == 0 {
            return Err(throw("node evaluation budget exhausted"));
        }
        let variant_value: Option<String> = match &self.selector.variant_key {
            Some(key) => match self.variants.find(key.as_str()) {
                None => {
                    return Err(Failure::Noop(Noop::NoVariant));
                },
                Some(v) => Some(v.clone()),
            },
            None => None,
        };
        let subject_val = match core.val_for(self.subject) {
            Some(v) => v,
            None => {
                return Err(throw("unknown subject key"));
            },
        };
        match self.select_literal(&core.types, crate::values::value_clone(subject_val),
            &variant_value) {
            Some(literal) => {
                return Ok(literal);
            },
            None => {},
        }
        let results = self.gen_nodes(core, g, fuel - 1);
        let ghost rv = crate::select::results_view(results@);
        proof {
            lemma_evolves_refl(g.deep_view());
            assert(variant_value.deep_view() == spec_select_vv(*self).unwrap());
            if fuel > 1 && crate::context::spec_singleton_for(
                core.singletons@,
                self.selector.product,
            ) is Some {
                assert(rv =~= seq![rv[0]]);
            }
            if fuel > 1 && crate::context::spec_singleton_for(
                core.singletons@,
                self.selector.product,
            ) is None {
                assert forall|i: int| 0 <= i < rv.len() implies
                    #[trigger] rv[i] == crate::select::result_view(results@[i]) by {}
            }
        }
        self.choose_task_result(&core.types, results, &variant_value)
    }

    /// Computes one candidate result per configured rule entry (or the
    /// registered singleton alone), never short-circuiting on a failure:
    /// every candidate settles, so disambiguation sees them all.
    #[verifier::loop_isolation(false)]
    pub fn gen_nodes(&self, core: &Core, g: &mut Graph, fuel: u64) -> (results: Vec<
        Result<Value, Failure>,
    >)
        requires
            spec_core_wf(*core),
            wf_graph(old(g).deep_view()),
            sound_memo(*core, old(g).deep_view().memo),
        ensures
            wf_graph(final(g).deep_view()),
            sound_memo(*core, final(g).deep_view().memo),
            evolves(old(g).deep_view(), final(g).deep_view()),
            fuel > 0 ==> (crate::context::spec_singleton_for(
                core.singletons@,
                self.selector.product,
            ) matches Some(sv) ==> (
                results@.len() == 1
                && crate::select::result_view(results@[0])
                    == Ok::<crate::values::ValueV, FailureV>(sv)
                && final(g).deep_view() == old(g).deep_view()
            )),
            (fuel > 0 && crate::context::spec_singleton_for(
                core.singletons@,
                self.selector.product,
            ) is None) ==> (results@.len() == self.entries@.len()
                && (forall|i: int| #![all_triggers] 0 <= i < results@.len()
                    ==> spec_candidate_ok(
                        *core,
                        self.entries@[i],
                        crate::select::result_view(results@[i]),
                    ))
                && (forall|i: int| #![all_triggers] 0 <= i < results@.len()
                    ==> (task_entry_ok(
                        *core,
                        *self,
                        self.entries@[i],
                        crate::select::result_view(results@[i]),
                        final(g).deep_view().memo,
                    )))),
        decreases fuel,
    {
        let ghost g0 = g.deep_view();
        proof {
            lemma_evolves_refl(g0);
        }
        if fuel == 0 {
            let mut results: Vec<Result<Value, Failure>> = Vec::new();
            results.push(Err(throw("node evaluation budget exhausted")));
            return results;
        }
        match core.singleton_for(self.selector.product) {
            Some(v) => {
                let mut results: Vec<Result<Value, Failure>> = Vec::new();
                results.push(Ok(crate::values::value_clone(v)));
                return results;
            },
            None => {},
        }
        let mut results: Vec<Result<Value, Failure>> = Vec::new();
        let mut i: usize = 0;
        while i < self.entries.len()
            invariant
                i <= self.entries.len(),
                results@.len() == i,
                spec_core_wf(*core),
                wf_graph(g.deep_view()),
                sound_memo(*core, g.deep_view().memo),
                evolves(g0, g.deep_view()),
                fuel > 0,
                forall|j: int| #![all_triggers] 0 <= j < i ==> spec_candidate_ok(
                    *core,
                    self.entries@[j],
                    crate::select::result_view(results@[j]),
                ),
                forall|j: int| #![all_triggers] 0 <= j < i ==> task_entry_ok(
                    *core,
                    *self,
                    self.entries@[j],
                    crate::select::result_view(results@[j]),
                    g.deep_view().memo,
                ),
            decreases self.entries.len() - i,
        {
            let ghost gm = g.deep_view();
            let e = self.entries[i];
            let outcome: Result<Value, Failure> = match core.rule_graph.entry_for(e) {
                None => {
                    let el: Result<Value, Failure> = Err(throw("unknown rule entry"));
                    proof {
                        assert(spec_candidate_ok(*core, e, crate::select::result_view(el)));
                    }
                    el
                },
                Some(entry) => match &entry.rule {
                    crate::rules::Rule::Task(td) => {
                        let node = NodeKey::Task(crate::nodes::Task {
                            subject: self.subject,
                            product: self.selector.product,
                            variants: crate::selectors::variants_clone(&self.variants),
                            task: crate::rules::task_def_clone(td),
                            entry: e,
                        });
                        let ghost tk = node_key_view(node);
                        proof {
                            assert(core.rule_graph.entries@[e as int].rule is Task);
                            assert(tk == spec_task_key(*core, *self, e));
                        }
                        let el: Result<Value, Failure> = match get(core, g, node, fuel - 1) {
                            Ok(res) => match res.into_value() {
                                Ok(v) => Ok(v),
                                Err(_) => Err(throw("wrong result kind for Task node")),
                            },
                            Err(f) => Err(f),
                        };
                        proof {
                            assert(spec_candidate_ok(*core, e, crate::select::result_view(el)));
                            assert(task_entry_ok(*core, *self, e,
                                crate::select::result_view(el), g.deep_view().memo));
                        }
                        el
                    },
                    crate::rules::Rule::Intrinsic(crate::rules::IntrinsicKind::Snapshot) => {
                        let el: Result<Value, Failure> = match self.snapshot(core, g, e,
                            fuel - 1) {
                            Ok(data) => {
                                if digest_is_wf(&data.digest) {
                                    let packed = crate::snapshot::Snapshot::store_snapshot(
                                        &core.types,
                                        &data,
                                    );
                                    proof {
                                        assert(crate::snapshot::spec_store_snapshot(
                                            core.types,
                                            data.deep_view(),
                                        ) == value_view(packed));
                                    }
                                    Ok(packed)
                                } else {
                                    Err(throw("snapshot digest malformed"))
                                }
                            },
                            Err(f) => Err(f),
                        };
                        proof {
                            assert(core.rule_graph.entries@[e as int].rule
                                == crate::rules::Rule::Intrinsic(
                                crate::rules::IntrinsicKind::Snapshot,
                            ));
                            assert(spec_candidate_ok(*core, e, crate::select::result_view(el)));
                        }
                        el
                    },
                    crate::rules::Rule::Intrinsic(crate::rules::IntrinsicKind::FilesContent) => {
                        let el = self.files_content(core, g, e, fuel - 1);
                        proof {
                            assert(core.rule_graph.entries@[e as int].rule
                                == crate::rules::Rule::Intrinsic(
                                crate::rules::IntrinsicKind::FilesContent,
                            ));
                            assert(spec_candidate_ok(*core, e, crate::select::result_view(el)));
                        }
                        el
                    },
                    crate::rules::Rule::Intrinsic(
                        crate::rules::IntrinsicKind::ProcessExecution,
                    ) => {
                        let el: Result<Value, Failure> = match self.execute_process(core, g, e,
                            fuel - 1) {
                            Ok(pr) => {
                                if digest_is_wf(&pr.0.output_directory) {
                                    let packed = crate::process::store_process_result(
                                        &core.types,
                                        &pr.0,
                                    );
                                    proof {
                                        assert(crate::process::spec_store_process_result(
                                            core.types,
                                            pr.deep_view(),
                                        ) == value_view(packed));
                                    }
                                    Ok(packed)
                                } else {
                                    Err(throw("process output digest malformed"))
                                }
                            },
                            Err(f) => Err(f),
                        };
                        proof {
                            assert(core.rule_graph.entries@[e as int].rule
                                == crate::rules::Rule::Intrinsic(
                                crate::rules::IntrinsicKind::ProcessExecution,
                            ));
                            assert(spec_candidate_ok(*core, e, crate::select::result_view(el)));
                        }
                        el
                    },
                },
            };
            results.push(outcome);
            proof {
                lemma_evolves_trans(g0, gm, g.deep_view());
            }
            i = i + 1;
        }
        results
    }

    /// The snapshot intrinsic: select a path-globs value for the subject,
    /// parse it, and demand the `Snapshot` node keyed by it.
    ///
    /// A success is always the environment's expansion of some parsed
    /// path-globs request: its recorded digest and path stats.
    pub fn snapshot(&self, core: &Core, g: &mut Graph, entry: crate::rules::EntryId, fuel: u64)
        -> (r: Result<SnapshotData, Failure>)
        requires
            spec_core_wf(*core),
            wf_graph(old(g).deep_view()),
            sound_memo(*core, old(g).deep_view().memo),
        ensures
            wf_graph(final(g).deep_view()),
            sound_memo(*core, final(g).deep_view().memo),
            evolves(old(g).deep_view(), final(g).deep_view()),
            r matches Ok(data) ==> crate::context::spec_some_expansion(*core, data.deep_view()),
            (fuel > 1 && entry < core.rule_graph.edges@.len()) ==> (
                spec_clause_literal(
                    *core,
                    self.subject,
                    self.variants.deep_view(),
                    crate::selectors::SelectV {
                        product: core.types.path_globs,
                        variant_key: None,
                    },
                ) matches Some(pv) ==> (match crate::snapshot::spec_lift_path_globs(pv) {
                    None => r matches Err(rf) && crate::failure::failure_view(rf)
                        == crate::failure::spec_throw("Failed to parse PathGlobs"@),
                    Some(gv) => r matches Ok(data)
                        ==> crate::context::spec_snapshot_ok(*core, gv, data.deep_view()),
                })
            ),
        decreases fuel,
    {
        let ghost g0 = g.deep_view();
        proof {
            lemma_evolves_refl(g0);
        }
        if fuel == 0 {
            return Err(throw("node evaluation budget exhausted"));
        }
        let edges = match core.rule_graph.edges_for(entry) {
            Some(e) => e,
            None => {
                return Err(throw("Expected edges to exist for Snapshot intrinsic"));
            },
        };
        let sel = crate::select::Select::new(
            core.types.path_globs,
            self.subject,
            crate::selectors::variants_clone(&self.variants),
            edges,
        );
        proof {
            assert(spec_select_vv(sel) == Some(None::<Seq<char>>));
        }
        let path_globs_val = match sel.run(core, g, fuel - 1) {
            Ok(v) => v,
            Err(f) => {
                return Err(f);
            },
        };
        let globs = match crate::snapshot::Snapshot::lift_path_globs(&path_globs_val) {
            Ok(p) => p,
            Err(_) => {
                proof {
                    lemma_evolves_refl(g.deep_view());
                }
                return Err(throw("Failed to parse PathGlobs"));
            },
        };
        let ghost gvv = globs.deep_view();
        let ghost gm = g.deep_view();
        let res = match get(core, g, NodeKey::Snapshot(crate::snapshot::Snapshot(globs)),
            fuel - 1) {
            Ok(r) => r,
            Err(f) => {
                proof {
                    lemma_evolves_trans(g0, gm, g.deep_view());
                }
                return Err(f);
            },
        };
        proof {
            lemma_evolves_trans(g0, gm, g.deep_view());
        }
        match res.into_snapshot() {
            Ok(data) => {
                proof {
                    assert(crate::context::spec_snapshot_ok(*core, gvv, data.deep_view()));
                    assert(crate::context::spec_some_expansion(*core, data.deep_view()));
                }
                Ok(data)
            },
            Err(_) => Err(throw("wrong result kind for Snapshot node")),
        }
    }

    /// The files-content intrinsic: select a directory digest for the
    /// subject, load the directory from the content store, and pack the
    /// materialized file contents.
    ///
    /// A success is always the packed contents of a directory the content
    /// store holds for some lifted digest.
    pub fn files_content(
        &self,
        core: &Core,
        g: &mut Graph,
        entry: crate::rules::EntryId,
        fuel: u64,
    ) -> (r: Result<Value, Failure>)
        requires
            spec_core_wf(*core),
            wf_graph(old(g).deep_view()),
            sound_memo(*core, old(g).deep_view().memo),
        ensures
            wf_graph(final(g).deep_view()),
            sound_memo(*core, final(g).deep_view().memo),
            evolves(old(g).deep_view(), final(g).deep_view()),
            r matches Ok(v) ==> exists|d: crate::vfs::DigestV, sd: crate::context::StoredDir|
                crate::context::spec_stored_dir_for(core.store_dirs@, d) == Some(sd)
                && value_view(v) == crate::snapshot::spec_store_files_content(
                    core.types,
                    sd.files.deep_view(),
                ),
            (fuel > 1 && entry < core.rule_graph.edges@.len()) ==> (
                spec_clause_literal(
                    *core,
                    self.subject,
                    self.variants.deep_view(),
                    crate::selectors::SelectV {
                        product: core.types.directory_digest,
                        variant_key: None,
                    },
                ) matches Some(dv) ==> (match crate::digest::spec_lift_digest(dv) {
                    None => crate::select::result_view(r)
                        == Err::<crate::values::ValueV, FailureV>(
                        crate::failure::spec_throw("Error parsing digest"@),
                    ),
                    Some(d) => match crate::context::spec_stored_dir_for(
                        core.store_dirs@,
                        d,
                    ) {
                        None => crate::select::result_view(r)
                            == Err::<crate::values::ValueV, FailureV>(
                            crate::failure::spec_throw("Could not find directory with digest"@),
                        ),
                        Some(sd) => r matches Ok(v) && value_view(v)
                            == crate::snapshot::spec_store_files_content(
                            core.types,
                            sd.files.deep_view(),
                        ),
                    },
                })
            ),
        decreases fuel,
    {
        let ghost g0 = g.deep_view();
        proof {
            lemma_evolves_refl(g0);
        }
        if fuel == 0 {
            return Err(throw("node evaluation budget exhausted"));
        }
        let edges = match core.rule_graph.edges_for(entry) {
            Some(e) => e,
            None => {
                return Err(throw("Expected edges to exist for FilesContent intrinsic"));
            },
        };
        let sel = crate::select::Select::new(
            core.types.directory_digest,
            self.subject,
            crate::selectors::variants_clone(&self.variants),
            edges,
        );
        proof {
            assert(spec_select_vv(sel) == Some(None::<Seq<char>>));
        }
        let digest_val = match sel.run(core, g, fuel - 1) {
            Ok(v) => v,
            Err(f) => {
                return Err(f);
            },
        };
        proof {
            lemma_evolves_refl(g.deep_view());
        }
        let digest = match crate::digest::lift_digest(&digest_val) {
            Ok(d) => d,
            Err(_) => {
                return Err(throw("Error parsing digest"));
            },
        };
        match core.stored_dir_for(&digest) {
            Some(sd) => Ok(crate::snapshot::Snapshot::store_files_content(&core.types, &sd.files)),
            None => Err(throw("Could not find directory with digest")),
        }
    }

    /// The process-execution intrinsic: select a process-request value for
    /// the subject, lift it into a typed request, and demand the
    /// `ExecuteProcess` node.
    ///
    /// A success is always the runner's recorded answer for some lifted
    /// request.
    pub fn execute_process(
        &self,
        core: &Core,
        g: &mut Graph,
        entry: crate::rules::EntryId,
        fuel: u64,
    ) -> (r: Result<ProcessResult, Failure>)
        requires
            spec_core_wf(*core),
            wf_graph(old(g).deep_view()),
            sound_memo(*core, old(g).deep_view().memo),
        ensures
            wf_graph(final(g).deep_view()),
            sound_memo(*core, final(g).deep_view().memo),
            evolves(old(g).deep_view(), final(g).deep_view()),
            r matches Ok(pr) ==> exists|q: crate::process::ExecuteProcessRequestV|
                #![trigger crate::context::spec_process_run_for(core.process_runs@, q)]
                (crate::context::spec_process_run_for(core.process_runs@, q)
                    matches Some(run) && run.result matches Ok(res)
                    && pr.deep_view() == res.deep_view()),
            (fuel > 1 && entry < core.rule_graph.edges@.len()) ==> (
                spec_clause_literal(
                    *core,
                    self.subject,
                    self.variants.deep_view(),
                    crate::selectors::SelectV {
                        product: core.types.process_request,
                        variant_key: None,
                    },
                ) matches Some(pv) ==> (match crate::process::spec_lift_process(pv) {
                    None => r matches Err(rf) && crate::failure::failure_view(rf)
                        == crate::failure::spec_throw("Error lifting ExecuteProcess"@),
                    Some(q) => !in_keys(
                        old(g).deep_view().running,
                        NodeKeyV::ExecuteProcess(q),
                    ) ==> (match spec_leaf_outcome(*core, NodeKeyV::ExecuteProcess(q)).unwrap() {
                        Ok(o) => r matches Ok(pr)
                            && NodeResultV::ProcessResult(pr.deep_view()) == o,
                        Err(f) => r matches Err(rf)
                            && crate::failure::failure_view(rf) == f,
                    }),
                })
            ),
        decreases fuel,
    {
        let ghost g0 = g.deep_view();
        proof {
            lemma_evolves_refl(g0);
        }
        if fuel == 0 {
            return Err(throw("node evaluation budget exhausted"));
        }
        let edges = match core.rule_graph.edges_for(entry) {
            Some(e) => e,
            None => {
                return Err(throw("Expected edges to exist for ExecuteProcess intrinsic"));
            },
        };
        let sel = crate::select::Select::new(
            core.types.process_request,
            self.subject,
            crate::selectors::variants_clone(&self.variants),
            edges,
        );
        proof {
            assert(spec_select_vv(sel) == Some(None::<Seq<char>>));
        }
        let request_val = match sel.run(core, g, fuel - 1) {
            Ok(v) => v,
            Err(f) => {
                return Err(f);
            },
        };
        let request = match crate::process::ExecuteProcess::lift(&request_val) {
            Ok(p) => p,
            Err(_) => {
                proof {
                    lemma_evolves_refl(g.deep_view());
                }
                return Err(throw("Error lifting ExecuteProcess"));
            },
        };
        let ghost qv = request.deep_view();
        let ghost gm = g.deep_view();
        let res = match get(core, g, NodeKey::ExecuteProcess(request), fuel - 1) {
            Ok(r) => r,
            Err(f) => {
                proof {
                    lemma_evolves_trans(g0, gm, g.deep_view());
                }
                return Err(f);
            },
        };
        proof {
            lemma_evolves_trans(g0, gm, g.deep_view());
        }
        match res.into_process_result() {
            Ok(pr) => {
                proof {
                    let kv = NodeKeyV::ExecuteProcess(qv);
                    assert(spec_leaf_outcome(*core, kv) is Some);
                    if memo_has(gm.memo, kv) || (fuel - 1 > 0 && !in_keys(gm.running, kv)) {
                        assert(node_outcome_view(Ok(res))
                            == spec_leaf_outcome(*core, kv).unwrap());
                    }
                }
                Ok(pr)
            },
            Err(_) => Err(throw("wrong result kind for ExecuteProcess node")),
        }
    }
}

/// What one candidate entry may contribute to a select: an id outside the
/// rule graph is the fixed error; an intrinsic entry's success is always a
/// packed value of the intrinsic's kind, drawn from the environment
/// (a task entry's outcome goes through the task node).
pub open spec fn spec_candidate_ok(
    c: Core,
    e: crate::rules::EntryId,
    el: Result<crate::values::ValueV, FailureV>,
) -> bool {
    if e >= c.rule_graph.entries@.len() {
        el == Err::<crate::values::ValueV, FailureV>(
            crate::failure::spec_throw("unknown rule entry"@),
        )
    } else {
        match c.rule_graph.entries@[e as int].rule {
            crate::rules::Rule::Task(_) => true,
            crate::rules::Rule::Intrinsic(crate::rules::IntrinsicKind::Snapshot) => (
                el matches Ok(v) ==> exists|d: crate::snapshot::SnapshotDataV|
                    #![trigger crate::snapshot::spec_store_snapshot(c.types, d)]
                    (crate::context::spec_some_expansion(c, d)
                        && v == crate::snapshot::spec_store_snapshot(c.types, d))
            ),
            crate::rules::Rule::Intrinsic(crate::rules::IntrinsicKind::FilesContent) => (
                el matches Ok(v) ==> exists|
                    dg: crate::vfs::DigestV,
                    sd: crate::context::StoredDir,
                |
                    #![trigger crate::context::spec_stored_dir_for(c.store_dirs@, dg),
                        sd.files.deep_view()]
                    (crate::context::spec_stored_dir_for(c.store_dirs@, dg) == Some(sd)
                        && v == crate::snapshot::spec_store_files_content(
                        c.types,
                        sd.files.deep_view(),
                    ))
            ),
            crate::rules::Rule::Intrinsic(crate::rules::IntrinsicKind::ProcessExecution) => (
                el matches Ok(v) ==> exists|q: crate::process::ExecuteProcessRequestV|
                    #![trigger crate::context::spec_process_run_for(c.process_runs@, q)]
                    (crate::context::spec_process_run_for(c.process_runs@, q)
                        matches Some(run) && run.result matches Ok(res)
                        && v == crate::process::spec_store_process_result(
                        c.types,
                        res.deep_view(),
                    ))
            ),
        }
    }
}

/// A task candidate's success is the memoized outcome of the task node it
/// schedules: the select's subject, product and variants pass through to
/// that node unchanged.
pub open spec fn task_entry_ok(
    c: Core,
    s: crate::select::Select,
    e: crate::rules::EntryId,
    el: Result<crate::values::ValueV, FailureV>,
    m: Seq<(NodeKeyV, Result<NodeResultV, FailureV>)>,
) -> bool {
    (e < c.rule_graph.entries@.len() && c.rule_graph.entries@[e as int].rule is Task)
        ==> (el matches Ok(v) ==> (
        memo_has(m, spec_task_key(c, s, e))
        && memo_lookup(m, spec_task_key(c, s, e))
            == Ok::<NodeResultV, FailureV>(NodeResultV::Value(v))
    ))
}

/// The task node a candidate entry schedules: the select's subject,
/// product and variants pass through unchanged, with the entry's task
/// definition.
pub open spec fn spec_task_key(
    c: Core,
    s: crate::select::Select,
    e: crate::rules::EntryId,
) -> NodeKeyV
    recommends
        e < c.rule_graph.entries@.len(),
        c.rule_graph.entries@[e as int].rule is Task,
{
    NodeKeyV::Task(crate::nodes::TaskNodeV {
        subject: s.subject,
        product: s.selector.product,
        variants: s.variants.deep_view(),
        task: c.rule_graph.entries@[e as int].rule->Task_0.deep_view(),
        entry: e,
    })
}

/// What a generator request resolves to when the subject itself answers
/// it (generator requests carry empty variants).
pub open spec fn spec_get_literal(
    c: Core,
    req: crate::values::GetRequest,
) -> Option<crate::values::ValueV> {
    match crate::context::spec_val_for(c, req.subject) {
        Some(sub) => crate::select::spec_literal(c.types, req.product, sub, None),
        None => None,
    }
}

/// The values a list of generator requests resolves to when the subjects
/// answer every request, in request order.
pub open spec fn spec_get_literals(
    c: Core,
    gets: Seq<crate::values::GetRequest>,
) -> Option<Seq<crate::values::ValueV>>
    decreases gets.len(),
{
    if gets.len() == 0 {
        Some(Seq::empty())
    } else {
        match (spec_get_literal(c, gets[0]), spec_get_literals(c, gets.drop_first())) {
            (Some(v), Some(rest)) => Some(seq![v] + rest),
            _ => None,
        }
    }
}

/// If the subjects answer every request, the resolved values line up with
/// the requests index by index.
proof fn lemma_get_literals_structure(c: Core, gets: Seq<crate::values::GetRequest>)
    ensures
        spec_get_literals(c, gets) matches Some(vs) ==> (
            vs.len() == gets.len()
            && forall|j: int| #![all_triggers] 0 <= j < gets.len()
                ==> spec_get_literal(c, gets[j]) == Some(vs[j])
        ),
    decreases gets.len(),
{
    if gets.len() > 0 {
        lemma_get_literals_structure(c, gets.drop_first());
        if spec_get_literals(c, gets) is Some {
            let vs = spec_get_literals(c, gets).unwrap();
            let rest = spec_get_literals(c, gets.drop_first()).unwrap();
            assert forall|j: int| 0 <= j < gets.len()
                implies spec_get_literal(c, #[trigger] gets[j]) == Some(vs[j]) by {
                if j > 0 {
                    assert(gets.drop_first()[j - 1] == gets[j]);
                    assert(vs[j] == rest[j - 1]);
                }
            }
        }
    }
}

/// What a generator step resolves to when the subjects answer it: the
/// single request's value for a `Get`, the tuple of request values in
/// request order for a `GetMulti`.
pub open spec fn spec_step_literal(
    c: Core,
    step: crate::values::GenStep,
) -> Option<crate::values::ValueV> {
    match step {
        crate::values::GenStep::GetStep(req) => spec_get_literal(c, req),
        crate::values::GenStep::GetMultiStep(reqs) => match spec_get_literals(c, reqs@) {
            Some(vs) => Some(crate::values::ValueV::TupleV(vs)),
            None => None,
        },
    }
}

/// The values a generator receives when the subjects answer every step.
pub open spec fn spec_step_literals(
    c: Core,
    steps: Seq<crate::values::GenStep>,
) -> Option<Seq<crate::values::ValueV>>
    decreases steps.len(),
{
    if steps.len() == 0 {
        Some(Seq::empty())
    } else {
        match (spec_step_literal(c, steps[0]), spec_step_literals(c, steps.drop_first())) {
            (Some(v), Some(rest)) => Some(seq![v] + rest),
            _ => None,
        }
    }
}

/// If the subjects answer every step, the received values line up with the
/// steps index by index.
proof fn lemma_step_literals_structure(c: Core, steps: Seq<crate::values::GenStep>)
    ensures
        spec_step_literals(c, steps) matches Some(rcv) ==> (
            rcv.len() == steps.len()
            && forall|j: int| #![all_triggers] 0 <= j < steps.len()
                ==> spec_step_literal(c, steps[j]) == Some(rcv[j])
        ),
    decreases steps.len(),
{
    if steps.len() > 0 {
        lemma_step_literals_structure(c, steps.drop_first());
        if spec_step_literals(c, steps) is Some {
            let rcv = spec_step_literals(c, steps).unwrap();
            let rest = spec_step_literals(c, steps.drop_first()).unwrap();
            assert forall|j: int| 0 <= j < steps.len()
                implies spec_step_literal(c, #[trigger] steps[j]) == Some(rcv[j]) by {
                if j > 0 {
                    assert(steps.drop_first()[j - 1] == steps[j]);
                    assert(rcv[j] == rest[j - 1]);
                }
            }
        }
    }
}

/// What a generator's final expression evaluates to, given the dependency
/// values it received: `None` when it references a dependency that was
/// never received.
pub open spec fn spec_eval_gen_expr(
    e: crate::values::GenExpr,
    rv: Seq<crate::values::ValueV>,
) -> Option<crate::values::ValueV>
    decreases e,
{
    match e {
        crate::values::GenExpr::IntE(i) => Some(crate::values::ValueV::IntV(i)),
        crate::values::GenExpr::StrE(s) => Some(crate::values::ValueV::StrV(s@)),
        crate::values::GenExpr::ReceivedE(i) => if i < rv.len() {
            Some(rv[i as int])
        } else {
            None
        },
        crate::values::GenExpr::PairE(a, b) => match (
            spec_eval_gen_expr(*a, rv),
            spec_eval_gen_expr(*b, rv),
        ) {
            (Some(x), Some(y)) => Some(crate::values::ValueV::TupleV(seq![x, y])),
            _ => None,
        },
    }
}

/// Evaluates a generator's final expression against the received
/// dependency values; a reference to a dependency that was never received
/// is a hard error.
fn eval_gen_expr(e: &crate::values::GenExpr, received: &Vec<Value>) -> (r: Result<Value, Failure>)
    ensures
        match r {
            Ok(v) => spec_eval_gen_expr(*e, crate::values::values_view(received@))
                == Some(value_view(v)),
            Err(f) => spec_eval_gen_expr(*e, crate::values::values_view(received@)) is None
                && crate::failure::failure_view(f) is Throw,
        },
    decreases *e,
{
    broadcast use crate::values::group_view_lemmas;

    match e {
        crate::values::GenExpr::IntE(i) => Ok(Value::IntV(*i)),
        crate::values::GenExpr::StrE(s) => Ok(Value::StrV(s.clone())),
        crate::values::GenExpr::ReceivedE(i) => {
            if *i < received.len() {
                Ok(crate::values::value_clone(&received[*i]))
            } else {
                Err(throw("generator referenced a missing dependency"))
            }
        },
        crate::values::GenExpr::PairE(a, b) => {
            let x = match eval_gen_expr(a, received) {
                Ok(v) => v,
                Err(f) => {
                    return Err(f);
                },
            };
            let y = match eval_gen_expr(b, received) {
                Ok(v) => v,
                Err(f) => {
                    return Err(f);
                },
            };
            let ghost xv = value_view(x);
            let ghost yv = value_view(y);
            let mut vs: Vec<Value> = Vec::new();
            vs.push(x);
            vs.push(y);
            proof {
                assert(crate::values::values_view(vs@) =~= seq![xv, yv]);
            }
            Ok(Value::TupleV(vs))
        },
    }
}

impl crate::nodes::Task {
    /// Runs selects for the requests a generator issued, converting any
    /// noop into a hard error: the generator explicitly asked for these
    /// values, so they are required.
    #[verifier::loop_isolation(false)]
    pub fn gen_get(
        core: &Core,
        g: &mut Graph,
        entry: crate::rules::EntryId,
        gets: &Vec<crate::values::GetRequest>,
        fuel: u64,
    ) -> (r: Result<Vec<Value>, Failure>)
        requires
            spec_core_wf(*core),
            wf_graph(old(g).deep_view()),
            sound_memo(*core, old(g).deep_view().memo),
        ensures
            wf_graph(final(g).deep_view()),
            sound_memo(*core, final(g).deep_view().memo),
            evolves(old(g).deep_view(), final(g).deep_view()),
            r matches Ok(vs) ==> vs@.len() == gets@.len(),
            r matches Err(f) ==> !(crate::failure::failure_view(f) is Noop),
            (fuel > 1 && entry < core.rule_graph.edges@.len()) ==> (
                spec_get_literals(*core, gets@) matches Some(vs0)
                    ==> (r matches Ok(vs) && crate::values::values_view(vs@) == vs0)
            ),
        decreases fuel,
    {
        broadcast use crate::values::group_view_lemmas;

        let ghost g0 = g.deep_view();
        let ghost lit = spec_get_literals(*core, gets@);
        proof {
            lemma_evolves_refl(g0);
            lemma_get_literals_structure(*core, gets@);
        }
        if fuel == 0 {
            return Err(throw("node evaluation budget exhausted"));
        }
        let mut out: Vec<Value> = Vec::new();
        let mut i: usize = 0;
        proof {
            if lit is Some {
                assert(crate::values::values_view(out@) =~= lit.unwrap().take(0));
            }
        }
        while i < gets.len()
            invariant
                i <= gets.len(),
                out@.len() == i,
                spec_core_wf(*core),
                wf_graph(g.deep_view()),
                sound_memo(*core, g.deep_view().memo),
                evolves(g0, g.deep_view()),
                fuel > 0,
                fuel > 1 ==> (lit matches Some(vs0)
                    ==> crate::values::values_view(out@) == vs0.take(i as int)),
            decreases gets.len() - i,
        {
            let ghost gm = g.deep_view();
            let request = gets[i];
            let edges = match core.rule_graph.edges_for(entry) {
                Some(e) => e,
                None => {
                    return Err(throw("Expected edges to exist for Task"));
                },
            };
            let entries = edges.entries_for_get(crate::rules::GetEdgeKey {
                product: request.product,
                subject_type: request.subject.type_id,
            });
            let sel = crate::select::Select::new_with_entries(
                request.product,
                request.subject,
                crate::selectors::Variants::empty(),
                entries,
            );
            proof {
                if fuel > 1 && lit is Some {
                    assert(spec_get_literal(*core, gets@[i as int])
                        == Some(lit.unwrap()[i as int]));
                    assert(spec_select_vv(sel) == Some(None::<Seq<char>>));
                }
            }
            match sel.run(core, g, fuel - 1) {
                Ok(v) => {
                    let ghost opre = out@;
                    out.push(v);
                    proof {
                        if fuel > 1 && lit is Some {
                            let vs0 = lit.unwrap();
                            assert(crate::values::value_view(v) == vs0[i as int]);
                            assert(crate::values::values_view(out@)
                                =~= crate::values::values_view(opre).push(vs0[i as int]));
                            assert(crate::values::values_view(out@)
                                =~= vs0.take(i as int + 1));
                        }
                    }
                },
                Err(f) => {
                    proof {
                        lemma_evolves_trans(g0, gm, g.deep_view());
                        if fuel > 1 && lit is Some {
                            assert(false);
                        }
                    }
                    return Err(crate::failure::was_required(f));
                },
            }
            proof {
                lemma_evolves_trans(g0, gm, g.deep_view());
            }
            i = i + 1;
        }
        proof {
            if fuel > 1 && lit is Some {
                assert(crate::values::values_view(out@) =~= lit.unwrap());
            }
        }
        Ok(out)
    }

    /// Drives a coroutine-style task body: each yielded request is
    /// resolved (as required), its value sent back in, and the body's
    /// final expression is the task's result. Strictly sequential: each
    /// request fully resolves before the next send.
    ///
    /// A success is always the final expression evaluated over one
    /// received value per step; a body with no steps returns exactly its
    /// final expression over no received values.
    #[verifier::loop_isolation(false)]
    pub fn generate(
        core: &Core,
        g: &mut Graph,
        entry: crate::rules::EntryId,
        program: &crate::values::GenProgram,
        fuel: u64,
    ) -> (r: Result<Value, Failure>)
        requires
            spec_core_wf(*core),
            wf_graph(old(g).deep_view()),
            sound_memo(*core, old(g).deep_view().memo),
        ensures
            wf_graph(final(g).deep_view()),
            sound_memo(*core, final(g).deep_view().memo),
            evolves(old(g).deep_view(), final(g).deep_view()),
            r matches Err(f) ==> !(crate::failure::failure_view(f) is Noop),
            r matches Ok(v) ==> exists|rcv: Seq<crate::values::ValueV>|
                #![trigger spec_eval_gen_expr(program.result, rcv)]
                (rcv.len() == program.steps@.len()
                    && spec_eval_gen_expr(program.result, rcv)
                        == Some(crate::values::value_view(v))),
            (fuel > 0 && program.steps@.len() == 0) ==> (
                final(g).deep_view() == old(g).deep_view()
                && (match spec_eval_gen_expr(program.result, Seq::empty()) {
                    Some(v) => crate::select::result_view(r)
                        == Ok::<crate::values::ValueV, FailureV>(v),
                    None => r matches Err(f) && crate::failure::failure_view(f) is Throw,
                })
            ),
            (fuel > 2 && entry < core.rule_graph.edges@.len()) ==> (
                spec_step_literals(*core, program.steps@) matches Some(rcv)
                    ==> (match spec_eval_gen_expr(program.result, rcv) {
                        Some(v) => crate::select::result_view(r)
                            == Ok::<crate::values::ValueV, FailureV>(v),
                        None => r matches Err(f)
                            && crate::failure::failure_view(f) is Throw,
                    })
            ),
        decreases fuel,
    {
        broadcast use crate::values::group_view_lemmas;

        let ghost g0 = g.deep_view();
        proof {
            lemma_evolves_refl(g0);
        }
        if fuel == 0 {
            return Err(throw("node evaluation budget exhausted"));
        }
        let ghost slit = spec_step_literals(*core, program.steps@);
        proof {
            lemma_step_literals_structure(*core, program.steps@);
        }
        let mut received: Vec<Value> = Vec::new();
        let mut i: usize = 0;
        proof {
            if slit is Some {
                assert(crate::values::values_view(received@) =~= slit.unwrap().take(0));
            }
        }
        while i < program.steps.len()
            invariant
                i <= program.steps.len(),
                received@.len() == i,
                program.steps@.len() == 0 ==> g.deep_view() == g0,
                spec_core_wf(*core),
                wf_graph(g.deep_view()),
                sound_memo(*core, g.deep_view().memo),
                evolves(g0, g.deep_view()),
                fuel > 0,
                (fuel > 2 && entry < core.rule_graph.edges@.len()) ==> (slit matches Some(rcv)
                    ==> crate::values::values_view(received@) == rcv.take(i as int)),
            decreases program.steps.len() - i,
        {
            let ghost gm = g.deep_view();
            let ghost lit_ok = fuel > 2 && entry < core.rule_graph.edges@.len()
                && slit is Some;
            let input: Value = match &program.steps[i] {
                crate::values::GenStep::GetStep(req) => {
                    let mut reqs: Vec<crate::values::GetRequest> = Vec::new();
                    reqs.push(*req);
                    proof {
                        if lit_ok {
                            assert(spec_step_literal(*core, program.steps@[i as int])
                                == Some(slit.unwrap()[i as int]));
                            assert(program.steps@[i as int]
                                == crate::values::GenStep::GetStep(*req));
                            assert(spec_get_literal(*core, *req)
                                == Some(slit.unwrap()[i as int]));
                            assert(reqs@ =~= seq![*req]);
                            assert(reqs@[0] == *req);
                            assert(reqs@.drop_first() =~= Seq::<
                                crate::values::GetRequest,
                            >::empty());
                            assert(spec_get_literals(*core, reqs@.drop_first())
                                == Some(Seq::<crate::values::ValueV>::empty()));
                            assert(spec_get_literals(*core, reqs@) == Some(
                                seq![spec_get_literal(*core, *req).unwrap()]
                                    + Seq::<crate::values::ValueV>::empty(),
                            ));
                            assert(seq![spec_get_literal(*core, *req).unwrap()]
                                + Seq::<crate::values::ValueV>::empty()
                                =~= seq![spec_get_literal(*core, *req).unwrap()]);
                        }
                    }
                    match Self::gen_get(core, g, entry, &reqs, fuel - 1) {
                        Ok(mut vs) => {
                            let ghost vsv = vs@;
                            match vs.pop() {
                                Some(v) => {
                                    proof {
                                        if lit_ok {
                                            assert(v == vsv[0]);
                                            crate::values::lemma_values_view_index(vsv, 0);
                                            assert(crate::values::value_view(v)
                                                == slit.unwrap()[i as int]);
                                        }
                                    }
                                    v
                                },
                                None => {
                                    proof {
                                        lemma_evolves_trans(g0, gm, g.deep_view());
                                    }
                                    return Err(throw("generator dependency missing"));
                                },
                            }
                        },
                        Err(f) => {
                            proof {
                                lemma_evolves_trans(g0, gm, g.deep_view());
                                if lit_ok {
                                    assert(false);
                                }
                            }
                            return Err(f);
                        },
                    }
                },
                crate::values::GenStep::GetMultiStep(reqs) => {
                    match Self::gen_get(core, g, entry, reqs, fuel - 1) {
                        Ok(vs) => {
                            let input = Value::TupleV(vs);
                            proof {
                                if lit_ok {
                                    assert(spec_step_literal(
                                        *core,
                                        program.steps@[i as int],
                                    ) == Some(slit.unwrap()[i as int]));
                                    assert(crate::values::value_view(input)
                                        == slit.unwrap()[i as int]);
                                }
                            }
                            input
                        },
                        Err(f) => {
                            proof {
                                lemma_evolves_trans(g0, gm, g.deep_view());
                                if lit_ok {
                                    assert(false);
                                }
                            }
                            return Err(f);
                        },
                    }
                },
            };
            let ghost rpre = received@;
            received.push(input);
            proof {
                lemma_evolves_trans(g0, gm, g.deep_view());
                if lit_ok {
                    let rcv = slit.unwrap();
                    assert(crate::values::values_view(received@)
                        =~= crate::values::values_view(rpre).push(rcv[i as int]));
                    assert(crate::values::values_view(received@) =~= rcv.take(i as int + 1));
                }
            }
            i = i + 1;
        }
        proof {
            crate::values::lemma_values_view_len(received@);
            if program.steps@.len() == 0 {
                assert(crate::values::values_view(received@) =~= Seq::<
                    crate::values::ValueV,
                >::empty());
            }
            if fuel > 2 && entry < core.rule_graph.edges@.len() && slit is Some {
                assert(crate::values::values_view(received@) =~= slit.unwrap());
            }
        }
        eval_gen_expr(&program.result, &received)
    }

    /// Evaluates this user rule: its dependency clause is fanned out (each
    /// selector as a required dependency — a noop there is fatal), the
    /// function is invoked with the settled values, and a coroutine-style
    /// return value is driven to completion.
    ///
    /// A task never reports a noop: a missing dependency is a hard error.
    /// When the subject answers the whole clause literally, the result is
    /// exactly the invoked function's (for the directly visible function
    /// behaviours).
    #[verifier::loop_isolation(false)]
    pub fn run(&self, core: &Core, g: &mut Graph, fuel: u64) -> (r: Result<Value, Failure>)
        requires
            spec_core_wf(*core),
            wf_graph(old(g).deep_view()),
            sound_memo(*core, old(g).deep_view().memo),
        ensures
            wf_graph(final(g).deep_view()),
            sound_memo(*core, final(g).deep_view().memo),
            evolves(old(g).deep_view(), final(g).deep_view()),
            r matches Err(f) ==> !(crate::failure::failure_view(f) is Noop),
            (fuel > 1
                && (self.task.clause@.len() == 0
                    || self.entry < core.rule_graph.edges@.len())) ==> (
                spec_task_literal_deps(*core, *self) matches Some(ds)
                    ==> (spec_invoke(*core, self.task.func, ds) matches Some(o)
                        ==> crate::select::result_view(r) == o)
            ),
            spec_task_literal_deps(*core, *self) matches Some(ds) ==> (
                spec_invoke(*core, self.task.func, ds) matches Some(o)
                    ==> (r matches Ok(v)
                        ==> o == Ok::<crate::values::ValueV, FailureV>(
                        crate::values::value_view(v),
                    ))
            ),
        decreases fuel,
    {
        broadcast use crate::values::group_view_lemmas;

        let ghost g0 = g.deep_view();
        let ghost lit = spec_task_literal_deps(*core, *self);
        proof {
            lemma_evolves_refl(g0);
            lemma_clause_literals_structure(
                *core,
                self.subject,
                self.variants.deep_view(),
                self.task.clause.deep_view(),
            );
        }
        if fuel == 0 {
            return Err(throw("node evaluation budget exhausted"));
        }
        let mut deps: Vec<Value> = Vec::new();
        let mut i: usize = 0;
        proof {
            if lit is Some {
                assert(crate::values::values_view(deps@) =~= lit.unwrap().take(0));
            }
        }
        while i < self.task.clause.len()
            invariant
                i <= self.task.clause.len(),
                deps@.len() == i,
                spec_core_wf(*core),
                wf_graph(g.deep_view()),
                sound_memo(*core, g.deep_view().memo),
                evolves(g0, g.deep_view()),
                fuel > 0,
                (fuel <= 1 && self.task.clause@.len() > 0) ==> i == 0,
                fuel > 1 ==> (lit matches Some(ds)
                    ==> crate::values::values_view(deps@) == ds.take(i as int)),
            decreases self.task.clause.len() - i,
        {
            let ghost gm = g.deep_view();
            let edges = match core.rule_graph.edges_for(self.entry) {
                Some(e) => e,
                None => {
                    return Err(throw("Expected edges to exist for Task"));
                },
            };
            let sel = crate::select::Select::new_with_selector(
                &core.rule_graph,
                crate::selectors::selector_clone(&self.task.clause[i]),
                self.subject,
                crate::selectors::variants_clone(&self.variants),
                edges,
            );
            proof {
                if fuel > 1 && lit is Some {
                    assert(self.task.clause.deep_view()[i as int]
                        == self.task.clause@[i as int].deep_view());
                    assert(spec_clause_literal(
                        *core,
                        self.subject,
                        self.variants.deep_view(),
                        self.task.clause.deep_view()[i as int],
                    ) == Some(lit.unwrap()[i as int]));
                    assert(spec_select_vv(sel) == spec_vv_of(
                        self.task.clause.deep_view()[i as int].variant_key,
                        self.variants.deep_view(),
                    ));
                }
            }
            match sel.run(core, g, fuel - 1) {
                Ok(v) => {
                    let ghost dpre = deps@;
                    deps.push(v);
                    proof {
                        if fuel > 1 && lit is Some {
                            let ds = lit.unwrap();
                            assert(crate::values::value_view(v) == ds[i as int]);
                            assert(crate::values::values_view(deps@)
                                =~= crate::values::values_view(dpre).push(ds[i as int]));
                            assert(crate::values::values_view(deps@)
                                =~= ds.take(i as int + 1));
                        }
                    }
                },
                Err(f) => {
                    proof {
                        lemma_evolves_trans(g0, gm, g.deep_view());
                    }
                    return Err(crate::failure::was_required(f));
                },
            }
            proof {
                lemma_evolves_trans(g0, gm, g.deep_view());
            }
            i = i + 1;
        }
        proof {
            if fuel > 1 && lit is Some {
                assert(crate::values::values_view(deps@) =~= lit.unwrap());
            }
            if lit is Some && self.task.clause@.len() == 0 {
                assert(crate::values::values_view(deps@) =~= lit.unwrap());
            }
        }
        let func = match core.func_for(self.task.func) {
            Some(f) => f,
            None => {
                return Err(throw("unknown task function"));
            },
        };
        let result: Value = match func {
            crate::rules::FuncDef::ConstFn(v) => crate::values::value_clone(v),
            crate::rules::FuncDef::StrLenFn => {
                if deps.len() < 1 {
                    return Err(throw("len requires an argument"));
                }
                match &deps[0] {
                    Value::StrV(s) => {
                        let n = s.unicode_len();
                        if n as u64 > i64::MAX as u64 {
                            return Err(throw("string length overflows"));
                        }
                        Value::IntV(n as i64)
                    },
                    _ => {
                        return Err(throw("len requires a string argument"));
                    },
                }
            },
            crate::rules::FuncDef::GeneratorFn(p) => Value::GenV(
                crate::values::gen_program_clone(p),
            ),
            crate::rules::FuncDef::RaiseFn(msg) => {
                return Err(throw(msg.as_str()));
            },
        };
        match result {
            Value::GenV(p) => {
                let ghost gm = g.deep_view();
                let r = Self::generate(core, g, self.entry, &p, fuel - 1);
                proof {
                    lemma_evolves_trans(g0, gm, g.deep_view());
                }
                r
            },
            other => Ok(other),
        }
    }
}

} // verus!
