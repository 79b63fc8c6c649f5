//! The static rule index the engine dispatches over, and the model of
//! user-authored task functions.
//!
//! The rule graph is precomputed and read-only: it maps a dependency request
//! to the candidate rule entries that might satisfy it, and per entry the
//! edges available to that entry's own dependencies.

use vstd::prelude::*;

use crate::selectors;
use crate::selectors::SelectV;
use crate::values::{GenProgram, GenProgramV, TypeId, Value, ValueV, gen_program_view, value_view};

verus! {

/// Identifies one candidate rule entry in the rule graph.
pub type EntryId = u64;

/// Identifies a user-authored task function.
pub type FuncId = u64;

/// A user rule: a function and the dependency clause handed to it.
#[derive(Debug, PartialEq, Eq)]
pub struct TaskDef {
    pub func: FuncId,
    pub clause: Vec<selectors::Select>,
}

/// Mathematical view of a `TaskDef`.
pub struct TaskDefV {
    pub func: FuncId,
    pub clause: Seq<SelectV>,
}

impl DeepView for TaskDef {
    type V = TaskDefV;

    open spec fn deep_view(&self) -> TaskDefV {
        TaskDefV { func: self.func, clause: self.clause.deep_view() }
    }
}

/// Copies a task definition; the copy has the same mathematical view.
#[verifier::loop_isolation(false)]
pub fn task_def_clone(t: &TaskDef) -> (r: TaskDef)
    ensures
        r.deep_view() == t.deep_view(),
{
    let mut clause: Vec<selectors::Select> = Vec::new();
    let mut i: usize = 0;
    while i < t.clause.len()
        invariant
            i <= t.clause.len(),
            clause@.len() == i,
            forall|j: int| #![all_triggers] 0 <= j < i
                ==> clause@[j].deep_view() == t.clause@[j].deep_view(),
        decreases t.clause.len() - i,
    {
        clause.push(selectors::selector_clone(&t.clause[i]));
        i = i + 1;
    }
    let r = TaskDef { func: t.func, clause };
    proof {
        assert(r.deep_view().clause =~= t.deep_view().clause);
    }
    r
}

/// Compares two task definitions; true exactly when their views are equal.
#[verifier::loop_isolation(false)]
pub fn task_def_eq(a: &TaskDef, b: &TaskDef) -> (r: bool)
    ensures
        r == (a.deep_view() == b.deep_view()),
{
    if a.func != b.func || a.clause.len() != b.clause.len() {
        proof {
            assert(a.deep_view().clause.len() == a.clause@.len());
            assert(b.deep_view().clause.len() == b.clause@.len());
        }
        return false;
    }
    let mut i: usize = 0;
    while i < a.clause.len()
        invariant
            i <= a.clause.len(),
            a.func == b.func,
            a.clause@.len() == b.clause@.len(),
            forall|j: int| #![all_triggers] 0 <= j < i
                ==> a.deep_view().clause[j] == b.deep_view().clause[j],
        decreases a.clause.len() - i,
    {
        if !selectors::selector_eq(&a.clause[i], &b.clause[i]) {
            proof {
                assert(a.deep_view().clause[i as int] != b.deep_view().clause[i as int]);
            }
            return false;
        }
        i = i + 1;
    }
    proof {
        assert(a.deep_view().clause =~= b.deep_view().clause);
    }
    true
}

/// The engine-supplied rules, one per special product type.
#[derive(Debug, Clone, Copy, PartialEq, Eq, Structural)]
pub enum IntrinsicKind {
    Snapshot,
    FilesContent,
    ProcessExecution,
}

/// What a rule entry resolves to: a user task or an engine intrinsic.
#[derive(Debug, PartialEq, Eq)]
pub enum Rule {
    Task(TaskDef),
    Intrinsic(IntrinsicKind),
}

/// Mathematical view of a `Rule`.
pub enum RuleV {
    Task(TaskDefV),
    Intrinsic(IntrinsicKind),
}

impl DeepView for Rule {
    type V = RuleV;

    open spec fn deep_view(&self) -> RuleV {
        match self {
            Rule::Task(t) => RuleV::Task(t.deep_view()),
            Rule::Intrinsic(k) => RuleV::Intrinsic(*k),
        }
    }
}

/// One candidate for producing a product: the rule, restricted to subjects
/// of one type.
#[derive(Debug, PartialEq, Eq)]
pub struct RuleEntry {
    pub subject_type: TypeId,
    pub rule: Rule,
}

/// Mathematical view of a `RuleEntry`.
pub struct RuleEntryV {
    pub subject_type: TypeId,
    pub rule: RuleV,
}

impl DeepView for RuleEntry {
    type V = RuleEntryV;

    open spec fn deep_view(&self) -> RuleEntryV {
        RuleEntryV { subject_type: self.subject_type, rule: self.rule.deep_view() }
    }
}

/// Key of a generator-issued request in the edge index.
#[derive(Debug, Clone, Copy, PartialEq, Eq, Structural)]
pub struct GetEdgeKey {
    pub product: TypeId,
    pub subject_type: TypeId,
}

impl DeepView for GetEdgeKey {
    type V = GetEdgeKey;

    open spec fn deep_view(&self) -> GetEdgeKey {
        *self
    }
}

/// The dependency edges available to one position in the rule graph: which
/// candidate entries may answer each selector, and each generator request.
#[derive(Debug, PartialEq, Eq)]
pub struct RuleEdges {
    pub select_edges: Vec<(selectors::Select, Vec<EntryId>)>,
    pub get_edges: Vec<(GetEdgeKey, Vec<EntryId>)>,
}

/// Mathematical view of `RuleEdges`.
pub struct RuleEdgesV {
    pub select_edges: Seq<(SelectV, Seq<EntryId>)>,
    pub get_edges: Seq<(GetEdgeKey, Seq<EntryId>)>,
}

impl DeepView for RuleEdges {
    type V = RuleEdgesV;

    open spec fn deep_view(&self) -> RuleEdgesV {
        RuleEdgesV {
            select_edges: self.select_edges.deep_view(),
            get_edges: self.get_edges.deep_view(),
        }
    }
}

/// Candidate entries for a selector: those of the first edge whose selector
/// matches, none otherwise.
pub open spec fn spec_entries_for(
    edges: Seq<(SelectV, Seq<EntryId>)>,
    selector: SelectV,
) -> Seq<EntryId>
    decreases edges.len(),
{
    if edges.len() == 0 {
        Seq::empty()
    } else if edges[0].0 == selector {
        edges[0].1
    } else {
        spec_entries_for(edges.drop_first(), selector)
    }
}

/// Candidate entries for a generator request: those of the first edge whose
/// key matches, none otherwise.
pub open spec fn spec_entries_for_get(
    edges: Seq<(GetEdgeKey, Seq<EntryId>)>,
    key: GetEdgeKey,
) -> Seq<EntryId>
    decreases edges.len(),
{
    if edges.len() == 0 {
        Seq::empty()
    } else if edges[0].0 == key {
        edges[0].1
    } else {
        spec_entries_for_get(edges.drop_first(), key)
    }
}

/// Copies a list of entry ids.
pub fn entry_ids_copy(ids: &Vec<EntryId>) -> (r: Vec<EntryId>)
    ensures
        r@ == ids@,
{
    let mut r: Vec<EntryId> = Vec::new();
    let mut i: usize = 0;
    while i < ids.len()
        invariant
            i <= ids.len(),
            r@ =~= ids@.subrange(0, i as int),
        decreases ids.len() - i,
    {
        r.push(ids[i]);
        i = i + 1;
    }
    assert(r@ =~= ids@);
    r
}

impl RuleEdges {
    /// The candidate entries these edges offer for a selector.
    #[verifier::loop_isolation(false)]
    pub fn entries_for(&self, selector: &selectors::Select) -> (r: Vec<EntryId>)
        ensures
            r@ == spec_entries_for(self.deep_view().select_edges, selector.deep_view()),
    {
        let ghost ev = self.select_edges.deep_view();
        let mut i: usize = 0;
        proof {
            assert(ev.skip(0) =~= ev);
        }
        while i < self.select_edges.len()
            invariant
                i <= self.select_edges.len(),
                spec_entries_for(ev, selector.deep_view())
                    == spec_entries_for(ev.skip(i as int), selector.deep_view()),
            decreases self.select_edges.len() - i,
        {
            proof {
                assert(ev.skip(i as int)[0] == ev[i as int]);
            }
            if selectors::selector_eq(&self.select_edges[i].0, selector) {
                return entry_ids_copy(&self.select_edges[i].1);
            }
            proof {
                assert(ev.skip(i as int).drop_first() =~= ev.skip(i as int + 1));
            }
            i = i + 1;
        }
        proof {
            assert(ev.skip(self.select_edges@.len() as int).len() == 0);
        }
        Vec::new()
    }

    /// The candidate entries these edges offer for a generator request.
    #[verifier::loop_isolation(false)]
    pub fn entries_for_get(&self, key: GetEdgeKey) -> (r: Vec<EntryId>)
        ensures
            r@ == spec_entries_for_get(self.deep_view().get_edges, key),
    {
        let ghost ev = self.get_edges.deep_view();
        let mut i: usize = 0;
        proof {
            assert(ev.skip(0) =~= ev);
        }
        while i < self.get_edges.len()
            invariant
                i <= self.get_edges.len(),
                spec_entries_for_get(ev, key) == spec_entries_for_get(ev.skip(i as int), key),
            decreases self.get_edges.len() - i,
        {
            proof {
                assert(ev.skip(i as int)[0] == ev[i as int]);
            }
            if self.get_edges[i].0 == key {
                return entry_ids_copy(&self.get_edges[i].1);
            }
            proof {
                assert(ev.skip(i as int).drop_first() =~= ev.skip(i as int + 1));
            }
            i = i + 1;
        }
        proof {
            assert(ev.skip(self.get_edges@.len() as int).len() == 0);
        }
        Vec::new()
    }
}

/// The precomputed rule index: entries by id, and per entry the edges its
/// own dependencies may use.
#[derive(Debug, PartialEq, Eq)]
pub struct RuleGraph {
    pub entries: Vec<RuleEntry>,
    pub edges: Vec<RuleEdges>,
}

impl RuleGraph {
    /// The rule entry behind an id, if the id is in range.
    pub fn entry_for(&self, id: EntryId) -> (r: Option<&RuleEntry>)
        ensures
            match r {
                Some(e) => id < self.entries@.len()
                    && e.deep_view() == self.entries.deep_view()[id as int],
                None => id >= self.entries@.len(),
            },
    {
        if id < self.entries.len() as u64 {
            let e = &self.entries[id as usize];
            proof {
                assert(self.entries.deep_view()[id as int] == self.entries@[id as int].deep_view());
            }
            Some(e)
        } else {
            None
        }
    }

    /// The dependency edges available to an entry, if the id is in range.
    pub fn edges_for(&self, id: EntryId) -> (r: Option<&RuleEdges>)
        ensures
            match r {
                Some(e) => id < self.edges@.len()
                    && e.deep_view() == self.edges.deep_view()[id as int],
                None => id >= self.edges@.len(),
            },
    {
        if id < self.edges.len() as u64 {
            let e = &self.edges[id as usize];
            proof {
                assert(self.edges.deep_view()[id as int] == self.edges@[id as int].deep_view());
            }
            Some(e)
        } else {
            None
        }
    }
}

/// The model of a user-authored task function: what the engine can observe
/// of calling it with its dependency values.
#[derive(Debug, PartialEq, Eq)]
pub enum FuncDef {
    /// Ignores its arguments and returns a fixed value.
    ConstFn(Value),
    /// Returns the length of its first (string) argument.
    StrLenFn,
    /// Returns a coroutine that the engine must drive.
    GeneratorFn(GenProgram),
    /// Raises an error with the given message.
    RaiseFn(String),
}

/// Mathematical view of a `FuncDef`.
pub enum FuncDefV {
    ConstFn(ValueV),
    StrLenFn,
    GeneratorFn(GenProgramV),
    RaiseFn(Seq<char>),
}

impl DeepView for FuncDef {
    type V = FuncDefV;

    open spec fn deep_view(&self) -> FuncDefV {
        match self {
            FuncDef::ConstFn(v) => FuncDefV::ConstFn(value_view(*v)),
            FuncDef::StrLenFn => FuncDefV::StrLenFn,
            FuncDef::GeneratorFn(p) => FuncDefV::GeneratorFn(gen_program_view(*p)),
            FuncDef::RaiseFn(m) => FuncDefV::RaiseFn(m@),
        }
    }
}

} // verus!
