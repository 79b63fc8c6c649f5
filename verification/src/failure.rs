//! The failure taxonomy threaded through every node result.
//!
//! `Noop` means "this candidate had nothing to say"; it is compositional and
//! carries a reason whose severity decides which reason survives when a
//! `Select` absorbs several noops. `Throw` is a hard, user-visible error.
//! `Invalidated` means the inputs changed mid-computation and dominates
//! everything.

use vstd::prelude::*;

use crate::values::{value_clone, value_view, Value, ValueV};

verus! {

/// Reason a candidate produced nothing, ordered by severity:
/// `NoTask < NoVariant < Cycle`.
#[derive(Debug, Clone, Copy, PartialEq, Eq, Structural)]
pub enum Noop {
    NoTask,
    NoVariant,
    Cycle,
}

/// Severity rank of a noop reason: `NoTask < NoVariant < Cycle`.
pub open spec fn spec_severity(n: Noop) -> int {
    match n {
        Noop::NoTask => 0,
        Noop::NoVariant => 1,
        Noop::Cycle => 2,
    }
}

/// Severity rank of a noop reason.
pub fn severity(n: Noop) -> (r: u32)
    ensures
        r as int == spec_severity(n),
{
    match n {
        Noop::NoTask => 0,
        Noop::NoVariant => 1,
        Noop::Cycle => 2,
    }
}

/// The more severe of two noop reasons.
pub open spec fn spec_noop_max(a: Noop, b: Noop) -> Noop {
    if spec_severity(b) > spec_severity(a) {
        b
    } else {
        a
    }
}

/// The more severe of two noop reasons.
pub fn noop_max(a: Noop, b: Noop) -> (r: Noop)
    ensures
        r == spec_noop_max(a, b),
{
    if severity(b) > severity(a) {
        b
    } else {
        a
    }
}

/// How a node evaluation can fail.
#[derive(Debug, PartialEq, Eq)]
pub enum Failure {
    /// No candidate applied; absorbed by a sibling success in a `Select`.
    Noop(Noop),
    /// A hard error: the offending value and a traceback.
    Throw(Value, String),
    /// The inputs changed mid-computation; the caller must retry.
    Invalidated,
}

/// Mathematical view of a `Failure`.
pub enum FailureV {
    Noop(Noop),
    Throw(ValueV, Seq<char>),
    Invalidated,
}

/// Mathematical view of a `Failure`.
pub open spec fn failure_view(f: Failure) -> FailureV {
    match f {
        Failure::Noop(n) => FailureV::Noop(n),
        Failure::Throw(v, t) => FailureV::Throw(value_view(v), t@),
        Failure::Invalidated => FailureV::Invalidated,
    }
}

/// Copies a failure; the copy has the same mathematical view.
pub fn failure_clone(f: &Failure) -> (res: Failure)
    ensures
        failure_view(res) == failure_view(*f),
{
    match f {
        Failure::Noop(n) => Failure::Noop(*n),
        Failure::Throw(v, t) => Failure::Throw(value_clone(v), t.clone()),
        Failure::Invalidated => Failure::Invalidated,
    }
}

impl Clone for Failure {
    fn clone(&self) -> (res: Self)
        ensures
            failure_view(res) == failure_view(*self),
    {
        failure_clone(self)
    }
}

impl Failure {
    /// The failure the store reports when a node's inputs changed while it
    /// ran.
    pub fn invalidated() -> (f: Failure)
        ensures
            failure_view(f) == FailureV::Invalidated,
    {
        Failure::Invalidated
    }

    /// The failure the store reports for a dependency cycle: the highest
    /// severity noop, so that a cycle outranks a plain missing rule.
    pub fn cyclic() -> (f: Failure)
        ensures
            failure_view(f) == FailureV::Noop(Noop::Cycle),
    {
        Failure::Noop(Noop::Cycle)
    }
}

/// The traceback attached to errors raised inside the engine itself.
pub open spec fn spec_traceback() -> Seq<char> {
    "<engine internals>"@
}

/// The hard failure the engine raises for a message.
pub open spec fn spec_throw(msg: Seq<char>) -> FailureV {
    FailureV::Throw(ValueV::StrV(msg), spec_traceback())
}

/// Wraps a message into a hard `Throw` failure.
pub fn throw(msg: &str) -> (f: Failure)
    ensures
        failure_view(f) == spec_throw(msg@),
{
    Failure::Throw(Value::StrV(msg.to_owned()), "<engine internals>".to_owned())
}

/// Short name of a noop reason, for error messages.
pub open spec fn spec_noop_name(n: Noop) -> Seq<char> {
    match n {
        Noop::NoTask => "NoTask"@,
        Noop::NoVariant => "NoVariant"@,
        Noop::Cycle => "Cycle"@,
    }
}

/// Short name of a noop reason, for error messages.
pub fn noop_name(n: Noop) -> (r: &'static str)
    ensures
        r@ == spec_noop_name(n),
{
    match n {
        Noop::NoTask => "NoTask",
        Noop::NoVariant => "NoVariant",
        Noop::Cycle => "Cycle",
    }
}

/// What `was_required` turns a failure into.
pub open spec fn spec_was_required(f: FailureV) -> FailureV {
    match f {
        FailureV::Noop(n) => FailureV::Throw(
            ValueV::StrV("No source of required dependency: "@ + spec_noop_name(n)),
            spec_traceback(),
        ),
        _ => f,
    }
}

/// Marks a dependency's failure as required: a `Noop` is fatal at a
/// required boundary and becomes a `Throw` naming the missing dependency;
/// every other failure passes through unchanged.
pub fn was_required(failure: Failure) -> (r: Failure)
    ensures
        failure_view(r) == spec_was_required(failure_view(failure)),
{
    match failure {
        Failure::Noop(noop) => {
            let mut msg = "No source of required dependency: ".to_owned();
            msg.append(noop_name(noop));
            Failure::Throw(Value::StrV(msg), "<engine internals>".to_owned())
        },
        f => f,
    }
}

} // verus!
