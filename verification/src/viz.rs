//! Visualization and tracing hooks for the graph store's debug views.
//!
//! The visualizer colors nodes for graph export: white for pending or
//! noop, one fixed color for `Throw`, another for `Invalidated`, and a
//! round-robin palette of twelve colors indexed by a node's product label
//! for successes. The tracer decides which nodes are "bottom" in a debug
//! render and how a node's state prints.

use vstd::prelude::*;

use crate::digest::{nibble_str, spec_hex_char, spec_hex_encode, to_hex};
use crate::failure::{noop_name, spec_noop_name, Failure, FailureV, failure_view};
use crate::nodes::{node_key_view, node_result_view, NodeKey, NodeKeyV, NodeResult, NodeResultV};
use crate::selectors::spec_variants_find;
use crate::values::{Value, ValueV, value_view};

verus! {

/// The decimal rendering of an unsigned number, most significant digit
/// first, without leading zeros.
pub open spec fn spec_render_u64(n: int) -> Seq<char>
    decreases n,
{
    if n < 10 {
        seq![spec_hex_char(if n < 0 { 0 } else { n })]
    } else {
        spec_render_u64(n / 10) + seq![spec_hex_char(n % 10)]
    }
}

/// Renders an unsigned number in decimal.
pub fn render_u64(n: u64) -> (r: String)
    ensures
        r@ == spec_render_u64(n as int),
    decreases n,
{
    if n < 10 {
        let mut out = String::new();
        out.append(nibble_str(n as u8));
        proof {
            assert(out@ =~= spec_render_u64(n as int));
        }
        out
    } else {
        let mut out = render_u64(n / 10);
        out.append(nibble_str((n % 10) as u8));
        proof {
            assert(out@ =~= spec_render_u64(n as int));
        }
        out
    }
}

/// The label a node's product prints as: the fixed result-type name of the
/// single-purpose kinds, and the decimal product type id of a `Select` or
/// `Task`.
pub open spec fn spec_product_str(k: NodeKeyV) -> Seq<char> {
    match k {
        NodeKeyV::ExecuteProcess(_) => "ProcessResult"@,
        NodeKeyV::Select(s) => spec_render_u64(s.selector.product as int),
        NodeKeyV::Task(t) => spec_render_u64(t.product as int),
        NodeKeyV::Snapshot(_) => "Snapshot"@,
        NodeKeyV::DigestFile(_) => "DigestFile"@,
        NodeKeyV::ReadLink(_) => "LinkDest"@,
        NodeKeyV::Scandir(_) => "DirectoryListing"@,
    }
}

impl NodeKey {
    /// The label this node's product prints as.
    pub fn product_str(&self) -> (r: String)
        ensures
            r@ == spec_product_str(node_key_view(*self)),
    {
        match self {
            NodeKey::ExecuteProcess(_) => "ProcessResult".to_owned(),
            NodeKey::Select(s) => render_u64(s.selector.product),
            NodeKey::Task(t) => render_u64(t.product),
            NodeKey::Snapshot(_) => "Snapshot".to_owned(),
            NodeKey::DigestFile(_) => "DigestFile".to_owned(),
            NodeKey::ReadLink(_) => "LinkDest".to_owned(),
            NodeKey::Scandir(_) => "DirectoryListing".to_owned(),
        }
    }
}

/// How a node key prints in debug output.
pub open spec fn spec_format(k: NodeKeyV) -> Seq<char> {
    match k {
        NodeKeyV::DigestFile(p) => "DigestFile("@ + spec_hex_encode(p) + ")"@,
        NodeKeyV::ExecuteProcess(q) => "ExecuteProcess("@ + q.description + ")"@,
        NodeKeyV::ReadLink(p) => "ReadLink("@ + spec_hex_encode(p) + ")"@,
        NodeKeyV::Scandir(p) => "Scandir("@ + spec_hex_encode(p) + ")"@,
        NodeKeyV::Select(s) => "Select("@ + spec_render_u64(s.subject.id as int) + ", "@
            + spec_render_u64(s.selector.product as int) + ")"@,
        NodeKeyV::Task(t) => "Task("@ + spec_render_u64(t.task.func as int) + ", "@
            + spec_render_u64(t.subject.id as int) + ", "@
            + spec_render_u64(t.product as int) + ")"@,
        NodeKeyV::Snapshot(g) => "Snapshot("@ + spec_render_u64(g.globs.len() as int)
            + " globs)"@,
    }
}

impl NodeKey {
    /// A debug rendering of this node key: its kind and its identifying
    /// inputs (paths as hex bytes, interned ids in decimal).
    pub fn format(&self) -> (r: String)
        ensures
            r@ == spec_format(node_key_view(*self)),
    {
        match self {
            NodeKey::DigestFile(f) => {
                let mut out = "DigestFile(".to_owned();
                out.append(to_hex(&f.0.0).as_str());
                out.append(")");
                out
            },
            NodeKey::ExecuteProcess(p) => {
                let mut out = "ExecuteProcess(".to_owned();
                out.append(p.0.description.as_str());
                out.append(")");
                out
            },
            NodeKey::ReadLink(l) => {
                let mut out = "ReadLink(".to_owned();
                out.append(to_hex(&l.0.0).as_str());
                out.append(")");
                out
            },
            NodeKey::Scandir(d) => {
                let mut out = "Scandir(".to_owned();
                out.append(to_hex(&d.0.0).as_str());
                out.append(")");
                out
            },
            NodeKey::Select(s) => {
                let mut out = "Select(".to_owned();
                out.append(render_u64(s.subject.id).as_str());
                out.append(", ");
                out.append(render_u64(s.selector.product).as_str());
                out.append(")");
                out
            },
            NodeKey::Task(t) => {
                let mut out = "Task(".to_owned();
                out.append(render_u64(t.task.func).as_str());
                out.append(", ");
                out.append(render_u64(t.subject.id).as_str());
                out.append(", ");
                out.append(render_u64(t.product).as_str());
                out.append(")");
                out
            },
            NodeKey::Snapshot(s) => {
                let mut out = "Snapshot(".to_owned();
                out.append(render_u64(s.0.globs.len() as u64).as_str());
                out.append(" globs)");
                out
            },
        }
    }
}

/// Colors nodes for graph export, remembering one palette color per
/// product label.
pub struct Visualizer {
    pub viz_colors: Vec<(String, String)>,
}

/// A well-formed color assignment: the color stored at position `j` is the
/// round-robin palette color `j % 12 + 1`, so every stored color names one
/// of the palette's twelve colors.
pub open spec fn wf_palette(v: Seq<(Seq<char>, Seq<char>)>) -> bool {
    forall|j: int| 0 <= j < v.len()
        ==> (#[trigger] v[j].1) == spec_render_u64(j % 12 + 1)
}

impl Visualizer {
    /// An empty color assignment.
    pub fn new() -> (r: Visualizer)
        ensures
            r.viz_colors.deep_view() == Seq::<(Seq<char>, Seq<char>)>::empty(),
            wf_palette(r.viz_colors.deep_view()),
    {
        let r = Visualizer { viz_colors: Vec::new() };
        proof {
            assert(r.viz_colors.deep_view() =~= Seq::<(Seq<char>, Seq<char>)>::empty());
        }
        r
    }

    /// The palette the colors index into.
    pub fn color_scheme(&self) -> (r: &'static str)
        ensures
            r@ == "set312"@,
    {
        "set312"
    }

    /// The color of a node: white for pending or noop, a fixed color each
    /// for `Throw` and `Invalidated`, and for a success the palette color
    /// remembered for the node's product label — assigned round-robin over
    /// twelve colors the first time a label succeeds.
    pub fn color(&mut self, node: &NodeKey, result: Option<&Result<NodeResult, Failure>>) -> (r:
        String)
        requires
            wf_palette(old(self).viz_colors.deep_view()),
        ensures
            wf_palette(final(self).viz_colors.deep_view()),
            match result {
                None => r@ == "white"@ && final(self).viz_colors.deep_view()
                    == old(self).viz_colors.deep_view(),
                Some(res) => match res {
                    Err(Failure::Noop(_)) => r@ == "white"@ && final(self).viz_colors.deep_view()
                        == old(self).viz_colors.deep_view(),
                    Err(Failure::Throw(_, _)) => r@ == "4"@ && final(self).viz_colors.deep_view()
                        == old(self).viz_colors.deep_view(),
                    Err(Failure::Invalidated) => r@ == "12"@
                        && final(self).viz_colors.deep_view()
                            == old(self).viz_colors.deep_view(),
                    Ok(_) => match spec_variants_find(
                        old(self).viz_colors.deep_view(),
                        spec_product_str(node_key_view(*node)),
                    ) {
                        Some(c) => r@ == c && final(self).viz_colors.deep_view()
                            == old(self).viz_colors.deep_view(),
                        None => r@ == spec_render_u64(
                            old(self).viz_colors.deep_view().len() as int % 12 + 1,
                        ) && final(self).viz_colors.deep_view()
                            == old(self).viz_colors.deep_view().push((
                            spec_product_str(node_key_view(*node)),
                            r@,
                        )),
                    },
                },
            },
    {
        match result {
            None => "white".to_owned(),
            Some(res) => match res {
                Err(Failure::Noop(_)) => "white".to_owned(),
                Err(Failure::Throw(_, _)) => "4".to_owned(),
                Err(Failure::Invalidated) => "12".to_owned(),
                Ok(_) => {
                    let label = node.product_str();
                    let ghost vv = self.viz_colors.deep_view();
                    let found = self.find_color(&label);
                    match found {
                        Some(c) => c.clone(),
                        None => {
                            let color = render_u64((self.viz_colors.len() % 12 + 1) as u64);
                            self.viz_colors.push((label, color.clone()));
                            proof {
                                assert(self.viz_colors.deep_view()
                                    =~= vv.push((spec_product_str(node_key_view(*node)),
                                        color@)));
                            }
                            color
                        },
                    }
                },
            },
        }
    }

    /// The color already assigned to a product label, if any.
    #[verifier::loop_isolation(false)]
    fn find_color(&self, label: &String) -> (r: Option<&String>)
        ensures
            match r {
                Some(c) => spec_variants_find(self.viz_colors.deep_view(), label@) == Some(c@),
                None => spec_variants_find(self.viz_colors.deep_view(), label@) is None,
            },
    {
        let ghost ev = self.viz_colors.deep_view();
        let mut i: usize = 0;
        proof {
            assert(ev.skip(0) =~= ev);
        }
        while i < self.viz_colors.len()
            invariant
                i <= self.viz_colors.len(),
                spec_variants_find(ev, label@) == spec_variants_find(ev.skip(i as int), label@),
            decreases self.viz_colors.len() - i,
        {
            proof {
                assert(ev.skip(i as int)[0] == ev[i as int]);
                assert(ev.skip(i as int).drop_first() =~= ev.skip(i as int + 1));
            }
            if self.viz_colors[i].0 == *label {
                return Some(&self.viz_colors[i].1);
            }
            i = i + 1;
        }
        proof {
            assert(ev.skip(self.viz_colors@.len() as int).len() == 0);
        }
        None
    }
}

/// The decimal rendering of a signed number.
pub open spec fn spec_render_i64(n: int) -> Seq<char> {
    if n < 0 {
        seq!['-'] + spec_render_u64(-n)
    } else {
        spec_render_u64(n)
    }
}

/// Renders a signed number in decimal.
pub fn render_i64(n: i64) -> (r: String)
    ensures
        r@ == spec_render_i64(n as int),
{
    if n >= 0 {
        render_u64(n as u64)
    } else {
        let magnitude: u64 = if n == i64::MIN {
            9223372036854775808u64
        } else {
            (-n) as u64
        };
        let mut out = "-".to_owned();
        out.append(render_u64(magnitude).as_str());
        proof {
            reveal_strlit("-");
            assert(out@ =~= seq!['-'] + spec_render_u64(magnitude as int));
        }
        out
    }
}

/// How a host value prints in a trace: a string verbatim, any other value
/// by its kind and identifying data.
pub open spec fn spec_value_str(v: ValueV) -> Seq<char> {
    match v {
        ValueV::StrV(m) => m,
        ValueV::IntV(n) => "Int("@ + spec_render_i64(n as int) + ")"@,
        ValueV::BytesV(b) => "Bytes("@ + spec_hex_encode(b) + ")"@,
        ValueV::TupleV(vs) => "Tuple("@ + spec_render_u64(vs.len() as int) + " items)"@,
        ValueV::ObjV(t, _) => "Obj(type "@ + spec_render_u64(t as int) + ")"@,
        ValueV::GenV(_) => "Gen"@,
        ValueV::NoneV => "None"@,
    }
}

/// Renders a host value for a trace.
pub fn value_str(v: &Value) -> (r: String)
    ensures
        r@ == spec_value_str(value_view(*v)),
{
    match v {
        Value::StrV(m) => m.clone(),
        Value::IntV(n) => {
            let mut out = "Int(".to_owned();
            out.append(render_i64(*n).as_str());
            out.append(")");
            out
        },
        Value::BytesV(b) => {
            let mut out = "Bytes(".to_owned();
            out.append(to_hex(b).as_str());
            out.append(")");
            out
        },
        Value::TupleV(vs) => {
            let mut out = "Tuple(".to_owned();
            out.append(render_u64(vs.len() as u64).as_str());
            out.append(" items)");
            proof {
                crate::values::lemma_values_view_len(vs@);
            }
            out
        },
        Value::ObjV(t, _) => {
            let mut out = "Obj(type ".to_owned();
            out.append(render_u64(*t).as_str());
            out.append(")");
            out
        },
        Value::GenV(_) => "Gen".to_owned(),
        Value::NoneV => "None".to_owned(),
    }
}

/// How a node result prints in a trace: its kind and identifying data.
pub open spec fn spec_result_str(r: NodeResultV) -> Seq<char> {
    match r {
        NodeResultV::Digest(d) => "Digest("@ + spec_hex_encode(d.fingerprint) + ", "@
            + spec_render_u64(d.serialized_bytes_length as int) + ")"@,
        NodeResultV::DirectoryListing(l) => "DirectoryListing("@
            + spec_render_u64(l.len() as int) + " entries)"@,
        NodeResultV::LinkDest(p) => "LinkDest("@ + spec_hex_encode(p) + ")"@,
        NodeResultV::ProcessResult(pr) => "ProcessResult(exit code "@
            + spec_render_i64(pr.exit_code as int) + ")"@,
        NodeResultV::Snapshot(sd) => "Snapshot("@ + spec_hex_encode(sd.digest.fingerprint)
            + ", "@ + spec_render_u64(sd.path_stats.len() as int) + " path stats)"@,
        NodeResultV::Value(v) => "Value("@ + spec_value_str(v) + ")"@,
    }
}

/// Renders a node result for a trace.
pub fn result_str(x: &NodeResult) -> (r: String)
    ensures
        r@ == spec_result_str(node_result_view(*x)),
{
    match x {
        NodeResult::Digest(d) => {
            let mut out = "Digest(".to_owned();
            out.append(to_hex(&d.fingerprint).as_str());
            out.append(", ");
            out.append(render_u64(d.serialized_bytes_length).as_str());
            out.append(")");
            out
        },
        NodeResult::DirectoryListing(l) => {
            let mut out = "DirectoryListing(".to_owned();
            out.append(render_u64(l.0.len() as u64).as_str());
            out.append(" entries)");
            out
        },
        NodeResult::LinkDest(p) => {
            let mut out = "LinkDest(".to_owned();
            out.append(to_hex(&p.0).as_str());
            out.append(")");
            out
        },
        NodeResult::ProcessResult(pr) => {
            let mut out = "ProcessResult(exit code ".to_owned();
            out.append(render_i64(pr.0.exit_code).as_str());
            out.append(")");
            out
        },
        NodeResult::Snapshot(sd) => {
            let mut out = "Snapshot(".to_owned();
            out.append(to_hex(&sd.digest.fingerprint).as_str());
            out.append(", ");
            out.append(render_u64(sd.path_stats.len() as u64).as_str());
            out.append(" path stats)");
            out
        },
        NodeResult::Value(v) => {
            let mut out = "Value(".to_owned();
            out.append(value_str(v).as_str());
            out.append(")");
            out
        },
    }
}

/// A text with an indent prefix inserted after every line break.
pub open spec fn spec_indent_rest(prefix: Seq<char>, s: Seq<char>) -> Seq<char>
    decreases s.len(),
{
    if s.len() == 0 {
        Seq::empty()
    } else if s[0] == '\n' {
        seq!['\n'] + prefix + spec_indent_rest(prefix, s.drop_first())
    } else {
        seq![s[0]] + spec_indent_rest(prefix, s.drop_first())
    }
}

/// Indent insertion distributes over concatenation.
proof fn lemma_indent_concat(prefix: Seq<char>, a: Seq<char>, b: Seq<char>)
    ensures
        spec_indent_rest(prefix, a + b) == spec_indent_rest(prefix, a)
            + spec_indent_rest(prefix, b),
    decreases a.len(),
{
    if a.len() == 0 {
        assert(a + b =~= b);
        assert(spec_indent_rest(prefix, a) + spec_indent_rest(prefix, b)
            =~= spec_indent_rest(prefix, b));
    } else {
        assert((a + b).drop_first() =~= a.drop_first() + b);
        assert((a + b)[0] == a[0]);
        lemma_indent_concat(prefix, a.drop_first(), b);
        if a[0] == '\n' {
            assert(seq!['\n'] + prefix + (spec_indent_rest(prefix, a.drop_first())
                + spec_indent_rest(prefix, b))
                =~= (seq!['\n'] + prefix + spec_indent_rest(prefix, a.drop_first()))
                    + spec_indent_rest(prefix, b));
        } else {
            assert(seq![a[0]] + (spec_indent_rest(prefix, a.drop_first())
                + spec_indent_rest(prefix, b))
                =~= (seq![a[0]] + spec_indent_rest(prefix, a.drop_first()))
                    + spec_indent_rest(prefix, b));
        }
    }
}

/// A break-free text passes through indent insertion unchanged.
proof fn lemma_indent_plain(prefix: Seq<char>, s: Seq<char>)
    requires
        forall|j: int| 0 <= j < s.len() ==> s[j] != '\n',
    ensures
        spec_indent_rest(prefix, s) == s,
    decreases s.len(),
{
    if s.len() > 0 {
        assert(forall|j: int| 0 <= j < s.drop_first().len()
            ==> #[trigger] s.drop_first()[j] != '\n');
        lemma_indent_plain(prefix, s.drop_first());
        assert(seq![s[0]] + s.drop_first() =~= s);
    }
}

/// Inserts the prefix after every line break of the text.
#[verifier::loop_isolation(false)]
fn indent_text(prefix: &str, text: &str) -> (r: String)
    ensures
        r@ == spec_indent_rest(prefix@, text@),
{
    let n = text.unicode_len();
    let mut out = String::new();
    let mut start: usize = 0;
    let mut i: usize = 0;
    proof {
        assert(text@.take(0) =~= Seq::<char>::empty());
    }
    while i < n
        invariant
            start <= i <= n,
            n == text@.len(),
            out@ == spec_indent_rest(prefix@, text@.take(start as int)),
            forall|j: int| start <= j < i ==> text@[j] != '\n',
        decreases n - i,
    {
        if text.get_char(i) == '\n' {
            let seg = text.substring_char(start, i);
            out.append(seg);
            out.append("\n");
            out.append(prefix);
            proof {
                reveal_strlit("\n");
                let before = text@.take(start as int);
                let segv = text@.subrange(start as int, i as int);
                assert(text@.take(i as int + 1) =~= before + segv + seq!['\n']);
                lemma_indent_concat(prefix@, before + segv, seq!['\n']);
                lemma_indent_concat(prefix@, before, segv);
                lemma_indent_plain(prefix@, segv);
                let nl = seq!['\n'];
                assert(nl[0] == '\n');
                assert(nl.drop_first() =~= Seq::<char>::empty());
                assert(spec_indent_rest(prefix@, nl.drop_first()) =~= Seq::<char>::empty());
                assert(spec_indent_rest(prefix@, nl) =~= nl + prefix@);
                assert(out@ =~= spec_indent_rest(prefix@, text@.take(i as int + 1)));
            }
            start = i + 1;
        }
        i = i + 1;
    }
    let seg = text.substring_char(start, n);
    out.append(seg);
    proof {
        let before = text@.take(start as int);
        let segv = text@.subrange(start as int, n as int);
        assert(text@ =~= before + segv);
        lemma_indent_concat(prefix@, before, segv);
        lemma_indent_plain(prefix@, segv);
    }
    out
}

/// Decides which nodes are leaves of a debug render, and how a node's
/// state prints.
pub struct Tracer;

impl Tracer {
    /// Whether a node's state is "bottom" — not worth rendering a subtree
    /// for: noop and success states, and nodes with no state at all (still
    /// running, or effectively cancelled because a dependent failed).
    /// `Throw` and `Invalidated` subtrees are worth rendering.
    pub fn is_bottom(result: Option<&Result<NodeResult, Failure>>) -> (r: bool)
        ensures
            r == match result {
                Some(res) => match res {
                    Err(Failure::Invalidated) => false,
                    Err(Failure::Noop(_)) => true,
                    Err(Failure::Throw(_, _)) => false,
                    Ok(_) => true,
                },
                None => true,
            },
    {
        match result {
            Some(res) => match res {
                Err(Failure::Invalidated) => false,
                Err(Failure::Noop(_)) => true,
                Err(Failure::Throw(_, _)) => false,
                Ok(_) => true,
            },
            None => true,
        }
    }

    /// How a node's state prints in a trace: a success as its result's
    /// kind and identifying data, a throw as its message followed by the
    /// traceback with every line prefixed by the indent plus four spaces.
    pub fn state_str(indent: &str, result: Option<&Result<NodeResult, Failure>>) -> (r: String)
        ensures
            match result {
                None => r@ == "<None>"@,
                Some(res) => match res {
                    Ok(x) => r@ == spec_result_str(node_result_view(*x)),
                    Err(Failure::Throw(v, t)) => r@ == "Throw("@
                        + spec_value_str(value_view(*v)) + ")\n"@ + indent@ + "    "@
                        + spec_indent_rest(indent@ + "    "@, t@),
                    Err(Failure::Noop(n)) => r@ == "Noop("@ + spec_noop_name(*n) + ")"@,
                    Err(Failure::Invalidated) => r@ == "Invalidated"@,
                },
            },
    {
        match result {
            None => "<None>".to_owned(),
            Some(res) => match res {
                Ok(x) => result_str(x),
                Err(Failure::Throw(v, t)) => {
                    let mut prefix = indent.to_owned();
                    prefix.append("    ");
                    let mut out = "Throw(".to_owned();
                    out.append(value_str(v).as_str());
                    out.append(")\n");
                    out.append(prefix.as_str());
                    out.append(indent_text(prefix.as_str(), t.as_str()).as_str());
                    out
                },
                Err(Failure::Noop(n)) => {
                    let mut out = "Noop(".to_owned();
                    out.append(noop_name(*n));
                    out.append(")");
                    out
                },
                Err(Failure::Invalidated) => "Invalidated".to_owned(),
            },
        }
    }
}

} // verus!
