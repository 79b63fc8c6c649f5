//! The engine's model of host-language values.
//!
//! The host interop layer hands the engine opaque values; the engine only ever
//! reads a value's type, its `name` attribute, its attribute fields, and (for
//! coroutine-style task bodies) its generator protocol. This module holds a
//! value type carrying exactly those observable parts, together with its
//! mathematical view.

use vstd::prelude::*;

verus! {

/// An interned handle to a host value: its interned id and the type of the
/// value it stands for. Equality is by interned identity.
#[derive(Debug, Clone, Copy, PartialEq, Eq, Hash, Structural)]
pub struct Key {
    pub id: u64,
    pub type_id: TypeId,
}

/// Identifier of a host type; rule dispatch and product checks go by type id.
pub type TypeId = u64;

/// One attribute of a structured value: its name and its value.
#[derive(Debug, PartialEq, Eq)]
pub struct Field {
    pub name: String,
    pub value: Value,
}

/// A host value, as far as the engine can observe it.
#[derive(Debug, PartialEq, Eq)]
pub enum Value {
    /// An integer.
    IntV(i64),
    /// A string.
    StrV(String),
    /// Raw bytes (for example file contents or process output).
    BytesV(Vec<u8>),
    /// An ordered tuple of values.
    TupleV(Vec<Value>),
    /// A structured value: a type id and named attribute fields.
    ObjV(TypeId, Vec<Field>),
    /// A coroutine-style task body (see the task module's drive loop).
    GenV(GenProgram),
    /// The unit/none value used as the initial generator input.
    NoneV,
}

/// A scripted coroutine body: at step `i` it yields `steps[i]` whatever was
/// sent in, records what is sent back, and finally returns `result`.
#[derive(Debug, PartialEq, Eq)]
pub struct GenProgram {
    pub steps: Vec<GenStep>,
    pub result: GenExpr,
}

/// One dependency request issued by a generator.
#[derive(Debug, Clone, Copy, PartialEq, Eq, Structural)]
pub struct GetRequest {
    pub product: TypeId,
    pub subject: Key,
}

/// A single yield of a generator: one request, or several in parallel.
#[derive(Debug, PartialEq, Eq)]
pub enum GenStep {
    GetStep(GetRequest),
    GetMultiStep(Vec<GetRequest>),
}

/// The value a generator returns when it completes, built from literals and
/// from the dependency values it received.
#[derive(Debug, PartialEq, Eq)]
pub enum GenExpr {
    IntE(i64),
    StrE(String),
    /// The value received in answer to step `i`.
    ReceivedE(usize),
    PairE(Box<GenExpr>, Box<GenExpr>),
}

// --- mathematical views ---

/// Mathematical view of a `Value`.
pub enum ValueV {
    IntV(i64),
    StrV(Seq<char>),
    BytesV(Seq<u8>),
    TupleV(Seq<ValueV>),
    ObjV(TypeId, Seq<FieldV>),
    GenV(GenProgramV),
    NoneV,
}

/// Mathematical view of a `Field`.
pub struct FieldV {
    pub name: Seq<char>,
    pub value: ValueV,
}

/// Mathematical view of a `GenProgram`.
pub struct GenProgramV {
    pub steps: Seq<GenStepV>,
    pub result: GenExprV,
}

/// Mathematical view of a `GenStep`.
pub enum GenStepV {
    GetStep(GetRequest),
    GetMultiStep(Seq<GetRequest>),
}

/// Mathematical view of a `GenExpr`.
pub enum GenExprV {
    IntE(i64),
    StrE(Seq<char>),
    ReceivedE(usize),
    PairE(Box<GenExprV>, Box<GenExprV>),
}

/// Mathematical view of a `GenExpr`.
pub open spec fn gen_expr_view(e: GenExpr) -> GenExprV
    decreases e,
{
    match e {
        GenExpr::IntE(i) => GenExprV::IntE(i),
        GenExpr::StrE(s) => GenExprV::StrE(s@),
        GenExpr::ReceivedE(i) => GenExprV::ReceivedE(i),
        GenExpr::PairE(a, b) => GenExprV::PairE(
            Box::new(gen_expr_view(*a)),
            Box::new(gen_expr_view(*b)),
        ),
    }
}

/// Mathematical view of a `GenStep`.
pub open spec fn gen_step_view(s: GenStep) -> GenStepV {
    match s {
        GenStep::GetStep(g) => GenStepV::GetStep(g),
        GenStep::GetMultiStep(gs) => GenStepV::GetMultiStep(gs@),
    }
}

/// Mathematical view of a `GenProgram`.
pub open spec fn gen_program_view(p: GenProgram) -> GenProgramV {
    GenProgramV {
        steps: Seq::new(p.steps@.len(), |i: int| gen_step_view(p.steps@[i])),
        result: gen_expr_view(p.result),
    }
}

/// Mathematical view of a `Value`.
pub open spec fn value_view(v: Value) -> ValueV
    decreases v,
{
    match v {
        Value::IntV(i) => ValueV::IntV(i),
        Value::StrV(s) => ValueV::StrV(s@),
        Value::BytesV(b) => ValueV::BytesV(b@),
        Value::TupleV(vs) => ValueV::TupleV(values_view(vs@)),
        Value::ObjV(t, fields) => ValueV::ObjV(t, fields_view(fields@)),
        Value::GenV(p) => ValueV::GenV(gen_program_view(p)),
        Value::NoneV => ValueV::NoneV,
    }
}

/// Elementwise view of a sequence of values.
pub open spec fn values_view(vs: Seq<Value>) -> Seq<ValueV>
    decreases vs,
{
    if vs.len() == 0 {
        Seq::empty()
    } else {
        values_view(vs.drop_last()).push(value_view(vs.last()))
    }
}

/// Mathematical view of a `Field`.
pub open spec fn field_view(f: Field) -> FieldV
    decreases f,
{
    FieldV { name: f.name@, value: value_view(f.value) }
}

/// Elementwise view of a sequence of fields.
pub open spec fn fields_view(fs: Seq<Field>) -> Seq<FieldV>
    decreases fs,
{
    if fs.len() == 0 {
        Seq::empty()
    } else {
        fields_view(fs.drop_last()).push(field_view(fs.last()))
    }
}

pub broadcast proof fn lemma_values_view_len(vs: Seq<Value>)
    ensures
        #[trigger] values_view(vs).len() == vs.len(),
    decreases vs,
{
    if vs.len() > 0 {
        lemma_values_view_len(vs.drop_last());
    }
}

pub broadcast proof fn lemma_values_view_index(vs: Seq<Value>, i: int)
    requires
        0 <= i < vs.len(),
    ensures
        #[trigger] values_view(vs)[i] == value_view(vs[i]),
    decreases vs,
{
    lemma_values_view_len(vs.drop_last());
    if i < vs.len() - 1 {
        lemma_values_view_index(vs.drop_last(), i);
    }
}

pub broadcast proof fn lemma_fields_view_len(fs: Seq<Field>)
    ensures
        #[trigger] fields_view(fs).len() == fs.len(),
    decreases fs,
{
    if fs.len() > 0 {
        lemma_fields_view_len(fs.drop_last());
    }
}

pub broadcast proof fn lemma_fields_view_index(fs: Seq<Field>, i: int)
    requires
        0 <= i < fs.len(),
    ensures
        #[trigger] fields_view(fs)[i] == field_view(fs[i]),
    decreases fs,
{
    lemma_fields_view_len(fs.drop_last());
    if i < fs.len() - 1 {
        lemma_fields_view_index(fs.drop_last(), i);
    }
}

pub broadcast group group_view_lemmas {
    lemma_values_view_len,
    lemma_values_view_index,
    lemma_fields_view_len,
    lemma_fields_view_index,
}

impl DeepView for Value {
    type V = ValueV;

    open spec fn deep_view(&self) -> ValueV {
        value_view(*self)
    }
}

impl DeepView for Field {
    type V = FieldV;

    open spec fn deep_view(&self) -> FieldV {
        field_view(*self)
    }
}

// --- cloning, with the view preserved ---

/// Copies a value; the copy has the same mathematical view.
pub fn value_clone(v: &Value) -> (res: Value)
    ensures
        value_view(res) == value_view(*v),
    decreases *v,
{
    match v {
        Value::IntV(i) => Value::IntV(*i),
        Value::StrV(s) => Value::StrV(s.clone()),
        Value::BytesV(b) => Value::BytesV(bytes_clone(b)),
        Value::TupleV(vs) => Value::TupleV(values_clone(vs)),
        Value::ObjV(t, fs) => Value::ObjV(*t, fields_clone(fs)),
        Value::GenV(p) => Value::GenV(gen_program_clone(p)),
        Value::NoneV => Value::NoneV,
    }
}

/// Copies a byte string.
pub fn bytes_clone(b: &Vec<u8>) -> (res: Vec<u8>)
    ensures
        res@ == b@,
{
    let mut res: Vec<u8> = Vec::new();
    let mut i: usize = 0;
    while i < b.len()
        invariant
            i <= b.len(),
            res@ =~= b@.subrange(0, i as int),
        decreases b.len() - i,
    {
        res.push(b[i]);
        i = i + 1;
    }
    assert(res@ =~= b@);
    res
}

/// Copies a vector of values elementwise.
#[verifier::loop_isolation(false)]
pub fn values_clone(vs: &Vec<Value>) -> (res: Vec<Value>)
    ensures
        values_view(res@) == values_view(vs@),
    decreases vs@,
{
    broadcast use group_view_lemmas;

    let mut res: Vec<Value> = Vec::new();
    let mut i: usize = 0;
    while i < vs.len()
        invariant
            i <= vs.len(),
            res@.len() == i,
            forall|j: int| 0 <= j < i ==> values_view(res@)[j] == values_view(vs@)[j],
        decreases vs.len() - i,
    {
        res.push(value_clone(&vs[i]));
        i = i + 1;
    }
    proof {
        assert(values_view(res@) =~= values_view(vs@));
    }
    res
}

#[verifier::loop_isolation(false)]
fn fields_clone(fs: &Vec<Field>) -> (res: Vec<Field>)
    ensures
        fields_view(res@) == fields_view(fs@),
    decreases fs@,
{
    broadcast use group_view_lemmas;

    let mut res: Vec<Field> = Vec::new();
    let mut i: usize = 0;
    while i < fs.len()
        invariant
            i <= fs.len(),
            res@.len() == i,
            forall|j: int| 0 <= j < i ==> fields_view(res@)[j] == fields_view(fs@)[j],
        decreases fs.len() - i,
    {
        let f = &fs[i];
        res.push(Field { name: f.name.clone(), value: value_clone(&f.value) });
        i = i + 1;
    }
    proof {
        assert(fields_view(res@) =~= fields_view(fs@));
    }
    res
}

fn gen_expr_clone(e: &GenExpr) -> (res: GenExpr)
    ensures
        gen_expr_view(res) == gen_expr_view(*e),
    decreases *e,
{
    match e {
        GenExpr::IntE(i) => GenExpr::IntE(*i),
        GenExpr::StrE(s) => GenExpr::StrE(s.clone()),
        GenExpr::ReceivedE(i) => GenExpr::ReceivedE(*i),
        GenExpr::PairE(a, b) => GenExpr::PairE(
            Box::new(gen_expr_clone(a)),
            Box::new(gen_expr_clone(b)),
        ),
    }
}

fn requests_clone(gs: &Vec<GetRequest>) -> (res: Vec<GetRequest>)
    ensures
        res@ == gs@,
{
    let mut res: Vec<GetRequest> = Vec::new();
    let mut i: usize = 0;
    while i < gs.len()
        invariant
            i <= gs.len(),
            res@ =~= gs@.subrange(0, i as int),
        decreases gs.len() - i,
    {
        res.push(gs[i]);
        i = i + 1;
    }
    assert(res@ =~= gs@);
    res
}

fn gen_step_clone(s: &GenStep) -> (res: GenStep)
    ensures
        gen_step_view(res) == gen_step_view(*s),
{
    match s {
        GenStep::GetStep(g) => GenStep::GetStep(*g),
        GenStep::GetMultiStep(gs) => GenStep::GetMultiStep(requests_clone(gs)),
    }
}

/// Copies a generator program; the copy has the same mathematical view.
pub fn gen_program_clone(p: &GenProgram) -> (res: GenProgram)
    ensures
        gen_program_view(res) == gen_program_view(*p),
{
    let mut steps: Vec<GenStep> = Vec::new();
    let mut i: usize = 0;
    while i < p.steps.len()
        invariant
            i <= p.steps.len(),
            steps@.len() == i,
            forall|j: int| 0 <= j < i ==> gen_step_view(steps@[j]) == gen_step_view(p.steps@[j]),
        decreases p.steps.len() - i,
    {
        steps.push(gen_step_clone(&p.steps[i]));
        i = i + 1;
    }
    let res = GenProgram { steps, result: gen_expr_clone(&p.result) };
    proof {
        assert(gen_program_view(res).steps =~= gen_program_view(*p).steps);
    }
    res
}

impl Clone for Value {
    fn clone(&self) -> (res: Self)
        ensures
            value_view(res) == value_view(*self),
    {
        value_clone(self)
    }
}

// --- the type registry and the satisfies relation ---

/// The host type ids the engine must recognize: capability constraints,
/// the products of the intrinsic rules, and the constructors used to pack
/// engine results back into host values.
#[derive(Debug, Clone, Copy, PartialEq, Eq, Structural)]
pub struct Types {
    pub int_type: TypeId,
    pub str_type: TypeId,
    pub bytes_type: TypeId,
    pub tuple_type: TypeId,
    pub none_type: TypeId,
    /// Capability: the value exposes a `products` attribute.
    pub has_products: TypeId,
    /// Capability: the value is a coroutine-style task body.
    pub generator: TypeId,
    pub path_globs: TypeId,
    pub process_request: TypeId,
    pub directory_digest: TypeId,
    pub construct_snapshot: TypeId,
    pub construct_directory_digest: TypeId,
    pub construct_process_result: TypeId,
    pub construct_file_content: TypeId,
    pub construct_files_content: TypeId,
    pub construct_path_stat: TypeId,
    pub construct_dir: TypeId,
    pub construct_file: TypeId,
}

/// First field of the given name, if any.
pub open spec fn spec_find_field(fs: Seq<FieldV>, name: Seq<char>) -> Option<ValueV>
    decreases fs.len(),
{
    if fs.len() == 0 {
        None
    } else if fs[0].name == name {
        Some(fs[0].value)
    } else {
        spec_find_field(fs.drop_first(), name)
    }
}

/// Projection of an attribute out of a structured value.
pub open spec fn spec_project(v: ValueV, name: Seq<char>) -> Option<ValueV> {
    match v {
        ValueV::ObjV(_, fs) => spec_find_field(fs, name),
        _ => None,
    }
}

/// Looks up an attribute of a value by name; `None` for a value without
/// attributes or without that attribute.
#[verifier::loop_isolation(false)]
pub fn find_field<'a>(v: &'a Value, name: &str) -> (r: Option<&'a Value>)
    ensures
        match r {
            Some(x) => spec_project(value_view(*v), name@) == Some(value_view(*x)),
            None => spec_project(value_view(*v), name@) is None,
        },
{
    broadcast use group_view_lemmas;

    let owned = name.to_owned();
    match v {
        Value::ObjV(_, fs) => {
            let ghost fv = fields_view(fs@);
            let mut i: usize = 0;
            proof {
                assert(fv.skip(0) =~= fv);
            }
            while i < fs.len()
                invariant
                    i <= fs.len(),
                    spec_find_field(fv, name@) == spec_find_field(fv.skip(i as int), name@),
                    forall|j: int| 0 <= j < i ==> fields_view(fs@)[j].name != name@,
                decreases fs.len() - i,
            {
                proof {
                    assert(fv.skip(i as int)[0] == fv[i as int]);
                }
                if fs[i].name == owned {
                    return Some(&fs[i].value);
                }
                proof {
                    assert(fv.skip(i as int).drop_first() =~= fv.skip(i as int + 1));
                }
                i = i + 1;
            }
            proof {
                assert(fv.skip(fs@.len() as int).len() == 0);
            }
            None
        },
        _ => None,
    }
}

/// Projection of a string attribute.
pub open spec fn spec_project_str(v: ValueV, name: Seq<char>) -> Option<Seq<char>> {
    match spec_project(v, name) {
        Some(ValueV::StrV(s)) => Some(s),
        _ => None,
    }
}

/// Looks up a string attribute; `None` if absent or not a string.
pub fn project_str<'a>(v: &'a Value, name: &str) -> (r: Option<&'a String>)
    ensures
        match r {
            Some(s) => spec_project_str(value_view(*v), name@) == Some(s@),
            None => spec_project_str(value_view(*v), name@) is None,
        },
{
    match find_field(v, name) {
        Some(Value::StrV(s)) => Some(s),
        _ => None,
    }
}

/// Projection of a multi-valued (tuple) attribute.
pub open spec fn spec_project_multi(v: ValueV, name: Seq<char>) -> Option<Seq<ValueV>> {
    match spec_project(v, name) {
        Some(ValueV::TupleV(vs)) => Some(vs),
        _ => None,
    }
}

/// Looks up a multi-valued attribute; `None` if absent or not a tuple.
pub fn project_multi<'a>(v: &'a Value, name: &str) -> (r: Option<&'a Vec<Value>>)
    ensures
        match r {
            Some(vs) => spec_project_multi(value_view(*v), name@) == Some(values_view(vs@)),
            None => spec_project_multi(value_view(*v), name@) is None,
        },
{
    match find_field(v, name) {
        Some(Value::TupleV(vs)) => Some(vs),
        _ => None,
    }
}

/// The views of a sequence of values that are all strings, if they are.
pub open spec fn spec_all_strs(vs: Seq<ValueV>) -> Option<Seq<Seq<char>>>
    decreases vs.len(),
{
    if vs.len() == 0 {
        Some(Seq::empty())
    } else {
        match (vs[0], spec_all_strs(vs.drop_first())) {
            (ValueV::StrV(s), Some(rest)) => Some(seq![s] + rest),
            _ => None,
        }
    }
}

/// Projection of a multi-valued attribute whose items are all strings.
pub open spec fn spec_project_multi_strs(v: ValueV, name: Seq<char>) -> Option<Seq<Seq<char>>> {
    match spec_project_multi(v, name) {
        Some(vs) => spec_all_strs(vs),
        None => None,
    }
}

/// Looks up a multi-valued string attribute; `None` if absent, not a tuple,
/// or holding a non-string item.
#[verifier::loop_isolation(false)]
pub fn project_multi_strs(v: &Value, name: &str) -> (r: Option<Vec<String>>)
    ensures
        match r {
            Some(ss) => spec_project_multi_strs(value_view(*v), name@) == Some(ss.deep_view()),
            None => spec_project_multi_strs(value_view(*v), name@) is None,
        },
{
    broadcast use group_view_lemmas;

    match project_multi(v, name) {
        Some(vs) => {
            let ghost vv = values_view(vs@);
            let mut out: Vec<String> = Vec::new();
            let mut i: usize = 0;
            proof {
                assert(vv.skip(0) =~= vv);
            }
            while i < vs.len()
                invariant
                    i <= vs.len(),
                    out@.len() == i,
                    spec_all_strs(vv) is Some <==> spec_all_strs(vv.skip(i as int)) is Some,
                    forall|j: int| #![auto] 0 <= j < i ==> (vv[j] is StrV
                        && out@[j]@ == vv[j]->StrV_0),
                decreases vs.len() - i,
            {
                proof {
                    assert(vv.skip(i as int)[0] == vv[i as int]);
                    assert(vv.skip(i as int).drop_first() =~= vv.skip(i as int + 1));
                }
                match &vs[i] {
                    Value::StrV(s) => {
                        out.push(s.clone());
                        proof {
                            assert(vv[i as int] == value_view(vs@[i as int]));
                        }
                    },
                    _ => {
                        proof {
                            lemma_all_strs_none_at(vv, i as int);
                        }
                        return None;
                    },
                }
                i = i + 1;
            }
            proof {
                assert(vv.skip(vv.len() as int).len() == 0);
                lemma_all_strs_structure(vv);
                assert forall|j: int| 0 <= j < out@.len() implies
                    #[trigger] out.deep_view()[j] == spec_all_strs(vv).unwrap()[j] by {
                    assert(out@[j]@ == vv[j]->StrV_0);
                }
                assert(out.deep_view() =~= spec_all_strs(vv).unwrap());
            }
            Some(out)
        },
        None => None,
    }
}

/// If every item is a string, `spec_all_strs` lists exactly their views.
pub proof fn lemma_all_strs_structure(vs: Seq<ValueV>)
    ensures
        spec_all_strs(vs) matches Some(ss) ==> (
            ss.len() == vs.len()
            && forall|j: int| #![auto] 0 <= j < vs.len()
                ==> (vs[j] is StrV && ss[j] == vs[j]->StrV_0)
        ),
    decreases vs.len(),
{
    if vs.len() > 0 {
        lemma_all_strs_structure(vs.drop_first());
        if spec_all_strs(vs) is Some {
            let ss = spec_all_strs(vs).unwrap();
            let rest = spec_all_strs(vs.drop_first()).unwrap();
            assert forall|j: int| 0 <= j < vs.len() implies #[trigger] vs[j] is StrV
                && ss[j] == vs[j]->StrV_0 by {
                if j > 0 {
                    assert(vs.drop_first()[j - 1] == vs[j]);
                    assert(ss[j] == rest[j - 1]);
                }
            }
        }
    }
}

/// A non-string item anywhere makes `spec_all_strs` come up empty.
proof fn lemma_all_strs_none_at(vs: Seq<ValueV>, i: int)
    requires
        0 <= i < vs.len(),
        !(vs[i] is StrV),
    ensures
        spec_all_strs(vs) is None,
    decreases vs.len(),
{
    if i > 0 {
        lemma_all_strs_none_at(vs.drop_first(), i - 1);
    }
}

/// Whether a value satisfies a product type constraint: capability
/// constraints check the value's shape; any other constraint checks the
/// value's own type.
pub open spec fn spec_satisfies(t: Types, tc: TypeId, v: ValueV) -> bool {
    if tc == t.has_products {
        v matches ValueV::ObjV(_, fs) && spec_find_field(fs, "products"@) is Some
    } else if tc == t.generator {
        v is GenV
    } else {
        match v {
            ValueV::IntV(_) => tc == t.int_type,
            ValueV::StrV(_) => tc == t.str_type,
            ValueV::BytesV(_) => tc == t.bytes_type,
            ValueV::TupleV(_) => tc == t.tuple_type,
            ValueV::ObjV(ty, _) => tc == ty,
            ValueV::GenV(_) => false,
            ValueV::NoneV => tc == t.none_type,
        }
    }
}

/// Whether a value satisfies a product type constraint.
pub fn satisfies(types: &Types, tc: TypeId, v: &Value) -> (r: bool)
    ensures
        r == spec_satisfies(*types, tc, value_view(*v)),
{
    if tc == types.has_products {
        match v {
            Value::ObjV(_, _) => find_field(v, "products").is_some(),
            _ => false,
        }
    } else if tc == types.generator {
        matches!(v, Value::GenV(_))
    } else {
        match v {
            Value::IntV(_) => tc == types.int_type,
            Value::StrV(_) => tc == types.str_type,
            Value::BytesV(_) => tc == types.bytes_type,
            Value::TupleV(_) => tc == types.tuple_type,
            Value::ObjV(ty, _) => tc == *ty,
            Value::GenV(_) => false,
            Value::NoneV => tc == types.none_type,
        }
    }
}

} // verus!
