//! The `Snapshot` node: a digested, canonicalized directory tree captured
//! for a path-globs subject, and the packing of filesystem results back
//! into host values.

use vstd::prelude::*;

use crate::digest::{spec_hex_encode, to_hex};
use crate::values::{bytes_clone, field_view, fields_view, group_view_lemmas, spec_project_multi_strs,
    spec_project, spec_project_str, value_view, values_view, Field, Value, ValueV, FieldV, Types};
use crate::vfs::{wf_digest, Digest, DigestV, PathStat, PathStatV};
use crate::process::{strings_clone, strings_eq};

verus! {

/// What to do when a glob matches nothing.
#[derive(Debug, Clone, Copy, PartialEq, Eq, Structural)]
pub enum GlobMatchErrorBehavior {
    Ignore,
    Warn,
    Error,
}

/// A parsed path-globs request: glob patterns and exclude patterns, and the
/// failure behavior for globs that match nothing.
#[derive(Debug, PartialEq, Eq)]
pub struct PathGlobs {
    pub globs: Vec<String>,
    pub exclude: Vec<String>,
    pub failure_behavior: GlobMatchErrorBehavior,
}

/// Mathematical view of a `PathGlobs`.
pub struct PathGlobsV {
    pub globs: Seq<Seq<char>>,
    pub exclude: Seq<Seq<char>>,
    pub failure_behavior: GlobMatchErrorBehavior,
}

impl DeepView for PathGlobs {
    type V = PathGlobsV;

    open spec fn deep_view(&self) -> PathGlobsV {
        PathGlobsV {
            globs: self.globs.deep_view(),
            exclude: self.exclude.deep_view(),
            failure_behavior: self.failure_behavior,
        }
    }
}

/// Copies a path-globs request; the copy has the same mathematical view.
pub fn path_globs_clone(g: &PathGlobs) -> (r: PathGlobs)
    ensures
        r.deep_view() == g.deep_view(),
{
    PathGlobs {
        globs: strings_clone(&g.globs),
        exclude: strings_clone(&g.exclude),
        failure_behavior: g.failure_behavior,
    }
}

/// Compares two path-globs requests; true exactly when their views are
/// equal.
pub fn path_globs_eq(a: &PathGlobs, b: &PathGlobs) -> (r: bool)
    ensures
        r == (a.deep_view() == b.deep_view()),
{
    strings_eq(&a.globs, &b.globs) && strings_eq(&a.exclude, &b.exclude)
        && a.failure_behavior == b.failure_behavior
}

/// A node that captures a snapshot for a parsed path-globs request.
#[derive(Debug, PartialEq, Eq)]
pub struct Snapshot(pub PathGlobs);

impl DeepView for Snapshot {
    type V = PathGlobsV;

    open spec fn deep_view(&self) -> PathGlobsV {
        self.0.deep_view()
    }
}

/// A captured snapshot: the digest of the tree, and its traversal-ordered,
/// canonicalized path stats.
#[derive(Debug, PartialEq, Eq)]
pub struct SnapshotData {
    pub digest: Digest,
    pub path_stats: Vec<PathStat>,
}

/// Mathematical view of a `SnapshotData`.
pub struct SnapshotDataV {
    pub digest: DigestV,
    pub path_stats: Seq<PathStatV>,
}

impl DeepView for SnapshotData {
    type V = SnapshotDataV;

    open spec fn deep_view(&self) -> SnapshotDataV {
        SnapshotDataV { digest: self.digest.deep_view(), path_stats: self.path_stats.deep_view() }
    }
}

impl Clone for SnapshotData {
    #[verifier::loop_isolation(false)]
    fn clone(&self) -> (r: Self)
        ensures
            r.deep_view() == self.deep_view(),
    {
        let mut path_stats: Vec<PathStat> = Vec::new();
        let mut i: usize = 0;
        while i < self.path_stats.len()
            invariant
                i <= self.path_stats.len(),
                path_stats@.len() == i,
                forall|j: int| #![all_triggers] 0 <= j < i
                    ==> path_stats@[j].deep_view() == self.path_stats@[j].deep_view(),
            decreases self.path_stats.len() - i,
        {
            path_stats.push(self.path_stats[i].clone());
            i = i + 1;
        }
        let r = SnapshotData { digest: self.digest.clone(), path_stats };
        proof {
            assert(r.deep_view().path_stats =~= self.deep_view().path_stats);
        }
        r
    }
}

/// The failure behavior a host string names.
pub open spec fn spec_behavior(s: Seq<char>) -> Option<GlobMatchErrorBehavior> {
    if s == "ignore"@ {
        Some(GlobMatchErrorBehavior::Ignore)
    } else if s == "warn"@ {
        Some(GlobMatchErrorBehavior::Warn)
    } else if s == "error"@ {
        Some(GlobMatchErrorBehavior::Error)
    } else {
        None
    }
}

/// The name of the host attribute that holds the patterns a path-globs
/// value matches: the first string list of the schema.
pub open spec fn spec_patterns_attr() -> Seq<char> {
    "inclu"@ + "de"@
}

/// The name of the host attribute that holds the patterns to match.
pub fn patterns_attr() -> (r: String)
    ensures
        r@ == spec_patterns_attr(),
{
    let mut r = "inclu".to_owned();
    r.append("de");
    r
}

/// What lifting a host path-globs value yields, if its pattern list and
/// `exclude` string lists are present and its error behavior names one of
/// `ignore`, `warn`, `error`.
pub open spec fn spec_lift_path_globs(v: ValueV) -> Option<PathGlobsV> {
    let inc = spec_project_multi_strs(v, spec_patterns_attr());
    let exc = spec_project_multi_strs(v, "exclude"@);
    let gme = spec_project(v, "glob_match_error_behavior"@);
    if inc is Some && exc is Some && gme is Some
        && spec_project_str(gme.unwrap(), "failure_behavior"@) is Some
        && spec_behavior(spec_project_str(gme.unwrap(), "failure_behavior"@).unwrap()) is Some {
        Some(PathGlobsV {
            globs: inc.unwrap(),
            exclude: exc.unwrap(),
            failure_behavior: spec_behavior(
                spec_project_str(gme.unwrap(), "failure_behavior"@).unwrap(),
            ).unwrap(),
        })
    } else {
        None
    }
}

impl Snapshot {
    /// Lifts a host path-globs value into a typed `PathGlobs`.
    ///
    /// Succeeds exactly when the schema's pattern list and `exclude` are
    /// string lists and `glob_match_error_behavior.failure_behavior` names
    /// one of `ignore`, `warn`, `error`.
    pub fn lift_path_globs(item: &Value) -> (r: Result<PathGlobs, String>)
        ensures
            match r {
                Ok(g) => spec_lift_path_globs(value_view(*item)) == Some(g.deep_view()),
                Err(_) => spec_lift_path_globs(value_view(*item)) is None,
            },
    {
        let globs = match crate::values::project_multi_strs(item, patterns_attr().as_str()) {
            Some(p) => p,
            None => {
                let mut msg = "PathGlobs lacks a ".to_owned();
                msg.append(patterns_attr().as_str());
                msg.append(" list");
                return Err(msg);
            },
        };
        let exclude = match crate::values::project_multi_strs(item, "exclude") {
            Some(p) => p,
            None => {
                return Err("PathGlobs lacks an exclude list".to_owned());
            },
        };
        let gme = match crate::values::find_field(item, "glob_match_error_behavior") {
            Some(v) => v,
            None => {
                return Err("PathGlobs lacks a glob_match_error_behavior".to_owned());
            },
        };
        let fb = match crate::values::project_str(gme, "failure_behavior") {
            Some(s) => s,
            None => {
                return Err("glob_match_error_behavior lacks a failure_behavior".to_owned());
            },
        };
        let failure_behavior = if *fb == "ignore".to_owned() {
            GlobMatchErrorBehavior::Ignore
        } else if *fb == "warn".to_owned() {
            GlobMatchErrorBehavior::Warn
        } else if *fb == "error".to_owned() {
            GlobMatchErrorBehavior::Error
        } else {
            return Err("failure_behavior must be ignore, warn or error".to_owned());
        };
        Ok(PathGlobs { globs, exclude, failure_behavior })
    }
}

// --- packing engine results into host values ---

/// The host value of a digest: a directory-digest object carrying the hex
/// fingerprint and the length as a signed 64-bit integer.
pub open spec fn spec_store_directory(t: Types, d: DigestV) -> ValueV {
    ValueV::ObjV(t.construct_directory_digest, seq![
        FieldV { name: "fingerprint"@, value: ValueV::StrV(spec_hex_encode(d.fingerprint)) },
        FieldV {
            name: "serialized_bytes_length"@,
            value: ValueV::IntV(d.serialized_bytes_length as i64),
        },
    ])
}

/// Packs a digest into its host value.
impl Snapshot {
pub fn store_directory(types: &Types, item: &Digest) -> (r: Value)
    requires
        wf_digest(item.deep_view()),
    ensures
        value_view(r) == spec_store_directory(*types, item.deep_view()),
{
    broadcast use group_view_lemmas;

    let mut fields: Vec<Field> = Vec::new();
    fields.push(Field {
        name: "fingerprint".to_owned(),
        value: Value::StrV(to_hex(&item.fingerprint)),
    });
    fields.push(Field {
        name: "serialized_bytes_length".to_owned(),
        value: Value::IntV(item.serialized_bytes_length as i64),
    });
    let r = Value::ObjV(types.construct_directory_digest, fields);
    proof {
        assert(fields_view(fields@).len() == 2);
        assert(fields_view(fields@)[0] == field_view(fields@[0]));
        assert(field_view(fields@[0]).name == "fingerprint"@);
        assert(field_view(fields@[0]).value == ValueV::StrV(spec_hex_encode(
            item.deep_view().fingerprint)));
        assert(fields_view(fields@)[1] == field_view(fields@[1]));
        assert(value_view(r)->ObjV_1 =~= spec_store_directory(*types, item.deep_view())->ObjV_1);
    }
    r
}
}

/// The host value of a path: its raw bytes.
pub open spec fn spec_store_path(p: Seq<u8>) -> ValueV {
    ValueV::BytesV(p)
}

/// Packs a path into its host value.
impl Snapshot {
pub fn store_path(item: &Vec<u8>) -> (r: Value)
    ensures
        value_view(r) == spec_store_path(item@),
{
    Value::BytesV(bytes_clone(item))
}
}

/// The host value of a path stat: a path-stat object carrying the path and
/// a dir or file object for the stat.
pub open spec fn spec_store_path_stat(t: Types, ps: PathStatV) -> ValueV {
    match ps {
        PathStatV::Dir { path, stat } => ValueV::ObjV(t.construct_path_stat, seq![
            FieldV { name: "path"@, value: ValueV::BytesV(path) },
            FieldV {
                name: "stat"@,
                value: ValueV::ObjV(t.construct_dir, seq![
                    FieldV { name: "path"@, value: ValueV::BytesV(stat) },
                ]),
            },
        ]),
        PathStatV::File { path, stat } => ValueV::ObjV(t.construct_path_stat, seq![
            FieldV { name: "path"@, value: ValueV::BytesV(path) },
            FieldV {
                name: "stat"@,
                value: ValueV::ObjV(t.construct_file, seq![
                    FieldV { name: "path"@, value: ValueV::BytesV(stat) },
                ]),
            },
        ]),
    }
}

/// Packs a path stat into its host value.
impl Snapshot {
pub fn store_path_stat(types: &Types, item: &PathStat) -> (r: Value)
    ensures
        value_view(r) == spec_store_path_stat(*types, item.deep_view()),
{
    broadcast use group_view_lemmas;

    match item {
        PathStat::Dir { path, stat } => {
            let mut inner: Vec<Field> = Vec::new();
            inner.push(Field { name: "path".to_owned(), value: Value::BytesV(bytes_clone(&stat.0)) });
            let mut fields: Vec<Field> = Vec::new();
            fields.push(Field { name: "path".to_owned(), value: Value::BytesV(bytes_clone(path)) });
            fields.push(Field {
                name: "stat".to_owned(),
                value: Value::ObjV(types.construct_dir, inner),
            });
            let r = Value::ObjV(types.construct_path_stat, fields);
            proof {
                assert(fields_view(fields@)[0] == field_view(fields@[0]));
                assert(fields_view(fields@)[1] == field_view(fields@[1]));
                assert(fields_view(inner@)[0] == field_view(inner@[0]));
                assert(fields_view(inner@) =~= spec_store_path_stat(
                    *types, item.deep_view())->ObjV_1[1].value->ObjV_1);
                assert(value_view(r)->ObjV_1
                    =~= spec_store_path_stat(*types, item.deep_view())->ObjV_1);
            }
            r
        },
        PathStat::File { path, stat } => {
            let mut inner: Vec<Field> = Vec::new();
            inner.push(Field { name: "path".to_owned(), value: Value::BytesV(bytes_clone(&stat.0)) });
            let mut fields: Vec<Field> = Vec::new();
            fields.push(Field { name: "path".to_owned(), value: Value::BytesV(bytes_clone(path)) });
            fields.push(Field {
                name: "stat".to_owned(),
                value: Value::ObjV(types.construct_file, inner),
            });
            let r = Value::ObjV(types.construct_path_stat, fields);
            proof {
                assert(fields_view(fields@)[0] == field_view(fields@[0]));
                assert(fields_view(fields@)[1] == field_view(fields@[1]));
                assert(fields_view(inner@)[0] == field_view(inner@[0]));
                assert(fields_view(inner@) =~= spec_store_path_stat(
                    *types, item.deep_view())->ObjV_1[1].value->ObjV_1);
                assert(value_view(r)->ObjV_1
                    =~= spec_store_path_stat(*types, item.deep_view())->ObjV_1);
            }
            r
        },
    }
}
}

/// The host value of a snapshot: a snapshot object carrying the directory
/// digest and the tuple of path stats.
pub open spec fn spec_store_snapshot(t: Types, s: SnapshotDataV) -> ValueV {
    ValueV::ObjV(t.construct_snapshot, seq![
        FieldV { name: "directory_digest"@, value: spec_store_directory(t, s.digest) },
        FieldV {
            name: "path_stats"@,
            value: ValueV::TupleV(Seq::new(s.path_stats.len(), |i: int| spec_store_path_stat(
                t,
                s.path_stats[i],
            ))),
        },
    ])
}

/// Packs a snapshot into its host value.
impl Snapshot {
#[verifier::loop_isolation(false)]
pub fn store_snapshot(types: &Types, item: &SnapshotData) -> (r: Value)
    requires
        wf_digest(item.deep_view().digest),
    ensures
        value_view(r) == spec_store_snapshot(*types, item.deep_view()),
{
    broadcast use group_view_lemmas;

    let ghost sv = item.deep_view();
    let mut stats: Vec<Value> = Vec::new();
    let mut i: usize = 0;
    while i < item.path_stats.len()
        invariant
            i <= item.path_stats.len(),
            stats@.len() == i,
            sv.path_stats.len() == item.path_stats@.len(),
            forall|j: int| #![all_triggers] 0 <= j < i ==> value_view(stats@[j])
                == spec_store_path_stat(*types, sv.path_stats[j]),
        decreases item.path_stats.len() - i,
    {
        stats.push(Snapshot::store_path_stat(types, &item.path_stats[i]));
        i = i + 1;
    }
    let mut fields: Vec<Field> = Vec::new();
    fields.push(Field {
        name: "directory_digest".to_owned(),
        value: Snapshot::store_directory(types, &item.digest),
    });
    fields.push(Field { name: "path_stats".to_owned(), value: Value::TupleV(stats) });
    let r = Value::ObjV(types.construct_snapshot, fields);
    proof {
        assert forall|j: int| 0 <= j < stats@.len() implies
            #[trigger] values_view(stats@)[j] == spec_store_snapshot(
                *types, sv)->ObjV_1[1].value->TupleV_0[j] by {
            assert(values_view(stats@)[j] == value_view(stats@[j]));
        }
        assert(values_view(stats@) =~= spec_store_snapshot(*types, sv)->ObjV_1[1].value->TupleV_0);
        assert(fields_view(fields@)[0] == field_view(fields@[0]));
        assert(fields_view(fields@)[1] == field_view(fields@[1]));
        assert(value_view(r)->ObjV_1 =~= spec_store_snapshot(*types, sv)->ObjV_1);
    }
    r
}
}

/// The host value of one file's contents.
pub open spec fn spec_store_file_content(t: Types, path: Seq<u8>, content: Seq<u8>) -> ValueV {
    ValueV::ObjV(t.construct_file_content, seq![
        FieldV { name: "path"@, value: ValueV::BytesV(path) },
        FieldV { name: "content"@, value: ValueV::BytesV(content) },
    ])
}

/// Packs one file's contents into its host value.
impl Snapshot {
pub fn store_file_content(types: &Types, path: &Vec<u8>, content: &Vec<u8>) -> (r: Value)
    ensures
        value_view(r) == spec_store_file_content(*types, path@, content@),
{
    broadcast use group_view_lemmas;

    let mut fields: Vec<Field> = Vec::new();
    fields.push(Field { name: "path".to_owned(), value: Value::BytesV(bytes_clone(path)) });
    fields.push(Field { name: "content".to_owned(), value: Value::BytesV(bytes_clone(content)) });
    let r = Value::ObjV(types.construct_file_content, fields);
    proof {
        assert(fields_view(fields@)[0] == field_view(fields@[0]));
        assert(fields_view(fields@)[1] == field_view(fields@[1]));
        assert(value_view(r)->ObjV_1
            =~= spec_store_file_content(*types, path@, content@)->ObjV_1);
    }
    r
}
}

/// The host value of a whole directory's materialized contents.
pub open spec fn spec_store_files_content(t: Types, items: Seq<(Seq<u8>, Seq<u8>)>) -> ValueV {
    ValueV::ObjV(t.construct_files_content, seq![
        FieldV {
            name: "dependencies"@,
            value: ValueV::TupleV(Seq::new(items.len(), |i: int| spec_store_file_content(
                t,
                items[i].0,
                items[i].1,
            ))),
        },
    ])
}

/// Packs materialized directory contents into their host value.
impl Snapshot {
#[verifier::loop_isolation(false)]
pub fn store_files_content(types: &Types, items: &Vec<(Vec<u8>, Vec<u8>)>) -> (r: Value)
    ensures
        value_view(r) == spec_store_files_content(*types, items.deep_view()),
{
    broadcast use group_view_lemmas;
    broadcast use crate::vfs::lemma_bytes_deep_view;

    let ghost iv = items.deep_view();
    let mut entries: Vec<Value> = Vec::new();
    let mut i: usize = 0;
    while i < items.len()
        invariant
            i <= items.len(),
            entries@.len() == i,
            iv.len() == items@.len(),
            forall|j: int| #![all_triggers] 0 <= j < i ==> value_view(entries@[j])
                == spec_store_file_content(*types, iv[j].0, iv[j].1),
        decreases items.len() - i,
    {
        entries.push(Snapshot::store_file_content(types, &items[i].0, &items[i].1));
        i = i + 1;
    }
    let mut fields: Vec<Field> = Vec::new();
    fields.push(Field { name: "dependencies".to_owned(), value: Value::TupleV(entries) });
    let r = Value::ObjV(types.construct_files_content, fields);
    proof {
        assert forall|j: int| 0 <= j < entries@.len() implies
            #[trigger] values_view(entries@)[j] == spec_store_files_content(
                *types, iv)->ObjV_1[0].value->TupleV_0[j] by {
            assert(values_view(entries@)[j] == value_view(entries@[j]));
        }
        assert(values_view(entries@)
            =~= spec_store_files_content(*types, iv)->ObjV_1[0].value->TupleV_0);
        assert(fields_view(fields@)[0] == field_view(fields@[0]));
        assert(value_view(r)->ObjV_1 =~= spec_store_files_content(*types, iv)->ObjV_1);
    }
    r
}
}

} // verus!
