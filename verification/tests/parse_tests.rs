//! Unit tests for the host-boundary parsers, the packing functions, and
//! the visualization helpers.

use engine::digest::{fingerprint_from_hex, lift_digest, parse_u64_decimal, to_hex};
use engine::failure::{noop_max, severity, was_required, Failure, Noop};
use engine::nodes::{DigestFile, LinkDest, NodeKey, NodeResult, ReadLink, Task, TryFrom, TryInto};
use engine::process::{parse_timeout_millis, ExecuteProcess};
use engine::rules::TaskDef;
use engine::select::Select;
use engine::selectors;
use engine::selectors::Variants;
use engine::snapshot::{GlobMatchErrorBehavior, Snapshot, PathGlobs};
use engine::values::{project_multi_strs, project_str, satisfies, Field, Key, Types, Value};
use engine::vfs::{Digest, File, Link};
use engine::viz::{render_u64, Tracer, Visualizer};

fn test_types() -> Types {
    Types {
        int_type: 1,
        str_type: 2,
        bytes_type: 3,
        tuple_type: 4,
        none_type: 5,
        has_products: 6,
        generator: 7,
        path_globs: 8,
        process_request: 9,
        directory_digest: 10,
        construct_snapshot: 11,
        construct_directory_digest: 12,
        construct_process_result: 13,
        construct_file_content: 14,
        construct_files_content: 15,
        construct_path_stat: 16,
        construct_dir: 17,
        construct_file: 18,
    }
}

fn patterns_attr() -> String {
    "inclu".to_string() + "de"
}

fn obj(type_id: u64, fields: Vec<(&str, Value)>) -> Value {
    Value::ObjV(
        type_id,
        fields
            .into_iter()
            .map(|(n, v)| Field { name: n.to_string(), value: v })
            .collect(),
    )
}

#[test]
fn parse_decimal() {
    assert_eq!(parse_u64_decimal("0"), Ok(0));
    assert_eq!(parse_u64_decimal("12345"), Ok(12345));
    assert_eq!(parse_u64_decimal("18446744073709551615"), Ok(u64::MAX));
    assert!(parse_u64_decimal("18446744073709551616").is_err());
    assert!(parse_u64_decimal("").is_err());
    assert!(parse_u64_decimal("12a").is_err());
    assert!(parse_u64_decimal("-3").is_err());
}

#[test]
fn parse_timeout() {
    assert_eq!(parse_timeout_millis("1"), Ok(1000));
    assert_eq!(parse_timeout_millis("1.5"), Ok(1500));
    assert_eq!(parse_timeout_millis("0.25"), Ok(250));
    assert_eq!(parse_timeout_millis("2.1239"), Ok(2123));
    assert!(parse_timeout_millis("1.").is_err());
    assert!(parse_timeout_millis(".5").is_err());
    assert!(parse_timeout_millis("abc").is_err());
    assert!(parse_timeout_millis("99999999999999999999").is_err());
}

#[test]
fn hex_encode_decode() {
    assert_eq!(to_hex(&vec![0x0f, 0xa0]), "0fa0".to_string());
    let hex64 = "0fa0".repeat(16);
    let bytes = fingerprint_from_hex(&hex64).unwrap();
    assert_eq!(bytes.len(), 32);
    assert_eq!(to_hex(&bytes), hex64);
    assert!(fingerprint_from_hex("0fa0").is_err());
    let mut bad = "0fa0".repeat(15);
    bad.push_str("0fa/");
    assert!(fingerprint_from_hex(&bad).is_err());
    // uppercase digits decode too
    assert_eq!(fingerprint_from_hex(&"AB".repeat(32)).unwrap(), vec![0xab; 32]);
}

#[test]
fn lift_digest_ok() {
    let v = obj(
        12,
        vec![
            ("fingerprint", Value::StrV("ab".repeat(32))),
            ("serialized_bytes_length", Value::StrV("12".to_string())),
        ],
    );
    assert_eq!(
        lift_digest(&v),
        Ok(Digest { fingerprint: vec![0xab; 32], serialized_bytes_length: 12 })
    );
}

#[test]
fn lift_digest_accepts_integer_length() {
    let v = obj(
        12,
        vec![
            ("fingerprint", Value::StrV("ab".repeat(32))),
            ("serialized_bytes_length", Value::IntV(12)),
        ],
    );
    assert_eq!(
        lift_digest(&v),
        Ok(Digest { fingerprint: vec![0xab; 32], serialized_bytes_length: 12 })
    );
    let negative = obj(
        12,
        vec![
            ("fingerprint", Value::StrV("ab".repeat(32))),
            ("serialized_bytes_length", Value::IntV(-1)),
        ],
    );
    assert!(lift_digest(&negative).is_err());
}

#[test]
fn store_directory_lifts_back() {
    let d = Digest { fingerprint: vec![0x5e; 32], serialized_bytes_length: 4096 };
    let packed = Snapshot::store_directory(&test_types(), &d);
    assert_eq!(lift_digest(&packed), Ok(d));
}

#[test]
fn lift_digest_errors() {
    let missing_fp = obj(
        12,
        vec![("serialized_bytes_length", Value::StrV("12".to_string()))],
    );
    assert!(lift_digest(&missing_fp).is_err());
    let bad_len = obj(
        12,
        vec![
            ("fingerprint", Value::StrV("ab".repeat(32))),
            ("serialized_bytes_length", Value::StrV("twelve".to_string())),
        ],
    );
    assert!(lift_digest(&bad_len).is_err());
    let short_fp = obj(
        12,
        vec![
            ("fingerprint", Value::StrV("abcd".to_string())),
            ("serialized_bytes_length", Value::StrV("12".to_string())),
        ],
    );
    assert!(lift_digest(&short_fp).is_err());
    let huge_len = obj(
        12,
        vec![
            ("fingerprint", Value::StrV("ab".repeat(32))),
            ("serialized_bytes_length", Value::StrV("9223372036854775808".to_string())),
        ],
    );
    assert!(lift_digest(&huge_len).is_err());
}

fn process_request_value(env: Vec<&str>) -> Value {
    obj(
        9,
        vec![
            (
                "argv",
                Value::TupleV(vec![Value::StrV("run".to_string())]),
            ),
            (
                "env",
                Value::TupleV(env.into_iter().map(|s| Value::StrV(s.to_string())).collect()),
            ),
            (
                "input_files",
                obj(
                    12,
                    vec![
                        ("fingerprint", Value::StrV("ef".repeat(32))),
                        ("serialized_bytes_length", Value::StrV("3".to_string())),
                    ],
                ),
            ),
            ("output_files", Value::TupleV(vec![Value::StrV("out.txt".to_string())])),
            ("output_directories", Value::TupleV(vec![])),
            ("timeout_seconds", Value::StrV("0.5".to_string())),
            ("description", Value::StrV("a process".to_string())),
        ],
    )
}

#[test]
fn lift_process_sorts_env_and_keeps_last_value() {
    let v = process_request_value(vec!["B", "2", "A", "1", "A", "3"]);
    let p = ExecuteProcess::lift(&v).unwrap();
    assert_eq!(
        p.0.env,
        vec![
            ("A".to_string(), "3".to_string()),
            ("B".to_string(), "2".to_string()),
        ]
    );
    assert_eq!(p.0.argv, vec!["run".to_string()]);
    assert_eq!(p.0.timeout, 500);
    assert_eq!(p.0.description, "a process".to_string());
    assert_eq!(p.0.input_files.serialized_bytes_length, 3);
    assert_eq!(p.0.output_files, vec!["out.txt".to_string()]);
}

#[test]
fn env_order_produces_identical_requests() {
    let a = ExecuteProcess::lift(&process_request_value(vec!["A", "1", "B", "2"])).unwrap();
    let b = ExecuteProcess::lift(&process_request_value(vec!["B", "2", "A", "1"])).unwrap();
    assert!(engine::process::request_eq(&a.0, &b.0));
    assert_eq!(a.0.env, b.0.env);
}

#[test]
fn lift_process_rejects_odd_env() {
    let v = process_request_value(vec!["A", "1", "B"]);
    match ExecuteProcess::lift(&v) {
        Err(m) => assert_eq!(m, "Error parsing env: odd number of parts"),
        Ok(_) => panic!("expected the odd env length to be rejected"),
    }
}

#[test]
fn lift_path_globs_parses() {
    let v = obj(
        8,
        vec![
            (patterns_attr().as_str(), Value::TupleV(vec![Value::StrV("src/*.rs".to_string())])),
            ("exclude", Value::TupleV(vec![Value::StrV("tmp".to_string())])),
            (
                "glob_match_error_behavior",
                obj(44, vec![("failure_behavior", Value::StrV("warn".to_string()))]),
            ),
        ],
    );
    assert_eq!(
        Snapshot::lift_path_globs(&v),
        Ok(PathGlobs {
            globs: vec!["src/*.rs".to_string()],
            exclude: vec!["tmp".to_string()],
            failure_behavior: GlobMatchErrorBehavior::Warn,
        })
    );
}

#[test]
fn lift_path_globs_rejects_unknown_behavior() {
    let v = obj(
        8,
        vec![
            (patterns_attr().as_str(), Value::TupleV(vec![])),
            ("exclude", Value::TupleV(vec![])),
            (
                "glob_match_error_behavior",
                obj(44, vec![("failure_behavior", Value::StrV("explode".to_string()))]),
            ),
        ],
    );
    assert!(Snapshot::lift_path_globs(&v).is_err());
}

#[test]
fn was_required_converts_noop_only() {
    match was_required(Failure::Noop(Noop::NoTask)) {
        Failure::Throw(Value::StrV(m), _) => {
            assert_eq!(m, "No source of required dependency: NoTask");
        },
        other => panic!("expected a throw, got {:?}", other),
    }
    assert_eq!(was_required(Failure::Invalidated), Failure::Invalidated);
    let t = Failure::Throw(Value::StrV("boom".to_string()), "tb".to_string());
    match was_required(t) {
        Failure::Throw(Value::StrV(m), tb) => {
            assert_eq!(m, "boom");
            assert_eq!(tb, "tb");
        },
        other => panic!("expected the throw unchanged, got {:?}", other),
    }
}

#[test]
fn severity_order() {
    assert!(severity(Noop::NoTask) < severity(Noop::NoVariant));
    assert!(severity(Noop::NoVariant) < severity(Noop::Cycle));
    assert_eq!(noop_max(Noop::NoTask, Noop::Cycle), Noop::Cycle);
    assert_eq!(noop_max(Noop::Cycle, Noop::NoVariant), Noop::Cycle);
    assert_eq!(noop_max(Noop::NoTask, Noop::NoTask), Noop::NoTask);
}

#[test]
fn satisfies_capabilities() {
    let t = test_types();
    assert!(satisfies(&t, t.int_type, &Value::IntV(3)));
    assert!(!satisfies(&t, t.str_type, &Value::IntV(3)));
    let with_products = obj(50, vec![("products", Value::TupleV(vec![]))]);
    assert!(satisfies(&t, t.has_products, &with_products));
    let without = obj(50, vec![]);
    assert!(!satisfies(&t, t.has_products, &without));
    assert!(satisfies(&t, 50, &without));
}

#[test]
fn projections() {
    let v = obj(
        50,
        vec![
            ("name", Value::StrV("x".to_string())),
            ("items", Value::TupleV(vec![Value::StrV("a".to_string())])),
            ("mixed", Value::TupleV(vec![Value::IntV(1)])),
        ],
    );
    assert_eq!(project_str(&v, "name"), Some(&"x".to_string()));
    assert_eq!(project_str(&v, "missing"), None);
    assert_eq!(project_multi_strs(&v, "items"), Some(vec!["a".to_string()]));
    assert_eq!(project_multi_strs(&v, "mixed"), None);
}

#[test]
fn render_decimal() {
    assert_eq!(render_u64(0), "0".to_string());
    assert_eq!(render_u64(7), "7".to_string());
    assert_eq!(render_u64(1234567890), "1234567890".to_string());
    assert_eq!(render_u64(u64::MAX), "18446744073709551615".to_string());
}

#[test]
fn visualizer_colors() {
    let mut viz = Visualizer::new();
    assert_eq!(viz.color_scheme(), "set312");
    let node = NodeKey::DigestFile(DigestFile(File(b"f".to_vec())));
    assert_eq!(viz.color(&node, None), "white".to_string());
    let noop: Result<NodeResult, Failure> = Err(Failure::Noop(Noop::Cycle));
    assert_eq!(viz.color(&node, Some(&noop)), "white".to_string());
    let thrown: Result<NodeResult, Failure> =
        Err(Failure::Throw(Value::StrV("m".to_string()), "tb".to_string()));
    assert_eq!(viz.color(&node, Some(&thrown)), "4".to_string());
    let invalidated: Result<NodeResult, Failure> = Err(Failure::Invalidated);
    assert_eq!(viz.color(&node, Some(&invalidated)), "12".to_string());
    let ok: Result<NodeResult, Failure> = Ok(NodeResult::Value(Value::IntV(1)));
    assert_eq!(viz.color(&node, Some(&ok)), "1".to_string());
    // the same product label keeps its color
    assert_eq!(viz.color(&node, Some(&ok)), "1".to_string());
    // a different label gets the next palette color
    let other = NodeKey::ReadLink(ReadLink(Link(b"l".to_vec())));
    assert_eq!(viz.color(&other, Some(&ok)), "2".to_string());
}

#[test]
fn tracer_bottom_and_state() {
    let ok: Result<NodeResult, Failure> = Ok(NodeResult::Value(Value::IntV(1)));
    let noop: Result<NodeResult, Failure> = Err(Failure::Noop(Noop::NoVariant));
    let thrown: Result<NodeResult, Failure> =
        Err(Failure::Throw(Value::StrV("boom".to_string()), "line".to_string()));
    let invalidated: Result<NodeResult, Failure> = Err(Failure::Invalidated);
    assert!(Tracer::is_bottom(None));
    assert!(Tracer::is_bottom(Some(&ok)));
    assert!(Tracer::is_bottom(Some(&noop)));
    assert!(!Tracer::is_bottom(Some(&thrown)));
    assert!(!Tracer::is_bottom(Some(&invalidated)));
    assert_eq!(Tracer::state_str("  ", None), "<None>".to_string());
    assert_eq!(Tracer::state_str("  ", Some(&ok)), "Value(Int(1))".to_string());
    assert_eq!(Tracer::state_str("  ", Some(&noop)), "Noop(NoVariant)".to_string());
    assert_eq!(Tracer::state_str("  ", Some(&invalidated)), "Invalidated".to_string());
    assert_eq!(Tracer::state_str("  ", Some(&thrown)), "Throw(boom)\n      line".to_string());
    // every traceback line is prefixed with the indent plus four spaces
    let multiline: Result<NodeResult, Failure> = Err(Failure::Throw(
        Value::StrV("boom".to_string()),
        "line1\nline2".to_string(),
    ));
    assert_eq!(
        Tracer::state_str("  ", Some(&multiline)),
        "Throw(boom)\n      line1\n      line2".to_string()
    );
    let digest_state: Result<NodeResult, Failure> = Ok(NodeResult::Digest(
        engine::vfs::Digest { fingerprint: vec![0xab; 32], serialized_bytes_length: 7 },
    ));
    assert_eq!(
        Tracer::state_str("", Some(&digest_state)),
        format!("Digest({}, 7)", "ab".repeat(32))
    );
}

#[test]
fn node_key_labels() {
    let df = NodeKey::DigestFile(DigestFile(File(vec![0xab])));
    assert_eq!(df.product_str(), "DigestFile".to_string());
    assert_eq!(df.format(), "DigestFile(ab)".to_string());
    assert_eq!(df.fs_subject(), Some(&vec![0xab]));
    let sel = NodeKey::Select(Select::new_with_entries(
        5,
        Key { id: 3, type_id: 2 },
        Variants { entries: vec![] },
        vec![],
    ));
    assert_eq!(sel.product_str(), "5".to_string());
    assert_eq!(sel.format(), "Select(3, 5)".to_string());
    assert_eq!(sel.fs_subject(), None);
    let task = NodeKey::Task(Task {
        subject: Key { id: 3, type_id: 2 },
        product: 5,
        variants: Variants { entries: vec![] },
        task: TaskDef { func: 9, clause: vec![] },
        entry: 0,
    });
    assert_eq!(task.product_str(), "5".to_string());
    assert_eq!(task.format(), "Task(9, 3, 5)".to_string());
}

#[test]
fn result_downcasts() {
    let v = NodeResult::Value(Value::IntV(1));
    let got: Result<Value, ()> = <Value as TryFrom<NodeResult>>::try_from(v);
    assert_eq!(got, Ok(Value::IntV(1)));
    let wrong: Result<LinkDest, ()> =
        <LinkDest as TryFrom<NodeResult>>::try_from(NodeResult::Value(Value::IntV(1)));
    assert_eq!(wrong, Err(()));
    let via_into: Result<Value, ()> = TryInto::try_into(NodeResult::Value(Value::NoneV));
    assert_eq!(via_into, Ok(Value::NoneV));
}

#[test]
fn selector_and_variants() {
    let s = selectors::Select::without_variant(4);
    assert_eq!(s.product, 4);
    assert_eq!(s.variant_key, None);
    let vs = Variants {
        entries: vec![
            ("platform".to_string(), "linux".to_string()),
            ("platform".to_string(), "mac".to_string()),
        ],
    };
    // the first entry with a matching name wins
    assert_eq!(vs.find("platform"), Some(&"linux".to_string()));
    assert_eq!(vs.find("arch"), None);
}
