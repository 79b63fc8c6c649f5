//! End-to-end scenarios for the demand-driven evaluator.

use engine::context::{Core, Graph, GlobExpansion, ProcessRun, StoredDir};
use engine::engine::get;
use engine::failure::{Failure, Noop};
use engine::nodes::{DigestFile, NodeKey, NodeResult, ReadLink, Scandir, Task};
use engine::process::{ExecuteProcess, FallibleExecuteProcessResult};
use engine::rules::{FuncDef, IntrinsicKind, Rule, RuleEdges, RuleEntry, RuleGraph, TaskDef};
use engine::select::Select;
use engine::selectors;
use engine::selectors::Variants;
use engine::snapshot::{GlobMatchErrorBehavior, PathGlobs, Snapshot};
use engine::values::{Field, GenExpr, GenProgram, GenStep, GetRequest, Key, Types, Value};
use engine::vfs::{Digest, DirectoryListing, Dir, File, FileRecord, FsModel, Link, PathStat, Stat};

const FUEL: u64 = 100;

const T_INT: u64 = 1;
const T_STR: u64 = 2;

fn test_types() -> Types {
    Types {
        int_type: T_INT,
        str_type: T_STR,
        bytes_type: 3,
        tuple_type: 4,
        none_type: 5,
        has_products: 6,
        generator: 7,
        path_globs: 8,
        process_request: 9,
        directory_digest: 10,
        construct_snapshot: 11,
        construct_directory_digest: 12,
        construct_process_result: 13,
        construct_file_content: 14,
        construct_files_content: 15,
        construct_path_stat: 16,
        construct_dir: 17,
        construct_file: 18,
    }
}

fn empty_core() -> Core {
    Core {
        types: test_types(),
        rule_graph: RuleGraph { entries: vec![], edges: vec![] },
        singletons: vec![],
        funcs: vec![],
        key_table: vec![],
        vfs: FsModel { links: vec![], dirs: vec![], files: vec![] },
        glob_expansions: vec![],
        store_dirs: vec![],
        process_runs: vec![],
    }
}

fn no_variants() -> Variants {
    Variants { entries: vec![] }
}

fn patterns_attr() -> String {
    "inclu".to_string() + "de"
}

fn obj(type_id: u64, fields: Vec<(&str, Value)>) -> Value {
    Value::ObjV(
        type_id,
        fields
            .into_iter()
            .map(|(n, v)| Field { name: n.to_string(), value: v })
            .collect(),
    )
}

fn digest(byte: u8, len: u64) -> Digest {
    Digest { fingerprint: vec![byte; 32], serialized_bytes_length: len }
}

#[test]
fn literal_is_a() {
    let mut core = empty_core();
    core.key_table = vec![Value::IntV(7)];
    let subject = Key { id: 0, type_id: T_INT };
    let sel = Select::new_with_entries(T_INT, subject, no_variants(), vec![]);
    let mut g = Graph::new();
    let r = sel.run(&core, &mut g, FUEL);
    assert_eq!(r, Ok(Value::IntV(7)));
    // no rule consulted: nothing ran, nothing was memoized
    assert_eq!(g.log.len(), 0);
    assert_eq!(g.memo.len(), 0);
}

#[test]
fn has_a_selection() {
    let mut core = empty_core();
    let subject_val = obj(
        50,
        vec![(
            "products",
            Value::TupleV(vec![Value::StrV("a".to_string()), Value::IntV(3)]),
        )],
    );
    core.key_table = vec![subject_val];
    let subject = Key { id: 0, type_id: 50 };
    let mut g = Graph::new();
    let sel_int = Select::new_with_entries(T_INT, subject, no_variants(), vec![]);
    assert_eq!(sel_int.run(&core, &mut g, FUEL), Ok(Value::IntV(3)));
    let sel_str = Select::new_with_entries(T_STR, subject, no_variants(), vec![]);
    assert_eq!(sel_str.run(&core, &mut g, FUEL), Ok(Value::StrV("a".to_string())));
}

#[test]
fn single_task_dispatch() {
    let mut core = empty_core();
    core.key_table = vec![Value::StrV("abcd".to_string())];
    core.funcs = vec![FuncDef::StrLenFn];
    core.rule_graph = RuleGraph {
        entries: vec![RuleEntry {
            subject_type: T_STR,
            rule: Rule::Task(TaskDef {
                func: 0,
                clause: vec![selectors::Select { product: T_STR, variant_key: None }],
            }),
        }],
        edges: vec![RuleEdges { select_edges: vec![], get_edges: vec![] }],
    };
    let subject = Key { id: 0, type_id: T_STR };
    let sel = Select::new_with_entries(T_INT, subject, no_variants(), vec![0]);
    let mut g = Graph::new();
    assert_eq!(sel.run(&core, &mut g, FUEL), Ok(Value::IntV(4)));
}

#[test]
fn conflict() {
    let mut core = empty_core();
    core.key_table = vec![Value::StrV("x".to_string())];
    core.funcs = vec![
        FuncDef::ConstFn(Value::IntV(1)),
        FuncDef::ConstFn(Value::IntV(2)),
    ];
    core.rule_graph = RuleGraph {
        entries: vec![
            RuleEntry {
                subject_type: T_STR,
                rule: Rule::Task(TaskDef { func: 0, clause: vec![] }),
            },
            RuleEntry {
                subject_type: T_STR,
                rule: Rule::Task(TaskDef { func: 1, clause: vec![] }),
            },
        ],
        edges: vec![
            RuleEdges { select_edges: vec![], get_edges: vec![] },
            RuleEdges { select_edges: vec![], get_edges: vec![] },
        ],
    };
    let subject = Key { id: 0, type_id: T_STR };
    let sel = Select::new_with_entries(T_INT, subject, no_variants(), vec![0, 1]);
    let mut g = Graph::new();
    match sel.run(&core, &mut g, FUEL) {
        Err(Failure::Throw(Value::StrV(m), _)) => {
            assert!(m.contains("Conflicting values produced"));
        },
        other => panic!("expected a conflict throw, got {:?}", other),
    }
}

/// The environment of the generator scenario: a task whose body requests a
/// snapshot, which digests one file.
fn generator_core() -> (Core, Key, Select) {
    let types = test_types();
    let globs_type = types.path_globs;
    let snap_product = types.construct_snapshot;
    let task_product = types.tuple_type;
    let subject_type = 43u64;
    let globs_value = obj(
        globs_type,
        vec![
            (patterns_attr().as_str(), Value::TupleV(vec![Value::StrV("f".to_string())])),
            ("exclude", Value::TupleV(vec![])),
            (
                "glob_match_error_behavior",
                obj(44, vec![("failure_behavior", Value::StrV("error".to_string()))]),
            ),
        ],
    );
    let program = GenProgram {
        steps: vec![GenStep::GetStep(GetRequest {
            product: snap_product,
            subject: Key { id: 1, type_id: globs_type },
        })],
        result: GenExpr::PairE(
            Box::new(GenExpr::ReceivedE(0)),
            Box::new(GenExpr::StrE("done".to_string())),
        ),
    };
    let mut core = empty_core();
    core.key_table = vec![Value::NoneV, globs_value];
    core.funcs = vec![FuncDef::GeneratorFn(program)];
    core.rule_graph = RuleGraph {
        entries: vec![
            // 0: the user task with the generator body
            RuleEntry {
                subject_type,
                rule: Rule::Task(TaskDef { func: 0, clause: vec![] }),
            },
            // 1: the snapshot intrinsic for the globs subject
            RuleEntry { subject_type: globs_type, rule: Rule::Intrinsic(IntrinsicKind::Snapshot) },
        ],
        edges: vec![
            RuleEdges {
                select_edges: vec![],
                get_edges: vec![(
                    engine::rules::GetEdgeKey { product: snap_product, subject_type: globs_type },
                    vec![1],
                )],
            },
            RuleEdges {
                select_edges: vec![(
                    selectors::Select { product: types.path_globs, variant_key: None },
                    vec![],
                )],
                get_edges: vec![],
            },
        ],
    };
    core.vfs.files = vec![(
        b"f".to_vec(),
        FileRecord { content: b"hello".to_vec(), digest: digest(0xaa, 5) },
    )];
    core.glob_expansions = vec![GlobExpansion {
        globs: PathGlobs {
            globs: vec!["f".to_string()],
            exclude: vec![],
            failure_behavior: GlobMatchErrorBehavior::Error,
        },
        path_stats: vec![PathStat::File { path: b"f".to_vec(), stat: File(b"f".to_vec()) }],
        digest: digest(0xbb, 99),
    }];
    let subject = Key { id: 0, type_id: subject_type };
    let root = Select::new_with_entries(task_product, subject, no_variants(), vec![0]);
    (core, subject, root)
}

#[test]
fn generator_drive() {
    let (core, _subject, root) = generator_core();
    let mut g = Graph::new();
    let r = get(&core, &mut g, NodeKey::Select(root), FUEL);
    // the task's value is (snapshot, "done")
    let expected_snapshot = engine::snapshot::Snapshot::store_snapshot(
        &core.types,
        &engine::snapshot::SnapshotData {
            digest: digest(0xbb, 99),
            path_stats: vec![PathStat::File { path: b"f".to_vec(), stat: File(b"f".to_vec()) }],
        },
    );
    assert_eq!(
        r,
        Ok(NodeResult::Value(Value::TupleV(vec![
            expected_snapshot,
            Value::StrV("done".to_string()),
        ])))
    );
    // exactly one DigestFile node was evaluated
    let digest_file_runs = g
        .log
        .iter()
        .filter(|k| matches!(k, NodeKey::DigestFile(_)))
        .count();
    assert_eq!(digest_file_runs, 1);
}

#[test]
fn determinism_and_memoization() {
    let (core, _subject, root) = generator_core();
    let mut g = Graph::new();
    let r1 = get(&core, &mut g, NodeKey::Select(root), FUEL);
    let log_after_first = g.log.len();
    let (_, _, root2) = generator_core();
    let r2 = get(&core, &mut g, NodeKey::Select(root2), FUEL);
    // identical results, and the second run issued no work at all
    assert_eq!(r1, r2);
    assert_eq!(g.log.len(), log_after_first);
}

#[test]
fn missing_variant() {
    let mut core = empty_core();
    core.key_table = vec![Value::IntV(7)];
    let subject = Key { id: 0, type_id: T_INT };
    let sel = Select {
        subject,
        variants: no_variants(),
        selector: selectors::Select {
            product: T_STR,
            variant_key: Some("platform".to_string()),
        },
        entries: vec![],
    };
    let mut g = Graph::new();
    assert_eq!(sel.run(&core, &mut g, FUEL), Err(Failure::Noop(Noop::NoVariant)));
}

#[test]
fn missing_variant_required_is_thrown() {
    let mut core = empty_core();
    core.key_table = vec![Value::IntV(7)];
    core.funcs = vec![FuncDef::ConstFn(Value::IntV(0))];
    let clause_selector = selectors::Select {
        product: T_STR,
        variant_key: Some("platform".to_string()),
    };
    core.rule_graph = RuleGraph {
        entries: vec![RuleEntry {
            subject_type: T_INT,
            rule: Rule::Task(TaskDef { func: 0, clause: vec![clause_selector] }),
        }],
        edges: vec![RuleEdges { select_edges: vec![], get_edges: vec![] }],
    };
    let task = Task {
        subject: Key { id: 0, type_id: T_INT },
        product: T_STR,
        variants: no_variants(),
        task: TaskDef {
            func: 0,
            clause: vec![selectors::Select {
                product: T_STR,
                variant_key: Some("platform".to_string()),
            }],
        },
        entry: 0,
    };
    let mut g = Graph::new();
    match task.run(&core, &mut g, FUEL) {
        Err(Failure::Throw(Value::StrV(m), _)) => {
            assert_eq!(m, "No source of required dependency: NoVariant");
        },
        other => panic!("expected a required-conversion throw, got {:?}", other),
    }
}

#[test]
fn unmatched_success_is_no_task_noop() {
    // a task whose value does not satisfy the product leaves nothing to
    // select: the least severe noop comes back
    let mut core = empty_core();
    core.key_table = vec![Value::StrV("x".to_string())];
    core.funcs = vec![FuncDef::ConstFn(Value::StrV("not an int".to_string()))];
    core.rule_graph = RuleGraph {
        entries: vec![RuleEntry {
            subject_type: T_STR,
            rule: Rule::Task(TaskDef { func: 0, clause: vec![] }),
        }],
        edges: vec![RuleEdges { select_edges: vec![], get_edges: vec![] }],
    };
    let subject = Key { id: 0, type_id: T_STR };
    let sel = Select::new_with_entries(T_INT, subject, no_variants(), vec![0]);
    let mut g = Graph::new();
    assert_eq!(sel.run(&core, &mut g, FUEL), Err(Failure::Noop(Noop::NoTask)));
}

#[test]
fn cycle_surfaces_as_required_throw() {
    // a task that selects its own product for the same subject cycles; the
    // cycle noop is converted at the task's required boundary
    let mut core = empty_core();
    core.key_table = vec![Value::StrV("x".to_string())];
    core.funcs = vec![FuncDef::ConstFn(Value::IntV(1))];
    let self_selector = selectors::Select { product: T_INT, variant_key: None };
    core.rule_graph = RuleGraph {
        entries: vec![RuleEntry {
            subject_type: T_STR,
            rule: Rule::Task(TaskDef { func: 0, clause: vec![self_selector] }),
        }],
        edges: vec![RuleEdges {
            select_edges: vec![(
                selectors::Select { product: T_INT, variant_key: None },
                vec![0],
            )],
            get_edges: vec![],
        }],
    };
    let subject = Key { id: 0, type_id: T_STR };
    let sel = Select::new_with_entries(T_INT, subject, no_variants(), vec![0]);
    let mut g = Graph::new();
    match sel.run(&core, &mut g, FUEL) {
        Err(Failure::Throw(Value::StrV(m), _)) => {
            assert_eq!(m, "No source of required dependency: Cycle");
        },
        other => panic!("expected a cycle throw, got {:?}", other),
    }
}

#[test]
fn cycle_noop_absorbed_by_sibling_success() {
    // candidate A re-selects its own product, which cycles back to A; the
    // cycle noop is absorbed because sibling C succeeds, both in A's inner
    // select and at the root, and C's work happens exactly once
    let mut core = empty_core();
    core.key_table = vec![Value::StrV("x".to_string())];
    core.funcs = vec![
        FuncDef::ConstFn(Value::StrV("unmatched".to_string())),
        FuncDef::ConstFn(Value::IntV(9)),
    ];
    core.rule_graph = RuleGraph {
        entries: vec![
            RuleEntry {
                subject_type: T_STR,
                rule: Rule::Task(TaskDef {
                    func: 0,
                    clause: vec![selectors::Select { product: T_INT, variant_key: None }],
                }),
            },
            RuleEntry {
                subject_type: T_STR,
                rule: Rule::Task(TaskDef { func: 1, clause: vec![] }),
            },
        ],
        edges: vec![
            RuleEdges {
                select_edges: vec![(
                    selectors::Select { product: T_INT, variant_key: None },
                    vec![0, 1],
                )],
                get_edges: vec![],
            },
            RuleEdges { select_edges: vec![], get_edges: vec![] },
        ],
    };
    let subject = Key { id: 0, type_id: T_STR };
    let sel = Select::new_with_entries(T_INT, subject, no_variants(), vec![0, 1]);
    let mut g = Graph::new();
    assert_eq!(sel.run(&core, &mut g, FUEL), Ok(Value::IntV(9)));
    let c_runs = g
        .log
        .iter()
        .filter(|k| matches!(k, NodeKey::Task(t) if t.entry == 1))
        .count();
    assert_eq!(c_runs, 1);
}

#[test]
fn singleton_short_circuits_dispatch() {
    let mut core = empty_core();
    core.key_table = vec![Value::StrV("x".to_string())];
    core.singletons = vec![(T_INT, Value::IntV(42))];
    let subject = Key { id: 0, type_id: T_STR };
    let sel = Select::new_with_entries(T_INT, subject, no_variants(), vec![]);
    let mut g = Graph::new();
    assert_eq!(sel.run(&core, &mut g, FUEL), Ok(Value::IntV(42)));
}

#[test]
fn choose_task_result_absorbs_noops_by_severity() {
    let core = empty_core();
    let sel = Select::new_with_entries(
        T_INT,
        Key { id: 0, type_id: T_STR },
        no_variants(),
        vec![],
    );
    let results: Vec<Result<Value, Failure>> = vec![
        Err(Failure::Noop(Noop::NoTask)),
        Err(Failure::Noop(Noop::Cycle)),
        Err(Failure::Noop(Noop::NoVariant)),
    ];
    assert_eq!(
        sel.choose_task_result(&core.types, results, &None),
        Err(Failure::Noop(Noop::Cycle))
    );
    // permuting the candidates does not change the outcome
    let permuted: Vec<Result<Value, Failure>> = vec![
        Err(Failure::Noop(Noop::Cycle)),
        Err(Failure::Noop(Noop::NoVariant)),
        Err(Failure::Noop(Noop::NoTask)),
    ];
    assert_eq!(
        sel.choose_task_result(&core.types, permuted, &None),
        Err(Failure::Noop(Noop::Cycle))
    );
}

#[test]
fn choose_task_result_single_success_absorbs_noops() {
    let core = empty_core();
    let sel = Select::new_with_entries(
        T_INT,
        Key { id: 0, type_id: T_STR },
        no_variants(),
        vec![],
    );
    let results: Vec<Result<Value, Failure>> = vec![
        Err(Failure::Noop(Noop::Cycle)),
        Ok(Value::IntV(5)),
        Ok(Value::StrV("ignored: wrong type".to_string())),
    ];
    assert_eq!(sel.choose_task_result(&core.types, results, &None), Ok(Value::IntV(5)));
}

#[test]
fn choose_task_result_propagates_throws() {
    let core = empty_core();
    let sel = Select::new_with_entries(
        T_INT,
        Key { id: 0, type_id: T_STR },
        no_variants(),
        vec![],
    );
    let thrown = Failure::Throw(Value::StrV("boom".to_string()), "tb".to_string());
    let results: Vec<Result<Value, Failure>> = vec![
        Ok(Value::StrV("unmatched".to_string())),
        Err(thrown),
        Err(Failure::Noop(Noop::Cycle)),
    ];
    assert_eq!(
        sel.choose_task_result(&core.types, results, &None),
        Err(Failure::Throw(Value::StrV("boom".to_string()), "tb".to_string()))
    );
}

#[test]
fn choose_task_result_invalidated_dominates() {
    let core = empty_core();
    let sel = Select::new_with_entries(
        T_INT,
        Key { id: 0, type_id: T_STR },
        no_variants(),
        vec![],
    );
    let results: Vec<Result<Value, Failure>> = vec![
        Ok(Value::IntV(5)),
        Err(Failure::Invalidated),
    ];
    assert_eq!(sel.choose_task_result(&core.types, results, &None), Err(Failure::Invalidated));
}

#[test]
fn read_link_node() {
    let mut core = empty_core();
    core.vfs.links = vec![(b"l".to_vec(), b"dest".to_vec())];
    let mut g = Graph::new();
    let r = get(&core, &mut g, NodeKey::ReadLink(ReadLink(Link(b"l".to_vec()))), FUEL);
    assert_eq!(r, Ok(NodeResult::LinkDest(engine::nodes::LinkDest(b"dest".to_vec()))));
    let missing = get(&core, &mut g, NodeKey::ReadLink(ReadLink(Link(b"m".to_vec()))), FUEL);
    assert!(matches!(missing, Err(Failure::Throw(_, _))));
}

#[test]
fn scandir_node() {
    let mut core = empty_core();
    core.vfs.dirs = vec![(
        b"d".to_vec(),
        DirectoryListing(vec![Stat::File(File(b"d/f".to_vec())), Stat::Dir(Dir(b"d/s".to_vec()))]),
    )];
    let mut g = Graph::new();
    let r = get(&core, &mut g, NodeKey::Scandir(Scandir(Dir(b"d".to_vec()))), FUEL);
    assert_eq!(
        r,
        Ok(NodeResult::DirectoryListing(DirectoryListing(vec![
            Stat::File(File(b"d/f".to_vec())),
            Stat::Dir(Dir(b"d/s".to_vec())),
        ])))
    );
}

#[test]
fn digest_file_memoized() {
    let mut core = empty_core();
    core.vfs.files = vec![(
        b"f".to_vec(),
        FileRecord { content: b"hello".to_vec(), digest: digest(0xaa, 5) },
    )];
    let mut g = Graph::new();
    let node = NodeKey::DigestFile(DigestFile(File(b"f".to_vec())));
    let r1 = get(&core, &mut g, node, FUEL);
    assert_eq!(r1, Ok(NodeResult::Digest(digest(0xaa, 5))));
    assert_eq!(g.log.len(), 1);
    let node_again = NodeKey::DigestFile(DigestFile(File(b"f".to_vec())));
    let r2 = get(&core, &mut g, node_again, FUEL);
    assert_eq!(r1, r2);
    assert_eq!(g.log.len(), 1);
}

#[test]
fn execute_process_node() {
    let mut core = empty_core();
    let request_val = obj(
        9,
        vec![
            ("argv", Value::TupleV(vec![Value::StrV("echo".to_string())])),
            ("env", Value::TupleV(vec![])),
            (
                "input_files",
                obj(
                    12,
                    vec![
                        ("fingerprint", Value::StrV("ab".repeat(32))),
                        ("serialized_bytes_length", Value::StrV("5".to_string())),
                    ],
                ),
            ),
            ("output_files", Value::TupleV(vec![])),
            ("output_directories", Value::TupleV(vec![])),
            ("timeout_seconds", Value::StrV("1.5".to_string())),
            ("description", Value::StrV("say hello".to_string())),
        ],
    );
    let request = match ExecuteProcess::lift(&request_val) {
        Ok(p) => p,
        Err(e) => panic!("lift failed: {}", e),
    };
    let outcome = FallibleExecuteProcessResult {
        stdout: b"hello\n".to_vec(),
        stderr: vec![],
        exit_code: 0,
        output_directory: digest(0xcc, 0),
    };
    core.process_runs = vec![ProcessRun {
        request: engine::process::request_clone(&request.0),
        result: Ok(outcome.clone()),
    }];
    let mut g = Graph::new();
    let r = get(&core, &mut g, NodeKey::ExecuteProcess(request), FUEL);
    assert_eq!(r, Ok(NodeResult::ProcessResult(engine::process::ProcessResult(outcome))));
}

#[test]
fn execute_process_runner_error_is_thrown() {
    let mut core = empty_core();
    let request_val = obj(
        9,
        vec![
            ("argv", Value::TupleV(vec![Value::StrV("false".to_string())])),
            ("env", Value::TupleV(vec![])),
            (
                "input_files",
                obj(
                    12,
                    vec![
                        ("fingerprint", Value::StrV("00".repeat(32))),
                        ("serialized_bytes_length", Value::StrV("0".to_string())),
                    ],
                ),
            ),
            ("output_files", Value::TupleV(vec![])),
            ("output_directories", Value::TupleV(vec![])),
            ("timeout_seconds", Value::StrV("1".to_string())),
            ("description", Value::StrV("fails".to_string())),
        ],
    );
    let request = ExecuteProcess::lift(&request_val).unwrap();
    core.process_runs = vec![ProcessRun {
        request: engine::process::request_clone(&request.0),
        result: Err("boom".to_string()),
    }];
    let mut g = Graph::new();
    match get(&core, &mut g, NodeKey::ExecuteProcess(request), FUEL) {
        Err(Failure::Throw(Value::StrV(m), _)) => {
            assert_eq!(m, "Failed to execute process: boom");
        },
        other => panic!("expected the runner error to be thrown, got {:?}", other),
    }
}

#[test]
fn files_content_intrinsic() {
    let mut core = empty_core();
    let subject_val = obj(
        10,
        vec![
            ("fingerprint", Value::StrV("cd".repeat(32))),
            ("serialized_bytes_length", Value::StrV("7".to_string())),
        ],
    );
    core.key_table = vec![subject_val];
    core.rule_graph = RuleGraph {
        entries: vec![RuleEntry {
            subject_type: 10,
            rule: Rule::Intrinsic(IntrinsicKind::FilesContent),
        }],
        edges: vec![RuleEdges {
            select_edges: vec![(
                selectors::Select { product: 10, variant_key: None },
                vec![],
            )],
            get_edges: vec![],
        }],
    };
    core.store_dirs = vec![StoredDir {
        digest: digest(0xcd, 7),
        files: vec![(b"a.txt".to_vec(), b"content".to_vec())],
    }];
    let subject = Key { id: 0, type_id: 10 };
    let sel = Select::new_with_entries(test_types().construct_files_content, subject, no_variants(), vec![0]);
    let mut g = Graph::new();
    let expected = engine::snapshot::Snapshot::store_files_content(
        &core.types,
        &vec![(b"a.txt".to_vec(), b"content".to_vec())],
    );
    assert_eq!(sel.run(&core, &mut g, FUEL), Ok(expected));
}

#[test]
fn execute_process_intrinsic_packs_result() {
    let mut core = empty_core();
    let request_val = obj(
        9,
        vec![
            ("argv", Value::TupleV(vec![Value::StrV("true".to_string())])),
            ("env", Value::TupleV(vec![])),
            (
                "input_files",
                obj(
                    12,
                    vec![
                        ("fingerprint", Value::StrV("00".repeat(32))),
                        ("serialized_bytes_length", Value::StrV("0".to_string())),
                    ],
                ),
            ),
            ("output_files", Value::TupleV(vec![])),
            ("output_directories", Value::TupleV(vec![])),
            ("timeout_seconds", Value::StrV("1".to_string())),
            ("description", Value::StrV("noop".to_string())),
        ],
    );
    let request = ExecuteProcess::lift(&request_val).unwrap();
    let outcome = FallibleExecuteProcessResult {
        stdout: vec![],
        stderr: vec![],
        exit_code: 0,
        output_directory: digest(0xdd, 3),
    };
    core.key_table = vec![request_val];
    core.process_runs = vec![ProcessRun {
        request: engine::process::request_clone(&request.0),
        result: Ok(outcome.clone()),
    }];
    core.rule_graph = RuleGraph {
        entries: vec![RuleEntry {
            subject_type: 9,
            rule: Rule::Intrinsic(IntrinsicKind::ProcessExecution),
        }],
        edges: vec![RuleEdges {
            select_edges: vec![(
                selectors::Select { product: 9, variant_key: None },
                vec![],
            )],
            get_edges: vec![],
        }],
    };
    let subject = Key { id: 0, type_id: 9 };
    let sel = Select::new_with_entries(test_types().construct_process_result, subject, no_variants(), vec![0]);
    let mut g = Graph::new();
    let expected = engine::process::store_process_result(&core.types, &outcome);
    assert_eq!(sel.run(&core, &mut g, FUEL), Ok(expected));
}

#[test]
fn snapshot_node_expands_and_digests() {
    let (core, _, _) = generator_core();
    let globs = PathGlobs {
        globs: vec!["f".to_string()],
        exclude: vec![],
        failure_behavior: GlobMatchErrorBehavior::Error,
    };
    let mut g = Graph::new();
    let r = get(&core, &mut g, NodeKey::Snapshot(Snapshot(globs)), FUEL);
    assert_eq!(
        r,
        Ok(NodeResult::Snapshot(engine::snapshot::SnapshotData {
            digest: digest(0xbb, 99),
            path_stats: vec![PathStat::File { path: b"f".to_vec(), stat: File(b"f".to_vec()) }],
        }))
    );
}

#[test]
fn snapshot_parse_failure_is_thrown() {
    // the subject satisfies the path-globs product but does not parse
    let mut core = empty_core();
    let types = test_types();
    let bad_globs = obj(types.path_globs, vec![("exclude", Value::TupleV(vec![]))]);
    core.key_table = vec![bad_globs];
    core.rule_graph = RuleGraph {
        entries: vec![RuleEntry {
            subject_type: types.path_globs,
            rule: Rule::Intrinsic(IntrinsicKind::Snapshot),
        }],
        edges: vec![RuleEdges {
            select_edges: vec![(
                selectors::Select { product: types.path_globs, variant_key: None },
                vec![],
            )],
            get_edges: vec![],
        }],
    };
    let subject = Key { id: 0, type_id: types.path_globs };
    let root = Select::new_with_entries(types.construct_snapshot, subject, no_variants(), vec![0]);
    let mut g = Graph::new();
    match root.run(&core, &mut g, FUEL) {
        Err(Failure::Throw(Value::StrV(m), _)) => {
            assert_eq!(m, "Failed to parse PathGlobs");
        },
        other => panic!("expected the parse failure to be thrown, got {:?}", other),
    }
}

#[test]
fn files_content_missing_directory_is_thrown() {
    let mut core = empty_core();
    let subject_val = obj(
        10,
        vec![
            ("fingerprint", Value::StrV("cd".repeat(32))),
            ("serialized_bytes_length", Value::StrV("7".to_string())),
        ],
    );
    core.key_table = vec![subject_val];
    core.rule_graph = RuleGraph {
        entries: vec![RuleEntry {
            subject_type: 10,
            rule: Rule::Intrinsic(IntrinsicKind::FilesContent),
        }],
        edges: vec![RuleEdges {
            select_edges: vec![(
                selectors::Select { product: 10, variant_key: None },
                vec![],
            )],
            get_edges: vec![],
        }],
    };
    // the content store holds nothing
    let subject = Key { id: 0, type_id: 10 };
    let sel = Select::new_with_entries(
        test_types().construct_files_content,
        subject,
        no_variants(),
        vec![0],
    );
    let mut g = Graph::new();
    match sel.run(&core, &mut g, FUEL) {
        Err(Failure::Throw(Value::StrV(m), _)) => {
            assert_eq!(m, "Could not find directory with digest");
        },
        other => panic!("expected the missing directory to be thrown, got {:?}", other),
    }
}

#[test]
fn leaf_errors_name_their_path() {
    let core = empty_core();
    let mut g = Graph::new();
    match get(&core, &mut g, NodeKey::ReadLink(ReadLink(Link(vec![0xab]))), FUEL) {
        Err(Failure::Throw(Value::StrV(m), _)) => {
            assert_eq!(m, "Failed to read_link for ab");
        },
        other => panic!("expected a read_link throw, got {:?}", other),
    }
    match get(&core, &mut g, NodeKey::Scandir(Scandir(Dir(vec![0xcd]))), FUEL) {
        Err(Failure::Throw(Value::StrV(m), _)) => {
            assert_eq!(m, "Failed to scandir for cd");
        },
        other => panic!("expected a scandir throw, got {:?}", other),
    }
    match get(&core, &mut g, NodeKey::DigestFile(DigestFile(File(vec![0xef]))), FUEL) {
        Err(Failure::Throw(Value::StrV(m), _)) => {
            assert_eq!(m, "Error reading file ef");
        },
        other => panic!("expected a digest-file throw, got {:?}", other),
    }
}

#[test]
fn unknown_subject_key_is_thrown() {
    let core = empty_core();
    let sel = Select::new_with_entries(
        T_INT,
        Key { id: 5, type_id: T_INT },
        no_variants(),
        vec![],
    );
    let mut g = Graph::new();
    assert!(matches!(sel.run(&core, &mut g, FUEL), Err(Failure::Throw(_, _))));
}

#[test]
fn fuel_exhaustion_is_thrown() {
    let mut core = empty_core();
    core.key_table = vec![Value::IntV(7)];
    let sel = Select::new_with_entries(
        T_INT,
        Key { id: 0, type_id: T_INT },
        no_variants(),
        vec![],
    );
    let mut g = Graph::new();
    assert!(matches!(sel.run(&core, &mut g, 0), Err(Failure::Throw(_, _))));
}

#[test]
fn variant_matching_picks_named_product() {
    // the subject has two products; the variant value must match the
    // candidate's name attribute
    let mut core = empty_core();
    let named = |name: &str, marker: i64| {
        obj(70, vec![("name", Value::StrV(name.to_string())), ("marker", Value::IntV(marker))])
    };
    let subject_val = obj(
        50,
        vec![("products", Value::TupleV(vec![named("linux", 1), named("mac", 2)]))],
    );
    core.key_table = vec![subject_val];
    let subject = Key { id: 0, type_id: 50 };
    let sel = Select {
        subject,
        variants: Variants {
            entries: vec![("platform".to_string(), "mac".to_string())],
        },
        selector: selectors::Select { product: 70, variant_key: Some("platform".to_string()) },
        entries: vec![],
    };
    let mut g = Graph::new();
    assert_eq!(sel.run(&core, &mut g, FUEL), Ok(named("mac", 2)));
}
