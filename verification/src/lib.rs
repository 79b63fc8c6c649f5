//! A demand-driven, memoizing build-engine core: typed products are
//! computed for typed subjects by dispatching over a precomputed rule
//! graph, with every intermediate result cached by node key.
//!
//! The `values` module models what the engine can observe of host values;
//! `selectors` and `rules` hold dependency requests and the rule index;
//! `vfs`, `digest`, `process` and `snapshot` model the filesystem, the
//! content store and the process runner and parse what crosses the host
//! boundary; `nodes` is the node taxonomy with its typed result union;
//! `context` holds the environment and the memoizing store; `select` is
//! the product-resolution algorithm; `engine` is the evaluator; `failure`
//! is the error taxonomy; `laws` proves the ordering and severity
//! properties; `viz` renders debug views.

pub mod context;
pub mod digest;
pub mod engine;
pub mod failure;
pub mod laws;
pub mod nodes;
pub mod process;
pub mod rules;
pub mod select;
pub mod selectors;
pub mod snapshot;
pub mod values;
pub mod vfs;
pub mod viz;
