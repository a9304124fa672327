//! Static analysis of a source tree: per-file structure, a dependency and
//! call graph, per-function complexity, dead-code candidates and
//! architecture notes.
//!
//! The stages, in the order a run takes them:
//! - `collector` chooses the files,
//! - `lexer` and `parser` turn each file into its outline,
//! - `resolver` links imports and calls to what they name,
//! - `graph` builds nodes and edges,
//! - `complexity`, `deadcode` and `notes` (with `cycles`) read the graph,
//! - `analysis` runs them all and sums up.
//!
//! `records` holds what a run hands out, `project` the project records,
//! and `dashboard` the state machine of the page that shows a run.

pub mod text;
pub mod lexer;
pub mod parser;
pub mod collector;
pub mod records;
pub mod complexity;
pub mod ids;
pub mod resolver;
pub mod graph;
pub mod deadcode;
pub mod cycles;
pub mod notes;
pub mod analysis;
pub mod project;
pub mod dashboard;
