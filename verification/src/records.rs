//! The records that an analysis hands out: file listing, graph,
//! complexity list and summary, and the request and response of a run.
//!
//! Counts and line numbers are kept exactly inside the analysis. In a
//! record they take the width of its field and saturate there.

use vstd::prelude::*;

verus! {

/// `n` as an `i32`, or `i32::MAX` where it does not fit.
pub open spec fn clamp_i32(n: nat) -> i32 {
    if n > i32::MAX {
        i32::MAX
    } else {
        n as i32
    }
}

/// `n` as an `i64`, or `i64::MAX` where it does not fit.
pub open spec fn clamp_i64(n: nat) -> i64 {
    if n > i64::MAX {
        i64::MAX
    } else {
        n as i64
    }
}

pub fn to_i32(n: usize) -> (out: i32)
    ensures
        out == clamp_i32(n as nat),
{
    if n > 0x7fff_ffff {
        0x7fff_ffff
    } else {
        n as i32
    }
}

pub fn to_i64(n: u64) -> (out: i64)
    ensures
        out == clamp_i64(n as nat),
{
    if n > 0x7fff_ffff_ffff_ffff {
        0x7fff_ffff_ffff_ffff
    } else {
        n as i64
    }
}

/// One line of the file listing.
#[derive(Clone, Debug, PartialEq, Eq)]
pub struct FileEntry {
    pub id: String,
    pub path: String,
    pub module_name: Option<String>,
    pub line_count: i32,
}

pub struct FileEntryModel {
    pub id: Seq<char>,
    pub path: Seq<char>,
    pub module_name: Option<Seq<char>>,
    pub line_count: i32,
}

impl DeepView for FileEntry {
    type V = FileEntryModel;

    open spec fn deep_view(&self) -> FileEntryModel {
        FileEntryModel {
            id: self.id@,
            path: self.path@,
            module_name: self.module_name.deep_view(),
            line_count: self.line_count,
        }
    }
}

/// A node of the graph: a file, a function or a type.
#[derive(Clone, Debug, PartialEq, Eq)]
pub struct GraphNode {
    pub id: String,
    pub label: String,
    pub kind: String,
}

pub struct NodeModel {
    pub id: Seq<char>,
    pub label: Seq<char>,
    pub kind: Seq<char>,
}

impl DeepView for GraphNode {
    type V = NodeModel;

    open spec fn deep_view(&self) -> NodeModel {
        NodeModel { id: self.id@, label: self.label@, kind: self.kind@ }
    }
}

/// A directed edge between two nodes, named by their ids.
#[derive(Clone, Debug, PartialEq, Eq)]
pub struct GraphEdge {
    pub from: String,
    pub to: String,
    pub label: Option<String>,
}

pub struct EdgeModel {
    pub from: Seq<char>,
    pub to: Seq<char>,
    pub label: Option<Seq<char>>,
}

impl DeepView for GraphEdge {
    type V = EdgeModel;

    open spec fn deep_view(&self) -> EdgeModel {
        EdgeModel { from: self.from@, to: self.to@, label: self.label.deep_view() }
    }
}

#[derive(Clone, Debug, PartialEq, Eq)]
pub struct GraphData {
    pub nodes: Vec<GraphNode>,
    pub edges: Vec<GraphEdge>,
}

pub struct GraphModel {
    pub nodes: Seq<NodeModel>,
    pub edges: Seq<EdgeModel>,
}

impl DeepView for GraphData {
    type V = GraphModel;

    open spec fn deep_view(&self) -> GraphModel {
        GraphModel { nodes: self.nodes.deep_view(), edges: self.edges.deep_view() }
    }
}

/// The complexity of one function.
#[derive(Clone, Debug, PartialEq, Eq)]
pub struct ComplexityItem {
    pub function_name: String,
    pub file_path: String,
    pub score: i32,
    pub line_start: i32,
    pub line_end: i32,
}

pub struct ComplexityModel {
    pub function_name: Seq<char>,
    pub file_path: Seq<char>,
    pub score: i32,
    pub line_start: i32,
    pub line_end: i32,
}

impl DeepView for ComplexityItem {
    type V = ComplexityModel;

    open spec fn deep_view(&self) -> ComplexityModel {
        ComplexityModel {
            function_name: self.function_name@,
            file_path: self.file_path@,
            score: self.score,
            line_start: self.line_start,
            line_end: self.line_end,
        }
    }
}

/// An arithmetic mean, kept exactly as the sum and the number of its
/// terms. The mean of no terms is zero.
#[derive(Clone, Copy, Debug, PartialEq, Eq, Structural)]
pub struct Mean {
    pub sum: i128,
    pub count: usize,
}

/// The summary of one run.
#[derive(Clone, Debug, PartialEq, Eq)]
pub struct AnalysisSummary {
    pub project_id: String,
    pub project_name: String,
    pub total_files: i64,
    pub total_functions: i64,
    pub total_structs: i64,
    pub total_imports: i64,
    pub avg_complexity: Mean,
    pub dead_code_candidates: Vec<String>,
    pub architecture_notes: Vec<String>,
}

pub struct SummaryModel {
    pub project_id: Seq<char>,
    pub project_name: Seq<char>,
    pub total_files: i64,
    pub total_functions: i64,
    pub total_structs: i64,
    pub total_imports: i64,
    pub avg_complexity: Mean,
    pub dead_code_candidates: Seq<Seq<char>>,
    pub architecture_notes: Seq<Seq<char>>,
}

impl DeepView for AnalysisSummary {
    type V = SummaryModel;

    open spec fn deep_view(&self) -> SummaryModel {
        SummaryModel {
            project_id: self.project_id@,
            project_name: self.project_name@,
            total_files: self.total_files,
            total_functions: self.total_functions,
            total_structs: self.total_structs,
            total_imports: self.total_imports,
            avg_complexity: self.avg_complexity,
            dead_code_candidates: self.dead_code_candidates.deep_view(),
            architecture_notes: self.architecture_notes.deep_view(),
        }
    }
}

/// `n` as a `u64`, or `u64::MAX` where it does not fit.
pub open spec fn clamp_u64(n: nat) -> u64 {
    if n > u64::MAX {
        u64::MAX
    } else {
        n as u64
    }
}

/// What a client sends to start a run.
#[derive(Clone, Debug, PartialEq, Eq)]
pub struct AnalyzeRequest {
    pub project_name: Option<String>,
    pub path: Option<String>,
    pub github_url: Option<String>,
}

pub struct RequestModel {
    pub project_name: Option<Seq<char>>,
    pub path: Option<Seq<char>>,
    pub github_url: Option<Seq<char>>,
}

impl DeepView for AnalyzeRequest {
    type V = RequestModel;

    open spec fn deep_view(&self) -> RequestModel {
        RequestModel {
            project_name: self.project_name.deep_view(),
            path: self.path.deep_view(),
            github_url: self.github_url.deep_view(),
        }
    }
}

/// What a client gets back when a run is done.
#[derive(Clone, Debug, PartialEq, Eq)]
pub struct AnalyzeResponse {
    pub project_id: String,
    pub files_analyzed: usize,
    pub functions_found: usize,
    pub message: String,
}

pub struct ResponseModel {
    pub project_id: Seq<char>,
    pub files_analyzed: nat,
    pub functions_found: nat,
    pub message: Seq<char>,
}

impl DeepView for AnalyzeResponse {
    type V = ResponseModel;

    open spec fn deep_view(&self) -> ResponseModel {
        ResponseModel {
            project_id: self.project_id@,
            files_analyzed: self.files_analyzed as nat,
            functions_found: self.functions_found as nat,
            message: self.message@,
        }
    }
}

} // verus!
