//! The analysis of a project: parse every file, resolve, build the
//! graph, score, and sum up.
//!
//! A run fails as a whole or succeeds as a whole. It fails where the
//! files could not be collected, and where there are files and every one
//! of them is binary. Warnings on single files do not fail it: they are
//! listed in the result, and so are the files that were found and could
//! not be read.
//!
//! The mean complexity is kept exactly, as the sum and the number of the
//! scores.

use vstd::prelude::*;
use crate::complexity::{complexity_list, score_all};
use crate::deadcode::{
    EntryRules,
    EntryRulesModel,
    dead_code,
    dead_code_of,
    default_rules,
    is_entry_function,
    lemma_entry_function_spared,
};
use crate::graph::{build_graph, graph_of, well_formed};
use crate::ids::{file_id, file_id_of, fn_id_of};
use crate::notes::{Thresholds, architecture_notes, notes_of};
use crate::parser::{
    FileModel,
    ParseWarning,
    ParsedFile,
    WarningKind,
    is_binary,
    is_binary_text,
    parse_file,
    parsed_file_of,
};
use crate::records::{
    AnalysisSummary,
    ComplexityItem,
    ComplexityModel,
    FileEntry,
    FileEntryModel,
    GraphData,
    GraphModel,
    Mean,
    SummaryModel,
    clamp_i32,
    clamp_i64,
    clamp_u64,
    to_i32,
    to_i64,
};
use crate::resolver::{Dependency, DependencyModel, Resolution, resolution_of, resolve};

verus! {

/// The choices that a run leaves to its caller: the limits of the notes
/// and the entry points of the dead-code detector.
#[derive(Clone, Debug, PartialEq, Eq)]
pub struct Policy {
    pub limits: Thresholds,
    pub entries: EntryRules,
}

pub struct PolicyModel {
    pub limits: Thresholds,
    pub entries: EntryRulesModel,
}

impl DeepView for Policy {
    type V = PolicyModel;

    open spec fn deep_view(&self) -> PolicyModel {
        PolicyModel { limits: self.limits, entries: self.entries.deep_view() }
    }
}

impl Default for Policy {
    fn default() -> (out: Policy)
        ensures
            out.deep_view() == (PolicyModel {
                limits: Thresholds { max_file_lines: 500, max_complexity: 10, max_fan_in: 10 },
                entries: default_rules(),
            }),
    {
        Policy { limits: Thresholds::default(), entries: EntryRules::default() }
    }
}

/// One collected file: its path and its contents.
#[derive(Clone, Debug, PartialEq, Eq)]
pub struct SourceFile {
    pub path: String,
    pub text: String,
}

pub struct SourceModel {
    pub path: Seq<char>,
    pub text: Seq<char>,
}

impl DeepView for SourceFile {
    type V = SourceModel;

    open spec fn deep_view(&self) -> SourceModel {
        SourceModel { path: self.path@, text: self.text@ }
    }
}

/// What the collector hands over: the files it read, and the paths of
/// the files it found and could not read.
#[derive(Clone, Debug, PartialEq, Eq)]
pub struct Collected {
    pub sources: Vec<SourceFile>,
    pub skipped: Vec<String>,
}

pub struct CollectedModel {
    pub sources: Seq<SourceModel>,
    pub skipped: Seq<Seq<char>>,
}

impl DeepView for Collected {
    type V = CollectedModel;

    open spec fn deep_view(&self) -> CollectedModel {
        CollectedModel { sources: self.sources.deep_view(), skipped: self.skipped.deep_view() }
    }
}

/// Why the files of a project could not be collected.
#[derive(Clone, Copy, Debug, PartialEq, Eq, Structural)]
pub enum CollectionError {
    RootMissing,
    RootUnreadable,
}

/// Why a run failed.
#[derive(Clone, Copy, Debug, PartialEq, Eq, Structural)]
pub enum AnalysisError {
    /// The files could not be collected.
    Collection(CollectionError),
    /// There are files, and each of them is binary.
    NothingParsed,
}

/// A warning together with the file it is about.
#[derive(Clone, Debug, PartialEq, Eq)]
pub struct Diagnostic {
    pub path: String,
    pub warning: ParseWarning,
}

pub struct DiagnosticModel {
    pub path: Seq<char>,
    pub warning: ParseWarning,
}

impl DeepView for Diagnostic {
    type V = DiagnosticModel;

    open spec fn deep_view(&self) -> DiagnosticModel {
        DiagnosticModel { path: self.path@, warning: self.warning }
    }
}

/// All that a run produces.
#[derive(Clone, Debug, PartialEq, Eq)]
pub struct Analysis {
    pub files: Vec<FileEntry>,
    pub graph: GraphData,
    pub complexity: Vec<ComplexityItem>,
    pub summary: AnalysisSummary,
    pub diagnostics: Vec<Diagnostic>,
    pub unresolved: Vec<Dependency>,
    pub ambiguous: Vec<Dependency>,
}

pub struct AnalysisModel {
    pub files: Seq<FileEntryModel>,
    pub graph: GraphModel,
    pub complexity: Seq<ComplexityModel>,
    pub summary: SummaryModel,
    pub diagnostics: Seq<DiagnosticModel>,
    pub unresolved: Seq<DependencyModel>,
    pub ambiguous: Seq<DependencyModel>,
}

impl DeepView for Analysis {
    type V = AnalysisModel;

    open spec fn deep_view(&self) -> AnalysisModel {
        AnalysisModel {
            files: self.files.deep_view(),
            graph: self.graph.deep_view(),
            complexity: self.complexity.deep_view(),
            summary: self.summary.deep_view(),
            diagnostics: self.diagnostics.deep_view(),
            unresolved: self.unresolved.deep_view(),
            ambiguous: self.ambiguous.deep_view(),
        }
    }
}

/// The result of a run as contracts see it.
pub open spec fn view_of(out: Result<Analysis, AnalysisError>) -> Result<
    AnalysisModel,
    AnalysisError,
> {
    match out {
        Ok(a) => Ok(a.deep_view()),
        Err(e) => Err(e),
    }
}

// ---------------------------------------------------------------------

pub open spec fn parsed_files_of(sources: Seq<SourceModel>) -> Seq<FileModel> {
    Seq::new(sources.len(), |i: int| parsed_file_of(sources[i].path, sources[i].text))
}

pub open spec fn file_entry_of(file: FileModel) -> FileEntryModel {
    FileEntryModel {
        id: file_id_of(file.path),
        path: file.path,
        module_name: file.module_name,
        line_count: clamp_i32(file.line_count),
    }
}

pub open spec fn file_listing_of(files: Seq<FileModel>) -> Seq<FileEntryModel> {
    Seq::new(files.len(), |i: int| file_entry_of(files[i]))
}

pub open spec fn file_diagnostics(file: FileModel) -> Seq<DiagnosticModel> {
    Seq::new(
        file.warnings.len(),
        |j: int| DiagnosticModel { path: file.path, warning: file.warnings[j] },
    )
}

/// The warnings of the first `n` files.
pub open spec fn diagnostics_upto(files: Seq<FileModel>, n: nat) -> Seq<DiagnosticModel>
    decreases n,
{
    if n == 0 || n > files.len() {
        Seq::empty()
    } else {
        diagnostics_upto(files, (n - 1) as nat) + file_diagnostics(files[n - 1])
    }
}

/// The number of types declared in the first `n` files.
pub open spec fn types_upto(files: Seq<FileModel>, n: nat) -> nat
    decreases n,
{
    if n == 0 || n > files.len() {
        0
    } else {
        types_upto(files, (n - 1) as nat) + files[n - 1].types.len()
    }
}

/// The number of imports of the first `n` files.
pub open spec fn imports_upto(files: Seq<FileModel>, n: nat) -> nat
    decreases n,
{
    if n == 0 || n > files.len() {
        0
    } else {
        imports_upto(files, (n - 1) as nat) + files[n - 1].imports.len()
    }
}

/// The sum of the first `n` scores.
pub open spec fn score_sum(items: Seq<ComplexityModel>, n: nat) -> int
    decreases n,
{
    if n == 0 || n > items.len() {
        0
    } else {
        score_sum(items, (n - 1) as nat) + items[n - 1].score
    }
}

/// The mean of the scores of a complexity list.
pub open spec fn mean_of(items: Seq<ComplexityModel>) -> Mean {
    Mean { sum: score_sum(items, items.len()) as i128, count: items.len() as usize }
}

/// The summary of a run.
pub open spec fn summary_of(
    project_id: Seq<char>,
    project_name: Seq<char>,
    files: Seq<FileModel>,
    items: Seq<ComplexityModel>,
    g: GraphModel,
    policy: PolicyModel,
) -> SummaryModel {
    SummaryModel {
        project_id,
        project_name,
        total_files: clamp_i64(files.len()),
        total_functions: clamp_i64(items.len()),
        total_structs: clamp_i64(types_upto(files, files.len())),
        total_imports: clamp_i64(imports_upto(files, files.len())),
        avg_complexity: mean_of(items),
        dead_code_candidates: dead_code_of(policy.entries, files, g),
        architecture_notes: notes_of(files, items, g, policy.limits),
    }
}

/// What a run makes of files already parsed.
pub open spec fn analysis_of_files(
    project_id: Seq<char>,
    project_name: Seq<char>,
    files: Seq<FileModel>,
    policy: PolicyModel,
) -> AnalysisModel {
    let resolution = resolution_of(files);
    let graph = graph_of(files, resolution.resolved);
    let items = complexity_list(files);
    AnalysisModel {
        files: file_listing_of(files),
        graph,
        complexity: items,
        summary: summary_of(project_id, project_name, files, items, graph, policy),
        diagnostics: diagnostics_upto(files, files.len()),
        unresolved: resolution.unresolved,
        ambiguous: resolution.ambiguous,
    }
}

/// Whether there are files and each of them is binary.
pub open spec fn nothing_parsable(sources: Seq<SourceModel>) -> bool {
    sources.len() > 0 && forall|i: int| 0 <= i < sources.len() ==> is_binary(
        (#[trigger] sources[i]).text,
    )
}

/// What a run makes of the collected files.
pub open spec fn analysis_of(
    project_id: Seq<char>,
    project_name: Seq<char>,
    sources: Seq<SourceModel>,
    policy: PolicyModel,
) -> Result<AnalysisModel, AnalysisError> {
    if nothing_parsable(sources) {
        Err(AnalysisError::NothingParsed)
    } else {
        Ok(analysis_of_files(project_id, project_name, parsed_files_of(sources), policy))
    }
}

/// The warnings for the files that could not be read.
pub open spec fn skipped_diagnostics(skipped: Seq<Seq<char>>) -> Seq<DiagnosticModel> {
    Seq::new(
        skipped.len(),
        |i: int|
            DiagnosticModel {
                path: skipped[i],
                warning: ParseWarning { kind: WarningKind::Unreadable, line: 0 },
            },
    )
}

/// What a run makes of what the collector handed over: the analysis of
/// the files read, with one more warning for each file skipped.
pub open spec fn analysis_of_collected(
    project_id: Seq<char>,
    project_name: Seq<char>,
    collected: Result<CollectedModel, CollectionError>,
    policy: PolicyModel,
) -> Result<AnalysisModel, AnalysisError> {
    match collected {
        Ok(c) => match analysis_of(project_id, project_name, c.sources, policy) {
            Ok(a) => Ok(
                AnalysisModel { diagnostics: a.diagnostics + skipped_diagnostics(c.skipped), ..a },
            ),
            Err(e) => Err(e),
        },
        Err(e) => Err(AnalysisError::Collection(e)),
    }
}

pub open spec fn collected_view(collected: Result<Collected, CollectionError>) -> Result<
    CollectedModel,
    CollectionError,
> {
    match collected {
        Ok(c) => Ok(c.deep_view()),
        Err(e) => Err(e),
    }
}

/// The result of a run is fixed by what went in: the same project, the
/// same files and the same limits give the same file listing, graph,
/// complexity list and summary.
pub proof fn lemma_analysis_repeatable(
    project_id: Seq<char>,
    project_name: Seq<char>,
    first: Seq<SourceModel>,
    second: Seq<SourceModel>,
    policy: PolicyModel,
)
    requires
        first.len() == second.len(),
        forall|i: int| 0 <= i < first.len() ==> first[i] == second[i],
    ensures
        analysis_of(project_id, project_name, first, policy) == analysis_of(
            project_id,
            project_name,
            second,
            policy,
        ),
{
    assert(first =~= second);
}

/// In the result of every run the summary counts the complexity list,
/// its mean is the mean of the list's scores, and the graph is sound.
pub proof fn lemma_analysis_consistent(
    project_id: Seq<char>,
    project_name: Seq<char>,
    sources: Seq<SourceModel>,
    policy: PolicyModel,
)
    ensures
        match analysis_of(project_id, project_name, sources, policy) {
            Ok(a) => {
                &&& a.summary.total_functions == clamp_i64(a.complexity.len())
                &&& a.summary.total_files == clamp_i64(sources.len())
                &&& a.summary.avg_complexity == mean_of(a.complexity)
                &&& well_formed(a.graph)
            },
            Err(_) => true,
        },
{
    let files = parsed_files_of(sources);
    crate::graph::lemma_graph_well_formed(files, resolution_of(files).resolved);
}

/// In the result of every run, no function that is an entry point is
/// among the dead-code candidates.
pub proof fn lemma_entry_points_never_reported(
    project_id: Seq<char>,
    project_name: Seq<char>,
    sources: Seq<SourceModel>,
    policy: PolicyModel,
    k: int,
    l: int,
)
    requires
        0 <= k < sources.len(),
        0 <= l < parsed_files_of(sources)[k].functions.len(),
        is_entry_function(policy.entries, parsed_files_of(sources)[k].functions[l]),
    ensures
        match analysis_of(project_id, project_name, sources, policy) {
            Ok(a) => !a.summary.dead_code_candidates.contains(
                fn_id_of(sources[k].path, parsed_files_of(sources)[k].functions[l].name),
            ),
            Err(_) => true,
        },
{
    let files = parsed_files_of(sources);
    lemma_entry_function_spared(
        policy.entries,
        files,
        graph_of(files, resolution_of(files).resolved),
        k,
        l,
    );
}

// ---------------------------------------------------------------------

/// Parses every collected file.
pub fn parse_all(sources: &Vec<SourceFile>) -> (files: Vec<ParsedFile>)
    ensures
        files.deep_view() == parsed_files_of(sources.deep_view()),
{
    let mut files: Vec<ParsedFile> = Vec::new();
    let mut i: usize = 0;
    while i < sources.len()
        invariant
            i <= sources.len(),
            files.len() == i,
            forall|j: int|
                0 <= j < i ==> (#[trigger] files@[j]).deep_view() == parsed_files_of(
                    sources.deep_view(),
                )[j],
        decreases sources.len() - i,
    {
        assert(sources.deep_view()[i as int] == sources@[i as int].deep_view());
        files.push(parse_file(sources[i].path.as_str(), sources[i].text.as_str()));
        i += 1;
    }
    assert(files.deep_view() =~= parsed_files_of(sources.deep_view()));
    files
}

/// The file listing of a run.
pub fn file_listing(files: &Vec<ParsedFile>) -> (out: Vec<FileEntry>)
    ensures
        out.deep_view() == file_listing_of(files.deep_view()),
{
    let mut out: Vec<FileEntry> = Vec::new();
    let mut i: usize = 0;
    while i < files.len()
        invariant
            i <= files.len(),
            out.len() == i,
            forall|j: int|
                0 <= j < i ==> (#[trigger] out@[j]).deep_view() == file_listing_of(
                    files.deep_view(),
                )[j],
        decreases files.len() - i,
    {
        let file: &ParsedFile = &files[i];
        assert(files.deep_view()[i as int] == file.deep_view());
        let name: Option<String> = match &file.module_name {
            Some(m) => Some(m.clone()),
            None => None,
        };
        out.push(
            FileEntry {
                id: file_id(file.path.as_str()),
                path: file.path.clone(),
                module_name: name,
                line_count: to_i32(file.line_count),
            },
        );
        i += 1;
    }
    assert(out.deep_view() =~= file_listing_of(files.deep_view()));
    out
}

/// The warnings of all files, each with its file's path.
pub fn diagnostics(files: &Vec<ParsedFile>) -> (out: Vec<Diagnostic>)
    ensures
        out.deep_view() == diagnostics_upto(files.deep_view(), files.len() as nat),
{
    let ghost fm = files.deep_view();
    let mut out: Vec<Diagnostic> = Vec::new();
    assert(out.deep_view() =~= Seq::<DiagnosticModel>::empty());
    let mut i: usize = 0;
    while i < files.len()
        invariant
            i <= files.len(),
            fm == files.deep_view(),
            out.deep_view() == diagnostics_upto(fm, i as nat),
        decreases files.len() - i,
    {
        let file: &ParsedFile = &files[i];
        let ghost f = fm[i as int];
        assert(f == file.deep_view());
        let ghost base = out.deep_view();
        assert(out.deep_view() =~= base + file_diagnostics(f).take(0));
        let mut j: usize = 0;
        while j < file.warnings.len()
            invariant
                j <= file.warnings.len(),
                f == file.deep_view(),
                out.deep_view() == base + file_diagnostics(f).take(j as int),
            decreases file.warnings.len() - j,
        {
            let d = Diagnostic { path: file.path.clone(), warning: file.warnings[j] };
            let ghost before = out.deep_view();
            out.push(d);
            assert(out.deep_view() =~= before.push(d.deep_view()));
            assert(out.deep_view() =~= base + file_diagnostics(f).take(j + 1));
            j += 1;
        }
        assert(file_diagnostics(f).take(file.warnings.len() as int) =~= file_diagnostics(f));
        i += 1;
    }
    out
}

/// The mean of the scores of a complexity list.
pub fn mean_score(items: &Vec<ComplexityItem>) -> (mean: Mean)
    ensures
        mean == mean_of(items.deep_view()),
{
    let mut sum: i128 = 0;
    let mut i: usize = 0;
    while i < items.len()
        invariant
            i <= items.len(),
            sum == score_sum(items.deep_view(), i as nat),
            -(i as int) * 0x8000_0000 <= sum <= (i as int) * 0x8000_0000,
        decreases items.len() - i,
    {
        assert(items.deep_view()[i as int] == items@[i as int].deep_view());
        sum = sum + items[i].score as i128;
        i += 1;
    }
    Mean { sum, count: items.len() }
}

/// Sums up a run.
pub fn summarize(
    project_id: &str,
    project_name: &str,
    files: &Vec<ParsedFile>,
    items: &Vec<ComplexityItem>,
    graph: &GraphData,
    policy: &Policy,
) -> (summary: AnalysisSummary)
    ensures
        summary.deep_view() == summary_of(
            project_id@,
            project_name@,
            files.deep_view(),
            items.deep_view(),
            graph.deep_view(),
            policy.deep_view(),
        ),
        summary.total_functions == clamp_i64(items.len() as nat),
        summary.avg_complexity == mean_of(items.deep_view()),
{
    let ghost fm = files.deep_view();
    let mut types: u64 = 0;
    let mut imports: u64 = 0;
    let mut i: usize = 0;
    while i < files.len()
        invariant
            i <= files.len(),
            fm == files.deep_view(),
            types == clamp_u64(types_upto(fm, i as nat)),
            imports == clamp_u64(imports_upto(fm, i as nat)),
        decreases files.len() - i,
    {
        assert(fm[i as int] == files@[i as int].deep_view());
        types = types.saturating_add(files[i].types.len() as u64);
        imports = imports.saturating_add(files[i].imports.len() as u64);
        i += 1;
    }
    AnalysisSummary {
        project_id: project_id.to_owned(),
        project_name: project_name.to_owned(),
        total_files: to_i64(files.len() as u64),
        total_functions: to_i64(items.len() as u64),
        total_structs: to_i64(types),
        total_imports: to_i64(imports),
        avg_complexity: mean_score(items),
        dead_code_candidates: dead_code(files, graph, &policy.entries),
        architecture_notes: architecture_notes(files, items, graph, &policy.limits),
    }
}

/// Runs the analysis on files already parsed.
pub fn analyze_files(
    project_id: &str,
    project_name: &str,
    files: &Vec<ParsedFile>,
    policy: &Policy,
) -> (out: Analysis)
    ensures
        out.deep_view() == analysis_of_files(
            project_id@,
            project_name@,
            files.deep_view(),
            policy.deep_view(),
        ),
        well_formed(out.graph.deep_view()),
        out.summary.total_functions == clamp_i64(out.complexity.len() as nat),
        out.summary.avg_complexity == mean_of(out.complexity.deep_view()),
{
    let resolution: Resolution = resolve(files);
    let graph: GraphData = build_graph(files, &resolution.resolved);
    let items: Vec<ComplexityItem> = score_all(files);
    let summary: AnalysisSummary = summarize(
        project_id,
        project_name,
        files,
        &items,
        &graph,
        policy,
    );
    Analysis {
        files: file_listing(files),
        graph,
        complexity: items,
        summary,
        diagnostics: diagnostics(files),
        unresolved: resolution.unresolved,
        ambiguous: resolution.ambiguous,
    }
}

fn all_binary(sources: &Vec<SourceFile>) -> (b: bool)
    ensures
        b == nothing_parsable(sources.deep_view()),
{
    if sources.len() == 0 {
        return false;
    }
    let mut i: usize = 0;
    while i < sources.len()
        invariant
            i <= sources.len(),
            forall|j: int| 0 <= j < i ==> is_binary((#[trigger] sources.deep_view()[j]).text),
        decreases sources.len() - i,
    {
        assert(sources.deep_view()[i as int] == sources@[i as int].deep_view());
        if !is_binary_text(sources[i].text.as_str()) {
            return false;
        }
        i += 1;
    }
    true
}

/// Runs the analysis on the collected files.
pub fn analyze_sources(
    project_id: &str,
    project_name: &str,
    sources: &Vec<SourceFile>,
    policy: &Policy,
) -> (out: Result<Analysis, AnalysisError>)
    ensures
        view_of(out) == analysis_of(
            project_id@,
            project_name@,
            sources.deep_view(),
            policy.deep_view(),
        ),
        out is Err <==> nothing_parsable(sources.deep_view()),
        out matches Ok(a) ==> {
            &&& well_formed(a.graph.deep_view())
            &&& a.summary.total_functions == clamp_i64(a.complexity.len() as nat)
            &&& a.summary.avg_complexity == mean_of(a.complexity.deep_view())
        },
{
    if all_binary(sources) {
        return Err(AnalysisError::NothingParsed);
    }
    let files: Vec<ParsedFile> = parse_all(sources);
    Ok(analyze_files(project_id, project_name, &files, policy))
}

fn add_skipped(diagnostics: &mut Vec<Diagnostic>, skipped: &Vec<String>)
    ensures
        final(diagnostics).deep_view() == old(diagnostics).deep_view() + skipped_diagnostics(
            skipped.deep_view(),
        ),
{
    let ghost base = diagnostics.deep_view();
    let ghost more = skipped_diagnostics(skipped.deep_view());
    assert(diagnostics.deep_view() =~= base + more.take(0));
    let mut i: usize = 0;
    while i < skipped.len()
        invariant
            i <= skipped.len(),
            more == skipped_diagnostics(skipped.deep_view()),
            diagnostics.deep_view() == base + more.take(i as int),
        decreases skipped.len() - i,
    {
        let d = Diagnostic {
            path: skipped[i].clone(),
            warning: ParseWarning { kind: WarningKind::Unreadable, line: 0 },
        };
        assert(skipped.deep_view()[i as int] == skipped@[i as int]@);
        let ghost before = diagnostics.deep_view();
        diagnostics.push(d);
        assert(diagnostics.deep_view() =~= before.push(d.deep_view()));
        assert(diagnostics.deep_view() =~= base + more.take(i + 1));
        i += 1;
    }
    assert(more.take(skipped.len() as int) =~= more);
}

/// Runs the analysis on what the collector handed over, or fails with
/// the reason why it handed over nothing.
pub fn analyze(
    project_id: &str,
    project_name: &str,
    collected: Result<Collected, CollectionError>,
    policy: &Policy,
) -> (out: Result<Analysis, AnalysisError>)
    ensures
        view_of(out) == analysis_of_collected(
            project_id@,
            project_name@,
            collected_view(collected),
            policy.deep_view(),
        ),
        out matches Ok(a) ==> {
            &&& well_formed(a.graph.deep_view())
            &&& a.summary.total_functions == clamp_i64(a.complexity.len() as nat)
            &&& a.summary.avg_complexity == mean_of(a.complexity.deep_view())
        },
{
    match collected {
        Ok(c) => match analyze_sources(project_id, project_name, &c.sources, policy) {
            Ok(a) => {
                let mut diagnostics: Vec<Diagnostic> = a.diagnostics;
                add_skipped(&mut diagnostics, &c.skipped);
                Ok(
                    Analysis {
                        files: a.files,
                        graph: a.graph,
                        complexity: a.complexity,
                        summary: a.summary,
                        diagnostics,
                        unresolved: a.unresolved,
                        ambiguous: a.ambiguous,
                    },
                )
            },
            Err(e) => Err(e),
        },
        Err(e) => Err(AnalysisError::Collection(e)),
    }
}

} // verus!
