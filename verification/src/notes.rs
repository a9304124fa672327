//! Architecture notes: four rules over the finished graph, tried in a
//! fixed order, each giving one note or none.
//!
//! 1. Oversized file: the file with the most lines, where that is more
//!    than `max_file_lines`.
//! 2. High complexity: the function with the highest score, where that is
//!    more than `max_complexity`.
//! 3. Central dependency: the node that the most edges come in to, where
//!    they are more than `max_fan_in`. Containment edges and edges from a
//!    node to itself are not counted.
//! 4. Circular dependency: the files that lie on a cycle of `imports`
//!    edges, where there are any.
//!
//! Where several entries share the highest value, the one with the least
//! id is named; where they share the id too, the first.

use vstd::prelude::*;
use vstd::string::StringExecFns;
use crate::cycles::{cyclic_nodes, cyclic_nodes_of};
use crate::deadcode::{edge_uses, uses};
use crate::ids::{file_id, file_id_of, fn_id, fn_id_of};
use crate::parser::{FileModel, ParsedFile};
use crate::records::{
    ComplexityItem,
    ComplexityModel,
    EdgeModel,
    GraphData,
    GraphEdge,
    GraphModel,
    GraphNode,
    NodeModel,
};
use crate::text::{
    decimal_of,
    lemma_text_lt_connected,
    lemma_text_lt_irreflexive,
    lemma_text_lt_transitive,
    push_decimal,
    text_before,
    text_lt,
};

verus! {

/// The limits above which a rule gives its note.
#[derive(Clone, Copy, Debug, PartialEq, Eq, Structural)]
pub struct Thresholds {
    pub max_file_lines: usize,
    pub max_complexity: u32,
    pub max_fan_in: usize,
}

impl Default for Thresholds {
    fn default() -> (out: Thresholds)
        ensures
            out == (Thresholds { max_file_lines: 500, max_complexity: 10, max_fan_in: 10 }),
    {
        Thresholds { max_file_lines: 500, max_complexity: 10, max_fan_in: 10 }
    }
}

/// An entry that a rule ranks: the id of what it stands for and its value.
#[derive(Clone, Debug, PartialEq, Eq)]
pub struct Candidate {
    pub id: String,
    pub value: u64,
}

pub struct CandidateModel {
    pub id: Seq<char>,
    pub value: nat,
}

impl DeepView for Candidate {
    type V = CandidateModel;

    open spec fn deep_view(&self) -> CandidateModel {
        CandidateModel { id: self.id@, value: self.value as nat }
    }
}

/// Whether `a` ranks strictly before `b`: by the higher value, then by
/// the lesser id.
pub open spec fn outranks(a: CandidateModel, b: CandidateModel) -> bool {
    a.value > b.value || (a.value == b.value && text_lt(a.id, b.id))
}

/// The entry named among the first `n`: the position of the first one
/// above the limit that no other outranks.
pub open spec fn best_upto(entries: Seq<CandidateModel>, limit: nat, n: nat) -> Option<int>
    decreases n,
{
    if n == 0 || n > entries.len() {
        None
    } else {
        let prev = best_upto(entries, limit, (n - 1) as nat);
        let e = entries[n - 1];
        if e.value > limit && (prev is None || outranks(e, entries[prev.unwrap()])) {
            Some(n - 1)
        } else {
            prev
        }
    }
}

pub open spec fn best_of(entries: Seq<CandidateModel>, limit: nat) -> Option<int> {
    best_upto(entries, limit, entries.len())
}

/// Entry `i` is above the limit, none of the first `n` outranks it, and it
/// outranks all that come before it.
pub open spec fn is_top(entries: Seq<CandidateModel>, limit: nat, n: nat, i: int) -> bool {
    &&& 0 <= i < n
    &&& entries[i].value > limit
    &&& forall|j: int| 0 <= j < n ==> !outranks(#[trigger] entries[j], entries[i])
    &&& forall|j: int| 0 <= j < i ==> outranks(entries[i], #[trigger] entries[j])
}

proof fn lemma_outranks_order(a: CandidateModel, b: CandidateModel, c: CandidateModel)
    requires
        outranks(a, b),
    ensures
        !outranks(a, a),
        outranks(b, c) ==> outranks(a, c),
        outranks(a, c) || outranks(c, b),
{
    lemma_text_lt_irreflexive(a.id);
    if a.value == b.value && b.value == c.value {
        if text_lt(b.id, c.id) {
            lemma_text_lt_transitive(a.id, b.id, c.id);
        }
        if a.id != c.id {
            lemma_text_lt_connected(a.id, c.id);
            if text_lt(c.id, a.id) {
                lemma_text_lt_transitive(c.id, a.id, b.id);
            }
        }
    }
}

/// What the rule names is above the limit, is outranked by no entry, and
/// outranks every entry before it; it names nothing only where no entry
/// is above the limit.
pub proof fn lemma_best_is_top(entries: Seq<CandidateModel>, limit: nat, n: nat)
    requires
        n <= entries.len(),
    ensures
        match best_upto(entries, limit, n) {
            Some(i) => is_top(entries, limit, n, i),
            None => forall|j: int| 0 <= j < n ==> (#[trigger] entries[j]).value <= limit,
        },
    decreases n,
{
    if n > 0 {
        lemma_best_is_top(entries, limit, (n - 1) as nat);
        let prev = best_upto(entries, limit, (n - 1) as nat);
        let e = entries[n - 1];
        lemma_text_lt_irreflexive(e.id);
        match prev {
            Some(b) => {
                if e.value > limit && outranks(e, entries[b]) {
                    assert forall|j: int| 0 <= j < n implies !outranks(#[trigger] entries[j], e) by {
                        if j < n - 1 && outranks(entries[j], e) {
                            lemma_outranks_order(entries[j], e, entries[b]);
                        }
                    }
                    assert forall|j: int| 0 <= j < n - 1 implies outranks(
                        e,
                        #[trigger] entries[j],
                    ) by {
                        lemma_outranks_order(e, entries[b], entries[j]);
                    }
                }
            },
            None => {},
        }
    }
}

/// The position of the entry that a rule names.
pub fn top_entry(entries: &Vec<Candidate>, limit: u64) -> (out: Option<usize>)
    ensures
        match out {
            Some(i) => i < entries.len() && best_of(entries.deep_view(), limit as nat) == Some(
                i as int,
            ) && is_top(entries.deep_view(), limit as nat, entries.len() as nat, i as int),
            None => best_of(entries.deep_view(), limit as nat) is None && forall|j: int|
                0 <= j < entries.len() ==> (#[trigger] entries.deep_view()[j]).value <= limit,
        },
{
    proof {
        lemma_best_is_top(entries.deep_view(), limit as nat, entries.len() as nat);
    }
    let mut best: Option<usize> = None;
    let mut k: usize = 0;
    while k < entries.len()
        invariant
            k <= entries.len(),
            match best {
                Some(i) => i < k && best_upto(entries.deep_view(), limit as nat, k as nat) == Some(
                    i as int,
                ),
                None => best_upto(entries.deep_view(), limit as nat, k as nat) is None,
            },
        decreases entries.len() - k,
    {
        let e: &Candidate = &entries[k];
        assert(entries.deep_view()[k as int] == e.deep_view());
        if e.value > limit {
            let better: bool = match best {
                Some(i) => {
                    let b: &Candidate = &entries[i];
                    assert(entries.deep_view()[i as int] == b.deep_view());
                    e.value > b.value || (e.value == b.value && text_before(
                        e.id.as_str(),
                        b.id.as_str(),
                    ))
                },
                None => true,
            };
            if better {
                best = Some(k);
            }
        }
        k += 1;
    }
    best
}

// ---------------------------------------------------------------------
// Oversized file

pub open spec fn size_entries(files: Seq<FileModel>) -> Seq<CandidateModel> {
    Seq::new(
        files.len(),
        |i: int| CandidateModel { id: file_id_of(files[i].path), value: files[i].line_count },
    )
}

pub open spec fn oversized_text(file: FileModel) -> Seq<char> {
    "oversized file: "@ + file.path + " ("@ + decimal_of(file.line_count) + " lines)"@
}

pub open spec fn oversized_note(files: Seq<FileModel>, limit: nat) -> Seq<Seq<char>> {
    match best_of(size_entries(files), limit) {
        Some(i) => seq![oversized_text(files[i])],
        None => Seq::empty(),
    }
}

// High complexity

pub open spec fn score_value(score: i32) -> nat {
    if score > 0 {
        score as nat
    } else {
        0
    }
}

pub open spec fn score_entries(items: Seq<ComplexityModel>) -> Seq<CandidateModel> {
    Seq::new(
        items.len(),
        |i: int|
            CandidateModel {
                id: fn_id_of(items[i].file_path, items[i].function_name),
                value: score_value(items[i].score),
            },
    )
}

pub open spec fn complex_text(item: ComplexityModel) -> Seq<char> {
    "high complexity: "@ + item.function_name + " in "@ + item.file_path + " (score "@
        + decimal_of(score_value(item.score)) + ")"@
}

pub open spec fn complex_note(items: Seq<ComplexityModel>, limit: nat) -> Seq<Seq<char>> {
    match best_of(score_entries(items), limit) {
        Some(i) => seq![complex_text(items[i])],
        None => Seq::empty(),
    }
}

// Central dependency

/// How many of the first `n` edges make the node `id` used.
pub open spec fn fan_in_upto(edges: Seq<EdgeModel>, id: Seq<char>, n: nat) -> nat
    decreases n,
{
    if n == 0 || n > edges.len() {
        0
    } else {
        fan_in_upto(edges, id, (n - 1) as nat) + if uses(edges[n - 1], id) {
            1nat
        } else {
            0nat
        }
    }
}

pub open spec fn fan_in(edges: Seq<EdgeModel>, id: Seq<char>) -> nat {
    fan_in_upto(edges, id, edges.len())
}

pub open spec fn fan_entries(g: GraphModel) -> Seq<CandidateModel> {
    Seq::new(
        g.nodes.len(),
        |i: int| CandidateModel { id: g.nodes[i].id, value: fan_in(g.edges, g.nodes[i].id) },
    )
}

pub open spec fn central_text(g: GraphModel, i: int) -> Seq<char> {
    "central dependency: "@ + g.nodes[i].id + " (fan-in "@ + decimal_of(
        fan_in(g.edges, g.nodes[i].id),
    ) + ")"@
}

pub open spec fn central_note(g: GraphModel, limit: nat) -> Seq<Seq<char>> {
    match best_of(fan_entries(g), limit) {
        Some(i) => seq![central_text(g, i)],
        None => Seq::empty(),
    }
}

// Circular dependency

/// The position of the first node at or after `from` with this id, or
/// the number of nodes.
pub open spec fn first_index(nodes: Seq<NodeModel>, id: Seq<char>, from: int) -> int
    decreases nodes.len() - from,
{
    if 0 <= from < nodes.len() && nodes[from].id != id {
        first_index(nodes, id, from + 1)
    } else {
        from
    }
}

/// The `imports` edges among the first `n` edges, as arcs between the
/// positions of their ends.
pub open spec fn arcs_upto(g: GraphModel, n: nat) -> Seq<(usize, usize)>
    decreases n,
{
    if n == 0 || n > g.edges.len() {
        Seq::empty()
    } else {
        let rest = arcs_upto(g, (n - 1) as nat);
        let e = g.edges[n - 1];
        if e.label == Some("imports"@) {
            rest.push(
                (first_index(g.nodes, e.from, 0) as usize, first_index(g.nodes, e.to, 0) as usize),
            )
        } else {
            rest
        }
    }
}

pub open spec fn import_arcs(g: GraphModel) -> Seq<(usize, usize)> {
    arcs_upto(g, g.edges.len())
}

/// The labels of the first `n` picked nodes, with `, ` between them.
pub open spec fn joined_labels(nodes: Seq<NodeModel>, picks: Seq<usize>, n: nat) -> Seq<char>
    decreases n,
{
    if n == 0 || n > picks.len() {
        Seq::empty()
    } else if n == 1 {
        nodes[picks[0] as int].label
    } else {
        joined_labels(nodes, picks, (n - 1) as nat) + ", "@ + nodes[picks[n - 1] as int].label
    }
}

pub open spec fn cycle_note(g: GraphModel) -> Seq<Seq<char>> {
    let picks = cyclic_nodes_of(g.nodes.len(), import_arcs(g));
    if picks.len() == 0 {
        Seq::empty()
    } else {
        seq!["circular dependency: "@ + joined_labels(g.nodes, picks, picks.len())]
    }
}

/// The notes of a run, in the order of the rules.
pub open spec fn notes_of(
    files: Seq<FileModel>,
    items: Seq<ComplexityModel>,
    g: GraphModel,
    limits: Thresholds,
) -> Seq<Seq<char>> {
    oversized_note(files, limits.max_file_lines as nat) + complex_note(
        items,
        limits.max_complexity as nat,
    ) + central_note(g, limits.max_fan_in as nat) + cycle_note(g)
}

/// Each rule gives one note at most: a run has at most four notes, and
/// at most one of them is about circular dependencies, however many
/// cycles there are.
pub proof fn lemma_one_note_per_rule(
    files: Seq<FileModel>,
    items: Seq<ComplexityModel>,
    g: GraphModel,
    limits: Thresholds,
)
    ensures
        oversized_note(files, limits.max_file_lines as nat).len() <= 1,
        complex_note(items, limits.max_complexity as nat).len() <= 1,
        central_note(g, limits.max_fan_in as nat).len() <= 1,
        cycle_note(g).len() <= 1,
        notes_of(files, items, g, limits).len() <= 4,
{
}

// ---------------------------------------------------------------------

fn note_oversized(files: &Vec<ParsedFile>, limit: usize) -> (out: Option<String>)
    ensures
        match out {
            Some(s) => oversized_note(files.deep_view(), limit as nat) == seq![s@],
            None => oversized_note(files.deep_view(), limit as nat) == Seq::<Seq<char>>::empty(),
        },
{
    let ghost fm = files.deep_view();
    let mut entries: Vec<Candidate> = Vec::new();
    let mut i: usize = 0;
    while i < files.len()
        invariant
            i <= files.len(),
            fm == files.deep_view(),
            entries.len() == i,
            forall|j: int| 0 <= j < i ==> (#[trigger] entries@[j]).deep_view() == size_entries(fm)[j],
        decreases files.len() - i,
    {
        assert(fm[i as int] == files@[i as int].deep_view());
        entries.push(
            Candidate { id: file_id(files[i].path.as_str()), value: files[i].line_count as u64 },
        );
        i += 1;
    }
    assert(entries.deep_view() =~= size_entries(fm));
    match top_entry(&entries, limit as u64) {
        Some(i) => {
            assert(fm[i as int] == files@[i as int].deep_view());
            let file: &ParsedFile = &files[i];
            let mut s: String = "oversized file: ".to_owned();
            s.append(file.path.as_str());
            s.append(" (");
            push_decimal(&mut s, file.line_count as u64);
            s.append(" lines)");
            Some(s)
        },
        None => None,
    }
}

fn note_complex(items: &Vec<ComplexityItem>, limit: u32) -> (out: Option<String>)
    ensures
        match out {
            Some(s) => complex_note(items.deep_view(), limit as nat) == seq![s@],
            None => complex_note(items.deep_view(), limit as nat) == Seq::<Seq<char>>::empty(),
        },
{
    let ghost im = items.deep_view();
    let mut entries: Vec<Candidate> = Vec::new();
    let mut i: usize = 0;
    while i < items.len()
        invariant
            i <= items.len(),
            im == items.deep_view(),
            entries.len() == i,
            forall|j: int| 0 <= j < i ==> (#[trigger] entries@[j]).deep_view() == score_entries(im)[j],
        decreases items.len() - i,
    {
        let item: &ComplexityItem = &items[i];
        assert(im[i as int] == item.deep_view());
        let value: u64 = if item.score > 0 {
            item.score as u64
        } else {
            0
        };
        entries.push(
            Candidate {
                id: fn_id(item.file_path.as_str(), item.function_name.as_str()),
                value,
            },
        );
        i += 1;
    }
    assert(entries.deep_view() =~= score_entries(im));
    match top_entry(&entries, limit as u64) {
        Some(i) => {
            let item: &ComplexityItem = &items[i];
            assert(im[i as int] == item.deep_view());
            let value: u64 = if item.score > 0 {
                item.score as u64
            } else {
                0
            };
            let mut s: String = "high complexity: ".to_owned();
            s.append(item.function_name.as_str());
            s.append(" in ");
            s.append(item.file_path.as_str());
            s.append(" (score ");
            push_decimal(&mut s, value);
            s.append(")");
            Some(s)
        },
        None => None,
    }
}

/// How many edges come in to the node `id`, containment edges and edges
/// from the node itself left out.
pub fn count_fan_in(edges: &Vec<GraphEdge>, id: &String) -> (n: usize)
    ensures
        n == fan_in(edges.deep_view(), id@),
{
    let contains: String = "contains".to_owned();
    let mut n: usize = 0;
    let mut k: usize = 0;
    while k < edges.len()
        invariant
            k <= edges.len(),
            n <= k,
            contains@ == "contains"@,
            n == fan_in_upto(edges.deep_view(), id@, k as nat),
        decreases edges.len() - k,
    {
        assert(edges.deep_view()[k as int] == edges@[k as int].deep_view());
        if edge_uses(&edges[k], id, &contains) {
            n += 1;
        }
        k += 1;
    }
    n
}

fn note_central(graph: &GraphData, limit: usize) -> (out: Option<String>)
    ensures
        match out {
            Some(s) => central_note(graph.deep_view(), limit as nat) == seq![s@],
            None => central_note(graph.deep_view(), limit as nat) == Seq::<Seq<char>>::empty(),
        },
{
    let ghost g = graph.deep_view();
    let mut entries: Vec<Candidate> = Vec::new();
    let mut i: usize = 0;
    while i < graph.nodes.len()
        invariant
            i <= graph.nodes.len(),
            g == graph.deep_view(),
            entries.len() == i,
            forall|j: int| 0 <= j < i ==> (#[trigger] entries@[j]).deep_view() == fan_entries(g)[j],
        decreases graph.nodes.len() - i,
    {
        let node: &GraphNode = &graph.nodes[i];
        assert(g.nodes[i as int] == node.deep_view());
        entries.push(
            Candidate { id: node.id.clone(), value: count_fan_in(&graph.edges, &node.id) as u64 },
        );
        i += 1;
    }
    assert(entries.deep_view() =~= fan_entries(g));
    match top_entry(&entries, limit as u64) {
        Some(i) => {
            let node: &GraphNode = &graph.nodes[i];
            assert(g.nodes[i as int] == node.deep_view());
            let mut s: String = "central dependency: ".to_owned();
            s.append(node.id.as_str());
            s.append(" (fan-in ");
            push_decimal(&mut s, count_fan_in(&graph.edges, &node.id) as u64);
            s.append(")");
            Some(s)
        },
        None => None,
    }
}

fn find_node(nodes: &Vec<GraphNode>, id: &String) -> (k: usize)
    ensures
        k == first_index(nodes.deep_view(), id@, 0),
        k <= nodes.len(),
{
    let mut k: usize = 0;
    while k < nodes.len() && nodes[k].id != *id
        invariant
            k <= nodes.len(),
            first_index(nodes.deep_view(), id@, k as int) == first_index(nodes.deep_view(), id@, 0),
        decreases nodes.len() - k,
    {
        assert(nodes.deep_view()[k as int] == nodes@[k as int].deep_view());
        k += 1;
    }
    assert(k < nodes.len() ==> nodes.deep_view()[k as int] == nodes@[k as int].deep_view());
    k
}

/// The `imports` edges of a graph as arcs between node positions.
pub fn import_arcs_of(graph: &GraphData) -> (arcs: Vec<(usize, usize)>)
    ensures
        arcs@ == import_arcs(graph.deep_view()),
{
    let ghost g = graph.deep_view();
    let imports: String = "imports".to_owned();
    let mut arcs: Vec<(usize, usize)> = Vec::new();
    let mut k: usize = 0;
    while k < graph.edges.len()
        invariant
            k <= graph.edges.len(),
            g == graph.deep_view(),
            imports@ == "imports"@,
            arcs@ == arcs_upto(g, k as nat),
        decreases graph.edges.len() - k,
    {
        let e: &GraphEdge = &graph.edges[k];
        assert(g.edges[k as int] == e.deep_view());
        let wanted: bool = match &e.label {
            Some(l) => *l == imports,
            None => false,
        };
        if wanted {
            arcs.push((find_node(&graph.nodes, &e.from), find_node(&graph.nodes, &e.to)));
        }
        k += 1;
    }
    arcs
}

fn note_cycle(graph: &GraphData) -> (out: Option<String>)
    ensures
        match out {
            Some(s) => cycle_note(graph.deep_view()) == seq![s@],
            None => cycle_note(graph.deep_view()) == Seq::<Seq<char>>::empty(),
        },
{
    let ghost g = graph.deep_view();
    let arcs: Vec<(usize, usize)> = import_arcs_of(graph);
    let picks: Vec<usize> = cyclic_nodes(graph.nodes.len(), &arcs);
    if picks.len() == 0 {
        return None;
    }
    let mut labels: String = String::new();
    let mut i: usize = 0;
    while i < picks.len()
        invariant
            i <= picks.len(),
            g == graph.deep_view(),
            forall|j: int| 0 <= j < picks.len() ==> picks[j] < graph.nodes.len(),
            labels@ == joined_labels(g.nodes, picks@, i as nat),
        decreases picks.len() - i,
    {
        let node: &GraphNode = &graph.nodes[picks[i]];
        assert(g.nodes[picks[i as int] as int] == node.deep_view());
        if i > 0 {
            labels.append(", ");
        }
        labels.append(node.label.as_str());
        assert(labels@ =~= joined_labels(g.nodes, picks@, (i + 1) as nat));
        i += 1;
    }
    let mut s: String = "circular dependency: ".to_owned();
    s.append(labels.as_str());
    Some(s)
}

fn push_note(out: &mut Vec<String>, note: Option<String>)
    ensures
        final(out).deep_view() == old(out).deep_view() + match note {
            Some(s) => seq![s@],
            None => Seq::<Seq<char>>::empty(),
        },
{
    let ghost before = out.deep_view();
    match note {
        Some(s) => {
            out.push(s);
            assert(out.deep_view() =~= before + seq![s@]);
        },
        None => {
            assert(out.deep_view() =~= before + Seq::<Seq<char>>::empty());
        },
    }
}

/// The architecture notes of a run.
pub fn architecture_notes(
    files: &Vec<ParsedFile>,
    items: &Vec<ComplexityItem>,
    graph: &GraphData,
    limits: &Thresholds,
) -> (out: Vec<String>)
    ensures
        out.deep_view() == notes_of(
            files.deep_view(),
            items.deep_view(),
            graph.deep_view(),
            *limits,
        ),
{
    let mut out: Vec<String> = Vec::new();
    assert(out.deep_view() =~= Seq::<Seq<char>>::empty());
    push_note(&mut out, note_oversized(files, limits.max_file_lines));
    push_note(&mut out, note_complex(items, limits.max_complexity));
    push_note(&mut out, note_central(graph, limits.max_fan_in));
    push_note(&mut out, note_cycle(graph));
    assert(out.deep_view() =~= notes_of(
        files.deep_view(),
        items.deep_view(),
        graph.deep_view(),
        *limits,
    ));
    out
}

} // verus!
