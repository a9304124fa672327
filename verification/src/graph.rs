//! Graph builder: one node for each file, function and type, and the
//! edges between them.
//!
//! Nodes come in the order of the files; within a file, the file itself,
//! then its functions, then its types, each in the order declared. Edges
//! come as the containment edges (file to function, file to type) in that
//! same order, then the resolved references in the order the resolver
//! gave them. A node whose id is already there is not added again. An
//! edge is dropped where one of its ends is no node, or where the same
//! edge is already there.

use vstd::prelude::*;
use crate::ids::{file_id, file_id_of, fn_id, fn_id_of, type_id, type_id_of};
use crate::parser::{FileModel, FunctionModel, ParsedFile, TypeModel};
use crate::records::{EdgeModel, GraphData, GraphEdge, GraphModel, GraphNode, NodeModel};
use crate::resolver::{DependencyKind, LinkModel, ResolvedDependency};

verus! {

pub open spec fn file_node(file: FileModel) -> NodeModel {
    NodeModel { id: file_id_of(file.path), label: file.path, kind: "file"@ }
}

pub open spec fn fn_node(file: FileModel, f: FunctionModel) -> NodeModel {
    NodeModel { id: fn_id_of(file.path, f.name), label: f.name, kind: "function"@ }
}

pub open spec fn type_node(file: FileModel, t: TypeModel) -> NodeModel {
    NodeModel { id: type_id_of(file.path, t.name), label: t.name, kind: "type"@ }
}

pub open spec fn fn_nodes(file: FileModel) -> Seq<NodeModel> {
    Seq::new(file.functions.len(), |l: int| fn_node(file, file.functions[l]))
}

pub open spec fn type_nodes(file: FileModel) -> Seq<NodeModel> {
    Seq::new(file.types.len(), |l: int| type_node(file, file.types[l]))
}

/// The nodes that one file asks for.
pub open spec fn file_candidates(file: FileModel) -> Seq<NodeModel> {
    seq![file_node(file)] + fn_nodes(file) + type_nodes(file)
}

/// The nodes that the first `n` files ask for.
pub open spec fn candidate_nodes_upto(files: Seq<FileModel>, n: nat) -> Seq<NodeModel>
    decreases n,
{
    if n == 0 || n > files.len() {
        Seq::empty()
    } else {
        candidate_nodes_upto(files, (n - 1) as nat) + file_candidates(files[n - 1])
    }
}

pub open spec fn has_node(nodes: Seq<NodeModel>, id: Seq<char>) -> bool {
    exists|k: int| 0 <= k < nodes.len() && (#[trigger] nodes[k]).id == id
}

pub open spec fn with_node(nodes: Seq<NodeModel>, node: NodeModel) -> Seq<NodeModel> {
    if has_node(nodes, node.id) {
        nodes
    } else {
        nodes.push(node)
    }
}

/// The candidates without those whose id came before.
pub open spec fn kept_nodes(candidates: Seq<NodeModel>) -> Seq<NodeModel>
    decreases candidates.len(),
{
    if candidates.len() == 0 {
        Seq::empty()
    } else {
        with_node(kept_nodes(candidates.drop_last()), candidates.last())
    }
}

pub open spec fn contains_edge(file: FileModel, id: Seq<char>) -> EdgeModel {
    EdgeModel { from: file_id_of(file.path), to: id, label: Some("contains"@) }
}

pub open spec fn link_label(kind: DependencyKind) -> Seq<char> {
    match kind {
        DependencyKind::Import => "imports"@,
        DependencyKind::Call => "calls"@,
    }
}

pub open spec fn link_edge(link: LinkModel) -> EdgeModel {
    EdgeModel { from: link.source, to: link.target, label: Some(link_label(link.kind)) }
}

/// The containment edges of one file.
pub open spec fn contains_edges(file: FileModel) -> Seq<EdgeModel> {
    Seq::new(
        file.functions.len(),
        |l: int| contains_edge(file, fn_id_of(file.path, file.functions[l].name)),
    ) + Seq::new(
        file.types.len(),
        |l: int| contains_edge(file, type_id_of(file.path, file.types[l].name)),
    )
}

pub open spec fn contains_upto(files: Seq<FileModel>, n: nat) -> Seq<EdgeModel>
    decreases n,
{
    if n == 0 || n > files.len() {
        Seq::empty()
    } else {
        contains_upto(files, (n - 1) as nat) + contains_edges(files[n - 1])
    }
}

pub open spec fn link_edges(links: Seq<LinkModel>) -> Seq<EdgeModel> {
    Seq::new(links.len(), |i: int| link_edge(links[i]))
}

/// The edges that a run asks for.
pub open spec fn candidate_edges(files: Seq<FileModel>, links: Seq<LinkModel>) -> Seq<EdgeModel> {
    contains_upto(files, files.len()) + link_edges(links)
}

pub open spec fn has_edge(edges: Seq<EdgeModel>, e: EdgeModel) -> bool {
    exists|k: int| 0 <= k < edges.len() && #[trigger] edges[k] == e
}

pub open spec fn with_edge(nodes: Seq<NodeModel>, edges: Seq<EdgeModel>, e: EdgeModel) -> Seq<
    EdgeModel,
> {
    if has_node(nodes, e.from) && has_node(nodes, e.to) && !has_edge(edges, e) {
        edges.push(e)
    } else {
        edges
    }
}

/// The candidates whose ends are both among `nodes`, without those that
/// came before.
pub open spec fn kept_edges(nodes: Seq<NodeModel>, candidates: Seq<EdgeModel>) -> Seq<EdgeModel>
    decreases candidates.len(),
{
    if candidates.len() == 0 {
        Seq::empty()
    } else {
        with_edge(nodes, kept_edges(nodes, candidates.drop_last()), candidates.last())
    }
}

/// The graph of a run.
pub open spec fn graph_of(files: Seq<FileModel>, links: Seq<LinkModel>) -> GraphModel {
    let nodes = kept_nodes(candidate_nodes_upto(files, files.len()));
    GraphModel { nodes, edges: kept_edges(nodes, candidate_edges(files, links)) }
}

// ---------------------------------------------------------------------
// What holds of every graph built here

pub open spec fn distinct_ids(nodes: Seq<NodeModel>) -> bool {
    forall|i: int, j: int|
        0 <= i < j < nodes.len() ==> (#[trigger] nodes[i]).id != (#[trigger] nodes[j]).id
}

pub open spec fn no_dangling(nodes: Seq<NodeModel>, edges: Seq<EdgeModel>) -> bool {
    forall|k: int|
        0 <= k < edges.len() ==> has_node(nodes, (#[trigger] edges[k]).from) && has_node(
            nodes,
            edges[k].to,
        )
}

pub open spec fn distinct_edges(edges: Seq<EdgeModel>) -> bool {
    forall|i: int, j: int| 0 <= i < j < edges.len() ==> #[trigger] edges[i] != #[trigger] edges[j]
}

pub open spec fn well_formed(g: GraphModel) -> bool {
    &&& distinct_ids(g.nodes)
    &&& no_dangling(g.nodes, g.edges)
    &&& distinct_edges(g.edges)
}

pub proof fn lemma_kept_nodes_distinct(candidates: Seq<NodeModel>)
    ensures
        distinct_ids(kept_nodes(candidates)),
    decreases candidates.len(),
{
    if candidates.len() > 0 {
        lemma_kept_nodes_distinct(candidates.drop_last());
    }
}

/// Every candidate's id is the id of a kept node.
pub proof fn lemma_kept_nodes_cover(candidates: Seq<NodeModel>, i: int)
    requires
        0 <= i < candidates.len(),
    ensures
        has_node(kept_nodes(candidates), candidates[i].id),
    decreases candidates.len(),
{
    let rest = kept_nodes(candidates.drop_last());
    let all = kept_nodes(candidates);
    if i == candidates.len() - 1 {
        if has_node(rest, candidates.last().id) {
        } else {
            assert(all[all.len() - 1].id == candidates[i].id);
        }
    } else {
        lemma_kept_nodes_cover(candidates.drop_last(), i);
        let k = choose|k: int| 0 <= k < rest.len() && (#[trigger] rest[k]).id == candidates[i].id;
        assert(all[k].id == candidates[i].id);
    }
}

pub proof fn lemma_kept_edges_sound(nodes: Seq<NodeModel>, candidates: Seq<EdgeModel>)
    ensures
        no_dangling(nodes, kept_edges(nodes, candidates)),
        distinct_edges(kept_edges(nodes, candidates)),
    decreases candidates.len(),
{
    if candidates.len() > 0 {
        lemma_kept_edges_sound(nodes, candidates.drop_last());
    }
}

proof fn lemma_candidates_grow(files: Seq<FileModel>, n: nat, k: int, i: int)
    requires
        0 <= k < n <= files.len(),
        0 <= i < file_candidates(files[k]).len(),
    ensures
        exists|j: int|
            0 <= j < candidate_nodes_upto(files, n).len() && #[trigger] candidate_nodes_upto(
                files,
                n,
            )[j] == file_candidates(files[k])[i],
    decreases n,
{
    let all = candidate_nodes_upto(files, n);
    let rest = candidate_nodes_upto(files, (n - 1) as nat);
    if k == n - 1 {
        assert(all[rest.len() + i] == file_candidates(files[k])[i]);
    } else {
        lemma_candidates_grow(files, (n - 1) as nat, k, i);
        let j = choose|j: int|
            0 <= j < rest.len() && #[trigger] rest[j] == file_candidates(files[k])[i];
        assert(all[j] == file_candidates(files[k])[i]);
    }
}

/// Every file, every function and every type of a run has its node.
pub proof fn lemma_declarations_have_nodes(files: Seq<FileModel>, links: Seq<LinkModel>, k: int)
    requires
        0 <= k < files.len(),
    ensures
        has_node(graph_of(files, links).nodes, file_id_of(files[k].path)),
        forall|l: int|
            0 <= l < files[k].functions.len() ==> has_node(
                graph_of(files, links).nodes,
                fn_id_of(files[k].path, (#[trigger] files[k].functions[l]).name),
            ),
        forall|l: int|
            0 <= l < files[k].types.len() ==> has_node(
                graph_of(files, links).nodes,
                type_id_of(files[k].path, (#[trigger] files[k].types[l]).name),
            ),
{
    let file = files[k];
    let all = candidate_nodes_upto(files, files.len());
    let own = file_candidates(file);
    assert forall|i: int| 0 <= i < own.len() implies has_node(kept_nodes(all), own[i].id) by {
        lemma_candidates_grow(files, files.len(), k, i);
        let j = choose|j: int| 0 <= j < all.len() && #[trigger] all[j] == own[i];
        lemma_kept_nodes_cover(all, j);
    }
    assert(own[0] == file_node(file));
    assert forall|l: int| 0 <= l < file.functions.len() implies has_node(
        kept_nodes(all),
        fn_id_of(file.path, (#[trigger] file.functions[l]).name),
    ) by {
        assert(own[1 + l] == fn_node(file, file.functions[l]));
    }
    assert forall|l: int| 0 <= l < file.types.len() implies has_node(
        kept_nodes(all),
        type_id_of(file.path, (#[trigger] file.types[l]).name),
    ) by {
        assert(own[1 + file.functions.len() + l] == type_node(file, file.types[l]));
    }
}

/// In every graph built here the node ids are distinct, both ends of
/// every edge are nodes, and no edge occurs twice.
pub proof fn lemma_graph_well_formed(files: Seq<FileModel>, links: Seq<LinkModel>)
    ensures
        well_formed(graph_of(files, links)),
{
    let candidates = candidate_nodes_upto(files, files.len());
    lemma_kept_nodes_distinct(candidates);
    lemma_kept_edges_sound(kept_nodes(candidates), candidate_edges(files, links));
}

// ---------------------------------------------------------------------

/// Whether a node of this id is among `nodes`.
pub fn knows_node(nodes: &Vec<GraphNode>, id: &String) -> (b: bool)
    ensures
        b == has_node(nodes.deep_view(), id@),
{
    let mut k: usize = 0;
    while k < nodes.len()
        invariant
            k <= nodes.len(),
            forall|j: int| 0 <= j < k ==> (#[trigger] nodes.deep_view()[j]).id != id@,
        decreases nodes.len() - k,
    {
        if nodes[k].id == *id {
            assert(nodes.deep_view()[k as int].id == id@);
            return true;
        }
        k += 1;
    }
    false
}

fn same_label(a: &Option<String>, b: &Option<String>) -> (b2: bool)
    ensures
        b2 == (a.deep_view() == b.deep_view()),
{
    match a {
        Some(x) => match b {
            Some(y) => *x == *y,
            None => false,
        },
        None => b.is_none(),
    }
}

fn knows_edge(edges: &Vec<GraphEdge>, e: &GraphEdge) -> (b: bool)
    ensures
        b == has_edge(edges.deep_view(), e.deep_view()),
{
    let mut k: usize = 0;
    while k < edges.len()
        invariant
            k <= edges.len(),
            forall|j: int| 0 <= j < k ==> #[trigger] edges.deep_view()[j] != e.deep_view(),
        decreases edges.len() - k,
    {
        let x: &GraphEdge = &edges[k];
        assert(edges.deep_view()[k as int] == x.deep_view());
        if x.from == e.from && x.to == e.to && same_label(&x.label, &e.label) {
            return true;
        }
        k += 1;
    }
    false
}

fn add_node(nodes: &mut Vec<GraphNode>, node: GraphNode)
    ensures
        final(nodes).deep_view() == with_node(old(nodes).deep_view(), node.deep_view()),
{
    if !knows_node(nodes, &node.id) {
        let ghost before = nodes.deep_view();
        nodes.push(node);
        assert(nodes.deep_view() =~= before.push(node.deep_view()));
    }
}

fn add_edge(nodes: &Vec<GraphNode>, edges: &mut Vec<GraphEdge>, e: GraphEdge)
    ensures
        final(edges).deep_view() == with_edge(
            nodes.deep_view(),
            old(edges).deep_view(),
            e.deep_view(),
        ),
{
    if knows_node(nodes, &e.from) && knows_node(nodes, &e.to) && !knows_edge(edges, &e) {
        let ghost before = edges.deep_view();
        edges.push(e);
        assert(edges.deep_view() =~= before.push(e.deep_view()));
    }
}

proof fn lemma_kept_nodes_push(seen: Seq<NodeModel>, node: NodeModel)
    ensures
        kept_nodes(seen.push(node)) == with_node(kept_nodes(seen), node),
{
    assert(seen.push(node).drop_last() =~= seen);
}

proof fn lemma_kept_edges_push(nodes: Seq<NodeModel>, seen: Seq<EdgeModel>, e: EdgeModel)
    ensures
        kept_edges(nodes, seen.push(e)) == with_edge(nodes, kept_edges(nodes, seen), e),
{
    assert(seen.push(e).drop_last() =~= seen);
}

fn build_nodes(files: &Vec<ParsedFile>) -> (nodes: Vec<GraphNode>)
    ensures
        nodes.deep_view() == kept_nodes(
            candidate_nodes_upto(files.deep_view(), files.len() as nat),
        ),
{
    let mut nodes: Vec<GraphNode> = Vec::new();
    let ghost fm = files.deep_view();
    let ghost mut seen: Seq<NodeModel> = Seq::empty();
    assert(nodes.deep_view() =~= Seq::<NodeModel>::empty());
    let mut i: usize = 0;
    while i < files.len()
        invariant
            i <= files.len(),
            fm == files.deep_view(),
            seen == candidate_nodes_upto(fm, i as nat),
            nodes.deep_view() == kept_nodes(seen),
        decreases files.len() - i,
    {
        let file: &ParsedFile = &files[i];
        let ghost f = fm[i as int];
        assert(f == file.deep_view());
        let ghost base = seen;
        let node = GraphNode {
            id: file_id(file.path.as_str()),
            label: file.path.clone(),
            kind: "file".to_owned(),
        };
        proof {
            lemma_kept_nodes_push(seen, node.deep_view());
            seen = seen.push(node.deep_view());
        }
        add_node(&mut nodes, node);
        assert(seen =~= base + seq![file_node(f)] + fn_nodes(f).take(0));
        let mut l: usize = 0;
        while l < file.functions.len()
            invariant
                l <= file.functions.len(),
                f == file.deep_view(),
                seen == base + seq![file_node(f)] + fn_nodes(f).take(l as int),
                nodes.deep_view() == kept_nodes(seen),
            decreases file.functions.len() - l,
        {
            assert(f.functions[l as int] == file.functions@[l as int].deep_view());
            let node = GraphNode {
                id: fn_id(file.path.as_str(), file.functions[l].name.as_str()),
                label: file.functions[l].name.clone(),
                kind: "function".to_owned(),
            };
            proof {
                lemma_kept_nodes_push(seen, node.deep_view());
                seen = seen.push(node.deep_view());
                assert(seen =~= base + seq![file_node(f)] + fn_nodes(f).take(l + 1));
            }
            add_node(&mut nodes, node);
            l += 1;
        }
        assert(fn_nodes(f).take(file.functions.len() as int) =~= fn_nodes(f));
        assert(seen =~= base + seq![file_node(f)] + fn_nodes(f) + type_nodes(f).take(0));
        let mut t: usize = 0;
        while t < file.types.len()
            invariant
                t <= file.types.len(),
                f == file.deep_view(),
                seen == base + seq![file_node(f)] + fn_nodes(f) + type_nodes(f).take(t as int),
                nodes.deep_view() == kept_nodes(seen),
            decreases file.types.len() - t,
        {
            assert(f.types[t as int] == file.types@[t as int].deep_view());
            let node = GraphNode {
                id: type_id(file.path.as_str(), file.types[t].name.as_str()),
                label: file.types[t].name.clone(),
                kind: "type".to_owned(),
            };
            proof {
                lemma_kept_nodes_push(seen, node.deep_view());
                seen = seen.push(node.deep_view());
                assert(seen =~= base + seq![file_node(f)] + fn_nodes(f) + type_nodes(f).take(
                    t + 1,
                ));
            }
            add_node(&mut nodes, node);
            t += 1;
        }
        assert(type_nodes(f).take(file.types.len() as int) =~= type_nodes(f));
        assert(seen =~= base + file_candidates(f));
        i += 1;
    }
    nodes
}

fn build_edges(
    files: &Vec<ParsedFile>,
    links: &Vec<ResolvedDependency>,
    nodes: &Vec<GraphNode>,
) -> (edges: Vec<GraphEdge>)
    ensures
        edges.deep_view() == kept_edges(
            nodes.deep_view(),
            candidate_edges(files.deep_view(), links.deep_view()),
        ),
{
    let mut edges: Vec<GraphEdge> = Vec::new();
    let ghost fm = files.deep_view();
    let ghost nm = nodes.deep_view();
    let ghost mut seen: Seq<EdgeModel> = Seq::empty();
    assert(edges.deep_view() =~= Seq::<EdgeModel>::empty());
    let mut i: usize = 0;
    while i < files.len()
        invariant
            i <= files.len(),
            fm == files.deep_view(),
            nm == nodes.deep_view(),
            seen == contains_upto(fm, i as nat),
            edges.deep_view() == kept_edges(nm, seen),
        decreases files.len() - i,
    {
        let file: &ParsedFile = &files[i];
        let ghost f = fm[i as int];
        assert(f == file.deep_view());
        let ghost base = seen;
        let ghost fn_part = Seq::new(
            f.functions.len(),
            |l: int| contains_edge(f, fn_id_of(f.path, f.functions[l].name)),
        );
        let ghost type_part = Seq::new(
            f.types.len(),
            |l: int| contains_edge(f, type_id_of(f.path, f.types[l].name)),
        );
        assert(seen =~= base + fn_part.take(0));
        let mut l: usize = 0;
        while l < file.functions.len()
            invariant
                l <= file.functions.len(),
                f == file.deep_view(),
                nm == nodes.deep_view(),
                fn_part == Seq::new(
                    f.functions.len(),
                    |l: int| contains_edge(f, fn_id_of(f.path, f.functions[l].name)),
                ),
                seen == base + fn_part.take(l as int),
                edges.deep_view() == kept_edges(nm, seen),
            decreases file.functions.len() - l,
        {
            assert(f.functions[l as int] == file.functions@[l as int].deep_view());
            let e = GraphEdge {
                from: file_id(file.path.as_str()),
                to: fn_id(file.path.as_str(), file.functions[l].name.as_str()),
                label: Some("contains".to_owned()),
            };
            proof {
                lemma_kept_edges_push(nm, seen, e.deep_view());
                seen = seen.push(e.deep_view());
                assert(seen =~= base + fn_part.take(l + 1));
            }
            add_edge(nodes, &mut edges, e);
            l += 1;
        }
        assert(fn_part.take(file.functions.len() as int) =~= fn_part);
        assert(seen =~= base + fn_part + type_part.take(0));
        let mut t: usize = 0;
        while t < file.types.len()
            invariant
                t <= file.types.len(),
                f == file.deep_view(),
                nm == nodes.deep_view(),
                type_part == Seq::new(
                    f.types.len(),
                    |l: int| contains_edge(f, type_id_of(f.path, f.types[l].name)),
                ),
                seen == base + fn_part + type_part.take(t as int),
                edges.deep_view() == kept_edges(nm, seen),
            decreases file.types.len() - t,
        {
            assert(f.types[t as int] == file.types@[t as int].deep_view());
            let e = GraphEdge {
                from: file_id(file.path.as_str()),
                to: type_id(file.path.as_str(), file.types[t].name.as_str()),
                label: Some("contains".to_owned()),
            };
            proof {
                lemma_kept_edges_push(nm, seen, e.deep_view());
                seen = seen.push(e.deep_view());
                assert(seen =~= base + fn_part + type_part.take(t + 1));
            }
            add_edge(nodes, &mut edges, e);
            t += 1;
        }
        assert(type_part.take(file.types.len() as int) =~= type_part);
        assert(seen =~= base + contains_edges(f));
        i += 1;
    }
    let ghost base = seen;
    let ghost lm = links.deep_view();
    assert(seen =~= base + link_edges(lm).take(0));
    let mut k: usize = 0;
    while k < links.len()
        invariant
            k <= links.len(),
            lm == links.deep_view(),
            nm == nodes.deep_view(),
            seen == base + link_edges(lm).take(k as int),
            edges.deep_view() == kept_edges(nm, seen),
        decreases links.len() - k,
    {
        let link: &ResolvedDependency = &links[k];
        assert(lm[k as int] == link.deep_view());
        let label: String = match link.kind {
            DependencyKind::Import => "imports".to_owned(),
            DependencyKind::Call => "calls".to_owned(),
        };
        let e = GraphEdge { from: link.source.clone(), to: link.target.clone(), label: Some(label) };
        proof {
            lemma_kept_edges_push(nm, seen, e.deep_view());
            seen = seen.push(e.deep_view());
            assert(seen =~= base + link_edges(lm).take(k + 1));
        }
        add_edge(nodes, &mut edges, e);
        k += 1;
    }
    assert(link_edges(lm).take(links.len() as int) =~= link_edges(lm));
    edges
}

/// Builds the graph of a run from its files and resolved references.
pub fn build_graph(files: &Vec<ParsedFile>, links: &Vec<ResolvedDependency>) -> (g: GraphData)
    ensures
        g.deep_view() == graph_of(files.deep_view(), links.deep_view()),
        well_formed(g.deep_view()),
{
    let nodes: Vec<GraphNode> = build_nodes(files);
    let edges: Vec<GraphEdge> = build_edges(files, links, &nodes);
    proof {
        lemma_graph_well_formed(files.deep_view(), links.deep_view());
    }
    GraphData { nodes, edges }
}

} // verus!
