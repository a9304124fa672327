//! Dead-code detector.
//!
//! A function or a type is a dead-code candidate when no edge comes in to
//! its node, and it is no entry point. The edge from its own file
//! (`contains`) does not count, nor does an edge from the node to itself.
//!
//! Entry points are never candidates. Which declarations are entry points
//! is for the caller to say, by `EntryRules`: what is marked `pub`, if the
//! rules say so, and the functions with one of the names that the rules
//! list. The default rules take what is `pub`, and `main`.

use vstd::prelude::*;
use crate::ids::{fn_id, fn_id_of, type_id, type_id_of};
use crate::parser::{FileModel, FunctionModel, ParsedFile, TypeModel};
use crate::records::{EdgeModel, GraphData, GraphEdge, GraphModel, GraphNode, NodeModel};
use crate::text::holds_text;

verus! {

/// Which declarations are entry points.
#[derive(Clone, Debug, PartialEq, Eq)]
pub struct EntryRules {
    /// Whether what is marked `pub` is an entry point.
    pub public_is_entry: bool,
    /// The names of the functions that are entry points.
    pub names: Vec<String>,
}

pub struct EntryRulesModel {
    pub public_is_entry: bool,
    pub names: Seq<Seq<char>>,
}

impl DeepView for EntryRules {
    type V = EntryRulesModel;

    open spec fn deep_view(&self) -> EntryRulesModel {
        EntryRulesModel { public_is_entry: self.public_is_entry, names: self.names.deep_view() }
    }
}

/// The rules used where none are given: what is `pub`, and `main`.
pub open spec fn default_rules() -> EntryRulesModel {
    EntryRulesModel { public_is_entry: true, names: seq!["main"@] }
}

impl Default for EntryRules {
    fn default() -> (out: EntryRules)
        ensures
            out.deep_view() == default_rules(),
    {
        let mut names: Vec<String> = Vec::new();
        names.push("main".to_owned());
        assert(names.deep_view() =~= seq!["main"@]);
        EntryRules { public_is_entry: true, names }
    }
}

pub open spec fn is_entry_function(rules: EntryRulesModel, f: FunctionModel) -> bool {
    (rules.public_is_entry && f.is_public) || rules.names.contains(f.name)
}

pub open spec fn is_entry_type(rules: EntryRulesModel, t: TypeModel) -> bool {
    rules.public_is_entry && t.is_public
}

/// The ids of the entry points among the first `n` functions of a file.
pub open spec fn entry_functions_upto(rules: EntryRulesModel, file: FileModel, n: nat) -> Seq<
    Seq<char>,
>
    decreases n,
{
    if n == 0 || n > file.functions.len() {
        Seq::empty()
    } else {
        let rest = entry_functions_upto(rules, file, (n - 1) as nat);
        if is_entry_function(rules, file.functions[n - 1]) {
            rest.push(fn_id_of(file.path, file.functions[n - 1].name))
        } else {
            rest
        }
    }
}

/// The ids of the entry points among the first `n` types of a file.
pub open spec fn entry_types_upto(rules: EntryRulesModel, file: FileModel, n: nat) -> Seq<Seq<char>>
    decreases n,
{
    if n == 0 || n > file.types.len() {
        Seq::empty()
    } else {
        let rest = entry_types_upto(rules, file, (n - 1) as nat);
        if is_entry_type(rules, file.types[n - 1]) {
            rest.push(type_id_of(file.path, file.types[n - 1].name))
        } else {
            rest
        }
    }
}

pub open spec fn file_entry_points(rules: EntryRulesModel, file: FileModel) -> Seq<Seq<char>> {
    entry_functions_upto(rules, file, file.functions.len()) + entry_types_upto(
        rules,
        file,
        file.types.len(),
    )
}

/// The ids of the entry points of the first `n` files.
pub open spec fn entry_points_upto(rules: EntryRulesModel, files: Seq<FileModel>, n: nat) -> Seq<
    Seq<char>,
>
    decreases n,
{
    if n == 0 || n > files.len() {
        Seq::empty()
    } else {
        entry_points_upto(rules, files, (n - 1) as nat) + file_entry_points(rules, files[n - 1])
    }
}

pub open spec fn entry_points_of(rules: EntryRulesModel, files: Seq<FileModel>) -> Seq<Seq<char>> {
    entry_points_upto(rules, files, files.len())
}

/// Whether an edge makes the node `id` used.
pub open spec fn uses(e: EdgeModel, id: Seq<char>) -> bool {
    e.to == id && e.from != id && e.label != Some("contains"@)
}

pub open spec fn has_incoming(edges: Seq<EdgeModel>, id: Seq<char>) -> bool {
    exists|k: int| 0 <= k < edges.len() && uses(#[trigger] edges[k], id)
}

/// Whether a node is a dead-code candidate, given the entry points.
pub open spec fn is_dead(entries: Seq<Seq<char>>, edges: Seq<EdgeModel>, node: NodeModel) -> bool {
    node.kind != "file"@ && !entries.contains(node.id) && !has_incoming(edges, node.id)
}

/// The ids of the candidates among the first `n` nodes.
pub open spec fn dead_upto(entries: Seq<Seq<char>>, g: GraphModel, n: nat) -> Seq<Seq<char>>
    decreases n,
{
    if n == 0 || n > g.nodes.len() {
        Seq::empty()
    } else {
        let rest = dead_upto(entries, g, (n - 1) as nat);
        if is_dead(entries, g.edges, g.nodes[n - 1]) {
            rest.push(g.nodes[n - 1].id)
        } else {
            rest
        }
    }
}

/// The dead-code candidates of a graph, in the order of its nodes.
pub open spec fn dead_code_of(rules: EntryRulesModel, files: Seq<FileModel>, g: GraphModel) -> Seq<
    Seq<char>,
> {
    dead_upto(entry_points_of(rules, files), g, g.nodes.len())
}

pub proof fn lemma_dead_upto_members(entries: Seq<Seq<char>>, g: GraphModel, n: nat, id: Seq<char>)
    requires
        n <= g.nodes.len(),
    ensures
        dead_upto(entries, g, n).contains(id) <==> exists|k: int|
            0 <= k < n && (#[trigger] g.nodes[k]).id == id && is_dead(entries, g.edges, g.nodes[k]),
    decreases n,
{
    if n > 0 {
        let rest = dead_upto(entries, g, (n - 1) as nat);
        let all = dead_upto(entries, g, n);
        lemma_dead_upto_members(entries, g, (n - 1) as nat, id);
        if all.contains(id) {
            let i = choose|i: int| 0 <= i < all.len() && all[i] == id;
            if i < rest.len() {
                assert(rest[i] == id);
            } else {
                assert(g.nodes[n - 1].id == id);
            }
        }
        if exists|k: int|
            0 <= k < n && (#[trigger] g.nodes[k]).id == id && is_dead(entries, g.edges, g.nodes[k]) {
            let k = choose|k: int|
                0 <= k < n && (#[trigger] g.nodes[k]).id == id && is_dead(
                    entries,
                    g.edges,
                    g.nodes[k],
                );
            if k < n - 1 {
                assert(rest.contains(id));
                let i = choose|i: int| 0 <= i < rest.len() && rest[i] == id;
                assert(all[i] == id);
            } else {
                assert(all[all.len() - 1] == id);
            }
        }
    }
}

/// An id is a candidate exactly when it is the id of a node that is dead.
pub proof fn lemma_dead_code_members(
    rules: EntryRulesModel,
    files: Seq<FileModel>,
    g: GraphModel,
    id: Seq<char>,
)
    ensures
        dead_code_of(rules, files, g).contains(id) <==> exists|k: int|
            0 <= k < g.nodes.len() && (#[trigger] g.nodes[k]).id == id && is_dead(
                entry_points_of(rules, files),
                g.edges,
                g.nodes[k],
            ),
{
    lemma_dead_upto_members(entry_points_of(rules, files), g, g.nodes.len(), id);
}

proof fn lemma_entry_points_grow(
    rules: EntryRulesModel,
    files: Seq<FileModel>,
    n: nat,
    k: int,
    id: Seq<char>,
)
    requires
        0 <= k < n <= files.len(),
        file_entry_points(rules, files[k]).contains(id),
    ensures
        entry_points_upto(rules, files, n).contains(id),
    decreases n,
{
    let part = file_entry_points(rules, files[k]);
    let i = choose|i: int| 0 <= i < part.len() && part[i] == id;
    if k == n - 1 {
        let rest = entry_points_upto(rules, files, (n - 1) as nat);
        assert(entry_points_upto(rules, files, n)[rest.len() + i] == id);
    } else {
        lemma_entry_points_grow(rules, files, (n - 1) as nat, k, id);
        let rest = entry_points_upto(rules, files, (n - 1) as nat);
        let j = choose|j: int| 0 <= j < rest.len() && rest[j] == id;
        assert(entry_points_upto(rules, files, n)[j] == id);
    }
}

proof fn lemma_entry_function_listed(rules: EntryRulesModel, file: FileModel, n: nat, l: int)
    requires
        0 <= l < n <= file.functions.len(),
        is_entry_function(rules, file.functions[l]),
    ensures
        entry_functions_upto(rules, file, n).contains(fn_id_of(file.path, file.functions[l].name)),
    decreases n,
{
    let id = fn_id_of(file.path, file.functions[l].name);
    let all = entry_functions_upto(rules, file, n);
    if l == n - 1 {
        assert(all[all.len() - 1] == id);
    } else {
        lemma_entry_function_listed(rules, file, (n - 1) as nat, l);
        let rest = entry_functions_upto(rules, file, (n - 1) as nat);
        let j = choose|j: int| 0 <= j < rest.len() && rest[j] == id;
        assert(all[j] == id);
    }
}

proof fn lemma_entry_type_listed(rules: EntryRulesModel, file: FileModel, n: nat, l: int)
    requires
        0 <= l < n <= file.types.len(),
        is_entry_type(rules, file.types[l]),
    ensures
        entry_types_upto(rules, file, n).contains(type_id_of(file.path, file.types[l].name)),
    decreases n,
{
    let id = type_id_of(file.path, file.types[l].name);
    let all = entry_types_upto(rules, file, n);
    if l == n - 1 {
        assert(all[all.len() - 1] == id);
    } else {
        lemma_entry_type_listed(rules, file, (n - 1) as nat, l);
        let rest = entry_types_upto(rules, file, (n - 1) as nat);
        let j = choose|j: int| 0 <= j < rest.len() && rest[j] == id;
        assert(all[j] == id);
    }
}

/// A function that is an entry point is never a dead-code candidate,
/// whatever the graph.
pub proof fn lemma_entry_function_spared(
    rules: EntryRulesModel,
    files: Seq<FileModel>,
    g: GraphModel,
    k: int,
    l: int,
)
    requires
        0 <= k < files.len(),
        0 <= l < files[k].functions.len(),
        is_entry_function(rules, files[k].functions[l]),
    ensures
        !dead_code_of(rules, files, g).contains(fn_id_of(files[k].path, files[k].functions[l].name)),
{
    let file = files[k];
    let id = fn_id_of(file.path, file.functions[l].name);
    lemma_entry_function_listed(rules, file, file.functions.len(), l);
    let fns = entry_functions_upto(rules, file, file.functions.len());
    let j = choose|j: int| 0 <= j < fns.len() && fns[j] == id;
    assert(file_entry_points(rules, file)[j] == id);
    lemma_entry_points_grow(rules, files, files.len(), k, id);
    lemma_dead_code_members(rules, files, g, id);
}

/// A type that is an entry point is never a dead-code candidate,
/// whatever the graph.
pub proof fn lemma_entry_type_spared(
    rules: EntryRulesModel,
    files: Seq<FileModel>,
    g: GraphModel,
    k: int,
    l: int,
)
    requires
        0 <= k < files.len(),
        0 <= l < files[k].types.len(),
        is_entry_type(rules, files[k].types[l]),
    ensures
        !dead_code_of(rules, files, g).contains(type_id_of(files[k].path, files[k].types[l].name)),
{
    let file = files[k];
    let id = type_id_of(file.path, file.types[l].name);
    lemma_entry_type_listed(rules, file, file.types.len(), l);
    let ts = entry_types_upto(rules, file, file.types.len());
    let fns = entry_functions_upto(rules, file, file.functions.len());
    let j = choose|j: int| 0 <= j < ts.len() && ts[j] == id;
    assert(file_entry_points(rules, file)[fns.len() + j] == id);
    lemma_entry_points_grow(rules, files, files.len(), k, id);
    lemma_dead_code_members(rules, files, g, id);
}

// ---------------------------------------------------------------------

/// The ids of the entry points of all files.
pub fn entry_points(files: &Vec<ParsedFile>, rules: &EntryRules) -> (out: Vec<String>)
    ensures
        out.deep_view() == entry_points_of(rules.deep_view(), files.deep_view()),
{
    let mut out: Vec<String> = Vec::new();
    let ghost fm = files.deep_view();
    let ghost rm = rules.deep_view();
    assert(out.deep_view() =~= Seq::<Seq<char>>::empty());
    let mut i: usize = 0;
    while i < files.len()
        invariant
            i <= files.len(),
            fm == files.deep_view(),
            rm == rules.deep_view(),
            out.deep_view() == entry_points_upto(rm, fm, i as nat),
        decreases files.len() - i,
    {
        let file: &ParsedFile = &files[i];
        let ghost f = fm[i as int];
        assert(f == file.deep_view());
        let ghost base = out.deep_view();
        assert(out.deep_view() =~= base + entry_functions_upto(rm, f, 0));
        let mut l: usize = 0;
        while l < file.functions.len()
            invariant
                l <= file.functions.len(),
                f == file.deep_view(),
                rm == rules.deep_view(),
                out.deep_view() == base + entry_functions_upto(rm, f, l as nat),
            decreases file.functions.len() - l,
        {
            assert(f.functions[l as int] == file.functions@[l as int].deep_view());
            if (rules.public_is_entry && file.functions[l].is_public) || holds_text(
                &rules.names,
                &file.functions[l].name,
            ) {
                let id: String = fn_id(file.path.as_str(), file.functions[l].name.as_str());
                let ghost before = out.deep_view();
                out.push(id);
                assert(out.deep_view() =~= before.push(id@));
                assert(out.deep_view() =~= base + entry_functions_upto(rm, f, (l + 1) as nat));
            }
            l += 1;
        }
        let ghost mid = out.deep_view();
        assert(out.deep_view() =~= mid + entry_types_upto(rm, f, 0));
        let mut t: usize = 0;
        while t < file.types.len()
            invariant
                t <= file.types.len(),
                f == file.deep_view(),
                rm == rules.deep_view(),
                out.deep_view() == mid + entry_types_upto(rm, f, t as nat),
            decreases file.types.len() - t,
        {
            assert(f.types[t as int] == file.types@[t as int].deep_view());
            if rules.public_is_entry && file.types[t].is_public {
                let id: String = type_id(file.path.as_str(), file.types[t].name.as_str());
                let ghost before = out.deep_view();
                out.push(id);
                assert(out.deep_view() =~= before.push(id@));
                assert(out.deep_view() =~= mid + entry_types_upto(rm, f, (t + 1) as nat));
            }
            t += 1;
        }
        assert(out.deep_view() =~= base + file_entry_points(rm, f));
        i += 1;
    }
    out
}

/// Whether the edge `e` makes the node `id` used.
pub(crate) fn edge_uses(e: &GraphEdge, id: &String, contains: &String) -> (b: bool)
    requires
        contains@ == "contains"@,
    ensures
        b == uses(e.deep_view(), id@),
{
    let held: bool = match &e.label {
        Some(l) => *l == *contains,
        None => false,
    };
    e.to == *id && e.from != *id && !held
}

fn used(edges: &Vec<GraphEdge>, id: &String, contains: &String) -> (b: bool)
    requires
        contains@ == "contains"@,
    ensures
        b == has_incoming(edges.deep_view(), id@),
{
    let mut k: usize = 0;
    while k < edges.len()
        invariant
            k <= edges.len(),
            contains@ == "contains"@,
            forall|j: int| 0 <= j < k ==> !uses(#[trigger] edges.deep_view()[j], id@),
        decreases edges.len() - k,
    {
        let e: &GraphEdge = &edges[k];
        assert(edges.deep_view()[k as int] == e.deep_view());
        if edge_uses(e, id, contains) {
            return true;
        }
        k += 1;
    }
    false
}

/// The dead-code candidates of a run, in the order of the graph's nodes.
pub fn dead_code(files: &Vec<ParsedFile>, graph: &GraphData, rules: &EntryRules) -> (out: Vec<
    String,
>)
    ensures
        out.deep_view() == dead_code_of(rules.deep_view(), files.deep_view(), graph.deep_view()),
{
    let entries: Vec<String> = entry_points(files, rules);
    let ghost rm = rules.deep_view();
    let file_kind: String = "file".to_owned();
    let contains: String = "contains".to_owned();
    let ghost g = graph.deep_view();
    let mut out: Vec<String> = Vec::new();
    assert(out.deep_view() =~= Seq::<Seq<char>>::empty());
    let mut k: usize = 0;
    while k < graph.nodes.len()
        invariant
            k <= graph.nodes.len(),
            g == graph.deep_view(),
            file_kind@ == "file"@,
            contains@ == "contains"@,
            entries.deep_view() == entry_points_of(rm, files.deep_view()),
            out.deep_view() == dead_upto(entries.deep_view(), g, k as nat),
        decreases graph.nodes.len() - k,
    {
        let node: &GraphNode = &graph.nodes[k];
        assert(g.nodes[k as int] == node.deep_view());
        if node.kind != file_kind && !holds_text(&entries, &node.id) && !used(
            &graph.edges,
            &node.id,
            &contains,
        ) {
            let id: String = node.id.clone();
            let ghost before = out.deep_view();
            out.push(id);
            assert(out.deep_view() =~= before.push(id@));
        }
        k += 1;
    }
    out
}

} // verus!
