use gravity::cycles::{cyclic_nodes, reachable_from};
use gravity::deadcode::{dead_code, entry_points, EntryRules};
use gravity::graph::{build_graph, knows_node};
use gravity::ids::{file_id, fn_id, type_id};
use gravity::notes::{
    architecture_notes, count_fan_in, import_arcs_of, top_entry, Candidate, Thresholds,
};
use gravity::parser::{parse_file, ParsedFile};
use gravity::records::{ComplexityItem, GraphData, GraphEdge, GraphNode};
use gravity::resolver::{
    modules_named, resolve, Dependency, DependencyKind, ResolvedDependency,
};
use gravity::complexity::score_all;

fn parse(files: &[(&str, &str)]) -> Vec<ParsedFile> {
    files.iter().map(|(p, t)| parse_file(p, t)).collect()
}

fn link(source: &str, target: &str, kind: DependencyKind) -> ResolvedDependency {
    ResolvedDependency { source: source.into(), target: target.into(), kind }
}

fn dep(source: &str, raw: &str, kind: DependencyKind) -> Dependency {
    Dependency { source_entity: source.into(), raw_target: raw.into(), kind }
}

fn node(id: &str, label: &str, kind: &str) -> GraphNode {
    GraphNode { id: id.into(), label: label.into(), kind: kind.into() }
}

fn edge(from: &str, to: &str, label: &str) -> GraphEdge {
    GraphEdge { from: from.into(), to: to.into(), label: Some(label.into()) }
}

#[test]
fn ids_are_made_from_path_and_name() {
    assert_eq!(file_id("src/a.rs"), "file:src/a.rs");
    assert_eq!(fn_id("src/a.rs", "run"), "fn:src/a.rs::run");
    assert_eq!(type_id("src/a.rs", "Point"), "type:src/a.rs::Point");
}

#[test]
fn imports_resolve_exactly_then_relatively_then_not() {
    let files = parse(&[
        ("src/main.rs", "use util;\nuse src/lib/deep.rs;\nuse sub/near.rs;\nuse serde::Serialize;\n"),
        ("src/util.rs", ""),
        ("src/lib/deep.rs", ""),
        ("src/sub/near.rs", ""),
    ]);
    let res = resolve(&files);
    assert_eq!(res.resolved, vec![
        link("file:src/main.rs", "file:src/util.rs", DependencyKind::Import),
        link("file:src/main.rs", "file:src/lib/deep.rs", DependencyKind::Import),
        link("file:src/main.rs", "file:src/sub/near.rs", DependencyKind::Import),
    ]);
    assert_eq!(res.unresolved, vec![dep(
        "file:src/main.rs",
        "serde::Serialize",
        DependencyKind::Import
    )]);
    assert_eq!(res.ambiguous, vec![]);
}

#[test]
fn modules_that_an_import_names() {
    assert_eq!(modules_named("crate::graph::build"), vec!["crate", "graph", "build"]);
    assert_eq!(modules_named("super::{a, b}"), vec!["super", "a", "b"]);
    assert_eq!(modules_named("self::x"), vec!["self", "x"]);
    assert_eq!(modules_named("std::path::Path"), vec!["std"]);
    assert_eq!(modules_named("util"), vec!["util"]);
    assert_eq!(modules_named("::"), Vec::<String>::new());
}

#[test]
fn imports_by_module_path() {
    let files = parse(&[
        ("src/main.rs", "use crate::graph::{build, Node};\nuse std::path::Path;\nuse util::helper;\n"),
        ("src/graph.rs", ""),
        ("src/build.rs", ""),
        ("src/path.rs", ""),
        ("src/helper.rs", ""),
        ("src/util.rs", ""),
    ]);
    let res = resolve(&files);
    assert_eq!(res.resolved, vec![
        link("file:src/main.rs", "file:src/graph.rs", DependencyKind::Import),
        link("file:src/main.rs", "file:src/build.rs", DependencyKind::Import),
        link("file:src/main.rs", "file:src/util.rs", DependencyKind::Import),
    ]);
    assert_eq!(res.unresolved, vec![dep("file:src/main.rs", "std::path::Path", DependencyKind::Import)]);
    assert_eq!(res.ambiguous, vec![dep(
        "file:src/main.rs",
        "crate::graph::{build,Node}",
        DependencyKind::Import
    )]);
}

#[test]
fn import_of_a_module_name_shared_by_two_files_is_ambiguous() {
    let files = parse(&[("a/util.rs", ""), ("b/util.rs", ""), ("main.rs", "mod util;")]);
    let res = resolve(&files);
    assert_eq!(res.resolved, vec![
        link("file:main.rs", "file:a/util.rs", DependencyKind::Import),
        link("file:main.rs", "file:b/util.rs", DependencyKind::Import),
    ]);
    assert_eq!(res.ambiguous, vec![dep("file:main.rs", "util", DependencyKind::Import)]);
    assert_eq!(res.unresolved, vec![]);
}

#[test]
fn a_file_does_not_import_itself() {
    let files = parse(&[("util.rs", "use util;")]);
    let res = resolve(&files);
    assert_eq!(res.resolved, vec![]);
    assert_eq!(res.unresolved, vec![dep("file:util.rs", "util", DependencyKind::Import)]);
}

#[test]
fn calls_resolve_in_the_same_file_first() {
    let files = parse(&[
        ("a.rs", "fn run() { helper(); shared(); println(); }\nfn helper() {}\n"),
        ("b.rs", "fn helper() {}\nfn shared() {}\n"),
        ("c.rs", "fn shared() { fn local() {} if (x) {} }\n"),
    ]);
    let res = resolve(&files);
    assert_eq!(res.resolved, vec![
        link("fn:a.rs::run", "fn:a.rs::helper", DependencyKind::Call),
        link("fn:a.rs::run", "fn:b.rs::shared", DependencyKind::Call),
        link("fn:a.rs::run", "fn:c.rs::shared", DependencyKind::Call),
    ]);
    assert_eq!(res.unresolved, vec![dep("fn:a.rs::run", "println", DependencyKind::Call)]);
    assert_eq!(res.ambiguous, vec![dep("fn:a.rs::run", "shared", DependencyKind::Call)]);
}

#[test]
fn graph_nodes_and_edges_in_order() {
    let files = parse(&[
        ("a.rs", "use b;\nstruct S;\nfn main() { helper(); helper(); }\n"),
        ("b.rs", "fn helper() {}\n"),
    ]);
    let res = resolve(&files);
    let g = build_graph(&files, &res.resolved);
    assert_eq!(g.nodes, vec![
        node("file:a.rs", "a.rs", "file"),
        node("fn:a.rs::main", "main", "function"),
        node("type:a.rs::S", "S", "type"),
        node("file:b.rs", "b.rs", "file"),
        node("fn:b.rs::helper", "helper", "function"),
    ]);
    // the second call of `helper` gives the same edge, which is kept once
    assert_eq!(g.edges, vec![
        edge("file:a.rs", "fn:a.rs::main", "contains"),
        edge("file:a.rs", "type:a.rs::S", "contains"),
        edge("file:b.rs", "fn:b.rs::helper", "contains"),
        edge("file:a.rs", "file:b.rs", "imports"),
        edge("fn:a.rs::main", "fn:b.rs::helper", "calls"),
    ]);
    assert!(knows_node(&g.nodes, &"fn:b.rs::helper".to_string()));
    assert!(!knows_node(&g.nodes, &"fn:b.rs::other".to_string()));
}

#[test]
fn graph_drops_dangling_edges_and_repeated_nodes() {
    let files = parse(&[("a.rs", "fn f() {}"), ("a.rs", "fn f() {}\nfn g() {}")]);
    let links = vec![
        link("fn:a.rs::f", "fn:a.rs::g", DependencyKind::Call),
        link("fn:a.rs::f", "fn:zzz.rs::g", DependencyKind::Call),
        link("fn:nowhere::f", "fn:a.rs::g", DependencyKind::Call),
        link("fn:a.rs::f", "fn:a.rs::g", DependencyKind::Call),
        link("fn:a.rs::f", "fn:a.rs::g", DependencyKind::Import),
    ];
    let g = build_graph(&files, &links);
    let ids: Vec<&str> = g.nodes.iter().map(|n| n.id.as_str()).collect();
    assert_eq!(ids, vec!["file:a.rs", "fn:a.rs::f", "fn:a.rs::g"]);
    assert_eq!(g.edges, vec![
        edge("file:a.rs", "fn:a.rs::f", "contains"),
        edge("file:a.rs", "fn:a.rs::g", "contains"),
        edge("fn:a.rs::f", "fn:a.rs::g", "calls"),
        edge("fn:a.rs::f", "fn:a.rs::g", "imports"),
    ]);
    for e in &g.edges {
        assert!(knows_node(&g.nodes, &e.from));
        assert!(knows_node(&g.nodes, &e.to));
    }
}

#[test]
fn dead_code_spares_entry_points_and_used_functions() {
    let files = parse(&[(
        "a.rs",
        "fn main() { used(); }\nfn used() {}\nfn unused() {}\npub fn api() {}\nfn recursive() { recursive(); }\nstruct Hidden;\npub struct Shown;\n",
    )]);
    let rules = EntryRules::default();
    assert_eq!(rules, EntryRules { public_is_entry: true, names: vec!["main".to_string()] });
    assert_eq!(entry_points(&files, &rules), vec![
        "fn:a.rs::main".to_string(),
        "fn:a.rs::api".to_string(),
        "type:a.rs::Shown".to_string(),
    ]);
    let res = resolve(&files);
    let g = build_graph(&files, &res.resolved);
    assert_eq!(dead_code(&files, &g, &rules), vec![
        "fn:a.rs::unused".to_string(),
        "fn:a.rs::recursive".to_string(),
        "type:a.rs::Hidden".to_string(),
    ]);
    // other rules: nothing is spared for being `pub`, `unused` is an entry point
    let strict = EntryRules { public_is_entry: false, names: vec!["unused".to_string()] };
    assert_eq!(entry_points(&files, &strict), vec!["fn:a.rs::unused".to_string()]);
    assert_eq!(dead_code(&files, &g, &strict), vec![
        "fn:a.rs::main".to_string(),
        "fn:a.rs::api".to_string(),
        "fn:a.rs::recursive".to_string(),
        "type:a.rs::Hidden".to_string(),
        "type:a.rs::Shown".to_string(),
    ]);
}

#[test]
fn reachability_and_cycles() {
    // 0 -> 1 -> 2 -> 1, 3 -> 3, 4 alone; arcs to nodes that are not there are ignored
    let arcs = vec![(0, 1), (1, 2), (2, 1), (3, 3), (4, 9), (9, 4)];
    assert_eq!(reachable_from(5, &arcs, 0), vec![false, true, true, false, false]);
    assert_eq!(reachable_from(5, &arcs, 1), vec![false, true, true, false, false]);
    assert_eq!(reachable_from(5, &arcs, 3), vec![false, false, false, true, false]);
    assert_eq!(reachable_from(5, &arcs, 4), vec![false, false, false, false, false]);
    assert_eq!(cyclic_nodes(5, &arcs), vec![1, 2, 3]);
    assert_eq!(cyclic_nodes(5, &vec![(0, 1), (1, 2), (0, 2)]), Vec::<usize>::new());
    assert_eq!(cyclic_nodes(0, &arcs), Vec::<usize>::new());
    // later arcs open the way for earlier ones
    assert_eq!(cyclic_nodes(4, &vec![(3, 0), (2, 3), (1, 2), (0, 1)]), vec![0, 1, 2, 3]);
}

#[test]
fn top_entry_takes_the_highest_then_the_least_id() {
    let c = |id: &str, value: u64| Candidate { id: id.into(), value };
    let entries = vec![c("m", 5), c("z", 9), c("b", 9), c("a", 3), c("b", 9), c("c", 9)];
    assert_eq!(top_entry(&entries, 4), Some(2));
    assert_eq!(top_entry(&entries, 8), Some(2));
    assert_eq!(top_entry(&entries, 9), None);
    assert_eq!(top_entry(&vec![], 0), None);
    assert_eq!(top_entry(&vec![c("a", 0)], 0), None);
    assert_eq!(top_entry(&vec![c("a", 1)], 0), Some(0));
}

fn item(name: &str, path: &str, score: i32) -> ComplexityItem {
    ComplexityItem {
        function_name: name.into(),
        file_path: path.into(),
        score,
        line_start: 1,
        line_end: 2,
    }
}

#[test]
fn default_thresholds() {
    assert_eq!(Thresholds::default(), Thresholds {
        max_file_lines: 500,
        max_complexity: 10,
        max_fan_in: 10
    });
}

#[test]
fn notes_follow_the_rules_in_order() {
    let long = "\n".repeat(7);
    let files = parse(&[
        ("a.rs", "use b;\nfn fa() { hub(); }\n"),
        ("b.rs", "use a;\nfn fb() { hub(); }\nfn hub() {}\n"),
        ("long.rs", long.as_str()),
        ("longer.rs", "\n\n\n\n\n\n\n\n\n"),
    ]);
    let res = resolve(&files);
    let g = build_graph(&files, &res.resolved);
    let items = vec![item("low", "a.rs", 2), item("knot", "b.rs", 12), item("knot", "a.rs", 12)];
    let limits = Thresholds { max_file_lines: 5, max_complexity: 10, max_fan_in: 1 };
    assert_eq!(architecture_notes(&files, &items, &g, &limits), vec![
        "oversized file: longer.rs (9 lines)".to_string(),
        "high complexity: knot in a.rs (score 12)".to_string(),
        "central dependency: fn:b.rs::hub (fan-in 2)".to_string(),
        "circular dependency: a.rs, b.rs".to_string(),
    ]);
    let lax = Thresholds { max_file_lines: 9, max_complexity: 12, max_fan_in: 2 };
    assert_eq!(architecture_notes(&files, &items, &g, &lax), vec![
        "circular dependency: a.rs, b.rs".to_string()
    ]);
    assert_eq!(count_fan_in(&g.edges, &"fn:b.rs::hub".to_string()), 2);
    assert_eq!(count_fan_in(&g.edges, &"file:a.rs".to_string()), 1);
    assert_eq!(import_arcs_of(&g), vec![(0, 2), (2, 0)]);
}

#[test]
fn cyclic_imports_give_one_note_naming_both_files() {
    let files = parse(&[("a.rs", "use b;\n"), ("b.rs", "use a;\n"), ("c.rs", "use a;\n")]);
    let res = resolve(&files);
    let g = build_graph(&files, &res.resolved);
    let notes = architecture_notes(&files, &score_all(&files), &g, &Thresholds::default());
    assert_eq!(notes, vec!["circular dependency: a.rs, b.rs".to_string()]);
    let circular = notes.iter().filter(|n| n.starts_with("circular dependency")).count();
    assert_eq!(circular, 1);
}

#[test]
fn no_cycle_no_note() {
    let files = parse(&[("a.rs", "use b;\n"), ("b.rs", "use c;\n"), ("c.rs", "")]);
    let res = resolve(&files);
    let g = build_graph(&files, &res.resolved);
    let notes = architecture_notes(&files, &score_all(&files), &g, &Thresholds::default());
    assert_eq!(notes, Vec::<String>::new());
}

#[test]
fn notes_on_a_graph_given_by_hand() {
    let g = GraphData {
        nodes: vec![node("x", "X", "file"), node("y", "Y", "file")],
        edges: vec![edge("x", "y", "imports"), edge("y", "x", "imports"), GraphEdge {
            from: "x".into(),
            to: "y".into(),
            label: None,
        }],
    };
    let limits = Thresholds { max_file_lines: 0, max_complexity: 0, max_fan_in: 1 };
    assert_eq!(architecture_notes(&vec![], &vec![item("f", "p", -3)], &g, &limits), vec![
        "central dependency: y (fan-in 2)".to_string(),
        "circular dependency: X, Y".to_string(),
    ]);
}
