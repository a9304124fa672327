use gravity::analysis::{
    analyze, analyze_sources, diagnostics, file_listing, mean_score, parse_all, Analysis,
    AnalysisError, Collected, CollectionError, Diagnostic, Policy, SourceFile,
};
use gravity::deadcode::EntryRules;
use gravity::collector::{components, select_paths};
use gravity::dashboard::{Action, Dashboard, Event, Tab};
use gravity::notes::Thresholds;
use gravity::parser::{ParseWarning, WarningKind};
use gravity::project::{plan_upsert, plan_upsert_with, Project, RunLedger, UpsertPlan};
use gravity::records::{
    to_i32, to_i64, AnalyzeRequest, AnalyzeResponse, ComplexityItem, FileEntry, GraphEdge, Mean,
};

fn source(path: &str, text: &str) -> SourceFile {
    SourceFile { path: path.into(), text: text.into() }
}

fn run(sources: &Vec<SourceFile>) -> Analysis {
    analyze_sources("p-1", "demo", sources, &Policy::default()).unwrap()
}

fn two_files() -> Vec<SourceFile> {
    vec![
        source("a.rs", "use b;\n\nfn main() {\n    start();\n}\n"),
        source(
            "b.rs",
            "pub fn start() {}\n\nfn helper(x: i32) -> i32 {\n    if x > 0 {\n        return 1;\n    }\n    0\n}\n",
        ),
    ]
}

#[test]
fn clamping() {
    assert_eq!(to_i32(0), 0);
    assert_eq!(to_i32(2147483647), 2147483647);
    assert_eq!(to_i32(2147483648), 2147483647);
    assert_eq!(to_i64(5), 5);
    assert_eq!(to_i64(9223372036854775807), i64::MAX);
    assert_eq!(to_i64(9223372036854775808), i64::MAX);
    assert_eq!(to_i64(u64::MAX), i64::MAX);
}

#[test]
fn two_file_project() {
    let a = run(&two_files());
    // file-level edge from a to b
    assert!(a.graph.edges.contains(&GraphEdge {
        from: "file:a.rs".into(),
        to: "file:b.rs".into(),
        label: Some("imports".into()),
    }));
    // helper has one `if`: score 2
    let helper: Vec<&ComplexityItem> =
        a.complexity.iter().filter(|i| i.function_name == "helper").collect();
    assert_eq!(helper.len(), 1);
    assert_eq!(helper[0].score, 2);
    assert_eq!(helper[0].file_path, "b.rs");
    assert_eq!((helper[0].line_start, helper[0].line_end), (3, 8));
    // helper is used by nobody and is no entry point
    assert_eq!(a.summary.dead_code_candidates, vec!["fn:b.rs::helper".to_string()]);
    assert_eq!(a.summary.architecture_notes, Vec::<String>::new());
    assert_eq!(a.unresolved, vec![]);
    assert_eq!(a.ambiguous, vec![]);
    assert_eq!(a.diagnostics, vec![]);
}

#[test]
fn summary_counts_and_mean() {
    let a = run(&two_files());
    assert_eq!(a.summary.project_id, "p-1");
    assert_eq!(a.summary.project_name, "demo");
    assert_eq!(a.summary.total_files, 2);
    assert_eq!(a.summary.total_functions, 3);
    assert_eq!(a.summary.total_functions as usize, a.complexity.len());
    assert_eq!(a.summary.total_structs, 0);
    assert_eq!(a.summary.total_imports, 1);
    let scores: Vec<i32> = a.complexity.iter().map(|i| i.score).collect();
    assert_eq!(scores, vec![1, 1, 2]);
    assert_eq!(a.summary.avg_complexity, Mean { sum: 4, count: 3 });
    assert_eq!(mean_score(&a.complexity), Mean { sum: 4, count: 3 });
    assert_eq!(mean_score(&vec![]), Mean { sum: 0, count: 0 });
}

#[test]
fn file_listing_of_a_run() {
    let a = run(&two_files());
    assert_eq!(a.files, vec![
        FileEntry {
            id: "file:a.rs".into(),
            path: "a.rs".into(),
            module_name: Some("a".into()),
            line_count: 5,
        },
        FileEntry {
            id: "file:b.rs".into(),
            path: "b.rs".into(),
            module_name: Some("b".into()),
            line_count: 8,
        },
    ]);
    let parsed = parse_all(&two_files());
    assert_eq!(file_listing(&parsed), a.files);
}

#[test]
fn every_edge_ends_at_nodes() {
    let a = run(&two_files());
    for e in &a.graph.edges {
        assert!(a.graph.nodes.iter().any(|n| n.id == e.from));
        assert!(a.graph.nodes.iter().any(|n| n.id == e.to));
    }
    let mut ids: Vec<&str> = a.graph.nodes.iter().map(|n| n.id.as_str()).collect();
    let all = ids.len();
    ids.sort();
    ids.dedup();
    assert_eq!(ids.len(), all);
}

#[test]
fn running_twice_gives_the_same_result() {
    let first = run(&two_files());
    let second = run(&two_files());
    assert_eq!(first, second);
    assert_eq!(first.graph.nodes, second.graph.nodes);
    assert_eq!(first.graph.edges, second.graph.edges);
    assert_eq!(first.summary, second.summary);
}

#[test]
fn entry_points_are_never_candidates() {
    let a = run(&vec![source(
        "lib.rs",
        "pub fn api() {}\nfn main() {}\nfn lost() {}\npub struct Open;\nstruct Shut;\n",
    )]);
    assert_eq!(a.summary.dead_code_candidates, vec![
        "fn:lib.rs::lost".to_string(),
        "type:lib.rs::Shut".to_string()
    ]);
    assert_eq!(a.summary.total_structs, 2);
}

#[test]
fn a_run_follows_its_policy() {
    assert_eq!(Policy::default(), Policy {
        limits: Thresholds { max_file_lines: 500, max_complexity: 10, max_fan_in: 10 },
        entries: EntryRules { public_is_entry: true, names: vec!["main".to_string()] },
    });
    let policy = Policy {
        limits: Thresholds { max_file_lines: 4, max_complexity: 1, max_fan_in: 0 },
        entries: EntryRules { public_is_entry: false, names: vec!["helper".to_string()] },
    };
    let a = analyze_sources("p-1", "demo", &two_files(), &policy).unwrap();
    assert_eq!(a.summary.dead_code_candidates, vec!["fn:a.rs::main".to_string()]);
    assert_eq!(a.summary.architecture_notes, vec![
        "oversized file: b.rs (8 lines)".to_string(),
        "high complexity: helper in b.rs (score 2)".to_string(),
        "central dependency: file:b.rs (fan-in 1)".to_string(),
    ]);
}

#[test]
fn a_broken_file_still_counts_and_warns() {
    let sources = vec![
        source("ok.rs", "fn fine() {}\n"),
        source("broken.rs", "fn good() {}\nfn bad() {\n  if x {\n\n"),
        source("blob.rs", "\0\0\n"),
    ];
    let a = run(&sources);
    assert_eq!(a.summary.total_files, 3);
    assert_eq!(a.summary.total_functions, 2);
    assert_eq!(a.files[1].line_count, 4);
    assert_eq!(a.files[2].line_count, 1);
    assert_eq!(a.diagnostics, vec![
        Diagnostic {
            path: "broken.rs".into(),
            warning: ParseWarning { kind: WarningKind::UnclosedBody, line: 2 },
        },
        Diagnostic {
            path: "blob.rs".into(),
            warning: ParseWarning { kind: WarningKind::BinaryContent, line: 0 },
        },
    ]);
    assert_eq!(diagnostics(&parse_all(&sources)), a.diagnostics);
}

#[test]
fn files_that_could_not_be_read_are_reported() {
    let collected = Collected {
        sources: vec![source("ok.rs", "fn fine() {}\n"), source("half.rs", "fn f() {")],
        skipped: vec!["locked.rs".to_string(), "gone.rs".to_string()],
    };
    let a = analyze("p", "n", Ok(collected.clone()), &Policy::default()).unwrap();
    let plain = analyze_sources("p", "n", &collected.sources, &Policy::default()).unwrap();
    assert_eq!(a.summary, plain.summary);
    assert_eq!(a.graph, plain.graph);
    assert_eq!(a.summary.total_files, 2);
    assert_eq!(a.diagnostics, vec![
        Diagnostic {
            path: "half.rs".into(),
            warning: ParseWarning { kind: WarningKind::UnclosedBody, line: 1 },
        },
        Diagnostic {
            path: "locked.rs".into(),
            warning: ParseWarning { kind: WarningKind::Unreadable, line: 0 },
        },
        Diagnostic {
            path: "gone.rs".into(),
            warning: ParseWarning { kind: WarningKind::Unreadable, line: 0 },
        },
    ]);
}

#[test]
fn runs_that_fail() {
    let limits = Policy::default();
    let blobs = vec![source("x", "\0"), source("y", "a\0b")];
    assert_eq!(analyze_sources("p", "n", &blobs, &limits), Err(AnalysisError::NothingParsed));
    assert_eq!(
        analyze("p", "n", Ok(Collected { sources: blobs, skipped: vec![] }), &limits),
        Err(AnalysisError::NothingParsed)
    );
    assert_eq!(
        analyze("p", "n", Err(CollectionError::RootMissing), &limits),
        Err(AnalysisError::Collection(CollectionError::RootMissing))
    );
    assert_eq!(
        analyze("p", "n", Err(CollectionError::RootUnreadable), &limits),
        Err(AnalysisError::Collection(CollectionError::RootUnreadable))
    );
}

#[test]
fn an_empty_project_is_no_failure() {
    let nothing = Collected { sources: vec![], skipped: vec![] };
    let a = analyze("p", "n", Ok(nothing), &Policy::default()).unwrap();
    assert_eq!(a.summary.total_files, 0);
    assert_eq!(a.summary.total_functions, 0);
    assert_eq!(a.summary.avg_complexity, Mean { sum: 0, count: 0 });
    assert_eq!(a.graph.nodes.len(), 0);
    assert_eq!(a.complexity.len(), 0);
}

#[test]
fn collector_selects_paths() {
    let s = |v: &[&str]| v.iter().map(|x| x.to_string()).collect::<Vec<String>>();
    assert_eq!(components("a/b/c.rs"), s(&["a", "b", "c.rs"]));
    assert_eq!(components("/a//b/"), s(&["", "a", "", "b", ""]));
    assert_eq!(components(""), s(&[""]));
    let found = s(&[
        "src/main.rs",
        "target/debug/build.rs",
        "src/lib.rs",
        "src/main.rs",
        "README.md",
        "src/vendor/x.rs",
        "src/vendored.rs",
        "vendor",
    ]);
    assert_eq!(
        select_paths(&found, &s(&["target", "vendor"]), &s(&["rs"])),
        s(&["src/main.rs", "src/lib.rs", "src/vendored.rs"])
    );
    assert_eq!(
        select_paths(&found, &s(&[]), &s(&[])),
        s(&[
            "src/main.rs",
            "target/debug/build.rs",
            "src/lib.rs",
            "README.md",
            "src/vendor/x.rs",
            "src/vendored.rs",
            "vendor"
        ])
    );
    assert_eq!(select_paths(&found, &s(&[]), &s(&["md", "toml"])), s(&["README.md"]));
}

fn project(id: u128) -> Project {
    Project { id, name: "demo".into(), path: "/srv/demo".into(), created_at: 10, updated_at: 20 }
}

#[test]
fn upsert_touches_a_known_project() {
    assert_eq!(plan_upsert(&Some(project(77)), "demo", "/srv/demo"), UpsertPlan::Touch { id: 77 });
    assert_eq!(plan_upsert_with(&Some(project(77)), "demo", "/srv/demo", 5), UpsertPlan::Touch {
        id: 77
    });
}

#[test]
fn upsert_inserts_a_new_project_under_a_random_id() {
    assert_eq!(plan_upsert_with(&None, "demo", "/srv/demo", 5), UpsertPlan::Insert {
        id: 5,
        name: "demo".into(),
        path: "/srv/demo".into(),
    });
    let mut seen: Vec<u128> = Vec::new();
    for _ in 0..4 {
        match plan_upsert(&None, "demo", "/srv/demo") {
            UpsertPlan::Insert { id, name, path } => {
                assert_eq!(name, "demo");
                assert_eq!(path, "/srv/demo");
                // version 4, standard variant
                assert_eq!((id >> 76) & 0xf, 4);
                assert_eq!((id >> 62) & 0x3, 2);
                assert!(!seen.contains(&id));
                seen.push(id);
            }
            UpsertPlan::Touch { .. } => panic!("a new project is inserted"),
        }
    }
}

#[test]
fn one_run_per_project() {
    let mut ledger = RunLedger::new();
    assert!(!ledger.is_running(1));
    assert!(ledger.try_begin(1));
    assert!(ledger.is_running(1));
    assert!(!ledger.try_begin(1));
    assert!(ledger.try_begin(2));
    ledger.finish(1);
    assert!(!ledger.is_running(1));
    assert!(ledger.is_running(2));
    assert!(ledger.try_begin(1));
    ledger.finish(3);
    assert!(ledger.is_running(1));
    assert!(ledger.is_running(2));
}

#[test]
fn dashboard_run_that_succeeds() {
    let mut d = Dashboard::new();
    assert_eq!(d, Dashboard {
        active_tab: Tab::Summary,
        project_id: None,
        analyzing: false,
        error: None,
        analyze_msg: None,
        github_url: String::new(),
    });
    assert_eq!(d.step(Event::UrlTyped("https://github.com/o/r".into())), Action::Nothing);
    assert_eq!(d.step(Event::RunPressed), Action::Send(AnalyzeRequest {
        project_name: Some("gravity-project".into()),
        path: None,
        github_url: Some("https://github.com/o/r".into()),
    }));
    assert!(d.analyzing);
    assert_eq!(d.step(Event::Answered(200)), Action::ReadBody);
    assert!(d.analyzing);
    let reply = AnalyzeResponse {
        project_id: "p-9".into(),
        files_analyzed: 3,
        functions_found: 7,
        message: "done".into(),
    };
    assert_eq!(d.step(Event::BodyRead(reply)), Action::Nothing);
    assert!(!d.analyzing);
    assert_eq!(d.project_id, Some("p-9".to_string()));
    assert_eq!(d.analyze_msg, Some("done".to_string()));
    assert_eq!(d.error, None);
    assert_eq!(d.step(Event::TabChosen(Tab::Graph)), Action::Nothing);
    assert_eq!(d.active_tab, Tab::Graph);
}

#[test]
fn dashboard_runs_that_fail() {
    let mut d = Dashboard::new();
    assert_eq!(d.step(Event::RunPressed), Action::Send(AnalyzeRequest {
        project_name: Some("gravity-project".into()),
        path: None,
        github_url: None,
    }));
    assert_eq!(d.step(Event::Answered(503)), Action::Nothing);
    assert_eq!(d.error, Some("HTTP 503".to_string()));
    assert!(!d.analyzing);
    // pressing again clears the error
    d.step(Event::RunPressed);
    assert_eq!(d.error, None);
    assert_eq!(d.step(Event::Answered(299)), Action::ReadBody);
    d.step(Event::BodyUnreadable("missing field".into()));
    assert_eq!(d.error, Some("Parse error: missing field".to_string()));
    assert!(!d.analyzing);
    d.step(Event::RunPressed);
    d.step(Event::SendFailed("offline".into()));
    assert_eq!(d.error, Some("Request failed: offline".to_string()));
    assert!(!d.analyzing);
    assert_eq!(d.step(Event::Answered(199)), Action::Nothing);
    assert_eq!(d.error, Some("HTTP 199".to_string()));
    assert_eq!(AnalyzeRequest::for_url(""), AnalyzeRequest {
        project_name: Some("gravity-project".into()),
        path: None,
        github_url: None,
    });
}
