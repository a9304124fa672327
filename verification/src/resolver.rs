//! Dependency resolver: from the imports and calls of all files to
//! links between node ids.
//!
//! An import names its target as text. It resolves, in this order,
//! 1. to every other file whose path is that text, or whose module name
//!    is one of the modules that the text names;
//! 2. else to every other file whose path is that text seen from the
//!    importing file's directory;
//! 3. else to nothing: the import is external and is recorded as
//!    unresolved.
//!
//! The modules that an import names are its words where the first of
//! them is `crate`, `self` or `super`, and its first word alone
//! otherwise: `crate::graph::build` names `graph` and `build`, while
//! `std::path::Path` names `std`.
//!
//! A call is a word followed by `(` in a function's body, unless `fn`
//! stands before it. It resolves to the functions of that name in the
//! same file; where there is none, to the functions of that name in all
//! files; where there is none either, it is recorded as unresolved. A
//! reference with more than one target links to all of them and is
//! recorded as ambiguous.

use vstd::prelude::*;
use vstd::string::StringExecFns;
use crate::ids::{file_id, file_id_of, fn_id, fn_id_of};
use crate::lexer::{Token, TokenKind, TokenModel, words, words_of};
use crate::parser::{FileModel, FunctionModel, ParsedFile, ParsedFunction, dir_name, dir_of};
use crate::text::holds_text;

verus! {

#[derive(Clone, Copy, Debug, PartialEq, Eq, Structural)]
pub enum DependencyKind {
    Import,
    Call,
}

/// A reference as the source text gives it: who refers, to what text.
#[derive(Clone, Debug, PartialEq, Eq)]
pub struct Dependency {
    pub source_entity: String,
    pub raw_target: String,
    pub kind: DependencyKind,
}

pub struct DependencyModel {
    pub source_entity: Seq<char>,
    pub raw_target: Seq<char>,
    pub kind: DependencyKind,
}

impl DeepView for Dependency {
    type V = DependencyModel;

    open spec fn deep_view(&self) -> DependencyModel {
        DependencyModel {
            source_entity: self.source_entity@,
            raw_target: self.raw_target@,
            kind: self.kind,
        }
    }
}

/// A reference resolved to a node: the ids of both ends.
#[derive(Clone, Debug, PartialEq, Eq)]
pub struct ResolvedDependency {
    pub source: String,
    pub target: String,
    pub kind: DependencyKind,
}

pub struct LinkModel {
    pub source: Seq<char>,
    pub target: Seq<char>,
    pub kind: DependencyKind,
}

impl DeepView for ResolvedDependency {
    type V = LinkModel;

    open spec fn deep_view(&self) -> LinkModel {
        LinkModel { source: self.source@, target: self.target@, kind: self.kind }
    }
}

/// What the resolver hands out.
#[derive(Clone, Debug, PartialEq, Eq)]
pub struct Resolution {
    pub resolved: Vec<ResolvedDependency>,
    pub unresolved: Vec<Dependency>,
    pub ambiguous: Vec<Dependency>,
}

pub struct Outcome {
    pub resolved: Seq<LinkModel>,
    pub unresolved: Seq<DependencyModel>,
    pub ambiguous: Seq<DependencyModel>,
}

impl DeepView for Resolution {
    type V = Outcome;

    open spec fn deep_view(&self) -> Outcome {
        Outcome {
            resolved: self.resolved.deep_view(),
            unresolved: self.unresolved.deep_view(),
            ambiguous: self.ambiguous.deep_view(),
        }
    }
}

pub open spec fn nothing() -> Outcome {
    Outcome { resolved: Seq::empty(), unresolved: Seq::empty(), ambiguous: Seq::empty() }
}

pub open spec fn merge(a: Outcome, b: Outcome) -> Outcome {
    Outcome {
        resolved: a.resolved + b.resolved,
        unresolved: a.unresolved + b.unresolved,
        ambiguous: a.ambiguous + b.ambiguous,
    }
}

/// The outcome of one reference whose targets are known.
pub open spec fn settled(dep: DependencyModel, targets: Seq<Seq<char>>) -> Outcome {
    Outcome {
        resolved: Seq::new(
            targets.len(),
            |i: int| LinkModel { source: dep.source_entity, target: targets[i], kind: dep.kind },
        ),
        unresolved: if targets.len() == 0 {
            seq![dep]
        } else {
            Seq::empty()
        },
        ambiguous: if targets.len() >= 2 {
            seq![dep]
        } else {
            Seq::empty()
        },
    }
}

// ---------------------------------------------------------------------
// Imports

pub open spec fn is_local_root(w: Seq<char>) -> bool {
    w == "crate"@ || w == "self"@ || w == "super"@
}

/// The modules that an import names.
pub open spec fn named_modules(t: Seq<char>) -> Seq<Seq<char>> {
    let w = words_of(t);
    if w.len() == 0 || is_local_root(w[0]) {
        w
    } else {
        w.take(1)
    }
}

pub open spec fn exact_match(f: FileModel, t: Seq<char>) -> bool {
    f.path == t || (f.module_name matches Some(m) && named_modules(t).contains(m))
}

pub open spec fn relative_match(from: FileModel, f: FileModel, t: Seq<char>) -> bool {
    f.path == dir_of(from.path) + t
}

/// The ids of the files among the first `n`, other than file `k`, that
/// `t` names exactly.
pub open spec fn exact_upto(files: Seq<FileModel>, k: int, t: Seq<char>, n: nat) -> Seq<Seq<char>>
    decreases n,
{
    if n == 0 || n > files.len() {
        Seq::empty()
    } else {
        let rest = exact_upto(files, k, t, (n - 1) as nat);
        if n - 1 != k && exact_match(files[n - 1], t) {
            rest.push(file_id_of(files[n - 1].path))
        } else {
            rest
        }
    }
}

/// The ids of the files among the first `n`, other than file `k`, that
/// `t` names from the directory of file `k`.
pub open spec fn relative_upto(files: Seq<FileModel>, k: int, t: Seq<char>, n: nat) -> Seq<
    Seq<char>,
>
    decreases n,
{
    if n == 0 || n > files.len() {
        Seq::empty()
    } else {
        let rest = relative_upto(files, k, t, (n - 1) as nat);
        if n - 1 != k && relative_match(files[k], files[n - 1], t) {
            rest.push(file_id_of(files[n - 1].path))
        } else {
            rest
        }
    }
}

/// The files that the import `t` of file `k` resolves to.
pub open spec fn import_targets(files: Seq<FileModel>, k: int, t: Seq<char>) -> Seq<Seq<char>> {
    let exact = exact_upto(files, k, t, files.len());
    if exact.len() > 0 {
        exact
    } else {
        relative_upto(files, k, t, files.len())
    }
}

pub open spec fn import_dependency(file: FileModel, m: int) -> DependencyModel {
    DependencyModel {
        source_entity: file_id_of(file.path),
        raw_target: file.imports[m],
        kind: DependencyKind::Import,
    }
}

/// The outcome of the first `n` imports of file `k`.
pub open spec fn imports_upto(files: Seq<FileModel>, k: int, n: nat) -> Outcome
    decreases n,
{
    if n == 0 || n > files[k].imports.len() {
        nothing()
    } else {
        merge(
            imports_upto(files, k, (n - 1) as nat),
            settled(
                import_dependency(files[k], n - 1),
                import_targets(files, k, files[k].imports[n - 1]),
            ),
        )
    }
}

// ---------------------------------------------------------------------
// Calls

/// Whether the token at `p` of a body is the callee of a call.
pub open spec fn is_call(body: Seq<TokenModel>, p: int) -> bool {
    &&& 0 <= p && p + 1 < body.len()
    &&& body[p].kind == TokenKind::Word
    &&& body[p + 1].kind == TokenKind::OpenParen
    &&& !(p > 0 && body[p - 1].kind == TokenKind::Fn)
}

/// The ids of the functions called `name` among the first `n` of a file.
pub open spec fn local_upto(file: FileModel, name: Seq<char>, n: nat) -> Seq<Seq<char>>
    decreases n,
{
    if n == 0 || n > file.functions.len() {
        Seq::empty()
    } else {
        let rest = local_upto(file, name, (n - 1) as nat);
        if file.functions[n - 1].name == name {
            rest.push(fn_id_of(file.path, name))
        } else {
            rest
        }
    }
}

pub open spec fn local_targets(file: FileModel, name: Seq<char>) -> Seq<Seq<char>> {
    local_upto(file, name, file.functions.len())
}

/// The ids of the functions called `name` in the first `n` files.
pub open spec fn global_upto(files: Seq<FileModel>, name: Seq<char>, n: nat) -> Seq<Seq<char>>
    decreases n,
{
    if n == 0 || n > files.len() {
        Seq::empty()
    } else {
        global_upto(files, name, (n - 1) as nat) + local_targets(files[n - 1], name)
    }
}

/// The functions that a call of `name` from file `k` resolves to.
pub open spec fn call_targets(files: Seq<FileModel>, k: int, name: Seq<char>) -> Seq<Seq<char>> {
    let local = local_targets(files[k], name);
    if local.len() > 0 {
        local
    } else {
        global_upto(files, name, files.len())
    }
}

pub open spec fn call_dependency(file: FileModel, f: FunctionModel, p: int) -> DependencyModel {
    DependencyModel {
        source_entity: fn_id_of(file.path, f.name),
        raw_target: f.body[p].text,
        kind: DependencyKind::Call,
    }
}

/// The outcome of the first `n` tokens of the body of function `l` of
/// file `k`.
pub open spec fn calls_upto(files: Seq<FileModel>, k: int, l: int, n: nat) -> Outcome
    decreases n,
{
    let f = files[k].functions[l];
    if n == 0 || n > f.body.len() {
        nothing()
    } else {
        let rest = calls_upto(files, k, l, (n - 1) as nat);
        if is_call(f.body, n - 1) {
            merge(
                rest,
                settled(
                    call_dependency(files[k], f, n - 1),
                    call_targets(files, k, f.body[n - 1].text),
                ),
            )
        } else {
            rest
        }
    }
}

/// The outcome of the calls of the first `n` functions of file `k`.
pub open spec fn functions_upto(files: Seq<FileModel>, k: int, n: nat) -> Outcome
    decreases n,
{
    if n == 0 || n > files[k].functions.len() {
        nothing()
    } else {
        merge(
            functions_upto(files, k, (n - 1) as nat),
            calls_upto(files, k, n - 1, files[k].functions[n - 1].body.len()),
        )
    }
}

/// The outcome of file `k`: its imports, then the calls of its functions.
pub open spec fn file_outcome(files: Seq<FileModel>, k: int) -> Outcome {
    merge(
        imports_upto(files, k, files[k].imports.len()),
        functions_upto(files, k, files[k].functions.len()),
    )
}

/// The outcome of the first `n` files.
pub open spec fn files_upto(files: Seq<FileModel>, n: nat) -> Outcome
    decreases n,
{
    if n == 0 || n > files.len() {
        nothing()
    } else {
        merge(files_upto(files, (n - 1) as nat), file_outcome(files, n - 1))
    }
}

/// The resolution of a run.
pub open spec fn resolution_of(files: Seq<FileModel>) -> Outcome {
    files_upto(files, files.len())
}

// ---------------------------------------------------------------------
// No call is lost

proof fn lemma_local_found(file: FileModel, name: Seq<char>, n: nat, m: int)
    requires
        0 <= m < n <= file.functions.len(),
        file.functions[m].name == name,
    ensures
        local_upto(file, name, n).contains(fn_id_of(file.path, name)),
    decreases n,
{
    let id = fn_id_of(file.path, name);
    let all = local_upto(file, name, n);
    if m == n - 1 {
        assert(all[all.len() - 1] == id);
    } else {
        lemma_local_found(file, name, (n - 1) as nat, m);
        let rest = local_upto(file, name, (n - 1) as nat);
        let i = choose|i: int| 0 <= i < rest.len() && rest[i] == id;
        assert(all[i] == id);
    }
}

proof fn lemma_global_found(files: Seq<FileModel>, name: Seq<char>, n: nat, j: int, m: int)
    requires
        0 <= j < n <= files.len(),
        0 <= m < files[j].functions.len(),
        files[j].functions[m].name == name,
    ensures
        global_upto(files, name, n).contains(fn_id_of(files[j].path, name)),
    decreases n,
{
    let id = fn_id_of(files[j].path, name);
    let all = global_upto(files, name, n);
    let rest = global_upto(files, name, (n - 1) as nat);
    if j == n - 1 {
        lemma_local_found(files[j], name, files[j].functions.len(), m);
        let part = local_targets(files[j], name);
        let i = choose|i: int| 0 <= i < part.len() && part[i] == id;
        assert(all[rest.len() + i] == id);
    } else {
        lemma_global_found(files, name, (n - 1) as nat, j, m);
        let i = choose|i: int| 0 <= i < rest.len() && rest[i] == id;
        assert(all[i] == id);
    }
}

proof fn lemma_settled_links(dep: DependencyModel, targets: Seq<Seq<char>>, t: Seq<char>)
    requires
        targets.contains(t),
    ensures
        settled(dep, targets).resolved.contains(
            LinkModel { source: dep.source_entity, target: t, kind: dep.kind },
        ),
{
    let i = choose|i: int| 0 <= i < targets.len() && targets[i] == t;
    assert(settled(dep, targets).resolved[i] == LinkModel {
        source: dep.source_entity,
        target: t,
        kind: dep.kind,
    });
}

proof fn lemma_merge_keeps(a: Outcome, b: Outcome, link: LinkModel)
    requires
        a.resolved.contains(link) || b.resolved.contains(link),
    ensures
        merge(a, b).resolved.contains(link),
{
    if a.resolved.contains(link) {
        let i = choose|i: int| 0 <= i < a.resolved.len() && a.resolved[i] == link;
        assert(merge(a, b).resolved[i] == link);
    } else {
        let i = choose|i: int| 0 <= i < b.resolved.len() && b.resolved[i] == link;
        assert(merge(a, b).resolved[a.resolved.len() + i] == link);
    }
}

proof fn lemma_calls_keep(files: Seq<FileModel>, k: int, l: int, n: nat, p: int, link: LinkModel)
    requires
        0 <= p < n <= files[k].functions[l].body.len(),
        is_call(files[k].functions[l].body, p),
        settled(
            call_dependency(files[k], files[k].functions[l], p),
            call_targets(files, k, files[k].functions[l].body[p].text),
        ).resolved.contains(link),
    ensures
        calls_upto(files, k, l, n).resolved.contains(link),
    decreases n,
{
    let f = files[k].functions[l];
    let rest = calls_upto(files, k, l, (n - 1) as nat);
    if p < n - 1 {
        lemma_calls_keep(files, k, l, (n - 1) as nat, p, link);
    }
    if is_call(f.body, n - 1) {
        lemma_merge_keeps(
            rest,
            settled(
                call_dependency(files[k], f, n - 1),
                call_targets(files, k, f.body[n - 1].text),
            ),
            link,
        );
    }
}

proof fn lemma_functions_keep(files: Seq<FileModel>, k: int, n: nat, l: int, link: LinkModel)
    requires
        0 <= l < n <= files[k].functions.len(),
        calls_upto(files, k, l, files[k].functions[l].body.len()).resolved.contains(link),
    ensures
        functions_upto(files, k, n).resolved.contains(link),
    decreases n,
{
    if l < n - 1 {
        lemma_functions_keep(files, k, (n - 1) as nat, l, link);
    }
    lemma_merge_keeps(
        functions_upto(files, k, (n - 1) as nat),
        calls_upto(files, k, n - 1, files[k].functions[n - 1].body.len()),
        link,
    );
}

proof fn lemma_files_keep(files: Seq<FileModel>, n: nat, k: int, link: LinkModel)
    requires
        0 <= k < n <= files.len(),
        file_outcome(files, k).resolved.contains(link),
    ensures
        files_upto(files, n).resolved.contains(link),
    decreases n,
{
    if k < n - 1 {
        lemma_files_keep(files, (n - 1) as nat, k, link);
    }
    lemma_merge_keeps(files_upto(files, (n - 1) as nat), file_outcome(files, n - 1), link);
}

/// No call is lost: where function `l` of file `k` calls a name at `p`,
/// and function `m` of file `j` has that name, the two are linked,
/// provided that `j` is the calling file or the calling file has no
/// function of that name.
pub proof fn lemma_calls_are_linked(files: Seq<FileModel>, k: int, l: int, p: int, j: int, m: int)
    requires
        0 <= k < files.len(),
        0 <= l < files[k].functions.len(),
        is_call(files[k].functions[l].body, p),
        0 <= j < files.len(),
        0 <= m < files[j].functions.len(),
        files[j].functions[m].name == files[k].functions[l].body[p].text,
        j == k || local_targets(files[k], files[k].functions[l].body[p].text).len() == 0,
    ensures
        resolution_of(files).resolved.contains(
            LinkModel {
                source: fn_id_of(files[k].path, files[k].functions[l].name),
                target: fn_id_of(files[j].path, files[k].functions[l].body[p].text),
                kind: DependencyKind::Call,
            },
        ),
{
    let f = files[k].functions[l];
    let name = f.body[p].text;
    let target = fn_id_of(files[j].path, name);
    let link = LinkModel {
        source: fn_id_of(files[k].path, f.name),
        target,
        kind: DependencyKind::Call,
    };
    if j == k {
        lemma_local_found(files[k], name, files[k].functions.len(), m);
    } else {
        lemma_global_found(files, name, files.len(), j, m);
    }
    assert(call_targets(files, k, name).contains(target));
    lemma_settled_links(call_dependency(files[k], f, p), call_targets(files, k, name), target);
    lemma_calls_keep(files, k, l, f.body.len(), p, link);
    lemma_functions_keep(files, k, files[k].functions.len(), l, link);
    lemma_merge_keeps(
        imports_upto(files, k, files[k].imports.len()),
        functions_upto(files, k, files[k].functions.len()),
        link,
    );
    lemma_files_keep(files, files.len(), k, link);
}

// ---------------------------------------------------------------------

/// The modules that an import names.
pub fn modules_named(import: &str) -> (out: Vec<String>)
    ensures
        out.deep_view() == named_modules(import@),
{
    let mut out: Vec<String> = words(import);
    if out.len() > 0 {
        assert(out.deep_view()[0] == out@[0]@);
        let local: bool = out[0] == "crate".to_owned() || out[0] == "self".to_owned() || out[0]
            == "super".to_owned();
        if !local {
            let ghost before = out.deep_view();
            out.truncate(1);
            assert(out.deep_view() =~= before.take(1));
        }
    }
    out
}

fn exact_targets(files: &Vec<ParsedFile>, k: usize, t: &String) -> (out: Vec<String>)
    ensures
        out.deep_view() == exact_upto(files.deep_view(), k as int, t@, files.len() as nat),
{
    let modules: Vec<String> = modules_named(t.as_str());
    let mut out: Vec<String> = Vec::new();
    assert(out.deep_view() =~= Seq::<Seq<char>>::empty());
    let mut j: usize = 0;
    while j < files.len()
        invariant
            j <= files.len(),
            modules.deep_view() == named_modules(t@),
            out.deep_view() == exact_upto(files.deep_view(), k as int, t@, j as nat),
        decreases files.len() - j,
    {
        let f: &ParsedFile = &files[j];
        assert(files.deep_view()[j as int] == f.deep_view());
        let named: bool = match &f.module_name {
            Some(m) => holds_text(&modules, m),
            None => false,
        };
        if j != k && (f.path == *t || named) {
            let id: String = file_id(f.path.as_str());
            let ghost before = out.deep_view();
            out.push(id);
            assert(out.deep_view() =~= before.push(id@));
        }
        j += 1;
    }
    out
}

fn relative_targets(files: &Vec<ParsedFile>, k: usize, t: &String) -> (out: Vec<String>)
    requires
        k < files.len(),
    ensures
        out.deep_view() == relative_upto(files.deep_view(), k as int, t@, files.len() as nat),
{
    let mut wanted: String = dir_name(files[k].path.as_str());
    wanted.append(t.as_str());
    assert(files.deep_view()[k as int] == files@[k as int].deep_view());
    let mut out: Vec<String> = Vec::new();
    assert(out.deep_view() =~= Seq::<Seq<char>>::empty());
    let mut j: usize = 0;
    while j < files.len()
        invariant
            j <= files.len(),
            k < files.len(),
            wanted@ == dir_of(files.deep_view()[k as int].path) + t@,
            out.deep_view() == relative_upto(files.deep_view(), k as int, t@, j as nat),
        decreases files.len() - j,
    {
        let f: &ParsedFile = &files[j];
        assert(files.deep_view()[j as int] == f.deep_view());
        if j != k && f.path == wanted {
            let id: String = file_id(f.path.as_str());
            let ghost before = out.deep_view();
            out.push(id);
            assert(out.deep_view() =~= before.push(id@));
        }
        j += 1;
    }
    out
}

fn add_local_targets(file: &ParsedFile, name: &String, out: &mut Vec<String>)
    ensures
        final(out).deep_view() == old(out).deep_view() + local_targets(file.deep_view(), name@),
{
    let ghost base = out.deep_view();
    let mut l: usize = 0;
    assert(out.deep_view() =~= base + local_upto(file.deep_view(), name@, 0));
    while l < file.functions.len()
        invariant
            l <= file.functions.len(),
            out.deep_view() == base + local_upto(file.deep_view(), name@, l as nat),
        decreases file.functions.len() - l,
    {
        assert(file.deep_view().functions[l as int] == file.functions@[l as int].deep_view());
        if file.functions[l].name == *name {
            let id: String = fn_id(file.path.as_str(), name.as_str());
            let ghost before = out.deep_view();
            out.push(id);
            assert(out.deep_view() =~= before.push(id@));
            assert(out.deep_view() =~= base + local_upto(file.deep_view(), name@, (l + 1) as nat));
        }
        l += 1;
    }
}

fn targets_of_call(files: &Vec<ParsedFile>, k: usize, name: &String) -> (out: Vec<String>)
    requires
        k < files.len(),
    ensures
        out.deep_view() == call_targets(files.deep_view(), k as int, name@),
{
    let mut out: Vec<String> = Vec::new();
    assert(out.deep_view() =~= Seq::<Seq<char>>::empty());
    assert(files.deep_view()[k as int] == files@[k as int].deep_view());
    add_local_targets(&files[k], name, &mut out);
    assert(out.deep_view() =~= local_targets(files.deep_view()[k as int], name@));
    if out.len() > 0 {
        return out;
    }
    let mut j: usize = 0;
    while j < files.len()
        invariant
            j <= files.len(),
            out.deep_view() == global_upto(files.deep_view(), name@, j as nat),
        decreases files.len() - j,
    {
        assert(files.deep_view()[j as int] == files@[j as int].deep_view());
        add_local_targets(&files[j], name, &mut out);
        j += 1;
    }
    out
}

fn copy_dependency(dep: &Dependency) -> (out: Dependency)
    ensures
        out.deep_view() == dep.deep_view(),
{
    Dependency {
        source_entity: dep.source_entity.clone(),
        raw_target: dep.raw_target.clone(),
        kind: dep.kind,
    }
}

/// Records the outcome of one reference.
fn settle(dep: Dependency, targets: &Vec<String>, out: &mut Resolution)
    ensures
        final(out).deep_view() == merge(
            old(out).deep_view(),
            settled(dep.deep_view(), targets.deep_view()),
        ),
{
    let ghost base = out.deep_view();
    let ghost goal = settled(dep.deep_view(), targets.deep_view());
    let mut i: usize = 0;
    assert(out.resolved.deep_view() =~= base.resolved + goal.resolved.take(0));
    while i < targets.len()
        invariant
            i <= targets.len(),
            goal == settled(dep.deep_view(), targets.deep_view()),
            out.resolved.deep_view() == base.resolved + goal.resolved.take(i as int),
            out.unresolved.deep_view() == base.unresolved,
            out.ambiguous.deep_view() == base.ambiguous,
        decreases targets.len() - i,
    {
        let link = ResolvedDependency {
            source: dep.source_entity.clone(),
            target: targets[i].clone(),
            kind: dep.kind,
        };
        assert(targets.deep_view()[i as int] == targets@[i as int]@);
        let ghost before = out.resolved.deep_view();
        out.resolved.push(link);
        assert(out.resolved.deep_view() =~= before.push(link.deep_view()));
        assert(out.resolved.deep_view() =~= base.resolved + goal.resolved.take(i + 1));
        i += 1;
    }
    assert(goal.resolved.take(targets.len() as int) =~= goal.resolved);
    if targets.len() >= 2 {
        let again: Dependency = copy_dependency(&dep);
        let ghost before = out.ambiguous.deep_view();
        out.ambiguous.push(again);
        assert(out.ambiguous.deep_view() =~= before.push(dep.deep_view()));
    }
    if targets.len() == 0 {
        let ghost before = out.unresolved.deep_view();
        out.unresolved.push(dep);
        assert(out.unresolved.deep_view() =~= before.push(dep.deep_view()));
    }
    assert(out.deep_view().unresolved =~= merge(base, goal).unresolved);
    assert(out.deep_view().ambiguous =~= merge(base, goal).ambiguous);
}

fn resolve_imports(files: &Vec<ParsedFile>, k: usize, out: &mut Resolution)
    requires
        k < files.len(),
    ensures
        final(out).deep_view() == merge(
            old(out).deep_view(),
            imports_upto(
                files.deep_view(),
                k as int,
                files.deep_view()[k as int].imports.len(),
            ),
        ),
{
    let file: &ParsedFile = &files[k];
    let ghost base = out.deep_view();
    let ghost fm = files.deep_view();
    assert(fm[k as int] == file.deep_view());
    assert(out.deep_view() =~= merge(base, imports_upto(fm, k as int, 0)));
    let mut m: usize = 0;
    while m < file.imports.len()
        invariant
            m <= file.imports.len(),
            k < files.len(),
            fm == files.deep_view(),
            fm[k as int] == file.deep_view(),
            out.deep_view() == merge(base, imports_upto(fm, k as int, m as nat)),
        decreases file.imports.len() - m,
    {
        let t: &String = &file.imports[m];
        assert(file.deep_view().imports[m as int] == t@);
        let exact: Vec<String> = exact_targets(files, k, t);
        let targets: Vec<String> = if exact.len() > 0 {
            exact
        } else {
            relative_targets(files, k, t)
        };
        let dep = Dependency {
            source_entity: file_id(file.path.as_str()),
            raw_target: t.clone(),
            kind: DependencyKind::Import,
        };
        let ghost before = out.deep_view();
        settle(dep, &targets, out);
        assert(out.deep_view() =~= merge(base, imports_upto(fm, k as int, (m + 1) as nat))) by {
            let step = settled(dep.deep_view(), targets.deep_view());
            let prev = imports_upto(fm, k as int, m as nat);
            assert(merge(before, step).resolved =~= base.resolved + (prev.resolved
                + step.resolved));
            assert(merge(before, step).unresolved =~= base.unresolved + (prev.unresolved
                + step.unresolved));
            assert(merge(before, step).ambiguous =~= base.ambiguous + (prev.ambiguous
                + step.ambiguous));
        }
        m += 1;
    }
}

fn resolve_calls(files: &Vec<ParsedFile>, k: usize, l: usize, out: &mut Resolution)
    requires
        k < files.len(),
        l < files[k as int].functions.len(),
    ensures
        final(out).deep_view() == merge(
            old(out).deep_view(),
            calls_upto(
                files.deep_view(),
                k as int,
                l as int,
                files.deep_view()[k as int].functions[l as int].body.len(),
            ),
        ),
{
    let file: &ParsedFile = &files[k];
    let f: &ParsedFunction = &file.functions[l];
    let body: &Vec<Token> = &f.body;
    let ghost base = out.deep_view();
    let ghost fm = files.deep_view();
    assert(fm[k as int] == file.deep_view());
    assert(fm[k as int].functions[l as int] == f.deep_view());
    assert(out.deep_view() =~= merge(base, calls_upto(fm, k as int, l as int, 0)));
    let mut p: usize = 0;
    while p < body.len()
        invariant
            p <= body.len(),
            k < files.len(),
            fm == files.deep_view(),
            fm[k as int] == file.deep_view(),
            fm[k as int].functions[l as int] == f.deep_view(),
            f.deep_view().body == body.deep_view(),
            out.deep_view() == merge(base, calls_upto(fm, k as int, l as int, p as nat)),
        decreases body.len() - p,
    {
        let called: bool = body[p].kind == TokenKind::Word && body.len() - p >= 2 && body[p
            + 1].kind == TokenKind::OpenParen && !(p > 0 && body[p - 1].kind == TokenKind::Fn);
        assert(called == is_call(body.deep_view(), p as int));
        if called {
            let name: &String = &body[p].text;
            assert(body.deep_view()[p as int].text == name@);
            let targets: Vec<String> = targets_of_call(files, k, name);
            let dep = Dependency {
                source_entity: fn_id(file.path.as_str(), f.name.as_str()),
                raw_target: name.clone(),
                kind: DependencyKind::Call,
            };
            let ghost before = out.deep_view();
            settle(dep, &targets, out);
            assert(out.deep_view() =~= merge(
                base,
                calls_upto(fm, k as int, l as int, (p + 1) as nat),
            )) by {
                let step = settled(dep.deep_view(), targets.deep_view());
                let prev = calls_upto(fm, k as int, l as int, p as nat);
                assert(merge(before, step).resolved =~= base.resolved + (prev.resolved
                    + step.resolved));
                assert(merge(before, step).unresolved =~= base.unresolved + (prev.unresolved
                    + step.unresolved));
                assert(merge(before, step).ambiguous =~= base.ambiguous + (prev.ambiguous
                    + step.ambiguous));
            }
        }
        p += 1;
    }
}

proof fn lemma_merge_assoc(a: Outcome, b: Outcome, c: Outcome)
    ensures
        merge(merge(a, b), c) == merge(a, merge(b, c)),
{
    assert(merge(merge(a, b), c).resolved =~= merge(a, merge(b, c)).resolved);
    assert(merge(merge(a, b), c).unresolved =~= merge(a, merge(b, c)).unresolved);
    assert(merge(merge(a, b), c).ambiguous =~= merge(a, merge(b, c)).ambiguous);
}

proof fn lemma_merge_nothing(a: Outcome)
    ensures
        merge(a, nothing()) == a,
        merge(nothing(), a) == a,
{
    assert(merge(a, nothing()).resolved =~= a.resolved);
    assert(merge(a, nothing()).unresolved =~= a.unresolved);
    assert(merge(a, nothing()).ambiguous =~= a.ambiguous);
    assert(merge(nothing(), a).resolved =~= a.resolved);
    assert(merge(nothing(), a).unresolved =~= a.unresolved);
    assert(merge(nothing(), a).ambiguous =~= a.ambiguous);
}

fn resolve_file(files: &Vec<ParsedFile>, k: usize, out: &mut Resolution)
    requires
        k < files.len(),
    ensures
        final(out).deep_view() == merge(
            old(out).deep_view(),
            file_outcome(files.deep_view(), k as int),
        ),
{
    let ghost base = out.deep_view();
    let ghost fm = files.deep_view();
    resolve_imports(files, k, out);
    let ghost imports = imports_upto(fm, k as int, fm[k as int].imports.len());
    let ghost mid = out.deep_view();
    let file: &ParsedFile = &files[k];
    assert(fm[k as int] == file.deep_view());
    proof {
        lemma_merge_nothing(mid);
    }
    let mut l: usize = 0;
    while l < file.functions.len()
        invariant
            l <= file.functions.len(),
            k < files.len(),
            fm == files.deep_view(),
            fm[k as int] == file.deep_view(),
            file == files@[k as int],
            out.deep_view() == merge(mid, functions_upto(fm, k as int, l as nat)),
        decreases file.functions.len() - l,
    {
        let ghost before = out.deep_view();
        resolve_calls(files, k, l, out);
        proof {
            lemma_merge_assoc(
                mid,
                functions_upto(fm, k as int, l as nat),
                calls_upto(fm, k as int, l as int, fm[k as int].functions[l as int].body.len()),
            );
        }
        l += 1;
    }
    proof {
        lemma_merge_assoc(base, imports, functions_upto(fm, k as int, fm[k as int].functions.len()));
    }
}

/// Resolves the imports and calls of all files.
pub fn resolve(files: &Vec<ParsedFile>) -> (out: Resolution)
    ensures
        out.deep_view() == resolution_of(files.deep_view()),
{
    let mut out = Resolution {
        resolved: Vec::new(),
        unresolved: Vec::new(),
        ambiguous: Vec::new(),
    };
    assert(out.deep_view().resolved =~= Seq::empty());
    assert(out.deep_view().unresolved =~= Seq::empty());
    assert(out.deep_view().ambiguous =~= Seq::empty());
    let mut k: usize = 0;
    while k < files.len()
        invariant
            k <= files.len(),
            out.deep_view() == files_upto(files.deep_view(), k as nat),
        decreases files.len() - k,
    {
        resolve_file(files, k, &mut out);
        k += 1;
    }
    out
}

} // verus!
