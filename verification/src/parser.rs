//! File parser: from the tokens of one file to its outline, that is its
//! functions, declared types and imports.
//!
//! The parser never fails. What it cannot place is skipped and, where a
//! declaration was started and not finished, recorded as a warning.
//!
//! Policies:
//! - a function is `fn`, a name, and a body in braces, wherever it stands
//!   (at the top of the file, in an `impl`, inside another function); its
//!   body ends at the closing brace that matches the opening one, nested
//!   braces counted;
//! - a `fn` whose header ends in `;` declares no function;
//! - a function whose body is never closed is skipped with a warning;
//! - a type is `struct`, `enum` or `trait` and a name;
//! - a second function (or type) of a name already declared in the file is
//!   rejected with a warning, the first one stays;
//! - a declaration is public where `pub` stands before it;
//! - an import is what stands between `use` and the next `;`, or the name
//!   in `mod name;`;
//! - a file that holds a NUL character is taken for binary: it has no
//!   outline and one warning.

use vstd::prelude::*;
use vstd::string::StringExecFns;
use crate::lexer::{
    Token,
    TokenKind,
    TokenModel,
    lemma_tokens_lines_ascend,
    lines_ascend,
    tokenize,
    tokens_of,
};
use crate::text::{chars_of, count_lines, line_count, string_of};

verus! {

/// A function found in a file. `signature` holds its header, from `fn`
/// to the opening brace, as its tokens with one blank between them;
/// `body` holds the tokens between its braces.
#[derive(Clone, Debug, PartialEq, Eq)]
pub struct ParsedFunction {
    pub name: String,
    pub signature: String,
    pub file_path: String,
    pub line_start: usize,
    pub line_end: usize,
    pub is_public: bool,
    pub body: Vec<Token>,
}

pub struct FunctionModel {
    pub name: Seq<char>,
    pub signature: Seq<char>,
    pub file_path: Seq<char>,
    pub line_start: nat,
    pub line_end: nat,
    pub is_public: bool,
    pub body: Seq<TokenModel>,
}

impl DeepView for ParsedFunction {
    type V = FunctionModel;

    open spec fn deep_view(&self) -> FunctionModel {
        FunctionModel {
            name: self.name@,
            signature: self.signature@,
            file_path: self.file_path@,
            line_start: self.line_start as nat,
            line_end: self.line_end as nat,
            is_public: self.is_public,
            body: self.body.deep_view(),
        }
    }
}

/// A type (`struct`, `enum` or `trait`) declared in a file.
#[derive(Clone, Debug, PartialEq, Eq)]
pub struct ParsedType {
    pub name: String,
    pub line: usize,
    pub is_public: bool,
}

pub struct TypeModel {
    pub name: Seq<char>,
    pub line: nat,
    pub is_public: bool,
}

impl DeepView for ParsedType {
    type V = TypeModel;

    open spec fn deep_view(&self) -> TypeModel {
        TypeModel { name: self.name@, line: self.line as nat, is_public: self.is_public }
    }
}

#[derive(Clone, Copy, Debug, PartialEq, Eq, Structural)]
pub enum WarningKind {
    /// The file holds a NUL character and was not parsed.
    BinaryContent,
    /// A function body is never closed.
    UnclosedBody,
    /// A function of this name was already declared in the file.
    DuplicateFunction,
    /// A type of this name was already declared in the file.
    DuplicateType,
    /// A `use` that is empty or never ends in `;`.
    BrokenImport,
    /// The file was found and could not be read.
    Unreadable,
}

/// A fragment that the parser skipped. `line` is where it starts, 0 for
/// the file as a whole.
#[derive(Clone, Copy, Debug, PartialEq, Eq, Structural)]
pub struct ParseWarning {
    pub kind: WarningKind,
    pub line: usize,
}

/// What the parser found in one file.
#[derive(Clone, Debug, PartialEq, Eq)]
pub struct ParsedFile {
    pub path: String,
    pub module_name: Option<String>,
    pub line_count: usize,
    pub functions: Vec<ParsedFunction>,
    pub types: Vec<ParsedType>,
    pub imports: Vec<String>,
    pub warnings: Vec<ParseWarning>,
}

pub struct FileModel {
    pub path: Seq<char>,
    pub module_name: Option<Seq<char>>,
    pub line_count: nat,
    pub functions: Seq<FunctionModel>,
    pub types: Seq<TypeModel>,
    pub imports: Seq<Seq<char>>,
    pub warnings: Seq<ParseWarning>,
}

impl DeepView for ParsedFile {
    type V = FileModel;

    open spec fn deep_view(&self) -> FileModel {
        FileModel {
            path: self.path@,
            module_name: self.module_name.deep_view(),
            line_count: self.line_count as nat,
            functions: self.functions.deep_view(),
            types: self.types.deep_view(),
            imports: self.imports.deep_view(),
            warnings: self.warnings@,
        }
    }
}

/// The declarations gathered from a prefix of a file's tokens.
pub struct Outline {
    pub functions: Seq<FunctionModel>,
    pub types: Seq<TypeModel>,
    pub imports: Seq<Seq<char>>,
    pub warnings: Seq<ParseWarning>,
}

pub open spec fn empty_outline() -> Outline {
    Outline {
        functions: Seq::empty(),
        types: Seq::empty(),
        imports: Seq::empty(),
        warnings: Seq::empty(),
    }
}

// ---------------------------------------------------------------------
// Paths

/// Last position of `c` in `s`, or -1.
pub open spec fn last_index_of(s: Seq<char>, c: char) -> int
    decreases s.len(),
{
    if s.len() == 0 {
        -1
    } else if s.last() == c {
        s.len() - 1
    } else {
        last_index_of(s.drop_last(), c)
    }
}

/// The directory part of a path, with its final `/`; empty where the
/// path has no `/`.
pub open spec fn dir_of(path: Seq<char>) -> Seq<char> {
    path.subrange(0, last_index_of(path, '/') + 1)
}

/// The part of a path after its last `/`.
pub open spec fn file_name_of(path: Seq<char>) -> Seq<char> {
    path.subrange(last_index_of(path, '/') + 1, path.len() as int)
}

/// A file name without its extension. A name that starts with its only
/// dot has no extension.
pub open spec fn stem_of(name: Seq<char>) -> Seq<char> {
    let dot = last_index_of(name, '.');
    if dot > 0 {
        name.subrange(0, dot)
    } else {
        name
    }
}

/// The extension of a path: what follows the last dot of its file name;
/// empty where the file name has no dot.
pub open spec fn extension_of(path: Seq<char>) -> Seq<char> {
    let name = file_name_of(path);
    let dot = last_index_of(name, '.');
    if dot < 0 {
        Seq::empty()
    } else {
        name.subrange(dot + 1, name.len() as int)
    }
}

/// The module that a file stands for: the stem of its file name.
pub open spec fn module_name_of(path: Seq<char>) -> Option<Seq<char>> {
    let stem = stem_of(file_name_of(path));
    if stem.len() == 0 {
        None
    } else {
        Some(stem)
    }
}

pub proof fn lemma_last_index_bounds(s: Seq<char>, c: char)
    ensures
        -1 <= last_index_of(s, c) < s.len(),
        last_index_of(s, c) >= 0 ==> s[last_index_of(s, c)] == c,
    decreases s.len(),
{
    if s.len() > 0 && s.last() != c {
        lemma_last_index_bounds(s.drop_last(), c);
    }
}

/// One more than the last position of `c` in `chars[from..to]`, counted
/// from the start of `chars`; `from` where `c` does not occur.
fn after_last(chars: &Vec<char>, from: usize, to: usize, c: char) -> (k: usize)
    requires
        from <= to <= chars.len(),
    ensures
        from <= k <= to,
        k - from == last_index_of(chars@.subrange(from as int, to as int), c) + 1,
{
    let mut j: usize = to;
    while j > from
        invariant
            from <= j <= to <= chars.len(),
            last_index_of(chars@.subrange(from as int, to as int), c) == last_index_of(
                chars@.subrange(from as int, j as int),
                c,
            ),
        decreases j,
    {
        if chars[j - 1] == c {
            return j;
        }
        assert(chars@.subrange(from as int, j as int).drop_last() =~= chars@.subrange(
            from as int,
            j - 1,
        ));
        j -= 1;
    }
    from
}

/// The directory part of a path.
pub fn dir_name(path: &str) -> (dir: String)
    ensures
        dir@ == dir_of(path@),
{
    let chars: Vec<char> = chars_of(path);
    let n: usize = chars.len();
    let end: usize = after_last(&chars, 0, n, '/');
    assert(chars@.subrange(0, n as int) =~= chars@);
    string_of(&chars, 0, end)
}

/// The extension of a path.
pub fn extension(path: &str) -> (ext: String)
    ensures
        ext@ == extension_of(path@),
{
    let chars: Vec<char> = chars_of(path);
    let n: usize = chars.len();
    let start: usize = after_last(&chars, 0, n, '/');
    assert(chars@.subrange(0, n as int) =~= chars@);
    let ghost name = chars@.subrange(start as int, n as int);
    let dot: usize = after_last(&chars, start, n, '.');
    if dot == start {
        assert(chars@.subrange(n as int, n as int) =~= Seq::<char>::empty());
        string_of(&chars, n, n)
    } else {
        assert(chars@.subrange(dot as int, n as int) =~= name.subrange(
            dot - start,
            name.len() as int,
        ));
        string_of(&chars, dot, n)
    }
}

/// The module name of a path.
pub fn module_name(path: &str) -> (name: Option<String>)
    ensures
        name.deep_view() == module_name_of(path@),
{
    let chars: Vec<char> = chars_of(path);
    let n: usize = chars.len();
    let start: usize = after_last(&chars, 0, n, '/');
    assert(chars@.subrange(0, n as int) =~= chars@);
    let ghost name = chars@.subrange(start as int, n as int);
    assert(name == file_name_of(path@));
    let dot: usize = after_last(&chars, start, n, '.');
    let end: usize = if dot - start > 1 {
        assert(chars@.subrange(start as int, dot - 1) =~= name.subrange(0, dot - 1 - start));
        dot - 1
    } else {
        n
    };
    assert(chars@.subrange(start as int, end as int) == stem_of(name));
    if end == start {
        None
    } else {
        Some(string_of(&chars, start, end))
    }
}

// ---------------------------------------------------------------------
// Shapes in the token stream

/// First position at or after `i` that holds `{` or `;`, or the end.
pub open spec fn body_start(toks: Seq<TokenModel>, i: int) -> int
    decreases toks.len() - i,
{
    if 0 <= i < toks.len() && toks[i].kind != TokenKind::OpenBrace && toks[i].kind
        != TokenKind::Semi {
        body_start(toks, i + 1)
    } else {
        i
    }
}

/// First position at or after `i` that holds `;`, or the end.
pub open spec fn semi_from(toks: Seq<TokenModel>, i: int) -> int
    decreases toks.len() - i,
{
    if 0 <= i < toks.len() && toks[i].kind != TokenKind::Semi {
        semi_from(toks, i + 1)
    } else {
        i
    }
}

/// Position of the `}` that closes a block, seen from position `i` inside
/// it where `depth` blocks are open; the end where none closes it.
pub open spec fn block_close(toks: Seq<TokenModel>, i: int, depth: nat) -> int
    decreases toks.len() - i,
{
    if i < 0 || i >= toks.len() {
        toks.len() as int
    } else if toks[i].kind == TokenKind::CloseBrace {
        if depth <= 1 {
            i
        } else {
            block_close(toks, i + 1, (depth - 1) as nat)
        }
    } else if toks[i].kind == TokenKind::OpenBrace {
        block_close(toks, i + 1, depth + 1)
    } else {
        block_close(toks, i + 1, depth)
    }
}

/// Whether the declaration at `i` is marked `pub`: the word stands just
/// before it, or before the reserved words (`async`, `const`, `unsafe`)
/// that precede it.
pub open spec fn marked_public(toks: Seq<TokenModel>, i: int) -> bool
    decreases i,
{
    if i <= 0 || i > toks.len() {
        false
    } else if toks[i - 1].kind == TokenKind::Pub {
        true
    } else if toks[i - 1].kind == TokenKind::Keyword {
        marked_public(toks, i - 1)
    } else {
        false
    }
}

/// The texts of `toks[from..to]`, joined.
pub open spec fn joined_text(toks: Seq<TokenModel>, from: int, to: int) -> Seq<char>
    decreases to - from,
{
    if to <= from || to > toks.len() || from < 0 {
        Seq::empty()
    } else {
        joined_text(toks, from, to - 1) + toks[to - 1].text
    }
}

/// The texts of `toks[from..to]`, with one blank between them.
pub open spec fn spaced_text(toks: Seq<TokenModel>, from: int, to: int) -> Seq<char>
    decreases to - from,
{
    if to <= from || to > toks.len() || from < 0 {
        Seq::empty()
    } else if to == from + 1 {
        toks[from].text
    } else {
        spaced_text(toks, from, to - 1) + " "@ + toks[to - 1].text
    }
}

pub open spec fn has_function_named(fs: Seq<FunctionModel>, name: Seq<char>) -> bool {
    exists|k: int| 0 <= k < fs.len() && (#[trigger] fs[k]).name == name
}

pub open spec fn has_type_named(ts: Seq<TypeModel>, name: Seq<char>) -> bool {
    exists|k: int| 0 <= k < ts.len() && (#[trigger] ts[k]).name == name
}

pub open spec fn push_warning(acc: Outline, kind: WarningKind, line: nat) -> Outline {
    Outline { warnings: acc.warnings.push(ParseWarning { kind, line: line as usize }), ..acc }
}

/// The outline after the `fn` at `i`.
pub open spec fn add_function(path: Seq<char>, toks: Seq<TokenModel>, i: int, acc: Outline) -> Outline {
    if i + 1 < toks.len() && toks[i + 1].kind == TokenKind::Word {
        let open = body_start(toks, i + 2);
        if open < toks.len() && toks[open].kind == TokenKind::OpenBrace {
            let close = block_close(toks, open + 1, 1);
            if close >= toks.len() {
                push_warning(acc, WarningKind::UnclosedBody, toks[i].line)
            } else if has_function_named(acc.functions, toks[i + 1].text) {
                push_warning(acc, WarningKind::DuplicateFunction, toks[i].line)
            } else {
                Outline {
                    functions: acc.functions.push(
                        FunctionModel {
                            name: toks[i + 1].text,
                            signature: spaced_text(toks, i, open),
                            file_path: path,
                            line_start: toks[i].line,
                            line_end: toks[close].line,
                            is_public: marked_public(toks, i),
                            body: toks.subrange(open + 1, close),
                        },
                    ),
                    ..acc
                }
            }
        } else {
            acc
        }
    } else {
        acc
    }
}

/// The outline after the `struct`, `enum` or `trait` at `i`.
pub open spec fn add_type(toks: Seq<TokenModel>, i: int, acc: Outline) -> Outline {
    if i + 1 < toks.len() && toks[i + 1].kind == TokenKind::Word {
        if has_type_named(acc.types, toks[i + 1].text) {
            push_warning(acc, WarningKind::DuplicateType, toks[i].line)
        } else {
            Outline {
                types: acc.types.push(
                    TypeModel {
                        name: toks[i + 1].text,
                        line: toks[i].line,
                        is_public: marked_public(toks, i),
                    },
                ),
                ..acc
            }
        }
    } else {
        acc
    }
}

/// The outline after the `use` at `i`: what stands between it and the
/// next `;` is the import.
pub open spec fn add_use(toks: Seq<TokenModel>, i: int, acc: Outline) -> Outline {
    let semi = semi_from(toks, i + 1);
    if i + 1 < semi < toks.len() {
        Outline { imports: acc.imports.push(joined_text(toks, i + 1, semi)), ..acc }
    } else {
        push_warning(acc, WarningKind::BrokenImport, toks[i].line)
    }
}

/// The outline after the `mod` at `i`: `mod name;` imports `name`.
pub open spec fn add_mod(toks: Seq<TokenModel>, i: int, acc: Outline) -> Outline {
    if i + 2 < toks.len() && toks[i + 1].kind == TokenKind::Word && toks[i + 2].kind
        == TokenKind::Semi {
        Outline { imports: acc.imports.push(toks[i + 1].text), ..acc }
    } else {
        acc
    }
}

/// The outline after token `i` (`0 <= i < toks.len()`).
pub open spec fn scan_step(path: Seq<char>, toks: Seq<TokenModel>, i: int, acc: Outline) -> Outline {
    match toks[i].kind {
        TokenKind::Fn => add_function(path, toks, i, acc),
        TokenKind::Struct | TokenKind::Enum | TokenKind::Trait => add_type(toks, i, acc),
        TokenKind::Use => add_use(toks, i, acc),
        TokenKind::Mod => add_mod(toks, i, acc),
        _ => acc,
    }
}

/// The outline of the first `n` tokens.
pub open spec fn outline_upto(path: Seq<char>, toks: Seq<TokenModel>, n: nat) -> Outline
    decreases n,
{
    if n == 0 || n > toks.len() {
        empty_outline()
    } else {
        scan_step(path, toks, n - 1, outline_upto(path, toks, (n - 1) as nat))
    }
}

/// The outline of a file's tokens.
pub open spec fn outline_of(path: Seq<char>, toks: Seq<TokenModel>) -> Outline {
    outline_upto(path, toks, toks.len())
}

/// A text that holds a NUL character is binary.
pub open spec fn is_binary(text: Seq<char>) -> bool {
    text.contains('\0')
}

/// What the parser makes of the file at `path` with contents `text`.
pub open spec fn parsed_file_of(path: Seq<char>, text: Seq<char>) -> FileModel {
    let o = if is_binary(text) {
        push_warning(empty_outline(), WarningKind::BinaryContent, 0)
    } else {
        outline_of(path, tokens_of(text))
    };
    FileModel {
        path,
        module_name: module_name_of(path),
        line_count: line_count(text),
        functions: o.functions,
        types: o.types,
        imports: o.imports,
        warnings: o.warnings,
    }
}

// ---------------------------------------------------------------------
// What holds of every parsed file

pub open spec fn distinct_function_names(fs: Seq<FunctionModel>) -> bool {
    forall|i: int, j: int|
        0 <= i < j < fs.len() ==> (#[trigger] fs[i]).name != (#[trigger] fs[j]).name
}

pub open spec fn distinct_type_names(ts: Seq<TypeModel>) -> bool {
    forall|i: int, j: int|
        0 <= i < j < ts.len() ==> (#[trigger] ts[i]).name != (#[trigger] ts[j]).name
}

pub open spec fn functions_in_place(path: Seq<char>, fs: Seq<FunctionModel>) -> bool {
    forall|i: int|
        0 <= i < fs.len() ==> (#[trigger] fs[i]).line_start <= fs[i].line_end && fs[i].file_path
            == path
}

/// No two functions of the file share a name, nor two types; each
/// function ends on or after the line where it starts, and names the
/// file as its own.
pub open spec fn well_formed_file(file: FileModel) -> bool {
    &&& distinct_function_names(file.functions)
    &&& distinct_type_names(file.types)
    &&& functions_in_place(file.path, file.functions)
}

proof fn lemma_body_start_after(toks: Seq<TokenModel>, i: int)
    requires
        0 <= i,
    ensures
        body_start(toks, i) >= i,
    decreases toks.len() - i,
{
    if i < toks.len() && toks[i].kind != TokenKind::OpenBrace && toks[i].kind != TokenKind::Semi {
        lemma_body_start_after(toks, i + 1);
    }
}

proof fn lemma_block_close_after(toks: Seq<TokenModel>, i: int, depth: nat)
    requires
        0 <= i <= toks.len(),
    ensures
        block_close(toks, i, depth) >= i,
    decreases toks.len() - i,
{
    if i < toks.len() {
        if toks[i].kind == TokenKind::CloseBrace {
            if depth > 1 {
                lemma_block_close_after(toks, i + 1, (depth - 1) as nat);
            }
        } else if toks[i].kind == TokenKind::OpenBrace {
            lemma_block_close_after(toks, i + 1, depth + 1);
        } else {
            lemma_block_close_after(toks, i + 1, depth);
        }
    }
}

proof fn lemma_outline_well_formed(path: Seq<char>, toks: Seq<TokenModel>, n: nat)
    requires
        lines_ascend(toks),
        n <= toks.len(),
    ensures
        distinct_function_names(outline_upto(path, toks, n).functions),
        distinct_type_names(outline_upto(path, toks, n).types),
        functions_in_place(path, outline_upto(path, toks, n).functions),
    decreases n,
{
    if n > 0 {
        lemma_outline_well_formed(path, toks, (n - 1) as nat);
        let i = n - 1;
        let acc = outline_upto(path, toks, (n - 1) as nat);
        let out = outline_upto(path, toks, n);
        assert(out == scan_step(path, toks, i, acc));
        if toks[i].kind == TokenKind::Fn {
            if i + 1 < toks.len() && toks[i + 1].kind == TokenKind::Word {
                lemma_body_start_after(toks, i + 2);
                let open = body_start(toks, i + 2);
                if open < toks.len() && toks[open].kind == TokenKind::OpenBrace {
                    lemma_block_close_after(toks, open + 1, 1);
                    let close = block_close(toks, open + 1, 1);
                    if close < toks.len() && !has_function_named(acc.functions, toks[i + 1].text) {
                        assert(toks[i].line <= toks[close].line);
                        let fs = out.functions;
                        assert(fs.len() == acc.functions.len() + 1);
                        assert forall|a: int, b: int| 0 <= a < b < fs.len() implies (
                        #[trigger] fs[a]).name != (#[trigger] fs[b]).name by {
                            assert(fs[a] == acc.functions[a]);
                            if b < acc.functions.len() {
                                assert(fs[b] == acc.functions[b]);
                            }
                        }
                        assert forall|a: int| 0 <= a < fs.len() implies (#[trigger] fs[a]).line_start
                            <= fs[a].line_end && fs[a].file_path == path by {
                            if a < acc.functions.len() {
                                assert(fs[a] == acc.functions[a]);
                            }
                        }
                    }
                }
            }
        } else if toks[i].kind == TokenKind::Struct || toks[i].kind == TokenKind::Enum
            || toks[i].kind == TokenKind::Trait {
            if i + 1 < toks.len() && toks[i + 1].kind == TokenKind::Word && !has_type_named(
                acc.types,
                toks[i + 1].text,
            ) {
                let ts = out.types;
                assert(ts.len() == acc.types.len() + 1);
                assert forall|a: int, b: int| 0 <= a < b < ts.len() implies (#[trigger] ts[a]).name
                    != (#[trigger] ts[b]).name by {
                    assert(ts[a] == acc.types[a]);
                    if b < acc.types.len() {
                        assert(ts[b] == acc.types[b]);
                    }
                }
            }
        }
    }
}

/// Every file that the parser gives is well formed.
pub proof fn lemma_parsed_file_well_formed(path: Seq<char>, text: Seq<char>)
    ensures
        well_formed_file(parsed_file_of(path, text)),
        parsed_file_of(path, text).line_count == line_count(text),
{
    if !is_binary(text) {
        let toks = tokens_of(text);
        lemma_tokens_lines_ascend(text);
        lemma_outline_well_formed(path, toks, toks.len());
    }
}

// ---------------------------------------------------------------------
// The scan

struct Gathered {
    functions: Vec<ParsedFunction>,
    types: Vec<ParsedType>,
    imports: Vec<String>,
    warnings: Vec<ParseWarning>,
}

impl DeepView for Gathered {
    type V = Outline;

    closed spec fn deep_view(&self) -> Outline {
        Outline {
            functions: self.functions.deep_view(),
            types: self.types.deep_view(),
            imports: self.imports.deep_view(),
            warnings: self.warnings@,
        }
    }
}

fn find_body_start(toks: &Vec<Token>, from: usize) -> (j: usize)
    requires
        from <= toks.len(),
    ensures
        j == body_start(toks.deep_view(), from as int),
        from <= j <= toks.len(),
{
    let mut j: usize = from;
    while j < toks.len() && toks[j].kind != TokenKind::OpenBrace && toks[j].kind
        != TokenKind::Semi
        invariant
            from <= j <= toks.len(),
            body_start(toks.deep_view(), j as int) == body_start(toks.deep_view(), from as int),
        decreases toks.len() - j,
    {
        j += 1;
    }
    j
}

fn find_semi(toks: &Vec<Token>, from: usize) -> (j: usize)
    requires
        from <= toks.len(),
    ensures
        j == semi_from(toks.deep_view(), from as int),
        from <= j <= toks.len(),
{
    let mut j: usize = from;
    while j < toks.len() && toks[j].kind != TokenKind::Semi
        invariant
            from <= j <= toks.len(),
            semi_from(toks.deep_view(), j as int) == semi_from(toks.deep_view(), from as int),
        decreases toks.len() - j,
    {
        j += 1;
    }
    j
}

fn find_block_close(toks: &Vec<Token>, from: usize) -> (j: usize)
    requires
        1 <= from <= toks.len(),
    ensures
        j == block_close(toks.deep_view(), from as int, 1),
        from <= j <= toks.len(),
{
    let n: usize = toks.len();
    let mut j: usize = from;
    let mut depth: usize = 1;
    while j < n
        invariant
            n == toks.len(),
            1 <= from <= j <= n,
            1 <= depth <= j - from + 1,
            block_close(toks.deep_view(), j as int, depth as nat) == block_close(
                toks.deep_view(),
                from as int,
                1,
            ),
        decreases n - j,
    {
        if toks[j].kind == TokenKind::CloseBrace {
            if depth <= 1 {
                return j;
            }
            depth -= 1;
        } else if toks[j].kind == TokenKind::OpenBrace {
            depth += 1;
        }
        j += 1;
    }
    n
}

fn is_marked_public(toks: &Vec<Token>, i: usize) -> (b: bool)
    requires
        i <= toks.len(),
    ensures
        b == marked_public(toks.deep_view(), i as int),
{
    let mut j: usize = i;
    while j > 0
        invariant
            j <= i <= toks.len(),
            marked_public(toks.deep_view(), j as int) == marked_public(toks.deep_view(), i as int),
        decreases j,
    {
        if toks[j - 1].kind == TokenKind::Pub {
            return true;
        } else if toks[j - 1].kind != TokenKind::Keyword {
            return false;
        }
        j -= 1;
    }
    false
}

fn join_texts(toks: &Vec<Token>, from: usize, to: usize) -> (out: String)
    requires
        from <= to <= toks.len(),
    ensures
        out@ == joined_text(toks.deep_view(), from as int, to as int),
{
    let mut out = String::new();
    let mut k: usize = from;
    while k < to
        invariant
            from <= k <= to <= toks.len(),
            out@ == joined_text(toks.deep_view(), from as int, k as int),
        decreases to - k,
    {
        out.append(toks[k].text.as_str());
        k += 1;
    }
    out
}

fn join_spaced(toks: &Vec<Token>, from: usize, to: usize) -> (out: String)
    requires
        from <= to <= toks.len(),
    ensures
        out@ == spaced_text(toks.deep_view(), from as int, to as int),
{
    let mut out = String::new();
    let mut k: usize = from;
    while k < to
        invariant
            from <= k <= to <= toks.len(),
            out@ == spaced_text(toks.deep_view(), from as int, k as int),
        decreases to - k,
    {
        if k > from {
            out.append(" ");
        }
        out.append(toks[k].text.as_str());
        assert(out@ =~= spaced_text(toks.deep_view(), from as int, k + 1));
        k += 1;
    }
    out
}

fn copy_tokens(toks: &Vec<Token>, from: usize, to: usize) -> (out: Vec<Token>)
    requires
        from <= to <= toks.len(),
    ensures
        out.deep_view() == toks.deep_view().subrange(from as int, to as int),
{
    let mut out: Vec<Token> = Vec::new();
    let mut k: usize = from;
    while k < to
        invariant
            from <= k <= to <= toks.len(),
            out.len() == k - from,
            forall|j: int|
                0 <= j < out.len() ==> (#[trigger] out@[j]).deep_view() == toks@[from
                    + j].deep_view(),
        decreases to - k,
    {
        out.push(toks[k].duplicate());
        k += 1;
    }
    assert(out.deep_view() =~= toks.deep_view().subrange(from as int, to as int));
    out
}

fn knows_function(fs: &Vec<ParsedFunction>, name: &String) -> (b: bool)
    ensures
        b == has_function_named(fs.deep_view(), name@),
{
    let mut k: usize = 0;
    while k < fs.len()
        invariant
            k <= fs.len(),
            forall|j: int| 0 <= j < k ==> (#[trigger] fs.deep_view()[j]).name != name@,
        decreases fs.len() - k,
    {
        if fs[k].name == *name {
            assert(fs.deep_view()[k as int].name == name@);
            return true;
        }
        k += 1;
    }
    false
}

fn knows_type(ts: &Vec<ParsedType>, name: &String) -> (b: bool)
    ensures
        b == has_type_named(ts.deep_view(), name@),
{
    let mut k: usize = 0;
    while k < ts.len()
        invariant
            k <= ts.len(),
            forall|j: int| 0 <= j < k ==> (#[trigger] ts.deep_view()[j]).name != name@,
        decreases ts.len() - k,
    {
        if ts[k].name == *name {
            assert(ts.deep_view()[k as int].name == name@);
            return true;
        }
        k += 1;
    }
    false
}

fn warn(out: &mut Gathered, kind: WarningKind, line: usize)
    ensures
        final(out).deep_view() == push_warning(old(out).deep_view(), kind, line as nat),
{
    out.warnings.push(ParseWarning { kind, line });
}

fn scan_function(path: &str, toks: &Vec<Token>, i: usize, out: &mut Gathered)
    requires
        i < toks.len(),
    ensures
        final(out).deep_view() == add_function(
            path@,
            toks.deep_view(),
            i as int,
            old(out).deep_view(),
        ),
{
    let n: usize = toks.len();
    if n - i < 2 || toks[i + 1].kind != TokenKind::Word {
        return ;
    }
    let open: usize = find_body_start(toks, i + 2);
    if open >= n || toks[open].kind != TokenKind::OpenBrace {
        return ;
    }
    let close: usize = find_block_close(toks, open + 1);
    if close >= n {
        warn(out, WarningKind::UnclosedBody, toks[i].line);
    } else if knows_function(&out.functions, &toks[i + 1].text) {
        warn(out, WarningKind::DuplicateFunction, toks[i].line);
    } else {
        let f = ParsedFunction {
            name: toks[i + 1].text.clone(),
            signature: join_spaced(toks, i, open),
            file_path: path.to_owned(),
            line_start: toks[i].line,
            line_end: toks[close].line,
            is_public: is_marked_public(toks, i),
            body: copy_tokens(toks, open + 1, close),
        };
        let ghost before = out.functions.deep_view();
        out.functions.push(f);
        assert(out.functions.deep_view() =~= before.push(f.deep_view()));
    }
}

fn scan_type(toks: &Vec<Token>, i: usize, out: &mut Gathered)
    requires
        i < toks.len(),
    ensures
        final(out).deep_view() == add_type(toks.deep_view(), i as int, old(out).deep_view()),
{
    let n: usize = toks.len();
    if n - i < 2 || toks[i + 1].kind != TokenKind::Word {
        return ;
    }
    if knows_type(&out.types, &toks[i + 1].text) {
        warn(out, WarningKind::DuplicateType, toks[i].line);
    } else {
        let t = ParsedType {
            name: toks[i + 1].text.clone(),
            line: toks[i].line,
            is_public: is_marked_public(toks, i),
        };
        let ghost before = out.types.deep_view();
        out.types.push(t);
        assert(out.types.deep_view() =~= before.push(t.deep_view()));
    }
}

fn push_import(out: &mut Gathered, import: String)
    ensures
        final(out).deep_view() == (Outline {
            imports: old(out).deep_view().imports.push(import@),
            ..old(out).deep_view()
        }),
{
    let ghost before = out.imports.deep_view();
    out.imports.push(import);
    assert(out.imports.deep_view() =~= before.push(import@));
}

fn scan_use(toks: &Vec<Token>, i: usize, out: &mut Gathered)
    requires
        i < toks.len(),
    ensures
        final(out).deep_view() == add_use(toks.deep_view(), i as int, old(out).deep_view()),
{
    let semi: usize = find_semi(toks, i + 1);
    if i + 1 < semi && semi < toks.len() {
        push_import(out, join_texts(toks, i + 1, semi));
    } else {
        warn(out, WarningKind::BrokenImport, toks[i].line);
    }
}

fn scan_mod(toks: &Vec<Token>, i: usize, out: &mut Gathered)
    requires
        i < toks.len(),
    ensures
        final(out).deep_view() == add_mod(toks.deep_view(), i as int, old(out).deep_view()),
{
    let n: usize = toks.len();
    if n - i > 2 && toks[i + 1].kind == TokenKind::Word && toks[i + 2].kind == TokenKind::Semi {
        push_import(out, toks[i + 1].text.clone());
    }
}

/// Gathers the outline of a file from its tokens.
fn scan_tokens(path: &str, toks: &Vec<Token>) -> (out: Gathered)
    ensures
        out.deep_view() == outline_of(path@, toks.deep_view()),
{
    let mut out = Gathered {
        functions: Vec::new(),
        types: Vec::new(),
        imports: Vec::new(),
        warnings: Vec::new(),
    };
    assert(out.deep_view().functions =~= Seq::empty());
    assert(out.deep_view().types =~= Seq::empty());
    assert(out.deep_view().imports =~= Seq::empty());
    let mut i: usize = 0;
    while i < toks.len()
        invariant
            i <= toks.len(),
            out.deep_view() == outline_upto(path@, toks.deep_view(), i as nat),
        decreases toks.len() - i,
    {
        let kind: TokenKind = toks[i].kind;
        match kind {
            TokenKind::Fn => scan_function(path, toks, i, &mut out),
            TokenKind::Struct | TokenKind::Enum | TokenKind::Trait => scan_type(toks, i, &mut out),
            TokenKind::Use => scan_use(toks, i, &mut out),
            TokenKind::Mod => scan_mod(toks, i, &mut out),
            _ => {},
        }
        i += 1;
    }
    out
}

/// Whether a text is binary.
pub fn is_binary_text(text: &str) -> (b: bool)
    ensures
        b == is_binary(text@),
{
    let chars: Vec<char> = chars_of(text);
    holds_nul(&chars)
}

fn holds_nul(chars: &Vec<char>) -> (b: bool)
    ensures
        b == is_binary(chars@),
{
    let mut k: usize = 0;
    while k < chars.len()
        invariant
            k <= chars.len(),
            forall|j: int| 0 <= j < k ==> chars@[j] != '\0',
        decreases chars.len() - k,
    {
        if chars[k] == '\0' {
            return true;
        }
        k += 1;
    }
    false
}

/// Parses one file. The result is fixed by the path and the text alone;
/// in particular `line_count` is the number of lines of `text` whatever
/// the parser could make of it.
pub fn parse_file(path: &str, text: &str) -> (file: ParsedFile)
    ensures
        file.deep_view() == parsed_file_of(path@, text@),
        file.line_count == line_count(text@),
        well_formed_file(file.deep_view()),
{
    proof {
        lemma_parsed_file_well_formed(path@, text@);
    }
    let chars: Vec<char> = chars_of(text);
    let lines: usize = count_lines(&chars);
    let out: Gathered = if holds_nul(&chars) {
        let mut warnings: Vec<ParseWarning> = Vec::new();
        warnings.push(ParseWarning { kind: WarningKind::BinaryContent, line: 0 });
        let g = Gathered {
            functions: Vec::new(),
            types: Vec::new(),
            imports: Vec::new(),
            warnings,
        };
        assert(g.deep_view().functions =~= Seq::empty());
        assert(g.deep_view().types =~= Seq::empty());
        assert(g.deep_view().imports =~= Seq::empty());
        assert(g.deep_view().warnings =~= push_warning(
            empty_outline(),
            WarningKind::BinaryContent,
            0,
        ).warnings);
        g
    } else {
        let toks: Vec<Token> = tokenize(text);
        scan_tokens(path, &toks)
    };
    ParsedFile {
        path: path.to_owned(),
        module_name: module_name(path),
        line_count: lines,
        functions: out.functions,
        types: out.types,
        imports: out.imports,
        warnings: out.warnings,
    }
}

} // verus!
