//! Complexity scorer.
//!
//! The score of a function is 1, plus, for each branching construct in its
//! body, 1 and the number of braces open around it inside the body. The
//! branching constructs are
//! - `if`, `while`, `for` and `loop`;
//! - `&&` and `||` in a condition, that is after an `if` or a `while` and
//!   before the `{`, `=>` or `;` that follows;
//! - each arm (`=>`) after a `match`, but for the first one that follows a
//!   `match`.
//!
//! The scorer reads the tokens that the parser kept for the function.

use vstd::prelude::*;
use crate::lexer::{Token, TokenKind, TokenModel};
use crate::parser::{FileModel, FunctionModel, ParsedFile, ParsedFunction};
use crate::records::{ComplexityItem, ComplexityModel, clamp_i32, to_i32};

verus! {

/// Where a scan stands with respect to `match` arms.
#[derive(Clone, Copy, Debug, PartialEq, Eq, Structural)]
pub enum Arms {
    /// No `match` was seen yet.
    NoMatch,
    /// A `match` was seen and its first arm is still to come.
    First,
    /// The next arm is a further arm.
    Further,
}

/// The state of a scan over a body: how many braces are open, whether a
/// condition is being read, and where the arms stand.
pub struct ScanState {
    pub depth: nat,
    pub in_condition: bool,
    pub arms: Arms,
}

pub open spec fn start_state() -> ScanState {
    ScanState { depth: 0, in_condition: false, arms: Arms::NoMatch }
}

/// Whether a token of kind `k`, met in state `st`, is a branching construct.
pub open spec fn is_branch(st: ScanState, k: TokenKind) -> bool {
    match k {
        TokenKind::If | TokenKind::While | TokenKind::For | TokenKind::Loop => true,
        TokenKind::AndAnd | TokenKind::OrOr => st.in_condition,
        TokenKind::FatArrow => st.arms == Arms::Further,
        _ => false,
    }
}

/// What a token of kind `k`, met in state `st`, adds to the score.
pub open spec fn step_cost(st: ScanState, k: TokenKind) -> nat {
    if is_branch(st, k) {
        st.depth + 1
    } else {
        0
    }
}

/// The state after a token of kind `k`.
pub open spec fn next_state(st: ScanState, k: TokenKind) -> ScanState {
    match k {
        TokenKind::If | TokenKind::While => ScanState { in_condition: true, ..st },
        TokenKind::Match => ScanState { arms: Arms::First, ..st },
        TokenKind::FatArrow => ScanState {
            in_condition: false,
            arms: if st.arms == Arms::NoMatch {
                Arms::NoMatch
            } else {
                Arms::Further
            },
            ..st
        },
        TokenKind::OpenBrace => ScanState { depth: st.depth + 1, in_condition: false, ..st },
        TokenKind::CloseBrace => ScanState {
            depth: if st.depth > 0 {
                (st.depth - 1) as nat
            } else {
                0
            },
            ..st
        },
        TokenKind::Semi => ScanState { in_condition: false, ..st },
        _ => st,
    }
}

/// The state after the first `n` tokens of a body.
pub open spec fn state_upto(body: Seq<TokenModel>, n: nat) -> ScanState
    decreases n,
{
    if n == 0 || n > body.len() {
        start_state()
    } else {
        next_state(state_upto(body, (n - 1) as nat), body[n - 1].kind)
    }
}

/// What the first `n` tokens of a body add to the score.
pub open spec fn cost_upto(body: Seq<TokenModel>, n: nat) -> nat
    decreases n,
{
    if n == 0 || n > body.len() {
        0
    } else {
        cost_upto(body, (n - 1) as nat) + step_cost(
            state_upto(body, (n - 1) as nat),
            body[n - 1].kind,
        )
    }
}

/// The score of a body.
pub open spec fn complexity_of(body: Seq<TokenModel>) -> nat {
    1 + cost_upto(body, body.len())
}

/// The words that make a conditional or a loop.
pub open spec fn is_control(k: TokenKind) -> bool {
    k == TokenKind::If || k == TokenKind::While || k == TokenKind::For || k == TokenKind::Loop
        || k == TokenKind::Match
}

pub open spec fn straight_line(body: Seq<TokenModel>) -> bool {
    forall|i: int| 0 <= i < body.len() ==> !is_control(#[trigger] body[i].kind)
}

proof fn lemma_straight_prefix(body: Seq<TokenModel>, n: nat)
    requires
        straight_line(body),
        n <= body.len(),
    ensures
        !state_upto(body, n).in_condition,
        state_upto(body, n).arms == Arms::NoMatch,
        cost_upto(body, n) == 0,
    decreases n,
{
    if n > 0 {
        lemma_straight_prefix(body, (n - 1) as nat);
        assert(!is_control(body[n - 1].kind));
    }
}

/// A body with no conditional and no loop scores exactly 1.
pub proof fn lemma_straight_line_scores_one(body: Seq<TokenModel>)
    requires
        straight_line(body),
    ensures
        complexity_of(body) == 1,
{
    lemma_straight_prefix(body, body.len());
}

/// Every score is at least 1.
pub proof fn lemma_score_at_least_one(body: Seq<TokenModel>)
    ensures
        complexity_of(body) >= 1,
{
}

pub open spec fn saturated(n: nat) -> usize {
    if n > usize::MAX {
        usize::MAX
    } else {
        n as usize
    }
}

/// The score of a body, or `usize::MAX` where the score is larger.
pub fn complexity(body: &Vec<Token>) -> (score: usize)
    ensures
        score == saturated(complexity_of(body.deep_view())),
        score >= 1,
{
    let mut score: usize = 1;
    let mut depth: usize = 0;
    let mut in_condition: bool = false;
    let mut arms: Arms = Arms::NoMatch;
    let mut i: usize = 0;
    while i < body.len()
        invariant
            i <= body.len(),
            depth <= i,
            score >= 1,
            score == saturated(1 + cost_upto(body.deep_view(), i as nat)),
            state_upto(body.deep_view(), i as nat) == (ScanState {
                depth: depth as nat,
                in_condition,
                arms,
            }),
        decreases body.len() - i,
    {
        let k: TokenKind = body[i].kind;
        assert(body.deep_view()[i as int].kind == k);
        let branch: bool = match k {
            TokenKind::If | TokenKind::While | TokenKind::For | TokenKind::Loop => true,
            TokenKind::AndAnd | TokenKind::OrOr => in_condition,
            TokenKind::FatArrow => arms == Arms::Further,
            _ => false,
        };
        if branch {
            score = score.saturating_add(depth + 1);
        }
        match k {
            TokenKind::If | TokenKind::While => {
                in_condition = true;
            },
            TokenKind::Match => {
                arms = Arms::First;
            },
            TokenKind::FatArrow => {
                in_condition = false;
                if arms != Arms::NoMatch {
                    arms = Arms::Further;
                }
            },
            TokenKind::OpenBrace => {
                depth += 1;
                in_condition = false;
            },
            TokenKind::CloseBrace => {
                if depth > 0 {
                    depth -= 1;
                }
            },
            TokenKind::Semi => {
                in_condition = false;
            },
            _ => {},
        }
        i += 1;
    }
    score
}

/// The complexity record of one function.
pub open spec fn complexity_item_of(f: FunctionModel) -> ComplexityModel {
    ComplexityModel {
        function_name: f.name,
        file_path: f.file_path,
        score: clamp_i32(complexity_of(f.body)),
        line_start: clamp_i32(f.line_start),
        line_end: clamp_i32(f.line_end),
    }
}

pub open spec fn items_of(fs: Seq<FunctionModel>) -> Seq<ComplexityModel> {
    fs.map_values(|f: FunctionModel| complexity_item_of(f))
}

/// The records of the functions of the first `n` files.
pub open spec fn complexity_list_upto(files: Seq<FileModel>, n: nat) -> Seq<ComplexityModel>
    decreases n,
{
    if n == 0 || n > files.len() {
        Seq::empty()
    } else {
        complexity_list_upto(files, (n - 1) as nat) + items_of(files[n - 1].functions)
    }
}

/// The complexity list of a run: one record for each function, files in
/// the order given, functions in the order declared.
pub open spec fn complexity_list(files: Seq<FileModel>) -> Seq<ComplexityModel> {
    complexity_list_upto(files, files.len())
}

/// Up to `n` files, the list holds one record for each function, and
/// each record is that of a function of one of the files.
pub proof fn lemma_items_belong(files: Seq<FileModel>, n: nat, i: int)
    requires
        n <= files.len(),
        0 <= i < complexity_list_upto(files, n).len(),
    ensures
        exists|k: int, l: int|
            0 <= k < n && 0 <= l < files[k].functions.len() && complexity_list_upto(files, n)[i]
                == complexity_item_of(#[trigger] files[k].functions[l]),
    decreases n,
{
    let rest = complexity_list_upto(files, (n - 1) as nat);
    if i < rest.len() {
        lemma_items_belong(files, (n - 1) as nat, i);
        let (k, l) = choose|k: int, l: int|
            0 <= k < n - 1 && 0 <= l < files[k].functions.len() && rest[i] == complexity_item_of(
                #[trigger] files[k].functions[l],
            );
        assert(complexity_list_upto(files, n)[i] == complexity_item_of(files[k].functions[l]));
    } else {
        let l = i - rest.len();
        assert(complexity_list_upto(files, n)[i] == complexity_item_of(files[n - 1].functions[l]));
    }
}

/// The number of functions in the first `n` files.
pub open spec fn functions_upto(files: Seq<FileModel>, n: nat) -> nat
    decreases n,
{
    if n == 0 || n > files.len() {
        0
    } else {
        functions_upto(files, (n - 1) as nat) + files[n - 1].functions.len()
    }
}

/// The list holds as many records as the files hold functions.
pub proof fn lemma_one_item_per_function(files: Seq<FileModel>, n: nat)
    requires
        n <= files.len(),
    ensures
        complexity_list_upto(files, n).len() == functions_upto(files, n),
    decreases n,
{
    if n > 0 {
        lemma_one_item_per_function(files, (n - 1) as nat);
    }
}

/// Scores one function.
pub fn score_function(f: &ParsedFunction) -> (item: ComplexityItem)
    ensures
        item.deep_view() == complexity_item_of(f.deep_view()),
        item.score >= 1,
{
    ComplexityItem {
        function_name: f.name.clone(),
        file_path: f.file_path.clone(),
        score: to_i32(complexity(&f.body)),
        line_start: to_i32(f.line_start),
        line_end: to_i32(f.line_end),
    }
}

/// Scores every function of every file.
pub fn score_all(files: &Vec<ParsedFile>) -> (items: Vec<ComplexityItem>)
    ensures
        items.deep_view() == complexity_list(files.deep_view()),
{
    let mut items: Vec<ComplexityItem> = Vec::new();
    assert(items.deep_view() =~= Seq::<ComplexityModel>::empty());
    let mut i: usize = 0;
    while i < files.len()
        invariant
            i <= files.len(),
            items.deep_view() == complexity_list_upto(files.deep_view(), i as nat),
        decreases files.len() - i,
    {
        let fs: &Vec<ParsedFunction> = &files[i].functions;
        let ghost base = items.deep_view();
        assert(files.deep_view()[i as int].functions == fs.deep_view());
        let mut j: usize = 0;
        while j < fs.len()
            invariant
                j <= fs.len(),
                items.deep_view() == base + items_of(fs.deep_view().take(j as int)),
            decreases fs.len() - j,
        {
            let item = score_function(&fs[j]);
            let ghost before = items.deep_view();
            items.push(item);
            assert(items.deep_view() =~= before.push(item.deep_view()));
            assert(fs.deep_view().take(j + 1) =~= fs.deep_view().take(j as int).push(
                fs.deep_view()[j as int],
            ));
            assert(items.deep_view() =~= base + items_of(fs.deep_view().take(j + 1)));
            j += 1;
        }
        assert(fs.deep_view().take(fs.len() as int) =~= fs.deep_view());
        i += 1;
    }
    items
}

} // verus!
