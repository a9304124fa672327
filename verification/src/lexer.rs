//! Lexer: turns the characters of a source file into tokens.
//!
//! The language is brace-delimited. White space, `//` comments and
//! `/* */` comments separate tokens and are dropped. Every other
//! character belongs to exactly one token, so no input is rejected.

use vstd::prelude::*;
use crate::text::{chars_of, newlines_before, range_is, string_of};

verus! {

/// What a token is. Words that the parser or the scorer give a meaning to
/// have a kind of their own; other reserved words are `Keyword`.
#[derive(Clone, Copy, Debug, PartialEq, Eq, Structural)]
pub enum TokenKind {
    Word,
    Keyword,
    Number,
    Text,
    Character,
    Fn,
    Pub,
    Struct,
    Enum,
    Trait,
    Use,
    Mod,
    If,
    While,
    For,
    Loop,
    Match,
    AndAnd,
    OrOr,
    FatArrow,
    OpenBrace,
    CloseBrace,
    OpenParen,
    CloseParen,
    Semi,
    Punct,
}

/// One token: its kind, its characters, and the line (from 1) where it starts.
#[derive(Clone, Debug, PartialEq, Eq)]
pub struct Token {
    pub kind: TokenKind,
    pub text: String,
    pub line: usize,
}

/// A token as contracts see it.
pub struct TokenModel {
    pub kind: TokenKind,
    pub text: Seq<char>,
    pub line: nat,
}

impl DeepView for Token {
    type V = TokenModel;

    open spec fn deep_view(&self) -> TokenModel {
        TokenModel { kind: self.kind, text: self.text@, line: self.line as nat }
    }
}

impl Token {
    /// A copy of this token.
    pub fn duplicate(&self) -> (out: Token)
        ensures
            out.deep_view() == self.deep_view(),
    {
        Token { kind: self.kind, text: self.text.clone(), line: self.line }
    }
}

pub open spec fn is_space(c: char) -> bool {
    c == ' ' || c == '\t' || c == '\n' || c == '\r'
}

pub open spec fn is_digit(c: char) -> bool {
    '0' <= c <= '9'
}

pub open spec fn is_word_start(c: char) -> bool {
    ('a' <= c <= 'z') || ('A' <= c <= 'Z') || c == '_'
}

pub open spec fn is_word_char(c: char) -> bool {
    is_word_start(c) || is_digit(c)
}

/// Reserved words that get no kind of their own.
pub open spec fn is_reserved(w: Seq<char>) -> bool {
    w == "as"@ || w == "async"@ || w == "await"@ || w == "break"@ || w == "const"@
        || w == "continue"@ || w == "crate"@ || w == "dyn"@ || w == "else"@ || w == "false"@
        || w == "impl"@ || w == "in"@ || w == "let"@ || w == "move"@ || w == "mut"@
        || w == "ref"@ || w == "return"@ || w == "self"@ || w == "static"@ || w == "super"@
        || w == "true"@ || w == "type"@ || w == "unsafe"@ || w == "where"@
}

/// The kind of a word.
pub open spec fn word_kind(w: Seq<char>) -> TokenKind {
    if w == "fn"@ {
        TokenKind::Fn
    } else if w == "pub"@ {
        TokenKind::Pub
    } else if w == "struct"@ {
        TokenKind::Struct
    } else if w == "enum"@ {
        TokenKind::Enum
    } else if w == "trait"@ {
        TokenKind::Trait
    } else if w == "use"@ {
        TokenKind::Use
    } else if w == "mod"@ {
        TokenKind::Mod
    } else if w == "if"@ {
        TokenKind::If
    } else if w == "while"@ {
        TokenKind::While
    } else if w == "for"@ {
        TokenKind::For
    } else if w == "loop"@ {
        TokenKind::Loop
    } else if w == "match"@ {
        TokenKind::Match
    } else if is_reserved(w) {
        TokenKind::Keyword
    } else {
        TokenKind::Word
    }
}

/// First position at or after `i` that holds no word character.
pub open spec fn word_end(s: Seq<char>, i: int) -> int
    decreases s.len() - i,
{
    if 0 <= i < s.len() && is_word_char(s[i]) {
        word_end(s, i + 1)
    } else {
        i
    }
}

/// First position at or after `i` that holds a newline, or the end.
pub open spec fn line_end(s: Seq<char>, i: int) -> int
    decreases s.len() - i,
{
    if 0 <= i < s.len() && s[i] != '\n' {
        line_end(s, i + 1)
    } else {
        i
    }
}

/// Position just after the first `*/` that starts at or after `i`, or the
/// end where there is none.
pub open spec fn block_end(s: Seq<char>, i: int) -> int
    decreases s.len() - i,
{
    if i < 0 || i + 1 >= s.len() {
        s.len() as int
    } else if s[i] == '*' && s[i + 1] == '/' {
        i + 2
    } else {
        block_end(s, i + 1)
    }
}

/// Position just after the quote that closes a string literal whose
/// contents start at `i`, or the end where none closes it. A backslash
/// takes the next character with it.
pub open spec fn string_end(s: Seq<char>, i: int) -> int
    decreases s.len() - i,
{
    if i < 0 || i >= s.len() {
        s.len() as int
    } else if s[i] == '"' {
        i + 1
    } else if s[i] == '\\' && i + 1 < s.len() {
        string_end(s, i + 2)
    } else {
        string_end(s, i + 1)
    }
}

/// Length of the character literal that starts at `i`, or 0 where the
/// quote at `i` starts none.
pub open spec fn char_literal_len(s: Seq<char>, i: int) -> int {
    if i + 2 < s.len() && s[i + 1] != '\\' && s[i + 1] != '\'' && s[i + 2] == '\'' {
        3
    } else if i + 3 < s.len() && s[i + 1] == '\\' && s[i + 3] == '\'' {
        4
    } else {
        0
    }
}

/// The kind of the two-character token at `i`, if one starts there:
/// `&&`, `||`, `=>`, `->` or `::`.
pub open spec fn pair_kind(s: Seq<char>, i: int) -> Option<TokenKind> {
    if i + 1 >= s.len() {
        None
    } else if s[i] == '&' && s[i + 1] == '&' {
        Some(TokenKind::AndAnd)
    } else if s[i] == '|' && s[i + 1] == '|' {
        Some(TokenKind::OrOr)
    } else if s[i] == '=' && s[i + 1] == '>' {
        Some(TokenKind::FatArrow)
    } else if (s[i] == '-' && s[i + 1] == '>') || (s[i] == ':' && s[i + 1] == ':') {
        Some(TokenKind::Punct)
    } else {
        None
    }
}

/// The kind of a token of one character.
pub open spec fn single_kind(c: char) -> TokenKind {
    if c == '{' {
        TokenKind::OpenBrace
    } else if c == '}' {
        TokenKind::CloseBrace
    } else if c == '(' {
        TokenKind::OpenParen
    } else if c == ')' {
        TokenKind::CloseParen
    } else if c == ';' {
        TokenKind::Semi
    } else {
        TokenKind::Punct
    }
}

pub open spec fn starts_line_comment(s: Seq<char>, i: int) -> bool {
    i + 1 < s.len() && s[i] == '/' && s[i + 1] == '/'
}

pub open spec fn starts_block_comment(s: Seq<char>, i: int) -> bool {
    i + 1 < s.len() && s[i] == '/' && s[i + 1] == '*'
}

/// Where the lexeme that starts at `i` ends (`0 <= i < s.len()`).
pub open spec fn lexeme_end(s: Seq<char>, i: int) -> int {
    let c = s[i];
    if is_space(c) {
        i + 1
    } else if starts_line_comment(s, i) {
        line_end(s, i + 2)
    } else if starts_block_comment(s, i) {
        block_end(s, i + 2)
    } else if is_word_char(c) {
        word_end(s, i + 1)
    } else if c == '"' {
        string_end(s, i + 1)
    } else if c == '\'' && char_literal_len(s, i) > 0 {
        i + char_literal_len(s, i)
    } else if pair_kind(s, i) is Some {
        i + 2
    } else {
        i + 1
    }
}

/// The kind of the lexeme that starts at `i`; `None` for white space and
/// comments.
pub open spec fn lexeme_kind(s: Seq<char>, i: int) -> Option<TokenKind> {
    let c = s[i];
    if is_space(c) || starts_line_comment(s, i) || starts_block_comment(s, i) {
        None
    } else if is_digit(c) {
        Some(TokenKind::Number)
    } else if is_word_start(c) {
        Some(word_kind(s.subrange(i, word_end(s, i + 1))))
    } else if c == '"' {
        Some(TokenKind::Text)
    } else if c == '\'' && char_literal_len(s, i) > 0 {
        Some(TokenKind::Character)
    } else if pair_kind(s, i) is Some {
        pair_kind(s, i)
    } else {
        Some(single_kind(c))
    }
}

/// The tokens of `s` from position `i` on.
pub open spec fn tokens_from(s: Seq<char>, i: int) -> Seq<TokenModel>
    decreases s.len() - i,
{
    if 0 <= i < s.len() {
        let e = lexeme_end(s, i);
        if i < e <= s.len() {
            match lexeme_kind(s, i) {
                Some(kind) => seq![
                    TokenModel {
                        kind,
                        text: s.subrange(i, e),
                        line: newlines_before(s, i) + 1,
                    },
                ] + tokens_from(s, e),
                None => tokens_from(s, e),
            }
        } else {
            Seq::empty()
        }
    } else {
        Seq::empty()
    }
}

/// The tokens of a text.
pub open spec fn tokens_of(s: Seq<char>) -> Seq<TokenModel> {
    tokens_from(s, 0)
}

/// Whether the lines of the tokens never go down.
pub open spec fn lines_ascend(toks: Seq<TokenModel>) -> bool {
    forall|i: int, j: int| 0 <= i <= j < toks.len() ==> toks[i].line <= toks[j].line
}

proof fn lemma_newlines_grow(s: Seq<char>, i: int, j: int)
    requires
        0 <= i <= j <= s.len(),
    ensures
        newlines_before(s, i) <= newlines_before(s, j),
    decreases j - i,
{
    if i < j {
        lemma_newlines_grow(s, i, j - 1);
    }
}

proof fn lemma_tokens_from_ascend(s: Seq<char>, i: int)
    requires
        0 <= i <= s.len(),
    ensures
        lines_ascend(tokens_from(s, i)),
        forall|k: int|
            0 <= k < tokens_from(s, i).len() ==> (#[trigger] tokens_from(s, i)[k]).line
                > newlines_before(s, i),
    decreases s.len() - i,
{
    if i < s.len() {
        let e = lexeme_end(s, i);
        if i < e <= s.len() {
            lemma_tokens_from_ascend(s, e);
            lemma_newlines_grow(s, i, e);
            let rest = tokens_from(s, e);
            let all = tokens_from(s, i);
            if lexeme_kind(s, i) is Some {
                assert forall|a: int, b: int| 0 <= a <= b < all.len() implies all[a].line
                    <= all[b].line by {
                    if a > 0 {
                        assert(all[a] == rest[a - 1]);
                        assert(all[b] == rest[b - 1]);
                    } else if b > 0 {
                        assert(all[b] == rest[b - 1]);
                    }
                }
                assert forall|k: int| 0 <= k < all.len() implies (#[trigger] all[k]).line
                    > newlines_before(s, i) by {
                    if k > 0 {
                        assert(all[k] == rest[k - 1]);
                    }
                }
            }
        }
    }
}

/// The tokens of a text come in the order of their lines.
pub proof fn lemma_tokens_lines_ascend(s: Seq<char>)
    ensures
        lines_ascend(tokens_of(s)),
{
    lemma_tokens_from_ascend(s, 0);
}

fn space_char(c: char) -> (b: bool)
    ensures
        b == is_space(c),
{
    c == ' ' || c == '\t' || c == '\n' || c == '\r'
}

fn digit_char(c: char) -> (b: bool)
    ensures
        b == is_digit(c),
{
    '0' <= c && c <= '9'
}

fn word_start_char(c: char) -> (b: bool)
    ensures
        b == is_word_start(c),
{
    ('a' <= c && c <= 'z') || ('A' <= c && c <= 'Z') || c == '_'
}

fn word_char(c: char) -> (b: bool)
    ensures
        b == is_word_char(c),
{
    word_start_char(c) || digit_char(c)
}

fn scan_word(chars: &Vec<char>, from: usize) -> (end: usize)
    requires
        from <= chars.len(),
    ensures
        end == word_end(chars@, from as int),
        from <= end <= chars.len(),
{
    let mut j: usize = from;
    while j < chars.len() && word_char(chars[j])
        invariant
            from <= j <= chars.len(),
            word_end(chars@, j as int) == word_end(chars@, from as int),
        decreases chars.len() - j,
    {
        j += 1;
    }
    j
}

fn scan_line(chars: &Vec<char>, from: usize) -> (end: usize)
    requires
        from <= chars.len(),
    ensures
        end == line_end(chars@, from as int),
        from <= end <= chars.len(),
{
    let mut j: usize = from;
    while j < chars.len() && chars[j] != '\n'
        invariant
            from <= j <= chars.len(),
            line_end(chars@, j as int) == line_end(chars@, from as int),
        decreases chars.len() - j,
    {
        j += 1;
    }
    j
}

fn scan_block(chars: &Vec<char>, from: usize) -> (end: usize)
    requires
        from <= chars.len(),
    ensures
        end == block_end(chars@, from as int),
        from <= end <= chars.len(),
{
    let n: usize = chars.len();
    let mut j: usize = from;
    while j < n && n - j >= 2
        invariant
            n == chars.len(),
            from <= j <= n,
            block_end(chars@, j as int) == block_end(chars@, from as int),
        decreases n - j,
    {
        if chars[j] == '*' && chars[j + 1] == '/' {
            return j + 2;
        }
        j += 1;
    }
    n
}

fn scan_string(chars: &Vec<char>, from: usize) -> (end: usize)
    requires
        from <= chars.len(),
    ensures
        end == string_end(chars@, from as int),
        from <= end <= chars.len(),
{
    let n: usize = chars.len();
    let mut j: usize = from;
    while j < n
        invariant
            n == chars.len(),
            from <= j <= n,
            string_end(chars@, j as int) == string_end(chars@, from as int),
        decreases n - j,
    {
        if chars[j] == '"' {
            return j + 1;
        } else if chars[j] == '\\' && n - j >= 2 {
            j += 2;
        } else {
            j += 1;
        }
    }
    n
}

fn char_literal(chars: &Vec<char>, i: usize) -> (len: usize)
    requires
        i < chars.len(),
    ensures
        len == char_literal_len(chars@, i as int),
        i + len <= chars.len(),
{
    let n: usize = chars.len();
    if n - i > 2 && chars[i + 1] != '\\' && chars[i + 1] != '\'' && chars[i + 2] == '\'' {
        3
    } else if n - i > 3 && chars[i + 1] == '\\' && chars[i + 3] == '\'' {
        4
    } else {
        0
    }
}

fn pair_at(chars: &Vec<char>, i: usize) -> (kind: Option<TokenKind>)
    requires
        i < chars.len(),
    ensures
        kind == pair_kind(chars@, i as int),
{
    if chars.len() - i < 2 {
        None
    } else if chars[i] == '&' && chars[i + 1] == '&' {
        Some(TokenKind::AndAnd)
    } else if chars[i] == '|' && chars[i + 1] == '|' {
        Some(TokenKind::OrOr)
    } else if chars[i] == '=' && chars[i + 1] == '>' {
        Some(TokenKind::FatArrow)
    } else if (chars[i] == '-' && chars[i + 1] == '>') || (chars[i] == ':' && chars[i + 1] == ':') {
        Some(TokenKind::Punct)
    } else {
        None
    }
}

fn single_at(c: char) -> (kind: TokenKind)
    ensures
        kind == single_kind(c),
{
    if c == '{' {
        TokenKind::OpenBrace
    } else if c == '}' {
        TokenKind::CloseBrace
    } else if c == '(' {
        TokenKind::OpenParen
    } else if c == ')' {
        TokenKind::CloseParen
    } else if c == ';' {
        TokenKind::Semi
    } else {
        TokenKind::Punct
    }
}

fn reserved_word(chars: &Vec<char>, from: usize, to: usize) -> (b: bool)
    requires
        from <= to <= chars.len(),
    ensures
        b == is_reserved(chars@.subrange(from as int, to as int)),
{
    range_is(chars, from, to, "as") || range_is(chars, from, to, "async") || range_is(
        chars,
        from,
        to,
        "await",
    ) || range_is(chars, from, to, "break") || range_is(chars, from, to, "const") || range_is(
        chars,
        from,
        to,
        "continue",
    ) || range_is(chars, from, to, "crate") || range_is(chars, from, to, "dyn") || range_is(
        chars,
        from,
        to,
        "else",
    ) || range_is(chars, from, to, "false") || range_is(chars, from, to, "impl") || range_is(
        chars,
        from,
        to,
        "in",
    ) || range_is(chars, from, to, "let") || range_is(chars, from, to, "move") || range_is(
        chars,
        from,
        to,
        "mut",
    ) || range_is(chars, from, to, "ref") || range_is(chars, from, to, "return") || range_is(
        chars,
        from,
        to,
        "self",
    ) || range_is(chars, from, to, "static") || range_is(chars, from, to, "super") || range_is(
        chars,
        from,
        to,
        "true",
    ) || range_is(chars, from, to, "type") || range_is(chars, from, to, "unsafe") || range_is(
        chars,
        from,
        to,
        "where",
    )
}

fn classify_word(chars: &Vec<char>, from: usize, to: usize) -> (kind: TokenKind)
    requires
        from <= to <= chars.len(),
    ensures
        kind == word_kind(chars@.subrange(from as int, to as int)),
{
    if range_is(chars, from, to, "fn") {
        TokenKind::Fn
    } else if range_is(chars, from, to, "pub") {
        TokenKind::Pub
    } else if range_is(chars, from, to, "struct") {
        TokenKind::Struct
    } else if range_is(chars, from, to, "enum") {
        TokenKind::Enum
    } else if range_is(chars, from, to, "trait") {
        TokenKind::Trait
    } else if range_is(chars, from, to, "use") {
        TokenKind::Use
    } else if range_is(chars, from, to, "mod") {
        TokenKind::Mod
    } else if range_is(chars, from, to, "if") {
        TokenKind::If
    } else if range_is(chars, from, to, "while") {
        TokenKind::While
    } else if range_is(chars, from, to, "for") {
        TokenKind::For
    } else if range_is(chars, from, to, "loop") {
        TokenKind::Loop
    } else if range_is(chars, from, to, "match") {
        TokenKind::Match
    } else if reserved_word(chars, from, to) {
        TokenKind::Keyword
    } else {
        TokenKind::Word
    }
}

/// The end and the kind of the lexeme that starts at `i`.
fn next_lexeme(chars: &Vec<char>, i: usize) -> (out: (usize, Option<TokenKind>))
    requires
        i < chars.len(),
    ensures
        out.0 == lexeme_end(chars@, i as int),
        out.1 == lexeme_kind(chars@, i as int),
        i < out.0 <= chars.len(),
{
    let n: usize = chars.len();
    let c: char = chars[i];
    if space_char(c) {
        (i + 1, None)
    } else if n - i >= 2 && c == '/' && chars[i + 1] == '/' {
        (scan_line(chars, i + 2), None)
    } else if n - i >= 2 && c == '/' && chars[i + 1] == '*' {
        (scan_block(chars, i + 2), None)
    } else if digit_char(c) {
        (scan_word(chars, i + 1), Some(TokenKind::Number))
    } else if word_start_char(c) {
        let end: usize = scan_word(chars, i + 1);
        (end, Some(classify_word(chars, i, end)))
    } else if c == '"' {
        (scan_string(chars, i + 1), Some(TokenKind::Text))
    } else {
        let lit: usize = if c == '\'' {
            char_literal(chars, i)
        } else {
            0
        };
        if lit > 0 {
            (i + lit, Some(TokenKind::Character))
        } else {
            let pair: Option<TokenKind> = pair_at(chars, i);
            if pair.is_some() {
                (i + 2, pair)
            } else {
                (i + 1, Some(single_at(c)))
            }
        }
    }
}

/// The words of `s` from position `i` on: its longest runs of word
/// characters.
pub open spec fn words_from(s: Seq<char>, i: int) -> Seq<Seq<char>>
    decreases s.len() - i,
{
    if i < 0 || i >= s.len() {
        Seq::empty()
    } else if is_word_char(s[i]) {
        let e = word_end(s, i + 1);
        if i < e <= s.len() {
            seq![s.subrange(i, e)] + words_from(s, e)
        } else {
            Seq::empty()
        }
    } else {
        words_from(s, i + 1)
    }
}

/// The words of a text.
pub open spec fn words_of(s: Seq<char>) -> Seq<Seq<char>> {
    words_from(s, 0)
}

/// The words of a text, in order.
pub fn words(text: &str) -> (out: Vec<String>)
    ensures
        out.deep_view() == words_of(text@),
{
    let chars: Vec<char> = chars_of(text);
    let mut out: Vec<String> = Vec::new();
    assert(out.deep_view() =~= Seq::<Seq<char>>::empty());
    let mut i: usize = 0;
    while i < chars.len()
        invariant
            i <= chars.len(),
            chars@ == text@,
            out.deep_view() + words_from(chars@, i as int) == words_of(text@),
        decreases chars.len() - i,
    {
        if word_char(chars[i]) {
            let end: usize = scan_word(&chars, i + 1);
            let word: String = string_of(&chars, i, end);
            let ghost before = out.deep_view();
            out.push(word);
            assert(out.deep_view() =~= before.push(word@));
            assert(before.push(word@) + words_from(chars@, end as int) =~= before + words_from(
                chars@,
                i as int,
            ));
            i = end;
        } else {
            i += 1;
        }
    }
    assert(words_from(chars@, i as int) =~= Seq::<Seq<char>>::empty());
    out
}

/// Splits a text into tokens.
pub fn tokenize(text: &str) -> (toks: Vec<Token>)
    ensures
        toks.deep_view() == tokens_of(text@),
{
    let chars: Vec<char> = chars_of(text);
    let mut toks: Vec<Token> = Vec::new();
    let mut i: usize = 0;
    let mut nl: usize = 0;
    assert(toks.deep_view() =~= Seq::<TokenModel>::empty());
    while i < chars.len()
        invariant
            i <= chars.len(),
            chars@ == text@,
            nl <= i,
            nl == newlines_before(chars@, i as int),
            toks.deep_view() + tokens_from(chars@, i as int) == tokens_of(text@),
        decreases chars.len() - i,
    {
        let (end, kind) = next_lexeme(&chars, i);
        match kind {
            Some(k) => {
                let t = Token { kind: k, text: string_of(&chars, i, end), line: nl + 1 };
                let ghost before = toks.deep_view();
                toks.push(t);
                assert(toks.deep_view() =~= before.push(t.deep_view()));
                assert(before.push(t.deep_view()) + tokens_from(chars@, end as int) =~= before
                    + tokens_from(chars@, i as int));
            },
            None => {},
        }
        while i < end
            invariant
                i <= end <= chars.len(),
                nl <= i,
                nl == newlines_before(chars@, i as int),
            decreases end - i,
        {
            if chars[i] == '\n' {
                nl += 1;
            }
            i += 1;
        }
    }
    assert(tokens_from(chars@, i as int) =~= Seq::<TokenModel>::empty());
    toks
}

} // verus!
