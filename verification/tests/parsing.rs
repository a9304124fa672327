use gravity::complexity::{complexity, score_all, score_function};
use gravity::lexer::{tokenize, words, Token, TokenKind};
use gravity::parser::{
    dir_name, extension, is_binary_text, module_name, parse_file, ParseWarning, WarningKind,
};
use gravity::text::{chars_of, count_lines, push_decimal, range_is, string_of, text_before};

fn kinds(text: &str) -> Vec<TokenKind> {
    tokenize(text).iter().map(|t| t.kind).collect()
}

fn texts(text: &str) -> Vec<String> {
    tokenize(text).iter().map(|t| t.text.clone()).collect()
}

#[test]
fn chars_and_strings_round_trip() {
    let chars = chars_of("héllo");
    assert_eq!(chars, vec!['h', 'é', 'l', 'l', 'o']);
    assert_eq!(string_of(&chars, 1, 4), "éll");
    assert_eq!(string_of(&chars, 2, 2), "");
    assert!(range_is(&chars, 2, 5, "llo"));
    assert!(!range_is(&chars, 2, 5, "ll"));
    assert!(!range_is(&chars, 0, 5, "hello"));
}

#[test]
fn line_counting() {
    assert_eq!(count_lines(&chars_of("")), 0);
    assert_eq!(count_lines(&chars_of("a")), 1);
    assert_eq!(count_lines(&chars_of("a\n")), 1);
    assert_eq!(count_lines(&chars_of("a\nb")), 2);
    assert_eq!(count_lines(&chars_of("a\nb\n")), 2);
    assert_eq!(count_lines(&chars_of("\n\n\n")), 3);
}

#[test]
fn text_order() {
    assert!(text_before("a", "b"));
    assert!(!text_before("b", "a"));
    assert!(text_before("ab", "abc"));
    assert!(!text_before("abc", "ab"));
    assert!(!text_before("abc", "abc"));
    assert!(text_before("", "a"));
    assert!(!text_before("", ""));
    assert!(text_before("file:a.rs", "file:b.rs"));
}

#[test]
fn decimal_numbers() {
    let mut s = String::from("n=");
    push_decimal(&mut s, 0);
    assert_eq!(s, "n=0");
    let mut s = String::new();
    push_decimal(&mut s, 7);
    assert_eq!(s, "7");
    let mut s = String::new();
    push_decimal(&mut s, 1204);
    assert_eq!(s, "1204");
    let mut s = String::new();
    push_decimal(&mut s, u64::MAX);
    assert_eq!(s, "18446744073709551615");
}

#[test]
fn lexer_kinds_of_words() {
    assert_eq!(
        kinds("fn pub struct enum trait use mod if while for loop match"),
        vec![
            TokenKind::Fn,
            TokenKind::Pub,
            TokenKind::Struct,
            TokenKind::Enum,
            TokenKind::Trait,
            TokenKind::Use,
            TokenKind::Mod,
            TokenKind::If,
            TokenKind::While,
            TokenKind::For,
            TokenKind::Loop,
            TokenKind::Match,
        ]
    );
    assert_eq!(
        kinds("let else return fnord _x x1 9lives"),
        vec![
            TokenKind::Keyword,
            TokenKind::Keyword,
            TokenKind::Keyword,
            TokenKind::Word,
            TokenKind::Word,
            TokenKind::Word,
            TokenKind::Number,
        ]
    );
}

#[test]
fn lexer_punctuation() {
    assert_eq!(
        kinds("{ } ( ) ; && || => & | = > :: -> :"),
        vec![
            TokenKind::OpenBrace,
            TokenKind::CloseBrace,
            TokenKind::OpenParen,
            TokenKind::CloseParen,
            TokenKind::Semi,
            TokenKind::AndAnd,
            TokenKind::OrOr,
            TokenKind::FatArrow,
            TokenKind::Punct,
            TokenKind::Punct,
            TokenKind::Punct,
            TokenKind::Punct,
            TokenKind::Punct,
            TokenKind::Punct,
            TokenKind::Punct,
        ]
    );
    assert_eq!(texts("a&&b=>c"), vec!["a", "&&", "b", "=>", "c"]);
    assert_eq!(texts("a::b->c:d-e"), vec!["a", "::", "b", "->", "c", ":", "d", "-", "e"]);
}

#[test]
fn lexer_drops_comments_and_keeps_lines() {
    let toks = tokenize("a // if {\nb /* while\n{ */ c\n\n  d");
    assert_eq!(
        toks,
        vec![
            Token { kind: TokenKind::Word, text: "a".into(), line: 1 },
            Token { kind: TokenKind::Word, text: "b".into(), line: 2 },
            Token { kind: TokenKind::Word, text: "c".into(), line: 3 },
            Token { kind: TokenKind::Word, text: "d".into(), line: 5 },
        ]
    );
    assert_eq!(tokenize("x /* never closed { if"), vec![Token {
        kind: TokenKind::Word,
        text: "x".into(),
        line: 1
    }]);
    assert_eq!(tokenize(""), vec![]);
    assert_eq!(tokenize("  \n\t "), vec![]);
}

#[test]
fn lexer_literals() {
    assert_eq!(
        tokenize("\"a { \\\" }\" x"),
        vec![
            Token { kind: TokenKind::Text, text: "\"a { \\\" }\"".into(), line: 1 },
            Token { kind: TokenKind::Word, text: "x".into(), line: 1 },
        ]
    );
    assert_eq!(kinds("'{' '\\n' 'a x"), vec![
        TokenKind::Character,
        TokenKind::Character,
        TokenKind::Punct,
        TokenKind::Word,
        TokenKind::Word,
    ]);
    assert_eq!(texts("'{' '\\n'"), vec!["'{'", "'\\n'"]);
    // a string that never ends runs to the end of the text
    assert_eq!(texts("a \"b c"), vec!["a", "\"b c"]);
    let toks = tokenize("\"one\ntwo\" z");
    assert_eq!(toks[1].line, 2);
}

#[test]
fn words_of_a_text() {
    assert_eq!(words("crate::graph::{build, Node}"), vec!["crate", "graph", "build", "Node"]);
    assert_eq!(words("  a_b-c9 "), vec!["a_b", "c9"]);
    assert_eq!(words("::"), Vec::<String>::new());
    assert_eq!(words(""), Vec::<String>::new());
}

#[test]
fn paths() {
    assert_eq!(module_name("src/graph/build.rs"), Some("build".to_string()));
    assert_eq!(module_name("main.rs"), Some("main".to_string()));
    assert_eq!(module_name("dir/archive.tar.gz"), Some("archive.tar".to_string()));
    assert_eq!(module_name("dir/.hidden"), Some(".hidden".to_string()));
    assert_eq!(module_name("dir/Makefile"), Some("Makefile".to_string()));
    assert_eq!(module_name("dir/"), None);
    assert_eq!(module_name(""), None);
    assert_eq!(dir_name("src/graph/build.rs"), "src/graph/");
    assert_eq!(dir_name("build.rs"), "");
    assert_eq!(extension("src/a.rs"), "rs");
    assert_eq!(extension("src.d/a"), "");
    assert_eq!(extension("a.tar.gz"), "gz");
    assert_eq!(extension("a."), "");
}

const SAMPLE: &str = "use crate::util;\nmod helpers;\n\npub struct Point { x: i32 }\nenum Shape { A, B }\n\npub fn alpha() {\n    if a && b {\n        beta();\n    }\n}\n\nfn beta() {}\n";

#[test]
fn parser_finds_declarations() {
    let file = parse_file("src/sample.rs", SAMPLE);
    assert_eq!(file.path, "src/sample.rs");
    assert_eq!(file.module_name, Some("sample".to_string()));
    assert_eq!(file.line_count, 13);
    assert_eq!(file.imports, vec!["crate::util".to_string(), "helpers".to_string()]);
    assert_eq!(file.warnings, vec![]);
    assert_eq!(file.types.len(), 2);
    assert_eq!(file.types[0].name, "Point");
    assert_eq!(file.types[0].line, 4);
    assert!(file.types[0].is_public);
    assert_eq!(file.types[1].name, "Shape");
    assert!(!file.types[1].is_public);
    assert_eq!(file.functions.len(), 2);
    let alpha = &file.functions[0];
    assert_eq!(alpha.name, "alpha");
    assert_eq!(alpha.signature, "fn alpha ( )");
    assert_eq!(alpha.file_path, "src/sample.rs");
    assert_eq!((alpha.line_start, alpha.line_end), (7, 11));
    assert!(alpha.is_public);
    assert_eq!(alpha.body.len(), 10);
    assert_eq!(alpha.body[0].kind, TokenKind::If);
    let beta = &file.functions[1];
    assert_eq!(beta.name, "beta");
    assert_eq!((beta.line_start, beta.line_end), (13, 13));
    assert!(!beta.is_public);
    assert_eq!(beta.body.len(), 0);
}

#[test]
fn parser_nested_functions_and_braces() {
    let text = "fn outer() {\n    let s = S { a: 1 };\n    fn inner() {\n        {}\n    }\n}\nfn decl();\n";
    let file = parse_file("n.rs", text);
    assert_eq!(file.functions.len(), 2);
    assert_eq!(file.functions[0].name, "outer");
    assert_eq!((file.functions[0].line_start, file.functions[0].line_end), (1, 6));
    assert_eq!(file.functions[1].name, "inner");
    assert_eq!(file.functions[1].signature, "fn inner ( )");
    let typed = parse_file("t.rs", "pub fn  area(w: u32,\n  h: u32) -> u32 where Self: Sized { w * h }");
    assert_eq!(typed.functions[0].signature, "fn area ( w : u32 , h : u32 ) -> u32 where Self : Sized");
    assert_eq!((file.functions[1].line_start, file.functions[1].line_end), (3, 5));
    assert_eq!(file.warnings, vec![]);
}

#[test]
fn braces_in_literals_and_comments_do_not_count() {
    let text = "fn f() {\n    let s = \"}\";\n    let c = '}';\n    // }\n    /* } */\n    g();\n}\nfn g() {}\n";
    let file = parse_file("q.rs", text);
    assert_eq!(file.functions.len(), 2);
    assert_eq!((file.functions[0].line_start, file.functions[0].line_end), (1, 7));
    assert_eq!((file.functions[1].line_start, file.functions[1].line_end), (8, 8));
    assert_eq!(file.warnings, vec![]);
}

#[test]
fn parser_public_marks() {
    let file = parse_file(
        "p.rs",
        "pub async fn a() {}\npub(crate) fn b() {}\nasync fn c() {}\npub unsafe fn d() {}\n",
    );
    let marks: Vec<bool> = file.functions.iter().map(|f| f.is_public).collect();
    assert_eq!(marks, vec![true, false, false, true]);
}

#[test]
fn parser_recovers_from_broken_fragments() {
    // the body of `broken` is never closed: it is skipped with a warning,
    // and the function before it is kept
    let text = "fn fine() { 1 }\nfn broken() {\n    if x {\n";
    let file = parse_file("b.rs", text);
    assert_eq!(file.line_count, 3);
    assert_eq!(file.functions.len(), 1);
    assert_eq!(file.functions[0].name, "fine");
    assert_eq!(file.warnings, vec![ParseWarning { kind: WarningKind::UnclosedBody, line: 2 }]);
}

#[test]
fn parser_rejects_duplicates() {
    let text = "fn f() { 1 }\nfn f() { if a {} }\nstruct S;\nstruct S;\nuse ;\nuse never_ends";
    let file = parse_file("d.rs", text);
    assert_eq!(file.functions.len(), 1);
    assert_eq!(file.functions[0].line_start, 1);
    assert_eq!(file.types.len(), 1);
    assert_eq!(file.imports, Vec::<String>::new());
    assert_eq!(
        file.warnings,
        vec![
            ParseWarning { kind: WarningKind::DuplicateFunction, line: 2 },
            ParseWarning { kind: WarningKind::DuplicateType, line: 4 },
            ParseWarning { kind: WarningKind::BrokenImport, line: 5 },
            ParseWarning { kind: WarningKind::BrokenImport, line: 6 },
        ]
    );
}

#[test]
fn parser_binary_file() {
    let text = "fn f() {}\n\0\u{1}\nfn g() {}\n";
    assert!(is_binary_text(text));
    assert!(!is_binary_text("fn f() {}"));
    let file = parse_file("blob.bin", text);
    assert_eq!(file.line_count, 3);
    assert_eq!(file.functions.len(), 0);
    assert_eq!(file.types.len(), 0);
    assert_eq!(file.imports.len(), 0);
    assert_eq!(file.warnings, vec![ParseWarning { kind: WarningKind::BinaryContent, line: 0 }]);
}

#[test]
fn parser_empty_file() {
    let file = parse_file("empty.rs", "");
    assert_eq!(file.line_count, 0);
    assert_eq!(file.functions.len(), 0);
    assert_eq!(file.warnings, vec![]);
}

fn score(body: &str) -> usize {
    complexity(&tokenize(body))
}

#[test]
fn score_of_straight_line_code_is_one() {
    assert_eq!(score(""), 1);
    assert_eq!(score("let x = a + b; return x;"), 1);
    // `&&` outside a condition and `=>` without a `match` do not branch
    assert_eq!(score("let x = a && b || c; let f = x => y;"), 1);
    assert_eq!(score("{ { { call(); } } }"), 1);
}

#[test]
fn score_counts_branches() {
    assert_eq!(score("if x { }"), 2);
    assert_eq!(score("if x { } else if y { }"), 3);
    assert_eq!(score("while x { } for i in y { } loop { }"), 4);
    assert_eq!(score("if a && b || c { }"), 4);
    assert_eq!(score("if a { b && c; }"), 2);
}

#[test]
fn score_adds_nesting() {
    // the inner `if` stands inside one brace: 1 + 1 for it
    assert_eq!(score("if a { if b { } }"), 1 + 1 + 2);
    assert_eq!(score("if a { if b { if c { } } }"), 1 + 1 + 2 + 3);
    assert_eq!(score("{ if a { } }"), 1 + 2);
    // more closing than opening braces: the depth stays at the top
    assert_eq!(score("} } if a { }"), 2);
}

#[test]
fn score_counts_arms_after_the_first() {
    assert_eq!(score("match x { A => 1 }"), 1);
    // arms stand inside the braces of the match: 1 + 1 each
    assert_eq!(score("match x { A => 1, B => 2, C => 3 }"), 1 + 2 + 2);
    assert_eq!(score("match x { A if g && h => 1, B => 2 }"), 1 + 2 + 2 + 2);
}

#[test]
fn score_records() {
    let file = parse_file("src/sample.rs", SAMPLE);
    let item = score_function(&file.functions[0]);
    assert_eq!(item.function_name, "alpha");
    assert_eq!(item.file_path, "src/sample.rs");
    assert_eq!(item.score, 3);
    assert_eq!((item.line_start, item.line_end), (7, 11));
    let other = parse_file("o.rs", "fn z() { loop {} }");
    let items = score_all(&vec![file, other]);
    let got: Vec<(String, i32)> =
        items.iter().map(|i| (i.function_name.clone(), i.score)).collect();
    assert_eq!(got, vec![
        ("alpha".to_string(), 3),
        ("beta".to_string(), 1),
        ("z".to_string(), 2)
    ]);
}
