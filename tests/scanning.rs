use c_scanner::model::ScanError;
use c_scanner::scanner::{Scanner, Token, TokenKind};

fn chars(src: &str) -> Vec<char> {
    src.chars().collect()
}

fn scan_all(src: &str) -> Vec<Token> {
    let input = chars(src);
    let mut scanner = Scanner::new(&input, "test.c".to_string());
    let mut out = Vec::new();
    loop {
        let token = scanner.scan_one().expect("scan fault");
        let done = token.kind == TokenKind::Eof;
        out.push(token);
        if done {
            return out;
        }
    }
}

fn kinds(src: &str) -> Vec<TokenKind> {
    scan_all(src).into_iter().map(|t| t.kind).collect()
}

fn first_error(src: &str) -> ScanError {
    let input = chars(src);
    let mut scanner = Scanner::new(&input, "test.c".to_string());
    loop {
        match scanner.scan_one() {
            Ok(token) => assert_ne!(token.kind, TokenKind::Eof, "no fault in {:?}", src),
            Err(e) => return e,
        }
    }
}

fn ident(s: &str) -> TokenKind {
    TokenKind::Identifier(s.to_string())
}

#[test]
fn blank_input_gives_one_eof_on_first_line() {
    let tokens = scan_all("  \t\r ");
    assert_eq!(tokens.len(), 1);
    assert_eq!(tokens[0].kind, TokenKind::Eof);
    assert_eq!(tokens[0].line, 1);
}

#[test]
fn blank_input_counts_newlines() {
    let tokens = scan_all(" \n\t\n\r\n ");
    assert_eq!(tokens.len(), 1);
    assert_eq!(tokens[0].kind, TokenKind::Eof);
    assert_eq!(tokens[0].line, 4);
}

#[test]
fn empty_input_gives_eof() {
    let tokens = scan_all("");
    assert_eq!(tokens.len(), 1);
    assert_eq!(tokens[0].kind, TokenKind::Eof);
    assert_eq!(tokens[0].line, 1);
}

#[test]
fn declaration_statement() {
    assert_eq!(
        kinds("int test = 1 + 1;"),
        vec![
            ident("int"),
            ident("test"),
            TokenKind::Equal,
            TokenKind::Number("1".to_string()),
            TokenKind::Plus,
            TokenKind::Number("1".to_string()),
            TokenKind::Semicolon,
            TokenKind::Eof,
        ]
    );
}

#[test]
fn comparison_operators_are_not_split() {
    assert_eq!(
        kinds("a == b != c <= d >= e"),
        vec![
            ident("a"),
            TokenKind::EqualEqual,
            ident("b"),
            TokenKind::BangEqual,
            ident("c"),
            TokenKind::LessEqual,
            ident("d"),
            TokenKind::GreaterEqual,
            ident("e"),
            TokenKind::Eof,
        ]
    );
}

#[test]
fn increment_decrement_and_arrow() {
    assert_eq!(
        kinds("++x; --y; p->q;"),
        vec![
            TokenKind::PlusPlus,
            ident("x"),
            TokenKind::Semicolon,
            TokenKind::MinusMinus,
            ident("y"),
            TokenKind::Semicolon,
            ident("p"),
            TokenKind::Arrow,
            ident("q"),
            TokenKind::Semicolon,
            TokenKind::Eof,
        ]
    );
}

#[test]
fn single_character_operators() {
    assert_eq!(
        kinds("( ) { } + - * / . ; ! = < >"),
        vec![
            TokenKind::LeftParen,
            TokenKind::RightParen,
            TokenKind::LeftBrace,
            TokenKind::RightBrace,
            TokenKind::Plus,
            TokenKind::Minus,
            TokenKind::Star,
            TokenKind::Slash,
            TokenKind::Dot,
            TokenKind::Semicolon,
            TokenKind::Bang,
            TokenKind::Equal,
            TokenKind::Less,
            TokenKind::Greater,
            TokenKind::Eof,
        ]
    );
}

#[test]
fn operator_at_end_of_input() {
    assert_eq!(kinds("x-"), vec![ident("x"), TokenKind::Minus, TokenKind::Eof]);
    assert_eq!(kinds("!"), vec![TokenKind::Bang, TokenKind::Eof]);
}

#[test]
fn identifiers_and_numbers_are_maximal() {
    assert_eq!(
        kinds("abc12 345x 3.14"),
        vec![
            ident("abc12"),
            TokenKind::Number("345".to_string()),
            ident("x"),
            TokenKind::Number("3".to_string()),
            TokenKind::Dot,
            TokenKind::Number("14".to_string()),
            TokenKind::Eof,
        ]
    );
}

#[test]
fn escape_newline_is_resolved() {
    assert_eq!(
        kinds("\"a\\nb\""),
        vec![TokenKind::String("a\nb".to_string()), TokenKind::Eof]
    );
}

#[test]
fn every_escape_is_resolved() {
    assert_eq!(
        kinds("\"\\a\\b\\e\\f\\n\\r\\t\\v\\\\\\'\\\"\\?\""),
        vec![
            TokenKind::String("\x07\x08\x1b\x0c\n\r\t\x0b\\'\"?".to_string()),
            TokenKind::Eof,
        ]
    );
}

#[test]
fn multi_line_string_keeps_its_opening_line() {
    let tokens = scan_all("x \"line1\nline2\" y");
    assert_eq!(tokens[0].kind, ident("x"));
    assert_eq!(tokens[0].line, 1);
    assert_eq!(tokens[1].kind, TokenKind::String("line1\nline2".to_string()));
    assert_eq!(tokens[1].line, 1);
    assert_eq!(tokens[2].kind, ident("y"));
    assert_eq!(tokens[2].line, 2);
    assert_eq!(tokens[3].kind, TokenKind::Eof);
}

#[test]
fn line_comment_is_skipped() {
    let tokens = scan_all("// comment\nx");
    assert_eq!(tokens.len(), 2);
    assert_eq!(tokens[0].kind, ident("x"));
    assert_eq!(tokens[0].line, 2);
    assert_eq!(tokens[1].kind, TokenKind::Eof);
}

#[test]
fn line_comment_at_end_of_input() {
    assert_eq!(kinds("a // trailing"), vec![ident("a"), TokenKind::Eof]);
}

#[test]
fn block_comment_counts_its_newlines() {
    let tokens = scan_all("/* a\nb */y");
    assert_eq!(tokens.len(), 2);
    assert_eq!(tokens[0].kind, ident("y"));
    assert_eq!(tokens[0].line, 2);
    assert_eq!(tokens[1].kind, TokenKind::Eof);
}

#[test]
fn slash_alone_is_an_operator() {
    assert_eq!(
        kinds("a / b"),
        vec![ident("a"), TokenKind::Slash, ident("b"), TokenKind::Eof]
    );
}

#[test]
fn eof_repeats_without_moving() {
    let input = chars("x");
    let mut scanner = Scanner::new(&input, "test.c".to_string());
    assert_eq!(scanner.scan_one().unwrap().kind, ident("x"));
    for _ in 0..5 {
        let token = scanner.scan_one().unwrap();
        assert_eq!(token.kind, TokenKind::Eof);
        assert_eq!(token.line, 1);
    }
}

#[test]
fn unrecognized_character_is_a_fault() {
    assert_eq!(
        first_error("a\n@"),
        ScanError::UnrecognizedCharacter { ch: '@', line: 2 }
    );
}

#[test]
fn unterminated_string_is_a_fault() {
    assert_eq!(
        first_error("\"abc\ndef"),
        ScanError::UnterminatedStringLiteral { line: 2 }
    );
}

#[test]
fn backslash_at_end_is_unterminated() {
    assert_eq!(
        first_error("\"abc\\"),
        ScanError::UnterminatedStringLiteral { line: 1 }
    );
}

#[test]
fn unknown_escape_is_a_fault() {
    assert_eq!(
        first_error("\"a\\qb\""),
        ScanError::InvalidEscapeSequence { ch: 'q', line: 1 }
    );
}

#[test]
fn unterminated_block_comment_is_a_fault() {
    assert_eq!(
        first_error("x /* never\nclosed"),
        ScanError::UnterminatedBlockComment { line: 2 }
    );
}

#[test]
fn file_path_is_kept() {
    let input = chars("x");
    let scanner = Scanner::new(&input, "main.c".to_string());
    assert_eq!(scanner.file_path(), "main.c");
}

#[test]
fn program_scans_with_lines() {
    let tokens = scan_all("int main() {\n  printf(\"Hi\");\n}\n");
    let lines: Vec<usize> = tokens.iter().map(|t| t.line).collect();
    assert_eq!(lines, vec![1, 1, 1, 1, 1, 2, 2, 2, 2, 2, 3, 4]);
    assert_eq!(tokens[7].kind, TokenKind::String("Hi".to_string()));
}
