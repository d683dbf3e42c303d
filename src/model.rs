use vstd::prelude::*;

verus! {

/// What a token holds, with its text as a sequence of characters.
pub enum Lexeme {
    LeftParen,
    RightParen,
    LeftBrace,
    RightBrace,
    Plus,
    PlusPlus,
    Minus,
    MinusMinus,
    Star,
    Slash,
    Semicolon,
    Dot,
    Bang,
    BangEqual,
    Equal,
    EqualEqual,
    Greater,
    GreaterEqual,
    Less,
    LessEqual,
    Arrow,
    String(Seq<char>),
    Number(Seq<char>),
    Character(Seq<char>),
    Identifier(Seq<char>),
    Eof,
}

/// A fault that stops scanning; `line` is the line counter when it was found.
#[derive(Debug, Clone, Copy, PartialEq, Eq)]
pub enum ScanError {
    UnrecognizedCharacter { ch: char, line: usize },
    UnterminatedStringLiteral { line: usize },
    InvalidEscapeSequence { ch: char, line: usize },
    UnterminatedBlockComment { line: usize },
}

/// The outcome of one scan step from a cursor position and a line counter.
pub enum Step {
    Token { kind: Lexeme, line: int, next: int, next_line: int },
    Fault(ScanError),
}

pub open spec fn is_letter(c: char) -> bool {
    ('a' <= c && c <= 'z') || ('A' <= c && c <= 'Z')
}

pub open spec fn is_digit(c: char) -> bool {
    '0' <= c && c <= '9'
}

pub open spec fn is_alnum(c: char) -> bool {
    is_letter(c) || is_digit(c)
}

/// The character at `i`, or NUL past either end.
pub open spec fn char_at(s: Seq<char>, i: int) -> char {
    if 0 <= i < s.len() {
        s[i]
    } else {
        '\0'
    }
}

/// Whitespace that the scanner skips silently or counts as a line break.
pub open spec fn is_blank(c: char) -> bool {
    c == ' ' || c == '\r' || c == '\t' || c == '\n'
}

pub open spec fn newline_count(s: Seq<char>) -> nat
    decreases s.len(),
{
    if s.len() == 0 {
        0
    } else {
        (if s[0] == '\n' { 1nat } else { 0nat }) + newline_count(s.drop_first())
    }
}

/// Skips whitespace and comments from `pos`; gives the first position of a
/// lexeme and the line there, or the line at which an unclosed block comment
/// ran into the end.
pub open spec fn skip(s: Seq<char>, pos: int, line: int) -> Result<(int, int), int>
    decreases s.len() - pos, 0int,
{
    if pos < 0 || pos >= s.len() {
        Ok((pos, line))
    } else if s[pos] == ' ' || s[pos] == '\r' || s[pos] == '\t' {
        skip(s, pos + 1, line)
    } else if s[pos] == '\n' {
        skip(s, pos + 1, line + 1)
    } else if s[pos] == '/' && char_at(s, pos + 1) == '/' {
        skip_line_comment(s, pos + 2, line)
    } else if s[pos] == '/' && char_at(s, pos + 1) == '*' {
        skip_block_comment(s, pos + 2, line)
    } else {
        Ok((pos, line))
    }
}

/// Inside a `//` comment: runs up to the newline, which is left to `skip`.
pub open spec fn skip_line_comment(s: Seq<char>, pos: int, line: int) -> Result<(int, int), int>
    decreases s.len() - pos, 1int,
{
    if pos < 0 || pos >= s.len() || s[pos] == '\n' {
        skip(s, pos, line)
    } else {
        skip_line_comment(s, pos + 1, line)
    }
}

/// Inside a `/* */` comment: counts newlines up to the closing `*/`.
pub open spec fn skip_block_comment(s: Seq<char>, pos: int, line: int) -> Result<(int, int), int>
    decreases s.len() - pos, 1int,
{
    if pos < 0 || pos >= s.len() {
        Err(line)
    } else if s[pos] == '*' && char_at(s, pos + 1) == '/' {
        skip(s, pos + 2, line)
    } else if s[pos] == '\n' {
        skip_block_comment(s, pos + 1, line + 1)
    } else {
        skip_block_comment(s, pos + 1, line)
    }
}

/// End of the maximal run of ASCII letters and digits from `pos`.
pub open spec fn alnum_run(s: Seq<char>, pos: int) -> int
    decreases s.len() - pos,
{
    if 0 <= pos < s.len() && is_alnum(s[pos]) {
        alnum_run(s, pos + 1)
    } else {
        pos
    }
}

/// End of the maximal run of ASCII digits from `pos`.
pub open spec fn digit_run(s: Seq<char>, pos: int) -> int
    decreases s.len() - pos,
{
    if 0 <= pos < s.len() && is_digit(s[pos]) {
        digit_run(s, pos + 1)
    } else {
        pos
    }
}

/// The character that an escape code stands for, if it is one.
pub open spec fn escape_of(c: char) -> Option<char> {
    if c == 'a' {
        Some('\x07')
    } else if c == 'b' {
        Some('\x08')
    } else if c == 'e' {
        Some('\x1b')
    } else if c == 'f' {
        Some('\x0c')
    } else if c == 'n' {
        Some('\n')
    } else if c == 'r' {
        Some('\r')
    } else if c == 't' {
        Some('\t')
    } else if c == 'v' {
        Some('\x0b')
    } else if c == '\\' {
        Some('\\')
    } else if c == '\'' {
        Some('\'')
    } else if c == '"' {
        Some('"')
    } else if c == '?' {
        Some('?')
    } else {
        None
    }
}

/// The body of a string literal from `pos` (just past the opening quote or a
/// part already read into `text`): its resolved text, the position past the
/// closing quote and the line there.
pub open spec fn string_body(s: Seq<char>, pos: int, line: int, text: Seq<char>) -> Result<
    (Seq<char>, int, int),
    ScanError,
>
    decreases s.len() - pos,
{
    if pos < 0 || pos >= s.len() {
        Err(ScanError::UnterminatedStringLiteral { line: line as usize })
    } else if s[pos] == '"' {
        Ok((text, pos + 1, line))
    } else if s[pos] == '\\' {
        if pos + 1 >= s.len() {
            Err(ScanError::UnterminatedStringLiteral { line: line as usize })
        } else {
            match escape_of(s[pos + 1]) {
                Some(e) => string_body(s, pos + 2, line, text.push(e)),
                None => Err(ScanError::InvalidEscapeSequence { ch: s[pos + 1], line: line as usize }),
            }
        }
    } else if s[pos] == '\n' {
        string_body(s, pos + 1, line + 1, text.push('\n'))
    } else {
        string_body(s, pos + 1, line, text.push(s[pos]))
    }
}

/// An operator or punctuation mark that starts with `c` when `next` follows
/// it, with its length.
pub open spec fn operator(c: char, next: char) -> Option<(Lexeme, int)> {
    if c == '(' {
        Some((Lexeme::LeftParen, 1))
    } else if c == ')' {
        Some((Lexeme::RightParen, 1))
    } else if c == '{' {
        Some((Lexeme::LeftBrace, 1))
    } else if c == '}' {
        Some((Lexeme::RightBrace, 1))
    } else if c == '+' {
        if next == '+' {
            Some((Lexeme::PlusPlus, 2))
        } else {
            Some((Lexeme::Plus, 1))
        }
    } else if c == '-' {
        if next == '-' {
            Some((Lexeme::MinusMinus, 2))
        } else if next == '>' {
            Some((Lexeme::Arrow, 2))
        } else {
            Some((Lexeme::Minus, 1))
        }
    } else if c == '*' {
        Some((Lexeme::Star, 1))
    } else if c == '/' {
        Some((Lexeme::Slash, 1))
    } else if c == '.' {
        Some((Lexeme::Dot, 1))
    } else if c == ';' {
        Some((Lexeme::Semicolon, 1))
    } else if c == '!' {
        if next == '=' {
            Some((Lexeme::BangEqual, 2))
        } else {
            Some((Lexeme::Bang, 1))
        }
    } else if c == '=' {
        if next == '=' {
            Some((Lexeme::EqualEqual, 2))
        } else {
            Some((Lexeme::Equal, 1))
        }
    } else if c == '<' {
        if next == '=' {
            Some((Lexeme::LessEqual, 2))
        } else {
            Some((Lexeme::Less, 1))
        }
    } else if c == '>' {
        if next == '=' {
            Some((Lexeme::GreaterEqual, 2))
        } else {
            Some((Lexeme::Greater, 1))
        }
    } else {
        None
    }
}

/// One lexeme read at `pos`, where skipping has stopped.
pub open spec fn lexeme_at(s: Seq<char>, pos: int, line: int) -> Step {
    if pos >= s.len() {
        Step::Token { kind: Lexeme::Eof, line, next: pos, next_line: line }
    } else if is_letter(s[pos]) {
        let end = alnum_run(s, pos + 1);
        Step::Token { kind: Lexeme::Identifier(s.subrange(pos, end)), line, next: end, next_line: line }
    } else if is_digit(s[pos]) {
        let end = digit_run(s, pos + 1);
        Step::Token { kind: Lexeme::Number(s.subrange(pos, end)), line, next: end, next_line: line }
    } else if s[pos] == '"' {
        match string_body(s, pos + 1, line, Seq::empty()) {
            Ok((text, end, end_line)) => Step::Token {
                kind: Lexeme::String(text),
                line,
                next: end,
                next_line: end_line,
            },
            Err(e) => Step::Fault(e),
        }
    } else {
        match operator(s[pos], char_at(s, pos + 1)) {
            Some((kind, n)) => Step::Token { kind, line, next: pos + n, next_line: line },
            None => Step::Fault(ScanError::UnrecognizedCharacter { ch: s[pos], line: line as usize }),
        }
    }
}

/// One scan step: skip whitespace and comments, then read one lexeme.
pub open spec fn scan_step(s: Seq<char>, pos: int, line: int) -> Step {
    match skip(s, pos, line) {
        Ok((start, start_line)) => lexeme_at(s, start, start_line),
        Err(l) => Step::Fault(ScanError::UnterminatedBlockComment { line: l as usize }),
    }
}

proof fn lemma_skip_blank(s: Seq<char>, pos: int, line: int)
    requires
        0 <= pos <= s.len(),
        forall|i: int| 0 <= i < s.len() ==> is_blank(#[trigger] s[i]),
    ensures
        skip(s, pos, line) == Ok::<(int, int), int>(
            (s.len() as int, line + newline_count(s.subrange(pos, s.len() as int))),
        ),
    decreases s.len() - pos,
{
    if pos < s.len() {
        lemma_skip_blank(s, pos + 1, if s[pos] == '\n' { line + 1 } else { line });
        assert(s.subrange(pos, s.len() as int).drop_first() =~= s.subrange(pos + 1, s.len() as int));
    } else {
        assert(s.subrange(pos, s.len() as int) =~= Seq::<char>::empty());
    }
}

/// Input made only of spaces, tabs, carriage returns and newlines scans to a
/// single end-of-input token, on line one plus the number of newlines.
pub proof fn lemma_blank_input_is_eof(s: Seq<char>)
    requires
        forall|i: int| 0 <= i < s.len() ==> is_blank(#[trigger] s[i]),
    ensures
        scan_step(s, 0, 1) == (Step::Token {
            kind: Lexeme::Eof,
            line: 1 + newline_count(s) as int,
            next: s.len() as int,
            next_line: 1 + newline_count(s) as int,
        }),
{
    lemma_skip_blank(s, 0, 1);
    assert(s.subrange(0, s.len() as int) =~= s);
}

/// Once a step has given end-of-input, every later step gives it again,
/// from the same position and line.
pub proof fn lemma_end_of_input_is_stable(s: Seq<char>, pos: int, line: int)
    requires
        0 <= pos,
        scan_step(s, pos, line) matches Step::Token { kind: Lexeme::Eof, .. },
    ensures
        match scan_step(s, pos, line) {
            Step::Token { next, next_line, .. } => scan_step(s, next, next_line) == scan_step(
                s,
                pos,
                line,
            ),
            Step::Fault(_) => false,
        },
{
}

} // verus!
