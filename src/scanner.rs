use vstd::prelude::*;
use crate::model::{
    Lexeme, ScanError, Step, alnum_run, char_at, digit_run, escape_of, is_alnum, is_digit,
    is_letter, operator, scan_step, skip, skip_block_comment, skip_line_comment, string_body,
};

verus! {

#[derive(Debug, PartialEq, Eq)]
pub enum TokenKind {
    LeftParen,
    RightParen,
    LeftBrace,
    RightBrace,
    Plus,
    PlusPlus,
    Minus,
    MinusMinus,
    Star,
    Slash,
    Semicolon,
    Dot,
    Bang,
    BangEqual,
    Equal,
    EqualEqual,
    Greater,
    GreaterEqual,
    Less,
    LessEqual,
    Arrow,
    String(String),
    Number(String),
    Character(String),
    Identifier(String),
    Eof,
}

impl View for TokenKind {
    type V = Lexeme;

    open spec fn view(&self) -> Lexeme {
        match self {
            TokenKind::LeftParen => Lexeme::LeftParen,
            TokenKind::RightParen => Lexeme::RightParen,
            TokenKind::LeftBrace => Lexeme::LeftBrace,
            TokenKind::RightBrace => Lexeme::RightBrace,
            TokenKind::Plus => Lexeme::Plus,
            TokenKind::PlusPlus => Lexeme::PlusPlus,
            TokenKind::Minus => Lexeme::Minus,
            TokenKind::MinusMinus => Lexeme::MinusMinus,
            TokenKind::Star => Lexeme::Star,
            TokenKind::Slash => Lexeme::Slash,
            TokenKind::Semicolon => Lexeme::Semicolon,
            TokenKind::Dot => Lexeme::Dot,
            TokenKind::Bang => Lexeme::Bang,
            TokenKind::BangEqual => Lexeme::BangEqual,
            TokenKind::Equal => Lexeme::Equal,
            TokenKind::EqualEqual => Lexeme::EqualEqual,
            TokenKind::Greater => Lexeme::Greater,
            TokenKind::GreaterEqual => Lexeme::GreaterEqual,
            TokenKind::Less => Lexeme::Less,
            TokenKind::LessEqual => Lexeme::LessEqual,
            TokenKind::Arrow => Lexeme::Arrow,
            TokenKind::String(t) => Lexeme::String(t@),
            TokenKind::Number(t) => Lexeme::Number(t@),
            TokenKind::Character(t) => Lexeme::Character(t@),
            TokenKind::Identifier(t) => Lexeme::Identifier(t@),
            TokenKind::Eof => Lexeme::Eof,
        }
    }
}

#[derive(Debug)]
pub struct Token {
    pub kind: TokenKind,
    pub line: usize,
}

pub struct Scanner<'a> {
    stream: &'a [char],
    file_path: String,
    start: usize,
    current: usize,
    line: usize,
}

/// Relies on String::push: appends one character at the end.
#[verifier::external_body]
fn push_char(s: &mut String, c: char)
    ensures
        final(s)@ == old(s)@.push(c),
{
    s.push(c);
}

fn letter(c: char) -> (r: bool)
    ensures
        r == is_letter(c),
{
    ('a' <= c && c <= 'z') || ('A' <= c && c <= 'Z')
}

fn digit(c: char) -> (r: bool)
    ensures
        r == is_digit(c),
{
    '0' <= c && c <= '9'
}

fn resolve_escape(c: char) -> (r: Option<char>)
    ensures
        r == escape_of(c),
{
    match c {
        'a' => Some('\x07'),
        'b' => Some('\x08'),
        'e' => Some('\x1b'),
        'f' => Some('\x0c'),
        'n' => Some('\n'),
        'r' => Some('\r'),
        't' => Some('\t'),
        'v' => Some('\x0b'),
        '\\' => Some('\\'),
        '\'' => Some('\''),
        '"' => Some('"'),
        '?' => Some('?'),
        _ => None,
    }
}

impl<'a> Scanner<'a> {
    /// The characters being scanned.
    pub closed spec fn source(&self) -> Seq<char> {
        self.stream@
    }

    /// The index of the next unread character.
    pub closed spec fn pos(&self) -> int {
        self.current as int
    }

    /// The current line counter.
    pub closed spec fn line_no(&self) -> int {
        self.line as int
    }

    /// The label given for diagnostics.
    pub closed spec fn label(&self) -> Seq<char> {
        self.file_path@
    }

    /// The cursors stay within the stream, and the line counter has grown by
    /// at most one for each character read.
    pub closed spec fn wf(&self) -> bool {
        &&& self.start <= self.current <= self.stream@.len()
        &&& 1 <= self.line <= self.current + 1
        &&& self.stream@.len() < usize::MAX
    }

    pub fn new(stream: &'a [char], file_path: String) -> (r: Scanner<'a>)
        requires
            stream@.len() < usize::MAX,
        ensures
            r.wf(),
            r.source() == stream@,
            r.pos() == 0,
            r.line_no() == 1,
            r.label() == file_path@,
    {
        Scanner { stream, file_path, start: 0, current: 0, line: 1 }
    }

    /// The label given for diagnostics.
    pub fn file_path(&self) -> (r: &str)
        ensures
            r@ == self.label(),
    {
        self.file_path.as_str()
    }

    /// Reads the next token, skipping whitespace and comments before it.
    /// At the end of the stream it gives `Eof` and leaves the state as it is.
    pub fn scan_one(&mut self) -> (r: Result<Token, ScanError>)
        requires
            old(self).wf(),
        ensures
            final(self).wf(),
            final(self).source() == old(self).source(),
            final(self).label() == old(self).label(),
            old(self).pos() <= final(self).pos(),
            old(self).line_no() <= final(self).line_no(),
            match scan_step(old(self).source(), old(self).pos(), old(self).line_no()) {
                Step::Token { kind, line, next, next_line } => {
                    &&& r is Ok
                    &&& r->Ok_0.kind@ == kind
                    &&& r->Ok_0.line == line
                    &&& final(self).pos() == next
                    &&& final(self).line_no() == next_line
                },
                Step::Fault(e) => r == Err::<Token, ScanError>(e),
            },
    {
        let sk = self.skip_whitespace();
        if let Err(e) = sk {
            return Err(e);
        }
        self.start = self.current;
        let line = self.line;
        if self.is_at_end() {
            return Ok(self.new_token(TokenKind::Eof));
        }
        let c = self.advance();
        if letter(c) {
            return Ok(self.identifier(c));
        }
        if digit(c) {
            return Ok(self.number(c));
        }
        match c {
            '(' => Ok(self.new_token(TokenKind::LeftParen)),
            ')' => Ok(self.new_token(TokenKind::RightParen)),
            '{' => Ok(self.new_token(TokenKind::LeftBrace)),
            '}' => Ok(self.new_token(TokenKind::RightBrace)),
            '+' => {
                if self.match_char('+') {
                    Ok(self.new_token(TokenKind::PlusPlus))
                } else {
                    Ok(self.new_token(TokenKind::Plus))
                }
            },
            '-' => {
                if self.match_char('-') {
                    Ok(self.new_token(TokenKind::MinusMinus))
                } else if self.match_char('>') {
                    Ok(self.new_token(TokenKind::Arrow))
                } else {
                    Ok(self.new_token(TokenKind::Minus))
                }
            },
            '*' => Ok(self.new_token(TokenKind::Star)),
            '/' => Ok(self.new_token(TokenKind::Slash)),
            '.' => Ok(self.new_token(TokenKind::Dot)),
            ';' => Ok(self.new_token(TokenKind::Semicolon)),
            '!' => {
                if self.match_char('=') {
                    Ok(self.new_token(TokenKind::BangEqual))
                } else {
                    Ok(self.new_token(TokenKind::Bang))
                }
            },
            '=' => {
                if self.match_char('=') {
                    Ok(self.new_token(TokenKind::EqualEqual))
                } else {
                    Ok(self.new_token(TokenKind::Equal))
                }
            },
            '<' => {
                if self.match_char('=') {
                    Ok(self.new_token(TokenKind::LessEqual))
                } else {
                    Ok(self.new_token(TokenKind::Less))
                }
            },
            '>' => {
                if self.match_char('=') {
                    Ok(self.new_token(TokenKind::GreaterEqual))
                } else {
                    Ok(self.new_token(TokenKind::Greater))
                }
            },
            '"' => match self.string() {
                Ok(text) => Ok(Token { kind: TokenKind::String(text), line }),
                Err(e) => Err(e),
            },
            _ => Err(ScanError::UnrecognizedCharacter { ch: c, line }),
        }
    }

    /// Reads the rest of an identifier whose first character was `first`.
    fn identifier(&mut self, first: char) -> (r: Token)
        requires
            old(self).wf(),
            old(self).current >= 1,
            first == old(self).stream@[old(self).current - 1],
            old(self).start == old(self).current - 1,
        ensures
            final(self).wf(),
            final(self).stream == old(self).stream,
            final(self).file_path == old(self).file_path,
            final(self).line == old(self).line,
            final(self).start == old(self).start,
            final(self).current == alnum_run(old(self).stream@, old(self).current as int),
            r.kind@ == Lexeme::Identifier(
                old(self).stream@.subrange(old(self).start as int, final(self).current as int),
            ),
            r.line == old(self).line,
    {
        let mut res = String::new();
        push_char(&mut res, first);
        proof {
            assert(res@ =~= self.stream@.subrange(self.start as int, self.current as int));
        }
        while letter(self.peek()) || digit(self.peek())
            invariant
                self.wf(),
                self.stream == old(self).stream,
                self.file_path == old(self).file_path,
                self.line == old(self).line,
                self.start == old(self).start,
                old(self).current <= self.current,
                alnum_run(self.stream@, self.current as int) == alnum_run(
                    self.stream@,
                    old(self).current as int,
                ),
                res@ == self.stream@.subrange(self.start as int, self.current as int),
            decreases self.stream@.len() - self.current,
        {
            let c = self.advance();
            push_char(&mut res, c);
            proof {
                assert(res@ =~= self.stream@.subrange(self.start as int, self.current as int));
            }
        }
        self.new_token(TokenKind::Identifier(res))
    }

    /// Reads the rest of a number whose first digit was `first`.
    fn number(&mut self, first: char) -> (r: Token)
        requires
            old(self).wf(),
            old(self).current >= 1,
            first == old(self).stream@[old(self).current - 1],
            old(self).start == old(self).current - 1,
        ensures
            final(self).wf(),
            final(self).stream == old(self).stream,
            final(self).file_path == old(self).file_path,
            final(self).line == old(self).line,
            final(self).start == old(self).start,
            final(self).current == digit_run(old(self).stream@, old(self).current as int),
            r.kind@ == Lexeme::Number(
                old(self).stream@.subrange(old(self).start as int, final(self).current as int),
            ),
            r.line == old(self).line,
    {
        let mut res = String::new();
        push_char(&mut res, first);
        proof {
            assert(res@ =~= self.stream@.subrange(self.start as int, self.current as int));
        }
        while digit(self.peek())
            invariant
                self.wf(),
                self.stream == old(self).stream,
                self.file_path == old(self).file_path,
                self.line == old(self).line,
                self.start == old(self).start,
                old(self).current <= self.current,
                digit_run(self.stream@, self.current as int) == digit_run(
                    self.stream@,
                    old(self).current as int,
                ),
                res@ == self.stream@.subrange(self.start as int, self.current as int),
            decreases self.stream@.len() - self.current,
        {
            let c = self.advance();
            push_char(&mut res, c);
            proof {
                assert(res@ =~= self.stream@.subrange(self.start as int, self.current as int));
            }
        }
        self.new_token(TokenKind::Number(res))
    }

    /// Reads a string literal after its opening quote, resolving escapes;
    /// gives its text and leaves the cursor past the closing quote.
    fn string(&mut self) -> (r: Result<String, ScanError>)
        requires
            old(self).wf(),
        ensures
            final(self).wf(),
            final(self).stream == old(self).stream,
            final(self).file_path == old(self).file_path,
            final(self).start == old(self).start,
            old(self).current <= final(self).current,
            old(self).line <= final(self).line,
            match string_body(
                old(self).stream@,
                old(self).current as int,
                old(self).line as int,
                Seq::empty(),
            ) {
                Ok((text, end, end_line)) => {
                    &&& r is Ok
                    &&& r->Ok_0@ == text
                    &&& final(self).current == end
                    &&& final(self).line == end_line
                },
                Err(e) => r == Err::<String, ScanError>(e),
            },
    {
        let mut res = String::new();
        while self.peek() != '"' && !self.is_at_end()
            invariant
                self.wf(),
                self.stream == old(self).stream,
                self.file_path == old(self).file_path,
                self.start == old(self).start,
                old(self).current <= self.current,
                old(self).line <= self.line,
                string_body(self.stream@, self.current as int, self.line as int, res@)
                    == string_body(
                    self.stream@,
                    old(self).current as int,
                    old(self).line as int,
                    Seq::empty(),
                ),
            decreases self.stream@.len() - self.current,
        {
            let c = self.peek();
            if c == '\\' {
                if self.current + 1 >= self.stream.len() {
                    return Err(ScanError::UnterminatedStringLiteral { line: self.line });
                }
                let code = self.peek_next();
                match resolve_escape(code) {
                    Some(e) => push_char(&mut res, e),
                    None => {
                        return Err(ScanError::InvalidEscapeSequence { ch: code, line: self.line });
                    },
                }
                self.advance();
                self.advance();
            } else {
                push_char(&mut res, c);
                self.advance();
                if c == '\n' {
                    self.line = self.line + 1;
                }
            }
        }
        if self.is_at_end() {
            return Err(ScanError::UnterminatedStringLiteral { line: self.line });
        }
        self.advance();
        Ok(res)
    }

    /// Skips whitespace and comments, counting newlines.
    fn skip_whitespace(&mut self) -> (r: Result<(), ScanError>)
        requires
            old(self).wf(),
        ensures
            final(self).wf(),
            final(self).stream == old(self).stream,
            final(self).file_path == old(self).file_path,
            old(self).current <= final(self).current,
            old(self).line <= final(self).line,
            match skip(old(self).stream@, old(self).current as int, old(self).line as int) {
                Ok((pos, line)) => {
                    &&& r is Ok
                    &&& final(self).current == pos
                    &&& final(self).line == line
                },
                Err(l) => r == Err::<(), ScanError>(
                    ScanError::UnterminatedBlockComment { line: l as usize },
                ),
            },
    {
        loop
            invariant
                self.wf(),
                self.stream == old(self).stream,
                self.file_path == old(self).file_path,
                old(self).current <= self.current,
                old(self).line <= self.line,
                skip(self.stream@, self.current as int, self.line as int) == skip(
                    old(self).stream@,
                    old(self).current as int,
                    old(self).line as int,
                ),
            decreases self.stream@.len() - self.current,
        {
            let c = self.peek();
            let ghost before = self.current;
            if self.is_at_end() {
                return Ok(());
            }
            if c == ' ' || c == '\r' || c == '\t' {
                self.advance();
            } else if c == '\n' {
                self.advance();
                self.line = self.line + 1;
            } else if c == '/' && self.peek_next() == '/' {
                self.advance();
                self.advance();
                while self.peek() != '\n' && !self.is_at_end()
                    invariant
                        self.wf(),
                        self.stream == old(self).stream,
                        self.file_path == old(self).file_path,
                        old(self).current <= self.current,
                        before < self.current,
                        old(self).line <= self.line,
                        skip_line_comment(self.stream@, self.current as int, self.line as int)
                            == skip(old(self).stream@, old(self).current as int, old(self).line as int),
                    decreases self.stream@.len() - self.current,
                {
                    self.advance();
                }
            } else if c == '/' && self.peek_next() == '*' {
                self.advance();
                self.advance();
                loop
                    invariant_except_break
                        skip_block_comment(self.stream@, self.current as int, self.line as int)
                            == skip(old(self).stream@, old(self).current as int, old(self).line as int),
                    invariant
                        self.wf(),
                        self.stream == old(self).stream,
                        self.file_path == old(self).file_path,
                        old(self).current <= self.current,
                        before < self.current,
                        old(self).line <= self.line,
                    ensures
                        skip(self.stream@, self.current as int, self.line as int) == skip(
                            old(self).stream@,
                            old(self).current as int,
                            old(self).line as int,
                        ),
                    decreases self.stream@.len() - self.current,
                {
                    if self.is_at_end() {
                        return Err(ScanError::UnterminatedBlockComment { line: self.line });
                    }
                    if self.peek() == '*' && self.peek_next() == '/' {
                        self.advance();
                        self.advance();
                        break;
                    }
                    let d = self.advance();
                    if d == '\n' {
                        self.line = self.line + 1;
                    }
                }
            } else {
                return Ok(());
            }
        }
    }

    /// Consumes the next character if it is `expected`.
    fn match_char(&mut self, expected: char) -> (r: bool)
        requires
            old(self).wf(),
        ensures
            final(self).stream == old(self).stream,
            final(self).file_path == old(self).file_path,
            final(self).line == old(self).line,
            final(self).start == old(self).start,
            r == (char_at(old(self).stream@, old(self).current as int) == expected
                && old(self).current < old(self).stream@.len()),
            final(self).current == old(self).current + if r { 1int } else { 0int },
            final(self).wf(),
    {
        if self.is_at_end() {
            return false;
        }
        if self.stream[self.current] != expected {
            return false;
        }
        self.current = self.current + 1;
        true
    }

    /// Consumes and gives the next character.
    fn advance(&mut self) -> (r: char)
        requires
            old(self).wf(),
            old(self).current < old(self).stream@.len(),
        ensures
            final(self).stream == old(self).stream,
            final(self).file_path == old(self).file_path,
            final(self).line == old(self).line,
            final(self).start == old(self).start,
            final(self).current == old(self).current + 1,
            final(self).wf(),
            r == old(self).stream@[old(self).current as int],
    {
        self.current = self.current + 1;
        self.stream[self.current - 1]
    }

    /// The next character, or NUL at the end.
    fn peek(&self) -> (r: char)
        requires
            self.wf(),
        ensures
            r == char_at(self.stream@, self.current as int),
    {
        if self.is_at_end() {
            '\0'
        } else {
            self.stream[self.current]
        }
    }

    /// The character after the next one, or NUL past the end.
    fn peek_next(&self) -> (r: char)
        requires
            self.wf(),
        ensures
            r == char_at(self.stream@, self.current + 1),
    {
        if self.current + 1 >= self.stream.len() {
            '\0'
        } else {
            self.stream[self.current + 1]
        }
    }

    fn is_at_end(&self) -> (r: bool)
        requires
            self.wf(),
        ensures
            r == (self.current == self.stream@.len()),
    {
        self.current == self.stream.len()
    }

    fn new_token(&self, kind: TokenKind) -> (r: Token)
        ensures
            r.kind == kind,
            r.line == self.line,
    {
        Token { kind, line: self.line }
    }
}

} // verus!
