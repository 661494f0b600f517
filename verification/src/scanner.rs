//! The lexical scanner: a cursor pair over the source text, advanced one
//! token at a time. `scan_token` skips whitespace and comments, then
//! scans the token starting at the cursor; reaching the end of the source
//! it yields `Eof` tokens forever. Unexpected characters and unterminated
//! strings come back as `Error` tokens, never as faults.

use vstd::prelude::*;
use vstd::string::StrSliceExecFns;

use crate::common::Line;
use crate::tokens::{Arithmetic, Bitwise, Comparison, Keyword, Literal, Token, TokenType};

verus! {

/// A [`Scanner`], mathematically: the source as a sequence of characters,
/// the token-start and read cursors into it, and the line counter.
pub ghost struct ScannerModel {
    pub source: Seq<char>,
    pub start: int,
    pub current: int,
    pub line: int,
}

/// The character at `i`, or the sentinel `'\0'` beyond either end: what
/// peeking at `i` shows.
pub open spec fn char_at(source: Seq<char>, i: int) -> char {
    if 0 <= i < source.len() {
        source[i]
    } else {
        '\0'
    }
}

/// A decimal digit.
pub open spec fn spec_is_digit(c: char) -> bool {
    '0' as u32 <= c as u32 && c as u32 <= '9' as u32
}

/// An ASCII letter or an underscore: what may start an identifier.
pub open spec fn spec_is_alpha(c: char) -> bool {
    ||| 'a' as u32 <= c as u32 && c as u32 <= 'z' as u32
    ||| 'A' as u32 <= c as u32 && c as u32 <= 'Z' as u32
    ||| c == '_'
}

/// A decimal digit.
#[verifier::when_used_as_spec(spec_is_digit)]
pub fn is_digit(c: char) -> (r: bool)
    ensures
        r == spec_is_digit(c),
{
    c as u32 >= '0' as u32 && c as u32 <= '9' as u32
}

/// An ASCII letter or an underscore.
#[verifier::when_used_as_spec(spec_is_alpha)]
pub fn is_alpha(c: char) -> (r: bool)
    ensures
        r == spec_is_alpha(c),
{
    (c as u32 >= 'a' as u32 && c as u32 <= 'z' as u32) || (c as u32 >= 'A' as u32 && c as u32
        <= 'Z' as u32) || c == '_'
}

/// Where the read cursor and the line counter stand once whitespace and
/// line comments are skipped from position `i`: blanks, carriage returns
/// and tabs are consumed, a newline is consumed and counted, and `//`
/// starts a comment that runs to the end of the line. `in_comment` is the
/// skipper inside such a comment.
pub open spec fn skip_ws(source: Seq<char>, i: int, line: int, in_comment: bool) -> (int, int)
    decreases source.len() - i,
{
    if !(0 <= i < source.len()) {
        (i, line)
    } else if in_comment {
        if source[i] == '\n' {
            skip_ws(source, i + 1, line + 1, false)
        } else {
            skip_ws(source, i + 1, line, true)
        }
    } else {
        let c = source[i];
        if c == ' ' || c == '\r' || c == '\t' {
            skip_ws(source, i + 1, line, false)
        } else if c == '\n' {
            skip_ws(source, i + 1, line + 1, false)
        } else if c == '/' && char_at(source, i + 1) == '/' {
            skip_ws(source, i + 2, line, true)
        } else {
            (i, line)
        }
    }
}

/// Where a string literal's body ends: the position of the closing quote
/// — or the end of the source when the string is unterminated — and the
/// line counter after the newlines the literal spans.
pub open spec fn string_scan(source: Seq<char>, i: int, line: int) -> (int, int)
    decreases source.len() - i,
{
    if !(0 <= i < source.len()) {
        (i, line)
    } else if source[i] == '"' {
        (i, line)
    } else if source[i] == '\n' {
        string_scan(source, i + 1, line + 1)
    } else {
        string_scan(source, i + 1, line)
    }
}

/// The position right after the run of decimal digits starting at `i`.
pub open spec fn digits_end(source: Seq<char>, i: int) -> int
    decreases source.len() - i,
{
    if 0 <= i < source.len() && spec_is_digit(source[i]) {
        digits_end(source, i + 1)
    } else {
        i
    }
}

/// The position right after the number literal starting at `i`: its whole
/// part, and a fractional part exactly when a dot with at least one digit
/// behind it follows.
pub open spec fn number_end(source: Seq<char>, i: int) -> int {
    let j = digits_end(source, i);
    if char_at(source, j) == '.' && spec_is_digit(char_at(source, j + 1)) {
        digits_end(source, j + 1)
    } else {
        j
    }
}

/// The position right after the run of identifier characters — letters,
/// digits, underscores — starting at `i`.
pub open spec fn ident_end(source: Seq<char>, i: int) -> int
    decreases source.len() - i,
{
    if 0 <= i < source.len() && (spec_is_alpha(source[i]) || spec_is_digit(source[i])) {
        ident_end(source, i + 1)
    } else {
        i
    }
}

/// The type of an identifier lexeme: the keyword it spells, or a plain
/// identifier.
pub open spec fn keyword_of(lexeme: Seq<char>) -> TokenType {
    if lexeme == "and"@ {
        TokenType::Keyword(Keyword::And)
    } else if lexeme == "or"@ {
        TokenType::Keyword(Keyword::Or)
    } else if lexeme == "class"@ {
        TokenType::Keyword(Keyword::Class)
    } else if lexeme == "else"@ {
        TokenType::Keyword(Keyword::Else)
    } else if lexeme == "true"@ {
        TokenType::Keyword(Keyword::True)
    } else if lexeme == "while"@ {
        TokenType::Keyword(Keyword::While)
    } else if lexeme == "def"@ {
        TokenType::Keyword(Keyword::Def)
    } else if lexeme == "return"@ {
        TokenType::Keyword(Keyword::Return)
    } else if lexeme == "self"@ {
        TokenType::Keyword(Keyword::Self_)
    } else if lexeme == "false"@ {
        TokenType::Keyword(Keyword::False)
    } else if lexeme == "for"@ {
        TokenType::Keyword(Keyword::For)
    } else if lexeme == "import"@ {
        TokenType::Keyword(Keyword::Import)
    } else if lexeme == "if"@ {
        TokenType::Keyword(Keyword::If)
    } else if lexeme == "let"@ {
        TokenType::Keyword(Keyword::Let)
    } else if lexeme == "lambda"@ {
        TokenType::Keyword(Keyword::Lambda)
    } else if lexeme == "none"@ {
        TokenType::Keyword(Keyword::NoneKw)
    } else if lexeme == "not"@ {
        TokenType::Keyword(Keyword::Not)
    } else {
        TokenType::Identifier
    }
}

/// A [`Scanner::scan_token`] call, mathematically: the token it makes —
/// type, lexeme, line — and where it leaves the cursors and the line
/// counter.
pub ghost struct ScanResult {
    pub token_type: TokenType,
    pub lexeme: Seq<char>,
    pub start: int,
    pub current: int,
    pub line: int,
}

/// A scan outcome whose lexeme is the scanned source text itself.
pub open spec fn lexeme_token(
    source: Seq<char>,
    token_type: TokenType,
    start: int,
    end: int,
    line: int,
) -> ScanResult {
    ScanResult { token_type, lexeme: source.subrange(start, end), start, current: end, line }
}

/// What scanning one token from position `pos` on line `line` yields:
/// whitespace and comments are skipped, the end of the source makes an
/// `Eof` token, and otherwise the token is decided by its first
/// character. An unexpected character or an unterminated string makes an
/// `Error` token whose lexeme is the static message.
pub open spec fn spec_scan_token(source: Seq<char>, pos: int, line: int) -> ScanResult {
    let (i, l) = skip_ws(source, pos, line, false);
    if i >= source.len() {
        lexeme_token(source, TokenType::Eof, i, i, l)
    } else {
        let c = source[i];
        if c == '(' {
            lexeme_token(source, TokenType::LeftParen, i, i + 1, l)
        } else if c == ')' {
            lexeme_token(source, TokenType::RightParen, i, i + 1, l)
        } else if c == '{' {
            lexeme_token(source, TokenType::LeftBrace, i, i + 1, l)
        } else if c == '}' {
            lexeme_token(source, TokenType::RightBrace, i, i + 1, l)
        } else if c == ',' {
            lexeme_token(source, TokenType::Comma, i, i + 1, l)
        } else if c == '.' {
            lexeme_token(source, TokenType::Dot, i, i + 1, l)
        } else if c == '+' {
            lexeme_token(source, TokenType::Arithmetic(Arithmetic::Plus), i, i + 1, l)
        } else if c == '*' {
            lexeme_token(source, TokenType::Arithmetic(Arithmetic::Times), i, i + 1, l)
        } else if c == '%' {
            lexeme_token(source, TokenType::Arithmetic(Arithmetic::Modulo), i, i + 1, l)
        } else if c == '-' {
            lexeme_token(source, TokenType::Arithmetic(Arithmetic::Minus), i, i + 1, l)
        } else if c == ';' {
            lexeme_token(source, TokenType::Semicolon, i, i + 1, l)
        } else if c == '!' {
            if char_at(source, i + 1) == '=' {
                lexeme_token(source, TokenType::Comparison(Comparison::NotEqual), i, i + 2, l)
            } else {
                lexeme_token(source, TokenType::Keyword(Keyword::Not), i, i + 1, l)
            }
        } else if c == '=' {
            if char_at(source, i + 1) == '=' {
                lexeme_token(source, TokenType::Comparison(Comparison::EqualEqual), i, i + 2, l)
            } else {
                lexeme_token(source, TokenType::Comparison(Comparison::Equal), i, i + 1, l)
            }
        } else if c == '&' {
            lexeme_token(source, TokenType::Bitwise(Bitwise::BAnd), i, i + 1, l)
        } else if c == '|' {
            lexeme_token(source, TokenType::Bitwise(Bitwise::BOr), i, i + 1, l)
        } else if c == '^' {
            lexeme_token(source, TokenType::Bitwise(Bitwise::BXor), i, i + 1, l)
        } else if c == '"' {
            let (j, l2) = string_scan(source, i + 1, l);
            if j >= source.len() {
                ScanResult {
                    token_type: TokenType::Error,
                    lexeme: "Unterminated string"@,
                    start: i,
                    current: j,
                    line: l2,
                }
            } else {
                lexeme_token(source, TokenType::Literal(Literal::Str), i, j + 1, l2)
            }
        } else if spec_is_digit(c) {
            lexeme_token(source, TokenType::Literal(Literal::Number), i, number_end(source, i + 1), l)
        } else if spec_is_alpha(c) {
            let end = ident_end(source, i + 1);
            lexeme_token(source, keyword_of(source.subrange(i, end)), i, end, l)
        } else {
            ScanResult {
                token_type: TokenType::Error,
                lexeme: "Unexpected character."@,
                start: i,
                current: i + 1,
                line: l,
            }
        }
    }
}

/// A lexeme that already agrees with a keyword on its first `off`
/// characters is the keyword exactly when the lengths agree and the rest
/// agrees too.
proof fn lemma_keyword_split(lex: Seq<char>, kw: Seq<char>, off: int)
    requires
        0 <= off <= lex.len(),
        off <= kw.len(),
        lex.subrange(0, off) == kw.subrange(0, off),
    ensures
        (lex.len() == kw.len() && lex.subrange(off, lex.len() as int) == kw.subrange(
            off,
            kw.len() as int,
        )) <==> lex == kw,
{
    if lex.len() == kw.len() && lex.subrange(off, lex.len() as int) == kw.subrange(
        off,
        kw.len() as int,
    ) {
        assert forall|k: int| 0 <= k < lex.len() implies lex[k] == kw[k] by {
            if k < off {
                assert(lex.subrange(0, off)[k] == lex[k]);
                assert(kw.subrange(0, off)[k] == kw[k]);
            } else {
                assert(lex.subrange(off, lex.len() as int)[k - off] == lex[k]);
                assert(kw.subrange(off, kw.len() as int)[k - off] == kw[k]);
            }
        }
        assert(lex =~= kw);
    }
    if lex == kw {
        assert(lex.subrange(off, lex.len() as int) =~= kw.subrange(off, kw.len() as int));
    }
}

pub struct Scanner {
    source: String,
    start: usize,
    current: usize,
    line: Line,
    /// The source's length in characters, computed once at construction.
    length: usize,
}

impl View for Scanner {
    type V = ScannerModel;

    closed spec fn view(&self) -> ScannerModel {
        ScannerModel {
            source: self.source@,
            start: self.start as int,
            current: self.current as int,
            line: self.line as int,
        }
    }
}

impl Scanner {
    /// The cached character count agrees with the source.
    pub closed spec fn cache_ok(&self) -> bool {
        self.length == self.source@.len()
    }

    /// The scanner's structural invariant: the cursors sit inside the
    /// source, in order, and the line counter — which starts at 1 and
    /// grows by at most one per consumed character — stays representable.
    pub open spec fn wf(&self) -> bool {
        &&& self.cache_ok()
        &&& 0 <= self@.start <= self@.current <= self@.source.len()
        &&& self@.source.len() < usize::MAX
        &&& 1 <= self@.line <= self@.current + 1
    }

    /// A scanner at the top of `source`: both cursors at 0, line 1. The
    /// length bound is what lets the position and line counters fit the
    /// machine.
    pub fn new(source: &str) -> (s: Self)
        requires
            source@.len() < usize::MAX,
        ensures
            s@ == (ScannerModel { source: source@, start: 0, current: 0, line: 1 }),
            s.wf(),
    {
        let length = source.unicode_len();
        Scanner { source: source.to_owned(), start: 0, current: 0, line: 1, length }
    }

    /// The token-start cursor.
    pub fn start(&self) -> (r: usize)
        ensures
            r == self@.start,
    {
        self.start
    }

    /// The read cursor.
    pub fn current(&self) -> (r: usize)
        ensures
            r == self@.current,
    {
        self.current
    }

    /// The current line counter.
    pub fn line(&self) -> (r: Line)
        ensures
            r == self@.line,
    {
        self.line
    }

    /// The source text being scanned.
    pub fn source(&self) -> (r: &str)
        ensures
            r@ == self@.source,
    {
        self.source.as_str()
    }

    /// The character at `index`.
    fn source_at(&self, index: usize) -> (c: char)
        requires
            index < self@.source.len(),
        ensures
            c == self@.source[index as int],
    {
        self.source.as_str().get_char(index)
    }

    /// Whether the read cursor stands at the end of the source.
    fn is_at_end(&self) -> (r: bool)
        requires
            self.wf(),
        ensures
            r == (self@.current == self@.source.len()),
    {
        self.current == self.length
    }

    /// The character under the read cursor, without consuming it;
    /// `'\0'` at the end of the source.
    fn peek(&self) -> (c: char)
        requires
            self.wf(),
        ensures
            c == char_at(self@.source, self@.current),
    {
        if self.is_at_end() {
            '\0'
        } else {
            self.source_at(self.current)
        }
    }

    /// The character one past the read cursor, without consuming
    /// anything; `'\0'` at or past the end of the source.
    fn peek_next(&self) -> (c: char)
        requires
            self.wf(),
        ensures
            c == char_at(self@.source, self@.current + 1),
    {
        if self.current + 1 >= self.length {
            '\0'
        } else {
            self.source_at(self.current + 1)
        }
    }

    /// Consumes and returns the character under the read cursor.
    fn advance(&mut self) -> (c: char)
        requires
            old(self).wf(),
            old(self)@.current < old(self)@.source.len(),
        ensures
            final(self).wf(),
            final(self)@ == (ScannerModel { current: old(self)@.current + 1, ..old(self)@ }),
            c == old(self)@.source[old(self)@.current],
    {
        let c = self.source_at(self.current);
        self.current = self.current + 1;
        c
    }

    /// Counts the line just consumed; called right after its newline
    /// character was advanced over.
    fn next_line(&mut self)
        requires
            old(self).wf(),
            old(self)@.line <= old(self)@.current,
        ensures
            final(self).wf(),
            final(self)@ == (ScannerModel { line: old(self)@.line + 1, ..old(self)@ }),
    {
        self.line = self.line + 1;
    }

    /// Consumes the character under the read cursor exactly when it is
    /// `expected`.
    fn match_char(&mut self, expected: char) -> (r: bool)
        requires
            old(self).wf(),
        ensures
            final(self).wf(),
            r == (old(self)@.current < old(self)@.source.len() && old(self)@.source[old(
                self,
            )@.current] == expected),
            final(self)@ == (ScannerModel {
                current: if r {
                    old(self)@.current + 1
                } else {
                    old(self)@.current
                },
                ..old(self)@
            }),
    {
        if self.is_at_end() {
            false
        } else if self.peek() != expected {
            false
        } else {
            self.current = self.current + 1;
            true
        }
    }

    /// How many characters the pending lexeme holds.
    fn current_length(&self) -> (r: usize)
        requires
            self.wf(),
        ensures
            r == self@.current - self@.start,
    {
        self.current - self.start
    }

    /// Scans the next token: exactly what [`spec_scan_token`] yields from
    /// the read cursor. At the end of the source this makes `Eof` tokens,
    /// call after call; it never fails, unexpected input coming back as
    /// `Error` tokens.
    pub fn scan_token(&mut self) -> (t: Token)
        requires
            old(self).wf(),
        ensures
            final(self).wf(),
            final(self)@.source == old(self)@.source,
            ({
                let r = spec_scan_token(old(self)@.source, old(self)@.current, old(self)@.line);
                &&& final(self)@.start == r.start
                &&& final(self)@.current == r.current
                &&& final(self)@.line == r.line
                &&& t@.token_type == r.token_type
                &&& t@.lexeme == r.lexeme
                &&& t@.line == r.line
            }),
    {
        self.skip_whitespace();
        self.start = self.current;
        if self.is_at_end() {
            self.make_token(TokenType::Eof)
        } else {
            let c = self.advance();
            if c == '(' {
                self.make_token(TokenType::LeftParen)
            } else if c == ')' {
                self.make_token(TokenType::RightParen)
            } else if c == '{' {
                self.make_token(TokenType::LeftBrace)
            } else if c == '}' {
                self.make_token(TokenType::RightBrace)
            } else if c == ',' {
                self.make_token(TokenType::Comma)
            } else if c == '.' {
                self.make_token(TokenType::Dot)
            } else if c == '+' {
                self.make_token(TokenType::Arithmetic(Arithmetic::Plus))
            } else if c == '*' {
                self.make_token(TokenType::Arithmetic(Arithmetic::Times))
            } else if c == '%' {
                self.make_token(TokenType::Arithmetic(Arithmetic::Modulo))
            } else if c == '-' {
                self.make_token(TokenType::Arithmetic(Arithmetic::Minus))
            } else if c == ';' {
                self.make_token(TokenType::Semicolon)
            } else if c == '!' {
                self.make_token_or_else(
                    '=',
                    TokenType::Comparison(Comparison::NotEqual),
                    TokenType::Keyword(Keyword::Not),
                )
            } else if c == '=' {
                self.make_token_or_else(
                    '=',
                    TokenType::Comparison(Comparison::EqualEqual),
                    TokenType::Comparison(Comparison::Equal),
                )
            } else if c == '&' {
                self.make_token(TokenType::Bitwise(Bitwise::BAnd))
            } else if c == '|' {
                self.make_token(TokenType::Bitwise(Bitwise::BOr))
            } else if c == '^' {
                self.make_token(TokenType::Bitwise(Bitwise::BXor))
            } else if c == '"' {
                self.scan_string()
            } else if is_digit(c) {
                self.scan_number()
            } else if is_alpha(c) {
                self.scan_identifier()
            } else {
                Token::error("Unexpected character.", self)
            }
        }
    }

    /// Skips whitespace and line comments: exactly the move that
    /// [`skip_ws`] describes.
    fn skip_whitespace(&mut self)
        requires
            old(self).wf(),
        ensures
            final(self).wf(),
            final(self)@.source == old(self)@.source,
            final(self)@.start == old(self)@.start,
            (final(self)@.current, final(self)@.line) == skip_ws(
                old(self)@.source,
                old(self)@.current,
                old(self)@.line,
                false,
            ),
    {
        loop
            invariant
                self.wf(),
                self@.source == old(self)@.source,
                self@.start == old(self)@.start,
                skip_ws(self@.source, self@.current, self@.line, false) == skip_ws(
                    old(self)@.source,
                    old(self)@.current,
                    old(self)@.line,
                    false,
                ),
            decreases self@.source.len() - self@.current,
        {
            let c = self.peek();
            if c == ' ' || c == '\r' || c == '\t' {
                self.advance();
            } else if c == '\n' {
                self.advance();
                self.next_line();
            } else if c == '/' && self.peek_next() == '/' {
                let ghost comment_open = self@.current;
                proof {
                    assert(skip_ws(self@.source, self@.current, self@.line, false) == skip_ws(
                        self@.source,
                        self@.current + 2,
                        self@.line,
                        true,
                    ));
                    assert(skip_ws(self@.source, self@.current + 1, self@.line, true) == skip_ws(
                        self@.source,
                        self@.current + 2,
                        self@.line,
                        true,
                    ));
                    assert(skip_ws(self@.source, self@.current, self@.line, true) == skip_ws(
                        self@.source,
                        self@.current + 1,
                        self@.line,
                        true,
                    ));
                }
                // a line comment runs to the end of the line; the newline
                // itself is left for the next round
                while self.peek() != '\n' && !self.is_at_end()
                    invariant
                        self.wf(),
                        self@.source == old(self)@.source,
                        self@.start == old(self)@.start,
                        comment_open <= self@.current,
                        self@.source[comment_open] == '/',
                        comment_open < self@.source.len(),
                        skip_ws(self@.source, self@.current, self@.line, true) == skip_ws(
                            old(self)@.source,
                            old(self)@.current,
                            old(self)@.line,
                            false,
                        ),
                    decreases self@.source.len() - self@.current,
                {
                    self.advance();
                }
                proof {
                    assert(self@.current > comment_open);
                    assert(skip_ws(self@.source, self@.current, self@.line, true) == skip_ws(
                        self@.source,
                        self@.current,
                        self@.line,
                        false,
                    ));
                }
            } else {
                return ;
            }
        }
    }

    /// Scans the body of a string literal, the opening quote already
    /// consumed: to the closing quote, which is consumed too, or to the
    /// end of the source, which makes the unterminated-string error
    /// token. Newlines inside the literal count lines.
    fn scan_string(&mut self) -> (t: Token)
        requires
            old(self).wf(),
        ensures
            final(self).wf(),
            final(self)@.source == old(self)@.source,
            final(self)@.start == old(self)@.start,
            ({
                let (j, l) = string_scan(old(self)@.source, old(self)@.current, old(self)@.line);
                if j == old(self)@.source.len() {
                    &&& final(self)@.current == j
                    &&& final(self)@.line == l
                    &&& t@.token_type == TokenType::Error
                    &&& t@.lexeme == "Unterminated string"@
                    &&& t@.line == l
                } else {
                    &&& final(self)@.current == j + 1
                    &&& final(self)@.line == l
                    &&& t@.token_type == TokenType::Literal(Literal::Str)
                    &&& t@.lexeme == old(self)@.source.subrange(old(self)@.start, j + 1)
                    &&& t@.line == l
                }
            }),
    {
        while self.peek() != '"' && !self.is_at_end()
            invariant
                self.wf(),
                self@.source == old(self)@.source,
                self@.start == old(self)@.start,
                string_scan(self@.source, self@.current, self@.line) == string_scan(
                    old(self)@.source,
                    old(self)@.current,
                    old(self)@.line,
                ),
            decreases self@.source.len() - self@.current,
        {
            let c = self.advance();
            if c == '\n' {
                self.next_line();
            }
        }
        if self.is_at_end() {
            Token::error("Unterminated string", self)
        } else {
            // consume the closing quote
            self.advance();
            self.make_token(TokenType::Literal(Literal::Str))
        }
    }

    /// Scans the rest of a number literal, its first digit already
    /// consumed: the whole part, then a fractional part when a dot with a
    /// digit behind it follows.
    fn scan_number(&mut self) -> (t: Token)
        requires
            old(self).wf(),
        ensures
            final(self).wf(),
            final(self)@.source == old(self)@.source,
            final(self)@.start == old(self)@.start,
            final(self)@.line == old(self)@.line,
            final(self)@.current == number_end(old(self)@.source, old(self)@.current),
            t@.token_type == TokenType::Literal(Literal::Number),
            t@.lexeme == old(self)@.source.subrange(
                old(self)@.start,
                number_end(old(self)@.source, old(self)@.current),
            ),
            t@.line == old(self)@.line,
    {
        // scan the whole number part
        while is_digit(self.peek())
            invariant
                self.wf(),
                self@.source == old(self)@.source,
                self@.start == old(self)@.start,
                self@.line == old(self)@.line,
                digits_end(self@.source, self@.current) == digits_end(
                    old(self)@.source,
                    old(self)@.current,
                ),
            decreases self@.source.len() - self@.current,
        {
            self.advance();
        }
        // scan the fractional part, if any
        if self.peek() == '.' && is_digit(self.peek_next()) {
            let ghost j = self@.current;
            // consume the '.'
            self.advance();
            while is_digit(self.peek())
                invariant
                    self.wf(),
                    self@.source == old(self)@.source,
                    self@.start == old(self)@.start,
                    self@.line == old(self)@.line,
                    digits_end(self@.source, self@.current) == digits_end(old(self)@.source, j + 1),
                decreases self@.source.len() - self@.current,
            {
                self.advance();
            }
        }
        self.make_token(TokenType::Literal(Literal::Number))
    }

    /// Scans the rest of an identifier, its first character already
    /// consumed, and tags it as the keyword it spells, if any.
    fn scan_identifier(&mut self) -> (t: Token)
        requires
            old(self).wf(),
            old(self)@.start < old(self)@.current,
        ensures
            final(self).wf(),
            final(self)@.source == old(self)@.source,
            final(self)@.start == old(self)@.start,
            final(self)@.line == old(self)@.line,
            final(self)@.current == ident_end(old(self)@.source, old(self)@.current),
            t@.token_type == keyword_of(
                old(self)@.source.subrange(old(self)@.start, final(self)@.current),
            ),
            t@.lexeme == old(self)@.source.subrange(old(self)@.start, final(self)@.current),
            t@.line == old(self)@.line,
    {
        while is_alpha(self.peek()) || is_digit(self.peek())
            invariant
                self.wf(),
                self@.source == old(self)@.source,
                self@.start == old(self)@.start,
                self@.line == old(self)@.line,
                self@.start < self@.current,
                ident_end(self@.source, self@.current) == ident_end(
                    old(self)@.source,
                    old(self)@.current,
                ),
            decreases self@.source.len() - self@.current,
        {
            self.advance();
        }
        self.make_token(self.identifier_type())
    }

    /// The type of the pending identifier lexeme: [`keyword_of`] it. The
    /// dispatch tests only as many characters as tell the keywords apart,
    /// and [`Self::check_keyword`] settles the rest.
    #[verifier::rlimit(100)]
    fn identifier_type(&self) -> (t: TokenType)
        requires
            self.wf(),
            self@.start < self@.current,
        ensures
            t == keyword_of(self@.source.subrange(self@.start, self@.current)),
    {
        proof {
            reveal_strlit("and");
            reveal_strlit("or");
            reveal_strlit("class");
            reveal_strlit("else");
            reveal_strlit("true");
            reveal_strlit("while");
            reveal_strlit("def");
            reveal_strlit("return");
            reveal_strlit("self");
            reveal_strlit("false");
            reveal_strlit("for");
            reveal_strlit("import");
            reveal_strlit("if");
            reveal_strlit("let");
            reveal_strlit("lambda");
            reveal_strlit("none");
            reveal_strlit("not");
            reveal_strlit("nd");
            reveal_strlit("r");
            reveal_strlit("lass");
            reveal_strlit("lse");
            reveal_strlit("rue");
            reveal_strlit("hile");
            reveal_strlit("ef");
            reveal_strlit("eturn");
            reveal_strlit("elf");
            reveal_strlit("port");
            reveal_strlit("f");
            reveal_strlit("t");
            reveal_strlit("mbda");
            reveal_strlit("e");
        }
        let ghost lex = self@.source.subrange(self@.start, self@.current);
        let c = self.source_at(self.start);
        proof {
            assert(lex[0] == c);
            assert(lex.len() == self@.current - self@.start);
        }
        if c == 'a' {
            let t = self.check_keyword(1, "nd", Keyword::And);
            proof {
                assert(lex.subrange(0, 1) =~= "and"@.subrange(0, 1));
                assert("and"@.subrange(1, 3) =~= "nd"@);
                assert(lex.subrange(1, lex.len() as int) =~= self@.source.subrange(
                    self@.start + 1,
                    self@.current,
                ));
                lemma_keyword_split(lex, "and"@, 1);
            }
            t
        } else if c == 'o' {
            let t = self.check_keyword(1, "r", Keyword::Or);
            proof {
                assert(lex.subrange(0, 1) =~= "or"@.subrange(0, 1));
                assert("or"@.subrange(1, 2) =~= "r"@);
                assert(lex.subrange(1, lex.len() as int) =~= self@.source.subrange(
                    self@.start + 1,
                    self@.current,
                ));
                lemma_keyword_split(lex, "or"@, 1);
            }
            t
        } else if c == 'c' {
            let t = self.check_keyword(1, "lass", Keyword::Class);
            proof {
                assert(lex.subrange(0, 1) =~= "class"@.subrange(0, 1));
                assert("class"@.subrange(1, 5) =~= "lass"@);
                assert(lex.subrange(1, lex.len() as int) =~= self@.source.subrange(
                    self@.start + 1,
                    self@.current,
                ));
                lemma_keyword_split(lex, "class"@, 1);
            }
            t
        } else if c == 'e' {
            let t = self.check_keyword(1, "lse", Keyword::Else);
            proof {
                assert(lex.subrange(0, 1) =~= "else"@.subrange(0, 1));
                assert("else"@.subrange(1, 4) =~= "lse"@);
                assert(lex.subrange(1, lex.len() as int) =~= self@.source.subrange(
                    self@.start + 1,
                    self@.current,
                ));
                lemma_keyword_split(lex, "else"@, 1);
            }
            t
        } else if c == 't' {
            let t = self.check_keyword(1, "rue", Keyword::True);
            proof {
                assert(lex.subrange(0, 1) =~= "true"@.subrange(0, 1));
                assert("true"@.subrange(1, 4) =~= "rue"@);
                assert(lex.subrange(1, lex.len() as int) =~= self@.source.subrange(
                    self@.start + 1,
                    self@.current,
                ));
                lemma_keyword_split(lex, "true"@, 1);
            }
            t
        } else if c == 'w' {
            let t = self.check_keyword(1, "hile", Keyword::While);
            proof {
                assert(lex.subrange(0, 1) =~= "while"@.subrange(0, 1));
                assert("while"@.subrange(1, 5) =~= "hile"@);
                assert(lex.subrange(1, lex.len() as int) =~= self@.source.subrange(
                    self@.start + 1,
                    self@.current,
                ));
                lemma_keyword_split(lex, "while"@, 1);
            }
            t
        } else if c == 'd' {
            let t = self.check_keyword(1, "ef", Keyword::Def);
            proof {
                assert(lex.subrange(0, 1) =~= "def"@.subrange(0, 1));
                assert("def"@.subrange(1, 3) =~= "ef"@);
                assert(lex.subrange(1, lex.len() as int) =~= self@.source.subrange(
                    self@.start + 1,
                    self@.current,
                ));
                lemma_keyword_split(lex, "def"@, 1);
            }
            t
        } else if c == 'r' {
            let t = self.check_keyword(1, "eturn", Keyword::Return);
            proof {
                assert(lex.subrange(0, 1) =~= "return"@.subrange(0, 1));
                assert("return"@.subrange(1, 6) =~= "eturn"@);
                assert(lex.subrange(1, lex.len() as int) =~= self@.source.subrange(
                    self@.start + 1,
                    self@.current,
                ));
                lemma_keyword_split(lex, "return"@, 1);
            }
            t
        } else if c == 's' {
            let t = self.check_keyword(1, "elf", Keyword::Self_);
            proof {
                assert(lex.subrange(0, 1) =~= "self"@.subrange(0, 1));
                assert("self"@.subrange(1, 4) =~= "elf"@);
                assert(lex.subrange(1, lex.len() as int) =~= self@.source.subrange(
                    self@.start + 1,
                    self@.current,
                ));
                lemma_keyword_split(lex, "self"@, 1);
            }
            t
        } else if c == 'f' {
            // a single-letter lexeme is still a plain identifier, so the
            // second letter decides only where there is one
            if self.current_length() > 1 {
                let c1 = self.source_at(self.start + 1);
                proof {
                    assert(lex[1] == c1);
                }
                if c1 == 'a' {
                    let t = self.check_keyword(2, "lse", Keyword::False);
                    proof {
                        assert(lex.subrange(0, 2) =~= "false"@.subrange(0, 2));
                        assert("false"@.subrange(2, 5) =~= "lse"@);
                        assert(lex.subrange(2, lex.len() as int) =~= self@.source.subrange(
                            self@.start + 2,
                            self@.current,
                        ));
                        lemma_keyword_split(lex, "false"@, 2);
                    }
                    t
                } else if c1 == 'o' {
                    let t = self.check_keyword(2, "r", Keyword::For);
                    proof {
                        assert(lex.subrange(0, 2) =~= "for"@.subrange(0, 2));
                        assert("for"@.subrange(2, 3) =~= "r"@);
                        assert(lex.subrange(2, lex.len() as int) =~= self@.source.subrange(
                            self@.start + 2,
                            self@.current,
                        ));
                        lemma_keyword_split(lex, "for"@, 2);
                    }
                    t
                } else {
                    TokenType::Identifier
                }
            } else {
                TokenType::Identifier
            }
        } else if c == 'i' {
            if self.current_length() > 1 && self.source_at(self.start + 1) == 'm' {
                proof {
                    assert(lex[1] == 'm');
                }
                let t = self.check_keyword(2, "port", Keyword::Import);
                proof {
                    assert(lex.subrange(0, 2) =~= "import"@.subrange(0, 2));
                    assert("import"@.subrange(2, 6) =~= "port"@);
                    assert(lex.subrange(2, lex.len() as int) =~= self@.source.subrange(
                        self@.start + 2,
                        self@.current,
                    ));
                    lemma_keyword_split(lex, "import"@, 2);
                }
                t
            } else {
                let t = self.check_keyword(1, "f", Keyword::If);
                proof {
                    if lex.len() > 1 {
                        assert(lex[1] == self@.source[self@.start + 1]);
                    }
                    assert(lex.subrange(0, 1) =~= "if"@.subrange(0, 1));
                    assert("if"@.subrange(1, 2) =~= "f"@);
                    assert(lex.subrange(1, lex.len() as int) =~= self@.source.subrange(
                        self@.start + 1,
                        self@.current,
                    ));
                    lemma_keyword_split(lex, "if"@, 1);
                }
                t
            }
        } else if c == 'l' {
            if self.current_length() > 1 {
                let c1 = self.source_at(self.start + 1);
                proof {
                    assert(lex[1] == c1);
                }
                if c1 == 'e' {
                    let t = self.check_keyword(2, "t", Keyword::Let);
                    proof {
                        assert(lex.subrange(0, 2) =~= "let"@.subrange(0, 2));
                        assert("let"@.subrange(2, 3) =~= "t"@);
                        assert(lex.subrange(2, lex.len() as int) =~= self@.source.subrange(
                            self@.start + 2,
                            self@.current,
                        ));
                        lemma_keyword_split(lex, "let"@, 2);
                    }
                    t
                } else if c1 == 'a' {
                    let t = self.check_keyword(2, "mbda", Keyword::Lambda);
                    proof {
                        assert(lex.subrange(0, 2) =~= "lambda"@.subrange(0, 2));
                        assert("lambda"@.subrange(2, 6) =~= "mbda"@);
                        assert(lex.subrange(2, lex.len() as int) =~= self@.source.subrange(
                            self@.start + 2,
                            self@.current,
                        ));
                        lemma_keyword_split(lex, "lambda"@, 2);
                    }
                    t
                } else {
                    TokenType::Identifier
                }
            } else {
                TokenType::Identifier
            }
        } else if c == 'n' {
            if self.current_length() > 1 && self.source_at(self.start + 1) == 'o' {
                proof {
                    assert(lex[1] == 'o');
                }
                // the third character may lie past the lexeme; either
                // check below then fails on the length alone
                let c2 = self.char_at_or_nul(self.start + 2);
                proof {
                    if lex.len() > 2 {
                        assert(lex[2] == c2);
                    }
                }
                if c2 == 'n' {
                    let t = self.check_keyword(3, "e", Keyword::NoneKw);
                    proof {
                        if lex.len() >= 3 {
                            assert(lex.subrange(0, 3) =~= "none"@.subrange(0, 3));
                            assert("none"@.subrange(3, 4) =~= "e"@);
                            assert(lex.subrange(3, lex.len() as int) =~= self@.source.subrange(
                                self@.start + 3,
                                self@.current,
                            ));
                            lemma_keyword_split(lex, "none"@, 3);
                        }
                    }
                    t
                } else {
                    let t = self.check_keyword(2, "t", Keyword::Not);
                    proof {
                        assert(lex.subrange(0, 2) =~= "not"@.subrange(0, 2));
                        assert("not"@.subrange(2, 3) =~= "t"@);
                        assert(lex.subrange(2, lex.len() as int) =~= self@.source.subrange(
                            self@.start + 2,
                            self@.current,
                        ));
                        lemma_keyword_split(lex, "not"@, 2);
                    }
                    t
                }
            } else {
                proof {
                    if lex.len() > 1 {
                        assert(lex[1] == self@.source[self@.start + 1]);
                    }
                }
                TokenType::Identifier
            }
        } else {
            TokenType::Identifier
        }
    }

    /// The character at `index`, or `'\0'` past the end of the source.
    fn char_at_or_nul(&self, index: usize) -> (c: char)
        requires
            self.wf(),
        ensures
            c == char_at(self@.source, index as int),
    {
        if index >= self.length {
            '\0'
        } else {
            self.source_at(index)
        }
    }

    /// Whether the pending lexeme is `rest` after its first `start`
    /// characters, with nothing behind: the keyword's type exactly when
    /// both the length and the remaining characters agree, since a lexeme
    /// that merely begins with the keyword is still an identifier.
    fn check_keyword(&self, start: usize, rest: &str, keyword_type: Keyword) -> (t: TokenType)
        requires
            self.wf(),
            start + rest@.len() < usize::MAX,
        ensures
            t == (if self@.current - self@.start == start + rest@.len()
                && self@.source.subrange(self@.start + start, self@.current) == rest@ {
                TokenType::Keyword(keyword_type)
            } else {
                TokenType::Identifier
            }),
    {
        let rest_len = rest.unicode_len();
        let same_length = self.current_length() == start + rest_len;
        if !same_length {
            return TokenType::Identifier;
        }
        let base = self.start + start;
        let mut j: usize = 0;
        while j < rest_len
            invariant
                self.wf(),
                base == self@.start + start,
                base + rest_len == self@.current,
                rest_len == rest@.len(),
                j <= rest_len,
                forall|k: int| 0 <= k < j ==> self@.source[base + k] == rest@[k],
            decreases rest_len - j,
        {
            if self.source_at(base + j) != rest.get_char(j) {
                proof {
                    assert(self@.source.subrange(self@.start + start, self@.current)[j as int]
                        != rest@[j as int]);
                }
                return TokenType::Identifier;
            }
            j = j + 1;
        }
        proof {
            assert(self@.source.subrange(self@.start + start, self@.current) =~= rest@);
        }
        TokenType::Keyword(keyword_type)
    }

    /// The token of the pending lexeme, with the given type.
    fn make_token(&self, token_type: TokenType) -> (t: Token)
        requires
            self.wf(),
        ensures
            t@.token_type == token_type,
            t@.lexeme == self@.source.subrange(self@.start, self@.current),
            t@.line == self@.line,
    {
        Token::new(token_type, self)
    }

    /// Consumes the expected character and makes an `if_match` token when
    /// it is next, and makes an `or_else` token otherwise.
    fn make_token_or_else(&mut self, expected: char, if_match: TokenType, or_else: TokenType) -> (t:
        Token)
        requires
            old(self).wf(),
        ensures
            final(self).wf(),
            ({
                let matched = old(self)@.current < old(self)@.source.len() && old(self)@.source[old(
                    self,
                )@.current] == expected;
                &&& final(self)@ == (ScannerModel {
                    current: if matched {
                        old(self)@.current + 1
                    } else {
                        old(self)@.current
                    },
                    ..old(self)@
                })
                &&& t@.token_type == if matched {
                    if_match
                } else {
                    or_else
                }
                &&& t@.lexeme == old(self)@.source.subrange(old(self)@.start, final(self)@.current)
                &&& t@.line == old(self)@.line
            }),
    {
        let token_type = if self.match_char(expected) {
            if_match
        } else {
            or_else
        };
        self.make_token(token_type)
    }
}

} // verus!
