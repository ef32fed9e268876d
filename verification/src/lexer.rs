//! The lexer: a character-to-token scanner with one character of lookahead.
//! Once input is exhausted it yields `Eof` forever; a character that starts
//! no token also ends the scan with `Eof`.

use vstd::prelude::*;

verus! {

use vstd::string::{StrSliceExecFns, StringExecFns};
use crate::token::{Token, TokenKind, TokenV, keyword_kind, look_up_Ident};

/// Whether a character can appear in an identifier.
pub open spec fn spec_is_letter(c: char) -> bool {
    ('a' <= c && c <= 'z') || ('A' <= c && c <= 'Z')
}

/// Whether a character is a decimal digit.
pub open spec fn spec_is_digit(c: char) -> bool {
    '0' <= c && c <= '9'
}

fn is_letter(c: char) -> (r: bool)
    ensures
        r == spec_is_letter(c),
{
    ('a' <= c && c <= 'z') || ('A' <= c && c <= 'Z')
}

fn is_digit(c: char) -> (r: bool)
    ensures
        r == spec_is_digit(c),
{
    '0' <= c && c <= '9'
}

/// The character under the cursor, or the NUL sentinel past the end.
pub open spec fn char_at(input: Seq<char>, pos: int) -> char {
    if 0 <= pos < input.len() {
        input[pos]
    } else {
        '\u{0}'
    }
}

/// Whether a character is horizontal or vertical whitespace.
pub open spec fn spec_is_whitespace(c: char) -> bool {
    c == ' ' || c == '\t' || c == '\n' || c == '\r'
}

/// The first position at or after `pos` holding no whitespace.
pub open spec fn skip_ws_from(input: Seq<char>, pos: int) -> int
    decreases input.len() - pos,
{
    if 0 <= pos < input.len() && spec_is_whitespace(input[pos]) {
        skip_ws_from(input, pos + 1)
    } else {
        pos
    }
}

/// The end of the maximal run of letters starting at `pos`.
pub open spec fn word_end(input: Seq<char>, pos: int) -> int
    decreases input.len() - pos,
{
    if 0 <= pos < input.len() && spec_is_letter(input[pos]) {
        word_end(input, pos + 1)
    } else {
        pos
    }
}

/// The end of the maximal run of digits starting at `pos`.
pub open spec fn number_end(input: Seq<char>, pos: int) -> int
    decreases input.len() - pos,
{
    if 0 <= pos < input.len() && spec_is_digit(input[pos]) {
        number_end(input, pos + 1)
    } else {
        pos
    }
}

/// What one scan step produces: the token, and the cursor after it.
pub struct ScanOut {
    pub token: TokenV,
    pub pos: int,
}

/// The token scanned at `pos` (whitespace already skipped): maximal-munch
/// words and numbers, two-character `==`/`!=`, single-character operators
/// and delimiters; anything else — the end of input included — is `Eof`.
/// The cursor saturates one step past the end of the input.
pub open spec fn token_at(input: Seq<char>, pos: int) -> ScanOut {
    let c = char_at(input, pos);
    if spec_is_letter(c) {
        let end = word_end(input, pos);
        let word = input.subrange(pos, end);
        ScanOut { token: TokenV { kind: keyword_kind(word), literal: word }, pos: end }
    } else if spec_is_digit(c) {
        let end = number_end(input, pos);
        ScanOut {
            token: TokenV { kind: TokenKind::Int, literal: input.subrange(pos, end) },
            pos: end,
        }
    } else if c == '=' {
        if char_at(input, pos + 1) == '=' {
            ScanOut { token: TokenV { kind: TokenKind::Equal, literal: "=="@ }, pos: pos + 2 }
        } else {
            ScanOut { token: TokenV { kind: TokenKind::Assign, literal: "="@ }, pos: pos + 1 }
        }
    } else if c == '!' {
        if char_at(input, pos + 1) == '=' {
            ScanOut { token: TokenV { kind: TokenKind::NotEqual, literal: "!="@ }, pos: pos + 2 }
        } else {
            ScanOut { token: TokenV { kind: TokenKind::Bang, literal: "!"@ }, pos: pos + 1 }
        }
    } else if c == '+' {
        ScanOut { token: TokenV { kind: TokenKind::Plus, literal: "+"@ }, pos: pos + 1 }
    } else if c == '-' {
        ScanOut { token: TokenV { kind: TokenKind::Minus, literal: "-"@ }, pos: pos + 1 }
    } else if c == '/' {
        ScanOut { token: TokenV { kind: TokenKind::Slash, literal: "/"@ }, pos: pos + 1 }
    } else if c == '*' {
        ScanOut { token: TokenV { kind: TokenKind::Aster, literal: "*"@ }, pos: pos + 1 }
    } else if c == ';' {
        ScanOut { token: TokenV { kind: TokenKind::Semicolon, literal: ";"@ }, pos: pos + 1 }
    } else if c == '(' {
        ScanOut { token: TokenV { kind: TokenKind::Lparen, literal: "("@ }, pos: pos + 1 }
    } else if c == ')' {
        ScanOut { token: TokenV { kind: TokenKind::Rparen, literal: ")"@ }, pos: pos + 1 }
    } else if c == ',' {
        ScanOut { token: TokenV { kind: TokenKind::Comma, literal: ","@ }, pos: pos + 1 }
    } else if c == '{' {
        ScanOut { token: TokenV { kind: TokenKind::Lbrace, literal: "{"@ }, pos: pos + 1 }
    } else if c == '}' {
        ScanOut { token: TokenV { kind: TokenKind::Rbrace, literal: "}"@ }, pos: pos + 1 }
    } else if c == '>' {
        ScanOut { token: TokenV { kind: TokenKind::GreaterThan, literal: ">"@ }, pos: pos + 1 }
    } else if c == '<' {
        ScanOut { token: TokenV { kind: TokenKind::LessThan, literal: "<"@ }, pos: pos + 1 }
    } else {
        ScanOut {
            token: TokenV { kind: TokenKind::Eof, literal: Seq::empty() },
            pos: if pos <= input.len() {
                pos + 1
            } else {
                pos
            },
        }
    }
}

/// The token the scanner yields from a given cursor: skip whitespace, then
/// scan.
pub open spec fn spec_next_token(input: Seq<char>, pos: int) -> ScanOut {
    token_at(input, skip_ws_from(input, pos))
}

/// The scanner's cursor state. `position` points at the current character,
/// `read_position` one past it; both stop one step past the end of the
/// input, where the current character is the NUL sentinel.
pub struct Lexer {
    input: String,
    position: usize,
    read_position: usize,
    ch: char,
}

impl Lexer {
    /// The scanner's structural invariant: cursors in bounds, lookahead one
    /// ahead, and the cached character matching the cursor.
    pub closed spec fn wf(&self) -> bool {
        &&& self.input@.len() < usize::MAX
        &&& self.read_position <= self.input@.len() + 1
        &&& self.position <= self.read_position
        &&& self.position <= self.input@.len() + 1
        &&& (self.position <= self.input@.len() ==> self.read_position == self.position + 1)
        &&& self.ch == char_at(self.input@, self.position as int)
    }

    /// Whether the scan has consumed the whole input.
    pub closed spec fn exhausted(&self) -> bool {
        self.position >= self.input@.len()
    }

    /// The characters being scanned.
    pub closed spec fn text(&self) -> Seq<char> {
        self.input@
    }

    /// The cursor: the position of the current character.
    pub closed spec fn cursor(&self) -> int {
        self.position as int
    }

    /// A scanner over `input`, positioned at its first character.
    pub fn new(input: &str) -> (lexer: Lexer)
        requires
            input@.len() < usize::MAX,
        ensures
            lexer.wf(),
            lexer.text() == input@,
            lexer.cursor() == 0,
    {
        let mut lexer = Lexer {
            input: input.to_owned(),
            position: 0,
            read_position: 0,
            ch: '\u{0}',
        };
        lexer.read_char();
        lexer
    }

    /// Advances the cursor one character; past the end it stays put and the
    /// current character is the NUL sentinel.
    fn read_char(&mut self)
        requires
            old(self).input@.len() < usize::MAX,
            old(self).read_position <= old(self).input@.len() + 1,
        ensures
            final(self).wf(),
            final(self).input == old(self).input,
            final(self).position == old(self).read_position,
    {
        let n = self.input.as_str().unicode_len();
        if self.read_position < n {
            self.ch = self.input.as_str().get_char(self.read_position);
        } else {
            self.ch = '\u{0}';
        }
        self.position = self.read_position;
        if self.read_position <= n {
            self.read_position = self.read_position + 1;
        }
    }

    /// The character after the current one, without advancing.
    fn peek_char(&self) -> (c: char)
        requires
            self.wf(),
        ensures
            c == char_at(self.input@, self.position as int + 1),
    {
        let n = self.input.as_str().unicode_len();
        if self.read_position < n {
            self.input.as_str().get_char(self.read_position)
        } else {
            '\u{0}'
        }
    }

    /// Scans the next token: exactly the one `spec_next_token` fixes for the
    /// cursor, which then stands right after it. At the end of input, and on
    /// any character that starts no token, the result is `Eof`, forever.
    pub fn next_token(&mut self) -> (token: Token)
        requires
            old(self).wf(),
        ensures
            final(self).wf(),
            final(self).text() == old(self).text(),
            ({
                let out = spec_next_token(old(self).text(), old(self).cursor());
                token.deep_view() == out.token && final(self).cursor() == out.pos
            }),
            old(self).exhausted() ==> token.deep_view() == (TokenV {
                kind: TokenKind::Eof,
                literal: Seq::empty(),
            }) && final(self).exhausted(),
    {
        self.skip_whitespace();

        let ch = self.ch;
        if is_letter(ch) {
            let literal = self.read_identifier();
            let kind = look_up_Ident(literal.as_str());
            return Token { kind, literal };
        }
        if is_digit(ch) {
            let literal = self.read_number();
            return Token { kind: TokenKind::Int, literal };
        }

        let token = if ch == '=' {
            if self.peek_char() == '=' {
                self.read_char();
                Token { kind: TokenKind::Equal, literal: String::from_str("==") }
            } else {
                Token { kind: TokenKind::Assign, literal: String::from_str("=") }
            }
        } else if ch == '+' {
            Token { kind: TokenKind::Plus, literal: String::from_str("+") }
        } else if ch == '-' {
            Token { kind: TokenKind::Minus, literal: String::from_str("-") }
        } else if ch == '/' {
            Token { kind: TokenKind::Slash, literal: String::from_str("/") }
        } else if ch == '*' {
            Token { kind: TokenKind::Aster, literal: String::from_str("*") }
        } else if ch == '!' {
            if self.peek_char() == '=' {
                self.read_char();
                Token { kind: TokenKind::NotEqual, literal: String::from_str("!=") }
            } else {
                Token { kind: TokenKind::Bang, literal: String::from_str("!") }
            }
        } else if ch == ';' {
            Token { kind: TokenKind::Semicolon, literal: String::from_str(";") }
        } else if ch == '(' {
            Token { kind: TokenKind::Lparen, literal: String::from_str("(") }
        } else if ch == ')' {
            Token { kind: TokenKind::Rparen, literal: String::from_str(")") }
        } else if ch == ',' {
            Token { kind: TokenKind::Comma, literal: String::from_str(",") }
        } else if ch == '{' {
            Token { kind: TokenKind::Lbrace, literal: String::from_str("{") }
        } else if ch == '}' {
            Token { kind: TokenKind::Rbrace, literal: String::from_str("}") }
        } else if ch == '>' {
            Token { kind: TokenKind::GreaterThan, literal: String::from_str(">") }
        } else if ch == '<' {
            Token { kind: TokenKind::LessThan, literal: String::from_str("<") }
        } else {
            proof {
                reveal_strlit("");
                assert(""@ =~= Seq::<char>::empty());
            }
            Token { kind: TokenKind::Eof, literal: String::from_str("") }
        };

        self.read_char();
        token
    }

    /// Scans an identifier: the maximal run of letters from the cursor.
    fn read_identifier(&mut self) -> (literal: String)
        requires
            old(self).wf(),
            spec_is_letter(old(self).ch),
        ensures
            final(self).wf(),
            final(self).input == old(self).input,
            final(self).position as int == word_end(old(self).input@, old(self).position as int),
            literal@ == old(self).input@.subrange(
                old(self).position as int,
                word_end(old(self).input@, old(self).position as int),
            ),
    {
        let start = self.position;
        proof {
            assert(self.position < self.input@.len());
        }
        while ('a' <= self.ch && self.ch <= 'z') || ('A' <= self.ch && self.ch <= 'Z')
            invariant
                self.wf(),
                start <= self.position,
                self.position <= self.input@.len(),
                self.input == old(self).input,
                word_end(self.input@, start as int) == word_end(self.input@, self.position as int),
            decreases self.input@.len() - self.position,
        {
            self.read_char();
        }
        self.input.as_str().substring_char(start, self.position).to_owned()
    }

    /// Scans a number: the maximal run of digits from the cursor.
    fn read_number(&mut self) -> (literal: String)
        requires
            old(self).wf(),
            spec_is_digit(old(self).ch),
        ensures
            final(self).wf(),
            final(self).input == old(self).input,
            final(self).position as int == number_end(old(self).input@, old(self).position as int),
            literal@ == old(self).input@.subrange(
                old(self).position as int,
                number_end(old(self).input@, old(self).position as int),
            ),
    {
        let start = self.position;
        proof {
            assert(self.position < self.input@.len());
        }
        while '0' <= self.ch && self.ch <= '9'
            invariant
                self.wf(),
                start <= self.position,
                self.position <= self.input@.len(),
                self.input == old(self).input,
                number_end(self.input@, start as int) == number_end(
                    self.input@,
                    self.position as int,
                ),
            decreases self.input@.len() - self.position,
        {
            self.read_char();
        }
        self.input.as_str().substring_char(start, self.position).to_owned()
    }

    /// Skips the whitespace run under the cursor.
    fn skip_whitespace(&mut self)
        requires
            old(self).wf(),
        ensures
            final(self).wf(),
            final(self).input == old(self).input,
            final(self).position >= old(self).position,
            final(self).position as int == skip_ws_from(old(self).input@, old(self).position as int),
    {
        while self.ch == ' ' || self.ch == '\t' || self.ch == '\n' || self.ch == '\r'
            invariant
                self.wf(),
                self.input == old(self).input,
                self.position >= old(self).position,
                skip_ws_from(self.input@, old(self).position as int) == skip_ws_from(
                    self.input@,
                    self.position as int,
                ),
            decreases self.input@.len() + 2 - self.position,
        {
            self.read_char();
        }
    }
}

} // verus!
