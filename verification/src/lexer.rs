//! The scanner: raw source text to a token stream.
//!
//! The scanner is ASCII-oriented: whitespace is space, tab, carriage return
//! and newline; identifiers are ASCII letters, digits and underscores. Any
//! other character outside a string or comment is a lexical error. Line
//! counting is 1-based and increments on every newline consumed, including
//! newlines inside strings and comments.

use vstd::prelude::*;
use crate::num::{Num, sp_num_value};
use crate::text::{chars_of, string_from_chars};
use crate::token::{Token, TokenType, TokenTypeV, TokenV};

verus! {

#[derive(Clone, Copy, PartialEq, Eq, Structural, Debug)]
pub struct LexError {
    pub ch: char,
    pub line: usize,
}

pub uninterp spec fn is_unicode_ws(c: char) -> bool;

pub uninterp spec fn is_unicode_alpha(c: char) -> bool;

pub uninterp spec fn is_unicode_alnum(c: char) -> bool;

/// Relies on char::is_whitespace: whether `c` has the Unicode whitespace
/// property, a function of the character alone.
#[verifier::external_body]
fn char_is_whitespace(c: char) -> (r: bool)
    ensures
        r == is_unicode_ws(c),
{
    c.is_whitespace()
}

/// Relies on char::is_alphabetic: whether `c` is a Unicode letter, a
/// function of the character alone. A letter is in particular
/// alphanumeric.
#[verifier::external_body]
fn char_is_alphabetic(c: char) -> (r: bool)
    ensures
        r == is_unicode_alpha(c),
        r ==> is_unicode_alnum(c),
{
    c.is_alphabetic()
}

/// Relies on char::is_alphanumeric: whether `c` is a Unicode letter or
/// number, a function of the character alone. Control characters such as
/// the newline are neither.
#[verifier::external_body]
fn char_is_alphanumeric(c: char) -> (r: bool)
    ensures
        r == is_unicode_alnum(c),
        c == '\n' ==> !r,
{
    c.is_alphanumeric()
}

/// What the scanner skips between tokens: Unicode whitespace.
pub open spec fn is_ws(c: char) -> bool {
    is_unicode_ws(c)
}

pub open spec fn is_digit(c: char) -> bool {
    '0' <= c && c <= '9'
}

/// What may start an identifier: a Unicode letter or an underscore.
pub open spec fn is_ident_start(c: char) -> bool {
    is_unicode_alpha(c) || c == '_'
}

/// What may continue an identifier: a Unicode letter or number, or an
/// underscore.
pub open spec fn is_ident_char(c: char) -> bool {
    is_unicode_alnum(c) || c == '_'
}

/// The line counter after consuming `c`; it saturates rather than wrap.
pub open spec fn bump_line(line: int, c: char) -> int {
    if c == '\n' && line < usize::MAX {
        line + 1
    } else {
        line
    }
}

/// Where whitespace-and-comment skipping ends, and the line it ends on.
/// `in_comment` marks that a `//` has been entered and not yet closed by a
/// newline (the newline itself is left to the whitespace rule, so it still
/// bumps the line counter).
pub open spec fn sp_skip(input: Seq<char>, pos: int, line: int, in_comment: bool) -> (int, int)
    decreases input.len() - pos, (if in_comment { 1int } else { 0int }),
{
    if !(0 <= pos < input.len()) {
        (pos, line)
    } else if in_comment {
        if input[pos] == '\n' {
            sp_skip(input, pos, line, false)
        } else {
            sp_skip(input, pos + 1, line, true)
        }
    } else if is_ws(input[pos]) {
        sp_skip(input, pos + 1, bump_line(line, input[pos]), false)
    } else if input[pos] == '/' && pos + 1 < input.len() && input[pos + 1] == '/' {
        sp_skip(input, pos + 2, line, true)
    } else {
        (pos, line)
    }
}

/// The first position at or after `pos` whose character is not part of an
/// identifier.
pub open spec fn sp_ident_end(input: Seq<char>, pos: int) -> int
    decreases input.len() - pos,
{
    if 0 <= pos < input.len() && is_ident_char(input[pos]) {
        sp_ident_end(input, pos + 1)
    } else {
        pos
    }
}

/// The first position at or after `pos` whose character is neither a digit
/// nor a decimal point.
pub open spec fn sp_num_end(input: Seq<char>, pos: int) -> int
    decreases input.len() - pos,
{
    if 0 <= pos < input.len() && (is_digit(input[pos]) || input[pos] == '.') {
        sp_num_end(input, pos + 1)
    } else {
        pos
    }
}

/// What a backslash escape denotes: the five recognized escapes map to one
/// character, any other is kept literally, backslash included.
pub open spec fn sp_escape(c: char) -> Seq<char> {
    if c == 'n' {
        seq!['\n']
    } else if c == 't' {
        seq!['\t']
    } else if c == 'r' {
        seq!['\r']
    } else if c == '\\' {
        seq!['\\']
    } else if c == '"' {
        seq!['"']
    } else {
        seq!['\\', c]
    }
}

/// The decoded content of a string literal's body starting at `pos` (just
/// after the opening quote), with the position after the closing quote and
/// the line reached. An unterminated literal consumes to end of input.
pub open spec fn sp_string_body(input: Seq<char>, pos: int, line: int) -> (Seq<char>, int, int)
    decreases input.len() - pos,
{
    if !(0 <= pos < input.len()) {
        (Seq::empty(), pos, line)
    } else if input[pos] == '"' {
        (Seq::empty(), pos + 1, line)
    } else if input[pos] == '\\' {
        if pos + 1 < input.len() {
            let rest = sp_string_body(input, pos + 2, bump_line(line, input[pos + 1]));
            (sp_escape(input[pos + 1]) + rest.0, rest.1, rest.2)
        } else {
            (Seq::empty(), pos + 1, line)
        }
    } else {
        let rest = sp_string_body(input, pos + 1, bump_line(line, input[pos]));
        (seq![input[pos]] + rest.0, rest.1, rest.2)
    }
}

/// The keyword a spelled-out identifier denotes, if any.
pub open spec fn sp_keyword(s: Seq<char>) -> Option<TokenTypeV> {
    if s == seq!['l', 'e', 't'] {
        Some(TokenTypeV::Let)
    } else if s == seq!['i', 'f'] {
        Some(TokenTypeV::If)
    } else if s == seq!['e', 'l', 's', 'e'] {
        Some(TokenTypeV::Else)
    } else if s == seq!['w', 'h', 'i', 'l', 'e'] {
        Some(TokenTypeV::While)
    } else if s == seq!['p', 'r', 'i', 'n', 't'] {
        Some(TokenTypeV::Print)
    } else {
        None
    }
}

/// The next token starting at `pos`, with the position and line after it.
/// A stray `!` and any unrecognized character are lexical errors.
pub open spec fn sp_next_token(input: Seq<char>, pos: int, line: int) -> (
    Result<TokenV, LexError>,
    int,
    int,
) {
    let (p, l) = sp_skip(input, pos, line, false);
    if !(0 <= p < input.len()) {
        (Ok(TokenV { kind: TokenTypeV::Eof, line: l as usize }), p, l)
    } else {
        let c = input[p];
        if c == '+' {
            (Ok(TokenV { kind: TokenTypeV::Plus, line: l as usize }), p + 1, l)
        } else if c == '-' {
            (Ok(TokenV { kind: TokenTypeV::Minus, line: l as usize }), p + 1, l)
        } else if c == '*' {
            (Ok(TokenV { kind: TokenTypeV::Multiply, line: l as usize }), p + 1, l)
        } else if c == '/' {
            (Ok(TokenV { kind: TokenTypeV::Divide, line: l as usize }), p + 1, l)
        } else if c == '=' {
            if p + 1 < input.len() && input[p + 1] == '=' {
                (Ok(TokenV { kind: TokenTypeV::Equal, line: l as usize }), p + 2, l)
            } else {
                (Ok(TokenV { kind: TokenTypeV::Assign, line: l as usize }), p + 1, l)
            }
        } else if c == '!' {
            if p + 1 < input.len() && input[p + 1] == '=' {
                (Ok(TokenV { kind: TokenTypeV::NotEqual, line: l as usize }), p + 2, l)
            } else {
                (Err(LexError { ch: '!', line: l as usize }), p + 1, l)
            }
        } else if c == '<' {
            if p + 1 < input.len() && input[p + 1] == '=' {
                (Ok(TokenV { kind: TokenTypeV::LessEqual, line: l as usize }), p + 2, l)
            } else {
                (Ok(TokenV { kind: TokenTypeV::Less, line: l as usize }), p + 1, l)
            }
        } else if c == '>' {
            if p + 1 < input.len() && input[p + 1] == '=' {
                (Ok(TokenV { kind: TokenTypeV::GreaterEqual, line: l as usize }), p + 2, l)
            } else {
                (Ok(TokenV { kind: TokenTypeV::Greater, line: l as usize }), p + 1, l)
            }
        } else if c == '(' {
            (Ok(TokenV { kind: TokenTypeV::LeftParen, line: l as usize }), p + 1, l)
        } else if c == ')' {
            (Ok(TokenV { kind: TokenTypeV::RightParen, line: l as usize }), p + 1, l)
        } else if c == '{' {
            (Ok(TokenV { kind: TokenTypeV::LeftBrace, line: l as usize }), p + 1, l)
        } else if c == '}' {
            (Ok(TokenV { kind: TokenTypeV::RightBrace, line: l as usize }), p + 1, l)
        } else if c == ';' {
            (Ok(TokenV { kind: TokenTypeV::Semicolon, line: l as usize }), p + 1, l)
        } else if c == '"' {
            let (content, p2, l2) = sp_string_body(input, p + 1, l);
            (Ok(TokenV { kind: TokenTypeV::Str(content), line: l as usize }), p2, l2)
        } else if is_digit(c) {
            let e = sp_num_end(input, p);
            (
                Ok(TokenV { kind: TokenTypeV::Number(sp_num_value(input.subrange(p, e))), line: l as usize }),
                e,
                l,
            )
        } else if is_ident_start(c) {
            let e = sp_ident_end(input, p);
            let text = input.subrange(p, e);
            match sp_keyword(text) {
                Some(k) => (Ok(TokenV { kind: k, line: l as usize }), e, l),
                None => (Ok(TokenV { kind: TokenTypeV::Identifier(text), line: l as usize }), e, l),
            }
        } else {
            (Err(LexError { ch: c, line: l as usize }), p, l)
        }
    }
}

/// The whole token stream from `pos`: every stream ends with exactly one
/// `Eof` token, and the first lexical error aborts scanning.
pub open spec fn sp_tokenize(input: Seq<char>, pos: int, line: int) -> Result<
    Seq<TokenV>,
    LexError,
>
    decreases input.len() - pos,
{
    let (tr, p, l) = sp_next_token(input, pos, line);
    match tr {
        Err(e) => Err(e),
        Ok(t) => {
            if t.kind is Eof {
                Ok(seq![t])
            } else if pos < p <= input.len() {
                match sp_tokenize(input, p, l) {
                    Ok(rest) => Ok(seq![t] + rest),
                    Err(e) => Err(e),
                }
            } else {
                Ok(seq![t])
            }
        },
    }
}

pub struct Lexer {
    pub input: Vec<char>,
    pub position: usize,
    pub line: usize,
}

fn is_ws_exec(c: char) -> (r: bool)
    ensures
        r == is_ws(c),
{
    char_is_whitespace(c)
}

fn is_digit_exec(c: char) -> (r: bool)
    ensures
        r == is_digit(c),
{
    '0' <= c && c <= '9'
}

fn is_ident_start_exec(c: char) -> (r: bool)
    ensures
        r == is_ident_start(c),
        r ==> is_ident_char(c),
{
    char_is_alphabetic(c) || c == '_'
}

fn is_ident_char_exec(c: char) -> (r: bool)
    ensures
        r == is_ident_char(c),
        r ==> c != '\n',
{
    char_is_alphanumeric(c) || c == '_'
}

/// Maps a spelled-out identifier to its keyword token, if it is one.
fn keyword_token(v: &Vec<char>) -> (r: Option<TokenType>)
    ensures
        match r {
            Some(t) => sp_keyword(v@) == Some(t@),
            None => sp_keyword(v@) is None,
        },
{
    if v.len() == 3 && v[0] == 'l' && v[1] == 'e' && v[2] == 't' {
        proof {
            assert(v@ =~= seq!['l', 'e', 't']);
        }
        Some(TokenType::Let)
    } else if v.len() == 2 && v[0] == 'i' && v[1] == 'f' {
        proof {
            assert(v@ =~= seq!['i', 'f']);
        }
        Some(TokenType::If)
    } else if v.len() == 4 && v[0] == 'e' && v[1] == 'l' && v[2] == 's' && v[3] == 'e' {
        proof {
            assert(v@ =~= seq!['e', 'l', 's', 'e']);
        }
        Some(TokenType::Else)
    } else if v.len() == 5 && v[0] == 'w' && v[1] == 'h' && v[2] == 'i' && v[3] == 'l' && v[4]
        == 'e' {
        proof {
            assert(v@ =~= seq!['w', 'h', 'i', 'l', 'e']);
        }
        Some(TokenType::While)
    } else if v.len() == 5 && v[0] == 'p' && v[1] == 'r' && v[2] == 'i' && v[3] == 'n' && v[4]
        == 't' {
        proof {
            assert(v@ =~= seq!['p', 'r', 'i', 'n', 't']);
        }
        Some(TokenType::Print)
    } else {
        None
    }
}

impl Lexer {
    pub open spec fn wf(&self) -> bool {
        self.position <= self.input@.len()
    }

    pub fn new(input: String) -> (r: Lexer)
        ensures
            r.input@ == input@,
            r.position == 0,
            r.line == 1,
            r.wf(),
    {
        Lexer { input: chars_of(input.as_str()), position: 0, line: 1 }
    }

    pub fn peek(&self) -> (r: Option<char>)
        ensures
            r == (if self.position < self.input@.len() {
                Some(self.input@[self.position as int])
            } else {
                None::<char>
            }),
    {
        if self.position < self.input.len() {
            Some(self.input[self.position])
        } else {
            None
        }
    }

    pub fn peek_next(&self) -> (r: Option<char>)
        ensures
            r == (if self.position + 1 < self.input@.len() {
                Some(self.input@[self.position + 1])
            } else {
                None::<char>
            }),
    {
        if self.position < self.input.len() {
            let p2 = self.position + 1;
            if p2 < self.input.len() {
                Some(self.input[p2])
            } else {
                None
            }
        } else {
            None
        }
    }

    pub fn advance(&mut self) -> (r: Option<char>)
        requires
            old(self).wf(),
        ensures
            final(self).input == old(self).input,
            final(self).wf(),
            r == (if old(self).position < old(self).input@.len() {
                Some(old(self).input@[old(self).position as int])
            } else {
                None::<char>
            }),
            old(self).position < old(self).input@.len() ==> {
                &&& final(self).position == old(self).position + 1
                &&& final(self).line == bump_line(
                    old(self).line as int,
                    old(self).input@[old(self).position as int],
                )
            },
            old(self).position >= old(self).input@.len() ==> *final(self) == *old(self),
    {
        let ch = self.peek();
        match ch {
            Some(c) => {
                if c == '\n' && self.line < usize::MAX {
                    self.line = self.line + 1;
                }
                if self.position < self.input.len() {
                    self.position = self.position + 1;
                }
            },
            None => {},
        }
        ch
    }
}


/// The first position at or after `pos` holding a newline, or the end of
/// input: where a `//` comment's body ends.
pub open spec fn sp_comment_end(input: Seq<char>, pos: int) -> int
    decreases input.len() - pos,
{
    if 0 <= pos < input.len() && input[pos] != '\n' {
        sp_comment_end(input, pos + 1)
    } else {
        pos
    }
}

/// Skipping in comment mode reaches the comment's end and switches back to
/// whitespace mode there.
proof fn lemma_skip_comment(input: Seq<char>, pos: int, line: int)
    ensures
        sp_skip(input, pos, line, true) == sp_skip(input, sp_comment_end(input, pos), line, false),
    decreases input.len() - pos,
{
    if 0 <= pos < input.len() {
        if input[pos] != '\n' {
            lemma_skip_comment(input, pos + 1, line);
        }
    }
}

impl Lexer {
    pub fn skip_line_comment(&mut self)
        requires
            old(self).wf(),
        ensures
            final(self).input == old(self).input,
            final(self).line == old(self).line,
            final(self).wf(),
            old(self).position <= final(self).position,
            final(self).position as int == sp_comment_end(old(self).input@, old(self).position as int),
    {
        while self.position < self.input.len() && self.input[self.position] != '\n'
            invariant
                self.wf(),
                self.input == old(self).input,
                self.line == old(self).line,
                old(self).position <= self.position,
                sp_comment_end(self.input@, self.position as int) == sp_comment_end(
                    old(self).input@,
                    old(self).position as int,
                ),
            decreases self.input@.len() - self.position,
        {
            self.advance();
        }
    }

    pub fn skip_whitespace(&mut self)
        requires
            old(self).wf(),
        ensures
            final(self).input == old(self).input,
            final(self).wf(),
            old(self).position <= final(self).position,
            (final(self).position as int, final(self).line as int) == sp_skip(
                old(self).input@,
                old(self).position as int,
                old(self).line as int,
                false,
            ),
            final(self).position < final(self).input@.len() ==> !is_ws(
                final(self).input@[final(self).position as int],
            ),
            (final(self).position < final(self).input@.len()
                && final(self).input@[final(self).position as int] == '/'
                && final(self).position + 1 < final(self).input@.len())
                ==> final(self).input@[final(self).position + 1] != '/',
    {
        loop
            invariant
                self.wf(),
                self.input == old(self).input,
                old(self).position <= self.position,
                sp_skip(self.input@, self.position as int, self.line as int, false) == sp_skip(
                    old(self).input@,
                    old(self).position as int,
                    old(self).line as int,
                    false,
                ),
            ensures
                self.wf(),
                self.input == old(self).input,
                old(self).position <= self.position,
                (self.position as int, self.line as int) == sp_skip(
                    old(self).input@,
                    old(self).position as int,
                    old(self).line as int,
                    false,
                ),
                self.position < self.input@.len() ==> !is_ws(self.input@[self.position as int]),
                self.position < self.input@.len() && self.input@[self.position as int] == '/'
                    && self.position + 1 < self.input@.len() ==> self.input@[self.position + 1]
                    != '/',
            decreases self.input@.len() - self.position,
        {
            let ghost pos_i = self.position as int;
            let ghost line_i = self.line as int;
            let ch_opt = self.peek();
            match ch_opt {
                None => {
                    break ;
                },
                Some(ch) => {
                    if is_ws_exec(ch) {
                        self.advance();
                        assert(sp_skip(self.input@, pos_i, line_i, false) == sp_skip(
                            self.input@,
                            self.position as int,
                            self.line as int,
                            false,
                        ));
                    } else if ch == '/' && matches!(self.peek_next(), Some('/')) {
                        self.advance();
                        self.advance();
                        assert(self.position as int == pos_i + 2 && self.line as int == line_i);
                        self.skip_line_comment();
                        proof {
                            lemma_skip_comment(self.input@, pos_i + 2, line_i);
                            assert(sp_skip(self.input@, pos_i, line_i, false) == sp_skip(
                                self.input@,
                                pos_i + 2,
                                line_i,
                                true,
                            ));
                        }
                    } else {
                        break ;
                    }
                },
            }
        }
    }

    fn read_ident_chars(&mut self) -> (r: Vec<char>)
        requires
            old(self).wf(),
        ensures
            final(self).input == old(self).input,
            final(self).line == old(self).line,
            final(self).wf(),
            old(self).position <= final(self).position,
            final(self).position as int == sp_ident_end(old(self).input@, old(self).position as int),
            r@ == old(self).input@.subrange(old(self).position as int, final(self).position as int),
    {
        let mut identifier: Vec<char> = Vec::new();
        while self.position < self.input.len() && is_ident_char_exec(self.input[self.position])
            invariant
                self.wf(),
                self.input == old(self).input,
                self.line == old(self).line,
                old(self).position <= self.position,
                sp_ident_end(self.input@, self.position as int) == sp_ident_end(
                    old(self).input@,
                    old(self).position as int,
                ),
                identifier@ == self.input@.subrange(old(self).position as int, self.position as int),
            decreases self.input@.len() - self.position,
        {
            let c = self.input[self.position];
            identifier.push(c);
            self.advance();
            assert(identifier@ =~= self.input@.subrange(
                old(self).position as int,
                self.position as int,
            ));
        }
        identifier
    }

    /// The identifier's text, as a string.
    pub fn read_identifier(&mut self) -> (r: String)
        requires
            old(self).wf(),
        ensures
            final(self).input == old(self).input,
            final(self).line == old(self).line,
            final(self).wf(),
            old(self).position <= final(self).position,
            final(self).position as int == sp_ident_end(old(self).input@, old(self).position as int),
            r@ == old(self).input@.subrange(old(self).position as int, final(self).position as int),
    {
        let v = self.read_ident_chars();
        string_from_chars(&v)
    }

    /// Scans a maximal run of digits and decimal points and returns the
    /// number it denotes; a malformed run denotes zero.
    pub fn read_number(&mut self) -> (r: Num)
        requires
            old(self).wf(),
        ensures
            final(self).input == old(self).input,
            final(self).line == old(self).line,
            final(self).wf(),
            old(self).position <= final(self).position,
            final(self).position as int == sp_num_end(old(self).input@, old(self).position as int),
            r.mantissa as int == sp_num_value(
                old(self).input@.subrange(old(self).position as int, final(self).position as int),
            ),
    {
        let mut number: Vec<char> = Vec::new();
        while self.position < self.input.len() && (is_digit_exec(self.input[self.position])
            || self.input[self.position] == '.')
            invariant
                self.wf(),
                self.input == old(self).input,
                self.line == old(self).line,
                old(self).position <= self.position,
                sp_num_end(self.input@, self.position as int) == sp_num_end(
                    old(self).input@,
                    old(self).position as int,
                ),
                number@ == self.input@.subrange(old(self).position as int, self.position as int),
            decreases self.input@.len() - self.position,
        {
            let c = self.input[self.position];
            number.push(c);
            self.advance();
            assert(number@ =~= self.input@.subrange(
                old(self).position as int,
                self.position as int,
            ));
        }
        Num::from_literal_chars(&number)
    }

    fn read_string_body(&mut self, out: &mut Vec<char>)
        requires
            old(self).wf(),
        ensures
            final(self).input == old(self).input,
            final(self).wf(),
            ({
                let (content, p2, l2) = sp_string_body(
                    old(self).input@,
                    old(self).position as int,
                    old(self).line as int,
                );
                &&& final(out)@ == old(out)@ + content
                &&& final(self).position as int == p2
                &&& final(self).line as int == l2
            }),
            old(self).position <= final(self).position,
        decreases old(self).input@.len() - old(self).position,
    {
        let ghost pre = out@;
        match self.peek() {
            None => {
                assert(out@ =~= pre + Seq::<char>::empty());
            },
            Some(ch) => {
                if ch == '"' {
                    self.advance();
                    assert(out@ =~= pre + Seq::<char>::empty());
                } else if ch == '\\' {
                    self.advance();
                    match self.peek() {
                        Some(escaped) => {
                            match escaped {
                                'n' => out.push('\n'),
                                't' => out.push('\t'),
                                'r' => out.push('\r'),
                                '\\' => out.push('\\'),
                                '"' => out.push('"'),
                                _ => {
                                    out.push('\\');
                                    out.push(escaped);
                                },
                            }
                            assert(out@ =~= pre + sp_escape(escaped));
                            self.advance();
                            self.read_string_body(out);
                            proof {
                                let rest = sp_string_body(
                                    old(self).input@,
                                    old(self).position + 2,
                                    bump_line(old(self).line as int, escaped),
                                );
                                assert(out@ =~= pre + (sp_escape(escaped) + rest.0));
                            }
                        },
                        None => {
                            assert(out@ =~= pre + Seq::<char>::empty());
                        },
                    }
                } else {
                    out.push(ch);
                    self.advance();
                    self.read_string_body(out);
                    proof {
                        let rest = sp_string_body(
                            old(self).input@,
                            old(self).position + 1,
                            bump_line(old(self).line as int, ch),
                        );
                        assert(out@ =~= pre + (seq![ch] + rest.0));
                    }
                }
            },
        }
    }

    /// Reads a string literal, decoding escapes; the cursor starts on the
    /// opening quote. An unterminated literal consumes to end of input.
    pub fn read_string(&mut self) -> (r: String)
        requires
            old(self).wf(),
            old(self).position < old(self).input@.len(),
            old(self).input@[old(self).position as int] == '"',
        ensures
            final(self).input == old(self).input,
            final(self).wf(),
            ({
                let (content, p2, l2) = sp_string_body(
                    old(self).input@,
                    old(self).position + 1,
                    old(self).line as int,
                );
                &&& r@ == content
                &&& final(self).position as int == p2
                &&& final(self).line as int == l2
            }),
            old(self).position < final(self).position,
    {
        self.advance();
        let mut out: Vec<char> = Vec::new();
        self.read_string_body(&mut out);
        string_from_chars(&out)
    }
}


proof fn lemma_ident_end_ge(input: Seq<char>, pos: int)
    ensures
        sp_ident_end(input, pos) >= pos,
    decreases input.len() - pos,
{
    if 0 <= pos < input.len() && is_ident_char(input[pos]) {
        lemma_ident_end_ge(input, pos + 1);
    }
}

proof fn lemma_num_end_ge(input: Seq<char>, pos: int)
    ensures
        sp_num_end(input, pos) >= pos,
    decreases input.len() - pos,
{
    if 0 <= pos < input.len() && (is_digit(input[pos]) || input[pos] == '.') {
        lemma_num_end_ge(input, pos + 1);
    }
}

impl Lexer {
    /// The next token of the input, by the specification scanner
    /// `sp_next_token`, advancing the cursor past it.
    pub fn next_token(&mut self) -> (r: Result<Token, LexError>)
        requires
            old(self).wf(),
        ensures
            final(self).input == old(self).input,
            final(self).wf(),
            old(self).position <= final(self).position,
            ({
                let (tr, p, l) = sp_next_token(
                    old(self).input@,
                    old(self).position as int,
                    old(self).line as int,
                );
                &&& final(self).position as int == p
                &&& final(self).line as int == l
                &&& match r {
                    Ok(t) => tr == Ok::<TokenV, LexError>(t@),
                    Err(e) => tr == Err::<TokenV, LexError>(e),
                }
            }),
            (r matches Ok(t) && !(t@.kind is Eof)) ==> old(self).position < final(self).position,
            (r matches Ok(t) && t@.kind is Eof) ==> final(self).position
                == final(self).input@.len(),
    {
        self.skip_whitespace();
        let line = self.line;
        match self.peek() {
            None => Ok(Token { token_type: TokenType::Eof, line }),
            Some(ch) => {
                if ch == '+' {
                    self.advance();
                    Ok(Token { token_type: TokenType::Plus, line })
                } else if ch == '-' {
                    self.advance();
                    Ok(Token { token_type: TokenType::Minus, line })
                } else if ch == '*' {
                    self.advance();
                    Ok(Token { token_type: TokenType::Multiply, line })
                } else if ch == '/' {
                    self.advance();
                    Ok(Token { token_type: TokenType::Divide, line })
                } else if ch == '=' {
                    self.advance();
                    if matches!(self.peek(), Some('=')) {
                        self.advance();
                        Ok(Token { token_type: TokenType::Equal, line })
                    } else {
                        Ok(Token { token_type: TokenType::Assign, line })
                    }
                } else if ch == '!' {
                    self.advance();
                    if matches!(self.peek(), Some('=')) {
                        self.advance();
                        Ok(Token { token_type: TokenType::NotEqual, line })
                    } else {
                        Err(LexError { ch: '!', line })
                    }
                } else if ch == '<' {
                    self.advance();
                    if matches!(self.peek(), Some('=')) {
                        self.advance();
                        Ok(Token { token_type: TokenType::LessEqual, line })
                    } else {
                        Ok(Token { token_type: TokenType::Less, line })
                    }
                } else if ch == '>' {
                    self.advance();
                    if matches!(self.peek(), Some('=')) {
                        self.advance();
                        Ok(Token { token_type: TokenType::GreaterEqual, line })
                    } else {
                        Ok(Token { token_type: TokenType::Greater, line })
                    }
                } else if ch == '(' {
                    self.advance();
                    Ok(Token { token_type: TokenType::LeftParen, line })
                } else if ch == ')' {
                    self.advance();
                    Ok(Token { token_type: TokenType::RightParen, line })
                } else if ch == '{' {
                    self.advance();
                    Ok(Token { token_type: TokenType::LeftBrace, line })
                } else if ch == '}' {
                    self.advance();
                    Ok(Token { token_type: TokenType::RightBrace, line })
                } else if ch == ';' {
                    self.advance();
                    Ok(Token { token_type: TokenType::Semicolon, line })
                } else if ch == '"' {
                    let s = self.read_string();
                    Ok(Token { token_type: TokenType::Str(s), line })
                } else if is_digit_exec(ch) {
                    proof {
                        lemma_num_end_ge(self.input@, self.position + 1);
                    }
                    let n = self.read_number();
                    Ok(Token { token_type: TokenType::Number(n), line })
                } else if is_ident_start_exec(ch) {
                    proof {
                        lemma_ident_end_ge(self.input@, self.position + 1);
                    }
                    let chars = self.read_ident_chars();
                    match keyword_token(&chars) {
                        Some(t) => Ok(Token { token_type: t, line }),
                        None => Ok(
                            Token {
                                token_type: TokenType::Identifier(string_from_chars(&chars)),
                                line,
                            },
                        ),
                    }
                } else {
                    Err(LexError { ch, line })
                }
            },
        }
    }

    /// The whole token stream, ending with exactly one `Eof` token; the
    /// first lexical error aborts scanning.
    pub fn tokenize(&mut self) -> (r: Result<Vec<Token>, LexError>)
        requires
            old(self).wf(),
        ensures
            final(self).input == old(self).input,
            final(self).wf(),
            old(self).position <= final(self).position,
            r is Ok ==> final(self).position == final(self).input@.len(),
            match r {
                Ok(ts) => sp_tokenize(
                    old(self).input@,
                    old(self).position as int,
                    old(self).line as int,
                ) == Ok::<Seq<TokenV>, LexError>(ts.deep_view()),
                Err(e) => sp_tokenize(
                    old(self).input@,
                    old(self).position as int,
                    old(self).line as int,
                ) == Err::<Seq<TokenV>, LexError>(e),
            },
    {
        let ghost i0 = self.input@;
        let ghost p0 = self.position as int;
        let ghost l0 = self.line as int;
        let mut tokens: Vec<Token> = Vec::new();
        loop
            invariant
                self.wf(),
                self.input@ == i0,
                self.input == old(self).input,
                i0 == old(self).input@,
                p0 == old(self).position as int,
                l0 == old(self).line as int,
                old(self).position <= self.position,
                ({
                    match sp_tokenize(i0, self.position as int, self.line as int) {
                        Ok(rest) => sp_tokenize(i0, p0, l0) == Ok::<Seq<TokenV>, LexError>(
                            tokens.deep_view() + rest,
                        ),
                        Err(e) => sp_tokenize(i0, p0, l0) == Err::<Seq<TokenV>, LexError>(e),
                    }
                }),
            decreases i0.len() - self.position,
        {
            let ghost pos_i = self.position as int;
            let ghost line_i = self.line as int;
            let ghost pre = tokens.deep_view();
            proof {
                assert(match sp_tokenize(i0, pos_i, line_i) {
                    Ok(rest) => sp_tokenize(i0, p0, l0) == Ok::<Seq<TokenV>, LexError>(pre + rest),
                    Err(e) => sp_tokenize(i0, p0, l0) == Err::<Seq<TokenV>, LexError>(e),
                });
            }
            let next = self.next_token();
            match next {
                Err(e) => {
                    proof {
                        assert(sp_tokenize(i0, pos_i, line_i) == Err::<Seq<TokenV>, LexError>(e));
                    }
                    return Err(e);
                },
                Ok(t) => {
                    let is_eof = matches!(t.token_type, TokenType::Eof);
                    tokens.push(t);
                    assert(tokens.deep_view() =~= pre + seq![t@]);
                    if is_eof {
                        assert(sp_tokenize(i0, pos_i, line_i) == Ok::<Seq<TokenV>, LexError>(
                            seq![t@],
                        ));
                        assert(pre + seq![t@] =~= tokens.deep_view());
                        return Ok(tokens);
                    }
                    proof {
                        match sp_tokenize(i0, self.position as int, self.line as int) {
                            Ok(rest2) => {
                                assert(sp_tokenize(i0, pos_i, line_i) == Ok::<
                                    Seq<TokenV>,
                                    LexError,
                                >(seq![t@] + rest2));
                                assert(pre + (seq![t@] + rest2) =~= tokens.deep_view() + rest2);
                            },
                            Err(e2) => {
                                assert(sp_tokenize(i0, pos_i, line_i) == Err::<
                                    Seq<TokenV>,
                                    LexError,
                                >(e2));
                            },
                        }
                    }
                },
            }
        }
    }
}

} // verus!
