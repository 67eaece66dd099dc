//! The tokenizer: turns source text into lexical tokens. It is a
//! collaborator of the pipeline — nothing here consumes its output — but
//! its scanning rules are stated and proved like the rest.

use vstd::prelude::*;

verus! {

/// Mathematical shape of a token: texts are character sequences.
pub enum TokenView {
    Number(i64),
    Text(Seq<char>),
    Identifier(Seq<char>),
    Equal,
    Plus,
    Minus,
    Asterisk,
    Slash,
    LeftParen,
    RightParen,
    LeftBrace,
    RightBrace,
    Semicolon,
    If,
    Else,
    While,
    Let,
    EOF,
    Unexpected(char),
}

/// One lexical token. A character no rule covers is returned as
/// `Unexpected` rather than stopping the scanner.
#[derive(Debug, PartialEq)]
pub enum Token {
    Number(i64),
    Text(String),
    Identifier(String),
    Equal,
    Plus,
    Minus,
    Asterisk,
    Slash,
    LeftParen,
    RightParen,
    LeftBrace,
    RightBrace,
    Semicolon,
    If,
    Else,
    While,
    Let,
    EOF,
    Unexpected(char),
}

impl View for Token {
    type V = TokenView;

    open spec fn view(&self) -> TokenView {
        match self {
            Token::Number(n) => TokenView::Number(*n),
            Token::Text(s) => TokenView::Text(s@),
            Token::Identifier(s) => TokenView::Identifier(s@),
            Token::Equal => TokenView::Equal,
            Token::Plus => TokenView::Plus,
            Token::Minus => TokenView::Minus,
            Token::Asterisk => TokenView::Asterisk,
            Token::Slash => TokenView::Slash,
            Token::LeftParen => TokenView::LeftParen,
            Token::RightParen => TokenView::RightParen,
            Token::LeftBrace => TokenView::LeftBrace,
            Token::RightBrace => TokenView::RightBrace,
            Token::Semicolon => TokenView::Semicolon,
            Token::If => TokenView::If,
            Token::Else => TokenView::Else,
            Token::While => TokenView::While,
            Token::Let => TokenView::Let,
            Token::EOF => TokenView::EOF,
            Token::Unexpected(c) => TokenView::Unexpected(*c),
        }
    }
}

/// Whitespace the scanner skips.
pub open spec fn is_space(c: char) -> bool {
    c == ' ' || c == '\t' || c == '\n' || c == '\r'
}

/// A decimal digit.
pub open spec fn is_digit(c: char) -> bool {
    48 <= c as u32 <= 57
}

/// A character that may open an identifier.
pub open spec fn is_ident_start(c: char) -> bool {
    (97 <= c as u32 <= 122) || (65 <= c as u32 <= 90) || c == '_'
}

/// A character that may continue an identifier.
pub open spec fn is_ident_continue(c: char) -> bool {
    is_ident_start(c) || is_digit(c)
}

/// The numeric value of a digit character.
pub open spec fn digit_val(c: char) -> int {
    c as u32 - 48
}

/// The first position at or after `i` holding no whitespace.
pub open spec fn ws_end(s: Seq<char>, i: nat) -> nat
    decreases s.len() - i,
{
    if i >= s.len() || !is_space(s[i as int]) {
        i
    } else {
        ws_end(s, i + 1)
    }
}

/// The first position at or after `i` holding no digit.
pub open spec fn num_end(s: Seq<char>, i: nat) -> nat
    decreases s.len() - i,
{
    if i >= s.len() || !is_digit(s[i as int]) {
        i
    } else {
        num_end(s, i + 1)
    }
}

/// The first position at or after `i` holding no identifier character.
pub open spec fn ident_end(s: Seq<char>, i: nat) -> nat
    decreases s.len() - i,
{
    if i >= s.len() || !is_ident_continue(s[i as int]) {
        i
    } else {
        ident_end(s, i + 1)
    }
}

/// The position of the closing quote at or after `i`, or the end of input
/// when the text is unterminated.
pub open spec fn str_end(s: Seq<char>, i: nat) -> nat
    decreases s.len() - i,
{
    if i >= s.len() || s[i as int] == '"' {
        i
    } else {
        str_end(s, i + 1)
    }
}

/// The value of the digit run `[i, j)`, accumulated left to right with
/// 64-bit wrapping arithmetic.
pub open spec fn digits_val(s: Seq<char>, i: nat, j: nat) -> i64
    decreases j - i,
{
    if j <= i {
        0
    } else {
        crate::value::num_add(
            crate::value::num_mul(digits_val(s, i, (j - 1) as nat), 10),
            digit_val(s[j - 1]) as i64,
        )
    }
}

/// The keyword an identifier spelling denotes, or the identifier itself.
pub open spec fn keyword_or_ident(name: Seq<char>) -> TokenView {
    if name == "if"@ {
        TokenView::If
    } else if name == "else"@ {
        TokenView::Else
    } else if name == "while"@ {
        TokenView::While
    } else if name == "let"@ {
        TokenView::Let
    } else {
        TokenView::Identifier(name)
    }
}

/// The next token of `s` starting at `pos`, and the position after it:
/// the reference semantics of `Lexer::next_token`.
pub open spec fn lex_next(s: Seq<char>, pos: nat) -> (TokenView, nat) {
    let i = ws_end(s, pos);
    if i >= s.len() {
        (TokenView::EOF, i)
    } else {
        let c = s[i as int];
        if is_digit(c) {
            (TokenView::Number(digits_val(s, i, num_end(s, i))), num_end(s, i))
        } else if c == '"' {
            let j = str_end(s, i + 1);
            if j < s.len() {
                (TokenView::Text(s.subrange(i as int + 1, j as int)), j + 1)
            } else {
                (TokenView::Text(s.subrange(i as int + 1, j as int)), j)
            }
        } else if is_ident_start(c) {
            (keyword_or_ident(s.subrange(i as int, ident_end(s, i) as int)), ident_end(s, i))
        } else if c == '=' {
            (TokenView::Equal, i + 1)
        } else if c == '+' {
            (TokenView::Plus, i + 1)
        } else if c == '-' {
            (TokenView::Minus, i + 1)
        } else if c == '*' {
            (TokenView::Asterisk, i + 1)
        } else if c == '/' {
            (TokenView::Slash, i + 1)
        } else if c == '(' {
            (TokenView::LeftParen, i + 1)
        } else if c == ')' {
            (TokenView::RightParen, i + 1)
        } else if c == '{' {
            (TokenView::LeftBrace, i + 1)
        } else if c == '}' {
            (TokenView::RightBrace, i + 1)
        } else if c == ';' {
            (TokenView::Semicolon, i + 1)
        } else {
            (TokenView::Unexpected(c), i + 1)
        }
    }
}

fn char_is_space(c: char) -> (b: bool)
    ensures
        b == is_space(c),
{
    c == ' ' || c == '\t' || c == '\n' || c == '\r'
}

fn char_is_digit(c: char) -> (b: bool)
    ensures
        b == is_digit(c),
{
    let u = c as u32;
    48 <= u && u <= 57
}

fn char_is_ident_start(c: char) -> (b: bool)
    ensures
        b == is_ident_start(c),
{
    let u = c as u32;
    (97 <= u && u <= 122) || (65 <= u && u <= 90) || c == '_'
}

fn char_is_ident_continue(c: char) -> (b: bool)
    ensures
        b == is_ident_continue(c),
{
    char_is_ident_start(c) || char_is_digit(c)
}

/// Scans source text left to right, one token per call.
pub struct Lexer {
    text: String,
    pos: usize,
}

impl View for Lexer {
    /// The input characters and the current scan position.
    type V = (Seq<char>, nat);

    closed spec fn view(&self) -> (Seq<char>, nat) {
        (self.text@, self.pos as nat)
    }
}

impl Lexer {
    /// A scanner over `input`, positioned at its start.
    pub fn new(input: &str) -> (lx: Lexer)
        ensures
            lx@ == (input@, 0nat),
    {
        Lexer { text: input.to_owned(), pos: 0 }
    }

    /// Advances the position past any whitespace.
    pub fn skip_whitespace(&mut self)
        ensures
            final(self)@.0 == old(self)@.0,
            final(self)@.1 == ws_end(old(self)@.0, old(self)@.1),
    {
        let n = self.text.as_str().unicode_len();
        while self.pos < n && char_is_space(self.text.as_str().get_char(self.pos))
            invariant
                n == self.text@.len(),
                self.text@ == old(self)@.0,
                ws_end(old(self)@.0, old(self)@.1) == ws_end(self.text@, self.pos as nat),
            decreases n - self.pos,
        {
            self.pos = self.pos + 1;
        }
    }

    /// Scans the rest of a number token whose first digit was consumed.
    fn number(&mut self, first_digit: char) -> (t: Token)
        requires
            1 <= old(self)@.1 <= old(self)@.0.len(),
            old(self)@.0[old(self)@.1 - 1] == first_digit,
            is_digit(first_digit),
        ensures
            final(self)@.0 == old(self)@.0,
            ({
                let s = old(self)@.0;
                let start = (old(self)@.1 - 1) as nat;
                t@ == TokenView::Number(digits_val(s, start, num_end(s, start)))
                    && final(self)@.1 == num_end(s, start)
            }),
    {
        let ghost s = self.text@;
        let ghost start = (self.pos - 1) as nat;
        let mut value: i64 = (first_digit as u32 - 48) as i64;
        proof {
            assert(digits_val(s, start, start) == 0);
            assert(value == digits_val(s, start, start + 1));
        }
        let n = self.text.as_str().unicode_len();
        while self.pos < n && char_is_digit(self.text.as_str().get_char(self.pos))
            invariant
                n == s.len(),
                self.text@ == s,
                start < self.pos <= n,
                value == digits_val(s, start, self.pos as nat),
                num_end(s, start) == num_end(s, self.pos as nat),
            decreases n - self.pos,
        {
            let c = self.text.as_str().get_char(self.pos);
            let d: i64 = (c as u32 - 48) as i64;
            value = value.wrapping_mul(10).wrapping_add(d);
            self.pos = self.pos + 1;
        }
        Token::Number(value)
    }

    /// Scans the rest of a quoted text token whose opening quote was
    /// consumed; an unterminated text runs to the end of input.
    fn string(&mut self) -> (t: Token)
        requires
            old(self)@.1 <= old(self)@.0.len(),
        ensures
            final(self)@.0 == old(self)@.0,
            ({
                let s = old(self)@.0;
                let j = str_end(s, old(self)@.1);
                let after: int = if j < s.len() { j as int + 1 } else { j as int };
                t@ == TokenView::Text(s.subrange(old(self)@.1 as int, j as int))
                    && final(self)@.1 == after
            }),
    {
        let ghost s = self.text@;
        let start = self.pos;
        let n = self.text.as_str().unicode_len();
        while self.pos < n && self.text.as_str().get_char(self.pos) != '"'
            invariant
                n == s.len(),
                self.text@ == s,
                start <= self.pos <= n,
                str_end(s, start as nat) == str_end(s, self.pos as nat),
            decreases n - self.pos,
        {
            self.pos = self.pos + 1;
        }
        let piece = self.text.as_str().substring_char(start, self.pos).to_owned();
        if self.pos < n {
            self.pos = self.pos + 1;
        }
        Token::Text(piece)
    }

    /// Scans the rest of an identifier or keyword whose first character was
    /// consumed.
    fn identifier(&mut self, first_char: char) -> (t: Token)
        requires
            1 <= old(self)@.1 <= old(self)@.0.len(),
            old(self)@.0[old(self)@.1 - 1] == first_char,
            is_ident_start(first_char),
        ensures
            final(self)@.0 == old(self)@.0,
            ({
                let s = old(self)@.0;
                let start = (old(self)@.1 - 1) as nat;
                let j = ident_end(s, start);
                t@ == keyword_or_ident(s.subrange(start as int, j as int)) && final(self)@.1 == j
            }),
    {
        let ghost s = self.text@;
        let start = self.pos - 1;
        let n = self.text.as_str().unicode_len();
        proof {
            assert(ident_end(s, start as nat) == ident_end(s, self.pos as nat));
        }
        while self.pos < n && char_is_ident_continue(self.text.as_str().get_char(self.pos))
            invariant
                n == s.len(),
                self.text@ == s,
                start < self.pos <= n,
                ident_end(s, start as nat) == ident_end(s, self.pos as nat),
            decreases n - self.pos,
        {
            self.pos = self.pos + 1;
        }
        let ident = self.text.as_str().substring_char(start, self.pos).to_owned();
        if ident.eq(&String::from_str("if")) {
            Token::If
        } else if ident.eq(&String::from_str("else")) {
            Token::Else
        } else if ident.eq(&String::from_str("while")) {
            Token::While
        } else if ident.eq(&String::from_str("let")) {
            Token::Let
        } else {
            Token::Identifier(ident)
        }
    }

    /// Scans and returns the next token, advancing the position past it,
    /// exactly as `lex_next` describes.
    pub fn next_token(&mut self) -> (t: Token)
        ensures
            final(self)@.0 == old(self)@.0,
            t@ == lex_next(old(self)@.0, old(self)@.1).0,
            final(self)@.1 == lex_next(old(self)@.0, old(self)@.1).1,
    {
        self.skip_whitespace();
        let n = self.text.as_str().unicode_len();
        if self.pos >= n {
            return Token::EOF;
        }
        let ch = self.text.as_str().get_char(self.pos);
        self.pos = self.pos + 1;
        if char_is_digit(ch) {
            self.number(ch)
        } else if ch == '"' {
            self.string()
        } else if char_is_ident_start(ch) {
            self.identifier(ch)
        } else if ch == '=' {
            Token::Equal
        } else if ch == '+' {
            Token::Plus
        } else if ch == '-' {
            Token::Minus
        } else if ch == '*' {
            Token::Asterisk
        } else if ch == '/' {
            Token::Slash
        } else if ch == '(' {
            Token::LeftParen
        } else if ch == ')' {
            Token::RightParen
        } else if ch == '{' {
            Token::LeftBrace
        } else if ch == '}' {
            Token::RightBrace
        } else if ch == ';' {
            Token::Semicolon
        } else {
            Token::Unexpected(ch)
        }
    }
}

} // verus!
