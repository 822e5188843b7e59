//! A toolchain for a small expression language: a lexer and parser build a
//! syntax tree, a tree-walking interpreter evaluates it directly, and a
//! bytecode compiler paired with a stack virtual machine executes it through
//! a dense instruction stream with a side constant pool.
//!
//! The crate root also carries an early, reduced lexer that recognizes only
//! assignment, arithmetic plus, delimiters, identifiers, integers, and the
//! `let` / `fn` keywords; the full lexer lives in the `lexer` module.

pub mod compiler;
pub mod helpers;
pub mod interpreter;
pub mod lexer;
pub mod numfmt;
pub mod parser;
pub mod symbol_table;
pub mod types;
pub mod vm;

use vstd::prelude::*;
use vstd::string::StrSliceExecFns;

use crate::lexer::helper::{is_digit, is_digit_spec, is_letter, is_letter_spec};
use crate::lexer::{advance, char_at, clamp, is_ws, scan_from, skip_ws};

verus! {

/// Failure raised by the reduced lexer. The lexer itself is total; this
/// survives in the interface for callers that treat lexing as fallible.
#[derive(Debug)]
pub struct LexerError;

/// Every kind of token the reduced lexer can produce.
#[derive(Debug, PartialEq, Clone, Copy, Eq, Structural)]
pub enum TokenType {
    Illegal,
    Eof,
    // Identifiers + literals
    Ident,
    Int,
    // Operators
    Assign,
    Plus,
    // Delimiters
    Comma,
    Semicolon,
    LParen,
    RParen,
    LBrace,
    RBrace,
    // Keywords
    Function,
    Let,
}

/// One token of the reduced lexer: its kind and its literal text.
#[derive(Debug, PartialEq)]
pub struct Token {
    pub typ: TokenType,
    pub literal: String,
}

/// The token type of an identifier in the reduced lexer: `let` and `fn`
/// are keywords, everything else an identifier.
pub open spec fn reduced_keyword_type(lit: Seq<char>) -> TokenType {
    if lit == "let"@ { TokenType::Let }
    else if lit == "fn"@ { TokenType::Function }
    else { TokenType::Ident }
}

/// The next token of the reduced lexer in `chars` when scanning starts at
/// cursor `pos`: its type, its literal text, and the cursor left behind.
pub open spec fn reduced_next_token_spec(chars: Seq<char>, pos: int) -> (
    TokenType,
    Seq<char>,
    int,
) {
    let p = skip_ws(chars, pos);
    let c = char_at(chars, p);
    if c == '=' { (TokenType::Assign, seq!['='], p + 1) }
    else if c == '+' { (TokenType::Plus, seq!['+'], p + 1) }
    else if c == ',' { (TokenType::Comma, seq![','], p + 1) }
    else if c == ';' { (TokenType::Semicolon, seq![';'], p + 1) }
    else if c == '(' { (TokenType::LParen, seq!['('], p + 1) }
    else if c == ')' { (TokenType::RParen, seq![')'], p + 1) }
    else if c == '{' { (TokenType::LBrace, seq!['{'], p + 1) }
    else if c == '}' { (TokenType::RBrace, seq!['}'], p + 1) }
    else if is_letter_spec(c) {
        let e = clamp(scan_from(chars, p + 1, |ch: char| is_letter_spec(ch)), chars.len() as int);
        let lit = chars.subrange(p, e);
        (reduced_keyword_type(lit), lit, e)
    } else if is_digit_spec(c) {
        let e = clamp(scan_from(chars, p + 1, |ch: char| is_digit_spec(ch)), chars.len() as int);
        (TokenType::Int, chars.subrange(p, e), e)
    } else if c == '\0' {
        (TokenType::Eof, Seq::empty(), advance(chars, p))
    } else {
        (TokenType::Illegal, Seq::empty(), p + 1)
    }
}

/// The reduced lexer's cursor state over its source text.
pub struct Lexer {
    src: String,
    chars: Vec<char>,
    position: usize,
    ch: char,
}

impl View for Lexer {
    type V = (Seq<char>, int);

    /// The source characters and the cursor.
    closed spec fn view(&self) -> (Seq<char>, int) {
        (self.chars@, self.position as int)
    }
}

impl Lexer {
    /// The cached character mirrors the cursor, and the character cache of
    /// the source text mirrors the source text.
    pub closed spec fn wf(&self) -> bool {
        &&& self.chars@ == self.src@
        &&& self.position <= self.chars@.len()
        &&& self.ch == char_at(self.chars@, self.position as int)
    }

    /// A lexer at the start of the nonempty source `src`.
    pub fn new(src: String) -> (r: Self)
        requires
            src@.len() > 0,
        ensures
            r.wf(),
            r@ == (src@, 0int),
    {
        let mut chars: Vec<char> = Vec::new();
        let n = src.as_str().unicode_len();
        let mut i: usize = 0;
        while i < n
            invariant
                n == src@.len(),
                i <= n,
                chars@ =~= src@.subrange(0, i as int),
            decreases n - i,
        {
            chars.push(src.as_str().get_char(i));
            i += 1;
        }
        proof {
            assert(chars@ =~= src@);
        }
        let first_char = chars[0];
        Self { src, chars, position: 0, ch: first_char }
    }

    /// Produces the next token and leaves the cursor after it, exactly as
    /// `reduced_next_token_spec` describes.
    pub fn next_token(&mut self) -> (r: Result<Token, LexerError>)
        requires
            old(self).wf(),
        ensures
            final(self).wf(),
            final(self)@.0 == old(self)@.0,
            r is Ok,
            ({
                let (t, lit, newpos) = reduced_next_token_spec(old(self)@.0, old(self)@.1);
                &&& r->Ok_0.typ == t
                &&& r->Ok_0.literal@ == lit
                &&& final(self)@.1 == newpos
            }),
    {
        self.eat_whitespace();

        let c = self.ch;

        let token: Token = if c == '=' {
            self.get_single_char_token(TokenType::Assign)
        } else if c == '+' {
            self.get_single_char_token(TokenType::Plus)
        } else if c == ',' {
            self.get_single_char_token(TokenType::Comma)
        } else if c == ';' {
            self.get_single_char_token(TokenType::Semicolon)
        } else if c == '(' {
            self.get_single_char_token(TokenType::LParen)
        } else if c == ')' {
            self.get_single_char_token(TokenType::RParen)
        } else if c == '{' {
            self.get_single_char_token(TokenType::LBrace)
        } else if c == '}' {
            self.get_single_char_token(TokenType::RBrace)
        } else if is_letter(c) {
            let ident = self.read_identifier();
            proof {
                reveal_strlit("let");
                reveal_strlit("fn");
            }
            let typ = if ident.eq(&"let".to_owned()) {
                TokenType::Let
            } else if ident.eq(&"fn".to_owned()) {
                TokenType::Function
            } else {
                TokenType::Ident
            };
            return Ok(Token { typ, literal: ident });
        } else if is_digit(c) {
            return Ok(Token { typ: TokenType::Int, literal: self.read_int() });
        } else if c == '\0' {
            Token { typ: TokenType::Eof, literal: String::new() }
        } else {
            Token { typ: TokenType::Illegal, literal: String::new() }
        };

        self.read_char();

        Ok(token)
    }

    /// A one-character token of the given kind, read off the cursor.
    fn get_single_char_token(&self, token_type: TokenType) -> (r: Token)
        requires
            self.wf(),
            self@.1 < self@.0.len(),
        ensures
            r.typ == token_type,
            r.literal@ == seq![char_at(self@.0, self@.1)],
    {
        let n = self.chars.len();
        proof {
            assert(self.position < n);
        }
        let lit = self.src.as_str().substring_char(self.position, self.position + 1);
        proof {
            assert(lit@ =~= seq![char_at(self@.0, self@.1)]);
        }
        Token { typ: token_type, literal: lit.to_owned() }
    }

    /// Moves the cursor one step, up to the end of the input.
    fn read_char(&mut self)
        requires
            old(self).wf(),
        ensures
            final(self).wf(),
            final(self)@.0 == old(self)@.0,
            final(self)@.1 == advance(old(self)@.0, old(self)@.1),
    {
        if self.position < self.chars.len() {
            self.position += 1;
        }
        self.ch = if self.position >= self.chars.len() {
            '\0'
        } else {
            self.chars[self.position]
        };
    }

    /// Scans the run of characters satisfying `matcher` that starts one
    /// step past the cursor's current character, returns the run including
    /// that character, and leaves the cursor after the run.
    fn read_match<F: Fn(char) -> bool>(
        &mut self,
        matcher: F,
        Ghost(pred): Ghost<spec_fn(char) -> bool>,
    ) -> (r: String)
        requires
            old(self).wf(),
            forall|c: char| #[trigger] call_requires(matcher, (c,)),
            forall|c: char, b: bool| #[trigger] call_ensures(matcher, (c,), b) ==> b == pred(c),
            !pred('\0'),
        ensures
            final(self).wf(),
            final(self)@.0 == old(self)@.0,
            ({
                let e = clamp(
                    scan_from(old(self)@.0, old(self)@.1 + 1, pred),
                    old(self)@.0.len() as int,
                );
                &&& final(self)@.1 == e
                &&& r@ == old(self)@.0.subrange(old(self)@.1, e)
            }),
    {
        let position = self.position;
        let ghost chars = self.chars@;
        let ghost len = chars.len() as int;

        self.read_char();
        loop
            invariant
                self.wf(),
                self.chars@ == chars,
                position <= self@.1 <= chars.len(),
                clamp(scan_from(chars, position as int + 1, pred), len)
                    == clamp(scan_from(chars, self@.1, pred), len),
                len == chars.len(),
                !pred('\0'),
                forall|c: char, b: bool| #[trigger] call_ensures(matcher, (c,), b) ==> b == pred(c),
                forall|c: char| #[trigger] call_requires(matcher, (c,)),
            ensures
                self.wf(),
                self.chars@ == chars,
                position <= self@.1 <= chars.len(),
                clamp(scan_from(chars, position as int + 1, pred), len)
                    == clamp(scan_from(chars, self@.1, pred), len),
                !pred(char_at(chars, self@.1)),
            decreases chars.len() + 2 - self@.1,
        {
            let c = self.ch;
            if !matcher(c) {
                break;
            }
            proof {
                assert(pred(char_at(chars, self@.1)));
                assert(char_at(chars, self@.1) != '\0');
                assert(self@.1 < chars.len());
            }
            self.read_char();
        }
        proof {
            if self@.1 <= len {
                assert(scan_from(chars, self@.1, pred) == self@.1);
            }
            assert(self@.1 == clamp(scan_from(chars, position as int + 1, pred), len));
        }

        let lit = self.src.as_str().substring_char(position, self.position);
        lit.to_owned()
    }

    /// Reads the identifier beginning at the cursor.
    fn read_identifier(&mut self) -> (r: String)
        requires
            old(self).wf(),
        ensures
            final(self).wf(),
            final(self)@.0 == old(self)@.0,
            ({
                let e = clamp(
                    scan_from(old(self)@.0, old(self)@.1 + 1, |c: char| is_letter_spec(c)),
                    old(self)@.0.len() as int,
                );
                &&& final(self)@.1 == e
                &&& r@ == old(self)@.0.subrange(old(self)@.1, e)
            }),
    {
        self.read_match(is_letter, Ghost(|c: char| is_letter_spec(c)))
    }

    /// Reads the integer literal beginning at the cursor.
    fn read_int(&mut self) -> (r: String)
        requires
            old(self).wf(),
        ensures
            final(self).wf(),
            final(self)@.0 == old(self)@.0,
            ({
                let e = clamp(
                    scan_from(old(self)@.0, old(self)@.1 + 1, |c: char| is_digit_spec(c)),
                    old(self)@.0.len() as int,
                );
                &&& final(self)@.1 == e
                &&& r@ == old(self)@.0.subrange(old(self)@.1, e)
            }),
    {
        self.read_match(is_digit, Ghost(|c: char| is_digit_spec(c)))
    }

    /// Moves the cursor past any whitespace.
    fn eat_whitespace(&mut self)
        requires
            old(self).wf(),
        ensures
            final(self).wf(),
            final(self)@.0 == old(self)@.0,
            final(self)@.1 == skip_ws(old(self)@.0, old(self)@.1),
    {
        let ghost chars = self.chars@;
        loop
            invariant
                self.wf(),
                self.chars@ == chars,
                skip_ws(chars, old(self)@.1) == skip_ws(chars, self@.1),
            ensures
                self.wf(),
                self.chars@ == chars,
                skip_ws(chars, old(self)@.1) == skip_ws(chars, self@.1),
                !is_ws(char_at(chars, self@.1)),
            decreases chars.len() + 2 - self@.1,
        {
            let c = self.ch;
            if !(c == ' ' || c == '\t' || c == '\n' || c == '\r') {
                break;
            }
            proof {
                assert(is_ws(char_at(chars, self@.1)));
                assert(self@.1 < chars.len());
            }
            self.read_char();
        }
        proof {
            assert(skip_ws(chars, self@.1) == self@.1);
        }
    }
}

} // verus!
