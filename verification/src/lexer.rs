//! The lexer: turns source text into the token stream the parser consumes.
//!
//! The ground truth is `next_token_spec`, a pure tokenizer over the source
//! character sequence and a cursor; `next_token` is proved to produce
//! exactly that token and to leave the cursor exactly there.

use vstd::prelude::*;
use vstd::string::StrSliceExecFns;

use crate::lexer::helper::{
    is_digit, is_digit_spec, is_letter, is_letter_spec, is_str_char, is_str_char_spec,
};
use crate::lexer::token::{Token, TokenType};

pub mod helper;
pub mod token;

verus! {

/// Failure raised by the lexer. The lexer itself is total; this survives in
/// the interface for callers that treat lexing as fallible.
#[derive(Debug)]
pub struct LexerError;

/// Whitespace that separates tokens: blank, tab, line feed, carriage return.
pub open spec fn is_ws(c: char) -> bool {
    c == ' ' || c == '\t' || c == '\n' || c == '\r'
}

/// The character under cursor `p`, with a NUL sentinel past either end.
pub open spec fn char_at(chars: Seq<char>, p: int) -> char {
    if 0 <= p < chars.len() {
        chars[p]
    } else {
        '\0'
    }
}

/// The cursor after one advance: it moves one step until it rests at the
/// end of the input.
pub open spec fn advance(chars: Seq<char>, p: int) -> int {
    if p < chars.len() {
        p + 1
    } else {
        chars.len() as int
    }
}

/// The first cursor at or after `p` that does not rest on whitespace.
pub open spec fn skip_ws(chars: Seq<char>, p: int) -> int
    decreases chars.len() - p,
{
    if 0 <= p < chars.len() && is_ws(chars[p]) {
        skip_ws(chars, p + 1)
    } else {
        p
    }
}

/// The first cursor at or after `q` that does not rest on a character
/// satisfying `pred` (the sentinel past the end counts as not satisfying it
/// whenever `pred` rejects NUL).
pub open spec fn scan_from(chars: Seq<char>, q: int, pred: spec_fn(char) -> bool) -> int
    decreases chars.len() + 2 - q,
{
    if q > chars.len() {
        q
    } else if pred(char_at(chars, q)) {
        scan_from(chars, q + 1, pred)
    } else {
        q
    }
}

/// The token type of an identifier literal: a keyword where it spells one.
pub open spec fn keyword_type(lit: Seq<char>) -> TokenType {
    if lit == "let"@ { TokenType::Let }
    else if lit == "fn"@ { TokenType::Function }
    else if lit == "if"@ { TokenType::If }
    else if lit == "else"@ { TokenType::Else }
    else if lit == "true"@ { TokenType::True }
    else if lit == "false"@ { TokenType::False }
    else if lit == "return"@ { TokenType::Return }
    else { TokenType::Identifier }
}

/// The smaller of two cursors, used to clamp a scan to the input's end.
pub open spec fn clamp(e: int, len: int) -> int {
    if e <= len { e } else { len }
}

/// The next token in `chars` when scanning starts at cursor `pos`: its
/// type, its literal text, and the cursor left behind.
pub open spec fn next_token_spec(chars: Seq<char>, pos: int) -> (TokenType, Seq<char>, int) {
    let p = skip_ws(chars, pos);
    let c = char_at(chars, p);
    if c == '=' {
        if char_at(chars, p + 1) == '=' {
            (TokenType::Eq, "=="@, p + 2)
        } else {
            (TokenType::Assign, "="@, p + 1)
        }
    } else if c == '+' { (TokenType::Plus, "+"@, p + 1) }
    else if c == ',' { (TokenType::Comma, ","@, p + 1) }
    else if c == ';' { (TokenType::Semicolon, ";"@, p + 1) }
    else if c == '(' { (TokenType::LParen, "("@, p + 1) }
    else if c == ')' { (TokenType::RParen, ")"@, p + 1) }
    else if c == '{' { (TokenType::LBrace, "{"@, p + 1) }
    else if c == '}' { (TokenType::RBrace, "}"@, p + 1) }
    else if c == '[' { (TokenType::LBracket, "["@, p + 1) }
    else if c == ']' { (TokenType::RBracket, "]"@, p + 1) }
    else if c == '-' { (TokenType::Dash, "-"@, p + 1) }
    else if c == '/' { (TokenType::FSlash, "/"@, p + 1) }
    else if c == '*' { (TokenType::Star, "*"@, p + 1) }
    else if c == '<' { (TokenType::LT, "<"@, p + 1) }
    else if c == '>' { (TokenType::GT, ">"@, p + 1) }
    else if c == '!' {
        if char_at(chars, p + 1) == '=' {
            (TokenType::NEq, "!="@, p + 2)
        } else {
            (TokenType::Exclam, "!"@, p + 1)
        }
    } else if c == '"' {
        let e = clamp(scan_from(chars, p + 2, |ch: char| is_str_char_spec(ch)), chars.len() as int);
        (TokenType::String, chars.subrange(p + 1, e), advance(chars, e))
    } else if is_letter_spec(c) {
        let e = clamp(scan_from(chars, p + 1, |ch: char| is_letter_spec(ch)), chars.len() as int);
        let lit = chars.subrange(p, e);
        (keyword_type(lit), lit, e)
    } else if is_digit_spec(c) {
        let e = clamp(scan_from(chars, p + 1, |ch: char| is_digit_spec(ch)), chars.len() as int);
        (TokenType::Int, chars.subrange(p, e), e)
    } else if c == '\0' {
        (TokenType::Eof, ""@, advance(chars, p))
    } else {
        (TokenType::Illegal, "illegal"@, p + 1)
    }
}

/// The lexer's cursor state over its source text.
pub struct Lexer {
    src: String,
    chars: Vec<char>,
    position: usize,
    ch: char,
}

impl View for Lexer {
    type V = (Seq<char>, int);

    /// The source characters and the cursor.
    closed spec fn view(&self) -> (Seq<char>, int) {
        (self.chars@, self.position as int)
    }
}

impl Lexer {
    /// The cached character mirrors the cursor, and the character cache of
    /// the source text mirrors the source text.
    pub closed spec fn wf(&self) -> bool {
        &&& self.chars@ == self.src@
        &&& self.position <= self.chars@.len()
        &&& self.ch == char_at(self.chars@, self.position as int)
    }

    /// A lexer at the start of `src`.
    pub fn new(src: String) -> (r: Self)
        ensures
            r.wf(),
            r@ == (src@, 0int),
    {
        let mut chars: Vec<char> = Vec::new();
        let n = src.as_str().unicode_len();
        let mut i: usize = 0;
        while i < n
            invariant
                n == src@.len(),
                i <= n,
                chars@ =~= src@.subrange(0, i as int),
            decreases n - i,
        {
            chars.push(src.as_str().get_char(i));
            i += 1;
        }
        proof {
            assert(chars@ =~= src@);
        }
        let first_char = if chars.len() > 0 {
            chars[0]
        } else {
            '\0'
        };

        Self { src, chars, position: 0, ch: first_char }
    }

    /// How many characters the source text holds.
    pub fn source_len(&self) -> (n: usize)
        ensures
            n == self@.0.len(),
    {
        self.chars.len()
    }

    /// Produces the next token and leaves the cursor after it, exactly as
    /// `next_token_spec` describes.
    pub fn next_token(&mut self) -> (r: Token)
        requires
            old(self).wf(),
        ensures
            final(self).wf(),
            final(self)@.0 == old(self)@.0,
            ({
                let (t, lit, newpos) = next_token_spec(old(self)@.0, old(self)@.1);
                &&& r.typ == t
                &&& r.literal@ == lit
                &&& final(self)@.1 == newpos
            }),
    {
        self.eat_whitespace();

        let c = self.ch;

        let token: Token = if c == '=' {
            if self.peek_char() == '=' {
                self.read_char();
                Token::new_eq()
            } else {
                Token::new_assign()
            }
        } else if c == '+' { Token::new_plus() }
        else if c == ',' { Token::new_comma() }
        else if c == ';' { Token::new_semicolon() }
        else if c == '(' { Token::new_l_paren() }
        else if c == ')' { Token::new_r_paren() }
        else if c == '{' { Token::new_l_brace() }
        else if c == '}' { Token::new_r_brace() }
        else if c == '[' { Token::new_l_bracket() }
        else if c == ']' { Token::new_r_bracket() }
        else if c == '-' { Token::new_dash() }
        else if c == '/' { Token::new_f_slash() }
        else if c == '*' { Token::new_star() }
        else if c == '<' { Token::new_l_t() }
        else if c == '>' { Token::new_g_t() }
        else if c == '!' {
            if self.peek_char() == '=' {
                self.read_char();
                Token::new_n_eq()
            } else {
                Token::new_exclam()
            }
        } else if c == '"' {
            self.read_char();
            let s = self.read_string();
            Token::new_string(s.as_str())
        } else if is_letter(c) {
            let ident = self.read_identifier();
            proof {
                reveal_strlit("let");
                reveal_strlit("fn");
                reveal_strlit("if");
                reveal_strlit("else");
                reveal_strlit("true");
                reveal_strlit("false");
                reveal_strlit("return");
            }
            if ident.eq(&"let".to_owned()) {
                return Token::new_let();
            } else if ident.eq(&"fn".to_owned()) {
                return Token::new_function();
            } else if ident.eq(&"if".to_owned()) {
                return Token::new_if();
            } else if ident.eq(&"else".to_owned()) {
                return Token::new_else();
            } else if ident.eq(&"true".to_owned()) {
                return Token::new_true();
            } else if ident.eq(&"false".to_owned()) {
                return Token::new_false();
            } else if ident.eq(&"return".to_owned()) {
                return Token::new_return();
            } else {
                return Token::new_identifier(ident.as_str());
            }
        } else if is_digit(c) {
            let digits = self.read_int();
            return Token::new_int(digits.as_str());
        } else if c == '\0' {
            Token::new_eof()
        } else {
            Token::new_illegal()
        };

        self.read_char();

        token
    }

    /// Moves the cursor one step, up to just past the end of the input.
    fn read_char(&mut self)
        requires
            old(self).wf(),
        ensures
            final(self).wf(),
            final(self)@.0 == old(self)@.0,
            final(self)@.1 == advance(old(self)@.0, old(self)@.1),
    {
        self.ch = self.peek_char();
        if self.position < self.chars.len() {
            self.position += 1;
        }
        proof {
            assert(self.ch == char_at(self.chars@, self.position as int));
        }
    }

    /// The character one step past the cursor, without moving it.
    fn peek_char(&self) -> (r: char)
        requires
            self.wf(),
        ensures
            r == char_at(self@.0, self@.1 + 1),
    {
        if self.position >= self.chars.len() {
            '\0'
        } else {
            let new_pos = self.position + 1;
            if new_pos >= self.chars.len() {
                '\0'
            } else {
                self.chars[new_pos]
            }
        }
    }

    /// Scans the run of characters satisfying `matcher` that starts one
    /// step past the cursor's current character, returns the run including
    /// that character, and leaves the cursor on the first character after
    /// the run.
    fn read_match<F: Fn(char) -> bool>(
        &mut self,
        matcher: F,
        Ghost(pred): Ghost<spec_fn(char) -> bool>,
    ) -> (r: String)
        requires
            old(self).wf(),
            old(self)@.1 <= old(self)@.0.len(),
            forall|c: char| #[trigger] call_requires(matcher, (c,)),
            forall|c: char, b: bool| #[trigger] call_ensures(matcher, (c,), b) ==> b == pred(c),
            !pred('\0'),
        ensures
            final(self).wf(),
            final(self)@.0 == old(self)@.0,
            ({
                let e = clamp(
                    scan_from(old(self)@.0, old(self)@.1 + 1, pred),
                    old(self)@.0.len() as int,
                );
                &&& final(self)@.1 == e
                &&& r@ == old(self)@.0.subrange(old(self)@.1, e)
            }),
    {
        let start = self.position;
        let ghost chars = self.chars@;
        let ghost len = chars.len() as int;

        self.read_char();
        loop
            invariant
                self.wf(),
                self.chars@ == chars,
                start <= self@.1 <= chars.len(),
                clamp(scan_from(chars, start as int + 1, pred), len)
                    == clamp(scan_from(chars, self@.1, pred), len),
                len == chars.len(),
                !pred('\0'),
                forall|c: char, b: bool| #[trigger] call_ensures(matcher, (c,), b) ==> b == pred(c),
                forall|c: char| #[trigger] call_requires(matcher, (c,)),
            ensures
                self.wf(),
                self.chars@ == chars,
                start <= self@.1 <= chars.len(),
                clamp(scan_from(chars, start as int + 1, pred), len)
                    == clamp(scan_from(chars, self@.1, pred), len),
                !pred(char_at(chars, self@.1)),
            decreases chars.len() + 2 - self@.1,
        {
            let c = self.ch;
            if !matcher(c) {
                break;
            }
            proof {
                assert(pred(char_at(chars, self@.1)));
                assert(char_at(chars, self@.1) != '\0');
                assert(self@.1 < chars.len());
            }
            self.read_char();
        }
        proof {
            if self@.1 <= len {
                assert(scan_from(chars, self@.1, pred) == self@.1);
            }
            assert(self@.1 == clamp(scan_from(chars, start as int + 1, pred), len));
        }

        let lit = self.src.as_str().substring_char(start, self.position);
        lit.to_owned()
    }

    /// Reads the identifier beginning at the cursor.
    fn read_identifier(&mut self) -> (r: String)
        requires
            old(self).wf(),
            old(self)@.1 <= old(self)@.0.len(),
        ensures
            final(self).wf(),
            final(self)@.0 == old(self)@.0,
            ({
                let e = clamp(
                    scan_from(old(self)@.0, old(self)@.1 + 1, |c: char| is_letter_spec(c)),
                    old(self)@.0.len() as int,
                );
                &&& final(self)@.1 == e
                &&& r@ == old(self)@.0.subrange(old(self)@.1, e)
            }),
    {
        self.read_match(is_letter, Ghost(|c: char| is_letter_spec(c)))
    }

    /// Reads the integer literal beginning at the cursor.
    fn read_int(&mut self) -> (r: String)
        requires
            old(self).wf(),
            old(self)@.1 <= old(self)@.0.len(),
        ensures
            final(self).wf(),
            final(self)@.0 == old(self)@.0,
            ({
                let e = clamp(
                    scan_from(old(self)@.0, old(self)@.1 + 1, |c: char| is_digit_spec(c)),
                    old(self)@.0.len() as int,
                );
                &&& final(self)@.1 == e
                &&& r@ == old(self)@.0.subrange(old(self)@.1, e)
            }),
    {
        self.read_match(is_digit, Ghost(|c: char| is_digit_spec(c)))
    }

    /// Reads the body of the string literal beginning at the cursor.
    fn read_string(&mut self) -> (r: String)
        requires
            old(self).wf(),
            old(self)@.1 <= old(self)@.0.len(),
        ensures
            final(self).wf(),
            final(self)@.0 == old(self)@.0,
            ({
                let e = clamp(
                    scan_from(old(self)@.0, old(self)@.1 + 1, |c: char| is_str_char_spec(c)),
                    old(self)@.0.len() as int,
                );
                &&& final(self)@.1 == e
                &&& r@ == old(self)@.0.subrange(old(self)@.1, e)
            }),
    {
        self.read_match(is_str_char, Ghost(|c: char| is_str_char_spec(c)))
    }

    /// Moves the cursor past any whitespace.
    fn eat_whitespace(&mut self)
        requires
            old(self).wf(),
        ensures
            final(self).wf(),
            final(self)@.0 == old(self)@.0,
            final(self)@.1 == skip_ws(old(self)@.0, old(self)@.1),
    {
        let ghost chars = self.chars@;
        loop
            invariant
                self.wf(),
                self.chars@ == chars,
                skip_ws(chars, old(self)@.1) == skip_ws(chars, self@.1),
            ensures
                self.wf(),
                self.chars@ == chars,
                skip_ws(chars, old(self)@.1) == skip_ws(chars, self@.1),
                !is_ws(char_at(chars, self@.1)),
            decreases chars.len() + 2 - self@.1,
        {
            let c = self.ch;
            if !(c == ' ' || c == '\t' || c == '\n' || c == '\r') {
                break;
            }
            proof {
                assert(is_ws(char_at(chars, self@.1)));
                assert(self@.1 < chars.len());
            }
            self.read_char();
        }
        proof {
            assert(skip_ws(chars, self@.1) == self@.1);
        }
    }
}

} // verus!
