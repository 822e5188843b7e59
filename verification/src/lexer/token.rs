//! Tokens of the source language and constructors for each token kind.

use vstd::prelude::*;
use vstd::string::StringExecFns;

verus! {

/// Every kind of token the lexer can produce.
#[derive(Debug, PartialEq, Clone, Copy, Eq, Hash, Structural)]
pub enum TokenType {
    Illegal,
    Eof,
    // identifiers + literals
    Identifier,
    Int,
    String,
    // operators
    Assign,
    Plus,
    // delimiters
    Comma,
    Semicolon,
    LParen,
    RParen,
    LBrace,
    RBrace,
    LBracket,
    RBracket,
    Dash,
    FSlash,
    Star,
    LT,
    GT,
    Exclam,
    // compare
    Eq,
    NEq,
    // keywords
    Function,
    Let,
    True,
    False,
    If,
    Else,
    Return,
}

/// One token: its kind and the literal text it stands for.
#[derive(Debug, PartialEq)]
pub struct Token {
    pub typ: TokenType,
    pub literal: String,
}

impl Token {
    /// A copy of this token.
    pub fn duplicate(&self) -> (r: Self)
        ensures
            r.typ == self.typ,
            r.literal@ == self.literal@,
            r.literal == self.literal,
    {
        Token { typ: self.typ, literal: self.literal.clone() }
    }

    pub fn new_illegal() -> (r: Self)
        ensures
            r.typ == TokenType::Illegal && r.literal@ == "illegal"@,
    {
        Self { typ: TokenType::Illegal, literal: "illegal".to_string() }
    }

    pub fn new_eof() -> (r: Self)
        ensures
            r.typ == TokenType::Eof && r.literal@ == ""@,
    {
        Self { typ: TokenType::Eof, literal: "".to_string() }
    }

    // identifiers + literals
    pub fn new_identifier(identifier: &str) -> (r: Self)
        ensures
            r.typ == TokenType::Identifier && r.literal@ == identifier@,
    {
        Self { typ: TokenType::Identifier, literal: identifier.to_string() }
    }

    pub fn new_int(value: &str) -> (r: Self)
        ensures
            r.typ == TokenType::Int && r.literal@ == value@,
    {
        Self { typ: TokenType::Int, literal: value.to_string() }
    }

    pub fn new_int_i(value: isize) -> (r: Self)
        ensures
            r.typ == TokenType::Int && r.literal@ == crate::numfmt::int_dec_rep(value as int),
    {
        let s = crate::numfmt::isize_to_string(value);
        Self::new_int(s.as_str())
    }

    pub fn new_string(value: &str) -> (r: Self)
        ensures
            r.typ == TokenType::String && r.literal@ == value@,
    {
        Self { typ: TokenType::String, literal: value.to_string() }
    }

    // operators
    pub fn new_assign() -> (r: Self)
        ensures
            r.typ == TokenType::Assign && r.literal@ == "="@,
    {
        Self { typ: TokenType::Assign, literal: "=".to_string() }
    }

    pub fn new_plus() -> (r: Self)
        ensures
            r.typ == TokenType::Plus && r.literal@ == "+"@,
    {
        Self { typ: TokenType::Plus, literal: "+".to_string() }
    }

    // delimiters
    pub fn new_comma() -> (r: Self)
        ensures
            r.typ == TokenType::Comma && r.literal@ == ","@,
    {
        Self { typ: TokenType::Comma, literal: ",".to_string() }
    }

    pub fn new_semicolon() -> (r: Self)
        ensures
            r.typ == TokenType::Semicolon && r.literal@ == ";"@,
    {
        Self { typ: TokenType::Semicolon, literal: ";".to_string() }
    }

    pub fn new_l_paren() -> (r: Self)
        ensures
            r.typ == TokenType::LParen && r.literal@ == "("@,
    {
        Self { typ: TokenType::LParen, literal: "(".to_string() }
    }

    pub fn new_r_paren() -> (r: Self)
        ensures
            r.typ == TokenType::RParen && r.literal@ == ")"@,
    {
        Self { typ: TokenType::RParen, literal: ")".to_string() }
    }

    pub fn new_l_brace() -> (r: Self)
        ensures
            r.typ == TokenType::LBrace && r.literal@ == "{"@,
    {
        Self { typ: TokenType::LBrace, literal: "{".to_string() }
    }

    pub fn new_r_brace() -> (r: Self)
        ensures
            r.typ == TokenType::RBrace && r.literal@ == "}"@,
    {
        Self { typ: TokenType::RBrace, literal: "}".to_string() }
    }

    pub fn new_l_bracket() -> (r: Self)
        ensures
            r.typ == TokenType::LBracket && r.literal@ == "["@,
    {
        Self { typ: TokenType::LBracket, literal: "[".to_string() }
    }

    pub fn new_r_bracket() -> (r: Self)
        ensures
            r.typ == TokenType::RBracket && r.literal@ == "]"@,
    {
        Self { typ: TokenType::RBracket, literal: "]".to_string() }
    }

    pub fn new_dash() -> (r: Self)
        ensures
            r.typ == TokenType::Dash && r.literal@ == "-"@,
    {
        Self { typ: TokenType::Dash, literal: "-".to_string() }
    }

    pub fn new_f_slash() -> (r: Self)
        ensures
            r.typ == TokenType::FSlash && r.literal@ == "/"@,
    {
        Self { typ: TokenType::FSlash, literal: "/".to_string() }
    }

    pub fn new_star() -> (r: Self)
        ensures
            r.typ == TokenType::Star && r.literal@ == "*"@,
    {
        Self { typ: TokenType::Star, literal: "*".to_string() }
    }

    pub fn new_g_t() -> (r: Self)
        ensures
            r.typ == TokenType::GT && r.literal@ == ">"@,
    {
        Self { typ: TokenType::GT, literal: ">".to_string() }
    }

    pub fn new_l_t() -> (r: Self)
        ensures
            r.typ == TokenType::LT && r.literal@ == "<"@,
    {
        Self { typ: TokenType::LT, literal: "<".to_string() }
    }

    pub fn new_exclam() -> (r: Self)
        ensures
            r.typ == TokenType::Exclam && r.literal@ == "!"@,
    {
        Self { typ: TokenType::Exclam, literal: "!".to_string() }
    }

    // compare
    pub fn new_eq() -> (r: Self)
        ensures
            r.typ == TokenType::Eq && r.literal@ == "=="@,
    {
        Self { typ: TokenType::Eq, literal: "==".to_string() }
    }

    pub fn new_n_eq() -> (r: Self)
        ensures
            r.typ == TokenType::NEq && r.literal@ == "!="@,
    {
        Self { typ: TokenType::NEq, literal: "!=".to_string() }
    }

    // keywords
    pub fn new_function() -> (r: Self)
        ensures
            r.typ == TokenType::Function && r.literal@ == "fn"@,
    {
        Self { typ: TokenType::Function, literal: "fn".to_string() }
    }

    pub fn new_let() -> (r: Self)
        ensures
            r.typ == TokenType::Let && r.literal@ == "let"@,
    {
        Self { typ: TokenType::Let, literal: "let".to_string() }
    }

    pub fn new_true() -> (r: Self)
        ensures
            r.typ == TokenType::True && r.literal@ == "true"@,
    {
        Self { typ: TokenType::True, literal: "true".to_string() }
    }

    pub fn new_false() -> (r: Self)
        ensures
            r.typ == TokenType::False && r.literal@ == "false"@,
    {
        Self { typ: TokenType::False, literal: "false".to_string() }
    }

    pub fn new_if() -> (r: Self)
        ensures
            r.typ == TokenType::If && r.literal@ == "if"@,
    {
        Self { typ: TokenType::If, literal: "if".to_string() }
    }

    pub fn new_else() -> (r: Self)
        ensures
            r.typ == TokenType::Else && r.literal@ == "else"@,
    {
        Self { typ: TokenType::Else, literal: "else".to_string() }
    }

    pub fn new_return() -> (r: Self)
        ensures
            r.typ == TokenType::Return && r.literal@ == "return"@,
    {
        Self { typ: TokenType::Return, literal: "return".to_string() }
    }
}

} // verus!
