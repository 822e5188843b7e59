//! The parser: precedence-climbing construction of the syntax tree from
//! the token stream.
//!
//! Parsing promises shape: every tree it hands out is well formed in the
//! sense of `wf_stmt` / `wf_expr` — `let` binds an identifier name, and
//! the branches of a conditional are blocks. A descent budget bounds the
//! recursion; it is generous enough that only inputs far beyond any
//! practical nesting are refused by it.

use vstd::prelude::*;

use crate::lexer::token::{Token, TokenType};
use crate::lexer::Lexer;

pub mod ast;

use ast::{Expression, Statement};

verus! {

broadcast use vstd::std_specs::vec::group_vec_axioms, vstd::seq::group_seq_axioms;

/// Failure raised when the token stream does not form a program.
#[derive(Debug)]
pub struct ParseError(String);

/// A parsed program: its statements in source order.
#[derive(Debug)]
pub struct Program {
    pub statements: Vec<ast::Statement>,
}

/// Binding strength of an operator position, weakest first.
#[derive(Debug, PartialEq, Clone, Copy, Eq, Structural)]
enum Precedence {
    Lowest,
    EqualTo,
    GTLT,
    Sum,
    Mult,
    Prefix,
    Call,
}

/// The numeric strength of a precedence level.
spec fn precedence_rank(p: Precedence) -> u8 {
    match p {
        Precedence::Lowest => 0,
        Precedence::EqualTo => 1,
        Precedence::GTLT => 2,
        Precedence::Sum => 3,
        Precedence::Mult => 4,
        Precedence::Prefix => 5,
        Precedence::Call => 6,
    }
}

/// The binding strength of the operator `token_type`, `Lowest` for a
/// token that opens no infix position.
spec fn spec_precedence(token_type: TokenType) -> Precedence {
    match token_type {
        TokenType::Eq | TokenType::NEq => Precedence::EqualTo,
        TokenType::LT | TokenType::GT => Precedence::GTLT,
        TokenType::Plus | TokenType::Dash => Precedence::Sum,
        TokenType::FSlash | TokenType::Star => Precedence::Mult,
        TokenType::LParen => Precedence::Call,
        _ => Precedence::Lowest,
    }
}

impl Precedence {
    /// The numeric strength of this precedence level.
    fn rank(&self) -> (r: u8)
        ensures
            r == precedence_rank(*self),
    {
        match self {
            Self::Lowest => 0,
            Self::EqualTo => 1,
            Self::GTLT => 2,
            Self::Sum => 3,
            Self::Mult => 4,
            Self::Prefix => 5,
            Self::Call => 6,
        }
    }

    /// The binding strength of the operator `token_type`.
    fn get_precedence(token_type: TokenType) -> (r: Self)
        ensures
            r == spec_precedence(token_type),
    {
        match token_type {
            TokenType::Eq | TokenType::NEq => Precedence::EqualTo,
            TokenType::LT | TokenType::GT => Precedence::GTLT,
            TokenType::Plus | TokenType::Dash => Precedence::Sum,
            TokenType::FSlash | TokenType::Star => Precedence::Mult,
            TokenType::LParen => Precedence::Call,
            _ => Precedence::Lowest,
        }
    }
}

/// Shape of an expression the rest of the toolchain may rely on: the
/// branches of a conditional and the body of a function are blocks.
pub open spec fn wf_expr(e: Expression) -> bool
    decreases e, 0int,
{
    match e {
        Expression::Identifier { .. } => true,
        Expression::Integer { .. } => true,
        Expression::Boolean { .. } => true,
        Expression::String { .. } => true,
        Expression::Array { elements, .. } => wf_exprs(elements@),
        Expression::Prefix { right, .. } => wf_expr(*right),
        Expression::Infix { left, right, .. } => wf_expr(*left) && wf_expr(*right),
        Expression::If { condition, consequence, alternative, .. } => {
            &&& wf_expr(*condition)
            &&& *consequence is Block
            &&& wf_stmt(*consequence)
            &&& match alternative {
                Some(alt) => *alt is Block && wf_stmt(*alt),
                None => true,
            }
        },
        Expression::Function { params, body, .. } => {
            wf_exprs(params@) && *body is Block && wf_stmt(*body)
        },
        Expression::Call { function, arguements, .. } => {
            wf_expr(*function) && wf_exprs(arguements@)
        },
    }
}

/// Every expression of the sequence is well formed.
pub open spec fn wf_exprs(s: Seq<Expression>) -> bool
    decreases s, 1int,
{
    forall|i: int| 0 <= i < s.len() ==> wf_expr(#[trigger] s[i])
}

/// Shape of a statement the rest of the toolchain may rely on: `let`
/// binds an identifier name.
pub open spec fn wf_stmt(s: Statement) -> bool
    decreases s, 0int,
{
    match s {
        Statement::ExpressionStatement { expression, .. } => wf_expr(expression),
        Statement::Let { name, value, .. } => name is Identifier && wf_expr(value),
        Statement::Return { return_value, .. } => wf_expr(return_value),
        Statement::Block { statements, .. } => wf_stmts(statements@),
    }
}

/// Every statement of the sequence is well formed.
pub open spec fn wf_stmts(s: Seq<Statement>) -> bool
    decreases s, 1int,
{
    forall|i: int| 0 <= i < s.len() ==> wf_stmt(#[trigger] s[i])
}

/// The descent budget for a source of `n` characters: far more steps than
/// any program of that size can need.
fn parse_budget(n: usize) -> u64 {
    let n64 = n as u64;
    if n64 > (u64::MAX - 64) / 16 {
        u64::MAX
    } else {
        16 * n64 + 64
    }
}

/// The parser: a lexer plus a two-token lookahead window.
pub struct Parser {
    lexer: Lexer,
    cur_token: Token,
    peek_token: Token,
}

impl Parser {
    /// The lookahead window is backed by a sound lexer.
    pub closed spec fn wf(&self) -> bool {
        self.lexer.wf()
    }

    /// A parser over `lexer`, with the window filled.
    pub fn new(mut lexer: Lexer) -> (r: Self)
        requires
            lexer.wf(),
        ensures
            r.wf(),
    {
        let cur_token = lexer.next_token();
        let peek_token = lexer.next_token();
        Self { cur_token, peek_token, lexer }
    }

    /// Slides the lookahead window one token forward.
    fn next_token(&mut self)
        requires
            old(self).wf(),
        ensures
            final(self).wf(),
            final(self).cur_token == old(self).peek_token,
    {
        let mut next = self.lexer.next_token();
        core::mem::swap(&mut self.peek_token, &mut next);
        self.cur_token = next;
    }

    /// Parses the whole token stream into a program of well-formed
    /// statements.
    pub fn parse_program(&mut self) -> (r: Result<Program, ParseError>)
        requires
            old(self).wf(),
        ensures
            final(self).wf(),
            r matches Ok(p) ==> wf_stmts(p.statements@),
    {
        let mut statements: Vec<ast::Statement> = Vec::new();

        let mut budget = parse_budget(self.lexer.source_len());
        while budget > 0
            invariant
                self.wf(),
                wf_stmts(statements@),
            decreases budget,
        {
            budget -= 1;
            if self.cur_token.typ == TokenType::Eof {
                return Ok(Program { statements });
            }
            let statement = match self.parse_statement(budget) {
                Ok(s) => s,
                Err(e) => {
                    return Err(e);
                },
            };
            proof {
                assert(statements@.push(statement)[statements@.len() as int] == statement);
            }
            statements.push(statement);
        }
        if self.cur_token.typ != TokenType::Eof {
            return Err(ParseError("Program too long to parse".to_string()));
        }
        Ok(Program { statements })
    }

    /// Parses one statement.
    fn parse_statement(&mut self, fuel: u64) -> (r: Result<ast::Statement, ParseError>)
        requires
            old(self).wf(),
        ensures
            final(self).wf(),
            r matches Ok(s) ==> wf_stmt(s),
        decreases fuel, 9int,
    {
        if fuel == 0 {
            return Err(ParseError("Statement nested too deeply to parse".to_string()));
        }
        match self.cur_token.typ {
            TokenType::Let => self.parse_let_statement(fuel - 1),
            TokenType::Return => self.parse_return_statement(fuel - 1),
            _ => self.parse_expression_statement(fuel - 1),
        }
    }

    /// Parses `let name = expression;`.
    fn parse_let_statement(&mut self, fuel: u64) -> (r: Result<ast::Statement, ParseError>)
        requires
            old(self).wf(),
        ensures
            final(self).wf(),
            r matches Ok(s) ==> wf_stmt(s),
        decreases fuel, 8int,
    {
        if fuel == 0 {
            return Err(ParseError("Statement nested too deeply to parse".to_string()));
        }
        let let_token = self.cur_token.duplicate();

        if self.peek_token.typ != TokenType::Identifier {
            return Err(ParseError("Invalid `let` statement, expected Identifier".to_string()));
        }

        self.next_token();

        let name = ast::Expression::Identifier {
            value: self.cur_token.literal.clone(),
            token: self.cur_token.duplicate(),
        };

        self.next_token();

        if self.cur_token.typ != TokenType::Assign {
            return Err(ParseError("Invalid `let` statement, expected Assign".to_string()));
        }

        self.next_token();

        let expression = match self.parse_expression(Precedence::Lowest, fuel - 1) {
            Ok(e) => e,
            Err(e) => {
                return Err(e);
            },
        };

        self.end_line(fuel - 1);

        Ok(ast::Statement::Let { token: let_token, name, value: expression })
    }

    /// Parses `return expression;`.
    fn parse_return_statement(&mut self, fuel: u64) -> (r: Result<ast::Statement, ParseError>)
        requires
            old(self).wf(),
        ensures
            final(self).wf(),
            r matches Ok(s) ==> wf_stmt(s),
        decreases fuel, 8int,
    {
        if fuel == 0 {
            return Err(ParseError("Statement nested too deeply to parse".to_string()));
        }
        let return_token = self.cur_token.duplicate();
        self.next_token();
        let expression = match self.parse_expression(Precedence::Lowest, fuel - 1) {
            Ok(e) => e,
            Err(e) => {
                return Err(e);
            },
        };

        self.end_line(fuel - 1);

        Ok(ast::Statement::Return { token: return_token, return_value: expression })
    }

    /// Parses a bare expression used as a statement.
    fn parse_expression_statement(&mut self, fuel: u64) -> (r: Result<ast::Statement, ParseError>)
        requires
            old(self).wf(),
        ensures
            final(self).wf(),
            r matches Ok(s) ==> wf_stmt(s),
        decreases fuel, 8int,
    {
        if fuel == 0 {
            return Err(ParseError("Statement nested too deeply to parse".to_string()));
        }
        let expression_token = self.cur_token.duplicate();
        let expression = match self.parse_expression(Precedence::Lowest, fuel - 1) {
            Ok(e) => e,
            Err(e) => {
                return Err(e);
            },
        };

        self.end_line(fuel - 1);

        Ok(ast::Statement::ExpressionStatement { token: expression_token, expression })
    }

    /// Parses an expression, then extends it with every infix operator
    /// that binds more strongly than `precedence`.
    fn parse_expression(&mut self, precedence: Precedence, fuel: u64) -> (r: Result<
        ast::Expression,
        ParseError,
    >)
        requires
            old(self).wf(),
        ensures
            final(self).wf(),
            r matches Ok(e) ==> wf_expr(e),
        decreases fuel, 7int,
    {
        if fuel == 0 {
            return Err(ParseError("Expression nested too deeply to parse".to_string()));
        }
        let mut left = match self.parse_prefix(fuel - 1) {
            Ok(e) => e,
            Err(e) => {
                return Err(e);
            },
        };

        let mut budget = fuel - 1;
        while budget > 0
            invariant
                self.wf(),
                wf_expr(left),
                budget < fuel,
            decreases budget,
        {
            budget -= 1;
            if self.peek_token.typ == TokenType::Semicolon {
                return Ok(left);
            }
            let peek_precedence = Precedence::get_precedence(self.peek_token.typ);
            if !(precedence.rank() < peek_precedence.rank()) {
                return Ok(left);
            }
            let (extended, went_on) = match self.parse_infix(left, budget) {
                Ok(p) => p,
                Err(e) => {
                    return Err(e);
                },
            };
            if !went_on {
                return Ok(extended);
            }
            left = extended;
        }

        Ok(left)
    }

    /// Parses the expression opened by the token under the cursor.
    fn parse_prefix(&mut self, fuel: u64) -> (r: Result<ast::Expression, ParseError>)
        requires
            old(self).wf(),
        ensures
            final(self).wf(),
            r matches Ok(e) ==> wf_expr(e),
        decreases fuel, 6int,
    {
        if fuel == 0 {
            return Err(ParseError("Expression nested too deeply to parse".to_string()));
        }
        match self.cur_token.typ {
            TokenType::Identifier => self.parse_identifier_expression(),
            TokenType::Int => self.parse_integer_expression(),
            TokenType::True | TokenType::False => self.parse_boolean_expression(),
            TokenType::Dash | TokenType::Exclam => self.parse_prefix_expression(fuel - 1),
            TokenType::LParen => self.parse_grouped_expression(fuel - 1),
            TokenType::If => self.parse_if_expression(fuel - 1),
            _ => Err(ParseError("Unable to parse token in prefix position".to_string())),
        }
    }

    /// Extends `left` when the lookahead opens an infix position: with a
    /// binary operator application or a call. The flag says whether the
    /// expression was extended.
    fn parse_infix(&mut self, left: ast::Expression, fuel: u64) -> (r: Result<
        (ast::Expression, bool),
        ParseError,
    >)
        requires
            old(self).wf(),
            wf_expr(left),
        ensures
            final(self).wf(),
            r matches Ok(p) ==> wf_expr(p.0),
        decreases fuel, 6int,
    {
        if fuel == 0 {
            return Err(ParseError("Expression nested too deeply to parse".to_string()));
        }
        match self.peek_token.typ {
            TokenType::Eq | TokenType::NEq | TokenType::LT | TokenType::GT | TokenType::Plus
                | TokenType::Dash | TokenType::FSlash | TokenType::Star => {
                self.next_token();
                match self.parse_infix_expression(left, fuel - 1) {
                    Ok(e) => Ok((e, true)),
                    Err(e) => Err(e),
                }
            },
            TokenType::LParen => {
                self.next_token();
                match self.parse_call_expression(left, fuel - 1) {
                    Ok(e) => Ok((e, true)),
                    Err(e) => Err(e),
                }
            },
            _ => Ok((left, false)),
        }
    }

    /// The identifier expression for the token under the cursor.
    fn parse_identifier_expression(&mut self) -> (r: Result<ast::Expression, ParseError>)
        requires
            old(self).wf(),
        ensures
            final(self).wf(),
            r matches Ok(e) ==> wf_expr(e) && (e matches Expression::Identifier { value, .. }
                && value@ == old(self).cur_token.literal@),
    {
        Ok(ast::Expression::Identifier {
            token: self.cur_token.duplicate(),
            value: self.cur_token.literal.clone(),
        })
    }

    /// The integer literal expression for the token under the cursor;
    /// fails iff its text is not a fitting decimal number.
    fn parse_integer_expression(&mut self) -> (r: Result<ast::Expression, ParseError>)
        requires
            old(self).wf(),
        ensures
            final(self).wf(),
            r is Ok <==> (old(self).cur_token.literal@.len() > 0
                && crate::numfmt::all_digits(old(self).cur_token.literal@)
                && crate::numfmt::digits_value(old(self).cur_token.literal@) <= isize::MAX),
            r matches Ok(e) ==> wf_expr(e) && (e matches Expression::Integer { value, .. }
                && value as int == crate::numfmt::digits_value(old(self).cur_token.literal@)),
    {
        match crate::numfmt::parse_isize(self.cur_token.literal.as_str()) {
            Some(value) => Ok(ast::Expression::Integer { token: self.cur_token.duplicate(), value }),
            None => Err(ParseError("Unable to convert literal to int!".to_string())),
        }
    }

    /// The boolean literal expression for the token under the cursor;
    /// fails iff its text is neither `true` nor `false`.
    fn parse_boolean_expression(&mut self) -> (r: Result<ast::Expression, ParseError>)
        requires
            old(self).wf(),
        ensures
            final(self).wf(),
            r is Ok <==> (old(self).cur_token.literal@ == "true"@
                || old(self).cur_token.literal@ == "false"@),
            r matches Ok(e) ==> wf_expr(e) && (e matches Expression::Boolean { value, .. }
                && value == (old(self).cur_token.literal@ == "true"@)),
    {
        proof {
            reveal_strlit("true");
            reveal_strlit("false");
        }
        let value = if self.cur_token.literal.eq(&"true".to_owned()) {
            true
        } else if self.cur_token.literal.eq(&"false".to_owned()) {
            false
        } else {
            return Err(ParseError("Unable to convert literal to bool!".to_string()));
        };
        Ok(ast::Expression::Boolean { token: self.cur_token.duplicate(), value })
    }

    /// Parses a prefix operator application.
    fn parse_prefix_expression(&mut self, fuel: u64) -> (r: Result<ast::Expression, ParseError>)
        requires
            old(self).wf(),
        ensures
            final(self).wf(),
            r matches Ok(e) ==> wf_expr(e),
        decreases fuel, 5int,
    {
        if fuel == 0 {
            return Err(ParseError("Expression nested too deeply to parse".to_string()));
        }
        let token = self.cur_token.duplicate();
        let operator = self.cur_token.literal.clone();
        self.next_token();
        let right = match self.parse_expression(Precedence::Prefix, fuel - 1) {
            Ok(e) => e,
            Err(e) => {
                return Err(e);
            },
        };
        Ok(ast::Expression::Prefix { token, operator, right: Box::new(right) })
    }

    /// Parses a parenthesized expression.
    fn parse_grouped_expression(&mut self, fuel: u64) -> (r: Result<ast::Expression, ParseError>)
        requires
            old(self).wf(),
        ensures
            final(self).wf(),
            r matches Ok(e) ==> wf_expr(e),
        decreases fuel, 5int,
    {
        if fuel == 0 {
            return Err(ParseError("Expression nested too deeply to parse".to_string()));
        }
        self.next_token();
        let expression = match self.parse_expression(Precedence::Lowest, fuel - 1) {
            Ok(e) => e,
            Err(e) => {
                return Err(e);
            },
        };

        self.next_token();

        if self.cur_token.typ != TokenType::RParen {
            return Err(ParseError("Expected ')'".to_string()));
        }

        Ok(expression)
    }

    /// Parses a conditional: condition, consequence block, and an
    /// optional alternative block.
    fn parse_if_expression(&mut self, fuel: u64) -> (r: Result<ast::Expression, ParseError>)
        requires
            old(self).wf(),
        ensures
            final(self).wf(),
            r matches Ok(e) ==> wf_expr(e),
        decreases fuel, 5int,
    {
        if fuel == 0 {
            return Err(ParseError("Expression nested too deeply to parse".to_string()));
        }
        let if_token = self.cur_token.duplicate();

        if let Err(e) = self.expect_next(TokenType::LParen) {
            return Err(e);
        }
        self.next_token();

        let condition = match self.parse_expression(Precedence::Lowest, fuel - 1) {
            Ok(e) => e,
            Err(e) => {
                return Err(e);
            },
        };

        if let Err(e) = self.expect_next(TokenType::RParen) {
            return Err(e);
        }
        if let Err(e) = self.expect_next(TokenType::LBrace) {
            return Err(e);
        }

        let consequence = match self.parse_block_statement(fuel - 1) {
            Ok(s) => s,
            Err(e) => {
                return Err(e);
            },
        };

        let mut alternative: Option<Box<Statement>> = None;
        if self.peek_token.typ == TokenType::Else {
            self.next_token();
            if let Err(e) = self.expect_next(TokenType::LBrace) {
                return Err(e);
            }
            let alt = match self.parse_block_statement(fuel - 1) {
                Ok(s) => s,
                Err(e) => {
                    return Err(e);
                },
            };
            alternative = Some(Box::new(alt));
        }

        Ok(ast::Expression::If {
            token: if_token,
            condition: Box::new(condition),
            consequence: Box::new(consequence),
            alternative,
        })
    }

    /// Parses the statements up to the closing brace into a block.
    fn parse_block_statement(&mut self, fuel: u64) -> (r: Result<ast::Statement, ParseError>)
        requires
            old(self).wf(),
        ensures
            final(self).wf(),
            r matches Ok(s) ==> s is Block && wf_stmt(s),
        decreases fuel, 5int,
    {
        if fuel == 0 {
            return Err(ParseError("Statement nested too deeply to parse".to_string()));
        }
        let l_brace_token = self.cur_token.duplicate();
        let mut statements: Vec<Statement> = Vec::new();

        self.next_token();

        let mut budget = fuel - 1;
        while budget > 0
            invariant
                self.wf(),
                wf_stmts(statements@),
                budget < fuel,
            decreases budget,
        {
            budget -= 1;
            if self.cur_token.typ == TokenType::RBrace || self.cur_token.typ == TokenType::Eof {
                return Ok(Statement::Block { token: l_brace_token, statements });
            }
            let statement = match self.parse_statement(budget) {
                Ok(s) => s,
                Err(e) => {
                    return Err(e);
                },
            };
            proof {
                assert(statements@.push(statement)[statements@.len() as int] == statement);
            }
            statements.push(statement);
        }
        if self.cur_token.typ != TokenType::RBrace && self.cur_token.typ != TokenType::Eof {
            return Err(ParseError("Block too long to parse".to_string()));
        }

        Ok(Statement::Block { token: l_brace_token, statements })
    }

    /// Parses the right operand of the operator under the cursor and
    /// joins it with `left`.
    fn parse_infix_expression(&mut self, left: ast::Expression, fuel: u64) -> (r: Result<
        ast::Expression,
        ParseError,
    >)
        requires
            old(self).wf(),
            wf_expr(left),
        ensures
            final(self).wf(),
            r matches Ok(e) ==> wf_expr(e),
        decreases fuel, 5int,
    {
        if fuel == 0 {
            return Err(ParseError("Expression nested too deeply to parse".to_string()));
        }
        let operator_token = self.cur_token.duplicate();
        let precedence = Precedence::get_precedence(operator_token.typ);

        self.next_token();

        let right = match self.parse_expression(precedence, fuel - 1) {
            Ok(e) => e,
            Err(e) => {
                return Err(e);
            },
        };

        Ok(ast::Expression::Infix {
            operator: operator_token.literal.clone(),
            token: operator_token,
            left: Box::new(left),
            right: Box::new(right),
        })
    }

    /// Parses the argument list opened by the parenthesis under the
    /// cursor and joins it with the callee `left`.
    fn parse_call_expression(&mut self, left: ast::Expression, fuel: u64) -> (r: Result<
        ast::Expression,
        ParseError,
    >)
        requires
            old(self).wf(),
            wf_expr(left),
        ensures
            final(self).wf(),
            r matches Ok(e) ==> wf_expr(e),
        decreases fuel, 5int,
    {
        if fuel == 0 {
            return Err(ParseError("Expression nested too deeply to parse".to_string()));
        }
        let call_token = self.cur_token.duplicate();
        let mut arguements: Vec<Expression> = Vec::new();

        if self.peek_token.typ == TokenType::RParen {
            self.next_token();
            let r = ast::Expression::Call {
                token: call_token,
                function: Box::new(left),
                arguements,
            };
            proof {
                assert(r->Call_arguements@.len() == 0);
                assert(wf_exprs(r->Call_arguements@));
                assert(*r->Call_function == left);
                assert(wf_expr(r));
            }
            return Ok(r);
        }

        self.next_token();
        let first = match self.parse_expression(Precedence::Lowest, fuel - 1) {
            Ok(e) => e,
            Err(e) => {
                return Err(e);
            },
        };
        proof {
            assert(arguements@.push(first)[arguements@.len() as int] == first);
        }
        arguements.push(first);

        let mut budget = fuel - 1;
        while budget > 0
            invariant
                self.wf(),
                wf_exprs(arguements@),
                budget < fuel,
            decreases budget,
        {
            budget -= 1;
            if self.peek_token.typ != TokenType::Comma {
                break;
            }
            self.next_token();
            self.next_token();
            let arg = match self.parse_expression(Precedence::Lowest, budget) {
                Ok(e) => e,
                Err(e) => {
                    return Err(e);
                },
            };
            proof {
                assert(arguements@.push(arg)[arguements@.len() as int] == arg);
            }
            arguements.push(arg);
        }

        if let Err(e) = self.expect_next(TokenType::RParen) {
            return Err(e);
        }

        Ok(ast::Expression::Call { token: call_token, function: Box::new(left), arguements })
    }

    /// Steps past the end of a statement and any trailing semicolons.
    fn end_line(&mut self, fuel: u64)
        requires
            old(self).wf(),
        ensures
            final(self).wf(),
        decreases fuel, 5int,
    {
        self.next_token();
        self.eat_semicolon(fuel);
    }

    /// Steps past any semicolons under the cursor.
    fn eat_semicolon(&mut self, fuel: u64)
        requires
            old(self).wf(),
        ensures
            final(self).wf(),
        decreases fuel, 4int,
    {
        let mut budget = fuel;
        while budget > 0
            invariant
                self.wf(),
            decreases budget,
        {
            budget -= 1;
            if self.cur_token.typ != TokenType::Semicolon {
                return;
            }
            self.next_token();
        }
    }

    /// Steps to the lookahead token when it has the expected kind; fails
    /// otherwise.
    fn expect_next(&mut self, token_type: TokenType) -> (r: Result<(), ParseError>)
        requires
            old(self).wf(),
        ensures
            final(self).wf(),
            r is Ok <==> old(self).peek_token.typ == token_type,
            r is Ok ==> final(self).cur_token == old(self).peek_token,
    {
        if self.peek_token.typ != token_type {
            return Err(ParseError("Unexpected token".to_string()));
        }

        self.next_token();
        Ok(())
    }
}

} // verus!
