//! The syntax tree the parser produces and the compiler and interpreter
//! consume, with constructors used by tests and a pretty-printing view.
//!
//! The pretty printer's ground truth is the spec pair `expr_dbg` /
//! `stmt_dbg`; the `dbg` methods are proved to render exactly that text.

use vstd::prelude::*;
use vstd::string::StringExecFns;

use crate::lexer::token::{Token, TokenType};

verus! {

broadcast use vstd::std_specs::vec::group_vec_axioms, vstd::seq::group_seq_axioms;

/// An expression node of the syntax tree.
#[derive(Debug, PartialEq)]
pub enum Expression {
    Identifier {
        token: Token,
        value: String,
    },
    Integer {
        token: Token,
        value: isize,
    },
    Boolean {
        token: Token,
        value: bool,
    },
    String {
        token: Token,
        value: String,
    },
    Array {
        token: Token,
        elements: Vec<Self>,
    },
    Prefix {
        token: Token,
        operator: String,
        right: Box<Self>,
    },
    Infix {
        token: Token,
        left: Box<Self>,
        operator: String,
        right: Box<Self>,
    },
    If {
        token: Token,
        condition: Box<Self>,
        consequence: Box<Statement>,
        alternative: Option<Box<Statement>>,
    },
    Function {
        token: Token,
        params: Vec<Self>,
        body: Box<Statement>,
    },
    Call {
        token: Token,
        function: Box<Self>,
        arguements: Vec<Self>,
    },
}

/// A statement node of the syntax tree.
#[derive(Debug, PartialEq)]
pub enum Statement {
    ExpressionStatement {
        token: Token,
        expression: Expression,
    },
    Let {
        token: Token,
        name: Expression,
        value: Expression,
    },
    Return {
        token: Token,
        return_value: Expression,
    },
    Block {
        token: Token,
        statements: Vec<Statement>,
    },
}

/// Whether two tokens carry the same kind and the same literal text.
pub open spec fn token_equiv(a: Token, b: Token) -> bool {
    a.typ == b.typ && a.literal@ == b.literal@
}

/// Structural equality of expressions, comparing strings by their text.
pub open spec fn expr_equiv(a: Expression, b: Expression) -> bool
    decreases a, 0int,
{
    match (a, b) {
        (
            Expression::Identifier { token: t1, value: v1 },
            Expression::Identifier { token: t2, value: v2 },
        ) => token_equiv(t1, t2) && v1@ == v2@,
        (
            Expression::Integer { token: t1, value: v1 },
            Expression::Integer { token: t2, value: v2 },
        ) => token_equiv(t1, t2) && v1 == v2,
        (
            Expression::Boolean { token: t1, value: v1 },
            Expression::Boolean { token: t2, value: v2 },
        ) => token_equiv(t1, t2) && v1 == v2,
        (
            Expression::String { token: t1, value: v1 },
            Expression::String { token: t2, value: v2 },
        ) => token_equiv(t1, t2) && v1@ == v2@,
        (
            Expression::Array { token: t1, elements: e1 },
            Expression::Array { token: t2, elements: e2 },
        ) => token_equiv(t1, t2) && exprs_equiv(e1@, e2@),
        (
            Expression::Prefix { token: t1, operator: o1, right: r1 },
            Expression::Prefix { token: t2, operator: o2, right: r2 },
        ) => token_equiv(t1, t2) && o1@ == o2@ && expr_equiv(*r1, *r2),
        (
            Expression::Infix { token: t1, left: l1, operator: o1, right: r1 },
            Expression::Infix { token: t2, left: l2, operator: o2, right: r2 },
        ) => token_equiv(t1, t2) && o1@ == o2@ && expr_equiv(*l1, *l2) && expr_equiv(*r1, *r2),
        (
            Expression::If { token: t1, condition: c1, consequence: q1, alternative: a1 },
            Expression::If { token: t2, condition: c2, consequence: q2, alternative: a2 },
        ) => {
            &&& token_equiv(t1, t2)
            &&& expr_equiv(*c1, *c2)
            &&& stmt_equiv(*q1, *q2)
            &&& match (a1, a2) {
                (Some(x1), Some(x2)) => stmt_equiv(*x1, *x2),
                (None, None) => true,
                _ => false,
            }
        },
        (
            Expression::Function { token: t1, params: p1, body: b1 },
            Expression::Function { token: t2, params: p2, body: b2 },
        ) => token_equiv(t1, t2) && exprs_equiv(p1@, p2@) && stmt_equiv(*b1, *b2),
        (
            Expression::Call { token: t1, function: f1, arguements: g1 },
            Expression::Call { token: t2, function: f2, arguements: g2 },
        ) => token_equiv(t1, t2) && expr_equiv(*f1, *f2) && exprs_equiv(g1@, g2@),
        _ => false,
    }
}

/// Pointwise structural equality of expression sequences.
pub open spec fn exprs_equiv(a: Seq<Expression>, b: Seq<Expression>) -> bool
    decreases a, 1int,
{
    if a.len() != b.len() {
        false
    } else if a.len() == 0 {
        true
    } else {
        expr_equiv(a[0], b[0]) && exprs_equiv(a.drop_first(), b.drop_first())
    }
}

/// Structural equality of statements, comparing strings by their text.
pub open spec fn stmt_equiv(a: Statement, b: Statement) -> bool
    decreases a, 0int,
{
    match (a, b) {
        (
            Statement::ExpressionStatement { token: t1, expression: e1 },
            Statement::ExpressionStatement { token: t2, expression: e2 },
        ) => token_equiv(t1, t2) && expr_equiv(e1, e2),
        (
            Statement::Let { token: t1, name: n1, value: v1 },
            Statement::Let { token: t2, name: n2, value: v2 },
        ) => token_equiv(t1, t2) && expr_equiv(n1, n2) && expr_equiv(v1, v2),
        (
            Statement::Return { token: t1, return_value: v1 },
            Statement::Return { token: t2, return_value: v2 },
        ) => token_equiv(t1, t2) && expr_equiv(v1, v2),
        (
            Statement::Block { token: t1, statements: s1 },
            Statement::Block { token: t2, statements: s2 },
        ) => token_equiv(t1, t2) && stmts_equiv(s1@, s2@),
        _ => false,
    }
}

/// Pointwise structural equality of statement sequences.
pub open spec fn stmts_equiv(a: Seq<Statement>, b: Seq<Statement>) -> bool
    decreases a, 1int,
{
    if a.len() != b.len() {
        false
    } else if a.len() == 0 {
        true
    } else {
        stmt_equiv(a[0], b[0]) && stmts_equiv(a.drop_first(), b.drop_first())
    }
}

/// The rendering of an expression.
pub open spec fn expr_dbg(e: Expression) -> Seq<char>
    decreases e, 0int,
{
    match e {
        Expression::Identifier { value, .. } => value@,
        Expression::Integer { value, .. } => crate::numfmt::int_dec_rep(value as int),
        Expression::Boolean { value, .. } => if value { "true"@ } else { "false"@ },
        Expression::String { value, .. } => value@,
        Expression::Array { elements, .. } => {
            "["@ + exprs_dbg_from(elements@, 0, ","@) + "]"@
        },
        Expression::Prefix { operator, right, .. } => {
            "("@ + operator@ + expr_dbg(*right) + ")"@
        },
        Expression::Infix { left, operator, right, .. } => {
            "("@ + expr_dbg(*left) + " "@ + operator@ + " "@ + expr_dbg(*right) + ")"@
        },
        Expression::If { token, condition, consequence, alternative } => {
            let head = token.literal@ + " "@ + expr_dbg(*condition) + " "@
                + stmt_dbg(*consequence);
            match alternative {
                Some(alt) => head + "\nelse "@ + stmt_dbg(*alt),
                None => head,
            }
        },
        Expression::Function { token, params, body } => {
            token.literal@ + "("@ + exprs_dbg_from(params@, 0, ","@) + ") "@ + stmt_dbg(*body)
        },
        Expression::Call { function, arguements, .. } => {
            expr_dbg(*function) + "("@ + exprs_dbg_from(arguements@, 0, ", "@) + ")"@
        },
    }
}

/// The renderings of the expressions of `s` from index `i` on, joined by
/// the separator `sep`.
pub open spec fn exprs_dbg_from(s: Seq<Expression>, i: int, sep: Seq<char>) -> Seq<char>
    decreases s, s.len() - i,
{
    if i < 0 || i >= s.len() {
        Seq::empty()
    } else if i == s.len() - 1 {
        expr_dbg(s[i])
    } else {
        expr_dbg(s[i]) + sep + exprs_dbg_from(s, i + 1, sep)
    }
}

/// The rendering of a statement.
pub open spec fn stmt_dbg(s: Statement) -> Seq<char>
    decreases s, 0int,
{
    match s {
        Statement::Let { token, name, value } => {
            token.literal@ + " "@ + expr_dbg(name) + " = "@ + expr_dbg(value)
        },
        Statement::Return { token, return_value } => token.literal@ + " "@ + expr_dbg(
            return_value,
        ),
        Statement::ExpressionStatement { expression, .. } => expr_dbg(expression),
        Statement::Block { statements, .. } => {
            "{\n"@ + stmts_dbg_from(statements@, 0) + " }"@
        },
    }
}

/// The renderings of the statements of `s` from index `i` on, each framed
/// by a tab and a line feed.
pub open spec fn stmts_dbg_from(s: Seq<Statement>, i: int) -> Seq<char>
    decreases s, s.len() - i,
{
    if i < 0 || i >= s.len() {
        Seq::empty()
    } else {
        "\t"@ + stmt_dbg(s[i]) + "\n"@ + stmts_dbg_from(s, i + 1)
    }
}

/// Sequences that are structurally equal element by element are equal as
/// wholes.
pub proof fn lemma_exprs_equiv_pointwise(a: Seq<Expression>, b: Seq<Expression>)
    requires
        a.len() == b.len(),
        forall|i: int| 0 <= i < a.len() ==> expr_equiv(#[trigger] a[i], b[i]),
    ensures
        exprs_equiv(a, b),
    decreases a.len(),
{
    if a.len() > 0 {
        assert(expr_equiv(a[0], b[0]));
        assert forall|i: int| 0 <= i < a.drop_first().len() implies expr_equiv(
            #[trigger] a.drop_first()[i],
            b.drop_first()[i],
        ) by {
            assert(expr_equiv(a[i + 1], b[i + 1]));
        }
        lemma_exprs_equiv_pointwise(a.drop_first(), b.drop_first());
    }
}

/// Sequences that are structurally equal element by element are equal as
/// wholes.
pub proof fn lemma_stmts_equiv_pointwise(a: Seq<Statement>, b: Seq<Statement>)
    requires
        a.len() == b.len(),
        forall|i: int| 0 <= i < a.len() ==> stmt_equiv(#[trigger] a[i], b[i]),
    ensures
        stmts_equiv(a, b),
    decreases a.len(),
{
    if a.len() > 0 {
        assert(stmt_equiv(a[0], b[0]));
        assert forall|i: int| 0 <= i < a.drop_first().len() implies stmt_equiv(
            #[trigger] a.drop_first()[i],
            b.drop_first()[i],
        ) by {
            assert(stmt_equiv(a[i + 1], b[i + 1]));
        }
        lemma_stmts_equiv_pointwise(a.drop_first(), b.drop_first());
    }
}

/// Structural copies of the expressions of `v`, in order.
fn duplicate_exprs(v: &Vec<Expression>) -> (r: Vec<Expression>)
    ensures
        r@.len() == v@.len(),
        forall|j: int| 0 <= j < r@.len() ==> expr_equiv(#[trigger] r@[j], v@[j]),
        exprs_equiv(r@, v@),
    decreases v, 0int, 1int,
{
    let mut out: Vec<Expression> = Vec::new();
    let mut i: usize = 0;
    while i < v.len()
        invariant
            i <= v@.len(),
            out@.len() == i,
            forall|j: int| 0 <= j < i ==> expr_equiv(#[trigger] out@[j], v@[j]),
        decreases v@.len() - i,
    {
        proof {
            assert(decreases_to!(*v => v@[i as int]));
        }
        out.push(v[i].duplicate());
        i += 1;
    }
    proof {
        lemma_exprs_equiv_pointwise(out@, v@);
    }
    out
}

/// Structural copies of the statements of `v`, in order.
fn duplicate_stmts(v: &Vec<Statement>) -> (r: Vec<Statement>)
    ensures
        r@.len() == v@.len(),
        forall|j: int| 0 <= j < r@.len() ==> stmt_equiv(#[trigger] r@[j], v@[j]),
        stmts_equiv(r@, v@),
    decreases v, 0int, 1int,
{
    let mut out: Vec<Statement> = Vec::new();
    let mut i: usize = 0;
    while i < v.len()
        invariant
            i <= v@.len(),
            out@.len() == i,
            forall|j: int| 0 <= j < i ==> stmt_equiv(#[trigger] out@[j], v@[j]),
        decreases v@.len() - i,
    {
        proof {
            assert(decreases_to!(*v => v@[i as int]));
        }
        out.push(v[i].duplicate());
        i += 1;
    }
    proof {
        lemma_stmts_equiv_pointwise(out@, v@);
    }
    out
}

/// Renders the expressions of `v` from index `i` on, joined by `sep`.
fn dbg_exprs_from(v: &Vec<Expression>, i: usize, sep: &str) -> (r: String)
    requires
        i <= v@.len(),
    ensures
        r@ == exprs_dbg_from(v@, i as int, sep@),
    decreases v, v@.len() - i, 1int,
{
    if i >= v.len() {
        String::new()
    } else {
        proof {
            assert(decreases_to!(*v => v@[i as int]));
        }
        let mut out = v[i].dbg();
        if i + 1 < v.len() {
            out.append(sep);
            let rest = dbg_exprs_from(v, i + 1, sep);
            out.append(rest.as_str());
        }
        out
    }
}

/// Renders the statements of `v` from index `i` on, each framed by a tab
/// and a line feed.
fn dbg_stmts_from(v: &Vec<Statement>, i: usize) -> (r: String)
    requires
        i <= v@.len(),
    ensures
        r@ == stmts_dbg_from(v@, i as int),
    decreases v, v@.len() - i, 1int,
{
    proof {
        reveal_strlit("\t");
        reveal_strlit("\n");
    }
    if i >= v.len() {
        String::new()
    } else {
        proof {
            assert(decreases_to!(*v => v@[i as int]));
        }
        let mut out = String::from_str("\t");
        let s = v[i].dbg();
        out.append(s.as_str());
        out.append("\n");
        let rest = dbg_stmts_from(v, i + 1);
        out.append(rest.as_str());
        out
    }
}

impl Expression {
    /// An identifier expression for `identifier`, with its token.
    pub fn construct_identifier_expression(identifier: &str) -> (r: Self)
        ensures
            r matches Expression::Identifier { token, value }
                && token.typ == TokenType::Identifier && token.literal@ == identifier@
                && value@ == identifier@,
    {
        Expression::Identifier {
            token: Token::new_identifier(identifier),
            value: identifier.to_owned(),
        }
    }

    /// An integer literal expression for `value`, with its token.
    pub fn construct_integer_expression(value: isize) -> (r: Self)
        ensures
            r matches Expression::Integer { token, value: v }
                && token.typ == TokenType::Int
                && token.literal@ == crate::numfmt::int_dec_rep(value as int) && v == value,
    {
        Expression::Integer { token: Token::new_int_i(value), value }
    }

    /// A boolean literal expression for `value`, with its token.
    pub fn construct_boolean_expression(value: bool) -> (r: Self)
        ensures
            r matches Expression::Boolean { token, value: v }
                && token.typ == (if value { TokenType::True } else { TokenType::False })
                && v == value,
    {
        Expression::Boolean {
            token: if value { Token::new_true() } else { Token::new_false() },
            value,
        }
    }

    /// A string literal expression for `value`, with its token.
    pub fn construct_string_expression(value: &str) -> (r: Self)
        ensures
            r matches Expression::String { token, value: v }
                && token.typ == TokenType::String && token.literal@ == value@ && v@ == value@,
    {
        Expression::String { token: Token::new_string(value), value: value.to_owned() }
    }

    /// A prefix expression applying `operator` (`-` or `!`) to `right`,
    /// carrying the matching operator token.
    pub fn construct_prefix_expression(operator: &str, right: Self) -> (r: Self)
        requires
            operator@ == "-"@ || operator@ == "!"@,
        ensures
            r matches Expression::Prefix { token, operator: o, right: rt }
                && o@ == operator@ && *rt == right && token.literal@ == operator@
                && token.typ == (if operator@ == "-"@ { TokenType::Dash } else {
                    TokenType::Exclam
                }),
    {
        proof {
            reveal_strlit("-");
            reveal_strlit("!");
            assert("-"@[0] == '-' && "!"@[0] == '!');
            assert("-"@ != "!"@);
        }
        let token = if operator.to_owned().eq(&"-".to_owned()) {
            Token::new_dash()
        } else {
            Token::new_exclam()
        };
        Expression::Prefix { token, operator: operator.to_owned(), right: Box::new(right) }
    }

    /// An infix expression applying a binary `operator` to `left` and
    /// `right`, carrying the matching operator token.
    pub fn construct_infix_expression(operator: &str, left: Self, right: Self) -> (r: Self)
        requires
            operator@ == "+"@ || operator@ == "-"@ || operator@ == "*"@ || operator@ == "/"@
                || operator@ == ">"@ || operator@ == "<"@ || operator@ == "=="@
                || operator@ == "!="@,
        ensures
            r matches Expression::Infix { token, left: lt, operator: o, right: rt }
                && o@ == operator@ && *lt == left && *rt == right && token.literal@ == operator@
                && token.typ == (if operator@ == "+"@ { TokenType::Plus }
                else if operator@ == "-"@ { TokenType::Dash }
                else if operator@ == "*"@ { TokenType::Star }
                else if operator@ == "/"@ { TokenType::FSlash }
                else if operator@ == ">"@ { TokenType::GT }
                else if operator@ == "<"@ { TokenType::LT }
                else if operator@ == "=="@ { TokenType::Eq }
                else { TokenType::NEq }),
    {
        proof {
            reveal_strlit("+");
            reveal_strlit("-");
            reveal_strlit("*");
            reveal_strlit("/");
            reveal_strlit(">");
            reveal_strlit("<");
            reveal_strlit("==");
            reveal_strlit("!=");
            assert("+"@[0] == '+' && "-"@[0] == '-' && "*"@[0] == '*' && "/"@[0] == '/'
                && ">"@[0] == '>' && "<"@[0] == '<' && "=="@[0] == '=' && "!="@[0] == '!');
            assert("+"@ != "-"@ && "+"@ != "*"@ && "+"@ != "/"@ && "+"@ != ">"@ && "+"@ != "<"@);
            assert("-"@ != "*"@ && "-"@ != "/"@ && "-"@ != ">"@ && "-"@ != "<"@);
            assert("*"@ != "/"@ && "*"@ != ">"@ && "*"@ != "<"@);
            assert("/"@ != ">"@ && "/"@ != "<"@);
            assert(">"@ != "<"@);
            assert("=="@ != "!="@);
        }
        let op = operator.to_owned();
        let token = if op.eq(&"+".to_owned()) { Token::new_plus() }
        else if op.eq(&"-".to_owned()) { Token::new_dash() }
        else if op.eq(&"*".to_owned()) { Token::new_star() }
        else if op.eq(&"/".to_owned()) { Token::new_f_slash() }
        else if op.eq(&">".to_owned()) { Token::new_g_t() }
        else if op.eq(&"<".to_owned()) { Token::new_l_t() }
        else if op.eq(&"==".to_owned()) { Token::new_eq() }
        else { Token::new_n_eq() };
        Expression::Infix {
            token,
            left: Box::new(left),
            operator: operator.to_owned(),
            right: Box::new(right),
        }
    }

    /// A conditional expression; the branches must be block statements.
    pub fn construct_if_expression(
        condition: Expression,
        consequence: Statement,
        alternative: Option<Statement>,
    ) -> (r: Self)
        requires
            consequence is Block,
            alternative matches Some(alt) ==> alt is Block,
        ensures
            r matches Expression::If { token, condition: c, consequence: q, alternative: a }
                && token.typ == TokenType::If && *c == condition && *q == consequence
                && (match (a, alternative) {
                    (Some(b), Some(s)) => *b == s,
                    (None, None) => true,
                    _ => false,
                }),
    {
        let alt_boxed = match alternative {
            Some(alt) => Some(Box::new(alt)),
            None => None,
        };
        Self::If {
            token: Token::new_if(),
            condition: Box::new(condition),
            consequence: Box::new(consequence),
            alternative: alt_boxed,
        }
    }

    /// A structurally equal copy of this expression.
    pub fn duplicate(&self) -> (r: Self)
        ensures
            expr_equiv(r, *self),
        decreases *self, 0int, 0int,
    {
        match self {
            Self::Identifier { token, value } => Self::Identifier {
                token: token.duplicate(),
                value: value.clone(),
            },
            Self::Integer { token, value } => Self::Integer {
                token: token.duplicate(),
                value: *value,
            },
            Self::Boolean { token, value } => Self::Boolean {
                token: token.duplicate(),
                value: *value,
            },
            Self::String { token, value } => Self::String {
                token: token.duplicate(),
                value: value.clone(),
            },
            Self::Array { token, elements } => {
                proof {
                    assert(decreases_to!(*self => self->Array_elements));
                }
                Self::Array { token: token.duplicate(), elements: duplicate_exprs(elements) }
            },
            Self::Prefix { token, operator, right } => Self::Prefix {
                token: token.duplicate(),
                operator: operator.clone(),
                right: Box::new(right.duplicate()),
            },
            Self::Infix { token, left, operator, right } => Self::Infix {
                token: token.duplicate(),
                left: Box::new(left.duplicate()),
                operator: operator.clone(),
                right: Box::new(right.duplicate()),
            },
            Self::If { token, condition, consequence, alternative } => {
                let alt = match alternative {
                    Some(a) => Some(Box::new(a.duplicate())),
                    None => None,
                };
                Self::If {
                    token: token.duplicate(),
                    condition: Box::new(condition.duplicate()),
                    consequence: Box::new(consequence.duplicate()),
                    alternative: alt,
                }
            },
            Self::Function { token, params, body } => {
                proof {
                    assert(decreases_to!(*self => self->Function_params));
                }
                Self::Function {
                    token: token.duplicate(),
                    params: duplicate_exprs(params),
                    body: Box::new(body.duplicate()),
                }
            },
            Self::Call { token, function, arguements } => {
                proof {
                    assert(decreases_to!(*self => self->Call_arguements));
                }
                Self::Call {
                    token: token.duplicate(),
                    function: Box::new(function.duplicate()),
                    arguements: duplicate_exprs(arguements),
                }
            },
        }
    }

    /// Renders this expression as `expr_dbg` describes.
    pub fn dbg(&self) -> (r: String)
        ensures
            r@ == expr_dbg(*self),
        decreases *self, 0int, 0int,
    {
        proof {
            reveal_strlit("(");
            reveal_strlit(")");
            reveal_strlit("[");
            reveal_strlit("]");
            reveal_strlit(" ");
            reveal_strlit(") ");
            reveal_strlit(" = ");
            reveal_strlit(",");
            reveal_strlit(", ");
            reveal_strlit("true");
            reveal_strlit("false");
            reveal_strlit("\nelse ");
        }
        match self {
            Self::Identifier { value, .. } => value.clone(),
            Self::Integer { value, .. } => crate::numfmt::isize_to_string(*value),
            Self::Boolean { value, .. } => {
                if *value {
                    "true".to_owned()
                } else {
                    "false".to_owned()
                }
            },
            Self::String { value, .. } => value.clone(),
            Self::Array { elements, .. } => {
                proof {
                    assert(decreases_to!(*self => self->Array_elements));
                }
                let mut out = String::from_str("[");
                let inner = dbg_exprs_from(elements, 0, ",");
                out.append(inner.as_str());
                out.append("]");
                out
            },
            Self::Prefix { operator, right, .. } => {
                let mut out = String::from_str("(");
                out.append(operator.as_str());
                let r = right.dbg();
                out.append(r.as_str());
                out.append(")");
                out
            },
            Self::Infix { left, operator, right, .. } => {
                let mut out = String::from_str("(");
                let l = left.dbg();
                out.append(l.as_str());
                out.append(" ");
                out.append(operator.as_str());
                out.append(" ");
                let r = right.dbg();
                out.append(r.as_str());
                out.append(")");
                out
            },
            Self::If { token, condition, consequence, alternative } => {
                let mut out = token.literal.clone();
                out.append(" ");
                let c = condition.dbg();
                out.append(c.as_str());
                out.append(" ");
                let q = consequence.dbg();
                out.append(q.as_str());
                if let Some(alt) = alternative {
                    out.append("\nelse ");
                    let a = alt.dbg();
                    out.append(a.as_str());
                }
                out
            },
            Self::Function { token, params, body } => {
                proof {
                    assert(decreases_to!(*self => self->Function_params));
                }
                let mut out = token.literal.clone();
                out.append("(");
                let inner = dbg_exprs_from(params, 0, ",");
                out.append(inner.as_str());
                out.append(") ");
                let b = body.dbg();
                out.append(b.as_str());
                out
            },
            Self::Call { function, arguements, .. } => {
                proof {
                    assert(decreases_to!(*self => self->Call_arguements));
                }
                let mut out = function.dbg();
                out.append("(");
                let inner = dbg_exprs_from(arguements, 0, ", ");
                out.append(inner.as_str());
                out.append(")");
                out
            },
        }
    }
}

impl Statement {
    /// An expression statement carrying `expression`.
    pub fn construct_expression_statement(first_token: Token, expression: Expression) -> (r: Self)
        ensures
            r matches Statement::ExpressionStatement { token, expression: e }
                && token == first_token && e == expression,
    {
        Self::ExpressionStatement { token: first_token, expression }
    }

    /// A `let` statement binding `identifier` to the integer literal
    /// `value`.
    pub fn construct_let_statement(identifier: String, value: isize) -> (r: Self)
        ensures
            r matches Statement::Let { token, name, value: v }
                && token.typ == TokenType::Let && token.literal@ == "let"@
                && (name matches Expression::Identifier { value: n, .. } && n@ == identifier@)
                && (v matches Expression::Integer { value: i, .. } && i == value),
    {
        Self::Let {
            token: Token { typ: TokenType::Let, literal: "let".to_string() },
            name: Expression::construct_identifier_expression(identifier.as_str()),
            value: Expression::construct_integer_expression(value),
        }
    }

    /// A `return` statement carrying `return_value`.
    pub fn construct_return_statement(return_value: Expression) -> (r: Self)
        ensures
            r matches Statement::Return { token, return_value: v }
                && token.typ == TokenType::Return && token.literal@ == "return"@
                && v == return_value,
    {
        Self::Return {
            token: Token { typ: TokenType::Return, literal: "return".to_string() },
            return_value,
        }
    }

    /// A block statement holding `statements`.
    pub fn construct_block_statement(statements: Vec<Self>) -> (r: Self)
        ensures
            r matches Statement::Block { token, statements: s }
                && token.typ == TokenType::LBrace && s == statements,
    {
        Self::Block { token: Token::new_l_brace(), statements }
    }

    /// A structurally equal copy of this statement.
    pub fn duplicate(&self) -> (r: Self)
        ensures
            stmt_equiv(r, *self),
        decreases *self, 0int, 0int,
    {
        match self {
            Self::ExpressionStatement { token, expression } => Self::ExpressionStatement {
                token: token.duplicate(),
                expression: expression.duplicate(),
            },
            Self::Let { token, name, value } => Self::Let {
                token: token.duplicate(),
                name: name.duplicate(),
                value: value.duplicate(),
            },
            Self::Return { token, return_value } => Self::Return {
                token: token.duplicate(),
                return_value: return_value.duplicate(),
            },
            Self::Block { token, statements } => {
                proof {
                    assert(decreases_to!(*self => self->Block_statements));
                }
                Self::Block { token: token.duplicate(), statements: duplicate_stmts(statements) }
            },
        }
    }

    /// Renders this statement as `stmt_dbg` describes.
    pub fn dbg(&self) -> (r: String)
        ensures
            r@ == stmt_dbg(*self),
        decreases *self, 0int, 0int,
    {
        proof {
            reveal_strlit(" ");
            reveal_strlit(" = ");
            reveal_strlit("{\n");
            reveal_strlit(" }");
        }
        match self {
            Self::Let { token, name, value } => {
                let mut out = token.literal.clone();
                out.append(" ");
                let n = name.dbg();
                out.append(n.as_str());
                out.append(" = ");
                let v = value.dbg();
                out.append(v.as_str());
                out
            },
            Self::Return { token, return_value } => {
                let mut out = token.literal.clone();
                out.append(" ");
                let v = return_value.dbg();
                out.append(v.as_str());
                out
            },
            Self::ExpressionStatement { expression, .. } => expression.dbg(),
            Self::Block { statements, .. } => {
                proof {
                    assert(decreases_to!(*self => self->Block_statements));
                }
                let mut out = String::from_str("{\n");
                let inner = dbg_stmts_from(statements, 0);
                out.append(inner.as_str());
                out.append(" }");
                out
            },
        }
    }
}

} // verus!
