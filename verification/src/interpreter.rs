//! The tree-walking interpreter: evaluates the syntax tree directly, with
//! environments held in an arena and referenced by index.
//!
//! Function values capture the index of their defining environment, so a
//! binding added to that environment after the function was built is still
//! visible when the function runs. A descent budget bounds the recursion;
//! programs would exhaust the machine long before they exhaust it.

use vstd::prelude::*;
use vstd::pervasive::VecAdditionalExecFns;
use vstd::string::StringExecFns;

use crate::parser::ast::{stmt_equiv, Expression, Statement};
use crate::parser::Program;

verus! {

broadcast use vstd::std_specs::vec::group_vec_axioms, vstd::seq::group_seq_axioms;

/// Failure raised while evaluating a program.
#[derive(Debug)]
pub struct EvalError(String);

/// A native function the interpreter provides to evaluated programs.
#[derive(Debug, PartialEq, Eq, Clone, Copy, Structural)]
pub enum BuiltInFunction {
    Len,
    First,
    Last,
    Rest,
    Push,
}

/// A runtime value of the tree-walking path. A function value holds its
/// parameter names, its body, and the arena index of the environment it
/// was defined in.
#[derive(Debug, PartialEq)]
pub enum Object {
    Integer(isize),
    Boolean(bool),
    String(String),
    Array(Vec<Self>),
    Return(Box<Self>),
    Function { parameters: Vec<String>, body: Statement, fn_env: usize },
    Null,
    BuiltIn(BuiltInFunction),
}

/// Structural equality of interpreter values, comparing strings by their
/// text and function bodies structurally.
pub open spec fn iobj_equiv(a: Object, b: Object) -> bool
    decreases a, 0int,
{
    match (a, b) {
        (Object::Integer(x), Object::Integer(y)) => x == y,
        (Object::Boolean(x), Object::Boolean(y)) => x == y,
        (Object::String(x), Object::String(y)) => x@ == y@,
        (Object::Array(x), Object::Array(y)) => iobjs_equiv(x@, y@),
        (Object::Return(x), Object::Return(y)) => iobj_equiv(*x, *y),
        (
            Object::Function { parameters: p1, body: b1, fn_env: e1 },
            Object::Function { parameters: p2, body: b2, fn_env: e2 },
        ) => {
            &&& p1@.len() == p2@.len()
            &&& forall|i: int| 0 <= i < p1@.len() ==> (#[trigger] p1@[i])@ == p2@[i]@
            &&& stmt_equiv(b1, b2)
            &&& e1 == e2
        },
        (Object::Null, Object::Null) => true,
        (Object::BuiltIn(x), Object::BuiltIn(y)) => x == y,
        _ => false,
    }
}

/// Pointwise structural equality of value sequences.
pub open spec fn iobjs_equiv(a: Seq<Object>, b: Seq<Object>) -> bool
    decreases a, 1int,
{
    if a.len() != b.len() {
        false
    } else if a.len() == 0 {
        true
    } else {
        iobj_equiv(a[0], b[0]) && iobjs_equiv(a.drop_first(), b.drop_first())
    }
}

/// Sequences that are structurally equal element by element are equal as
/// wholes.
proof fn lemma_iobjs_equiv_pointwise(a: Seq<Object>, b: Seq<Object>)
    requires
        a.len() == b.len(),
        forall|i: int| 0 <= i < a.len() ==> iobj_equiv(#[trigger] a[i], b[i]),
    ensures
        iobjs_equiv(a, b),
    decreases a.len(),
{
    if a.len() > 0 {
        assert(iobj_equiv(a[0], b[0]));
        assert forall|i: int| 0 <= i < a.drop_first().len() implies iobj_equiv(
            #[trigger] a.drop_first()[i],
            b.drop_first()[i],
        ) by {
            assert(iobj_equiv(a[i + 1], b[i + 1]));
        }
        lemma_iobjs_equiv_pointwise(a.drop_first(), b.drop_first());
    }
}

/// The value an evaluated value stands for once early-return wrappers are
/// peeled off.
pub open spec fn unwrap_return_spec(o: Object) -> Object
    decreases o,
{
    match o {
        Object::Return(inner) => unwrap_return_spec(*inner),
        _ => o,
    }
}

/// A key under which a hashable value can be stored: its type tag and a
/// number derived from the value.
#[derive(Debug, PartialEq, Eq, Hash)]
pub struct HashKey {
    pub typ: String,
    pub value: usize,
}

/// The number a string hashes to: a bounded polynomial fold of its
/// characters, a pure function of the text.
pub open spec fn str_hash(s: Seq<char>) -> u64
    decreases s.len(),
{
    if s.len() == 0 {
        5381
    } else {
        (((str_hash(s.drop_last()) % 0x1_0000_0000) * 33 + (s.last() as u64)) %
            0x1_0000_0000_0000_0000) as u64
    }
}

impl HashKey {
    /// The hash key of a value; fails iff the value is not an integer, a
    /// boolean, or a string. An integer keys its own value, a negative one
    /// its two's-complement reading; a string keys `str_hash` of its text,
    /// so equal strings map to equal keys.
    pub fn get_hash_key(object: &Object) -> (r: Result<Self, EvalError>)
        ensures
            r is Ok <==> (object is Integer || object is Boolean || object is String),
            r matches Ok(k) ==> match *object {
                Object::Integer(v) => k.typ@ == "int"@
                    && k.value as int == (v as int) % (usize::MAX as int + 1),
                Object::Boolean(b) => k.typ@ == "bool"@ && k.value == (if b { 1int } else { 0int }),
                Object::String(ref s) => k.typ@ == "str"@ && k.value == str_hash(s@) as usize,
                _ => false,
            },
    {
        match object {
            Object::Integer(value) => {
                let v = *value;
                let key = if v >= 0 {
                    v as usize
                } else {
                    usize::MAX - ((-(v + 1)) as usize)
                };
                proof {
                    let m = usize::MAX as int + 1;
                    if v >= 0 {
                        vstd::arithmetic::div_mod::lemma_small_mod(v as nat, m as nat);
                    } else {
                        vstd::arithmetic::div_mod::lemma_mod_add_multiples_vanish(v as int, m);
                        vstd::arithmetic::div_mod::lemma_small_mod((v + m) as nat, m as nat);
                    }
                    assert(key as int == (v as int) % (usize::MAX as int + 1));
                }
                Ok(Self { typ: "int".to_string(), value: key })
            },
            Object::Boolean(value) => Ok(Self {
                typ: "bool".to_string(),
                value: if *value { 1 } else { 0 },
            }),
            Object::String(value) => {
                let n = value.as_str().unicode_len();
                let mut h: u64 = 5381;
                let mut i: usize = 0;
                while i < n
                    invariant
                        n == value@.len(),
                        i <= n,
                        h == str_hash(value@.subrange(0, i as int)),
                    decreases n - i,
                {
                    let c = value.as_str().get_char(i);
                    h = (h % 0x1_0000_0000) * 33 + (c as u64);
                    proof {
                        assert(value@.subrange(0, i + 1).drop_last()
                            =~= value@.subrange(0, i as int));
                        assert(value@.subrange(0, i + 1).last() == value@[i as int]);
                    }
                    i += 1;
                }
                proof {
                    assert(value@.subrange(0, n as int) =~= value@);
                }
                Ok(Self { typ: "str".to_string(), value: #[verifier::truncate] (h as usize) })
            },
            _ => Err(EvalError("Cannot hash object".to_string())),
        }
    }
}

impl Object {
    /// A structurally equal copy of this value.
    pub fn duplicate(&self) -> (r: Self)
        ensures
            iobj_equiv(r, *self),
        decreases *self, 0int,
    {
        match self {
            Self::Integer(x) => Self::Integer(*x),
            Self::Boolean(b) => Self::Boolean(*b),
            Self::String(s) => Self::String(s.clone()),
            Self::Array(items) => {
                let mut out: Vec<Object> = Vec::new();
                let mut i: usize = 0;
                while i < items.len()
                    invariant
                        *self == Object::Array(*items),
                        i <= items@.len(),
                        out@.len() == i,
                        forall|j: int| 0 <= j < i
                            ==> iobj_equiv(#[trigger] out@[j], items@[j]),
                    decreases items@.len() - i,
                {
                    proof {
                        assert(decreases_to!(*self => self->Array_0));
                        assert(self->Array_0 == *items);
                        assert(decreases_to!(*items => items@[i as int]));
                    }
                    out.push(items[i].duplicate());
                    i += 1;
                }
                proof {
                    lemma_iobjs_equiv_pointwise(out@, items@);
                }
                Self::Array(out)
            },
            Self::Return(v) => Self::Return(Box::new(v.duplicate())),
            Self::Function { parameters, body, fn_env } => {
                let mut params: Vec<String> = Vec::new();
                let mut i: usize = 0;
                while i < parameters.len()
                    invariant
                        i <= parameters@.len(),
                        params@.len() == i,
                        forall|j: int| 0 <= j < i
                            ==> (#[trigger] params@[j])@ == parameters@[j]@,
                    decreases parameters@.len() - i,
                {
                    params.push(parameters[i].clone());
                    i += 1;
                }
                Self::Function { parameters: params, body: body.duplicate(), fn_env: *fn_env }
            },
            Self::Null => Self::Null,
            Self::BuiltIn(f) => Self::BuiltIn(*f),
        }
    }

    /// Builds a function value capturing `env`: the parameter names, a
    /// structural copy of the body, and the environment index. Fails iff
    /// the body is not a block or a parameter is not an identifier.
    pub fn construct_fn(parameters: &Vec<Expression>, body: &Statement, env: usize) -> (r: Result<
        Object,
        EvalError,
    >)
        ensures
            r is Ok <==> (*body is Block && forall|j: int| 0 <= j < parameters@.len()
                ==> (#[trigger] parameters@[j]) is Identifier),
            r matches Ok(o) ==> {
                &&& o matches Object::Function { parameters: p, body: b, fn_env: e }
                &&& e == env
                &&& stmt_equiv(b, *body)
                &&& p@.len() == parameters@.len()
                &&& forall|j: int| 0 <= j < p@.len()
                    ==> (#[trigger] p@[j])@ == parameters@[j]->Identifier_value@
            },
    {
        if !matches!(body, Statement::Block { .. }) {
            return Err(EvalError("Invalid fn body, must be Block statement".to_string()));
        }
        let mut param_names: Vec<String> = Vec::new();
        let mut i: usize = 0;
        while i < parameters.len()
            invariant
                i <= parameters@.len(),
                param_names@.len() == i,
                forall|j: int| 0 <= j < i ==> (#[trigger] parameters@[j]) is Identifier,
                forall|j: int| 0 <= j < i
                    ==> (#[trigger] param_names@[j])@ == parameters@[j]->Identifier_value@,
            decreases parameters@.len() - i,
        {
            match &parameters[i] {
                Expression::Identifier { value, .. } => {
                    param_names.push(value.clone());
                },
                _ => {
                    return Err(EvalError(
                        "Invalid fn parameters, all parameters must be Identifiers".to_string(),
                    ));
                },
            }
            i += 1;
        }
        Ok(Self::Function { parameters: param_names, body: body.duplicate(), fn_env: env })
    }

    /// Peels early-return wrappers off this value.
    pub fn unwrap_return(self) -> (r: Self)
        ensures
            r == unwrap_return_spec(self),
        decreases self,
    {
        if let Self::Return(return_val) = self {
            return return_val.unwrap_return();
        }
        self
    }
}

pub type Env = usize;

/// One environment: its bindings, newest last, and the arena index of the
/// enclosing environment, if any.
#[derive(Debug)]
pub struct Environment {
    vars: Vec<(String, Object)>,
    outer: Option<usize>,
}

/// The value bound to `name` among `vars`: the most recent binding wins.
pub open spec fn env_find(vars: Seq<(String, Object)>, name: Seq<char>) -> Option<Object>
    decreases vars.len(),
{
    if vars.len() == 0 {
        None
    } else if vars.last().0@ == name {
        Some(vars.last().1)
    } else {
        env_find(vars.drop_last(), name)
    }
}

impl Environment {
    /// The bindings of this environment, newest last.
    pub closed spec fn vars_view(&self) -> Seq<(String, Object)> {
        self.vars@
    }

    /// The arena index of the enclosing environment, if any.
    pub closed spec fn outer_view(&self) -> Option<usize> {
        self.outer
    }

    /// The arena index of the enclosing environment, if any.
    pub fn outer(&self) -> (r: Option<usize>)
        ensures
            r == self.outer_view(),
    {
        self.outer
    }

    /// An empty environment enclosed by `outer`.
    pub fn new(outer: Option<Env>) -> (r: Self)
        ensures
            r.vars_view() =~= Seq::<(String, Object)>::empty(),
            r.outer_view() == outer,
    {
        Self { vars: Vec::new(), outer }
    }

    /// A copy of the value bound to `name` in this environment alone (the
    /// enclosing chain is the interpreter's affair), or nothing if this
    /// environment does not bind it.
    pub fn get(&self, name: &str) -> (r: Option<Object>)
        ensures
            r is Some <==> env_find(self.vars_view(), name@) is Some,
            r matches Some(o) ==> iobj_equiv(o, env_find(self.vars_view(), name@)->0),
    {
        let needle: String = name.to_owned();
        let mut i: usize = self.vars.len();
        proof {
            assert(self.vars@.subrange(0, self.vars@.len() as int) =~= self.vars@);
        }
        while i > 0
            invariant
                i <= self.vars@.len(),
                needle@ == name@,
                env_find(self.vars@, name@) == env_find(
                    self.vars@.subrange(0, i as int),
                    name@,
                ),
            decreases i,
        {
            i -= 1;
            if self.vars[i].0.eq(&needle) {
                proof {
                    assert(self.vars@.subrange(0, i + 1).last() == self.vars@[i as int]);
                }
                return Some(self.vars[i].1.duplicate());
            }
            proof {
                assert(self.vars@.subrange(0, i + 1).drop_last()
                    =~= self.vars@.subrange(0, i as int));
                assert(self.vars@.subrange(0, i + 1).last().0@ != name@);
            }
        }
        proof {
            assert(self.vars@.subrange(0, 0) =~= Seq::<(String, Object)>::empty());
        }
        None
    }

    /// Binds `name` to `val`; the new binding wins over any older one.
    pub fn set(&mut self, name: &str, val: Object)
        ensures
            final(self).outer_view() == old(self).outer_view(),
            final(self).vars_view().len() == old(self).vars_view().len() + 1,
            final(self).vars_view().last().0@ == name@,
            final(self).vars_view().last().1 == val,
            final(self).vars_view().drop_last() == old(self).vars_view(),
            env_find(final(self).vars_view(), name@) == Some(val),
            forall|other: Seq<char>| other != name@
                ==> #[trigger] env_find(final(self).vars_view(), other)
                    == env_find(old(self).vars_view(), other),
    {
        let owned: String = name.to_owned();
        self.vars.push((owned, val));
        proof {
            assert(self.vars@.drop_last() =~= old(self).vars@);
        }
    }
}

/// The value bound to `name` when resolution starts at arena index `env`
/// and follows the chain of enclosing environments outward.
pub open spec fn chain_find(envs: Seq<Environment>, env: int, name: Seq<char>) -> Option<Object>
    decreases (if env >= 0 { env + 1 } else { 0 }),
{
    if !(0 <= env < envs.len()) {
        None
    } else {
        match env_find(envs[env].vars_view(), name) {
            Some(o) => Some(o),
            None => match envs[env].outer_view() {
                Some(j) => if j < env {
                    chain_find(envs, j as int, name)
                } else {
                    None
                },
                None => None,
            },
        }
    }
}

/// The tree-walking interpreter: the arena of environments. Index 0 is
/// the global environment.
pub struct Interpreter {
    envs: Vec<Environment>,
}

impl Interpreter {
    /// Every environment's enclosing environment sits earlier in the
    /// arena, and the global environment exists.
    pub closed spec fn wf(&self) -> bool {
        &&& self.envs@.len() >= 1
        &&& forall|i: int| 0 <= i < self.envs@.len()
            ==> match (#[trigger] self.envs@[i]).outer_view() {
                Some(j) => j < i,
                None => true,
            }
    }

    /// An interpreter whose global environment is `global_env` with the
    /// native `len` function installed.
    pub fn new(mut global_env: Environment) -> (r: Self)
        requires
            global_env.outer_view() is None,
        ensures
            r.wf(),
    {
        global_env.set("len", Object::BuiltIn(BuiltInFunction::Len));
        global_env.set("first", Object::BuiltIn(BuiltInFunction::First));
        global_env.set("last", Object::BuiltIn(BuiltInFunction::Last));
        global_env.set("rest", Object::BuiltIn(BuiltInFunction::Rest));
        global_env.set("push", Object::BuiltIn(BuiltInFunction::Push));

        let mut envs: Vec<Environment> = Vec::new();
        envs.push(global_env);
        Self { envs }
    }

    /// A copy of the value bound to `name`, resolved from arena index
    /// `env` outward, as `chain_find` describes.
    fn env_get_value(&self, env: usize, name: &str) -> (r: Option<Object>)
        requires
            self.wf(),
            env < self.envs@.len(),
        ensures
            r is Some <==> chain_find(self.envs@, env as int, name@) is Some,
            r matches Some(o) ==> iobj_equiv(o, chain_find(self.envs@, env as int, name@)->0),
        decreases env,
    {
        match self.envs[env].get(name) {
            Some(o) => Some(o),
            None => {
                match self.envs[env].outer() {
                    Some(j) => self.env_get_value(j, name),
                    None => None,
                }
            },
        }
    }

    /// Evaluates a program in the global environment.
    pub fn evaluate_program(&mut self, program: &Program) -> (r: Result<Object, EvalError>)
        requires
            old(self).wf(),
        ensures
            final(self).wf(),
    {
        self.eval_statements(&program.statements, false, 0, u64::MAX)
    }

    /// Evaluates statements in order; an early return stops the walk, and
    /// is unwrapped unless this sequence is a block's body.
    fn eval_statements(
        &mut self,
        statements: &Vec<Statement>,
        is_block: bool,
        env: usize,
        fuel: u64,
    ) -> (r: Result<Object, EvalError>)
        requires
            old(self).wf(),
            env < old(self).envs@.len(),
        ensures
            final(self).wf(),
            final(self).envs@.len() >= old(self).envs@.len(),
        decreases fuel, 3int,
    {
        if fuel == 0 {
            return Err(EvalError("Evaluation nested too deeply".to_string()));
        }
        let mut result = Object::Null;
        let mut i: usize = 0;
        while i < statements.len()
            invariant
                self.wf(),
                env < self.envs@.len(),
                self.envs@.len() >= old(self).envs@.len(),
                i <= statements@.len(),
                fuel >= 1,
            decreases statements@.len() - i,
        {
            result = match self.eval_statement_at(statements, i, env, fuel - 1) {
                Ok(o) => o,
                Err(e) => {
                    return Err(e);
                },
            };
            if matches!(result, Object::Return(_)) {
                if is_block {
                    return Ok(result);
                }
                return Ok(result.unwrap_return());
            }
            i += 1;
        }

        Ok(result)
    }

    /// Evaluates the statement at `i` of `statements`.
    fn eval_statement_at(
        &mut self,
        statements: &Vec<Statement>,
        i: usize,
        env: usize,
        fuel: u64,
    ) -> (r: Result<Object, EvalError>)
        requires
            old(self).wf(),
            env < old(self).envs@.len(),
            i < statements@.len(),
        ensures
            final(self).wf(),
            final(self).envs@.len() >= old(self).envs@.len(),
        decreases fuel, 2int,
    {
        if fuel == 0 {
            return Err(EvalError("Evaluation nested too deeply".to_string()));
        }
        self.eval_statement(&statements[i], env, fuel - 1)
    }

    /// Evaluates one statement.
    fn eval_statement(&mut self, statement: &Statement, env: usize, fuel: u64) -> (r: Result<
        Object,
        EvalError,
    >)
        requires
            old(self).wf(),
            env < old(self).envs@.len(),
        ensures
            final(self).wf(),
            final(self).envs@.len() >= old(self).envs@.len(),
        decreases fuel, 9int,
    {
        if fuel == 0 {
            return Err(EvalError("Evaluation nested too deeply".to_string()));
        }
        match statement {
            Statement::ExpressionStatement { expression, .. } => {
                self.eval_expression(expression, env, fuel - 1)
            },
            Statement::Block { statements, .. } => {
                self.eval_statements(statements, true, env, fuel - 1)
            },
            Statement::Return { return_value, .. } => {
                self.eval_return_statement(return_value, env, fuel - 1)
            },
            Statement::Let { name, value, .. } => {
                self.eval_let_statement(name, value, env, fuel - 1)
            },
        }
    }

    /// Evaluates the returned expression and wraps it as an early return.
    fn eval_return_statement(&mut self, return_value: &Expression, env: usize, fuel: u64) -> (r:
        Result<Object, EvalError>)
        requires
            old(self).wf(),
            env < old(self).envs@.len(),
        ensures
            final(self).wf(),
            final(self).envs@.len() >= old(self).envs@.len(),
        decreases fuel, 8int,
    {
        if fuel == 0 {
            return Err(EvalError("Evaluation nested too deeply".to_string()));
        }
        let value = match self.eval_expression(return_value, env, fuel - 1) {
            Ok(o) => o,
            Err(e) => {
                return Err(e);
            },
        };
        Ok(Object::Return(Box::new(value)))
    }

    /// Evaluates the bound expression and binds it to the name; fails iff
    /// the binding target is not an identifier (or the value fails).
    fn eval_let_statement(
        &mut self,
        name: &Expression,
        value: &Expression,
        env: usize,
        fuel: u64,
    ) -> (r: Result<Object, EvalError>)
        requires
            old(self).wf(),
            env < old(self).envs@.len(),
        ensures
            final(self).wf(),
            final(self).envs@.len() >= old(self).envs@.len(),
        decreases fuel, 8int,
    {
        if fuel == 0 {
            return Err(EvalError("Evaluation nested too deeply".to_string()));
        }
        let val = match self.eval_expression(value, env, fuel - 1) {
            Ok(o) => o,
            Err(e) => {
                return Err(e);
            },
        };
        match name {
            Expression::Identifier { value: bound_name, .. } => {
                let result = val.duplicate();
                self.env_set_value(env, bound_name.as_str(), val);
                Ok(result)
            },
            _ => Err(EvalError("Invalid let statement, expected identifier".to_string())),
        }
    }

    /// Binds `name` to `val` in the environment at arena index `env`.
    fn env_set_value(&mut self, env: usize, name: &str, val: Object)
        requires
            old(self).wf(),
            env < old(self).envs@.len(),
        ensures
            final(self).wf(),
            final(self).envs@.len() == old(self).envs@.len(),
    {
        let mut taken = Environment::new(None);
        self.envs.set_and_swap(env, &mut taken);
        taken.set(name, val);
        self.envs.set_and_swap(env, &mut taken);
        proof {
            assert forall|i: int| 0 <= i < self.envs@.len() implies match (
            #[trigger] self.envs@[i]).outer_view() {
                Some(j) => j < i,
                None => true,
            } by {
                if i != env {
                    assert(self.envs@[i] == old(self).envs@[i]);
                }
            }
        }
    }

    /// Evaluates one expression.
    fn eval_expression(&mut self, expression: &Expression, env: usize, fuel: u64) -> (r: Result<
        Object,
        EvalError,
    >)
        requires
            old(self).wf(),
            env < old(self).envs@.len(),
        ensures
            final(self).wf(),
            final(self).envs@.len() >= old(self).envs@.len(),
            r matches Ok(o) ==> (match *expression {
                Expression::Integer { value, .. } => o == Object::Integer(value),
                Expression::Boolean { value, .. } => o == Object::Boolean(value),
                Expression::String { ref value, .. } => o is String
                    && o->String_0@ == value@,
                _ => true,
            }),
        decreases fuel, 7int,
    {
        if fuel == 0 {
            return Err(EvalError("Evaluation nested too deeply".to_string()));
        }
        match expression {
            Expression::Integer { value, .. } => Ok(Object::Integer(*value)),
            Expression::Boolean { value, .. } => Ok(Object::Boolean(*value)),
            Expression::String { value, .. } => Ok(Object::String(value.clone())),
            Expression::Array { elements, .. } => {
                let mut eval_elms: Vec<Object> = Vec::new();
                let mut i: usize = 0;
                while i < elements.len()
                    invariant
                        self.wf(),
                        env < self.envs@.len(),
                        self.envs@.len() >= old(self).envs@.len(),
                        i <= elements@.len(),
                        fuel >= 1,
                    decreases elements@.len() - i,
                {
                    let elm = match self.eval_expression_at(elements, i, env, fuel - 1) {
                        Ok(o) => o,
                        Err(e) => {
                            return Err(e);
                        },
                    };
                    eval_elms.push(elm);
                    i += 1;
                }
                Ok(Object::Array(eval_elms))
            },
            Expression::Prefix { operator, right, .. } => {
                let right_val = match self.eval_expression(right, env, fuel - 1) {
                    Ok(o) => o,
                    Err(e) => {
                        return Err(e);
                    },
                };
                Self::eval_prefix_expression(operator.as_str(), right_val)
            },
            Expression::Infix { left, operator, right, .. } => {
                let left_val = match self.eval_expression(left, env, fuel - 1) {
                    Ok(o) => o,
                    Err(e) => {
                        return Err(e);
                    },
                };
                let right_val = match self.eval_expression(right, env, fuel - 1) {
                    Ok(o) => o,
                    Err(e) => {
                        return Err(e);
                    },
                };
                Self::eval_infix_expression(left_val, operator.as_str(), right_val)
            },
            Expression::If { condition, consequence, alternative, .. } => {
                let cond_val = match self.eval_expression(condition, env, fuel - 1) {
                    Ok(o) => o,
                    Err(e) => {
                        return Err(e);
                    },
                };
                self.eval_if_expression(cond_val, consequence, alternative, env, fuel - 1)
            },
            Expression::Identifier { value, .. } => {
                match self.env_get_value(env, value.as_str()) {
                    Some(o) => Ok(o),
                    None => Err(EvalError("Unknown variable".to_string())),
                }
            },
            Expression::Function { params, body, .. } => Object::construct_fn(params, body, env),
            Expression::Call { function, arguements, .. } => {
                self.eval_call_expression(function, arguements, env, fuel - 1)
            },
        }
    }

    /// Evaluates the expression at `i` of `expressions`.
    fn eval_expression_at(
        &mut self,
        expressions: &Vec<Expression>,
        i: usize,
        env: usize,
        fuel: u64,
    ) -> (r: Result<Object, EvalError>)
        requires
            old(self).wf(),
            env < old(self).envs@.len(),
            i < expressions@.len(),
        ensures
            final(self).wf(),
            final(self).envs@.len() >= old(self).envs@.len(),
        decreases fuel, 8int,
    {
        if fuel == 0 {
            return Err(EvalError("Evaluation nested too deeply".to_string()));
        }
        self.eval_expression(&expressions[i], env, fuel - 1)
    }

    /// Applies a prefix operator: `!` negates booleans, tests integers
    /// for zero, and turns null into true; `-` negates integers. Fails
    /// iff the operand does not support the operator or negation would
    /// not fit the machine width.
    fn eval_prefix_expression(operator: &str, right: Object) -> (r: Result<Object, EvalError>)
        ensures
            operator@ == "!"@ ==> match right {
                Object::Integer(v) => r == Ok::<Object, EvalError>(Object::Boolean(v == 0)),
                Object::Boolean(b) => r == Ok::<Object, EvalError>(Object::Boolean(!b)),
                Object::Null => r == Ok::<Object, EvalError>(Object::Boolean(true)),
                _ => r is Err,
            },
            operator@ == "-"@ ==> match right {
                Object::Integer(v) => {
                    if isize::MIN <= -v <= isize::MAX {
                        r == Ok::<Object, EvalError>(Object::Integer((-v) as isize))
                    } else {
                        r is Err
                    }
                },
                _ => r is Err,
            },
            operator@ != "!"@ && operator@ != "-"@ ==> r is Err,
    {
        proof {
            reveal_strlit("!");
            reveal_strlit("-");
            assert("!"@[0] == '!' && "-"@[0] == '-');
            assert("!"@ != "-"@);
        }
        let op: String = operator.to_owned();
        if op.eq(&"!".to_owned()) {
            match right {
                Object::Integer(val) => Ok(Object::Boolean(val == 0)),
                Object::Boolean(val) => Ok(Object::Boolean(!val)),
                Object::Null => Ok(Object::Boolean(true)),
                _ => Err(EvalError("Invalid arg for prefix operator `!`".to_string())),
            }
        } else if op.eq(&"-".to_owned()) {
            match right {
                Object::Integer(val) => match (0isize).checked_sub(val) {
                    Some(n) => Ok(Object::Integer(n)),
                    None => Err(EvalError("`-` overflow".to_string())),
                },
                _ => Err(EvalError("Invalid arg for prefix operator `-`".to_string())),
            }
        } else {
            Err(EvalError("Cannot eval prefix expression".to_string()))
        }
    }

    /// Applies an infix operator to two values, after peeling early
    /// returns: arithmetic and comparisons on integer pairs, comparisons
    /// on boolean pairs, concatenation and equality on string pairs.
    /// Fails iff the pair does not support the operator or the result
    /// would not fit the machine width.
    fn eval_infix_expression(left: Object, operator: &str, right: Object) -> (r: Result<
        Object,
        EvalError,
    >)
        ensures
            ({
                let l = unwrap_return_spec(left);
                let rt = unwrap_return_spec(right);
                match (l, rt) {
                    (Object::Integer(a), Object::Integer(b)) => {
                        if operator@ == "+"@ {
                            if isize::MIN <= a + b <= isize::MAX {
                                r == Ok::<Object, EvalError>(Object::Integer((a + b) as isize))
                            } else {
                                r is Err
                            }
                        } else if operator@ == "-"@ {
                            if isize::MIN <= a - b <= isize::MAX {
                                r == Ok::<Object, EvalError>(Object::Integer((a - b) as isize))
                            } else {
                                r is Err
                            }
                        } else if operator@ == ">"@ {
                            r == Ok::<Object, EvalError>(Object::Boolean(a > b))
                        } else if operator@ == "<"@ {
                            r == Ok::<Object, EvalError>(Object::Boolean(a < b))
                        } else if operator@ == "=="@ {
                            r == Ok::<Object, EvalError>(Object::Boolean(a == b))
                        } else if operator@ == "!="@ {
                            r == Ok::<Object, EvalError>(Object::Boolean(a != b))
                        } else {
                            true
                        }
                    },
                    (Object::Boolean(a), Object::Boolean(b)) => {
                        if operator@ == "=="@ {
                            r == Ok::<Object, EvalError>(Object::Boolean(a == b))
                        } else if operator@ == "!="@ {
                            r == Ok::<Object, EvalError>(Object::Boolean(a != b))
                        } else if operator@ == ">"@ {
                            r == Ok::<Object, EvalError>(Object::Boolean(a && !b))
                        } else if operator@ == "<"@ {
                            r == Ok::<Object, EvalError>(Object::Boolean(!a && b))
                        } else {
                            r is Err
                        }
                    },
                    _ => true,
                }
            }),
    {
        proof {
            reveal_strlit("+");
            reveal_strlit("-");
            reveal_strlit("*");
            reveal_strlit("/");
            reveal_strlit(">");
            reveal_strlit("<");
            reveal_strlit("==");
            reveal_strlit("!=");
            assert("+"@[0] == '+' && "-"@[0] == '-' && "*"@[0] == '*' && "/"@[0] == '/'
                && ">"@[0] == '>' && "<"@[0] == '<' && "=="@[0] == '=' && "!="@[0] == '!');
            assert("+"@ != "-"@ && "+"@ != "*"@ && "+"@ != "/"@ && "+"@ != ">"@ && "+"@ != "<"@);
            assert("-"@ != "*"@ && "-"@ != "/"@ && "-"@ != ">"@ && "-"@ != "<"@);
            assert("*"@ != "/"@ && "*"@ != ">"@ && "*"@ != "<"@);
            assert("/"@ != ">"@ && "/"@ != "<"@);
            assert(">"@ != "<"@);
            assert("=="@ != "!="@);
        }
        let left = left.unwrap_return();
        let right = right.unwrap_return();
        let op: String = operator.to_owned();

        match (left, right) {
            (Object::Integer(left_val), Object::Integer(right_val)) => {
                if op.eq(&"+".to_owned()) {
                    match left_val.checked_add(right_val) {
                        Some(v) => Ok(Object::Integer(v)),
                        None => Err(EvalError("`+` overflow".to_string())),
                    }
                } else if op.eq(&"-".to_owned()) {
                    match left_val.checked_sub(right_val) {
                        Some(v) => Ok(Object::Integer(v)),
                        None => Err(EvalError("`-` overflow".to_string())),
                    }
                } else if op.eq(&"*".to_owned()) {
                    match left_val.checked_mul(right_val) {
                        Some(v) => Ok(Object::Integer(v)),
                        None => Err(EvalError("`*` overflow".to_string())),
                    }
                } else if op.eq(&"/".to_owned()) {
                    match left_val.checked_div(right_val) {
                        Some(v) => Ok(Object::Integer(v)),
                        None => Err(EvalError("`/` by zero or overflow".to_string())),
                    }
                } else if op.eq(&">".to_owned()) {
                    Ok(Object::Boolean(left_val > right_val))
                } else if op.eq(&"<".to_owned()) {
                    Ok(Object::Boolean(left_val < right_val))
                } else if op.eq(&"==".to_owned()) {
                    Ok(Object::Boolean(left_val == right_val))
                } else if op.eq(&"!=".to_owned()) {
                    Ok(Object::Boolean(left_val != right_val))
                } else {
                    Err(EvalError("Invalid operator in infix position".to_string()))
                }
            },
            (Object::Boolean(left_val), Object::Boolean(right_val)) => {
                if op.eq(&">".to_owned()) {
                    Ok(Object::Boolean(left_val && !right_val))
                } else if op.eq(&"<".to_owned()) {
                    Ok(Object::Boolean(!left_val && right_val))
                } else if op.eq(&"==".to_owned()) {
                    Ok(Object::Boolean(left_val == right_val))
                } else if op.eq(&"!=".to_owned()) {
                    Ok(Object::Boolean(left_val != right_val))
                } else {
                    Err(EvalError("Invalid operator in infix position".to_string()))
                }
            },
            (Object::String(left_val), Object::String(right_val)) => {
                if op.eq(&"+".to_owned()) {
                    let joined = left_val.concat(right_val.as_str());
                    Ok(Object::String(joined))
                } else if op.eq(&"==".to_owned()) {
                    Ok(Object::Boolean(left_val.eq(&right_val)))
                } else if op.eq(&"!=".to_owned()) {
                    Ok(Object::Boolean(!left_val.eq(&right_val)))
                } else {
                    Err(EvalError("Invalid operator in infix position".to_string()))
                }
            },
            _ => Err(EvalError("Type mismatch in infix position".to_string())),
        }
    }

    /// Evaluates a conditional: the consequence block when the condition
    /// is a nonzero integer or true, else the alternative block, else
    /// null.
    fn eval_if_expression(
        &mut self,
        condition: Object,
        consequence: &Statement,
        alternative: &Option<Box<Statement>>,
        env: usize,
        fuel: u64,
    ) -> (r: Result<Object, EvalError>)
        requires
            old(self).wf(),
            env < old(self).envs@.len(),
        ensures
            final(self).wf(),
            final(self).envs@.len() >= old(self).envs@.len(),
        decreases fuel, 6int,
    {
        if fuel == 0 {
            return Err(EvalError("Evaluation nested too deeply".to_string()));
        }
        let mut bool_condition = false;
        if let Object::Integer(val) = condition {
            bool_condition = val != 0;
        }
        if let Object::Boolean(val) = condition {
            bool_condition = val;
        }

        if bool_condition {
            match consequence {
                Statement::Block { statements, .. } => {
                    self.eval_statements(statements, true, env, fuel - 1)
                },
                _ => Err(EvalError("Consequence must be a block statement".to_string())),
            }
        } else {
            if let Some(alt) = alternative {
                match &**alt {
                    Statement::Block { statements, .. } => {
                        self.eval_statements(statements, true, env, fuel - 1)
                    },
                    _ => Err(EvalError("Alternative must be a block statement".to_string())),
                }
            } else {
                Ok(Object::Null)
            }
        }
    }

    /// Evaluates a call: resolves the callee, evaluates the arguments,
    /// binds them in a fresh environment enclosed by the function's
    /// defining environment, and evaluates the body there; a native
    /// function is dispatched directly.
    fn eval_call_expression(
        &mut self,
        function: &Expression,
        arguements: &Vec<Expression>,
        env: usize,
        fuel: u64,
    ) -> (r: Result<Object, EvalError>)
        requires
            old(self).wf(),
            env < old(self).envs@.len(),
        ensures
            final(self).wf(),
            final(self).envs@.len() >= old(self).envs@.len(),
        decreases fuel, 6int,
    {
        if fuel == 0 {
            return Err(EvalError("Evaluation nested too deeply".to_string()));
        }
        let function_obj = match self.eval_expression(function, env, fuel - 1) {
            Ok(o) => o,
            Err(e) => {
                return Err(e);
            },
        };
        let function_obj = function_obj.unwrap_return();

        match function_obj {
            Object::Function { parameters, body, fn_env } => {
                if parameters.len() != arguements.len() {
                    return Err(EvalError(
                        "Invalid call expression, wrong number of args".to_string(),
                    ));
                }
                if fn_env >= self.envs.len() {
                    return Err(EvalError("Invalid call expression, lost environment".to_string()));
                }

                let statements = match body {
                    Statement::Block { statements, .. } => statements,
                    _ => {
                        return Err(EvalError(
                            "Invalid call expression, function body must be Block".to_string(),
                        ));
                    },
                };

                let mut new_env = Environment::new(Some(fn_env));
                let mut i: usize = 0;
                while i < arguements.len()
                    invariant
                        self.wf(),
                        env < self.envs@.len(),
                        fn_env < self.envs@.len(),
                        self.envs@.len() >= old(self).envs@.len(),
                        i <= arguements@.len(),
                        arguements@.len() == parameters@.len(),
                        new_env.outer_view() == Some(fn_env),
                        fuel >= 1,
                    decreases arguements@.len() - i,
                {
                    let arg_val = match self.eval_expression_at(arguements, i, env, fuel - 1) {
                        Ok(o) => o,
                        Err(e) => {
                            return Err(e);
                        },
                    };
                    new_env.set(parameters[i].as_str(), arg_val);
                    i += 1;
                }

                let new_env_idx = self.envs.len();
                let ghost pre = self.envs@;
                self.envs.push(new_env);
                proof {
                    assert forall|k: int| 0 <= k < self.envs@.len() implies match (
                    #[trigger] self.envs@[k]).outer_view() {
                        Some(j) => j < k,
                        None => true,
                    } by {
                        if k < self.envs@.len() - 1 {
                            assert(self.envs@[k] == pre[k]);
                        }
                    }
                }

                let result = match self.eval_statements(&statements, true, new_env_idx, fuel - 1) {
                    Ok(o) => o,
                    Err(e) => {
                        return Err(e);
                    },
                };
                Ok(result.unwrap_return())
            },
            Object::BuiltIn(f) => {
                let mut args: Vec<Object> = Vec::new();
                let mut i: usize = 0;
                while i < arguements.len()
                    invariant
                        self.wf(),
                        env < self.envs@.len(),
                        self.envs@.len() >= old(self).envs@.len(),
                        i <= arguements@.len(),
                        fuel >= 1,
                    decreases arguements@.len() - i,
                {
                    let arg_val = match self.eval_expression_at(arguements, i, env, fuel - 1) {
                        Ok(o) => o,
                        Err(e) => {
                            return Err(e);
                        },
                    };
                    args.push(arg_val);
                    i += 1;
                }
                Self::eval_builtin(f, args)
            },
            _ => Err(EvalError(
                "Invalid call expression, expression must evaluate to function".to_string(),
            )),
        }
    }

    /// Dispatches a native function, each a pure operation: `len` gives a
    /// string's or array's length; `first`, `last` and `rest` read an
    /// array (null when it is empty); `push` returns the array extended by
    /// one value. Each fails iff its arguments do not fit that shape.
    fn eval_builtin(f: BuiltInFunction, args: Vec<Object>) -> (r: Result<Object, EvalError>)
        ensures
            f == BuiltInFunction::Len ==> {
                &&& r is Ok <==> (args@.len() == 1 && ((args@[0] is String
                    && args@[0]->String_0@.len() <= isize::MAX) || (args@[0] is Array
                    && args@[0]->Array_0@.len() <= isize::MAX)))
                &&& r matches Ok(o) ==> match args@[0] {
                    Object::String(s) => o == Object::Integer(s@.len() as isize),
                    Object::Array(a) => o == Object::Integer(a@.len() as isize),
                    _ => false,
                }
            },
            f == BuiltInFunction::First ==> {
                &&& r is Ok <==> (args@.len() == 1 && args@[0] is Array)
                &&& r matches Ok(o) ==> {
                    let arr = args@[0]->Array_0@;
                    if arr.len() > 0 {
                        iobj_equiv(o, arr[0])
                    } else {
                        o == Object::Null
                    }
                }
            },
            f == BuiltInFunction::Last ==> {
                &&& r is Ok <==> (args@.len() == 1 && args@[0] is Array)
                &&& r matches Ok(o) ==> {
                    let arr = args@[0]->Array_0@;
                    if arr.len() > 0 {
                        iobj_equiv(o, arr.last())
                    } else {
                        o == Object::Null
                    }
                }
            },
            f == BuiltInFunction::Rest ==> {
                &&& r is Ok <==> (args@.len() == 1 && args@[0] is Array)
                &&& r matches Ok(o) ==> {
                    let arr = args@[0]->Array_0@;
                    if arr.len() > 0 {
                        o is Array && o->Array_0@.len() == arr.len() - 1
                            && forall|i: int| 0 <= i < arr.len() - 1
                                ==> iobj_equiv(#[trigger] o->Array_0@[i], arr[i + 1])
                    } else {
                        o == Object::Null
                    }
                }
            },
            f == BuiltInFunction::Push ==> {
                &&& r is Ok <==> (args@.len() == 2 && args@[0] is Array)
                &&& r matches Ok(o) ==> {
                    let arr = args@[0]->Array_0@;
                    o is Array && o->Array_0@.len() == arr.len() + 1
                        && (forall|i: int| 0 <= i < arr.len()
                            ==> iobj_equiv(#[trigger] o->Array_0@[i], arr[i]))
                        && iobj_equiv(o->Array_0@.last(), args@[1])
                }
            },
    {
        match f {
            BuiltInFunction::Len => {
                if args.len() != 1 {
                    return Err(EvalError(
                        "Error in built-in len, expected 1 arguement".to_string(),
                    ));
                }
                match &args[0] {
                    Object::String(s) => {
                        let n = s.as_str().unicode_len();
                        if n > (isize::MAX as usize) {
                            return Err(EvalError("Error in built-in len, too long".to_string()));
                        }
                        Ok(Object::Integer(n as isize))
                    },
                    Object::Array(arr) => {
                        let n = arr.len();
                        if n > (isize::MAX as usize) {
                            return Err(EvalError("Error in built-in len, too long".to_string()));
                        }
                        Ok(Object::Integer(n as isize))
                    },
                    _ => Err(EvalError(
                        "Can't call built-in fn `len` on this type".to_string(),
                    )),
                }
            },
            BuiltInFunction::First => {
                if args.len() != 1 {
                    return Err(EvalError(
                        "Error in built-in first, expected 1 arguement".to_string(),
                    ));
                }
                match &args[0] {
                    Object::Array(arr) => {
                        if arr.len() > 0 {
                            Ok(arr[0].duplicate())
                        } else {
                            Ok(Object::Null)
                        }
                    },
                    _ => Err(EvalError(
                        "Can't call built-in fn `first` on this type".to_string(),
                    )),
                }
            },
            BuiltInFunction::Last => {
                if args.len() != 1 {
                    return Err(EvalError(
                        "Error in built-in last, expected 1 arguement".to_string(),
                    ));
                }
                match &args[0] {
                    Object::Array(arr) => {
                        if arr.len() > 0 {
                            Ok(arr[arr.len() - 1].duplicate())
                        } else {
                            Ok(Object::Null)
                        }
                    },
                    _ => Err(EvalError(
                        "Can't call built-in fn `last` on this type".to_string(),
                    )),
                }
            },
            BuiltInFunction::Rest => {
                if args.len() != 1 {
                    return Err(EvalError(
                        "Error in built-in rest, expected 1 arguement".to_string(),
                    ));
                }
                match &args[0] {
                    Object::Array(arr) => {
                        if arr.len() == 0 {
                            return Ok(Object::Null);
                        }
                        let mut out: Vec<Object> = Vec::new();
                        let mut i: usize = 1;
                        while i < arr.len()
                            invariant
                                1 <= i <= arr@.len(),
                                out@.len() == i - 1,
                                forall|j: int| 0 <= j < i - 1
                                    ==> iobj_equiv(#[trigger] out@[j], arr@[j + 1]),
                            decreases arr@.len() - i,
                        {
                            out.push(arr[i].duplicate());
                            i += 1;
                        }
                        Ok(Object::Array(out))
                    },
                    _ => Err(EvalError(
                        "Can't call built-in fn `rest` on this type".to_string(),
                    )),
                }
            },
            BuiltInFunction::Push => {
                if args.len() != 2 {
                    return Err(EvalError(
                        "Error in built-in push, expected 2 arguements".to_string(),
                    ));
                }
                match &args[0] {
                    Object::Array(arr) => {
                        let mut out: Vec<Object> = Vec::new();
                        let mut i: usize = 0;
                        while i < arr.len()
                            invariant
                                i <= arr@.len(),
                                out@.len() == i,
                                forall|j: int| 0 <= j < i
                                    ==> iobj_equiv(#[trigger] out@[j], arr@[j]),
                            decreases arr@.len() - i,
                        {
                            out.push(arr[i].duplicate());
                            i += 1;
                        }
                        out.push(args[1].duplicate());
                        Ok(Object::Array(out))
                    },
                    _ => Err(EvalError(
                        "Can't call built-in fn `push` on this type".to_string(),
                    )),
                }
            },
        }
    }
}

} // verus!
