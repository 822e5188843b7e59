//! Core data model of the bytecode path: opcodes, instruction operands,
//! runtime values, and the compiler's output format.

use vstd::prelude::*;

verus! {

broadcast use vstd::std_specs::vec::group_vec_axioms, vstd::seq::group_seq_axioms;

/// Failure raised while assembling or decoding bytecode.
#[derive(Debug)]
pub struct CompileError(pub String);

/// Failure raised by the virtual machine while executing bytecode.
#[derive(Debug)]
pub struct RuntimeError(pub String);

pub type Bytes = Vec<u8>;

/// A single instruction operand together with its runtime width tag.
#[derive(Debug, Clone, Copy, PartialEq, Eq, Structural)]
pub enum Arg {
    U8(u8),
    U16(u16),
}

impl Arg {
    /// The operand's width in bits.
    pub fn get_size(&self) -> (r: u8)
        ensures
            self is U8 ==> r == 8,
            self is U16 ==> r == 16,
    {
        match self {
            Self::U8(_) => 8,
            Self::U16(_) => 16,
        }
    }

    /// Reads a one-byte operand at `offset`; fails iff `offset` is past the end.
    pub fn read_u8(bytes: &Bytes, offset: usize) -> (r: Result<Arg, CompileError>)
        ensures
            r is Ok <==> offset < bytes@.len(),
            r is Ok ==> r->Ok_0 == Arg::U8(bytes@[offset as int]),
    {
        if bytes.len() <= offset {
            return Err(CompileError("read_u8: offset larger than bytes size!".to_string()));
        }
        Ok(Arg::U8(bytes[offset]))
    }

    /// Reads a two-byte big-endian operand at `offset`; fails iff the two
    /// bytes are not both inside the buffer.
    pub fn read_u16(bytes: &Bytes, offset: usize) -> (r: Result<Arg, CompileError>)
        ensures
            r is Ok <==> offset + 1 < bytes@.len(),
            r is Ok ==> r->Ok_0 == Arg::U16(
                (bytes@[offset as int] as u16 * 256 + bytes@[offset as int + 1] as u16) as u16,
            ),
    {
        if bytes.len() <= offset || bytes.len() <= offset + 1 {
            return Err(CompileError("read_u16: offset larger than bytes size".to_string()));
        }
        let r = crate::helpers::combine_bytes(bytes[offset], bytes[offset + 1]);
        Ok(Arg::U16(r))
    }
}

/// The closed instruction vocabulary. Each opcode has a fixed list of
/// operand widths; the wire tag of each opcode is given by `op_byte`.
#[derive(Debug, Clone, Copy, PartialEq, Eq, Structural)]
pub enum OpCode {
    Constant,
    Pop,
    Add,
    Sub,
    Mul,
    Div,
    True,
    False,
    Eq,
    NEq,
    GT,
    Minus,
    Exclam,
    LT,
    Null,
    JP,
    JPTrue,
    JPFalse,
    SetGlobal,
    GetGlobal,
}

/// The wire tag of an opcode: byte 0 of every encoded instruction.
pub open spec fn op_byte(op: OpCode) -> u8 {
    match op {
        OpCode::Constant => 0,
        OpCode::Pop => 1,
        OpCode::Add => 2,
        OpCode::Sub => 3,
        OpCode::Mul => 4,
        OpCode::Div => 5,
        OpCode::True => 6,
        OpCode::False => 7,
        OpCode::Eq => 8,
        OpCode::NEq => 9,
        OpCode::GT => 10,
        OpCode::Minus => 11,
        OpCode::Exclam => 12,
        OpCode::LT => 13,
        OpCode::Null => 14,
        OpCode::JP => 15,
        OpCode::JPTrue => 16,
        OpCode::JPFalse => 17,
        OpCode::SetGlobal => 18,
        OpCode::GetGlobal => 19,
    }
}

/// The opcode a wire tag stands for, if any: the inverse of `op_byte`.
pub open spec fn op_of_byte(b: u8) -> Option<OpCode> {
    if b == 0 { Some(OpCode::Constant) }
    else if b == 1 { Some(OpCode::Pop) }
    else if b == 2 { Some(OpCode::Add) }
    else if b == 3 { Some(OpCode::Sub) }
    else if b == 4 { Some(OpCode::Mul) }
    else if b == 5 { Some(OpCode::Div) }
    else if b == 6 { Some(OpCode::True) }
    else if b == 7 { Some(OpCode::False) }
    else if b == 8 { Some(OpCode::Eq) }
    else if b == 9 { Some(OpCode::NEq) }
    else if b == 10 { Some(OpCode::GT) }
    else if b == 11 { Some(OpCode::Minus) }
    else if b == 12 { Some(OpCode::Exclam) }
    else if b == 13 { Some(OpCode::LT) }
    else if b == 14 { Some(OpCode::Null) }
    else if b == 15 { Some(OpCode::JP) }
    else if b == 16 { Some(OpCode::JPTrue) }
    else if b == 17 { Some(OpCode::JPFalse) }
    else if b == 18 { Some(OpCode::SetGlobal) }
    else if b == 19 { Some(OpCode::GetGlobal) }
    else { None }
}

/// The declared operand widths of an opcode, in bytes per operand.
pub open spec fn op_widths(op: OpCode) -> Seq<u8> {
    match op {
        OpCode::Constant => seq![2u8],
        OpCode::JP => seq![2u8],
        OpCode::JPTrue => seq![2u8],
        OpCode::JPFalse => seq![2u8],
        OpCode::SetGlobal => seq![2u8],
        OpCode::GetGlobal => seq![2u8],
        _ => Seq::empty(),
    }
}

/// Round trip of the wire tag: decoding an opcode's tag yields that opcode.
pub proof fn lemma_op_byte_round_trip(op: OpCode)
    ensures
        op_of_byte(op_byte(op)) == Some(op),
{
}

impl OpCode {
    /// The wire tag of this opcode.
    pub fn to_byte(&self) -> (r: u8)
        ensures
            r == op_byte(*self),
    {
        match self {
            Self::Constant => 0,
            Self::Pop => 1,
            Self::Add => 2,
            Self::Sub => 3,
            Self::Mul => 4,
            Self::Div => 5,
            Self::True => 6,
            Self::False => 7,
            Self::Eq => 8,
            Self::NEq => 9,
            Self::GT => 10,
            Self::Minus => 11,
            Self::Exclam => 12,
            Self::LT => 13,
            Self::Null => 14,
            Self::JP => 15,
            Self::JPTrue => 16,
            Self::JPFalse => 17,
            Self::SetGlobal => 18,
            Self::GetGlobal => 19,
        }
    }

    /// The declared operand widths, in bytes per operand.
    pub fn get_arg_widths(&self) -> (r: Vec<u8>)
        ensures
            r@ == op_widths(*self),
    {
        let r = match self {
            Self::Constant => vec![2],
            Self::JP => vec![2],
            Self::JPTrue => vec![2],
            Self::JPFalse => vec![2],
            Self::SetGlobal => vec![2],
            Self::GetGlobal => vec![2],
            _ => Vec::new(),
        };
        proof {
            assert(r@ =~= op_widths(*self));
        }
        r
    }

    /// Recognizes a wire tag; fails iff the byte names no opcode.
    pub fn from_byte(opcode: u8) -> (r: Result<Self, CompileError>)
        ensures
            r is Ok <==> op_of_byte(opcode) is Some,
            r is Ok ==> Some(r->Ok_0) == op_of_byte(opcode),
    {
        if opcode == 0 { Ok(Self::Constant) }
        else if opcode == 1 { Ok(Self::Pop) }
        else if opcode == 2 { Ok(Self::Add) }
        else if opcode == 3 { Ok(Self::Sub) }
        else if opcode == 4 { Ok(Self::Mul) }
        else if opcode == 5 { Ok(Self::Div) }
        else if opcode == 6 { Ok(Self::True) }
        else if opcode == 7 { Ok(Self::False) }
        else if opcode == 8 { Ok(Self::Eq) }
        else if opcode == 9 { Ok(Self::NEq) }
        else if opcode == 10 { Ok(Self::GT) }
        else if opcode == 11 { Ok(Self::Minus) }
        else if opcode == 12 { Ok(Self::Exclam) }
        else if opcode == 13 { Ok(Self::LT) }
        else if opcode == 14 { Ok(Self::Null) }
        else if opcode == 15 { Ok(Self::JP) }
        else if opcode == 16 { Ok(Self::JPTrue) }
        else if opcode == 17 { Ok(Self::JPFalse) }
        else if opcode == 18 { Ok(Self::SetGlobal) }
        else if opcode == 19 { Ok(Self::GetGlobal) }
        else { Err(CompileError("Unknown opcode".to_string())) }
    }
}

/// A runtime value of the language.
#[derive(Debug, PartialEq)]
pub enum Object {
    Integer(isize),
    Boolean(bool),
    String(String),
    Array(Vec<Self>),
    KVPair(Box<Self>, Box<Self>),
    Return(Box<Self>),
    Null,
}

/// The mathematical shape of a runtime value: integers unbounded, strings as
/// character sequences, aggregates as sequences of shapes.
#[verifier::ext_equal]
pub ghost enum ObjectV {
    Integer(int),
    Boolean(bool),
    String(Seq<char>),
    Array(Seq<ObjectV>),
    KVPair(Box<ObjectV>, Box<ObjectV>),
    Return(Box<ObjectV>),
    Null,
}

/// The mathematical shape of a runtime value.
pub open spec fn obj_v(o: Object) -> ObjectV
    decreases o,
{
    match o {
        Object::Integer(x) => ObjectV::Integer(x as int),
        Object::Boolean(b) => ObjectV::Boolean(b),
        Object::String(s) => ObjectV::String(s@),
        Object::Array(items) => ObjectV::Array(objs_v(items@)),
        Object::KVPair(k, v) => ObjectV::KVPair(Box::new(obj_v(*k)), Box::new(obj_v(*v))),
        Object::Return(v) => ObjectV::Return(Box::new(obj_v(*v))),
        Object::Null => ObjectV::Null,
    }
}

/// The shapes of a sequence of runtime values.
pub open spec fn objs_v(s: Seq<Object>) -> Seq<ObjectV>
    decreases s,
{
    if s.len() == 0 {
        Seq::empty()
    } else {
        seq![obj_v(s[0])] + objs_v(s.drop_first())
    }
}

/// The shape sequence of a value sequence is its pointwise shape.
pub broadcast proof fn lemma_objs_v(s: Seq<Object>)
    ensures
        (#[trigger] objs_v(s)).len() == s.len(),
        forall|i: int| 0 <= i < s.len() ==> objs_v(s)[i] == obj_v(s[i]),
    decreases s.len(),
{
    if s.len() > 0 {
        lemma_objs_v(s.drop_first());
    }
}

impl View for Object {
    type V = ObjectV;

    open spec fn view(&self) -> ObjectV {
        obj_v(*self)
    }
}

impl Object {
    /// A structurally equal copy of this value.
    pub fn duplicate(&self) -> (r: Self)
        ensures
            r@ == self@,
        decreases *self,
    {
        match self {
            Self::Integer(x) => Self::Integer(*x),
            Self::Boolean(b) => Self::Boolean(*b),
            Self::String(s) => Self::String(s.clone()),
            Self::Array(items) => {
                let mut out: Vec<Object> = Vec::new();
                let mut i: usize = 0;
                while i < items.len()
                    invariant
                        *self == Object::Array(*items),
                        i <= items@.len(),
                        out@.len() == i,
                        forall|j: int| 0 <= j < i ==> obj_v(#[trigger] out@[j]) == obj_v(items@[j]),
                    decreases items@.len() - i,
                {
                    proof {
                        assert(decreases_to!(*self => self->Array_0));
                        assert(self->Array_0 == *items);
                        assert(decreases_to!(*items => items@[i as int]));
                    }
                    out.push(items[i].duplicate());
                    i += 1;
                }
                let r = Self::Array(out);
                proof {
                    lemma_objs_v(out@);
                    lemma_objs_v(items@);
                    assert(objs_v(out@) =~= objs_v(items@));
                }
                r
            },
            Self::KVPair(k, v) => Self::KVPair(Box::new(k.duplicate()), Box::new(v.duplicate())),
            Self::Return(v) => Self::Return(Box::new(v.duplicate())),
            Self::Null => Self::Null,
        }
    }

    /// Whether this value counts as true at a conditional jump: a nonzero
    /// integer or the boolean true; every other value counts as false.
    pub fn is_truthy(&self) -> (r: bool)
        ensures
            r == crate::vm::obj_truthy(self@),
    {
        match self {
            Self::Integer(v) => *v != 0,
            Self::Boolean(b) => *b,
            _ => false,
        }
    }

    /// Integer addition; fails iff the operands are not both integers or the
    /// mathematical sum does not fit the machine width.
    pub fn add(self, rhs: Self) -> (r: Result<Self, RuntimeError>)
        ensures
            r is Ok <==> (self is Integer && rhs is Integer
                && isize::MIN <= self->Integer_0 + rhs->Integer_0 <= isize::MAX),
            r is Ok ==> r->Ok_0 == Object::Integer((self->Integer_0 + rhs->Integer_0) as isize),
    {
        match (&self, &rhs) {
            (Self::Integer(x), Self::Integer(y)) => match x.checked_add(*y) {
                Some(v) => Ok(Self::Integer(v)),
                None => Err(RuntimeError("Invalid addition: overflow".to_string())),
            },
            _ => Err(RuntimeError("Invalid addition".to_string())),
        }
    }

    /// Integer subtraction; fails iff the operands are not both integers or
    /// the mathematical difference does not fit the machine width.
    pub fn sub(self, rhs: Self) -> (r: Result<Self, RuntimeError>)
        ensures
            r is Ok <==> (self is Integer && rhs is Integer
                && isize::MIN <= self->Integer_0 - rhs->Integer_0 <= isize::MAX),
            r is Ok ==> r->Ok_0 == Object::Integer((self->Integer_0 - rhs->Integer_0) as isize),
    {
        match (&self, &rhs) {
            (Self::Integer(x), Self::Integer(y)) => match x.checked_sub(*y) {
                Some(v) => Ok(Self::Integer(v)),
                None => Err(RuntimeError("Invalid subtraction: overflow".to_string())),
            },
            _ => Err(RuntimeError("Invalid subtraction".to_string())),
        }
    }

    /// Integer multiplication; fails iff the operands are not both integers
    /// or the mathematical product does not fit the machine width.
    pub fn mul(self, rhs: Self) -> (r: Result<Self, RuntimeError>)
        ensures
            r is Ok <==> (self is Integer && rhs is Integer
                && isize::MIN <= self->Integer_0 * rhs->Integer_0 <= isize::MAX),
            r is Ok ==> r->Ok_0 == Object::Integer((self->Integer_0 * rhs->Integer_0) as isize),
    {
        match (&self, &rhs) {
            (Self::Integer(x), Self::Integer(y)) => match x.checked_mul(*y) {
                Some(v) => Ok(Self::Integer(v)),
                None => Err(RuntimeError("Invalid multiplication: overflow".to_string())),
            },
            _ => Err(RuntimeError("Invalid multiplication".to_string())),
        }
    }

    /// Integer division, truncating toward zero; fails iff the operands are
    /// not both integers, the divisor is zero, or the quotient overflows.
    pub fn div(self, rhs: Self) -> (r: Result<Self, RuntimeError>)
        ensures
            r is Ok <==> (self is Integer && rhs is Integer
                && self->Integer_0.checked_div(rhs->Integer_0) is Some),
            r is Ok ==> Some(r->Ok_0->Integer_0) == self->Integer_0.checked_div(rhs->Integer_0)
                && r->Ok_0 is Integer,
    {
        match (&self, &rhs) {
            (Self::Integer(x), Self::Integer(y)) => match x.checked_div(*y) {
                Some(v) => Ok(Self::Integer(v)),
                None => Err(RuntimeError("Invalid division".to_string())),
            },
            _ => Err(RuntimeError("Invalid division".to_string())),
        }
    }
}

pub type Constants = Vec<Object>;

/// The compiler's output and the virtual machine's input: an instruction
/// stream plus its constant pool.
#[derive(Debug)]
pub struct ByteCode {
    pub bytes: Bytes,
    pub constants: Constants,
}

} // verus!
