//! Instruction encoding and decoding, and the bytecode compiler.
//!
//! `make` serializes an opcode with its operands into bytes; `unmake`
//! deserializes them again. Their common ground truth is the spec pair
//! `encode` / `decode_at`, and `lemma_encode_decode_round_trip` states
//! that decoding an encoded instruction gives back exactly what was
//! encoded.
//!
//! The compiler itself is pinned the same way: `compile_expr_spec` and
//! `compile_stmt_spec` say, byte for byte, what walking the syntax tree
//! emits — including the placeholder jumps of a conditional and their
//! back-patching — and `compile_program` is proved to produce exactly
//! that, failing exactly where the spec does.

use vstd::prelude::*;
use vstd::string::StringExecFns;

use crate::parser::ast::{Expression, Statement};
use crate::parser::Program;
use crate::symbol_table::{resolve_spec, SymbolTable};
use crate::types::{
    obj_v, objs_v, op_byte, op_of_byte, op_widths, Arg, ByteCode, Bytes, CompileError, Constants,
    Object, ObjectV, OpCode,
};

verus! {

broadcast use vstd::std_specs::vec::group_vec_axioms, vstd::seq::group_seq_axioms,
    crate::types::lemma_objs_v;

/// Whether `arg` carries the value width that `width` (in bytes) declares.
pub open spec fn arg_ok(width: u8, arg: Arg) -> bool {
    ||| (width == 1 && arg is U8)
    ||| (width == 2 && arg is U16)
}

/// Whether `args` conforms to the operand widths declared for `op`:
/// one operand per declared width, each carrying the declared width.
pub open spec fn args_ok(op: OpCode, args: Seq<Arg>) -> bool {
    &&& args.len() == op_widths(op).len()
    &&& forall|i: int| 0 <= i < args.len() ==> arg_ok(op_widths(op)[i], #[trigger] args[i])
}

/// The wire bytes of one operand: one byte as is, two bytes big-endian.
pub open spec fn arg_bytes(arg: Arg) -> Seq<u8> {
    match arg {
        Arg::U8(v) => seq![v],
        Arg::U16(v) => seq![(v / 256) as u8, (v % 256) as u8],
    }
}

/// The concatenated wire bytes of an operand list.
pub open spec fn args_bytes(args: Seq<Arg>) -> Seq<u8>
    decreases args.len(),
{
    if args.len() == 0 {
        Seq::empty()
    } else {
        arg_bytes(args[0]) + args_bytes(args.drop_first())
    }
}

/// The full wire form of an instruction: the opcode tag, then the operands.
pub open spec fn encode(op: OpCode, args: Seq<Arg>) -> Seq<u8> {
    seq![op_byte(op)] + args_bytes(args)
}

/// The total number of operand bytes a width list declares.
pub open spec fn widths_sum(widths: Seq<u8>) -> int
    decreases widths.len(),
{
    if widths.len() == 0 {
        0
    } else {
        widths[0] + widths_sum(widths.drop_first())
    }
}

/// The byte length of an instruction for `op`: tag plus operand bytes.
pub open spec fn instr_len(op: OpCode) -> int {
    1 + widths_sum(op_widths(op))
}

/// A conforming operand list encodes to exactly the declared operand bytes.
pub proof fn lemma_args_bytes_len(widths: Seq<u8>, args: Seq<Arg>)
    requires
        args.len() == widths.len(),
        forall|i: int| 0 <= i < args.len() ==> arg_ok(widths[i], #[trigger] args[i]),
    ensures
        args_bytes(args).len() == widths_sum(widths),
    decreases args.len(),
{
    if args.len() > 0 {
        assert(arg_ok(widths[0], args[0]));
        lemma_args_bytes_len(widths.drop_first(), args.drop_first());
    }
}

/// The operands decoded from `bytes` starting at `pos`, one per width.
pub open spec fn decode_args(bytes: Seq<u8>, pos: int, widths: Seq<u8>) -> Seq<Arg>
    decreases widths.len(),
{
    if widths.len() == 0 {
        Seq::empty()
    } else if widths[0] == 1 {
        seq![Arg::U8(bytes[pos])] + decode_args(bytes, pos + 1, widths.drop_first())
    } else if widths[0] == 2 {
        seq![Arg::U16((bytes[pos] * 256 + bytes[pos + 1]) as u16)]
            + decode_args(bytes, pos + 2, widths.drop_first())
    } else {
        Seq::empty()
    }
}

/// Whether a whole instruction starts at `offset`: the offset is inside the
/// buffer, the byte there is a known opcode tag, and the declared
/// instruction length stays inside the buffer.
pub open spec fn decode_ok(bytes: Seq<u8>, offset: int) -> bool {
    &&& 0 <= offset < bytes.len()
    &&& op_of_byte(bytes[offset]) is Some
    &&& offset + instr_len(op_of_byte(bytes[offset])->0) <= bytes.len()
}

/// The instruction decoded at `offset`: its opcode, its operands, and the
/// total number of bytes it occupies.
pub open spec fn decode_at(bytes: Seq<u8>, offset: int) -> (OpCode, Seq<Arg>, int) {
    let op = op_of_byte(bytes[offset])->0;
    (op, decode_args(bytes, offset + 1, op_widths(op)), instr_len(op))
}

/// Every declared operand width of every opcode is 2 bytes, and no opcode
/// declares more than one operand.
pub proof fn lemma_op_widths_shape(op: OpCode)
    ensures
        op_widths(op).len() <= 1,
        op_widths(op).len() == 1 ==> op_widths(op)[0] == 2,
        0 <= widths_sum(op_widths(op)) <= 2,
{
    reveal_with_fuel(widths_sum, 3);
}

/// Decoding from the wire bytes of an operand list recovers the operands.
proof fn lemma_decode_args_round_trip(bytes: Seq<u8>, pos: int, widths: Seq<u8>, args: Seq<Arg>)
    requires
        args.len() == widths.len(),
        forall|i: int| 0 <= i < args.len() ==> arg_ok(widths[i], #[trigger] args[i]),
        0 <= pos,
        pos + widths_sum(widths) <= bytes.len(),
        forall|k: int| 0 <= k < widths_sum(widths)
            ==> bytes[pos + k] == #[trigger] args_bytes(args)[k],
    ensures
        decode_args(bytes, pos, widths) == args,
    decreases widths.len(),
{
    lemma_args_bytes_len(widths, args);
    if widths.len() > 0 {
        assert(arg_ok(widths[0], args[0]));
        let w0 = widths[0] as int;
        let rest_w = widths.drop_first();
        let rest_a = args.drop_first();
        lemma_args_bytes_len(rest_w, rest_a);
        assert(widths_sum(widths) == w0 + widths_sum(rest_w));
        assert(args_bytes(args) == arg_bytes(args[0]) + args_bytes(rest_a));
        assert(arg_bytes(args[0]).len() == w0);
        assert forall|k: int| 0 <= k < w0 implies bytes[pos + k] == arg_bytes(args[0])[k] by {
            assert(args_bytes(args)[k] == arg_bytes(args[0])[k]);
        }
        match args[0] {
            Arg::U8(v) => {
                assert(arg_bytes(args[0])[0] == v);
                assert(bytes[pos] == v);
            },
            Arg::U16(v) => {
                assert(arg_bytes(args[0])[0] == (v / 256) as u8);
                assert(arg_bytes(args[0])[1] == (v % 256) as u8);
                assert(bytes[pos] == (v / 256) as u8);
                assert(bytes[pos + 1] == (v % 256) as u8);
                assert((v / 256) * 256 + v % 256 == v) by {
                    vstd::arithmetic::div_mod::lemma_fundamental_div_mod(v as int, 256);
                }
                assert(bytes[pos] * 256 + bytes[pos + 1] == v);
            },
        }
        assert forall|k: int| 0 <= k < widths_sum(rest_w) implies bytes[pos + w0 + k]
            == #[trigger] args_bytes(rest_a)[k] by {
            assert(args_bytes(args)[w0 + k] == (arg_bytes(args[0]) + args_bytes(rest_a))[w0 + k]);
            assert(args_bytes(args)[w0 + k] == args_bytes(rest_a)[k]);
        }
        lemma_decode_args_round_trip(bytes, pos + w0, rest_w, rest_a);
        assert(decode_args(bytes, pos, widths) =~= args);
    } else {
        assert(decode_args(bytes, pos, widths) =~= args);
    }
}

/// Round trip: decoding an encoded instruction, at any offset of a buffer
/// that holds its bytes, yields the opcode, the operands, and the
/// instruction length `1 + sum(widths)`.
pub proof fn lemma_round_trip(bytes: Seq<u8>, offset: int, op: OpCode, args: Seq<Arg>)
    requires
        args_ok(op, args),
        0 <= offset,
        offset + instr_len(op) <= bytes.len(),
        bytes.subrange(offset, offset + instr_len(op)) == encode(op, args),
    ensures
        decode_ok(bytes, offset),
        decode_at(bytes, offset) == (op, args, instr_len(op)),
{
    lemma_args_bytes_len(op_widths(op), args);
    lemma_op_widths_shape(op);
    let enc = encode(op, args);
    assert(bytes.subrange(offset, offset + instr_len(op))[0] == enc[0]);
    assert(bytes[offset] == op_byte(op));
    crate::types::lemma_op_byte_round_trip(op);
    assert forall|k: int| 0 <= k < widths_sum(op_widths(op)) implies bytes[offset + 1 + k]
        == #[trigger] args_bytes(args)[k] by {
        assert(bytes.subrange(offset, offset + instr_len(op))[1 + k] == enc[1 + k]);
        assert(enc[1 + k] == (seq![op_byte(op)] + args_bytes(args))[1 + k]);
    }
    lemma_decode_args_round_trip(bytes, offset + 1, op_widths(op), args);
}

/// Round trip in its plainest form: for every opcode and every
/// operand-width-conforming operand list, decoding the encoding yields
/// exactly the opcode, the operands, and the length `1 + sum(widths)`.
pub proof fn lemma_encode_decode_round_trip(op: OpCode, args: Seq<Arg>)
    requires
        args_ok(op, args),
    ensures
        decode_ok(encode(op, args), 0),
        decode_at(encode(op, args), 0) == (op, args, instr_len(op)),
{
    lemma_args_bytes_len(op_widths(op), args);
    assert(encode(op, args).subrange(0, instr_len(op)) =~= encode(op, args));
    lemma_round_trip(encode(op, args), 0, op, args);
}

/// Serializes an instruction. Succeeds iff the operand list conforms to the
/// opcode's declared widths, and then returns exactly the wire encoding.
pub fn make(opcode: OpCode, args: &Vec<Arg>) -> (r: Result<Vec<u8>, CompileError>)
    ensures
        r is Ok <==> args_ok(opcode, args@),
        r is Ok ==> r->Ok_0@ == encode(opcode, args@),
{
    let arg_widths = opcode.get_arg_widths();

    if args.len() != arg_widths.len() {
        return Err(CompileError("Cannot compile opcode: wrong number of args".to_string()));
    }

    let mut bytes: Vec<u8> = Vec::new();
    bytes.push(opcode.to_byte());

    let ghost mut args_done: Seq<Arg> = Seq::empty();
    let mut i: usize = 0;
    while i < args.len()
        invariant
            i <= args@.len(),
            args@.len() == op_widths(opcode).len(),
            arg_widths@ == op_widths(opcode),
            args_done =~= args@.subrange(0, i as int),
            bytes@ =~= seq![op_byte(opcode)] + args_bytes(args_done),
            forall|j: int| 0 <= j < i ==> arg_ok(op_widths(opcode)[j], #[trigger] args@[j]),
        decreases args@.len() - i,
    {
        let arg = args[i];
        let width = arg_widths[i];

        match (width, arg) {
            (1, Arg::U8(val)) => {
                bytes.push(val);
            },
            (2, Arg::U16(val)) => {
                let (h, l) = crate::helpers::split_u16(val);
                bytes.push(h);
                bytes.push(l);
            },
            _ => {
                return Err(CompileError("Cannot parse arg for opcode: wrong size".to_string()));
            },
        }
        proof {
            lemma_args_bytes_snoc(args_done, args@[i as int]);
            args_done = args_done.push(args@[i as int]);
            assert(args_done =~= args@.subrange(0, i + 1));
        }
        i += 1;
    }

    proof {
        assert(args_done =~= args@);
        lemma_args_bytes_len(op_widths(opcode), args@);
        lemma_op_widths_shape(opcode);
    }

    let expected_len = 1 + 2 * if arg_widths.len() == 0 { 0usize } else { 1usize };
    if expected_len != bytes.len() {
        return Err(CompileError("Invalid bytecode: unexpected length".to_string()));
    }

    Ok(bytes)
}

/// Appending one operand appends its wire bytes.
proof fn lemma_args_bytes_snoc(args: Seq<Arg>, arg: Arg)
    ensures
        args_bytes(args.push(arg)) == args_bytes(args) + arg_bytes(arg),
    decreases args.len(),
{
    if args.len() == 0 {
        assert(args.push(arg).drop_first() =~= Seq::<Arg>::empty());
        assert(args_bytes(Seq::<Arg>::empty()) =~= Seq::<u8>::empty());
        assert(args_bytes(args) =~= Seq::<u8>::empty());
        assert(args.push(arg)[0] == arg);
        assert(args_bytes(args.push(arg)) =~= args_bytes(args) + arg_bytes(arg));
    } else {
        assert(args.push(arg).drop_first() =~= args.drop_first().push(arg));
        lemma_args_bytes_snoc(args.drop_first(), arg);
        assert(args.push(arg)[0] == args[0]);
        assert(args_bytes(args.push(arg)) =~= args_bytes(args) + arg_bytes(arg));
    }
}

/// Deserializes the instruction starting at `offset`. Succeeds iff a whole
/// instruction lies there (`decode_ok`), and then returns exactly the
/// decoded opcode, operands, and total bytes consumed.
pub fn unmake(bytes: &Bytes, offset: usize) -> (r: Result<(OpCode, Vec<Arg>, usize), CompileError>)
    ensures
        r is Ok <==> decode_ok(bytes@, offset as int),
        r is Ok ==> {
            let (op, args, n) = decode_at(bytes@, offset as int);
            r->Ok_0.0 == op && r->Ok_0.1@ == args && r->Ok_0.2 as int == n
        },
{
    if bytes.len() <= offset {
        return Err(CompileError("unmake: offset larger than bytes size!".to_string()));
    }
    let opcode = match OpCode::from_byte(bytes[offset]) {
        Ok(op) => op,
        Err(e) => {
            return Err(e);
        },
    };

    let mut bytes_read: usize = 1;

    let arg_widths = opcode.get_arg_widths();
    proof {
        lemma_op_widths_shape(opcode);
        reveal_with_fuel(widths_sum, 3);
    }
    let total_len: usize = if arg_widths.len() == 0 { 1 } else { 3 };

    if bytes.len() - offset < total_len {
        return Err(CompileError("unmake: args length greater than bytes size!".to_string()));
    }

    proof {
        if op_widths(opcode).len() == 1 {
            assert(widths_sum(op_widths(opcode)) == 2) by {
                reveal_with_fuel(widths_sum, 3);
            }
        } else {
            assert(widths_sum(op_widths(opcode)) == 0) by {
                reveal_with_fuel(widths_sum, 3);
            }
        }
    }

    let mut args: Vec<Arg> = Vec::new();
    let mut i: usize = 0;
    while i < arg_widths.len()
        invariant
            i <= arg_widths@.len(),
            arg_widths@ == op_widths(opcode),
            op_widths(opcode).len() <= 1,
            op_widths(opcode).len() == 1 ==> op_widths(opcode)[0] == 2,
            op_widths(opcode).len() == 1 ==> widths_sum(op_widths(opcode)) == 2,
            offset + 1 + widths_sum(op_widths(opcode)) <= bytes@.len(),
            bytes@.len() <= usize::MAX,
            bytes_read == 1 + 2 * i,
            args@ =~= decode_args(bytes@, offset + 1, op_widths(opcode).subrange(0, i as int)),
        decreases arg_widths@.len() - i,
    {
        let width = arg_widths[i];
        proof {
            assert(i == 0);
            assert(width == 2);
            assert(offset + bytes_read == offset + 1);
        }
        match width {
            1 => {
                match Arg::read_u8(bytes, offset + bytes_read) {
                    Ok(a) => args.push(a),
                    Err(e) => {
                        return Err(e);
                    },
                }
            },
            2 => {
                match Arg::read_u16(bytes, offset + bytes_read) {
                    Ok(a) => args.push(a),
                    Err(e) => {
                        return Err(e);
                    },
                }
            },
            _ => {
                return Err(CompileError("Invalid arg width".to_string()));
            },
        }
        proof {
            reveal_with_fuel(decode_args, 3);
            assert(op_widths(opcode).subrange(0, i + 1) =~= op_widths(opcode));
            assert(op_widths(opcode).drop_first() =~= Seq::<u8>::empty());
            assert(args@ =~= decode_args(bytes@, offset + 1, op_widths(opcode)));
        }
        bytes_read += width as usize;
        i += 1;
    }

    proof {
        assert(op_widths(opcode).subrange(0, arg_widths@.len() as int) =~= op_widths(opcode));
        assert(bytes_read as int == instr_len(opcode));
    }

    Ok((opcode, args, bytes_read))
}

/// The instruction listing of a buffer, decoded from its start to its
/// end: the opcode and operands of each instruction in order, or nothing
/// when some position fails to decode.
pub open spec fn disassemble_spec(bytes: Seq<u8>, i: int) -> Option<Seq<(OpCode, Seq<Arg>)>>
    decreases bytes.len() - i,
    via disassemble_spec_decreases
{
    if i == bytes.len() {
        Some(Seq::empty())
    } else if !decode_ok(bytes, i) {
        None
    } else {
        let (op, args, n) = decode_at(bytes, i);
        match disassemble_spec(bytes, i + n) {
            Some(rest) => Some(seq![(op, args)] + rest),
            None => None,
        }
    }
}

#[via_fn]
proof fn disassemble_spec_decreases(bytes: Seq<u8>, i: int) {
    if i != bytes.len() && decode_ok(bytes, i) {
        lemma_op_widths_shape(op_of_byte(bytes[i])->0);
    }
}

/// The mathematical reading of a decoded listing: each operand vector as
/// the sequence it holds.
pub open spec fn listing_v(l: Seq<(OpCode, Vec<Arg>)>) -> Seq<(OpCode, Seq<Arg>)> {
    Seq::new(l.len(), |k: int| (l[k].0, l[k].1@))
}

/// Decodes a whole buffer into its instruction listing, exactly as
/// `disassemble_spec` describes; fails iff some position fails to decode.
pub fn disassemble(bytes: &Bytes) -> (r: Result<Vec<(OpCode, Vec<Arg>)>, CompileError>)
    ensures
        r is Ok <==> disassemble_spec(bytes@, 0) is Some,
        r matches Ok(l) ==> Some(listing_v(l@)) == disassemble_spec(bytes@, 0),
{
    let mut out: Vec<(OpCode, Vec<Arg>)> = Vec::new();
    let mut i: usize = 0;
    while i < bytes.len()
        invariant
            i <= bytes@.len(),
            disassemble_spec(bytes@, i as int) matches Some(rest)
                ==> disassemble_spec(bytes@, 0) == Some(listing_v(out@) + rest),
            disassemble_spec(bytes@, i as int) is None
                ==> disassemble_spec(bytes@, 0) is None,
        decreases bytes@.len() - i,
    {
        let (opcode, args, bytes_read) = match unmake(bytes, i) {
            Ok(ins) => ins,
            Err(e) => {
                return Err(e);
            },
        };
        proof {
            lemma_op_widths_shape(opcode);
            let ghost rest0 = disassemble_spec(bytes@, i as int);
            let ghost stepped = disassemble_spec(bytes@, i + bytes_read);
            if stepped is Some {
                assert(rest0 == Some(seq![(opcode, args@)] + stepped->0));
                assert(listing_v(out@.push((opcode, args)))
                    =~= listing_v(out@) + seq![(opcode, args@)]);
                assert(listing_v(out@) + (seq![(opcode, args@)] + stepped->0)
                    =~= (listing_v(out@) + seq![(opcode, args@)]) + stepped->0);
            } else {
                assert(rest0 is None);
            }
        }
        out.push((opcode, args));
        i += bytes_read;
    }
    proof {
        assert(disassemble_spec(bytes@, i as int) == Some(Seq::<(OpCode, Seq<Arg>)>::empty()));
        assert(listing_v(out@) + Seq::<(OpCode, Seq<Arg>)>::empty() =~= listing_v(out@));
    }
    Ok(out)
}

/// The compiler's abstract state: the bytes emitted so far, the shapes of
/// the constant pool, the symbol table entries, and the opcode of the last
/// emitted instruction.
#[verifier::ext_equal]
pub ghost struct CompilerV {
    pub bytes: Seq<u8>,
    pub consts: Seq<ObjectV>,
    pub syms: Seq<(Seq<char>, u16)>,
    pub last_op: Option<OpCode>,
}

/// Why a compilation fails, as far as contracts speak of it: a reference
/// to a name the symbol table does not hold (carrying that name), or any
/// other refusal.
pub ghost enum CompileFail {
    UnresolvedSymbol(Seq<char>),
    Other,
}

/// The state after emitting one instruction: its wire bytes appended, the
/// opcode recorded. Fails iff the operands do not conform to the opcode.
pub open spec fn emit_spec(st: CompilerV, op: OpCode, args: Seq<Arg>) -> Result<
    CompilerV,
    CompileFail,
> {
    if args_ok(op, args) {
        Ok(CompilerV { bytes: st.bytes + encode(op, args), last_op: Some(op), ..st })
    } else {
        Err(CompileFail::Other)
    }
}

/// The state after removing a trailing value-discarding `Pop`, if the last
/// emitted instruction was one.
pub open spec fn remove_last_pop_spec(st: CompilerV) -> CompilerV {
    if st.last_op == Some(OpCode::Pop) && st.bytes.len() > 0 {
        CompilerV { bytes: st.bytes.drop_last(), last_op: None, ..st }
    } else {
        st
    }
}

/// `bytes` with `patch` written over the range that starts at `at`.
pub open spec fn overwrite_spec(bytes: Seq<u8>, at: int, patch: Seq<u8>) -> Seq<u8> {
    bytes.subrange(0, at) + patch + bytes.subrange(at + patch.len(), bytes.len() as int)
}

/// The state after compiling one expression, `Err` for a construct the
/// bytecode path does not support or an unresolved identifier.
///
/// A conditional compiles to: condition, `JPFalse` to the alternative,
/// consequence, `JP` to the join, alternative (or `Null`). Both jumps are
/// first emitted with placeholder addresses and patched, in place, once
/// the jumped-over code is fully emitted.
pub open spec fn compile_expr_spec(e: Expression, st: CompilerV) -> Result<CompilerV, CompileFail>
    decreases e, 0int,
{
    match e {
        Expression::Infix { left, operator, right, .. } => {
            match compile_expr_spec(*left, st) {
                Ok(st1) => match compile_expr_spec(*right, st1) {
                    Ok(st2) => {
                        if operator@ == "+"@ { emit_spec(st2, OpCode::Add, Seq::empty()) }
                        else if operator@ == "-"@ { emit_spec(st2, OpCode::Sub, Seq::empty()) }
                        else if operator@ == "*"@ { emit_spec(st2, OpCode::Mul, Seq::empty()) }
                        else if operator@ == "/"@ { emit_spec(st2, OpCode::Div, Seq::empty()) }
                        else if operator@ == "=="@ { emit_spec(st2, OpCode::Eq, Seq::empty()) }
                        else if operator@ == "!="@ { emit_spec(st2, OpCode::NEq, Seq::empty()) }
                        else if operator@ == ">"@ { emit_spec(st2, OpCode::GT, Seq::empty()) }
                        else if operator@ == "<"@ { emit_spec(st2, OpCode::LT, Seq::empty()) }
                        else { Err(CompileFail::Other) }
                    },
                    Err(e) => Err(e),
                },
                Err(e) => Err(e),
            }
        },
        Expression::Integer { value, .. } => {
            if st.consts.len() > u16::MAX {
                Err(CompileFail::Other)
            } else {
                let idx = st.consts.len() as u16;
                emit_spec(
                    CompilerV { consts: st.consts.push(ObjectV::Integer(value as int)), ..st },
                    OpCode::Constant,
                    seq![Arg::U16(idx)],
                )
            }
        },
        Expression::Boolean { value, .. } => {
            if value {
                emit_spec(st, OpCode::True, Seq::empty())
            } else {
                emit_spec(st, OpCode::False, Seq::empty())
            }
        },
        Expression::Prefix { operator, right, .. } => {
            match compile_expr_spec(*right, st) {
                Ok(st1) => {
                    if operator@ == "-"@ { emit_spec(st1, OpCode::Minus, Seq::empty()) }
                    else if operator@ == "!"@ { emit_spec(st1, OpCode::Exclam, Seq::empty()) }
                    else { Err(CompileFail::Other) }
                },
                Err(e) => Err(e),
            }
        },
        Expression::If { condition, consequence, alternative, .. } => {
            match compile_expr_spec(*condition, st) {
                Ok(st1) => {
                    let jp_false_addr_idx = st1.bytes.len() as int;
                    match emit_spec(st1, OpCode::JPFalse, seq![Arg::U16(0)]) {
                        Ok(st2) => match compile_stmt_spec(*consequence, st2) {
                            Ok(st3) => {
                                let st4 = remove_last_pop_spec(st3);
                                let jp_addr_idx = st4.bytes.len() as int;
                                match emit_spec(st4, OpCode::JP, seq![Arg::U16(0)]) {
                                    Ok(st5) => {
                                        let jp_false_addr = st5.bytes.len() as int;
                                        let st6r = match alternative {
                                            Some(alt) => compile_stmt_spec(*alt, st5),
                                            None => emit_spec(st5, OpCode::Null, Seq::empty()),
                                        };
                                        match st6r {
                                            Ok(st6) => {
                                                let st7 = remove_last_pop_spec(st6);
                                                let jp_addr = st7.bytes.len() as int;
                                                if jp_addr > u16::MAX
                                                    || jp_false_addr > u16::MAX {
                                                    Err(CompileFail::Other)
                                                } else {
                                                    let patched = overwrite_spec(
                                                        overwrite_spec(
                                                            st7.bytes,
                                                            jp_addr_idx,
                                                            encode(
                                                                OpCode::JP,
                                                                seq![Arg::U16(jp_addr as u16)],
                                                            ),
                                                        ),
                                                        jp_false_addr_idx,
                                                        encode(
                                                            OpCode::JPFalse,
                                                            seq![Arg::U16(jp_false_addr as u16)],
                                                        ),
                                                    );
                                                    Ok(CompilerV { bytes: patched, ..st7 })
                                                }
                                            },
                                            Err(e) => Err(e),
                                        }
                                    },
                                    Err(e) => Err(e),
                                }
                            },
                            Err(e) => Err(e),
                        },
                        Err(e) => Err(e),
                    }
                },
                Err(e) => Err(e),
            }
        },
        Expression::Identifier { value, .. } => {
            match resolve_spec(st.syms, value@) {
                Some(idx) => emit_spec(st, OpCode::GetGlobal, seq![Arg::U16(idx)]),
                None => Err(CompileFail::UnresolvedSymbol(value@)),
            }
        },
        _ => Err(CompileFail::Other),
    }
}

/// The state after compiling one statement: an expression statement is the
/// expression followed by `Pop`; a block is its statements in order; `let`
/// is the value, a fresh symbol table entry, and `SetGlobal` with the new
/// slot. Everything else is unsupported.
pub open spec fn compile_stmt_spec(s: Statement, st: CompilerV) -> Result<CompilerV, CompileFail>
    decreases s, 1int,
{
    match s {
        Statement::ExpressionStatement { expression, .. } => {
            match compile_expr_spec(expression, st) {
                Ok(st1) => emit_spec(st1, OpCode::Pop, Seq::empty()),
                Err(e) => Err(e),
            }
        },
        Statement::Block { statements, .. } => compile_stmts_spec(statements@, 0, st),
        Statement::Let { name, value, .. } => {
            match name {
                Expression::Identifier { value: bound_name, .. } => {
                    match compile_expr_spec(value, st) {
                        Ok(st1) => {
                            if st1.syms.len() >= u16::MAX {
                                Err(CompileFail::Other)
                            } else {
                                let slot = st1.syms.len() as u16;
                                let st2 = CompilerV {
                                    syms: st1.syms.push((bound_name@, slot)),
                                    ..st1
                                };
                                emit_spec(st2, OpCode::SetGlobal, seq![Arg::U16(slot)])
                            }
                        },
                        Err(e) => Err(e),
                    }
                },
                _ => Err(CompileFail::Other),
            }
        },
        _ => Err(CompileFail::Other),
    }
}

/// The state after compiling the statements of `ss` from index `i` on, in
/// order.
pub open spec fn compile_stmts_spec(ss: Seq<Statement>, i: int, st: CompilerV) -> Result<
    CompilerV,
    CompileFail,
>
    decreases ss, ss.len() - i, 2int,
{
    if i < 0 || i >= ss.len() {
        Ok(st)
    } else {
        match compile_stmt_spec(ss[i], st) {
            Ok(st1) => compile_stmts_spec(ss, i + 1, st1),
            Err(e) => Err(e),
        }
    }
}

/// The state after compiling a whole program: its statements in order,
/// then the trailing value-discarding `Pop` of the final expression
/// statement removed, so that the program's result value is left on the
/// virtual machine's stack after a run.
pub open spec fn compile_program_spec(stmts: Seq<Statement>, st: CompilerV) -> Result<
    CompilerV,
    CompileFail,
> {
    match compile_stmts_spec(stmts, 0, st) {
        Ok(st1) => Ok(remove_last_pop_spec(st1)),
        Err(e) => Err(e),
    }
}

/// Compiling an expression only appends to the buffer, and never leaves a
/// value-discarding `Pop` as the last emitted instruction.
pub proof fn lemma_compile_expr_grows(e: Expression, st: CompilerV)
    ensures
        compile_expr_spec(e, st) matches Ok(st2) ==> st.bytes.len() <= st2.bytes.len()
            && st2.last_op != Some(OpCode::Pop),
    decreases e, 0int,
{
    reveal_with_fuel(args_bytes, 3);
    match e {
        Expression::Infix { left, right, .. } => {
            lemma_compile_expr_grows(*left, st);
            if let Ok(st1) = compile_expr_spec(*left, st) {
                lemma_compile_expr_grows(*right, st1);
            }
        },
        Expression::Prefix { right, .. } => {
            lemma_compile_expr_grows(*right, st);
        },
        Expression::If { condition, consequence, alternative, .. } => {
            lemma_compile_expr_grows(*condition, st);
            if let Ok(st1) = compile_expr_spec(*condition, st) {
                if let Ok(st2) = emit_spec(st1, OpCode::JPFalse, seq![Arg::U16(0)]) {
                    lemma_compile_stmt_grows(*consequence, st2);
                    if let Ok(st3) = compile_stmt_spec(*consequence, st2) {
                        let st4 = remove_last_pop_spec(st3);
                        if let Ok(st5) = emit_spec(st4, OpCode::JP, seq![Arg::U16(0)]) {
                            match alternative {
                                Some(alt) => {
                                    lemma_compile_stmt_grows(*alt, st5);
                                },
                                None => {},
                            }
                        }
                    }
                }
            }
        },
        _ => {},
    }
}

/// Compiling a statement only appends to the buffer, and leaves a `Pop` as
/// the last emitted instruction only after appending at least one byte.
pub proof fn lemma_compile_stmt_grows(s: Statement, st: CompilerV)
    ensures
        compile_stmt_spec(s, st) matches Ok(st2) ==> st.bytes.len() <= st2.bytes.len()
            && ((st.last_op != Some(OpCode::Pop) && st2.last_op == Some(OpCode::Pop))
                ==> st.bytes.len() < st2.bytes.len()),
    decreases s, 1int,
{
    reveal_with_fuel(args_bytes, 3);
    match s {
        Statement::ExpressionStatement { expression, .. } => {
            lemma_compile_expr_grows(expression, st);
        },
        Statement::Block { statements, .. } => {
            lemma_compile_stmts_grows(statements@, 0, st);
        },
        Statement::Let { name, value, .. } => {
            if name is Identifier {
                lemma_compile_expr_grows(value, st);
            }
        },
        _ => {},
    }
}

/// Compiling a statement sequence only appends to the buffer, with the
/// same `Pop` caveat as a single statement.
pub proof fn lemma_compile_stmts_grows(ss: Seq<Statement>, i: int, st: CompilerV)
    ensures
        compile_stmts_spec(ss, i, st) matches Ok(st2) ==> st.bytes.len() <= st2.bytes.len()
            && ((st.last_op != Some(OpCode::Pop) && st2.last_op == Some(OpCode::Pop))
                ==> st.bytes.len() < st2.bytes.len()),
    decreases ss, ss.len() - i, 2int,
{
    if 0 <= i < ss.len() {
        lemma_compile_stmt_grows(ss[i], st);
        if let Ok(st1) = compile_stmt_spec(ss[i], st) {
            lemma_compile_stmts_grows(ss, i + 1, st1);
        }
    }
}

/// A reference to an identifier that the symbol table does not hold fails
/// compilation; it never compiles to a bogus slot.
pub proof fn lemma_unresolved_identifier(e: Expression, st: CompilerV)
    requires
        e matches Expression::Identifier { value, .. }
            && resolve_spec(st.syms, value@) is None,
    ensures
        compile_expr_spec(e, st) is Err,
{
}

/// The bytecode compiler: an in-progress byte buffer, an in-progress
/// constant pool, and the symbol table resolving global names to slots.
pub struct Compiler {
    bytes: Bytes,
    constants: Constants,
    symbol_table: SymbolTable,
    last_op: Option<OpCode>,
}

impl View for Compiler {
    type V = CompilerV;

    closed spec fn view(&self) -> CompilerV {
        CompilerV {
            bytes: self.bytes@,
            consts: objs_v(self.constants@),
            syms: self.symbol_table@,
            last_op: self.last_op,
        }
    }
}

impl Compiler {
    /// The symbol table numbers its entries in definition order.
    pub closed spec fn wf(&self) -> bool {
        &&& self.symbol_table.wf()
        &&& self.symbol_table@.len() == self@.syms.len()
    }

    /// A compiler with empty buffer, empty pool, and empty symbol table.
    pub fn new() -> (r: Self)
        ensures
            r.wf(),
            r@ =~= (CompilerV {
                bytes: Seq::empty(),
                consts: Seq::empty(),
                syms: Seq::empty(),
                last_op: None,
            }),
    {
        let r = Self {
            bytes: Vec::new(),
            constants: Vec::new(),
            symbol_table: SymbolTable::new(),
            last_op: None,
        };
        proof {
            crate::types::lemma_objs_v(r.constants@);
        }
        r
    }

    /// Appends `obj` to the constant pool and returns its index.
    fn add_constant(&mut self, obj: Object) -> (r: usize)
        requires
            old(self).wf(),
        ensures
            final(self).wf(),
            r == old(self)@.consts.len(),
            final(self)@ =~= (CompilerV { consts: old(self)@.consts.push(obj@), ..old(self)@ }),
    {
        proof {
            assert(objs_v(self.constants@.push(obj)) =~= objs_v(self.constants@).push(obj@));
        }
        self.constants.push(obj);
        self.constants.len() - 1
    }

    /// Emits one instruction at the end of the buffer and returns the
    /// byte offset where it starts. Fails, leaving the state unchanged,
    /// iff the operands do not conform to the opcode.
    fn emit(&mut self, opcode: OpCode, args: &Vec<Arg>) -> (r: Result<usize, CompileError>)
        requires
            old(self).wf(),
        ensures
            final(self).wf(),
            r is Ok <==> emit_spec(old(self)@, opcode, args@) is Ok,
            r matches Ok(at) ==> at == old(self)@.bytes.len()
                && Ok::<CompilerV, CompileFail>(final(self)@) == emit_spec(old(self)@, opcode, args@),
            r is Err ==> final(self)@ == old(self)@,
    {
        let bytes = match make(opcode, args) {
            Ok(b) => b,
            Err(e) => {
                return Err(e);
            },
        };
        let start = self.bytes.len();
        let mut i: usize = 0;
        while i < bytes.len()
            invariant
                i <= bytes@.len(),
                self.bytes@ =~= old(self).bytes@ + bytes@.subrange(0, i as int),
                self.constants@ == old(self).constants@,
                self.symbol_table == old(self).symbol_table,
                self.last_op == old(self).last_op,
            decreases bytes@.len() - i,
        {
            self.bytes.push(bytes[i]);
            i += 1;
        }
        self.last_op = Some(opcode);
        proof {
            assert(bytes@.subrange(0, bytes@.len() as int) =~= bytes@);
            assert(self.bytes@ =~= old(self).bytes@ + encode(opcode, args@));
            assert(self@ =~= (CompilerV {
                bytes: old(self)@.bytes + encode(opcode, args@),
                last_op: Some(opcode),
                ..old(self)@
            }));
        }
        Ok(start)
    }

    /// Emits one operand-free instruction.
    fn emit_no_args(&mut self, opcode: OpCode) -> (r: Result<usize, CompileError>)
        requires
            old(self).wf(),
        ensures
            final(self).wf(),
            r is Ok <==> emit_spec(old(self)@, opcode, Seq::<Arg>::empty()) is Ok,
            r matches Ok(at) ==> at == old(self)@.bytes.len()
                && Ok::<CompilerV, CompileFail>(final(self)@)
                    == emit_spec(old(self)@, opcode, Seq::<Arg>::empty()),
            r is Err ==> final(self)@ == old(self)@,
    {
        let args: Vec<Arg> = Vec::new();
        self.emit(opcode, &args)
    }

    /// Compiles a program into bytecode, exactly as `compile_program_spec`
    /// describes; fails iff the spec does, and an unresolved-identifier
    /// failure carries the missing name in its message. The trailing
    /// value-discarding `Pop` of the program's final expression statement
    /// is removed, so a run leaves the program's result value on top of
    /// the virtual machine's stack.
    pub fn compile_program(&mut self, program: &Program) -> (r: Result<ByteCode, CompileError>)
        requires
            old(self).wf(),
        ensures
            final(self).wf(),
            r is Ok <==> compile_program_spec(program.statements@, old(self)@) is Ok,
            r matches Ok(bc) ==> Ok::<CompilerV, CompileFail>(final(self)@)
                == compile_program_spec(program.statements@, old(self)@)
                && bc.bytes@ == final(self)@.bytes
                && objs_v(bc.constants@) == final(self)@.consts,
            r matches Err(e) ==> match compile_program_spec(program.statements@, old(self)@) {
                Err(CompileFail::UnresolvedSymbol(name)) => e.0@ == "Cannot resolve symbol: "@
                    + name,
                _ => true,
            },
    {
        let ghost start = self@;
        let mut i: usize = 0;
        while i < program.statements.len()
            invariant
                self.wf(),
                start == old(self)@,
                i <= program.statements@.len(),
                compile_stmts_spec(program.statements@, 0, start)
                    == compile_stmts_spec(program.statements@, i as int, self@),
            decreases program.statements@.len() - i,
        {
            let ghost pre = self@;
            if let Err(e) = self.compile_statement(&program.statements[i]) {
                proof {
                    assert(compile_stmts_spec(program.statements@, i as int, pre) is Err);
                }
                return Err(e);
            }
            proof {
                assert(compile_stmts_spec(program.statements@, i as int, pre)
                    == compile_stmts_spec(program.statements@, i + 1, self@));
            }
            i += 1;
        }
        proof {
            assert(compile_stmts_spec(program.statements@, i as int, self@)
                == Ok::<_, CompileFail>(self@));
        }
        self.remove_last_pop();
        Ok(self.get_byte_code())
    }

    /// Compiles each statement of `statements` in order.
    fn parse_statements(&mut self, statements: &Vec<Statement>) -> (r: Result<(), CompileError>)
        requires
            old(self).wf(),
        ensures
            final(self).wf(),
            r is Ok <==> compile_stmts_spec(statements@, 0, old(self)@) is Ok,
            r is Ok ==> Ok::<CompilerV, CompileFail>(final(self)@)
                == compile_stmts_spec(statements@, 0, old(self)@),
            r matches Err(e) ==> match compile_stmts_spec(statements@, 0, old(self)@) {
                Err(CompileFail::UnresolvedSymbol(name)) => e.0@ == "Cannot resolve symbol: "@
                    + name,
                _ => true,
            },
    {
        let ghost start = self@;
        let mut i: usize = 0;
        while i < statements.len()
            invariant
                self.wf(),
                start == old(self)@,
                i <= statements@.len(),
                compile_stmts_spec(statements@, 0, start)
                    == compile_stmts_spec(statements@, i as int, self@),
            decreases statements@.len() - i,
        {
            let ghost pre = self@;
            if let Err(e) = self.compile_statement(&statements[i]) {
                proof {
                    assert(compile_stmts_spec(statements@, i as int, pre) is Err);
                }
                return Err(e);
            }
            proof {
                assert(compile_stmts_spec(statements@, i as int, pre)
                    == compile_stmts_spec(statements@, i + 1, self@));
            }
            i += 1;
        }
        proof {
            assert(compile_stmts_spec(statements@, i as int, self@) == Ok::<_, CompileFail>(self@));
        }
        Ok(())
    }

    /// Compiles one statement, exactly as `compile_stmt_spec` describes;
    /// fails iff the spec does.
    fn compile_statement(&mut self, statement: &Statement) -> (r: Result<(), CompileError>)
        requires
            old(self).wf(),
        ensures
            final(self).wf(),
            r is Ok <==> compile_stmt_spec(*statement, old(self)@) is Ok,
            r is Ok ==> Ok::<CompilerV, CompileFail>(final(self)@)
                == compile_stmt_spec(*statement, old(self)@),
            r matches Err(e) ==> match compile_stmt_spec(*statement, old(self)@) {
                Err(CompileFail::UnresolvedSymbol(name)) => e.0@ == "Cannot resolve symbol: "@
                    + name,
                _ => true,
            },
        decreases *statement, 1int,
    {
        match statement {
            Statement::ExpressionStatement { expression, .. } => {
                if let Err(e) = self.compile_expression(expression) {
                    return Err(e);
                }
                if let Err(e) = self.emit_no_args(OpCode::Pop) {
                    return Err(e);
                }
            },
            Statement::Block { statements, .. } => {
                let ghost start = self@;
                let mut i: usize = 0;
                while i < statements.len()
                    invariant
                        self.wf(),
                        start == old(self)@,
                        i <= statements@.len(),
                        *statement == (Statement::Block {
                            token: statement->Block_token,
                            statements: *statements,
                        }),
                        compile_stmts_spec(statements@, 0, start)
                            == compile_stmts_spec(statements@, i as int, self@),
                    decreases statements@.len() - i,
                {
                    proof {
                        assert(decreases_to!(*statement => statement->Block_statements));
                        assert(statement->Block_statements == *statements);
                        assert(decreases_to!(*statements => statements@[i as int]));
                    }
                    let ghost pre = self@;
                    if let Err(e) = self.compile_statement(&statements[i]) {
                        proof {
                            assert(compile_stmts_spec(statements@, i as int, pre) is Err);
                        }
                        return Err(e);
                    }
                    proof {
                        assert(compile_stmts_spec(statements@, i as int, pre)
                            == compile_stmts_spec(statements@, i + 1, self@));
                    }
                    i += 1;
                }
                proof {
                    assert(compile_stmts_spec(statements@, i as int, self@)
                        == Ok::<_, CompileFail>(self@));
                }
            },
            Statement::Let { name, value, .. } => {
                if let Expression::Identifier { value: bound_name, .. } = name {
                    if let Err(e) = self.compile_expression(value) {
                        return Err(e);
                    }
                    let ghost st1 = self@;
                    if self.symbol_table.num_definitions() == u16::MAX {
                        return Err(CompileError("Too many global bindings".to_string()));
                    }
                    let idx = self.symbol_table.define(bound_name.as_str());
                    let ghost st2 = CompilerV { syms: st1.syms.push((bound_name@, idx)), ..st1 };
                    proof {
                        assert(self@ =~= st2);
                    }
                    let args = vec![Arg::U16(idx)];
                    proof {
                        assert(args@ =~= seq![Arg::U16(idx)]);
                        assert(args_ok(OpCode::SetGlobal, args@)) by {
                            assert(args@[0] == Arg::U16(idx));
                        }
                    }
                    if let Err(e) = self.emit(OpCode::SetGlobal, &args) {
                        return Err(e);
                    }
                    proof {
                        assert(Ok::<CompilerV, CompileFail>(self@)
                            == compile_stmt_spec(*statement, old(self)@));
                    }
                } else {
                    return Err(CompileError(
                        "Invalid Let statement, expected identifier".to_string(),
                    ));
                }
            },
            _ => {
                return Err(CompileError("Compilation not implemented for statement".to_string()));
            },
        }

        Ok(())
    }

    /// Compiles one expression, exactly as `compile_expr_spec` describes;
    /// fails iff the spec does.
    #[verifier::rlimit(100)]
    fn compile_expression(&mut self, expression: &Expression) -> (r: Result<(), CompileError>)
        requires
            old(self).wf(),
        ensures
            final(self).wf(),
            r is Ok <==> compile_expr_spec(*expression, old(self)@) is Ok,
            r is Ok ==> Ok::<CompilerV, CompileFail>(final(self)@)
                == compile_expr_spec(*expression, old(self)@),
            r matches Err(e) ==> match compile_expr_spec(*expression, old(self)@) {
                Err(CompileFail::UnresolvedSymbol(name)) => e.0@ == "Cannot resolve symbol: "@
                    + name,
                _ => true,
            },
        decreases *expression, 0int,
    {
        proof {
            reveal_strlit("+");
            reveal_strlit("-");
            reveal_strlit("*");
            reveal_strlit("/");
            reveal_strlit("==");
            reveal_strlit("!=");
            reveal_strlit(">");
            reveal_strlit("<");
            reveal_strlit("!");
        }
        match expression {
            Expression::Infix { left, operator, right, .. } => {
                if let Err(e) = self.compile_expression(left) {
                    return Err(e);
                }
                if let Err(e) = self.compile_expression(right) {
                    return Err(e);
                }
                let op = if operator.eq(&"+".to_owned()) { OpCode::Add }
                else if operator.eq(&"-".to_owned()) { OpCode::Sub }
                else if operator.eq(&"*".to_owned()) { OpCode::Mul }
                else if operator.eq(&"/".to_owned()) { OpCode::Div }
                else if operator.eq(&"==".to_owned()) { OpCode::Eq }
                else if operator.eq(&"!=".to_owned()) { OpCode::NEq }
                else if operator.eq(&">".to_owned()) { OpCode::GT }
                else if operator.eq(&"<".to_owned()) { OpCode::LT }
                else {
                    return Err(CompileError("Cannot compile infix operator".to_string()));
                };
                if let Err(e) = self.emit_no_args(op) {
                    return Err(e);
                }
            },
            Expression::Integer { value, .. } => {
                if self.constants.len() > u16::MAX as usize {
                    return Err(CompileError("Too many constants".to_string()));
                }
                let idx = self.add_constant(Object::Integer(*value));
                let args = vec![Arg::U16(idx as u16)];
                proof {
                    assert(args@ =~= seq![Arg::U16(idx as u16)]);
                    assert(args_ok(OpCode::Constant, args@)) by {
                        assert(args@[0] == Arg::U16(idx as u16));
                    }
                }
                if let Err(e) = self.emit(OpCode::Constant, &args) {
                    return Err(e);
                }
                proof {
                    assert(Ok::<CompilerV, CompileFail>(self@)
                        == compile_expr_spec(*expression, old(self)@));
                }
            },
            Expression::Boolean { value, .. } => {
                let opcode = if *value { OpCode::True } else { OpCode::False };
                if let Err(e) = self.emit(opcode, &Vec::new()) {
                    return Err(e);
                }
            },
            Expression::Prefix { operator, right, .. } => {
                if let Err(e) = self.compile_expression(right) {
                    return Err(e);
                }
                let op = if operator.eq(&"-".to_owned()) { OpCode::Minus }
                else if operator.eq(&"!".to_owned()) { OpCode::Exclam }
                else {
                    return Err(CompileError("Cannot compile prefix operator".to_string()));
                };
                if let Err(e) = self.emit_no_args(op) {
                    return Err(e);
                }
            },
            Expression::If { condition, consequence, alternative, .. } => {
                let ghost st0 = self@;
                if let Err(e) = self.compile_expression(condition) {
                    return Err(e);
                }
                let ghost st1 = self@;

                let placeholder = vec![Arg::U16(0)];
                proof {
                    assert(placeholder@ =~= seq![Arg::U16(0u16)]);
                    assert(args_ok(OpCode::JPFalse, placeholder@)) by {
                        assert(placeholder@[0] == Arg::U16(0u16));
                    }
                    assert(args_ok(OpCode::JP, placeholder@)) by {
                        assert(placeholder@[0] == Arg::U16(0u16));
                    }
                }

                let jp_false_addr_idx = match self.emit(OpCode::JPFalse, &placeholder) {
                    Ok(at) => at,
                    Err(e) => {
                        return Err(e);
                    },
                };
                let ghost st2 = self@;

                if let Err(e) = self.compile_statement(consequence) {
                    return Err(e);
                }
                let ghost st3 = self@;
                self.remove_last_pop();
                let ghost st4 = self@;

                let jp_addr_idx = match self.emit(OpCode::JP, &placeholder) {
                    Ok(at) => at,
                    Err(e) => {
                        return Err(e);
                    },
                };
                let ghost st5 = self@;
                let jp_false_addr = self.bytes.len();

                if let Some(alt) = alternative {
                    if let Err(e) = self.compile_statement(alt) {
                        return Err(e);
                    }
                } else {
                    if let Err(e) = self.emit(OpCode::Null, &Vec::new()) {
                        return Err(e);
                    }
                }
                let ghost st6 = self@;

                self.remove_last_pop();
                let ghost st7 = self@;

                proof {
                    lemma_compile_stmt_grows(**consequence, st2);
                    if let Some(alt) = alternative {
                        lemma_compile_stmt_grows(**alt, st5);
                    }
                    assert(st2.bytes.len() <= st4.bytes.len());
                    assert(st5.bytes.len() <= st7.bytes.len());
                    reveal_with_fuel(args_bytes, 3);
                    assert(st2.bytes.len() == st1.bytes.len() + 3);
                    assert(st5.bytes.len() == st4.bytes.len() + 3);
                }

                let jp_addr = self.bytes.len();
                if jp_addr > u16::MAX as usize || jp_false_addr > u16::MAX as usize {
                    return Err(CompileError("Bytecode too long for a jump target".to_string()));
                }

                let jp_args = vec![Arg::U16(jp_addr as u16)];
                proof {
                    assert(jp_args@ =~= seq![Arg::U16(jp_addr as u16)]);
                    assert(args_ok(OpCode::JP, jp_args@)) by {
                        assert(jp_args@[0] == Arg::U16(jp_addr as u16));
                    }
                }
                let jp_patch = match make(OpCode::JP, &jp_args) {
                    Ok(b) => b,
                    Err(e) => {
                        return Err(e);
                    },
                };
                proof {
                    reveal_with_fuel(args_bytes, 3);
                    assert(jp_patch@.len() == 3);
                }
                self.overwrite_instruction(jp_addr_idx, &jp_patch);

                let jp_false_args = vec![Arg::U16(jp_false_addr as u16)];
                proof {
                    assert(jp_false_args@ =~= seq![Arg::U16(jp_false_addr as u16)]);
                    assert(args_ok(OpCode::JPFalse, jp_false_args@)) by {
                        assert(jp_false_args@[0] == Arg::U16(jp_false_addr as u16));
                    }
                }
                let jp_false_patch = match make(OpCode::JPFalse, &jp_false_args) {
                    Ok(b) => b,
                    Err(e) => {
                        return Err(e);
                    },
                };
                proof {
                    reveal_with_fuel(args_bytes, 3);
                    assert(jp_false_patch@.len() == 3);
                }
                self.overwrite_instruction(jp_false_addr_idx, &jp_false_patch);

                proof {
                    let patched = overwrite_spec(
                        overwrite_spec(
                            st7.bytes,
                            jp_addr_idx as int,
                            encode(OpCode::JP, seq![Arg::U16(jp_addr as u16)]),
                        ),
                        jp_false_addr_idx as int,
                        encode(OpCode::JPFalse, seq![Arg::U16(jp_false_addr as u16)]),
                    );
                    assert(self@ =~= (CompilerV { bytes: patched, ..st7 }));
                    assert(Ok::<CompilerV, CompileFail>(self@)
                        == compile_expr_spec(*expression, old(self)@));
                }
            },
            Expression::Identifier { value, .. } => {
                let idx = match self.symbol_table.resolve(value.as_str()) {
                    Some(idx) => idx,
                    None => {
                        let mut msg = String::from_str("Cannot resolve symbol: ");
                        msg.append(value.as_str());
                        return Err(CompileError(msg));
                    },
                };
                let args = vec![Arg::U16(idx)];
                proof {
                    assert(args@ =~= seq![Arg::U16(idx)]);
                    assert(args_ok(OpCode::GetGlobal, args@)) by {
                        assert(args@[0] == Arg::U16(idx));
                    }
                }
                if let Err(e) = self.emit(OpCode::GetGlobal, &args) {
                    return Err(e);
                }
            },
            _ => {
                return Err(CompileError("Compilation not implemented for expression".to_string()));
            },
        }
        Ok(())
    }

    /// Removes a trailing `Pop` when the last emitted instruction was one,
    /// so that a conditional's branch leaves its value on the stack.
    fn remove_last_pop(&mut self)
        requires
            old(self).wf(),
        ensures
            final(self).wf(),
            final(self)@ == remove_last_pop_spec(old(self)@),
    {
        if let Some(op) = self.last_op {
            if op.to_byte() == OpCode::Pop.to_byte() {
                if self.bytes.len() > 0 {
                    self.bytes.pop();
                    self.last_op = None;
                    proof {
                        assert(self@.bytes =~= remove_last_pop_spec(old(self)@).bytes);
                        assert(self@ =~= remove_last_pop_spec(old(self)@));
                    }
                    return;
                }
            }
        }
        proof {
            assert(self@ =~= remove_last_pop_spec(old(self)@));
        }
    }

    /// Writes `new_instruction` over the buffer range starting at
    /// `addr_idx`, leaving every other byte in place.
    fn overwrite_instruction(&mut self, addr_idx: usize, new_instruction: &Vec<u8>)
        requires
            old(self).wf(),
            addr_idx + new_instruction@.len() <= old(self)@.bytes.len(),
        ensures
            final(self).wf(),
            final(self)@ =~= (CompilerV {
                bytes: overwrite_spec(old(self)@.bytes, addr_idx as int, new_instruction@),
                ..old(self)@
            }),
    {
        let total = self.bytes.len();
        let mut i: usize = 0;
        while i < new_instruction.len()
            invariant
                i <= new_instruction@.len(),
                addr_idx + new_instruction@.len() <= self.bytes@.len(),
                self.bytes@.len() == total,
                self.bytes@.len() == old(self).bytes@.len(),
                self.constants@ == old(self).constants@,
                self.symbol_table == old(self).symbol_table,
                self.last_op == old(self).last_op,
                forall|j: int| 0 <= j < self.bytes@.len() && !(addr_idx <= j < addr_idx + i)
                    ==> self.bytes@[j] == old(self).bytes@[j],
                forall|j: int| addr_idx <= j < addr_idx + i
                    ==> self.bytes@[j] == new_instruction@[j - addr_idx],
            decreases new_instruction@.len() - i,
        {
            self.bytes.set(addr_idx + i, new_instruction[i]);
            i += 1;
        }
        proof {
            assert(self@.bytes =~= overwrite_spec(
                old(self)@.bytes,
                addr_idx as int,
                new_instruction@,
            ));
            assert(self@ =~= (CompilerV {
                bytes: overwrite_spec(old(self)@.bytes, addr_idx as int, new_instruction@),
                ..old(self)@
            }));
        }
    }

    /// The assembled bytecode: a copy of the instruction buffer and the
    /// constant pool.
    pub fn get_byte_code(&self) -> (r: ByteCode)
        ensures
            r.bytes@ == self@.bytes,
            objs_v(r.constants@) == self@.consts,
    {
        let mut bytes: Vec<u8> = Vec::new();
        let mut i: usize = 0;
        while i < self.bytes.len()
            invariant
                i <= self.bytes@.len(),
                bytes@ =~= self.bytes@.subrange(0, i as int),
            decreases self.bytes@.len() - i,
        {
            bytes.push(self.bytes[i]);
            i += 1;
        }
        proof {
            assert(bytes@ =~= self.bytes@);
        }

        let mut constants: Vec<Object> = Vec::new();
        let mut j: usize = 0;
        while j < self.constants.len()
            invariant
                j <= self.constants@.len(),
                constants@.len() == j,
                forall|k: int| 0 <= k < j
                    ==> obj_v(#[trigger] constants@[k]) == obj_v(self.constants@[k]),
            decreases self.constants@.len() - j,
        {
            constants.push(self.constants[j].duplicate());
            j += 1;
        }
        proof {
            crate::types::lemma_objs_v(constants@);
            crate::types::lemma_objs_v(self.constants@);
            assert(objs_v(constants@) =~= objs_v(self.constants@));
        }

        ByteCode { bytes, constants }
    }

    /// Clears the instruction buffer and the constant pool for reuse; the
    /// symbol table is retained, so bindings survive across runs.
    pub fn reset(&mut self)
        requires
            old(self).wf(),
        ensures
            final(self).wf(),
            final(self)@ =~= (CompilerV {
                bytes: Seq::empty(),
                consts: Seq::empty(),
                last_op: None,
                ..old(self)@
            }),
    {
        self.bytes = Vec::new();
        self.constants = Vec::new();
        self.last_op = None;
        proof {
            crate::types::lemma_objs_v(self.constants@);
        }
    }
}

} // verus!

