//! The virtual machine: a fetch-decode-execute loop over compiled bytecode
//! with a fixed-capacity evaluation stack and global-binding array.
//!
//! The ground truth is `step_spec`, one fetch-decode-execute transition as
//! a pure function of the machine state. `run` is proved to realize some
//! finite number of those steps: on success it reaches the halt state it
//! returns in, on failure it reaches a state whose next step is an error.

use vstd::prelude::*;

use crate::types::{
    obj_v, objs_v, op_of_byte, Arg, ByteCode, CompileError, Object, ObjectV, OpCode, RuntimeError,
};

verus! {

broadcast use vstd::std_specs::vec::group_vec_axioms, vstd::seq::group_seq_axioms,
    crate::types::lemma_objs_v;

/// Capacity of the evaluation stack and of the global-binding array.
pub const STACK_SIZE: usize = 10;

/// Wraps a decode failure met during execution as a runtime failure.
pub fn map_compile_err(err: CompileError) -> (r: RuntimeError)
    ensures
        r.0@ == err.0@,
{
    RuntimeError(err.0)
}

/// The machine state: the immutable program (bytes and constant pool) and
/// the mutable evaluation stack, stack pointer, instruction pointer, and
/// global bindings.
#[verifier::ext_equal]
pub ghost struct VmV {
    pub bytes: Seq<u8>,
    pub consts: Seq<ObjectV>,
    pub stack: Seq<ObjectV>,
    pub sp: int,
    pub ip: int,
    pub globals: Seq<ObjectV>,
}

/// The outcome of one machine step.
pub ghost enum VmStep {
    Halt,
    Error,
    Next(VmV),
}

/// The outcome of running for a bounded number of steps.
pub ghost enum RunRes {
    Running(VmV),
    Halted(VmV),
    Failed(VmV),
}

/// The 16-bit big-endian operand at `off`, if both bytes are in bounds.
pub open spec fn read_u16_at(bytes: Seq<u8>, off: int) -> Option<u16> {
    if 0 <= off && off + 1 < bytes.len() {
        Some((bytes[off] * 256 + bytes[off + 1]) as u16)
    } else {
        None
    }
}

/// Whether a value counts as true at a conditional jump: a nonzero
/// integer or the boolean true; every other value counts as false.
pub open spec fn obj_truthy(o: ObjectV) -> bool {
    match o {
        ObjectV::Integer(v) => v != 0,
        ObjectV::Boolean(b) => b,
        _ => false,
    }
}

/// Whether two values can be compared for equality: both are integers,
/// booleans, strings, or null. Cross-variant pairs compare unequal rather
/// than failing.
pub open spec fn comparable(x: ObjectV, y: ObjectV) -> bool {
    &&& (x is Integer || x is Boolean || x is String || x is Null)
    &&& (y is Integer || y is Boolean || y is String || y is Null)
}

/// Truncating integer division, the machine's division semantics.
pub open spec fn trunc_div(a: int, b: int) -> int {
    if a == 0 {
        0
    } else if a > 0 && b > 0 {
        a / b
    } else if a < 0 && b < 0 {
        (a * -1) / (b * -1)
    } else if a < 0 {
        ((a * -1) / b) * -1
    } else {
        (a / (b * -1)) * -1
    }
}

/// The value an arithmetic opcode pushes for operands `x` (left) and `y`
/// (right): defined only for integer pairs whose result fits the machine
/// width, and for division only with a nonzero divisor.
pub open spec fn arith_result(op: OpCode, x: ObjectV, y: ObjectV) -> Option<ObjectV> {
    match (x, y) {
        (ObjectV::Integer(a), ObjectV::Integer(b)) => {
            let v = match op {
                OpCode::Add => Some(a + b),
                OpCode::Sub => Some(a - b),
                OpCode::Mul => Some(a * b),
                OpCode::Div => if b == 0 { None } else { Some(trunc_div(a, b)) },
                _ => None,
            };
            match v {
                Some(value) => {
                    if isize::MIN <= value <= isize::MAX {
                        Some(ObjectV::Integer(value))
                    } else {
                        None
                    }
                },
                None => None,
            }
        },
        _ => None,
    }
}

/// The boolean a comparison opcode pushes for operands `x` (left) and `y`
/// (right): equality for comparable pairs (cross-variant pairs are simply
/// unequal), ordering only for integer pairs and boolean pairs (with
/// false below true).
pub open spec fn cmp_result(op: OpCode, x: ObjectV, y: ObjectV) -> Option<bool> {
    match op {
        OpCode::Eq => if comparable(x, y) { Some(x == y) } else { None },
        OpCode::NEq => if comparable(x, y) { Some(x != y) } else { None },
        OpCode::GT => match (x, y) {
            (ObjectV::Integer(a), ObjectV::Integer(b)) => Some(a > b),
            (ObjectV::Boolean(a), ObjectV::Boolean(b)) => Some(a && !b),
            _ => None,
        },
        OpCode::LT => match (x, y) {
            (ObjectV::Integer(a), ObjectV::Integer(b)) => Some(a < b),
            (ObjectV::Boolean(a), ObjectV::Boolean(b)) => Some(!a && b),
            _ => None,
        },
        _ => None,
    }
}

/// The state after pushing `v`, or nothing on a full stack.
pub open spec fn push_spec(s: VmV, v: ObjectV) -> Option<VmV> {
    if s.sp >= s.stack.len() {
        None
    } else {
        Some(VmV { stack: s.stack.update(s.sp, v), sp: s.sp + 1, ..s })
    }
}

/// The popped value and the state after popping (the vacated slot is
/// overwritten with null), or nothing on an empty stack.
pub open spec fn pop_spec(s: VmV) -> Option<(ObjectV, VmV)> {
    if s.sp <= 0 || s.sp > s.stack.len() {
        None
    } else {
        Some(
            (
                s.stack[s.sp - 1],
                VmV { stack: s.stack.update(s.sp - 1, ObjectV::Null), sp: s.sp - 1, ..s },
            ),
        )
    }
}

/// One step of a binary opcode: pop the right operand, pop the left,
/// push the result given by `res`, advance past the opcode.
pub open spec fn binary_step(s: VmV, res: spec_fn(ObjectV, ObjectV) -> Option<ObjectV>) -> VmStep {
    match pop_spec(s) {
        None => VmStep::Error,
        Some((y, s1)) => match pop_spec(s1) {
            None => VmStep::Error,
            Some((x, s2)) => match res(x, y) {
                None => VmStep::Error,
                Some(v) => match push_spec(s2, v) {
                    None => VmStep::Error,
                    Some(s3) => VmStep::Next(VmV { ip: s.ip + 1, ..s3 }),
                },
            },
        },
    }
}

/// One fetch-decode-execute transition of the machine.
pub open spec fn step_spec(s: VmV) -> VmStep {
    if s.ip < 0 {
        VmStep::Error
    } else if s.ip >= s.bytes.len() {
        VmStep::Halt
    } else {
        match op_of_byte(s.bytes[s.ip]) {
            None => VmStep::Error,
            Some(op) => match op {
                OpCode::Constant => {
                    match read_u16_at(s.bytes, s.ip + 1) {
                        None => VmStep::Error,
                        Some(idx) => {
                            if idx >= s.consts.len() {
                                VmStep::Error
                            } else {
                                match push_spec(s, s.consts[idx as int]) {
                                    None => VmStep::Error,
                                    Some(s1) => VmStep::Next(VmV { ip: s.ip + 3, ..s1 }),
                                }
                            }
                        },
                    }
                },
                OpCode::Add | OpCode::Sub | OpCode::Mul | OpCode::Div => {
                    binary_step(s, |x: ObjectV, y: ObjectV| arith_result(op, x, y))
                },
                OpCode::Eq | OpCode::NEq | OpCode::GT | OpCode::LT => {
                    binary_step(
                        s,
                        |x: ObjectV, y: ObjectV| match cmp_result(op, x, y) {
                            Some(b) => Some(ObjectV::Boolean(b)),
                            None => None,
                        },
                    )
                },
                OpCode::Minus => {
                    match pop_spec(s) {
                        None => VmStep::Error,
                        Some((v, s1)) => match v {
                            ObjectV::Integer(a) => {
                                if isize::MIN <= -a <= isize::MAX {
                                    match push_spec(s1, ObjectV::Integer(-a)) {
                                        None => VmStep::Error,
                                        Some(s2) => VmStep::Next(VmV { ip: s.ip + 1, ..s2 }),
                                    }
                                } else {
                                    VmStep::Error
                                }
                            },
                            _ => VmStep::Error,
                        },
                    }
                },
                OpCode::Exclam => {
                    match pop_spec(s) {
                        None => VmStep::Error,
                        Some((v, s1)) => {
                            let negated = match v {
                                ObjectV::Boolean(b) => Some(!b),
                                ObjectV::Integer(a) => Some(a == 0),
                                ObjectV::Null => Some(true),
                                _ => None,
                            };
                            match negated {
                                None => VmStep::Error,
                                Some(b) => match push_spec(s1, ObjectV::Boolean(b)) {
                                    None => VmStep::Error,
                                    Some(s2) => VmStep::Next(VmV { ip: s.ip + 1, ..s2 }),
                                },
                            }
                        },
                    }
                },
                OpCode::Pop => {
                    match pop_spec(s) {
                        None => VmStep::Error,
                        Some((_, s1)) => VmStep::Next(VmV { ip: s.ip + 1, ..s1 }),
                    }
                },
                OpCode::True => {
                    match push_spec(s, ObjectV::Boolean(true)) {
                        None => VmStep::Error,
                        Some(s1) => VmStep::Next(VmV { ip: s.ip + 1, ..s1 }),
                    }
                },
                OpCode::False => {
                    match push_spec(s, ObjectV::Boolean(false)) {
                        None => VmStep::Error,
                        Some(s1) => VmStep::Next(VmV { ip: s.ip + 1, ..s1 }),
                    }
                },
                OpCode::Null => {
                    match push_spec(s, ObjectV::Null) {
                        None => VmStep::Error,
                        Some(s1) => VmStep::Next(VmV { ip: s.ip + 1, ..s1 }),
                    }
                },
                OpCode::JP => {
                    match read_u16_at(s.bytes, s.ip + 1) {
                        None => VmStep::Error,
                        Some(addr) => VmStep::Next(VmV { ip: addr as int, ..s }),
                    }
                },
                OpCode::JPTrue => {
                    match pop_spec(s) {
                        None => VmStep::Error,
                        Some((cond, s1)) => {
                            if obj_truthy(cond) {
                                match read_u16_at(s1.bytes, s1.ip + 1) {
                                    None => VmStep::Error,
                                    Some(addr) => VmStep::Next(VmV { ip: addr as int, ..s1 }),
                                }
                            } else {
                                VmStep::Next(VmV { ip: s.ip + 3, ..s1 })
                            }
                        },
                    }
                },
                OpCode::JPFalse => {
                    match pop_spec(s) {
                        None => VmStep::Error,
                        Some((cond, s1)) => {
                            if !obj_truthy(cond) {
                                match read_u16_at(s1.bytes, s1.ip + 1) {
                                    None => VmStep::Error,
                                    Some(addr) => VmStep::Next(VmV { ip: addr as int, ..s1 }),
                                }
                            } else {
                                VmStep::Next(VmV { ip: s.ip + 3, ..s1 })
                            }
                        },
                    }
                },
                OpCode::SetGlobal => {
                    match read_u16_at(s.bytes, s.ip + 1) {
                        None => VmStep::Error,
                        Some(idx) => {
                            if idx >= s.globals.len() {
                                VmStep::Error
                            } else {
                                match pop_spec(s) {
                                    None => VmStep::Error,
                                    Some((v, s1)) => VmStep::Next(
                                        VmV {
                                            globals: s1.globals.update(idx as int, v),
                                            ip: s.ip + 3,
                                            ..s1
                                        },
                                    ),
                                }
                            }
                        },
                    }
                },
                OpCode::GetGlobal => {
                    match read_u16_at(s.bytes, s.ip + 1) {
                        None => VmStep::Error,
                        Some(idx) => {
                            if idx >= s.globals.len() {
                                VmStep::Error
                            } else {
                                match push_spec(s, s.globals[idx as int]) {
                                    None => VmStep::Error,
                                    Some(s1) => VmStep::Next(VmV { ip: s.ip + 3, ..s1 }),
                                }
                            }
                        },
                    }
                },
            },
        }
    }
}

/// The machine after `n` steps from `s`: still running, halted at the end
/// of the stream, or stopped at a step that fails.
pub open spec fn run_n(s: VmV, n: nat) -> RunRes
    decreases n,
{
    if n == 0 {
        RunRes::Running(s)
    } else {
        match step_spec(s) {
            VmStep::Halt => RunRes::Halted(s),
            VmStep::Error => RunRes::Failed(s),
            VmStep::Next(s1) => run_n(s1, (n - 1) as nat),
        }
    }
}

/// One step never changes the program: the instruction bytes and the
/// constant pool come out of a step as they went in.
pub proof fn lemma_step_preserves_program(s: VmV)
    ensures
        step_spec(s) matches VmStep::Next(s1) ==> s1.bytes == s.bytes && s1.consts == s.consts,
{
}

/// A run never changes the program: however many steps it takes, a machine
/// still running, halted, or failed carries the bytes and the constant
/// pool it started with.
pub proof fn lemma_run_preserves_program(s: VmV, n: nat)
    ensures
        run_n(s, n) matches RunRes::Running(s1) ==> s1.bytes == s.bytes && s1.consts == s.consts,
        run_n(s, n) matches RunRes::Halted(s1) ==> s1.bytes == s.bytes && s1.consts == s.consts,
        run_n(s, n) matches RunRes::Failed(s1) ==> s1.bytes == s.bytes && s1.consts == s.consts,
    decreases n,
{
    if n > 0 {
        lemma_step_preserves_program(s);
        match step_spec(s) {
            VmStep::Next(sm) => {
                lemma_run_preserves_program(sm, (n - 1) as nat);
            },
            _ => {},
        }
    }
}

/// A run still going after `n` steps continues from where it is: one more
/// step extends it.
pub proof fn lemma_run_extend(s0: VmV, n: nat, s1: VmV)
    requires
        run_n(s0, n) == RunRes::Running(s1),
    ensures
        step_spec(s1) matches VmStep::Next(s2) ==> run_n(s0, n + 1) == RunRes::Running(s2),
        step_spec(s1) is Halt ==> run_n(s0, n + 1) == RunRes::Halted(s1),
        step_spec(s1) is Error ==> run_n(s0, n + 1) == RunRes::Failed(s1),
    decreases n,
{
    reveal_with_fuel(run_n, 3);
    if n == 0 {
        assert(s1 == s0);
    } else {
        match step_spec(s0) {
            VmStep::Next(sm) => {
                assert(run_n(s0, n) == run_n(sm, (n - 1) as nat));
                lemma_run_extend(sm, (n - 1) as nat, s1);
                assert(run_n(s0, n + 1) == run_n(sm, n));
            },
            _ => {},
        }
    }
}

/// The virtual machine: bytecode plus its run-time state.
pub struct VM {
    bytecode: ByteCode,
    stack: Vec<Object>,
    sp: usize,
    ip: usize,
    globals: Vec<Object>,
}

impl View for VM {
    type V = VmV;

    closed spec fn view(&self) -> VmV {
        VmV {
            bytes: self.bytecode.bytes@,
            consts: objs_v(self.bytecode.constants@),
            stack: objs_v(self.stack@),
            sp: self.sp as int,
            ip: self.ip as int,
            globals: objs_v(self.globals@),
        }
    }
}

impl VM {
    /// The stack and the global array stay at their fixed capacity, and
    /// the cursors stay in range.
    pub closed spec fn wf(&self) -> bool {
        &&& self.stack@.len() == STACK_SIZE
        &&& self.globals@.len() == STACK_SIZE
        &&& self.sp <= STACK_SIZE
        &&& self.bytecode.bytes@.len() + 3 <= usize::MAX
    }

    /// A machine over `bytecode`, with empty stack, both cursors at zero,
    /// and all bindings null.
    pub fn new(bytecode: ByteCode) -> (r: Self)
        requires
            bytecode.bytes@.len() + 3 <= usize::MAX,
        ensures
            r.wf(),
            r@.bytes == bytecode.bytes@,
            r@.consts == objs_v(bytecode.constants@),
            r@.stack =~= Seq::new(STACK_SIZE as nat, |i: int| ObjectV::Null),
            r@.sp == 0,
            r@.ip == 0,
            r@.globals =~= Seq::new(STACK_SIZE as nat, |i: int| ObjectV::Null),
    {
        let mut stack: Vec<Object> = Vec::new();
        let mut globals: Vec<Object> = Vec::new();
        let mut i: usize = 0;
        while i < STACK_SIZE
            invariant
                i <= STACK_SIZE,
                stack@.len() == i,
                globals@.len() == i,
                forall|j: int| 0 <= j < i ==> #[trigger] stack@[j] == Object::Null,
                forall|j: int| 0 <= j < i ==> #[trigger] globals@[j] == Object::Null,
            decreases STACK_SIZE - i,
        {
            stack.push(Object::Null);
            globals.push(Object::Null);
            i += 1;
        }
        let r = Self { bytecode, stack, sp: 0, ip: 0, globals };
        proof {
            assert(r@.stack =~= Seq::new(STACK_SIZE as nat, |k: int| ObjectV::Null));
            assert(r@.globals =~= Seq::new(STACK_SIZE as nat, |k: int| ObjectV::Null));
        }
        r
    }

    /// The stack pointer: the number of values on the evaluation stack.
    pub fn stack_pointer(&self) -> (r: usize)
        ensures
            r as int == self@.sp,
    {
        self.sp
    }

    /// The value on top of the evaluation stack; fails iff the stack is
    /// empty.
    pub fn stack_top(&self) -> (r: Result<Object, RuntimeError>)
        requires
            self.wf(),
        ensures
            r is Ok <==> self@.sp > 0,
            r matches Ok(v) ==> v@ == self@.stack[self@.sp - 1],
    {
        let sp = self.sp;
        if sp == 0 {
            Err(RuntimeError("stack_top: Cannot read empty stack!".to_string()))
        } else {
            Ok(self.stack[sp - 1].duplicate())
        }
    }

    /// Pushes `obj`; fails with a stack-overflow error, changing nothing,
    /// iff the stack pointer is at capacity.
    pub fn push_stack(&mut self, obj: Object) -> (r: Result<(), RuntimeError>)
        requires
            old(self).wf(),
        ensures
            final(self).wf(),
            r is Ok <==> old(self)@.sp < STACK_SIZE,
            r is Ok ==> Some(final(self)@) == push_spec(old(self)@, obj@),
            r is Err ==> final(self)@ == old(self)@,
    {
        let sp = self.sp;
        if sp == STACK_SIZE {
            return Err(RuntimeError("push_stack: stack overflow".to_string()));
        }

        self.stack.set(sp, obj);
        self.sp = sp + 1;
        proof {
            assert(objs_v(self.stack@) =~= objs_v(old(self).stack@).update(
                old(self)@.sp,
                obj_v(obj),
            ));
            assert(self@ =~= push_spec(old(self)@, obj@)->0);
        }
        Ok(())
    }

    /// Pops the top value, overwriting the vacated slot with null; fails
    /// with an empty-stack error, changing nothing, iff the stack is
    /// empty.
    pub fn pop_stack(&mut self) -> (r: Result<Object, RuntimeError>)
        requires
            old(self).wf(),
        ensures
            final(self).wf(),
            r is Ok <==> old(self)@.sp > 0,
            r matches Ok(v) ==> Some((v@, final(self)@)) == pop_spec(old(self)@),
            r is Err ==> final(self)@ == old(self)@,
    {
        let val = match self.stack_top() {
            Ok(v) => v,
            Err(e) => {
                return Err(e);
            },
        };
        self.sp = self.sp - 1;
        self.stack.set(self.sp, Object::Null);
        proof {
            assert(objs_v(self.stack@) =~= objs_v(old(self).stack@).update(
                old(self)@.sp - 1,
                ObjectV::Null,
            ));
            assert(self@ =~= (pop_spec(old(self)@)->0).1);
        }
        Ok(val)
    }

    /// Runs the fetch-decode-execute loop to a terminal state: on `Ok` the
    /// machine has taken finitely many steps and halted in exactly the
    /// state it now exposes; on `Err` it has reached, in finitely many
    /// steps, a state whose next step fails.
    pub fn run(&mut self) -> (r: Result<(), RuntimeError>)
        requires
            old(self).wf(),
        ensures
            final(self).wf(),
            r is Ok ==> exists|n: nat| run_n(old(self)@, n) == RunRes::Halted(final(self)@),
            r is Err ==> (exists|n: nat| run_n(old(self)@, n) is Failed)
                || run_n(old(self)@, u64::MAX as nat) is Running,
    {
        let ghost start = self@;
        let ghost mut steps: nat = 0nat;
        let mut fuel: u64 = u64::MAX;

        loop
            invariant_except_break
                run_n(start, steps) == RunRes::Running(self@),
                steps == u64::MAX - fuel,
            invariant
                self.wf(),
                start == old(self)@,
            ensures
                self.wf(),
                exists|n: nat| run_n(start, n) == RunRes::Halted(self@),
                start == old(self)@,
            decreases fuel,
        {
            let ghost cur = self@;
            if fuel == 0 {
                return Err(RuntimeError("Run did not terminate within the step bound".to_string()));
            }
            fuel = fuel - 1;
            match self.step() {
                Ok(true) => {
                    proof {
                        lemma_run_extend(start, steps, cur);
                        steps = steps + 1;
                    }
                },
                Ok(false) => {
                    proof {
                        lemma_run_extend(start, steps, cur);
                        assert(run_n(start, steps + 1) == RunRes::Halted(self@));
                    }
                    break;
                },
                Err(e) => {
                    proof {
                        lemma_run_extend(start, steps, cur);
                        assert(run_n(start, steps + 1) is Failed);
                    }
                    return Err(e);
                },
            }
        }

        Ok(())
    }

    /// One fetch-decode-execute step, realizing `step_spec` exactly: the
    /// flag says whether the machine goes on (`true`) or has halted at the
    /// end of the stream (`false`, state unchanged); an error is returned
    /// iff the step fails.
    #[verifier::rlimit(100)]
    fn step(&mut self) -> (r: Result<bool, RuntimeError>)
        requires
            old(self).wf(),
        ensures
            final(self).wf(),
            r == Ok::<bool, RuntimeError>(true)
                ==> step_spec(old(self)@) == VmStep::Next(final(self)@),
            r == Ok::<bool, RuntimeError>(false)
                ==> step_spec(old(self)@) is Halt && final(self)@ == old(self)@,
            r is Err ==> step_spec(old(self)@) is Error,
    {
        let ghost cur = self@;
        let ip = self.ip;
        if ip >= self.bytecode.bytes.len() {
            return Ok(false);
        }

        let opcode = match OpCode::from_byte(self.bytecode.bytes[ip]) {
            Ok(op) => op,
            Err(err) => {
                return Err(map_compile_err(err));
            },
        };

        match opcode {
            OpCode::Constant => {
                let idx_arg = match Arg::read_u16(&self.bytecode.bytes, ip + 1) {
                    Ok(arg) => arg,
                    Err(err) => {
                        return Err(map_compile_err(err));
                    },
                };
                let idx = match idx_arg {
                    Arg::U16(x) => x as usize,
                    Arg::U8(x) => x as usize,
                };

                if idx >= self.bytecode.constants.len() {
                    return Err(RuntimeError(
                        "Attempted to access object past the pool".to_string(),
                    ));
                }

                let v = self.bytecode.constants[idx].duplicate();
                if let Err(e) = self.push_stack(v) {
                    return Err(e);
                }

                self.ip = ip + 3;
                proof {
                    assert(step_spec(cur) == VmStep::Next(self@));
                }
            },
            OpCode::Add | OpCode::Sub | OpCode::Mul | OpCode::Div => {
                let y = match self.pop_stack() {
                    Ok(v) => v,
                    Err(e) => {
                        return Err(e);
                    },
                };
                let x = match self.pop_stack() {
                    Ok(v) => v,
                    Err(e) => {
                        return Err(e);
                    },
                };
                let res = match opcode {
                    OpCode::Add => x.add(y),
                    OpCode::Sub => x.sub(y),
                    OpCode::Mul => x.mul(y),
                    _ => x.div(y),
                };
                let v = match res {
                    Ok(v) => v,
                    Err(e) => {
                        proof {
                            assert(step_spec(cur) is Error);
                        }
                        return Err(e);
                    },
                };
                if let Err(e) = self.push_stack(v) {
                    return Err(e);
                }
                self.ip = ip + 1;
                proof {
                    assert(step_spec(cur) == VmStep::Next(self@));
                }
            },
            OpCode::Eq | OpCode::NEq | OpCode::GT | OpCode::LT => {
                let y = match self.pop_stack() {
                    Ok(v) => v,
                    Err(e) => {
                        return Err(e);
                    },
                };
                let x = match self.pop_stack() {
                    Ok(v) => v,
                    Err(e) => {
                        return Err(e);
                    },
                };
                let b = match Self::compare(opcode, &x, &y) {
                    Ok(b) => b,
                    Err(e) => {
                        proof {
                            assert(step_spec(cur) is Error);
                        }
                        return Err(e);
                    },
                };
                if let Err(e) = self.push_stack(Object::Boolean(b)) {
                    return Err(e);
                }
                self.ip = ip + 1;
                proof {
                    assert(step_spec(cur) == VmStep::Next(self@));
                }
            },
            OpCode::Minus => {
                let val = match self.pop_stack() {
                    Ok(v) => v,
                    Err(e) => {
                        return Err(e);
                    },
                };
                let negated = match val {
                    Object::Integer(a) => match (0isize).checked_sub(a) {
                        Some(n) => n,
                        None => {
                            return Err(RuntimeError("`-` overflow".to_string()));
                        },
                    },
                    _ => {
                        return Err(RuntimeError(
                            "`-` can only be applied to Integers".to_string(),
                        ));
                    },
                };
                if let Err(e) = self.push_stack(Object::Integer(negated)) {
                    return Err(e);
                }
                self.ip = ip + 1;
                proof {
                    assert(step_spec(cur) == VmStep::Next(self@));
                }
            },
            OpCode::Exclam => {
                let val = match self.pop_stack() {
                    Ok(v) => v,
                    Err(e) => {
                        return Err(e);
                    },
                };
                let negated = match val {
                    Object::Boolean(b) => !b,
                    Object::Integer(a) => a == 0,
                    Object::Null => true,
                    _ => {
                        return Err(RuntimeError(
                            "`!` can only be applied to Booleans and Integers".to_string(),
                        ));
                    },
                };
                if let Err(e) = self.push_stack(Object::Boolean(negated)) {
                    return Err(e);
                }
                self.ip = ip + 1;
                proof {
                    assert(step_spec(cur) == VmStep::Next(self@));
                }
            },
            OpCode::Pop => {
                if let Err(e) = self.pop_stack() {
                    return Err(e);
                }
                self.ip = ip + 1;
                proof {
                    assert(step_spec(cur) == VmStep::Next(self@));
                }
            },
            OpCode::True | OpCode::False | OpCode::Null => {
                let v = match opcode {
                    OpCode::True => Object::Boolean(true),
                    OpCode::False => Object::Boolean(false),
                    _ => Object::Null,
                };
                if let Err(e) = self.push_stack(v) {
                    return Err(e);
                }
                self.ip = ip + 1;
                proof {
                    assert(step_spec(cur) == VmStep::Next(self@));
                }
            },
            OpCode::JP => {
                if let Err(e) = self.jump() {
                    return Err(e);
                }
                proof {
                    assert(step_spec(cur) == VmStep::Next(self@));
                }
            },
            OpCode::JPTrue => {
                let condition = match self.pop_stack() {
                    Ok(v) => v,
                    Err(e) => {
                        return Err(e);
                    },
                };
                if condition.is_truthy() {
                    if let Err(e) = self.jump() {
                        return Err(e);
                    }
                } else {
                    self.ip = ip + 3;
                }
                proof {
                    assert(step_spec(cur) == VmStep::Next(self@));
                }
            },
            OpCode::JPFalse => {
                let condition = match self.pop_stack() {
                    Ok(v) => v,
                    Err(e) => {
                        return Err(e);
                    },
                };
                if !condition.is_truthy() {
                    if let Err(e) = self.jump() {
                        return Err(e);
                    }
                } else {
                    self.ip = ip + 3;
                }
                proof {
                    assert(step_spec(cur) == VmStep::Next(self@));
                }
            },
            OpCode::SetGlobal => {
                let idx_arg = match Arg::read_u16(&self.bytecode.bytes, ip + 1) {
                    Ok(arg) => arg,
                    Err(err) => {
                        return Err(map_compile_err(err));
                    },
                };
                let idx = match idx_arg {
                    Arg::U16(x) => x as usize,
                    Arg::U8(x) => x as usize,
                };
                if idx >= self.globals.len() {
                    return Err(RuntimeError(
                        "SetGlobal: slot out of declared capacity".to_string(),
                    ));
                }
                let v = match self.pop_stack() {
                    Ok(v) => v,
                    Err(e) => {
                        return Err(e);
                    },
                };
                let ghost g0 = objs_v(self.globals@);
                let ghost vv = obj_v(v);
                self.globals.set(idx, v);
                self.ip = ip + 3;
                proof {
                    assert(objs_v(self.globals@) =~= g0.update(idx as int, vv));
                    assert(step_spec(cur) == VmStep::Next(self@));
                }
            },
            OpCode::GetGlobal => {
                let idx_arg = match Arg::read_u16(&self.bytecode.bytes, ip + 1) {
                    Ok(arg) => arg,
                    Err(err) => {
                        return Err(map_compile_err(err));
                    },
                };
                let idx = match idx_arg {
                    Arg::U16(x) => x as usize,
                    Arg::U8(x) => x as usize,
                };
                if idx >= self.globals.len() {
                    return Err(RuntimeError(
                        "GetGlobal: slot out of declared capacity".to_string(),
                    ));
                }
                let v = self.globals[idx].duplicate();
                if let Err(e) = self.push_stack(v) {
                    return Err(e);
                }
                self.ip = ip + 3;
                proof {
                    assert(step_spec(cur) == VmStep::Next(self@));
                }
            },
        }

        Ok(true)
    }

    fn compare(op: OpCode, x: &Object, y: &Object) -> (r: Result<bool, RuntimeError>)
        requires
            op == OpCode::Eq || op == OpCode::NEq || op == OpCode::GT || op == OpCode::LT,
        ensures
            r is Ok <==> cmp_result(op, x@, y@) is Some,
            r matches Ok(b) ==> Some(b) == cmp_result(op, x@, y@),
    {
        match op {
            OpCode::Eq => match Self::plain_eq(x, y) {
                Some(b) => Ok(b),
                None => Err(RuntimeError("`==` cannot compare these values".to_string())),
            },
            OpCode::NEq => match Self::plain_eq(x, y) {
                Some(b) => Ok(!b),
                None => Err(RuntimeError("`!=` cannot compare these values".to_string())),
            },
            OpCode::GT => match (x, y) {
                (Object::Integer(a), Object::Integer(b)) => Ok(*a > *b),
                (Object::Boolean(a), Object::Boolean(b)) => Ok(*a && !*b),
                _ => Err(RuntimeError("`>` cannot compare these values".to_string())),
            },
            _ => match (x, y) {
                (Object::Integer(a), Object::Integer(b)) => Ok(*a < *b),
                (Object::Boolean(a), Object::Boolean(b)) => Ok(!*a && *b),
                _ => Err(RuntimeError("`<` cannot compare these values".to_string())),
            },
        }
    }

    /// Structural equality of two comparable values; nothing for a pair
    /// that is not comparable.
    fn plain_eq(x: &Object, y: &Object) -> (r: Option<bool>)
        ensures
            r is Some <==> comparable(x@, y@),
            r matches Some(b) ==> b == (x@ == y@),
    {
        match (x, y) {
            (Object::Integer(a), Object::Integer(b)) => Some(*a == *b),
            (Object::Boolean(a), Object::Boolean(b)) => Some(*a == *b),
            (Object::String(a), Object::String(b)) => Some(a.eq(b)),
            (Object::Null, Object::Null) => Some(true),
            (Object::Integer(_), Object::Boolean(_)) => Some(false),
            (Object::Integer(_), Object::String(_)) => Some(false),
            (Object::Integer(_), Object::Null) => Some(false),
            (Object::Boolean(_), Object::Integer(_)) => Some(false),
            (Object::Boolean(_), Object::String(_)) => Some(false),
            (Object::Boolean(_), Object::Null) => Some(false),
            (Object::String(_), Object::Integer(_)) => Some(false),
            (Object::String(_), Object::Boolean(_)) => Some(false),
            (Object::String(_), Object::Null) => Some(false),
            (Object::Null, Object::Integer(_)) => Some(false),
            (Object::Null, Object::Boolean(_)) => Some(false),
            (Object::Null, Object::String(_)) => Some(false),
            _ => None,
        }
    }

    /// Sets the instruction pointer to the operand of the jump opcode
    /// under it; fails iff the operand bytes are out of bounds.
    fn jump(&mut self) -> (r: Result<(), RuntimeError>)
        requires
            old(self).wf(),
            old(self)@.ip < old(self)@.bytes.len(),
        ensures
            final(self).wf(),
            r is Ok <==> read_u16_at(old(self)@.bytes, old(self)@.ip + 1) is Some,
            r is Ok ==> final(self)@ == (VmV {
                ip: read_u16_at(old(self)@.bytes, old(self)@.ip + 1)->0 as int,
                ..old(self)@
            }),
    {
        let arg = match Arg::read_u16(&self.bytecode.bytes, self.ip + 1) {
            Ok(arg) => arg,
            Err(err) => {
                return Err(map_compile_err(err));
            },
        };
        let addr = match arg {
            Arg::U16(x) => x as usize,
            Arg::U8(x) => x as usize,
        };
        self.ip = addr;
        Ok(())
    }
}

} // verus!
