use vstd::prelude::*;

use crate::bytecode::{
    code_model, get_i64, get_u32, op_of_byte, read_i64, read_u32, Bytecode, CodeModel, Op, ADD,
};
use crate::value::Value;

verus! {

/// Why the virtual machine stopped without a result.
#[derive(Debug, Clone, Copy, PartialEq, Eq, Structural)]
pub enum RuntimeError {
    /// An instruction needed more operands than the stack held.
    EmptyStack,
    /// An operand of this instruction had the wrong type.
    TypeMismatch(Op),
    /// The callee of a call was neither a function nor a native reference.
    NotCallable,
    DivisionByZero,
    /// An arithmetic result does not fit in 64 bits.
    Overflow,
    /// A local slot out of range.
    BadLocal,
    /// A constant index out of range.
    BadConstant,
    /// A function index out of range.
    BadFunction,
    /// A native index out of range.
    BadNative,
    /// A call passed more arguments than the callee has local slots.
    ArgumentCount,
    /// A byte that is no opcode.
    BadOpcode,
    /// The program counter left the function, or an operand runs past its end.
    PcOutOfRange,
    /// The step budget ran out before the program returned.
    OutOfFuel,
}

/// The state of one activation, as the semantics sees it.
pub struct FrameModel {
    pub func: int,
    pub pc: int,
    pub stack: Seq<Value>,
    pub locals: Seq<Value>,
}

/// What one step of the machine leads to.
pub enum Step {
    /// The machine goes on in this state.
    Next(Seq<FrameModel>),
    /// The entry function returned this value.
    Done(Value),
    Fault(RuntimeError),
    /// The native function with this index is called with these arguments; its result is
    /// pushed onto the top frame of the state given.
    Native(u32, Seq<Value>, Seq<FrameModel>),
}

/// `n` slots that hold nothing yet.
pub open spec fn unit_seq(n: nat) -> Seq<Value> {
    Seq::new(n, |_i: int| Value::Unit)
}

/// The result of a binary instruction on two integers.
pub open spec fn arith(op: Op, a: i64, b: i64) -> Result<Value, RuntimeError> {
    match op {
        Op::Add => match a.checked_add(b) {
            Some(v) => Ok(Value::Integer(v)),
            None => Err(RuntimeError::Overflow),
        },
        Op::Sub => match a.checked_sub(b) {
            Some(v) => Ok(Value::Integer(v)),
            None => Err(RuntimeError::Overflow),
        },
        Op::Mul => match a.checked_mul(b) {
            Some(v) => Ok(Value::Integer(v)),
            None => Err(RuntimeError::Overflow),
        },
        Op::Div => if b == 0 {
            Err(RuntimeError::DivisionByZero)
        } else {
            match a.checked_div(b) {
                Some(v) => Ok(Value::Integer(v)),
                None => Err(RuntimeError::Overflow),
            }
        },
        Op::Eq => Ok(Value::Boolean(a == b)),
        Op::Ne => Ok(Value::Boolean(a != b)),
        Op::Lt => Ok(Value::Boolean(a < b)),
        Op::Le => Ok(Value::Boolean(a <= b)),
        Op::Gt => Ok(Value::Boolean(a > b)),
        Op::Ge => Ok(Value::Boolean(a >= b)),
        _ => Err(RuntimeError::BadOpcode),
    }
}

/// `f` with another program counter and stack.
pub open spec fn moved(f: FrameModel, pc: int, stack: Seq<Value>) -> FrameModel {
    FrameModel { func: f.func, pc, stack, locals: f.locals }
}

/// The state `s` with `v` pushed onto the stack of its top frame.
pub open spec fn push_top(s: Seq<FrameModel>, v: Value) -> Seq<FrameModel> {
    let t = s.last();
    s.drop_last().push(moved(t, t.pc, t.stack.push(v)))
}

/// One step of the instruction `op`, which stands whole in `code` at the top frame's
/// program counter.
pub open spec fn step_op(
    p: CodeModel,
    rest: Seq<FrameModel>,
    top: FrameModel,
    op: Op,
    code: Seq<u8>,
) -> Step {
    let pc = top.pc;
    let st = top.stack;
    let n = st.len() as int;
    let next = pc + op.spec_len();
    match op {
        Op::Return => if n == 0 {
            Step::Fault(RuntimeError::EmptyStack)
        } else if rest.len() == 0 {
            Step::Done(st.last())
        } else {
            Step::Next(push_top(rest, st.last()))
        },
        Op::PushInteger => Step::Next(
            rest.push(moved(top, next, st.push(Value::Integer(read_i64(code, pc + 1))))),
        ),
        Op::PushConstant => {
            let i = read_u32(code, pc + 1) as int;
            if i >= p.consts.len() {
                Step::Fault(RuntimeError::BadConstant)
            } else {
                Step::Next(rest.push(moved(top, next, st.push(p.consts[i]))))
            }
        },
        Op::Load => {
            let i = read_u32(code, pc + 1) as int;
            if i >= top.locals.len() {
                Step::Fault(RuntimeError::BadLocal)
            } else {
                Step::Next(rest.push(moved(top, next, st.push(top.locals[i]))))
            }
        },
        Op::Store => {
            let i = read_u32(code, pc + 1) as int;
            if n == 0 {
                Step::Fault(RuntimeError::EmptyStack)
            } else if i >= top.locals.len() {
                Step::Fault(RuntimeError::BadLocal)
            } else {
                Step::Next(
                    rest.push(
                        FrameModel {
                            func: top.func,
                            pc: next,
                            stack: st.drop_last(),
                            locals: top.locals.update(i, st.last()),
                        },
                    ),
                )
            }
        },
        Op::Jump => Step::Next(rest.push(moved(top, read_u32(code, pc + 1) as int, st))),
        Op::JumpIfFalse => if n == 0 {
            Step::Fault(RuntimeError::EmptyStack)
        } else {
            match st.last() {
                Value::Boolean(b) => Step::Next(
                    rest.push(
                        moved(
                            top,
                            if b {
                                next
                            } else {
                                read_u32(code, pc + 1) as int
                            },
                            st.drop_last(),
                        ),
                    ),
                ),
                _ => Step::Fault(RuntimeError::TypeMismatch(op)),
            }
        },
        Op::Call => {
            let k = read_u32(code, pc + 1) as int;
            if n < k + 1 {
                Step::Fault(RuntimeError::EmptyStack)
            } else {
                let args = st.subrange(n - k, n);
                let caller = moved(top, next, st.subrange(0, n - k - 1));
                match st[n - k - 1] {
                    Value::FunctionRef(i) => if i as int >= p.fns.len() {
                        Step::Fault(RuntimeError::BadFunction)
                    } else {
                        let lc = p.fns[i as int].0 as int;
                        if k > lc {
                            Step::Fault(RuntimeError::ArgumentCount)
                        } else {
                            Step::Next(
                                rest.push(caller).push(
                                    FrameModel {
                                        func: i as int,
                                        pc: 0,
                                        stack: Seq::empty(),
                                        locals: args + unit_seq((lc - k) as nat),
                                    },
                                ),
                            )
                        }
                    },
                    Value::NativeRef(i) => if i as int >= p.natives {
                        Step::Fault(RuntimeError::BadNative)
                    } else {
                        Step::Native(i, args, rest.push(caller))
                    },
                    _ => Step::Fault(RuntimeError::NotCallable),
                }
            }
        },
        _ => if n < 2 {
            Step::Fault(RuntimeError::EmptyStack)
        } else {
            match (st[n - 2], st[n - 1]) {
                (Value::Integer(a), Value::Integer(b)) => match arith(op, a, b) {
                    Ok(v) => Step::Next(rest.push(moved(top, next, st.subrange(0, n - 2).push(v)))),
                    Err(e) => Step::Fault(e),
                },
                _ => Step::Fault(RuntimeError::TypeMismatch(op)),
            }
        },
    }
}

/// One step of the machine in state `s`, whose last frame runs.
pub open spec fn step(p: CodeModel, s: Seq<FrameModel>) -> Step {
    if s.len() == 0 {
        Step::Fault(RuntimeError::BadFunction)
    } else {
        let top = s.last();
        if !(0 <= top.func < p.fns.len()) {
            Step::Fault(RuntimeError::BadFunction)
        } else {
            let code = p.fns[top.func].1;
            let pc = top.pc;
            if !(0 <= pc < code.len()) {
                Step::Fault(RuntimeError::PcOutOfRange)
            } else {
                match op_of_byte(code[pc]) {
                    None => Step::Fault(RuntimeError::BadOpcode),
                    Some(op) => if pc + op.spec_len() > code.len() {
                        Step::Fault(RuntimeError::PcOutOfRange)
                    } else {
                        step_op(p, s.drop_last(), top, op, code)
                    },
                }
            }
        }
    }
}

/// The result of running from state `s` for at most `fuel` steps, where the `k`-th native
/// call returns `answers[k]`.
pub open spec fn outcome(p: CodeModel, s: Seq<FrameModel>, fuel: nat, answers: Seq<Value>) -> Result<
    Value,
    RuntimeError,
>
    decreases fuel,
{
    if fuel == 0 {
        Err(RuntimeError::OutOfFuel)
    } else {
        match step(p, s) {
            Step::Next(s2) => outcome(p, s2, (fuel - 1) as nat, answers),
            Step::Done(v) => Ok(v),
            Step::Fault(e) => Err(e),
            Step::Native(_, _, s2) => {
                let v = if answers.len() > 0 {
                    answers[0]
                } else {
                    Value::Unit
                };
                let more = if answers.len() > 0 {
                    answers.subrange(1, answers.len() as int)
                } else {
                    answers
                };
                outcome(p, push_top(s2, v), (fuel - 1) as nat, more)
            },
        }
    }
}

/// The state in which a program starts: function 0 with no arguments.
pub open spec fn initial(p: CodeModel) -> Option<Seq<FrameModel>> {
    if p.fns.len() == 0 {
        None
    } else {
        Some(
            seq![
                FrameModel {
                    func: 0,
                    pc: 0,
                    stack: Seq::empty(),
                    locals: unit_seq(p.fns[0].0 as nat),
                },
            ],
        )
    }
}

/// The result of running program `p` for at most `fuel` steps, where the `k`-th native
/// call returns `answers[k]`.
pub open spec fn run_spec(p: CodeModel, fuel: nat, answers: Seq<Value>) -> Result<Value, RuntimeError> {
    match initial(p) {
        None => Err(RuntimeError::BadFunction),
        Some(s) => outcome(p, s, fuel, answers),
    }
}

/// An `Add` with a boolean among its two operands stops the machine with a type error: the
/// boolean is neither coerced nor does the machine panic.
pub proof fn lemma_add_boolean_is_error(p: CodeModel, s: Seq<FrameModel>, fuel: nat, answers: Seq<Value>)
    requires
        s.len() > 0,
        0 <= s.last().func < p.fns.len(),
        0 <= s.last().pc < p.fns[s.last().func].1.len(),
        p.fns[s.last().func].1[s.last().pc] == ADD,
        s.last().stack.len() >= 2,
        s.last().stack.last() is Boolean || s.last().stack[s.last().stack.len() - 2] is Boolean,
        fuel > 0,
    ensures
        step(p, s) == Step::Fault(RuntimeError::TypeMismatch(Op::Add)),
        outcome(p, s, fuel, answers) == Err::<Value, RuntimeError>(RuntimeError::TypeMismatch(Op::Add)),
{
    let st = s.last().stack;
    let n = st.len() as int;
    assert(st.last() == st[n - 1]);
}

/// Without natives, the answers that a host would give are never read.
pub proof fn lemma_outcome_without_natives(
    p: CodeModel,
    s: Seq<FrameModel>,
    fuel: nat,
    a1: Seq<Value>,
    a2: Seq<Value>,
)
    requires
        p.natives == 0,
    ensures
        outcome(p, s, fuel, a1) == outcome(p, s, fuel, a2),
    decreases fuel,
{
    if fuel > 0 {
        match step(p, s) {
            Step::Next(s2) => lemma_outcome_without_natives(p, s2, (fuel - 1) as nat, a1, a2),
            _ => {},
        }
    }
}

/// One activation of a function.
pub struct Frame {
    pub func: usize,
    pub pc: usize,
    pub stack: Vec<Value>,
    pub locals: Vec<Value>,
}

impl Frame {
    pub open spec fn model(&self) -> FrameModel {
        FrameModel {
            func: self.func as int,
            pc: self.pc as int,
            stack: self.stack@,
            locals: self.locals@,
        }
    }
}

/// The models of a sequence of frames.
pub open spec fn frame_models(fs: Seq<Frame>) -> Seq<FrameModel> {
    fs.map_values(|f: Frame| f.model())
}

/// The state of the machine: the suspended callers, then the running frame.
pub open spec fn frames_model(callers: Seq<Frame>, cur: Frame) -> Seq<FrameModel> {
    frame_models(callers).push(cur.model())
}

/// What the host does when the program calls a native function.
pub trait NativeHost {
    /// Calls the native function with this index on these arguments.
    fn call(&mut self, index: u32, args: Vec<Value>) -> Value;
}

/// A host with no native functions.
pub struct NoNatives;

impl NativeHost for NoNatives {
    fn call(&mut self, _index: u32, _args: Vec<Value>) -> Value {
        Value::Unit
    }
}

/// What one executed step led to.
enum Event {
    Continue,
    Done(Value),
    Fault(RuntimeError),
    Native(u32, Vec<Value>),
}

fn arith_exec(op: Op, a: i64, b: i64) -> (r: Result<Value, RuntimeError>)
    ensures
        r == arith(op, a, b),
{
    match op {
        Op::Add => match a.checked_add(b) {
            Some(v) => Ok(Value::Integer(v)),
            None => Err(RuntimeError::Overflow),
        },
        Op::Sub => match a.checked_sub(b) {
            Some(v) => Ok(Value::Integer(v)),
            None => Err(RuntimeError::Overflow),
        },
        Op::Mul => match a.checked_mul(b) {
            Some(v) => Ok(Value::Integer(v)),
            None => Err(RuntimeError::Overflow),
        },
        Op::Div => if b == 0 {
            Err(RuntimeError::DivisionByZero)
        } else {
            match a.checked_div(b) {
                Some(v) => Ok(Value::Integer(v)),
                None => Err(RuntimeError::Overflow),
            }
        },
        Op::Eq => Ok(Value::Boolean(a == b)),
        Op::Ne => Ok(Value::Boolean(a != b)),
        Op::Lt => Ok(Value::Boolean(a < b)),
        Op::Le => Ok(Value::Boolean(a <= b)),
        Op::Gt => Ok(Value::Boolean(a > b)),
        Op::Ge => Ok(Value::Boolean(a >= b)),
        _ => Err(RuntimeError::BadOpcode),
    }
}

/// `v` followed by slots that hold nothing, up to `n` slots.
fn fill_units(v: Vec<Value>, n: u32) -> (r: Vec<Value>)
    requires
        v@.len() <= n,
    ensures
        r@ == v@ + unit_seq((n - v@.len()) as nat),
{
    let mut r = v;
    let ghost start = r@;
    while r.len() < n as usize
        invariant
            start.len() <= r@.len() <= n,
            r@ == start + unit_seq((r@.len() - start.len()) as nat),
        decreases n - r@.len(),
    {
        r.push(Value::Unit);
        assert(r@ =~= start + unit_seq((r@.len() - start.len()) as nat));
    }
    r
}


/// Executes one step of the running frame `cur`, as [`step`] says.
fn step_frames(p: &Bytecode, callers: Vec<Frame>, cur: Frame) -> (r: (Vec<Frame>, Frame, Event))
    ensures
        ({
            let s = frames_model(callers@, cur);
            let s2 = frames_model(r.0@, r.1);
            match r.2 {
                Event::Continue => step(code_model(*p), s) == Step::Next(s2),
                Event::Done(v) => step(code_model(*p), s) == Step::Done(v),
                Event::Fault(e) => step(code_model(*p), s) == Step::Fault(e),
                Event::Native(i, args) => step(code_model(*p), s) == Step::Native(i, args@, s2),
            }
        }),
{
    let ghost s = frames_model(callers@, cur);
    let ghost rest = frame_models(callers@);
    let ghost top = cur.model();
    proof {
        assert(s.drop_last() =~= rest);
        assert(s.last() == top);
    }
    let mut callers = callers;
    let mut cur = cur;
    if cur.func >= p.ifns.len() {
        return (callers, cur, Event::Fault(RuntimeError::BadFunction));
    }
    let len = p.ifns[cur.func].bytes.len();
    if cur.pc >= len {
        return (callers, cur, Event::Fault(RuntimeError::PcOutOfRange));
    }
    let ghost code = p.ifns@[cur.func as int].bytes@;
    let op = match Op::from_byte(p.ifns[cur.func].bytes[cur.pc]) {
        Some(op) => op,
        None => {
            return (callers, cur, Event::Fault(RuntimeError::BadOpcode));
        },
    };
    let ol = op.op_len();
    if ol > len - cur.pc {
        return (callers, cur, Event::Fault(RuntimeError::PcOutOfRange));
    }
    let pc = cur.pc;
    let next = pc + ol;
    assert(step(code_model(*p), s) == step_op(code_model(*p), rest, top, op, code));
    match op {
        Op::Return => {
            let v = match cur.stack.pop() {
                Some(v) => v,
                None => {
                    return (callers, cur, Event::Fault(RuntimeError::EmptyStack));
                },
            };
            match callers.pop() {
                None => {
                    return (callers, cur, Event::Done(v));
                },
                Some(caller) => {
                    let mut caller = caller;
                    caller.stack.push(v);
                    proof {
                        assert(frame_models(callers@) =~= rest.drop_last());
                        assert(frames_model(callers@, caller) =~= push_top(rest, v));
                    }
                    return (callers, caller, Event::Continue);
                },
            }
        },
        Op::PushInteger => {
            let x = get_i64(&p.ifns[cur.func].bytes, pc + 1);
            cur.stack.push(Value::Integer(x));
            cur.pc = next;
        },
        Op::PushConstant => {
            let i = get_u32(&p.ifns[cur.func].bytes, pc + 1);
            if i as usize >= p.consts.len() {
                return (callers, cur, Event::Fault(RuntimeError::BadConstant));
            }
            cur.stack.push(p.consts[i as usize].copy());
            cur.pc = next;
        },
        Op::Load => {
            let i = get_u32(&p.ifns[cur.func].bytes, pc + 1);
            if i as usize >= cur.locals.len() {
                return (callers, cur, Event::Fault(RuntimeError::BadLocal));
            }
            let v = cur.locals[i as usize].copy();
            cur.stack.push(v);
            cur.pc = next;
        },
        Op::Store => {
            let i = get_u32(&p.ifns[cur.func].bytes, pc + 1);
            if cur.stack.len() == 0 {
                return (callers, cur, Event::Fault(RuntimeError::EmptyStack));
            }
            if i as usize >= cur.locals.len() {
                return (callers, cur, Event::Fault(RuntimeError::BadLocal));
            }
            let v = match cur.stack.pop() {
                Some(v) => v,
                None => {
                    return (callers, cur, Event::Fault(RuntimeError::EmptyStack));
                },
            };
            cur.locals.set(i as usize, v);
            cur.pc = next;
        },
        Op::Jump => {
            let t = get_u32(&p.ifns[cur.func].bytes, pc + 1);
            cur.pc = t as usize;
        },
        Op::JumpIfFalse => {
            let t = get_u32(&p.ifns[cur.func].bytes, pc + 1);
            let v = match cur.stack.pop() {
                Some(v) => v,
                None => {
                    return (callers, cur, Event::Fault(RuntimeError::EmptyStack));
                },
            };
            match v {
                Value::Boolean(b) => {
                    cur.pc = if b {
                        next
                    } else {
                        t as usize
                    };
                },
                _ => {
                    return (callers, cur, Event::Fault(RuntimeError::TypeMismatch(op)));
                },
            }
        },
        Op::Call => {
            let k = get_u32(&p.ifns[cur.func].bytes, pc + 1) as usize;
            let n = cur.stack.len();
            if n <= k {
                return (callers, cur, Event::Fault(RuntimeError::EmptyStack));
            }
            let ghost st = cur.stack@;
            let args = cur.stack.split_off(n - k);
            let callee = match cur.stack.pop() {
                Some(c) => c,
                None => {
                    return (callers, cur, Event::Fault(RuntimeError::EmptyStack));
                },
            };
            assert(callee == st[n - k - 1]);
            assert(cur.stack@ =~= st.subrange(0, n - k - 1));
            assert(args@ =~= st.subrange(n - k, n as int));
            cur.pc = next;
            assert(cur.model() == moved(top, next as int, st.subrange(0, n - k - 1)));
            match callee {
                Value::FunctionRef(i) => {
                    if i as usize >= p.ifns.len() {
                        return (callers, cur, Event::Fault(RuntimeError::BadFunction));
                    }
                    let lc = p.ifns[i as usize].locals;
                    if k > lc as usize {
                        return (callers, cur, Event::Fault(RuntimeError::ArgumentCount));
                    }
                    let locals = fill_units(args, lc);
                    let ghost caller = cur.model();
                    callers.push(cur);
                    let f = Frame { func: i as usize, pc: 0, stack: Vec::new(), locals };
                    proof {
                        assert(frame_models(callers@) =~= rest.push(caller));
                        assert(f.stack@ =~= Seq::<Value>::empty());
                    }
                    return (callers, f, Event::Continue);
                },
                Value::NativeRef(i) => {
                    if i as usize >= p.xfns.len() {
                        return (callers, cur, Event::Fault(RuntimeError::BadNative));
                    }
                    proof {
                        assert(frames_model(callers@, cur) =~= rest.push(cur.model()));
                    }
                    return (callers, cur, Event::Native(i, args));
                },
                _ => {
                    return (callers, cur, Event::Fault(RuntimeError::NotCallable));
                },
            }
        },
        _ => {
            let n = cur.stack.len();
            if n < 2 {
                return (callers, cur, Event::Fault(RuntimeError::EmptyStack));
            }
            let ghost st = cur.stack@;
            let b = match cur.stack.pop() {
                Some(v) => v,
                None => {
                    return (callers, cur, Event::Fault(RuntimeError::EmptyStack));
                },
            };
            let a = match cur.stack.pop() {
                Some(v) => v,
                None => {
                    return (callers, cur, Event::Fault(RuntimeError::EmptyStack));
                },
            };
            assert(cur.stack@ =~= st.subrange(0, n - 2));
            match (a, b) {
                (Value::Integer(x), Value::Integer(y)) => match arith_exec(op, x, y) {
                    Ok(v) => {
                        cur.stack.push(v);
                        cur.pc = next;
                    },
                    Err(e) => {
                        return (callers, cur, Event::Fault(e));
                    },
                },
                _ => {
                    return (callers, cur, Event::Fault(RuntimeError::TypeMismatch(op)));
                },
            }
        },
    }
    proof {
        assert(frames_model(callers@, cur) =~= rest.push(cur.model()));
    }
    (callers, cur, Event::Continue)
}


/// Runs a bytecode program on a stack of frames.
pub struct Runner {
    pub bytecode: Bytecode,
    /// The results that the host returned for the native calls of the last run, in order.
    pub answers: Ghost<Seq<Value>>,
}

impl Runner {
    pub fn new(bytecode: Bytecode) -> (r: Runner)
        ensures
            r.bytecode == bytecode,
    {
        Runner { bytecode, answers: Ghost(Seq::empty()) }
    }

    /// Runs function 0 with no arguments for at most `fuel` steps. Native calls go to
    /// `host`; whatever it returns, the result is the one that the semantics gives for the
    /// answers that it returned, which `answers` records.
    pub fn run_with_fuel<H: NativeHost>(&mut self, host: &mut H, fuel: u64) -> (r: Result<
        Value,
        RuntimeError,
    >)
        ensures
            final(self).bytecode == old(self).bytecode,
            r == run_spec(code_model(old(self).bytecode), fuel as nat, final(self).answers@),
    {
        let p = &self.bytecode;
        if p.ifns.len() == 0 {
            self.answers = Ghost(Seq::empty());
            return Err(RuntimeError::BadFunction);
        }
        let locals = fill_units(Vec::new(), p.ifns[0].locals);
        let mut callers: Vec<Frame> = Vec::new();
        let mut cur = Frame { func: 0, pc: 0, stack: Vec::new(), locals };
        let ghost s0 = frames_model(callers@, cur);
        proof {
            assert(frame_models(callers@) =~= Seq::<FrameModel>::empty());
            assert(cur.stack@ =~= Seq::<Value>::empty());
            assert(s0 =~= initial(code_model(*p))->Some_0);
        }
        let ghost mut log: Seq<Value> = Seq::empty();
        let mut left = fuel;
        loop
            invariant
                *p == old(self).bytecode,
                self.bytecode == old(self).bytecode,
                initial(code_model(*p)) == Some(s0),
                left <= fuel,
                forall|fut: Seq<Value>|
                    #[trigger] outcome(code_model(*p), frames_model(callers@, cur), left as nat, fut)
                        == outcome(code_model(*p), s0, fuel as nat, log + fut),
            decreases left,
        {
            proof {
                assert(log + Seq::<Value>::empty() =~= log);
                assert(outcome(code_model(*p), frames_model(callers@, cur), left as nat, Seq::<Value>::empty())
                    == outcome(code_model(*p), s0, fuel as nat, log + Seq::<Value>::empty()));
            }
            assert(run_spec(code_model(*p), fuel as nat, log) == outcome(code_model(*p), s0, fuel as nat, log));
            if left == 0 {
                self.answers = Ghost(log);
                return Err(RuntimeError::OutOfFuel);
            }
            let ghost before = frames_model(callers@, cur);
            let (c2, f2, ev) = step_frames(p, callers, cur);
            match ev {
                Event::Continue => {
                    callers = c2;
                    cur = f2;
                    proof {
                        assert forall|fut: Seq<Value>|
                            #[trigger] outcome(code_model(*p), frames_model(callers@, cur), (left - 1) as nat, fut)
                                == outcome(code_model(*p), s0, fuel as nat, log + fut) by {
                            assert(outcome(code_model(*p), before, left as nat, fut) == outcome(
                                code_model(*p),
                                s0,
                                fuel as nat,
                                log + fut,
                            ));
                        }
                    }
                },
                Event::Done(v) => {
                    assert(outcome(code_model(*p), before, left as nat, Seq::<Value>::empty()) == Ok::<
                        Value,
                        RuntimeError,
                    >(v));
                    self.answers = Ghost(log);
                    return Ok(v);
                },
                Event::Fault(e) => {
                    assert(outcome(code_model(*p), before, left as nat, Seq::<Value>::empty()) == Err::<
                        Value,
                        RuntimeError,
                    >(e));
                    self.answers = Ghost(log);
                    return Err(e);
                },
                Event::Native(i, args) => {
                    let v = host.call(i, args);
                    callers = c2;
                    cur = f2;
                    let ghost mid = frames_model(callers@, cur);
                    let ghost vv = v;
                    cur.stack.push(v);
                    proof {
                        assert(frames_model(callers@, cur) =~= push_top(mid, vv));
                        let log2 = log.push(vv);
                        assert forall|fut: Seq<Value>|
                            #[trigger] outcome(code_model(*p), frames_model(callers@, cur), (left - 1) as nat, fut)
                                == outcome(code_model(*p), s0, fuel as nat, log2 + fut) by {
                            let f2 = seq![vv] + fut;
                            assert(outcome(code_model(*p), before, left as nat, f2) == outcome(
                                code_model(*p),
                                s0,
                                fuel as nat,
                                log + f2,
                            ));
                            assert(f2.subrange(1, f2.len() as int) =~= fut);
                            assert(f2[0] == vv);
                            assert(log2 + fut =~= log + f2);
                        }
                        log = log2;
                    }
                },
            }
            left = left - 1;
        }
    }

    /// Runs function 0 with no arguments until it returns or faults (or after 2^64 - 1
    /// steps, when it reports [`RuntimeError::OutOfFuel`]).
    pub fn run<H: NativeHost>(&mut self, host: &mut H) -> (r: Result<Value, RuntimeError>)
        ensures
            final(self).bytecode == old(self).bytecode,
            r == run_spec(code_model(old(self).bytecode), u64::MAX as nat, final(self).answers@),
    {
        self.run_with_fuel(host, u64::MAX)
    }
}

} // verus!
