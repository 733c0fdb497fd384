use vstd::prelude::*;

use crate::ir::AsmStatKind;
use crate::value::Value;

verus! {

/// An opcode of the bytecode: the first byte of each encoded instruction.
#[derive(Debug, Clone, Copy, PartialEq, Eq, Structural)]
pub enum Op {
    Return,
    PushInteger,
    PushConstant,
    Add,
    Sub,
    Mul,
    Div,
    Eq,
    Ne,
    Lt,
    Le,
    Gt,
    Ge,
    Store,
    Load,
    Jump,
    JumpIfFalse,
    Call,
}

pub const RETURN: u8 = 0x00;
pub const PUSH_INTEGER: u8 = 0x11;
pub const PUSH_CONSTANT: u8 = 0x12;
pub const ADD: u8 = 0x22;
pub const SUB: u8 = 0x23;
pub const MUL: u8 = 0x24;
pub const DIV: u8 = 0x25;
pub const EQ: u8 = 0x26;
pub const NE: u8 = 0x27;
pub const LT: u8 = 0x28;
pub const LE: u8 = 0x29;
pub const GT: u8 = 0x2A;
pub const GE: u8 = 0x2B;
pub const STORE: u8 = 0x30;
pub const LOAD: u8 = 0x31;
pub const JUMP: u8 = 0x40;
pub const JUMP_IF_FALSE: u8 = 0x41;
pub const CALL: u8 = 0x50;

/// The opcode that a byte stands for, if any.
pub open spec fn op_of_byte(b: u8) -> Option<Op> {
    if b == RETURN {
        Some(Op::Return)
    } else if b == PUSH_INTEGER {
        Some(Op::PushInteger)
    } else if b == PUSH_CONSTANT {
        Some(Op::PushConstant)
    } else if b == ADD {
        Some(Op::Add)
    } else if b == SUB {
        Some(Op::Sub)
    } else if b == MUL {
        Some(Op::Mul)
    } else if b == DIV {
        Some(Op::Div)
    } else if b == EQ {
        Some(Op::Eq)
    } else if b == NE {
        Some(Op::Ne)
    } else if b == LT {
        Some(Op::Lt)
    } else if b == LE {
        Some(Op::Le)
    } else if b == GT {
        Some(Op::Gt)
    } else if b == GE {
        Some(Op::Ge)
    } else if b == STORE {
        Some(Op::Store)
    } else if b == LOAD {
        Some(Op::Load)
    } else if b == JUMP {
        Some(Op::Jump)
    } else if b == JUMP_IF_FALSE {
        Some(Op::JumpIfFalse)
    } else if b == CALL {
        Some(Op::Call)
    } else {
        None
    }
}

/// The opcode that encodes a statement of this kind; labels have none.
pub open spec fn op_of_kind(k: AsmStatKind) -> Option<Op> {
    match k {
        AsmStatKind::Label => None,
        AsmStatKind::Return => Some(Op::Return),
        AsmStatKind::PushInteger => Some(Op::PushInteger),
        AsmStatKind::PushConstant => Some(Op::PushConstant),
        AsmStatKind::Load => Some(Op::Load),
        AsmStatKind::Store => Some(Op::Store),
        AsmStatKind::Add => Some(Op::Add),
        AsmStatKind::Sub => Some(Op::Sub),
        AsmStatKind::Mul => Some(Op::Mul),
        AsmStatKind::Div => Some(Op::Div),
        AsmStatKind::Eq => Some(Op::Eq),
        AsmStatKind::Ne => Some(Op::Ne),
        AsmStatKind::Lt => Some(Op::Lt),
        AsmStatKind::Le => Some(Op::Le),
        AsmStatKind::Gt => Some(Op::Gt),
        AsmStatKind::Ge => Some(Op::Ge),
        AsmStatKind::Jump => Some(Op::Jump),
        AsmStatKind::JumpIfFalse => Some(Op::JumpIfFalse),
        AsmStatKind::Call => Some(Op::Call),
    }
}

impl Op {
    pub open spec fn spec_byte(self) -> u8 {
        match self {
            Op::Return => RETURN,
            Op::PushInteger => PUSH_INTEGER,
            Op::PushConstant => PUSH_CONSTANT,
            Op::Add => ADD,
            Op::Sub => SUB,
            Op::Mul => MUL,
            Op::Div => DIV,
            Op::Eq => EQ,
            Op::Ne => NE,
            Op::Lt => LT,
            Op::Le => LE,
            Op::Gt => GT,
            Op::Ge => GE,
            Op::Store => STORE,
            Op::Load => LOAD,
            Op::Jump => JUMP,
            Op::JumpIfFalse => JUMP_IF_FALSE,
            Op::Call => CALL,
        }
    }

    /// The length in bytes of an encoded instruction with this opcode, operand included.
    pub open spec fn spec_len(self) -> nat {
        match self {
            Op::PushInteger => 9,
            Op::PushConstant | Op::Store | Op::Load | Op::Jump | Op::JumpIfFalse | Op::Call => 5,
            _ => 1,
        }
    }

    pub fn from_byte(byte: u8) -> (r: Option<Op>)
        ensures
            r == op_of_byte(byte),
            r matches Some(op) ==> op.spec_byte() == byte,
    {
        match byte {
            RETURN => Some(Op::Return),
            PUSH_INTEGER => Some(Op::PushInteger),
            PUSH_CONSTANT => Some(Op::PushConstant),
            ADD => Some(Op::Add),
            SUB => Some(Op::Sub),
            MUL => Some(Op::Mul),
            DIV => Some(Op::Div),
            EQ => Some(Op::Eq),
            NE => Some(Op::Ne),
            LT => Some(Op::Lt),
            LE => Some(Op::Le),
            GT => Some(Op::Gt),
            GE => Some(Op::Ge),
            STORE => Some(Op::Store),
            LOAD => Some(Op::Load),
            JUMP => Some(Op::Jump),
            JUMP_IF_FALSE => Some(Op::JumpIfFalse),
            CALL => Some(Op::Call),
            _ => None,
        }
    }

    pub fn byte(self) -> (r: u8)
        ensures
            r == self.spec_byte(),
            op_of_byte(r) == Some(self),
    {
        match self {
            Op::Return => RETURN,
            Op::PushInteger => PUSH_INTEGER,
            Op::PushConstant => PUSH_CONSTANT,
            Op::Add => ADD,
            Op::Sub => SUB,
            Op::Mul => MUL,
            Op::Div => DIV,
            Op::Eq => EQ,
            Op::Ne => NE,
            Op::Lt => LT,
            Op::Le => LE,
            Op::Gt => GT,
            Op::Ge => GE,
            Op::Store => STORE,
            Op::Load => LOAD,
            Op::Jump => JUMP,
            Op::JumpIfFalse => JUMP_IF_FALSE,
            Op::Call => CALL,
        }
    }

    pub fn op_len(self) -> (r: usize)
        ensures
            r == self.spec_len(),
    {
        match self {
            Op::PushInteger => 9,
            Op::PushConstant | Op::Store | Op::Load | Op::Jump | Op::JumpIfFalse | Op::Call => 5,
            _ => 1,
        }
    }

    pub fn from_asm_stat_kind(kind: AsmStatKind) -> (r: Option<Op>)
        ensures
            r == op_of_kind(kind),
    {
        match kind {
            AsmStatKind::Label => None,
            AsmStatKind::Return => Some(Op::Return),
            AsmStatKind::PushInteger => Some(Op::PushInteger),
            AsmStatKind::PushConstant => Some(Op::PushConstant),
            AsmStatKind::Load => Some(Op::Load),
            AsmStatKind::Store => Some(Op::Store),
            AsmStatKind::Add => Some(Op::Add),
            AsmStatKind::Sub => Some(Op::Sub),
            AsmStatKind::Mul => Some(Op::Mul),
            AsmStatKind::Div => Some(Op::Div),
            AsmStatKind::Eq => Some(Op::Eq),
            AsmStatKind::Ne => Some(Op::Ne),
            AsmStatKind::Lt => Some(Op::Lt),
            AsmStatKind::Le => Some(Op::Le),
            AsmStatKind::Gt => Some(Op::Gt),
            AsmStatKind::Ge => Some(Op::Ge),
            AsmStatKind::Jump => Some(Op::Jump),
            AsmStatKind::JumpIfFalse => Some(Op::JumpIfFalse),
            AsmStatKind::Call => Some(Op::Call),
        }
    }

    /// The mnemonic of the opcode.
    pub fn display(&self) -> (r: &'static str)
        ensures
            r@ == match *self {
                Op::Return => "RET"@,
                Op::PushInteger => "PUSH_INT"@,
                Op::PushConstant => "PUSH_CONST"@,
                Op::Add => "ADD"@,
                Op::Sub => "SUB"@,
                Op::Mul => "MUL"@,
                Op::Div => "DIV"@,
                Op::Eq => "EQ"@,
                Op::Ne => "NE"@,
                Op::Lt => "LT"@,
                Op::Le => "LE"@,
                Op::Gt => "GT"@,
                Op::Ge => "GE"@,
                Op::Store => "STORE"@,
                Op::Load => "LOAD"@,
                Op::Jump => "JUMP"@,
                Op::JumpIfFalse => "JUMP_IF_FALSE"@,
                Op::Call => "CALL"@,
            },
    {
        match self {
            Op::Return => "RET",
            Op::PushInteger => "PUSH_INT",
            Op::PushConstant => "PUSH_CONST",
            Op::Add => "ADD",
            Op::Sub => "SUB",
            Op::Mul => "MUL",
            Op::Div => "DIV",
            Op::Eq => "EQ",
            Op::Ne => "NE",
            Op::Lt => "LT",
            Op::Le => "LE",
            Op::Gt => "GT",
            Op::Ge => "GE",
            Op::Store => "STORE",
            Op::Load => "LOAD",
            Op::Jump => "JUMP",
            Op::JumpIfFalse => "JUMP_IF_FALSE",
            Op::Call => "CALL",
        }
    }
}

/// The four little-endian bytes of `x`.
pub open spec fn u32_le(x: u32) -> Seq<u8> {
    seq![x as u8, (x >> 8u32) as u8, (x >> 16u32) as u8, (x >> 24u32) as u8]
}

/// The eight little-endian bytes of `x`.
pub open spec fn u64_le(x: u64) -> Seq<u8> {
    seq![
        x as u8,
        (x >> 8u64) as u8,
        (x >> 16u64) as u8,
        (x >> 24u64) as u8,
        (x >> 32u64) as u8,
        (x >> 40u64) as u8,
        (x >> 48u64) as u8,
        (x >> 56u64) as u8,
    ]
}

/// The eight little-endian bytes of `x` in two's complement.
pub open spec fn i64_le(x: i64) -> Seq<u8> {
    u64_le(x as u64)
}

/// The `u32` stored little-endian at `b[at..at + 4]`.
pub open spec fn read_u32(b: Seq<u8>, at: int) -> u32 {
    (b[at] as u32) | ((b[at + 1] as u32) << 8u32) | ((b[at + 2] as u32) << 16u32) | ((
    b[at + 3] as u32) << 24u32)
}

/// The `u64` stored little-endian at `b[at..at + 8]`.
pub open spec fn read_u64(b: Seq<u8>, at: int) -> u64 {
    (b[at] as u64) | ((b[at + 1] as u64) << 8u64) | ((b[at + 2] as u64) << 16u64) | ((
    b[at + 3] as u64) << 24u64) | ((b[at + 4] as u64) << 32u64) | ((b[at + 5] as u64)
        << 40u64) | ((b[at + 6] as u64) << 48u64) | ((b[at + 7] as u64) << 56u64)
}

/// The `i64` stored little-endian in two's complement at `b[at..at + 8]`.
pub open spec fn read_i64(b: Seq<u8>, at: int) -> i64 {
    read_u64(b, at) as i64
}

proof fn lemma_u32_bytes(x: u32, b0: u8, b1: u8, b2: u8, b3: u8)
    requires
        b0 == x as u8,
        b1 == (x >> 8u32) as u8,
        b2 == (x >> 16u32) as u8,
        b3 == (x >> 24u32) as u8,
    ensures
        (b0 as u32) | ((b1 as u32) << 8u32) | ((b2 as u32) << 16u32) | ((b3 as u32) << 24u32)
            == x,
{
    assert((b0 as u32) | ((b1 as u32) << 8u32) | ((b2 as u32) << 16u32) | ((b3 as u32)
        << 24u32) == x) by (bit_vector)
        requires
            b0 == x as u8,
            b1 == (x >> 8u32) as u8,
            b2 == (x >> 16u32) as u8,
            b3 == (x >> 24u32) as u8,
    ;
}

proof fn lemma_u64_bytes(x: u64, b: Seq<u8>)
    requires
        b == u64_le(x),
    ensures
        read_u64(b, 0) == x,
{
    let (b0, b1, b2, b3, b4, b5, b6, b7) = (b[0], b[1], b[2], b[3], b[4], b[5], b[6], b[7]);
    assert((b0 as u64) | ((b1 as u64) << 8u64) | ((b2 as u64) << 16u64) | ((b3 as u64)
        << 24u64) | ((b4 as u64) << 32u64) | ((b5 as u64) << 40u64) | ((b6 as u64) << 48u64)
        | ((b7 as u64) << 56u64) == x) by (bit_vector)
        requires
            b0 == x as u8,
            b1 == (x >> 8u64) as u8,
            b2 == (x >> 16u64) as u8,
            b3 == (x >> 24u64) as u8,
            b4 == (x >> 32u64) as u8,
            b5 == (x >> 40u64) as u8,
            b6 == (x >> 48u64) as u8,
            b7 == (x >> 56u64) as u8,
    ;
}

/// Reading back four bytes written by [`u32_le`] gives the number written.
pub proof fn lemma_read_u32(b: Seq<u8>, at: int, x: u32)
    requires
        0 <= at,
        at + 4 <= b.len(),
        b.subrange(at, at + 4) == u32_le(x),
    ensures
        read_u32(b, at) == x,
{
    let w = u32_le(x);
    assert(b[at] == w[0] && b[at + 1] == w[1] && b[at + 2] == w[2] && b[at + 3] == w[3]) by {
        assert(b.subrange(at, at + 4)[0] == b[at]);
        assert(b.subrange(at, at + 4)[1] == b[at + 1]);
        assert(b.subrange(at, at + 4)[2] == b[at + 2]);
        assert(b.subrange(at, at + 4)[3] == b[at + 3]);
    }
    lemma_u32_bytes(x, b[at], b[at + 1], b[at + 2], b[at + 3]);
}

/// Reading back eight bytes written by [`i64_le`] gives the number written.
pub proof fn lemma_read_i64(b: Seq<u8>, at: int, x: i64)
    requires
        0 <= at,
        at + 8 <= b.len(),
        b.subrange(at, at + 8) == i64_le(x),
    ensures
        read_i64(b, at) == x,
{
    let s = b.subrange(at, at + 8);
    lemma_u64_bytes(x as u64, s);
    assert forall|i: int| 0 <= i < 8 implies s[i] == b[at + i] by {}
    assert(read_u64(b, at) == read_u64(s, 0));
    let u = x as u64;
    assert((u as i64) == x) by (bit_vector)
        requires
            u == x as u64,
    ;
}

/// Appends the four little-endian bytes of `x`.
pub fn push_u32(v: &mut Vec<u8>, x: u32)
    ensures
        final(v)@ == old(v)@ + u32_le(x),
{
    v.push(x as u8);
    v.push((x >> 8u32) as u8);
    v.push((x >> 16u32) as u8);
    v.push((x >> 24u32) as u8);
    assert(final(v)@ =~= old(v)@ + u32_le(x));
}

/// Appends the eight little-endian bytes of `x` in two's complement.
pub fn push_i64(v: &mut Vec<u8>, x: i64)
    ensures
        final(v)@ == old(v)@ + i64_le(x),
{
    let u = x as u64;
    v.push(u as u8);
    v.push((u >> 8u64) as u8);
    v.push((u >> 16u64) as u8);
    v.push((u >> 24u64) as u8);
    v.push((u >> 32u64) as u8);
    v.push((u >> 40u64) as u8);
    v.push((u >> 48u64) as u8);
    v.push((u >> 56u64) as u8);
    assert(final(v)@ =~= old(v)@ + i64_le(x));
}

/// The `u32` stored little-endian at `b[at..at + 4]`.
pub fn get_u32(b: &Vec<u8>, at: usize) -> (r: u32)
    requires
        at + 4 <= b.len(),
    ensures
        r == read_u32(b@, at as int),
{
    (b[at] as u32) | ((b[at + 1] as u32) << 8u32) | ((b[at + 2] as u32) << 16u32) | ((b[at
        + 3] as u32) << 24u32)
}

/// The `i64` stored little-endian in two's complement at `b[at..at + 8]`.
pub fn get_i64(b: &Vec<u8>, at: usize) -> (r: i64)
    requires
        at + 8 <= b.len(),
    ensures
        r == read_i64(b@, at as int),
{
    let u = (b[at] as u64) | ((b[at + 1] as u64) << 8u64) | ((b[at + 2] as u64) << 16u64) | ((
    b[at + 3] as u64) << 24u64) | ((b[at + 4] as u64) << 32u64) | ((b[at + 5] as u64)
        << 40u64) | ((b[at + 6] as u64) << 48u64) | ((b[at + 7] as u64) << 56u64);
    #[verifier::truncate]
    (u as i64)
}

/// The encoded instructions of one function.
#[derive(Debug, PartialEq, Eq)]
pub struct BytecodeFn {
    /// The number of local slots; arguments occupy the first ones.
    pub locals: u32,
    pub bytes: Vec<u8>,
}

impl BytecodeFn {
    pub fn new() -> (r: BytecodeFn)
        ensures
            r.locals == 0,
            r.bytes@.len() == 0,
    {
        BytecodeFn { locals: 0, bytes: Vec::new() }
    }

    pub fn from(locals: u32, bytes: Vec<u8>) -> (r: BytecodeFn)
        ensures
            r.locals == locals,
            r.bytes@ == bytes@,
    {
        BytecodeFn { locals, bytes }
    }

    pub fn push_byte(&mut self, byte: u8)
        ensures
            final(self).locals == old(self).locals,
            final(self).bytes@ == old(self).bytes@.push(byte),
    {
        self.bytes.push(byte);
    }

    pub fn push_bytes(&mut self, bytes: &[u8])
        ensures
            final(self).locals == old(self).locals,
            final(self).bytes@ == old(self).bytes@ + bytes@,
    {
        let ghost start = self.bytes@;
        let mut i: usize = 0;
        while i < bytes.len()
            invariant
                i <= bytes@.len(),
                self.bytes@ == start + bytes@.subrange(0, i as int),
                self.locals == old(self).locals,
            decreases bytes@.len() - i,
        {
            self.bytes.push(bytes[i]);
            i = i + 1;
            assert(self.bytes@ =~= start + bytes@.subrange(0, i as int));
        }
        assert(bytes@.subrange(0, i as int) =~= bytes@);
    }

    pub fn bytes(&self) -> (r: &Vec<u8>)
        ensures
            r@ == self.bytes@,
    {
        &self.bytes
    }
}

/// A whole encoded program.
#[derive(Debug, PartialEq, Eq)]
pub struct Bytecode {
    /// The constant pool.
    pub consts: Vec<Value>,
    /// The functions; the first one is the entry unit.
    pub ifns: Vec<BytecodeFn>,
    /// The names of the native functions, by index.
    pub xfns: Vec<String>,
}

impl Bytecode {
    pub fn new() -> (r: Bytecode)
        ensures
            r.consts@.len() == 0,
            r.ifns@.len() == 0,
            r.xfns@.len() == 0,
    {
        Bytecode { consts: Vec::new(), ifns: Vec::new(), xfns: Vec::new() }
    }
}

/// What the machine reads of a program: the constant pool, each function as its locals
/// count and bytes, and the number of natives.
pub struct CodeModel {
    pub consts: Seq<Value>,
    pub fns: Seq<(u32, Seq<u8>)>,
    pub natives: nat,
}

/// The model of a bytecode program.
pub open spec fn code_model(b: Bytecode) -> CodeModel {
    CodeModel {
        consts: b.consts@,
        fns: b.ifns@.map_values(|f: BytecodeFn| (f.locals, f.bytes@)),
        natives: b.xfns@.len(),
    }
}

} // verus!
