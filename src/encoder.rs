use vstd::prelude::*;

use crate::bytecode::{
    i64_le, lemma_read_u32, op_of_kind, push_i64, push_u32, read_u32, u32_le, Bytecode,
    BytecodeFn, CodeModel, code_model, Op, ADD, CALL, DIV, EQ, GE, GT, JUMP, JUMP_IF_FALSE, LE, LOAD, LT, MUL, NE,
    PUSH_CONSTANT, PUSH_INTEGER, RETURN, STORE, SUB,
};
use crate::ir::{fn_models, Asm, AsmFn, AsmLabel, AsmStatement};

verus! {

/// Why a program of the intermediate representation could not be encoded.
#[derive(Debug, Clone, Copy, PartialEq, Eq, Structural)]
pub enum EncodeError {
    /// A jump names a label that its function does not hold.
    UndefinedLabel,
    /// A function's bytes would not be addressable by a `u32` offset.
    TooLarge,
}

/// The number of bytes that a statement encodes to.
pub open spec fn stat_len(s: AsmStatement) -> nat {
    match op_of_kind(s.spec_kind()) {
        Some(op) => op.spec_len(),
        None => 0,
    }
}

/// The byte offset at which statement `k` of `stats` starts.
pub open spec fn offset_of(stats: Seq<AsmStatement>, k: int) -> nat
    decreases k,
{
    if k <= 0 {
        0
    } else {
        offset_of(stats, k - 1) + stat_len(stats[k - 1])
    }
}

/// The index of the last `Label(l)` among the first `n` statements.
pub open spec fn label_index_in(stats: Seq<AsmStatement>, l: AsmLabel, n: int) -> Option<int>
    decreases n,
{
    if n <= 0 {
        None
    } else if stats[n - 1] == AsmStatement::Label(l) {
        Some(n - 1)
    } else {
        label_index_in(stats, l, n - 1)
    }
}

/// The index of the statement that defines label `l`: the last `Label(l)`.
pub open spec fn label_index(stats: Seq<AsmStatement>, l: AsmLabel) -> Option<int> {
    label_index_in(stats, l, stats.len() as int)
}

/// The label that a statement jumps to, if it is a jump.
pub open spec fn jump_target(s: AsmStatement) -> Option<AsmLabel> {
    match s {
        AsmStatement::Jump(l) => Some(l),
        AsmStatement::JumpIfFalse(l) => Some(l),
        _ => None,
    }
}

/// Every jump names a label that the function holds.
pub open spec fn labels_resolved(stats: Seq<AsmStatement>) -> bool {
    forall|k: int|
        0 <= k < stats.len() ==> (#[trigger] jump_target(stats[k]) matches Some(l)
            ==> label_index(stats, l) is Some)
}

/// The byte offset that a jump to `l` is encoded with.
pub open spec fn target_offset(stats: Seq<AsmStatement>, l: AsmLabel) -> u32 {
    match label_index(stats, l) {
        Some(k) => offset_of(stats, k) as u32,
        None => 0,
    }
}

/// The bytes of one statement of `stats`.
pub open spec fn encode_stat(stats: Seq<AsmStatement>, s: AsmStatement) -> Seq<u8> {
    match s {
        AsmStatement::Label(_) => Seq::empty(),
        AsmStatement::Return => seq![RETURN],
        AsmStatement::PushInteger(n) => seq![PUSH_INTEGER] + i64_le(n),
        AsmStatement::PushConstant(i) => seq![PUSH_CONSTANT] + u32_le(i),
        AsmStatement::Load(i) => seq![LOAD] + u32_le(i),
        AsmStatement::Store(i) => seq![STORE] + u32_le(i),
        AsmStatement::Add => seq![ADD],
        AsmStatement::Sub => seq![SUB],
        AsmStatement::Mul => seq![MUL],
        AsmStatement::Div => seq![DIV],
        AsmStatement::Eq => seq![EQ],
        AsmStatement::Ne => seq![NE],
        AsmStatement::Lt => seq![LT],
        AsmStatement::Le => seq![LE],
        AsmStatement::Gt => seq![GT],
        AsmStatement::Ge => seq![GE],
        AsmStatement::Jump(l) => seq![JUMP] + u32_le(target_offset(stats, l)),
        AsmStatement::JumpIfFalse(l) => seq![JUMP_IF_FALSE] + u32_le(target_offset(stats, l)),
        AsmStatement::Call(n) => seq![CALL] + u32_le(n),
    }
}

/// The bytes of the first `k` statements of `stats`.
pub open spec fn encode_prefix(stats: Seq<AsmStatement>, k: int) -> Seq<u8>
    decreases k,
{
    if k <= 0 {
        Seq::empty()
    } else {
        encode_prefix(stats, k - 1) + encode_stat(stats, stats[k - 1])
    }
}

/// The bytes of a whole function body.
pub open spec fn encode_stats(stats: Seq<AsmStatement>) -> Seq<u8> {
    encode_prefix(stats, stats.len() as int)
}

/// Why a function body cannot be encoded, if it cannot.
pub open spec fn stats_error(stats: Seq<AsmStatement>) -> Option<EncodeError> {
    if offset_of(stats, stats.len() as int) > u32::MAX {
        Some(EncodeError::TooLarge)
    } else if !labels_resolved(stats) {
        Some(EncodeError::UndefinedLabel)
    } else {
        None
    }
}

/// The first error among the first `n` functions, if any.
pub open spec fn first_error(fns: Seq<(u32, Seq<AsmStatement>)>, n: int) -> Option<EncodeError>
    decreases n,
{
    if n <= 0 {
        None
    } else {
        match first_error(fns, n - 1) {
            Some(e) => Some(e),
            None => stats_error(fns[n - 1].1),
        }
    }
}

/// Each function with its statements encoded.
pub open spec fn encode_models(fns: Seq<(u32, Seq<AsmStatement>)>) -> Seq<(u32, Seq<u8>)> {
    fns.map_values(|f: (u32, Seq<AsmStatement>)| (f.0, encode_stats(f.1)))
}

/// `b` is the encoding of `f`.
pub open spec fn encodes(f: AsmFn, b: BytecodeFn) -> bool {
    &&& b.locals == f.locals
    &&& b.bytes@ == encode_stats(f.statements@)
}

pub proof fn lemma_encode_stat_len(stats: Seq<AsmStatement>, s: AsmStatement)
    ensures
        encode_stat(stats, s).len() == stat_len(s),
{
}

pub proof fn lemma_encode_prefix_len(stats: Seq<AsmStatement>, k: int)
    requires
        0 <= k <= stats.len(),
    ensures
        encode_prefix(stats, k).len() == offset_of(stats, k),
    decreases k,
{
    if k > 0 {
        lemma_encode_prefix_len(stats, k - 1);
        lemma_encode_stat_len(stats, stats[k - 1]);
    }
}

pub proof fn lemma_offset_monotonic(stats: Seq<AsmStatement>, i: int, j: int)
    requires
        i <= j,
    ensures
        offset_of(stats, i) <= offset_of(stats, j),
    decreases j - i,
{
    if i < j {
        lemma_offset_monotonic(stats, i, j - 1);
    }
}

/// Statement `k` occupies exactly `offset_of(k)..offset_of(k + 1)` of the encoding.
pub proof fn lemma_encode_slice(stats: Seq<AsmStatement>, n: int, k: int)
    requires
        0 <= k < n <= stats.len(),
    ensures
        encode_prefix(stats, n).subrange(offset_of(stats, k) as int, offset_of(stats, k + 1) as int)
            == encode_stat(stats, stats[k]),
    decreases n,
{
    lemma_encode_prefix_len(stats, n - 1);
    lemma_encode_prefix_len(stats, k);
    lemma_encode_stat_len(stats, stats[k]);
    let p = encode_prefix(stats, n - 1);
    let s = encode_stat(stats, stats[n - 1]);
    if k < n - 1 {
        lemma_encode_slice(stats, n - 1, k);
        lemma_offset_monotonic(stats, k + 1, n - 1);
        assert((p + s).subrange(offset_of(stats, k) as int, offset_of(stats, k + 1) as int)
            =~= p.subrange(offset_of(stats, k) as int, offset_of(stats, k + 1) as int));
    } else {
        assert((p + s).subrange(offset_of(stats, k) as int, offset_of(stats, k + 1) as int)
            =~= s);
    }
}

/// Every jump of an encoded function carries, as its operand, the byte position at which
/// its target label stands.
pub proof fn lemma_jump_offsets(stats: Seq<AsmStatement>, k: int)
    requires
        stats_error(stats) is None,
        0 <= k < stats.len(),
        jump_target(stats[k]) is Some,
    ensures
        ({
            let l = jump_target(stats[k])->Some_0;
            let b = encode_stats(stats);
            &&& label_index(stats, l) is Some
            &&& stats[label_index(stats, l)->Some_0] == AsmStatement::Label(l)
            &&& read_u32(b, offset_of(stats, k) + 1int) == offset_of(stats, label_index(stats, l)->Some_0)
            &&& b[offset_of(stats, k) as int] == (if stats[k] is Jump { JUMP } else { JUMP_IF_FALSE })
        }),
{
    let l = jump_target(stats[k])->Some_0;
    let n = stats.len() as int;
    assert(jump_target(stats[k]) matches Some(l) ==> label_index(stats, l) is Some);
    let j = label_index(stats, l)->Some_0;
    lemma_label_index_range(stats, l, n);
    lemma_offset_monotonic(stats, j, n);
    lemma_offset_monotonic(stats, k + 1, n);
    lemma_encode_slice(stats, n, k);
    lemma_encode_prefix_len(stats, n);
    let b = encode_stats(stats);
    let at = offset_of(stats, k) as int;
    let piece = b.subrange(at, at + 5);
    assert(piece == encode_stat(stats, stats[k]));
    assert(b.subrange(at + 1, at + 5) =~= piece.subrange(1, 5));
    assert(piece.subrange(1, 5) =~= u32_le(target_offset(stats, l)));
    lemma_read_u32(b, at + 1, target_offset(stats, l));
    assert(b[at] == piece[0]);
}

pub proof fn lemma_label_index_range(stats: Seq<AsmStatement>, l: AsmLabel, n: int)
    ensures
        label_index_in(stats, l, n) matches Some(j) ==> 0 <= j < n && stats[j]
            == AsmStatement::Label(l),
    decreases n,
{
    if n > 0 {
        lemma_label_index_range(stats, l, n - 1);
    }
}

/// The index of the statement that defines `l`, as [`label_index`] says.
fn find_label(stats: &Vec<AsmStatement>, l: AsmLabel) -> (r: Option<usize>)
    ensures
        r matches Some(k) ==> label_index(stats@, l) == Some(k as int),
        r is None ==> label_index(stats@, l) is None,
{
    let mut i = stats.len();
    while i > 0
        invariant
            i <= stats@.len(),
            label_index(stats@, l) == label_index_in(stats@, l, i as int),
        decreases i,
    {
        if stats[i - 1] == AsmStatement::Label(l) {
            return Some(i - 1);
        }
        i = i - 1;
    }
    None
}

/// Encodes one function: a first pass computes the byte offset of every statement, a
/// second emits the bytes with every label resolved to its offset.
pub fn encode_fn(f: &AsmFn) -> (r: Result<BytecodeFn, EncodeError>)
    ensures
        r matches Ok(b) ==> stats_error(f.statements@) is None && encodes(*f, b),
        r matches Err(e) ==> stats_error(f.statements@) == Some(e),
{
    let n = f.statements.len();
    let mut offs: Vec<u32> = Vec::new();
    let mut cur: u64 = 0;
    let mut k: usize = 0;
    offs.push(0);
    while k < n
        invariant
            n == f.statements@.len(),
            k <= n,
            offs@.len() == k + 1,
            cur == offset_of(f.statements@, k as int),
            cur <= u32::MAX,
            forall|i: int| 0 <= i <= k ==> offs@[i] == offset_of(f.statements@, i),
        decreases n - k,
    {
        let len: u64 = match Op::from_asm_stat_kind(f.statements[k].kind()) {
            Some(op) => op.op_len() as u64,
            None => 0,
        };
        cur = cur + len;
        if cur > 0xffff_ffffu64 {
            proof {
                assert(cur == offset_of(f.statements@, k as int + 1));
                lemma_offset_monotonic(f.statements@, k as int + 1, n as int);
                assert(stats_error(f.statements@) == Some(EncodeError::TooLarge));
            }

            return Err(EncodeError::TooLarge);
        }
        offs.push(cur as u32);
        k = k + 1;
    }
    let mut out = BytecodeFn::new();
    out.locals = f.locals;
    let mut k: usize = 0;
    while k < n
        invariant
            n == f.statements@.len(),
            k <= n,
            offs@.len() == n + 1,
            forall|i: int| 0 <= i <= n ==> offs@[i] == offset_of(f.statements@, i),
            offset_of(f.statements@, n as int) <= u32::MAX,
            out.locals == f.locals,
            out.bytes@ == encode_prefix(f.statements@, k as int),
            forall|i: int|
                0 <= i < k ==> (#[trigger] jump_target(f.statements@[i]) matches Some(l) ==> label_index(
                    f.statements@,
                    l,
                ) is Some),
        decreases n - k,
    {
        let s = f.statements[k];
        match s {
            AsmStatement::Label(_) => {},
            AsmStatement::Return => out.push_byte(RETURN),
            AsmStatement::PushInteger(v) => {
                out.push_byte(PUSH_INTEGER);
                push_i64(&mut out.bytes, v);
            },
            AsmStatement::PushConstant(i) => {
                out.push_byte(PUSH_CONSTANT);
                push_u32(&mut out.bytes, i);
            },
            AsmStatement::Load(i) => {
                out.push_byte(LOAD);
                push_u32(&mut out.bytes, i);
            },
            AsmStatement::Store(i) => {
                out.push_byte(STORE);
                push_u32(&mut out.bytes, i);
            },
            AsmStatement::Add => out.push_byte(ADD),
            AsmStatement::Sub => out.push_byte(SUB),
            AsmStatement::Mul => out.push_byte(MUL),
            AsmStatement::Div => out.push_byte(DIV),
            AsmStatement::Eq => out.push_byte(EQ),
            AsmStatement::Ne => out.push_byte(NE),
            AsmStatement::Lt => out.push_byte(LT),
            AsmStatement::Le => out.push_byte(LE),
            AsmStatement::Gt => out.push_byte(GT),
            AsmStatement::Ge => out.push_byte(GE),
            AsmStatement::Jump(l) | AsmStatement::JumpIfFalse(l) => {
                match find_label(&f.statements, l) {
                    Some(j) => {
                        proof {
                            lemma_label_index_range(f.statements@, l, n as int);
                        }
                        out.push_byte(if matches!(s, AsmStatement::Jump(_)) { JUMP } else { JUMP_IF_FALSE });
                        push_u32(&mut out.bytes, offs[j]);
                    },
                    None => {
                        assert(jump_target(f.statements@[k as int]) == Some(l));
                        assert(!labels_resolved(f.statements@));
                        return Err(EncodeError::UndefinedLabel);
                    },
                }
            },
            AsmStatement::Call(i) => {
                out.push_byte(CALL);
                push_u32(&mut out.bytes, i);
            },
        }
        assert(out.bytes@ =~= encode_prefix(f.statements@, k as int + 1));
        k = k + 1;
    }
    Ok(out)
}

/// Translates a whole program of the intermediate representation into bytecode.
pub struct BytecodeBuilder {
    pub program: Asm,
}

impl BytecodeBuilder {
    pub open spec fn source(&self) -> Asm {
        self.program
    }

    pub fn new(program: Asm) -> (r: BytecodeBuilder)
        ensures
            r.source() == program,
    {
        BytecodeBuilder { program }
    }

    /// Encodes every function; the constant pool and the native table are carried over. Fails
    /// with the error of the first function that cannot be encoded.
    pub fn build(self) -> (r: Result<Bytecode, EncodeError>)
        ensures
            ({
                let src = self.source();
                let fs = fn_models(src.ifns@);
                match first_error(fs, fs.len() as int) {
                    Some(e) => r == Err::<Bytecode, EncodeError>(e),
                    None => r matches Ok(b) && b.xfns@ == src.xfns@ && code_model(b) == CodeModel {
                        consts: src.consts@,
                        fns: encode_models(fs),
                        natives: src.xfns@.len(),
                    },
                }
            }),
    {
        let Asm { consts, ifns, xfns } = self.program;
        let ghost fs = fn_models(ifns@);
        let mut out: Vec<BytecodeFn> = Vec::new();
        let mut i: usize = 0;
        while i < ifns.len()
            invariant
                i <= ifns@.len(),
                ifns@ == self.source().ifns@,
                fs == fn_models(ifns@),
                out@.len() == i,
                first_error(fs, i as int) is None,
                forall|j: int| 0 <= j < i ==> encodes(#[trigger] ifns@[j], out@[j]),
            decreases ifns@.len() - i,
        {
            match encode_fn(&ifns[i]) {
                Ok(b) => out.push(b),
                Err(e) => {
                    proof {
                        lemma_first_error_stable(fs, i as int + 1, fs.len() as int);
                    }
                    return Err(e);
                },
            }
            i = i + 1;
        }
        let r = Bytecode { consts, ifns: out, xfns };
        proof {
            assert(code_model(r).fns =~= encode_models(fs));
        }
        Ok(r)
    }
}

proof fn lemma_first_error_stable(fns: Seq<(u32, Seq<AsmStatement>)>, m: int, n: int)
    requires
        m <= n,
        first_error(fns, m) is Some,
    ensures
        first_error(fns, n) == first_error(fns, m),
    decreases n - m,
{
    if m < n {
        lemma_first_error_stable(fns, m, n - 1);
    }
}

} // verus!
