use vstd::prelude::*;

use crate::builder::{
    consts_unique, lower, lower_seq, program_fns, str_views, AsmBuilder, BuildError, BuildState,
};
use crate::bytecode::{i64_le, lemma_read_i64, read_i64, CodeModel, PUSH_INTEGER, RETURN};
use crate::encoder::{
    encode_models, encode_prefix, encode_stats, first_error, jump_target, labels_resolved, offset_of,
    stats_error, BytecodeBuilder, EncodeError,
};
use crate::sexp::SExp;
use crate::value::Value;
use crate::ir::AsmStatement;
use crate::vm::{
    initial, lemma_outcome_without_natives, outcome, run_spec, step, unit_seq, FrameModel,
    NativeHost, Runner, RuntimeError, Step,
};

verus! {

/// Why an evaluation failed.
#[derive(Debug, Clone, PartialEq, Eq)]
pub enum Error {
    /// A malformed form, found while lowering.
    Build(BuildError),
    /// A function could not be encoded.
    Encode(EncodeError),
    /// The program faulted while it ran.
    Runtime(RuntimeError),
}

impl Error {
    /// The error for a form that could not be lowered.
    pub fn syntax(e: BuildError) -> (r: Error)
        ensures
            r == Error::Build(e),
    {
        Error::Build(e)
    }

    /// The error for a program that faulted.
    pub fn runtime(e: RuntimeError) -> (r: Error)
        ensures
            r == Error::Runtime(e),
    {
        Error::Runtime(e)
    }
}

/// The state in which lowering starts once natives named `natives` are registered in order.
pub open spec fn natives_state(natives: Seq<Seq<char>>) -> BuildState {
    BuildState {
        consts: Seq::new(natives.len(), |i: int| Value::NativeRef(i as u32)),
        fns: Seq::empty(),
        call_names: natives,
        call_slots: Seq::new(natives.len(), |i: int| i as u32),
        names: Seq::empty(),
        label: 1,
        code: Seq::empty(),
    }
}

/// The result of evaluating `forms` with natives named `natives`: lower, encode, then run
/// for at most `fuel` steps, where the `k`-th native call returns `answers[k]`.
pub open spec fn evaluate_spec(
    forms: Seq<SExp>,
    natives: Seq<Seq<char>>,
    fuel: nat,
    answers: Seq<Value>,
) -> Result<Value, Error> {
    if natives.len() >= u32::MAX {
        Err(Error::Build(BuildError::TooLarge))
    } else {
        match lower_seq(natives_state(natives), forms) {
            Err(x) => Err(Error::Build(x)),
            Ok(s) => {
                let fns = program_fns(s);
                match first_error(fns, fns.len() as int) {
                    Some(e) => Err(Error::Encode(e)),
                    None => match run_spec(
                        CodeModel { consts: s.consts, fns: encode_models(fns), natives: natives.len() },
                        fuel,
                        answers,
                    ) {
                        Ok(v) => Ok(v),
                        Err(e) => Err(Error::Runtime(e)),
                    },
                }
            },
        }
    }
}

/// Evaluates a sequence of top-level forms: natives named `natives` are registered in order
/// (native `k` is `host`'s function `k`), the forms are lowered, encoded and run. The
/// result is the value of the last form, or the first error of any stage.
pub fn evaluate<H: NativeHost>(forms: Vec<SExp>, natives: &Vec<String>, host: &mut H) -> (r:
    Result<Value, Error>)
    ensures
        exists|answers: Seq<Value>|
            r == evaluate_spec(forms@, str_views(natives@), u64::MAX as nat, answers),
{
    if natives.len() >= 0xffff_ffffusize {
        return Err(Error::syntax(BuildError::TooLarge));
    }
    let ghost fs = forms@;
    let mut b = AsmBuilder::new(forms);
    let mut i: usize = 0;
    while i < natives.len()
        invariant
            i <= natives@.len() < u32::MAX,
            b.wf(),
            b.ast@ == fs,
            b.program.ifns@.len() == 0,
            b.program.consts@ == Seq::new(i as nat, |k: int| Value::NativeRef(k as u32)),
            str_views(b.program.call_names@) == str_views(natives@.subrange(0, i as int)),
            b.program.call_slots@ == Seq::new(i as nat, |k: int| k as u32),
            b.xfns@.len() == i,
        decreases natives@.len() - i,
    {
        let ghost c0 = b.program.consts@;
        let ghost n0 = b.program.call_names@;
        let ghost s0 = b.program.call_slots@;
        match b.register_xfn(natives[i].clone()) {
            Ok(_) => {},
            Err(x) => {
                return Err(Error::syntax(x));
            },
        }
        i = i + 1;
        proof {
            assert(b.program.consts@ =~= Seq::new(i as nat, |k: int| Value::NativeRef(k as u32)));
            assert(b.program.call_slots@ =~= Seq::new(i as nat, |k: int| k as u32));
            let sub = natives@.subrange(0, i as int);
            let prev = natives@.subrange(0, i - 1);
            assert forall|k: int| 0 <= k < i implies #[trigger] str_views(b.program.call_names@)[k]
                == str_views(sub)[k] by {
                if k < i - 1 {
                    assert(prev[k] == sub[k]);
                    assert(str_views(n0)[k] == str_views(prev)[k]);
                }
            }
            assert(str_views(b.program.call_names@) =~= str_views(sub));
        }
    }
    proof {
        assert(natives@.subrange(0, i as int) =~= natives@);
        assert(crate::ir::fn_models(b.program.ifns@) =~= Seq::empty());
        assert(b.start_state() == natives_state(str_views(natives@)));
    }
    let a = match b.build() {
        Ok(a) => a,
        Err(x) => {
            return Err(Error::syntax(x));
        },
    };
    let bc = match BytecodeBuilder::new(a).build() {
        Ok(bc) => bc,
        Err(e) => {
            return Err(Error::Encode(e));
        },
    };
    let mut runner = Runner::new(bc);
    let r = match runner.run(host) {
        Ok(v) => Ok(v),
        Err(e) => Err(Error::runtime(e)),
    };
    assert(r == evaluate_spec(fs, str_views(natives@), u64::MAX as nat, runner.answers@));
    r
}

/// Two identical string literals of one program occupy one constant-pool slot: in a pool
/// that [`AsmBuilder::build`] returns, two string constants with the same characters are
/// the same slot.
pub proof fn lemma_one_slot_per_string(c: Seq<Value>, i: int, j: int)
    requires
        consts_unique(c),
        0 <= i < c.len(),
        0 <= j < c.len(),
        c[i] is Str,
        c[j] is Str,
        c[i]->Str_0@ == c[j]->Str_0@,
    ensures
        i == j,
{
    if i < j {
        assert(!crate::value::same_value(c[i], c[j]));
    } else if j < i {
        assert(!crate::value::same_value(c[j], c[i]));
    }
}


/// Evaluation keeps no state between calls: with no natives registered, evaluating the same
/// forms twice gives the same result, whatever a host would answer. (With natives, the result
/// is a function of the forms and of the answers that the host gives.)
pub proof fn lemma_evaluate_deterministic(
    forms: Seq<SExp>,
    fuel: nat,
    a1: Seq<Value>,
    a2: Seq<Value>,
)
    ensures
        evaluate_spec(forms, Seq::empty(), fuel, a1) == evaluate_spec(forms, Seq::empty(), fuel, a2),
{
    match lower_seq(natives_state(Seq::empty()), forms) {
        Ok(s) => {
            let fns = program_fns(s);
            let p = CodeModel { consts: s.consts, fns: encode_models(fns), natives: 0 };
            match initial(p) {
                Some(s0) => lemma_outcome_without_natives(p, s0, fuel, a1, a2),
                None => {},
            }
        },
        Err(_) => {},
    }
}

/// An integer literal on its own evaluates to that integer.
pub proof fn lemma_integer_literal(n: i64, fuel: nat, answers: Seq<Value>)
    requires
        fuel >= 2,
    ensures
        evaluate_spec(seq![SExp::I64(n)], Seq::empty(), fuel, answers) == Ok::<Value, Error>(
            Value::Integer(n),
        ),
{
    let forms = seq![SExp::I64(n)];
    let st0 = natives_state(Seq::empty());
    assert(forms.drop_last() =~= Seq::<SExp>::empty());
    let s = BuildState { code: st0.code.push(AsmStatement::PushInteger(n)), ..st0 };
    assert(lower_seq(st0, Seq::<SExp>::empty()) == Ok::<BuildState, BuildError>(st0));
    assert(forms.last() == SExp::I64(n));
    assert(lower(st0, SExp::I64(n)) == Ok::<BuildState, BuildError>(s));
    assert(lower_seq(st0, forms) == Ok::<BuildState, BuildError>(s));
    let stats = seq![AsmStatement::PushInteger(n), AsmStatement::Return];
    assert(s.code.push(AsmStatement::Return) =~= stats);
    let fns = program_fns(s);
    assert(fns =~= seq![(0u32, stats)]);
    assert(offset_of(stats, 0) == 0);
    assert(offset_of(stats, 1) == 9);
    assert(offset_of(stats, 2) == 10);
    assert forall|k: int| 0 <= k < stats.len() implies (#[trigger] jump_target(stats[k]) matches Some(
        l,
    ) ==> crate::encoder::label_index(stats, l) is Some) by {}
    assert(labels_resolved(stats));
    assert(stats_error(stats) is None);
    assert(fns[0].1 == stats);
    assert(first_error(fns, 0) is None);
    assert(first_error(fns, 1) is None);
    let code = encode_stats(stats);
    assert(encode_prefix(stats, 0) =~= Seq::<u8>::empty());
    assert(encode_prefix(stats, 1) =~= seq![PUSH_INTEGER] + i64_le(n));
    assert(encode_prefix(stats, 2) =~= seq![PUSH_INTEGER] + i64_le(n) + seq![RETURN]);
    assert(code =~= seq![PUSH_INTEGER] + i64_le(n) + seq![RETURN]);
    assert(code.len() == 10);
    assert(code.subrange(1, 9) =~= i64_le(n));
    lemma_read_i64(code, 1, n);
    let p = CodeModel { consts: s.consts, fns: encode_models(fns), natives: 0 };
    assert(p.fns =~= seq![(0u32, code)]);
    let f0 = FrameModel { func: 0, pc: 0, stack: Seq::empty(), locals: unit_seq(0) };
    assert(initial(p) == Some(seq![f0]));
    let f1 = FrameModel { func: 0, pc: 9, stack: seq![Value::Integer(n)], locals: unit_seq(0) };
    assert(code[0] == PUSH_INTEGER);
    assert(seq![f0].drop_last() =~= Seq::<FrameModel>::empty());
    assert(Seq::<Value>::empty().push(Value::Integer(read_i64(code, 1))) =~= seq![Value::Integer(n)]);
    assert(Seq::<FrameModel>::empty().push(f1) =~= seq![f1]);
    assert(step(p, seq![f0]) == Step::Next(seq![f1]));
    assert(code[9] == RETURN);
    assert(seq![f1].drop_last() =~= Seq::<FrameModel>::empty());
    assert(step(p, seq![f1]) == Step::Done(Value::Integer(n)));
    assert(outcome(p, seq![f1], (fuel - 1) as nat, answers) == Ok::<Value, RuntimeError>(
        Value::Integer(n),
    ));
    assert(outcome(p, seq![f0], fuel, answers) == Ok::<Value, RuntimeError>(Value::Integer(n)));
}

} // verus!
