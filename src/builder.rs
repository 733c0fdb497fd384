use vstd::prelude::*;

use crate::ir::{fn_models, Asm, AsmFn, AsmLabel, AsmStatement};
use crate::sexp::{SExp, SExpKind};
use crate::value::{same_value, Value};

verus! {

/// Why a sequence of S-expressions could not be lowered to the intermediate representation.
#[derive(Debug, Clone, PartialEq, Eq)]
pub enum BuildError {
    /// The form `()`.
    EmptyList,
    /// A list whose first element is not a symbol but of this kind.
    BadHead(SExpKind),
    /// The form with this head symbol has the wrong number of operands.
    Arity(String),
    /// The form with this head symbol has a non-symbol where a name is required.
    NotAName(String),
    /// The definition of the function with this name has no parameter array.
    NotAParamList(String),
    /// A symbol that names no local, function or native.
    UnknownName(String),
    /// A parameter array used as a value.
    UnexpectedArray,
    /// A count (constants, functions, locals, labels, arguments) does not fit in a `u32`.
    TooLarge,
}

/// What a list's head symbol makes of the list.
pub enum Form {
    /// A variadic arithmetic operator with its binary instruction.
    Arith(AsmStatement),
    /// A binary comparison with its instruction.
    Compare(AsmStatement),
    Let,
    If,
    Fn,
    /// A call of a declared function or native.
    Call,
}

/// The form that a head symbol names: the closed operator table first, a call otherwise.
pub open spec fn form_of(s: Seq<char>) -> Form {
    if s == seq!['+'] {
        Form::Arith(AsmStatement::Add)
    } else if s == seq!['-'] {
        Form::Arith(AsmStatement::Sub)
    } else if s == seq!['*'] {
        Form::Arith(AsmStatement::Mul)
    } else if s == seq!['/'] {
        Form::Arith(AsmStatement::Div)
    } else if s == seq!['=', '='] {
        Form::Compare(AsmStatement::Eq)
    } else if s == seq!['!', '='] {
        Form::Compare(AsmStatement::Ne)
    } else if s == seq!['<'] {
        Form::Compare(AsmStatement::Lt)
    } else if s == seq!['<', '='] {
        Form::Compare(AsmStatement::Le)
    } else if s == seq!['>'] {
        Form::Compare(AsmStatement::Gt)
    } else if s == seq!['>', '='] {
        Form::Compare(AsmStatement::Ge)
    } else if s == seq!['l', 'e', 't'] {
        Form::Let
    } else if s == seq!['i', 'f'] {
        Form::If
    } else if s == seq!['f', 'n'] {
        Form::Fn
    } else {
        Form::Call
    }
}

/// The state of lowering: the program-wide parts (constant pool, nested functions, call
/// table) and the parts of the function being compiled (local names by slot, next label,
/// statements so far).
pub struct BuildState {
    pub consts: Seq<Value>,
    /// Function `k + 1` of the program, as its locals count and statements.
    pub fns: Seq<(u32, Seq<AsmStatement>)>,
    /// The call table: name `call_names[k]` calls constant `call_slots[k]`.
    pub call_names: Seq<Seq<char>>,
    pub call_slots: Seq<u32>,
    /// Local slot `k` is named `names[k]`.
    pub names: Seq<Seq<char>>,
    pub label: u32,
    pub code: Seq<AsmStatement>,
}

pub open spec fn emit(st: BuildState, s: AsmStatement) -> BuildState {
    BuildState { code: st.code.push(s), ..st }
}

/// The last index among the first `n` names that equals `s`.
pub open spec fn last_index_in(names: Seq<Seq<char>>, s: Seq<char>, n: int) -> Option<int>
    decreases n,
{
    if n <= 0 {
        None
    } else if names[n - 1] == s {
        Some(n - 1)
    } else {
        last_index_in(names, s, n - 1)
    }
}

/// The slot of a local name; a name bound twice (a repeated parameter) means its last slot.
pub open spec fn local_slot(names: Seq<Seq<char>>, s: Seq<char>) -> Option<int> {
    last_index_in(names, s, names.len() as int)
}

/// The constant that a call of `s` pushes; a later declaration hides an earlier one.
pub open spec fn call_index(st: BuildState, s: Seq<char>) -> Option<u32> {
    match last_index_in(st.call_names, s, st.call_names.len() as int) {
        Some(k) => Some(st.call_slots[k]),
        None => None,
    }
}

/// The index of the first constant among the first `n` that is the same as `v`.
pub open spec fn const_index_in(consts: Seq<Value>, v: Value, n: int) -> Option<int>
    decreases n,
{
    if n <= 0 {
        None
    } else {
        match const_index_in(consts, v, n - 1) {
            Some(k) => Some(k),
            None => if same_value(consts[n - 1], v) {
                Some(n - 1)
            } else {
                None
            },
        }
    }
}

/// Puts `v` into the pool `c` unless the same value is there already; gives its index.
pub open spec fn intern_consts(c: Seq<Value>, v: Value) -> Result<(Seq<Value>, u32), BuildError> {
    match const_index_in(c, v, c.len() as int) {
        Some(k) => Ok((c, k as u32)),
        None => if c.len() >= u32::MAX {
            Err(BuildError::TooLarge)
        } else {
            Ok((c.push(v), c.len() as u32))
        },
    }
}

/// Puts `v` into the constant pool unless the same value is there already; gives its index.
pub open spec fn intern(st: BuildState, v: Value) -> Result<(BuildState, u32), BuildError> {
    match intern_consts(st.consts, v) {
        Ok((c, k)) => Ok((BuildState { consts: c, ..st }, k)),
        Err(x) => Err(x),
    }
}

/// Every element is a symbol.
pub open spec fn all_syms(ps: Seq<SExp>) -> bool {
    forall|i: int| 0 <= i < ps.len() ==> ps[i] is Sym
}

/// The names of a sequence of symbols.
pub open spec fn sym_names(ps: Seq<SExp>) -> Seq<Seq<char>> {
    ps.map_values(|p: SExp| p->Sym_0@)
}

/// Lowers one expression, appending its statements to the current function.
pub open spec fn lower(st: BuildState, e: SExp) -> Result<BuildState, BuildError>
    decreases e,
{
    match e {
        SExp::I64(n) => Ok(emit(st, AsmStatement::PushInteger(n))),
        SExp::Str(s) => match intern(st, Value::Str(s)) {
            Ok((s1, k)) => Ok(emit(s1, AsmStatement::PushConstant(k))),
            Err(x) => Err(x),
        },
        SExp::Sym(s) => match local_slot(st.names, s@) {
            Some(k) => Ok(emit(st, AsmStatement::Load(k as u32))),
            None => Err(BuildError::UnknownName(s)),
        },
        SExp::Array(_) => Err(BuildError::UnexpectedArray),
        SExp::List(items) => lower_list(st, items@),
    }
}

/// Lowers the expressions in order.
pub open spec fn lower_seq(st: BuildState, es: Seq<SExp>) -> Result<BuildState, BuildError>
    decreases es,
{
    if es.len() == 0 {
        Ok(st)
    } else {
        match lower_seq(st, es.drop_last()) {
            Ok(s1) => lower(s1, es.last()),
            Err(x) => Err(x),
        }
    }
}

/// Lowers the operands of a variadic operator: the first, then each further one followed by
/// the binary instruction `op` (a left-to-right fold).
pub open spec fn lower_fold(st: BuildState, op: AsmStatement, es: Seq<SExp>) -> Result<
    BuildState,
    BuildError,
>
    decreases es,
{
    if es.len() == 0 {
        Ok(st)
    } else if es.len() == 1 {
        lower(st, es[0])
    } else {
        match lower_fold(st, op, es.drop_last()) {
            Ok(s1) => match lower(s1, es.last()) {
                Ok(s2) => Ok(emit(s2, op)),
                Err(x) => Err(x),
            },
            Err(x) => Err(x),
        }
    }
}

/// Lowers a list form whose elements are `items`.
pub open spec fn lower_list(st: BuildState, items: Seq<SExp>) -> Result<BuildState, BuildError>
    decreases items,
{
    let n = items.len() as int;
    if n == 0 {
        Err(BuildError::EmptyList)
    } else {
        match items[0] {
            SExp::Sym(h) => match form_of(h@) {
                Form::Arith(op) => if n < 2 {
                    Err(BuildError::Arity(h))
                } else {
                    lower_fold(st, op, items.subrange(1, n))
                },
                Form::Compare(op) => if n != 3 {
                    Err(BuildError::Arity(h))
                } else {
                    match lower(st, items[1]) {
                        Ok(s1) => match lower(s1, items[2]) {
                            Ok(s2) => Ok(emit(s2, op)),
                            Err(x) => Err(x),
                        },
                        Err(x) => Err(x),
                    }
                },
                Form::Let => if n != 3 {
                    Err(BuildError::Arity(h))
                } else {
                    match items[1] {
                        SExp::Sym(name) => {
                            let found = local_slot(st.names, name@);
                            if found is None && st.names.len() >= u32::MAX {
                                Err(BuildError::TooLarge)
                            } else {
                                let slot = match found {
                                    Some(k) => k,
                                    None => st.names.len() as int,
                                };
                                let s1 = if found is None {
                                    BuildState { names: st.names.push(name@), ..st }
                                } else {
                                    st
                                };
                                match lower(s1, items[2]) {
                                    Ok(s2) => Ok(emit(s2, AsmStatement::Store(slot as u32))),
                                    Err(x) => Err(x),
                                }
                            }
                        },
                        _ => Err(BuildError::NotAName(h)),
                    }
                },
                Form::If => if n != 3 && n != 4 {
                    Err(BuildError::Arity(h))
                } else {
                    match lower(st, items[1]) {
                        Ok(s1) => if s1.label > u32::MAX - 2 {
                            Err(BuildError::TooLarge)
                        } else {
                            let lf = AsmLabel { id: s1.label };
                            let le = AsmLabel { id: (s1.label + 1) as u32 };
                            let s2 = emit(
                                BuildState { label: (s1.label + 2) as u32, ..s1 },
                                AsmStatement::JumpIfFalse(lf),
                            );
                            match lower(s2, items[2]) {
                                Ok(s3) => {
                                    let s4 = emit(
                                        emit(s3, AsmStatement::Jump(le)),
                                        AsmStatement::Label(lf),
                                    );
                                    let s5 = if n == 4 {
                                        lower(s4, items[3])
                                    } else {
                                        match intern(s4, Value::Unit) {
                                            Ok((s, k)) => Ok(emit(s, AsmStatement::PushConstant(k))),
                                            Err(x) => Err(x),
                                        }
                                    };
                                    match s5 {
                                        Ok(s6) => Ok(emit(s6, AsmStatement::Label(le))),
                                        Err(x) => Err(x),
                                    }
                                },
                                Err(x) => Err(x),
                            }
                        },
                        Err(x) => Err(x),
                    }
                },
                Form::Fn => if n < 3 {
                    Err(BuildError::Arity(h))
                } else {
                    match items[1] {
                        SExp::Sym(name) => match items[2] {
                            SExp::Array(ps) => if !all_syms(ps@) {
                                Err(BuildError::NotAName(h))
                            } else if ps@.len() > u32::MAX || st.consts.len() >= u32::MAX
                                || st.fns.len() + 1 >= u32::MAX {
                                Err(BuildError::TooLarge)
                            } else {
                                let idx = st.fns.len() + 1;
                                let s1 = BuildState {
                                    consts: st.consts.push(Value::FunctionRef(idx as u32)),
                                    fns: st.fns.push((0u32, Seq::empty())),
                                    call_names: st.call_names.push(name@),
                                    call_slots: st.call_slots.push(st.consts.len() as u32),
                                    names: sym_names(ps@),
                                    label: 1,
                                    code: Seq::empty(),
                                };
                                match lower_seq(s1, items.subrange(3, n)) {
                                    Ok(s2) => Ok(
                                        BuildState {
                                            consts: s2.consts,
                                            fns: s2.fns.update(
                                                idx - 1,
                                                (
                                                    s2.names.len() as u32,
                                                    s2.code.push(AsmStatement::Return),
                                                ),
                                            ),
                                            call_names: s2.call_names,
                                            call_slots: s2.call_slots,
                                            names: st.names,
                                            label: st.label,
                                            code: st.code,
                                        },
                                    ),
                                    Err(x) => Err(x),
                                }
                            },
                            _ => Err(BuildError::NotAParamList(name)),
                        },
                        _ => Err(BuildError::NotAName(h)),
                    }
                },
                Form::Call => match call_index(st, h@) {
                    None => Err(BuildError::UnknownName(h)),
                    Some(ci) => if n - 1 > u32::MAX {
                        Err(BuildError::TooLarge)
                    } else {
                        match lower_seq(
                            emit(st, AsmStatement::PushConstant(ci)),
                            items.subrange(1, n),
                        ) {
                            Ok(s1) => Ok(emit(s1, AsmStatement::Call((n - 1) as u32))),
                            Err(x) => Err(x),
                        }
                    },
                },
            },
            other => Err(BuildError::BadHead(other.spec_kind())),
        }
    }
}


/// The characters of each string.
pub open spec fn str_views(v: Seq<String>) -> Seq<Seq<char>> {
    v.map_values(|s: String| s@)
}

/// No string or unit constant stands twice in the pool.
pub open spec fn consts_unique(c: Seq<Value>) -> bool {
    forall|i: int, j: int|
        0 <= i < j < c.len() && (c[i] is Str || c[i] is Unit) ==> !same_value(
            #[trigger] c[i],
            #[trigger] c[j],
        )
}

/// The program-wide part of the builder: constant pool, nested functions, call table.
pub struct ProgramState {
    pub consts: Vec<Value>,
    /// Function `k + 1` of the program.
    pub ifns: Vec<AsmFn>,
    pub call_names: Vec<String>,
    pub call_slots: Vec<u32>,
}

/// The part of the builder that belongs to the function being compiled.
pub struct AsmFnBuilder {
    /// Local slot `k` is named `names[k]`.
    pub names: Vec<String>,
    /// The next fresh label.
    pub label: u32,
    pub code: Vec<AsmStatement>,
}

impl ProgramState {
    pub open spec fn state(&self, f: AsmFnBuilder) -> BuildState {
        BuildState {
            consts: self.consts@,
            fns: fn_models(self.ifns@),
            call_names: str_views(self.call_names@),
            call_slots: self.call_slots@,
            names: str_views(f.names@),
            label: f.label,
            code: f.code@,
        }
    }

    pub open spec fn wf(&self) -> bool {
        &&& self.call_names@.len() == self.call_slots@.len()
        &&& self.consts@.len() <= u32::MAX
        &&& consts_unique(self.consts@)
    }
}

pub open spec fn fn_wf(f: AsmFnBuilder) -> bool {
    f.names@.len() <= u32::MAX
}

/// The last index of `s` in `names`, as [`last_index_in`] says.
fn find_name(names: &Vec<String>, s: &String) -> (r: Option<usize>)
    ensures
        r matches Some(k) ==> k < names@.len() && last_index_in(
            str_views(names@),
            s@,
            names@.len() as int,
        ) == Some(k as int),
        r is None ==> last_index_in(str_views(names@), s@, names@.len() as int) is None,
{
    let mut i = names.len();
    while i > 0
        invariant
            i <= names@.len(),
            last_index_in(str_views(names@), s@, names@.len() as int) == last_index_in(
                str_views(names@),
                s@,
                i as int,
            ),
        decreases i,
    {
        if names[i - 1] == *s {
            proof {
                lemma_last_index_range(str_views(names@), s@, names@.len() as int);
            }
            return Some(i - 1);
        }
        i = i - 1;
    }
    None
}

proof fn lemma_last_index_range(names: Seq<Seq<char>>, s: Seq<char>, n: int)
    ensures
        last_index_in(names, s, n) matches Some(k) ==> 0 <= k < n,
    decreases n,
{
    if n > 0 {
        lemma_last_index_range(names, s, n - 1);
    }
}

proof fn lemma_const_index_stable(c: Seq<Value>, v: Value, m: int, n: int)
    requires
        m <= n,
        const_index_in(c, v, m) is Some,
    ensures
        const_index_in(c, v, n) == const_index_in(c, v, m),
    decreases n - m,
{
    if m < n {
        lemma_const_index_stable(c, v, m, n - 1);
    }
}

/// Puts a string or unit value into the pool, as [`intern_consts`] says.
fn intern_exec(consts: &mut Vec<Value>, v: Value) -> (r: Result<u32, BuildError>)
    requires
        consts_unique(old(consts)@),
        old(consts)@.len() <= u32::MAX,
        v is Str || v is Unit,
    ensures
        consts_unique(final(consts)@),
        final(consts)@.len() <= u32::MAX,
        r matches Ok(k) ==> intern_consts(old(consts)@, v) == Ok::<(Seq<Value>, u32), BuildError>(
            (final(consts)@, k),
        ),
        r matches Err(x) ==> intern_consts(old(consts)@, v) == Err::<(Seq<Value>, u32), BuildError>(
            x,
        ),
{
    let mut i: usize = 0;
    while i < consts.len()
        invariant
            i <= consts@.len(),
            consts@ == old(consts)@,
            consts_unique(old(consts)@),
            old(consts)@.len() <= u32::MAX,
            const_index_in(consts@, v, i as int) is None,
            forall|j: int| 0 <= j < i ==> !same_value(consts@[j], v),
        decreases consts@.len() - i,
    {
        if consts[i].same(&v) {
            proof {
                lemma_const_index_stable(consts@, v, i as int + 1, consts@.len() as int);
            }
            return Ok(i as u32);
        }
        i = i + 1;
    }
    if consts.len() >= 0xffff_ffffusize {
        return Err(BuildError::TooLarge);
    }
    let k = consts.len() as u32;
    let ghost c0 = consts@;
    consts.push(v);
    proof {
        assert forall|a: int, b: int|
            0 <= a < b < consts@.len() && (consts@[a] is Str || consts@[a] is Unit) implies !same_value(
            #[trigger] consts@[a],
            #[trigger] consts@[b],
        ) by {
            if b < c0.len() {
                assert(c0[a] == consts@[a] && c0[b] == consts@[b]);
            }
        }
    }
    Ok(k)
}

/// Whether `s` holds exactly the characters of `w`.
fn is_word(s: &String, w: &str) -> (r: bool)
    ensures
        r == (s@ == w@),
{
    let t = w.to_owned();
    *s == t
}

/// The form that a head symbol names, as [`form_of`] says.
fn form_of_sym(h: &String) -> (r: Form)
    ensures
        r == form_of(h@),
{
    proof {
        reveal_strlit("+");
        reveal_strlit("-");
        reveal_strlit("*");
        reveal_strlit("/");
        reveal_strlit("==");
        reveal_strlit("!=");
        reveal_strlit("<");
        reveal_strlit("<=");
        reveal_strlit(">");
        reveal_strlit(">=");
        reveal_strlit("let");
        reveal_strlit("if");
        reveal_strlit("fn");
        assert("+"@ =~= seq!['+']);
        assert("-"@ =~= seq!['-']);
        assert("*"@ =~= seq!['*']);
        assert("/"@ =~= seq!['/']);
        assert("=="@ =~= seq!['=', '=']);
        assert("!="@ =~= seq!['!', '=']);
        assert("<"@ =~= seq!['<']);
        assert("<="@ =~= seq!['<', '=']);
        assert(">"@ =~= seq!['>']);
        assert(">="@ =~= seq!['>', '=']);
        assert("let"@ =~= seq!['l', 'e', 't']);
        assert("if"@ =~= seq!['i', 'f']);
        assert("fn"@ =~= seq!['f', 'n']);
    }
    if is_word(h, "+") {
        Form::Arith(AsmStatement::Add)
    } else if is_word(h, "-") {
        Form::Arith(AsmStatement::Sub)
    } else if is_word(h, "*") {
        Form::Arith(AsmStatement::Mul)
    } else if is_word(h, "/") {
        Form::Arith(AsmStatement::Div)
    } else if is_word(h, "==") {
        Form::Compare(AsmStatement::Eq)
    } else if is_word(h, "!=") {
        Form::Compare(AsmStatement::Ne)
    } else if is_word(h, "<") {
        Form::Compare(AsmStatement::Lt)
    } else if is_word(h, "<=") {
        Form::Compare(AsmStatement::Le)
    } else if is_word(h, ">") {
        Form::Compare(AsmStatement::Gt)
    } else if is_word(h, ">=") {
        Form::Compare(AsmStatement::Ge)
    } else if is_word(h, "let") {
        Form::Let
    } else if is_word(h, "if") {
        Form::If
    } else if is_word(h, "fn") {
        Form::Fn
    } else {
        Form::Call
    }
}


proof fn lemma_seq_err(st: BuildState, es: Seq<SExp>, i: int, x: BuildError)
    requires
        0 <= i <= es.len(),
        lower_seq(st, es.subrange(0, i)) == Err::<BuildState, BuildError>(x),
    ensures
        lower_seq(st, es) == Err::<BuildState, BuildError>(x),
    decreases es.len() - i,
{
    if i < es.len() {
        assert(es.subrange(0, i + 1).drop_last() =~= es.subrange(0, i));
        lemma_seq_err(st, es, i + 1, x);
    } else {
        assert(es.subrange(0, i) =~= es);
    }
}

proof fn lemma_fold_err(st: BuildState, op: AsmStatement, es: Seq<SExp>, i: int, x: BuildError)
    requires
        1 <= i <= es.len(),
        lower_fold(st, op, es.subrange(0, i)) == Err::<BuildState, BuildError>(x),
    ensures
        lower_fold(st, op, es) == Err::<BuildState, BuildError>(x),
    decreases es.len() - i,
{
    if i < es.len() {
        assert(es.subrange(0, i + 1).drop_last() =~= es.subrange(0, i));
        lemma_fold_err(st, op, es, i + 1, x);
    } else {
        assert(es.subrange(0, i) =~= es);
    }
}

impl ProgramState {
    /// Lowers one expression into the function `f`, as [`lower`] says.
    fn lower_expr(&mut self, f: &mut AsmFnBuilder, e: &SExp) -> (r: Result<(), BuildError>)
        requires
            old(self).wf(),
            fn_wf(*old(f)),
        ensures
            r is Ok ==> lower(old(self).state(*old(f)), *e) == Ok::<BuildState, BuildError>(
                final(self).state(*final(f)),
            ) && final(self).wf() && fn_wf(*final(f)),
            r is Ok ==> final(self).ifns@.len() >= old(self).ifns@.len(),
            r matches Err(x) ==> lower(old(self).state(*old(f)), *e) == Err::<
                BuildState,
                BuildError,
            >(x),
        decreases *e, 2int,
    {
        match e {
            SExp::I64(n) => {
                f.code.push(AsmStatement::PushInteger(*n));
                Ok(())
            },
            SExp::Str(s) => match intern_exec(&mut self.consts, Value::Str(s.clone())) {
                Ok(k) => {
                    f.code.push(AsmStatement::PushConstant(k));
                    Ok(())
                },
                Err(x) => Err(x),
            },
            SExp::Sym(s) => match find_name(&f.names, s) {
                Some(k) => {
                    f.code.push(AsmStatement::Load(k as u32));
                    Ok(())
                },
                None => Err(BuildError::UnknownName(s.clone())),
            },
            SExp::Array(_) => Err(BuildError::UnexpectedArray),
            SExp::List(items) => self.lower_list(f, items),
        }
    }

    /// Lowers `items[start..]` in order, as [`lower_seq`] says.
    fn lower_seq_from(&mut self, f: &mut AsmFnBuilder, items: &Vec<SExp>, start: usize) -> (r:
        Result<(), BuildError>)
        requires
            old(self).wf(),
            fn_wf(*old(f)),
            start <= items@.len(),
        ensures
            r is Ok ==> lower_seq(
                old(self).state(*old(f)),
                items@.subrange(start as int, items@.len() as int),
            ) == Ok::<BuildState, BuildError>(final(self).state(*final(f))) && final(self).wf()
                && fn_wf(*final(f)),
            r is Ok ==> final(self).ifns@.len() >= old(self).ifns@.len(),
            r matches Err(x) ==> lower_seq(
                old(self).state(*old(f)),
                items@.subrange(start as int, items@.len() as int),
            ) == Err::<BuildState, BuildError>(x),
        decreases items@, 0int,
    {
        let ghost st0 = self.state(*f);
        let n = items.len();
        let mut i = start;
        assert(items@.subrange(start as int, start as int) =~= Seq::<SExp>::empty());
        while i < n
            invariant
                start <= i <= n,
                n == items@.len(),
                self.wf(),
                fn_wf(*f),
                st0 == old(self).state(*old(f)),
                self.ifns@.len() >= old(self).ifns@.len(),
                lower_seq(st0, items@.subrange(start as int, i as int)) == Ok::<
                    BuildState,
                    BuildError,
                >(self.state(*f)),
            decreases n - i,
        {
            let ghost before = self.state(*f);
            let ghost es = items@.subrange(start as int, i as int + 1);
            assert(es.drop_last() =~= items@.subrange(start as int, i as int));
            assert(es.last() == items@[i as int]);
            match self.lower_expr(f, &items[i]) {
                Ok(_) => {},
                Err(x) => {
                    proof {
                        let all = items@.subrange(start as int, n as int);
                        assert(all.subrange(0, i - start + 1) =~= es);
                        lemma_seq_err(st0, all, i - start + 1, x);
                    }
                    return Err(x);
                },
            }
            i = i + 1;
        }
        Ok(())
    }

    /// Lowers a list form, as [`lower_list`] says.
    fn lower_list(&mut self, f: &mut AsmFnBuilder, items: &Vec<SExp>) -> (r: Result<(), BuildError>)
        requires
            old(self).wf(),
            fn_wf(*old(f)),
        ensures
            r is Ok ==> lower_list(old(self).state(*old(f)), items@) == Ok::<BuildState, BuildError>(
                final(self).state(*final(f)),
            ) && final(self).wf() && fn_wf(*final(f)),
            r is Ok ==> final(self).ifns@.len() >= old(self).ifns@.len(),
            r matches Err(x) ==> lower_list(old(self).state(*old(f)), items@) == Err::<
                BuildState,
                BuildError,
            >(x),
        decreases items@, 2int,
    {
        let n = items.len();
        if n == 0 {
            return Err(BuildError::EmptyList);
        }
        let h = match &items[0] {
            SExp::Sym(h) => h,
            other => {
                return Err(BuildError::BadHead(other.kind()));
            },
        };
        match form_of_sym(h) {
            Form::Arith(op) => self.lower_arith(f, items, h, op),
            Form::Compare(op) => self.lower_compare(f, items, h, op),
            Form::Let => self.lower_let(f, items, h),
            Form::If => self.lower_if(f, items, h),
            Form::Fn => self.lower_fn(f, items, h),
            Form::Call => self.lower_call(f, items, h),
        }
    }


    /// Lowers a variadic arithmetic form, as [`lower_list`] says of it.
    fn lower_arith(&mut self, f: &mut AsmFnBuilder, items: &Vec<SExp>, h: &String, op: AsmStatement) -> (r: Result<(), BuildError>)
        requires
            old(self).wf(),
            fn_wf(*old(f)),
            items@.len() > 0,
            items@[0] == SExp::Sym(*h) && form_of(h@) == Form::Arith(op),
        ensures
            r is Ok ==> lower_list(old(self).state(*old(f)), items@) == Ok::<BuildState, BuildError>(
                final(self).state(*final(f)),
            ) && final(self).wf() && fn_wf(*final(f)),
            r is Ok ==> final(self).ifns@.len() >= old(self).ifns@.len(),
            r matches Err(x) ==> lower_list(old(self).state(*old(f)), items@) == Err::<
                BuildState,
                BuildError,
            >(x),
        decreases items@, 1int,
    {
        let ghost st0 = self.state(*f);
        let n = items.len();
        if n < 2 {
            return Err(BuildError::Arity(h.clone()));
        }
        let ghost all = items@.subrange(1, n as int);
        match self.lower_expr(f, &items[1]) {
            Ok(_) => {},
            Err(x) => {
                proof {
                    assert(all.subrange(0, 1).len() == 1);
                    assert(all.subrange(0, 1)[0] == items@[1]);
                    assert(lower_fold(st0, op, all.subrange(0, 1)) == lower(st0, items@[1]));
                    lemma_fold_err(st0, op, all, 1, x);
                }
                return Err(x);
            },
        }
        proof {
            let one = items@.subrange(1, 2);
            assert(one.len() == 1 && one[0] == items@[1]);
        }
        let mut i: usize = 2;
        while i < n
            invariant
                2 <= i <= n,
                n == items@.len(),
                self.wf(),
                fn_wf(*f),
                all == items@.subrange(1, n as int),
                self.ifns@.len() >= old(self).ifns@.len(),
                st0 == old(self).state(*old(f)),
                items@[0] == SExp::Sym(*h) && form_of(h@) == Form::Arith(op),
                lower_fold(st0, op, items@.subrange(1, i as int)) == Ok::<
                    BuildState,
                    BuildError,
                >(self.state(*f)),
            decreases n - i,
        {
            let ghost es = items@.subrange(1, i as int + 1);
            assert(es.drop_last() =~= items@.subrange(1, i as int));
            assert(es.last() == items@[i as int]);
            match self.lower_expr(f, &items[i]) {
                Ok(_) => {},
                Err(x) => {
                    proof {
                        assert(all.subrange(0, i as int) =~= es);
                        lemma_fold_err(st0, op, all, i as int, x);
                    }
                    return Err(x);
                },
            }
            f.code.push(op);
            i = i + 1;
        }
        assert(items@.subrange(1, n as int) =~= all);
        Ok(())
    }

    /// Lowers a comparison, as [`lower_list`] says of it.
    fn lower_compare(&mut self, f: &mut AsmFnBuilder, items: &Vec<SExp>, h: &String, op: AsmStatement) -> (r: Result<(), BuildError>)
        requires
            old(self).wf(),
            fn_wf(*old(f)),
            items@.len() > 0,
            items@[0] == SExp::Sym(*h) && form_of(h@) == Form::Compare(op),
        ensures
            r is Ok ==> lower_list(old(self).state(*old(f)), items@) == Ok::<BuildState, BuildError>(
                final(self).state(*final(f)),
            ) && final(self).wf() && fn_wf(*final(f)),
            r is Ok ==> final(self).ifns@.len() >= old(self).ifns@.len(),
            r matches Err(x) ==> lower_list(old(self).state(*old(f)), items@) == Err::<
                BuildState,
                BuildError,
            >(x),
        decreases items@, 1int,
    {
        let n = items.len();
        if n != 3 {
            return Err(BuildError::Arity(h.clone()));
        }
        match self.lower_expr(f, &items[1]) {
            Ok(_) => {},
            Err(x) => {
                return Err(x);
            },
        }
        match self.lower_expr(f, &items[2]) {
            Ok(_) => {},
            Err(x) => {
                return Err(x);
            },
        }
        f.code.push(op);
        Ok(())
    }

    /// Lowers a `let` form, as [`lower_list`] says of it.
    fn lower_let(&mut self, f: &mut AsmFnBuilder, items: &Vec<SExp>, h: &String) -> (r: Result<(), BuildError>)
        requires
            old(self).wf(),
            fn_wf(*old(f)),
            items@.len() > 0,
            items@[0] == SExp::Sym(*h) && form_of(h@) == Form::Let,
        ensures
            r is Ok ==> lower_list(old(self).state(*old(f)), items@) == Ok::<BuildState, BuildError>(
                final(self).state(*final(f)),
            ) && final(self).wf() && fn_wf(*final(f)),
            r is Ok ==> final(self).ifns@.len() >= old(self).ifns@.len(),
            r matches Err(x) ==> lower_list(old(self).state(*old(f)), items@) == Err::<
                BuildState,
                BuildError,
            >(x),
        decreases items@, 1int,
    {
        let ghost st0 = self.state(*f);
        let n = items.len();
        if n != 3 {
            return Err(BuildError::Arity(h.clone()));
        }
        let name = match &items[1] {
            SExp::Sym(name) => name,
            _ => {
                return Err(BuildError::NotAName(h.clone()));
            },
        };
        let slot: usize = match find_name(&f.names, name) {
            Some(k) => k,
            None => {
                if f.names.len() >= 0xffff_ffffusize {
                    return Err(BuildError::TooLarge);
                }
                let k = f.names.len();
                f.names.push(name.clone());
                assert(str_views(f.names@) =~= st0.names.push(name@));
                k
            },
        };
        match self.lower_expr(f, &items[2]) {
            Ok(_) => {},
            Err(x) => {
                return Err(x);
            },
        }
        f.code.push(AsmStatement::Store(slot as u32));
        Ok(())
    }

    /// Lowers an `if` form, as [`lower_list`] says of it.
    fn lower_if(&mut self, f: &mut AsmFnBuilder, items: &Vec<SExp>, h: &String) -> (r: Result<(), BuildError>)
        requires
            old(self).wf(),
            fn_wf(*old(f)),
            items@.len() > 0,
            items@[0] == SExp::Sym(*h) && form_of(h@) == Form::If,
        ensures
            r is Ok ==> lower_list(old(self).state(*old(f)), items@) == Ok::<BuildState, BuildError>(
                final(self).state(*final(f)),
            ) && final(self).wf() && fn_wf(*final(f)),
            r is Ok ==> final(self).ifns@.len() >= old(self).ifns@.len(),
            r matches Err(x) ==> lower_list(old(self).state(*old(f)), items@) == Err::<
                BuildState,
                BuildError,
            >(x),
        decreases items@, 1int,
    {
        let n = items.len();
        if n != 3 && n != 4 {
            return Err(BuildError::Arity(h.clone()));
        }
        match self.lower_expr(f, &items[1]) {
            Ok(_) => {},
            Err(x) => {
                return Err(x);
            },
        }
        if f.label > 0xffff_fffdu32 {
            return Err(BuildError::TooLarge);
        }
        let lf = AsmLabel::new(f.label);
        let le = AsmLabel::new(f.label + 1);
        f.label = f.label + 2;
        f.code.push(AsmStatement::JumpIfFalse(lf));
        match self.lower_expr(f, &items[2]) {
            Ok(_) => {},
            Err(x) => {
                return Err(x);
            },
        }
        f.code.push(AsmStatement::Jump(le));
        f.code.push(AsmStatement::Label(lf));
        if n == 4 {
            match self.lower_expr(f, &items[3]) {
                Ok(_) => {},
                Err(x) => {
                    return Err(x);
                },
            }
        } else {
            match intern_exec(&mut self.consts, Value::Unit) {
                Ok(k) => f.code.push(AsmStatement::PushConstant(k)),
                Err(x) => {
                    return Err(x);
                },
            }
        }
        f.code.push(AsmStatement::Label(le));
        Ok(())
    }

    /// Lowers a `fn` definition, as [`lower_list`] says of it.
    fn lower_fn(&mut self, f: &mut AsmFnBuilder, items: &Vec<SExp>, h: &String) -> (r: Result<(), BuildError>)
        requires
            old(self).wf(),
            fn_wf(*old(f)),
            items@.len() > 0,
            items@[0] == SExp::Sym(*h) && form_of(h@) == Form::Fn,
        ensures
            r is Ok ==> lower_list(old(self).state(*old(f)), items@) == Ok::<BuildState, BuildError>(
                final(self).state(*final(f)),
            ) && final(self).wf() && fn_wf(*final(f)),
            r is Ok ==> final(self).ifns@.len() >= old(self).ifns@.len(),
            r matches Err(x) ==> lower_list(old(self).state(*old(f)), items@) == Err::<
                BuildState,
                BuildError,
            >(x),
        decreases items@, 1int,
    {
        let ghost st0 = self.state(*f);
        let n = items.len();
        if n < 3 {
            return Err(BuildError::Arity(h.clone()));
        }
        let name = match &items[1] {
            SExp::Sym(name) => name,
            _ => {
                return Err(BuildError::NotAName(h.clone()));
            },
        };
        let ps = match &items[2] {
            SExp::Array(ps) => ps,
            _ => {
                return Err(BuildError::NotAParamList(name.clone()));
            },
        };
        let mut pnames: Vec<String> = Vec::new();
        let mut j: usize = 0;
        while j < ps.len()
            invariant
                j <= ps@.len(),
                n == items@.len(),
                n >= 3,
                items@[0] == SExp::Sym(*h) && form_of(h@) == Form::Fn,
                items@[1] == SExp::Sym(*name),
                items@[2] == SExp::Array(*ps),
                st0 == old(self).state(*old(f)),
                st0 == self.state(*f),
                pnames@.len() == j,
                all_syms(ps@.subrange(0, j as int)),
                str_views(pnames@) == sym_names(ps@.subrange(0, j as int)),
            decreases ps@.len() - j,
        {
            let ghost old_names = pnames@;
            match &ps[j] {
                SExp::Sym(p) => {
                    pnames.push(p.clone());
                },
                _ => {
                    assert(!(ps@[j as int] is Sym));
                    assert(!all_syms(ps@));
                    return Err(BuildError::NotAName(h.clone()));
                },
            }
            j = j + 1;
            proof {
                let sub = ps@.subrange(0, j as int);
                let prev = ps@.subrange(0, j - 1);
                assert forall|k: int| 0 <= k < j implies #[trigger] str_views(pnames@)[k]
                    == sym_names(sub)[k] by {
                    if k < j - 1 {
                        assert(prev[k] == sub[k]);
                        assert(str_views(old_names)[k] == sym_names(prev)[k]);
                    }
                }
                assert(str_views(pnames@) =~= sym_names(sub));
                assert forall|k: int| 0 <= k < sub.len() implies #[trigger] sub[k] is Sym by {
                    if k < j - 1 {
                        assert(prev[k] == sub[k]);
                    }
                }
            }
        }
        assert(ps@.subrange(0, j as int) =~= ps@);
        if ps.len() > 0xffff_ffffusize || self.consts.len() >= 0xffff_ffffusize
            || self.ifns.len() >= 0xffff_fffeusize {
            return Err(BuildError::TooLarge);
        }
        let idx = self.ifns.len() + 1;
        self.consts.push(Value::FunctionRef(idx as u32));
        self.call_names.push(name.clone());
        self.call_slots.push((self.consts.len() - 1) as u32);
        self.ifns.push(AsmFn::new(0, Vec::new()));
        proof {
            let c = self.consts@;
            assert forall|a: int, b: int|
                0 <= a < b < c.len() && (c[a] is Str || c[a] is Unit) implies !same_value(
                #[trigger] c[a],
                #[trigger] c[b],
            ) by {
                if b < c.len() - 1 {
                    assert(st0.consts[a] == c[a] && st0.consts[b] == c[b]);
                }
            }
        }
        let mut child = AsmFnBuilder { names: pnames, label: 1, code: Vec::new() };
        proof {
            assert(str_views(self.call_names@) =~= st0.call_names.push(name@));
            assert(fn_models(self.ifns@) =~= st0.fns.push((0u32, Seq::empty())));
            assert(child.code@ =~= Seq::<AsmStatement>::empty());
        }
        match self.lower_seq_from(&mut child, items, 3) {
            Ok(_) => {},
            Err(x) => {
                return Err(x);
            },
        }
        child.code.push(AsmStatement::Return);
        let locals = child.names.len() as u32;
        let ghost mid = fn_models(self.ifns@);
        self.ifns.set(idx - 1, AsmFn::new(locals, child.code));
        proof {
            assert(fn_models(self.ifns@) =~= mid.update(
                idx - 1,
                (locals, child.code@),
            ));
        }
        Ok(())
    }

    /// Lowers a call of a declared function or native, as [`lower_list`] says of it.
    fn lower_call(&mut self, f: &mut AsmFnBuilder, items: &Vec<SExp>, h: &String) -> (r: Result<(), BuildError>)
        requires
            old(self).wf(),
            fn_wf(*old(f)),
            items@.len() > 0,
            items@[0] == SExp::Sym(*h) && form_of(h@) == Form::Call,
        ensures
            r is Ok ==> lower_list(old(self).state(*old(f)), items@) == Ok::<BuildState, BuildError>(
                final(self).state(*final(f)),
            ) && final(self).wf() && fn_wf(*final(f)),
            r is Ok ==> final(self).ifns@.len() >= old(self).ifns@.len(),
            r matches Err(x) ==> lower_list(old(self).state(*old(f)), items@) == Err::<
                BuildState,
                BuildError,
            >(x),
        decreases items@, 1int,
    {
        let n = items.len();
        let ci = match find_name(&self.call_names, h) {
            Some(k) => self.call_slots[k],
            None => {
                return Err(BuildError::UnknownName(h.clone()));
            },
        };
        if n - 1 > 0xffff_ffffusize {
            return Err(BuildError::TooLarge);
        }
        f.code.push(AsmStatement::PushConstant(ci));
        match self.lower_seq_from(f, items, 1) {
            Ok(_) => {},
            Err(x) => {
                return Err(x);
            },
        }
        f.code.push(AsmStatement::Call((n - 1) as u32));
        Ok(())
    }
}


/// The whole program that lowering ends in: function 0 (the top level, its locals and
/// statements with a final `Return`), then the nested functions.
pub open spec fn program_fns(s: BuildState) -> Seq<(u32, Seq<AsmStatement>)> {
    seq![(s.names.len() as u32, s.code.push(AsmStatement::Return))] + s.fns
}

/// Lowers a whole sequence of top-level S-expressions into a program of the intermediate
/// representation; natives registered before [`AsmBuilder::build`] can be called by name.
pub struct AsmBuilder {
    pub ast: Vec<SExp>,
    pub program: ProgramState,
    /// The names of the registered natives, by index.
    pub xfns: Vec<String>,
}

impl AsmBuilder {
    pub open spec fn wf(&self) -> bool {
        self.program.wf()
    }

    /// The state in which lowering of the top level starts.
    pub open spec fn start_state(&self) -> BuildState {
        BuildState {
            consts: self.program.consts@,
            fns: fn_models(self.program.ifns@),
            call_names: str_views(self.program.call_names@),
            call_slots: self.program.call_slots@,
            names: Seq::empty(),
            label: 1,
            code: Seq::empty(),
        }
    }

    pub fn new(ast: Vec<SExp>) -> (r: AsmBuilder)
        ensures
            r.wf(),
            r.ast@ == ast@,
            r.program.consts@.len() == 0,
            r.program.ifns@.len() == 0,
            r.program.call_names@.len() == 0,
            r.xfns@.len() == 0,
    {
        AsmBuilder {
            ast,
            program: ProgramState {
                consts: Vec::new(),
                ifns: Vec::new(),
                call_names: Vec::new(),
                call_slots: Vec::new(),
            },
            xfns: Vec::new(),
        }
    }

    /// Registers a native under `name`: a `NativeRef` to its index goes into the constant
    /// pool and `name` into the call table, so that `(name args...)` calls it. Gives the
    /// native's index.
    pub fn register_xfn(&mut self, name: String) -> (r: Result<u32, BuildError>)
        requires
            old(self).wf(),
        ensures
            final(self).wf(),
            final(self).ast == old(self).ast,
            final(self).program.ifns == old(self).program.ifns,
            (r is Ok) == (old(self).program.consts@.len() < u32::MAX && old(self).xfns@.len()
                < u32::MAX),
            r matches Err(x) ==> x == BuildError::TooLarge && final(self).program.consts
                == old(self).program.consts && final(self).program.call_names
                == old(self).program.call_names && final(self).program.call_slots
                == old(self).program.call_slots && final(self).xfns == old(self).xfns,
            r matches Ok(i) ==> {
                &&& i == old(self).xfns@.len()
                &&& final(self).program.consts@ == old(self).program.consts@.push(
                    Value::NativeRef(i),
                )
                &&& final(self).program.call_names@ == old(self).program.call_names@.push(name)
                &&& final(self).program.call_slots@ == old(self).program.call_slots@.push(
                    old(self).program.consts@.len() as u32,
                )
                &&& final(self).xfns@ == old(self).xfns@.push(name)
            },
    {
        if self.program.consts.len() >= 0xffff_ffffusize || self.xfns.len() >= 0xffff_ffffusize {
            return Err(BuildError::TooLarge);
        }
        let i = self.xfns.len() as u32;
        let slot = self.program.consts.len() as u32;
        let ghost c0 = self.program.consts@;
        self.program.consts.push(Value::NativeRef(i));
        self.program.call_names.push(name.clone());
        self.program.call_slots.push(slot);
        self.xfns.push(name);
        proof {
            let c = self.program.consts@;
            assert forall|a: int, b: int|
                0 <= a < b < c.len() && (c[a] is Str || c[a] is Unit) implies !same_value(
                #[trigger] c[a],
                #[trigger] c[b],
            ) by {
                if b < c.len() - 1 {
                    assert(c0[a] == c[a] && c0[b] == c[b]);
                }
            }
        }
        Ok(i)
    }

    /// Lowers the top-level forms in order into function 0, which ends with `Return`; the
    /// functions that `fn` forms define follow it. No string stands twice in the constant
    /// pool of the result.
    pub fn build(self) -> (r: Result<Asm, BuildError>)
        requires
            self.wf(),
        ensures
            match lower_seq(self.start_state(), self.ast@) {
                Ok(s) => r matches Ok(a) && a.consts@ == s.consts && fn_models(a.ifns@)
                    == program_fns(s) && a.xfns@ == self.xfns@ && consts_unique(a.consts@),
                Err(x) => r == Err::<Asm, BuildError>(x),
            },
    {
        let AsmBuilder { ast, program, xfns } = self;
        let mut program = program;
        let mut main = AsmFnBuilder { names: Vec::new(), label: 1, code: Vec::new() };
        proof {
            assert(ast@.subrange(0, ast@.len() as int) =~= ast@);
            assert(str_views(main.names@) =~= Seq::<Seq<char>>::empty());
            assert(main.code@ =~= Seq::<AsmStatement>::empty());
            assert(program.state(main) == self.start_state());
        }
        match program.lower_seq_from(&mut main, &ast, 0) {
            Ok(_) => {},
            Err(x) => {
                return Err(x);
            },
        }
        main.code.push(AsmStatement::Return);
        let locals = main.names.len() as u32;
        let ProgramState { consts, ifns: nested, call_names: _, call_slots: _ } = program;
        let mut nested = nested;
        let mut ifns: Vec<AsmFn> = Vec::new();
        ifns.push(AsmFn::new(locals, main.code));
        let ghost first = fn_models(ifns@);
        let ghost rest = fn_models(nested@);
        ifns.append(&mut nested);
        proof {
            assert(fn_models(ifns@) =~= first + rest);
        }
        Ok(Asm { consts, ifns, xfns })
    }
}

} // verus!
