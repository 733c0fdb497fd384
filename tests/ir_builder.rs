use jisp::builder::{AsmBuilder, BuildError};
use jisp::ir::{Asm, AsmFn, AsmLabel, AsmStatement};
use jisp::sexp::{SExp, SExpKind};
use jisp::value::Value;

fn sym(s: &str) -> SExp {
    SExp::Sym(s.to_string())
}

fn num(n: i64) -> SExp {
    SExp::I64(n)
}

fn text(s: &str) -> SExp {
    SExp::Str(s.to_string())
}

fn list(v: Vec<SExp>) -> SExp {
    SExp::List(v)
}

fn arr(v: Vec<SExp>) -> SExp {
    SExp::Array(v)
}

fn build(forms: Vec<SExp>) -> Result<Asm, BuildError> {
    AsmBuilder::new(forms).build()
}

fn fac_def() -> SExp {
    list(vec![
        sym("fn"),
        sym("fac"),
        arr(vec![sym("x")]),
        list(vec![
            sym("if"),
            list(vec![sym("=="), sym("x"), num(0)]),
            num(1),
            list(vec![
                sym("*"),
                list(vec![sym("fac"), list(vec![sym("-"), sym("x"), num(1)])]),
                sym("x"),
            ]),
        ]),
    ])
}

#[test]
fn asm_builder_basic() {
    let program = build(vec![num(1)]).unwrap();
    let mut wanted = Asm::new();
    wanted.push_fn(AsmFn::new(0, vec![AsmStatement::PushInteger(1), AsmStatement::Return]));
    assert_eq!(program, wanted);

    let program = build(vec![list(vec![sym("+"), num(1), num(2), num(3), num(4), num(5)])]).unwrap();
    let mut wanted = Asm::new();
    wanted.push_fn(AsmFn::new(0, vec![
        AsmStatement::PushInteger(1),
        AsmStatement::PushInteger(2),
        AsmStatement::Add,
        AsmStatement::PushInteger(3),
        AsmStatement::Add,
        AsmStatement::PushInteger(4),
        AsmStatement::Add,
        AsmStatement::PushInteger(5),
        AsmStatement::Add,
        AsmStatement::Return,
    ]));
    assert_eq!(program, wanted);

    let program = build(vec![list(vec![sym("=="), num(1), num(2)])]).unwrap();
    let mut wanted = Asm::new();
    wanted.push_fn(AsmFn::new(0, vec![
        AsmStatement::PushInteger(1),
        AsmStatement::PushInteger(2),
        AsmStatement::Eq,
        AsmStatement::Return,
    ]));
    assert_eq!(program, wanted);
}

#[test]
fn asm_builder_locals() {
    let program = build(vec![
        list(vec![sym("let"), sym("a"), num(12)]),
        list(vec![sym("let"), sym("b"), num(13)]),
        list(vec![sym("+"), sym("a"), sym("b")]),
    ])
    .unwrap();
    let mut wanted = Asm::new();
    wanted.push_fn(AsmFn::new(2, vec![
        AsmStatement::PushInteger(12),
        AsmStatement::Store(0),
        AsmStatement::PushInteger(13),
        AsmStatement::Store(1),
        AsmStatement::Load(0),
        AsmStatement::Load(1),
        AsmStatement::Add,
        AsmStatement::Return,
    ]));
    assert_eq!(program, wanted);
}

#[test]
fn asm_builder_if_stmt() {
    let program = build(vec![list(vec![
        sym("if"),
        list(vec![sym("=="), num(2), num(1)]),
        num(1),
        list(vec![sym("*"), num(2), num(1)]),
    ])])
    .unwrap();
    let mut wanted = Asm::new();
    wanted.push_fn(AsmFn::new(0, vec![
        AsmStatement::PushInteger(2),
        AsmStatement::PushInteger(1),
        AsmStatement::Eq,
        AsmStatement::JumpIfFalse(AsmLabel::new(1)),
        AsmStatement::PushInteger(1),
        AsmStatement::Jump(AsmLabel::new(2)),
        AsmStatement::Label(AsmLabel::new(1)),
        AsmStatement::PushInteger(2),
        AsmStatement::PushInteger(1),
        AsmStatement::Mul,
        AsmStatement::Label(AsmLabel::new(2)),
        AsmStatement::Return,
    ]));
    assert_eq!(program, wanted);
}

#[test]
fn asm_builder_string() {
    let program = build(vec![
        list(vec![sym("let"), sym("h"), text("hello")]),
        list(vec![sym("let"), sym("w"), text("world")]),
        list(vec![sym("if"), list(vec![sym("=="), num(1), num(1)]), sym("h"), sym("w")]),
    ])
    .unwrap();
    let mut wanted = Asm::new();
    wanted.consts = vec![Value::Str("hello".to_string()), Value::Str("world".to_string())];
    wanted.push_fn(AsmFn::new(2, vec![
        AsmStatement::PushConstant(0),
        AsmStatement::Store(0),
        AsmStatement::PushConstant(1),
        AsmStatement::Store(1),
        AsmStatement::PushInteger(1),
        AsmStatement::PushInteger(1),
        AsmStatement::Eq,
        AsmStatement::JumpIfFalse(AsmLabel::new(1)),
        AsmStatement::Load(0),
        AsmStatement::Jump(AsmLabel::new(2)),
        AsmStatement::Label(AsmLabel::new(1)),
        AsmStatement::Load(1),
        AsmStatement::Label(AsmLabel::new(2)),
        AsmStatement::Return,
    ]));
    assert_eq!(program, wanted);
}

#[test]
fn asm_builder_functions() {
    let program = build(vec![
        list(vec![sym("fn"), sym("ret5"), arr(vec![]), num(5)]),
        list(vec![sym("ret5")]),
    ])
    .unwrap();
    let mut wanted = Asm::new();
    wanted.consts = vec![Value::FunctionRef(1)];
    wanted.push_fn(AsmFn::new(0, vec![
        AsmStatement::PushConstant(0),
        AsmStatement::Call(0),
        AsmStatement::Return,
    ]));
    wanted.push_fn(AsmFn::new(0, vec![AsmStatement::PushInteger(5), AsmStatement::Return]));
    assert_eq!(program, wanted);

    let program = build(vec![
        list(vec![
            sym("fn"),
            sym("add"),
            arr(vec![sym("x"), sym("y")]),
            list(vec![sym("+"), sym("x"), sym("y")]),
        ]),
        list(vec![sym("add"), num(3), num(5)]),
    ])
    .unwrap();
    let mut wanted = Asm::new();
    wanted.consts = vec![Value::FunctionRef(1)];
    wanted.push_fn(AsmFn::new(0, vec![
        AsmStatement::PushConstant(0),
        AsmStatement::PushInteger(3),
        AsmStatement::PushInteger(5),
        AsmStatement::Call(2),
        AsmStatement::Return,
    ]));
    wanted.push_fn(AsmFn::new(2, vec![
        AsmStatement::Load(0),
        AsmStatement::Load(1),
        AsmStatement::Add,
        AsmStatement::Return,
    ]));
    assert_eq!(program, wanted);

    let program = build(vec![fac_def(), list(vec![sym("fac"), num(5)])]).unwrap();
    let mut wanted = Asm::new();
    wanted.consts = vec![Value::FunctionRef(1)];
    wanted.push_fn(AsmFn::new(0, vec![
        AsmStatement::PushConstant(0),
        AsmStatement::PushInteger(5),
        AsmStatement::Call(1),
        AsmStatement::Return,
    ]));
    wanted.push_fn(AsmFn::new(1, vec![
        AsmStatement::Load(0),
        AsmStatement::PushInteger(0),
        AsmStatement::Eq,
        AsmStatement::JumpIfFalse(AsmLabel::new(1)),
        AsmStatement::PushInteger(1),
        AsmStatement::Jump(AsmLabel::new(2)),
        AsmStatement::Label(AsmLabel::new(1)),
        AsmStatement::PushConstant(0),
        AsmStatement::Load(0),
        AsmStatement::PushInteger(1),
        AsmStatement::Sub,
        AsmStatement::Call(1),
        AsmStatement::Load(0),
        AsmStatement::Mul,
        AsmStatement::Label(AsmLabel::new(2)),
        AsmStatement::Return,
    ]));
    assert_eq!(program, wanted);

    let mut builder = AsmBuilder::new(vec![list(vec![sym("x_add_3"), num(5)])]);
    assert_eq!(builder.register_xfn("x_add_3".to_string()), Ok(0));
    let program = builder.build().unwrap();
    let mut wanted = Asm::new();
    wanted.xfns = vec!["x_add_3".to_string()];
    wanted.consts = vec![Value::NativeRef(0)];
    wanted.push_fn(AsmFn::new(0, vec![
        AsmStatement::PushConstant(0),
        AsmStatement::PushInteger(5),
        AsmStatement::Call(1),
        AsmStatement::Return,
    ]));
    assert_eq!(program, wanted);
}

#[test]
fn identical_strings_share_one_slot() {
    let program = build(vec![
        list(vec![sym("let"), sym("a"), text("same")]),
        list(vec![sym("let"), sym("b"), text("other")]),
        list(vec![sym("let"), sym("c"), text("same")]),
    ])
    .unwrap();
    assert_eq!(program.consts, vec![Value::Str("same".to_string()), Value::Str("other".to_string())]);
    assert_eq!(program.ifns[0].statements[4], AsmStatement::PushConstant(0));
}

#[test]
fn let_rebinding_reuses_the_slot() {
    let program = build(vec![
        list(vec![sym("let"), sym("a"), num(1)]),
        list(vec![sym("let"), sym("a"), num(2)]),
        sym("a"),
    ])
    .unwrap();
    assert_eq!(program.ifns[0].locals, 1);
    assert_eq!(program.ifns[0].statements, vec![
        AsmStatement::PushInteger(1),
        AsmStatement::Store(0),
        AsmStatement::PushInteger(2),
        AsmStatement::Store(0),
        AsmStatement::Load(0),
        AsmStatement::Return,
    ]);
}

#[test]
fn one_armed_if_pushes_unit() {
    let program = build(vec![list(vec![sym("if"), list(vec![sym("<"), num(1), num(2)]), num(7)])]).unwrap();
    assert_eq!(program.consts, vec![Value::Unit]);
    assert_eq!(program.ifns[0].statements, vec![
        AsmStatement::PushInteger(1),
        AsmStatement::PushInteger(2),
        AsmStatement::Lt,
        AsmStatement::JumpIfFalse(AsmLabel::new(1)),
        AsmStatement::PushInteger(7),
        AsmStatement::Jump(AsmLabel::new(2)),
        AsmStatement::Label(AsmLabel::new(1)),
        AsmStatement::PushConstant(0),
        AsmStatement::Label(AsmLabel::new(2)),
        AsmStatement::Return,
    ]);
}

#[test]
fn nested_functions_get_their_eventual_index() {
    let program = build(vec![
        list(vec![
            sym("fn"),
            sym("outer"),
            arr(vec![]),
            list(vec![sym("fn"), sym("inner"), arr(vec![]), num(1)]),
            list(vec![sym("inner")]),
        ]),
        list(vec![sym("outer")]),
    ])
    .unwrap();
    assert_eq!(program.consts, vec![Value::FunctionRef(1), Value::FunctionRef(2)]);
    assert_eq!(program.ifns.len(), 3);
    assert_eq!(program.ifns[2].statements, vec![AsmStatement::PushInteger(1), AsmStatement::Return]);
}

#[test]
fn build_errors() {
    assert_eq!(build(vec![list(vec![])]), Err(BuildError::EmptyList));
    assert_eq!(build(vec![list(vec![num(1), num(2)])]), Err(BuildError::BadHead(SExpKind::I64)));
    assert_eq!(build(vec![list(vec![sym("+")])]), Err(BuildError::Arity("+".to_string())));
    assert_eq!(build(vec![list(vec![sym("=="), num(1)])]), Err(BuildError::Arity("==".to_string())));
    assert_eq!(
        build(vec![list(vec![sym("let"), num(1), num(2)])]),
        Err(BuildError::NotAName("let".to_string()))
    );
    assert_eq!(
        build(vec![list(vec![sym("fn"), sym("f"), num(1), num(2)])]),
        Err(BuildError::NotAParamList("f".to_string()))
    );
    assert_eq!(
        build(vec![list(vec![sym("fn"), sym("f"), arr(vec![num(1)]), num(2)])]),
        Err(BuildError::NotAName("fn".to_string()))
    );
    assert_eq!(build(vec![sym("nothing")]), Err(BuildError::UnknownName("nothing".to_string())));
    assert_eq!(
        build(vec![list(vec![sym("nothing"), num(1)])]),
        Err(BuildError::UnknownName("nothing".to_string()))
    );
    assert_eq!(build(vec![arr(vec![])]), Err(BuildError::UnexpectedArray));
}
