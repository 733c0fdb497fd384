use jisp::bytecode::{BytecodeFn, Op, EQ, JUMP, JUMP_IF_FALSE, MUL, PUSH_CONSTANT, PUSH_INTEGER, RETURN, ADD};
use jisp::encoder::{encode_fn, BytecodeBuilder, EncodeError};
use jisp::ir::{Asm, AsmFn, AsmLabel, AsmStatement};
use jisp::value::Value;

#[test]
fn bytecode_builder_basic() {
    let mut program = Asm::new();
    program.push_fn(AsmFn::new(0, vec![AsmStatement::PushInteger(0xff), AsmStatement::Return]));
    let bytecode = BytecodeBuilder::new(program).build().unwrap();
    assert_eq!(bytecode.ifns, vec![BytecodeFn::from(0, vec![
        PUSH_INTEGER, 0xff, 0, 0, 0, 0, 0, 0, 0,
        RETURN,
    ])]);

    let mut program = Asm::new();
    program.push_fn(AsmFn::new(0, vec![
        AsmStatement::PushInteger(1),
        AsmStatement::PushInteger(2),
        AsmStatement::Add,
        AsmStatement::Return,
    ]));
    let bytecode = BytecodeBuilder::new(program).build().unwrap();
    assert_eq!(bytecode.ifns, vec![BytecodeFn::from(0, vec![
        PUSH_INTEGER, 0x01, 0, 0, 0, 0, 0, 0, 0,
        PUSH_INTEGER, 0x02, 0, 0, 0, 0, 0, 0, 0,
        ADD,
        RETURN,
    ])]);
}

#[test]
fn bytecode_builder_label_jump() {
    let mut program = Asm::new();
    program.push_fn(AsmFn::new(0, vec![
        AsmStatement::PushInteger(2),
        AsmStatement::PushInteger(1),
        AsmStatement::Eq,
        AsmStatement::JumpIfFalse(AsmLabel::new(1)),
        AsmStatement::PushInteger(1),
        AsmStatement::Jump(AsmLabel::new(2)),
        AsmStatement::Label(AsmLabel::new(1)),
        AsmStatement::PushInteger(2),
        AsmStatement::PushInteger(1),
        AsmStatement::Mul,
        AsmStatement::Label(AsmLabel::new(2)),
        AsmStatement::Return,
    ]));
    let bytecode = BytecodeBuilder::new(program).build().unwrap();
    assert_eq!(bytecode.ifns, vec![BytecodeFn::from(0, vec![
        PUSH_INTEGER, 0x02, 0, 0, 0, 0, 0, 0, 0,
        PUSH_INTEGER, 0x01, 0, 0, 0, 0, 0, 0, 0,
        EQ,
        JUMP_IF_FALSE, 0x26, 0, 0, 0,
        PUSH_INTEGER, 0x01, 0, 0, 0, 0, 0, 0, 0,
        JUMP, 0x39, 0, 0, 0,
        PUSH_INTEGER, 0x02, 0, 0, 0, 0, 0, 0, 0,
        PUSH_INTEGER, 0x01, 0, 0, 0, 0, 0, 0, 0,
        MUL,
        RETURN,
    ])]);
}

#[test]
fn bytecode_builder_string() {
    let mut program = Asm::new();
    program.consts = vec![Value::Str("hello".to_string())];
    program.push_fn(AsmFn::new(0, vec![AsmStatement::PushConstant(0), AsmStatement::Return]));
    let bytecode = BytecodeBuilder::new(program).build().unwrap();
    assert_eq!(bytecode.consts, vec![Value::Str("hello".to_string())]);
    assert_eq!(bytecode.ifns, vec![BytecodeFn::from(0, vec![PUSH_CONSTANT, 0x00, 0, 0, 0, RETURN])]);
}

#[test]
fn jump_operands_point_at_their_labels() {
    let f = AsmFn::new(0, vec![
        AsmStatement::Jump(AsmLabel::new(7)),
        AsmStatement::PushInteger(-1),
        AsmStatement::Label(AsmLabel::new(7)),
        AsmStatement::JumpIfFalse(AsmLabel::new(7)),
        AsmStatement::Return,
    ]);
    let b = encode_fn(&f).unwrap();
    let bytes = b.bytes();
    assert_eq!(bytes.len(), 5 + 9 + 5 + 1);
    assert_eq!(&bytes[0..5], &[JUMP, 14, 0, 0, 0]);
    assert_eq!(&bytes[5..14], &[PUSH_INTEGER, 0xff, 0xff, 0xff, 0xff, 0xff, 0xff, 0xff, 0xff]);
    assert_eq!(&bytes[14..19], &[JUMP_IF_FALSE, 14, 0, 0, 0]);
}

#[test]
fn undefined_label_is_an_error() {
    let f = AsmFn::new(0, vec![AsmStatement::Jump(AsmLabel::new(3)), AsmStatement::Return]);
    assert_eq!(encode_fn(&f), Err(EncodeError::UndefinedLabel));
}

#[test]
fn opcodes_round_trip() {
    let ops = [
        Op::Return, Op::PushInteger, Op::PushConstant, Op::Add, Op::Sub, Op::Mul, Op::Div, Op::Eq,
        Op::Ne, Op::Lt, Op::Le, Op::Gt, Op::Ge, Op::Store, Op::Load, Op::Jump, Op::JumpIfFalse,
        Op::Call,
    ];
    for op in ops {
        assert_eq!(Op::from_byte(op.byte()), Some(op));
    }
    assert_eq!(Op::from_byte(0xff), None);
    assert_eq!(Op::PushInteger.op_len(), 9);
    assert_eq!(Op::Call.op_len(), 5);
    assert_eq!(Op::Add.op_len(), 1);
    assert_eq!(Op::JumpIfFalse.display(), "JUMP_IF_FALSE");
}
