use jisp::bytecode::{Bytecode, BytecodeFn, CALL, PUSH_CONSTANT, PUSH_INTEGER, RETURN};
use jisp::encoder::BytecodeBuilder;
use jisp::ir::{Asm, AsmFn, AsmLabel, AsmStatement};
use jisp::value::Value;
use jisp::vm::{NativeHost, NoNatives, Runner, RuntimeError};

struct AddThree;

impl NativeHost for AddThree {
    fn call(&mut self, _index: u32, args: Vec<Value>) -> Value {
        assert!(args.len() == 1);
        match args[0] {
            Value::Integer(val) => Value::Integer(val + 3),
            _ => panic!("unexpected value"),
        }
    }
}

fn run(program: Asm) -> Result<Value, RuntimeError> {
    let bytecode = BytecodeBuilder::new(program).build().unwrap();
    Runner::new(bytecode).run(&mut NoNatives)
}

fn single(locals: u32, statements: Vec<AsmStatement>) -> Asm {
    let mut program = Asm::new();
    program.push_fn(AsmFn::new(locals, statements));
    program
}

#[test]
fn runner_calc() {
    let program = single(0, vec![AsmStatement::PushInteger(0xff), AsmStatement::Return]);
    assert_eq!(run(program), Ok(Value::Integer(0xff)));

    let program = single(0, vec![
        AsmStatement::PushInteger(1),
        AsmStatement::PushInteger(2),
        AsmStatement::Add,
        AsmStatement::PushInteger(3),
        AsmStatement::Add,
        AsmStatement::Return,
    ]);
    assert_eq!(run(program), Ok(Value::Integer(6)));

    let program = single(0, vec![
        AsmStatement::PushInteger(6),
        AsmStatement::PushInteger(1),
        AsmStatement::Sub,
        AsmStatement::PushInteger(2),
        AsmStatement::Sub,
        AsmStatement::Return,
    ]);
    assert_eq!(run(program), Ok(Value::Integer(3)));
}

#[test]
fn runner_compare() {
    let program = single(0, vec![
        AsmStatement::PushInteger(6),
        AsmStatement::PushInteger(1),
        AsmStatement::Eq,
        AsmStatement::Return,
    ]);
    assert_eq!(run(program), Ok(Value::Boolean(false)));

    let program = single(0, vec![
        AsmStatement::PushInteger(255),
        AsmStatement::PushInteger(255),
        AsmStatement::Eq,
        AsmStatement::Return,
    ]);
    assert_eq!(run(program), Ok(Value::Boolean(true)));

    let program = single(0, vec![
        AsmStatement::PushInteger(255),
        AsmStatement::PushInteger(255),
        AsmStatement::Ne,
        AsmStatement::Return,
    ]);
    assert_eq!(run(program), Ok(Value::Boolean(false)));
}

#[test]
fn runner_locals() {
    let program = single(2, vec![
        AsmStatement::PushInteger(13),
        AsmStatement::Store(0),
        AsmStatement::PushInteger(12),
        AsmStatement::Store(1),
        AsmStatement::Load(0),
        AsmStatement::Load(1),
        AsmStatement::Add,
        AsmStatement::Return,
    ]);
    assert_eq!(run(program), Ok(Value::Integer(25)));
}

#[test]
fn runner_label_jump() {
    let program = single(0, vec![
        AsmStatement::PushInteger(2),
        AsmStatement::PushInteger(1),
        AsmStatement::Eq,
        AsmStatement::JumpIfFalse(AsmLabel::new(1)),
        AsmStatement::PushInteger(1),
        AsmStatement::Jump(AsmLabel::new(2)),
        AsmStatement::Label(AsmLabel::new(1)),
        AsmStatement::PushInteger(2),
        AsmStatement::PushInteger(1),
        AsmStatement::Mul,
        AsmStatement::Label(AsmLabel::new(2)),
        AsmStatement::Return,
    ]);
    assert_eq!(run(program), Ok(Value::Integer(2)));
}

#[test]
fn function() {
    let mut program = Asm::new();
    program.consts = vec![Value::FunctionRef(1)];
    program.push_fn(AsmFn::new(0, vec![
        AsmStatement::PushConstant(0),
        AsmStatement::Call(0),
        AsmStatement::Return,
    ]));
    program.push_fn(AsmFn::new(0, vec![AsmStatement::PushInteger(5), AsmStatement::Return]));
    assert_eq!(run(program), Ok(Value::Integer(5)));

    let mut program = Asm::new();
    program.consts = vec![Value::FunctionRef(1)];
    program.push_fn(AsmFn::new(0, vec![
        AsmStatement::PushConstant(0),
        AsmStatement::PushInteger(3),
        AsmStatement::PushInteger(5),
        AsmStatement::Call(2),
        AsmStatement::Return,
    ]));
    program.push_fn(AsmFn::new(2, vec![
        AsmStatement::Load(0),
        AsmStatement::Load(1),
        AsmStatement::Add,
        AsmStatement::Return,
    ]));
    assert_eq!(run(program), Ok(Value::Integer(8)));

    let mut program = Asm::new();
    program.consts = vec![Value::FunctionRef(1)];
    program.push_fn(AsmFn::new(0, vec![
        AsmStatement::PushConstant(0),
        AsmStatement::PushInteger(5),
        AsmStatement::Call(1),
        AsmStatement::Return,
    ]));
    program.push_fn(AsmFn::new(1, vec![
        AsmStatement::Load(0),
        AsmStatement::PushInteger(0),
        AsmStatement::Eq,
        AsmStatement::JumpIfFalse(AsmLabel::new(1)),
        AsmStatement::PushInteger(1),
        AsmStatement::Jump(AsmLabel::new(2)),
        AsmStatement::Label(AsmLabel::new(1)),
        AsmStatement::PushConstant(0),
        AsmStatement::Load(0),
        AsmStatement::PushInteger(1),
        AsmStatement::Sub,
        AsmStatement::Call(1),
        AsmStatement::Load(0),
        AsmStatement::Mul,
        AsmStatement::Label(AsmLabel::new(2)),
        AsmStatement::Return,
    ]));
    assert_eq!(run(program), Ok(Value::Integer(120)));

    let mut program = Asm::new();
    program.xfns = vec!["x_add_3".to_string()];
    program.consts = vec![Value::NativeRef(0)];
    program.push_fn(AsmFn::new(0, vec![
        AsmStatement::PushConstant(0),
        AsmStatement::PushInteger(5),
        AsmStatement::Call(1),
        AsmStatement::Return,
    ]));
    let bytecode = BytecodeBuilder::new(program).build().unwrap();
    assert_eq!(Runner::new(bytecode).run(&mut AddThree), Ok(Value::Integer(8)));
}

#[test]
fn runtime_faults() {
    let program = single(0, vec![AsmStatement::Return]);
    assert_eq!(run(program), Err(RuntimeError::EmptyStack));

    let program = single(0, vec![
        AsmStatement::PushInteger(1),
        AsmStatement::PushInteger(0),
        AsmStatement::Div,
        AsmStatement::Return,
    ]);
    assert_eq!(run(program), Err(RuntimeError::DivisionByZero));

    let program = single(0, vec![
        AsmStatement::PushInteger(i64::MAX),
        AsmStatement::PushInteger(1),
        AsmStatement::Add,
        AsmStatement::Return,
    ]);
    assert_eq!(run(program), Err(RuntimeError::Overflow));

    let program = single(0, vec![
        AsmStatement::PushInteger(1),
        AsmStatement::PushInteger(2),
        AsmStatement::Call(1),
        AsmStatement::Return,
    ]);
    assert_eq!(run(program), Err(RuntimeError::NotCallable));

    let program = single(0, vec![AsmStatement::Load(0), AsmStatement::Return]);
    assert_eq!(run(program), Err(RuntimeError::BadLocal));

    let program = single(0, vec![AsmStatement::PushConstant(0), AsmStatement::Return]);
    assert_eq!(run(program), Err(RuntimeError::BadConstant));

    let program = single(0, vec![AsmStatement::PushInteger(1), AsmStatement::JumpIfFalse(AsmLabel::new(1)), AsmStatement::Label(AsmLabel::new(1)), AsmStatement::Return]);
    assert_eq!(run(program), Err(RuntimeError::TypeMismatch(jisp::bytecode::Op::JumpIfFalse)));

    assert_eq!(Runner::new(Bytecode::new()).run(&mut NoNatives), Err(RuntimeError::BadFunction));

    let program = single(0, vec![AsmStatement::Label(AsmLabel::new(1)), AsmStatement::Jump(AsmLabel::new(1))]);
    let bytecode = BytecodeBuilder::new(program).build().unwrap();
    assert_eq!(Runner::new(bytecode).run_with_fuel(&mut NoNatives, 100), Err(RuntimeError::OutOfFuel));
}

#[test]
fn locals_start_as_unit() {
    let program = single(1, vec![AsmStatement::Load(0), AsmStatement::Return]);
    assert_eq!(run(program), Ok(Value::Unit));
}

#[test]
fn malformed_bytecode_faults() {
    let mut b = Bytecode::new();
    b.ifns.push(BytecodeFn::from(0, vec![0xff]));
    assert_eq!(Runner::new(b).run(&mut NoNatives), Err(RuntimeError::BadOpcode));

    let mut b = Bytecode::new();
    b.ifns.push(BytecodeFn::from(0, vec![PUSH_INTEGER, 1, 0]));
    assert_eq!(Runner::new(b).run(&mut NoNatives), Err(RuntimeError::PcOutOfRange));

    let mut b = Bytecode::new();
    b.consts = vec![Value::NativeRef(0)];
    b.ifns.push(BytecodeFn::from(0, vec![PUSH_CONSTANT, 0, 0, 0, 0, CALL, 0, 0, 0, 0, RETURN]));
    assert_eq!(Runner::new(b).run(&mut NoNatives), Err(RuntimeError::BadNative));

    let mut b = Bytecode::new();
    b.consts = vec![Value::FunctionRef(1)];
    b.ifns.push(BytecodeFn::from(0, vec![
        PUSH_CONSTANT, 0, 0, 0, 0,
        PUSH_INTEGER, 7, 0, 0, 0, 0, 0, 0, 0,
        CALL, 1, 0, 0, 0,
        RETURN,
    ]));
    b.ifns.push(BytecodeFn::from(0, vec![PUSH_INTEGER, 1, 0, 0, 0, 0, 0, 0, 0, RETURN]));
    assert_eq!(Runner::new(b).run(&mut NoNatives), Err(RuntimeError::ArgumentCount));
}
