use jisp::builder::BuildError;
use jisp::bytecode::Op;
use jisp::pipeline::{evaluate, Error};
use jisp::sexp::SExp;
use jisp::value::Value;
use jisp::vm::{NativeHost, NoNatives, RuntimeError};

fn sym(s: &str) -> SExp {
    SExp::Sym(s.to_string())
}

fn num(n: i64) -> SExp {
    SExp::I64(n)
}

fn list(v: Vec<SExp>) -> SExp {
    SExp::List(v)
}

fn arr(v: Vec<SExp>) -> SExp {
    SExp::Array(v)
}

fn eval(forms: Vec<SExp>) -> Result<Value, Error> {
    evaluate(forms, &vec![], &mut NoNatives)
}

fn fac_def() -> SExp {
    list(vec![
        sym("fn"),
        sym("fac"),
        arr(vec![sym("n")]),
        list(vec![
            sym("if"),
            list(vec![sym("=="), sym("n"), num(0)]),
            num(1),
            list(vec![
                sym("*"),
                list(vec![sym("fac"), list(vec![sym("-"), sym("n"), num(1)])]),
                sym("n"),
            ]),
        ]),
    ])
}

struct AddThree;

impl NativeHost for AddThree {
    fn call(&mut self, _index: u32, args: Vec<Value>) -> Value {
        assert!(args.len() == 1);
        match args[0] {
            Value::Integer(val) => Value::Integer(val + 3),
            _ => panic!("unexpected value"),
        }
    }
}

#[test]
fn literal_evaluates_to_itself() {
    for n in [0i64, 1, -1, 42, i64::MAX, i64::MIN] {
        assert_eq!(eval(vec![num(n)]), Ok(Value::Integer(n)));
    }
}

#[test]
fn variadic_arithmetic() {
    assert_eq!(eval(vec![list(vec![sym("+"), num(1), num(2), num(3)])]), Ok(Value::Integer(6)));
    assert_eq!(eval(vec![list(vec![sym("*"), num(2), num(3), num(4)])]), Ok(Value::Integer(24)));
    assert_eq!(eval(vec![list(vec![sym("-"), num(10), num(1), num(2)])]), Ok(Value::Integer(7)));
    assert_eq!(eval(vec![list(vec![sym("/"), num(100), num(5), num(2)])]), Ok(Value::Integer(10)));
    assert_eq!(eval(vec![list(vec![sym("-"), num(5)])]), Ok(Value::Integer(5)));
}

#[test]
fn comparisons() {
    assert_eq!(eval(vec![list(vec![sym("=="), num(1), num(1)])]), Ok(Value::Boolean(true)));
    assert_eq!(eval(vec![list(vec![sym("!="), num(1), num(1)])]), Ok(Value::Boolean(false)));
    assert_eq!(eval(vec![list(vec![sym("<"), num(1), num(2)])]), Ok(Value::Boolean(true)));
    assert_eq!(eval(vec![list(vec![sym("<="), num(2), num(2)])]), Ok(Value::Boolean(true)));
    assert_eq!(eval(vec![list(vec![sym(">"), num(1), num(2)])]), Ok(Value::Boolean(false)));
    assert_eq!(eval(vec![list(vec![sym(">="), num(1), num(2)])]), Ok(Value::Boolean(false)));
}

#[test]
fn locals_and_last_form() {
    assert_eq!(
        eval(vec![
            list(vec![sym("let"), sym("a"), num(12)]),
            list(vec![sym("let"), sym("b"), num(13)]),
            list(vec![sym("+"), sym("a"), sym("b")]),
        ]),
        Ok(Value::Integer(25))
    );
    assert_eq!(eval(vec![num(1), num(2), num(3)]), Ok(Value::Integer(3)));
}

#[test]
fn control_flow() {
    assert_eq!(
        eval(vec![list(vec![
            sym("if"),
            list(vec![sym("=="), num(2), num(1)]),
            num(1),
            list(vec![sym("*"), num(2), num(1)]),
        ])]),
        Ok(Value::Integer(2))
    );
    assert_eq!(
        eval(vec![list(vec![sym("if"), list(vec![sym("=="), num(2), num(1)]), num(1)])]),
        Ok(Value::Unit)
    );
}

#[test]
fn recursion() {
    assert_eq!(eval(vec![fac_def(), list(vec![sym("fac"), num(5)])]), Ok(Value::Integer(120)));
    assert_eq!(eval(vec![fac_def(), list(vec![sym("fac"), num(10)])]), Ok(Value::Integer(3628800)));
}

#[test]
fn native_bridging() {
    let natives = vec!["x_add_3".to_string()];
    assert_eq!(
        evaluate(vec![list(vec![sym("x_add_3"), num(5)])], &natives, &mut AddThree),
        Ok(Value::Integer(8))
    );
}

#[test]
fn evaluation_is_repeatable() {
    let first = eval(vec![fac_def(), list(vec![sym("fac"), num(6)])]);
    let second = eval(vec![fac_def(), list(vec![sym("fac"), num(6)])]);
    assert_eq!(first, Ok(Value::Integer(720)));
    assert_eq!(first, second);
}

#[test]
fn strings_evaluate_to_their_constant() {
    assert_eq!(
        eval(vec![
            list(vec![sym("let"), sym("h"), SExp::Str("hello".to_string())]),
            list(vec![sym("let"), sym("w"), SExp::Str("world".to_string())]),
            list(vec![sym("if"), list(vec![sym("=="), num(1), num(1)]), sym("h"), sym("w")]),
        ]),
        Ok(Value::Str("hello".to_string()))
    );
}

#[test]
fn adding_a_boolean_is_a_runtime_error() {
    assert_eq!(
        eval(vec![list(vec![sym("+"), list(vec![sym("=="), num(1), num(1)]), num(1)])]),
        Err(Error::Runtime(RuntimeError::TypeMismatch(Op::Add)))
    );
}

#[test]
fn errors_of_each_stage() {
    assert_eq!(eval(vec![list(vec![sym("undefined_fn"), num(1)])]), Err(Error::Build(BuildError::UnknownName("undefined_fn".to_string()))));
    assert_eq!(eval(vec![list(vec![sym("let"), sym("a"), num(1)])]), Err(Error::Runtime(RuntimeError::EmptyStack)));
    assert_eq!(eval(vec![]), Err(Error::Runtime(RuntimeError::EmptyStack)));
    assert_eq!(
        eval(vec![list(vec![sym("*"), num(i64::MAX), num(2)])]),
        Err(Error::Runtime(RuntimeError::Overflow))
    );
    assert_eq!(
        eval(vec![list(vec![sym("/"), num(i64::MIN), num(-1)])]),
        Err(Error::Runtime(RuntimeError::Overflow))
    );
}
