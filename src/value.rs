use vstd::prelude::*;

verus! {

/// A runtime value of the virtual machine.
#[derive(Debug, PartialEq, Eq, Hash)]
pub enum Value {
    /// The marker of a local slot that holds nothing yet.
    Unit,
    Integer(i64),
    Boolean(bool),
    Str(String),
    /// A reference to a compiled function, by its index in the program.
    FunctionRef(u32),
    /// A reference to a host-registered native function, by its index.
    NativeRef(u32),
}

/// The tag of a [`Value`], without its payload.
#[derive(Debug, Clone, Copy, PartialEq, Eq, Structural)]
pub enum ValueKind {
    Unit,
    Integer,
    Boolean,
    Str,
    FunctionRef,
    NativeRef,
}

/// Two values are the same constant: equal tags and equal payloads, strings compared by
/// their characters.
pub open spec fn same_value(a: Value, b: Value) -> bool {
    match (a, b) {
        (Value::Unit, Value::Unit) => true,
        (Value::Integer(x), Value::Integer(y)) => x == y,
        (Value::Boolean(x), Value::Boolean(y)) => x == y,
        (Value::Str(x), Value::Str(y)) => x@ == y@,
        (Value::FunctionRef(x), Value::FunctionRef(y)) => x == y,
        (Value::NativeRef(x), Value::NativeRef(y)) => x == y,
        _ => false,
    }
}

impl Value {
    pub open spec fn spec_kind(&self) -> ValueKind {
        match self {
            Value::Unit => ValueKind::Unit,
            Value::Integer(..) => ValueKind::Integer,
            Value::Boolean(..) => ValueKind::Boolean,
            Value::Str(..) => ValueKind::Str,
            Value::FunctionRef(..) => ValueKind::FunctionRef,
            Value::NativeRef(..) => ValueKind::NativeRef,
        }
    }

    /// The tag of this value.
    pub fn kind(&self) -> (r: ValueKind)
        ensures
            r == self.spec_kind(),
    {
        match self {
            Value::Unit => ValueKind::Unit,
            Value::Integer(..) => ValueKind::Integer,
            Value::Boolean(..) => ValueKind::Boolean,
            Value::Str(..) => ValueKind::Str,
            Value::FunctionRef(..) => ValueKind::FunctionRef,
            Value::NativeRef(..) => ValueKind::NativeRef,
        }
    }

    /// A copy of this value, equal to it.
    pub fn copy(&self) -> (r: Value)
        ensures
            r == *self,
    {
        match self {
            Value::Unit => Value::Unit,
            Value::Integer(n) => Value::Integer(*n),
            Value::Boolean(b) => Value::Boolean(*b),
            Value::Str(s) => Value::Str(s.clone()),
            Value::FunctionRef(i) => Value::FunctionRef(*i),
            Value::NativeRef(i) => Value::NativeRef(*i),
        }
    }

    /// Whether two values are the same constant (see [`same_value`]).
    pub fn same(&self, other: &Value) -> (r: bool)
        ensures
            r == same_value(*self, *other),
    {
        match (self, other) {
            (Value::Unit, Value::Unit) => true,
            (Value::Integer(x), Value::Integer(y)) => *x == *y,
            (Value::Boolean(x), Value::Boolean(y)) => *x == *y,
            (Value::Str(x), Value::Str(y)) => *x == *y,
            (Value::FunctionRef(x), Value::FunctionRef(y)) => *x == *y,
            (Value::NativeRef(x), Value::NativeRef(y)) => *x == *y,
            _ => false,
        }
    }
}

impl ValueKind {
    /// The name of the tag, as error messages show it.
    pub fn display(&self) -> (r: &'static str)
        ensures
            r@ == match *self {
                ValueKind::Unit => "Unit"@,
                ValueKind::Integer => "Integer"@,
                ValueKind::Boolean => "Boolean"@,
                ValueKind::Str => "String"@,
                ValueKind::FunctionRef => "FunctionRef"@,
                ValueKind::NativeRef => "NativeRef"@,
            },
    {
        match self {
            ValueKind::Unit => "Unit",
            ValueKind::Integer => "Integer",
            ValueKind::Boolean => "Boolean",
            ValueKind::Str => "String",
            ValueKind::FunctionRef => "FunctionRef",
            ValueKind::NativeRef => "NativeRef",
        }
    }
}

} // verus!
