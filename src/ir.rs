use vstd::prelude::*;

use crate::value::Value;

verus! {

/// A symbolic jump target inside one function. Labels are resolved to byte offsets when
/// the function is encoded and never appear in bytecode.
#[derive(Debug, Clone, Copy, PartialEq, Eq, Structural, Hash)]
pub struct AsmLabel {
    pub id: u32,
}

impl AsmLabel {
    pub fn new(id: u32) -> (r: AsmLabel)
        ensures
            r.id == id,
    {
        AsmLabel { id }
    }
}

/// One instruction of the intermediate representation.
#[derive(Debug, Clone, Copy, PartialEq, Eq, Structural)]
pub enum AsmStatement {
    /// Marks a position; encodes to no bytes.
    Label(AsmLabel),
    /// Pops the top of the stack and returns it to the caller.
    Return,
    PushInteger(i64),
    /// Pushes a copy of the constant at this index of the constant pool.
    PushConstant(u32),
    /// Pushes a copy of the local slot.
    Load(u32),
    /// Pops the top of the stack into the local slot.
    Store(u32),
    Add,
    Sub,
    Mul,
    Div,
    Eq,
    Ne,
    Lt,
    Le,
    Gt,
    Ge,
    Jump(AsmLabel),
    /// Pops a boolean and jumps when it is false.
    JumpIfFalse(AsmLabel),
    /// Pops this many arguments and then the callee, calls it and pushes its result.
    Call(u32),
}

/// The tag of an [`AsmStatement`], without its operand.
#[derive(Debug, Clone, Copy, PartialEq, Eq, Structural)]
pub enum AsmStatKind {
    Label,
    Return,
    PushInteger,
    PushConstant,
    Load,
    Store,
    Add,
    Sub,
    Mul,
    Div,
    Eq,
    Ne,
    Lt,
    Le,
    Gt,
    Ge,
    Jump,
    JumpIfFalse,
    Call,
}

impl AsmStatement {
    pub open spec fn spec_kind(&self) -> AsmStatKind {
        match self {
            AsmStatement::Label(..) => AsmStatKind::Label,
            AsmStatement::Return => AsmStatKind::Return,
            AsmStatement::PushInteger(..) => AsmStatKind::PushInteger,
            AsmStatement::PushConstant(..) => AsmStatKind::PushConstant,
            AsmStatement::Load(..) => AsmStatKind::Load,
            AsmStatement::Store(..) => AsmStatKind::Store,
            AsmStatement::Add => AsmStatKind::Add,
            AsmStatement::Sub => AsmStatKind::Sub,
            AsmStatement::Mul => AsmStatKind::Mul,
            AsmStatement::Div => AsmStatKind::Div,
            AsmStatement::Eq => AsmStatKind::Eq,
            AsmStatement::Ne => AsmStatKind::Ne,
            AsmStatement::Lt => AsmStatKind::Lt,
            AsmStatement::Le => AsmStatKind::Le,
            AsmStatement::Gt => AsmStatKind::Gt,
            AsmStatement::Ge => AsmStatKind::Ge,
            AsmStatement::Jump(..) => AsmStatKind::Jump,
            AsmStatement::JumpIfFalse(..) => AsmStatKind::JumpIfFalse,
            AsmStatement::Call(..) => AsmStatKind::Call,
        }
    }

    /// The tag of this statement.
    pub fn kind(&self) -> (r: AsmStatKind)
        ensures
            r == self.spec_kind(),
    {
        match self {
            AsmStatement::Label(..) => AsmStatKind::Label,
            AsmStatement::Return => AsmStatKind::Return,
            AsmStatement::PushInteger(..) => AsmStatKind::PushInteger,
            AsmStatement::PushConstant(..) => AsmStatKind::PushConstant,
            AsmStatement::Load(..) => AsmStatKind::Load,
            AsmStatement::Store(..) => AsmStatKind::Store,
            AsmStatement::Add => AsmStatKind::Add,
            AsmStatement::Sub => AsmStatKind::Sub,
            AsmStatement::Mul => AsmStatKind::Mul,
            AsmStatement::Div => AsmStatKind::Div,
            AsmStatement::Eq => AsmStatKind::Eq,
            AsmStatement::Ne => AsmStatKind::Ne,
            AsmStatement::Lt => AsmStatKind::Lt,
            AsmStatement::Le => AsmStatKind::Le,
            AsmStatement::Gt => AsmStatKind::Gt,
            AsmStatement::Ge => AsmStatKind::Ge,
            AsmStatement::Jump(..) => AsmStatKind::Jump,
            AsmStatement::JumpIfFalse(..) => AsmStatKind::JumpIfFalse,
            AsmStatement::Call(..) => AsmStatKind::Call,
        }
    }
}

/// A function of the intermediate representation.
#[derive(Debug, PartialEq, Eq)]
pub struct AsmFn {
    /// The number of local slots; arguments occupy the first ones.
    pub locals: u32,
    pub statements: Vec<AsmStatement>,
}

impl AsmFn {
    pub fn new(locals: u32, statements: Vec<AsmStatement>) -> (r: AsmFn)
        ensures
            r.locals == locals,
            r.statements@ == statements@,
    {
        AsmFn { locals, statements }
    }

    pub fn push_statement(&mut self, statement: AsmStatement)
        ensures
            final(self).locals == old(self).locals,
            final(self).statements@ == old(self).statements@.push(statement),
    {
        self.statements.push(statement);
    }
}

/// Each function as its locals count and statements.
pub open spec fn fn_models(v: Seq<AsmFn>) -> Seq<(u32, Seq<AsmStatement>)> {
    v.map_values(|f: AsmFn| (f.locals, f.statements@))
}

/// A whole program of the intermediate representation.
#[derive(Debug, PartialEq, Eq)]
pub struct Asm {
    /// The constant pool.
    pub consts: Vec<Value>,
    /// The functions; the first one is the entry unit.
    pub ifns: Vec<AsmFn>,
    /// The names of the native functions, by index.
    pub xfns: Vec<String>,
}

impl Asm {
    pub fn new() -> (r: Asm)
        ensures
            r.consts@.len() == 0,
            r.ifns@.len() == 0,
            r.xfns@.len() == 0,
    {
        Asm { consts: Vec::new(), ifns: Vec::new(), xfns: Vec::new() }
    }

    pub fn push_fn(&mut self, f: AsmFn)
        ensures
            final(self).consts == old(self).consts,
            final(self).xfns == old(self).xfns,
            final(self).ifns@ == old(self).ifns@.push(f),
    {
        self.ifns.push(f);
    }
}

} // verus!
