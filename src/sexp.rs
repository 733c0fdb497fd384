use vstd::prelude::*;

verus! {

/// A node of a parsed S-expression tree.
#[derive(Debug, PartialEq, Eq)]
pub enum SExp {
    I64(i64),
    Sym(String),
    Str(String),
    /// A parenthesised list; its first element usually names a form, an operator or a
    /// callee.
    List(Vec<SExp>),
    /// A bracketed list; stands only as the parameter list of `fn`.
    Array(Vec<SExp>),
}

/// An S-expression as the specifications see it.
pub enum SExpModel {
    I64(i64),
    Sym(Seq<char>),
    Str(Seq<char>),
    List(Seq<SExpModel>),
    Array(Seq<SExpModel>),
}

pub open spec fn sexp_model(e: SExp) -> SExpModel
    decreases e,
{
    match e {
        SExp::I64(n) => SExpModel::I64(n),
        SExp::Sym(s) => SExpModel::Sym(s@),
        SExp::Str(s) => SExpModel::Str(s@),
        SExp::List(v) => SExpModel::List(sexp_models(v@)),
        SExp::Array(v) => SExpModel::Array(sexp_models(v@)),
    }
}

pub open spec fn sexp_models(v: Seq<SExp>) -> Seq<SExpModel>
    decreases v,
{
    if v.len() == 0 {
        Seq::empty()
    } else {
        sexp_models(v.drop_last()).push(sexp_model(v.last()))
    }
}

/// The tag of an [`SExp`], without its payload.
#[derive(Debug, Clone, Copy, PartialEq, Eq, Structural)]
pub enum SExpKind {
    I64,
    Sym,
    Str,
    List,
    Array,
}

impl SExp {
    pub open spec fn spec_kind(&self) -> SExpKind {
        match self {
            SExp::I64(..) => SExpKind::I64,
            SExp::Sym(..) => SExpKind::Sym,
            SExp::Str(..) => SExpKind::Str,
            SExp::List(..) => SExpKind::List,
            SExp::Array(..) => SExpKind::Array,
        }
    }

    /// The tag of this node.
    pub fn kind(&self) -> (r: SExpKind)
        ensures
            r == self.spec_kind(),
    {
        match self {
            SExp::I64(..) => SExpKind::I64,
            SExp::Sym(..) => SExpKind::Sym,
            SExp::Str(..) => SExpKind::Str,
            SExp::List(..) => SExpKind::List,
            SExp::Array(..) => SExpKind::Array,
        }
    }
}

impl SExpKind {
    /// The name of the tag, as error messages show it.
    pub fn display(&self) -> (r: &'static str)
        ensures
            r@ == match *self {
                SExpKind::I64 => "Integer"@,
                SExpKind::Sym => "Symbol"@,
                SExpKind::Str => "String"@,
                SExpKind::List => "List"@,
                SExpKind::Array => "Array"@,
            },
    {
        match self {
            SExpKind::I64 => "Integer",
            SExpKind::Sym => "Symbol",
            SExpKind::Str => "String",
            SExpKind::List => "List",
            SExpKind::Array => "Array",
        }
    }
}

} // verus!
