use vstd::prelude::*;

verus! {

/// Where a token starts: line and column, both counted from 1.
#[derive(Debug, Clone, Copy, PartialEq, Eq, Structural)]
pub struct TokenPos {
    pub lineno: u32,
    pub offset: u32,
}

/// The tag of a token.
#[derive(Debug, Clone, Copy, PartialEq, Eq, Structural)]
pub enum TokenKind {
    Lparam,
    Rparam,
    Lsquare,
    Rsquare,
    Int,
    Str,
    Sym,
    Eof,
}

/// What a token holds.
#[derive(Debug, PartialEq, Eq, Clone)]
pub enum TokenVal {
    /// `(`
    Lparam,
    /// `)`
    Rparam,
    /// `[`
    Lsquare,
    /// `]`
    Rsquare,
    Int(i64),
    /// A string literal, without its quotes.
    Str(String),
    Sym(String),
    /// The end of the source.
    Eof,
}

/// A token's value as the specifications see it.
pub enum TokenModel {
    Lparam,
    Rparam,
    Lsquare,
    Rsquare,
    Int(i64),
    Str(Seq<char>),
    Sym(Seq<char>),
    Eof,
}

/// One token of the source.
#[derive(Debug, PartialEq, Eq, Clone)]
pub struct Token {
    pub pos: TokenPos,
    pub val: TokenVal,
}

pub open spec fn model_kind(t: TokenModel) -> TokenKind {
    match t {
        TokenModel::Lparam => TokenKind::Lparam,
        TokenModel::Rparam => TokenKind::Rparam,
        TokenModel::Lsquare => TokenKind::Lsquare,
        TokenModel::Rsquare => TokenKind::Rsquare,
        TokenModel::Int(_) => TokenKind::Int,
        TokenModel::Str(_) => TokenKind::Str,
        TokenModel::Sym(_) => TokenKind::Sym,
        TokenModel::Eof => TokenKind::Eof,
    }
}

impl TokenVal {
    pub open spec fn model(&self) -> TokenModel {
        match self {
            TokenVal::Lparam => TokenModel::Lparam,
            TokenVal::Rparam => TokenModel::Rparam,
            TokenVal::Lsquare => TokenModel::Lsquare,
            TokenVal::Rsquare => TokenModel::Rsquare,
            TokenVal::Int(n) => TokenModel::Int(*n),
            TokenVal::Str(s) => TokenModel::Str(s@),
            TokenVal::Sym(s) => TokenModel::Sym(s@),
            TokenVal::Eof => TokenModel::Eof,
        }
    }

    /// The tag of this token.
    pub fn kind(&self) -> (r: TokenKind)
        ensures
            r == model_kind(self.model()),
    {
        match self {
            TokenVal::Lparam => TokenKind::Lparam,
            TokenVal::Rparam => TokenKind::Rparam,
            TokenVal::Lsquare => TokenKind::Lsquare,
            TokenVal::Rsquare => TokenKind::Rsquare,
            TokenVal::Int(_) => TokenKind::Int,
            TokenVal::Str(_) => TokenKind::Str,
            TokenVal::Sym(_) => TokenKind::Sym,
            TokenVal::Eof => TokenKind::Eof,
        }
    }
}

/// The models of a sequence of tokens.
pub open spec fn token_models(ts: Seq<Token>) -> Seq<TokenModel> {
    ts.map_values(|t: Token| t.val.model())
}

impl TokenKind {
    /// The name of the tag, as error messages show it.
    pub fn display(&self) -> (r: &'static str)
        ensures
            r@ == match *self {
                TokenKind::Lparam => "'('"@,
                TokenKind::Rparam => "')'"@,
                TokenKind::Lsquare => "'['"@,
                TokenKind::Rsquare => "']'"@,
                TokenKind::Int => "integer"@,
                TokenKind::Str => "string"@,
                TokenKind::Sym => "symbol"@,
                TokenKind::Eof => "end of input"@,
            },
    {
        match self {
            TokenKind::Lparam => "'('",
            TokenKind::Rparam => "')'",
            TokenKind::Lsquare => "'['",
            TokenKind::Rsquare => "']'",
            TokenKind::Int => "integer",
            TokenKind::Str => "string",
            TokenKind::Sym => "symbol",
            TokenKind::Eof => "end of input",
        }
    }
}

/// What went wrong while reading source text.
#[derive(Debug, Clone, Copy, PartialEq, Eq, Structural)]
pub enum ErrorMsg {
    /// A token of this kind where it cannot stand.
    Unexpected(TokenKind),
    /// A string literal without its closing quote.
    UnterminatedString,
    /// An integer literal above `i64::MAX`.
    IntegerOverflow,
}

/// A syntax error and where it was found.
#[derive(Debug, Clone, Copy, PartialEq, Eq, Structural)]
pub struct Error {
    pub pos: TokenPos,
    pub msg: ErrorMsg,
}

impl Error {
    pub fn new(pos: TokenPos, msg: ErrorMsg) -> (r: Error)
        ensures
            r.pos == pos,
            r.msg == msg,
    {
        Error { pos, msg }
    }
}

} // verus!
