use vstd::prelude::*;

use crate::sexp::{sexp_model, sexp_models, SExp, SExpModel};
use crate::token::{
    model_kind, token_models, Error, ErrorMsg, Token, TokenKind, TokenModel, TokenPos, TokenVal,
};
use crate::token_stream::{lex_all, TokenStream};

verus! {

/// The value that starts at token `i`, and the index of the token after it.
pub open spec fn parse_value(t: Seq<TokenModel>, i: int) -> Result<(SExpModel, int), ErrorMsg>
    decreases t.len() - i, 0int,
{
    if i < 0 || i >= t.len() {
        Err(ErrorMsg::Unexpected(TokenKind::Eof))
    } else {
        match t[i] {
            TokenModel::Int(n) => Ok((SExpModel::I64(n), i + 1)),
            TokenModel::Str(s) => Ok((SExpModel::Str(s), i + 1)),
            TokenModel::Sym(s) => Ok((SExpModel::Sym(s), i + 1)),
            TokenModel::Lparam => match parse_items(t, i + 1, true) {
                Ok((vs, j)) => Ok((SExpModel::List(vs), j)),
                Err(e) => Err(e),
            },
            TokenModel::Lsquare => match parse_items(t, i + 1, false) {
                Ok((vs, j)) => Ok((SExpModel::Array(vs), j)),
                Err(e) => Err(e),
            },
            other => Err(ErrorMsg::Unexpected(model_kind(other))),
        }
    }
}

/// Whether token `t` closes a list (`paren`) or an array.
pub open spec fn closes(t: TokenModel, paren: bool) -> bool {
    if paren {
        t is Rparam
    } else {
        t is Rsquare
    }
}

/// The values from token `i` up to the closing token, and the index after that token.
pub open spec fn parse_items(t: Seq<TokenModel>, i: int, paren: bool) -> Result<
    (Seq<SExpModel>, int),
    ErrorMsg,
>
    decreases t.len() - i, 1int,
{
    if i < 0 || i >= t.len() {
        Err(ErrorMsg::Unexpected(TokenKind::Eof))
    } else if closes(t[i], paren) {
        Ok((Seq::empty(), i + 1))
    } else {
        match parse_value(t, i) {
            Err(e) => Err(e),
            Ok((v, j)) => if j <= i || j > t.len() {
                Err(ErrorMsg::Unexpected(TokenKind::Eof))
            } else {
                match parse_items(t, j, paren) {
                    Ok((vs, k)) => Ok((seq![v] + vs, k)),
                    Err(e) => Err(e),
                }
            },
        }
    }
}

/// The top-level values from token `i` up to `Eof`.
pub open spec fn parse_all(t: Seq<TokenModel>, i: int) -> Result<Seq<SExpModel>, ErrorMsg>
    decreases t.len() - i,
{
    if i < 0 || i >= t.len() {
        Err(ErrorMsg::Unexpected(TokenKind::Eof))
    } else if t[i] is Eof {
        Ok(Seq::empty())
    } else {
        match parse_value(t, i) {
            Err(e) => Err(e),
            Ok((v, j)) => if j <= i || j > t.len() {
                Err(ErrorMsg::Unexpected(TokenKind::Eof))
            } else {
                match parse_all(t, j) {
                    Ok(vs) => Ok(seq![v] + vs),
                    Err(e) => Err(e),
                }
            },
        }
    }
}

/// Builds S-expressions from a sequence of tokens.
pub struct Builder {
    pub tokens: Vec<Token>,
}

proof fn lemma_models_push(v: Seq<SExp>, e: SExp)
    ensures
        sexp_models(v.push(e)) == sexp_models(v).push(sexp_model(e)),
{
    assert(v.push(e).drop_last() =~= v);
}

impl Builder {
    pub fn new(tokens: Vec<Token>) -> (r: Builder)
        ensures
            r.tokens@ == tokens@,
    {
        Builder { tokens }
    }

    /// Where an error at token `i` is reported.
    fn pos_at(&self, i: usize) -> TokenPos {
        if i < self.tokens.len() {
            self.tokens[i].pos
        } else if self.tokens.len() > 0 {
            self.tokens[self.tokens.len() - 1].pos
        } else {
            TokenPos { lineno: 1, offset: 1 }
        }
    }

    fn value(&self, i: usize) -> (r: Result<(SExp, usize), Error>)
        ensures
            match parse_value(token_models(self.tokens@), i as int) {
                Ok((m, j)) => r matches Ok((e, k)) && sexp_model(e) == m && k == j,
                Err(msg) => r matches Err(er) && er.msg == msg,
            },
            r matches Ok((_, k)) ==> i < k <= self.tokens@.len(),
        decreases self.tokens@.len() - i, 0int,
    {
        let ghost t = token_models(self.tokens@);
        if i >= self.tokens.len() {
            return Err(Error::new(self.pos_at(i), ErrorMsg::Unexpected(TokenKind::Eof)));
        }
        assert(t[i as int] == self.tokens@[i as int].val.model());
        match &self.tokens[i].val {
            TokenVal::Int(n) => Ok((SExp::I64(*n), i + 1)),
            TokenVal::Str(s) => Ok((SExp::Str(s.clone()), i + 1)),
            TokenVal::Sym(s) => Ok((SExp::Sym(s.clone()), i + 1)),
            TokenVal::Lparam => match self.items(i + 1, true) {
                Ok((vs, j)) => Ok((SExp::List(vs), j)),
                Err(e) => Err(e),
            },
            TokenVal::Lsquare => match self.items(i + 1, false) {
                Ok((vs, j)) => Ok((SExp::Array(vs), j)),
                Err(e) => Err(e),
            },
            other => Err(Error::new(self.tokens[i].pos, ErrorMsg::Unexpected(other.kind()))),
        }
    }

    fn items(&self, i: usize, paren: bool) -> (r: Result<(Vec<SExp>, usize), Error>)
        requires
            i <= self.tokens@.len(),
        ensures
            match parse_items(token_models(self.tokens@), i as int, paren) {
                Ok((ms, j)) => r matches Ok((v, k)) && sexp_models(v@) == ms && k == j,
                Err(msg) => r matches Err(er) && er.msg == msg,
            },
            r matches Ok((_, k)) ==> i < k <= self.tokens@.len(),
        decreases self.tokens@.len() - i, 1int,
    {
        let ghost t = token_models(self.tokens@);
        let mut acc: Vec<SExp> = Vec::new();
        let mut j = i;
        assert(sexp_models(acc@) =~= Seq::<SExpModel>::empty());
        loop
            invariant
                i <= j <= self.tokens@.len(),
                t == token_models(self.tokens@),
                parse_items(t, i as int, paren) == match parse_items(t, j as int, paren) {
                    Ok((vs, k)) => Ok((sexp_models(acc@) + vs, k)),
                    Err(e) => Err::<(Seq<SExpModel>, int), ErrorMsg>(e),
                },
            decreases self.tokens@.len() - j,
        {
            if j >= self.tokens.len() {
                return Err(Error::new(self.pos_at(j), ErrorMsg::Unexpected(TokenKind::Eof)));
            }
            assert(t[j as int] == self.tokens@[j as int].val.model());
            let close = if paren {
                matches!(self.tokens[j].val, TokenVal::Rparam)
            } else {
                matches!(self.tokens[j].val, TokenVal::Rsquare)
            };
            if close {
                assert(sexp_models(acc@) + Seq::<SExpModel>::empty() =~= sexp_models(acc@));
                return Ok((acc, j + 1));
            }
            match self.value(j) {
                Ok((e, k)) => {
                    let ghost prev = acc@;
                    let ghost m = sexp_model(e);
                    acc.push(e);
                    proof {
                        lemma_models_push(prev, e);
                        match parse_items(t, k as int, paren) {
                            Ok((vs, kk)) => {
                                assert(sexp_models(prev) + (seq![m] + vs) =~= sexp_models(acc@)
                                    + vs);
                            },
                            Err(_) => {},
                        }
                    }
                    j = k;
                },
                Err(e) => {
                    return Err(e);
                },
            }
        }
    }

    /// Builds every top-level value, as [`parse_all`] says.
    pub fn build(&self) -> (r: Result<Vec<SExp>, Error>)
        ensures
            match parse_all(token_models(self.tokens@), 0) {
                Ok(ms) => r matches Ok(v) && sexp_models(v@) == ms,
                Err(msg) => r matches Err(er) && er.msg == msg,
            },
    {
        let ghost t = token_models(self.tokens@);
        let mut acc: Vec<SExp> = Vec::new();
        let mut j: usize = 0;
        assert(sexp_models(acc@) =~= Seq::<SExpModel>::empty());
        loop
            invariant
                j <= self.tokens@.len(),
                t == token_models(self.tokens@),
                parse_all(t, 0) == match parse_all(t, j as int) {
                    Ok(vs) => Ok(sexp_models(acc@) + vs),
                    Err(e) => Err::<Seq<SExpModel>, ErrorMsg>(e),
                },
            decreases self.tokens@.len() - j,
        {
            if j >= self.tokens.len() {
                return Err(Error::new(self.pos_at(j), ErrorMsg::Unexpected(TokenKind::Eof)));
            }
            assert(t[j as int] == self.tokens@[j as int].val.model());
            if matches!(self.tokens[j].val, TokenVal::Eof) {
                assert(sexp_models(acc@) + Seq::<SExpModel>::empty() =~= sexp_models(acc@));
                return Ok(acc);
            }
            match self.value(j) {
                Ok((e, k)) => {
                    let ghost prev = acc@;
                    let ghost m = sexp_model(e);
                    acc.push(e);
                    proof {
                        lemma_models_push(prev, e);
                        match parse_all(t, k as int) {
                            Ok(vs) => {
                                assert(sexp_models(prev) + (seq![m] + vs) =~= sexp_models(acc@)
                                    + vs);
                            },
                            Err(_) => {},
                        }
                    }
                    j = k;
                },
                Err(e) => {
                    return Err(e);
                },
            }
        }
    }
}

/// Reads source text into its top-level S-expressions: tokens as [`lex_all`] says, values as
/// [`parse_all`] says.
pub fn parse(source: &str) -> (r: Result<Vec<SExp>, Error>)
    ensures
        match lex_all(source@, 0) {
            Err(m) => r matches Err(e) && e.msg == m,
            Ok(ts) => match parse_all(ts, 0) {
                Ok(ms) => r matches Ok(v) && sexp_models(v@) == ms,
                Err(m) => r matches Err(e) && e.msg == m,
            },
        },
{
    let mut stream = TokenStream::new(source);
    let tokens = match stream.tokens() {
        Ok(ts) => ts,
        Err(e) => {
            return Err(e);
        },
    };
    Builder::new(tokens).build()
}

} // verus!
