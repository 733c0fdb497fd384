use vstd::prelude::*;

use crate::token::{Error, ErrorMsg, Token, TokenModel, TokenPos, TokenVal};
use vstd::std_specs::iter::IteratorSpec;

verus! {

broadcast use vstd::string::next_postcondition;

pub open spec fn is_space(c: char) -> bool {
    c == ' ' || c == '\t' || c == '\n' || c == '\r'
}

pub open spec fn is_digit(c: char) -> bool {
    '0' <= c && c <= '9'
}

/// A character that ends a symbol.
pub open spec fn ends_sym(c: char) -> bool {
    is_space(c) || c == '(' || c == ')' || c == '[' || c == ']' || c == '"'
}

/// The first index from `i` that holds no whitespace.
pub open spec fn skip_spaces(s: Seq<char>, i: int) -> int
    decreases s.len() - i,
{
    if 0 <= i < s.len() && is_space(s[i]) {
        skip_spaces(s, i + 1)
    } else {
        i
    }
}

/// The first index from `i` that holds no digit.
pub open spec fn digits_end(s: Seq<char>, i: int) -> int
    decreases s.len() - i,
{
    if 0 <= i < s.len() && is_digit(s[i]) {
        digits_end(s, i + 1)
    } else {
        i
    }
}

/// The first index from `i` that ends a symbol.
pub open spec fn sym_end(s: Seq<char>, i: int) -> int
    decreases s.len() - i,
{
    if 0 <= i < s.len() && !ends_sym(s[i]) {
        sym_end(s, i + 1)
    } else {
        i
    }
}

/// The first index from `i` that holds a quote (the length of `s` if none does).
pub open spec fn quote_end(s: Seq<char>, i: int) -> int
    decreases s.len() - i,
{
    if 0 <= i < s.len() && s[i] != '"' {
        quote_end(s, i + 1)
    } else {
        i
    }
}

/// The decimal number that the digits `s[i..j]` spell.
pub open spec fn digits_value(s: Seq<char>, i: int, j: int) -> int
    decreases j - i,
{
    if j <= i {
        0
    } else {
        digits_value(s, i, j - 1) * 10 + (s[j - 1] as int - '0' as int)
    }
}

/// The token that starts at the first non-blank index from `i0`, and the index after it.
pub open spec fn lex_one(s: Seq<char>, i0: int) -> Result<(TokenModel, int), ErrorMsg> {
    let i = skip_spaces(s, i0);
    if i >= s.len() {
        Ok((TokenModel::Eof, i))
    } else {
        let c = s[i];
        if c == '(' {
            Ok((TokenModel::Lparam, i + 1))
        } else if c == ')' {
            Ok((TokenModel::Rparam, i + 1))
        } else if c == '[' {
            Ok((TokenModel::Lsquare, i + 1))
        } else if c == ']' {
            Ok((TokenModel::Rsquare, i + 1))
        } else if c == '"' {
            let j = quote_end(s, i + 1);
            if j >= s.len() {
                Err(ErrorMsg::UnterminatedString)
            } else {
                Ok((TokenModel::Str(s.subrange(i + 1, j)), j + 1))
            }
        } else if is_digit(c) {
            let j = digits_end(s, i);
            let v = digits_value(s, i, j);
            if v > i64::MAX {
                Err(ErrorMsg::IntegerOverflow)
            } else {
                Ok((TokenModel::Int(v as i64), j))
            }
        } else {
            let j = sym_end(s, i);
            Ok((TokenModel::Sym(s.subrange(i, j)), j))
        }
    }
}

/// All tokens from index `i` on, ending with `Eof`.
pub open spec fn lex_all(s: Seq<char>, i: int) -> Result<Seq<TokenModel>, ErrorMsg>
    decreases s.len() - i,
{
    match lex_one(s, i) {
        Err(e) => Err(e),
        Ok((t, j)) => if t is Eof || j <= i || i < 0 || j > s.len() {
            Ok(seq![t])
        } else {
            match lex_all(s, j) {
                Ok(rest) => Ok(seq![t] + rest),
                Err(e) => Err(e),
            }
        },
    }
}

proof fn lemma_skip_spaces(s: Seq<char>, i: int)
    requires
        0 <= i,
    ensures
        i <= skip_spaces(s, i),
        skip_spaces(s, i) < s.len() ==> !is_space(s[skip_spaces(s, i)]),
        skip_spaces(s, i) <= s.len() || skip_spaces(s, i) == i,
    decreases s.len() - i,
{
    if 0 <= i < s.len() && is_space(s[i]) {
        lemma_skip_spaces(s, i + 1);
    }
}

proof fn lemma_ends(s: Seq<char>, i: int)
    requires
        0 <= i <= s.len(),
    ensures
        i <= digits_end(s, i) <= s.len(),
        i <= sym_end(s, i) <= s.len(),
        i <= quote_end(s, i) <= s.len(),
        quote_end(s, i) < s.len() ==> s[quote_end(s, i)] == '"',
    decreases s.len() - i,
{
    if i < s.len() {
        lemma_ends(s, i + 1);
    }
}

proof fn lemma_digits_value_grows(s: Seq<char>, i: int, j: int)
    requires
        i <= j,
        forall|k: int| i <= k < j ==> is_digit(#[trigger] s[k]),
    ensures
        digits_value(s, i, j) >= 0,
        j > i ==> digits_value(s, i, j) >= digits_value(s, i, j - 1),
    decreases j - i,
{
    if j > i {
        lemma_digits_value_grows(s, i, j - 1);
    }
}

/// Relies on `String::push`: the character is appended at the end.
#[verifier::external_body]
fn push_char(s: &mut String, c: char)
    ensures
        final(s)@ == old(s)@.push(c),
{
    s.push(c);
}

fn is_space_exec(c: char) -> (r: bool)
    ensures
        r == is_space(c),
{
    c == ' ' || c == '\t' || c == '\n' || c == '\r'
}

fn is_digit_exec(c: char) -> (r: bool)
    ensures
        r == is_digit(c),
{
    '0' <= c && c <= '9'
}

fn ends_sym_exec(c: char) -> (r: bool)
    ensures
        r == ends_sym(c),
{
    is_space_exec(c) || c == '(' || c == ')' || c == '[' || c == ']' || c == '"'
}

/// The position after reading `c` at `p`.
fn advance(p: TokenPos, c: char) -> TokenPos {
    if c == '\n' {
        TokenPos { lineno: if p.lineno < u32::MAX { p.lineno + 1 } else { p.lineno }, offset: 1 }
    } else {
        TokenPos { lineno: p.lineno, offset: if p.offset < u32::MAX { p.offset + 1 } else { p.offset } }
    }
}

/// A token that is found advances the stream, and stays within the text.
pub proof fn lemma_lex_one_progress(s: Seq<char>, i0: int)
    requires
        0 <= i0 <= s.len(),
    ensures
        lex_one(s, i0) matches Ok((t, j)) ==> i0 <= j <= s.len() && (!(t is Eof) ==> j > i0),
{
    lemma_skip_spaces(s, i0);
    let i = skip_spaces(s, i0);
    if i < s.len() {
        lemma_ends(s, i);
        lemma_ends(s, i + 1);
        if !ends_sym(s[i]) {
            assert(sym_end(s, i) == sym_end(s, i + 1));
        }
    }
}

/// A stream of tokens over a source text.
pub struct TokenStream {
    pub source: String,
    pub chars: Vec<char>,
    /// The index of the next character to read.
    pub at: usize,
    /// The line and column just after the last token read (where `Eof` is reported).
    pub pos: TokenPos,
}

impl TokenStream {
    pub fn new(source: &str) -> (r: TokenStream)
        ensures
            r.source@ == source@,
            r.chars@ == source@,
            r.at == 0,
    {
        let mut chars: Vec<char> = Vec::new();
        let mut it = source.chars();
        loop
            invariant
                chars@ + it.remaining() == source@,
            ensures
                chars@ == source@,
            decreases source@.len() - chars@.len(),
        {
            match it.next() {
                Some(c) => {
                    chars.push(c);
                },
                None => {
                    assert(it.remaining().len() == 0);
                    assert(chars@ =~= source@);
                    break ;
                },
            }
        }
        TokenStream {
            source: source.to_owned(),
            chars,
            at: 0,
            pos: TokenPos { lineno: 1, offset: 1 },
        }
    }

    /// The source text.
    pub fn origin(&self) -> (r: &str)
        ensures
            r@ == self.source@,
    {
        self.source.as_str()
    }

    /// Reads the next token, as [`lex_one`] says.
    pub fn next_token(&mut self) -> (r: Result<Token, Error>)
        requires
            old(self).at <= old(self).chars@.len(),
        ensures
            final(self).chars == old(self).chars,
            final(self).source == old(self).source,
            final(self).at <= final(self).chars@.len(),
            match lex_one(old(self).chars@, old(self).at as int) {
                Ok((t, j)) => r matches Ok(tok) && tok.val.model() == t && final(self).at == j,
                Err(m) => r matches Err(e) && e.msg == m,
            },
    {
        let n = self.chars.len();
        let mut i = self.at;
        let mut pos = self.pos;
        proof {
            lemma_skip_spaces(self.chars@, i as int);
        }
        while i < n && is_space_exec(self.chars[i])
            invariant
                n == self.chars@.len(),
                *self == *old(self),
                old(self).at <= i <= n,
                skip_spaces(self.chars@, old(self).at as int) == skip_spaces(self.chars@, i as int),
            decreases n - i,
        {
            pos = advance(pos, self.chars[i]);
            i = i + 1;
        }
        proof {
            lemma_lex_one_progress(self.chars@, old(self).at as int);
            lemma_ends(self.chars@, i as int);
        }
        if i >= n {
            let end = self.pos;
            self.at = i;
            return Ok(Token { pos: end, val: TokenVal::Eof });
        }
        let start = pos;
        let c = self.chars[i];
        let single = if c == '(' {
            Some(TokenVal::Lparam)
        } else if c == ')' {
            Some(TokenVal::Rparam)
        } else if c == '[' {
            Some(TokenVal::Lsquare)
        } else if c == ']' {
            Some(TokenVal::Rsquare)
        } else {
            None
        };
        match single {
            Some(val) => {
                self.at = i + 1;
                self.pos = advance(pos, c);
                return Ok(Token { pos: start, val });
            },
            None => {},
        }
        if c == '"' {
            let mut j = i + 1;
            let mut text = String::new();
            pos = advance(pos, c);
            proof {
                lemma_ends(self.chars@, j as int);
                assert(self.chars@.subrange(i + 1, j as int) =~= Seq::<char>::empty());
            }
            while j < n && self.chars[j] != '"'
                invariant
                    n == self.chars@.len(),
                    *self == *old(self),
                    i + 1 <= j <= n,
                    quote_end(self.chars@, i + 1) == quote_end(self.chars@, j as int),
                    text@ == self.chars@.subrange(i + 1, j as int),
                decreases n - j,
            {
                push_char(&mut text, self.chars[j]);
                pos = advance(pos, self.chars[j]);
                j = j + 1;
                assert(text@ =~= self.chars@.subrange(i + 1, j as int));
            }
            if j >= n {
                return Err(Error::new(start, ErrorMsg::UnterminatedString));
            }
            self.at = j + 1;
            self.pos = advance(pos, '"');
            return Ok(Token { pos: start, val: TokenVal::Str(text) });
        }
        if is_digit_exec(c) {
            let mut j = i;
            let mut v: i64 = 0;
            let mut ok = true;
            while j < n && is_digit_exec(self.chars[j])
                invariant
                    n == self.chars@.len(),
                    *self == *old(self),
                    i <= j <= n,
                    digits_end(self.chars@, i as int) == digits_end(self.chars@, j as int),
                    forall|m: int| i <= m < j ==> is_digit(#[trigger] self.chars@[m]),
                    ok ==> v == digits_value(self.chars@, i as int, j as int),
                    !ok ==> digits_value(self.chars@, i as int, j as int) > i64::MAX,
                decreases n - j,
            {
                let d = (self.chars[j] as u32 - '0' as u32) as i64;
                proof {
                    lemma_digits_value_grows(self.chars@, i as int, j as int + 1);
                }
                if ok {
                    match v.checked_mul(10) {
                        Some(x) => match x.checked_add(d) {
                            Some(y) => {
                                v = y;
                            },
                            None => {
                                ok = false;
                            },
                        },
                        None => {
                            ok = false;
                        },
                    }
                }
                pos = advance(pos, self.chars[j]);
                j = j + 1;
            }
            if !ok {
                return Err(Error::new(start, ErrorMsg::IntegerOverflow));
            }
            self.at = j;
            self.pos = pos;
            return Ok(Token { pos: start, val: TokenVal::Int(v) });
        }
        let mut j = i;
        let mut text = String::new();
        assert(self.chars@.subrange(i as int, j as int) =~= Seq::<char>::empty());
        while j < n && !ends_sym_exec(self.chars[j])
            invariant
                n == self.chars@.len(),
                *self == *old(self),
                i <= j <= n,
                sym_end(self.chars@, i as int) == sym_end(self.chars@, j as int),
                text@ == self.chars@.subrange(i as int, j as int),
            decreases n - j,
        {
            push_char(&mut text, self.chars[j]);
            pos = advance(pos, self.chars[j]);
            j = j + 1;
            assert(text@ =~= self.chars@.subrange(i as int, j as int));
        }
        self.at = j;
        self.pos = pos;
        Ok(Token { pos: start, val: TokenVal::Sym(text) })
    }

    /// Reads all the remaining tokens, up to and including `Eof`, as [`lex_all`] says.
    pub fn tokens(&mut self) -> (r: Result<Vec<Token>, Error>)
        requires
            old(self).at <= old(self).chars@.len(),
        ensures
            match lex_all(old(self).chars@, old(self).at as int) {
                Ok(ts) => r matches Ok(v) && crate::token::token_models(v@) == ts,
                Err(m) => r matches Err(e) && e.msg == m,
            },
    {
        let mut out: Vec<Token> = Vec::new();
        let ghost s = self.chars@;
        let ghost at0 = self.at as int;
        loop
            invariant
                self.chars@ == s,
                s == old(self).chars@,
                at0 == old(self).at as int,
                at0 <= self.at <= s.len(),
                lex_all(s, at0) == match lex_all(s, self.at as int) {
                    Ok(rest) => Ok(crate::token::token_models(out@) + rest),
                    Err(e) => Err::<Seq<TokenModel>, ErrorMsg>(e),
                },
            decreases s.len() - self.at,
        {
            let ghost before = self.at as int;
            proof {
                lemma_lex_one_progress(s, before);
            }
            match self.next_token() {
                Ok(tok) => {
                    let eof = matches!(tok.val, TokenVal::Eof);
                    let ghost t = tok.val.model();
                    let ghost prev = out@;
                    out.push(tok);
                    proof {
                        assert(crate::token::token_models(out@) =~= crate::token::token_models(prev).push(t));
                    }
                    if eof {
                        assert(lex_all(s, before) == Ok::<Seq<TokenModel>, ErrorMsg>(seq![t]));
                        assert(crate::token::token_models(prev) + seq![t] =~= crate::token::token_models(out@));
                        return Ok(out);
                    }
                    proof {
                        match lex_all(s, self.at as int) {
                            Ok(rest) => {
                                assert(crate::token::token_models(prev) + (seq![t] + rest) =~= crate::token::token_models(out@) + rest);
                            },
                            Err(_) => {},
                        }
                    }
                },
                Err(e) => {
                    return Err(e);
                },
            }
        }
    }

    /// The source text.
    pub fn source_plain(&self) -> (r: &str)
        ensures
            r@ == self.source@,
    {
        self.source.as_str()
    }
}

} // verus!
