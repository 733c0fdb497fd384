use jisp::parser::parse;
use jisp::sexp::SExp;
use jisp::token::{ErrorMsg, Token, TokenKind, TokenPos, TokenVal};
use jisp::token_stream::TokenStream;

fn tok(lineno: u32, offset: u32, val: TokenVal) -> Token {
    Token { pos: TokenPos { lineno, offset }, val }
}

fn tokens(source: &str) -> Vec<Token> {
    TokenStream::new(source).tokens().unwrap()
}

fn sym(s: &str) -> SExp {
    SExp::Sym(s.to_string())
}

#[test]
fn token_stream_basic() {
    assert_eq!(tokens("1"), vec![tok(1, 1, TokenVal::Int(1)), tok(1, 2, TokenVal::Eof)]);

    assert_eq!(tokens("(+ 1 2)\n"), vec![
        tok(1, 1, TokenVal::Lparam),
        tok(1, 2, TokenVal::Sym("+".to_string())),
        tok(1, 4, TokenVal::Int(1)),
        tok(1, 6, TokenVal::Int(2)),
        tok(1, 7, TokenVal::Rparam),
        tok(1, 8, TokenVal::Eof),
    ]);

    assert_eq!(tokens("(let h \"hello\") (let w \"world\") (if (== 1 1) h w)\n"), vec![
        tok(1, 1, TokenVal::Lparam),
        tok(1, 2, TokenVal::Sym("let".to_string())),
        tok(1, 6, TokenVal::Sym("h".to_string())),
        tok(1, 8, TokenVal::Str("hello".to_string())),
        tok(1, 15, TokenVal::Rparam),
        tok(1, 17, TokenVal::Lparam),
        tok(1, 18, TokenVal::Sym("let".to_string())),
        tok(1, 22, TokenVal::Sym("w".to_string())),
        tok(1, 24, TokenVal::Str("world".to_string())),
        tok(1, 31, TokenVal::Rparam),
        tok(1, 33, TokenVal::Lparam),
        tok(1, 34, TokenVal::Sym("if".to_string())),
        tok(1, 37, TokenVal::Lparam),
        tok(1, 38, TokenVal::Sym("==".to_string())),
        tok(1, 41, TokenVal::Int(1)),
        tok(1, 43, TokenVal::Int(1)),
        tok(1, 44, TokenVal::Rparam),
        tok(1, 46, TokenVal::Sym("h".to_string())),
        tok(1, 48, TokenVal::Sym("w".to_string())),
        tok(1, 49, TokenVal::Rparam),
        tok(1, 50, TokenVal::Eof),
    ]);
}

#[test]
fn token_stream_functions() {
    assert_eq!(tokens("(fn ret5 [] 5) (ret5)"), vec![
        tok(1, 1, TokenVal::Lparam),
        tok(1, 2, TokenVal::Sym("fn".to_string())),
        tok(1, 5, TokenVal::Sym("ret5".to_string())),
        tok(1, 10, TokenVal::Lsquare),
        tok(1, 11, TokenVal::Rsquare),
        tok(1, 13, TokenVal::Int(5)),
        tok(1, 14, TokenVal::Rparam),
        tok(1, 16, TokenVal::Lparam),
        tok(1, 17, TokenVal::Sym("ret5".to_string())),
        tok(1, 21, TokenVal::Rparam),
        tok(1, 22, TokenVal::Eof),
    ]);
}

#[test]
fn ast_builder_basic() {
    assert_eq!(parse("\n            1\n        "), Ok(vec![SExp::I64(1)]));
    assert_eq!(
        parse("\n            (+ 1 2)\n        "),
        Ok(vec![SExp::List(vec![sym("+"), SExp::I64(1), SExp::I64(2)])])
    );
}

#[test]
fn ast_builder_if_stmt() {
    assert_eq!(
        parse("\n            (if (== 2 1) 1 (* 2 1))\n        "),
        Ok(vec![SExp::List(vec![
            sym("if"),
            SExp::List(vec![sym("=="), SExp::I64(2), SExp::I64(1)]),
            SExp::I64(1),
            SExp::List(vec![sym("*"), SExp::I64(2), SExp::I64(1)]),
        ])])
    );
}

#[test]
fn ast_builder_string() {
    assert_eq!(
        parse("\n            (let h \"hello\") (let w \"world\") (if (== 1 1) h w)\n        "),
        Ok(vec![
            SExp::List(vec![sym("let"), sym("h"), SExp::Str("hello".to_string())]),
            SExp::List(vec![sym("let"), sym("w"), SExp::Str("world".to_string())]),
            SExp::List(vec![
                sym("if"),
                SExp::List(vec![sym("=="), SExp::I64(1), SExp::I64(1)]),
                sym("h"),
                sym("w"),
            ]),
        ])
    );
}

#[test]
fn ast_builder_functions() {
    assert_eq!(
        parse("\n            (fn ret5 [] 5)\n            (ret5)\n        "),
        Ok(vec![
            SExp::List(vec![sym("fn"), sym("ret5"), SExp::Array(vec![]), SExp::I64(5)]),
            SExp::List(vec![sym("ret5")]),
        ])
    );
    assert_eq!(
        parse("\n            (fn add [x y] (+ x y))\n            (add 3 5)\n        "),
        Ok(vec![
            SExp::List(vec![
                sym("fn"),
                sym("add"),
                SExp::Array(vec![sym("x"), sym("y")]),
                SExp::List(vec![sym("+"), sym("x"), sym("y")]),
            ]),
            SExp::List(vec![sym("add"), SExp::I64(3), SExp::I64(5)]),
        ])
    );
}

#[test]
fn syntax_errors() {
    assert_eq!(parse("(+ 1 2").unwrap_err().msg, ErrorMsg::Unexpected(TokenKind::Eof));
    assert_eq!(parse(")").unwrap_err().msg, ErrorMsg::Unexpected(TokenKind::Rparam));
    assert_eq!(parse("(a ]").unwrap_err().msg, ErrorMsg::Unexpected(TokenKind::Rsquare));
    assert_eq!(parse("\"open").unwrap_err().msg, ErrorMsg::UnterminatedString);
    assert_eq!(parse("99999999999999999999").unwrap_err().msg, ErrorMsg::IntegerOverflow);
    assert_eq!(parse("9223372036854775807"), Ok(vec![SExp::I64(i64::MAX)]));
    let e = parse("(a\n  )  )").unwrap_err();
    assert_eq!(e.pos, TokenPos { lineno: 2, offset: 6 });
}

#[test]
fn lines_and_symbols() {
    assert_eq!(tokens("a\n bc"), vec![
        tok(1, 1, TokenVal::Sym("a".to_string())),
        tok(2, 2, TokenVal::Sym("bc".to_string())),
        tok(2, 4, TokenVal::Eof),
    ]);
    assert_eq!(tokens("12ab"), vec![
        tok(1, 1, TokenVal::Int(12)),
        tok(1, 3, TokenVal::Sym("ab".to_string())),
        tok(1, 5, TokenVal::Eof),
    ]);
    assert_eq!(TokenStream::new("(x)").origin(), "(x)");
    assert_eq!(TokenKind::Eof.display(), "end of input");
}
