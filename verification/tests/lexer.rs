use std::sync::Arc;

use xtera::lexer::{LexToken, Lexer};
use xtera::Token;

fn lexer(s: &str) -> Lexer {
    Lexer::new(s, Arc::from(s))
}

/// The expression tokens of `s`, up to the end of input.
fn tokens(s: &str) -> Vec<Token> {
    let mut lex = lexer(s);
    let mut out = Vec::new();
    loop {
        match lex.next_expr().unwrap().token {
            LexToken::Expr(t) => out.push(t),
            LexToken::Eof => return out,
            other => panic!("unexpected {other:?}"),
        }
    }
}

#[test]
fn text_only() {
    let mut lex = lexer("hello world");
    let sp = lex.next_text().unwrap();
    assert_eq!(sp.token, LexToken::Text("hello world".to_string()));
    let sp = lex.next_text().unwrap();
    assert_eq!(sp.token, LexToken::Eof);
}

#[test]
fn lexer_interp() {
    let mut lex = lexer("hello {{ name }}");
    let sp = lex.next_text().unwrap();
    assert_eq!(sp.token, LexToken::Text("hello ".to_string()));
    let sp = lex.next_text().unwrap();
    assert_eq!(sp.token, LexToken::InterpStart);
    let sp = lex.next_expr().unwrap();
    assert_eq!(sp.token, LexToken::Expr(Token::Ident("name".to_string())));
    let sp = lex.next_expr().unwrap();
    assert_eq!(sp.token, LexToken::InterpEnd);
}

#[test]
fn at_keyword() {
    let mut lex = lexer("@if (x) { hi }");
    let sp = lex.next_text().unwrap();
    assert_eq!(sp.token, LexToken::AtIf);
    let sp = lex.next_expr().unwrap();
    assert_eq!(sp.token, LexToken::Expr(Token::LParen));
}

#[test]
fn at_not_keyword() {
    let mut lex = lexer("email@test.com");
    let sp = lex.next_text().unwrap();
    assert_eq!(sp.token, LexToken::Text("email@test.com".to_string()));
}

#[test]
fn brace_depth() {
    let mut lex = lexer("@if (x) { hello }");
    assert_eq!(lex.next_text().unwrap().token, LexToken::AtIf);
    assert_eq!(lex.next_expr().unwrap().token, LexToken::Expr(Token::LParen));
    assert_eq!(lex.next_expr().unwrap().token, LexToken::Expr(Token::Ident("x".to_string())));
    assert_eq!(lex.next_expr().unwrap().token, LexToken::Expr(Token::RParen));
    assert_eq!(lex.next_expr().unwrap().token, LexToken::Expr(Token::LBrace));
    lex.open_brace();
    assert_eq!(lex.next_text().unwrap().token, LexToken::Text(" hello ".to_string()));
    assert_eq!(lex.next_text().unwrap().token, LexToken::CloseBrace);
    lex.close_brace();
}

#[test]
fn peek_expr() {
    let mut lex = lexer("{{ a }}");
    let _ = lex.next_text().unwrap();
    let peeked = lex.peek_expr().unwrap().clone();
    assert_eq!(peeked.token, LexToken::Expr(Token::Ident("a".to_string())));
    let next = lex.next_expr().unwrap();
    assert_eq!(next.token, peeked.token);
}

#[test]
fn lex_int() {
    assert_eq!(tokens("42"), vec![Token::Int(42)]);
}

#[test]
fn lex_float() {
    assert_eq!(tokens("3.14"), vec![Token::Float("3.14".to_string())]);
}

#[test]
fn lex_string_double() {
    assert_eq!(tokens("\"hello\""), vec![Token::String("hello".to_string())]);
}

#[test]
fn lex_string_single() {
    assert_eq!(tokens("'world'"), vec![Token::String("world".to_string())]);
}

#[test]
fn lex_bool() {
    assert_eq!(tokens("true false"), vec![Token::True, Token::False]);
}

#[test]
fn lex_ident() {
    assert_eq!(
        tokens("foo _bar $baz"),
        vec![
            Token::Ident("foo".to_string()),
            Token::Ident("_bar".to_string()),
            Token::Ident("$baz".to_string()),
        ]
    );
}

#[test]
fn lex_operators() {
    assert_eq!(
        tokens("+ - * / % == != < <= > >= && || !"),
        vec![
            Token::Plus,
            Token::Minus,
            Token::Star,
            Token::Slash,
            Token::Percent,
            Token::EqEq,
            Token::BangEq,
            Token::Lt,
            Token::Le,
            Token::Gt,
            Token::Ge,
            Token::AmpAmp,
            Token::PipePipe,
            Token::Bang,
        ]
    );
}

#[test]
fn lex_punctuation() {
    assert_eq!(
        tokens("( ) [ ] { } . , | : ;"),
        vec![
            Token::LParen,
            Token::RParen,
            Token::LBracket,
            Token::RBracket,
            Token::LBrace,
            Token::RBrace,
            Token::Dot,
            Token::Comma,
            Token::Pipe,
            Token::Colon,
            Token::Semi,
        ]
    );
}

#[test]
fn lex_keywords() {
    assert_eq!(tokens("of track"), vec![Token::Of, Token::Track]);
}

#[test]
fn skips_whitespace() {
    assert_eq!(tokens("  42  "), vec![Token::Int(42)]);
}

#[test]
fn keyword_prefix_is_an_identifier() {
    assert_eq!(
        tokens("offset trackers nullish"),
        vec![
            Token::Ident("offset".to_string()),
            Token::Ident("trackers".to_string()),
            Token::Ident("nullish".to_string()),
        ]
    );
}

#[test]
fn string_escapes_and_fat_arrow() {
    assert_eq!(
        tokens("'a\\'b' =>"),
        vec![Token::String("a'b".to_string()), Token::FatArrow]
    );
}

#[test]
fn unexpected_character_is_an_error() {
    let mut lex = lexer("#");
    assert!(lex.next_expr().is_err());
}
