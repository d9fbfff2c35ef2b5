use monkey_lexer::lexer::{Lexer, TokenType};

fn lex_all(input: &str) -> Vec<TokenType> {
    let mut lexer = Lexer::from(input);
    let mut out = Vec::new();
    loop {
        let token = lexer.next_token();
        let done = token == TokenType::EOF;
        out.push(token);
        if done {
            return out;
        }
    }
}

fn ident(s: &str) -> TokenType {
    TokenType::IDENT(String::from(s))
}

fn number(s: &str) -> TokenType {
    TokenType::INT(String::from(s))
}

#[test]
fn unrecognized_bytes_are_illegal_one_each() {
    assert_eq!(
        lex_all("@#?"),
        vec![TokenType::ILLEGAL, TokenType::ILLEGAL, TokenType::ILLEGAL, TokenType::EOF]
    );
    assert_eq!(
        lex_all("a$b"),
        vec![ident("a"), TokenType::ILLEGAL, ident("b"), TokenType::EOF]
    );
}

#[test]
fn nul_byte_is_illegal_not_end() {
    assert_eq!(
        lex_all("x\0y"),
        vec![ident("x"), TokenType::ILLEGAL, ident("y"), TokenType::EOF]
    );
}

#[test]
fn multibyte_character_gives_one_illegal_per_byte() {
    assert_eq!(
        lex_all("é"),
        vec![TokenType::ILLEGAL, TokenType::ILLEGAL, TokenType::EOF]
    );
}

#[test]
fn end_marker_repeats() {
    let mut lexer = Lexer::from("x ");
    assert_eq!(lexer.next_token(), ident("x"));
    for _ in 0..5 {
        assert_eq!(lexer.next_token(), TokenType::EOF);
    }
}

#[test]
fn empty_input_is_end() {
    let mut lexer = Lexer::from("");
    assert_eq!(lexer.next_token(), TokenType::EOF);
    assert_eq!(lexer.next_token(), TokenType::EOF);
}

#[test]
fn whole_word_decides_keyword() {
    assert_eq!(lex_all("letter"), vec![ident("letter"), TokenType::EOF]);
    assert_eq!(lex_all("let"), vec![TokenType::LET, TokenType::EOF]);
    assert_eq!(lex_all("fnx iff"), vec![ident("fnx"), ident("iff"), TokenType::EOF]);
}

#[test]
fn every_keyword() {
    assert_eq!(
        lex_all("let fn true false if else return"),
        vec![
            TokenType::LET,
            TokenType::FUNCTION,
            TokenType::TRUE,
            TokenType::FALSE,
            TokenType::IF,
            TokenType::ELSE,
            TokenType::RETURN,
            TokenType::EOF,
        ]
    );
}

#[test]
fn identifiers_take_digits_and_underscores() {
    assert_eq!(
        lex_all("_a1 b_2c"),
        vec![ident("_a1"), ident("b_2c"), TokenType::EOF]
    );
}

#[test]
fn dot_ends_an_identifier() {
    assert_eq!(
        lex_all("a.b"),
        vec![ident("a"), number("."), ident("b"), TokenType::EOF]
    );
}

#[test]
fn number_with_several_dots_is_one_literal() {
    assert_eq!(lex_all("1.2.3"), vec![number("1.2.3"), TokenType::EOF]);
    assert_eq!(lex_all(".5"), vec![number(".5"), TokenType::EOF]);
}

#[test]
fn number_then_word() {
    assert_eq!(lex_all("12ab"), vec![number("12"), ident("ab"), TokenType::EOF]);
}

#[test]
fn lookahead_pairs() {
    assert_eq!(lex_all("=="), vec![TokenType::EQ, TokenType::EOF]);
    assert_eq!(lex_all("="), vec![TokenType::ASSIGN, TokenType::EOF]);
    assert_eq!(lex_all("!="), vec![TokenType::NOTEQ, TokenType::EOF]);
    assert_eq!(lex_all("!"), vec![TokenType::BANG, TokenType::EOF]);
    assert_eq!(
        lex_all("= ="),
        vec![TokenType::ASSIGN, TokenType::ASSIGN, TokenType::EOF]
    );
    assert_eq!(
        lex_all("==="),
        vec![TokenType::EQ, TokenType::ASSIGN, TokenType::EOF]
    );
    assert_eq!(
        lex_all("!!="),
        vec![TokenType::BANG, TokenType::NOTEQ, TokenType::EOF]
    );
}

#[test]
fn whitespace_gives_no_token() {
    assert_eq!(lex_all(" \t\r\n "), vec![TokenType::EOF]);
    assert_eq!(
        lex_all("\t+\r\n-  "),
        vec![TokenType::PLUS, TokenType::MINUS, TokenType::EOF]
    );
    assert_eq!(lex_all("a+b"), lex_all(" a \n+\tb\r"));
}

#[test]
fn punctuation_only() {
    assert_eq!(
        lex_all("=+(){},;"),
        vec![
            TokenType::ASSIGN,
            TokenType::PLUS,
            TokenType::LPAREN,
            TokenType::RPAREN,
            TokenType::LBRACE,
            TokenType::RBRACE,
            TokenType::COMMA,
            TokenType::SEMICOLON,
            TokenType::EOF,
        ]
    );
}

#[test]
fn let_statement() {
    assert_eq!(
        lex_all("let x = 10.2;"),
        vec![
            TokenType::LET,
            ident("x"),
            TokenType::ASSIGN,
            number("10.2"),
            TokenType::SEMICOLON,
            TokenType::EOF,
        ]
    );
}

#[test]
fn product() {
    assert_eq!(
        lex_all("five * 5"),
        vec![ident("five"), TokenType::ASTERISK, number("5"), TokenType::EOF]
    );
}

#[test]
fn comparisons() {
    assert_eq!(
        lex_all("10 == 10; 10 != 9;"),
        vec![
            number("10"),
            TokenType::EQ,
            number("10"),
            TokenType::SEMICOLON,
            number("10"),
            TokenType::NOTEQ,
            number("9"),
            TokenType::SEMICOLON,
            TokenType::EOF,
        ]
    );
}

#[test]
fn operators() {
    assert_eq!(
        lex_all("-/*<>"),
        vec![
            TokenType::MINUS,
            TokenType::SLASH,
            TokenType::ASTERISK,
            TokenType::LT,
            TokenType::GT,
            TokenType::EOF,
        ]
    );
}

#[test]
fn payload_decides_equality() {
    assert_ne!(ident("x"), number("x"));
    assert_eq!(number("10"), number("10"));
    assert_ne!(number("10"), number("1"));
    assert_ne!(TokenType::EOF, TokenType::ILLEGAL);
}
