use vstd::prelude::*;

verus! {

/// One lexical unit, as handed out by the lexer.
///
/// `IDENT` and `INT` carry the text they were scanned from; every other
/// kind is a bare tag.
#[derive(Debug)]
#[allow(non_camel_case_types)]
pub enum TokenType {
    ILLEGAL,
    EOF,
    IDENT(String),
    INT(String),
    ASSIGN,
    PLUS,
    MINUS,
    BANG,
    ASTERISK,
    SLASH,
    LT,
    GT,
    COMMA,
    SEMICOLON,
    LPAREN,
    RPAREN,
    LBRACE,
    RBRACE,
    FUNCTION,
    LET,
    TRUE,
    FALSE,
    IF,
    ELSE,
    RETURN,
    EQ,
    NOTEQ,
}

/// The mathematical model of a token: payloads are seen as character sequences.
pub enum Token {
    Illegal,
    Eof,
    Ident(Seq<char>),
    Int(Seq<char>),
    Assign,
    Plus,
    Minus,
    Bang,
    Asterisk,
    Slash,
    Lt,
    Gt,
    Comma,
    Semicolon,
    LParen,
    RParen,
    LBrace,
    RBrace,
    Function,
    Let,
    True,
    False,
    If,
    Else,
    Return,
    Eq,
    NotEq,
}

impl View for TokenType {
    type V = Token;

    open spec fn view(&self) -> Token {
        match self {
            TokenType::ILLEGAL => Token::Illegal,
            TokenType::EOF => Token::Eof,
            TokenType::IDENT(s) => Token::Ident(s@),
            TokenType::INT(s) => Token::Int(s@),
            TokenType::ASSIGN => Token::Assign,
            TokenType::PLUS => Token::Plus,
            TokenType::MINUS => Token::Minus,
            TokenType::BANG => Token::Bang,
            TokenType::ASTERISK => Token::Asterisk,
            TokenType::SLASH => Token::Slash,
            TokenType::LT => Token::Lt,
            TokenType::GT => Token::Gt,
            TokenType::COMMA => Token::Comma,
            TokenType::SEMICOLON => Token::Semicolon,
            TokenType::LPAREN => Token::LParen,
            TokenType::RPAREN => Token::RParen,
            TokenType::LBRACE => Token::LBrace,
            TokenType::RBRACE => Token::RBrace,
            TokenType::FUNCTION => Token::Function,
            TokenType::LET => Token::Let,
            TokenType::TRUE => Token::True,
            TokenType::FALSE => Token::False,
            TokenType::IF => Token::If,
            TokenType::ELSE => Token::Else,
            TokenType::RETURN => Token::Return,
            TokenType::EQ => Token::Eq,
            TokenType::NOTEQ => Token::NotEq,
        }
    }
}

impl PartialEq for TokenType {
    /// Two tokens are equal when they have the same kind and, for `IDENT` and
    /// `INT`, the same text.
    fn eq(&self, other: &Self) -> (r: bool)
        ensures
            r == (self@ == other@),
    {
        match (self, other) {
            (TokenType::INT(val1), TokenType::INT(val2)) => val1.eq(val2),
            (TokenType::IDENT(val1), TokenType::IDENT(val2)) => val1.eq(val2),
            (TokenType::ILLEGAL, TokenType::ILLEGAL) => true,
            (TokenType::EOF, TokenType::EOF) => true,
            (TokenType::ASSIGN, TokenType::ASSIGN) => true,
            (TokenType::PLUS, TokenType::PLUS) => true,
            (TokenType::MINUS, TokenType::MINUS) => true,
            (TokenType::BANG, TokenType::BANG) => true,
            (TokenType::ASTERISK, TokenType::ASTERISK) => true,
            (TokenType::SLASH, TokenType::SLASH) => true,
            (TokenType::LT, TokenType::LT) => true,
            (TokenType::GT, TokenType::GT) => true,
            (TokenType::COMMA, TokenType::COMMA) => true,
            (TokenType::SEMICOLON, TokenType::SEMICOLON) => true,
            (TokenType::LPAREN, TokenType::LPAREN) => true,
            (TokenType::RPAREN, TokenType::RPAREN) => true,
            (TokenType::LBRACE, TokenType::LBRACE) => true,
            (TokenType::RBRACE, TokenType::RBRACE) => true,
            (TokenType::FUNCTION, TokenType::FUNCTION) => true,
            (TokenType::LET, TokenType::LET) => true,
            (TokenType::TRUE, TokenType::TRUE) => true,
            (TokenType::FALSE, TokenType::FALSE) => true,
            (TokenType::IF, TokenType::IF) => true,
            (TokenType::ELSE, TokenType::ELSE) => true,
            (TokenType::RETURN, TokenType::RETURN) => true,
            (TokenType::EQ, TokenType::EQ) => true,
            (TokenType::NOTEQ, TokenType::NOTEQ) => true,
            _ => false,
        }
    }
}

impl vstd::std_specs::cmp::PartialEqSpecImpl for TokenType {
    open spec fn obeys_eq_spec() -> bool {
        true
    }

    open spec fn eq_spec(&self, other: &TokenType) -> bool {
        self@ == other@
    }
}

} // verus!
