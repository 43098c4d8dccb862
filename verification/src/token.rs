//! Token kinds and positioned tokens, as the lexer hands them to the parser.

use vstd::prelude::*;

use crate::strings::str_eq;

verus! {

/// The kind of a token. `Poison` marks a character the lexer cannot read;
/// `Eof` marks the end of the input.
#[derive(Clone, Copy, Debug, PartialEq, Eq, Hash, Structural)]
pub enum TokenType {
    Poison,
    Eof,
    Ident,
    Int,
    Assign,
    Plus,
    Minus,
    Asterisk,
    Slash,
    Bang,
    Lt,
    Gt,
    Eq,
    Neq,
    Comma,
    Semicolon,
    Lparen,
    Rparen,
    Lbrace,
    Rbrace,
    Let,
    Func,
    True,
    False,
    If,
    Else,
    Return,
}

/// A token with its source text and the row and column where it starts.
#[derive(Clone, Debug, PartialEq)]
pub struct Token {
    pub token_type: TokenType,
    pub literal: String,
    pub row: i64,
    pub column: i64,
}

/// The mathematical value of a token: its kind, the characters of its
/// source text, and its position.
pub struct TokenV {
    pub token_type: TokenType,
    pub literal: Seq<char>,
    pub row: i64,
    pub column: i64,
}

impl View for Token {
    type V = TokenV;

    open spec fn view(&self) -> TokenV {
        TokenV {
            token_type: self.token_type,
            literal: self.literal@,
            row: self.row,
            column: self.column,
        }
    }
}

impl Token {
    pub fn new(token_type: TokenType, literal: &str, row: i64, column: i64) -> (r: Token)
        ensures
            r.token_type == token_type,
            r.literal@ == literal@,
            r.row == row,
            r.column == column,
    {
        Token { token_type, literal: String::from_str(literal), row, column }
    }
}

/// The token kind that a word of source text stands for: one of the
/// keywords, or `Ident` for any other word.
pub open spec fn spec_look_up_ident(s: Seq<char>) -> TokenType {
    if s == "let"@ {
        TokenType::Let
    } else if s == "fn"@ {
        TokenType::Func
    } else if s == "true"@ {
        TokenType::True
    } else if s == "false"@ {
        TokenType::False
    } else if s == "if"@ {
        TokenType::If
    } else if s == "else"@ {
        TokenType::Else
    } else if s == "return"@ {
        TokenType::Return
    } else {
        TokenType::Ident
    }
}

/// Classifies a word of source text as a keyword or an identifier.
pub fn look_up_ident(s: &str) -> (r: TokenType)
    ensures
        r == spec_look_up_ident(s@),
{
    if str_eq(s, "let") {
        TokenType::Let
    } else if str_eq(s, "fn") {
        TokenType::Func
    } else if str_eq(s, "true") {
        TokenType::True
    } else if str_eq(s, "false") {
        TokenType::False
    } else if str_eq(s, "if") {
        TokenType::If
    } else if str_eq(s, "else") {
        TokenType::Else
    } else if str_eq(s, "return") {
        TokenType::Return
    } else {
        TokenType::Ident
    }
}

/// The short name of a token kind, as it appears in diagnostics.
pub open spec fn token_type_code(t: TokenType) -> Seq<char> {
    match t {
        TokenType::Poison => "__poison__"@,
        TokenType::Eof => "__EOF__"@,
        TokenType::Ident => "__ident__"@,
        TokenType::Int => "__int__"@,
        TokenType::Assign => "="@,
        TokenType::Plus => "+"@,
        TokenType::Minus => "-"@,
        TokenType::Asterisk => "*"@,
        TokenType::Slash => "/"@,
        TokenType::Bang => "!"@,
        TokenType::Lt => "<"@,
        TokenType::Gt => ">"@,
        TokenType::Eq => "=="@,
        TokenType::Neq => "!="@,
        TokenType::Comma => ","@,
        TokenType::Semicolon => ";"@,
        TokenType::Lparen => "("@,
        TokenType::Rparen => ")"@,
        TokenType::Lbrace => "{"@,
        TokenType::Rbrace => "}"@,
        TokenType::Let => "let"@,
        TokenType::Func => "fn"@,
        TokenType::True => "true"@,
        TokenType::False => "false"@,
        TokenType::If => "if"@,
        TokenType::Else => "else"@,
        TokenType::Return => "return"@,
    }
}

/// Renders the short name of a token kind.
pub fn token_type_code_string(t: TokenType) -> (r: String)
    ensures
        r@ == token_type_code(t),
{
    match t {
        TokenType::Poison => String::from_str("__poison__"),
        TokenType::Eof => String::from_str("__EOF__"),
        TokenType::Ident => String::from_str("__ident__"),
        TokenType::Int => String::from_str("__int__"),
        TokenType::Assign => String::from_str("="),
        TokenType::Plus => String::from_str("+"),
        TokenType::Minus => String::from_str("-"),
        TokenType::Asterisk => String::from_str("*"),
        TokenType::Slash => String::from_str("/"),
        TokenType::Bang => String::from_str("!"),
        TokenType::Lt => String::from_str("<"),
        TokenType::Gt => String::from_str(">"),
        TokenType::Eq => String::from_str("=="),
        TokenType::Neq => String::from_str("!="),
        TokenType::Comma => String::from_str(","),
        TokenType::Semicolon => String::from_str(";"),
        TokenType::Lparen => String::from_str("("),
        TokenType::Rparen => String::from_str(")"),
        TokenType::Lbrace => String::from_str("{"),
        TokenType::Rbrace => String::from_str("}"),
        TokenType::Let => String::from_str("let"),
        TokenType::Func => String::from_str("fn"),
        TokenType::True => String::from_str("true"),
        TokenType::False => String::from_str("false"),
        TokenType::If => String::from_str("if"),
        TokenType::Else => String::from_str("else"),
        TokenType::Return => String::from_str("return"),
    }
}

/// How a token is written in a diagnostic: kinds whose text varies
/// (identifiers, integers, the poison and end markers) show the kind and
/// the text, all others show the text alone.
pub open spec fn token_display(t: TokenV) -> Seq<char> {
    match t.token_type {
        TokenType::Poison | TokenType::Eof | TokenType::Ident | TokenType::Int => token_type_code(
            t.token_type,
        ) + "("@ + t.literal + ")"@,
        _ => t.literal,
    }
}

impl Token {
    /// Renders the token as a diagnostic names it.
    pub fn display_string(&self) -> (r: String)
        ensures
            r@ == token_display(self@),
    {
        match self.token_type {
            TokenType::Poison | TokenType::Eof | TokenType::Ident | TokenType::Int => {
                let mut s = token_type_code_string(self.token_type);
                s.append("(");
                s.append(self.literal.as_str());
                s.append(")");
                s
            },
            _ => self.literal.clone(),
        }
    }
}

} // verus!
