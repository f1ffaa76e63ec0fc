//! Tokens: what the lexer hands to the parser.
use vstd::prelude::*;
use crate::errors::{CompilerError, CompilerErrorView};
use crate::text::{decimal, push_decimal, push_signed_decimal, signed_decimal};

verus! {

/// A token with the positions of its first character and of the character after its last.
#[derive(Debug, Clone, PartialEq)]
pub struct Token {
    pub kind: TokenKind,
    pub start: usize,
    pub end: usize,
}

/// What a token is. A floating literal keeps its text as written.
#[derive(Debug, Clone, PartialEq)]
pub enum TokenKind {
    Identifier(String),
    ConstInt(i32),
    ConstLong(i64),
    ConstUInt(u32),
    ConstULong(u64),
    ConstDouble(String),
    Int,
    Void,
    Return,
    Struct,
    LeftParen,
    RightParen,
    LeftBrace,
    RightBrace,
    Semicolon,
    Comma,
    Minus,
    MinusMinus,
    Tilde,
    EOF,
    Error(CompilerError),
}

/// The mathematical value of a [`TokenKind`].
pub enum TokenKindView {
    Identifier(Seq<char>),
    ConstInt(i32),
    ConstLong(i64),
    ConstUInt(u32),
    ConstULong(u64),
    ConstDouble(Seq<char>),
    Int,
    Void,
    Return,
    Struct,
    LeftParen,
    RightParen,
    LeftBrace,
    RightBrace,
    Semicolon,
    Comma,
    Minus,
    MinusMinus,
    Tilde,
    EOF,
    Error(CompilerErrorView),
}

/// The mathematical value of a [`Token`].
pub struct TokenView {
    pub kind: TokenKindView,
    pub start: usize,
    pub end: usize,
}

impl TokenKindView {
    /// How a diagnostic names the kind: the variant's name, with what it carries in brackets.
    pub open spec fn text(self) -> Seq<char> {
        match self {
            TokenKindView::Identifier(name) => "Identifier(\""@ + name + "\")"@,
            TokenKindView::ConstInt(v) => "ConstInt("@ + signed_decimal(v as int) + ")"@,
            TokenKindView::ConstLong(v) => "ConstLong("@ + signed_decimal(v as int) + ")"@,
            TokenKindView::ConstUInt(v) => "ConstUInt("@ + decimal(v as nat) + ")"@,
            TokenKindView::ConstULong(v) => "ConstULong("@ + decimal(v as nat) + ")"@,
            TokenKindView::ConstDouble(lexeme) => "ConstDouble("@ + lexeme + ")"@,
            TokenKindView::Int => "Int"@,
            TokenKindView::Void => "Void"@,
            TokenKindView::Return => "Return"@,
            TokenKindView::Struct => "Struct"@,
            TokenKindView::LeftParen => "LeftParen"@,
            TokenKindView::RightParen => "RightParen"@,
            TokenKindView::LeftBrace => "LeftBrace"@,
            TokenKindView::RightBrace => "RightBrace"@,
            TokenKindView::Semicolon => "Semicolon"@,
            TokenKindView::Comma => "Comma"@,
            TokenKindView::Minus => "Minus"@,
            TokenKindView::MinusMinus => "MinusMinus"@,
            TokenKindView::Tilde => "Tilde"@,
            TokenKindView::EOF => "EOF"@,
            TokenKindView::Error(e) => "Error("@ + e.text() + ")"@,
        }
    }
}

impl View for TokenKind {
    type V = TokenKindView;

    open spec fn view(&self) -> TokenKindView {
        match self {
            TokenKind::Identifier(name) => TokenKindView::Identifier(name@),
            TokenKind::ConstInt(v) => TokenKindView::ConstInt(*v),
            TokenKind::ConstLong(v) => TokenKindView::ConstLong(*v),
            TokenKind::ConstUInt(v) => TokenKindView::ConstUInt(*v),
            TokenKind::ConstULong(v) => TokenKindView::ConstULong(*v),
            TokenKind::ConstDouble(lexeme) => TokenKindView::ConstDouble(lexeme@),
            TokenKind::Int => TokenKindView::Int,
            TokenKind::Void => TokenKindView::Void,
            TokenKind::Return => TokenKindView::Return,
            TokenKind::Struct => TokenKindView::Struct,
            TokenKind::LeftParen => TokenKindView::LeftParen,
            TokenKind::RightParen => TokenKindView::RightParen,
            TokenKind::LeftBrace => TokenKindView::LeftBrace,
            TokenKind::RightBrace => TokenKindView::RightBrace,
            TokenKind::Semicolon => TokenKindView::Semicolon,
            TokenKind::Comma => TokenKindView::Comma,
            TokenKind::Minus => TokenKindView::Minus,
            TokenKind::MinusMinus => TokenKindView::MinusMinus,
            TokenKind::Tilde => TokenKindView::Tilde,
            TokenKind::EOF => TokenKindView::EOF,
            TokenKind::Error(e) => TokenKindView::Error(e@),
        }
    }
}

impl DeepView for TokenKind {
    type V = TokenKindView;

    open spec fn deep_view(&self) -> TokenKindView {
        self@
    }
}

impl View for Token {
    type V = TokenView;

    open spec fn view(&self) -> TokenView {
        TokenView { kind: self.kind@, start: self.start, end: self.end }
    }
}

impl DeepView for Token {
    type V = TokenView;

    open spec fn deep_view(&self) -> TokenView {
        self@
    }
}

impl Token {
    pub fn new(kind: TokenKind, start: usize, end: usize) -> (token: Token)
        ensures
            token == (Token { kind, start, end }),
    {
        Token { kind, start, end }
    }

    /// A copy of the token.
    pub fn duplicate(&self) -> (copy: Token)
        ensures
            copy == *self,
    {
        Token { kind: self.kind.duplicate(), start: self.start, end: self.end }
    }
}

impl TokenKind {
    /// A copy of the kind.
    pub fn duplicate(&self) -> (copy: TokenKind)
        ensures
            copy == *self,
    {
        match self {
            TokenKind::Identifier(name) => TokenKind::Identifier(name.clone()),
            TokenKind::ConstInt(v) => TokenKind::ConstInt(*v),
            TokenKind::ConstLong(v) => TokenKind::ConstLong(*v),
            TokenKind::ConstUInt(v) => TokenKind::ConstUInt(*v),
            TokenKind::ConstULong(v) => TokenKind::ConstULong(*v),
            TokenKind::ConstDouble(lexeme) => TokenKind::ConstDouble(lexeme.clone()),
            TokenKind::Int => TokenKind::Int,
            TokenKind::Void => TokenKind::Void,
            TokenKind::Return => TokenKind::Return,
            TokenKind::Struct => TokenKind::Struct,
            TokenKind::LeftParen => TokenKind::LeftParen,
            TokenKind::RightParen => TokenKind::RightParen,
            TokenKind::LeftBrace => TokenKind::LeftBrace,
            TokenKind::RightBrace => TokenKind::RightBrace,
            TokenKind::Semicolon => TokenKind::Semicolon,
            TokenKind::Comma => TokenKind::Comma,
            TokenKind::Minus => TokenKind::Minus,
            TokenKind::MinusMinus => TokenKind::MinusMinus,
            TokenKind::Tilde => TokenKind::Tilde,
            TokenKind::EOF => TokenKind::EOF,
            TokenKind::Error(e) => TokenKind::Error(e.duplicate()),
        }
    }

    /// Whether two kinds have the same value.
    pub fn same_as(&self, other: &TokenKind) -> (same: bool)
        ensures
            same == (self@ == other@),
    {
        match self {
            TokenKind::Identifier(a) => match other {
                TokenKind::Identifier(b) => *a == *b,
                _ => false,
            },
            TokenKind::ConstInt(a) => match other {
                TokenKind::ConstInt(b) => *a == *b,
                _ => false,
            },
            TokenKind::ConstLong(a) => match other {
                TokenKind::ConstLong(b) => *a == *b,
                _ => false,
            },
            TokenKind::ConstUInt(a) => match other {
                TokenKind::ConstUInt(b) => *a == *b,
                _ => false,
            },
            TokenKind::ConstULong(a) => match other {
                TokenKind::ConstULong(b) => *a == *b,
                _ => false,
            },
            TokenKind::ConstDouble(a) => match other {
                TokenKind::ConstDouble(b) => *a == *b,
                _ => false,
            },
            TokenKind::Int => matches!(other, TokenKind::Int),
            TokenKind::Void => matches!(other, TokenKind::Void),
            TokenKind::Return => matches!(other, TokenKind::Return),
            TokenKind::Struct => matches!(other, TokenKind::Struct),
            TokenKind::LeftParen => matches!(other, TokenKind::LeftParen),
            TokenKind::RightParen => matches!(other, TokenKind::RightParen),
            TokenKind::LeftBrace => matches!(other, TokenKind::LeftBrace),
            TokenKind::RightBrace => matches!(other, TokenKind::RightBrace),
            TokenKind::Semicolon => matches!(other, TokenKind::Semicolon),
            TokenKind::Comma => matches!(other, TokenKind::Comma),
            TokenKind::Minus => matches!(other, TokenKind::Minus),
            TokenKind::MinusMinus => matches!(other, TokenKind::MinusMinus),
            TokenKind::Tilde => matches!(other, TokenKind::Tilde),
            TokenKind::EOF => matches!(other, TokenKind::EOF),
            TokenKind::Error(a) => match other {
                TokenKind::Error(b) => a.same_as(b),
                _ => false,
            },
        }
    }

    /// How a diagnostic names the kind.
    pub fn describe(&self) -> (out: String)
        ensures
            out@ == self@.text(),
    {
        let mut out = String::new();
        match self {
            TokenKind::Identifier(name) => {
                out.append("Identifier(\"");
                out.append(name.as_str());
                out.append("\")");
            },
            TokenKind::ConstInt(v) => {
                out.append("ConstInt(");
                push_signed_decimal(&mut out, *v as i64);
                out.append(")");
            },
            TokenKind::ConstLong(v) => {
                out.append("ConstLong(");
                push_signed_decimal(&mut out, *v);
                out.append(")");
            },
            TokenKind::ConstUInt(v) => {
                out.append("ConstUInt(");
                push_decimal(&mut out, *v as u64);
                out.append(")");
            },
            TokenKind::ConstULong(v) => {
                out.append("ConstULong(");
                push_decimal(&mut out, *v);
                out.append(")");
            },
            TokenKind::ConstDouble(lexeme) => {
                out.append("ConstDouble(");
                out.append(lexeme.as_str());
                out.append(")");
            },
            TokenKind::Int => out.append("Int"),
            TokenKind::Void => out.append("Void"),
            TokenKind::Return => out.append("Return"),
            TokenKind::Struct => out.append("Struct"),
            TokenKind::LeftParen => out.append("LeftParen"),
            TokenKind::RightParen => out.append("RightParen"),
            TokenKind::LeftBrace => out.append("LeftBrace"),
            TokenKind::RightBrace => out.append("RightBrace"),
            TokenKind::Semicolon => out.append("Semicolon"),
            TokenKind::Comma => out.append("Comma"),
            TokenKind::Minus => out.append("Minus"),
            TokenKind::MinusMinus => out.append("MinusMinus"),
            TokenKind::Tilde => out.append("Tilde"),
            TokenKind::EOF => out.append("EOF"),
            TokenKind::Error(e) => {
                out.append("Error(");
                let inner = e.to_string();
                out.append(inner.as_str());
                out.append(")");
            },
        }
        out
    }
}

} // verus!
