use vstd::prelude::*;

use crate::ast::Span;

verus! {

/// A lexical token together with the place in the source where the lexer produced it.
#[derive(Debug)]
pub struct Token {
    pub token_type: TokenType,
    pub position: usize,
    pub line: usize,
    pub column: usize,
}

/// The kind of a token, with the text it carries where it carries any.
#[derive(Debug, Eq, Hash)]
pub enum TokenType {
    LeftParen,
    RightParen,
    LeftBrace,
    RightBrace,
    LeftBracket,
    RightBracket,
    LT,
    GT,
    LtEq,
    GtEq,
    Eq,
    EqEq,
    FatArrow,
    Bang,
    BangEq,
    Plus,
    Minus,
    Star,
    Slash,
    Percent,
    And,
    Or,
    Pipe,
    Colon,
    Semicolon,
    Dot,
    Comma,
    Identifier(String),
    StringLit(String),
    CharLit(char),
    Float(String),
    Int(String),
    Comment(String),
    Struct,
    Function,
    For,
    While,
    Null,
    True,
    False,
    Var,
    If,
    Else,
    Extend,
    Return,
    Interface,
    Is,
    In,
    Type,
    As,
    SelfRef,
    Match,
    Class,
    Continue,
    Break,
    Extern,
    Import,
    From,
    EOF,
}

/// The mathematical model of a `TokenType`: the same kinds, with text as a sequence of chars.
pub enum TokenKind {
    LeftParen,
    RightParen,
    LeftBrace,
    RightBrace,
    LeftBracket,
    RightBracket,
    LT,
    GT,
    LtEq,
    GtEq,
    Eq,
    EqEq,
    FatArrow,
    Bang,
    BangEq,
    Plus,
    Minus,
    Star,
    Slash,
    Percent,
    And,
    Or,
    Pipe,
    Colon,
    Semicolon,
    Dot,
    Comma,
    Identifier(Seq<char>),
    StringLit(Seq<char>),
    CharLit(char),
    Float(Seq<char>),
    Int(Seq<char>),
    Comment(Seq<char>),
    Struct,
    Function,
    For,
    While,
    Null,
    True,
    False,
    Var,
    If,
    Else,
    Extend,
    Return,
    Interface,
    Is,
    In,
    Type,
    As,
    SelfRef,
    Match,
    Class,
    Continue,
    Break,
    Extern,
    Import,
    From,
    EOF,
}

impl View for TokenType {
    type V = TokenKind;

    open spec fn view(&self) -> TokenKind {
        match self {
            TokenType::LeftParen => TokenKind::LeftParen,
            TokenType::RightParen => TokenKind::RightParen,
            TokenType::LeftBrace => TokenKind::LeftBrace,
            TokenType::RightBrace => TokenKind::RightBrace,
            TokenType::LeftBracket => TokenKind::LeftBracket,
            TokenType::RightBracket => TokenKind::RightBracket,
            TokenType::LT => TokenKind::LT,
            TokenType::GT => TokenKind::GT,
            TokenType::LtEq => TokenKind::LtEq,
            TokenType::GtEq => TokenKind::GtEq,
            TokenType::Eq => TokenKind::Eq,
            TokenType::EqEq => TokenKind::EqEq,
            TokenType::FatArrow => TokenKind::FatArrow,
            TokenType::Bang => TokenKind::Bang,
            TokenType::BangEq => TokenKind::BangEq,
            TokenType::Plus => TokenKind::Plus,
            TokenType::Minus => TokenKind::Minus,
            TokenType::Star => TokenKind::Star,
            TokenType::Slash => TokenKind::Slash,
            TokenType::Percent => TokenKind::Percent,
            TokenType::And => TokenKind::And,
            TokenType::Or => TokenKind::Or,
            TokenType::Pipe => TokenKind::Pipe,
            TokenType::Colon => TokenKind::Colon,
            TokenType::Semicolon => TokenKind::Semicolon,
            TokenType::Dot => TokenKind::Dot,
            TokenType::Comma => TokenKind::Comma,
            TokenType::Identifier(s) => TokenKind::Identifier(s@),
            TokenType::StringLit(s) => TokenKind::StringLit(s@),
            TokenType::CharLit(c) => TokenKind::CharLit(*c),
            TokenType::Float(s) => TokenKind::Float(s@),
            TokenType::Int(s) => TokenKind::Int(s@),
            TokenType::Comment(s) => TokenKind::Comment(s@),
            TokenType::Struct => TokenKind::Struct,
            TokenType::Function => TokenKind::Function,
            TokenType::For => TokenKind::For,
            TokenType::While => TokenKind::While,
            TokenType::Null => TokenKind::Null,
            TokenType::True => TokenKind::True,
            TokenType::False => TokenKind::False,
            TokenType::Var => TokenKind::Var,
            TokenType::If => TokenKind::If,
            TokenType::Else => TokenKind::Else,
            TokenType::Extend => TokenKind::Extend,
            TokenType::Return => TokenKind::Return,
            TokenType::Interface => TokenKind::Interface,
            TokenType::Is => TokenKind::Is,
            TokenType::In => TokenKind::In,
            TokenType::Type => TokenKind::Type,
            TokenType::As => TokenKind::As,
            TokenType::SelfRef => TokenKind::SelfRef,
            TokenType::Match => TokenKind::Match,
            TokenType::Class => TokenKind::Class,
            TokenType::Continue => TokenKind::Continue,
            TokenType::Break => TokenKind::Break,
            TokenType::Extern => TokenKind::Extern,
            TokenType::Import => TokenKind::Import,
            TokenType::From => TokenKind::From,
            TokenType::EOF => TokenKind::EOF,
        }
    }
}

impl Clone for TokenType {
    fn clone(&self) -> (r: Self)
        ensures
            r@ == self@,
    {
        match self {
            TokenType::LeftParen => TokenType::LeftParen,
            TokenType::RightParen => TokenType::RightParen,
            TokenType::LeftBrace => TokenType::LeftBrace,
            TokenType::RightBrace => TokenType::RightBrace,
            TokenType::LeftBracket => TokenType::LeftBracket,
            TokenType::RightBracket => TokenType::RightBracket,
            TokenType::LT => TokenType::LT,
            TokenType::GT => TokenType::GT,
            TokenType::LtEq => TokenType::LtEq,
            TokenType::GtEq => TokenType::GtEq,
            TokenType::Eq => TokenType::Eq,
            TokenType::EqEq => TokenType::EqEq,
            TokenType::FatArrow => TokenType::FatArrow,
            TokenType::Bang => TokenType::Bang,
            TokenType::BangEq => TokenType::BangEq,
            TokenType::Plus => TokenType::Plus,
            TokenType::Minus => TokenType::Minus,
            TokenType::Star => TokenType::Star,
            TokenType::Slash => TokenType::Slash,
            TokenType::Percent => TokenType::Percent,
            TokenType::And => TokenType::And,
            TokenType::Or => TokenType::Or,
            TokenType::Pipe => TokenType::Pipe,
            TokenType::Colon => TokenType::Colon,
            TokenType::Semicolon => TokenType::Semicolon,
            TokenType::Dot => TokenType::Dot,
            TokenType::Comma => TokenType::Comma,
            TokenType::Identifier(s) => TokenType::Identifier(s.clone()),
            TokenType::StringLit(s) => TokenType::StringLit(s.clone()),
            TokenType::CharLit(c) => TokenType::CharLit(*c),
            TokenType::Float(s) => TokenType::Float(s.clone()),
            TokenType::Int(s) => TokenType::Int(s.clone()),
            TokenType::Comment(s) => TokenType::Comment(s.clone()),
            TokenType::Struct => TokenType::Struct,
            TokenType::Function => TokenType::Function,
            TokenType::For => TokenType::For,
            TokenType::While => TokenType::While,
            TokenType::Null => TokenType::Null,
            TokenType::True => TokenType::True,
            TokenType::False => TokenType::False,
            TokenType::Var => TokenType::Var,
            TokenType::If => TokenType::If,
            TokenType::Else => TokenType::Else,
            TokenType::Extend => TokenType::Extend,
            TokenType::Return => TokenType::Return,
            TokenType::Interface => TokenType::Interface,
            TokenType::Is => TokenType::Is,
            TokenType::In => TokenType::In,
            TokenType::Type => TokenType::Type,
            TokenType::As => TokenType::As,
            TokenType::SelfRef => TokenType::SelfRef,
            TokenType::Match => TokenType::Match,
            TokenType::Class => TokenType::Class,
            TokenType::Continue => TokenType::Continue,
            TokenType::Break => TokenType::Break,
            TokenType::Extern => TokenType::Extern,
            TokenType::Import => TokenType::Import,
            TokenType::From => TokenType::From,
            TokenType::EOF => TokenType::EOF,
        }
    }
}

impl PartialEq for TokenType {
    fn eq(&self, other: &Self) -> (r: bool) {
        match (self, other) {
            (TokenType::LeftParen, TokenType::LeftParen) => true,
            (TokenType::RightParen, TokenType::RightParen) => true,
            (TokenType::LeftBrace, TokenType::LeftBrace) => true,
            (TokenType::RightBrace, TokenType::RightBrace) => true,
            (TokenType::LeftBracket, TokenType::LeftBracket) => true,
            (TokenType::RightBracket, TokenType::RightBracket) => true,
            (TokenType::LT, TokenType::LT) => true,
            (TokenType::GT, TokenType::GT) => true,
            (TokenType::LtEq, TokenType::LtEq) => true,
            (TokenType::GtEq, TokenType::GtEq) => true,
            (TokenType::Eq, TokenType::Eq) => true,
            (TokenType::EqEq, TokenType::EqEq) => true,
            (TokenType::FatArrow, TokenType::FatArrow) => true,
            (TokenType::Bang, TokenType::Bang) => true,
            (TokenType::BangEq, TokenType::BangEq) => true,
            (TokenType::Plus, TokenType::Plus) => true,
            (TokenType::Minus, TokenType::Minus) => true,
            (TokenType::Star, TokenType::Star) => true,
            (TokenType::Slash, TokenType::Slash) => true,
            (TokenType::Percent, TokenType::Percent) => true,
            (TokenType::And, TokenType::And) => true,
            (TokenType::Or, TokenType::Or) => true,
            (TokenType::Pipe, TokenType::Pipe) => true,
            (TokenType::Colon, TokenType::Colon) => true,
            (TokenType::Semicolon, TokenType::Semicolon) => true,
            (TokenType::Dot, TokenType::Dot) => true,
            (TokenType::Comma, TokenType::Comma) => true,
            (TokenType::Identifier(a), TokenType::Identifier(b)) => *a == *b,
            (TokenType::StringLit(a), TokenType::StringLit(b)) => *a == *b,
            (TokenType::CharLit(a), TokenType::CharLit(b)) => *a == *b,
            (TokenType::Float(a), TokenType::Float(b)) => *a == *b,
            (TokenType::Int(a), TokenType::Int(b)) => *a == *b,
            (TokenType::Comment(a), TokenType::Comment(b)) => *a == *b,
            (TokenType::Struct, TokenType::Struct) => true,
            (TokenType::Function, TokenType::Function) => true,
            (TokenType::For, TokenType::For) => true,
            (TokenType::While, TokenType::While) => true,
            (TokenType::Null, TokenType::Null) => true,
            (TokenType::True, TokenType::True) => true,
            (TokenType::False, TokenType::False) => true,
            (TokenType::Var, TokenType::Var) => true,
            (TokenType::If, TokenType::If) => true,
            (TokenType::Else, TokenType::Else) => true,
            (TokenType::Extend, TokenType::Extend) => true,
            (TokenType::Return, TokenType::Return) => true,
            (TokenType::Interface, TokenType::Interface) => true,
            (TokenType::Is, TokenType::Is) => true,
            (TokenType::In, TokenType::In) => true,
            (TokenType::Type, TokenType::Type) => true,
            (TokenType::As, TokenType::As) => true,
            (TokenType::SelfRef, TokenType::SelfRef) => true,
            (TokenType::Match, TokenType::Match) => true,
            (TokenType::Class, TokenType::Class) => true,
            (TokenType::Continue, TokenType::Continue) => true,
            (TokenType::Break, TokenType::Break) => true,
            (TokenType::Extern, TokenType::Extern) => true,
            (TokenType::Import, TokenType::Import) => true,
            (TokenType::From, TokenType::From) => true,
            (TokenType::EOF, TokenType::EOF) => true,
            _ => false,
        }
    }
}

impl vstd::std_specs::cmp::PartialEqSpecImpl for TokenType {
    open spec fn obeys_eq_spec() -> bool {
        true
    }

    open spec fn eq_spec(&self, other: &Self) -> bool {
        self@ == other@
    }
}

/// Number of UTF-8 bytes that a string of the given chars occupies.
pub open spec fn utf8_len(s: Seq<char>) -> nat {
    vstd::utf8::encode_utf8(s).len()
}

/// Length, in source bytes, of the text that a token of the given kind stands for.
pub open spec fn spec_text_len(k: TokenKind) -> nat {
    match k {
        TokenKind::LeftParen => 1,
        TokenKind::RightParen => 1,
        TokenKind::LeftBrace => 1,
        TokenKind::RightBrace => 1,
        TokenKind::LeftBracket => 1,
        TokenKind::RightBracket => 1,
        TokenKind::LT => 1,
        TokenKind::GT => 1,
        TokenKind::LtEq => 2,
        TokenKind::GtEq => 2,
        TokenKind::Eq => 1,
        TokenKind::EqEq => 2,
        TokenKind::FatArrow => 2,
        TokenKind::Bang => 1,
        TokenKind::BangEq => 2,
        TokenKind::Plus => 1,
        TokenKind::Minus => 1,
        TokenKind::Star => 1,
        TokenKind::Slash => 1,
        TokenKind::Percent => 1,
        TokenKind::And => 2,
        TokenKind::Or => 2,
        TokenKind::Pipe => 1,
        TokenKind::Colon => 1,
        TokenKind::Semicolon => 1,
        TokenKind::Dot => 1,
        TokenKind::Comma => 1,
        TokenKind::Identifier(s) => utf8_len(s),
        TokenKind::StringLit(s) => utf8_len(s) + 2,
        TokenKind::CharLit(_) => 3,
        TokenKind::Float(s) => utf8_len(s),
        TokenKind::Int(s) => utf8_len(s),
        TokenKind::Comment(s) => utf8_len(s) + 2,
        TokenKind::Struct => 6,
        TokenKind::Function => 8,
        TokenKind::For => 3,
        TokenKind::While => 5,
        TokenKind::Null => 4,
        TokenKind::True => 4,
        TokenKind::False => 5,
        TokenKind::Var => 3,
        TokenKind::If => 2,
        TokenKind::Else => 4,
        TokenKind::Extend => 6,
        TokenKind::Return => 6,
        TokenKind::Interface => 9,
        TokenKind::Is => 2,
        TokenKind::In => 2,
        TokenKind::Type => 4,
        TokenKind::As => 2,
        TokenKind::SelfRef => 4,
        TokenKind::Match => 5,
        TokenKind::Class => 5,
        TokenKind::Continue => 8,
        TokenKind::Break => 5,
        TokenKind::Extern => 6,
        TokenKind::Import => 6,
        TokenKind::From => 4,
        TokenKind::EOF => 0,
    }
}

impl TokenType {
    /// Length, in source bytes, of the text this token stands for.
    pub fn text_len(&self) -> (r: usize)
        requires
            spec_text_len(self@) <= usize::MAX,
        ensures
            r == spec_text_len(self@),
    {
        match self {
            TokenType::LeftParen => 1,
            TokenType::RightParen => 1,
            TokenType::LeftBrace => 1,
            TokenType::RightBrace => 1,
            TokenType::LeftBracket => 1,
            TokenType::RightBracket => 1,
            TokenType::LT => 1,
            TokenType::GT => 1,
            TokenType::LtEq => 2,
            TokenType::GtEq => 2,
            TokenType::Eq => 1,
            TokenType::EqEq => 2,
            TokenType::FatArrow => 2,
            TokenType::Bang => 1,
            TokenType::BangEq => 2,
            TokenType::Plus => 1,
            TokenType::Minus => 1,
            TokenType::Star => 1,
            TokenType::Slash => 1,
            TokenType::Percent => 1,
            TokenType::And => 2,
            TokenType::Or => 2,
            TokenType::Pipe => 1,
            TokenType::Colon => 1,
            TokenType::Semicolon => 1,
            TokenType::Dot => 1,
            TokenType::Comma => 1,
            TokenType::Identifier(name) => name.as_str().len(),
            TokenType::StringLit(value) => value.as_str().len() + 2,
            TokenType::CharLit(_) => 3,
            TokenType::Float(value) => value.as_str().len(),
            TokenType::Int(value) => value.as_str().len(),
            TokenType::Comment(value) => value.as_str().len() + 2,
            TokenType::Struct => 6,
            TokenType::Function => 8,
            TokenType::For => 3,
            TokenType::While => 5,
            TokenType::Null => 4,
            TokenType::True => 4,
            TokenType::False => 5,
            TokenType::Var => 3,
            TokenType::If => 2,
            TokenType::Else => 4,
            TokenType::Extend => 6,
            TokenType::Return => 6,
            TokenType::Interface => 9,
            TokenType::Is => 2,
            TokenType::In => 2,
            TokenType::Type => 4,
            TokenType::As => 2,
            TokenType::SelfRef => 4,
            TokenType::Match => 5,
            TokenType::Class => 5,
            TokenType::Continue => 8,
            TokenType::Break => 5,
            TokenType::Extern => 6,
            TokenType::Import => 6,
            TokenType::From => 4,
            TokenType::EOF => 0,
        }
    }
}

/// The mathematical model of a `Token`.
pub struct SpecToken {
    pub kind: TokenKind,
    pub position: usize,
    pub line: usize,
    pub column: usize,
}

impl View for Token {
    type V = SpecToken;

    open spec fn view(&self) -> SpecToken {
        SpecToken {
            kind: self.token_type@,
            position: self.position,
            line: self.line,
            column: self.column,
        }
    }
}

impl Clone for Token {
    fn clone(&self) -> (r: Self)
        ensures
            r@ == self@,
    {
        Token {
            token_type: self.token_type.clone(),
            position: self.position,
            line: self.line,
            column: self.column,
        }
    }
}

impl PartialEq for Token {
    fn eq(&self, other: &Self) -> (r: bool) {
        self.token_type == other.token_type && self.position == other.position && self.line
            == other.line && self.column == other.column
    }
}

impl vstd::std_specs::cmp::PartialEqSpecImpl for Token {
    open spec fn obeys_eq_spec() -> bool {
        true
    }

    open spec fn eq_spec(&self, other: &Self) -> bool {
        self@ == other@
    }
}

/// The token of the given kind at the given place.
pub open spec fn spec_token(kind: TokenKind, position: usize, line: usize, column: usize) -> SpecToken {
    SpecToken { kind, position, line, column }
}

impl Token {
    /// The (line, column) at which the token starts.
    pub fn span(&self) -> (r: Span)
        ensures
            r.line == self.line,
            r.column == self.column,
    {
        Span { line: self.line, column: self.column }
    }

    pub fn new(token_type: TokenType, position: usize, line: usize, column: usize) -> (r: Self)
        ensures
            r@ == spec_token(token_type@, position, line, column),
    {
        Self { token_type, position, line, column }
    }


    pub fn left_paren(position: usize, line: usize, column: usize) -> (r: Self)
        ensures
            r@ == spec_token(TokenKind::LeftParen, position, line, column),
    {
        Self::new(TokenType::LeftParen, position, line, column)
    }

    pub fn right_paren(position: usize, line: usize, column: usize) -> (r: Self)
        ensures
            r@ == spec_token(TokenKind::RightParen, position, line, column),
    {
        Self::new(TokenType::RightParen, position, line, column)
    }

    pub fn left_brace(position: usize, line: usize, column: usize) -> (r: Self)
        ensures
            r@ == spec_token(TokenKind::LeftBrace, position, line, column),
    {
        Self::new(TokenType::LeftBrace, position, line, column)
    }

    pub fn right_brace(position: usize, line: usize, column: usize) -> (r: Self)
        ensures
            r@ == spec_token(TokenKind::RightBrace, position, line, column),
    {
        Self::new(TokenType::RightBrace, position, line, column)
    }

    pub fn left_bracket(position: usize, line: usize, column: usize) -> (r: Self)
        ensures
            r@ == spec_token(TokenKind::LeftBracket, position, line, column),
    {
        Self::new(TokenType::LeftBracket, position, line, column)
    }

    pub fn right_bracket(position: usize, line: usize, column: usize) -> (r: Self)
        ensures
            r@ == spec_token(TokenKind::RightBracket, position, line, column),
    {
        Self::new(TokenType::RightBracket, position, line, column)
    }

    pub fn lt(position: usize, line: usize, column: usize) -> (r: Self)
        ensures
            r@ == spec_token(TokenKind::LT, position, line, column),
    {
        Self::new(TokenType::LT, position, line, column)
    }

    pub fn gt(position: usize, line: usize, column: usize) -> (r: Self)
        ensures
            r@ == spec_token(TokenKind::GT, position, line, column),
    {
        Self::new(TokenType::GT, position, line, column)
    }

    pub fn eq(position: usize, line: usize, column: usize) -> (r: Self)
        ensures
            r@ == spec_token(TokenKind::Eq, position, line, column),
    {
        Self::new(TokenType::Eq, position, line, column)
    }

    pub fn eq_eq(position: usize, line: usize, column: usize) -> (r: Self)
        ensures
            r@ == spec_token(TokenKind::EqEq, position, line, column),
    {
        Self::new(TokenType::EqEq, position, line, column)
    }

    pub fn bang(position: usize, line: usize, column: usize) -> (r: Self)
        ensures
            r@ == spec_token(TokenKind::Bang, position, line, column),
    {
        Self::new(TokenType::Bang, position, line, column)
    }

    pub fn bang_eq(position: usize, line: usize, column: usize) -> (r: Self)
        ensures
            r@ == spec_token(TokenKind::BangEq, position, line, column),
    {
        Self::new(TokenType::BangEq, position, line, column)
    }

    pub fn plus(position: usize, line: usize, column: usize) -> (r: Self)
        ensures
            r@ == spec_token(TokenKind::Plus, position, line, column),
    {
        Self::new(TokenType::Plus, position, line, column)
    }

    pub fn minus(position: usize, line: usize, column: usize) -> (r: Self)
        ensures
            r@ == spec_token(TokenKind::Minus, position, line, column),
    {
        Self::new(TokenType::Minus, position, line, column)
    }

    pub fn star(position: usize, line: usize, column: usize) -> (r: Self)
        ensures
            r@ == spec_token(TokenKind::Star, position, line, column),
    {
        Self::new(TokenType::Star, position, line, column)
    }

    pub fn slash(position: usize, line: usize, column: usize) -> (r: Self)
        ensures
            r@ == spec_token(TokenKind::Slash, position, line, column),
    {
        Self::new(TokenType::Slash, position, line, column)
    }

    pub fn percent(position: usize, line: usize, column: usize) -> (r: Self)
        ensures
            r@ == spec_token(TokenKind::Percent, position, line, column),
    {
        Self::new(TokenType::Percent, position, line, column)
    }

    pub fn and(position: usize, line: usize, column: usize) -> (r: Self)
        ensures
            r@ == spec_token(TokenKind::And, position, line, column),
    {
        Self::new(TokenType::And, position, line, column)
    }

    pub fn or(position: usize, line: usize, column: usize) -> (r: Self)
        ensures
            r@ == spec_token(TokenKind::Or, position, line, column),
    {
        Self::new(TokenType::Or, position, line, column)
    }

    pub fn pipe(position: usize, line: usize, column: usize) -> (r: Self)
        ensures
            r@ == spec_token(TokenKind::Pipe, position, line, column),
    {
        Self::new(TokenType::Pipe, position, line, column)
    }

    pub fn colon(position: usize, line: usize, column: usize) -> (r: Self)
        ensures
            r@ == spec_token(TokenKind::Colon, position, line, column),
    {
        Self::new(TokenType::Colon, position, line, column)
    }

    pub fn semicolon(position: usize, line: usize, column: usize) -> (r: Self)
        ensures
            r@ == spec_token(TokenKind::Semicolon, position, line, column),
    {
        Self::new(TokenType::Semicolon, position, line, column)
    }

    pub fn dot(position: usize, line: usize, column: usize) -> (r: Self)
        ensures
            r@ == spec_token(TokenKind::Dot, position, line, column),
    {
        Self::new(TokenType::Dot, position, line, column)
    }

    pub fn comma(position: usize, line: usize, column: usize) -> (r: Self)
        ensures
            r@ == spec_token(TokenKind::Comma, position, line, column),
    {
        Self::new(TokenType::Comma, position, line, column)
    }

    pub fn identifier(name: String, position: usize, line: usize, column: usize) -> (r: Self)
        ensures
            r@ == spec_token(TokenKind::Identifier(name@), position, line, column),
    {
        Self::new(TokenType::Identifier(name), position, line, column)
    }

    pub fn string_lit(value: String, position: usize, line: usize, column: usize) -> (r: Self)
        ensures
            r@ == spec_token(TokenKind::StringLit(value@), position, line, column),
    {
        Self::new(TokenType::StringLit(value), position, line, column)
    }

    pub fn char_lit(value: char, position: usize, line: usize, column: usize) -> (r: Self)
        ensures
            r@ == spec_token(TokenKind::CharLit(value), position, line, column),
    {
        Self::new(TokenType::CharLit(value), position, line, column)
    }

    pub fn float(value: String, position: usize, line: usize, column: usize) -> (r: Self)
        ensures
            r@ == spec_token(TokenKind::Float(value@), position, line, column),
    {
        Self::new(TokenType::Float(value), position, line, column)
    }

    pub fn int_lit(value: String, position: usize, line: usize, column: usize) -> (r: Self)
        ensures
            r@ == spec_token(TokenKind::Int(value@), position, line, column),
    {
        Self::new(TokenType::Int(value), position, line, column)
    }

    pub fn comment(value: String, position: usize, line: usize, column: usize) -> (r: Self)
        ensures
            r@ == spec_token(TokenKind::Comment(value@), position, line, column),
    {
        Self::new(TokenType::Comment(value), position, line, column)
    }

    pub fn keyword(keyword: TokenType, position: usize, line: usize, column: usize) -> (r: Self)
        ensures
            r@ == spec_token(keyword@, position, line, column),
    {
        Self::new(keyword, position, line, column)
    }

    pub fn eof(position: usize, line: usize, column: usize) -> (r: Self)
        ensures
            r@ == spec_token(TokenKind::EOF, position, line, column),
    {
        Self::new(TokenType::EOF, position, line, column)
    }
}

/// The model of a token-list builder: the tokens so far, and the position,
/// line and column at which the next token starts.
pub struct BuilderModel {
    pub tokens: Seq<SpecToken>,
    pub position: int,
    pub line: int,
    pub column: int,
}

/// One call on a token-list builder: a token, one or `n` columns of blank
/// text, or a line break.
pub enum BuilderCall {
    Token(TokenKind),
    Space,
    Spaces(nat),
    Newline,
}

/// What one builder call does to the model.
pub open spec fn apply_call(m: BuilderModel, c: BuilderCall) -> BuilderModel {
    match c {
        BuilderCall::Token(k) => BuilderModel {
            tokens: m.tokens.push(spec_token(k, m.position as usize, m.line as usize, m.column as usize)),
            position: m.position + spec_text_len(k),
            line: m.line,
            column: m.column + spec_text_len(k),
        },
        BuilderCall::Space => BuilderModel { position: m.position + 1, column: m.column + 1, ..m },
        BuilderCall::Spaces(n) => BuilderModel { position: m.position + n, column: m.column + n, ..m },
        BuilderCall::Newline => BuilderModel { position: m.position + 1, line: m.line + 1, column: 1, ..m },
    }
}

/// What a chain of builder calls does to the model, in order.
pub open spec fn apply_calls(m: BuilderModel, cs: Seq<BuilderCall>) -> BuilderModel
    decreases cs.len(),
{
    if cs.len() == 0 {
        m
    } else {
        apply_call(apply_calls(m, cs.drop_last()), cs.last())
    }
}

/// The kinds of the tokens that a chain of calls pushes, in call order.
pub open spec fn pushed_kinds(cs: Seq<BuilderCall>) -> Seq<TokenKind>
    decreases cs.len(),
{
    if cs.len() == 0 {
        Seq::empty()
    } else {
        match cs.last() {
            BuilderCall::Token(k) => pushed_kinds(cs.drop_last()).push(k),
            _ => pushed_kinds(cs.drop_last()),
        }
    }
}

/// The kinds of a list of tokens.
pub open spec fn kinds_of(ts: Seq<SpecToken>) -> Seq<TokenKind> {
    ts.map_values(|t: SpecToken| t.kind)
}

/// `spaces(n)` is `n` calls of `space`.
pub proof fn law_spaces_is_repeated_space(m: BuilderModel, n: nat)
    ensures
        apply_call(m, BuilderCall::Spaces(n)) == apply_calls(m, Seq::new(n, |_i: int| BuilderCall::Space)),
    decreases n,
{
    let cs = Seq::new(n, |_i: int| BuilderCall::Space);
    if n > 0 {
        law_spaces_is_repeated_space(m, (n - 1) as nat);
        assert(cs.drop_last() =~= Seq::new((n - 1) as nat, |_i: int| BuilderCall::Space));
    }
}

/// `spaces(0)` changes nothing, and `spaces(a)` then `spaces(b)` is
/// `spaces(a + b)`.
pub proof fn law_spaces_compose(m: BuilderModel, a: nat, b: nat)
    ensures
        apply_call(m, BuilderCall::Spaces(0)) == m,
        apply_call(apply_call(m, BuilderCall::Spaces(a)), BuilderCall::Spaces(b)) == apply_call(
            m,
            BuilderCall::Spaces(a + b),
        ),
{
}

/// A chain of calls leaves the tokens before it alone and adds one token
/// per token call, in call order.
pub proof fn law_builder_tokens_in_call_order(m: BuilderModel, cs: Seq<BuilderCall>)
    ensures
        kinds_of(apply_calls(m, cs).tokens) == kinds_of(m.tokens) + pushed_kinds(cs),
        apply_calls(m, cs).tokens.subrange(0, m.tokens.len() as int) == m.tokens,
    decreases cs.len(),
{
    if cs.len() > 0 {
        law_builder_tokens_in_call_order(m, cs.drop_last());
        let p = apply_calls(m, cs.drop_last());
        lemma_tokens_grow(m, cs.drop_last());
        match cs.last() {
            BuilderCall::Token(k) => {
                assert(kinds_of(p.tokens.push(spec_token(k, p.position as usize, p.line as usize, p.column as usize)))
                    =~= kinds_of(p.tokens).push(k));
                assert(p.tokens.push(spec_token(k, p.position as usize, p.line as usize, p.column as usize)).subrange(
                    0,
                    m.tokens.len() as int,
                ) =~= p.tokens.subrange(0, m.tokens.len() as int));
            },
            _ => {},
        }
    }
}

proof fn lemma_tokens_grow(m: BuilderModel, cs: Seq<BuilderCall>)
    ensures
        apply_calls(m, cs).tokens.len() >= m.tokens.len(),
    decreases cs.len(),
{
    if cs.len() > 0 {
        lemma_tokens_grow(m, cs.drop_last());
    }
}

/// Of two tokens pushed one right after the other, the second stands on
/// the same line, as many bytes and columns further as the first is wide.
pub proof fn law_adjacent_tokens(m: BuilderModel, cs: Seq<BuilderCall>, k1: TokenKind, k2: TokenKind)
    requires
        0 <= apply_calls(m, cs).position,
        0 <= apply_calls(m, cs).line <= usize::MAX,
        0 <= apply_calls(m, cs).column,
        apply_calls(m, cs).position + spec_text_len(k1) <= usize::MAX,
        apply_calls(m, cs).column + spec_text_len(k1) <= usize::MAX,
    ensures
        ({
            let ts = apply_calls(m, cs.push(BuilderCall::Token(k1)).push(BuilderCall::Token(k2))).tokens;
            let n = ts.len();
            &&& n >= 2
            &&& ts[n - 2].kind == k1
            &&& ts[n - 1].kind == k2
            &&& ts[n - 1].line == ts[n - 2].line
            &&& ts[n - 1].position == ts[n - 2].position + spec_text_len(k1)
            &&& ts[n - 1].column == ts[n - 2].column + spec_text_len(k1)
        }),
{
    let c1 = cs.push(BuilderCall::Token(k1));
    let c2 = c1.push(BuilderCall::Token(k2));
    assert(c2.drop_last() =~= c1);
    assert(c1.drop_last() =~= cs);
    assert(c2.last() == BuilderCall::Token(k2));
    assert(c1.last() == BuilderCall::Token(k1));
    let p = apply_calls(m, cs);
    let q = apply_calls(m, c1);
    assert(q == apply_call(p, BuilderCall::Token(k1)));
    assert(apply_calls(m, c2) == apply_call(q, BuilderCall::Token(k2)));
    let t1 = spec_token(k1, p.position as usize, p.line as usize, p.column as usize);
    let t2 = spec_token(k2, q.position as usize, q.line as usize, q.column as usize);
    let ts = q.tokens.push(t2);
    assert(q.tokens == p.tokens.push(t1));
    assert(ts[ts.len() - 2] == t1);
    assert(ts[ts.len() - 1] == t2);
}

/// Builds a list of tokens with the positions, lines and columns that the
/// lexer would give them for the described source text.
pub struct TokenListBuilder {
    tokens: Vec<Token>,
    position: usize,
    line: usize,
    column: usize,
}

impl TokenListBuilder {
    /// The tokens pushed so far.
    pub closed spec fn spec_tokens(&self) -> Seq<SpecToken> {
        self.tokens@.map_values(|t: Token| t@)
    }

    /// Byte offset at which the next token starts.
    pub closed spec fn spec_position(&self) -> usize {
        self.position
    }

    /// Line (1-based) at which the next token starts.
    pub closed spec fn spec_line(&self) -> usize {
        self.line
    }

    /// Column (1-based) at which the next token starts.
    pub closed spec fn spec_column(&self) -> usize {
        self.column
    }

    /// The model of this builder.
    pub open spec fn model(&self) -> BuilderModel {
        BuilderModel {
            tokens: self.spec_tokens(),
            position: self.spec_position() as int,
            line: self.spec_line() as int,
            column: self.spec_column() as int,
        }
    }

    /// Whether a token of kind `k` can be pushed without the counters overflowing.
    pub open spec fn can_push(&self, k: TokenKind) -> bool {
        &&& self.spec_position() + spec_text_len(k) <= usize::MAX
        &&& self.spec_column() + spec_text_len(k) <= usize::MAX
    }

    /// The builder after a token of kind `k` has been pushed.
    pub open spec fn pushed(&self, r: &Self, k: TokenKind) -> bool {
        &&& r.spec_tokens() == self.spec_tokens().push(
            spec_token(k, self.spec_position(), self.spec_line(), self.spec_column()),
        )
        &&& r.spec_position() == self.spec_position() + spec_text_len(k)
        &&& r.spec_line() == self.spec_line()
        &&& r.spec_column() == self.spec_column() + spec_text_len(k)
        &&& r.model() == apply_call(self.model(), BuilderCall::Token(k))
    }

    pub fn new() -> (r: Self)
        ensures
            r.spec_tokens() == Seq::<SpecToken>::empty(),
            r.spec_position() == 0,
            r.spec_line() == 1,
            r.spec_column() == 1,
    {
        let r = Self { tokens: Vec::new(), position: 0, line: 1, column: 1 };
        assert(r.spec_tokens() =~= Seq::<SpecToken>::empty());
        r
    }

    fn push(self, token_type: TokenType) -> (r: Self)
        requires
            self.can_push(token_type@),
        ensures
            self.pushed(&r, token_type@),
    {
        let mut s = self;
        let ghost old_tokens = s.tokens@;
        let len = token_type.text_len();
        let tok = Token::new(token_type, s.position, s.line, s.column);
        s.tokens.push(tok);
        s.position = s.position + len;
        s.column = s.column + len;
        assert(s.tokens@.map_values(|t: Token| t@) =~= old_tokens.map_values(|t: Token| t@).push(
            tok@,
        ));
        s
    }

    /// Skips one column of blank source text.
    pub fn space(self) -> (r: Self)
        requires
            self.spec_position() < usize::MAX,
            self.spec_column() < usize::MAX,
        ensures
            r.spec_tokens() == self.spec_tokens(),
            r.spec_position() == self.spec_position() + 1,
            r.spec_line() == self.spec_line(),
            r.spec_column() == self.spec_column() + 1,
            r.model() == apply_call(self.model(), BuilderCall::Space),
    {
        let mut s = self;
        s.position = s.position + 1;
        s.column = s.column + 1;
        s
    }

    /// Skips `n` columns of blank source text.
    pub fn spaces(self, n: usize) -> (r: Self)
        requires
            self.spec_position() + n <= usize::MAX,
            self.spec_column() + n <= usize::MAX,
        ensures
            r.spec_tokens() == self.spec_tokens(),
            r.spec_position() == self.spec_position() + n,
            r.spec_line() == self.spec_line(),
            r.spec_column() == self.spec_column() + n,
            r.model() == apply_call(self.model(), BuilderCall::Spaces(n as nat)),
    {
        let mut s = self;
        s.position = s.position + n;
        s.column = s.column + n;
        s
    }

    /// Skips a line break: the next token starts in column 1 of the next line.
    pub fn newline(self) -> (r: Self)
        requires
            self.spec_position() < usize::MAX,
            self.spec_line() < usize::MAX,
        ensures
            r.spec_tokens() == self.spec_tokens(),
            r.spec_position() == self.spec_position() + 1,
            r.spec_line() == self.spec_line() + 1,
            r.spec_column() == 1,
            r.model() == apply_call(self.model(), BuilderCall::Newline),
    {
        let mut s = self;
        s.position = s.position + 1;
        s.line = s.line + 1;
        s.column = 1;
        s
    }


    pub fn left_paren(self) -> (r: Self)
        requires
            self.can_push(TokenKind::LeftParen),
        ensures
            self.pushed(&r, TokenKind::LeftParen),
    {
        self.push(TokenType::LeftParen)
    }

    pub fn right_paren(self) -> (r: Self)
        requires
            self.can_push(TokenKind::RightParen),
        ensures
            self.pushed(&r, TokenKind::RightParen),
    {
        self.push(TokenType::RightParen)
    }

    pub fn left_brace(self) -> (r: Self)
        requires
            self.can_push(TokenKind::LeftBrace),
        ensures
            self.pushed(&r, TokenKind::LeftBrace),
    {
        self.push(TokenType::LeftBrace)
    }

    pub fn right_brace(self) -> (r: Self)
        requires
            self.can_push(TokenKind::RightBrace),
        ensures
            self.pushed(&r, TokenKind::RightBrace),
    {
        self.push(TokenType::RightBrace)
    }

    pub fn left_bracket(self) -> (r: Self)
        requires
            self.can_push(TokenKind::LeftBracket),
        ensures
            self.pushed(&r, TokenKind::LeftBracket),
    {
        self.push(TokenType::LeftBracket)
    }

    pub fn right_bracket(self) -> (r: Self)
        requires
            self.can_push(TokenKind::RightBracket),
        ensures
            self.pushed(&r, TokenKind::RightBracket),
    {
        self.push(TokenType::RightBracket)
    }

    pub fn lt(self) -> (r: Self)
        requires
            self.can_push(TokenKind::LT),
        ensures
            self.pushed(&r, TokenKind::LT),
    {
        self.push(TokenType::LT)
    }

    pub fn gt(self) -> (r: Self)
        requires
            self.can_push(TokenKind::GT),
        ensures
            self.pushed(&r, TokenKind::GT),
    {
        self.push(TokenType::GT)
    }

    pub fn eq(self) -> (r: Self)
        requires
            self.can_push(TokenKind::Eq),
        ensures
            self.pushed(&r, TokenKind::Eq),
    {
        self.push(TokenType::Eq)
    }

    pub fn eq_eq(self) -> (r: Self)
        requires
            self.can_push(TokenKind::EqEq),
        ensures
            self.pushed(&r, TokenKind::EqEq),
    {
        self.push(TokenType::EqEq)
    }

    pub fn bang(self) -> (r: Self)
        requires
            self.can_push(TokenKind::Bang),
        ensures
            self.pushed(&r, TokenKind::Bang),
    {
        self.push(TokenType::Bang)
    }

    pub fn bang_eq(self) -> (r: Self)
        requires
            self.can_push(TokenKind::BangEq),
        ensures
            self.pushed(&r, TokenKind::BangEq),
    {
        self.push(TokenType::BangEq)
    }

    pub fn plus(self) -> (r: Self)
        requires
            self.can_push(TokenKind::Plus),
        ensures
            self.pushed(&r, TokenKind::Plus),
    {
        self.push(TokenType::Plus)
    }

    pub fn minus(self) -> (r: Self)
        requires
            self.can_push(TokenKind::Minus),
        ensures
            self.pushed(&r, TokenKind::Minus),
    {
        self.push(TokenType::Minus)
    }

    pub fn star(self) -> (r: Self)
        requires
            self.can_push(TokenKind::Star),
        ensures
            self.pushed(&r, TokenKind::Star),
    {
        self.push(TokenType::Star)
    }

    pub fn slash(self) -> (r: Self)
        requires
            self.can_push(TokenKind::Slash),
        ensures
            self.pushed(&r, TokenKind::Slash),
    {
        self.push(TokenType::Slash)
    }

    pub fn percent(self) -> (r: Self)
        requires
            self.can_push(TokenKind::Percent),
        ensures
            self.pushed(&r, TokenKind::Percent),
    {
        self.push(TokenType::Percent)
    }

    pub fn and(self) -> (r: Self)
        requires
            self.can_push(TokenKind::And),
        ensures
            self.pushed(&r, TokenKind::And),
    {
        self.push(TokenType::And)
    }

    pub fn or(self) -> (r: Self)
        requires
            self.can_push(TokenKind::Or),
        ensures
            self.pushed(&r, TokenKind::Or),
    {
        self.push(TokenType::Or)
    }

    pub fn pipe(self) -> (r: Self)
        requires
            self.can_push(TokenKind::Pipe),
        ensures
            self.pushed(&r, TokenKind::Pipe),
    {
        self.push(TokenType::Pipe)
    }

    pub fn colon(self) -> (r: Self)
        requires
            self.can_push(TokenKind::Colon),
        ensures
            self.pushed(&r, TokenKind::Colon),
    {
        self.push(TokenType::Colon)
    }

    pub fn semicolon(self) -> (r: Self)
        requires
            self.can_push(TokenKind::Semicolon),
        ensures
            self.pushed(&r, TokenKind::Semicolon),
    {
        self.push(TokenType::Semicolon)
    }

    pub fn dot(self) -> (r: Self)
        requires
            self.can_push(TokenKind::Dot),
        ensures
            self.pushed(&r, TokenKind::Dot),
    {
        self.push(TokenType::Dot)
    }

    pub fn comma(self) -> (r: Self)
        requires
            self.can_push(TokenKind::Comma),
        ensures
            self.pushed(&r, TokenKind::Comma),
    {
        self.push(TokenType::Comma)
    }

    pub fn identifier(self, name: &str) -> (r: Self)
        requires
            self.can_push(TokenKind::Identifier(name@)),
        ensures
            self.pushed(&r, TokenKind::Identifier(name@)),
    {
        self.push(TokenType::Identifier(name.to_owned()))
    }

    pub fn string_lit(self, value: &str) -> (r: Self)
        requires
            self.can_push(TokenKind::StringLit(value@)),
        ensures
            self.pushed(&r, TokenKind::StringLit(value@)),
    {
        self.push(TokenType::StringLit(value.to_owned()))
    }

    pub fn char_lit(self, value: char) -> (r: Self)
        requires
            self.can_push(TokenKind::CharLit(value)),
        ensures
            self.pushed(&r, TokenKind::CharLit(value)),
    {
        self.push(TokenType::CharLit(value))
    }

    pub fn float(self, value: &str) -> (r: Self)
        requires
            self.can_push(TokenKind::Float(value@)),
        ensures
            self.pushed(&r, TokenKind::Float(value@)),
    {
        self.push(TokenType::Float(value.to_owned()))
    }

    pub fn int_lit(self, value: &str) -> (r: Self)
        requires
            self.can_push(TokenKind::Int(value@)),
        ensures
            self.pushed(&r, TokenKind::Int(value@)),
    {
        self.push(TokenType::Int(value.to_owned()))
    }

    pub fn comment(self, value: &str) -> (r: Self)
        requires
            self.can_push(TokenKind::Comment(value@)),
        ensures
            self.pushed(&r, TokenKind::Comment(value@)),
    {
        self.push(TokenType::Comment(value.to_owned()))
    }

    pub fn kw_struct(self) -> (r: Self)
        requires
            self.can_push(TokenKind::Struct),
        ensures
            self.pushed(&r, TokenKind::Struct),
    {
        self.push(TokenType::Struct)
    }

    pub fn kw_function(self) -> (r: Self)
        requires
            self.can_push(TokenKind::Function),
        ensures
            self.pushed(&r, TokenKind::Function),
    {
        self.push(TokenType::Function)
    }

    pub fn kw_for(self) -> (r: Self)
        requires
            self.can_push(TokenKind::For),
        ensures
            self.pushed(&r, TokenKind::For),
    {
        self.push(TokenType::For)
    }

    pub fn kw_while(self) -> (r: Self)
        requires
            self.can_push(TokenKind::While),
        ensures
            self.pushed(&r, TokenKind::While),
    {
        self.push(TokenType::While)
    }

    pub fn kw_null(self) -> (r: Self)
        requires
            self.can_push(TokenKind::Null),
        ensures
            self.pushed(&r, TokenKind::Null),
    {
        self.push(TokenType::Null)
    }

    pub fn kw_true(self) -> (r: Self)
        requires
            self.can_push(TokenKind::True),
        ensures
            self.pushed(&r, TokenKind::True),
    {
        self.push(TokenType::True)
    }

    pub fn kw_false(self) -> (r: Self)
        requires
            self.can_push(TokenKind::False),
        ensures
            self.pushed(&r, TokenKind::False),
    {
        self.push(TokenType::False)
    }

    pub fn kw_var(self) -> (r: Self)
        requires
            self.can_push(TokenKind::Var),
        ensures
            self.pushed(&r, TokenKind::Var),
    {
        self.push(TokenType::Var)
    }

    pub fn kw_extend(self) -> (r: Self)
        requires
            self.can_push(TokenKind::Extend),
        ensures
            self.pushed(&r, TokenKind::Extend),
    {
        self.push(TokenType::Extend)
    }

    pub fn kw_return(self) -> (r: Self)
        requires
            self.can_push(TokenKind::Return),
        ensures
            self.pushed(&r, TokenKind::Return),
    {
        self.push(TokenType::Return)
    }

    pub fn kw_interface(self) -> (r: Self)
        requires
            self.can_push(TokenKind::Interface),
        ensures
            self.pushed(&r, TokenKind::Interface),
    {
        self.push(TokenType::Interface)
    }

    pub fn kw_is(self) -> (r: Self)
        requires
            self.can_push(TokenKind::Is),
        ensures
            self.pushed(&r, TokenKind::Is),
    {
        self.push(TokenType::Is)
    }

    pub fn kw_type(self) -> (r: Self)
        requires
            self.can_push(TokenKind::Type),
        ensures
            self.pushed(&r, TokenKind::Type),
    {
        self.push(TokenType::Type)
    }

    pub fn kw_as(self) -> (r: Self)
        requires
            self.can_push(TokenKind::As),
        ensures
            self.pushed(&r, TokenKind::As),
    {
        self.push(TokenType::As)
    }

    pub fn kw_self(self) -> (r: Self)
        requires
            self.can_push(TokenKind::SelfRef),
        ensures
            self.pushed(&r, TokenKind::SelfRef),
    {
        self.push(TokenType::SelfRef)
    }

    pub fn kw_match(self) -> (r: Self)
        requires
            self.can_push(TokenKind::Match),
        ensures
            self.pushed(&r, TokenKind::Match),
    {
        self.push(TokenType::Match)
    }

    pub fn kw_class(self) -> (r: Self)
        requires
            self.can_push(TokenKind::Class),
        ensures
            self.pushed(&r, TokenKind::Class),
    {
        self.push(TokenType::Class)
    }

    pub fn kw_continue(self) -> (r: Self)
        requires
            self.can_push(TokenKind::Continue),
        ensures
            self.pushed(&r, TokenKind::Continue),
    {
        self.push(TokenType::Continue)
    }

    pub fn kw_break(self) -> (r: Self)
        requires
            self.can_push(TokenKind::Break),
        ensures
            self.pushed(&r, TokenKind::Break),
    {
        self.push(TokenType::Break)
    }

    pub fn eof(self) -> (r: Self)
        requires
            self.can_push(TokenKind::EOF),
        ensures
            self.pushed(&r, TokenKind::EOF),
    {
        self.push(TokenType::EOF)
    }

    /// The tokens pushed so far, in order.
    pub fn build(self) -> (r: Vec<Token>)
        ensures
            r@.map_values(|t: Token| t@) == self.spec_tokens(),
    {
        self.tokens
    }
}

} // verus!
