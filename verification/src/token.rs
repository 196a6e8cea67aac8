//! Tokens handed to the parser by the scanner.
use vstd::prelude::*;

verus! {

/// The kinds of token that the parser distinguishes.
#[derive(Clone, Copy, Debug, PartialEq, Eq, Structural)]
pub enum TokenType {
    Let,
    Mut,
    ID,
    Assign,
    BadAssign,
    Semicolon,
    LeftParen,
    RightParen,
    I8,
    I16,
    I32,
    I64,
    I128,
    U8,
    U16,
    U32,
    U64,
    U128,
    F32,
    F64,
    Bool,
    Str,
    NotEqual,
    Equal,
    GreaterThan,
    GreaterThanOrEqual,
    LessThan,
    LessThanOrEqual,
    Plus,
    Minus,
    Star,
    Slash,
    Modulo,
    And,
    Or,
    Not,
    True,
    False,
    IntLit,
    FloatLit,
    HexLit,
    BinaryLit,
    StringLit,
    EOF,
}

/// Where a token stands in the source text.
#[derive(Clone, Copy, Debug, PartialEq, Eq, Structural)]
pub struct LocationInfo {
    pub line: usize,
    pub start: usize,
    pub end: usize,
}

/// One token of the source text.
#[derive(Debug)]
pub struct Token {
    pub token_type: TokenType,
    pub lexeme: Option<String>,
    pub location_info: LocationInfo,
    pub whitespace_precedes: bool,
    pub whitespace_follows: bool,
}

impl Clone for Token {
    fn clone(&self) -> (r: Self)
        ensures
            r == *self,
    {
        let lexeme = match &self.lexeme {
            Some(s) => Some(s.clone()),
            None => None,
        };
        Token {
            token_type: self.token_type,
            lexeme,
            location_info: self.location_info,
            whitespace_precedes: self.whitespace_precedes,
            whitespace_follows: self.whitespace_follows,
        }
    }
}

} // verus!

verus! {

/// The name of a token type, as `{:?}` prints it.
pub open spec fn token_type_name(t: TokenType) -> Seq<char> {
    match t {
        TokenType::Let => "Let"@,
        TokenType::Mut => "Mut"@,
        TokenType::ID => "ID"@,
        TokenType::Assign => "Assign"@,
        TokenType::BadAssign => "BadAssign"@,
        TokenType::Semicolon => "Semicolon"@,
        TokenType::LeftParen => "LeftParen"@,
        TokenType::RightParen => "RightParen"@,
        TokenType::I8 => "I8"@,
        TokenType::I16 => "I16"@,
        TokenType::I32 => "I32"@,
        TokenType::I64 => "I64"@,
        TokenType::I128 => "I128"@,
        TokenType::U8 => "U8"@,
        TokenType::U16 => "U16"@,
        TokenType::U32 => "U32"@,
        TokenType::U64 => "U64"@,
        TokenType::U128 => "U128"@,
        TokenType::F32 => "F32"@,
        TokenType::F64 => "F64"@,
        TokenType::Bool => "Bool"@,
        TokenType::Str => "Str"@,
        TokenType::NotEqual => "NotEqual"@,
        TokenType::Equal => "Equal"@,
        TokenType::GreaterThan => "GreaterThan"@,
        TokenType::GreaterThanOrEqual => "GreaterThanOrEqual"@,
        TokenType::LessThan => "LessThan"@,
        TokenType::LessThanOrEqual => "LessThanOrEqual"@,
        TokenType::Plus => "Plus"@,
        TokenType::Minus => "Minus"@,
        TokenType::Star => "Star"@,
        TokenType::Slash => "Slash"@,
        TokenType::Modulo => "Modulo"@,
        TokenType::And => "And"@,
        TokenType::Or => "Or"@,
        TokenType::Not => "Not"@,
        TokenType::True => "True"@,
        TokenType::False => "False"@,
        TokenType::IntLit => "IntLit"@,
        TokenType::FloatLit => "FloatLit"@,
        TokenType::HexLit => "HexLit"@,
        TokenType::BinaryLit => "BinaryLit"@,
        TokenType::StringLit => "StringLit"@,
        TokenType::EOF => "EOF"@,
    }
}

impl TokenType {
    /// The name of the token type, as `{:?}` prints it.
    pub fn name(&self) -> (r: &'static str)
        ensures
            r@ == token_type_name(*self),
    {
        match self {
            TokenType::Let => "Let",
            TokenType::Mut => "Mut",
            TokenType::ID => "ID",
            TokenType::Assign => "Assign",
            TokenType::BadAssign => "BadAssign",
            TokenType::Semicolon => "Semicolon",
            TokenType::LeftParen => "LeftParen",
            TokenType::RightParen => "RightParen",
            TokenType::I8 => "I8",
            TokenType::I16 => "I16",
            TokenType::I32 => "I32",
            TokenType::I64 => "I64",
            TokenType::I128 => "I128",
            TokenType::U8 => "U8",
            TokenType::U16 => "U16",
            TokenType::U32 => "U32",
            TokenType::U64 => "U64",
            TokenType::U128 => "U128",
            TokenType::F32 => "F32",
            TokenType::F64 => "F64",
            TokenType::Bool => "Bool",
            TokenType::Str => "Str",
            TokenType::NotEqual => "NotEqual",
            TokenType::Equal => "Equal",
            TokenType::GreaterThan => "GreaterThan",
            TokenType::GreaterThanOrEqual => "GreaterThanOrEqual",
            TokenType::LessThan => "LessThan",
            TokenType::LessThanOrEqual => "LessThanOrEqual",
            TokenType::Plus => "Plus",
            TokenType::Minus => "Minus",
            TokenType::Star => "Star",
            TokenType::Slash => "Slash",
            TokenType::Modulo => "Modulo",
            TokenType::And => "And",
            TokenType::Or => "Or",
            TokenType::Not => "Not",
            TokenType::True => "True",
            TokenType::False => "False",
            TokenType::IntLit => "IntLit",
            TokenType::FloatLit => "FloatLit",
            TokenType::HexLit => "HexLit",
            TokenType::BinaryLit => "BinaryLit",
            TokenType::StringLit => "StringLit",
            TokenType::EOF => "EOF",
        }
    }
}

/// The text that the grammar writes a token of this type with, for the
/// tokens whose text is fixed: keywords, punctuation, operators and the
/// names of types.
pub open spec fn written(t: TokenType) -> Option<Seq<char>> {
    match t {
        TokenType::Let => Some("let"@),
        TokenType::Mut => Some("mut"@),
        TokenType::Assign => Some(":="@),
        TokenType::BadAssign => Some("="@),
        TokenType::Semicolon => Some(";"@),
        TokenType::LeftParen => Some("("@),
        TokenType::RightParen => Some(")"@),
        TokenType::I8 => Some("i8"@),
        TokenType::I16 => Some("i16"@),
        TokenType::I32 => Some("i32"@),
        TokenType::I64 => Some("i64"@),
        TokenType::I128 => Some("i128"@),
        TokenType::U8 => Some("u8"@),
        TokenType::U16 => Some("u16"@),
        TokenType::U32 => Some("u32"@),
        TokenType::U64 => Some("u64"@),
        TokenType::U128 => Some("u128"@),
        TokenType::F32 => Some("f32"@),
        TokenType::F64 => Some("f64"@),
        TokenType::Bool => Some("bool"@),
        TokenType::Str => Some("str"@),
        TokenType::NotEqual => Some("!="@),
        TokenType::Equal => Some("=="@),
        TokenType::GreaterThan => Some(">"@),
        TokenType::GreaterThanOrEqual => Some(">="@),
        TokenType::LessThan => Some("<"@),
        TokenType::LessThanOrEqual => Some("<="@),
        TokenType::Plus => Some("+"@),
        TokenType::Minus => Some("-"@),
        TokenType::Star => Some("*"@),
        TokenType::Slash => Some("/"@),
        TokenType::Modulo => Some("%"@),
        TokenType::And => Some("and"@),
        TokenType::Or => Some("or"@),
        TokenType::Not => Some("!"@),
        TokenType::True => Some("true"@),
        TokenType::False => Some("false"@),
        _ => None,
    }
}

} // verus!
