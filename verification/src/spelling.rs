//! What the parser reads from a token and what the printers write for it
//! agree with the text the grammar writes the token with.
use crate::display::{binary_operator_text, literal_value_text, unary_operator_text};
use crate::grammar::{at_end, hint_type, level_operator, literal_value, parse_unary, tok};
use crate::nodes::BinaryOperator;
use crate::token::{written, Token, TokenType};
use crate::types::{primitive_label, Type};
use vstd::prelude::*;

verus! {

/// The operator that an operator token stands for, at any level of
/// precedence, is the one written as that token: its printed text is the
/// token's text. The one exception is `=`, the common misspelling of `==`,
/// which is read as `==`.
pub proof fn lemma_operator_is_the_one_written(level: nat, t: TokenType)
    requires
        level_operator(level, t).is_some(),
    ensures
        t != TokenType::BadAssign ==> written(t) == Some(binary_operator_text(level_operator(level, t).unwrap())),
        t == TokenType::BadAssign ==> written(TokenType::Equal) == Some(
            binary_operator_text(level_operator(level, t).unwrap()),
        ),
{
}

/// Different binary operators print differently, so printed code read back
/// gives the operator it was printed from.
pub proof fn lemma_operator_text_distinguishes(a: BinaryOperator, b: BinaryOperator)
    ensures
        binary_operator_text(a) == binary_operator_text(b) ==> a == b,
{
    reveal_strlit("+");
    reveal_strlit("-");
    reveal_strlit("*");
    reveal_strlit("/");
    reveal_strlit("%");
    reveal_strlit("!=");
    reveal_strlit("==");
    reveal_strlit("<");
    reveal_strlit("<=");
    reveal_strlit(">");
    reveal_strlit(">=");
    reveal_strlit("and");
    reveal_strlit("or");
    if binary_operator_text(a) == binary_operator_text(b) {
        let ta = binary_operator_text(a);
        let tb = binary_operator_text(b);
        assert(ta.len() == tb.len());
        assert(ta[0] == tb[0]);
        assert(ta.len() > 1 ==> ta[1] == tb[1]);
    }
}

/// A type-hint token names the primitive type written as it: the label of
/// the type read from it is the token's text. Only the names of types do;
/// any other token names no type.
pub proof fn lemma_type_hint_is_the_type_written(t: TokenType)
    ensures
        hint_type(t).data_type is Primitive <==> (t == TokenType::I8 || t == TokenType::I16 || t == TokenType::I32
            || t == TokenType::I64 || t == TokenType::I128 || t == TokenType::U8 || t == TokenType::U16 || t
            == TokenType::U32 || t == TokenType::U64 || t == TokenType::U128 || t == TokenType::F32 || t
            == TokenType::F64 || t == TokenType::Bool || t == TokenType::Str),
        hint_type(t).data_type is UnTyped <==> !(hint_type(t).data_type is Primitive),
        match hint_type(t).data_type {
            Type::Primitive(p) => written(t) == Some(primitive_label(p)),
            Type::UnTyped => true,
        },
{
}

/// A `-` or `!` token read where a unary expression stands gives a unary
/// operator node: the one read from `-` prints as `-`, and the one read from
/// `!` prints as something else.
pub proof fn lemma_unary_operator_is_the_one_written(ts: Seq<Token>, pos: int)
    requires
        !at_end(ts, pos),
        tok(ts, pos).token_type == TokenType::Minus || tok(ts, pos).token_type == TokenType::Not,
    ensures
        parse_unary(ts, pos).tree is Unary,
        tok(ts, pos).token_type == TokenType::Minus ==> written(TokenType::Minus) == Some(
            unary_operator_text(parse_unary(ts, pos).tree->Unary_operator),
        ),
        tok(ts, pos).token_type == TokenType::Not ==> written(TokenType::Minus) != Some(
            unary_operator_text(parse_unary(ts, pos).tree->Unary_operator),
        ),
{
    reveal_strlit("-");
    reveal_strlit("not");
    assert("-"@.len() != "not"@.len());
}

/// A `true` or `false` token reads as the boolean literal that prints as the
/// token's text.
pub proof fn lemma_boolean_literal_is_the_one_written(t: Token)
    requires
        t.lexeme.is_some(),
        t.token_type == TokenType::True || t.token_type == TokenType::False,
    ensures
        literal_value(t).is_some(),
        written(t.token_type) == Some(literal_value_text(literal_value(t).unwrap())),
{
}

} // verus!
