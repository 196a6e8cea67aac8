//! What the levels of the expression grammar mean for the trees it builds:
//! tighter operators sit below looser ones, and the operators of one level
//! nest to the left.
use crate::grammar::{
    level_loop, level_operator, parse_expression, parse_level, parse_primary, parse_unary, rem, tok,
    ExprTree,
};
use crate::error::ReportView;
use crate::nodes::BinaryOperator;
use crate::token::{Token, TokenType};
use vstd::prelude::*;

verus! {

/// The level of the grammar at which an operator is read: 0 equality,
/// 1 comparison, 2 term, 3 factor, 4 boolean.
pub open spec fn operator_level(op: BinaryOperator) -> nat {
    match op {
        BinaryOperator::NotEqual | BinaryOperator::Equal => 0,
        BinaryOperator::LessThan | BinaryOperator::LessThanOrEqual | BinaryOperator::GreaterThan
        | BinaryOperator::GreaterThanOrEqual => 1,
        BinaryOperator::Plus | BinaryOperator::Minus => 2,
        BinaryOperator::Times | BinaryOperator::Divide | BinaryOperator::Modulus => 3,
        BinaryOperator::And | BinaryOperator::Or => 4,
    }
}

/// Every binary operator in `t` is read at level `min` or tighter; the left
/// operand of an operator holds operators of its level or tighter, the right
/// operand only tighter ones; below a unary operator there are none.
pub open spec fn ordered(t: ExprTree, min: nat) -> bool
    decreases t,
{
    match t {
        ExprTree::Binary { operator, left, right, .. } => {
            let l = operator_level(operator);
            &&& min <= l
            &&& ordered(*left, l)
            &&& ordered(*right, l + 1)
        },
        ExprTree::Unary { operand, .. } => ordered(*operand, 5),
        _ => true,
    }
}

/// No `(` in the input.
pub open spec fn no_parens(ts: Seq<Token>) -> bool {
    forall|i: int| 0 <= i < ts.len() ==> #[trigger] ts[i].token_type != TokenType::LeftParen
}

proof fn lemma_ordered_lower(t: ExprTree, a: nat, b: nat)
    requires
        ordered(t, a),
        b <= a,
    ensures
        ordered(t, b),
{
}

proof fn lemma_primary_ordered(ts: Seq<Token>, pos: int)
    requires
        no_parens(ts),
    ensures
        ordered(parse_primary(ts, pos).tree, 5),
{
    if 0 <= pos && pos + 1 < ts.len() {
        assert(ts[pos].token_type != TokenType::LeftParen);
    }
}

proof fn lemma_unary_ordered(ts: Seq<Token>, pos: int)
    requires
        no_parens(ts),
    ensures
        ordered(parse_unary(ts, pos).tree, 5),
    decreases rem(ts, pos),
{
    let op = tok(ts, pos);
    if !crate::grammar::at_end(ts, pos) && (op.token_type == TokenType::Minus || op.token_type == TokenType::Not) {
        lemma_unary_ordered(ts, pos + 1);
    } else {
        lemma_primary_ordered(ts, pos);
    }
}

proof fn lemma_level_ordered(ts: Seq<Token>, pos: int, level: nat)
    requires
        no_parens(ts),
        level <= 4,
    ensures
        ordered(parse_level(ts, pos, level).tree, level),
    decreases rem(ts, pos), crate::grammar::level_rank(level),
{
    let left = if level < 4 {
        parse_level(ts, pos, level + 1)
    } else {
        parse_unary(ts, pos)
    };
    if level < 4 {
        lemma_level_ordered(ts, pos, level + 1);
        lemma_ordered_lower(left.tree, level + 1, level);
    } else {
        lemma_unary_ordered(ts, pos);
        lemma_ordered_lower(left.tree, 5, level);
    }
    if left.pos >= pos {
        lemma_loop_ordered(ts, left.pos, level, left.tree, left.reports);
    }
}

proof fn lemma_loop_ordered(ts: Seq<Token>, pos: int, level: nat, left: ExprTree, reports: Seq<ReportView>)
    requires
        no_parens(ts),
        level <= 4,
        ordered(left, level),
    ensures
        ordered(level_loop(ts, pos, level, left, reports).tree, level),
    decreases rem(ts, pos), crate::grammar::level_rank(level) - 1,
{
    let op = tok(ts, pos);
    if !crate::grammar::at_end(ts, pos) && level_operator(level, op.token_type).is_some() {
        let right = if level < 4 {
            parse_level(ts, pos + 1, level + 1)
        } else {
            parse_unary(ts, pos + 1)
        };
        if level < 4 {
            lemma_level_ordered(ts, pos + 1, level + 1);
        } else {
            lemma_unary_ordered(ts, pos + 1);
        }
        let operator = level_operator(level, op.token_type).unwrap();
        assert(operator_level(operator) == level);
        let extra = if op.token_type == TokenType::BadAssign {
            seq![crate::grammar::equal_hint_report(op)]
        } else {
            seq![]
        };
        let reps = reports + crate::grammar::padding_reports(op) + right.reports + extra;
        let tree = ExprTree::Binary { operator, token: op, left: Box::new(left), right: Box::new(right.tree) };
        assert(ordered(tree, level));
        if right.pos > pos {
            lemma_loop_ordered(ts, right.pos, level, tree, reps);
        }
    }
}

/// Without parentheses, an expression reads with the grammar's precedence and
/// left associativity: an operator's operands hold only operators that bind at
/// least as tightly, its right operand only ones that bind more tightly, and
/// the operand of a unary operator holds no binary operator.
pub proof fn lemma_expression_precedence(ts: Seq<Token>, pos: int)
    requires
        no_parens(ts),
    ensures
        ordered(parse_expression(ts, pos).tree, 0),
{
    lemma_level_ordered(ts, pos, 0);
}

} // verus!
