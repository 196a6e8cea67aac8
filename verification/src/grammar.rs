//! What the parser reads from a token sequence, written as spec functions: for
//! each rule of the grammar, the tree it builds, the position it stops at and
//! the reports it makes.
//!
//! ```text
//! file          -> (statement)* [expression] ;
//! repl_commands -> (repl_command)* ;
//! repl_command  -> statement | expression ;
//! statement     -> var_decl | var_assmt ;
//! var_decl      -> "let" ["mut"] ID ["(" type_hint ")"] ":=" expression ";" ;
//! var_assmt     -> ID ":=" expression ";" ;
//! expression    -> equality ;
//! equality      -> comparison ( ( "!=" | "==" ) comparison )* ;
//! comparison    -> term ( ( ">" | ">=" | "<" | "<=" ) term )* ;
//! term          -> factor ( ( "-" | "+" ) factor )* ;
//! factor        -> boolean ( ( "/" | "*" | "%" ) boolean )* ;
//! boolean       -> unary ( ( "and" | "or" ) unary )* ;
//! unary         -> ( "!" | "-" ) unary | primary ;
//! primary       -> ID | NUM | STR | "true" | "false" | "(" expression ")" ;
//! ```
use crate::error::{error_description, ErrorType, MessageView, ReportView};
use crate::literal::{int_value, trim_radix_prefix};
use crate::nodes::{BinaryOperator, Identifier, Literal, TypeHint, UnaryOperator};
use crate::types::{DataType, Primitive, Type};
use crate::token::{token_type_name, LocationInfo, Token, TokenType};
use vstd::prelude::*;

verus! {

// ---------------------------------------------------------------------------
// Reading tokens
// ---------------------------------------------------------------------------

/// An integer literal token that has a text writes an `i128` in its radix
/// (reading one that does not fails).
pub open spec fn int_literal_ok(t: Token) -> bool {
    &&& (t.token_type == TokenType::IntLit && t.lexeme.is_some()) ==> int_value(
        t.lexeme.unwrap()@,
        10,
    ).is_some()
    &&& (t.token_type == TokenType::HexLit && t.lexeme.is_some()) ==> int_value(
        trim_radix_prefix(t.lexeme.unwrap()@, 'x'),
        16,
    ).is_some()
    &&& (t.token_type == TokenType::BinaryLit && t.lexeme.is_some()) ==> int_value(
        trim_radix_prefix(t.lexeme.unwrap()@, 'b'),
        2,
    ).is_some()
}

/// A token stream as the scanner hands it over: it ends in `EOF`.
pub open spec fn tokens_wf(ts: Seq<Token>) -> bool {
    &&& ts.len() > 0
    &&& ts.last().token_type == TokenType::EOF
}

/// The identifier at `p` has its text (reading one without fails).
pub open spec fn identifier_ok(ts: Seq<Token>, p: int) -> bool {
    check(ts, p, TokenType::ID) ==> tok(ts, p).lexeme.is_some()
}

/// The token that stands for the end of the input.
pub open spec fn end_token(ts: Seq<Token>) -> Token {
    if ts.len() > 0 && ts.last().token_type == TokenType::EOF {
        ts.last()
    } else {
        Token {
            token_type: TokenType::EOF,
            lexeme: None,
            location_info: LocationInfo { line: 0, start: 0, end: 0 },
            whitespace_precedes: false,
            whitespace_follows: false,
        }
    }
}

/// The token at `pos`; the last position holds the end. No token stands past
/// it: the `*_ok` predicates below rule out reading there, and what this
/// gives for such a position is the end as well.
pub open spec fn tok(ts: Seq<Token>, pos: int) -> Token {
    if 0 <= pos && pos + 1 < ts.len() {
        ts[pos]
    } else {
        end_token(ts)
    }
}

pub open spec fn at_end(ts: Seq<Token>, pos: int) -> bool {
    tok(ts, pos).token_type == TokenType::EOF
}

/// The position after consuming the token at `pos`.
pub open spec fn next(ts: Seq<Token>, pos: int) -> int {
    pos + 1
}

/// Whether a token stands at `pos`: reading any other position fails.
pub open spec fn readable(ts: Seq<Token>, pos: int) -> bool {
    0 <= pos < ts.len()
}

/// The tokens that remain from `pos` on.
pub open spec fn rem(ts: Seq<Token>, pos: int) -> nat {
    if pos < ts.len() {
        (ts.len() - pos) as nat
    } else {
        0
    }
}

/// `match_token`: the token at `pos` is not the end and has type `t`.
pub open spec fn check(ts: Seq<Token>, pos: int, t: TokenType) -> bool {
    !at_end(ts, pos) && tok(ts, pos).token_type == t
}

/// `match_next_token`: the token after `pos` is not the end and has type `t`.
pub open spec fn check_next(ts: Seq<Token>, pos: int, t: TokenType) -> bool {
    check(ts, next(ts, pos), t)
}

// ---------------------------------------------------------------------------
// Reports
// ---------------------------------------------------------------------------

pub open spec fn one_message(text: Seq<char>, location: LocationInfo) -> Seq<MessageView> {
    seq![MessageView { text: Some(text), location }]
}

/// A token as an error message names it: its text, else its type.
pub open spec fn got_text(t: Token) -> Seq<char> {
    match t.lexeme {
        Some(l) => l@,
        None => token_type_name(t.token_type),
    }
}

/// A token as an expression error names it: its text in quotes, else its type.
pub open spec fn quoted_or_name(t: Token) -> Seq<char> {
    match t.lexeme {
        Some(l) => "\""@ + l@ + "\""@,
        None => token_type_name(t.token_type),
    }
}

pub open spec fn expected_let_report(t: Token) -> ReportView {
    ReportView {
        error_type: ErrorType::UnexpectedTokenError,
        messages: one_message(
            "Expected \"let\" but got \""@ + got_text(t) + "\""@,
            t.location_info,
        ),
        hint: None,
    }
}

pub open spec fn expected_semicolon_report(t: Token) -> ReportView {
    ReportView {
        error_type: ErrorType::UnexpectedTokenError,
        messages: one_message(
            "Expected \";\" but got \""@ + got_text(t) + "\""@,
            t.location_info,
        ),
        hint: None,
    }
}

pub open spec fn unclosed_type_hint_report(t: Token, left_paren: LocationInfo) -> ReportView {
    ReportView {
        error_type: ErrorType::UnexpectedTokenError,
        messages: seq![
            MessageView {
                text: Some("Expected \")\" after type hint but got \""@ + got_text(t) + "\""@),
                location: t.location_info,
            },
            MessageView { text: Some("Un-matched left parenthesis"@), location: left_paren },
        ],
        hint: None,
    }
}

pub open spec fn assign_hint_report(t: Token) -> ReportView {
    ReportView {
        error_type: ErrorType::UnexpectedTokenError,
        messages: one_message("Did you mean \":=\"?"@, t.location_info),
        hint: None,
    }
}

pub open spec fn equal_hint_report(t: Token) -> ReportView {
    ReportView {
        error_type: ErrorType::UnexpectedTokenError,
        messages: one_message("Did you mean \"==\"?"@, t.location_info),
        hint: None,
    }
}

pub open spec fn expected_expression_report(t: Token) -> ReportView {
    ReportView {
        error_type: ErrorType::ExpectedExpressionError,
        messages: one_message(
            error_description(ErrorType::ExpectedExpressionError) + " but got "@ + quoted_or_name(t),
            t.location_info,
        ),
        hint: None,
    }
}

pub open spec fn unmatched_paren_report(t: Token, left_paren: LocationInfo) -> ReportView {
    ReportView {
        error_type: ErrorType::UnMatchedParenError,
        messages: seq![
            MessageView {
                text: Some("Expected token \")\" after expression but got token "@ + quoted_or_name(t)),
                location: t.location_info,
            },
            MessageView { text: Some("Un-matched left parenthesis"@), location: left_paren },
        ],
        hint: Some("Try putting a \")\" after the expression"@),
    }
}

/// The warning for a binary operator that is not surrounded by whitespace,
/// if any.
pub open spec fn padding_reports(op: Token) -> Seq<ReportView> {
    match op.lexeme {
        None => seq![],
        Some(l) => {
            let hint = if !op.whitespace_precedes && op.whitespace_follows {
                Some("Consider placing a space before the operator like so: \"left "@ + l@ + " right\""@)
            } else if op.whitespace_precedes && !op.whitespace_follows {
                Some("Consider placing a space after the operator like so: \"left "@ + l@ + " right\""@)
            } else if !op.whitespace_precedes && !op.whitespace_follows {
                Some(
                    "Consider placing a space before and after the operator like so: \"left "@ + l@
                        + " right\""@,
                )
            } else {
                None
            };
            match hint {
                None => seq![],
                Some(h) => seq![
                    ReportView {
                        error_type: ErrorType::MissingPaddingAroundOperatorError,
                        messages: one_message(
                            "in jazzy, you have to surround binary operators with whitespace"@,
                            op.location_info,
                        ),
                        hint: Some(h),
                    },
                ],
            }
        },
    }
}

// ---------------------------------------------------------------------------
// Expressions
// ---------------------------------------------------------------------------

/// An expression as the parser builds it; `NotANode` stands where no
/// expression could be read.
#[allow(inconsistent_fields)]
pub enum ExprTree {
    NotANode,
    Binary { operator: BinaryOperator, token: Token, left: Box<ExprTree>, right: Box<ExprTree> },
    Unary { operator: UnaryOperator, token: Token, operand: Box<ExprTree> },
    Variable { name: String, token: Token },
    Literal { value: Literal, token: Token },
}

/// The result of reading an expression: the tree, where reading stopped, and
/// the reports made on the way.
pub struct ExprParse {
    pub tree: ExprTree,
    pub pos: int,
    pub reports: Seq<ReportView>,
}

/// The binary operator that a token stands for at a level of precedence:
/// 0 equality, 1 comparison, 2 term, 3 factor, 4 (and above) boolean.
pub open spec fn level_operator(level: nat, t: TokenType) -> Option<BinaryOperator> {
    if level == 0 {
        match t {
            TokenType::NotEqual => Some(BinaryOperator::NotEqual),
            TokenType::Equal => Some(BinaryOperator::Equal),
            TokenType::BadAssign => Some(BinaryOperator::Equal),
            _ => None,
        }
    } else if level == 1 {
        match t {
            TokenType::GreaterThan => Some(BinaryOperator::GreaterThan),
            TokenType::GreaterThanOrEqual => Some(BinaryOperator::GreaterThanOrEqual),
            TokenType::LessThan => Some(BinaryOperator::LessThan),
            TokenType::LessThanOrEqual => Some(BinaryOperator::LessThanOrEqual),
            _ => None,
        }
    } else if level == 2 {
        match t {
            TokenType::Plus => Some(BinaryOperator::Plus),
            TokenType::Minus => Some(BinaryOperator::Minus),
            _ => None,
        }
    } else if level == 3 {
        match t {
            TokenType::Star => Some(BinaryOperator::Times),
            TokenType::Slash => Some(BinaryOperator::Divide),
            TokenType::Modulo => Some(BinaryOperator::Modulus),
            _ => None,
        }
    } else {
        match t {
            TokenType::And => Some(BinaryOperator::And),
            TokenType::Or => Some(BinaryOperator::Or),
            _ => None,
        }
    }
}

pub open spec fn level_rank(level: nat) -> int {
    if level >= 4 {
        10
    } else {
        18 - 2 * level
    }
}

/// The value a literal token writes, if it is one.
pub open spec fn literal_value(t: Token) -> Option<Literal> {
    match t.lexeme {
        None => None,
        Some(l) => match t.token_type {
            TokenType::False => Some(Literal::False(false)),
            TokenType::True => Some(Literal::True(true)),
            TokenType::IntLit => Some(Literal::Int(int_value(l@, 10).unwrap() as i128)),
            TokenType::FloatLit => Some(Literal::Float(l)),
            TokenType::HexLit => Some(Literal::Int(int_value(trim_radix_prefix(l@, 'x'), 16).unwrap() as i128)),
            TokenType::BinaryLit => Some(Literal::Int(int_value(trim_radix_prefix(l@, 'b'), 2).unwrap() as i128)),
            TokenType::StringLit => Some(Literal::String(l)),
            _ => None,
        },
    }
}

/// `expression -> equality`.
pub open spec fn parse_expression(ts: Seq<Token>, pos: int) -> ExprParse
    decreases rem(ts, pos), 20int,
{
    parse_level(ts, pos, 0)
}

/// One level of left-associative binary operators: an operand, then as many
/// operator-operand pairs as follow.
pub open spec fn parse_level(ts: Seq<Token>, pos: int, level: nat) -> ExprParse
    decreases rem(ts, pos), level_rank(level),
{
    let left = if level < 4 {
        parse_level(ts, pos, level + 1)
    } else {
        parse_unary(ts, pos)
    };
    if left.pos >= pos {
        level_loop(ts, left.pos, level, left.tree, left.reports)
    } else {
        left
    }
}

/// The operator-operand pairs of a level, folded onto `left`.
pub open spec fn level_loop(ts: Seq<Token>, pos: int, level: nat, left: ExprTree, reports: Seq<ReportView>) -> ExprParse
    decreases rem(ts, pos), level_rank(level) - 1,
{
    let op = tok(ts, pos);
    if !at_end(ts, pos) && level_operator(level, op.token_type).is_some() {
        let right = if level < 4 {
            parse_level(ts, pos + 1, level + 1)
        } else {
            parse_unary(ts, pos + 1)
        };
        let extra = if op.token_type == TokenType::BadAssign {
            seq![equal_hint_report(op)]
        } else {
            seq![]
        };
        let reps = reports + padding_reports(op) + right.reports + extra;
        let tree = ExprTree::Binary {
            operator: level_operator(level, op.token_type).unwrap(),
            token: op,
            left: Box::new(left),
            right: Box::new(right.tree),
        };
        if right.pos > pos {
            level_loop(ts, right.pos, level, tree, reps)
        } else {
            ExprParse { tree, pos: right.pos, reports: reps }
        }
    } else {
        ExprParse { tree: left, pos, reports }
    }
}

/// `unary -> ( "!" | "-" ) unary | primary`.
pub open spec fn parse_unary(ts: Seq<Token>, pos: int) -> ExprParse
    decreases rem(ts, pos), 5int,
{
    let op = tok(ts, pos);
    if !at_end(ts, pos) && (op.token_type == TokenType::Minus || op.token_type == TokenType::Not) {
        let operand = parse_unary(ts, pos + 1);
        ExprParse {
            tree: ExprTree::Unary {
                operator: if op.token_type == TokenType::Minus {
                    UnaryOperator::Minus
                } else {
                    UnaryOperator::Not
                },
                token: op,
                operand: Box::new(operand.tree),
            },
            pos: operand.pos,
            reports: operand.reports,
        }
    } else {
        parse_primary(ts, pos)
    }
}

/// `primary -> ID | literal | "(" expression ")"`; anything else is reported.
pub open spec fn parse_primary(ts: Seq<Token>, pos: int) -> ExprParse
    decreases rem(ts, pos), 3int,
{
    let t = tok(ts, pos);
    match t.lexeme {
        None => ExprParse { tree: ExprTree::NotANode, pos, reports: seq![expected_expression_report(t)] },
        Some(l) => {
            if t.token_type == TokenType::ID {
                ExprParse { tree: ExprTree::Variable { name: l, token: t }, pos: next(ts, pos), reports: seq![] }
            } else if literal_value(t).is_some() {
                ExprParse {
                    tree: ExprTree::Literal { value: literal_value(t).unwrap(), token: t },
                    pos: next(ts, pos),
                    reports: seq![],
                }
            } else if t.token_type == TokenType::LeftParen {
                let inner = parse_expression(ts, pos + 1);
                let close = tok(ts, inner.pos);
                if at_end(ts, inner.pos) || close.token_type != TokenType::RightParen {
                    ExprParse {
                        tree: inner.tree,
                        pos: inner.pos,
                        reports: inner.reports.push(unmatched_paren_report(close, t.location_info)),
                    }
                } else {
                    ExprParse { tree: inner.tree, pos: next(ts, inner.pos), reports: inner.reports }
                }
            } else {
                ExprParse {
                    tree: ExprTree::NotANode,
                    pos: next(ts, pos),
                    reports: seq![expected_expression_report(t)],
                }
            }
        },
    }
}

// ---------------------------------------------------------------------------
// The nodes that reading makes
// ---------------------------------------------------------------------------

/// The number of nodes of a tree: one per operator, variable and literal.
pub open spec fn tree_size(t: ExprTree) -> nat
    decreases t,
{
    match t {
        ExprTree::NotANode => 0,
        ExprTree::Binary { left, right, .. } => 1 + tree_size(*left) + tree_size(*right),
        ExprTree::Unary { operand, .. } => 1 + tree_size(*operand),
        _ => 1,
    }
}

/// The binary operator nodes of a tree.
pub open spec fn binary_nodes(t: ExprTree) -> nat
    decreases t,
{
    match t {
        ExprTree::Binary { left, right, .. } => 1 + binary_nodes(*left) + binary_nodes(*right),
        ExprTree::Unary { operand, .. } => binary_nodes(*operand),
        _ => 0,
    }
}

/// The unary operator nodes of a tree.
pub open spec fn unary_nodes(t: ExprTree) -> nat
    decreases t,
{
    match t {
        ExprTree::Binary { left, right, .. } => unary_nodes(*left) + unary_nodes(*right),
        ExprTree::Unary { operand, .. } => 1 + unary_nodes(*operand),
        _ => 0,
    }
}

/// The variable nodes of a tree.
pub open spec fn variable_nodes(t: ExprTree) -> nat
    decreases t,
{
    match t {
        ExprTree::Binary { left, right, .. } => variable_nodes(*left) + variable_nodes(*right),
        ExprTree::Unary { operand, .. } => variable_nodes(*operand),
        ExprTree::Variable { .. } => 1,
        _ => 0,
    }
}

/// The literal nodes of a tree.
pub open spec fn literal_nodes(t: ExprTree) -> nat
    decreases t,
{
    match t {
        ExprTree::Binary { left, right, .. } => literal_nodes(*left) + literal_nodes(*right),
        ExprTree::Unary { operand, .. } => literal_nodes(*operand),
        ExprTree::Literal { .. } => 1,
        _ => 0,
    }
}

/// The nodes made by the optional type hint at `p3`: its type hint node.
pub open spec fn hint_nodes(ts: Seq<Token>, p3: int) -> nat {
    if check(ts, p3, TokenType::LeftParen) {
        1
    } else {
        0
    }
}

/// The nodes made by `":=" expression ";"` at `p`: those of the expression.
pub open spec fn tail_nodes(ts: Seq<Token>, p: int) -> nat {
    tree_size(parse_assignment_tail(ts, p).expression)
}

/// The nodes made by a declaration at `p0`: its identifier and itself when the
/// identifier is there, its type hint, and the nodes of its expression (which
/// are made even when no declaration is).
pub open spec fn decl_nodes(ts: Seq<Token>, p0: int) -> nat {
    let p1 = p0 + 1;
    let p2 = if check(ts, p1, TokenType::Mut) {
        p1 + 1
    } else {
        p1
    };
    (if check(ts, p2, TokenType::ID) {
        2nat
    } else {
        0nat
    }) + hint_nodes(ts, p2 + 1) + tail_nodes(ts, parse_optional_type_hint(ts, p2 + 1).pos)
}

/// The nodes made by an assignment at `p2`: its identifier and itself when the
/// identifier is there, and the nodes of its expression.
pub open spec fn assmt_nodes(ts: Seq<Token>, p2: int) -> nat {
    (if check(ts, p2, TokenType::ID) {
        2nat
    } else {
        0nat
    }) + tail_nodes(ts, p2 + 1)
}

pub open spec fn statement_nodes(ts: Seq<Token>, pos: int) -> nat {
    if tok(ts, pos).token_type == TokenType::Let {
        decl_nodes(ts, pos)
    } else {
        assmt_nodes(ts, pos)
    }
}

/// The nodes made by the statements at the head of a file.
pub open spec fn file_statements_nodes(ts: Seq<Token>, pos: int) -> nat
    decreases rem(ts, pos),
{
    if !at_end(ts, pos) && starts_statement(ts, pos) {
        let s = parse_statement(ts, pos);
        statement_nodes(ts, pos) + if s.pos > pos && pos < ts.len() {
            file_statements_nodes(ts, s.pos)
        } else {
            0
        }
    } else {
        0
    }
}

/// The nodes made by reading a file: those of its statements and of its
/// expression, and the file node.
pub open spec fn file_nodes(ts: Seq<Token>, pos: int) -> nat {
    let p = file_statements(ts, pos, seq![], seq![]).pos;
    file_statements_nodes(ts, pos) + (if at_end(ts, p) {
        0
    } else {
        tree_size(parse_expression(ts, p).tree)
    }) + 1
}

/// The nodes made by reading REPL input: those of each command.
pub open spec fn repl_nodes(ts: Seq<Token>, pos: int) -> nat
    decreases rem(ts, pos),
{
    if !at_end(ts, pos) {
        let (p, n) = if starts_statement(ts, pos) {
            (parse_statement(ts, pos).pos, statement_nodes(ts, pos))
        } else {
            (parse_expression(ts, pos).pos, tree_size(parse_expression(ts, pos).tree))
        };
        n + if p > pos && pos < ts.len() {
            repl_nodes(ts, p)
        } else {
            0
        }
    } else {
        0
    }
}

// ---------------------------------------------------------------------------
// Reading within the input
// ---------------------------------------------------------------------------

/// Reading an expression at `pos` reads no position past the last token: the
/// inputs on which reading it does not fail.
pub open spec fn expression_ok(ts: Seq<Token>, pos: int) -> bool
    decreases rem(ts, pos), 20int,
{
    level_ok(ts, pos, 0)
}

pub open spec fn level_ok(ts: Seq<Token>, pos: int, level: nat) -> bool
    decreases rem(ts, pos), level_rank(level),
{
    let left = if level < 4 {
        parse_level(ts, pos, level + 1)
    } else {
        parse_unary(ts, pos)
    };
    let left_ok = if level < 4 {
        level_ok(ts, pos, level + 1)
    } else {
        unary_ok(ts, pos)
    };
    if left.pos >= pos {
        left_ok && loop_ok(ts, left.pos, level)
    } else {
        left_ok
    }
}

/// The operator-operand pairs of a level read within the input; the check for
/// another operator reads the token where they stop.
pub open spec fn loop_ok(ts: Seq<Token>, pos: int, level: nat) -> bool
    decreases rem(ts, pos), level_rank(level) - 1,
{
    if !readable(ts, pos) {
        false
    } else if !at_end(ts, pos) && level_operator(level, tok(ts, pos).token_type).is_some() {
        let right = if level < 4 {
            parse_level(ts, pos + 1, level + 1)
        } else {
            parse_unary(ts, pos + 1)
        };
        let right_ok = if level < 4 {
            level_ok(ts, pos + 1, level + 1)
        } else {
            unary_ok(ts, pos + 1)
        };
        if right.pos > pos {
            right_ok && loop_ok(ts, right.pos, level)
        } else {
            right_ok
        }
    } else {
        true
    }
}

pub open spec fn unary_ok(ts: Seq<Token>, pos: int) -> bool
    decreases rem(ts, pos), 5int,
{
    if !readable(ts, pos) {
        false
    } else if !at_end(ts, pos) && (tok(ts, pos).token_type == TokenType::Minus || tok(ts, pos).token_type
        == TokenType::Not) {
        unary_ok(ts, pos + 1)
    } else {
        primary_ok(ts, pos)
    }
}

/// A primary reads its token, and the value of an integer literal; a
/// parenthesized one also reads the token after its expression, where `)` is
/// looked for.
pub open spec fn primary_ok(ts: Seq<Token>, pos: int) -> bool
    decreases rem(ts, pos), 3int,
{
    let t = tok(ts, pos);
    if !readable(ts, pos) || !int_literal_ok(t) {
        false
    } else if t.lexeme.is_some() && t.token_type != TokenType::ID && literal_value(t).is_none()
        && t.token_type == TokenType::LeftParen {
        expression_ok(ts, pos + 1) && readable(ts, parse_expression(ts, pos + 1).pos)
    } else {
        true
    }
}

/// The optional type hint at `p3` reads `(`, the type and the token after it.
pub open spec fn hint_ok(ts: Seq<Token>, p3: int) -> bool {
    &&& readable(ts, p3)
    &&& check(ts, p3, TokenType::LeftParen) ==> readable(ts, p3 + 1) && readable(ts, p3 + 2)
}

/// `":=" expression ";"` reads `:=`, the expression, and the token after it.
pub open spec fn tail_ok(ts: Seq<Token>, p: int) -> bool {
    &&& readable(ts, p)
    &&& expression_ok(ts, p + 1)
    &&& readable(ts, parse_expression(ts, p + 1).pos)
}

pub open spec fn decl_ok(ts: Seq<Token>, p0: int) -> bool {
    let p1 = p0 + 1;
    let p2 = if check(ts, p1, TokenType::Mut) {
        p1 + 1
    } else {
        p1
    };
    &&& readable(ts, p0)
    &&& readable(ts, p1)
    &&& readable(ts, p2)
    &&& identifier_ok(ts, p2)
    &&& hint_ok(ts, p2 + 1)
    &&& tail_ok(ts, parse_optional_type_hint(ts, p2 + 1).pos)
}

pub open spec fn assmt_ok(ts: Seq<Token>, p2: int) -> bool {
    readable(ts, p2) && identifier_ok(ts, p2) && tail_ok(ts, p2 + 1)
}

pub open spec fn statement_ok(ts: Seq<Token>, pos: int) -> bool {
    &&& readable(ts, pos)
    &&& if tok(ts, pos).token_type == TokenType::Let {
        decl_ok(ts, pos)
    } else {
        assmt_ok(ts, pos)
    }
}

/// The statements at the head of a file read within the input; the check for
/// another statement reads the token where they stop.
pub open spec fn file_statements_ok(ts: Seq<Token>, pos: int) -> bool
    decreases rem(ts, pos),
{
    if !readable(ts, pos) {
        false
    } else if !at_end(ts, pos) && starts_statement(ts, pos) {
        let s = parse_statement(ts, pos);
        if s.pos > pos {
            statement_ok(ts, pos) && file_statements_ok(ts, s.pos)
        } else {
            statement_ok(ts, pos)
        }
    } else {
        true
    }
}

/// A file reads within the input: its statements, then its expression.
pub open spec fn file_ok(ts: Seq<Token>, pos: int) -> bool {
    let p = file_statements(ts, pos, seq![], seq![]).pos;
    file_statements_ok(ts, pos) && (!at_end(ts, p) ==> expression_ok(ts, p))
}

/// REPL input reads within the input: each command, and the check for the end
/// before each.
pub open spec fn repl_ok(ts: Seq<Token>, pos: int) -> bool
    decreases rem(ts, pos),
{
    if !readable(ts, pos) {
        false
    } else if !at_end(ts, pos) {
        let (p, ok) = if starts_statement(ts, pos) {
            (parse_statement(ts, pos).pos, statement_ok(ts, pos))
        } else {
            (parse_expression(ts, pos).pos, expression_ok(ts, pos))
        };
        if p > pos {
            ok && repl_ok(ts, p)
        } else {
            ok
        }
    } else {
        true
    }
}

// ---------------------------------------------------------------------------
// Where reading stops
// ---------------------------------------------------------------------------

/// Reading an expression never moves back, and when it reads within the
/// input it stops on a token.
pub proof fn lemma_expression_pos(ts: Seq<Token>, pos: int)
    requires
        0 <= pos,
    ensures
        pos <= parse_expression(ts, pos).pos,
        expression_ok(ts, pos) ==> parse_expression(ts, pos).pos < ts.len(),
    decreases rem(ts, pos), 20int,
{
    lemma_level_pos(ts, pos, 0);
}

/// Reading one level of binary operators never moves back, and when it reads
/// within the input it stops on a token.
pub proof fn lemma_level_pos(ts: Seq<Token>, pos: int, level: nat)
    requires
        0 <= pos,
    ensures
        pos <= parse_level(ts, pos, level).pos,
        level_ok(ts, pos, level) ==> parse_level(ts, pos, level).pos < ts.len(),
    decreases rem(ts, pos), level_rank(level),
{
    let left = if level < 4 {
        parse_level(ts, pos, level + 1)
    } else {
        parse_unary(ts, pos)
    };
    if level < 4 {
        lemma_level_pos(ts, pos, level + 1);
    } else {
        lemma_unary_pos(ts, pos);
    }
    lemma_loop_pos(ts, left.pos, level, left.tree, left.reports);
}

/// Reading the operator-operand pairs of a level never moves back, and when
/// it reads within the input it stops on a token.
pub proof fn lemma_loop_pos(ts: Seq<Token>, pos: int, level: nat, left: ExprTree, reports: Seq<ReportView>)
    requires
        0 <= pos,
    ensures
        pos <= level_loop(ts, pos, level, left, reports).pos,
        loop_ok(ts, pos, level) ==> level_loop(ts, pos, level, left, reports).pos < ts.len(),
    decreases rem(ts, pos), level_rank(level) - 1,
{
    let op = tok(ts, pos);
    if !at_end(ts, pos) && level_operator(level, op.token_type).is_some() {
        let right = if level < 4 {
            parse_level(ts, pos + 1, level + 1)
        } else {
            parse_unary(ts, pos + 1)
        };
        if level < 4 {
            lemma_level_pos(ts, pos + 1, level + 1);
        } else {
            lemma_unary_pos(ts, pos + 1);
        }
        let extra = if op.token_type == TokenType::BadAssign {
            seq![equal_hint_report(op)]
        } else {
            seq![]
        };
        let reps = reports + padding_reports(op) + right.reports + extra;
        let tree = ExprTree::Binary {
            operator: level_operator(level, op.token_type).unwrap(),
            token: op,
            left: Box::new(left),
            right: Box::new(right.tree),
        };
        lemma_loop_pos(ts, right.pos, level, tree, reps);
    }
}

/// Reading a unary expression never moves back, and when it reads within the
/// input it stops at most one past the last token.
pub proof fn lemma_unary_pos(ts: Seq<Token>, pos: int)
    requires
        0 <= pos,
    ensures
        pos <= parse_unary(ts, pos).pos,
        unary_ok(ts, pos) ==> parse_unary(ts, pos).pos <= ts.len(),
    decreases rem(ts, pos), 5int,
{
    let op = tok(ts, pos);
    if !at_end(ts, pos) && (op.token_type == TokenType::Minus || op.token_type == TokenType::Not) {
        lemma_unary_pos(ts, pos + 1);
    } else {
        lemma_primary_pos(ts, pos);
    }
}

/// Reading a primary expression never moves back, and when it reads within
/// the input it stops at most one past the last token.
pub proof fn lemma_primary_pos(ts: Seq<Token>, pos: int)
    requires
        0 <= pos,
    ensures
        pos <= parse_primary(ts, pos).pos,
        primary_ok(ts, pos) ==> parse_primary(ts, pos).pos <= ts.len(),
    decreases rem(ts, pos), 3int,
{
    let t = tok(ts, pos);
    if t.lexeme.is_some() && t.token_type == TokenType::LeftParen && literal_value(t).is_none() {
        lemma_expression_pos(ts, pos + 1);
    }
}

// ---------------------------------------------------------------------------
// Statements, files and REPL input
// ---------------------------------------------------------------------------

/// The type that a type-hint token names; any other token names no type.
pub open spec fn hint_type(t: TokenType) -> DataType {
    DataType {
        data_type: match t {
            TokenType::I8 => Type::Primitive(Primitive::I8),
            TokenType::I16 => Type::Primitive(Primitive::I16),
            TokenType::I32 => Type::Primitive(Primitive::I32),
            TokenType::I64 => Type::Primitive(Primitive::I64),
            TokenType::I128 => Type::Primitive(Primitive::I128),
            TokenType::U8 => Type::Primitive(Primitive::U8),
            TokenType::U16 => Type::Primitive(Primitive::U16),
            TokenType::U32 => Type::Primitive(Primitive::U32),
            TokenType::U64 => Type::Primitive(Primitive::U64),
            TokenType::U128 => Type::Primitive(Primitive::U128),
            TokenType::F32 => Type::Primitive(Primitive::F32),
            TokenType::F64 => Type::Primitive(Primitive::F64),
            TokenType::Bool => Type::Primitive(Primitive::Bool),
            TokenType::Str => Type::Primitive(Primitive::String),
            _ => Type::UnTyped,
        },
    }
}

/// The type hint read from the token at `pos`.
pub open spec fn type_hint_at(ts: Seq<Token>, pos: int) -> TypeHint {
    TypeHint { data_type: hint_type(tok(ts, pos).token_type), token: tok(ts, pos) }
}

/// A declaration as the parser builds it.
pub struct DeclTree {
    pub mutable: bool,
    pub name: String,
    pub identifier: Identifier,
    pub type_hint: Option<TypeHint>,
    pub expression: ExprTree,
    pub token: Token,
}

/// An assignment as the parser builds it.
pub struct AssmtTree {
    pub name: String,
    pub identifier: Identifier,
    pub expression: ExprTree,
    pub token: Token,
}

pub enum StmtTree {
    NotANode,
    VarDecl(DeclTree),
    VarAssmt(AssmtTree),
}

pub struct DeclParse {
    pub decl: Option<DeclTree>,
    pub pos: int,
    pub reports: Seq<ReportView>,
}

pub struct AssmtParse {
    pub assmt: Option<AssmtTree>,
    pub pos: int,
    pub reports: Seq<ReportView>,
}

pub struct StmtParse {
    pub tree: StmtTree,
    pub pos: int,
    pub reports: Seq<ReportView>,
}

/// A report that the token at `pos` is not the one expected, made only when
/// it is not the end either.
pub open spec fn report_unless(ts: Seq<Token>, pos: int, expected: TokenType, r: ReportView) -> Seq<ReportView> {
    if !at_end(ts, pos) && tok(ts, pos).token_type != expected {
        seq![r]
    } else {
        seq![]
    }
}

/// The identifier read from an `ID` token.
pub open spec fn identifier_at(ts: Seq<Token>, pos: int) -> Identifier {
    Identifier { name: tok(ts, pos).lexeme.unwrap(), token: tok(ts, pos) }
}

pub struct HintParse {
    pub hint: Option<TypeHint>,
    pub pos: int,
    pub reports: Seq<ReportView>,
}

/// `["(" type_hint ")"]`: when the token at `p3` is `(`, the type hint after
/// it and a `)`, which is reported when missing and consumed either way.
pub open spec fn parse_optional_type_hint(ts: Seq<Token>, p3: int) -> HintParse {
    if check(ts, p3, TokenType::LeftParen) {
        let p4 = next(ts, p3);
        let p5 = next(ts, p4);
        HintParse {
            hint: Some(type_hint_at(ts, p4)),
            pos: next(ts, p5),
            reports: report_unless(
                ts,
                p5,
                TokenType::RightParen,
                unclosed_type_hint_report(tok(ts, p5), tok(ts, p3).location_info),
            ),
        }
    } else {
        HintParse { hint: None, pos: p3, reports: seq![] }
    }
}

pub struct TailParse {
    pub token: Token,
    pub expression: ExprTree,
    pub pos: int,
    pub reports: Seq<ReportView>,
}

/// `":=" expression ";"`: the token read in place of `:=`, the expression,
/// and a `;`; a missing `:=` or `;` is reported and consumed all the same.
pub open spec fn parse_assignment_tail(ts: Seq<Token>, p: int) -> TailParse {
    let e = parse_expression(ts, next(ts, p));
    TailParse {
        token: tok(ts, p),
        expression: e.tree,
        pos: next(ts, e.pos),
        reports: report_unless(ts, p, TokenType::Assign, assign_hint_report(tok(ts, p))) + e.reports
            + report_unless(ts, e.pos, TokenType::Semicolon, expected_semicolon_report(tok(ts, e.pos))),
    }
}

/// The report made when no identifier stands at `p`.
pub open spec fn missing_identifier_reports(ts: Seq<Token>, p: int) -> Seq<ReportView> {
    if check(ts, p, TokenType::ID) {
        seq![]
    } else {
        seq![expected_semicolon_report(tok(ts, p))]
    }
}

/// `var_decl -> "let" ["mut"] ID ["(" type_hint ")"] ":=" expression ";"`.
/// Each expected token is consumed whether or not it is there; a missing one
/// is reported, and without the identifier no declaration is made.
pub open spec fn parse_var_decl(ts: Seq<Token>, p0: int) -> DeclParse {
    let r0 = report_unless(ts, p0, TokenType::Let, expected_let_report(tok(ts, p0)));
    let p1 = next(ts, p0);
    let mutable = check(ts, p1, TokenType::Mut);
    let p2 = if mutable {
        next(ts, p1)
    } else {
        p1
    };
    let h = parse_optional_type_hint(ts, next(ts, p2));
    let t = parse_assignment_tail(ts, h.pos);
    DeclParse {
        decl: if check(ts, p2, TokenType::ID) {
            Some(
                DeclTree {
                    mutable,
                    name: tok(ts, p2).lexeme.unwrap(),
                    identifier: identifier_at(ts, p2),
                    type_hint: h.hint,
                    expression: t.expression,
                    token: t.token,
                },
            )
        } else {
            None
        },
        pos: t.pos,
        reports: r0 + missing_identifier_reports(ts, p2) + h.reports + t.reports,
    }
}

/// `var_assmt -> ID ":=" expression ";"`, read as forgivingly as a declaration.
pub open spec fn parse_var_assmt(ts: Seq<Token>, p2: int) -> AssmtParse {
    let t = parse_assignment_tail(ts, next(ts, p2));
    AssmtParse {
        assmt: if check(ts, p2, TokenType::ID) {
            Some(
                AssmtTree {
                    name: tok(ts, p2).lexeme.unwrap(),
                    identifier: identifier_at(ts, p2),
                    expression: t.expression,
                    token: t.token,
                },
            )
        } else {
            None
        },
        pos: t.pos,
        reports: missing_identifier_reports(ts, p2) + t.reports,
    }
}

/// `statement -> var_decl | var_assmt`, chosen by whether the current token is `let`.
pub open spec fn parse_statement(ts: Seq<Token>, pos: int) -> StmtParse {
    if tok(ts, pos).token_type == TokenType::Let {
        let d = parse_var_decl(ts, pos);
        StmtParse {
            tree: match d.decl {
                Some(t) => StmtTree::VarDecl(t),
                None => StmtTree::NotANode,
            },
            pos: d.pos,
            reports: d.reports,
        }
    } else {
        let a = parse_var_assmt(ts, pos);
        StmtParse {
            tree: match a.assmt {
                Some(t) => StmtTree::VarAssmt(t),
                None => StmtTree::NotANode,
            },
            pos: a.pos,
            reports: a.reports,
        }
    }
}

/// Whether the input at `pos` starts a statement: a `let`, or a token
/// followed by `:=` (or by `=`, its common misspelling).
pub open spec fn starts_statement(ts: Seq<Token>, pos: int) -> bool {
    check(ts, pos, TokenType::Let) || check_next(ts, pos, TokenType::Assign) || check_next(
        ts,
        pos,
        TokenType::BadAssign,
    )
}

pub struct StmtsParse {
    pub statements: Seq<StmtTree>,
    pub pos: int,
    pub reports: Seq<ReportView>,
}

/// The statements at the head of a file, appended to `stmts`.
pub open spec fn file_statements(ts: Seq<Token>, pos: int, stmts: Seq<StmtTree>, reports: Seq<ReportView>) -> StmtsParse
    decreases rem(ts, pos),
{
    if !at_end(ts, pos) && starts_statement(ts, pos) {
        let s = parse_statement(ts, pos);
        if s.pos > pos {
            file_statements(ts, s.pos, stmts.push(s.tree), reports + s.reports)
        } else {
            StmtsParse { statements: stmts.push(s.tree), pos: s.pos, reports: reports + s.reports }
        }
    } else {
        StmtsParse { statements: stmts, pos, reports }
    }
}

pub struct FileParse {
    pub statements: Seq<StmtTree>,
    pub expression: Option<ExprTree>,
    pub pos: int,
    pub reports: Seq<ReportView>,
}

/// `file -> (statement)* [expression]`: the trailing expression is optional.
/// It is read only when a token other than the end follows the statements,
/// and is absent when none could be read there.
pub open spec fn parse_file(ts: Seq<Token>, pos: int) -> FileParse {
    let st = file_statements(ts, pos, seq![], seq![]);
    if at_end(ts, st.pos) {
        FileParse { statements: st.statements, expression: None, pos: st.pos, reports: st.reports }
    } else {
        let e = parse_expression(ts, st.pos);
        FileParse {
            statements: st.statements,
            expression: match e.tree {
                ExprTree::NotANode => None,
                t => Some(t),
            },
            pos: e.pos,
            reports: st.reports + e.reports,
        }
    }
}

pub enum CommandTree {
    Stmt(StmtTree),
    Expr(ExprTree),
}

pub struct ReplParse {
    pub commands: Seq<CommandTree>,
    pub pos: int,
    pub reports: Seq<ReportView>,
    /// Every command read moved past at least one token. When one does not,
    /// reading goes on at the same place for ever: `complete` is then false.
    pub complete: bool,
}

/// `repl_commands -> (statement | expression)*` up to the end, appended to `cmds`.
pub open spec fn repl_commands(ts: Seq<Token>, pos: int, cmds: Seq<CommandTree>, reports: Seq<ReportView>) -> ReplParse
    decreases rem(ts, pos),
{
    if !at_end(ts, pos) {
        let (cmd, p, reps) = if starts_statement(ts, pos) {
            let s = parse_statement(ts, pos);
            (CommandTree::Stmt(s.tree), s.pos, s.reports)
        } else {
            let e = parse_expression(ts, pos);
            (CommandTree::Expr(e.tree), e.pos, e.reports)
        };
        if p > pos {
            repl_commands(ts, p, cmds.push(cmd), reports + reps)
        } else {
            ReplParse { commands: cmds.push(cmd), pos: p, reports: reports + reps, complete: false }
        }
    } else {
        ReplParse { commands: cmds, pos, reports, complete: true }
    }
}

/// Reading `":=" expression ";"` moves past the token it starts at, and when
/// it reads within the input it stops at most one past the last token.
pub proof fn lemma_tail_pos(ts: Seq<Token>, p: int)
    requires
        0 <= p,
    ensures
        p < parse_assignment_tail(ts, p).pos,
        tail_ok(ts, p) ==> parse_assignment_tail(ts, p).pos <= ts.len(),
{
    lemma_expression_pos(ts, p + 1);
}

/// A statement moves past the token it starts at, and when it reads within the
/// input it stops at most one past the last token.
pub proof fn lemma_statement_pos(ts: Seq<Token>, pos: int)
    requires
        0 <= pos,
    ensures
        pos < parse_statement(ts, pos).pos,
        statement_ok(ts, pos) ==> parse_statement(ts, pos).pos <= ts.len(),
{
    let p1 = pos + 1;
    let mutable = check(ts, p1, TokenType::Mut);
    let p2 = if mutable {
        p1 + 1
    } else {
        p1
    };
    let h = parse_optional_type_hint(ts, p2 + 1);
    lemma_tail_pos(ts, h.pos);
    lemma_tail_pos(ts, pos + 1);
}

/// Reading the statements at the head of a file never moves back, and when it
/// reads within the input it stops on a token.
pub proof fn lemma_file_statements_pos(ts: Seq<Token>, pos: int, stmts: Seq<StmtTree>, reports: Seq<ReportView>)
    requires
        0 <= pos,
    ensures
        pos <= file_statements(ts, pos, stmts, reports).pos,
        file_statements_ok(ts, pos) ==> file_statements(ts, pos, stmts, reports).pos < ts.len(),
    decreases rem(ts, pos),
{
    if !at_end(ts, pos) && starts_statement(ts, pos) {
        let s = parse_statement(ts, pos);
        lemma_statement_pos(ts, pos);
        lemma_file_statements_pos(ts, s.pos, stmts.push(s.tree), reports + s.reports);
    }
}

/// REPL input that is read to completion is read up to its end.
pub proof fn lemma_repl_reads_to_end(ts: Seq<Token>, pos: int, cmds: Seq<CommandTree>, reports: Seq<ReportView>)
    requires
        repl_commands(ts, pos, cmds, reports).complete,
    ensures
        at_end(ts, repl_commands(ts, pos, cmds, reports).pos),
    decreases rem(ts, pos),
{
    if !at_end(ts, pos) {
        let (cmd, p, reps) = if starts_statement(ts, pos) {
            let s = parse_statement(ts, pos);
            (CommandTree::Stmt(s.tree), s.pos, s.reports)
        } else {
            let e = parse_expression(ts, pos);
            (CommandTree::Expr(e.tree), e.pos, e.reports)
        };
        if p > pos {
            lemma_repl_reads_to_end(ts, p, cmds.push(cmd), reports + reps);
        }
    }
}

/// A binary operator draws a warning exactly when it has a text and is not
/// surrounded by whitespace on both sides; the warning says which side lacks it.
pub proof fn lemma_padding_warning(op: Token)
    ensures
        padding_reports(op).len() == (if op.lexeme.is_some() && !(op.whitespace_precedes && op.whitespace_follows) {
            1int
        } else {
            0int
        }),
        padding_reports(op).len() == 1 ==> padding_reports(op)[0].error_type
            == ErrorType::MissingPaddingAroundOperatorError,
{
}

} // verus!
