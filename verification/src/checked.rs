//! Checking tokens before they are parsed: whether reading them stays within
//! the input (reading past the last token fails) and, for REPL input, whether
//! every command moves on (else reading never ends). A caller that cannot
//! prove what `Parser::parse` requires of the tokens tests it here first.
use crate::grammar::{
    at_end, check, equal_hint_report, expression_ok, file_ok, file_statements, file_statements_ok,
    int_literal_ok, lemma_expression_pos, lemma_file_statements_pos, lemma_level_pos, lemma_loop_pos,
    lemma_statement_pos, lemma_unary_pos, level_loop, level_ok, level_operator, level_rank, literal_value,
    loop_ok, padding_reports, parse_assignment_tail, parse_expression, parse_level, parse_optional_type_hint,
    parse_primary, parse_statement, parse_unary, primary_ok, rem, repl_commands, repl_ok, starts_statement,
    statement_ok, tail_ok, tok, tokens_wf, unary_ok, CommandTree, ExprTree, ReplParse, StmtTree,
};
use crate::error::ReportView;
use crate::literal::parse_i128;
use crate::parser::{level_operator_of, trim_radix_prefix_of};
use crate::token::{Token, TokenType};
use vstd::prelude::*;

verus! {

proof fn lemma_tok_at(ts: Seq<Token>, pos: int)
    requires
        tokens_wf(ts),
        0 <= pos < ts.len(),
    ensures
        tok(ts, pos) == ts[pos],
{
}

fn type_at(ts: &Vec<Token>, pos: usize) -> (r: TokenType)
    requires
        tokens_wf(ts@),
        pos < ts@.len(),
    ensures
        r == tok(ts@, pos as int).token_type,
{
    proof {
        lemma_tok_at(ts@, pos as int);
    }
    ts[pos].token_type
}

fn end_at(ts: &Vec<Token>, pos: usize) -> (r: bool)
    requires
        tokens_wf(ts@),
        pos < ts@.len(),
    ensures
        r == at_end(ts@, pos as int),
{
    type_at(ts, pos) == TokenType::EOF
}

fn check_at(ts: &Vec<Token>, pos: usize, t: TokenType) -> (r: bool)
    requires
        tokens_wf(ts@),
        pos < ts@.len(),
    ensures
        r == check(ts@, pos as int, t),
{
    !end_at(ts, pos) && type_at(ts, pos) == t
}

/// Whether the integer literal at `pos`, if it is one, writes an `i128`.
fn int_literal_fits(ts: &Vec<Token>, pos: usize) -> (r: bool)
    requires
        tokens_wf(ts@),
        pos < ts@.len(),
    ensures
        r == int_literal_ok(tok(ts@, pos as int)),
{
    proof {
        lemma_tok_at(ts@, pos as int);
    }
    let t = &ts[pos];
    match &t.lexeme {
        None => true,
        Some(l) => match t.token_type {
            TokenType::IntLit => parse_i128(l.as_str(), 10).is_some(),
            TokenType::HexLit => parse_i128(trim_radix_prefix_of(l.as_str(), 'x'), 16).is_some(),
            TokenType::BinaryLit => parse_i128(trim_radix_prefix_of(l.as_str(), 'b'), 2).is_some(),
            _ => true,
        },
    }
}

/// Where reading a primary at `pos` stops, when it reads within the input.
fn primary_end(ts: &Vec<Token>, pos: usize) -> (r: Option<usize>)
    requires
        tokens_wf(ts@),
    ensures
        r == if primary_ok(ts@, pos as int) {
            Some(parse_primary(ts@, pos as int).pos as usize)
        } else {
            None::<usize>
        },
    decreases rem(ts@, pos as int), 3int,
{
    if pos >= ts.len() || !int_literal_fits(ts, pos) {
        return None;
    }
    proof {
        lemma_tok_at(ts@, pos as int);
    }
    let t = &ts[pos];
    match &t.lexeme {
        None => Some(pos),
        Some(_) => {
            let tt = t.token_type;
            let is_literal = match tt {
                TokenType::False | TokenType::True | TokenType::IntLit | TokenType::FloatLit | TokenType::HexLit
                | TokenType::BinaryLit | TokenType::StringLit => true,
                _ => false,
            };
            proof {
                assert(is_literal == literal_value(tok(ts@, pos as int)).is_some());
            }
            if tt == TokenType::ID || is_literal {
                Some(pos + 1)
            } else if tt == TokenType::LeftParen {
                proof {
                    lemma_expression_pos(ts@, pos + 1);
                }
                match expression_end(ts, pos + 1) {
                    None => None,
                    Some(inner) => {
                        if inner >= ts.len() {
                            None
                        } else if end_at(ts, inner) || type_at(ts, inner) != TokenType::RightParen {
                            Some(inner)
                        } else {
                            Some(inner + 1)
                        }
                    },
                }
            } else {
                Some(pos + 1)
            }
        },
    }
}

fn unary_end(ts: &Vec<Token>, pos: usize) -> (r: Option<usize>)
    requires
        tokens_wf(ts@),
    ensures
        r == if unary_ok(ts@, pos as int) {
            Some(parse_unary(ts@, pos as int).pos as usize)
        } else {
            None::<usize>
        },
    decreases rem(ts@, pos as int), 5int,
{
    if pos >= ts.len() {
        return None;
    }
    let tt = type_at(ts, pos);
    if !end_at(ts, pos) && (tt == TokenType::Minus || tt == TokenType::Not) {
        unary_end(ts, pos + 1)
    } else {
        primary_end(ts, pos)
    }
}

/// What the operator-operand pairs of a level reach does not depend on the
/// tree and reports that they fold onto.
proof fn lemma_loop_pos_free(
    ts: Seq<Token>,
    pos: int,
    level: nat,
    l1: ExprTree,
    r1: Seq<ReportView>,
    l2: ExprTree,
    r2: Seq<ReportView>,
)
    ensures
        level_loop(ts, pos, level, l1, r1).pos == level_loop(ts, pos, level, l2, r2).pos,
    decreases rem(ts, pos), level_rank(level) - 1,
{
    let op = tok(ts, pos);
    if !at_end(ts, pos) && level_operator(level, op.token_type).is_some() {
        let right = if level < 4 {
            parse_level(ts, pos + 1, level + 1)
        } else {
            parse_unary(ts, pos + 1)
        };
        if right.pos > pos {
            let e1 = if op.token_type == TokenType::BadAssign {
                seq![equal_hint_report(op)]
            } else {
                seq![]
            };
            let t1 = ExprTree::Binary {
                operator: level_operator(level, op.token_type).unwrap(),
                token: op,
                left: Box::new(l1),
                right: Box::new(right.tree),
            };
            let t2 = ExprTree::Binary {
                operator: level_operator(level, op.token_type).unwrap(),
                token: op,
                left: Box::new(l2),
                right: Box::new(right.tree),
            };
            lemma_loop_pos_free(
                ts,
                right.pos,
                level,
                t1,
                r1 + padding_reports(op) + right.reports + e1,
                t2,
                r2 + padding_reports(op) + right.reports + e1,
            );
        }
    }
}

fn level_end(ts: &Vec<Token>, pos: usize, level: usize) -> (r: Option<usize>)
    requires
        tokens_wf(ts@),
        level <= 4,
    ensures
        r == if level_ok(ts@, pos as int, level as nat) {
            Some(parse_level(ts@, pos as int, level as nat).pos as usize)
        } else {
            None::<usize>
        },
    decreases rem(ts@, pos as int), level_rank(level as nat),
{
    proof {
        if level < 4 {
            lemma_level_pos(ts@, pos as int, (level + 1) as nat);
        } else {
            lemma_unary_pos(ts@, pos as int);
        }
    }
    let n = ts.len();
    let left = if level < 4 {
        level_end(ts, pos, level + 1)
    } else {
        unary_end(ts, pos)
    };
    let ghost l = if level < 4 {
        parse_level(ts@, pos as int, (level + 1) as nat)
    } else {
        parse_unary(ts@, pos as int)
    };
    let ghost l_ok = if level < 4 {
        level_ok(ts@, pos as int, (level + 1) as nat)
    } else {
        unary_ok(ts@, pos as int)
    };
    assert(level_ok(ts@, pos as int, level as nat) == if l.pos >= pos {
        l_ok && loop_ok(ts@, l.pos, level as nat)
    } else {
        l_ok
    });
    assert(parse_level(ts@, pos as int, level as nat) == if l.pos >= pos {
        level_loop(ts@, l.pos, level as nat, l.tree, l.reports)
    } else {
        l
    });
    match left {
        None => None,
        Some(lp) => {
            assert(lp as int == l.pos) by {
                assert(l.pos <= ts@.len() <= usize::MAX);
            }
            proof {
                lemma_loop_pos_free(ts@, lp as int, level as nat, l.tree, l.reports, ExprTree::NotANode, seq![]);
            }
            loop_end(ts, lp, level)
        },
    }
}

fn loop_end(ts: &Vec<Token>, pos: usize, level: usize) -> (r: Option<usize>)
    requires
        tokens_wf(ts@),
        level <= 4,
    ensures
        r == if loop_ok(ts@, pos as int, level as nat) {
            Some(level_loop(ts@, pos as int, level as nat, ExprTree::NotANode, seq![]).pos as usize)
        } else {
            None::<usize>
        },
    decreases rem(ts@, pos as int), level_rank(level as nat) - 1,
{
    if pos >= ts.len() {
        return None;
    }
    proof {
        lemma_tok_at(ts@, pos as int);
        lemma_loop_pos(ts@, pos as int, level as nat, ExprTree::NotANode, seq![]);
    }
    if !end_at(ts, pos) && level_operator_of(level, type_at(ts, pos)).is_some() {
        proof {
            if level < 4 {
                lemma_level_pos(ts@, pos + 1, (level + 1) as nat);
            } else {
                lemma_unary_pos(ts@, pos + 1);
            }
        }
        let right = if level < 4 {
            level_end(ts, pos + 1, level + 1)
        } else {
            unary_end(ts, pos + 1)
        };
        match right {
            None => None,
            Some(rp) => {
                let ghost op = tok(ts@, pos as int);
                let ghost rt = if level < 4 {
                    parse_level(ts@, pos + 1, (level + 1) as nat)
                } else {
                    parse_unary(ts@, pos + 1)
                };
                let ghost e = if op.token_type == TokenType::BadAssign {
                    seq![equal_hint_report(op)]
                } else {
                    seq![]
                };
                let ghost t = ExprTree::Binary {
                    operator: level_operator(level as nat, op.token_type).unwrap(),
                    token: op,
                    left: Box::new(ExprTree::NotANode),
                    right: Box::new(rt.tree),
                };
                proof {
                    lemma_loop_pos_free(
                        ts@,
                        rp as int,
                        level as nat,
                        t,
                        seq![] + padding_reports(op) + rt.reports + e,
                        ExprTree::NotANode,
                        seq![],
                    );
                }
                if rp > pos {
                    loop_end(ts, rp, level)
                } else {
                    Some(rp)
                }
            },
        }
    } else {
        Some(pos)
    }
}

fn expression_end(ts: &Vec<Token>, pos: usize) -> (r: Option<usize>)
    requires
        tokens_wf(ts@),
    ensures
        r == if expression_ok(ts@, pos as int) {
            Some(parse_expression(ts@, pos as int).pos as usize)
        } else {
            None::<usize>
        },
    decreases rem(ts@, pos as int), 20int,
{
    level_end(ts, pos, 0)
}

/// Where `":=" expression ";"` at `p` stops, when it reads within the input.
fn tail_end(ts: &Vec<Token>, p: usize) -> (r: Option<usize>)
    requires
        tokens_wf(ts@),
    ensures
        r == if tail_ok(ts@, p as int) {
            Some(parse_assignment_tail(ts@, p as int).pos as usize)
        } else {
            None::<usize>
        },
{
    let n = ts.len();
    if p >= n {
        return None;
    }
    proof {
        lemma_expression_pos(ts@, p + 1);
    }
    match expression_end(ts, p + 1) {
        None => None,
        Some(e) => {
            if e < n {
                Some(e + 1)
            } else {
                None
            }
        },
    }
}

/// Where a statement at `pos` stops, when it reads within the input.
fn statement_end(ts: &Vec<Token>, pos: usize) -> (r: Option<usize>)
    requires
        tokens_wf(ts@),
    ensures
        r == if statement_ok(ts@, pos as int) {
            Some(parse_statement(ts@, pos as int).pos as usize)
        } else {
            None::<usize>
        },
{
    let n = ts.len();
    if pos >= n {
        return None;
    }
    proof {
        lemma_statement_pos(ts@, pos as int);
        lemma_tok_at(ts@, pos as int);
    }
    if type_at(ts, pos) == TokenType::Let {
        let p1 = pos + 1;
        if p1 >= n {
            return None;
        }
        let p2 = if check_at(ts, p1, TokenType::Mut) {
            p1 + 1
        } else {
            p1
        };
        if p2 >= n {
            return None;
        }
        proof {
            lemma_tok_at(ts@, p2 as int);
        }
        if check_at(ts, p2, TokenType::ID) && ts[p2].lexeme.is_none() {
            return None;
        }
        let p3 = p2 + 1;
        if p3 >= n {
            return None;
        }
        let h = if check_at(ts, p3, TokenType::LeftParen) {
            if p3 + 2 >= n {
                return None;
            }
            p3 + 3
        } else {
            p3
        };
        proof {
            assert(h as int == parse_optional_type_hint(ts@, p3 as int).pos);
        }
        tail_end(ts, h)
    } else {
        proof {
            lemma_tok_at(ts@, pos as int);
        }
        if check_at(ts, pos, TokenType::ID) && ts[pos].lexeme.is_none() {
            return None;
        }
        tail_end(ts, pos + 1)
    }
}

fn starts_statement_at(ts: &Vec<Token>, pos: usize) -> (r: bool)
    requires
        tokens_wf(ts@),
        pos < ts@.len(),
    ensures
        r == starts_statement(ts@, pos as int),
{
    if check_at(ts, pos, TokenType::Let) {
        return true;
    }
    let n = ts.len();
    if pos + 1 >= n {
        // past the last token `tok` gives the end, which is no `:=`
        return false;
    }
    check_at(ts, pos + 1, TokenType::Assign) || check_at(ts, pos + 1, TokenType::BadAssign)
}

/// Where the statements of a file stop does not depend on what they are
/// appended to.
proof fn lemma_file_statements_free(
    ts: Seq<Token>,
    pos: int,
    s1: Seq<StmtTree>,
    r1: Seq<ReportView>,
    s2: Seq<StmtTree>,
    r2: Seq<ReportView>,
)
    ensures
        file_statements(ts, pos, s1, r1).pos == file_statements(ts, pos, s2, r2).pos,
    decreases rem(ts, pos),
{
    if !at_end(ts, pos) && starts_statement(ts, pos) {
        let s = parse_statement(ts, pos);
        if s.pos > pos {
            lemma_file_statements_free(ts, s.pos, s1.push(s.tree), r1 + s.reports, s2.push(s.tree), r2 + s.reports);
        }
    }
}

/// Where the statements of a file starting at `pos` stop, when they read
/// within the input.
fn file_statements_end(ts: &Vec<Token>, pos: usize) -> (r: Option<usize>)
    requires
        tokens_wf(ts@),
    ensures
        r == if file_statements_ok(ts@, pos as int) {
            Some(file_statements(ts@, pos as int, seq![], seq![]).pos as usize)
        } else {
            None::<usize>
        },
    decreases rem(ts@, pos as int),
{
    let n = ts.len();
    if pos >= n {
        return None;
    }
    proof {
        lemma_file_statements_pos(ts@, pos as int, seq![], seq![]);
    }
    if !end_at(ts, pos) && starts_statement_at(ts, pos) {
        let ghost s = parse_statement(ts@, pos as int);
        proof {
            lemma_statement_pos(ts@, pos as int);
            lemma_file_statements_free(ts@, s.pos, seq![].push(s.tree), seq![] + s.reports, seq![], seq![]);
        }
        match statement_end(ts, pos) {
            None => None,
            Some(p) => {
                if p > pos {
                    file_statements_end(ts, p)
                } else {
                    Some(p)
                }
            },
        }
    } else {
        Some(pos)
    }
}

/// Whether the commands of REPL input move on each time, when they read within
/// the input, does not depend on what they are appended to.
proof fn lemma_repl_commands_free(
    ts: Seq<Token>,
    pos: int,
    c1: Seq<CommandTree>,
    r1: Seq<ReportView>,
    c2: Seq<CommandTree>,
    r2: Seq<ReportView>,
)
    ensures
        repl_commands(ts, pos, c1, r1).complete == repl_commands(ts, pos, c2, r2).complete,
    decreases rem(ts, pos),
{
    if !at_end(ts, pos) {
        let (cmd, p, reps) = if starts_statement(ts, pos) {
            let s = parse_statement(ts, pos);
            (CommandTree::Stmt(s.tree), s.pos, s.reports)
        } else {
            let e = parse_expression(ts, pos);
            (CommandTree::Expr(e.tree), e.pos, e.reports)
        };
        if p > pos {
            lemma_repl_commands_free(ts, p, c1.push(cmd), r1 + reps, c2.push(cmd), r2 + reps);
        }
    }
}

/// For REPL input from `pos`: `None` where reading it would go past the last
/// token, else whether every command moves on.
fn repl_end(ts: &Vec<Token>, pos: usize) -> (r: Option<bool>)
    requires
        tokens_wf(ts@),
    ensures
        r == if repl_ok(ts@, pos as int) {
            Some(repl_commands(ts@, pos as int, seq![], seq![]).complete)
        } else {
            None::<bool>
        },
    decreases rem(ts@, pos as int),
{
    let n = ts.len();
    if pos >= n {
        return None;
    }
    if end_at(ts, pos) {
        return Some(true);
    }
    let is_statement = starts_statement_at(ts, pos);
    let ghost cmd = if is_statement {
        CommandTree::Stmt(parse_statement(ts@, pos as int).tree)
    } else {
        CommandTree::Expr(parse_expression(ts@, pos as int).tree)
    };
    let ghost reps = if is_statement {
        parse_statement(ts@, pos as int).reports
    } else {
        parse_expression(ts@, pos as int).reports
    };
    let ghost p_spec = if is_statement {
        parse_statement(ts@, pos as int).pos
    } else {
        parse_expression(ts@, pos as int).pos
    };
    let ghost ok_spec = if is_statement {
        statement_ok(ts@, pos as int)
    } else {
        expression_ok(ts@, pos as int)
    };
    assert(repl_ok(ts@, pos as int) == if p_spec > pos {
        ok_spec && repl_ok(ts@, p_spec)
    } else {
        ok_spec
    });
    assert(repl_commands(ts@, pos as int, seq![], seq![]) == if p_spec > pos {
        repl_commands(ts@, p_spec, seq![].push(cmd), seq![] + reps)
    } else {
        ReplParse { commands: seq![].push(cmd), pos: p_spec, reports: seq![] + reps, complete: false }
    });
    let end = if is_statement {
        statement_end(ts, pos)
    } else {
        expression_end(ts, pos)
    };
    match end {
        None => None,
        Some(p) => {
            proof {
                lemma_statement_pos(ts@, pos as int);
                lemma_expression_pos(ts@, pos as int);
                assert(p as int == p_spec) by {
                    assert(p_spec <= ts@.len() <= usize::MAX);
                }
                lemma_repl_commands_free(ts@, p as int, seq![].push(cmd), seq![] + reps, seq![], seq![]);
            }
            if p > pos {
                repl_end(ts, p)
            } else {
                Some(false)
            }
        },
    }
}

/// Whether `Parser::parse` can read `tokens` as a file: they end in `EOF`
/// and reading them never goes past the last token.
pub fn file_input_ok(tokens: &Vec<Token>) -> (r: bool)
    ensures
        r == (tokens_wf(tokens@) && file_ok(tokens@, 0)),
{
    let n = tokens.len();
    if n == 0 || tokens[n - 1].token_type != TokenType::EOF {
        return false;
    }
    match file_statements_end(tokens, 0) {
        None => false,
        Some(p) => {
            proof {
                lemma_file_statements_pos(tokens@, 0, seq![], seq![]);
            }
            if end_at(tokens, p) {
                true
            } else {
                expression_end(tokens, p).is_some()
            }
        },
    }
}

/// Whether `Parser::parse` can read `tokens` as REPL input: they end in
/// `EOF`, reading them never goes past the last token, and every command
/// moves on, so that reading ends.
pub fn repl_input_ok(tokens: &Vec<Token>) -> (r: bool)
    ensures
        r == (tokens_wf(tokens@) && repl_ok(tokens@, 0) && repl_commands(tokens@, 0, seq![], seq![]).complete),
{
    let n = tokens.len();
    if n == 0 || tokens[n - 1].token_type != TokenType::EOF {
        return false;
    }
    match repl_end(tokens, 0) {
        None => false,
        Some(complete) => complete,
    }
}

} // verus!
