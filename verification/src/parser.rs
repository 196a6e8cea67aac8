//! The recursive-descent parser: it reads a token sequence, builds nodes in
//! an `AST` and reports what it cannot read.
use crate::ast::AST;
use crate::denote::{
    assmt_denotes, command_denotes, commands_denote, decl_denotes, expr_denotes, file_denotes,
    lemma_commands_denote_extends, lemma_expr_denotes_extends, lemma_stmts_denote_extends, stmt_denotes,
    stmts_denote,
};
use crate::error::{ErrorMessage, ErrorReporter, ErrorType, ReportView};
use crate::grammar::{
    assign_hint_report, assmt_ok, at_end, check, check_next, decl_ok, equal_hint_report,
    expected_expression_report, expected_let_report, expected_semicolon_report, expression_ok, file_ok,
    file_statements, file_statements_ok, got_text, hint_ok, hint_type, identifier_at, identifier_ok,
    lemma_expression_pos, lemma_level_pos, lemma_repl_reads_to_end, lemma_statement_pos, lemma_unary_pos,
    level_loop, level_ok, level_operator, level_rank, loop_ok, next, one_message, padding_reports,
    parse_assignment_tail, parse_expression, parse_file, parse_level, parse_optional_type_hint,
    parse_primary, parse_statement, parse_unary, parse_var_assmt, parse_var_decl, primary_ok,
    quoted_or_name, readable, repl_commands, repl_ok, report_unless, starts_statement, statement_ok,
    tail_ok, tok, tokens_wf, tree_size, binary_nodes, unary_nodes, variable_nodes, literal_nodes, hint_nodes, tail_nodes, decl_nodes, assmt_nodes, statement_nodes,
    file_statements_nodes, file_nodes, repl_nodes, type_hint_at, unary_ok, unclosed_type_hint_report, AssmtParse,
    CommandTree, DeclParse, ExprParse, ExprTree, StmtTree,
};
use crate::literal::{parse_i128, trim_radix_prefix};
use crate::nodes::{
    BinaryExpression, BinaryOperator, ExpressionKey, File, FileKey, Identifier, IdentifierKey, Literal,
    LiteralExpression, REPLCommandKey, RootKey, StatementKey, TypeHint, TypeHintKey, UnaryExpression,
    UnaryOperator, VariableAssignment, VariableAssignmentKey, VariableDeclaration, VariableDeclarationKey,
    VariableExpression,
};
use crate::text::{concat2, concat3};
use crate::token::{LocationInfo, Token, TokenType};
use crate::types::{DataType, Primitive, Type};
use vstd::pervasive::unreached;
use vstd::prelude::*;

verus! {

// ---------------------------------------------------------------------------
// Text of messages
// ---------------------------------------------------------------------------

/// The text of a token, else the name of its type.
fn got_text_of(t: &Token) -> (r: String)
    ensures
        r@ == got_text(*t),
{
    match &t.lexeme {
        Some(l) => l.clone(),
        None => t.token_type.name().to_owned(),
    }
}

/// The text of a token in quotes, else the name of its type.
fn quoted_or_name_of(t: &Token) -> (r: String)
    ensures
        r@ == quoted_or_name(*t),
{
    match &t.lexeme {
        Some(l) => concat3("\"", l.as_str(), "\""),
        None => t.token_type.name().to_owned(),
    }
}

/// `trim_start_matches` of `0` followed by `marker`.
pub(crate) fn trim_radix_prefix_of(s: &str, marker: char) -> (r: &str)
    ensures
        r@ == trim_radix_prefix(s@, marker),
{
    let mut t = s;
    loop
        invariant
            trim_radix_prefix(t@, marker) == trim_radix_prefix(s@, marker),
        decreases t@.len(),
    {
        let n = t.unicode_len();
        if n >= 2 && t.get_char(0) == '0' && t.get_char(1) == marker {
            t = t.substring_char(2, n);
            proof {
                assert(t@ == t@.skip(0));
            }
        } else {
            return t;
        }
    }
}

/// The binary operator that a token type stands for at a level of precedence.
pub(crate) fn level_operator_of(level: usize, t: TokenType) -> (r: Option<BinaryOperator>)
    ensures
        r == level_operator(level as nat, t),
{
    if level == 0 {
        match t {
            TokenType::NotEqual => Some(BinaryOperator::NotEqual),
            TokenType::Equal => Some(BinaryOperator::Equal),
            TokenType::BadAssign => Some(BinaryOperator::Equal),
            _ => None,
        }
    } else if level == 1 {
        match t {
            TokenType::GreaterThan => Some(BinaryOperator::GreaterThan),
            TokenType::GreaterThanOrEqual => Some(BinaryOperator::GreaterThanOrEqual),
            TokenType::LessThan => Some(BinaryOperator::LessThan),
            TokenType::LessThanOrEqual => Some(BinaryOperator::LessThanOrEqual),
            _ => None,
        }
    } else if level == 2 {
        match t {
            TokenType::Plus => Some(BinaryOperator::Plus),
            TokenType::Minus => Some(BinaryOperator::Minus),
            _ => None,
        }
    } else if level == 3 {
        match t {
            TokenType::Star => Some(BinaryOperator::Times),
            TokenType::Slash => Some(BinaryOperator::Divide),
            TokenType::Modulo => Some(BinaryOperator::Modulus),
            _ => None,
        }
    } else {
        match t {
            TokenType::And => Some(BinaryOperator::And),
            TokenType::Or => Some(BinaryOperator::Or),
            _ => None,
        }
    }
}

// ---------------------------------------------------------------------------
// The parser
// ---------------------------------------------------------------------------

/// Reads `tokens` from the first on, into `ast`, reporting into `error`.
pub struct Parser {
    pub tokens: Vec<Token>,
    pub ast: AST,
    pub error: ErrorReporter,
    /// The position of the next token to read.
    pub current: usize,
}

impl Parser {
    /// The position of the next token to read.
    pub open spec fn position(&self) -> int {
        self.current as int
    }

    /// What bounds the nodes still to be made: every node the parser makes
    /// is paid for by a token it reads, at most two nodes per token.
    pub open spec fn potential(&self) -> int {
        self.ast@.count() + 2 * (self.tokens@.len() - self.position())
    }

    /// A parser in a consistent state: the tokens are well formed, the
    /// position lies in them or just past the last one (where any read
    /// fails), the tree is well formed and its arenas have room for what the
    /// remaining tokens can make.
    pub open spec fn wf(&self) -> bool {
        &&& tokens_wf(self.tokens@)
        &&& 0 <= self.position() <= self.tokens@.len()
        &&& self.ast@.wf()
        &&& self.ast@.room(2 * (self.tokens@.len() - self.position()) + 1)
    }

    /// `self` is `before` after reading up to `pos` and making `reports`;
    /// nodes were only added.
    pub open spec fn advanced(&self, before: Parser, pos: int, reports: Seq<ReportView>) -> bool {
        &&& self.tokens@ == before.tokens@
        &&& self.position() == pos
        &&& self.error@ == before.error@ + reports
        &&& self.ast@.extends(before.ast@)
        &&& self.wf()
        &&& self.potential() <= before.potential()
    }

    /// `self` has read an expression as `p` describes it, `key` stands for it,
    /// and the nodes of the tree are the only nodes made.
    pub open spec fn read_expression(&self, before: Parser, key: ExpressionKey, p: ExprParse) -> bool {
        &&& self.advanced(before, p.pos, p.reports)
        &&& expr_denotes(self.ast@, key, p.tree)
        &&& self.ast@.count() == before.ast@.count() + tree_size(p.tree)
        &&& self.ast@.same_beside_expressions(before.ast@)
        &&& self.ast@.binaries.dom().len() == before.ast@.binaries.dom().len() + binary_nodes(p.tree)
        &&& self.ast@.unaries.dom().len() == before.ast@.unaries.dom().len() + unary_nodes(p.tree)
        &&& self.ast@.variables.dom().len() == before.ast@.variables.dom().len() + variable_nodes(p.tree)
        &&& self.ast@.literals.dom().len() == before.ast@.literals.dom().len() + literal_nodes(p.tree)
    }

    /// `self` has read a declaration as `p` describes it; `r` is its node, if one was made.
    pub open spec fn read_decl(&self, before: Parser, r: Option<VariableDeclarationKey>, p: DeclParse) -> bool {
        &&& self.advanced(before, p.pos, p.reports)
        &&& self.ast@.count() == before.ast@.count() + decl_nodes(before.tokens@, before.position())
        &&& self.ast@.var_assmts == before.ast@.var_assmts
        &&& p.decl is None ==> self.ast@.var_decls == before.ast@.var_decls && self.ast@.identifiers
            == before.ast@.identifiers
        &&& match (r, p.decl) {
            (None, None) => true,
            (Some(k), Some(d)) => decl_denotes(self.ast@, k, d),
            _ => false,
        }
    }

    /// `self` has read an assignment as `p` describes it; `r` is its node, if one was made.
    pub open spec fn read_assmt(&self, before: Parser, r: Option<VariableAssignmentKey>, p: AssmtParse) -> bool {
        &&& self.advanced(before, p.pos, p.reports)
        &&& self.ast@.count() == before.ast@.count() + assmt_nodes(before.tokens@, before.position())
        &&& self.ast@.var_decls == before.ast@.var_decls
        &&& p.assmt is None ==> self.ast@.var_assmts == before.ast@.var_assmts && self.ast@.identifiers
            == before.ast@.identifiers
        &&& match (r, p.assmt) {
            (None, None) => true,
            (Some(k), Some(a)) => assmt_denotes(self.ast@, k, a),
            _ => false,
        }
    }

    pub fn new(tokens: Vec<Token>, ast: AST, error: ErrorReporter) -> (r: Parser)
        ensures
            r.tokens@ == tokens@,
            r.ast == ast,
            r.error == error,
            r.position() == 0,
    {
        Parser { tokens, ast, error, current: 0 }
    }

    fn current_token(&self) -> (r: Token)
        requires
            tokens_wf(self.tokens@),
            0 <= self.position() < self.tokens@.len(),
        ensures
            r == tok(self.tokens@, self.position()),
    {
        self.tokens[self.current].clone()
    }

    fn current_type(&self) -> (r: TokenType)
        requires
            tokens_wf(self.tokens@),
            0 <= self.position() < self.tokens@.len(),
        ensures
            r == tok(self.tokens@, self.position()).token_type,
    {
        self.tokens[self.current].token_type
    }

    fn is_at_end(&self) -> (r: bool)
        requires
            tokens_wf(self.tokens@),
            0 <= self.position() < self.tokens@.len(),
        ensures
            r == at_end(self.tokens@, self.position()),
    {
        self.tokens[self.current].token_type == TokenType::EOF
    }

    /// Hands out the current token and moves past it.
    fn consume(&mut self) -> (r: Token)
        requires
            tokens_wf(old(self).tokens@),
            0 <= old(self).position() < old(self).tokens@.len(),
        ensures
            r == tok(old(self).tokens@, old(self).position()),
            final(self).position() == next(old(self).tokens@, old(self).position()),
            final(self).tokens == old(self).tokens,
            final(self).ast == old(self).ast,
            final(self).error == old(self).error,
    {
        let token = self.current_token();
        let len = self.tokens.len();
        if self.current < len {
            self.current = self.current + 1;
        }
        token
    }

    /// The current token is not the end and has one of the types.
    fn match_token(&self, types: &[TokenType]) -> (r: bool)
        requires
            tokens_wf(self.tokens@),
            0 <= self.position() < self.tokens@.len(),
        ensures
            r == (!at_end(self.tokens@, self.position()) && types@.contains(
                tok(self.tokens@, self.position()).token_type,
            )),
    {
        if self.is_at_end() {
            return false;
        }
        let t = self.current_type();
        let mut i: usize = 0;
        while i < types.len()
            invariant
                i <= types@.len(),
                t == tok(self.tokens@, self.position()).token_type,
                !at_end(self.tokens@, self.position()),
                forall|j: int| 0 <= j < i ==> types@[j] != t,
            decreases types@.len() - i,
        {
            if types[i] == t {
                proof {
                    assert(types@[i as int] == t);
                }
                return true;
            }
            i = i + 1;
        }
        false
    }

    /// `check`: the current token is not the end and has type `t`.
    fn check(&self, t: TokenType) -> (r: bool)
        requires
            tokens_wf(self.tokens@),
            0 <= self.position() < self.tokens@.len(),
        ensures
            r == check(self.tokens@, self.position(), t),
    {
        let r = self.match_token(&[t]);
        proof {
            let u = tok(self.tokens@, self.position()).token_type;
            if u == t {
                assert(seq![t][0] == u);
            }
        }
        r
    }

    /// `check_next`: the token after the current one is not the end and has type `t`.
    fn check_next(&self, t: TokenType) -> (r: bool)
        requires
            tokens_wf(self.tokens@),
            0 <= self.position() < self.tokens@.len(),
        ensures
            r == check_next(self.tokens@, self.position(), t),
    {
        let r = self.match_next_token(&[t]);
        proof {
            let u = tok(self.tokens@, next(self.tokens@, self.position())).token_type;
            if u == t {
                assert(seq![t][0] == u);
            }
        }
        r
    }

    /// The token after the current one is not the end and has one of the types.
    fn match_next_token(&self, types: &[TokenType]) -> (r: bool)
        requires
            tokens_wf(self.tokens@),
            0 <= self.position() < self.tokens@.len(),
        ensures
            r == (!at_end(self.tokens@, next(self.tokens@, self.position())) && types@.contains(
                tok(self.tokens@, next(self.tokens@, self.position())).token_type,
            )),
    {
        let n = if self.current < self.tokens.len() - 1 {
            self.current + 1
        } else {
            self.current
        };
        let t = self.tokens[n].token_type;
        if t == TokenType::EOF {
            return false;
        }
        let mut i: usize = 0;
        while i < types.len()
            invariant
                i <= types@.len(),
                t == tok(self.tokens@, next(self.tokens@, self.position())).token_type,
                !at_end(self.tokens@, next(self.tokens@, self.position())),
                forall|j: int| 0 <= j < i ==> types@[j] != t,
            decreases types@.len() - i,
        {
            if types[i] == t {
                proof {
                    assert(types@[i as int] == t);
                }
                return true;
            }
            i = i + 1;
        }
        false
    }

    /// Records a report with one message.
    fn report_one(&mut self, error_type: ErrorType, text: String, location: &LocationInfo, hint: Option<String>)
        ensures
            final(self).error@ == old(self).error@.push(
                ReportView {
                    error_type,
                    messages: one_message(text@, *location),
                    hint: match hint {
                        Some(h) => Some(h@),
                        None => None,
                    },
                },
            ),
            final(self).tokens == old(self).tokens,
            final(self).ast == old(self).ast,
            final(self).position() == old(self).position(),
    {
        let messages = vec![ErrorMessage::new(Some(text), location)];
        proof {
            assert(crate::error::messages_view(messages@) =~= one_message(text@, *location));
        }
        self.error.report(error_type, messages, hint);
    }

    /// Records a report with two messages.
    fn report_two(
        &mut self,
        error_type: ErrorType,
        text1: String,
        location1: &LocationInfo,
        text2: String,
        location2: &LocationInfo,
        hint: Option<String>,
    )
        ensures
            final(self).error@ == old(self).error@.push(
                ReportView {
                    error_type,
                    messages: seq![
                        crate::error::MessageView { text: Some(text1@), location: *location1 },
                        crate::error::MessageView { text: Some(text2@), location: *location2 },
                    ],
                    hint: match hint {
                        Some(h) => Some(h@),
                        None => None,
                    },
                },
            ),
            final(self).tokens == old(self).tokens,
            final(self).ast == old(self).ast,
            final(self).position() == old(self).position(),
    {
        let messages = vec![ErrorMessage::new(Some(text1), location1), ErrorMessage::new(Some(text2), location2)];
        proof {
            assert(crate::error::messages_view(messages@) =~= seq![
                crate::error::MessageView { text: Some(text1@), location: *location1 },
                crate::error::MessageView { text: Some(text2@), location: *location2 },
            ]);
        }
        self.error.report(error_type, messages, hint);
    }

    /// Warns when a binary operator is not surrounded by whitespace on both sides.
    pub fn warn_padding_around_operator(&mut self, operator: &Token)
        ensures
            final(self).error@ == old(self).error@ + padding_reports(*operator),
            final(self).tokens == old(self).tokens,
            final(self).ast == old(self).ast,
            final(self).position() == old(self).position(),
    {
        match &operator.lexeme {
            None => {
                proof {
                    assert(self.error@ =~= old(self).error@ + padding_reports(*operator));
                }
            },
            Some(lexeme) => {
                let message = "in jazzy, you have to surround binary operators with whitespace";
                if !operator.whitespace_precedes && operator.whitespace_follows {
                    let hint = concat3(
                        "Consider placing a space before the operator like so: \"left ",
                        lexeme.as_str(),
                        " right\"",
                    );
                    self.report_one(
                        ErrorType::MissingPaddingAroundOperatorError,
                        message.to_owned(),
                        &operator.location_info,
                        Some(hint),
                    );
                } else if operator.whitespace_precedes && !operator.whitespace_follows {
                    let hint = concat3(
                        "Consider placing a space after the operator like so: \"left ",
                        lexeme.as_str(),
                        " right\"",
                    );
                    self.report_one(
                        ErrorType::MissingPaddingAroundOperatorError,
                        message.to_owned(),
                        &operator.location_info,
                        Some(hint),
                    );
                } else if !operator.whitespace_precedes && !operator.whitespace_follows {
                    let hint = concat3(
                        "Consider placing a space before and after the operator like so: \"left ",
                        lexeme.as_str(),
                        " right\"",
                    );
                    self.report_one(
                        ErrorType::MissingPaddingAroundOperatorError,
                        message.to_owned(),
                        &operator.location_info,
                        Some(hint),
                    );
                } else {
                    proof {
                        assert(self.error@ =~= old(self).error@ + padding_reports(*operator));
                    }
                }
            },
        }
    }
}

impl Parser {
    /// `expression -> equality`.
    pub fn expression(&mut self) -> (r: ExpressionKey)
        requires
            old(self).wf(),
            expression_ok(old(self).tokens@, old(self).position()),
        ensures
            final(self).read_expression(*old(self), r, parse_expression(old(self).tokens@, old(self).position())),
        decreases old(self).tokens@.len() - old(self).position(), 20int,
    {
        self.equality()
    }

    /// `equality -> comparison ( ( "!=" | "==" ) comparison )*`; a `=` in
    /// place of `==` is read as `==` and reported.
    pub fn equality(&mut self) -> (r: ExpressionKey)
        requires
            old(self).wf(),
            level_ok(old(self).tokens@, old(self).position(), 0),
        ensures
            final(self).read_expression(*old(self), r, parse_level(old(self).tokens@, old(self).position(), 0)),
        decreases old(self).tokens@.len() - old(self).position(), 19int,
    {
        self.binary_level(0)
    }

    /// `comparison -> term ( ( ">" | ">=" | "<" | "<=" ) term )*`.
    pub fn comparison(&mut self) -> (r: ExpressionKey)
        requires
            old(self).wf(),
            level_ok(old(self).tokens@, old(self).position(), 1),
        ensures
            final(self).read_expression(*old(self), r, parse_level(old(self).tokens@, old(self).position(), 1)),
    {
        self.binary_level(1)
    }

    /// `term -> factor ( ( "-" | "+" ) factor )*`.
    pub fn term(&mut self) -> (r: ExpressionKey)
        requires
            old(self).wf(),
            level_ok(old(self).tokens@, old(self).position(), 2),
        ensures
            final(self).read_expression(*old(self), r, parse_level(old(self).tokens@, old(self).position(), 2)),
    {
        self.binary_level(2)
    }

    /// `factor -> boolean ( ( "/" | "*" | "%" ) boolean )*`.
    pub fn factor(&mut self) -> (r: ExpressionKey)
        requires
            old(self).wf(),
            level_ok(old(self).tokens@, old(self).position(), 3),
        ensures
            final(self).read_expression(*old(self), r, parse_level(old(self).tokens@, old(self).position(), 3)),
    {
        self.binary_level(3)
    }

    /// `boolean -> unary ( ( "and" | "or" ) unary )*`.
    pub fn boolean(&mut self) -> (r: ExpressionKey)
        requires
            old(self).wf(),
            level_ok(old(self).tokens@, old(self).position(), 4),
        ensures
            final(self).read_expression(*old(self), r, parse_level(old(self).tokens@, old(self).position(), 4)),
    {
        self.binary_level(4)
    }

    /// One level of left-associative binary operators.
    #[verifier::spinoff_prover]
    #[verifier::rlimit(50)]
    fn binary_level(&mut self, level: usize) -> (r: ExpressionKey)
        requires
            old(self).wf(),
            level_ok(old(self).tokens@, old(self).position(), level as nat),
            level <= 4,
        ensures
            final(self).read_expression(
                *old(self),
                r,
                parse_level(old(self).tokens@, old(self).position(), level as nat),
            ),
        decreases old(self).tokens@.len() - old(self).position(), level_rank(level as nat),
    {
        let ghost ts = self.tokens@;
        let ghost start = self.position();
        let ghost before = *old(self);
        let ghost target = parse_level(ts, start, level as nat);
        let mut left = if level < 4 {
            self.binary_level(level + 1)
        } else {
            self.unary()
        };
        let ghost first = if level < 4 {
            parse_level(ts, start, (level + 1) as nat)
        } else {
            parse_unary(ts, start)
        };
        proof {
            if level < 4 {
                lemma_level_pos(ts, start, (level + 1) as nat);
            } else {
                lemma_unary_pos(ts, start);
            }
        }
        let ghost mut tree = first.tree;
        let ghost mut reps = first.reports;
        while !self.is_at_end() && level_operator_of(level, self.current_type()).is_some()
            invariant
                self.tokens@ == ts,
                ts == old(self).tokens@,
                start == old(self).position(),
                self.wf(),
                start <= self.position(),
                level <= 4,
                self.ast@.extends(before.ast@),
                self.potential() <= before.potential(),
                self.error@ == before.error@ + reps,
                expr_denotes(self.ast@, left, tree),
                level_loop(ts, self.position(), level as nat, tree, reps) == target,
                loop_ok(ts, self.position(), level as nat),
                self.ast@.count() == before.ast@.count() + tree_size(tree),
                self.ast@.same_beside_expressions(before.ast@),
                self.ast@.binaries.dom().len() == before.ast@.binaries.dom().len() + binary_nodes(tree),
                self.ast@.unaries.dom().len() == before.ast@.unaries.dom().len() + unary_nodes(tree),
                self.ast@.variables.dom().len() == before.ast@.variables.dom().len() + variable_nodes(tree),
                self.ast@.literals.dom().len() == before.ast@.literals.dom().len() + literal_nodes(tree),
            decreases ts.len() - self.position(),
        {
            let ghost pos = self.position();
            let ghost mid = *self;
            let operator = self.consume();
            self.warn_padding_around_operator(&operator);
            let right = if level < 4 {
                self.binary_level(level + 1)
            } else {
                self.unary()
            };
            let ghost r = if level < 4 {
                parse_level(ts, pos + 1, (level + 1) as nat)
            } else {
                parse_unary(ts, pos + 1)
            };
            proof {
                if level < 4 {
                    lemma_level_pos(ts, pos + 1, (level + 1) as nat);
                } else {
                    lemma_unary_pos(ts, pos + 1);
                }
            }
            let operator_kind = match level_operator_of(level, operator.token_type) {
                Some(o) => o,
                None => unreached(),
            };
            let ghost after_padding = self.error@;
            if operator.token_type == TokenType::BadAssign {
                self.report_one(
                    ErrorType::UnexpectedTokenError,
                    "Did you mean \"==\"?".to_owned(),
                    &operator.location_info,
                    None,
                );
            }
            let ghost extra = if operator.token_type == TokenType::BadAssign {
                seq![equal_hint_report(operator)]
            } else {
                seq![]
            };
            let ghost ast_before_node = self.ast@;
            proof {
                lemma_expr_denotes_extends(mid.ast@, ast_before_node, left, tree);
            }
            let node = BinaryExpression::new(operator_kind, operator, left, right);
            let key = self.ast.new_binary_expression(node);
            proof {
                lemma_expr_denotes_extends(ast_before_node, self.ast@, left, tree);
                lemma_expr_denotes_extends(ast_before_node, self.ast@, right, r.tree);
                let new_tree = ExprTree::Binary {
                    operator: level_operator(level as nat, tok(ts, pos).token_type).unwrap(),
                    token: tok(ts, pos),
                    left: Box::new(tree),
                    right: Box::new(r.tree),
                };
                let new_reps = reps + padding_reports(tok(ts, pos)) + r.reports + extra;
                assert(self.error@ =~= before.error@ + new_reps);
                assert(expr_denotes(self.ast@, ExpressionKey::Binary(key), new_tree));
                tree = new_tree;
                reps = new_reps;
            }
            left = ExpressionKey::Binary(key);
        }
        left
    }

    /// `unary -> ( "!" | "-" ) unary | primary`.
    pub fn unary(&mut self) -> (r: ExpressionKey)
        requires
            old(self).wf(),
            unary_ok(old(self).tokens@, old(self).position()),
        ensures
            final(self).read_expression(*old(self), r, parse_unary(old(self).tokens@, old(self).position())),
        decreases old(self).tokens@.len() - old(self).position(), 5int,
    {
        if !self.is_at_end() && self.match_token(&[TokenType::Minus, TokenType::Not]) {
            let ghost ts = self.tokens@;
            let ghost pos = self.position();
            proof {
                assert(tok(ts, pos).token_type == TokenType::Minus || tok(ts, pos).token_type == TokenType::Not);
            }
            let operator = self.consume();
            let operand = self.unary();
            let ghost ast_before_node = self.ast@;
            let kind = match operator.token_type {
                TokenType::Minus => UnaryOperator::Minus,
                TokenType::Not => UnaryOperator::Not,
                _ => unreached(),
            };
            let node = UnaryExpression::new(kind, operator, operand);
            let key = self.ast.new_unary_expression(node);
            proof {
                lemma_expr_denotes_extends(ast_before_node, self.ast@, operand, parse_unary(ts, pos + 1).tree);
            }
            return ExpressionKey::Unary(key);
        }
        proof {
            let ts = self.tokens@;
            let pos = self.position();
            let t = tok(ts, pos).token_type;
            if !at_end(ts, pos) && (t == TokenType::Minus || t == TokenType::Not) {
                assert(seq![TokenType::Minus, TokenType::Not][if t == TokenType::Minus { 0int } else { 1int }] == t);
            }
        }
        self.primary()
    }

    /// Records an "expected expression" report about `token`.
    fn report_expected_expression(&mut self, token: &Token)
        ensures
            final(self).error@ == old(self).error@.push(expected_expression_report(*token)),
            final(self).tokens == old(self).tokens,
            final(self).ast == old(self).ast,
            final(self).position() == old(self).position(),
    {
        let error_type = ErrorType::ExpectedExpressionError;
        let text = concat3(error_type.description(), " but got ", quoted_or_name_of(token).as_str());
        self.report_one(error_type, text, &token.location_info, None);
    }

    /// Makes a literal node for the token just read.
    fn new_literal(&mut self, value: Literal, token: Token) -> (r: ExpressionKey)
        requires
            old(self).ast@.wf(),
            old(self).ast@.room(1),
        ensures
            final(self).ast@.wf(),
            final(self).ast@.extends(old(self).ast@),
            final(self).ast@.count() == old(self).ast@.count() + 1,
            final(self).ast@.same_beside_expressions(old(self).ast@),
            final(self).ast@.literals.dom().len() == old(self).ast@.literals.dom().len() + 1,
            final(self).ast@.binaries == old(self).ast@.binaries,
            final(self).ast@.unaries == old(self).ast@.unaries,
            final(self).ast@.variables == old(self).ast@.variables,
            final(self).tokens == old(self).tokens,
            final(self).error == old(self).error,
            final(self).position() == old(self).position(),
            expr_denotes(final(self).ast@, r, ExprTree::Literal { value, token }),
    {
        let key = self.ast.new_literal_expression(LiteralExpression::new(value, token));
        ExpressionKey::Literal(key)
    }

    /// `primary -> ID | literal | "(" expression ")"`; anything else is
    /// reported as "expected expression".
    #[verifier::spinoff_prover]
    #[verifier::rlimit(50)]
    pub fn primary(&mut self) -> (r: ExpressionKey)
        requires
            old(self).wf(),
            primary_ok(old(self).tokens@, old(self).position()),
        ensures
            final(self).read_expression(*old(self), r, parse_primary(old(self).tokens@, old(self).position())),
        decreases old(self).tokens@.len() - old(self).position(), 3int,
    {
        let ghost ts = self.tokens@;
        let ghost pos = self.position();
        let current_token = self.current_token();
        let r = match &current_token.lexeme {
            None => {
                self.report_expected_expression(&current_token);
                ExpressionKey::NotANode
            },
            Some(lexeme) => {
                match current_token.token_type {
                    TokenType::ID => {
                        self.consume();
                        let key = self.ast.new_variable_expression(
                            VariableExpression::new(lexeme.clone(), current_token.clone()),
                        );
                        ExpressionKey::Variable(key)
                    },
                    TokenType::False => {
                        self.consume();
                        self.new_literal(Literal::False(false), current_token.clone())
                    },
                    TokenType::True => {
                        self.consume();
                        self.new_literal(Literal::True(true), current_token.clone())
                    },
                    TokenType::IntLit => {
                        let value = match parse_i128(lexeme.as_str(), 10) {
                            Some(v) => v,
                            None => unreached(),
                        };
                        self.consume();
                        self.new_literal(Literal::Int(value), current_token.clone())
                    },
                    TokenType::FloatLit => {
                        self.consume();
                        self.new_literal(Literal::Float(lexeme.clone()), current_token.clone())
                    },
                    TokenType::HexLit => {
                        let without_prefix = trim_radix_prefix_of(lexeme.as_str(), 'x');
                        let value = match parse_i128(without_prefix, 16) {
                            Some(v) => v,
                            None => unreached(),
                        };
                        self.consume();
                        self.new_literal(Literal::Int(value), current_token.clone())
                    },
                    TokenType::BinaryLit => {
                        let without_prefix = trim_radix_prefix_of(lexeme.as_str(), 'b');
                        let value = match parse_i128(without_prefix, 2) {
                            Some(v) => v,
                            None => unreached(),
                        };
                        self.consume();
                        self.new_literal(Literal::Int(value), current_token.clone())
                    },
                    TokenType::StringLit => {
                        self.consume();
                        self.new_literal(Literal::String(lexeme.clone()), current_token.clone())
                    },
                    TokenType::LeftParen => {
                        self.consume();
                        let expression = self.expression();
                        proof {
                            lemma_expression_pos(ts, pos + 1);
                        }
                        let next_token = self.current_token();
                        if self.is_at_end() || next_token.token_type != TokenType::RightParen {
                            let first = concat2(
                                "Expected token \")\" after expression but got token ",
                                quoted_or_name_of(&next_token).as_str(),
                            );
                            self.report_two(
                                ErrorType::UnMatchedParenError,
                                first,
                                &next_token.location_info,
                                "Un-matched left parenthesis".to_owned(),
                                &current_token.location_info,
                                Some("Try putting a \")\" after the expression".to_owned()),
                            );
                        } else {
                            self.consume();
                        }
                        expression
                    },
                    _ => {
                        self.report_expected_expression(&current_token);
                        self.consume();
                        ExpressionKey::NotANode
                    },
                }
            },
        };
        proof {
            assert(self.error@ =~= old(self).error@ + parse_primary(ts, pos).reports);
        }
        r
    }
}

fn hint_type_of(t: TokenType) -> (r: DataType)
    ensures
        r == hint_type(t),
{
    match t {
        TokenType::I8 => DataType::new(Type::Primitive(Primitive::I8)),
        TokenType::I16 => DataType::new(Type::Primitive(Primitive::I16)),
        TokenType::I32 => DataType::new(Type::Primitive(Primitive::I32)),
        TokenType::I64 => DataType::new(Type::Primitive(Primitive::I64)),
        TokenType::I128 => DataType::new(Type::Primitive(Primitive::I128)),
        TokenType::U8 => DataType::new(Type::Primitive(Primitive::U8)),
        TokenType::U16 => DataType::new(Type::Primitive(Primitive::U16)),
        TokenType::U32 => DataType::new(Type::Primitive(Primitive::U32)),
        TokenType::U64 => DataType::new(Type::Primitive(Primitive::U64)),
        TokenType::U128 => DataType::new(Type::Primitive(Primitive::U128)),
        TokenType::F32 => DataType::new(Type::Primitive(Primitive::F32)),
        TokenType::F64 => DataType::new(Type::Primitive(Primitive::F64)),
        TokenType::Bool => DataType::new(Type::Primitive(Primitive::Bool)),
        TokenType::Str => DataType::new(Type::Primitive(Primitive::String)),
        _ => DataType::new(Type::UnTyped),
    }
}

impl Parser {
    /// `type_hint`: the type named by the current token (untyped for any
    /// other token), which is consumed.
    pub fn type_hint(&mut self) -> (r: TypeHintKey)
        requires
            old(self).wf(),
            readable(old(self).tokens@, old(self).position()),
            old(self).ast@.room(2 * (old(self).tokens@.len() - old(self).position()) + 2),
        ensures
            final(self).tokens@ == old(self).tokens@,
            final(self).position() == next(old(self).tokens@, old(self).position()),
            final(self).error@ == old(self).error@,
            final(self).ast@.extends(old(self).ast@),
            final(self).ast@.wf(),
            final(self).ast@.count() == old(self).ast@.count() + 1,
            !old(self).ast@.type_hints.contains_key(r.id),
            final(self).ast@.type_hints.contains_key(r.id),
            final(self).ast@.type_hints[r.id].type_hint() == type_hint_at(old(self).tokens@, old(self).position()),
            final(self).ast@.var_decls == old(self).ast@.var_decls,
            final(self).ast@.var_assmts == old(self).ast@.var_assmts,
            final(self).ast@.identifiers == old(self).ast@.identifiers,
            tokens_wf(final(self).tokens@),
            0 <= final(self).position() <= final(self).tokens@.len(),
    {
        let data_type = hint_type_of(self.current_type());
        let type_token = self.current_token();
        self.consume();
        let key = self.ast.new_type_hint(TypeHint::new(data_type, type_token));
        key
    }

    /// Records "Expected `what` but got ..." about `token`.
    fn report_expected(&mut self, prefix: &str, token: &Token)
        ensures
            final(self).error@ == old(self).error@.push(
                ReportView {
                    error_type: ErrorType::UnexpectedTokenError,
                    messages: one_message(prefix@ + got_text(*token) + "\""@, token.location_info),
                    hint: None,
                },
            ),
            final(self).tokens == old(self).tokens,
            final(self).ast == old(self).ast,
            final(self).position() == old(self).position(),
    {
        let text = concat3(prefix, got_text_of(token).as_str(), "\"");
        self.report_one(ErrorType::UnexpectedTokenError, text, &token.location_info, None);
    }

    /// Reads an `ID` token into an identifier node; reports it when missing.
    fn identifier(&mut self) -> (r: Option<(String, IdentifierKey)>)
        requires
            old(self).wf(),
            readable(old(self).tokens@, old(self).position()),
            identifier_ok(old(self).tokens@, old(self).position()),
        ensures
            final(self).tokens@ == old(self).tokens@,
            final(self).position() == next(old(self).tokens@, old(self).position()),
            tokens_wf(final(self).tokens@),
            0 <= final(self).position() <= final(self).tokens@.len(),
            final(self).ast@.extends(old(self).ast@),
            final(self).ast@.wf(),
            final(self).ast@.var_decls == old(self).ast@.var_decls,
            final(self).ast@.var_assmts == old(self).ast@.var_assmts,
            check(old(self).tokens@, old(self).position(), TokenType::ID) ==> {
                &&& r.is_some()
                &&& final(self).error@ == old(self).error@
                &&& final(self).ast@.count() == old(self).ast@.count() + 1
                &&& r.unwrap().0 == identifier_at(old(self).tokens@, old(self).position()).name
                &&& final(self).ast@.identifiers.contains_key(r.unwrap().1.id)
                &&& final(self).ast@.identifiers[r.unwrap().1.id].identifier() == identifier_at(
                    old(self).tokens@,
                    old(self).position(),
                )
            },
            !check(old(self).tokens@, old(self).position(), TokenType::ID) ==> {
                &&& r.is_none()
                &&& final(self).error@ == old(self).error@.push(
                    expected_semicolon_report(tok(old(self).tokens@, old(self).position())),
                )
                &&& final(self).ast@ == old(self).ast@
            },
    {
        let ghost ts = self.tokens@;
        let ghost pos = self.position();
        let mut result = None;
        if self.check(TokenType::ID) {
            let id_token = self.current_token();
            match &id_token.lexeme {
                Some(lexeme) => {
                    let key = self.ast.new_identifier(Identifier::new(lexeme.clone(), id_token.clone()));
                    result = Some((lexeme.clone(), key));
                },
                None => unreached(),
            }
        } else {
            let t = self.current_token();
            self.report_expected("Expected \";\" but got \"", &t);
        }
        self.consume();
        result
    }

    /// Reads the token expected at the current position, reporting a
    /// different one that is not the end, and moves past it either way.
    fn expect_semicolon(&mut self)
        requires
            tokens_wf(old(self).tokens@),
            0 <= old(self).position() < old(self).tokens@.len(),
        ensures
            final(self).tokens == old(self).tokens,
            final(self).ast == old(self).ast,
            final(self).position() == next(old(self).tokens@, old(self).position()),
            final(self).error@ == old(self).error@ + report_unless(
                old(self).tokens@,
                old(self).position(),
                TokenType::Semicolon,
                expected_semicolon_report(tok(old(self).tokens@, old(self).position())),
            ),
    {
        if !self.is_at_end() && !self.check(TokenType::Semicolon) {
            let t = self.current_token();
            self.report_expected("Expected \";\" but got \"", &t);
        }
        proof {
            assert(self.error@ =~= old(self).error@ + report_unless(
                old(self).tokens@,
                old(self).position(),
                TokenType::Semicolon,
                expected_semicolon_report(tok(old(self).tokens@, old(self).position())),
            ));
        }
        self.consume();
    }

    /// Reads `:=`, reporting another token that is not the end; returns the
    /// token read.
    fn expect_assign(&mut self) -> (r: Token)
        requires
            tokens_wf(old(self).tokens@),
            0 <= old(self).position() < old(self).tokens@.len(),
        ensures
            r == tok(old(self).tokens@, old(self).position()),
            final(self).tokens == old(self).tokens,
            final(self).ast == old(self).ast,
            final(self).position() == next(old(self).tokens@, old(self).position()),
            final(self).error@ == old(self).error@ + report_unless(
                old(self).tokens@,
                old(self).position(),
                TokenType::Assign,
                assign_hint_report(tok(old(self).tokens@, old(self).position())),
            ),
    {
        let assmt_token = self.current_token();
        if !self.is_at_end() && !self.check(TokenType::Assign) {
            self.report_one(
                ErrorType::UnexpectedTokenError,
                "Did you mean \":=\"?".to_owned(),
                &assmt_token.location_info,
                None,
            );
        }
        proof {
            assert(self.error@ =~= old(self).error@ + report_unless(
                old(self).tokens@,
                old(self).position(),
                TokenType::Assign,
                assign_hint_report(tok(old(self).tokens@, old(self).position())),
            ));
        }
        self.consume();
        assmt_token
    }
}

impl Parser {
    /// Reads `let`, reporting another token that is not the end.
    fn expect_let(&mut self)
        requires
            tokens_wf(old(self).tokens@),
            0 <= old(self).position() < old(self).tokens@.len(),
        ensures
            final(self).tokens == old(self).tokens,
            final(self).ast == old(self).ast,
            final(self).position() == next(old(self).tokens@, old(self).position()),
            final(self).error@ == old(self).error@ + report_unless(
                old(self).tokens@,
                old(self).position(),
                TokenType::Let,
                expected_let_report(tok(old(self).tokens@, old(self).position())),
            ),
    {
        if !self.is_at_end() && !self.check(TokenType::Let) {
            let t = self.current_token();
            self.report_expected("Expected \"let\" but got \"", &t);
        }
        proof {
            assert(self.error@ =~= old(self).error@ + report_unless(
                old(self).tokens@,
                old(self).position(),
                TokenType::Let,
                expected_let_report(tok(old(self).tokens@, old(self).position())),
            ));
        }
        self.consume();
    }

    /// Reads `["(" type_hint ")"]`: when the current token is `(`, the type
    /// hint after it and the `)` after that, which is reported when missing.
    fn optional_type_hint(&mut self) -> (r: Option<TypeHintKey>)
        requires
            old(self).wf(),
            hint_ok(old(self).tokens@, old(self).position()),
        ensures
            final(self).advanced(
                *old(self),
                parse_optional_type_hint(old(self).tokens@, old(self).position()).pos,
                parse_optional_type_hint(old(self).tokens@, old(self).position()).reports,
            ),
            match (r, parse_optional_type_hint(old(self).tokens@, old(self).position()).hint) {
                (None, None) => true,
                (Some(k), Some(h)) => {
                    &&& final(self).ast@.type_hints.contains_key(k.id)
                    &&& final(self).ast@.type_hints[k.id].type_hint() == h
                },
                _ => false,
            },
            check(old(self).tokens@, old(self).position(), TokenType::LeftParen) ==> final(self).potential()
                < old(self).potential(),
            final(self).ast@.count() == old(self).ast@.count() + hint_nodes(old(self).tokens@, old(self).position()),
            final(self).ast@.var_decls == old(self).ast@.var_decls,
            final(self).ast@.var_assmts == old(self).ast@.var_assmts,
            final(self).ast@.identifiers == old(self).ast@.identifiers,
    {
        if self.check(TokenType::LeftParen) {
            let ghost ts = self.tokens@;
            let ghost p3 = self.position();
            let left_paren_location = self.current_token().location_info;
            self.consume();
            let key = self.type_hint();
            let ghost e5 = self.error@;
            if !self.is_at_end() && !self.check(TokenType::RightParen) {
                let t = self.current_token();
                let text = concat3("Expected \")\" after type hint but got \"", got_text_of(&t).as_str(), "\"");
                self.report_two(
                    ErrorType::UnexpectedTokenError,
                    text,
                    &t.location_info,
                    "Un-matched left parenthesis".to_owned(),
                    &left_paren_location,
                    None,
                );
            }
            proof {
                let p5 = next(ts, next(ts, p3));
                assert(self.error@ =~= e5 + report_unless(
                    ts,
                    p5,
                    TokenType::RightParen,
                    unclosed_type_hint_report(tok(ts, p5), tok(ts, p3).location_info),
                ));
            }
            self.consume();
            Some(key)
        } else {
            proof {
                assert(self.error@ =~= old(self).error@ + Seq::<ReportView>::empty());
            }
            None
        }
    }

    /// Reads `":=" expression ";"`; returns the token read in place of `:=`
    /// and the expression.
    fn assignment_tail(&mut self) -> (r: (Token, ExpressionKey))
        requires
            old(self).wf(),
            tail_ok(old(self).tokens@, old(self).position()),
        ensures
            final(self).advanced(
                *old(self),
                parse_assignment_tail(old(self).tokens@, old(self).position()).pos,
                parse_assignment_tail(old(self).tokens@, old(self).position()).reports,
            ),
            r.0 == parse_assignment_tail(old(self).tokens@, old(self).position()).token,
            expr_denotes(final(self).ast@, r.1, parse_assignment_tail(old(self).tokens@, old(self).position()).expression),
            final(self).ast@.count() == old(self).ast@.count() + tail_nodes(old(self).tokens@, old(self).position()),
            final(self).ast@.same_beside_expressions(old(self).ast@),
    {
        let ghost ts = self.tokens@;
        let ghost p = self.position();
        let assmt_token = self.expect_assign();
        let expression = self.expression();
        proof {
            lemma_expression_pos(ts, next(ts, p));
        }
        self.expect_semicolon();
        proof {
            assert(self.error@ =~= old(self).error@ + parse_assignment_tail(ts, p).reports);
        }
        (assmt_token, expression)
    }

    /// `var_decl -> "let" ["mut"] ID ["(" type_hint ")"] ":=" expression ";"`.
    /// Every expected token is consumed whether it is there or not; what is
    /// missing is reported, and without an identifier no declaration is made.
    #[verifier::spinoff_prover]
    #[verifier::rlimit(40)]
    pub fn var_decl(&mut self) -> (r: Option<VariableDeclarationKey>)
        requires
            old(self).wf(),
            decl_ok(old(self).tokens@, old(self).position()),
        ensures
            final(self).read_decl(*old(self), r, parse_var_decl(old(self).tokens@, old(self).position())),
    {
        let ghost ts = self.tokens@;
        let ghost p0 = self.position();
        // "let"
        self.expect_let();
        // ["mut"]
        let mut mutable = false;
        if self.check(TokenType::Mut) {
            mutable = true;
            self.consume();
        }
        let ghost p2 = self.position();
        // ID
        let ident = self.identifier();
        let ghost s3 = *self;
        // ["(" type_hint ")"]
        let type_hint = self.optional_type_hint();
        let ghost h = parse_optional_type_hint(ts, next(ts, p2));
        let ghost s6 = *self;
        // ":=" expression ";"
        let (assmt_token, expression) = self.assignment_tail();
        let ghost t = parse_assignment_tail(ts, h.pos);
        proof {
            assert(self.error@ =~= old(self).error@ + parse_var_decl(ts, p0).reports);
        }
        match ident {
            None => None,
            Some((name, id)) => {
                let ghost a8 = self.ast@;
                let key = self.ast.new_variable_declaration(
                    VariableDeclaration::new(mutable, name, id, type_hint, expression, assmt_token),
                );
                proof {
                    lemma_expr_denotes_extends(a8, self.ast@, expression, t.expression);
                }
                Some(key)
            },
        }
    }

    /// `var_assmt -> ID ":=" expression ";"`, read as forgivingly as a declaration.
    pub fn var_assmt(&mut self) -> (r: Option<VariableAssignmentKey>)
        requires
            old(self).wf(),
            assmt_ok(old(self).tokens@, old(self).position()),
        ensures
            final(self).read_assmt(*old(self), r, parse_var_assmt(old(self).tokens@, old(self).position())),
    {
        let ghost ts = self.tokens@;
        let ghost p2 = self.position();
        // ID
        let ident = self.identifier();
        // ":=" expression ";"
        let (assmt_token, expression) = self.assignment_tail();
        let ghost t = parse_assignment_tail(ts, next(ts, p2));
        proof {
            assert(self.error@ =~= old(self).error@ + parse_var_assmt(ts, p2).reports);
        }
        match ident {
            None => None,
            Some((name, id)) => {
                let ghost a8 = self.ast@;
                let key = self.ast.new_variable_assignment(VariableAssignment::new(name, id, expression, assmt_token));
                proof {
                    lemma_expr_denotes_extends(a8, self.ast@, expression, t.expression);
                }
                Some(key)
            },
        }
    }
}

impl Parser {
    /// `statement -> var_decl | var_assmt`: a declaration when the current
    /// token is `let`, else an assignment.
    pub fn statement(&mut self) -> (r: StatementKey)
        requires
            old(self).wf(),
            statement_ok(old(self).tokens@, old(self).position()),
        ensures
            final(self).advanced(
                *old(self),
                parse_statement(old(self).tokens@, old(self).position()).pos,
                parse_statement(old(self).tokens@, old(self).position()).reports,
            ),
            stmt_denotes(final(self).ast@, r, parse_statement(old(self).tokens@, old(self).position()).tree),
            final(self).ast@.count() == old(self).ast@.count() + statement_nodes(old(self).tokens@, old(self).position()),
            r is NotANode ==> final(self).ast@.var_decls == old(self).ast@.var_decls && final(self).ast@.var_assmts
                == old(self).ast@.var_assmts,
    {
        let token_type = self.current_type();
        if token_type == TokenType::Let {
            match self.var_decl() {
                None => StatementKey::NotANode,
                Some(decl) => StatementKey::VarDecl(decl),
            }
        } else {
            match self.var_assmt() {
                None => StatementKey::NotANode,
                Some(assmt) => StatementKey::VarAssmt(assmt),
            }
        }
    }

    /// Whether the current token starts a statement: `let`, or any token
    /// followed by `:=` or `=`.
    fn at_statement(&self) -> (r: bool)
        requires
            tokens_wf(self.tokens@),
            0 <= self.position() < self.tokens@.len(),
        ensures
            r == starts_statement(self.tokens@, self.position()),
    {
        self.check(TokenType::Let) || self.check_next(TokenType::Assign) || self.check_next(TokenType::BadAssign)
    }

    /// `file -> (statement)* [expression]`: reads the statements at the head of
    /// the input, then an expression, into a new file node.
    #[verifier::spinoff_prover]
    #[verifier::rlimit(50)]
    pub fn parse_file(&mut self) -> (r: FileKey)
        requires
            old(self).wf(),
            file_ok(old(self).tokens@, old(self).position()),
        ensures
            ({
                let p = parse_file(old(self).tokens@, old(self).position());
                &&& final(self).tokens@ == old(self).tokens@
                &&& final(self).position() == p.pos
                &&& final(self).error@ == old(self).error@ + p.reports
                &&& final(self).ast@.extends(old(self).ast@)
                &&& final(self).ast@.wf()
                &&& final(self).potential() <= old(self).potential() + 1
                &&& file_denotes(final(self).ast@, r, p.statements, p.expression)
                &&& !old(self).ast@.files.contains_key(r.id)
                &&& final(self).ast@.count() == old(self).ast@.count() + file_nodes(old(self).tokens@, old(self).position())
            }),
    {
        let ghost ts = self.tokens@;
        let ghost p0 = self.position();
        let ghost before = *old(self);
        let ghost target = file_statements(ts, p0, seq![], seq![]);
        let mut statements: Vec<StatementKey> = Vec::new();
        let ghost mut trees: Seq<StmtTree> = seq![];
        let ghost mut reps: Seq<ReportView> = seq![];
        proof {
            assert(self.error@ =~= before.error@ + reps);
        }
        while !self.is_at_end() && self.at_statement()
            invariant
                self.tokens@ == ts,
                self.wf(),
                self.ast@.extends(before.ast@),
                self.potential() <= before.potential(),
                self.error@ == before.error@ + reps,
                stmts_denote(self.ast@, statements@, trees),
                file_statements(ts, self.position(), trees, reps) == target,
                file_statements_ok(ts, self.position()),
                self.ast@.count() + file_statements_nodes(ts, self.position()) == before.ast@.count()
                    + file_statements_nodes(ts, p0),
                !at_end(ts, target.pos) ==> expression_ok(ts, target.pos),
            decreases ts.len() - self.position(),
        {
            let ghost pos = self.position();
            let ghost a0 = self.ast@;
            let statement = self.statement();
            proof {
                lemma_statement_pos(ts, pos);
                lemma_stmts_denote_extends(a0, self.ast@, statements@, trees);
            }
            let ghost old_keys = statements@;
            statements.push(statement);
            proof {
                let st = parse_statement(ts, pos);
                let new_trees = trees.push(st.tree);
                assert forall|i: int| 0 <= i < statements@.len() implies #[trigger] stmt_denotes(
                    self.ast@,
                    statements@[i],
                    new_trees[i],
                ) by {
                    if i < trees.len() {
                        assert(stmt_denotes(self.ast@, old_keys[i], trees[i]));
                    }
                }
                assert(self.error@ =~= before.error@ + (reps + st.reports));
                trees = new_trees;
                reps = reps + st.reports;
            }
        }
        let ghost a1 = self.ast@;
        let ghost at_the_end = at_end(ts, self.position());
        let ghost e = parse_expression(ts, self.position());
        let mut expression = None;
        if !self.is_at_end() {
            let read = self.expression();
            proof {
                lemma_stmts_denote_extends(a1, self.ast@, statements@, trees);
            }
            if read != ExpressionKey::NotANode {
                expression = Some(read);
            }
        } else {
            proof {
                assert(self.error@ =~= before.error@ + reps);
            }
        }
        let ghost a2 = self.ast@;
        let key = self.ast.new_file(File::new(statements, expression));
        proof {
            lemma_stmts_denote_extends(a2, self.ast@, self.ast@.files[key.id].file().statements@, trees);
            if !at_the_end && e.tree != ExprTree::NotANode {
                lemma_expr_denotes_extends(a2, self.ast@, expression.unwrap(), e.tree);
            }
            assert(self.error@ =~= before.error@ + parse_file(ts, p0).reports);
        }
        key
    }

    /// `repl_commands -> (statement | expression)*`: reads commands until the
    /// end. A command that reads no token would be read again for ever, so the
    /// input must not lead to one.
    #[verifier::spinoff_prover]
    #[verifier::rlimit(50)]
    pub fn parse_repl(&mut self) -> (r: Vec<REPLCommandKey>)
        requires
            old(self).wf(),
            repl_ok(old(self).tokens@, old(self).position()),
            repl_commands(old(self).tokens@, old(self).position(), seq![], seq![]).complete,
        ensures
            ({
                let p = repl_commands(old(self).tokens@, old(self).position(), seq![], seq![]);
                &&& final(self).advanced(*old(self), p.pos, p.reports)
                &&& commands_denote(final(self).ast@, r@, p.commands)
                &&& final(self).ast@.count() == old(self).ast@.count() + repl_nodes(old(self).tokens@, old(self).position())
            }),
            at_end(final(self).tokens@, final(self).position()),
    {
        let ghost ts = self.tokens@;
        let ghost p0 = self.position();
        let ghost before = *old(self);
        let ghost target = repl_commands(ts, p0, seq![], seq![]);
        let mut commands: Vec<REPLCommandKey> = Vec::new();
        let ghost mut trees: Seq<CommandTree> = seq![];
        let ghost mut reps: Seq<ReportView> = seq![];
        proof {
            assert(self.error@ =~= before.error@ + reps);
        }
        while !self.is_at_end()
            invariant
                self.tokens@ == ts,
                self.wf(),
                self.ast@.extends(before.ast@),
                self.potential() <= before.potential(),
                self.error@ == before.error@ + reps,
                commands_denote(self.ast@, commands@, trees),
                repl_commands(ts, self.position(), trees, reps) == target,
                target.complete,
                repl_ok(ts, self.position()),
                self.ast@.count() + repl_nodes(ts, self.position()) == before.ast@.count() + repl_nodes(ts, p0),
            decreases ts.len() - self.position(),
        {
            let ghost pos = self.position();
            let ghost a0 = self.ast@;
            let ghost mut tree: CommandTree = CommandTree::Expr(ExprTree::NotANode);
            let ghost mut reads: Seq<ReportView> = seq![];
            let command = if self.at_statement() {
                let s = self.statement();
                proof {
                    lemma_statement_pos(ts, pos);
                    tree = CommandTree::Stmt(parse_statement(ts, pos).tree);
                    reads = parse_statement(ts, pos).reports;
                }
                REPLCommandKey::Stmt(s)
            } else {
                let e = self.expression();
                proof {
                    lemma_expression_pos(ts, pos);
                    tree = CommandTree::Expr(parse_expression(ts, pos).tree);
                    reads = parse_expression(ts, pos).reports;
                }
                REPLCommandKey::Expr(e)
            };
            proof {
                lemma_commands_denote_extends(a0, self.ast@, commands@, trees);
            }
            let ghost old_keys = commands@;
            commands.push(command);
            proof {
                let new_trees = trees.push(tree);
                assert forall|i: int| 0 <= i < commands@.len() implies #[trigger] command_denotes(
                    self.ast@,
                    commands@[i],
                    new_trees[i],
                ) by {
                    if i < trees.len() {
                        assert(command_denotes(self.ast@, old_keys[i], trees[i]));
                    }
                }
                assert(self.error@ =~= before.error@ + (reps + reads));
                trees = new_trees;
                reps = reps + reads;
            }
        }
        proof {
            lemma_repl_reads_to_end(ts, p0, seq![], seq![]);
        }
        commands
    }
}

impl Parser {
    /// Parses the whole input into the tree's root: REPL commands are
    /// appended to a REPL root (which then records where the new ones start,
    /// and that it changed); a file becomes the file of a file root.
    pub fn parse(&mut self)
        requires
            old(self).wf(),
            old(self).ast@.root is REPL ==> repl_commands(old(self).tokens@, old(self).position(), seq![], seq![]).complete
                && repl_ok(old(self).tokens@, old(self).position()),
            old(self).ast@.root is File ==> file_ok(old(self).tokens@, old(self).position()),
        ensures
            final(self).tokens@ == old(self).tokens@,
            final(self).ast@.wf(),
            final(self).ast@.root == old(self).ast@.root,
            final(self).ast@.extends_below_root(old(self).ast@),
            match old(self).ast@.root {
                RootKey::REPL(k) => {
                    let p = repl_commands(old(self).tokens@, old(self).position(), seq![], seq![]);
                    let before = old(self).ast@.repl_roots[k.id].repl_root();
                    let after = final(self).ast@.repl_roots[k.id].repl_root();
                    let n = before.commands@.len();
                    &&& final(self).position() == p.pos
                    &&& final(self).error@ == old(self).error@ + p.reports
                    &&& final(self).ast@.repl_roots.contains_key(k.id)
                    &&& after.commands@.len() == n + p.commands.len()
                    &&& after.commands@.take(n as int) == before.commands@
                    &&& commands_denote(final(self).ast@, after.commands@.skip(n as int), p.commands)
                    &&& after.new_commands_start_at == n
                    &&& after.ast_has_been_changed
                    &&& final(self).ast@.changed()
                    &&& at_end(final(self).tokens@, final(self).position())
                    &&& final(self).ast@.count() == old(self).ast@.count() + repl_nodes(old(self).tokens@, old(self).position())
                },
                RootKey::File(k) => {
                    let p = parse_file(old(self).tokens@, old(self).position());
                    let after = final(self).ast@.file_roots[k.id].file_root();
                    &&& final(self).position() == p.pos
                    &&& final(self).error@ == old(self).error@ + p.reports
                    &&& final(self).ast@.file_roots.contains_key(k.id)
                    &&& after.file.is_some()
                    &&& !old(self).ast@.files.contains_key(after.file.unwrap().id)
                    &&& file_denotes(final(self).ast@, after.file.unwrap(), p.statements, p.expression)
                    &&& final(self).ast@.count() == old(self).ast@.count() + file_nodes(old(self).tokens@, old(self).position())
                },
            },
    {
        match self.ast.root {
            RootKey::REPL(repl_root) => {
                let commands = self.parse_repl();
                let ghost a1 = self.ast@;
                let ghost keys = commands@;
                let root = self.ast.get_repl_root_mut(repl_root);
                root.add_commands(commands);
                proof {
                    let p = repl_commands(old(self).tokens@, old(self).position(), seq![], seq![]);
                    let after = self.ast@.repl_roots[repl_root.id].repl_root();
                    let n = a1.repl_roots[repl_root.id].repl_root().commands@.len();
                    assert(after.commands@.skip(n as int) =~= keys);
                    lemma_commands_denote_extends(a1, self.ast@, keys, p.commands);
                }
            },
            RootKey::File(file_root) => {
                let file = self.parse_file();
                let ghost a1 = self.ast@;
                let root = self.ast.get_file_root_mut(file_root);
                root.set_file(file);
                proof {
                    let p = parse_file(old(self).tokens@, old(self).position());
                    lemma_stmts_denote_extends(a1, self.ast@, a1.files[file.id].file().statements@, p.statements);
                    if p.expression.is_some() {
                        lemma_expr_denotes_extends(a1, self.ast@, a1.files[file.id].file().expression.unwrap(), p.expression.unwrap());
                    }
                }
            },
        }
    }
}

} // verus!
