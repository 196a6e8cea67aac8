//! What the printers make of an expression that the parser built: its code
//! and its outline follow from the parsed tree alone.
use crate::ast::AstView;
use crate::denote::{command_denotes, commands_denote, expr_denotes, file_denotes, stmt_denotes, stmts_denote};
use crate::display::{
    binary_operator_text, expr_bounded, expr_code, expr_code_within, expr_printable, expr_symbol_free,
    expr_symbol_free_within, expr_text, expr_text_within, lemma_expr_any_fuel, lemma_expr_fuel, line,
    literal_value_text, type_suffix, unary_operator_text, variable_node_text,
};
use crate::grammar::{AssmtTree, CommandTree, DeclTree, ExprTree, StmtTree};
use crate::nodes::{untyped, ExpressionKey, FileRoot, REPLCommandKey, REPLRoot, StatementKey, UnaryOperator};
use crate::outline::{
    command_code, command_printable, command_symbol_free, command_text, commands_code, commands_text,
    file_printable, file_root_code, file_root_printable, file_root_symbol_free, file_root_text,
    file_symbol_free, repl_root_code, repl_root_printable, repl_root_symbol_free, repl_root_text,
    stmt_code, stmt_printable, stmt_symbol_free, stmt_text, stmts_code, stmts_text,
};
use crate::types::type_label;
use vstd::prelude::*;

verus! {

/// The number of operator nodes on the longest path down a tree.
pub open spec fn tree_height(t: ExprTree) -> nat
    decreases t,
{
    match t {
        ExprTree::Binary { left, right, .. } => {
            let l = tree_height(*left);
            let r = tree_height(*right);
            1 + if l < r {
                r
            } else {
                l
            }
        },
        ExprTree::Unary { operand, .. } => 1 + tree_height(*operand),
        _ => 0,
    }
}

/// The code that `to_code` writes for a tree: `left op right;`, `op operand;`,
/// a name or a literal's value; nothing where no expression was read.
pub open spec fn tree_code(t: ExprTree) -> Seq<char>
    decreases t,
{
    match t {
        ExprTree::NotANode => seq![],
        ExprTree::Binary { operator, left, right, .. } => tree_code(*left) + " "@ + binary_operator_text(operator)
            + " "@ + tree_code(*right) + ";"@,
        ExprTree::Unary { operator, operand, .. } => unary_operator_text(operator) + tree_code(*operand) + ";"@,
        ExprTree::Variable { name, .. } => name@,
        ExprTree::Literal { value, .. } => literal_value_text(value),
    }
}

/// The outline that `to_string_with_level` writes for a freshly parsed tree:
/// one line per node, each child one tab deeper than its parent.
pub open spec fn tree_text(t: ExprTree, level: nat) -> Seq<char>
    decreases t,
{
    match t {
        ExprTree::NotANode => seq![],
        ExprTree::Binary { operator, left, right, .. } => line(level, "{"@ + binary_operator_text(operator) + "}"@)
            + tree_text(*left, level + 1) + tree_text(*right, level + 1),
        ExprTree::Unary { operator, operand, .. } => line(
            level,
            "{"@ + (if operator == UnaryOperator::Minus {
                "unary "@
            } else {
                ""@
            }) + unary_operator_text(operator) + "}"@,
        ) + tree_text(*operand, level + 1),
        ExprTree::Variable { name, .. } => line(level, variable_node_text(name@, untyped())),
        ExprTree::Literal { value, .. } => line(level, "{"@ + literal_value_text(value) + "}"@),
    }
}

proof fn lemma_denoted_within(v: AstView, key: ExpressionKey, t: ExprTree, level: nat)
    requires
        expr_denotes(v, key, t),
    ensures
        expr_bounded(v, key, tree_height(t)),
        expr_symbol_free_within(v, key, tree_height(t)),
        expr_code_within(v, key, tree_height(t)) == tree_code(t),
        expr_text_within(v, key, level, tree_height(t)) == tree_text(t, level),
    decreases t,
{
    let h = tree_height(t);
    assert(type_suffix(untyped()) =~= Seq::<char>::empty());
    match t {
        ExprTree::Binary { operator, token, left, right } => {
            let n = v.binaries[key->Binary_0.id].binary();
            lemma_denoted_within(v, n.left, *left, level + 1);
            lemma_denoted_within(v, n.right, *right, level + 1);
            lemma_expr_fuel(v, n.left, tree_height(*left), (h - 1) as nat, level + 1);
            lemma_expr_fuel(v, n.right, tree_height(*right), (h - 1) as nat, level + 1);
            assert("{"@ + binary_operator_text(operator) + type_suffix(untyped()) + "}"@ =~= "{"@
                + binary_operator_text(operator) + "}"@);
        },
        ExprTree::Unary { operator, token, operand } => {
            let n = v.unaries[key->Unary_0.id].unary();
            lemma_denoted_within(v, n.operand, *operand, level + 1);
            let prefix = if operator == UnaryOperator::Minus {
                "unary "@
            } else {
                ""@
            };
            assert("{"@ + prefix + unary_operator_text(operator) + type_suffix(untyped()) + "}"@ =~= "{"@ + prefix
                + unary_operator_text(operator) + "}"@);
        },
        ExprTree::Literal { value, token } => {
            assert("{"@ + literal_value_text(value) + type_suffix(untyped()) + "}"@ =~= "{"@ + literal_value_text(
                value,
            ) + "}"@);
        },
        _ => {},
    }
}

/// An expression that the parser built can be printed from any level that
/// leaves room for its depth, and it prints as its parsed tree: the outline
/// and the code depend on the tree alone.
pub proof fn lemma_parsed_expression_prints(v: AstView, key: ExpressionKey, t: ExprTree, level: nat)
    requires
        expr_denotes(v, key, t),
        level + tree_height(t) <= usize::MAX,
    ensures
        expr_printable(v, key, level as int),
        expr_symbol_free(v, key),
        expr_text(v, key, level) == tree_text(t, level),
        expr_code(v, key) == tree_code(t),
{
    lemma_denoted_within(v, key, t, level);
    lemma_expr_any_fuel(v, key, tree_height(t), level);
}

// ---------------------------------------------------------------------------
// Statements, files and REPL input
// ---------------------------------------------------------------------------

/// The height of the expression of a statement.
pub open spec fn stmt_height(t: StmtTree) -> nat {
    match t {
        StmtTree::VarDecl(d) => tree_height(d.expression),
        StmtTree::VarAssmt(a) => tree_height(a.expression),
        StmtTree::NotANode => 0,
    }
}

pub open spec fn command_height(t: CommandTree) -> nat {
    match t {
        CommandTree::Stmt(s) => stmt_height(s),
        CommandTree::Expr(e) => tree_height(e),
    }
}

pub open spec fn decl_tree_code(d: DeclTree) -> Seq<char> {
    "let"@ + (if d.mutable {
        " (mut)"@
    } else {
        seq![]
    }) + " "@ + d.identifier.name@ + match d.type_hint {
        Some(th) => " "@ + type_label(th.data_type.data_type),
        None => seq![],
    } + " := "@ + tree_code(d.expression) + ";"@
}

pub open spec fn assmt_tree_code(a: AssmtTree) -> Seq<char> {
    a.identifier.name@ + " := "@ + tree_code(a.expression) + ";"@
}

/// The code of a parsed statement; nothing where none could be read.
pub open spec fn stmt_tree_code(t: StmtTree) -> Seq<char> {
    match t {
        StmtTree::VarDecl(d) => decl_tree_code(d),
        StmtTree::VarAssmt(a) => assmt_tree_code(a),
        StmtTree::NotANode => seq![],
    }
}

pub open spec fn stmts_tree_code(ts: Seq<StmtTree>) -> Seq<char>
    decreases ts.len(),
{
    if ts.len() == 0 {
        seq![]
    } else {
        stmts_tree_code(ts.drop_last()) + stmt_tree_code(ts.last())
    }
}

pub open spec fn decl_tree_text(d: DeclTree, level: nat) -> Seq<char> {
    line(level, "{Declaration"@ + (if d.mutable {
        " (mut)"@
    } else {
        ""@
    }) + "}"@) + line(level + 1, "{ID: "@ + d.identifier.name@ + "}"@) + match d.type_hint {
        Some(th) => " "@ + line(level + 1, "{Type: "@ + type_label(th.data_type.data_type) + "}"@),
        None => seq![],
    } + tree_text(d.expression, level + 1)
}

pub open spec fn assmt_tree_text(a: AssmtTree, level: nat) -> Seq<char> {
    line(level, "{Assignment}"@) + line(level + 1, "{ID: "@ + a.identifier.name@ + "}"@) + tree_text(
        a.expression,
        level + 1,
    )
}

/// The outline of a parsed statement; nothing where none could be read.
pub open spec fn stmt_tree_text(t: StmtTree, level: nat) -> Seq<char> {
    match t {
        StmtTree::VarDecl(d) => decl_tree_text(d, level),
        StmtTree::VarAssmt(a) => assmt_tree_text(a, level),
        StmtTree::NotANode => seq![],
    }
}

pub open spec fn stmts_tree_text(ts: Seq<StmtTree>, level: nat) -> Seq<char>
    decreases ts.len(),
{
    if ts.len() == 0 {
        seq![]
    } else {
        stmts_tree_text(ts.drop_last(), level) + stmt_tree_text(ts.last(), level)
    }
}

/// The code of a parsed file: `{File}`, its statements, its expression.
pub open spec fn file_tree_code(statements: Seq<StmtTree>, expression: Option<ExprTree>) -> Seq<char> {
    "{File}"@ + stmts_tree_code(statements) + match expression {
        Some(e) => tree_code(e),
        None => seq![],
    }
}

/// The outline of a parsed file: `{File}`, then its statements and its
/// expression one level down.
pub open spec fn file_tree_text(statements: Seq<StmtTree>, expression: Option<ExprTree>, level: nat) -> Seq<char> {
    "{File}"@ + "\n"@ + stmts_tree_text(statements, level + 1) + match expression {
        Some(e) => tree_text(e, level + 1),
        None => seq![],
    }
}

pub open spec fn command_tree_code(t: CommandTree) -> Seq<char> {
    match t {
        CommandTree::Stmt(s) => stmt_tree_code(s),
        CommandTree::Expr(e) => tree_code(e),
    }
}

pub open spec fn command_tree_text(t: CommandTree, level: nat) -> Seq<char> {
    match t {
        CommandTree::Stmt(s) => stmt_tree_text(s, level),
        CommandTree::Expr(e) => tree_text(e, level),
    }
}

pub open spec fn commands_tree_code(ts: Seq<CommandTree>) -> Seq<char>
    decreases ts.len(),
{
    if ts.len() == 0 {
        seq![]
    } else {
        commands_tree_code(ts.drop_last()) + command_tree_code(ts.last())
    }
}

pub open spec fn commands_tree_text(ts: Seq<CommandTree>, level: nat) -> Seq<char>
    decreases ts.len(),
{
    if ts.len() == 0 {
        seq![]
    } else {
        commands_tree_text(ts.drop_last(), level) + command_tree_text(ts.last(), level)
    }
}

/// A statement that the parser built can be printed from any level that
/// leaves room for its depth, and prints as its parsed tree.
pub proof fn lemma_parsed_statement_prints(v: AstView, key: StatementKey, t: StmtTree, level: nat)
    requires
        stmt_denotes(v, key, t),
        level + 1 + stmt_height(t) <= usize::MAX,
    ensures
        stmt_printable(v, key, level as int),
        stmt_symbol_free(v, key),
        stmt_code(v, key) == stmt_tree_code(t),
        stmt_text(v, key, level) == stmt_tree_text(t, level),
{
    match t {
        StmtTree::VarDecl(d) => {
            let n = v.var_decls[key->VarDecl_0.id].var_decl();
            lemma_parsed_expression_prints(v, n.expression, d.expression, level + 1);
        },
        StmtTree::VarAssmt(a) => {
            let n = v.var_assmts[key->VarAssmt_0.id].var_assmt();
            lemma_parsed_expression_prints(v, n.expression, a.expression, level + 1);
        },
        StmtTree::NotANode => {},
    }
}

proof fn lemma_parsed_statements_print(v: AstView, keys: Seq<StatementKey>, ts: Seq<StmtTree>, level: nat)
    requires
        stmts_denote(v, keys, ts),
        forall|i: int| 0 <= i < ts.len() ==> level + 1 + #[trigger] stmt_height(ts[i]) <= usize::MAX,
    ensures
        forall|i: int| #![trigger keys[i]] 0 <= i < keys.len() ==> stmt_printable(v, keys[i], level as int),
        forall|i: int| 0 <= i < keys.len() ==> #[trigger] stmt_symbol_free(v, keys[i]),
        stmts_code(v, keys) == stmts_tree_code(ts),
        stmts_text(v, keys, level) == stmts_tree_text(ts, level),
    decreases keys.len(),
{
    assert forall|i: int| 0 <= i < keys.len() implies stmt_printable(v, keys[i], level as int) && stmt_symbol_free(
        v,
        keys[i],
    ) by {
        assert(stmt_denotes(v, keys[i], ts[i]));
        lemma_parsed_statement_prints(v, keys[i], ts[i], level);
    }
    if keys.len() > 0 {
        let last = keys.len() - 1;
        assert(stmt_denotes(v, keys[last], ts[last]));
        lemma_parsed_statement_prints(v, keys[last], ts[last], level);
        assert forall|i: int| 0 <= i < keys.drop_last().len() implies #[trigger] stmt_denotes(
            v,
            keys.drop_last()[i],
            ts.drop_last()[i],
        ) by {
            assert(stmt_denotes(v, keys[i], ts[i]));
        }
        assert forall|i: int| 0 <= i < ts.drop_last().len() implies level + 1 + #[trigger] stmt_height(
            ts.drop_last()[i],
        ) <= usize::MAX by {
            assert(level + 1 + stmt_height(ts[i]) <= usize::MAX);
        }
        lemma_parsed_statements_print(v, keys.drop_last(), ts.drop_last(), level);
    }
}

/// A file that the parser built can be printed from any level that leaves
/// room for its depth, and prints as its parsed statements and expression.
pub proof fn lemma_parsed_file_prints(
    v: AstView,
    root: FileRoot,
    statements: Seq<StmtTree>,
    expression: Option<ExprTree>,
    level: nat,
)
    requires
        root.file.is_some(),
        file_denotes(v, root.file.unwrap(), statements, expression),
        level + 2 <= usize::MAX,
        forall|i: int| 0 <= i < statements.len() ==> level + 3 + #[trigger] stmt_height(statements[i]) <= usize::MAX,
        expression matches Some(e) ==> level + 2 + tree_height(e) <= usize::MAX,
    ensures
        file_root_printable(v, root, level as int),
        file_root_symbol_free(v, root),
        file_root_code(v, root) == file_tree_code(statements, expression),
        file_root_text(v, root, level) == "{FileRoot}"@ + "\n"@ + file_tree_text(statements, expression, level + 1),
{
    let f = v.files[root.file.unwrap().id].file();
    lemma_parsed_statements_print(v, f.statements@, statements, level + 2);
    assert forall|i: int| #![trigger f.statements@[i]] 0 <= i < f.statements@.len() implies stmt_printable(
        v,
        f.statements@[i],
        (level + 2) as int,
    ) by {}
    match expression {
        Some(e) => {
            lemma_parsed_expression_prints(v, f.expression.unwrap(), e, level + 2);
        },
        None => {},
    }
    assert(file_printable(v, f, (level + 1) as int));
    assert(file_symbol_free(v, f));
}

/// A REPL command that the parser built prints as its parsed tree.
pub proof fn lemma_parsed_command_prints(v: AstView, key: REPLCommandKey, t: CommandTree, level: nat)
    requires
        command_denotes(v, key, t),
        level + 1 + command_height(t) <= usize::MAX,
    ensures
        command_printable(v, key, level as int),
        command_symbol_free(v, key),
        command_code(v, key) == command_tree_code(t),
        command_text(v, key, level) == command_tree_text(t, level),
{
    match t {
        CommandTree::Stmt(s) => lemma_parsed_statement_prints(v, key->Stmt_0, s, level),
        CommandTree::Expr(e) => lemma_parsed_expression_prints(v, key->Expr_0, e, level),
    }
}

proof fn lemma_parsed_commands_print(v: AstView, keys: Seq<REPLCommandKey>, ts: Seq<CommandTree>, level: nat)
    requires
        commands_denote(v, keys, ts),
        forall|i: int| 0 <= i < ts.len() ==> level + 1 + #[trigger] command_height(ts[i]) <= usize::MAX,
    ensures
        forall|i: int| #![trigger keys[i]] 0 <= i < keys.len() ==> command_printable(v, keys[i], level as int),
        forall|i: int| 0 <= i < keys.len() ==> #[trigger] command_symbol_free(v, keys[i]),
        commands_code(v, keys) == commands_tree_code(ts),
        commands_text(v, keys, level) == commands_tree_text(ts, level),
    decreases keys.len(),
{
    assert forall|i: int| 0 <= i < keys.len() implies command_printable(v, keys[i], level as int)
        && command_symbol_free(v, keys[i]) by {
        assert(command_denotes(v, keys[i], ts[i]));
        lemma_parsed_command_prints(v, keys[i], ts[i], level);
    }
    if keys.len() > 0 {
        let last = keys.len() - 1;
        assert(command_denotes(v, keys[last], ts[last]));
        lemma_parsed_command_prints(v, keys[last], ts[last], level);
        assert forall|i: int| 0 <= i < keys.drop_last().len() implies #[trigger] command_denotes(
            v,
            keys.drop_last()[i],
            ts.drop_last()[i],
        ) by {
            assert(command_denotes(v, keys[i], ts[i]));
        }
        assert forall|i: int| 0 <= i < ts.drop_last().len() implies level + 1 + #[trigger] command_height(
            ts.drop_last()[i],
        ) <= usize::MAX by {
            assert(level + 1 + command_height(ts[i]) <= usize::MAX);
        }
        lemma_parsed_commands_print(v, keys.drop_last(), ts.drop_last(), level);
    }
}

/// A REPL root whose commands the parser built prints as the parsed commands.
pub proof fn lemma_parsed_repl_prints(v: AstView, root: REPLRoot, commands: Seq<CommandTree>, level: nat)
    requires
        commands_denote(v, root.commands@, commands),
        forall|i: int| 0 <= i < commands.len() ==> level + 2 + #[trigger] command_height(commands[i]) <= usize::MAX,
    ensures
        repl_root_printable(v, root, level as int),
        repl_root_symbol_free(v, root),
        repl_root_code(v, root) == "{REPLRoot}"@ + commands_tree_code(commands),
        repl_root_text(v, root, level) == "{REPLRoot}"@ + "\n"@ + commands_tree_text(commands, level + 1),
{
    lemma_parsed_commands_print(v, root.commands@, commands, level + 1);
    assert forall|i: int| #![trigger root.commands@[i]] 0 <= i < root.commands@.len() implies command_printable(
        v,
        root.commands@[i],
        (level + 1) as int,
    ) by {}
}

} // verus!
