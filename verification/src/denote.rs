//! When a key of an AST stands for a tree that the grammar describes.
use crate::ast::AstView;
use crate::grammar::{AssmtTree, CommandTree, DeclTree, ExprTree, StmtTree};
use crate::nodes::{
    untyped, ExpressionKey, FileKey, REPLCommandKey, StatementKey, VariableAssignmentKey,
    VariableDeclarationKey,
};
use vstd::prelude::*;

verus! {

/// `key` reaches, in `v`, nodes that spell out the tree `t`, each freshly
/// built (untyped, with no symbol).
pub open spec fn expr_denotes(v: AstView, key: ExpressionKey, t: ExprTree) -> bool
    decreases t,
{
    match t {
        ExprTree::NotANode => key == ExpressionKey::NotANode,
        ExprTree::Binary { operator, token, left, right } => match key {
            ExpressionKey::Binary(k) => {
                &&& v.binaries.contains_key(k.id)
                &&& v.binaries[k.id].binary().operator == operator
                &&& v.binaries[k.id].binary().token == token
                &&& v.binaries[k.id].binary().data_type == untyped()
                &&& expr_denotes(v, v.binaries[k.id].binary().left, *left)
                &&& expr_denotes(v, v.binaries[k.id].binary().right, *right)
            },
            _ => false,
        },
        ExprTree::Unary { operator, token, operand } => match key {
            ExpressionKey::Unary(k) => {
                &&& v.unaries.contains_key(k.id)
                &&& v.unaries[k.id].unary().operator == operator
                &&& v.unaries[k.id].unary().token == token
                &&& v.unaries[k.id].unary().data_type == untyped()
                &&& expr_denotes(v, v.unaries[k.id].unary().operand, *operand)
            },
            _ => false,
        },
        ExprTree::Variable { name, token } => match key {
            ExpressionKey::Variable(k) => {
                &&& v.variables.contains_key(k.id)
                &&& v.variables[k.id].variable().name == name
                &&& v.variables[k.id].variable().token == token
                &&& v.variables[k.id].variable().symbol.is_none()
            },
            _ => false,
        },
        ExprTree::Literal { value, token } => match key {
            ExpressionKey::Literal(k) => {
                &&& v.literals.contains_key(k.id)
                &&& v.literals[k.id].literal().value == value
                &&& v.literals[k.id].literal().token == token
                &&& v.literals[k.id].literal().data_type == untyped()
            },
            _ => false,
        },
    }
}

/// Adding nodes to an AST keeps what its keys stand for.
pub proof fn lemma_expr_denotes_extends(v1: AstView, v2: AstView, key: ExpressionKey, t: ExprTree)
    requires
        v2.extends_below_root(v1),
        expr_denotes(v1, key, t),
    ensures
        expr_denotes(v2, key, t),
    decreases t,
{
    match t {
        ExprTree::Binary { operator, token, left, right } => {
            let k = key->Binary_0;
            assert(v1.binaries.contains_key(k.id));
            assert(v2.binaries[k.id] == v1.binaries[k.id]);
            lemma_expr_denotes_extends(v1, v2, v1.binaries[k.id].binary().left, *left);
            lemma_expr_denotes_extends(v1, v2, v1.binaries[k.id].binary().right, *right);
        },
        ExprTree::Unary { operator, token, operand } => {
            let k = key->Unary_0;
            assert(v1.unaries.contains_key(k.id));
            assert(v2.unaries[k.id] == v1.unaries[k.id]);
            lemma_expr_denotes_extends(v1, v2, v1.unaries[k.id].unary().operand, *operand);
        },
        ExprTree::Variable { .. } => {
            let k = key->Variable_0;
            assert(v1.variables.contains_key(k.id));
            assert(v2.variables[k.id] == v1.variables[k.id]);
        },
        ExprTree::Literal { .. } => {
            let k = key->Literal_0;
            assert(v1.literals.contains_key(k.id));
            assert(v2.literals[k.id] == v1.literals[k.id]);
        },
        ExprTree::NotANode => {},
    }
}

/// `k` is a declaration node that spells out `d`.
pub open spec fn decl_denotes(v: AstView, k: VariableDeclarationKey, d: DeclTree) -> bool {
    &&& v.var_decls.contains_key(k.id)
    &&& v.var_decls[k.id].var_decl().mutable == d.mutable
    &&& v.var_decls[k.id].var_decl().name == d.name
    &&& v.var_decls[k.id].var_decl().token == d.token
    &&& v.var_decls[k.id].var_decl().symbol.is_none()
    &&& v.identifiers.contains_key(v.var_decls[k.id].var_decl().identifier.id)
    &&& v.identifiers[v.var_decls[k.id].var_decl().identifier.id].identifier() == d.identifier
    &&& match d.type_hint {
        None => v.var_decls[k.id].var_decl().type_hint.is_none(),
        Some(th) => {
            &&& v.var_decls[k.id].var_decl().type_hint.is_some()
            &&& v.type_hints.contains_key(v.var_decls[k.id].var_decl().type_hint.unwrap().id)
            &&& v.type_hints[v.var_decls[k.id].var_decl().type_hint.unwrap().id].type_hint() == th
        },
    }
    &&& expr_denotes(v, v.var_decls[k.id].var_decl().expression, d.expression)
}

/// `k` is an assignment node that spells out `a`.
pub open spec fn assmt_denotes(v: AstView, k: VariableAssignmentKey, a: AssmtTree) -> bool {
    &&& v.var_assmts.contains_key(k.id)
    &&& v.var_assmts[k.id].var_assmt().name == a.name
    &&& v.var_assmts[k.id].var_assmt().token == a.token
    &&& v.var_assmts[k.id].var_assmt().symbol.is_none()
    &&& v.identifiers.contains_key(v.var_assmts[k.id].var_assmt().identifier.id)
    &&& v.identifiers[v.var_assmts[k.id].var_assmt().identifier.id].identifier() == a.identifier
    &&& expr_denotes(v, v.var_assmts[k.id].var_assmt().expression, a.expression)
}

pub open spec fn stmt_denotes(v: AstView, key: StatementKey, t: StmtTree) -> bool {
    match t {
        StmtTree::NotANode => key == StatementKey::NotANode,
        StmtTree::VarDecl(d) => match key {
            StatementKey::VarDecl(k) => decl_denotes(v, k, d),
            _ => false,
        },
        StmtTree::VarAssmt(a) => match key {
            StatementKey::VarAssmt(k) => assmt_denotes(v, k, a),
            _ => false,
        },
    }
}

pub open spec fn stmts_denote(v: AstView, keys: Seq<StatementKey>, ts: Seq<StmtTree>) -> bool {
    &&& keys.len() == ts.len()
    &&& forall|i: int| 0 <= i < keys.len() ==> #[trigger] stmt_denotes(v, keys[i], ts[i])
}

pub open spec fn command_denotes(v: AstView, key: REPLCommandKey, t: CommandTree) -> bool {
    match t {
        CommandTree::Stmt(s) => match key {
            REPLCommandKey::Stmt(k) => stmt_denotes(v, k, s),
            _ => false,
        },
        CommandTree::Expr(e) => match key {
            REPLCommandKey::Expr(k) => expr_denotes(v, k, e),
            _ => false,
        },
    }
}

pub open spec fn commands_denote(v: AstView, keys: Seq<REPLCommandKey>, ts: Seq<CommandTree>) -> bool {
    &&& keys.len() == ts.len()
    &&& forall|i: int| 0 <= i < keys.len() ==> #[trigger] command_denotes(v, keys[i], ts[i])
}

/// `k` is a file node with the statements and trailing expression given.
pub open spec fn file_denotes(v: AstView, k: FileKey, statements: Seq<StmtTree>, expression: Option<ExprTree>) -> bool {
    &&& v.files.contains_key(k.id)
    &&& stmts_denote(v, v.files[k.id].file().statements@, statements)
    &&& match expression {
        None => v.files[k.id].file().expression.is_none(),
        Some(e) => {
            &&& v.files[k.id].file().expression.is_some()
            &&& expr_denotes(v, v.files[k.id].file().expression.unwrap(), e)
        },
    }
}

pub proof fn lemma_stmt_denotes_extends(v1: AstView, v2: AstView, key: StatementKey, t: StmtTree)
    requires
        v2.extends_below_root(v1),
        stmt_denotes(v1, key, t),
    ensures
        stmt_denotes(v2, key, t),
{
    match t {
        StmtTree::VarDecl(d) => {
            let k = key->VarDecl_0;
            assert(v1.var_decls.contains_key(k.id));
            let n = v1.var_decls[k.id].var_decl();
            assert(v1.identifiers.contains_key(n.identifier.id));
            if d.type_hint.is_some() {
                assert(v1.type_hints.contains_key(n.type_hint.unwrap().id));
            }
            lemma_expr_denotes_extends(v1, v2, n.expression, d.expression);
        },
        StmtTree::VarAssmt(a) => {
            let k = key->VarAssmt_0;
            assert(v1.var_assmts.contains_key(k.id));
            let n = v1.var_assmts[k.id].var_assmt();
            assert(v1.identifiers.contains_key(n.identifier.id));
            lemma_expr_denotes_extends(v1, v2, n.expression, a.expression);
        },
        StmtTree::NotANode => {},
    }
}

pub proof fn lemma_stmts_denote_extends(v1: AstView, v2: AstView, keys: Seq<StatementKey>, ts: Seq<StmtTree>)
    requires
        v2.extends_below_root(v1),
        stmts_denote(v1, keys, ts),
    ensures
        stmts_denote(v2, keys, ts),
{
    assert forall|i: int| 0 <= i < keys.len() implies #[trigger] stmt_denotes(v2, keys[i], ts[i]) by {
        lemma_stmt_denotes_extends(v1, v2, keys[i], ts[i]);
    }
}

pub proof fn lemma_commands_denote_extends(v1: AstView, v2: AstView, keys: Seq<REPLCommandKey>, ts: Seq<CommandTree>)
    requires
        v2.extends_below_root(v1),
        commands_denote(v1, keys, ts),
    ensures
        commands_denote(v2, keys, ts),
{
    assert forall|i: int| 0 <= i < keys.len() implies #[trigger] command_denotes(v2, keys[i], ts[i]) by {
        assert(command_denotes(v1, keys[i], ts[i]));
        match ts[i] {
            CommandTree::Stmt(s) => {
                let k = keys[i]->Stmt_0;
                assert(stmt_denotes(v1, k, s));
                lemma_stmt_denotes_extends(v1, v2, k, s);
            },
            CommandTree::Expr(e) => {
                let k = keys[i]->Expr_0;
                assert(expr_denotes(v1, k, e));
                lemma_expr_denotes_extends(v1, v2, k, e);
            },
        }
    }
}

} // verus!
