//! How statements, files, roots and any node print themselves, down through
//! the nodes their keys reach in an `AST`.
use crate::ast::{AstView, AST};
use crate::display::{
    binary_node_text, binary_operator_text, declaration_node_text, expr_bounded, expr_code,
    expr_printable, expr_symbol_free, expr_text, expression_to_code, expression_to_string,
    identifier_node_text, line, literal_node_text, literal_value_text, type_hint_node_text,
    unary_node_text, unary_operator_text, variable_node_text, expr_outline, binary_outline, unary_outline,
};
use crate::nodes::{
    ASTNode, Expression, ExpressionKey, File, FileRoot, REPLCommand, REPLCommandKey, REPLRoot,
    Root, Statement, StatementKey, VariableAssignment, VariableDeclaration, VariableExpression,
};
use crate::types::{type_label, DataType, Type};
use vstd::prelude::*;

verus! {

// ---------------------------------------------------------------------------
// Outlines whatever the symbols hold
// ---------------------------------------------------------------------------

/// The pieces of `ps` one after the other.
pub open spec fn concat_all(ps: Seq<Seq<char>>) -> Seq<char>
    decreases ps.len(),
{
    if ps.len() == 0 {
        seq![]
    } else {
        concat_all(ps.drop_last()) + ps.last()
    }
}

pub proof fn lemma_concat_all_push(ps: Seq<Seq<char>>, x: Seq<char>)
    ensures
        concat_all(ps.push(x)) == concat_all(ps) + x,
{
    assert(ps.push(x).drop_last() =~= ps);
}

/// `s` is a variable's line carrying some type, the untyped one when the
/// variable has no symbol.
pub open spec fn variable_outline(n: VariableExpression, level: nat, s: Seq<char>) -> bool {
    exists|dt: DataType|
        (n.symbol.is_none() ==> dt == DataType { data_type: Type::UnTyped }) && s == line(
            level,
            #[trigger] variable_node_text(n.name@, dt),
        )
}

/// `s` is an outline of the statement under `key` (nothing for a key that
/// names no statement).
pub open spec fn stmt_outline(v: AstView, key: StatementKey, level: nat, s: Seq<char>) -> bool {
    match key {
        StatementKey::VarDecl(k) => decl_outline(v, v.var_decls[k.id].var_decl(), level, s),
        StatementKey::VarAssmt(k) => assmt_outline(v, v.var_assmts[k.id].var_assmt(), level, s),
        StatementKey::NotANode => s == Seq::<char>::empty(),
    }
}

/// `s` is the outlines of the statements, one after the other.
pub open spec fn stmts_outline(v: AstView, keys: Seq<StatementKey>, level: nat, s: Seq<char>) -> bool {
    exists|ps: Seq<Seq<char>>|
        ps.len() == keys.len() && (forall|i: int| 0 <= i < ps.len() ==> #[trigger] stmt_outline(v, keys[i], level, ps[i]))
            && s == #[trigger] concat_all(ps)
}

/// `s` is an outline of a file's expression, if it has one.
pub open spec fn file_expression_outline(v: AstView, f: File, level: nat, s: Seq<char>) -> bool {
    match f.expression {
        Some(k) => expr_outline(v, k, level, s),
        None => s == Seq::<char>::empty(),
    }
}

/// `s` is an outline of a file: `{File}`, then outlines of its statements and
/// of its expression one level down.
pub open spec fn file_outline(v: AstView, f: File, level: nat, s: Seq<char>) -> bool {
    exists|a: Seq<char>, b: Seq<char>|
        #![trigger stmts_outline(v, f.statements@, level + 1, a), file_expression_outline(v, f, level + 1, b)]
        stmts_outline(v, f.statements@, level + 1, a) && file_expression_outline(v, f, level + 1, b) && s == "{File}"@
            + "\n"@ + a + b
}

pub open spec fn command_outline(v: AstView, key: REPLCommandKey, level: nat, s: Seq<char>) -> bool {
    match key {
        REPLCommandKey::Stmt(k) => stmt_outline(v, k, level, s),
        REPLCommandKey::Expr(k) => expr_outline(v, k, level, s),
    }
}

pub open spec fn commands_outline(v: AstView, keys: Seq<REPLCommandKey>, level: nat, s: Seq<char>) -> bool {
    exists|ps: Seq<Seq<char>>|
        ps.len() == keys.len() && (forall|i: int| 0 <= i < ps.len() ==> #[trigger] command_outline(v, keys[i], level, ps[i]))
            && s == #[trigger] concat_all(ps)
}

/// `s` is an outline of a REPL root: `{REPLRoot}`, then outlines of its
/// commands one level down.
pub open spec fn repl_root_outline(v: AstView, r: REPLRoot, level: nat, s: Seq<char>) -> bool {
    exists|a: Seq<char>| #[trigger] commands_outline(v, r.commands@, level + 1, a) && s == "{REPLRoot}"@ + "\n"@ + a
}

/// `s` is an outline of a file root: `{FileRoot}`, then an outline of its file
/// one level down.
pub open spec fn file_root_outline(v: AstView, r: FileRoot, level: nat, s: Seq<char>) -> bool {
    match r.file {
        Some(k) => exists|a: Seq<char>| #[trigger] file_outline(v, v.files[k.id].file(), level + 1, a) && s == "{FileRoot}"@ + "\n"@ + a,
        None => s == "{FileRoot}"@ + "\n"@,
    }
}

// ---------------------------------------------------------------------------
// Declarations and assignments
// ---------------------------------------------------------------------------

pub open spec fn decl_printable(v: AstView, n: VariableDeclaration, level: int) -> bool {
    &&& v.identifiers.contains_key(n.identifier.id)
    &&& (n.type_hint matches Some(th) ==> v.type_hints.contains_key(th.id))
    &&& expr_printable(v, n.expression, level + 1)
}

pub open spec fn decl_text(v: AstView, n: VariableDeclaration, level: nat) -> Seq<char> {
    line(level, declaration_node_text(n)) + line(level + 1, identifier_node_text(v.identifiers[n.identifier.id].identifier()))
        + match n.type_hint {
        Some(th) => " "@ + line(level + 1, type_hint_node_text(v.type_hints[th.id].type_hint())),
        None => seq![],
    } + expr_text(v, n.expression, level + 1)
}

pub open spec fn decl_code(v: AstView, n: VariableDeclaration) -> Seq<char> {
    "let"@ + (if n.mutable {
        " (mut)"@
    } else {
        seq![]
    }) + " "@ + v.identifiers[n.identifier.id].identifier().name@ + match n.type_hint {
        Some(th) => " "@ + type_label(v.type_hints[th.id].type_hint().data_type.data_type),
        None => seq![],
    } + " := "@ + expr_code(v, n.expression) + ";"@
}

pub open spec fn assmt_printable(v: AstView, n: VariableAssignment, level: int) -> bool {
    &&& v.identifiers.contains_key(n.identifier.id)
    &&& expr_printable(v, n.expression, level + 1)
}

pub open spec fn assmt_text(v: AstView, n: VariableAssignment, level: nat) -> Seq<char> {
    line(level, "{Assignment}"@) + line(level + 1, identifier_node_text(v.identifiers[n.identifier.id].identifier()))
        + expr_text(v, n.expression, level + 1)
}

pub open spec fn assmt_code(v: AstView, n: VariableAssignment) -> Seq<char> {
    v.identifiers[n.identifier.id].identifier().name@ + " := "@ + expr_code(v, n.expression) + ";"@
}

/// A declaration's lines above its expression.
pub open spec fn decl_head(v: AstView, n: VariableDeclaration, level: nat) -> Seq<char> {
    line(level, declaration_node_text(n)) + line(level + 1, identifier_node_text(v.identifiers[n.identifier.id].identifier()))
        + match n.type_hint {
        Some(th) => " "@ + line(level + 1, type_hint_node_text(v.type_hints[th.id].type_hint())),
        None => seq![],
    }
}

/// `s` is an outline of a declaration: its lines, then an outline of its
/// expression (each variable line carrying some type, the untyped one for a
/// variable without a symbol).
pub open spec fn decl_outline(v: AstView, n: VariableDeclaration, level: nat, s: Seq<char>) -> bool {
    exists|e: Seq<char>| #[trigger] expr_outline(v, n.expression, level + 1, e) && s == decl_head(v, n, level) + e
}

pub open spec fn assmt_head(v: AstView, n: VariableAssignment, level: nat) -> Seq<char> {
    line(level, "{Assignment}"@) + line(level + 1, identifier_node_text(v.identifiers[n.identifier.id].identifier()))
}

/// `s` is an outline of an assignment: its lines, then an outline of its expression.
pub open spec fn assmt_outline(v: AstView, n: VariableAssignment, level: nat, s: Seq<char>) -> bool {
    exists|e: Seq<char>| #[trigger] expr_outline(v, n.expression, level + 1, e) && s == assmt_head(v, n, level) + e
}

impl VariableDeclaration {
    pub fn to_string_with_level(&self, level: usize, ast: &AST) -> (r: String)
        requires
            ast@.wf(),
            decl_printable(ast@, *self, level as int),
        ensures
            expr_symbol_free(ast@, self.expression) ==> r@ == decl_text(ast@, *self, level as nat),
            decl_outline(ast@, *self, level as nat, r@),
    {
        let mut out = crate::text::tabs_of(level);
        out.append(self.node_to_string().as_str());
        out.append("\n");
        out.append(ast.get_identifier(self.identifier).to_string_with_level(level + 1).as_str());
        match self.type_hint {
            Some(type_hint) => {
                out.append(" ");
                out.append(ast.get_type_hint(type_hint).to_string_with_level(level + 1).as_str());
            },
            None => {},
        }
        let ghost head = out@;
        let e = expression_to_string(ast, self.expression, level + 1);
        out.append(e.as_str());
        proof {
            assert(head == decl_head(ast@, *self, level as nat));
            assert(out@ == decl_head(ast@, *self, level as nat) + e@);
            assert(expr_outline(ast@, self.expression, (level + 1) as nat, e@));
        }
        out
    }

    pub fn to_string(&self, ast: &AST) -> (r: String)
        requires
            ast@.wf(),
            decl_printable(ast@, *self, 0),
        ensures
            expr_symbol_free(ast@, self.expression) ==> r@ == decl_text(ast@, *self, 0),
            decl_outline(ast@, *self, 0, r@),
    {
        self.to_string_with_level(0, ast)
    }

    pub fn to_code(&self, ast: &AST) -> (r: String)
        requires
            ast@.wf(),
            decl_printable(ast@, *self, 0),
        ensures
            r@ == decl_code(ast@, *self),
    {
        let mut s = "let".to_owned();
        if self.mutable {
            s.append(" (mut)");
        }
        s.append(" ");
        s.append(ast.get_identifier(self.identifier).to_code().as_str());
        match self.type_hint {
            Some(type_hint) => {
                s.append(" ");
                s.append(ast.get_type_hint(type_hint).to_code().as_str());
            },
            None => {},
        }
        s.append(" := ");
        s.append(expression_to_code(ast, self.expression).as_str());
        s.append(";");
        s
    }
}

impl VariableAssignment {
    pub fn to_string_with_level(&self, level: usize, ast: &AST) -> (r: String)
        requires
            ast@.wf(),
            assmt_printable(ast@, *self, level as int),
        ensures
            expr_symbol_free(ast@, self.expression) ==> r@ == assmt_text(ast@, *self, level as nat),
            assmt_outline(ast@, *self, level as nat, r@),
    {
        let mut out = crate::text::tabs_of(level);
        out.append(self.node_to_string().as_str());
        out.append("\n");
        out.append(ast.get_identifier(self.identifier).to_string_with_level(level + 1).as_str());
        let ghost head = out@;
        let e = expression_to_string(ast, self.expression, level + 1);
        out.append(e.as_str());
        proof {
            assert(head == assmt_head(ast@, *self, level as nat));
            assert(out@ == assmt_head(ast@, *self, level as nat) + e@);
            assert(expr_outline(ast@, self.expression, (level + 1) as nat, e@));
        }
        out
    }

    pub fn to_string(&self, ast: &AST) -> (r: String)
        requires
            ast@.wf(),
            assmt_printable(ast@, *self, 0),
        ensures
            expr_symbol_free(ast@, self.expression) ==> r@ == assmt_text(ast@, *self, 0),
            assmt_outline(ast@, *self, 0, r@),
    {
        self.to_string_with_level(0, ast)
    }

    pub fn to_code(&self, ast: &AST) -> (r: String)
        requires
            ast@.wf(),
            assmt_printable(ast@, *self, 0),
        ensures
            r@ == assmt_code(ast@, *self),
    {
        let mut s = ast.get_identifier(self.identifier).to_code();
        s.append(" := ");
        s.append(expression_to_code(ast, self.expression).as_str());
        s.append(";");
        s
    }
}

// ---------------------------------------------------------------------------
// Statements by key
// ---------------------------------------------------------------------------

pub open spec fn stmt_printable(v: AstView, key: StatementKey, level: int) -> bool {
    match key {
        StatementKey::VarDecl(k) => v.var_decls.contains_key(k.id) && decl_printable(v, v.var_decls[k.id].var_decl(), level),
        StatementKey::VarAssmt(k) => v.var_assmts.contains_key(k.id) && assmt_printable(
            v,
            v.var_assmts[k.id].var_assmt(),
            level,
        ),
        StatementKey::NotANode => true,
    }
}

pub open spec fn stmt_symbol_free(v: AstView, key: StatementKey) -> bool {
    match key {
        StatementKey::VarDecl(k) => expr_symbol_free(v, v.var_decls[k.id].var_decl().expression),
        StatementKey::VarAssmt(k) => expr_symbol_free(v, v.var_assmts[k.id].var_assmt().expression),
        StatementKey::NotANode => true,
    }
}

/// A statement's outline (nothing for a key that names no statement).
pub open spec fn stmt_text(v: AstView, key: StatementKey, level: nat) -> Seq<char> {
    match key {
        StatementKey::VarDecl(k) => decl_text(v, v.var_decls[k.id].var_decl(), level),
        StatementKey::VarAssmt(k) => assmt_text(v, v.var_assmts[k.id].var_assmt(), level),
        StatementKey::NotANode => seq![],
    }
}

pub open spec fn stmt_code(v: AstView, key: StatementKey) -> Seq<char> {
    match key {
        StatementKey::VarDecl(k) => decl_code(v, v.var_decls[k.id].var_decl()),
        StatementKey::VarAssmt(k) => assmt_code(v, v.var_assmts[k.id].var_assmt()),
        StatementKey::NotANode => seq![],
    }
}

pub open spec fn stmts_text(v: AstView, keys: Seq<StatementKey>, level: nat) -> Seq<char>
    decreases keys.len(),
{
    if keys.len() == 0 {
        seq![]
    } else {
        stmts_text(v, keys.drop_last(), level) + stmt_text(v, keys.last(), level)
    }
}

pub open spec fn stmts_code(v: AstView, keys: Seq<StatementKey>) -> Seq<char>
    decreases keys.len(),
{
    if keys.len() == 0 {
        seq![]
    } else {
        stmts_code(v, keys.drop_last()) + stmt_code(v, keys.last())
    }
}

fn statement_key_to_string(ast: &AST, key: StatementKey, level: usize) -> (r: String)
    requires
        ast@.wf(),
        stmt_printable(ast@, key, level as int),
    ensures
        stmt_symbol_free(ast@, key) ==> r@ == stmt_text(ast@, key, level as nat),
        stmt_outline(ast@, key, level as nat, r@),
{
    match key {
        StatementKey::VarDecl(decl) => ast.get_variable_declaration(decl).to_string_with_level(level, ast),
        StatementKey::VarAssmt(assmt) => ast.get_variable_assignment(assmt).to_string_with_level(level, ast),
        StatementKey::NotANode => String::new(),
    }
}

fn statement_key_to_code(ast: &AST, key: StatementKey) -> (r: String)
    requires
        ast@.wf(),
        stmt_printable(ast@, key, 0),
    ensures
        r@ == stmt_code(ast@, key),
{
    match key {
        StatementKey::VarDecl(decl) => ast.get_variable_declaration(decl).to_code(ast),
        StatementKey::VarAssmt(assmt) => ast.get_variable_assignment(assmt).to_code(ast),
        StatementKey::NotANode => String::new(),
    }
}

/// Appends the outlines of the statements, in order.
fn append_statements(out: &mut String, ast: &AST, keys: &Vec<StatementKey>, level: usize)
    requires
        ast@.wf(),
        forall|i: int| 0 <= i < keys@.len() ==> #[trigger] stmt_printable(ast@, keys@[i], level as int),
    ensures
        (forall|i: int| 0 <= i < keys@.len() ==> #[trigger] stmt_symbol_free(ast@, keys@[i])) ==> final(out)@
            == old(out)@ + stmts_text(ast@, keys@, level as nat),
        exists|a: Seq<char>| #[trigger] stmts_outline(ast@, keys@, level as nat, a) && final(out)@ == old(out)@ + a,
{
    let ghost start = out@;
    let ghost mut ps: Seq<Seq<char>> = seq![];
    let mut i: usize = 0;
    while i < keys.len()
        invariant
            ast@.wf(),
            i <= keys@.len(),
            forall|j: int| 0 <= j < keys@.len() ==> #[trigger] stmt_printable(ast@, keys@[j], level as int),
            (forall|j: int| 0 <= j < keys@.len() ==> #[trigger] stmt_symbol_free(ast@, keys@[j])) ==> out@
                == start + stmts_text(ast@, keys@.take(i as int), level as nat),
            ps.len() == i,
            forall|j: int| 0 <= j < i ==> #[trigger] stmt_outline(ast@, keys@[j], level as nat, ps[j]),
            out@ == start + concat_all(ps),
        decreases keys@.len() - i,
    {
        let piece = statement_key_to_string(ast, keys[i], level);
        out.append(piece.as_str());
        proof {
            assert(keys@.take(i + 1).drop_last() =~= keys@.take(i as int));
            lemma_concat_all_push(ps, piece@);
            ps = ps.push(piece@);
        }
        i = i + 1;
    }
    proof {
        assert(keys@.take(keys@.len() as int) =~= keys@);
        assert(stmts_outline(ast@, keys@, level as nat, concat_all(ps)));
    }
}

/// Appends the code of the statements, in order.
fn append_statements_code(out: &mut String, ast: &AST, keys: &Vec<StatementKey>)
    requires
        ast@.wf(),
        forall|i: int| 0 <= i < keys@.len() ==> #[trigger] stmt_printable(ast@, keys@[i], 0),
    ensures
        final(out)@ == old(out)@ + stmts_code(ast@, keys@),
{
    let ghost start = out@;
    let mut i: usize = 0;
    while i < keys.len()
        invariant
            ast@.wf(),
            i <= keys@.len(),
            forall|j: int| 0 <= j < keys@.len() ==> #[trigger] stmt_printable(ast@, keys@[j], 0),
            out@ == start + stmts_code(ast@, keys@.take(i as int)),
        decreases keys@.len() - i,
    {
        let piece = statement_key_to_code(ast, keys[i]);
        out.append(piece.as_str());
        proof {
            assert(keys@.take(i + 1).drop_last() =~= keys@.take(i as int));
        }
        i = i + 1;
    }
    proof {
        assert(keys@.take(keys@.len() as int) =~= keys@);
    }
}

// ---------------------------------------------------------------------------
// Files
// ---------------------------------------------------------------------------

pub open spec fn file_printable(v: AstView, f: File, level: int) -> bool {
    &&& forall|i: int| #![trigger f.statements@[i]] 0 <= i < f.statements@.len() ==> stmt_printable(v, f.statements@[i], level + 1)
    &&& (f.expression matches Some(k) ==> expr_printable(v, k, level + 1))
}

pub open spec fn file_symbol_free(v: AstView, f: File) -> bool {
    &&& forall|i: int| 0 <= i < f.statements@.len() ==> #[trigger] stmt_symbol_free(v, f.statements@[i])
    &&& (f.expression matches Some(k) ==> expr_symbol_free(v, k))
}

/// `{File}`, then the statements and the expression one level down.
pub open spec fn file_text(v: AstView, f: File, level: nat) -> Seq<char> {
    "{File}"@ + "\n"@ + stmts_text(v, f.statements@, level + 1) + match f.expression {
        Some(k) => expr_text(v, k, level + 1),
        None => seq![],
    }
}

pub open spec fn file_code(v: AstView, f: File) -> Seq<char> {
    "{File}"@ + stmts_code(v, f.statements@) + match f.expression {
        Some(k) => expr_code(v, k),
        None => seq![],
    }
}

impl File {
    pub fn to_string_with_level(&self, level: usize, ast: &AST) -> (r: String)
        requires
            ast@.wf(),
            file_printable(ast@, *self, level as int),
            level < usize::MAX,
        ensures
            file_symbol_free(ast@, *self) ==> r@ == file_text(ast@, *self, level as nat),
            file_outline(ast@, *self, level as nat, r@),
    {
        let mut out = self.node_to_string();
        out.append("\n");
        let ghost head = out@;
        proof {
            assert forall|i: int| 0 <= i < self.statements@.len() implies #[trigger] stmt_printable(
                ast@,
                self.statements@[i],
                level + 1,
            ) by {
                assert(stmt_printable(ast@, self.statements@[i], level + 1));
            }
        }
        append_statements(&mut out, ast, &self.statements, level + 1);
        let ghost mid = out@;
        let ghost a = choose|a: Seq<char>| stmts_outline(ast@, self.statements@, (level + 1) as nat, a) && mid == head + a;
        match self.expression {
            Some(expression) => {
                let e = expression_to_string(ast, expression, level + 1);
                out.append(e.as_str());
                proof {
                    assert(file_expression_outline(ast@, *self, (level + 1) as nat, e@));
                    assert(out@ == "{File}"@ + "\n"@ + a + e@);
                }
            },
            None => {
                proof {
                    assert(file_expression_outline(ast@, *self, (level + 1) as nat, Seq::<char>::empty()));
                    assert(out@ == "{File}"@ + "\n"@ + a + Seq::<char>::empty());
                }
            },
        }
        out
    }

    pub fn to_string(&self, ast: &AST) -> (r: String)
        requires
            ast@.wf(),
            file_printable(ast@, *self, 0),
        ensures
            file_symbol_free(ast@, *self) ==> r@ == file_text(ast@, *self, 0),
            file_outline(ast@, *self, 0, r@),
    {
        self.to_string_with_level(0, ast)
    }

    pub fn to_code(&self, ast: &AST) -> (r: String)
        requires
            ast@.wf(),
            file_printable(ast@, *self, 0),
        ensures
            r@ == file_code(ast@, *self),
    {
        let mut out = self.node_to_string();
        proof {
            assert forall|i: int| 0 <= i < self.statements@.len() implies #[trigger] stmt_printable(
                ast@,
                self.statements@[i],
                0,
            ) by {
                lemma_stmt_printable_lower(ast@, self.statements@[i], 1, 0);
            }
        }
        append_statements_code(&mut out, ast, &self.statements);
        match self.expression {
            Some(expression) => {
                proof {
                    let f = crate::display::lemma_printable_fuel(ast@, expression, 1);
                }
                out.append(expression_to_code(ast, expression).as_str());
            },
            None => {},
        }
        out
    }
}

// ---------------------------------------------------------------------------
// Roots
// ---------------------------------------------------------------------------

pub open spec fn command_printable(v: AstView, key: REPLCommandKey, level: int) -> bool {
    match key {
        REPLCommandKey::Stmt(k) => stmt_printable(v, k, level),
        REPLCommandKey::Expr(k) => expr_printable(v, k, level),
    }
}

pub open spec fn command_symbol_free(v: AstView, key: REPLCommandKey) -> bool {
    match key {
        REPLCommandKey::Stmt(k) => stmt_symbol_free(v, k),
        REPLCommandKey::Expr(k) => expr_symbol_free(v, k),
    }
}

pub open spec fn command_text(v: AstView, key: REPLCommandKey, level: nat) -> Seq<char> {
    match key {
        REPLCommandKey::Stmt(k) => stmt_text(v, k, level),
        REPLCommandKey::Expr(k) => expr_text(v, k, level),
    }
}

pub open spec fn command_code(v: AstView, key: REPLCommandKey) -> Seq<char> {
    match key {
        REPLCommandKey::Stmt(k) => stmt_code(v, k),
        REPLCommandKey::Expr(k) => expr_code(v, k),
    }
}

pub open spec fn commands_text(v: AstView, keys: Seq<REPLCommandKey>, level: nat) -> Seq<char>
    decreases keys.len(),
{
    if keys.len() == 0 {
        seq![]
    } else {
        commands_text(v, keys.drop_last(), level) + command_text(v, keys.last(), level)
    }
}

pub open spec fn commands_code(v: AstView, keys: Seq<REPLCommandKey>) -> Seq<char>
    decreases keys.len(),
{
    if keys.len() == 0 {
        seq![]
    } else {
        commands_code(v, keys.drop_last()) + command_code(v, keys.last())
    }
}

pub open spec fn repl_root_printable(v: AstView, r: REPLRoot, level: int) -> bool {
    forall|i: int| #![trigger r.commands@[i]] 0 <= i < r.commands@.len() ==> command_printable(v, r.commands@[i], level + 1)
}

pub open spec fn repl_root_symbol_free(v: AstView, r: REPLRoot) -> bool {
    forall|i: int| 0 <= i < r.commands@.len() ==> #[trigger] command_symbol_free(v, r.commands@[i])
}

/// `{REPLRoot}`, then the commands one level down.
pub open spec fn repl_root_text(v: AstView, r: REPLRoot, level: nat) -> Seq<char> {
    "{REPLRoot}"@ + "\n"@ + commands_text(v, r.commands@, level + 1)
}

pub open spec fn repl_root_code(v: AstView, r: REPLRoot) -> Seq<char> {
    "{REPLRoot}"@ + commands_code(v, r.commands@)
}

fn command_to_string(ast: &AST, key: REPLCommandKey, level: usize) -> (r: String)
    requires
        ast@.wf(),
        command_printable(ast@, key, level as int),
    ensures
        command_symbol_free(ast@, key) ==> r@ == command_text(ast@, key, level as nat),
        command_outline(ast@, key, level as nat, r@),
{
    match key {
        REPLCommandKey::Stmt(statement) => statement_key_to_string(ast, statement, level),
        REPLCommandKey::Expr(expression) => expression_to_string(ast, expression, level),
    }
}

fn command_to_code(ast: &AST, key: REPLCommandKey) -> (r: String)
    requires
        ast@.wf(),
        command_printable(ast@, key, 0),
    ensures
        r@ == command_code(ast@, key),
{
    match key {
        REPLCommandKey::Stmt(statement) => statement_key_to_code(ast, statement),
        REPLCommandKey::Expr(expression) => {
            proof {
                let f = crate::display::lemma_printable_fuel(ast@, expression, 0);
            }
            expression_to_code(ast, expression)
        },
    }
}

pub proof fn lemma_expr_printable_lower(v: AstView, key: ExpressionKey, level: int, lower: int)
    requires
        expr_printable(v, key, level),
        0 <= lower <= level,
    ensures
        expr_printable(v, key, lower),
{
    let f = crate::display::lemma_printable_fuel(v, key, level);
    assert(expr_bounded(v, key, f) && lower + f <= usize::MAX);
}

pub proof fn lemma_stmt_printable_lower(v: AstView, key: StatementKey, level: int, lower: int)
    requires
        stmt_printable(v, key, level),
        0 <= lower <= level,
    ensures
        stmt_printable(v, key, lower),
{
    match key {
        StatementKey::VarDecl(k) => lemma_expr_printable_lower(v, v.var_decls[k.id].var_decl().expression, level + 1, lower + 1),
        StatementKey::VarAssmt(k) => lemma_expr_printable_lower(v, v.var_assmts[k.id].var_assmt().expression, level + 1, lower + 1),
        StatementKey::NotANode => {},
    }
}

pub proof fn lemma_command_printable_lower(v: AstView, key: REPLCommandKey, level: int, lower: int)
    requires
        command_printable(v, key, level),
        0 <= lower <= level,
    ensures
        command_printable(v, key, lower),
{
    match key {
        REPLCommandKey::Stmt(k) => lemma_stmt_printable_lower(v, k, level, lower),
        REPLCommandKey::Expr(k) => lemma_expr_printable_lower(v, k, level, lower),
    }
}

pub proof fn lemma_file_printable_lower(v: AstView, f: File, level: int, lower: int)
    requires
        file_printable(v, f, level),
        0 <= lower <= level,
    ensures
        file_printable(v, f, lower),
{
    assert forall|i: int| #![trigger f.statements@[i]] 0 <= i < f.statements@.len() implies stmt_printable(v, f.statements@[i], lower + 1) by {
        lemma_stmt_printable_lower(v, f.statements@[i], level + 1, lower + 1);
    }
    if f.expression.is_some() {
        lemma_expr_printable_lower(v, f.expression.unwrap(), level + 1, lower + 1);
    }
}

impl REPLRoot {
    pub fn to_string_with_level(&self, level: usize, ast: &AST) -> (r: String)
        requires
            ast@.wf(),
            repl_root_printable(ast@, *self, level as int),
            level < usize::MAX,
        ensures
            repl_root_symbol_free(ast@, *self) ==> r@ == repl_root_text(ast@, *self, level as nat),
            repl_root_outline(ast@, *self, level as nat, r@),
    {
        let mut out = self.node_to_string();
        out.append("\n");
        let ghost start = out@;
        let ghost mut ps: Seq<Seq<char>> = seq![];
        let mut i: usize = 0;
        while i < self.commands.len()
            invariant
                ast@.wf(),
                i <= self.commands@.len(),
                level < usize::MAX,
                repl_root_printable(ast@, *self, level as int),
                repl_root_symbol_free(ast@, *self) ==> out@ == start + commands_text(
                    ast@,
                    self.commands@.take(i as int),
                    (level + 1) as nat,
                ),
                ps.len() == i,
                forall|j: int| 0 <= j < i ==> #[trigger] command_outline(ast@, self.commands@[j], (level + 1) as nat, ps[j]),
                out@ == start + concat_all(ps),
            decreases self.commands@.len() - i,
        {
            let piece = command_to_string(ast, self.commands[i], level + 1);
            out.append(piece.as_str());
            proof {
                assert(self.commands@.take(i + 1).drop_last() =~= self.commands@.take(i as int));
                lemma_concat_all_push(ps, piece@);
                ps = ps.push(piece@);
            }
            i = i + 1;
        }
        proof {
            assert(self.commands@.take(self.commands@.len() as int) =~= self.commands@);
            assert(commands_outline(ast@, self.commands@, (level + 1) as nat, concat_all(ps)));
        }
        out
    }

    pub fn to_string(&self, ast: &AST) -> (r: String)
        requires
            ast@.wf(),
            repl_root_printable(ast@, *self, 0),
        ensures
            repl_root_symbol_free(ast@, *self) ==> r@ == repl_root_text(ast@, *self, 0),
            repl_root_outline(ast@, *self, 0, r@),
    {
        self.to_string_with_level(0, ast)
    }

    pub fn to_code(&self, ast: &AST) -> (r: String)
        requires
            ast@.wf(),
            repl_root_printable(ast@, *self, 0),
        ensures
            r@ == repl_root_code(ast@, *self),
    {
        let mut out = self.node_to_string();
        let ghost start = out@;
        let mut i: usize = 0;
        while i < self.commands.len()
            invariant
                ast@.wf(),
                i <= self.commands@.len(),
                repl_root_printable(ast@, *self, 0),
                out@ == start + commands_code(ast@, self.commands@.take(i as int)),
            decreases self.commands@.len() - i,
        {
            proof {
                assert(command_printable(ast@, self.commands@[i as int], 1));
                lemma_command_printable_lower(ast@, self.commands@[i as int], 1, 0);
            }
            let piece = command_to_code(ast, self.commands[i]);
            out.append(piece.as_str());
            proof {
                assert(self.commands@.take(i + 1).drop_last() =~= self.commands@.take(i as int));
            }
            i = i + 1;
        }
        proof {
            assert(self.commands@.take(self.commands@.len() as int) =~= self.commands@);
        }
        out
    }
}

pub open spec fn file_root_printable(v: AstView, r: FileRoot, level: int) -> bool {
    r.file matches Some(k) ==> v.files.contains_key(k.id) && file_printable(v, v.files[k.id].file(), level + 1)
        && level + 1 < usize::MAX
}

pub open spec fn file_root_symbol_free(v: AstView, r: FileRoot) -> bool {
    r.file matches Some(k) ==> file_symbol_free(v, v.files[k.id].file())
}

/// `{FileRoot}`, then the file one level down.
pub open spec fn file_root_text(v: AstView, r: FileRoot, level: nat) -> Seq<char> {
    "{FileRoot}"@ + "\n"@ + match r.file {
        Some(k) => file_text(v, v.files[k.id].file(), level + 1),
        None => seq![],
    }
}

pub open spec fn file_root_code(v: AstView, r: FileRoot) -> Seq<char> {
    match r.file {
        Some(k) => file_code(v, v.files[k.id].file()),
        None => seq![],
    }
}

impl FileRoot {
    pub fn to_string_with_level(&self, level: usize, ast: &AST) -> (r: String)
        requires
            ast@.wf(),
            file_root_printable(ast@, *self, level as int),
        ensures
            file_root_symbol_free(ast@, *self) ==> r@ == file_root_text(ast@, *self, level as nat),
            file_root_outline(ast@, *self, level as nat, r@),
    {
        let mut out = self.node_to_string();
        out.append("\n");
        match self.file {
            None => {},
            Some(file) => {
                let node = ast.get_file(file);
                let f = node.to_string_with_level(level + 1, ast);
                let ghost head = out@;
                out.append(f.as_str());
                proof {
                    assert(out@ == head + f@);
                    assert(file_outline(ast@, ast@.files[file.id].file(), (level + 1) as nat, f@));
                }
            },
        }
        out
    }

    pub fn to_string(&self, ast: &AST) -> (r: String)
        requires
            ast@.wf(),
            file_root_printable(ast@, *self, 0),
        ensures
            file_root_symbol_free(ast@, *self) ==> r@ == file_root_text(ast@, *self, 0),
            file_root_outline(ast@, *self, 0, r@),
    {
        self.to_string_with_level(0, ast)
    }

    pub fn to_code(&self, ast: &AST) -> (r: String)
        requires
            ast@.wf(),
            file_root_printable(ast@, *self, 0),
        ensures
            r@ == file_root_code(ast@, *self),
    {
        match self.file {
            None => String::new(),
            Some(file) => {
                let node = ast.get_file(file);
                proof {
                    lemma_file_printable_lower(ast@, *node, 1, 0);
                }
                node.to_code(ast)
            },
        }
    }
}

// ---------------------------------------------------------------------------
// Statement and expression values, and any node
// ---------------------------------------------------------------------------

pub open spec fn statement_printable(v: AstView, s: Statement, level: int) -> bool {
    match s {
        Statement::VarDecl(d) => decl_printable(v, d, level),
        Statement::VarAssmt(a) => assmt_printable(v, a, level),
    }
}

pub open spec fn statement_symbol_free(v: AstView, s: Statement) -> bool {
    match s {
        Statement::VarDecl(d) => expr_symbol_free(v, d.expression),
        Statement::VarAssmt(a) => expr_symbol_free(v, a.expression),
    }
}

pub open spec fn statement_text(v: AstView, s: Statement, level: nat) -> Seq<char> {
    match s {
        Statement::VarDecl(d) => decl_text(v, d, level),
        Statement::VarAssmt(a) => assmt_text(v, a, level),
    }
}

pub open spec fn statement_code(v: AstView, s: Statement) -> Seq<char> {
    match s {
        Statement::VarDecl(d) => decl_code(v, d),
        Statement::VarAssmt(a) => assmt_code(v, a),
    }
}

pub open spec fn statement_node_text(s: Statement) -> Seq<char> {
    match s {
        Statement::VarDecl(d) => declaration_node_text(d),
        Statement::VarAssmt(_) => "{Assignment}"@,
    }
}

pub open spec fn expression_printable(v: AstView, e: Expression, level: int) -> bool {
    match e {
        Expression::Binary(b) => expr_printable(v, b.left, level + 1) && expr_printable(v, b.right, level + 1),
        Expression::Unary(u) => expr_printable(v, u.operand, level + 1),
        _ => true,
    }
}

pub open spec fn expression_symbol_free(v: AstView, e: Expression) -> bool {
    match e {
        Expression::Binary(b) => expr_symbol_free(v, b.left) && expr_symbol_free(v, b.right),
        Expression::Unary(u) => expr_symbol_free(v, u.operand),
        Expression::Variable(n) => n.symbol.is_none(),
        Expression::Literal(_) => true,
    }
}

pub open spec fn expression_node_text(e: Expression) -> Seq<char> {
    match e {
        Expression::Binary(b) => binary_node_text(b),
        Expression::Unary(u) => unary_node_text(u),
        Expression::Variable(n) => variable_node_text(n.name@, DataType { data_type: Type::UnTyped }),
        Expression::Literal(n) => literal_node_text(n),
    }
}

pub open spec fn expression_text(v: AstView, e: Expression, level: nat) -> Seq<char> {
    match e {
        Expression::Binary(b) => line(level, binary_node_text(b)) + expr_text(v, b.left, level + 1) + expr_text(
            v,
            b.right,
            level + 1,
        ),
        Expression::Unary(u) => line(level, unary_node_text(u)) + expr_text(v, u.operand, level + 1),
        _ => line(level, expression_node_text(e)),
    }
}

pub open spec fn expression_code(v: AstView, e: Expression) -> Seq<char> {
    match e {
        Expression::Binary(b) => expr_code(v, b.left) + " "@ + binary_operator_text(b.operator) + " "@ + expr_code(
            v,
            b.right,
        ) + ";"@,
        Expression::Unary(u) => unary_operator_text(u.operator) + expr_code(v, u.operand) + ";"@,
        Expression::Variable(n) => n.name@,
        Expression::Literal(n) => literal_value_text(n.value),
    }
}

pub open spec fn statement_outline(v: AstView, st: Statement, level: nat, s: Seq<char>) -> bool {
    match st {
        Statement::VarDecl(d) => decl_outline(v, d, level, s),
        Statement::VarAssmt(a) => assmt_outline(v, a, level, s),
    }
}

pub open spec fn expression_outline(v: AstView, e: Expression, level: nat, s: Seq<char>) -> bool {
    match e {
        Expression::Binary(b) => binary_outline(v, b, level, s),
        Expression::Unary(u) => unary_outline(v, u, level, s),
        Expression::Variable(n) => variable_outline(n, level, s),
        Expression::Literal(n) => s == line(level, literal_node_text(n)),
    }
}

/// `s` is an outline of any node, whatever the symbols below it hold.
pub open spec fn node_outline(v: AstView, node: ASTNode, level: nat, s: Seq<char>) -> bool {
    match node {
        ASTNode::Root(Root::REPL(r)) => repl_root_outline(v, r, level, s),
        ASTNode::Root(Root::File(f)) => file_root_outline(v, f, level, s),
        ASTNode::File(f) => file_outline(v, f, level, s),
        ASTNode::REPLCommand(REPLCommand::Stmt(st)) => statement_outline(v, st, level, s),
        ASTNode::REPLCommand(REPLCommand::Expr(e)) => expression_outline(v, e, level, s),
        ASTNode::Statement(st) => statement_outline(v, st, level, s),
        ASTNode::Expression(e) => expression_outline(v, e, level, s),
        ASTNode::Identifier(n) => s == line(level, identifier_node_text(n)),
        ASTNode::TypeHint(n) => s == line(level, type_hint_node_text(n)),
    }
}

impl Statement {
    pub fn to_string_with_level(&self, level: usize, ast: &AST) -> (r: String)
        requires
            ast@.wf(),
            statement_printable(ast@, *self, level as int),
        ensures
            statement_symbol_free(ast@, *self) ==> r@ == statement_text(ast@, *self, level as nat),
            statement_outline(ast@, *self, level as nat, r@),
    {
        match self {
            Statement::VarDecl(decl) => decl.to_string_with_level(level, ast),
            Statement::VarAssmt(assmt) => assmt.to_string_with_level(level, ast),
        }
    }

    pub fn to_string(&self, ast: &AST) -> (r: String)
        requires
            ast@.wf(),
            statement_printable(ast@, *self, 0),
        ensures
            statement_symbol_free(ast@, *self) ==> r@ == statement_text(ast@, *self, 0),
            statement_outline(ast@, *self, 0, r@),
    {
        self.to_string_with_level(0, ast)
    }

    pub fn to_code(&self, ast: &AST) -> (r: String)
        requires
            ast@.wf(),
            statement_printable(ast@, *self, 0),
        ensures
            r@ == statement_code(ast@, *self),
    {
        match self {
            Statement::VarDecl(decl) => decl.to_code(ast),
            Statement::VarAssmt(assmt) => assmt.to_code(ast),
        }
    }
}

impl Expression {
    pub fn node_to_string(&self) -> (r: String)
        ensures
            (self matches Expression::Variable(n) ==> n.symbol.is_none()) ==> r@ == expression_node_text(*self),
    {
        match self {
            Expression::Binary(bin) => bin.node_to_string(),
            Expression::Unary(un) => un.node_to_string(),
            Expression::Variable(var) => var.node_to_string(),
            Expression::Literal(lit) => lit.node_to_string(),
        }
    }

    pub fn to_string_with_level(&self, level: usize, ast: &AST) -> (r: String)
        requires
            ast@.wf(),
            expression_printable(ast@, *self, level as int),
        ensures
            expression_symbol_free(ast@, *self) ==> r@ == expression_text(ast@, *self, level as nat),
            expression_outline(ast@, *self, level as nat, r@),
    {
        match self {
            Expression::Binary(bin) => bin.to_string_with_level(level, ast),
            Expression::Unary(un) => un.to_string_with_level(level, ast),
            Expression::Variable(var) => {
                let r = var.to_string_with_level(level);
                proof {
                    let dt = if var.symbol.is_none() {
                        DataType { data_type: Type::UnTyped }
                    } else {
                        choose|dt: DataType| r@ == line(level as nat, variable_node_text(var.name@, dt))
                    };
                    assert((var.symbol.is_none() ==> dt == DataType { data_type: Type::UnTyped }) && r@ == line(
                        level as nat,
                        variable_node_text(var.name@, dt),
                    ));
                }
                r
            },
            Expression::Literal(lit) => lit.to_string_with_level(level),
        }
    }

    pub fn to_string(&self, ast: &AST) -> (r: String)
        requires
            ast@.wf(),
            expression_printable(ast@, *self, 0),
        ensures
            expression_symbol_free(ast@, *self) ==> r@ == expression_text(ast@, *self, 0),
            expression_outline(ast@, *self, 0, r@),
    {
        self.to_string_with_level(0, ast)
    }

    pub fn to_code(&self, ast: &AST) -> (r: String)
        requires
            ast@.wf(),
            expression_printable(ast@, *self, 0),
        ensures
            r@ == expression_code(ast@, *self),
    {
        match self {
            Expression::Binary(bin) => {
                proof {
                    let f1 = crate::display::lemma_printable_fuel(ast@, bin.left, 1);
                    let f2 = crate::display::lemma_printable_fuel(ast@, bin.right, 1);
                }
                bin.to_code(ast)
            },
            Expression::Unary(un) => {
                proof {
                    let f = crate::display::lemma_printable_fuel(ast@, un.operand, 1);
                }
                un.to_code(ast)
            },
            Expression::Variable(var) => var.to_code(),
            Expression::Literal(lit) => lit.to_code(),
        }
    }
}

pub open spec fn node_printable(v: AstView, node: ASTNode, level: int) -> bool {
    match node {
        ASTNode::Root(Root::REPL(r)) => repl_root_printable(v, r, level) && level < usize::MAX,
        ASTNode::Root(Root::File(f)) => file_root_printable(v, f, level),
        ASTNode::File(f) => file_printable(v, f, level) && level < usize::MAX,
        ASTNode::REPLCommand(REPLCommand::Stmt(s)) => statement_printable(v, s, level),
        ASTNode::REPLCommand(REPLCommand::Expr(e)) => expression_printable(v, e, level),
        ASTNode::Statement(s) => statement_printable(v, s, level),
        ASTNode::Expression(e) => expression_printable(v, e, level),
        _ => true,
    }
}

pub open spec fn node_symbol_free(v: AstView, node: ASTNode) -> bool {
    match node {
        ASTNode::Root(Root::REPL(r)) => repl_root_symbol_free(v, r),
        ASTNode::Root(Root::File(f)) => file_root_symbol_free(v, f),
        ASTNode::File(f) => file_symbol_free(v, f),
        ASTNode::REPLCommand(REPLCommand::Stmt(s)) => statement_symbol_free(v, s),
        ASTNode::REPLCommand(REPLCommand::Expr(e)) => expression_symbol_free(v, e),
        ASTNode::Statement(s) => statement_symbol_free(v, s),
        ASTNode::Expression(e) => expression_symbol_free(v, e),
        _ => true,
    }
}

/// The outline of any node, its own line at `level`.
pub open spec fn node_text(v: AstView, node: ASTNode, level: nat) -> Seq<char> {
    match node {
        ASTNode::Root(Root::REPL(r)) => repl_root_text(v, r, level),
        ASTNode::Root(Root::File(f)) => file_root_text(v, f, level),
        ASTNode::File(f) => file_text(v, f, level),
        ASTNode::REPLCommand(REPLCommand::Stmt(s)) => statement_text(v, s, level),
        ASTNode::REPLCommand(REPLCommand::Expr(e)) => expression_text(v, e, level),
        ASTNode::Statement(s) => statement_text(v, s, level),
        ASTNode::Expression(e) => expression_text(v, e, level),
        ASTNode::Identifier(n) => line(level, identifier_node_text(n)),
        ASTNode::TypeHint(n) => line(level, type_hint_node_text(n)),
    }
}

/// The line of any node.
pub open spec fn node_line(node: ASTNode) -> Seq<char> {
    match node {
        ASTNode::Root(Root::REPL(_)) => "{REPLRoot}"@,
        ASTNode::Root(Root::File(_)) => "{FileRoot}"@,
        ASTNode::File(_) => "{File}"@,
        ASTNode::REPLCommand(REPLCommand::Stmt(s)) => statement_node_text(s),
        ASTNode::REPLCommand(REPLCommand::Expr(e)) => expression_node_text(e),
        ASTNode::Statement(s) => statement_node_text(s),
        ASTNode::Expression(e) => expression_node_text(e),
        ASTNode::Identifier(n) => identifier_node_text(n),
        ASTNode::TypeHint(n) => type_hint_node_text(n),
    }
}

/// The code of any node.
pub open spec fn node_code(v: AstView, node: ASTNode) -> Seq<char> {
    match node {
        ASTNode::Root(Root::REPL(r)) => repl_root_code(v, r),
        ASTNode::Root(Root::File(f)) => file_root_code(v, f),
        ASTNode::File(f) => file_code(v, f),
        ASTNode::REPLCommand(REPLCommand::Stmt(s)) => statement_code(v, s),
        ASTNode::REPLCommand(REPLCommand::Expr(e)) => expression_code(v, e),
        ASTNode::Statement(s) => statement_code(v, s),
        ASTNode::Expression(e) => expression_code(v, e),
        ASTNode::Identifier(n) => n.name@,
        ASTNode::TypeHint(n) => type_label(n.data_type.data_type),
    }
}

impl ASTNode {
    pub fn to_string_with_level(&self, level: usize, ast: &AST) -> (r: String)
        requires
            ast@.wf(),
            node_printable(ast@, *self, level as int),
        ensures
            node_symbol_free(ast@, *self) ==> r@ == node_text(ast@, *self, level as nat),
            node_outline(ast@, *self, level as nat, r@),
    {
        match self {
            ASTNode::Root(Root::REPL(node)) => node.to_string_with_level(level, ast),
            ASTNode::Root(Root::File(node)) => node.to_string_with_level(level, ast),
            ASTNode::File(node) => node.to_string_with_level(level, ast),
            ASTNode::REPLCommand(REPLCommand::Stmt(node)) => node.to_string_with_level(level, ast),
            ASTNode::REPLCommand(REPLCommand::Expr(node)) => node.to_string_with_level(level, ast),
            ASTNode::Statement(node) => node.to_string_with_level(level, ast),
            ASTNode::Expression(node) => node.to_string_with_level(level, ast),
            ASTNode::Identifier(node) => node.to_string_with_level(level),
            ASTNode::TypeHint(node) => node.to_string_with_level(level),
        }
    }

    pub fn to_string(&self, ast: &AST) -> (r: String)
        requires
            ast@.wf(),
            node_printable(ast@, *self, 0),
        ensures
            node_symbol_free(ast@, *self) ==> r@ == node_text(ast@, *self, 0),
            node_outline(ast@, *self, 0, r@),
    {
        self.to_string_with_level(0, ast)
    }

    pub fn node_to_string(&self) -> (r: String)
        ensures
            (self matches ASTNode::Expression(Expression::Variable(n)) ==> n.symbol.is_none()) && (self matches ASTNode::REPLCommand(
                REPLCommand::Expr(Expression::Variable(n)),
            ) ==> n.symbol.is_none()) ==> r@ == node_line(*self),
    {
        match self {
            ASTNode::Root(Root::REPL(node)) => node.node_to_string(),
            ASTNode::Root(Root::File(node)) => node.node_to_string(),
            ASTNode::File(node) => node.node_to_string(),
            ASTNode::REPLCommand(REPLCommand::Stmt(node)) => node.node_to_string(),
            ASTNode::REPLCommand(REPLCommand::Expr(node)) => node.node_to_string(),
            ASTNode::Statement(node) => node.node_to_string(),
            ASTNode::Expression(node) => node.node_to_string(),
            ASTNode::Identifier(node) => node.node_to_string(),
            ASTNode::TypeHint(node) => node.node_to_string(),
        }
    }

    pub fn to_code(&self, ast: &AST) -> (r: String)
        requires
            ast@.wf(),
            node_printable(ast@, *self, 0),
        ensures
            r@ == node_code(ast@, *self),
    {
        match self {
            ASTNode::Root(Root::REPL(node)) => node.to_code(ast),
            ASTNode::Root(Root::File(node)) => node.to_code(ast),
            ASTNode::File(node) => node.to_code(ast),
            ASTNode::REPLCommand(REPLCommand::Stmt(node)) => node.to_code(ast),
            ASTNode::REPLCommand(REPLCommand::Expr(node)) => node.to_code(ast),
            ASTNode::Statement(node) => node.to_code(ast),
            ASTNode::Expression(node) => node.to_code(ast),
            ASTNode::Identifier(node) => node.to_code(),
            ASTNode::TypeHint(node) => node.to_code(),
        }
    }
}

} // verus!
