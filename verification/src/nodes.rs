//! The nodes of a syntax tree and the keys under which an `AST` stores them.
use crate::outside::{symbol_cell_set_type, symbol_cell_type};
use crate::token::Token;
use crate::types::{DataType, Symbol, Type};
use std::cell::RefCell;
use std::rc::Rc;
use vstd::prelude::*;

verus! {

/// Key of a REPL root node.
#[derive(Clone, Copy, Debug, PartialEq, Eq, Structural)]
pub struct REPLRootKey {
    pub id: u64,
}

/// Key of a file root node.
#[derive(Clone, Copy, Debug, PartialEq, Eq, Structural)]
pub struct FileRootKey {
    pub id: u64,
}

/// Key of a file node.
#[derive(Clone, Copy, Debug, PartialEq, Eq, Structural)]
pub struct FileKey {
    pub id: u64,
}

/// Key of a variable declaration node.
#[derive(Clone, Copy, Debug, PartialEq, Eq, Structural)]
pub struct VariableDeclarationKey {
    pub id: u64,
}

/// Key of a variable assignment node.
#[derive(Clone, Copy, Debug, PartialEq, Eq, Structural)]
pub struct VariableAssignmentKey {
    pub id: u64,
}

/// Key of a binary expression node.
#[derive(Clone, Copy, Debug, PartialEq, Eq, Structural)]
pub struct BinaryExpressionKey {
    pub id: u64,
}

/// Key of a unary expression node.
#[derive(Clone, Copy, Debug, PartialEq, Eq, Structural)]
pub struct UnaryExpressionKey {
    pub id: u64,
}

/// Key of a variable expression node.
#[derive(Clone, Copy, Debug, PartialEq, Eq, Structural)]
pub struct VariableExpressionKey {
    pub id: u64,
}

/// Key of a literal expression node.
#[derive(Clone, Copy, Debug, PartialEq, Eq, Structural)]
pub struct LiteralExpressionKey {
    pub id: u64,
}

/// Key of an identifier node.
#[derive(Clone, Copy, Debug, PartialEq, Eq, Structural)]
pub struct IdentifierKey {
    pub id: u64,
}

/// Key of a type hint node.
#[derive(Clone, Copy, Debug, PartialEq, Eq, Structural)]
pub struct TypeHintKey {
    pub id: u64,
}

#[derive(Clone, Copy, Debug, PartialEq, Eq, Structural)]
pub enum RootKey {
    REPL(REPLRootKey),
    File(FileRootKey),
}

#[derive(Clone, Copy, Debug, PartialEq, Eq, Structural)]
pub enum StatementKey {
    VarDecl(VariableDeclarationKey),
    VarAssmt(VariableAssignmentKey),
    NotANode,
}

#[derive(Clone, Copy, Debug, PartialEq, Eq, Structural)]
pub enum ExpressionKey {
    Binary(BinaryExpressionKey),
    Unary(UnaryExpressionKey),
    Variable(VariableExpressionKey),
    Literal(LiteralExpressionKey),
    NotANode,
}

#[derive(Clone, Copy, Debug, PartialEq, Eq, Structural)]
pub enum REPLCommandKey {
    Stmt(StatementKey),
    Expr(ExpressionKey),
}

#[derive(Clone, Copy, Debug, PartialEq, Eq, Structural)]
pub enum ASTNodeKey {
    Root(RootKey),
    File(FileKey),
    REPLCommand(REPLCommandKey),
    Statement(StatementKey),
    Expression(ExpressionKey),
    Identifier(IdentifierKey),
    TypeHint(TypeHintKey),
    NotANode,
}

#[derive(Clone, Copy, Debug, PartialEq, Eq, Structural)]
pub enum ExpressionOrAssignmentKey {
    Expression(ExpressionKey),
    Assignment(VariableAssignmentKey),
    NotANode,
}

#[derive(Clone, Copy, Debug, PartialEq, Eq, Structural)]
pub enum BinaryOperator {
    Plus,
    Minus,
    Times,
    Divide,
    Modulus,
    NotEqual,
    Equal,
    LessThan,
    LessThanOrEqual,
    GreaterThan,
    GreaterThanOrEqual,
    And,
    Or,
}

#[derive(Clone, Copy, Debug, PartialEq, Eq, Structural)]
pub enum UnaryOperator {
    Minus,
    Not,
}

/// The value of a literal. A float literal keeps the text of its token.
pub enum Literal {
    Int(i128),
    Float(String),
    True(bool),
    False(bool),
    String(String),
}

/// The root of an AST built from REPL input: the commands entered so far.
pub struct REPLRoot {
    pub commands: Vec<REPLCommandKey>,
    pub new_commands_start_at: usize,
    pub ast_has_been_changed: bool,
}

/// The root of an AST built from a file.
pub struct FileRoot {
    pub file: Option<FileKey>,
}

/// A file: its statements, then an optional trailing expression.
pub struct File {
    pub statements: Vec<StatementKey>,
    pub expression: Option<ExpressionKey>,
}

pub struct VariableDeclaration {
    pub mutable: bool,
    pub name: String,
    pub identifier: IdentifierKey,
    pub type_hint: Option<TypeHintKey>,
    pub expression: ExpressionKey,
    pub token: Token,
    pub symbol: Option<Rc<RefCell<Symbol>>>,
}

pub struct VariableAssignment {
    pub name: String,
    pub identifier: IdentifierKey,
    pub expression: ExpressionKey,
    pub token: Token,
    pub symbol: Option<Rc<RefCell<Symbol>>>,
}

pub struct BinaryExpression {
    pub operator: BinaryOperator,
    pub token: Token,
    pub data_type: DataType,
    pub left: ExpressionKey,
    pub right: ExpressionKey,
}

pub struct UnaryExpression {
    pub operator: UnaryOperator,
    pub token: Token,
    pub data_type: DataType,
    pub operand: ExpressionKey,
}

pub struct VariableExpression {
    pub name: String,
    pub symbol: Option<Rc<RefCell<Symbol>>>,
    pub token: Token,
}

pub struct LiteralExpression {
    pub value: Literal,
    pub token: Token,
    pub data_type: DataType,
}

pub struct Identifier {
    pub name: String,
    pub token: Token,
}

pub struct TypeHint {
    pub data_type: DataType,
    pub token: Token,
}

pub enum Statement {
    VarDecl(VariableDeclaration),
    VarAssmt(VariableAssignment),
}

pub enum Expression {
    Binary(BinaryExpression),
    Unary(UnaryExpression),
    Variable(VariableExpression),
    Literal(LiteralExpression),
}

pub enum REPLCommand {
    Stmt(Statement),
    Expr(Expression),
}

pub enum Root {
    REPL(REPLRoot),
    File(FileRoot),
}

/// Any node of a syntax tree; the arenas of an `AST` store nodes in this form.
pub enum ASTNode {
    Root(Root),
    File(File),
    REPLCommand(REPLCommand),
    Statement(Statement),
    Expression(Expression),
    Identifier(Identifier),
    TypeHint(TypeHint),
}

/// The type that a freshly built node carries before type checking.
pub open spec fn untyped() -> DataType {
    DataType { data_type: Type::UnTyped }
}

/// A call that adds to a REPL root: `add_command` or `add_commands`.
pub enum RootCall {
    Command(REPLCommandKey),
    Commands(Seq<REPLCommandKey>),
}

/// The commands that a call adds, in order.
pub open spec fn call_commands(call: RootCall) -> Seq<REPLCommandKey> {
    match call {
        RootCall::Command(k) => seq![k],
        RootCall::Commands(ks) => ks,
    }
}

/// The commands that a run of calls adds, in order.
pub open spec fn calls_commands(calls: Seq<RootCall>) -> Seq<REPLCommandKey>
    decreases calls.len(),
{
    if calls.len() == 0 {
        seq![]
    } else {
        calls_commands(calls.drop_last()) + call_commands(calls.last())
    }
}

impl REPLRoot {
    /// `after` is `self` after `call`: the call's commands appended, the new
    /// commands starting after the old ones, and the change recorded.
    pub open spec fn adds(self, after: REPLRoot, call: RootCall) -> bool {
        &&& after.commands@ == self.commands@ + call_commands(call)
        &&& after.new_commands_start_at == self.commands@.len()
        &&& after.ast_has_been_changed
    }
}

/// The change record over a run of calls that add commands: after them the
/// root records a change exactly when it did before or at least one call ran,
/// and it holds the calls' commands after its own, in order.
pub proof fn lemma_change_record_history(roots: Seq<REPLRoot>, calls: Seq<RootCall>)
    requires
        roots.len() == calls.len() + 1,
        forall|i: int| 0 <= i < calls.len() ==> #[trigger] roots[i].adds(roots[i + 1], calls[i]),
    ensures
        roots.last().ast_has_been_changed == (roots[0].ast_has_been_changed || calls.len() > 0),
        roots.last().commands@ == roots[0].commands@ + calls_commands(calls),
    decreases calls.len(),
{
    if calls.len() > 0 {
        let n = calls.len() - 1;
        let rs = roots.drop_last();
        let cs = calls.drop_last();
        assert forall|i: int| 0 <= i < cs.len() implies #[trigger] rs[i].adds(rs[i + 1], cs[i]) by {
            assert(roots[i].adds(roots[i + 1], calls[i]));
        }
        lemma_change_record_history(rs, cs);
        assert(roots[n].adds(roots[n + 1], calls[n]));
        assert(rs.last() == roots[n]);
        assert(roots.last() == roots[n + 1]);
        assert(roots.last().commands@ =~= roots[0].commands@ + calls_commands(calls));
    }
}

impl REPLRoot {
    pub fn new() -> (r: REPLRoot)
        ensures
            r.commands@ == Seq::<REPLCommandKey>::empty(),
            r.new_commands_start_at == 0,
            !r.ast_has_been_changed,
    {
        REPLRoot { commands: Vec::new(), new_commands_start_at: 0, ast_has_been_changed: false }
    }

    /// Appends one command; the new commands then start where it stands.
    pub fn add_command(&mut self, new_command: REPLCommandKey)
        ensures
            final(self).commands@ == old(self).commands@.push(new_command),
            final(self).new_commands_start_at == old(self).commands@.len(),
            final(self).commands@.skip(final(self).new_commands_start_at as int) == seq![new_command],
            final(self).ast_has_been_changed,
            old(self).adds(*final(self), RootCall::Command(new_command)),
    {
        self.ast_has_been_changed = true;
        self.new_commands_start_at = self.commands.len();
        self.commands.push(new_command);
        proof {
            assert(self.commands@.skip(self.new_commands_start_at as int) =~= seq![new_command]);
            assert(self.commands@ =~= old(self).commands@ + seq![new_command]);
        }
    }

    /// Appends commands in order; the new commands then start after the old ones.
    pub fn add_commands(&mut self, new_commands: Vec<REPLCommandKey>)
        ensures
            final(self).commands@ == old(self).commands@ + new_commands@,
            final(self).new_commands_start_at == old(self).commands@.len(),
            final(self).commands@.skip(final(self).new_commands_start_at as int) == new_commands@,
            final(self).ast_has_been_changed,
            old(self).adds(*final(self), RootCall::Commands(new_commands@)),
    {
        let ghost added = new_commands@;
        let mut new_commands = new_commands;
        self.ast_has_been_changed = true;
        self.new_commands_start_at = self.commands.len();
        self.commands.append(&mut new_commands);
        proof {
            assert(self.commands@.skip(self.new_commands_start_at as int) =~= added);
        }
    }
}

impl FileRoot {
    pub fn new() -> (r: FileRoot)
        ensures
            r.file.is_none(),
    {
        FileRoot { file: None }
    }

    pub fn set_file(&mut self, new_file: FileKey)
        ensures
            final(self).file == Some(new_file),
    {
        self.file = Some(new_file);
    }
}

impl File {
    /// `after` is `self` with `v` appended to its statements, its expression kept.
    pub open spec fn appends(self, after: File, v: Seq<StatementKey>) -> bool {
        &&& after.statements@ == self.statements@ + v
        &&& after.expression == self.expression
    }
}

/// Adding statements one at a time, in order, appends them all.
proof fn lemma_appended_one_by_one(files: Seq<File>, v: Seq<StatementKey>)
    requires
        files.len() == v.len() + 1,
        forall|i: int| 0 <= i < v.len() ==> #[trigger] files[i].appends(files[i + 1], seq![v[i]]),
    ensures
        files[0].appends(files.last(), v),
    decreases v.len(),
{
    if v.len() > 0 {
        let n = v.len() - 1;
        let fs = files.drop_last();
        let vs = v.drop_last();
        assert forall|i: int| 0 <= i < vs.len() implies #[trigger] fs[i].appends(fs[i + 1], seq![vs[i]]) by {
            assert(files[i].appends(files[i + 1], seq![v[i]]));
        }
        lemma_appended_one_by_one(fs, vs);
        assert(files[n].appends(files[n + 1], seq![v[n]]));
        assert(fs.last() == files[n]);
        assert(files[0].statements@ + v =~= files[0].statements@ + vs + seq![v[n]]);
    }
}

/// `add_statements(v)` does what `add_statement(x)` does for each `x` of `v`
/// in order: `whole` is a file after the first, `files` the same file after
/// each call of the second, and the two end with the same statements and the
/// same expression.
pub proof fn lemma_add_statements_is_add_statement_in_turn(files: Seq<File>, v: Seq<StatementKey>, whole: File)
    requires
        files.len() == v.len() + 1,
        forall|i: int| 0 <= i < v.len() ==> #[trigger] files[i].appends(files[i + 1], seq![v[i]]),
        files[0].appends(whole, v),
    ensures
        whole.statements@ == files.last().statements@,
        whole.expression == files.last().expression,
        whole.statements@ == files[0].statements@ + v,
{
    lemma_appended_one_by_one(files, v);
}

impl File {
    pub fn new(statements: Vec<StatementKey>, expression: Option<ExpressionKey>) -> (r: File)
        ensures
            r.statements@ == statements@,
            r.expression == expression,
    {
        File { statements, expression }
    }

    pub fn set_statements(&mut self, new_statements: Vec<StatementKey>)
        ensures
            final(self).statements@ == new_statements@,
            final(self).expression == old(self).expression,
    {
        self.statements = new_statements;
    }

    pub fn set_expression(&mut self, expression: ExpressionKey)
        ensures
            final(self).statements@ == old(self).statements@,
            final(self).expression == Some(expression),
    {
        self.expression = Some(expression);
    }

    pub fn add_statement(&mut self, new_statement: StatementKey)
        ensures
            final(self).statements@ == old(self).statements@.push(new_statement),
            final(self).expression == old(self).expression,
            old(self).appends(*final(self), seq![new_statement]),
    {
        self.statements.push(new_statement);
        proof {
            assert(self.statements@ =~= old(self).statements@ + seq![new_statement]);
        }
    }

    pub fn add_statements(&mut self, new_statements: Vec<StatementKey>)
        ensures
            final(self).statements@ == old(self).statements@ + new_statements@,
            final(self).expression == old(self).expression,
            old(self).appends(*final(self), new_statements@),
    {
        let mut new_statements = new_statements;
        self.statements.append(&mut new_statements);
    }
}

impl VariableDeclaration {
    pub fn new(
        mutable: bool,
        name: String,
        identifier: IdentifierKey,
        type_hint: Option<TypeHintKey>,
        expression: ExpressionKey,
        token: Token,
    ) -> (r: VariableDeclaration)
        ensures
            r.mutable == mutable,
            r.name == name,
            r.identifier == identifier,
            r.type_hint == type_hint,
            r.expression == expression,
            r.token == token,
            r.symbol.is_none(),
    {
        VariableDeclaration { mutable, name, identifier, type_hint, expression, token, symbol: None }
    }

    pub fn get_token(&self) -> (r: &Token)
        ensures
            *r == self.token,
    {
        &self.token
    }
}

impl VariableAssignment {
    pub fn new(name: String, identifier: IdentifierKey, expression: ExpressionKey, token: Token) -> (r:
        VariableAssignment)
        ensures
            r.name == name,
            r.identifier == identifier,
            r.expression == expression,
            r.token == token,
            r.symbol.is_none(),
    {
        VariableAssignment { name, identifier, expression, token, symbol: None }
    }

    pub fn get_token(&self) -> (r: &Token)
        ensures
            *r == self.token,
    {
        &self.token
    }
}

impl BinaryExpression {
    pub fn new(operator: BinaryOperator, token: Token, left: ExpressionKey, right: ExpressionKey) -> (r:
        BinaryExpression)
        ensures
            r.operator == operator,
            r.token == token,
            r.data_type == untyped(),
            r.left == left,
            r.right == right,
    {
        BinaryExpression { operator, token, data_type: DataType::new(Type::UnTyped), left, right }
    }

    pub fn get_token(&self) -> (r: &Token)
        ensures
            *r == self.token,
    {
        &self.token
    }

    pub fn set_left(&mut self, new_child: ExpressionKey)
        ensures
            *final(self) == (BinaryExpression { left: new_child, ..*old(self) }),
    {
        self.left = new_child;
    }

    pub fn set_right(&mut self, new_child: ExpressionKey)
        ensures
            *final(self) == (BinaryExpression { right: new_child, ..*old(self) }),
    {
        self.right = new_child;
    }

    pub fn get_type(&self) -> (r: DataType)
        ensures
            r == self.data_type,
    {
        self.data_type
    }

    pub fn set_type(&mut self, data_type: DataType)
        ensures
            *final(self) == (BinaryExpression { data_type, ..*old(self) }),
    {
        self.data_type = data_type;
    }
}

impl UnaryExpression {
    pub fn new(operator: UnaryOperator, token: Token, operand: ExpressionKey) -> (r: UnaryExpression)
        ensures
            r.operator == operator,
            r.token == token,
            r.data_type == untyped(),
            r.operand == operand,
    {
        UnaryExpression { operator, token, data_type: DataType::new(Type::UnTyped), operand }
    }

    pub fn get_token(&self) -> (r: &Token)
        ensures
            *r == self.token,
    {
        &self.token
    }

    pub fn set_operand(&mut self, new_child: ExpressionKey)
        ensures
            *final(self) == (UnaryExpression { operand: new_child, ..*old(self) }),
    {
        self.operand = new_child;
    }

    pub fn get_type(&self) -> (r: DataType)
        ensures
            r == self.data_type,
    {
        self.data_type
    }

    pub fn set_type(&mut self, data_type: DataType)
        ensures
            *final(self) == (UnaryExpression { data_type, ..*old(self) }),
    {
        self.data_type = data_type;
    }
}

impl VariableExpression {
    pub fn new(name: String, token: Token) -> (r: VariableExpression)
        ensures
            r.name == name,
            r.token == token,
            r.symbol.is_none(),
    {
        VariableExpression { name, symbol: None, token }
    }

    /// The type of the variable's symbol; untyped while it has none. (What a
    /// symbol holds is read from a shared cell, see `symbol_cell_type`.)
    pub fn get_type(&self) -> (r: DataType)
        ensures
            self.symbol.is_none() ==> r == untyped(),
    {
        match &self.symbol {
            Some(symbol) => symbol_cell_type(symbol),
            None => DataType::new(Type::UnTyped),
        }
    }

    /// Writes the type into the variable's symbol, which must exist.
    pub fn set_type(&mut self, data_type: DataType)
        requires
            old(self).symbol.is_some(),
        ensures
            *final(self) == *old(self),
    {
        match &self.symbol {
            Some(symbol) => symbol_cell_set_type(symbol, data_type),
            None => {},
        }
    }

    pub fn get_token(&self) -> (r: &Token)
        ensures
            *r == self.token,
    {
        &self.token
    }
}

impl LiteralExpression {
    pub fn new(value: Literal, token: Token) -> (r: LiteralExpression)
        ensures
            r.value == value,
            r.token == token,
            r.data_type == untyped(),
    {
        LiteralExpression { value, token, data_type: DataType::new(Type::UnTyped) }
    }

    pub fn get_type(&self) -> (r: DataType)
        ensures
            r == self.data_type,
    {
        self.data_type
    }

    pub fn set_type(&mut self, data_type: DataType)
        ensures
            *final(self) == (LiteralExpression { data_type, ..*old(self) }),
    {
        self.data_type = data_type;
    }

    pub fn get_token(&self) -> (r: &Token)
        ensures
            *r == self.token,
    {
        &self.token
    }
}

impl Identifier {
    pub fn new(name: String, token: Token) -> (r: Identifier)
        ensures
            r.name == name,
            r.token == token,
    {
        Identifier { name, token }
    }

    pub fn get_token(&self) -> (r: &Token)
        ensures
            *r == self.token,
    {
        &self.token
    }
}

impl TypeHint {
    pub fn new(data_type: DataType, token: Token) -> (r: TypeHint)
        ensures
            r.data_type == data_type,
            r.token == token,
    {
        TypeHint { data_type, token }
    }

    pub fn get_type(&self) -> (r: DataType)
        ensures
            r == self.data_type,
    {
        self.data_type
    }

    pub fn get_token(&self) -> (r: &Token)
        ensures
            *r == self.token,
    {
        &self.token
    }
}

} // verus!

verus! {

impl ASTNode {
    pub open spec fn is_repl_root(self) -> bool {
        self matches ASTNode::Root(Root::REPL(_))
    }

    pub open spec fn is_file_root(self) -> bool {
        self matches ASTNode::Root(Root::File(_))
    }

    pub open spec fn is_file(self) -> bool {
        self matches ASTNode::File(_)
    }

    pub open spec fn is_var_decl(self) -> bool {
        self matches ASTNode::Statement(Statement::VarDecl(_))
    }

    pub open spec fn is_var_assmt(self) -> bool {
        self matches ASTNode::Statement(Statement::VarAssmt(_))
    }

    pub open spec fn is_binary(self) -> bool {
        self matches ASTNode::Expression(Expression::Binary(_))
    }

    pub open spec fn is_unary(self) -> bool {
        self matches ASTNode::Expression(Expression::Unary(_))
    }

    pub open spec fn is_variable(self) -> bool {
        self matches ASTNode::Expression(Expression::Variable(_))
    }

    pub open spec fn is_literal(self) -> bool {
        self matches ASTNode::Expression(Expression::Literal(_))
    }

    pub open spec fn is_identifier(self) -> bool {
        self matches ASTNode::Identifier(_)
    }

    pub open spec fn is_type_hint(self) -> bool {
        self matches ASTNode::TypeHint(_)
    }

    pub open spec fn repl_root(self) -> REPLRoot {
        match self {
            ASTNode::Root(Root::REPL(n)) => n,
            _ => arbitrary(),
        }
    }

    pub open spec fn file_root(self) -> FileRoot {
        match self {
            ASTNode::Root(Root::File(n)) => n,
            _ => arbitrary(),
        }
    }

    pub open spec fn file(self) -> File {
        match self {
            ASTNode::File(n) => n,
            _ => arbitrary(),
        }
    }

    pub open spec fn var_decl(self) -> VariableDeclaration {
        match self {
            ASTNode::Statement(Statement::VarDecl(n)) => n,
            _ => arbitrary(),
        }
    }

    pub open spec fn var_assmt(self) -> VariableAssignment {
        match self {
            ASTNode::Statement(Statement::VarAssmt(n)) => n,
            _ => arbitrary(),
        }
    }

    pub open spec fn binary(self) -> BinaryExpression {
        match self {
            ASTNode::Expression(Expression::Binary(n)) => n,
            _ => arbitrary(),
        }
    }

    pub open spec fn unary(self) -> UnaryExpression {
        match self {
            ASTNode::Expression(Expression::Unary(n)) => n,
            _ => arbitrary(),
        }
    }

    pub open spec fn variable(self) -> VariableExpression {
        match self {
            ASTNode::Expression(Expression::Variable(n)) => n,
            _ => arbitrary(),
        }
    }

    pub open spec fn literal(self) -> LiteralExpression {
        match self {
            ASTNode::Expression(Expression::Literal(n)) => n,
            _ => arbitrary(),
        }
    }

    pub open spec fn identifier(self) -> Identifier {
        match self {
            ASTNode::Identifier(n) => n,
            _ => arbitrary(),
        }
    }

    pub open spec fn type_hint(self) -> TypeHint {
        match self {
            ASTNode::TypeHint(n) => n,
            _ => arbitrary(),
        }
    }
}

} // verus!
