//! The syntax tree: one arena per kind of node, and a root.
use crate::nodes::{
    ASTNode, BinaryExpression, BinaryExpressionKey, Expression, File, FileKey, FileRoot, FileRootKey,
    Identifier, IdentifierKey, LiteralExpression, LiteralExpressionKey, REPLRoot, REPLRootKey, Root,
    RootKey, Statement, TypeHint, TypeHintKey, UnaryExpression, UnaryExpressionKey,
    VariableAssignment, VariableAssignmentKey, VariableDeclaration, VariableDeclarationKey,
    VariableExpression, VariableExpressionKey, RootCall, calls_commands, lemma_change_record_history,
};
use crate::outside::{arena_contents, arena_get, arena_get_mut, arena_insert, arena_limit, arena_new, occupied_form, NodeArena};
use vstd::pervasive::unreached;
use vstd::prelude::*;

verus! {

/// A syntax tree. Every node lives in the arena of its kind and is reached
/// through a key of that kind.
pub struct AST {
    pub root: RootKey,
    pub file_nodes: NodeArena,
    pub repl_root_nodes: NodeArena,
    pub file_root_nodes: NodeArena,
    pub variable_declaration_nodes: NodeArena,
    pub variable_assignment_nodes: NodeArena,
    pub binary_expression_nodes: NodeArena,
    pub unary_expression_nodes: NodeArena,
    pub variable_expression_nodes: NodeArena,
    pub literal_expression_nodes: NodeArena,
    pub identifier_nodes: NodeArena,
    pub type_hint_nodes: NodeArena,
}

/// An AST as maps from key values to nodes, one map per arena.
pub struct AstView {
    pub root: RootKey,
    pub files: Map<u64, ASTNode>,
    pub repl_roots: Map<u64, ASTNode>,
    pub file_roots: Map<u64, ASTNode>,
    pub var_decls: Map<u64, ASTNode>,
    pub var_assmts: Map<u64, ASTNode>,
    pub binaries: Map<u64, ASTNode>,
    pub unaries: Map<u64, ASTNode>,
    pub variables: Map<u64, ASTNode>,
    pub literals: Map<u64, ASTNode>,
    pub identifiers: Map<u64, ASTNode>,
    pub type_hints: Map<u64, ASTNode>,
}

impl View for AST {
    type V = AstView;

    open spec fn view(&self) -> AstView {
        AstView {
            root: self.root,
            files: arena_contents(self.file_nodes),
            repl_roots: arena_contents(self.repl_root_nodes),
            file_roots: arena_contents(self.file_root_nodes),
            var_decls: arena_contents(self.variable_declaration_nodes),
            var_assmts: arena_contents(self.variable_assignment_nodes),
            binaries: arena_contents(self.binary_expression_nodes),
            unaries: arena_contents(self.unary_expression_nodes),
            variables: arena_contents(self.variable_expression_nodes),
            literals: arena_contents(self.literal_expression_nodes),
            identifiers: arena_contents(self.identifier_nodes),
            type_hints: arena_contents(self.type_hint_nodes),
        }
    }
}

/// `big` holds every entry of `small`, unchanged (so it holds no fewer).
pub open spec fn map_grows(small: Map<u64, ASTNode>, big: Map<u64, ASTNode>) -> bool {
    &&& forall|k: u64| #[trigger] small.contains_key(k) ==> big.contains_key(k) && big[k] == small[k]
    &&& small.dom().len() <= big.dom().len()
}

/// Every key of an arena has the form of a live key (an odd version).
pub open spec fn keys_occupied(m: Map<u64, ASTNode>) -> bool {
    forall|k: u64| #[trigger] m.contains_key(k) ==> occupied_form(k)
}

impl AstView {
    /// Every arena is finite, holds only nodes of its own kind under keys of
    /// the form the arena gives out, and the root key is live.
    pub open spec fn wf(self) -> bool {
        &&& self.files.dom().finite()
        &&& self.repl_roots.dom().finite()
        &&& self.file_roots.dom().finite()
        &&& self.var_decls.dom().finite()
        &&& self.var_assmts.dom().finite()
        &&& self.binaries.dom().finite()
        &&& self.unaries.dom().finite()
        &&& self.variables.dom().finite()
        &&& self.literals.dom().finite()
        &&& self.identifiers.dom().finite()
        &&& self.type_hints.dom().finite()
        &&& keys_occupied(self.files)
        &&& keys_occupied(self.repl_roots)
        &&& keys_occupied(self.file_roots)
        &&& keys_occupied(self.var_decls)
        &&& keys_occupied(self.var_assmts)
        &&& keys_occupied(self.binaries)
        &&& keys_occupied(self.unaries)
        &&& keys_occupied(self.variables)
        &&& keys_occupied(self.literals)
        &&& keys_occupied(self.identifiers)
        &&& keys_occupied(self.type_hints)
        &&& forall|k: u64| #[trigger] self.files.contains_key(k) ==> self.files[k].is_file()
        &&& forall|k: u64| #[trigger] self.repl_roots.contains_key(k) ==> self.repl_roots[k].is_repl_root()
        &&& forall|k: u64| #[trigger] self.file_roots.contains_key(k) ==> self.file_roots[k].is_file_root()
        &&& forall|k: u64| #[trigger] self.var_decls.contains_key(k) ==> self.var_decls[k].is_var_decl()
        &&& forall|k: u64| #[trigger] self.var_assmts.contains_key(k) ==> self.var_assmts[k].is_var_assmt()
        &&& forall|k: u64| #[trigger] self.binaries.contains_key(k) ==> self.binaries[k].is_binary()
        &&& forall|k: u64| #[trigger] self.unaries.contains_key(k) ==> self.unaries[k].is_unary()
        &&& forall|k: u64| #[trigger] self.variables.contains_key(k) ==> self.variables[k].is_variable()
        &&& forall|k: u64| #[trigger] self.literals.contains_key(k) ==> self.literals[k].is_literal()
        &&& forall|k: u64| #[trigger] self.identifiers.contains_key(k) ==> self.identifiers[k].is_identifier()
        &&& forall|k: u64| #[trigger] self.type_hints.contains_key(k) ==> self.type_hints[k].is_type_hint()
        &&& match self.root {
            RootKey::REPL(k) => self.repl_roots.contains_key(k.id),
            RootKey::File(k) => self.file_roots.contains_key(k.id),
        }
    }

    /// Every arena has room for `n` more nodes.
    pub open spec fn room(self, n: int) -> bool {
        &&& self.files.dom().len() + n < arena_limit()
        &&& self.repl_roots.dom().len() + n < arena_limit()
        &&& self.file_roots.dom().len() + n < arena_limit()
        &&& self.var_decls.dom().len() + n < arena_limit()
        &&& self.var_assmts.dom().len() + n < arena_limit()
        &&& self.binaries.dom().len() + n < arena_limit()
        &&& self.unaries.dom().len() + n < arena_limit()
        &&& self.variables.dom().len() + n < arena_limit()
        &&& self.literals.dom().len() + n < arena_limit()
        &&& self.identifiers.dom().len() + n < arena_limit()
        &&& self.type_hints.dom().len() + n < arena_limit()
    }

    /// `self` and `other` agree on every arena but those of expressions.
    pub open spec fn same_beside_expressions(self, other: AstView) -> bool {
        &&& self.files == other.files
        &&& self.repl_roots == other.repl_roots
        &&& self.file_roots == other.file_roots
        &&& self.var_decls == other.var_decls
        &&& self.var_assmts == other.var_assmts
        &&& self.identifiers == other.identifiers
        &&& self.type_hints == other.type_hints
    }

    /// The number of nodes in all arenas together.
    pub open spec fn count(self) -> nat {
        self.files.dom().len() + self.repl_roots.dom().len() + self.file_roots.dom().len()
            + self.var_decls.dom().len() + self.var_assmts.dom().len() + self.binaries.dom().len()
            + self.unaries.dom().len() + self.variables.dom().len() + self.literals.dom().len()
            + self.identifiers.dom().len() + self.type_hints.dom().len()
    }

    /// Whether the root is a REPL root that records a change.
    pub open spec fn changed(self) -> bool {
        match self.root {
            RootKey::File(_) => false,
            RootKey::REPL(k) => self.repl_roots[k.id].repl_root().ast_has_been_changed,
        }
    }

    /// The tree with the change record of its REPL root cleared; a file tree
    /// stays as it is.
    pub open spec fn clear_changed(self) -> AstView {
        match self.root {
            RootKey::File(_) => self,
            RootKey::REPL(k) => AstView {
                repl_roots: self.repl_roots.insert(
                    k.id,
                    ASTNode::Root(
                        Root::REPL(REPLRoot { ast_has_been_changed: false, ..self.repl_roots[k.id].repl_root() }),
                    ),
                ),
                ..self
            },
        }
    }

    /// `self` holds every node of `other`, unchanged, under the same key, and
    /// the same root.
    pub open spec fn extends(self, other: AstView) -> bool {
        &&& self.root == other.root
        &&& map_grows(other.repl_roots, self.repl_roots)
        &&& map_grows(other.file_roots, self.file_roots)
        &&& self.extends_below_root(other)
    }

    /// `self` holds every node of `other` other than roots, unchanged, under
    /// the same key.
    pub open spec fn extends_below_root(self, other: AstView) -> bool {
        &&& map_grows(other.files, self.files)
        &&& map_grows(other.var_decls, self.var_decls)
        &&& map_grows(other.var_assmts, self.var_assmts)
        &&& map_grows(other.binaries, self.binaries)
        &&& map_grows(other.unaries, self.unaries)
        &&& map_grows(other.variables, self.variables)
        &&& map_grows(other.literals, self.literals)
        &&& map_grows(other.identifiers, self.identifiers)
        &&& map_grows(other.type_hints, self.type_hints)
    }
}

impl AST {
    /// A tree with only a root: a REPL root when `repl_mode`, else a file root.
    pub fn new(repl_mode: bool) -> (r: AST)
        ensures
            r@.wf(),
            r@.count() == 1,
            repl_mode ==> r@.root is REPL,
            !repl_mode ==> r@.root is File,
            match r@.root {
                RootKey::REPL(k) => {
                    &&& r@.repl_roots == map![k.id => ASTNode::Root(Root::REPL(r@.repl_roots[k.id].repl_root()))]
                    &&& r@.repl_roots[k.id].repl_root().commands@.len() == 0
                    &&& r@.repl_roots[k.id].repl_root().new_commands_start_at == 0
                    &&& !r@.repl_roots[k.id].repl_root().ast_has_been_changed
                    &&& r@.file_roots.is_empty()
                },
                RootKey::File(k) => {
                    &&& r@.file_roots == map![k.id => ASTNode::Root(Root::File(FileRoot { file: None }))]
                    &&& r@.repl_roots.is_empty()
                },
            },
            r@.files.is_empty(),
            r@.var_decls.is_empty(),
            r@.var_assmts.is_empty(),
            r@.binaries.is_empty(),
            r@.unaries.is_empty(),
            r@.variables.is_empty(),
            r@.literals.is_empty(),
            r@.identifiers.is_empty(),
            r@.type_hints.is_empty(),
    {
        let mut repl_root_nodes = arena_new();
        let mut file_root_nodes = arena_new();
        let root;
        if repl_mode {
            let id = arena_insert(&mut repl_root_nodes, ASTNode::Root(Root::REPL(REPLRoot::new())));
            root = RootKey::REPL(REPLRootKey { id });
        } else {
            let id = arena_insert(&mut file_root_nodes, ASTNode::Root(Root::File(FileRoot::new())));
            root = RootKey::File(FileRootKey { id });
        }
        let r = AST {
            root,
            file_nodes: arena_new(),
            repl_root_nodes,
            file_root_nodes,
            variable_declaration_nodes: arena_new(),
            variable_assignment_nodes: arena_new(),
            binary_expression_nodes: arena_new(),
            unary_expression_nodes: arena_new(),
            variable_expression_nodes: arena_new(),
            literal_expression_nodes: arena_new(),
            identifier_nodes: arena_new(),
            type_hint_nodes: arena_new(),
        };
        proof {
            assert(r@.repl_roots.dom().len() + r@.file_roots.dom().len() == 1);
        }
        r
    }

    /// For a REPL tree: whether commands were added since the last call, and
    /// the flag is then cleared. A file tree answers `false`.
    pub fn has_been_changed(&mut self) -> (r: bool)
        requires
            old(self)@.wf(),
        ensures
            final(self)@.wf(),
            final(self)@.count() == old(self)@.count(),
            r == old(self)@.changed(),
            final(self)@ == old(self)@.clear_changed(),
    {
        match self.root {
            RootKey::File(_) => false,
            RootKey::REPL(repl) => {
                let root = self.get_repl_root_mut(repl);
                let answer = root.ast_has_been_changed;
                root.ast_has_been_changed = false;
                answer
            },
        }
    }

    pub fn get_repl_root(&self, key: REPLRootKey) -> (r: &REPLRoot)
        requires
            self@.wf(),
            self@.repl_roots.contains_key(key.id),
        ensures
            *r == self@.repl_roots[key.id].repl_root(),
    {
        match arena_get(&self.repl_root_nodes, key.id) {
            ASTNode::Root(Root::REPL(n)) => n,
            _ => unreached(),
        }
    }

    pub fn get_repl_root_mut(&mut self, key: REPLRootKey) -> (r: &mut REPLRoot)
        requires
            old(self)@.wf(),
            old(self)@.repl_roots.contains_key(key.id),
        ensures
            *r == old(self)@.repl_roots[key.id].repl_root(),
            final(self)@ == (AstView {
                repl_roots: old(self)@.repl_roots.insert(key.id, ASTNode::Root(Root::REPL(*final(r)))),
                ..old(self)@
            }),
            final(self)@.wf(),
            final(self)@.count() == old(self)@.count(),
    {
        match arena_get_mut(&mut self.repl_root_nodes, key.id) {
            ASTNode::Root(Root::REPL(n)) => n,
            _ => unreached(),
        }
    }

    pub fn new_repl_root(&mut self, node: REPLRoot) -> (r: REPLRootKey)
        requires
            old(self)@.wf(),
            old(self)@.repl_roots.dom().len() < arena_limit(),
        ensures
            !old(self)@.repl_roots.contains_key(r.id),
            final(self)@ == (AstView {
                repl_roots: old(self)@.repl_roots.insert(r.id, ASTNode::Root(Root::REPL(node))),
                ..old(self)@
            }),
            final(self)@.wf(),
            final(self)@.count() == old(self)@.count() + 1,
    {
        let id = arena_insert(&mut self.repl_root_nodes, ASTNode::Root(Root::REPL(node)));
        REPLRootKey { id }
    }

    pub fn get_file_root(&self, key: FileRootKey) -> (r: &FileRoot)
        requires
            self@.wf(),
            self@.file_roots.contains_key(key.id),
        ensures
            *r == self@.file_roots[key.id].file_root(),
    {
        match arena_get(&self.file_root_nodes, key.id) {
            ASTNode::Root(Root::File(n)) => n,
            _ => unreached(),
        }
    }

    pub fn get_file_root_mut(&mut self, key: FileRootKey) -> (r: &mut FileRoot)
        requires
            old(self)@.wf(),
            old(self)@.file_roots.contains_key(key.id),
        ensures
            *r == old(self)@.file_roots[key.id].file_root(),
            final(self)@ == (AstView {
                file_roots: old(self)@.file_roots.insert(key.id, ASTNode::Root(Root::File(*final(r)))),
                ..old(self)@
            }),
            final(self)@.wf(),
            final(self)@.count() == old(self)@.count(),
    {
        match arena_get_mut(&mut self.file_root_nodes, key.id) {
            ASTNode::Root(Root::File(n)) => n,
            _ => unreached(),
        }
    }

    pub fn new_file_root(&mut self, node: FileRoot) -> (r: FileRootKey)
        requires
            old(self)@.wf(),
            old(self)@.file_roots.dom().len() < arena_limit(),
        ensures
            !old(self)@.file_roots.contains_key(r.id),
            final(self)@ == (AstView {
                file_roots: old(self)@.file_roots.insert(r.id, ASTNode::Root(Root::File(node))),
                ..old(self)@
            }),
            final(self)@.wf(),
            final(self)@.count() == old(self)@.count() + 1,
    {
        let id = arena_insert(&mut self.file_root_nodes, ASTNode::Root(Root::File(node)));
        FileRootKey { id }
    }

    pub fn get_file(&self, key: FileKey) -> (r: &File)
        requires
            self@.wf(),
            self@.files.contains_key(key.id),
        ensures
            *r == self@.files[key.id].file(),
    {
        match arena_get(&self.file_nodes, key.id) {
            ASTNode::File(n) => n,
            _ => unreached(),
        }
    }

    pub fn get_file_mut(&mut self, key: FileKey) -> (r: &mut File)
        requires
            old(self)@.wf(),
            old(self)@.files.contains_key(key.id),
        ensures
            *r == old(self)@.files[key.id].file(),
            final(self)@ == (AstView {
                files: old(self)@.files.insert(key.id, ASTNode::File(*final(r))),
                ..old(self)@
            }),
            final(self)@.wf(),
            final(self)@.count() == old(self)@.count(),
    {
        match arena_get_mut(&mut self.file_nodes, key.id) {
            ASTNode::File(n) => n,
            _ => unreached(),
        }
    }

    pub fn new_file(&mut self, node: File) -> (r: FileKey)
        requires
            old(self)@.wf(),
            old(self)@.files.dom().len() < arena_limit(),
        ensures
            !old(self)@.files.contains_key(r.id),
            final(self)@ == (AstView {
                files: old(self)@.files.insert(r.id, ASTNode::File(node)),
                ..old(self)@
            }),
            final(self)@.wf(),
            final(self)@.count() == old(self)@.count() + 1,
    {
        let id = arena_insert(&mut self.file_nodes, ASTNode::File(node));
        FileKey { id }
    }

    pub fn get_variable_declaration(&self, key: VariableDeclarationKey) -> (r: &VariableDeclaration)
        requires
            self@.wf(),
            self@.var_decls.contains_key(key.id),
        ensures
            *r == self@.var_decls[key.id].var_decl(),
    {
        match arena_get(&self.variable_declaration_nodes, key.id) {
            ASTNode::Statement(Statement::VarDecl(n)) => n,
            _ => unreached(),
        }
    }

    pub fn get_variable_declaration_mut(&mut self, key: VariableDeclarationKey) -> (r: &mut VariableDeclaration)
        requires
            old(self)@.wf(),
            old(self)@.var_decls.contains_key(key.id),
        ensures
            *r == old(self)@.var_decls[key.id].var_decl(),
            final(self)@ == (AstView {
                var_decls: old(self)@.var_decls.insert(key.id, ASTNode::Statement(Statement::VarDecl(*final(r)))),
                ..old(self)@
            }),
            final(self)@.wf(),
            final(self)@.count() == old(self)@.count(),
    {
        match arena_get_mut(&mut self.variable_declaration_nodes, key.id) {
            ASTNode::Statement(Statement::VarDecl(n)) => n,
            _ => unreached(),
        }
    }

    pub fn new_variable_declaration(&mut self, node: VariableDeclaration) -> (r: VariableDeclarationKey)
        requires
            old(self)@.wf(),
            old(self)@.var_decls.dom().len() < arena_limit(),
        ensures
            !old(self)@.var_decls.contains_key(r.id),
            final(self)@ == (AstView {
                var_decls: old(self)@.var_decls.insert(r.id, ASTNode::Statement(Statement::VarDecl(node))),
                ..old(self)@
            }),
            final(self)@.wf(),
            final(self)@.count() == old(self)@.count() + 1,
    {
        let id = arena_insert(&mut self.variable_declaration_nodes, ASTNode::Statement(Statement::VarDecl(node)));
        VariableDeclarationKey { id }
    }

    pub fn get_variable_assignment(&self, key: VariableAssignmentKey) -> (r: &VariableAssignment)
        requires
            self@.wf(),
            self@.var_assmts.contains_key(key.id),
        ensures
            *r == self@.var_assmts[key.id].var_assmt(),
    {
        match arena_get(&self.variable_assignment_nodes, key.id) {
            ASTNode::Statement(Statement::VarAssmt(n)) => n,
            _ => unreached(),
        }
    }

    pub fn get_variable_assignment_mut(&mut self, key: VariableAssignmentKey) -> (r: &mut VariableAssignment)
        requires
            old(self)@.wf(),
            old(self)@.var_assmts.contains_key(key.id),
        ensures
            *r == old(self)@.var_assmts[key.id].var_assmt(),
            final(self)@ == (AstView {
                var_assmts: old(self)@.var_assmts.insert(key.id, ASTNode::Statement(Statement::VarAssmt(*final(r)))),
                ..old(self)@
            }),
            final(self)@.wf(),
            final(self)@.count() == old(self)@.count(),
    {
        match arena_get_mut(&mut self.variable_assignment_nodes, key.id) {
            ASTNode::Statement(Statement::VarAssmt(n)) => n,
            _ => unreached(),
        }
    }

    pub fn new_variable_assignment(&mut self, node: VariableAssignment) -> (r: VariableAssignmentKey)
        requires
            old(self)@.wf(),
            old(self)@.var_assmts.dom().len() < arena_limit(),
        ensures
            !old(self)@.var_assmts.contains_key(r.id),
            final(self)@ == (AstView {
                var_assmts: old(self)@.var_assmts.insert(r.id, ASTNode::Statement(Statement::VarAssmt(node))),
                ..old(self)@
            }),
            final(self)@.wf(),
            final(self)@.count() == old(self)@.count() + 1,
    {
        let id = arena_insert(&mut self.variable_assignment_nodes, ASTNode::Statement(Statement::VarAssmt(node)));
        VariableAssignmentKey { id }
    }

    pub fn get_binary_expression(&self, key: BinaryExpressionKey) -> (r: &BinaryExpression)
        requires
            self@.wf(),
            self@.binaries.contains_key(key.id),
        ensures
            *r == self@.binaries[key.id].binary(),
    {
        match arena_get(&self.binary_expression_nodes, key.id) {
            ASTNode::Expression(Expression::Binary(n)) => n,
            _ => unreached(),
        }
    }

    pub fn get_binary_expression_mut(&mut self, key: BinaryExpressionKey) -> (r: &mut BinaryExpression)
        requires
            old(self)@.wf(),
            old(self)@.binaries.contains_key(key.id),
        ensures
            *r == old(self)@.binaries[key.id].binary(),
            final(self)@ == (AstView {
                binaries: old(self)@.binaries.insert(key.id, ASTNode::Expression(Expression::Binary(*final(r)))),
                ..old(self)@
            }),
            final(self)@.wf(),
            final(self)@.count() == old(self)@.count(),
    {
        match arena_get_mut(&mut self.binary_expression_nodes, key.id) {
            ASTNode::Expression(Expression::Binary(n)) => n,
            _ => unreached(),
        }
    }

    pub fn new_binary_expression(&mut self, node: BinaryExpression) -> (r: BinaryExpressionKey)
        requires
            old(self)@.wf(),
            old(self)@.binaries.dom().len() < arena_limit(),
        ensures
            !old(self)@.binaries.contains_key(r.id),
            final(self)@ == (AstView {
                binaries: old(self)@.binaries.insert(r.id, ASTNode::Expression(Expression::Binary(node))),
                ..old(self)@
            }),
            final(self)@.wf(),
            final(self)@.count() == old(self)@.count() + 1,
    {
        let id = arena_insert(&mut self.binary_expression_nodes, ASTNode::Expression(Expression::Binary(node)));
        BinaryExpressionKey { id }
    }

    pub fn get_unary_expression(&self, key: UnaryExpressionKey) -> (r: &UnaryExpression)
        requires
            self@.wf(),
            self@.unaries.contains_key(key.id),
        ensures
            *r == self@.unaries[key.id].unary(),
    {
        match arena_get(&self.unary_expression_nodes, key.id) {
            ASTNode::Expression(Expression::Unary(n)) => n,
            _ => unreached(),
        }
    }

    pub fn get_unary_expression_mut(&mut self, key: UnaryExpressionKey) -> (r: &mut UnaryExpression)
        requires
            old(self)@.wf(),
            old(self)@.unaries.contains_key(key.id),
        ensures
            *r == old(self)@.unaries[key.id].unary(),
            final(self)@ == (AstView {
                unaries: old(self)@.unaries.insert(key.id, ASTNode::Expression(Expression::Unary(*final(r)))),
                ..old(self)@
            }),
            final(self)@.wf(),
            final(self)@.count() == old(self)@.count(),
    {
        match arena_get_mut(&mut self.unary_expression_nodes, key.id) {
            ASTNode::Expression(Expression::Unary(n)) => n,
            _ => unreached(),
        }
    }

    pub fn new_unary_expression(&mut self, node: UnaryExpression) -> (r: UnaryExpressionKey)
        requires
            old(self)@.wf(),
            old(self)@.unaries.dom().len() < arena_limit(),
        ensures
            !old(self)@.unaries.contains_key(r.id),
            final(self)@ == (AstView {
                unaries: old(self)@.unaries.insert(r.id, ASTNode::Expression(Expression::Unary(node))),
                ..old(self)@
            }),
            final(self)@.wf(),
            final(self)@.count() == old(self)@.count() + 1,
    {
        let id = arena_insert(&mut self.unary_expression_nodes, ASTNode::Expression(Expression::Unary(node)));
        UnaryExpressionKey { id }
    }

    pub fn get_variable_expression(&self, key: VariableExpressionKey) -> (r: &VariableExpression)
        requires
            self@.wf(),
            self@.variables.contains_key(key.id),
        ensures
            *r == self@.variables[key.id].variable(),
    {
        match arena_get(&self.variable_expression_nodes, key.id) {
            ASTNode::Expression(Expression::Variable(n)) => n,
            _ => unreached(),
        }
    }

    pub fn get_variable_expression_mut(&mut self, key: VariableExpressionKey) -> (r: &mut VariableExpression)
        requires
            old(self)@.wf(),
            old(self)@.variables.contains_key(key.id),
        ensures
            *r == old(self)@.variables[key.id].variable(),
            final(self)@ == (AstView {
                variables: old(self)@.variables.insert(key.id, ASTNode::Expression(Expression::Variable(*final(r)))),
                ..old(self)@
            }),
            final(self)@.wf(),
            final(self)@.count() == old(self)@.count(),
    {
        match arena_get_mut(&mut self.variable_expression_nodes, key.id) {
            ASTNode::Expression(Expression::Variable(n)) => n,
            _ => unreached(),
        }
    }

    pub fn new_variable_expression(&mut self, node: VariableExpression) -> (r: VariableExpressionKey)
        requires
            old(self)@.wf(),
            old(self)@.variables.dom().len() < arena_limit(),
        ensures
            !old(self)@.variables.contains_key(r.id),
            final(self)@ == (AstView {
                variables: old(self)@.variables.insert(r.id, ASTNode::Expression(Expression::Variable(node))),
                ..old(self)@
            }),
            final(self)@.wf(),
            final(self)@.count() == old(self)@.count() + 1,
    {
        let id = arena_insert(&mut self.variable_expression_nodes, ASTNode::Expression(Expression::Variable(node)));
        VariableExpressionKey { id }
    }

    pub fn get_literal_expression(&self, key: LiteralExpressionKey) -> (r: &LiteralExpression)
        requires
            self@.wf(),
            self@.literals.contains_key(key.id),
        ensures
            *r == self@.literals[key.id].literal(),
    {
        match arena_get(&self.literal_expression_nodes, key.id) {
            ASTNode::Expression(Expression::Literal(n)) => n,
            _ => unreached(),
        }
    }

    pub fn get_literal_expression_mut(&mut self, key: LiteralExpressionKey) -> (r: &mut LiteralExpression)
        requires
            old(self)@.wf(),
            old(self)@.literals.contains_key(key.id),
        ensures
            *r == old(self)@.literals[key.id].literal(),
            final(self)@ == (AstView {
                literals: old(self)@.literals.insert(key.id, ASTNode::Expression(Expression::Literal(*final(r)))),
                ..old(self)@
            }),
            final(self)@.wf(),
            final(self)@.count() == old(self)@.count(),
    {
        match arena_get_mut(&mut self.literal_expression_nodes, key.id) {
            ASTNode::Expression(Expression::Literal(n)) => n,
            _ => unreached(),
        }
    }

    pub fn new_literal_expression(&mut self, node: LiteralExpression) -> (r: LiteralExpressionKey)
        requires
            old(self)@.wf(),
            old(self)@.literals.dom().len() < arena_limit(),
        ensures
            !old(self)@.literals.contains_key(r.id),
            final(self)@ == (AstView {
                literals: old(self)@.literals.insert(r.id, ASTNode::Expression(Expression::Literal(node))),
                ..old(self)@
            }),
            final(self)@.wf(),
            final(self)@.count() == old(self)@.count() + 1,
    {
        let id = arena_insert(&mut self.literal_expression_nodes, ASTNode::Expression(Expression::Literal(node)));
        LiteralExpressionKey { id }
    }

    pub fn get_identifier(&self, key: IdentifierKey) -> (r: &Identifier)
        requires
            self@.wf(),
            self@.identifiers.contains_key(key.id),
        ensures
            *r == self@.identifiers[key.id].identifier(),
    {
        match arena_get(&self.identifier_nodes, key.id) {
            ASTNode::Identifier(n) => n,
            _ => unreached(),
        }
    }

    pub fn get_identifier_mut(&mut self, key: IdentifierKey) -> (r: &mut Identifier)
        requires
            old(self)@.wf(),
            old(self)@.identifiers.contains_key(key.id),
        ensures
            *r == old(self)@.identifiers[key.id].identifier(),
            final(self)@ == (AstView {
                identifiers: old(self)@.identifiers.insert(key.id, ASTNode::Identifier(*final(r))),
                ..old(self)@
            }),
            final(self)@.wf(),
            final(self)@.count() == old(self)@.count(),
    {
        match arena_get_mut(&mut self.identifier_nodes, key.id) {
            ASTNode::Identifier(n) => n,
            _ => unreached(),
        }
    }

    pub fn new_identifier(&mut self, node: Identifier) -> (r: IdentifierKey)
        requires
            old(self)@.wf(),
            old(self)@.identifiers.dom().len() < arena_limit(),
        ensures
            !old(self)@.identifiers.contains_key(r.id),
            final(self)@ == (AstView {
                identifiers: old(self)@.identifiers.insert(r.id, ASTNode::Identifier(node)),
                ..old(self)@
            }),
            final(self)@.wf(),
            final(self)@.count() == old(self)@.count() + 1,
    {
        let id = arena_insert(&mut self.identifier_nodes, ASTNode::Identifier(node));
        IdentifierKey { id }
    }

    pub fn get_type_hint(&self, key: TypeHintKey) -> (r: &TypeHint)
        requires
            self@.wf(),
            self@.type_hints.contains_key(key.id),
        ensures
            *r == self@.type_hints[key.id].type_hint(),
    {
        match arena_get(&self.type_hint_nodes, key.id) {
            ASTNode::TypeHint(n) => n,
            _ => unreached(),
        }
    }

    pub fn get_type_hint_mut(&mut self, key: TypeHintKey) -> (r: &mut TypeHint)
        requires
            old(self)@.wf(),
            old(self)@.type_hints.contains_key(key.id),
        ensures
            *r == old(self)@.type_hints[key.id].type_hint(),
            final(self)@ == (AstView {
                type_hints: old(self)@.type_hints.insert(key.id, ASTNode::TypeHint(*final(r))),
                ..old(self)@
            }),
            final(self)@.wf(),
            final(self)@.count() == old(self)@.count(),
    {
        match arena_get_mut(&mut self.type_hint_nodes, key.id) {
            ASTNode::TypeHint(n) => n,
            _ => unreached(),
        }
    }

    pub fn new_type_hint(&mut self, node: TypeHint) -> (r: TypeHintKey)
        requires
            old(self)@.wf(),
            old(self)@.type_hints.dom().len() < arena_limit(),
        ensures
            !old(self)@.type_hints.contains_key(r.id),
            final(self)@ == (AstView {
                type_hints: old(self)@.type_hints.insert(r.id, ASTNode::TypeHint(node)),
                ..old(self)@
            }),
            final(self)@.wf(),
            final(self)@.count() == old(self)@.count() + 1,
    {
        let id = arena_insert(&mut self.type_hint_nodes, ASTNode::TypeHint(node));
        TypeHintKey { id }
    }
}

/// Asking whether a tree has changed clears the answer: asked again at once,
/// it is `false`, and the second question changes nothing more.
pub proof fn lemma_changed_cleared(v: AstView)
    requires
        v.wf(),
    ensures
        v.clear_changed().wf(),
        !v.clear_changed().changed(),
        v.clear_changed().clear_changed() == v.clear_changed(),
{
    match v.root {
        RootKey::File(_) => {},
        RootKey::REPL(k) => {
            let c = v.clear_changed();
            assert(c.repl_roots[k.id].repl_root() == REPLRoot {
                ast_has_been_changed: false,
                ..v.repl_roots[k.id].repl_root()
            });
            assert(c.clear_changed().repl_roots =~= c.repl_roots);
        },
    }
}

/// A file tree never records a change: asking clears nothing and answers
/// false.
pub proof fn lemma_file_tree_never_changed(v: AstView)
    requires
        v.root is File,
    ensures
        !v.changed(),
        v.clear_changed() == v,
{
}

/// The change record of a REPL tree over a run of calls: starting from a tree
/// whose record is clear (as `AST::new` makes it, or as `has_been_changed`
/// leaves it), the root changed through `get_repl_root_mut` by calls of
/// `add_command` and `add_commands` (`roots` holding the root before and after
/// each call), `has_been_changed` answers true exactly when at least one such
/// call ran; it leaves the record clear, so asking again at once answers
/// false, and it changes nothing else.
pub proof fn lemma_has_been_changed_history(v: AstView, k: REPLRootKey, roots: Seq<REPLRoot>, calls: Seq<RootCall>)
    requires
        v.wf(),
        v.root == RootKey::REPL(k),
        !v.changed(),
        roots.len() == calls.len() + 1,
        roots[0] == v.repl_roots[k.id].repl_root(),
        forall|i: int| 0 <= i < calls.len() ==> #[trigger] roots[i].adds(roots[i + 1], calls[i]),
    ensures
        ({
            let w = AstView {
                repl_roots: v.repl_roots.insert(k.id, ASTNode::Root(Root::REPL(roots.last()))),
                ..v
            };
            &&& w.wf()
            &&& w.changed() == (calls.len() > 0)
            &&& !w.clear_changed().changed()
            &&& w.clear_changed().clear_changed() == w.clear_changed()
            &&& w.clear_changed().repl_roots[k.id].repl_root().commands@ == roots[0].commands@ + calls_commands(
                calls,
            )
        }),
{
    lemma_change_record_history(roots, calls);
    let w = AstView { repl_roots: v.repl_roots.insert(k.id, ASTNode::Root(Root::REPL(roots.last()))), ..v };
    assert(w.repl_roots.dom() =~= v.repl_roots.dom());
    assert(w.wf());
    lemma_changed_cleared(w);
}

/// What an arena of a tree gives back: a node added under a fresh key, or
/// written through a mutable reference, is read back as it was put there,
/// and every other key still reads as before.
pub proof fn lemma_arena_reads_back_writes(before: Map<u64, ASTNode>, id: u64, node: ASTNode, other: u64)
    requires
        before.contains_key(other),
        other != id,
    ensures
        before.insert(id, node).contains_key(id),
        before.insert(id, node)[id] == node,
        before.insert(id, node).contains_key(other),
        before.insert(id, node)[other] == before[other],
{
}

} // verus!
