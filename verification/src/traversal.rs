//! Walking a syntax tree: which nodes are the children of a node, and a walk
//! that says, one step at a time, on which node a callback runs next. The
//! callbacks themselves are run by the caller between two steps, so a callback
//! may change the tree before the walk reads the children of a node.
use crate::ast::{AST, AstView};
use crate::denote::{command_denotes, commands_denote, expr_denotes, file_denotes, stmt_denotes};
use crate::grammar::{CommandTree, ExprTree, StmtTree};
use crate::printed::{command_height, stmt_height, tree_height};
use crate::nodes::{
    ASTNode, ASTNodeKey, Expression, ExpressionKey, FileRootKey, REPLCommandKey, REPLRootKey, Root, RootKey,
    Statement, StatementKey,
};
use crate::outside::{arena_lookup, occupied_form, NodeArena};
use vstd::prelude::*;

verus! {

/// When a traversal runs its callbacks: before a node's children are walked,
/// after them, or one callback before and another after.
pub enum Traversal<C> {
    Preorder(C),
    Postorder(C),
    PrePostorder(C, C),
}

impl<C> Traversal<C> {
    pub open spec fn runs_before(&self) -> bool {
        !(self is Postorder)
    }

    pub open spec fn runs_after(&self) -> bool {
        !(self is Preorder)
    }

    /// Whether a callback runs before a node's children.
    pub fn has_pre(&self) -> (r: bool)
        ensures
            r == self.runs_before(),
    {
        match self {
            Traversal::Postorder(_) => false,
            _ => true,
        }
    }

    /// Whether a callback runs after a node's children.
    pub fn has_post(&self) -> (r: bool)
        ensures
            r == self.runs_after(),
    {
        match self {
            Traversal::Preorder(_) => false,
            _ => true,
        }
    }
}

/// The node stored under `id` in an arena, if `id` is one of its keys.
pub open spec fn lookup(m: Map<u64, ASTNode>, id: u64) -> Option<ASTNode> {
    if occupied_form(id) && m.contains_key(id) {
        Some(m[id])
    } else {
        None
    }
}

/// The node that a REPL command stands for.
pub open spec fn command_node(c: REPLCommandKey) -> ASTNodeKey {
    match c {
        REPLCommandKey::Stmt(s) => ASTNodeKey::Statement(s),
        REPLCommandKey::Expr(e) => ASTNodeKey::Expression(e),
    }
}

pub open spec fn statement_nodes(ss: Seq<StatementKey>) -> Seq<ASTNodeKey> {
    ss.map_values(|s: StatementKey| ASTNodeKey::Statement(s))
}

pub open spec fn command_nodes(cs: Seq<REPLCommandKey>) -> Seq<ASTNodeKey> {
    cs.map_values(|c: REPLCommandKey| command_node(c))
}

/// The children of a node in the order a traversal walks them: the commands
/// of a REPL root; the file of a file root; the statements of a file, then
/// its expression; the type hint of a declaration, then its expression; the
/// expression of an assignment; the operands of an expression. Identifiers,
/// type hints, literals, variables, placeholders, and keys that the tree does
/// not hold have none.
pub open spec fn children_of(v: AstView, node: ASTNodeKey) -> Seq<ASTNodeKey> {
    match node {
        ASTNodeKey::Root(RootKey::REPL(k)) => match lookup(v.repl_roots, k.id) {
            Some(ASTNode::Root(Root::REPL(r))) => command_nodes(r.commands@),
            _ => seq![],
        },
        ASTNodeKey::Root(RootKey::File(k)) => match lookup(v.file_roots, k.id) {
            Some(ASTNode::Root(Root::File(r))) => match r.file {
                Some(f) => seq![ASTNodeKey::File(f)],
                None => seq![],
            },
            _ => seq![],
        },
        ASTNodeKey::File(k) => match lookup(v.files, k.id) {
            Some(ASTNode::File(f)) => statement_nodes(f.statements@) + match f.expression {
                Some(e) => seq![ASTNodeKey::Expression(e)],
                None => seq![],
            },
            _ => seq![],
        },
        ASTNodeKey::REPLCommand(c) => seq![command_node(c)],
        ASTNodeKey::Statement(StatementKey::VarDecl(k)) => match lookup(v.var_decls, k.id) {
            Some(ASTNode::Statement(Statement::VarDecl(d))) => match d.type_hint {
                Some(h) => seq![ASTNodeKey::TypeHint(h), ASTNodeKey::Expression(d.expression)],
                None => seq![ASTNodeKey::Expression(d.expression)],
            },
            _ => seq![],
        },
        ASTNodeKey::Statement(StatementKey::VarAssmt(k)) => match lookup(v.var_assmts, k.id) {
            Some(ASTNode::Statement(Statement::VarAssmt(a))) => seq![ASTNodeKey::Expression(a.expression)],
            _ => seq![],
        },
        ASTNodeKey::Expression(ExpressionKey::Binary(k)) => match lookup(v.binaries, k.id) {
            Some(ASTNode::Expression(Expression::Binary(b))) => seq![
                ASTNodeKey::Expression(b.left),
                ASTNodeKey::Expression(b.right),
            ],
            _ => seq![],
        },
        ASTNodeKey::Expression(ExpressionKey::Unary(k)) => match lookup(v.unaries, k.id) {
            Some(ASTNode::Expression(Expression::Unary(u))) => seq![ASTNodeKey::Expression(u.operand)],
            _ => seq![],
        },
        _ => seq![],
    }
}

/// The node stored under `id`, if `id` has the form of a key and the arena
/// holds it.
fn lookup_node(m: &NodeArena, id: u64) -> (r: Option<&ASTNode>)
    ensures
        match lookup(crate::outside::arena_contents(*m), id) {
            Some(n) => r.is_some() && *r.unwrap() == n,
            None => r.is_none(),
        },
{
    if id / 4294967296 % 2 == 1 {
        arena_lookup(m, id)
    } else {
        None
    }
}

impl AST {
    /// The children of `node`, in the order a traversal walks them.
    pub fn children(&self, node: ASTNodeKey) -> (r: Vec<ASTNodeKey>)
        ensures
            r@ == children_of(self@, node),
    {
        match node {
            ASTNodeKey::Root(RootKey::REPL(k)) => match lookup_node(&self.repl_root_nodes, k.id) {
                Some(ASTNode::Root(Root::REPL(r))) => {
                    let mut out: Vec<ASTNodeKey> = Vec::new();
                    let mut i: usize = 0;
                    while i < r.commands.len()
                        invariant
                            i <= r.commands@.len(),
                            out@ == command_nodes(r.commands@.take(i as int)),
                        decreases r.commands@.len() - i,
                    {
                        let c = r.commands[i];
                        out.push(
                            match c {
                                REPLCommandKey::Stmt(s) => ASTNodeKey::Statement(s),
                                REPLCommandKey::Expr(e) => ASTNodeKey::Expression(e),
                            },
                        );
                        proof {
                            assert(r.commands@.take(i + 1) =~= r.commands@.take(i as int).push(c));
                        }
                        i = i + 1;
                    }
                    proof {
                        assert(r.commands@.take(i as int) =~= r.commands@);
                    }
                    out
                },
                _ => Vec::new(),
            },
            ASTNodeKey::Root(RootKey::File(k)) => match lookup_node(&self.file_root_nodes, k.id) {
                Some(ASTNode::Root(Root::File(r))) => match r.file {
                    Some(f) => vec![ASTNodeKey::File(f)],
                    None => Vec::new(),
                },
                _ => Vec::new(),
            },
            ASTNodeKey::File(k) => match lookup_node(&self.file_nodes, k.id) {
                Some(ASTNode::File(f)) => {
                    let mut out: Vec<ASTNodeKey> = Vec::new();
                    let mut i: usize = 0;
                    while i < f.statements.len()
                        invariant
                            i <= f.statements@.len(),
                            out@ == statement_nodes(f.statements@.take(i as int)),
                        decreases f.statements@.len() - i,
                    {
                        let s = f.statements[i];
                        out.push(ASTNodeKey::Statement(s));
                        proof {
                            assert(f.statements@.take(i + 1) =~= f.statements@.take(i as int).push(s));
                        }
                        i = i + 1;
                    }
                    proof {
                        assert(f.statements@.take(i as int) =~= f.statements@);
                    }
                    let ghost before = out@;
                    match f.expression {
                        Some(e) => {
                            out.push(ASTNodeKey::Expression(e));
                        },
                        None => {},
                    }
                    proof {
                        assert(out@ =~= before + match f.expression {
                            Some(e) => seq![ASTNodeKey::Expression(e)],
                            None => seq![],
                        });
                    }
                    out
                },
                _ => Vec::new(),
            },
            ASTNodeKey::REPLCommand(c) => match c {
                REPLCommandKey::Stmt(s) => vec![ASTNodeKey::Statement(s)],
                REPLCommandKey::Expr(e) => vec![ASTNodeKey::Expression(e)],
            },
            ASTNodeKey::Statement(StatementKey::VarDecl(k)) => match lookup_node(
                &self.variable_declaration_nodes,
                k.id,
            ) {
                Some(ASTNode::Statement(Statement::VarDecl(d))) => match d.type_hint {
                    Some(h) => vec![ASTNodeKey::TypeHint(h), ASTNodeKey::Expression(d.expression)],
                    None => vec![ASTNodeKey::Expression(d.expression)],
                },
                _ => Vec::new(),
            },
            ASTNodeKey::Statement(StatementKey::VarAssmt(k)) => match lookup_node(
                &self.variable_assignment_nodes,
                k.id,
            ) {
                Some(ASTNode::Statement(Statement::VarAssmt(a))) => vec![ASTNodeKey::Expression(a.expression)],
                _ => Vec::new(),
            },
            ASTNodeKey::Expression(ExpressionKey::Binary(k)) => match lookup_node(&self.binary_expression_nodes, k.id) {
                Some(ASTNode::Expression(Expression::Binary(b))) => vec![
                    ASTNodeKey::Expression(b.left),
                    ASTNodeKey::Expression(b.right),
                ],
                _ => Vec::new(),
            },
            ASTNodeKey::Expression(ExpressionKey::Unary(k)) => match lookup_node(&self.unary_expression_nodes, k.id) {
                Some(ASTNode::Expression(Expression::Unary(u))) => vec![ASTNodeKey::Expression(u.operand)],
                _ => Vec::new(),
            },
            _ => Vec::new(),
        }
    }
}

/// Which of a traversal's callbacks a step asks to run.
#[derive(Clone, Copy, Debug, PartialEq, Eq, Structural)]
pub enum Phase {
    Pre,
    Post,
}

/// Work that a walk has yet to do for a node: run the callback before it,
/// walk its children, or run the callback after it.
#[derive(Clone, Copy, Debug, PartialEq, Eq, Structural)]
pub enum Frame {
    Enter(ASTNodeKey),
    Expand(ASTNodeKey),
    Exit(ASTNodeKey),
}

/// What a step of a walk asks of the caller: to run a callback on a node,
/// nothing (the walk only moved on), or nothing more ever.
#[derive(Clone, Copy, Debug, PartialEq, Eq, Structural)]
pub enum WalkStep {
    Run(Phase, ASTNodeKey),
    Continue,
    Done,
}

/// A depth-first walk over a tree: the frames still to be done, the next one last.
pub struct Walk {
    pub frames: Vec<Frame>,
}

/// The frames that enter each of `cs`, stacked so that the first child is on top.
pub open spec fn enter_frames(cs: Seq<ASTNodeKey>) -> Seq<Frame> {
    Seq::new(cs.len(), |i: int| Frame::Enter(cs[cs.len() - 1 - i]))
}

/// One step of a walk: the frames after it and what it asks of the caller.
/// Entering a node asks for the callback before it; expanding it reads its
/// children from the tree as it is then; exiting it asks for the callback
/// after it. A callback that the traversal does not have is skipped.
pub open spec fn walk_step(frames: Seq<Frame>, before: bool, after: bool, v: AstView) -> (Seq<Frame>, WalkStep) {
    if frames.len() == 0 {
        (frames, WalkStep::Done)
    } else {
        let rest = frames.drop_last();
        match frames.last() {
            Frame::Enter(n) => (
                rest.push(Frame::Expand(n)),
                if before {
                    WalkStep::Run(Phase::Pre, n)
                } else {
                    WalkStep::Continue
                },
            ),
            Frame::Expand(n) => (rest.push(Frame::Exit(n)) + enter_frames(children_of(v, n)), WalkStep::Continue),
            Frame::Exit(n) => (
                rest,
                if after {
                    WalkStep::Run(Phase::Post, n)
                } else {
                    WalkStep::Continue
                },
            ),
        }
    }
}

impl Walk {
    /// A walk that starts at `node`.
    pub fn new(node: ASTNodeKey) -> (w: Walk)
        ensures
            w.frames@ == seq![Frame::Enter(node)],
    {
        Walk { frames: vec![Frame::Enter(node)] }
    }

    /// Does the next frame of the walk.
    pub fn step<C>(&mut self, traversal: &Traversal<C>, ast: &AST) -> (s: WalkStep)
        ensures
            (final(self).frames@, s) == walk_step(
                old(self).frames@,
                traversal.runs_before(),
                traversal.runs_after(),
                ast@,
            ),
    {
        match self.frames.pop() {
            None => WalkStep::Done,
            Some(Frame::Enter(n)) => {
                self.frames.push(Frame::Expand(n));
                if traversal.has_pre() {
                    WalkStep::Run(Phase::Pre, n)
                } else {
                    WalkStep::Continue
                }
            },
            Some(Frame::Expand(n)) => {
                self.frames.push(Frame::Exit(n));
                let cs = ast.children(n);
                let ghost base = self.frames@;
                let mut i: usize = cs.len();
                proof {
                    assert(enter_frames(cs@.skip(i as int)) =~= Seq::<Frame>::empty());
                    assert(self.frames@ =~= base + enter_frames(cs@.skip(i as int)));
                }
                while i > 0
                    invariant
                        i <= cs@.len(),
                        self.frames@ == base + enter_frames(cs@.skip(i as int)),
                    decreases i,
                {
                    let c = cs[i - 1];
                    self.frames.push(Frame::Enter(c));
                    proof {
                        assert(enter_frames(cs@.skip(i - 1)) =~= enter_frames(cs@.skip(i as int)).push(
                            Frame::Enter(c),
                        ));
                    }
                    i = i - 1;
                }
                proof {
                    assert(cs@.skip(0) =~= cs@);
                }
                WalkStep::Continue
            },
            Some(Frame::Exit(n)) => {
                if traversal.has_post() {
                    WalkStep::Run(Phase::Post, n)
                } else {
                    WalkStep::Continue
                }
            },
        }
    }
}

// ---------------------------------------------------------------------------
// What a whole walk does
// ---------------------------------------------------------------------------

/// The callback a step asks for, if any.
pub open spec fn step_output(s: WalkStep) -> Seq<(Phase, ASTNodeKey)> {
    match s {
        WalkStep::Run(p, n) => seq![(p, n)],
        _ => seq![],
    }
}

/// `k` steps of a walk over a tree that does not change meanwhile: the
/// frames left and the callbacks asked for, in order.
pub open spec fn run_walk(frames: Seq<Frame>, before: bool, after: bool, v: AstView, k: nat) -> (Seq<Frame>, Seq<(Phase, ASTNodeKey)>)
    decreases k,
{
    if k == 0 {
        (frames, seq![])
    } else {
        let (next, s) = walk_step(frames, before, after, v);
        let (last, out) = run_walk(next, before, after, v, (k - 1) as nat);
        (last, step_output(s) + out)
    }
}

/// The subtree of `n` is at most `d` nodes deep.
pub open spec fn bounded(v: AstView, n: ASTNodeKey, d: nat) -> bool
    decreases d, 0nat,
{
    d > 0 && bounded_all(v, children_of(v, n), (d - 1) as nat)
}

pub open spec fn bounded_all(v: AstView, cs: Seq<ASTNodeKey>, d: nat) -> bool
    decreases d, cs.len() + 1,
{
    cs.len() == 0 || (bounded(v, cs[0], d) && bounded_all(v, cs.skip(1), d))
}

/// The callbacks run on the subtree of `n` (within depth `d`), in depth-first
/// order: the one before `n`, those of each child's subtree from the first
/// child on, and the one after `n`.
pub open spec fn visits(v: AstView, n: ASTNodeKey, before: bool, after: bool, d: nat) -> Seq<(Phase, ASTNodeKey)>
    decreases d, 0nat,
{
    if d == 0 {
        seq![]
    } else {
        (if before {
            seq![(Phase::Pre, n)]
        } else {
            seq![]
        }) + visits_all(v, children_of(v, n), before, after, (d - 1) as nat) + (if after {
            seq![(Phase::Post, n)]
        } else {
            seq![]
        })
    }
}

pub open spec fn visits_all(v: AstView, cs: Seq<ASTNodeKey>, before: bool, after: bool, d: nat) -> Seq<(Phase, ASTNodeKey)>
    decreases d, cs.len() + 1,
{
    if cs.len() == 0 {
        seq![]
    } else {
        visits(v, cs[0], before, after, d) + visits_all(v, cs.skip(1), before, after, d)
    }
}

/// The number of steps a walk takes over the subtree of `n`: three per node.
pub open spec fn walk_len(v: AstView, n: ASTNodeKey, d: nat) -> nat
    decreases d, 0nat,
{
    if d == 0 {
        0
    } else {
        3 + walk_len_all(v, children_of(v, n), (d - 1) as nat)
    }
}

pub open spec fn walk_len_all(v: AstView, cs: Seq<ASTNodeKey>, d: nat) -> nat
    decreases d, cs.len() + 1,
{
    if cs.len() == 0 {
        0
    } else {
        walk_len(v, cs[0], d) + walk_len_all(v, cs.skip(1), d)
    }
}

/// Running `a` steps and then `b` steps is running `a + b` steps.
pub proof fn lemma_run_walk_split(frames: Seq<Frame>, before: bool, after: bool, v: AstView, a: nat, b: nat)
    ensures
        ({
            let (mid, out1) = run_walk(frames, before, after, v, a);
            let (last, out2) = run_walk(mid, before, after, v, b);
            run_walk(frames, before, after, v, a + b) == (last, out1 + out2)
        }),
    decreases a,
{
    if a > 0 {
        let (next, s) = walk_step(frames, before, after, v);
        lemma_run_walk_split(next, before, after, v, (a - 1) as nat, b);
        assert((a + b - 1) as nat == (a - 1) as nat + b);
        let (mid, out1) = run_walk(next, before, after, v, (a - 1) as nat);
        let (last, out2) = run_walk(mid, before, after, v, b);
        assert(step_output(s) + (out1 + out2) =~= (step_output(s) + out1) + out2);
    } else {
        let (last, out2) = run_walk(frames, before, after, v, b);
        assert(Seq::<(Phase, ASTNodeKey)>::empty() + out2 =~= out2);
    }
}

proof fn lemma_run_node(base: Seq<Frame>, n: ASTNodeKey, before: bool, after: bool, v: AstView, d: nat)
    requires
        bounded(v, n, d),
    ensures
        run_walk(base.push(Frame::Enter(n)), before, after, v, walk_len(v, n, d)) == (base, visits(v, n, before, after, d)),
    decreases d, 0nat,
{
    let cs = children_of(v, n);
    let dd = (d - 1) as nat;
    let l = walk_len_all(v, cs, dd);
    let pre = if before {
        seq![(Phase::Pre, n)]
    } else {
        seq![]
    };
    let post = if after {
        seq![(Phase::Post, n)]
    } else {
        seq![]
    };
    let f0 = base.push(Frame::Enter(n));
    let f1 = base.push(Frame::Expand(n));
    let f2 = base.push(Frame::Exit(n)) + enter_frames(cs);
    let f3 = base.push(Frame::Exit(n));
    assert(f0.drop_last() =~= base);
    assert(walk_step(f0, before, after, v).0 == f1);
    assert(f1.drop_last() =~= base);
    assert(walk_step(f1, before, after, v) == (f2, WalkStep::Continue));
    lemma_run_all(f3, cs, before, after, v, dd);
    assert(f3.drop_last() =~= base);
    lemma_run_walk_split(f2, before, after, v, l, 1);
    assert(run_walk(base, before, after, v, 0) == (base, Seq::<(Phase, ASTNodeKey)>::empty()));
    assert(run_walk(f3, before, after, v, 1) == (base, post + Seq::<(Phase, ASTNodeKey)>::empty()));
    assert((3 + l - 1) as nat == l + 1 + 1);
    assert((3 + l - 2) as nat == l + 1);
    assert(run_walk(f2, before, after, v, l + 1) == (base, visits_all(v, cs, before, after, dd) + (post
        + Seq::<(Phase, ASTNodeKey)>::empty())));
    assert(run_walk(f1, before, after, v, l + 1 + 1) == (base, Seq::<(Phase, ASTNodeKey)>::empty() + (visits_all(
        v,
        cs,
        before,
        after,
        dd,
    ) + (post + Seq::<(Phase, ASTNodeKey)>::empty()))));
    assert(pre + (Seq::<(Phase, ASTNodeKey)>::empty() + (visits_all(v, cs, before, after, dd) + (post
        + Seq::<(Phase, ASTNodeKey)>::empty()))) =~= visits(v, n, before, after, d));
}

proof fn lemma_run_all(base: Seq<Frame>, cs: Seq<ASTNodeKey>, before: bool, after: bool, v: AstView, d: nat)
    requires
        bounded_all(v, cs, d),
    ensures
        run_walk(base + enter_frames(cs), before, after, v, walk_len_all(v, cs, d)) == (base, visits_all(
            v,
            cs,
            before,
            after,
            d,
        )),
    decreases d, cs.len() + 1,
{
    if cs.len() == 0 {
        assert(base + enter_frames(cs) =~= base);
    } else {
        let rest = cs.skip(1);
        let mid = base + enter_frames(rest);
        assert(base + enter_frames(cs) =~= mid.push(Frame::Enter(cs[0])));
        lemma_run_node(mid, cs[0], before, after, v, d);
        lemma_run_all(base, rest, before, after, v, d);
        lemma_run_walk_split(mid.push(Frame::Enter(cs[0])), before, after, v, walk_len(v, cs[0], d), walk_len_all(v, rest, d));
    }
}

/// A walk over a tree that its callbacks leave unchanged runs them in
/// depth-first order (the callback before a node, then those of its
/// children's subtrees from the first child on, then the callback after it)
/// and, after three steps per node, has nothing left to do.
pub proof fn lemma_walk_visits_depth_first(v: AstView, n: ASTNodeKey, before: bool, after: bool, d: nat)
    requires
        bounded(v, n, d),
    ensures
        run_walk(seq![Frame::Enter(n)], before, after, v, walk_len(v, n, d)) == (
            Seq::<Frame>::empty(),
            visits(v, n, before, after, d),
        ),
        walk_step(Seq::<Frame>::empty(), before, after, v).1 == WalkStep::Done,
{
    assert(Seq::<Frame>::empty().push(Frame::Enter(n)) =~= seq![Frame::Enter(n)]);
    lemma_run_node(Seq::<Frame>::empty(), n, before, after, v, d);
}

// ---------------------------------------------------------------------------
// Walks over what the parser built
// ---------------------------------------------------------------------------

proof fn lemma_bounded_grows(v: AstView, n: ASTNodeKey, d: nat, e: nat)
    requires
        bounded(v, n, d),
        d <= e,
    ensures
        bounded(v, n, e),
    decreases d, 0nat,
{
    lemma_bounded_all_grows(v, children_of(v, n), (d - 1) as nat, (e - 1) as nat);
}

proof fn lemma_bounded_all_grows(v: AstView, cs: Seq<ASTNodeKey>, d: nat, e: nat)
    requires
        bounded_all(v, cs, d),
        d <= e,
    ensures
        bounded_all(v, cs, e),
    decreases d, cs.len() + 1,
{
    if cs.len() > 0 {
        lemma_bounded_grows(v, cs[0], d, e);
        lemma_bounded_all_grows(v, cs.skip(1), d, e);
    }
}

proof fn lemma_bounded_all_each(v: AstView, cs: Seq<ASTNodeKey>, d: nat)
    requires
        forall|i: int| 0 <= i < cs.len() ==> #[trigger] bounded(v, cs[i], d),
    ensures
        bounded_all(v, cs, d),
    decreases cs.len(),
{
    if cs.len() > 0 {
        assert(bounded(v, cs[0], d));
        assert forall|i: int| 0 <= i < cs.skip(1).len() implies #[trigger] bounded(v, cs.skip(1)[i], d) by {
            assert(cs.skip(1)[i] == cs[i + 1]);
        }
        lemma_bounded_all_each(v, cs.skip(1), d);
    }
}

/// Below an expression that the parser built, every node has the children of
/// the parsed tree: the subtree is as deep as the tree, and a walk over it ends.
pub proof fn lemma_parsed_expression_bounded(v: AstView, key: ExpressionKey, t: ExprTree)
    requires
        v.wf(),
        expr_denotes(v, key, t),
    ensures
        bounded(v, ASTNodeKey::Expression(key), tree_height(t) + 1),
    decreases t,
{
    let n = ASTNodeKey::Expression(key);
    let h = tree_height(t);
    match t {
        ExprTree::Binary { left, right, .. } => {
            let b = v.binaries[key->Binary_0.id].binary();
            lemma_parsed_expression_bounded(v, b.left, *left);
            lemma_parsed_expression_bounded(v, b.right, *right);
            lemma_bounded_grows(v, ASTNodeKey::Expression(b.left), tree_height(*left) + 1, h);
            lemma_bounded_grows(v, ASTNodeKey::Expression(b.right), tree_height(*right) + 1, h);
            let cs = children_of(v, n);
            assert(cs == seq![ASTNodeKey::Expression(b.left), ASTNodeKey::Expression(b.right)]);
            lemma_bounded_all_each(v, cs, h);
        },
        ExprTree::Unary { operand, .. } => {
            let u = v.unaries[key->Unary_0.id].unary();
            lemma_parsed_expression_bounded(v, u.operand, *operand);
            let cs = children_of(v, n);
            assert(cs == seq![ASTNodeKey::Expression(u.operand)]);
            lemma_bounded_all_each(v, cs, h);
        },
        _ => {
            assert(children_of(v, n) =~= Seq::<ASTNodeKey>::empty());
        },
    }
}

/// Below a statement that the parser built, every node has the children of
/// the parsed statement.
pub proof fn lemma_parsed_statement_bounded(v: AstView, key: StatementKey, t: StmtTree)
    requires
        v.wf(),
        stmt_denotes(v, key, t),
    ensures
        bounded(v, ASTNodeKey::Statement(key), stmt_height(t) + 2),
{
    let n = ASTNodeKey::Statement(key);
    let h = stmt_height(t);
    match t {
        StmtTree::VarDecl(d) => {
            let node = v.var_decls[key->VarDecl_0.id].var_decl();
            lemma_parsed_expression_bounded(v, node.expression, d.expression);
            let cs = children_of(v, n);
            match node.type_hint {
                Some(th) => {
                    let hn = ASTNodeKey::TypeHint(th);
                    assert(children_of(v, hn) =~= Seq::<ASTNodeKey>::empty());
                    assert(bounded(v, hn, 1));
                    lemma_bounded_grows(v, hn, 1, h + 1);
                    assert(cs == seq![hn, ASTNodeKey::Expression(node.expression)]);
                },
                None => {
                    assert(cs == seq![ASTNodeKey::Expression(node.expression)]);
                },
            }
            lemma_bounded_all_each(v, cs, h + 1);
        },
        StmtTree::VarAssmt(a) => {
            let node = v.var_assmts[key->VarAssmt_0.id].var_assmt();
            lemma_parsed_expression_bounded(v, node.expression, a.expression);
            let cs = children_of(v, n);
            assert(cs == seq![ASTNodeKey::Expression(node.expression)]);
            lemma_bounded_all_each(v, cs, h + 1);
        },
        StmtTree::NotANode => {
            assert(children_of(v, n) =~= Seq::<ASTNodeKey>::empty());
        },
    }
}

/// Below a file root whose file the parser built, every node has the
/// children of the parsed file, so a walk from the root visits the parsed
/// file depth first and ends.
pub proof fn lemma_parsed_file_bounded(
    v: AstView,
    k: FileRootKey,
    statements: Seq<StmtTree>,
    expression: Option<ExprTree>,
    depth: nat,
)
    requires
        v.wf(),
        v.file_roots.contains_key(k.id),
        v.file_roots[k.id].file_root().file.is_some(),
        file_denotes(v, v.file_roots[k.id].file_root().file.unwrap(), statements, expression),
        forall|i: int| 0 <= i < statements.len() ==> #[trigger] stmt_height(statements[i]) <= depth,
        expression matches Some(e) ==> tree_height(e) <= depth,
    ensures
        bounded(v, ASTNodeKey::Root(RootKey::File(k)), depth + 4),
{
    let fk = v.file_roots[k.id].file_root().file.unwrap();
    let f = v.files[fk.id].file();
    let cs = children_of(v, ASTNodeKey::File(fk));
    let ns = f.statements@.len();
    assert forall|i: int| 0 <= i < cs.len() implies #[trigger] bounded(v, cs[i], depth + 2) by {
        if i < ns {
            assert(cs[i] == ASTNodeKey::Statement(f.statements@[i]));
            assert(stmt_denotes(v, f.statements@[i], statements[i]));
            lemma_parsed_statement_bounded(v, f.statements@[i], statements[i]);
            lemma_bounded_grows(v, cs[i], stmt_height(statements[i]) + 2, depth + 2);
        } else {
            let e = expression.unwrap();
            assert(cs[i] == ASTNodeKey::Expression(f.expression.unwrap()));
            lemma_parsed_expression_bounded(v, f.expression.unwrap(), e);
            lemma_bounded_grows(v, cs[i], tree_height(e) + 1, depth + 2);
        }
    }
    lemma_bounded_all_each(v, cs, depth + 2);
    let rs = children_of(v, ASTNodeKey::Root(RootKey::File(k)));
    assert(rs == seq![ASTNodeKey::File(fk)]);
    assert(bounded(v, ASTNodeKey::File(fk), depth + 3));
    lemma_bounded_all_each(v, rs, depth + 3);
}

/// Below a REPL root whose commands the parser built, every node has the
/// children of the parsed commands, so a walk from the root ends.
pub proof fn lemma_parsed_repl_bounded(v: AstView, k: REPLRootKey, commands: Seq<CommandTree>, depth: nat)
    requires
        v.wf(),
        v.repl_roots.contains_key(k.id),
        commands_denote(v, v.repl_roots[k.id].repl_root().commands@, commands),
        forall|i: int| 0 <= i < commands.len() ==> #[trigger] command_height(commands[i]) <= depth,
    ensures
        bounded(v, ASTNodeKey::Root(RootKey::REPL(k)), depth + 3),
{
    let keys = v.repl_roots[k.id].repl_root().commands@;
    let cs = children_of(v, ASTNodeKey::Root(RootKey::REPL(k)));
    assert forall|i: int| 0 <= i < cs.len() implies #[trigger] bounded(v, cs[i], depth + 2) by {
        assert(cs[i] == command_node(keys[i]));
        assert(command_denotes(v, keys[i], commands[i]));
        assert(command_height(commands[i]) <= depth);
        match commands[i] {
            CommandTree::Stmt(st) => {
                lemma_parsed_statement_bounded(v, keys[i]->Stmt_0, st);
                lemma_bounded_grows(v, cs[i], stmt_height(st) + 2, depth + 2);
            },
            CommandTree::Expr(e) => {
                lemma_parsed_expression_bounded(v, keys[i]->Expr_0, e);
                lemma_bounded_grows(v, cs[i], tree_height(e) + 1, depth + 2);
            },
        }
    }
    lemma_bounded_all_each(v, cs, depth + 2);
}

/// A walk goes from each node to every node that it holds and that the
/// language walks, in order: a root to its commands or its file, a file to
/// its statements and then its expression, a command to what it stands for,
/// a declaration to its type hint and then its expression, an assignment to
/// its expression, a binary operator to its left and then its right operand,
/// a unary operator to its operand. Identifiers, type hints, variables and
/// literals are leaves.
pub proof fn lemma_children_are_the_walked_fields(v: AstView, n: ASTNodeKey)
    requires
        v.wf(),
    ensures
        ({
            let cs = children_of(v, n);
            match n {
                ASTNodeKey::Root(RootKey::REPL(k)) => v.repl_roots.contains_key(k.id) ==> {
                    let r = v.repl_roots[k.id].repl_root();
                    &&& cs.len() == r.commands@.len()
                    &&& forall|i: int| 0 <= i < cs.len() ==> cs[i] == match #[trigger] r.commands@[i] {
                        REPLCommandKey::Stmt(s) => ASTNodeKey::Statement(s),
                        REPLCommandKey::Expr(e) => ASTNodeKey::Expression(e),
                    }
                },
                ASTNodeKey::Root(RootKey::File(k)) => v.file_roots.contains_key(k.id) ==> {
                    match v.file_roots[k.id].file_root().file {
                        Some(f) => cs == seq![ASTNodeKey::File(f)],
                        None => cs.len() == 0,
                    }
                },
                ASTNodeKey::File(k) => v.files.contains_key(k.id) ==> {
                    let f = v.files[k.id].file();
                    let m = f.statements@.len();
                    &&& forall|i: int| 0 <= i < m ==> cs[i] == ASTNodeKey::Statement(#[trigger] f.statements@[i])
                    &&& match f.expression {
                        Some(e) => cs.len() == m + 1 && cs[m as int] == ASTNodeKey::Expression(e),
                        None => cs.len() == m,
                    }
                },
                ASTNodeKey::REPLCommand(REPLCommandKey::Stmt(s)) => cs == seq![ASTNodeKey::Statement(s)],
                ASTNodeKey::REPLCommand(REPLCommandKey::Expr(e)) => cs == seq![ASTNodeKey::Expression(e)],
                ASTNodeKey::Statement(StatementKey::VarDecl(k)) => v.var_decls.contains_key(k.id) ==> {
                    let d = v.var_decls[k.id].var_decl();
                    match d.type_hint {
                        Some(h) => cs == seq![ASTNodeKey::TypeHint(h), ASTNodeKey::Expression(d.expression)],
                        None => cs == seq![ASTNodeKey::Expression(d.expression)],
                    }
                },
                ASTNodeKey::Statement(StatementKey::VarAssmt(k)) => v.var_assmts.contains_key(k.id) ==> cs
                    == seq![ASTNodeKey::Expression(v.var_assmts[k.id].var_assmt().expression)],
                ASTNodeKey::Expression(ExpressionKey::Binary(k)) => v.binaries.contains_key(k.id) ==> cs == seq![
                    ASTNodeKey::Expression(v.binaries[k.id].binary().left),
                    ASTNodeKey::Expression(v.binaries[k.id].binary().right),
                ],
                ASTNodeKey::Expression(ExpressionKey::Unary(k)) => v.unaries.contains_key(k.id) ==> cs
                    == seq![ASTNodeKey::Expression(v.unaries[k.id].unary().operand)],
                _ => cs.len() == 0,
            }
        }),
{
    match n {
        ASTNodeKey::Root(RootKey::REPL(k)) => {
            if v.repl_roots.contains_key(k.id) {
                assert(occupied_form(k.id));
                assert(v.repl_roots[k.id].is_repl_root());
            }
        },
        ASTNodeKey::Root(RootKey::File(k)) => {
            if v.file_roots.contains_key(k.id) {
                assert(occupied_form(k.id));
                assert(v.file_roots[k.id].is_file_root());
            }
        },
        ASTNodeKey::File(k) => {
            if v.files.contains_key(k.id) {
                assert(occupied_form(k.id));
                assert(v.files[k.id].is_file());
            }
        },
        ASTNodeKey::Statement(StatementKey::VarDecl(k)) => {
            if v.var_decls.contains_key(k.id) {
                assert(occupied_form(k.id));
                assert(v.var_decls[k.id].is_var_decl());
            }
        },
        ASTNodeKey::Statement(StatementKey::VarAssmt(k)) => {
            if v.var_assmts.contains_key(k.id) {
                assert(occupied_form(k.id));
                assert(v.var_assmts[k.id].is_var_assmt());
            }
        },
        ASTNodeKey::Expression(ExpressionKey::Binary(k)) => {
            if v.binaries.contains_key(k.id) {
                assert(occupied_form(k.id));
                assert(v.binaries[k.id].is_binary());
            }
        },
        ASTNodeKey::Expression(ExpressionKey::Unary(k)) => {
            if v.unaries.contains_key(k.id) {
                assert(occupied_form(k.id));
                assert(v.unaries[k.id].is_unary());
            }
        },
        _ => {},
    }
}

} // verus!
