use std::cell::RefCell;
use std::rc::Rc;

use jazzy_parser::ast::AST;
use jazzy_parser::error::{ErrorMessage, ErrorReporter, ErrorType};
use jazzy_parser::literal::parse_i128;
use jazzy_parser::nodes::{
    ASTNodeKey, BinaryExpression, BinaryOperator, ExpressionKey, File, FileRoot, Identifier, Literal,
    LiteralExpression, REPLCommandKey, REPLRoot, RootKey, StatementKey, TypeHint, UnaryExpression,
    UnaryOperator, VariableAssignment, VariableDeclaration, VariableExpression,
};
use jazzy_parser::parser::Parser;
use jazzy_parser::text::int_to_string;
use jazzy_parser::token::{LocationInfo, Token, TokenType};
use jazzy_parser::traversal::{Frame, Phase, Traversal, Walk, WalkStep};
use jazzy_parser::types::{DataType, Primitive, Symbol, Type};

fn token_of(token_type: TokenType, lexeme: &str) -> Token {
    Token {
        token_type,
        lexeme: Some(lexeme.to_string()),
        location_info: LocationInfo { line: 2, start: 3, end: 4 },
        whitespace_precedes: true,
        whitespace_follows: true,
    }
}

fn end_of_input() -> Token {
    Token {
        token_type: TokenType::EOF,
        lexeme: None,
        location_info: LocationInfo { line: 2, start: 9, end: 9 },
        whitespace_precedes: false,
        whitespace_follows: false,
    }
}

fn parsed(tokens: Vec<Token>) -> Parser {
    let mut all = tokens;
    all.push(end_of_input());
    let mut p = Parser::new(all, AST::new(false), ErrorReporter::new());
    p.parse();
    p
}

/// Runs a walk to its end and records the callbacks it asks for.
fn record<C>(traversal: &Traversal<C>, ast: &AST, start: ASTNodeKey) -> Vec<(Phase, ASTNodeKey)> {
    let mut walk = Walk::new(start);
    let mut seen = Vec::new();
    loop {
        match walk.step(traversal, ast) {
            WalkStep::Run(phase, node) => seen.push((phase, node)),
            WalkStep::Continue => {},
            WalkStep::Done => break,
        }
    }
    seen
}

#[test]
fn parse_i128_edge_cases() {
    assert_eq!(parse_i128("-170141183460469231731687303715884105728", 10), Some(i128::MIN));
    assert_eq!(parse_i128("170141183460469231731687303715884105727", 10), Some(i128::MAX));
    assert_eq!(parse_i128("170141183460469231731687303715884105728", 10), None);
    assert_eq!(parse_i128("", 10), None);
    assert_eq!(parse_i128("-", 10), None);
    assert_eq!(parse_i128("+7", 10), Some(7));
    assert_eq!(parse_i128("12a", 10), None);
    assert_eq!(parse_i128("fF", 16), Some(255));
    assert_eq!(parse_i128("102", 2), None);
    assert_eq!(parse_i128("-101", 2), Some(-5));
    assert_eq!(parse_i128("007", 10), Some(7));
}

#[test]
fn int_to_string_matches_display() {
    assert_eq!(int_to_string(0), "0");
    assert_eq!(int_to_string(-42), "-42");
    assert_eq!(int_to_string(1234567890), "1234567890");
    assert_eq!(int_to_string(i128::MIN), i128::MIN.to_string());
    assert_eq!(int_to_string(i128::MAX), i128::MAX.to_string());
}

#[test]
fn node_lines() {
    let t = token_of(TokenType::Plus, "+");
    let bin = BinaryExpression::new(BinaryOperator::GreaterThanOrEqual, t.clone(), ExpressionKey::NotANode, ExpressionKey::NotANode);
    assert_eq!(bin.node_to_string(), "{>=}");
    assert_eq!(bin.get_operator_str(), ">=");
    let mut typed = BinaryExpression::new(BinaryOperator::And, t.clone(), ExpressionKey::NotANode, ExpressionKey::NotANode);
    typed.set_type(DataType::new(Type::Primitive(Primitive::Bool)));
    assert_eq!(typed.node_to_string(), "{and, type: 'bool'}");
    assert_eq!(typed.get_type().data_type, Type::Primitive(Primitive::Bool));

    let not = UnaryExpression::new(UnaryOperator::Not, t.clone(), ExpressionKey::NotANode);
    assert_eq!(not.node_to_string(), "{not}");
    assert_eq!(not.get_operator_str(), "not");

    let lit = LiteralExpression::new(Literal::Int(-3), t.clone());
    assert_eq!(lit.node_to_string(), "{int: -3}");
    assert_eq!(lit.to_string_with_level(2), "\t\t{int: -3}\n");
    assert_eq!(lit.to_code(), "int: -3");
    let s = LiteralExpression::new(Literal::String("a b".to_string()), t.clone());
    assert_eq!(s.to_string(), "{string: \"a b\"}\n");
    let f = LiteralExpression::new(Literal::Float("2.25".to_string()), t.clone());
    assert_eq!(f.node_to_string(), "{float: 2.25}");
    let tr = LiteralExpression::new(Literal::True(true), t.clone());
    assert_eq!(tr.to_code(), "true");

    let id = Identifier::new("count".to_string(), t.clone());
    assert_eq!(id.node_to_string(), "{ID: count}");
    assert_eq!(id.to_string_with_level(1), "\t{ID: count}\n");
    assert_eq!(id.to_code(), "count");

    let hint = TypeHint::new(DataType::new(Type::UnTyped), t.clone());
    assert_eq!(hint.node_to_string(), "{Type: untyped}");

    let assign = VariableAssignment::new("x".to_string(), jazzy_parser::nodes::IdentifierKey { id: 0 }, ExpressionKey::NotANode, t.clone());
    assert_eq!(assign.node_to_string(), "{Assignment}");
    assert!(assign.symbol.is_none());
    let decl = VariableDeclaration::new(false, "x".to_string(), jazzy_parser::nodes::IdentifierKey { id: 0 }, None, ExpressionKey::NotANode, t.clone());
    assert_eq!(decl.node_to_string(), "{Declaration}");
    assert_eq!(REPLRoot::new().node_to_string(), "{REPLRoot}");
    assert_eq!(FileRoot::new().node_to_string(), "{FileRoot}");
    assert_eq!(File::new(vec![], None).node_to_string(), "{File}");
}

#[test]
fn variable_type_comes_from_its_symbol() {
    let t = token_of(TokenType::ID, "x");
    let mut var = VariableExpression::new("x".to_string(), t);
    assert_eq!(var.get_type().data_type, Type::UnTyped);
    assert_eq!(var.node_to_string(), "{Variable: x}");
    let symbol = Rc::new(RefCell::new(Symbol::new("x".to_string(), DataType::new(Type::Primitive(Primitive::I64)))));
    var.symbol = Some(symbol.clone());
    assert_eq!(var.get_type().data_type, Type::Primitive(Primitive::I64));
    var.set_type(DataType::new(Type::Primitive(Primitive::U8)));
    assert_eq!(symbol.borrow().get_type().data_type, Type::Primitive(Primitive::U8));
    assert_eq!(var.node_to_string(), "{Variable: x, type: 'u8'}");
    assert_eq!(var.to_code(), "x");
}

#[test]
fn labels_and_descriptions() {
    assert_eq!(DataType::new(Type::Primitive(Primitive::String)).get_label(), "str");
    assert_eq!(DataType::new(Type::Primitive(Primitive::U128)).get_label(), "u128");
    assert_eq!(DataType::new(Type::UnTyped).get_label(), "untyped");
    assert_eq!(ErrorType::ExpectedExpressionError.description(), "Expected expression");
    assert_eq!(TokenType::GreaterThanOrEqual.name(), "GreaterThanOrEqual");
}

#[test]
fn reporter_keeps_reports_in_order() {
    let mut reporter = ErrorReporter::new();
    let here = LocationInfo { line: 1, start: 2, end: 3 };
    reporter.report(ErrorType::UnexpectedTokenError, vec![ErrorMessage::new(Some("first".to_string()), &here)], None);
    reporter.report(ErrorType::UnMatchedParenError, vec![], Some("hint".to_string()));
    assert_eq!(reporter.len(), 2);
    assert_eq!(reporter.reports[0].error_type, ErrorType::UnexpectedTokenError);
    assert_eq!(reporter.reports[0].messages[0].location_info, here);
    assert_eq!(reporter.reports[1].hint.clone().unwrap(), "hint");
}

#[test]
fn repl_root_records_new_commands() {
    let mut root = REPLRoot::new();
    root.add_command(REPLCommandKey::Expr(ExpressionKey::NotANode));
    assert_eq!(root.new_commands_start_at, 0);
    root.add_commands(vec![
        REPLCommandKey::Stmt(StatementKey::NotANode),
        REPLCommandKey::Expr(ExpressionKey::NotANode),
    ]);
    assert_eq!(root.commands.len(), 3);
    assert_eq!(root.new_commands_start_at, 1);
    assert!(root.ast_has_been_changed);
}

#[test]
fn file_statements_can_be_edited() {
    let mut file = File::new(vec![StatementKey::NotANode], None);
    file.add_statement(StatementKey::NotANode);
    file.add_statements(vec![StatementKey::NotANode]);
    assert_eq!(file.statements.len(), 3);
    file.set_expression(ExpressionKey::NotANode);
    assert_eq!(file.expression, Some(ExpressionKey::NotANode));
    file.set_statements(vec![]);
    assert!(file.statements.is_empty());
}

#[test]
fn new_trees_hold_only_a_root() {
    let ast = AST::new(true);
    match ast.root {
        RootKey::REPL(k) => {
            let root = ast.get_repl_root(k);
            assert!(root.commands.is_empty());
            assert!(!root.ast_has_been_changed);
        },
        RootKey::File(_) => panic!("expected a REPL root"),
    }
    let file_ast = AST::new(false);
    match file_ast.root {
        RootKey::File(k) => assert!(file_ast.get_file_root(k).file.is_none()),
        RootKey::REPL(_) => panic!("expected a file root"),
    }
}

#[test]
fn nodes_can_be_added_and_changed() {
    let mut ast = AST::new(false);
    let t = token_of(TokenType::IntLit, "1");
    let lit = ast.new_literal_expression(LiteralExpression::new(Literal::Int(1), t.clone()));
    let bin = ast.new_binary_expression(BinaryExpression::new(
        BinaryOperator::Plus,
        t.clone(),
        ExpressionKey::Literal(lit),
        ExpressionKey::Literal(lit),
    ));
    ast.get_binary_expression_mut(bin).set_right(ExpressionKey::NotANode);
    assert_eq!(ast.get_binary_expression(bin).right, ExpressionKey::NotANode);
    assert_eq!(ast.get_binary_expression(bin).to_code(&ast), "int: 1 + ;");
    ast.get_literal_expression_mut(lit).set_type(DataType::new(Type::Primitive(Primitive::I8)));
    assert_eq!(ast.get_literal_expression(lit).node_to_string(), "{int: 1, type: 'i8'}");
    let other = ast.new_literal_expression(LiteralExpression::new(Literal::Int(2), t));
    assert_ne!(other, lit);
}

#[test]
fn children_follow_the_grammar_order() {
    let tokens = vec![
        token_of(TokenType::Let, "let"),
        token_of(TokenType::ID, "x"),
        token_of(TokenType::LeftParen, "("),
        token_of(TokenType::I8, "i8"),
        token_of(TokenType::RightParen, ")"),
        token_of(TokenType::Assign, ":="),
        token_of(TokenType::IntLit, "1"),
        token_of(TokenType::Semicolon, ";"),
        token_of(TokenType::Minus, "-"),
        token_of(TokenType::ID, "x"),
    ];
    let p = parsed(tokens);
    let root = match p.ast.root {
        RootKey::File(k) => k,
        RootKey::REPL(_) => panic!("expected a file root"),
    };
    let file = p.ast.get_file_root(root).file.unwrap();
    assert_eq!(p.ast.children(ASTNodeKey::Root(RootKey::File(root))), vec![ASTNodeKey::File(file)]);
    let f = p.ast.get_file(file);
    let decl = f.statements[0];
    let expr = f.expression.unwrap();
    assert_eq!(p.ast.children(ASTNodeKey::File(file)), vec![ASTNodeKey::Statement(decl), ASTNodeKey::Expression(expr)]);
    let d = match decl {
        StatementKey::VarDecl(d) => p.ast.get_variable_declaration(d),
        _ => panic!("expected a declaration"),
    };
    assert_eq!(
        p.ast.children(ASTNodeKey::Statement(decl)),
        vec![ASTNodeKey::TypeHint(d.type_hint.unwrap()), ASTNodeKey::Expression(d.expression)]
    );
    let operand = match expr {
        ExpressionKey::Unary(u) => p.ast.get_unary_expression(u).operand,
        _ => panic!("expected a unary expression"),
    };
    assert_eq!(p.ast.children(ASTNodeKey::Expression(expr)), vec![ASTNodeKey::Expression(operand)]);
    assert!(p.ast.children(ASTNodeKey::Expression(operand)).is_empty());
    assert!(p.ast.children(ASTNodeKey::Identifier(d.identifier)).is_empty());
    assert!(p.ast.children(ASTNodeKey::NotANode).is_empty());
}

#[test]
fn keys_the_tree_does_not_hold_have_no_children() {
    let ast = AST::new(false);
    let bogus = jazzy_parser::nodes::BinaryExpressionKey { id: 7 };
    assert!(ast.children(ASTNodeKey::Expression(ExpressionKey::Binary(bogus))).is_empty());
    let odd = jazzy_parser::nodes::BinaryExpressionKey { id: (1u64 << 32) | 3 };
    assert!(ast.children(ASTNodeKey::Expression(ExpressionKey::Binary(odd))).is_empty());
}

#[test]
fn preorder_and_postorder_walks() {
    let p = parsed(vec![token_of(TokenType::IntLit, "1"), token_of(TokenType::Plus, "+"), token_of(TokenType::IntLit, "2")]);
    let root = match p.ast.root {
        RootKey::File(k) => k,
        RootKey::REPL(_) => panic!("expected a file root"),
    };
    let file = p.ast.get_file_root(root).file.unwrap();
    let expr = p.ast.get_file(file).expression.unwrap();
    let (left, right) = match expr {
        ExpressionKey::Binary(b) => (p.ast.get_binary_expression(b).left, p.ast.get_binary_expression(b).right),
        _ => panic!("expected a binary expression"),
    };
    let start = ASTNodeKey::Root(RootKey::File(root));
    let nodes = vec![
        start,
        ASTNodeKey::File(file),
        ASTNodeKey::Expression(expr),
        ASTNodeKey::Expression(left),
        ASTNodeKey::Expression(right),
    ];

    let pre = record(&Traversal::Preorder(()), &p.ast, start);
    let expected_pre: Vec<(Phase, ASTNodeKey)> = nodes.iter().map(|n| (Phase::Pre, *n)).collect();
    assert_eq!(pre, expected_pre);

    let post = record(&Traversal::Postorder(()), &p.ast, start);
    let expected_post = vec![
        (Phase::Post, ASTNodeKey::Expression(left)),
        (Phase::Post, ASTNodeKey::Expression(right)),
        (Phase::Post, ASTNodeKey::Expression(expr)),
        (Phase::Post, ASTNodeKey::File(file)),
        (Phase::Post, start),
    ];
    assert_eq!(post, expected_post);

    let both = record(&Traversal::PrePostorder((), ()), &p.ast, ASTNodeKey::Expression(expr));
    assert_eq!(
        both,
        vec![
            (Phase::Pre, ASTNodeKey::Expression(expr)),
            (Phase::Pre, ASTNodeKey::Expression(left)),
            (Phase::Post, ASTNodeKey::Expression(left)),
            (Phase::Pre, ASTNodeKey::Expression(right)),
            (Phase::Post, ASTNodeKey::Expression(right)),
            (Phase::Post, ASTNodeKey::Expression(expr)),
        ]
    );
}

#[test]
fn walk_takes_three_steps_per_node() {
    let p = parsed(vec![token_of(TokenType::Minus, "-"), token_of(TokenType::IntLit, "4")]);
    let root = match p.ast.root {
        RootKey::File(k) => k,
        RootKey::REPL(_) => panic!("expected a file root"),
    };
    let mut walk = Walk::new(ASTNodeKey::Root(RootKey::File(root)));
    let traversal: Traversal<()> = Traversal::Postorder(());
    assert!(!traversal.has_pre());
    assert!(traversal.has_post());
    let mut steps = 0;
    while walk.step(&traversal, &p.ast) != WalkStep::Done {
        steps += 1;
    }
    // file root, file, unary, literal
    assert_eq!(steps, 12);
    assert!(walk.frames.is_empty());
    let fresh = Walk::new(ASTNodeKey::NotANode);
    assert_eq!(fresh.frames, vec![Frame::Enter(ASTNodeKey::NotANode)]);
}

#[test]
fn walk_reads_children_when_it_reaches_them() {
    let mut p = parsed(vec![token_of(TokenType::Minus, "-"), token_of(TokenType::IntLit, "4")]);
    let root = match p.ast.root {
        RootKey::File(k) => k,
        RootKey::REPL(_) => panic!("expected a file root"),
    };
    let file = p.ast.get_file_root(root).file.unwrap();
    let expr = p.ast.get_file(file).expression.unwrap();
    let traversal: Traversal<()> = Traversal::Preorder(());
    let mut walk = Walk::new(ASTNodeKey::Expression(expr));
    assert_eq!(walk.step(&traversal, &p.ast), WalkStep::Run(Phase::Pre, ASTNodeKey::Expression(expr)));
    // A callback that cuts the operand off before the children are read.
    match expr {
        ExpressionKey::Unary(u) => p.ast.get_unary_expression_mut(u).set_operand(ExpressionKey::NotANode),
        _ => panic!("expected a unary expression"),
    }
    assert_eq!(walk.step(&traversal, &p.ast), WalkStep::Continue);
    assert_eq!(
        walk.step(&traversal, &p.ast),
        WalkStep::Run(Phase::Pre, ASTNodeKey::Expression(ExpressionKey::NotANode))
    );
}

#[test]
fn parsed_expression_prints_its_outline() {
    let p = parsed(vec![token_of(TokenType::Not, "!"), token_of(TokenType::ID, "ok")]);
    let root = match p.ast.root {
        RootKey::File(k) => k,
        RootKey::REPL(_) => panic!("expected a file root"),
    };
    let file = p.ast.get_file_root(root).file.unwrap();
    let expr = p.ast.get_file(file).expression.unwrap();
    assert_eq!(jazzy_parser::display::expression_to_string(&p.ast, expr, 1), "\t{not}\n\t\t{Variable: ok}\n");
    assert_eq!(jazzy_parser::display::expression_to_code(&p.ast, expr), "notok;");
}

#[test]
fn change_record_follows_the_calls_since_it_was_last_asked() {
    let mut ast = AST::new(true);
    let key = match ast.root {
        RootKey::REPL(k) => k,
        RootKey::File(_) => panic!("expected a REPL root"),
    };
    assert!(!ast.has_been_changed());
    ast.get_repl_root_mut(key).add_command(REPLCommandKey::Expr(ExpressionKey::NotANode));
    ast.get_repl_root_mut(key).add_commands(vec![REPLCommandKey::Stmt(StatementKey::NotANode)]);
    assert!(ast.has_been_changed());
    assert!(!ast.has_been_changed());
    ast.get_repl_root_mut(key).add_commands(vec![]);
    assert!(ast.has_been_changed());
    assert!(!ast.has_been_changed());
    assert_eq!(ast.get_repl_root(key).commands.len(), 2);
    let mut file_tree = AST::new(false);
    assert!(!file_tree.has_been_changed());
}

#[test]
fn adding_statements_at_once_or_one_by_one_gives_the_same_file() {
    let v = vec![StatementKey::NotANode, StatementKey::NotANode, StatementKey::NotANode];
    let mut whole = File::new(vec![StatementKey::NotANode], Some(ExpressionKey::NotANode));
    let mut in_turn = File::new(vec![StatementKey::NotANode], Some(ExpressionKey::NotANode));
    whole.add_statements(v.clone());
    for x in v {
        in_turn.add_statement(x);
    }
    assert_eq!(whole.statements, in_turn.statements);
    assert_eq!(whole.statements.len(), 4);
    assert_eq!(whole.expression, in_turn.expression);
}
