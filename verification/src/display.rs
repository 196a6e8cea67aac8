//! How nodes print themselves: one line per node (`node_to_string`), an
//! indented outline of a subtree (`to_string_with_level`), and code (`to_code`).
use crate::ast::{AstView, AST};
use crate::nodes::{
    BinaryExpression, BinaryOperator, ExpressionKey, File, FileRoot, Identifier, Literal,
    LiteralExpression, REPLRoot, Statement, TypeHint, UnaryExpression, UnaryOperator,
    VariableAssignment, VariableDeclaration, VariableExpression,
};
use crate::text::{concat2, concat3, int_text, int_to_string, tabs, tabs_of};
use crate::types::{type_label, DataType, Type};
use vstd::prelude::*;

verus! {

// ---------------------------------------------------------------------------
// One node, one line
// ---------------------------------------------------------------------------

/// `, type: '<label>'` for a typed node, nothing for an untyped one.
pub open spec fn type_suffix(dt: DataType) -> Seq<char> {
    match dt.data_type {
        Type::UnTyped => seq![],
        _ => ", type: '"@ + type_label(dt.data_type) + "'"@,
    }
}

pub open spec fn binary_operator_text(op: BinaryOperator) -> Seq<char> {
    match op {
        BinaryOperator::Plus => "+"@,
        BinaryOperator::Minus => "-"@,
        BinaryOperator::Times => "*"@,
        BinaryOperator::Divide => "/"@,
        BinaryOperator::Modulus => "%"@,
        BinaryOperator::NotEqual => "!="@,
        BinaryOperator::Equal => "=="@,
        BinaryOperator::LessThan => "<"@,
        BinaryOperator::LessThanOrEqual => "<="@,
        BinaryOperator::GreaterThan => ">"@,
        BinaryOperator::GreaterThanOrEqual => ">="@,
        BinaryOperator::And => "and"@,
        BinaryOperator::Or => "or"@,
    }
}

pub open spec fn unary_operator_text(op: UnaryOperator) -> Seq<char> {
    match op {
        UnaryOperator::Minus => "-"@,
        UnaryOperator::Not => "not"@,
    }
}

pub open spec fn binary_node_text(n: BinaryExpression) -> Seq<char> {
    "{"@ + binary_operator_text(n.operator) + type_suffix(n.data_type) + "}"@
}

pub open spec fn unary_node_text(n: UnaryExpression) -> Seq<char> {
    "{"@ + (if n.operator == UnaryOperator::Minus {
        "unary "@
    } else {
        ""@
    }) + unary_operator_text(n.operator) + type_suffix(n.data_type) + "}"@
}

/// A variable's line, given the type its symbol has.
pub open spec fn variable_node_text(name: Seq<char>, dt: DataType) -> Seq<char> {
    "{Variable: "@ + name + type_suffix(dt) + "}"@
}

/// How a literal's value prints (a float prints the text it was written as).
pub open spec fn literal_value_text(v: Literal) -> Seq<char> {
    match v {
        Literal::Int(i) => "int: "@ + int_text(i as int),
        Literal::Float(s) => "float: "@ + s@,
        Literal::True(_) => "true"@,
        Literal::False(_) => "false"@,
        Literal::String(s) => "string: \""@ + s@ + "\""@,
    }
}

pub open spec fn literal_node_text(n: LiteralExpression) -> Seq<char> {
    "{"@ + literal_value_text(n.value) + type_suffix(n.data_type) + "}"@
}

pub open spec fn identifier_node_text(n: Identifier) -> Seq<char> {
    "{ID: "@ + n.name@ + "}"@
}

pub open spec fn type_hint_node_text(n: TypeHint) -> Seq<char> {
    "{Type: "@ + type_label(n.data_type.data_type) + "}"@
}

pub open spec fn declaration_node_text(n: VariableDeclaration) -> Seq<char> {
    "{Declaration"@ + (if n.mutable {
        " (mut)"@
    } else {
        ""@
    }) + "}"@
}

/// A node's line indented by `level` tabs.
pub open spec fn line(level: nat, text: Seq<char>) -> Seq<char> {
    tabs(level) + text + "\n"@
}

fn type_suffix_of(dt: DataType) -> (r: String)
    ensures
        r@ == type_suffix(dt),
{
    match dt.data_type {
        Type::UnTyped => String::new(),
        _ => concat3(", type: '", dt.get_label(), "'"),
    }
}

/// `level` tabs, `text`, a newline.
fn line_of(level: usize, text: &str) -> (r: String)
    ensures
        r@ == line(level as nat, text@),
{
    let mut s = tabs_of(level);
    s.append(text);
    s.append("\n");
    s
}

impl REPLRoot {
    pub fn node_to_string(&self) -> (r: String)
        ensures
            r@ == "{REPLRoot}"@,
    {
        "{REPLRoot}".to_owned()
    }
}

impl FileRoot {
    pub fn node_to_string(&self) -> (r: String)
        ensures
            r@ == "{FileRoot}"@,
    {
        "{FileRoot}".to_owned()
    }
}

impl File {
    pub fn node_to_string(&self) -> (r: String)
        ensures
            r@ == "{File}"@,
    {
        "{File}".to_owned()
    }
}

impl VariableDeclaration {
    pub fn node_to_string(&self) -> (r: String)
        ensures
            r@ == declaration_node_text(*self),
    {
        concat3("{Declaration", if self.mutable { " (mut)" } else { "" }, "}")
    }
}

impl VariableAssignment {
    pub fn node_to_string(&self) -> (r: String)
        ensures
            r@ == "{Assignment}"@,
    {
        "{Assignment}".to_owned()
    }
}

impl Statement {
    pub fn node_to_string(&self) -> (r: String)
        ensures
            r@ == match self {
                Statement::VarDecl(d) => declaration_node_text(*d),
                Statement::VarAssmt(_) => "{Assignment}"@,
            },
    {
        match self {
            Statement::VarDecl(decl) => decl.node_to_string(),
            Statement::VarAssmt(assmt) => assmt.node_to_string(),
        }
    }
}

impl BinaryExpression {
    pub fn get_operator_str(&self) -> (r: String)
        ensures
            r@ == binary_operator_text(self.operator),
    {
        match self.operator {
            BinaryOperator::Plus => "+".to_owned(),
            BinaryOperator::Minus => "-".to_owned(),
            BinaryOperator::Times => "*".to_owned(),
            BinaryOperator::Divide => "/".to_owned(),
            BinaryOperator::Modulus => "%".to_owned(),
            BinaryOperator::NotEqual => "!=".to_owned(),
            BinaryOperator::Equal => "==".to_owned(),
            BinaryOperator::LessThan => "<".to_owned(),
            BinaryOperator::LessThanOrEqual => "<=".to_owned(),
            BinaryOperator::GreaterThan => ">".to_owned(),
            BinaryOperator::GreaterThanOrEqual => ">=".to_owned(),
            BinaryOperator::And => "and".to_owned(),
            BinaryOperator::Or => "or".to_owned(),
        }
    }

    pub fn node_to_string(&self) -> (r: String)
        ensures
            r@ == binary_node_text(*self),
    {
        let mut s = concat2("{", self.get_operator_str().as_str());
        s.append(type_suffix_of(self.data_type).as_str());
        s.append("}");
        s
    }
}

impl UnaryExpression {
    pub fn get_operator_str(&self) -> (r: String)
        ensures
            r@ == unary_operator_text(self.operator),
    {
        match self.operator {
            UnaryOperator::Minus => "-".to_owned(),
            UnaryOperator::Not => "not".to_owned(),
        }
    }

    pub fn node_to_string(&self) -> (r: String)
        ensures
            r@ == unary_node_text(*self),
    {
        let prefix = match self.operator {
            UnaryOperator::Minus => "unary ",
            _ => "",
        };
        let mut s = concat3("{", prefix, self.get_operator_str().as_str());
        s.append(type_suffix_of(self.data_type).as_str());
        s.append("}");
        s
    }
}

impl VariableExpression {
    /// The variable's line: its name, and the type of its symbol when that
    /// type is known.
    pub fn node_to_string(&self) -> (r: String)
        ensures
            self.symbol.is_none() ==> r@ == variable_node_text(self.name@, DataType { data_type: Type::UnTyped }),
            exists|dt: DataType| r@ == variable_node_text(self.name@, dt),
    {
        let dt = self.get_type();
        let mut s = concat2("{Variable: ", self.name.as_str());
        s.append(type_suffix_of(dt).as_str());
        s.append("}");
        proof {
            assert(s@ == variable_node_text(self.name@, dt));
        }
        s
    }

    pub fn to_string_with_level(&self, level: usize) -> (r: String)
        ensures
            self.symbol.is_none() ==> r@ == line(level as nat, variable_node_text(self.name@, DataType { data_type: Type::UnTyped })),
            exists|dt: DataType| r@ == line(level as nat, variable_node_text(self.name@, dt)),
    {
        let text = self.node_to_string();
        let r = line_of(level, text.as_str());
        proof {
            let dt = choose|dt: DataType| text@ == variable_node_text(self.name@, dt);
            assert(r@ == line(level as nat, variable_node_text(self.name@, dt)));
        }
        r
    }

    pub fn to_string(&self) -> (r: String)
        ensures
            self.symbol.is_none() ==> r@ == line(0, variable_node_text(self.name@, DataType { data_type: Type::UnTyped })),
            exists|dt: DataType| r@ == line(0, variable_node_text(self.name@, dt)),
    {
        self.to_string_with_level(0)
    }

    pub fn to_code(&self) -> (r: String)
        ensures
            r == self.name,
    {
        self.name.clone()
    }
}

impl LiteralExpression {
    fn value_to_string(&self) -> (r: String)
        ensures
            r@ == literal_value_text(self.value),
    {
        match &self.value {
            Literal::Int(intval) => concat2("int: ", int_to_string(*intval).as_str()),
            Literal::Float(floatval) => concat2("float: ", floatval.as_str()),
            Literal::True(_) => "true".to_owned(),
            Literal::False(_) => "false".to_owned(),
            Literal::String(stringval) => concat3("string: \"", stringval.as_str(), "\""),
        }
    }

    pub fn node_to_string(&self) -> (r: String)
        ensures
            r@ == literal_node_text(*self),
    {
        let mut s = concat2("{", self.value_to_string().as_str());
        s.append(type_suffix_of(self.data_type).as_str());
        s.append("}");
        s
    }

    pub fn to_string_with_level(&self, level: usize) -> (r: String)
        ensures
            r@ == line(level as nat, literal_node_text(*self)),
    {
        line_of(level, self.node_to_string().as_str())
    }

    pub fn to_string(&self) -> (r: String)
        ensures
            r@ == line(0, literal_node_text(*self)),
    {
        self.to_string_with_level(0)
    }

    pub fn to_code(&self) -> (r: String)
        ensures
            r@ == literal_value_text(self.value),
    {
        self.value_to_string()
    }
}

impl Identifier {
    pub fn node_to_string(&self) -> (r: String)
        ensures
            r@ == identifier_node_text(*self),
    {
        concat3("{ID: ", self.name.as_str(), "}")
    }

    pub fn to_string_with_level(&self, level: usize) -> (r: String)
        ensures
            r@ == line(level as nat, identifier_node_text(*self)),
    {
        line_of(level, self.node_to_string().as_str())
    }

    pub fn to_string(&self) -> (r: String)
        ensures
            r@ == line(0, identifier_node_text(*self)),
    {
        self.to_string_with_level(0)
    }

    pub fn to_code(&self) -> (r: String)
        ensures
            r == self.name,
    {
        self.name.clone()
    }
}

impl TypeHint {
    pub fn node_to_string(&self) -> (r: String)
        ensures
            r@ == type_hint_node_text(*self),
    {
        concat3("{Type: ", self.data_type.get_label(), "}")
    }

    pub fn to_string_with_level(&self, level: usize) -> (r: String)
        ensures
            r@ == line(level as nat, type_hint_node_text(*self)),
    {
        line_of(level, self.node_to_string().as_str())
    }

    pub fn to_string(&self) -> (r: String)
        ensures
            r@ == line(0, type_hint_node_text(*self)),
    {
        self.to_string_with_level(0)
    }

    pub fn to_code(&self) -> (r: String)
        ensures
            r@ == type_label(self.data_type.data_type),
    {
        self.data_type.get_label().to_owned()
    }
}

// ---------------------------------------------------------------------------
// Expressions below a key
// ---------------------------------------------------------------------------

/// Every expression node below `key` is live, and no path down from it is
/// longer than `fuel` operator nodes.
pub open spec fn expr_bounded(v: AstView, key: ExpressionKey, fuel: nat) -> bool
    decreases fuel,
{
    match key {
        ExpressionKey::NotANode => true,
        ExpressionKey::Binary(k) => {
            &&& v.binaries.contains_key(k.id)
            &&& fuel > 0
            &&& expr_bounded(v, v.binaries[k.id].binary().left, (fuel - 1) as nat)
            &&& expr_bounded(v, v.binaries[k.id].binary().right, (fuel - 1) as nat)
        },
        ExpressionKey::Unary(k) => {
            &&& v.unaries.contains_key(k.id)
            &&& fuel > 0
            &&& expr_bounded(v, v.unaries[k.id].unary().operand, (fuel - 1) as nat)
        },
        ExpressionKey::Variable(k) => v.variables.contains_key(k.id),
        ExpressionKey::Literal(k) => v.literals.contains_key(k.id),
    }
}

/// No variable node below `key` (within `fuel`) has a symbol.
pub open spec fn expr_symbol_free_within(v: AstView, key: ExpressionKey, fuel: nat) -> bool
    decreases fuel,
{
    match key {
        ExpressionKey::Binary(k) => fuel > 0 && expr_symbol_free_within(v, v.binaries[k.id].binary().left, (fuel - 1) as nat)
            && expr_symbol_free_within(v, v.binaries[k.id].binary().right, (fuel - 1) as nat),
        ExpressionKey::Unary(k) => fuel > 0 && expr_symbol_free_within(v, v.unaries[k.id].unary().operand, (fuel - 1) as nat),
        ExpressionKey::Variable(k) => v.variables[k.id].variable().symbol.is_none(),
        _ => true,
    }
}

/// The outline of the expression below `key`, its root line at `level`.
pub open spec fn expr_text_within(v: AstView, key: ExpressionKey, level: nat, fuel: nat) -> Seq<char>
    decreases fuel,
{
    match key {
        ExpressionKey::NotANode => seq![],
        ExpressionKey::Binary(k) => if fuel > 0 {
            line(level, binary_node_text(v.binaries[k.id].binary()))
                + expr_text_within(v, v.binaries[k.id].binary().left, level + 1, (fuel - 1) as nat)
                + expr_text_within(v, v.binaries[k.id].binary().right, level + 1, (fuel - 1) as nat)
        } else {
            seq![]
        },
        ExpressionKey::Unary(k) => if fuel > 0 {
            line(level, unary_node_text(v.unaries[k.id].unary()))
                + expr_text_within(v, v.unaries[k.id].unary().operand, level + 1, (fuel - 1) as nat)
        } else {
            seq![]
        },
        ExpressionKey::Variable(k) => line(
            level,
            variable_node_text(v.variables[k.id].variable().name@, DataType { data_type: Type::UnTyped }),
        ),
        ExpressionKey::Literal(k) => line(level, literal_node_text(v.literals[k.id].literal())),
    }
}

/// The code of the expression below `key`: `left op right;`, `op operand;`,
/// a name, or a literal's value.
pub open spec fn expr_code_within(v: AstView, key: ExpressionKey, fuel: nat) -> Seq<char>
    decreases fuel,
{
    match key {
        ExpressionKey::NotANode => seq![],
        ExpressionKey::Binary(k) => if fuel > 0 {
            expr_code_within(v, v.binaries[k.id].binary().left, (fuel - 1) as nat) + " "@
                + binary_operator_text(v.binaries[k.id].binary().operator) + " "@
                + expr_code_within(v, v.binaries[k.id].binary().right, (fuel - 1) as nat) + ";"@
        } else {
            seq![]
        },
        ExpressionKey::Unary(k) => if fuel > 0 {
            unary_operator_text(v.unaries[k.id].unary().operator) + expr_code_within(
                v,
                v.unaries[k.id].unary().operand,
                (fuel - 1) as nat,
            ) + ";"@
        } else {
            seq![]
        },
        ExpressionKey::Variable(k) => v.variables[k.id].variable().name@,
        ExpressionKey::Literal(k) => literal_value_text(v.literals[k.id].literal().value),
    }
}

/// Every node below `key` is live and no path down from it is endless, and
/// indenting from `level` on stays within `usize`.
pub open spec fn expr_printable(v: AstView, key: ExpressionKey, level: int) -> bool {
    exists|fuel: nat| expr_bounded(v, key, fuel) && level + fuel <= usize::MAX
}

pub open spec fn expr_fuel(v: AstView, key: ExpressionKey) -> nat {
    choose|fuel: nat| expr_bounded(v, key, fuel)
}

pub open spec fn expr_symbol_free(v: AstView, key: ExpressionKey) -> bool {
    expr_symbol_free_within(v, key, expr_fuel(v, key))
}

/// The outline of the expression below `key`, its root line at `level`.
pub open spec fn expr_text(v: AstView, key: ExpressionKey, level: nat) -> Seq<char> {
    expr_text_within(v, key, level, expr_fuel(v, key))
}

/// The code of the expression below `key`.
pub open spec fn expr_code(v: AstView, key: ExpressionKey) -> Seq<char> {
    expr_code_within(v, key, expr_fuel(v, key))
}

/// More fuel than a subtree needs changes nothing.
pub proof fn lemma_expr_fuel(v: AstView, key: ExpressionKey, f: nat, g: nat, level: nat)
    requires
        expr_bounded(v, key, f),
        f <= g,
    ensures
        expr_bounded(v, key, g),
        expr_symbol_free_within(v, key, f) == expr_symbol_free_within(v, key, g),
        expr_text_within(v, key, level, f) == expr_text_within(v, key, level, g),
        expr_code_within(v, key, f) == expr_code_within(v, key, g),
    decreases f,
{
    match key {
        ExpressionKey::Binary(k) => {
            let n = v.binaries[k.id].binary();
            lemma_expr_fuel(v, n.left, (f - 1) as nat, (g - 1) as nat, level + 1);
            lemma_expr_fuel(v, n.right, (f - 1) as nat, (g - 1) as nat, level + 1);
        },
        ExpressionKey::Unary(k) => {
            let n = v.unaries[k.id].unary();
            lemma_expr_fuel(v, n.operand, (f - 1) as nat, (g - 1) as nat, level + 1);
        },
        _ => {},
    }
}

/// Any fuel that suffices gives what the chosen fuel gives.
pub proof fn lemma_expr_any_fuel(v: AstView, key: ExpressionKey, f: nat, level: nat)
    requires
        expr_bounded(v, key, f),
    ensures
        expr_symbol_free_within(v, key, f) == expr_symbol_free(v, key),
        expr_text_within(v, key, level, f) == expr_text(v, key, level),
        expr_code_within(v, key, f) == expr_code(v, key),
{
    let g = expr_fuel(v, key);
    if f <= g {
        lemma_expr_fuel(v, key, f, g, level);
    } else {
        lemma_expr_fuel(v, key, g, f, level);
    }
}

// ---------------------------------------------------------------------------
// Outlines whatever the symbols hold
// ---------------------------------------------------------------------------

/// The types that the variable lines of an outline carry, laid out as the
/// expression is: a type at a variable, one part per operand below an operator.
pub enum VarTypes {
    Leaf,
    Var(DataType),
    One(Box<VarTypes>),
    Two(Box<VarTypes>, Box<VarTypes>),
}

/// The part for the first (or only) operand.
pub open spec fn types_first(t: VarTypes) -> VarTypes {
    match t {
        VarTypes::One(a) => *a,
        VarTypes::Two(a, _) => *a,
        _ => VarTypes::Leaf,
    }
}

/// The part for the second operand.
pub open spec fn types_second(t: VarTypes) -> VarTypes {
    match t {
        VarTypes::Two(_, b) => *b,
        _ => VarTypes::Leaf,
    }
}

/// The type at a variable.
pub open spec fn types_var(t: VarTypes) -> DataType {
    match t {
        VarTypes::Var(d) => d,
        _ => DataType { data_type: Type::UnTyped },
    }
}

/// The outline of the expression below `key` (within `fuel`), each variable
/// line carrying the type that `t` gives it.
pub open spec fn expr_typed_within(v: AstView, key: ExpressionKey, level: nat, fuel: nat, t: VarTypes) -> Seq<char>
    decreases fuel,
{
    match key {
        ExpressionKey::NotANode => seq![],
        ExpressionKey::Binary(k) => if fuel > 0 {
            let n = v.binaries[k.id].binary();
            line(level, binary_node_text(n)) + expr_typed_within(v, n.left, level + 1, (fuel - 1) as nat, types_first(t))
                + expr_typed_within(v, n.right, level + 1, (fuel - 1) as nat, types_second(t))
        } else {
            seq![]
        },
        ExpressionKey::Unary(k) => if fuel > 0 {
            let n = v.unaries[k.id].unary();
            line(level, unary_node_text(n)) + expr_typed_within(v, n.operand, level + 1, (fuel - 1) as nat, types_first(t))
        } else {
            seq![]
        },
        ExpressionKey::Variable(k) => line(level, variable_node_text(v.variables[k.id].variable().name@, types_var(t))),
        ExpressionKey::Literal(k) => line(level, literal_node_text(v.literals[k.id].literal())),
    }
}

/// `t` gives the untyped type to every variable below `key` that has no symbol.
pub open spec fn types_fit_within(v: AstView, key: ExpressionKey, fuel: nat, t: VarTypes) -> bool
    decreases fuel,
{
    match key {
        ExpressionKey::Binary(k) => fuel > 0 && types_fit_within(v, v.binaries[k.id].binary().left, (fuel - 1) as nat, types_first(t))
            && types_fit_within(v, v.binaries[k.id].binary().right, (fuel - 1) as nat, types_second(t)),
        ExpressionKey::Unary(k) => fuel > 0 && types_fit_within(v, v.unaries[k.id].unary().operand, (fuel - 1) as nat, types_first(t)),
        ExpressionKey::Variable(k) => v.variables[k.id].variable().symbol.is_none() ==> types_var(t) == DataType {
            data_type: Type::UnTyped,
        },
        _ => true,
    }
}

pub open spec fn expr_typed(v: AstView, key: ExpressionKey, level: nat, t: VarTypes) -> Seq<char> {
    expr_typed_within(v, key, level, expr_fuel(v, key), t)
}

pub open spec fn types_fit(v: AstView, key: ExpressionKey, t: VarTypes) -> bool {
    types_fit_within(v, key, expr_fuel(v, key), t)
}

/// `s` is an outline of the expression below `key`: one line per node, each
/// variable line carrying some type (the type its symbol held when printed),
/// the untyped one for a variable without a symbol.
pub open spec fn expr_outline(v: AstView, key: ExpressionKey, level: nat, s: Seq<char>) -> bool {
    exists|t: VarTypes| types_fit(v, key, t) && s == #[trigger] expr_typed(v, key, level, t)
}

/// `s` is the line of `n` at `level`, then outlines of its operands.
pub open spec fn binary_outline(v: AstView, n: BinaryExpression, level: nat, s: Seq<char>) -> bool {
    exists|a: Seq<char>, b: Seq<char>|
        #![trigger expr_outline(v, n.left, level + 1, a), expr_outline(v, n.right, level + 1, b)]
        expr_outline(v, n.left, level + 1, a) && expr_outline(v, n.right, level + 1, b) && s == line(
            level,
            binary_node_text(n),
        ) + a + b
}

/// `s` is the line of `n` at `level`, then an outline of its operand.
pub open spec fn unary_outline(v: AstView, n: UnaryExpression, level: nat, s: Seq<char>) -> bool {
    exists|a: Seq<char>| #[trigger] expr_outline(v, n.operand, level + 1, a) && s == line(level, unary_node_text(n)) + a
}

/// More fuel than a subtree needs changes no typed outline.
pub proof fn lemma_typed_fuel(v: AstView, key: ExpressionKey, f: nat, g: nat, level: nat, t: VarTypes)
    requires
        expr_bounded(v, key, f),
        f <= g,
    ensures
        expr_typed_within(v, key, level, f, t) == expr_typed_within(v, key, level, g, t),
        types_fit_within(v, key, f, t) == types_fit_within(v, key, g, t),
    decreases f,
{
    match key {
        ExpressionKey::Binary(k) => {
            let n = v.binaries[k.id].binary();
            lemma_typed_fuel(v, n.left, (f - 1) as nat, (g - 1) as nat, level + 1, types_first(t));
            lemma_typed_fuel(v, n.right, (f - 1) as nat, (g - 1) as nat, level + 1, types_second(t));
        },
        ExpressionKey::Unary(k) => {
            let n = v.unaries[k.id].unary();
            lemma_typed_fuel(v, n.operand, (f - 1) as nat, (g - 1) as nat, level + 1, types_first(t));
        },
        _ => {},
    }
}

/// Any fuel that suffices gives the typed outline that the chosen fuel gives.
pub proof fn lemma_typed_any_fuel(v: AstView, key: ExpressionKey, f: nat, level: nat, t: VarTypes)
    requires
        expr_bounded(v, key, f),
    ensures
        expr_typed_within(v, key, level, f, t) == expr_typed(v, key, level, t),
        types_fit_within(v, key, f, t) == types_fit(v, key, t),
{
    lemma_expr_any_fuel(v, key, f, level);
    let g = expr_fuel(v, key);
    assert(expr_bounded(v, key, g));
    if f <= g {
        lemma_typed_fuel(v, key, f, g, level, t);
    } else {
        lemma_typed_fuel(v, key, g, f, level, t);
    }
}

/// The outline of the expression below `key`, walked with `fuel` to spare.
fn expr_to_string(ast: &AST, key: ExpressionKey, level: usize, Ghost(fuel): Ghost<nat>) -> (r: String)
    requires
        ast@.wf(),
        expr_bounded(ast@, key, fuel),
        level + fuel <= usize::MAX,
    ensures
        expr_symbol_free_within(ast@, key, fuel) ==> r@ == expr_text_within(ast@, key, level as nat, fuel),
        exists|t: VarTypes| types_fit_within(ast@, key, fuel, t) && r@ == #[trigger] expr_typed_within(
            ast@,
            key,
            level as nat,
            fuel,
            t,
        ),
    decreases fuel, 1nat,
{
    match key {
        ExpressionKey::Binary(bin) => {
            let r = ast.get_binary_expression(bin).to_string_within(level, ast, Ghost(fuel));
            proof {
                let n = ast@.binaries[bin.id].binary();
                let f1 = (fuel - 1) as nat;
                let (tl, tr) = choose|tl: VarTypes, tr: VarTypes|
                    types_fit_within(ast@, n.left, f1, tl) && types_fit_within(ast@, n.right, f1, tr) && r@ == line(
                        level as nat,
                        binary_node_text(n),
                    ) + expr_typed_within(ast@, n.left, (level + 1) as nat, f1, tl) + expr_typed_within(
                        ast@,
                        n.right,
                        (level + 1) as nat,
                        f1,
                        tr,
                    );
                let t = VarTypes::Two(Box::new(tl), Box::new(tr));
                assert(types_first(t) == tl && types_second(t) == tr);
                assert(types_fit_within(ast@, key, fuel, t) && r@ == expr_typed_within(ast@, key, level as nat, fuel, t));
            }
            r
        },
        ExpressionKey::Unary(un) => {
            let r = ast.get_unary_expression(un).to_string_within(level, ast, Ghost(fuel));
            proof {
                let n = ast@.unaries[un.id].unary();
                let f1 = (fuel - 1) as nat;
                let to = choose|to: VarTypes|
                    types_fit_within(ast@, n.operand, f1, to) && r@ == line(level as nat, unary_node_text(n))
                        + expr_typed_within(ast@, n.operand, (level + 1) as nat, f1, to);
                let t = VarTypes::One(Box::new(to));
                assert(types_first(t) == to);
                assert(types_fit_within(ast@, key, fuel, t) && r@ == expr_typed_within(ast@, key, level as nat, fuel, t));
            }
            r
        },
        ExpressionKey::Variable(var) => {
            let node = ast.get_variable_expression(var);
            let r = node.to_string_with_level(level);
            proof {
                let dt = if node.symbol.is_none() {
                    DataType { data_type: Type::UnTyped }
                } else {
                    choose|dt: DataType| r@ == line(level as nat, variable_node_text(node.name@, dt))
                };
                let t = VarTypes::Var(dt);
                assert(types_fit_within(ast@, key, fuel, t) && r@ == expr_typed_within(ast@, key, level as nat, fuel, t));
            }
            r
        },
        ExpressionKey::Literal(lit) => {
            let r = ast.get_literal_expression(lit).to_string_with_level(level);
            proof {
                assert(types_fit_within(ast@, key, fuel, VarTypes::Leaf) && r@ == expr_typed_within(
                    ast@,
                    key,
                    level as nat,
                    fuel,
                    VarTypes::Leaf,
                ));
            }
            r
        },
        ExpressionKey::NotANode => {
            let r = String::new();
            proof {
                assert(types_fit_within(ast@, key, fuel, VarTypes::Leaf) && r@ == expr_typed_within(
                    ast@,
                    key,
                    level as nat,
                    fuel,
                    VarTypes::Leaf,
                ));
            }
            r
        },
    }
}

/// The code of the expression below `key`.
fn expr_to_code(ast: &AST, key: ExpressionKey, Ghost(fuel): Ghost<nat>) -> (r: String)
    requires
        ast@.wf(),
        expr_bounded(ast@, key, fuel),
    ensures
        r@ == expr_code_within(ast@, key, fuel),
    decreases fuel, 1nat,
{
    match key {
        ExpressionKey::Binary(bin) => ast.get_binary_expression(bin).to_code_within(ast, Ghost(fuel)),
        ExpressionKey::Unary(un) => ast.get_unary_expression(un).to_code_within(ast, Ghost(fuel)),
        ExpressionKey::Variable(var) => ast.get_variable_expression(var).to_code(),
        ExpressionKey::Literal(lit) => ast.get_literal_expression(lit).to_code(),
        ExpressionKey::NotANode => String::new(),
    }
}

impl BinaryExpression {
    fn to_string_within(&self, level: usize, ast: &AST, Ghost(fuel): Ghost<nat>) -> (r: String)
        requires
            ast@.wf(),
            fuel > 0,
            expr_bounded(ast@, self.left, (fuel - 1) as nat),
            expr_bounded(ast@, self.right, (fuel - 1) as nat),
            level + fuel <= usize::MAX,
        ensures
            expr_symbol_free_within(ast@, self.left, (fuel - 1) as nat) && expr_symbol_free_within(
                ast@,
                self.right,
                (fuel - 1) as nat,
            ) ==> r@ == line(level as nat, binary_node_text(*self)) + expr_text_within(
                ast@,
                self.left,
                (level + 1) as nat,
                (fuel - 1) as nat,
            ) + expr_text_within(ast@, self.right, (level + 1) as nat, (fuel - 1) as nat),
            exists|tl: VarTypes, tr: VarTypes|
                types_fit_within(ast@, self.left, (fuel - 1) as nat, tl) && types_fit_within(
                    ast@,
                    self.right,
                    (fuel - 1) as nat,
                    tr,
                ) && r@ == line(level as nat, binary_node_text(*self)) + #[trigger] expr_typed_within(
                    ast@,
                    self.left,
                    (level + 1) as nat,
                    (fuel - 1) as nat,
                    tl,
                ) + #[trigger] expr_typed_within(ast@, self.right, (level + 1) as nat, (fuel - 1) as nat, tr),
        decreases fuel, 0nat,
    {
        let mut s = line_of(level, self.node_to_string().as_str());
        let a = expr_to_string(ast, self.left, level + 1, Ghost((fuel - 1) as nat));
        let b = expr_to_string(ast, self.right, level + 1, Ghost((fuel - 1) as nat));
        let ghost head = s@;
        s.append(a.as_str());
        s.append(b.as_str());
        proof {
            let f1 = (fuel - 1) as nat;
            let tl = choose|t: VarTypes| types_fit_within(ast@, self.left, f1, t) && a@ == expr_typed_within(ast@, self.left, (level + 1) as nat, f1, t);
            let tr = choose|t: VarTypes| types_fit_within(ast@, self.right, f1, t) && b@ == expr_typed_within(ast@, self.right, (level + 1) as nat, f1, t);
            assert(s@ == head + a@ + b@);
            assert(types_fit_within(ast@, self.left, f1, tl) && types_fit_within(ast@, self.right, f1, tr) && s@ == line(level as nat, binary_node_text(*self)) + expr_typed_within(ast@, self.left, (level + 1) as nat, f1, tl) + expr_typed_within(ast@, self.right, (level + 1) as nat, f1, tr));
        }
        s
    }

    fn to_code_within(&self, ast: &AST, Ghost(fuel): Ghost<nat>) -> (r: String)
        requires
            ast@.wf(),
            fuel > 0,
            expr_bounded(ast@, self.left, (fuel - 1) as nat),
            expr_bounded(ast@, self.right, (fuel - 1) as nat),
        ensures
            r@ == expr_code_within(ast@, self.left, (fuel - 1) as nat) + " "@ + binary_operator_text(self.operator)
                + " "@ + expr_code_within(ast@, self.right, (fuel - 1) as nat) + ";"@,
        decreases fuel, 0nat,
    {
        let mut s = expr_to_code(ast, self.left, Ghost((fuel - 1) as nat));
        s.append(" ");
        s.append(self.get_operator_str().as_str());
        s.append(" ");
        s.append(expr_to_code(ast, self.right, Ghost((fuel - 1) as nat)).as_str());
        s.append(";");
        s
    }
}

impl UnaryExpression {
    fn to_string_within(&self, level: usize, ast: &AST, Ghost(fuel): Ghost<nat>) -> (r: String)
        requires
            ast@.wf(),
            fuel > 0,
            expr_bounded(ast@, self.operand, (fuel - 1) as nat),
            level + fuel <= usize::MAX,
        ensures
            expr_symbol_free_within(ast@, self.operand, (fuel - 1) as nat) ==> r@ == line(
                level as nat,
                unary_node_text(*self),
            ) + expr_text_within(ast@, self.operand, (level + 1) as nat, (fuel - 1) as nat),
            exists|to: VarTypes|
                types_fit_within(ast@, self.operand, (fuel - 1) as nat, to) && r@ == line(level as nat, unary_node_text(*self))
                    + #[trigger] expr_typed_within(ast@, self.operand, (level + 1) as nat, (fuel - 1) as nat, to),
        decreases fuel, 0nat,
    {
        let mut s = line_of(level, self.node_to_string().as_str());
        let a = expr_to_string(ast, self.operand, level + 1, Ghost((fuel - 1) as nat));
        let ghost head = s@;
        s.append(a.as_str());
        proof {
            let f1 = (fuel - 1) as nat;
            let to = choose|t: VarTypes| types_fit_within(ast@, self.operand, f1, t) && a@ == expr_typed_within(ast@, self.operand, (level + 1) as nat, f1, t);
            assert(s@ == head + a@);
            assert(types_fit_within(ast@, self.operand, f1, to) && s@ == line(level as nat, unary_node_text(*self)) + expr_typed_within(ast@, self.operand, (level + 1) as nat, f1, to));
        }
        s
    }

    fn to_code_within(&self, ast: &AST, Ghost(fuel): Ghost<nat>) -> (r: String)
        requires
            ast@.wf(),
            fuel > 0,
            expr_bounded(ast@, self.operand, (fuel - 1) as nat),
        ensures
            r@ == unary_operator_text(self.operator) + expr_code_within(ast@, self.operand, (fuel - 1) as nat) + ";"@,
        decreases fuel, 0nat,
    {
        let mut s = self.get_operator_str();
        s.append(expr_to_code(ast, self.operand, Ghost((fuel - 1) as nat)).as_str());
        s.append(";");
        s
    }
}

/// A fuel that walks the whole expression below `key` from `level`.
pub proof fn lemma_printable_fuel(v: AstView, key: ExpressionKey, level: int) -> (f: nat)
    requires
        expr_printable(v, key, level),
    ensures
        expr_bounded(v, key, f),
        level + f <= usize::MAX,
{
    choose|fuel: nat| expr_bounded(v, key, fuel) && level + fuel <= usize::MAX
}

/// The outline of the expression below `key`, its root line at `level`.
pub fn expression_to_string(ast: &AST, key: ExpressionKey, level: usize) -> (r: String)
    requires
        ast@.wf(),
        expr_printable(ast@, key, level as int),
    ensures
        expr_symbol_free(ast@, key) ==> r@ == expr_text(ast@, key, level as nat),
        expr_outline(ast@, key, level as nat, r@),
{
    let ghost f = lemma_printable_fuel(ast@, key, level as int);
    proof {
        lemma_expr_any_fuel(ast@, key, f, level as nat);
    }
    let r = expr_to_string(ast, key, level, Ghost(f));
    proof {
        let t = choose|t: VarTypes| types_fit_within(ast@, key, f, t) && r@ == expr_typed_within(ast@, key, level as nat, f, t);
        lemma_typed_any_fuel(ast@, key, f, level as nat, t);
        assert(types_fit(ast@, key, t) && r@ == expr_typed(ast@, key, level as nat, t));
    }
    r
}

/// The code of the expression below `key`.
pub fn expression_to_code(ast: &AST, key: ExpressionKey) -> (r: String)
    requires
        ast@.wf(),
        exists|f: nat| expr_bounded(ast@, key, f),
    ensures
        r@ == expr_code(ast@, key),
{
    let ghost f = choose|f: nat| expr_bounded(ast@, key, f);
    proof {
        lemma_expr_any_fuel(ast@, key, f, 0);
    }
    expr_to_code(ast, key, Ghost(f))
}

impl BinaryExpression {
    pub fn to_string_with_level(&self, level: usize, ast: &AST) -> (r: String)
        requires
            ast@.wf(),
            expr_printable(ast@, self.left, level + 1),
            expr_printable(ast@, self.right, level + 1),
        ensures
            expr_symbol_free(ast@, self.left) && expr_symbol_free(ast@, self.right) ==> r@ == line(
                level as nat,
                binary_node_text(*self),
            ) + expr_text(ast@, self.left, (level + 1) as nat) + expr_text(ast@, self.right, (level + 1) as nat),
            binary_outline(ast@, *self, level as nat, r@),
    {
        let mut s = line_of(level, self.node_to_string().as_str());
        let a = expression_to_string(ast, self.left, level + 1);
        let b = expression_to_string(ast, self.right, level + 1);
        let ghost head = s@;
        s.append(a.as_str());
        s.append(b.as_str());
        proof {
            assert(s@ == head + a@ + b@);
            assert(expr_outline(ast@, self.left, (level + 1) as nat, a@) && expr_outline(ast@, self.right, (level + 1) as nat, b@));
        }
        s
    }

    pub fn to_string(&self, ast: &AST) -> (r: String)
        requires
            ast@.wf(),
            expr_printable(ast@, self.left, 1),
            expr_printable(ast@, self.right, 1),
        ensures
            expr_symbol_free(ast@, self.left) && expr_symbol_free(ast@, self.right) ==> r@ == line(
                0,
                binary_node_text(*self),
            ) + expr_text(ast@, self.left, 1) + expr_text(ast@, self.right, 1),
            binary_outline(ast@, *self, 0, r@),
    {
        self.to_string_with_level(0, ast)
    }

    pub fn to_code(&self, ast: &AST) -> (r: String)
        requires
            ast@.wf(),
            exists|f: nat| expr_bounded(ast@, self.left, f),
            exists|f: nat| expr_bounded(ast@, self.right, f),
        ensures
            r@ == expr_code(ast@, self.left) + " "@ + binary_operator_text(self.operator) + " "@ + expr_code(
                ast@,
                self.right,
            ) + ";"@,
    {
        let mut s = expression_to_code(ast, self.left);
        s.append(" ");
        s.append(self.get_operator_str().as_str());
        s.append(" ");
        s.append(expression_to_code(ast, self.right).as_str());
        s.append(";");
        s
    }
}

impl UnaryExpression {
    pub fn to_string_with_level(&self, level: usize, ast: &AST) -> (r: String)
        requires
            ast@.wf(),
            expr_printable(ast@, self.operand, level + 1),
        ensures
            expr_symbol_free(ast@, self.operand) ==> r@ == line(level as nat, unary_node_text(*self)) + expr_text(
                ast@,
                self.operand,
                (level + 1) as nat,
            ),
            unary_outline(ast@, *self, level as nat, r@),
    {
        let mut s = line_of(level, self.node_to_string().as_str());
        let a = expression_to_string(ast, self.operand, level + 1);
        let ghost head = s@;
        s.append(a.as_str());
        proof {
            assert(s@ == head + a@);
            assert(expr_outline(ast@, self.operand, (level + 1) as nat, a@));
        }
        s
    }

    pub fn to_string(&self, ast: &AST) -> (r: String)
        requires
            ast@.wf(),
            expr_printable(ast@, self.operand, 1),
        ensures
            expr_symbol_free(ast@, self.operand) ==> r@ == line(0, unary_node_text(*self)) + expr_text(
                ast@,
                self.operand,
                1,
            ),
            unary_outline(ast@, *self, 0, r@),
    {
        self.to_string_with_level(0, ast)
    }

    pub fn to_code(&self, ast: &AST) -> (r: String)
        requires
            ast@.wf(),
            exists|f: nat| expr_bounded(ast@, self.operand, f),
        ensures
            r@ == unary_operator_text(self.operator) + expr_code(ast@, self.operand) + ";"@,
    {
        let mut s = self.get_operator_str();
        s.append(expression_to_code(ast, self.operand).as_str());
        s.append(";");
        s
    }
}

} // verus!
