//! Expressions of the plan language and their literal values.

use vstd::prelude::*;

use crate::json::{jint, JNum, Json};

verus! {

broadcast use vstd::std_specs::vec::group_vec_axioms;

/// A typed literal value used inside the plan AST.
///
/// A float is carried as the text the JSON writer prints for it; object entries are kept in
/// ascending key order.
#[derive(Debug, PartialEq)]
pub enum LiteralValue {
    Null,
    Bool(bool),
    Integer(i64),
    Float(String),
    String(String),
    Array(Vec<LiteralValue>),
    Object(Vec<(String, LiteralValue)>),
}

/// The JSON value a literal denotes (`LiteralValue::to_json_value`).
pub open spec fn literal_json(l: LiteralValue) -> Json
    decreases l,
{
    match l {
        LiteralValue::Null => Json::Null,
        LiteralValue::Bool(b) => Json::Bool(b),
        LiteralValue::Integer(i) => jint(i as int),
        LiteralValue::Float(t) => Json::Num(JNum::Float(t@)),
        LiteralValue::String(s) => Json::Str(s@),
        LiteralValue::Array(items) => Json::Arr(
            Seq::new(items@.len(), |i: int| if 0 <= i < items@.len() { literal_json(items[i]) } else { Json::Null }),
        ),
        LiteralValue::Object(entries) => Json::Obj(
            Seq::new(entries@.len(), |i: int| entries@[i].0@),
            Seq::new(entries@.len(), |i: int| if 0 <= i < entries@.len() { literal_json(entries[i].1) } else { Json::Null }),
        ),
    }
}

/// Binary operators for arithmetic expressions.
#[derive(Debug, Clone, PartialEq, Eq)]
pub enum BinaryOperator {
    Add,
    Subtract,
    Multiply,
    Divide,
    FloorDivide,
    Modulo,
    Power,
}

pub open spec fn binary_operator_text(op: BinaryOperator) -> Seq<char> {
    match op {
        BinaryOperator::Add => "+"@,
        BinaryOperator::Subtract => "-"@,
        BinaryOperator::Multiply => "*"@,
        BinaryOperator::Divide => "/"@,
        BinaryOperator::FloorDivide => "//"@,
        BinaryOperator::Modulo => "%"@,
        BinaryOperator::Power => "**"@,
    }
}

impl BinaryOperator {
    /// The operator's surface syntax.
    pub fn as_str(&self) -> (r: &'static str)
        ensures
            r@ == binary_operator_text(*self),
    {
        match self {
            BinaryOperator::Add => "+",
            BinaryOperator::Subtract => "-",
            BinaryOperator::Multiply => "*",
            BinaryOperator::Divide => "/",
            BinaryOperator::FloorDivide => "//",
            BinaryOperator::Modulo => "%",
            BinaryOperator::Power => "**",
        }
    }
}

/// Unary operators for prefix numeric expressions.
#[derive(Debug, Clone, PartialEq, Eq)]
pub enum UnaryOperator {
    Plus,
    Minus,
}

pub open spec fn unary_operator_text(op: UnaryOperator) -> Seq<char> {
    match op {
        UnaryOperator::Plus => "+"@,
        UnaryOperator::Minus => "-"@,
    }
}

impl UnaryOperator {
    /// The operator's surface syntax.
    pub fn as_str(&self) -> (r: &'static str)
        ensures
            r@ == unary_operator_text(*self),
    {
        match self {
            UnaryOperator::Plus => "+",
            UnaryOperator::Minus => "-",
        }
    }
}

/// Comparison operators for conditional expressions.
#[derive(Debug, Clone, PartialEq, Eq)]
pub enum ComparisonOperator {
    Equal,
    NotEqual,
    LessThan,
    GreaterThan,
    LessThanOrEqual,
    GreaterThanOrEqual,
    In,
    NotIn,
    Is,
    IsNot,
}

pub open spec fn comparison_operator_text(op: ComparisonOperator) -> Seq<char> {
    match op {
        ComparisonOperator::Equal => "=="@,
        ComparisonOperator::NotEqual => "!="@,
        ComparisonOperator::LessThan => "<"@,
        ComparisonOperator::GreaterThan => ">"@,
        ComparisonOperator::LessThanOrEqual => "<="@,
        ComparisonOperator::GreaterThanOrEqual => ">="@,
        ComparisonOperator::In => "in"@,
        ComparisonOperator::NotIn => "not in"@,
        ComparisonOperator::Is => "is"@,
        ComparisonOperator::IsNot => "is not"@,
    }
}

impl ComparisonOperator {
    /// The operator's surface syntax.
    pub fn as_str(&self) -> (r: &'static str)
        ensures
            r@ == comparison_operator_text(*self),
    {
        match self {
            ComparisonOperator::Equal => "==",
            ComparisonOperator::NotEqual => "!=",
            ComparisonOperator::LessThan => "<",
            ComparisonOperator::GreaterThan => ">",
            ComparisonOperator::LessThanOrEqual => "<=",
            ComparisonOperator::GreaterThanOrEqual => ">=",
            ComparisonOperator::In => "in",
            ComparisonOperator::NotIn => "not in",
            ComparisonOperator::Is => "is",
            ComparisonOperator::IsNot => "is not",
        }
    }
}

/// Boolean operators combining multiple operands.
#[derive(Debug, Clone, PartialEq, Eq)]
pub enum BooleanOperator {
    And,
    Or,
}

pub open spec fn boolean_operator_text(op: BooleanOperator) -> Seq<char> {
    match op {
        BooleanOperator::And => "and"@,
        BooleanOperator::Or => "or"@,
    }
}

impl BooleanOperator {
    /// The operator's surface syntax.
    pub fn as_str(&self) -> (r: &'static str)
        ensures
            r@ == boolean_operator_text(*self),
    {
        match self {
            BooleanOperator::And => "and",
            BooleanOperator::Or => "or",
        }
    }
}

/// A single segment of an access path applied after a base variable name.
#[derive(Debug, PartialEq)]
pub enum Accessor {
    /// `.name`
    Attribute(String),
    /// `["name"]`
    Key(String),
    /// `[0]`
    Index(i64),
}

/// An expression node of the plan AST.
#[derive(Debug, PartialEq)]
pub enum Expression {
    /// Reads a variable and traverses fields or indices from it.
    AccessPath { variable_name: String, accessors: Vec<Accessor> },
    /// A literal value.
    Literal { value: LiteralValue },
    /// An infix arithmetic operation.
    BinaryExpression { operator: BinaryOperator, left: Box<Expression>, right: Box<Expression> },
    /// A prefix unary operation.
    UnaryExpression { operator: UnaryOperator, operand: Box<Expression> },
    /// Concatenation of the display texts of its parts.
    ConcatExpression { parts: Vec<Expression> },
    /// A comparison of two expressions.
    Comparison { operator: ComparisonOperator, left: Box<Expression>, right: Box<Expression> },
    /// `and` / `or` over several operands.
    Boolean { operator: BooleanOperator, operands: Vec<Expression> },
    /// Logical negation.
    Not { operand: Box<Expression> },
    /// An object built from string keys and expressions.
    DictExpression { entries: Vec<(String, Expression)> },
    /// An array built from expressions.
    ArrayExpression { elements: Vec<Expression> },
}

} // verus!
