//! Mathematical models of expressions and steps: the same trees with sequences in place of
//! vectors, strings as characters, and literals as the JSON values they denote.

use vstd::prelude::*;

use crate::json::Json;
use crate::plan::expression::{
    literal_json, Accessor, BinaryOperator, BooleanOperator, ComparisonOperator, Expression, UnaryOperator,
};
use crate::plan::step::{BranchKind, ConditionalBranch, Step};

verus! {

broadcast use vstd::std_specs::vec::group_vec_axioms;

/// Model of an accessor.
pub enum AccessorV {
    Attribute(Seq<char>),
    Key(Seq<char>),
    Index(i64),
}

/// Model of an expression.
pub enum ExprV {
    AccessPath(Seq<char>, Seq<AccessorV>),
    Literal(Json),
    Binary(BinaryOperator, Box<ExprV>, Box<ExprV>),
    Unary(UnaryOperator, Box<ExprV>),
    Concat(Seq<ExprV>),
    Comparison(ComparisonOperator, Box<ExprV>, Box<ExprV>),
    Boolean(BooleanOperator, Seq<ExprV>),
    Not(Box<ExprV>),
    Dict(Seq<(Seq<char>, ExprV)>),
    Array(Seq<ExprV>),
}

/// Model of a switch branch.
pub struct BranchV {
    pub kind: BranchKind,
    pub condition: Option<ExprV>,
    pub steps: Seq<StepV>,
}

/// Model of a step.
pub enum StepV {
    Assign(Seq<char>, ExprV),
    Tool(Seq<char>, Seq<ExprV>, Option<Seq<char>>),
    Switch(Seq<BranchV>),
    Loop(Seq<char>, Seq<char>, Seq<StepV>),
    While(ExprV, Seq<StepV>),
    UserInteraction(Seq<char>, Option<Seq<char>>),
    Break,
}

pub open spec fn accessor_view(a: Accessor) -> AccessorV {
    match a {
        Accessor::Attribute(k) => AccessorV::Attribute(k@),
        Accessor::Key(k) => AccessorV::Key(k@),
        Accessor::Index(i) => AccessorV::Index(i),
    }
}

pub open spec fn accessors_view(accs: Seq<Accessor>) -> Seq<AccessorV> {
    accs.map_values(|a: Accessor| accessor_view(a))
}

pub open spec fn opt_text(o: Option<String>) -> Option<Seq<char>> {
    match o {
        Some(s) => Some(s@),
        None => None,
    }
}

/// The model of an expression.
pub open spec fn expr_view(e: Expression) -> ExprV
    decreases e,
{
    match e {
        Expression::AccessPath { variable_name, accessors } => ExprV::AccessPath(
            variable_name@,
            accessors_view(accessors@),
        ),
        Expression::Literal { value } => ExprV::Literal(literal_json(value)),
        Expression::BinaryExpression { operator, left, right } => ExprV::Binary(
            operator,
            Box::new(expr_view(*left)),
            Box::new(expr_view(*right)),
        ),
        Expression::UnaryExpression { operator, operand } => ExprV::Unary(operator, Box::new(expr_view(*operand))),
        Expression::ConcatExpression { parts } => ExprV::Concat(exprs_view(parts@)),
        Expression::Comparison { operator, left, right } => ExprV::Comparison(
            operator,
            Box::new(expr_view(*left)),
            Box::new(expr_view(*right)),
        ),
        Expression::Boolean { operator, operands } => ExprV::Boolean(operator, exprs_view(operands@)),
        Expression::Not { operand } => ExprV::Not(Box::new(expr_view(*operand))),
        Expression::DictExpression { entries } => ExprV::Dict(entries_view(entries@)),
        Expression::ArrayExpression { elements } => ExprV::Array(exprs_view(elements@)),
    }
}

/// The models of several expressions, in order.
pub open spec fn exprs_view(es: Seq<Expression>) -> Seq<ExprV>
    decreases es,
{
    Seq::new(es.len(), |i: int| if 0 <= i < es.len() { expr_view(es[i]) } else { ExprV::Array(Seq::empty()) })
}

/// The models of dictionary entries, in order.
pub open spec fn entries_view(es: Seq<(String, Expression)>) -> Seq<(Seq<char>, ExprV)>
    decreases es,
{
    Seq::new(
        es.len(),
        |i: int| if 0 <= i < es.len() { (es[i].0@, expr_view(es[i].1)) } else { (Seq::empty(), ExprV::Array(Seq::empty())) },
    )
}

/// The model of a step.
pub open spec fn step_view(s: Step) -> StepV
    decreases s,
{
    match s {
        Step::AssignStep { target, value } => StepV::Assign(target@, expr_view(value)),
        Step::ToolStep { tool_id, arguments, output_variable } => StepV::Tool(
            tool_id@,
            exprs_view(arguments@),
            opt_text(output_variable),
        ),
        Step::SwitchStep { branches } => StepV::Switch(branches_view(branches@)),
        Step::LoopStep { iterable_variable, item_variable, body } => StepV::Loop(
            iterable_variable@,
            item_variable@,
            steps_view(body@),
        ),
        Step::WhileStep { condition, body } => StepV::While(expr_view(condition), steps_view(body@)),
        Step::UserInteractionStep { prompt, output_variable } => StepV::UserInteraction(
            prompt@,
            opt_text(output_variable),
        ),
        Step::BreakStep => StepV::Break,
    }
}

/// The models of several steps, in order.
pub open spec fn steps_view(ss: Seq<Step>) -> Seq<StepV>
    decreases ss,
{
    Seq::new(ss.len(), |i: int| if 0 <= i < ss.len() { step_view(ss[i]) } else { StepV::Break })
}

/// The model of a branch.
pub open spec fn branch_view(b: ConditionalBranch) -> BranchV
    decreases b,
{
    BranchV {
        kind: b.kind,
        condition: match b.condition {
            Some(c) => Some(expr_view(c)),
            None => None,
        },
        steps: steps_view(b.steps@),
    }
}

/// The models of several branches, in order.
pub open spec fn branches_view(bs: Seq<ConditionalBranch>) -> Seq<BranchV>
    decreases bs,
{
    Seq::new(
        bs.len(),
        |i: int| if 0 <= i < bs.len() { branch_view(bs[i]) } else { BranchV { kind: BranchKind::Else, condition: None, steps: Seq::empty() } },
    )
}

} // verus!
