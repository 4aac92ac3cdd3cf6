//! Human-readable names of syntax nodes, for error messages, and assignment targets.

use vstd::prelude::*;
use vstd::string::*;

use crate::error::ReadyError;
use crate::planning::syntax::{PyExpr, PyStmt};
use crate::text::{starts_with, str_chars, str_starts_with, string_from_chars};

verus! {

/// The name of an expression kind the plan language does not model, from its `Debug` text.
pub open spec fn other_expression_name(d: Seq<char>) -> Seq<char> {
    if starts_with(d, "NamedExpr("@) {
        "walrus operator (:=)"@
    } else if starts_with(d, "Lambda("@) {
        "lambda expression"@
    } else if starts_with(d, "IfExp("@) {
        "inline if expression (ternary)"@
    } else if starts_with(d, "Set("@) {
        "set literal"@
    } else if starts_with(d, "ListComp("@) {
        "list comprehension"@
    } else if starts_with(d, "SetComp("@) {
        "set comprehension"@
    } else if starts_with(d, "DictComp("@) {
        "dict comprehension"@
    } else if starts_with(d, "GeneratorExp("@) {
        "generator expression"@
    } else if starts_with(d, "Await("@) {
        "await expression"@
    } else if starts_with(d, "Yield("@) {
        "yield expression"@
    } else if starts_with(d, "YieldFrom("@) {
        "yield from expression"@
    } else if starts_with(d, "Starred("@) {
        "starred expression (*x)"@
    } else if starts_with(d, "Slice("@) {
        "slice expression"@
    } else {
        "expression"@
    }
}

/// The human-readable name of an expression's kind.
pub open spec fn expression_name_spec(e: PyExpr) -> Seq<char> {
    match e {
        PyExpr::Constant { .. } => "literal constant"@,
        PyExpr::Name { .. } => "variable name"@,
        PyExpr::Attribute { .. } => "attribute access"@,
        PyExpr::Subscript { .. } => "subscript access"@,
        PyExpr::FormattedValue { .. } => "f-string value"@,
        PyExpr::JoinedStr { .. } => "f-string"@,
        PyExpr::BinOp { .. } => "binary operator"@,
        PyExpr::UnaryOp { .. } => "unary operator"@,
        PyExpr::Compare { .. } => "comparison expression"@,
        PyExpr::BoolOp { .. } => "boolean operator (and/or)"@,
        PyExpr::Call { .. } => "function call"@,
        PyExpr::List { .. } => "list literal"@,
        PyExpr::Tuple { .. } => "tuple literal"@,
        PyExpr::Dict { .. } => "dict literal"@,
        PyExpr::Other { debug } => other_expression_name(debug@),
    }
}

fn other_expression_name_of(d: &str) -> (r: &'static str)
    ensures
        r@ == other_expression_name(d@),
{
    if str_starts_with(d, "NamedExpr(") {
        "walrus operator (:=)"
    } else if str_starts_with(d, "Lambda(") {
        "lambda expression"
    } else if str_starts_with(d, "IfExp(") {
        "inline if expression (ternary)"
    } else if str_starts_with(d, "Set(") {
        "set literal"
    } else if str_starts_with(d, "ListComp(") {
        "list comprehension"
    } else if str_starts_with(d, "SetComp(") {
        "set comprehension"
    } else if str_starts_with(d, "DictComp(") {
        "dict comprehension"
    } else if str_starts_with(d, "GeneratorExp(") {
        "generator expression"
    } else if str_starts_with(d, "Await(") {
        "await expression"
    } else if str_starts_with(d, "Yield(") {
        "yield expression"
    } else if str_starts_with(d, "YieldFrom(") {
        "yield from expression"
    } else if str_starts_with(d, "Starred(") {
        "starred expression (*x)"
    } else if str_starts_with(d, "Slice(") {
        "slice expression"
    } else {
        "expression"
    }
}

/// The human-readable name of an expression's kind.
pub fn expression_name(e: &PyExpr) -> (r: &'static str)
    ensures
        r@ == expression_name_spec(*e),
{
    match e {
        PyExpr::Constant { .. } => "literal constant",
        PyExpr::Name { .. } => "variable name",
        PyExpr::Attribute { .. } => "attribute access",
        PyExpr::Subscript { .. } => "subscript access",
        PyExpr::FormattedValue { .. } => "f-string value",
        PyExpr::JoinedStr { .. } => "f-string",
        PyExpr::BinOp { .. } => "binary operator",
        PyExpr::UnaryOp { .. } => "unary operator",
        PyExpr::Compare { .. } => "comparison expression",
        PyExpr::BoolOp { .. } => "boolean operator (and/or)",
        PyExpr::Call { .. } => "function call",
        PyExpr::List { .. } => "list literal",
        PyExpr::Tuple { .. } => "tuple literal",
        PyExpr::Dict { .. } => "dict literal",
        PyExpr::Other { debug } => other_expression_name_of(debug.as_str()),
    }
}

/// The name of a statement kind the plan language does not model, from its `Debug` text.
pub open spec fn other_statement_name(d: Seq<char>) -> Seq<char> {
    if starts_with(d, "AsyncFunctionDef("@) {
        "async def (async function definition)"@
    } else if starts_with(d, "ClassDef("@) {
        "class definition"@
    } else if starts_with(d, "Delete("@) {
        "del statement"@
    } else if starts_with(d, "TypeAlias("@) {
        "type alias"@
    } else if starts_with(d, "AugAssign("@) {
        "augmented assignment (+=, -=, ...)"@
    } else if starts_with(d, "AsyncFor("@) {
        "async for loop"@
    } else if starts_with(d, "With("@) {
        "with statement"@
    } else if starts_with(d, "AsyncWith("@) {
        "async with statement"@
    } else if starts_with(d, "Match("@) {
        "match/case statement"@
    } else if starts_with(d, "Raise("@) {
        "raise statement"@
    } else if starts_with(d, "Try("@) {
        "try/except block"@
    } else if starts_with(d, "TryStar("@) {
        "try/except* block"@
    } else if starts_with(d, "Assert("@) {
        "assert statement"@
    } else if starts_with(d, "Global("@) {
        "global statement"@
    } else if starts_with(d, "Nonlocal("@) {
        "nonlocal statement"@
    } else if starts_with(d, "Break("@) {
        "break statement"@
    } else if starts_with(d, "Continue("@) {
        "continue statement"@
    } else {
        "statement"@
    }
}

/// The human-readable name of a statement's kind.
pub open spec fn statement_name_spec(s: PyStmt) -> Seq<char> {
    match s {
        PyStmt::FunctionDef { .. } => "def (nested function definition)"@,
        PyStmt::Assign { .. } => "assignment"@,
        PyStmt::AnnAssign { .. } => "annotated assignment"@,
        PyStmt::Expr { .. } => "expression statement"@,
        PyStmt::If { .. } => "if statement"@,
        PyStmt::For { .. } => "for loop"@,
        PyStmt::While { .. } => "while loop"@,
        PyStmt::Return => "return statement"@,
        PyStmt::Import => "import statement"@,
        PyStmt::ImportFrom => "from ... import statement"@,
        PyStmt::Pass => "pass statement"@,
        PyStmt::Other { debug } => other_statement_name(debug@),
    }
}

fn other_statement_name_of(d: &str) -> (r: &'static str)
    ensures
        r@ == other_statement_name(d@),
{
    if str_starts_with(d, "AsyncFunctionDef(") {
        "async def (async function definition)"
    } else if str_starts_with(d, "ClassDef(") {
        "class definition"
    } else if str_starts_with(d, "Delete(") {
        "del statement"
    } else if str_starts_with(d, "TypeAlias(") {
        "type alias"
    } else if str_starts_with(d, "AugAssign(") {
        "augmented assignment (+=, -=, ...)"
    } else if str_starts_with(d, "AsyncFor(") {
        "async for loop"
    } else if str_starts_with(d, "With(") {
        "with statement"
    } else if str_starts_with(d, "AsyncWith(") {
        "async with statement"
    } else if str_starts_with(d, "Match(") {
        "match/case statement"
    } else if str_starts_with(d, "Raise(") {
        "raise statement"
    } else if str_starts_with(d, "Try(") {
        "try/except block"
    } else if str_starts_with(d, "TryStar(") {
        "try/except* block"
    } else if str_starts_with(d, "Assert(") {
        "assert statement"
    } else if str_starts_with(d, "Global(") {
        "global statement"
    } else if str_starts_with(d, "Nonlocal(") {
        "nonlocal statement"
    } else if str_starts_with(d, "Break(") {
        "break statement"
    } else if str_starts_with(d, "Continue(") {
        "continue statement"
    } else {
        "statement"
    }
}

/// The human-readable name of a statement's kind.
pub fn statement_name(s: &PyStmt) -> (r: &'static str)
    ensures
        r@ == statement_name_spec(*s),
{
    match s {
        PyStmt::FunctionDef { .. } => "def (nested function definition)",
        PyStmt::Assign { .. } => "assignment",
        PyStmt::AnnAssign { .. } => "annotated assignment",
        PyStmt::Expr { .. } => "expression statement",
        PyStmt::If { .. } => "if statement",
        PyStmt::For { .. } => "for loop",
        PyStmt::While { .. } => "while loop",
        PyStmt::Return => "return statement",
        PyStmt::Import => "import statement",
        PyStmt::ImportFrom => "from ... import statement",
        PyStmt::Pass => "pass statement",
        PyStmt::Other { debug } => other_statement_name_of(debug.as_str()),
    }
}

/// The variable an assignment or a `for` loop binds: only a bare name is accepted.
pub open spec fn name_target_spec(e: PyExpr) -> Result<Seq<char>, Seq<char>> {
    match e {
        PyExpr::Name { id } => Ok(id@),
        other => Err(
            "assignment target must be a simple variable name, not a '"@ + expression_name_spec(other)
                + "' — only `x = ...` is allowed"@,
        ),
    }
}

/// A plan-parsing error with the given message.
pub fn parsing_error(message: String) -> (r: ReadyError)
    ensures
        r == ReadyError::PlanParsing(message),
{
    ReadyError::PlanParsing(message)
}

/// The variable an assignment or a `for` loop binds.
pub fn extract_name_target(e: &PyExpr) -> (r: Result<String, ReadyError>)
    ensures
        match (r, name_target_spec(*e)) {
            (Ok(n), Ok(sn)) => n@ == sn,
            (Err(ReadyError::PlanParsing(m)), Err(sm)) => m@ == sm,
            _ => false,
        },
{
    match e {
        PyExpr::Name { id } => Ok(id.clone()),
        other => {
            let mut m = String::from_str("assignment target must be a simple variable name, not a '");
            m.append(expression_name(other));
            m.append("' — only `x = ...` is allowed");
            Err(parsing_error(m))
        },
    }
}

/// Whether a character can appear in an identifier.
pub open spec fn is_ident_char(c: char) -> bool {
    ('a' <= c && c <= 'z') || ('A' <= c && c <= 'Z') || ('0' <= c && c <= '9') || c == '_'
}

/// The number of leading identifier characters.
pub open spec fn ident_len(s: Seq<char>) -> nat
    decreases s.len(),
{
    if s.len() > 0 && is_ident_char(s[0]) {
        1 + ident_len(s.drop_first())
    } else {
        0
    }
}

/// The node kind a `Debug` text begins with.
pub open spec fn debug_kind(d: Seq<char>) -> Seq<char> {
    d.take(ident_len(d) as int)
}

proof fn lemma_ident_len(s: Seq<char>, i: int)
    requires
        0 <= i <= s.len(),
        forall|k: int| 0 <= k < i ==> is_ident_char(s[k]),
    ensures
        ident_len(s) == i + ident_len(s.skip(i)),
    decreases i,
{
    if i > 0 {
        assert(s.skip(1).skip(i - 1) =~= s.skip(i));
        assert(s.drop_first() =~= s.skip(1));
        lemma_ident_len(s.skip(1), i - 1);
    } else {
        assert(s.skip(0) =~= s);
    }
}

/// The node kind a `Debug` text begins with.
fn debug_kind_of(d: &str) -> (r: String)
    ensures
        r@ == debug_kind(d@),
{
    let cs = str_chars(d);
    let mut i: usize = 0;
    while i < cs.len() && (('a' <= cs[i] && cs[i] <= 'z') || ('A' <= cs[i] && cs[i] <= 'Z') || ('0' <= cs[i] && cs[i] <= '9') || cs[i] == '_')
        invariant
            i <= cs@.len(),
            forall|k: int| 0 <= k < i ==> is_ident_char(cs@[k]),
        decreases cs@.len() - i,
    {
        i += 1;
    }
    proof {
        lemma_ident_len(cs@, i as int);
        if i < cs@.len() {
            assert(cs@.skip(i as int)[0] == cs@[i as int]);
        }
        assert(ident_len(cs@.skip(i as int)) == 0);
    }
    string_from_chars(&cs, 0, i)
}

/// The syntax-tree name of an expression's kind (`BinOp`, `Name`, `Call`, ...).
pub open spec fn expression_kind_spec(e: PyExpr) -> Seq<char> {
    match e {
        PyExpr::Constant { .. } => "Constant"@,
        PyExpr::Name { .. } => "Name"@,
        PyExpr::Attribute { .. } => "Attribute"@,
        PyExpr::Subscript { .. } => "Subscript"@,
        PyExpr::FormattedValue { .. } => "FormattedValue"@,
        PyExpr::JoinedStr { .. } => "JoinedStr"@,
        PyExpr::BinOp { .. } => "BinOp"@,
        PyExpr::UnaryOp { .. } => "UnaryOp"@,
        PyExpr::Compare { .. } => "Compare"@,
        PyExpr::BoolOp { .. } => "BoolOp"@,
        PyExpr::Call { .. } => "Call"@,
        PyExpr::List { .. } => "List"@,
        PyExpr::Tuple { .. } => "Tuple"@,
        PyExpr::Dict { .. } => "Dict"@,
        PyExpr::Other { debug } => debug_kind(debug@),
    }
}

/// The syntax-tree name of an expression's kind.
pub fn expression_kind(e: &PyExpr) -> (r: String)
    ensures
        r@ == expression_kind_spec(*e),
{
    match e {
        PyExpr::Constant { .. } => String::from_str("Constant"),
        PyExpr::Name { .. } => String::from_str("Name"),
        PyExpr::Attribute { .. } => String::from_str("Attribute"),
        PyExpr::Subscript { .. } => String::from_str("Subscript"),
        PyExpr::FormattedValue { .. } => String::from_str("FormattedValue"),
        PyExpr::JoinedStr { .. } => String::from_str("JoinedStr"),
        PyExpr::BinOp { .. } => String::from_str("BinOp"),
        PyExpr::UnaryOp { .. } => String::from_str("UnaryOp"),
        PyExpr::Compare { .. } => String::from_str("Compare"),
        PyExpr::BoolOp { .. } => String::from_str("BoolOp"),
        PyExpr::Call { .. } => String::from_str("Call"),
        PyExpr::List { .. } => String::from_str("List"),
        PyExpr::Tuple { .. } => String::from_str("Tuple"),
        PyExpr::Dict { .. } => String::from_str("Dict"),
        PyExpr::Other { debug } => debug_kind_of(debug.as_str()),
    }
}

} // verus!
