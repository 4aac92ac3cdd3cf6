//! The Python syntax tree that plan code is read into.
//!
//! `rustpython_parser` does the parsing; the tree it returns is converted node by node into
//! the plain values below, which is all the plan parser reads. Operators are carried by
//! their `Debug` names (`Add`, `USub`, `NotIn`, ...), and nodes the plan language has no use
//! for are carried by their `Debug` text, whose leading identifier names the node kind.

use vstd::prelude::*;

use rustpython_parser::ast;

verus! {

/// A constant as it appears in the source.
#[derive(Debug)]
pub enum PyConstant {
    NoneLiteral,
    Bool(bool),
    Str(String),
    Bytes(Vec<u8>),
    /// An integer of any size, in decimal.
    Int(String),
    /// A float: its `Debug` text and its `Display` text.
    Float { debug: String, display: String },
    /// A complex number, an ellipsis or a constant tuple, as its `Debug` text.
    Other(String),
}

/// An expression node.
#[derive(Debug)]
pub enum PyExpr {
    /// A constant and the `Debug` text of the constant.
    Constant { value: PyConstant, debug: String },
    Name { id: String },
    Attribute { value: Box<PyExpr>, attr: String },
    Subscript { value: Box<PyExpr>, slice: Box<PyExpr> },
    FormattedValue { value: Box<PyExpr> },
    JoinedStr { values: Vec<PyExpr> },
    BinOp { left: Box<PyExpr>, op: String, right: Box<PyExpr> },
    UnaryOp { op: String, operand: Box<PyExpr> },
    Compare { left: Box<PyExpr>, ops: Vec<String>, comparators: Vec<PyExpr> },
    BoolOp { op: String, values: Vec<PyExpr> },
    /// A call; `keywords` holds the values of the keyword arguments, in order.
    Call { func: Box<PyExpr>, args: Vec<PyExpr>, keywords: Vec<PyExpr> },
    List { elts: Vec<PyExpr> },
    Tuple { elts: Vec<PyExpr> },
    /// A dict display; a `None` key is a `**mapping` entry.
    Dict { keys: Vec<Option<PyExpr>>, values: Vec<PyExpr> },
    /// Any other expression, as its `Debug` text.
    Other { debug: String },
}

/// A statement node.
#[derive(Debug)]
pub enum PyStmt {
    FunctionDef { name: String, body: Vec<PyStmt> },
    Assign { targets: Vec<PyExpr>, value: PyExpr },
    AnnAssign { target: PyExpr, value: Option<PyExpr> },
    Expr { value: PyExpr },
    If { test: PyExpr, body: Vec<PyStmt>, orelse: Vec<PyStmt> },
    For { target: PyExpr, iter: PyExpr, body: Vec<PyStmt> },
    While { test: PyExpr, body: Vec<PyStmt> },
    Return,
    Import,
    ImportFrom,
    Pass,
    /// Any other statement, as its `Debug` text.
    Other { debug: String },
}

/// What parsing a source text gives: the module's statements, `None` when the parser
/// returned something other than a module, or the parser's error message.
pub type ParsedModule = Result<Option<Vec<PyStmt>>, String>;

/// `ParsedModule` with the statements as a sequence and the message as characters.
pub open spec fn parsed_view(p: ParsedModule) -> Result<Option<Seq<PyStmt>>, Seq<char>> {
    match p {
        Ok(Some(body)) => Ok(Some(body@)),
        Ok(None) => Ok(None),
        Err(m) => Err(m@),
    }
}

/// The syntax tree `rustpython_parser::parse` gives for a source text in module mode,
/// converted as this module describes.
pub uninterp spec fn python_syntax(code: Seq<char>) -> Result<Option<Seq<PyStmt>>, Seq<char>>;

#[verifier::external_type_specification]
#[verifier::external_body]
pub struct ExTextRange(rustpython_parser::text_size::TextRange);

#[verifier::external_type_specification]
#[verifier::external_body]
#[verifier::reject_recursive_types(R)]
pub struct ExStmt<R>(ast::Stmt<R>);

#[verifier::external_type_specification]
#[verifier::external_body]
#[verifier::reject_recursive_types(R)]
pub struct ExExpr<R>(ast::Expr<R>);

#[verifier::external_type_specification]
#[verifier::external_body]
pub struct ExConstant(ast::Constant);

/// Parses `code` as a Python module with `rustpython_parser::parse` and converts the tree.
///
/// Trusted: the result is named by `python_syntax`, a function of the source text alone.
#[verifier::external_body]
pub(crate) fn parse_module(code: &str) -> (r: ParsedModule)
    ensures
        parsed_view(r) == python_syntax(code@),
{
    match rustpython_parser::parse(code, rustpython_parser::Mode::Module, "<plan>") {
        Ok(ast::Mod::Module(module)) => Ok(Some(stmts_syntax(&module.body))),
        Ok(_) => Ok(None),
        Err(error) => Err(error.to_string()),
    }
}

/// Converts statements one for one.
#[verifier::external_body]
fn stmts_syntax(body: &[ast::Stmt]) -> Vec<PyStmt> {
    body.iter().map(stmt_syntax).collect()
}

/// Converts expressions one for one.
#[verifier::external_body]
fn exprs_syntax(exprs: &[ast::Expr]) -> Vec<PyExpr> {
    exprs.iter().map(expr_syntax).collect()
}

/// Converts a definition or a simple statement; hands the others on.
#[verifier::external_body]
fn stmt_syntax(stmt: &ast::Stmt) -> PyStmt {
    match stmt {
        ast::Stmt::FunctionDef(f) => PyStmt::FunctionDef { name: f.name.to_string(), body: stmts_syntax(&f.body) },
        ast::Stmt::Return(_) => PyStmt::Return,
        ast::Stmt::Import(_) => PyStmt::Import,
        ast::Stmt::ImportFrom(_) => PyStmt::ImportFrom,
        ast::Stmt::Pass(_) => PyStmt::Pass,
        other => assignment_syntax(other),
    }
}

/// Converts an assignment or an expression statement; hands the others on.
#[verifier::external_body]
fn assignment_syntax(stmt: &ast::Stmt) -> PyStmt {
    match stmt {
        ast::Stmt::Assign(a) => PyStmt::Assign { targets: exprs_syntax(&a.targets), value: expr_syntax(&a.value) },
        ast::Stmt::AnnAssign(a) => PyStmt::AnnAssign {
            target: expr_syntax(&a.target),
            value: a.value.as_deref().map(expr_syntax),
        },
        ast::Stmt::Expr(e) => PyStmt::Expr { value: expr_syntax(&e.value) },
        other => compound_syntax(other),
    }
}

/// Converts an `if`, `for` or `while` statement; any other statement becomes `Other`.
#[verifier::external_body]
fn compound_syntax(stmt: &ast::Stmt) -> PyStmt {
    match stmt {
        ast::Stmt::If(i) => PyStmt::If {
            test: expr_syntax(&i.test),
            body: stmts_syntax(&i.body),
            orelse: stmts_syntax(&i.orelse),
        },
        ast::Stmt::For(f) => PyStmt::For { target: expr_syntax(&f.target), iter: expr_syntax(&f.iter), body: stmts_syntax(&f.body) },
        ast::Stmt::While(w) => PyStmt::While { test: expr_syntax(&w.test), body: stmts_syntax(&w.body) },
        other => PyStmt::Other { debug: format!("{other:?}") },
    }
}

/// Converts a constant, a name or an access; hands the others on.
#[verifier::external_body]
fn expr_syntax(expr: &ast::Expr) -> PyExpr {
    match expr {
        ast::Expr::Constant(c) => PyExpr::Constant { value: constant_syntax(&c.value), debug: format!("{:?}", c.value) },
        ast::Expr::Name(n) => PyExpr::Name { id: n.id.to_string() },
        ast::Expr::Attribute(a) => PyExpr::Attribute { value: Box::new(expr_syntax(&a.value)), attr: a.attr.to_string() },
        ast::Expr::Subscript(s) => PyExpr::Subscript { value: Box::new(expr_syntax(&s.value)), slice: Box::new(expr_syntax(&s.slice)) },
        other => operation_syntax(other),
    }
}

/// Converts an operator expression; hands the others on.
#[verifier::external_body]
fn operation_syntax(expr: &ast::Expr) -> PyExpr {
    match expr {
        ast::Expr::BinOp(b) => PyExpr::BinOp {
            left: Box::new(expr_syntax(&b.left)),
            op: format!("{:?}", b.op),
            right: Box::new(expr_syntax(&b.right)),
        },
        ast::Expr::UnaryOp(u) => PyExpr::UnaryOp { op: format!("{:?}", u.op), operand: Box::new(expr_syntax(&u.operand)) },
        ast::Expr::BoolOp(b) => PyExpr::BoolOp { op: format!("{:?}", b.op), values: exprs_syntax(&b.values) },
        other => comparison_syntax(other),
    }
}

/// Converts a comparison or a call; hands the others on.
#[verifier::external_body]
fn comparison_syntax(expr: &ast::Expr) -> PyExpr {
    match expr {
        ast::Expr::Compare(c) => PyExpr::Compare {
            left: Box::new(expr_syntax(&c.left)),
            ops: c.ops.iter().map(|op| format!("{op:?}")).collect(),
            comparators: exprs_syntax(&c.comparators),
        },
        ast::Expr::Call(c) => PyExpr::Call {
            func: Box::new(expr_syntax(&c.func)),
            args: exprs_syntax(&c.args),
            keywords: c.keywords.iter().map(|k| expr_syntax(&k.value)).collect(),
        },
        other => display_syntax(other),
    }
}

/// Converts a string, list, tuple or dict display; any other expression becomes `Other`.
#[verifier::external_body]
fn display_syntax(expr: &ast::Expr) -> PyExpr {
    match expr {
        ast::Expr::FormattedValue(f) => PyExpr::FormattedValue { value: Box::new(expr_syntax(&f.value)) },
        ast::Expr::JoinedStr(j) => PyExpr::JoinedStr { values: exprs_syntax(&j.values) },
        ast::Expr::List(l) => PyExpr::List { elts: exprs_syntax(&l.elts) },
        ast::Expr::Tuple(t) => PyExpr::Tuple { elts: exprs_syntax(&t.elts) },
        ast::Expr::Dict(d) => PyExpr::Dict { keys: d.keys.iter().map(|k| k.as_ref().map(expr_syntax)).collect(), values: exprs_syntax(&d.values) },
        other => PyExpr::Other { debug: format!("{other:?}") },
    }
}

/// Converts a constant.
#[verifier::external_body]
fn constant_syntax(constant: &ast::Constant) -> PyConstant {
    match constant {
        ast::Constant::None => PyConstant::NoneLiteral,
        ast::Constant::Bool(b) => PyConstant::Bool(*b),
        ast::Constant::Str(s) => PyConstant::Str(s.clone()),
        ast::Constant::Bytes(b) => PyConstant::Bytes(b.clone()),
        ast::Constant::Int(i) => PyConstant::Int(i.to_string()),
        ast::Constant::Float(x) => PyConstant::Float { debug: format!("{x:?}"), display: x.to_string() },
        other => PyConstant::Other(format!("{other:?}")),
    }
}

} // verus!
