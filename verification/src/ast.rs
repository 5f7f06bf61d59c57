//! The abstract syntax tree a successful parse produces, and its
//! mathematical image. Children are exclusively owned: the tree has no
//! sharing and no cycles.

use vstd::prelude::*;
use crate::num::Num;

verus! {

#[derive(Clone, Copy, PartialEq, Eq, Structural, Debug)]
pub enum BinaryOp {
    Add,
    Subtract,
    Multiply,
    Divide,
    Equal,
    NotEqual,
    Less,
    Greater,
    LessEqual,
    GreaterEqual,
}

#[derive(Clone, Copy, PartialEq, Eq, Structural, Debug)]
pub enum UnaryOp {
    Minus,
}

#[allow(inconsistent_fields)]
#[derive(Debug)]
pub enum Expr {
    Number(Num),
    Str(String),
    Identifier(String),
    Binary { left: Box<Expr>, operator: BinaryOp, right: Box<Expr> },
    Unary { operator: UnaryOp, operand: Box<Expr> },
}

#[derive(Debug)]
pub enum Stmt {
    Expression(Expr),
    Let { name: String, value: Expr },
    Assignment { name: String, value: Expr },
    If { condition: Expr, then_stmt: Box<Stmt>, else_stmt: Option<Box<Stmt>> },
    While { condition: Expr, body: Box<Stmt> },
    Block(Vec<Stmt>),
    Print(Expr),
}

/// The image of an expression: mantissas as integers, text as character
/// sequences.
#[allow(inconsistent_fields)]
pub enum ExprV {
    Number(int),
    Str(Seq<char>),
    Identifier(Seq<char>),
    Binary { left: Box<ExprV>, operator: BinaryOp, right: Box<ExprV> },
    Unary { operator: UnaryOp, operand: Box<ExprV> },
}

pub enum StmtV {
    Expression(ExprV),
    Let { name: Seq<char>, value: ExprV },
    Assignment { name: Seq<char>, value: ExprV },
    If { condition: ExprV, then_stmt: Box<StmtV>, else_stmt: Option<Box<StmtV>> },
    While { condition: ExprV, body: Box<StmtV> },
    Block(Seq<StmtV>),
    Print(ExprV),
}

pub open spec fn expr_view(e: Expr) -> ExprV
    decreases e,
{
    match e {
        Expr::Number(n) => ExprV::Number(n.mantissa as int),
        Expr::Str(s) => ExprV::Str(s@),
        Expr::Identifier(s) => ExprV::Identifier(s@),
        Expr::Binary { left, operator, right } => ExprV::Binary {
            left: Box::new(expr_view(*left)),
            operator,
            right: Box::new(expr_view(*right)),
        },
        Expr::Unary { operator, operand } => ExprV::Unary {
            operator,
            operand: Box::new(expr_view(*operand)),
        },
    }
}

pub open spec fn stmts_view(ss: Seq<Stmt>) -> Seq<StmtV>
    decreases ss,
{
    if ss.len() == 0 {
        Seq::empty()
    } else {
        seq![stmt_view(ss[0])] + stmts_view(ss.drop_first())
    }
}

pub open spec fn stmt_view(s: Stmt) -> StmtV
    decreases s,
{
    match s {
        Stmt::Expression(e) => StmtV::Expression(expr_view(e)),
        Stmt::Let { name, value } => StmtV::Let { name: name@, value: expr_view(value) },
        Stmt::Assignment { name, value } => StmtV::Assignment {
            name: name@,
            value: expr_view(value),
        },
        Stmt::If { condition, then_stmt, else_stmt } => StmtV::If {
            condition: expr_view(condition),
            then_stmt: Box::new(stmt_view(*then_stmt)),
            else_stmt: match else_stmt {
                Some(b) => Some(Box::new(stmt_view(*b))),
                None => None,
            },
        },
        Stmt::While { condition, body } => StmtV::While {
            condition: expr_view(condition),
            body: Box::new(stmt_view(*body)),
        },
        Stmt::Block(stmts) => StmtV::Block(stmts_view(stmts@)),
        Stmt::Print(e) => StmtV::Print(expr_view(e)),
    }
}

/// `stmts_view` agrees element-wise with the deep view of a statement
/// vector.
pub proof fn lemma_stmts_view(ss: Seq<Stmt>)
    ensures
        stmts_view(ss).len() == ss.len(),
        forall|i: int| 0 <= i < ss.len() ==> stmts_view(ss)[i] == stmt_view(ss[i]),
    decreases ss.len(),
{
    if ss.len() > 0 {
        lemma_stmts_view(ss.drop_first());
    }
}

impl View for Expr {
    type V = ExprV;

    open spec fn view(&self) -> ExprV {
        expr_view(*self)
    }
}

impl DeepView for Expr {
    type V = ExprV;

    open spec fn deep_view(&self) -> ExprV {
        expr_view(*self)
    }
}

impl View for Stmt {
    type V = StmtV;

    open spec fn view(&self) -> StmtV {
        stmt_view(*self)
    }
}

impl DeepView for Stmt {
    type V = StmtV;

    open spec fn deep_view(&self) -> StmtV {
        stmt_view(*self)
    }
}

} // verus!
