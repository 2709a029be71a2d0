use vstd::prelude::*;
use crate::token::Operator;
use crate::statement::CallStatement;

verus! {

/// An expression tree; each node owns its children.
///
/// A number literal keeps its source text.
#[derive(Debug, PartialEq)]
pub enum Expression {
    Binary(ExprBinary),
    Unary(ExprUnary),
    Boolean(bool),
    Number(String),
    Stringy(String),
    Variable(String),
    Grouping(Box<Expression>),
    Call(CallStatement),
    Member(MemberExpression),
    Constructor(ConstructorExpression),
}

/// An access `value1:value2`.
#[derive(Debug, PartialEq)]
pub struct MemberExpression {
    pub value1: String,
    pub value2: String,
}

#[derive(Debug, PartialEq)]
pub struct ExprBinary {
    pub left: Box<Expression>,
    pub op: Operator,
    pub right: Box<Expression>,
}

#[derive(Debug, PartialEq)]
pub struct ExprUnary {
    pub op: Operator,
    pub right: Box<Expression>,
}

/// A `vec4(...)` construction.
#[derive(Debug, PartialEq)]
pub struct ConstructorExpression {
    pub parameters: Vec<Expression>,
}

/// The mathematical model of an expression.
pub enum ExprModel {
    Binary(Box<ExprModel>, Operator, Box<ExprModel>),
    Unary(Operator, Box<ExprModel>),
    Boolean(bool),
    Number(Seq<char>),
    Stringy(Seq<char>),
    Variable(Seq<char>),
    Grouping(Box<ExprModel>),
    Call(Box<ExprModel>, Seq<ExprModel>),
    Member(Seq<char>, Seq<char>),
    Constructor(Seq<ExprModel>),
}

pub open spec fn expr_model(e: Expression) -> ExprModel
    decreases e,
{
    match e {
        Expression::Binary(b) => ExprModel::Binary(
            Box::new(expr_model(*b.left)),
            b.op,
            Box::new(expr_model(*b.right)),
        ),
        Expression::Unary(u) => ExprModel::Unary(u.op, Box::new(expr_model(*u.right))),
        Expression::Boolean(v) => ExprModel::Boolean(v),
        Expression::Number(t) => ExprModel::Number(t@),
        Expression::Stringy(t) => ExprModel::Stringy(t@),
        Expression::Variable(t) => ExprModel::Variable(t@),
        Expression::Grouping(g) => ExprModel::Grouping(Box::new(expr_model(*g))),
        Expression::Call(c) => ExprModel::Call(
            Box::new(expr_model(*c.func)),
            exprs_model(c.parameters@),
        ),
        Expression::Member(m) => ExprModel::Member(m.value1@, m.value2@),
        Expression::Constructor(k) => ExprModel::Constructor(exprs_model(k.parameters@)),
    }
}

/// The models of a sequence of expressions, element by element.
pub open spec fn exprs_model(s: Seq<Expression>) -> Seq<ExprModel>
    decreases s,
{
    if s.len() == 0 {
        Seq::empty()
    } else {
        exprs_model(s.subrange(0, s.len() - 1)).push(expr_model(s[s.len() - 1]))
    }
}

impl View for Expression {
    type V = ExprModel;

    open spec fn view(&self) -> ExprModel {
        expr_model(*self)
    }
}

} // verus!
