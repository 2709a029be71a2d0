use vstd::prelude::*;
use crate::expression::{Expression, ExprModel, exprs_model};

verus! {

/// A statement tree; each node owns its children.
#[derive(Debug, PartialEq)]
pub enum Statement {
    Expression(Expression),
    If(IfStatement),
    Block(BlockStatement),
    Declaration(DeclarationStatement),
    PreprocessorDirective(PreprocessorStatement),
    Function(FunctionStatement),
    Struct(StructStatement),
}

#[derive(Debug, PartialEq)]
pub struct DeclarationStatement {
    pub name: String,
    pub init: Option<Expression>,
}

#[derive(Debug, PartialEq)]
pub struct BlockStatement {
    pub statements: Vec<Statement>,
}

#[derive(Debug, PartialEq)]
pub struct FunctionStatement {
    pub parameters: Vec<String>,
    pub block: BlockStatement,
}

#[derive(Debug, PartialEq)]
pub struct IfStatement {
    pub test: Expression,
    pub block: Box<Statement>,
}

/// A call: the callee and its arguments.
#[derive(Debug, PartialEq)]
pub struct CallStatement {
    pub func: Box<Expression>,
    pub parameters: Vec<Expression>,
}

#[derive(Debug, PartialEq)]
pub struct PreprocessorStatement {
    pub name: String,
    pub parameters: Vec<Expression>,
}

/// One member of a struct: its name and the name of its type.
#[derive(Debug, PartialEq)]
pub struct Member {
    pub name: String,
    pub member_type: String,
}

#[derive(Debug, PartialEq)]
pub struct StructStatement {
    pub attribute: String,
    pub name: String,
    pub members: Vec<Member>,
}

/// The mathematical model of a statement.
#[allow(inconsistent_fields)]
pub enum StmtModel {
    Expression(ExprModel),
    If { test: ExprModel, body: Box<StmtModel> },
    Block(Seq<StmtModel>),
    Declaration { name: Seq<char>, init: Option<ExprModel> },
    Preprocessor { name: Seq<char>, parameters: Seq<ExprModel> },
    Function { parameters: Seq<Seq<char>>, body: Seq<StmtModel> },
    Struct { attribute: Seq<char>, name: Seq<char>, members: Seq<(Seq<char>, Seq<char>)> },
}

pub open spec fn stmt_model(s: Statement) -> StmtModel
    decreases s,
{
    match s {
        Statement::Expression(e) => StmtModel::Expression(e@),
        Statement::If(i) => StmtModel::If { test: i.test@, body: Box::new(stmt_model(*i.block)) },
        Statement::Block(b) => StmtModel::Block(stmts_model(b.statements@)),
        Statement::Declaration(d) => StmtModel::Declaration {
            name: d.name@,
            init: match d.init {
                Some(e) => Some(e@),
                None => None,
            },
        },
        Statement::PreprocessorDirective(p) => StmtModel::Preprocessor {
            name: p.name@,
            parameters: exprs_model(p.parameters@),
        },
        Statement::Function(f) => StmtModel::Function {
            parameters: f.parameters@.map_values(|t: String| t@),
            body: stmts_model(f.block.statements@),
        },
        Statement::Struct(st) => StmtModel::Struct {
            attribute: st.attribute@,
            name: st.name@,
            members: st.members@.map_values(|m: Member| (m.name@, m.member_type@)),
        },
    }
}

/// The models of a sequence of statements, element by element.
pub open spec fn stmts_model(s: Seq<Statement>) -> Seq<StmtModel>
    decreases s,
{
    if s.len() == 0 {
        Seq::empty()
    } else {
        stmts_model(s.subrange(0, s.len() - 1)).push(stmt_model(s[s.len() - 1]))
    }
}

impl View for Statement {
    type V = StmtModel;

    open spec fn view(&self) -> StmtModel {
        stmt_model(*self)
    }
}

} // verus!
