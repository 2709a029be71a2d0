use vstd::prelude::*;
use crate::token::{Operator, Token, TokenModel, tokens_model};
use crate::expression::{
    ConstructorExpression, ExprBinary, ExprModel, ExprUnary, Expression, MemberExpression,
    exprs_model,
};
use crate::statement::{
    BlockStatement, CallStatement, DeclarationStatement, FunctionStatement, IfStatement, Member,
    PreprocessorStatement, Statement, StmtModel, StructStatement, stmts_model,
};
use crate::grammar::{
    ParseError, Parsed, block_items, constructor_rest, cur, declaration_rest, fold_level,
    parse_block, call_args, parse_constructor, parse_declaration, parse_expression, parse_level,
    parse_primary, parse_program, parse_statement, struct_decl, parse_unary, program_from,
    skip_members, member_type_of,
};

verus! {

/// A read cursor over a token sequence.
pub struct State {
    pub tokens: Vec<Token>,
    pub index: usize,
}

impl State {
    pub open spec fn wf(&self) -> bool {
        self.index <= self.tokens@.len()
    }

    pub open spec fn ts(&self) -> Seq<TokenModel> {
        tokens_model(self.tokens@)
    }

    /// The token under the cursor; past the end, the end-of-input token.
    pub fn current(&self) -> (r: Token)
        ensures
            r@ == cur(self.ts(), self.index as int),
    {
        if self.index < self.tokens.len() {
            self.tokens[self.index].duplicate()
        } else {
            Token::Eof
        }
    }

    pub fn advance(&mut self)
        requires
            old(self).index < old(self).tokens@.len(),
        ensures
            final(self).tokens == old(self).tokens,
            final(self).index == old(self).index + 1,
    {
        let n = self.tokens.len();
        assert(self.index < n);
        self.index = self.index + 1;
    }
}

/// The model of an expression parse that stopped at `q`.
pub open spec fn expr_out(r: Result<Expression, ParseError>, q: int) -> Parsed<ExprModel> {
    match r {
        Ok(e) => Ok((e@, q)),
        Err(e) => Err(e),
    }
}

/// The model of a statement parse that stopped at `q`.
pub open spec fn stmt_out(r: Result<Statement, ParseError>, q: int) -> Parsed<StmtModel> {
    match r {
        Ok(s) => Ok((s@, q)),
        Err(e) => Err(e),
    }
}

/// The model of a block parse that stopped at `q`.
pub open spec fn block_out(r: Result<BlockStatement, ParseError>, q: int) -> Parsed<Seq<StmtModel>> {
    match r {
        Ok(b) => Ok((stmts_model(b.statements@), q)),
        Err(e) => Err(e),
    }
}

/// A parse from `s0` to `s1` that returned `r` did what `spec` says: the
/// tokens are kept, and a success consumed input and stopped where `spec` stops.
pub open spec fn expr_step(s0: State, s1: State, r: Result<Expression, ParseError>, spec: Parsed<ExprModel>) -> bool {
    &&& s1.wf()
    &&& s1.tokens == s0.tokens
    &&& expr_out(r, s1.index as int) == spec
    &&& (r is Ok ==> s0.index < s1.index)
}

pub open spec fn stmt_step(s0: State, s1: State, r: Result<Statement, ParseError>, spec: Parsed<StmtModel>) -> bool {
    &&& s1.wf()
    &&& s1.tokens == s0.tokens
    &&& stmt_out(r, s1.index as int) == spec
    &&& (r is Ok ==> s0.index < s1.index)
}

proof fn lemma_exprs_push(s: Seq<Expression>, e: Expression)
    ensures
        exprs_model(s.push(e)) == exprs_model(s).push(e@),
{
    assert(s.push(e).subrange(0, s.len() as int) =~= s);
}

proof fn lemma_stmts_push(s: Seq<Statement>, t: Statement)
    ensures
        stmts_model(s.push(t)) == stmts_model(s).push(t@),
{
    assert(s.push(t).subrange(0, s.len() as int) =~= s);
}

proof fn lemma_exprs_one(e: Expression)
    ensures
        exprs_model(seq![e]) == seq![e@],
{
    lemma_exprs_push(Seq::empty(), e);
    assert(Seq::<Expression>::empty().push(e) =~= seq![e]);
    assert(Seq::<ExprModel>::empty().push(e@) =~= seq![e@]);
}

fn expression(state: &mut State) -> (r: Result<Expression, ParseError>)
    requires
        old(state).wf(),
    ensures
        expr_step(*old(state), *final(state), r, parse_expression(old(state).ts(), old(state).index as int)),
    decreases old(state).tokens@.len() - old(state).index, 10int,
{
    assign(state)
}

fn assign(state: &mut State) -> (r: Result<Expression, ParseError>)
    requires
        old(state).wf(),
    ensures
        expr_step(*old(state), *final(state), r, parse_level(old(state).ts(), 0, old(state).index as int)),
    decreases old(state).tokens@.len() - old(state).index, 9int,
{
    let ghost ts = state.ts();
    let ghost p = state.index as int;
    let mut expr = match logical(state) {
        Ok(e) => e,
        Err(e) => return Err(e),
    };
    loop
        invariant
            state.wf(),
            state.tokens == old(state).tokens,
            ts == state.ts(),
            p == old(state).index,
            p < state.index,
            parse_level(ts, 0, p) == fold_level(ts, 0, state.index as int, expr@),
        decreases state.tokens@.len() - state.index,
    {
        match state.current() {
            Token::Operator(op) => {
                if op == Operator::Assign {
                    state.advance();
                    let right = match logical(state) {
                        Ok(e) => e,
                        Err(e) => return Err(e),
                    };
                    expr = Expression::Binary(ExprBinary { left: Box::new(expr), op, right: Box::new(right) });
                } else {
                    return Ok(expr);
                }
            },
            _ => return Ok(expr),
        }
    }
}

fn logical(state: &mut State) -> (r: Result<Expression, ParseError>)
    requires
        old(state).wf(),
    ensures
        expr_step(*old(state), *final(state), r, parse_level(old(state).ts(), 1, old(state).index as int)),
    decreases old(state).tokens@.len() - old(state).index, 8int,
{
    let ghost ts = state.ts();
    let ghost p = state.index as int;
    let mut expr = match equality(state) {
        Ok(e) => e,
        Err(e) => return Err(e),
    };
    loop
        invariant
            state.wf(),
            state.tokens == old(state).tokens,
            ts == state.ts(),
            p == old(state).index,
            p < state.index,
            parse_level(ts, 1, p) == fold_level(ts, 1, state.index as int, expr@),
        decreases state.tokens@.len() - state.index,
    {
        match state.current() {
            Token::Operator(op) => {
                if op == Operator::Or || op == Operator::And {
                    state.advance();
                    let right = match equality(state) {
                        Ok(e) => e,
                        Err(e) => return Err(e),
                    };
                    expr = Expression::Binary(ExprBinary { left: Box::new(expr), op, right: Box::new(right) });
                } else {
                    return Ok(expr);
                }
            },
            _ => return Ok(expr),
        }
    }
}

fn equality(state: &mut State) -> (r: Result<Expression, ParseError>)
    requires
        old(state).wf(),
    ensures
        expr_step(*old(state), *final(state), r, parse_level(old(state).ts(), 2, old(state).index as int)),
    decreases old(state).tokens@.len() - old(state).index, 7int,
{
    let ghost ts = state.ts();
    let ghost p = state.index as int;
    let mut expr = match comparison(state) {
        Ok(e) => e,
        Err(e) => return Err(e),
    };
    loop
        invariant
            state.wf(),
            state.tokens == old(state).tokens,
            ts == state.ts(),
            p == old(state).index,
            p < state.index,
            parse_level(ts, 2, p) == fold_level(ts, 2, state.index as int, expr@),
        decreases state.tokens@.len() - state.index,
    {
        match state.current() {
            Token::Operator(op) => {
                if op == Operator::Equals || op == Operator::NotEquals {
                    state.advance();
                    let right = match comparison(state) {
                        Ok(e) => e,
                        Err(e) => return Err(e),
                    };
                    expr = Expression::Binary(ExprBinary { left: Box::new(expr), op, right: Box::new(right) });
                } else {
                    return Ok(expr);
                }
            },
            _ => return Ok(expr),
        }
    }
}

fn comparison(state: &mut State) -> (r: Result<Expression, ParseError>)
    requires
        old(state).wf(),
    ensures
        expr_step(*old(state), *final(state), r, parse_level(old(state).ts(), 3, old(state).index as int)),
    decreases old(state).tokens@.len() - old(state).index, 6int,
{
    let ghost ts = state.ts();
    let ghost p = state.index as int;
    let mut expr = match addition(state) {
        Ok(e) => e,
        Err(e) => return Err(e),
    };
    loop
        invariant
            state.wf(),
            state.tokens == old(state).tokens,
            ts == state.ts(),
            p == old(state).index,
            p < state.index,
            parse_level(ts, 3, p) == fold_level(ts, 3, state.index as int, expr@),
        decreases state.tokens@.len() - state.index,
    {
        match state.current() {
            Token::Operator(op) => {
                if op == Operator::Greater || op == Operator::GreaterEqual || op == Operator::Less
                    || op == Operator::LessEqual {
                    state.advance();
                    let right = match addition(state) {
                        Ok(e) => e,
                        Err(e) => return Err(e),
                    };
                    expr = Expression::Binary(ExprBinary { left: Box::new(expr), op, right: Box::new(right) });
                } else {
                    return Ok(expr);
                }
            },
            _ => return Ok(expr),
        }
    }
}

fn addition(state: &mut State) -> (r: Result<Expression, ParseError>)
    requires
        old(state).wf(),
    ensures
        expr_step(*old(state), *final(state), r, parse_level(old(state).ts(), 4, old(state).index as int)),
    decreases old(state).tokens@.len() - old(state).index, 5int,
{
    let ghost ts = state.ts();
    let ghost p = state.index as int;
    let mut expr = match multiplication(state) {
        Ok(e) => e,
        Err(e) => return Err(e),
    };
    loop
        invariant
            state.wf(),
            state.tokens == old(state).tokens,
            ts == state.ts(),
            p == old(state).index,
            p < state.index,
            parse_level(ts, 4, p) == fold_level(ts, 4, state.index as int, expr@),
        decreases state.tokens@.len() - state.index,
    {
        match state.current() {
            Token::Operator(op) => {
                if op == Operator::Minus || op == Operator::Plus {
                    state.advance();
                    let right = match multiplication(state) {
                        Ok(e) => e,
                        Err(e) => return Err(e),
                    };
                    expr = Expression::Binary(ExprBinary { left: Box::new(expr), op, right: Box::new(right) });
                } else {
                    return Ok(expr);
                }
            },
            _ => return Ok(expr),
        }
    }
}

fn multiplication(state: &mut State) -> (r: Result<Expression, ParseError>)
    requires
        old(state).wf(),
    ensures
        expr_step(*old(state), *final(state), r, parse_level(old(state).ts(), 5, old(state).index as int)),
    decreases old(state).tokens@.len() - old(state).index, 4int,
{
    let ghost ts = state.ts();
    let ghost p = state.index as int;
    let mut expr = match unary(state) {
        Ok(e) => e,
        Err(e) => return Err(e),
    };
    loop
        invariant
            state.wf(),
            state.tokens == old(state).tokens,
            ts == state.ts(),
            p == old(state).index,
            p < state.index,
            parse_level(ts, 5, p) == fold_level(ts, 5, state.index as int, expr@),
        decreases state.tokens@.len() - state.index,
    {
        match state.current() {
            Token::Operator(op) => {
                if op == Operator::Div || op == Operator::Multiply || op == Operator::Mod {
                    state.advance();
                    let right = match unary(state) {
                        Ok(e) => e,
                        Err(e) => return Err(e),
                    };
                    expr = Expression::Binary(ExprBinary { left: Box::new(expr), op, right: Box::new(right) });
                } else {
                    return Ok(expr);
                }
            },
            _ => return Ok(expr),
        }
    }
}

fn unary(state: &mut State) -> (r: Result<Expression, ParseError>)
    requires
        old(state).wf(),
    ensures
        expr_step(*old(state), *final(state), r, parse_unary(old(state).ts(), old(state).index as int)),
    decreases old(state).tokens@.len() - old(state).index, 3int,
{
    match state.current() {
        Token::Operator(op) => {
            if op == Operator::Not || op == Operator::Minus {
                state.advance();
                let right = match unary(state) {
                    Ok(e) => e,
                    Err(e) => return Err(e),
                };
                return Ok(Expression::Unary(ExprUnary { op, right: Box::new(right) }));
            }
        },
        _ => {},
    }
    primary(state)
}

fn primary(state: &mut State) -> (r: Result<Expression, ParseError>)
    requires
        old(state).wf(),
    ensures
        expr_step(*old(state), *final(state), r, parse_primary(old(state).ts(), old(state).index as int)),
    decreases old(state).tokens@.len() - old(state).index, 2int,
{
    match state.current() {
        Token::Boolean(value) => {
            state.advance();
            Ok(Expression::Boolean(value))
        },
        Token::Number(value) => {
            state.advance();
            Ok(Expression::Number(value))
        },
        Token::Stringy(value) => {
            state.advance();
            Ok(Expression::Stringy(value))
        },
        Token::Identifier(value) => {
            state.advance();
            match state.current() {
                Token::LeftParen => parse_call(state, Expression::Variable(value)),
                Token::Colon => {
                    state.advance();
                    match state.current() {
                        Token::Identifier(value2) => {
                            state.advance();
                            let member = Expression::Member(MemberExpression { value1: value, value2 });
                            match state.current() {
                                Token::LeftParen => parse_call(state, member),
                                _ => Ok(member),
                            }
                        },
                        _ => Err(ParseError::ExpectedIdentifier),
                    }
                },
                _ => Ok(Expression::Variable(value)),
            }
        },
        Token::LeftParen => {
            state.advance();
            let expr = match expression(state) {
                Ok(e) => e,
                Err(e) => return Err(e),
            };
            match state.current() {
                Token::RightParen => {
                    state.advance();
                    Ok(Expression::Grouping(Box::new(expr)))
                },
                _ => Err(ParseError::ExpectedCloseParen),
            }
        },
        Token::Vec4 => {
            state.advance();
            match state.current() {
                Token::LeftParen => {
                    state.advance();
                    constructor(state)
                },
                _ => Err(ParseError::ExpectedOpenParen),
            }
        },
        _ => Err(ParseError::UnexpectedToken),
    }
}

/// A call on `func` whose argument list starts under the cursor: none or one argument.
fn parse_call(state: &mut State, func: Expression) -> (r: Result<Expression, ParseError>)
    requires
        old(state).wf(),
    ensures
        expr_step(*old(state), *final(state), r, call_args(old(state).ts(), old(state).index as int, func@)),
    decreases old(state).tokens@.len() - old(state).index, 1int,
{
    match state.current() {
        Token::LeftParen => {
            state.advance();
            match state.current() {
                Token::RightParen => {
                    state.advance();
                    let parameters: Vec<Expression> = Vec::new();
                    proof { assert(exprs_model(parameters@) =~= Seq::<ExprModel>::empty()); }
                    Ok(Expression::Call(CallStatement { func: Box::new(func), parameters }))
                },
                _ => {
                    let expr = match expression(state) {
                        Ok(e) => e,
                        Err(e) => return Err(e),
                    };
                    match state.current() {
                        Token::RightParen => {
                            state.advance();
                            let mut parameters: Vec<Expression> = Vec::new();
                            parameters.push(expr);
                            proof {
                                assert(parameters@ =~= seq![expr]);
                                lemma_exprs_one(expr);
                            }
                            Ok(Expression::Call(CallStatement { func: Box::new(func), parameters }))
                        },
                        Token::Comma => Err(ParseError::UnsupportedArguments),
                        _ => Err(ParseError::ExpectedCloseParen),
                    }
                },
            }
        },
        _ => Err(ParseError::ExpectedOpenParen),
    }
}

/// The arguments of a constructor, from just after its `(` through its `)`.
fn constructor(state: &mut State) -> (r: Result<Expression, ParseError>)
    requires
        old(state).wf(),
    ensures
        expr_step(*old(state), *final(state), r, parse_constructor(old(state).ts(), old(state).index as int)),
    decreases old(state).tokens@.len() - old(state).index, 11int,
{
    let ghost ts = state.ts();
    let ghost p = state.index as int;
    let mut parameters: Vec<Expression> = Vec::new();
    proof { assert(exprs_model(parameters@) =~= Seq::<ExprModel>::empty()); }
    match state.current() {
        Token::RightParen => {
            state.advance();
            return Ok(Expression::Constructor(ConstructorExpression { parameters }));
        },
        _ => {},
    }
    let first = match expression(state) {
        Ok(e) => e,
        Err(e) => return Err(e),
    };
    parameters.push(first);
    proof {
        assert(parameters@ =~= seq![first]);
        lemma_exprs_one(first);
    }
    loop
        invariant
            state.wf(),
            state.tokens == old(state).tokens,
            ts == state.ts(),
            p == old(state).index,
            p < state.index,
            parse_constructor(ts, p) == constructor_rest(ts, state.index as int, exprs_model(parameters@)),
        decreases state.tokens@.len() - state.index,
    {
        match state.current() {
            Token::Comma => {
                state.advance();
                let e = match expression(state) {
                    Ok(e) => e,
                    Err(e) => return Err(e),
                };
                proof { lemma_exprs_push(parameters@, e); }
                parameters.push(e);
            },
            Token::RightParen => {
                state.advance();
                return Ok(Expression::Constructor(ConstructorExpression { parameters }));
            },
            _ => return Err(ParseError::ExpectedCloseParen),
        }
    }
}

fn block(state: &mut State) -> (r: Result<BlockStatement, ParseError>)
    requires
        old(state).wf(),
    ensures
        final(state).wf(),
        final(state).tokens == old(state).tokens,
        block_out(r, final(state).index as int) == parse_block(old(state).ts(), old(state).index as int),
        r is Ok ==> old(state).index < final(state).index,
    decreases old(state).tokens@.len() - old(state).index, 35int,
{
    let ghost ts = state.ts();
    let ghost p = state.index as int;
    match state.current() {
        Token::LeftCurly => state.advance(),
        _ => return Err(ParseError::ExpectedOpenCurly),
    }
    let mut statements: Vec<Statement> = Vec::new();
    proof { assert(stmts_model(statements@) =~= Seq::<StmtModel>::empty()); }
    loop
        invariant
            state.wf(),
            state.tokens == old(state).tokens,
            ts == state.ts(),
            p == old(state).index,
            p < state.index,
            parse_block(ts, p) == block_items(ts, state.index as int, stmts_model(statements@)),
        decreases state.tokens@.len() - state.index,
    {
        match state.current() {
            Token::RightCurly => {
                state.advance();
                return Ok(BlockStatement { statements });
            },
            _ => {
                let s = match statement(state) {
                    Ok(s) => s,
                    Err(e) => return Err(e),
                };
                proof { lemma_stmts_push(statements@, s); }
                statements.push(s);
            },
        }
    }
}

/// A preprocessor directive named `name`; its parameters are not read.
fn preprocessor(name: String, state: &mut State) -> (r: PreprocessorStatement)
    ensures
        r.name == name,
        r.parameters@.len() == 0,
        *final(state) == *old(state),
{
    let parameters: Vec<Expression> = Vec::new();
    PreprocessorStatement { name, parameters }
}

/// A declaration: `in` modifiers, which are dropped, a type keyword, a name,
/// then an initializer, nothing, or an empty parameter list and a body.
fn declaration(state: &mut State) -> (r: Result<Statement, ParseError>)
    requires
        old(state).wf(),
    ensures
        stmt_step(*old(state), *final(state), r, parse_declaration(old(state).ts(), old(state).index as int)),
    decreases old(state).tokens@.len() - old(state).index, 35int,
{
    match state.current() {
        Token::In => {
            state.advance();
            return declaration(state);
        },
        Token::Vec3 => state.advance(),
        Token::Vec4 => state.advance(),
        Token::Float => state.advance(),
        Token::Void => state.advance(),
        _ => return Err(ParseError::ExpectedDeclaration),
    }
    typed_declaration(state)
}

/// The rest of a declaration, after its type keyword.
fn typed_declaration(state: &mut State) -> (r: Result<Statement, ParseError>)
    requires
        old(state).wf(),
    ensures
        stmt_step(*old(state), *final(state), r, declaration_rest(old(state).ts(), old(state).index as int)),
    decreases old(state).tokens@.len() - old(state).index, 34int,
{
    let name = match state.current() {
        Token::Identifier(value) => {
            state.advance();
            value
        },
        _ => return Err(ParseError::ExpectedIdentifier),
    };
    match state.current() {
        Token::Operator(op) => {
            if op == Operator::Assign {
                state.advance();
                let expr = match expression(state) {
                    Ok(e) => e,
                    Err(e) => return Err(e),
                };
                match state.current() {
                    Token::Semicolon => {
                        state.advance();
                        Ok(Statement::Declaration(DeclarationStatement { name, init: Some(expr) }))
                    },
                    _ => Err(ParseError::ExpectedSemicolon),
                }
            } else {
                Err(ParseError::ExpectedAssignOperator)
            }
        },
        Token::Semicolon => {
            state.advance();
            Ok(Statement::Declaration(DeclarationStatement { name, init: None }))
        },
        Token::LeftParen => {
            state.advance();
            match state.current() {
                Token::RightParen => {
                    state.advance();
                    let body = match block(state) {
                        Ok(b) => b,
                        Err(e) => return Err(e),
                    };
                    let parameters: Vec<String> = Vec::new();
                    proof { assert(parameters@.map_values(|t: String| t@) =~= Seq::<Seq<char>>::empty()); }
                    Ok(Statement::Function(FunctionStatement { parameters, block: body }))
                },
                _ => Err(ParseError::UnsupportedParameters),
            }
        },
        _ => Err(ParseError::ExpectedAssignOrSemicolon),
    }
}

fn statement(state: &mut State) -> (r: Result<Statement, ParseError>)
    requires
        old(state).wf(),
    ensures
        stmt_step(*old(state), *final(state), r, parse_statement(old(state).ts(), old(state).index as int)),
    decreases old(state).tokens@.len() - old(state).index, 40int,
{
    match state.current() {
        Token::Attribute(value) => {
            state.advance();
            let directive = preprocessor(value, state);
            proof { assert(exprs_model(directive.parameters@) =~= Seq::<ExprModel>::empty()); }
            Ok(Statement::PreprocessorDirective(directive))
        },
        Token::If => {
            state.advance();
            match state.current() {
                Token::LeftParen => state.advance(),
                _ => return Err(ParseError::ExpectedOpenParen),
            }
            let test = match expression(state) {
                Ok(e) => e,
                Err(e) => return Err(e),
            };
            match state.current() {
                Token::RightParen => state.advance(),
                _ => return Err(ParseError::ExpectedCloseParen),
            }
            let body = match statement(state) {
                Ok(s) => s,
                Err(e) => return Err(e),
            };
            Ok(Statement::If(IfStatement { test, block: Box::new(body) }))
        },
        Token::LeftCurly => match block(state) {
            Ok(b) => Ok(Statement::Block(b)),
            Err(e) => Err(e),
        },
        Token::In => declaration(state),
        Token::Float => declaration(state),
        Token::Vec3 => declaration(state),
        Token::Vec4 => declaration(state),
        Token::Void => declaration(state),
        Token::Struct => parse_struct(state),
        _ => {
            let expr = match expression(state) {
                Ok(e) => e,
                Err(e) => return Err(e),
            };
            match state.current() {
                Token::Semicolon => {
                    state.advance();
                    Ok(Statement::Expression(expr))
                },
                _ => Err(ParseError::ExpectedSemicolon),
            }
        },
    }
}

/// The name of a member's type under the cursor, if it is one; the cursor moves past it.
fn member_type(state: &mut State) -> (r: Option<String>)
    requires
        old(state).wf(),
    ensures
        final(state).wf(),
        final(state).tokens == old(state).tokens,
        match member_type_of(cur(old(state).ts(), old(state).index as int)) {
            Some(t) => r is Some && r->Some_0@ == t && final(state).index == old(state).index + 1,
            None => r is None,
        },
{
    match state.current() {
        Token::Identifier(value) => {
            state.advance();
            Some(value)
        },
        Token::Float => {
            state.advance();
            Some("float".to_owned())
        },
        Token::Vec3 => {
            state.advance();
            Some("vec3".to_owned())
        },
        Token::Vec4 => {
            state.advance();
            Some("vec4".to_owned())
        },
        _ => None,
    }
}

/// Moves past members `name: type;` through the closing `}`.
fn skip_struct_members(state: &mut State) -> (r: Result<(), ParseError>)
    requires
        old(state).wf(),
    ensures
        final(state).wf(),
        final(state).tokens == old(state).tokens,
        match skip_members(old(state).ts(), old(state).index as int) {
            Ok(q) => r is Ok && final(state).index == q,
            Err(e) => r == Err::<(), ParseError>(e),
        },
        r is Ok ==> old(state).index < final(state).index,
{
    let ghost ts = state.ts();
    let ghost p = state.index as int;
    loop
        invariant
            state.wf(),
            state.tokens == old(state).tokens,
            ts == state.ts(),
            p == old(state).index,
            p <= state.index,
            skip_members(ts, p) == skip_members(ts, state.index as int),
        decreases state.tokens@.len() - state.index,
    {
        match state.current() {
            Token::RightCurly => {
                state.advance();
                return Ok(());
            },
            Token::Identifier(_) => {
                state.advance();
                match state.current() {
                    Token::Colon => state.advance(),
                    _ => return Err(ParseError::ExpectedColon),
                }
                match member_type(state) {
                    Some(_) => {},
                    None => return Err(ParseError::ExpectedTypeName),
                }
                match state.current() {
                    Token::Semicolon => state.advance(),
                    _ => return Err(ParseError::ExpectedSemicolon),
                }
            },
            _ => return Err(ParseError::ExpectedCloseCurly),
        }
    }
}

/// A struct declaration, whose `struct` keyword is under the cursor. The struct
/// holds its first member only; later well-formed members are read and dropped.
fn parse_struct(state: &mut State) -> (r: Result<Statement, ParseError>)
    requires
        old(state).wf(),
        old(state).index < old(state).tokens@.len(),
    ensures
        stmt_step(*old(state), *final(state), r, struct_decl(old(state).ts(), old(state).index as int)),
{
    state.advance();
    let name = match state.current() {
        Token::Identifier(value) => {
            state.advance();
            value
        },
        _ => return Err(ParseError::ExpectedIdentifier),
    };
    match state.current() {
        Token::LeftCurly => state.advance(),
        _ => return Err(ParseError::ExpectedOpenCurly),
    }
    let member_name = match state.current() {
        Token::Identifier(value) => {
            state.advance();
            value
        },
        Token::RightCurly => return Err(ParseError::EmptyStruct),
        _ => return Err(ParseError::ExpectedIdentifier),
    };
    match state.current() {
        Token::Colon => state.advance(),
        _ => return Err(ParseError::ExpectedColon),
    }
    let type_text = match member_type(state) {
        Some(t) => t,
        None => return Err(ParseError::ExpectedTypeName),
    };
    match state.current() {
        Token::Semicolon => state.advance(),
        _ => return Err(ParseError::ExpectedSemicolon),
    }
    match skip_struct_members(state) {
        Ok(()) => {},
        Err(e) => return Err(e),
    }
    let mut members: Vec<Member> = Vec::new();
    let member = Member { name: member_name, member_type: type_text };
    members.push(member);
    let result = Statement::Struct(StructStatement { attribute: String::new(), name, members });
    proof {
        assert(members@.map_values(|m: Member| (m.name@, m.member_type@)) =~= seq![(member.name@, member.member_type@)]);
        assert(result@ == StmtModel::Struct { attribute: Seq::empty(), name: name@, members: seq![(member.name@, member.member_type@)] });
    }
    Ok(result)
}

/// Parses a token sequence into its top-level statements.
///
/// The result is exactly `parse_program(tokens)`: the statements up to the
/// first end-of-input token, or the first error met; never a part of them.
pub fn parse(tokens: Vec<Token>) -> (r: Result<Vec<Statement>, ParseError>)
    ensures
        match r {
            Ok(v) => parse_program(tokens_model(tokens@)) == Ok::<Seq<StmtModel>, ParseError>(stmts_model(v@)),
            Err(e) => parse_program(tokens_model(tokens@)) == Err::<Seq<StmtModel>, ParseError>(e),
        },
{
    let mut state = State { tokens, index: 0 };
    let ghost ts = state.ts();
    let mut statements: Vec<Statement> = Vec::new();
    proof { assert(stmts_model(statements@) =~= Seq::<StmtModel>::empty()); }
    loop
        invariant
            state.wf(),
            ts == state.ts(),
            ts == tokens_model(tokens@),
            parse_program(ts) == program_from(ts, state.index as int, stmts_model(statements@)),
        decreases state.tokens@.len() - state.index,
    {
        match state.current() {
            Token::Eof => return Ok(statements),
            _ => {
                let s = match statement(&mut state) {
                    Ok(s) => s,
                    Err(e) => return Err(e),
                };
                proof { lemma_stmts_push(statements@, s); }
                statements.push(s);
            },
        }
    }
}

} // verus!
