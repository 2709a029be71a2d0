use vstd::prelude::*;
use crate::token::{Operator, TokenModel};
use crate::expression::ExprModel;
use crate::statement::StmtModel;

verus! {

/// Why a token sequence is not a program.
#[derive(Clone, Copy, Debug, PartialEq, Eq, Structural)]
pub enum ParseError {
    ExpectedOpenCurly,
    ExpectedCloseCurly,
    ExpectedOpenParen,
    ExpectedCloseParen,
    ExpectedSemicolon,
    ExpectedColon,
    ExpectedIdentifier,
    /// A struct member's type is neither an identifier nor a type keyword.
    ExpectedTypeName,
    /// After `in`, no type keyword.
    ExpectedDeclaration,
    /// A declared name followed by an operator other than `=`.
    ExpectedAssignOperator,
    /// A declared name followed by neither `=`, `;` nor `(`.
    ExpectedAssignOrSemicolon,
    /// A function declaration with a non-empty parameter list.
    UnsupportedParameters,
    /// A call with more than one argument.
    UnsupportedArguments,
    /// A struct without a member.
    EmptyStruct,
    /// A token that starts no expression.
    UnexpectedToken,
}

/// A parsed value and the position of the first token after it, or an error.
pub type Parsed<T> = Result<(T, int), ParseError>;

/// The token at `p`; past the end, the end-of-input token.
pub open spec fn cur(ts: Seq<TokenModel>, p: int) -> TokenModel {
    if 0 <= p < ts.len() {
        ts[p]
    } else {
        TokenModel::Eof
    }
}

/// Whether a parse that started at `p` and stopped at `q` consumed input.
///
/// The recursion below continues only after a part that advanced, which keeps
/// it well founded. Every successful parse advances (the executable parser's
/// contracts state it), so the branches taken when it does not are never reached.
pub open spec fn advanced(ts: Seq<TokenModel>, p: int, q: int) -> bool {
    p < q <= ts.len()
}

/// The binary operators of each precedence level, from assignment (0) to
/// multiplication (5).
pub open spec fn level_op(l: nat, op: Operator) -> bool {
    if l == 0 {
        op == Operator::Assign
    } else if l == 1 {
        op == Operator::Or || op == Operator::And
    } else if l == 2 {
        op == Operator::Equals || op == Operator::NotEquals
    } else if l == 3 {
        op == Operator::Greater || op == Operator::GreaterEqual || op == Operator::Less
            || op == Operator::LessEqual
    } else if l == 4 {
        op == Operator::Minus || op == Operator::Plus
    } else {
        op == Operator::Div || op == Operator::Multiply || op == Operator::Mod
    }
}

pub open spec fn level_rank(l: nat) -> int {
    if l < 5 {
        9 - l
    } else {
        4
    }
}

/// An expression: the assignment level.
pub open spec fn parse_expression(ts: Seq<TokenModel>, p: int) -> Parsed<ExprModel>
    decreases ts.len() - p, 10int,
{
    parse_level(ts, 0, p)
}

/// An operand of level `l`: one of the next level, then a left fold over the
/// operators of level `l`.
pub open spec fn parse_level(ts: Seq<TokenModel>, l: nat, p: int) -> Parsed<ExprModel>
    decreases ts.len() - p, level_rank(l),
{
    let first = if l >= 5 {
        parse_unary(ts, p)
    } else {
        parse_level(ts, l + 1, p)
    };
    match first {
        Ok((left, q)) => if advanced(ts, p, q) {
            fold_level(ts, l, q, left)
        } else {
            Err(ParseError::UnexpectedToken)
        },
        Err(e) => Err(e),
    }
}

/// While the token at `p` is an operator of level `l`, folds it and the next
/// operand into `left`.
pub open spec fn fold_level(ts: Seq<TokenModel>, l: nat, p: int, left: ExprModel) -> Parsed<
    ExprModel,
>
    decreases ts.len() - p, level_rank(l),
{
    match cur(ts, p) {
        TokenModel::Operator(op) => if level_op(l, op) {
            let next = if l >= 5 {
                parse_unary(ts, p + 1)
            } else {
                parse_level(ts, l + 1, p + 1)
            };
            match next {
                Ok((right, q)) => if advanced(ts, p, q) {
                    fold_level(ts, l, q, ExprModel::Binary(Box::new(left), op, Box::new(right)))
                } else {
                    Err(ParseError::UnexpectedToken)
                },
                Err(e) => Err(e),
            }
        } else {
            Ok((left, p))
        },
        _ => Ok((left, p)),
    }
}

/// A prefix `!` or `-` applied to a unary operand, or a primary expression.
pub open spec fn parse_unary(ts: Seq<TokenModel>, p: int) -> Parsed<ExprModel>
    decreases ts.len() - p, 3int,
{
    match cur(ts, p) {
        TokenModel::Operator(op) => if op == Operator::Not || op == Operator::Minus {
            match parse_unary(ts, p + 1) {
                Ok((right, q)) => Ok((ExprModel::Unary(op, Box::new(right)), q)),
                Err(e) => Err(e),
            }
        } else {
            parse_primary(ts, p)
        },
        _ => parse_primary(ts, p),
    }
}

/// A literal, a variable, a member access, a call, a grouping or a `vec4` constructor.
pub open spec fn parse_primary(ts: Seq<TokenModel>, p: int) -> Parsed<ExprModel>
    decreases ts.len() - p, 2int,
{
    match cur(ts, p) {
        TokenModel::Boolean(b) => Ok((ExprModel::Boolean(b), p + 1)),
        TokenModel::Number(t) => Ok((ExprModel::Number(t), p + 1)),
        TokenModel::Stringy(t) => Ok((ExprModel::Stringy(t), p + 1)),
        TokenModel::Identifier(name) => match cur(ts, p + 1) {
            TokenModel::LeftParen => call_args(ts, p + 1, ExprModel::Variable(name)),
            TokenModel::Colon => match cur(ts, p + 2) {
                TokenModel::Identifier(field) => {
                    let member = ExprModel::Member(name, field);
                    match cur(ts, p + 3) {
                        TokenModel::LeftParen => call_args(ts, p + 3, member),
                        _ => Ok((member, p + 3)),
                    }
                },
                _ => Err(ParseError::ExpectedIdentifier),
            },
            _ => Ok((ExprModel::Variable(name), p + 1)),
        },
        TokenModel::LeftParen => match parse_expression(ts, p + 1) {
            Ok((e, q)) => match cur(ts, q) {
                TokenModel::RightParen => Ok((ExprModel::Grouping(Box::new(e)), q + 1)),
                _ => Err(ParseError::ExpectedCloseParen),
            },
            Err(e) => Err(e),
        },
        TokenModel::Vec4 => match cur(ts, p + 1) {
            TokenModel::LeftParen => parse_constructor(ts, p + 2),
            _ => Err(ParseError::ExpectedOpenParen),
        },
        _ => Err(ParseError::UnexpectedToken),
    }
}

/// A call's argument list, which starts at `p` with `(`: empty or one argument.
pub open spec fn call_args(ts: Seq<TokenModel>, p: int, callee: ExprModel) -> Parsed<ExprModel>
    decreases ts.len() - p, 1int,
{
    match cur(ts, p) {
        TokenModel::LeftParen => match cur(ts, p + 1) {
            TokenModel::RightParen => Ok((ExprModel::Call(Box::new(callee), Seq::empty()), p + 2)),
            _ => match parse_expression(ts, p + 1) {
                Ok((arg, q)) => match cur(ts, q) {
                    TokenModel::RightParen => Ok(
                        (ExprModel::Call(Box::new(callee), seq![arg]), q + 1),
                    ),
                    TokenModel::Comma => Err(ParseError::UnsupportedArguments),
                    _ => Err(ParseError::ExpectedCloseParen),
                },
                Err(e) => Err(e),
            },
        },
        _ => Err(ParseError::ExpectedOpenParen),
    }
}

/// A constructor's comma-separated arguments, from just after `(` through `)`.
pub open spec fn parse_constructor(ts: Seq<TokenModel>, p: int) -> Parsed<ExprModel>
    decreases ts.len() - p, 11int,
{
    match cur(ts, p) {
        TokenModel::RightParen => Ok((ExprModel::Constructor(Seq::empty()), p + 1)),
        _ => match parse_expression(ts, p) {
            Ok((e, q)) => if advanced(ts, p, q) {
                constructor_rest(ts, q, seq![e])
            } else {
                Err(ParseError::UnexpectedToken)
            },
            Err(e) => Err(e),
        },
    }
}

/// The arguments after the first: `, expression` repeated, then `)`.
pub open spec fn constructor_rest(ts: Seq<TokenModel>, p: int, args: Seq<ExprModel>) -> Parsed<
    ExprModel,
>
    decreases ts.len() - p, 11int,
{
    match cur(ts, p) {
        TokenModel::Comma => match parse_expression(ts, p + 1) {
            Ok((e, q)) => if advanced(ts, p, q) {
                constructor_rest(ts, q, args.push(e))
            } else {
                Err(ParseError::UnexpectedToken)
            },
            Err(e) => Err(e),
        },
        TokenModel::RightParen => Ok((ExprModel::Constructor(args), p + 1)),
        _ => Err(ParseError::ExpectedCloseParen),
    }
}

/// One statement, chosen by its first token.
pub open spec fn parse_statement(ts: Seq<TokenModel>, p: int) -> Parsed<StmtModel>
    decreases ts.len() - p, 40int,
{
    match cur(ts, p) {
        TokenModel::Attribute(name) => Ok(
            (StmtModel::Preprocessor { name, parameters: Seq::empty() }, p + 1),
        ),
        TokenModel::If => match cur(ts, p + 1) {
            TokenModel::LeftParen => match parse_expression(ts, p + 2) {
                Ok((test, q)) => match cur(ts, q) {
                    TokenModel::RightParen => if advanced(ts, p, q) {
                        match parse_statement(ts, q + 1) {
                            Ok((body, r)) => Ok((StmtModel::If { test, body: Box::new(body) }, r)),
                            Err(e) => Err(e),
                        }
                    } else {
                        Err(ParseError::UnexpectedToken)
                    },
                    _ => Err(ParseError::ExpectedCloseParen),
                },
                Err(e) => Err(e),
            },
            _ => Err(ParseError::ExpectedOpenParen),
        },
        TokenModel::LeftCurly => match parse_block(ts, p) {
            Ok((body, q)) => Ok((StmtModel::Block(body), q)),
            Err(e) => Err(e),
        },
        TokenModel::In => parse_declaration(ts, p),
        TokenModel::Float => parse_declaration(ts, p),
        TokenModel::Vec3 => parse_declaration(ts, p),
        TokenModel::Vec4 => parse_declaration(ts, p),
        TokenModel::Void => parse_declaration(ts, p),
        TokenModel::Struct => struct_decl(ts, p),
        _ => match parse_expression(ts, p) {
            Ok((e, q)) => match cur(ts, q) {
                TokenModel::Semicolon => Ok((StmtModel::Expression(e), q + 1)),
                _ => Err(ParseError::ExpectedSemicolon),
            },
            Err(e) => Err(e),
        },
    }
}

/// A block, `{` statements `}`: the statements it holds.
pub open spec fn parse_block(ts: Seq<TokenModel>, p: int) -> Parsed<Seq<StmtModel>>
    decreases ts.len() - p, 35int,
{
    match cur(ts, p) {
        TokenModel::LeftCurly => block_items(ts, p + 1, Seq::empty()),
        _ => Err(ParseError::ExpectedOpenCurly),
    }
}

/// The statements of a block from `p` through its `}`, after `done`.
pub open spec fn block_items(ts: Seq<TokenModel>, p: int, done: Seq<StmtModel>) -> Parsed<
    Seq<StmtModel>,
>
    decreases ts.len() - p, 50int,
{
    match cur(ts, p) {
        TokenModel::RightCurly => Ok((done, p + 1)),
        _ => match parse_statement(ts, p) {
            Ok((s, q)) => if advanced(ts, p, q) {
                block_items(ts, q, done.push(s))
            } else {
                Err(ParseError::UnexpectedToken)
            },
            Err(e) => Err(e),
        },
    }
}

/// Any number of `in` modifiers, which are dropped, then a type keyword and the
/// rest of a declaration.
pub open spec fn parse_declaration(ts: Seq<TokenModel>, p: int) -> Parsed<StmtModel>
    decreases ts.len() - p, 35int,
{
    match cur(ts, p) {
        TokenModel::In => parse_declaration(ts, p + 1),
        TokenModel::Vec3 => declaration_rest(ts, p + 1),
        TokenModel::Vec4 => declaration_rest(ts, p + 1),
        TokenModel::Float => declaration_rest(ts, p + 1),
        TokenModel::Void => declaration_rest(ts, p + 1),
        _ => Err(ParseError::ExpectedDeclaration),
    }
}

/// After the type keyword: a name, then `= expression ;`, `;`, or `( )` and a block.
pub open spec fn declaration_rest(ts: Seq<TokenModel>, p: int) -> Parsed<StmtModel>
    decreases ts.len() - p, 34int,
{
    match cur(ts, p) {
        TokenModel::Identifier(name) => match cur(ts, p + 1) {
            TokenModel::Operator(op) => if op == Operator::Assign {
                match parse_expression(ts, p + 2) {
                    Ok((e, q)) => match cur(ts, q) {
                        TokenModel::Semicolon => Ok(
                            (StmtModel::Declaration { name, init: Some(e) }, q + 1),
                        ),
                        _ => Err(ParseError::ExpectedSemicolon),
                    },
                    Err(e) => Err(e),
                }
            } else {
                Err(ParseError::ExpectedAssignOperator)
            },
            TokenModel::Semicolon => Ok((StmtModel::Declaration { name, init: None }, p + 2)),
            TokenModel::LeftParen => match cur(ts, p + 2) {
                TokenModel::RightParen => match parse_block(ts, p + 3) {
                    Ok((body, q)) => Ok((StmtModel::Function { parameters: Seq::empty(), body }, q)),
                    Err(e) => Err(e),
                },
                _ => Err(ParseError::UnsupportedParameters),
            },
            _ => Err(ParseError::ExpectedAssignOrSemicolon),
        },
        _ => Err(ParseError::ExpectedIdentifier),
    }
}

/// The name of a member's type: an identifier, or the type keywords `float`,
/// `vec3` and `vec4` by their text.
pub open spec fn member_type_of(t: TokenModel) -> Option<Seq<char>> {
    match t {
        TokenModel::Identifier(n) => Some(n),
        TokenModel::Float => Some("float"@),
        TokenModel::Vec3 => Some("vec3"@),
        TokenModel::Vec4 => Some("vec4"@),
        _ => None,
    }
}

/// `struct Name { member: type; ... }`: the struct holds its first member only;
/// later well-formed members are read and dropped.
pub open spec fn struct_decl(ts: Seq<TokenModel>, p: int) -> Parsed<StmtModel> {
    match cur(ts, p + 1) {
        TokenModel::Identifier(name) => match cur(ts, p + 2) {
            TokenModel::LeftCurly => match cur(ts, p + 3) {
                TokenModel::Identifier(member) => match cur(ts, p + 4) {
                    TokenModel::Colon => match member_type_of(cur(ts, p + 5)) {
                        Some(ty) => match cur(ts, p + 6) {
                            TokenModel::Semicolon => match skip_members(ts, p + 7) {
                                Ok(q) => Ok(
                                    (
                                        StmtModel::Struct {
                                            attribute: Seq::empty(),
                                            name,
                                            members: seq![(member, ty)],
                                        },
                                        q,
                                    ),
                                ),
                                Err(e) => Err(e),
                            },
                            _ => Err(ParseError::ExpectedSemicolon),
                        },
                        None => Err(ParseError::ExpectedTypeName),
                    },
                    _ => Err(ParseError::ExpectedColon),
                },
                TokenModel::RightCurly => Err(ParseError::EmptyStruct),
                _ => Err(ParseError::ExpectedIdentifier),
            },
            _ => Err(ParseError::ExpectedOpenCurly),
        },
        _ => Err(ParseError::ExpectedIdentifier),
    }
}

/// Members `name: type;` from `p` through the closing `}`: the position after it.
pub open spec fn skip_members(ts: Seq<TokenModel>, p: int) -> Result<int, ParseError>
    decreases ts.len() - p,
{
    match cur(ts, p) {
        TokenModel::RightCurly => Ok(p + 1),
        TokenModel::Identifier(_) => match cur(ts, p + 1) {
            TokenModel::Colon => match member_type_of(cur(ts, p + 2)) {
                Some(_) => match cur(ts, p + 3) {
                    TokenModel::Semicolon => skip_members(ts, p + 4),
                    _ => Err(ParseError::ExpectedSemicolon),
                },
                None => Err(ParseError::ExpectedTypeName),
            },
            _ => Err(ParseError::ExpectedColon),
        },
        _ => Err(ParseError::ExpectedCloseCurly),
    }
}

/// The statements from `p` up to the end-of-input token, after `done`.
pub open spec fn program_from(ts: Seq<TokenModel>, p: int, done: Seq<StmtModel>) -> Result<
    Seq<StmtModel>,
    ParseError,
>
    decreases ts.len() - p,
{
    match cur(ts, p) {
        TokenModel::Eof => Ok(done),
        _ => match parse_statement(ts, p) {
            Ok((s, q)) => if advanced(ts, p, q) {
                program_from(ts, q, done.push(s))
            } else {
                Err(ParseError::UnexpectedToken)
            },
            Err(e) => Err(e),
        },
    }
}

/// The top-level statements of a token sequence.
pub open spec fn parse_program(ts: Seq<TokenModel>) -> Result<Seq<StmtModel>, ParseError> {
    program_from(ts, 0, Seq::empty())
}

} // verus!
