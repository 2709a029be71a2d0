use vstd::prelude::*;

verus! {

/// The operator tags, shared by operator tokens and by binary and unary expressions.
#[derive(Clone, Copy, Debug, PartialEq, Eq, Structural)]
pub enum Operator {
    Assign,
    Or,
    And,
    Equals,
    NotEquals,
    Greater,
    GreaterEqual,
    Less,
    LessEqual,
    Minus,
    Plus,
    Div,
    Multiply,
    Mod,
    Not,
}

/// One lexical unit.
///
/// A number literal keeps its source text (digits with at most one decimal
/// point); its value as a 64-bit float is for the caller to compute.
#[derive(Clone, Debug, PartialEq)]
pub enum Token {
    Eof,
    LeftCurly,
    RightCurly,
    LeftParen,
    RightParen,
    Colon,
    Semicolon,
    Comma,
    Operator(Operator),
    Boolean(bool),
    Number(String),
    Stringy(String),
    Identifier(String),
    Attribute(String),
    If,
    Float,
    In,
    Vec3,
    Vec4,
    Void,
    Struct,
    Function,
    Let,
    Mut,
}

/// The mathematical model of a token: text payloads as character sequences.
pub enum TokenModel {
    Eof,
    LeftCurly,
    RightCurly,
    LeftParen,
    RightParen,
    Colon,
    Semicolon,
    Comma,
    Operator(Operator),
    Boolean(bool),
    Number(Seq<char>),
    Stringy(Seq<char>),
    Identifier(Seq<char>),
    Attribute(Seq<char>),
    If,
    Float,
    In,
    Vec3,
    Vec4,
    Void,
    Struct,
    Function,
    Let,
    Mut,
}

impl View for Token {
    type V = TokenModel;

    open spec fn view(&self) -> TokenModel {
        match self {
            Token::Eof => TokenModel::Eof,
            Token::LeftCurly => TokenModel::LeftCurly,
            Token::RightCurly => TokenModel::RightCurly,
            Token::LeftParen => TokenModel::LeftParen,
            Token::RightParen => TokenModel::RightParen,
            Token::Colon => TokenModel::Colon,
            Token::Semicolon => TokenModel::Semicolon,
            Token::Comma => TokenModel::Comma,
            Token::Operator(op) => TokenModel::Operator(*op),
            Token::Boolean(b) => TokenModel::Boolean(*b),
            Token::Number(s) => TokenModel::Number(s@),
            Token::Stringy(s) => TokenModel::Stringy(s@),
            Token::Identifier(s) => TokenModel::Identifier(s@),
            Token::Attribute(s) => TokenModel::Attribute(s@),
            Token::If => TokenModel::If,
            Token::Float => TokenModel::Float,
            Token::In => TokenModel::In,
            Token::Vec3 => TokenModel::Vec3,
            Token::Vec4 => TokenModel::Vec4,
            Token::Void => TokenModel::Void,
            Token::Struct => TokenModel::Struct,
            Token::Function => TokenModel::Function,
            Token::Let => TokenModel::Let,
            Token::Mut => TokenModel::Mut,
        }
    }
}

/// The models of a token sequence, element by element.
pub open spec fn tokens_model(ts: Seq<Token>) -> Seq<TokenModel> {
    ts.map_values(|t: Token| t@)
}

impl Token {
    /// A copy of the token with the same model.
    pub fn duplicate(&self) -> (r: Token)
        ensures
            r@ == self@,
    {
        match self {
            Token::Eof => Token::Eof,
            Token::LeftCurly => Token::LeftCurly,
            Token::RightCurly => Token::RightCurly,
            Token::LeftParen => Token::LeftParen,
            Token::RightParen => Token::RightParen,
            Token::Colon => Token::Colon,
            Token::Semicolon => Token::Semicolon,
            Token::Comma => Token::Comma,
            Token::Operator(op) => Token::Operator(*op),
            Token::Boolean(b) => Token::Boolean(*b),
            Token::Number(s) => Token::Number(s.clone()),
            Token::Stringy(s) => Token::Stringy(s.clone()),
            Token::Identifier(s) => Token::Identifier(s.clone()),
            Token::Attribute(s) => Token::Attribute(s.clone()),
            Token::If => Token::If,
            Token::Float => Token::Float,
            Token::In => Token::In,
            Token::Vec3 => Token::Vec3,
            Token::Vec4 => Token::Vec4,
            Token::Void => Token::Void,
            Token::Struct => Token::Struct,
            Token::Function => Token::Function,
            Token::Let => Token::Let,
            Token::Mut => Token::Mut,
        }
    }
}

} // verus!
