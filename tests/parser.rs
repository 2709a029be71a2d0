use kong::expression::{ExprBinary, Expression};
use kong::grammar::ParseError;
use kong::parser::parse;
use kong::statement::Statement;
use kong::token::{Operator, Token};
use kong::tokenizer::{tokenize, LexError};
use kong::{parse_source, Error};

fn program(source: &str) -> Vec<Statement> {
    parse(tokenize(source).unwrap()).unwrap()
}

fn variable(name: &str) -> Expression {
    Expression::Variable(name.to_string())
}

fn expression_of(s: &Statement) -> &Expression {
    match s {
        Statement::Expression(e) => e,
        other => panic!("not an expression statement: {:?}", other),
    }
}

fn binary(e: &Expression) -> &ExprBinary {
    match e {
        Expression::Binary(b) => b,
        other => panic!("not a binary expression: {:?}", other),
    }
}

#[test]
fn parse_counts_top_level_statements() {
    let stmts = program("#version\nvec3 a = 1;\nfloat b;\nvoid main() { a = b; if (a) { b; } }\nstruct S { m: float; }\nx;");
    assert_eq!(stmts.len(), 6);
    assert_eq!(program("").len(), 0);
}

#[test]
fn parse_if_with_block() {
    let stmts = program("if (true) { x; }");
    assert_eq!(stmts.len(), 1);
    match &stmts[0] {
        Statement::If(i) => {
            assert_eq!(i.test, Expression::Boolean(true));
            match &*i.block {
                Statement::Block(b) => {
                    assert_eq!(b.statements.len(), 1);
                    assert_eq!(b.statements[0], Statement::Expression(variable("x")));
                }
                other => panic!("body is not a block: {:?}", other),
            }
        }
        other => panic!("not an if statement: {:?}", other),
    }
}

#[test]
fn parse_multiplication_binds_tighter() {
    let stmts = program("a + b * c;");
    let top = binary(expression_of(&stmts[0]));
    assert_eq!(top.op, Operator::Plus);
    assert_eq!(*top.left, variable("a"));
    let right = binary(&top.right);
    assert_eq!(right.op, Operator::Multiply);
    assert_eq!(*right.left, variable("b"));
    assert_eq!(*right.right, variable("c"));
}

#[test]
fn parse_member_call() {
    let stmts = program("foo:bar(1);");
    match expression_of(&stmts[0]) {
        Expression::Call(c) => {
            match &*c.func {
                Expression::Member(m) => {
                    assert_eq!(m.value1, "foo");
                    assert_eq!(m.value2, "bar");
                }
                other => panic!("callee is not a member: {:?}", other),
            }
            assert_eq!(c.parameters, vec![Expression::Number("1".to_string())]);
        }
        other => panic!("not a call: {:?}", other),
    }
}

#[test]
fn parse_missing_assign_fails_whole() {
    let tokens = tokenize("vec3 x 1;").unwrap();
    assert_eq!(parse(tokens), Err(ParseError::ExpectedAssignOrSemicolon));
    assert_eq!(
        parse_source("float a; vec3 x 1;"),
        Err(Error::Parse(ParseError::ExpectedAssignOrSemicolon))
    );
}

#[test]
fn parse_struct_keeps_first_member() {
    let stmts = program("struct S { a: float; b: float; }");
    assert_eq!(stmts.len(), 1);
    match &stmts[0] {
        Statement::Struct(s) => {
            assert_eq!(s.name, "S");
            assert_eq!(s.attribute, "");
            assert_eq!(s.members.len(), 1);
            assert_eq!(s.members[0].name, "a");
            assert_eq!(s.members[0].member_type, "float");
        }
        other => panic!("not a struct: {:?}", other),
    }
}

#[test]
fn parse_struct_errors() {
    assert_eq!(parse_source("struct S { }"), Err(Error::Parse(ParseError::EmptyStruct)));
    assert_eq!(parse_source("struct S { a float; }"), Err(Error::Parse(ParseError::ExpectedColon)));
    assert_eq!(parse_source("struct S { a: 1; }"), Err(Error::Parse(ParseError::ExpectedTypeName)));
    assert_eq!(parse_source("struct S { a: T; b: U }"), Err(Error::Parse(ParseError::ExpectedSemicolon)));
    assert_eq!(parse_source("struct S { a: T; 1 }"), Err(Error::Parse(ParseError::ExpectedCloseCurly)));
    assert_eq!(parse_source("struct { a: T; }"), Err(Error::Parse(ParseError::ExpectedIdentifier)));
    assert_eq!(parse_source("struct S a: T; }"), Err(Error::Parse(ParseError::ExpectedOpenCurly)));
}

#[test]
fn parse_assignment_folds_left() {
    let stmts = program("a = b = c;");
    let top = binary(expression_of(&stmts[0]));
    assert_eq!(top.op, Operator::Assign);
    assert_eq!(*top.right, variable("c"));
    let left = binary(&top.left);
    assert_eq!(*left.left, variable("a"));
    assert_eq!(*left.right, variable("b"));
}

#[test]
fn parse_levels_fold_left() {
    let stmts = program("a - b - c;");
    let top = binary(expression_of(&stmts[0]));
    assert_eq!(top.op, Operator::Minus);
    assert_eq!(*top.right, variable("c"));
    assert_eq!(binary(&top.left).op, Operator::Minus);
}

#[test]
fn parse_precedence_chain() {
    let stmts = program("x = a || b == c < d + e % f;");
    let assign = binary(expression_of(&stmts[0]));
    assert_eq!(assign.op, Operator::Assign);
    let or = binary(&assign.right);
    assert_eq!(or.op, Operator::Or);
    let eq = binary(&or.right);
    assert_eq!(eq.op, Operator::Equals);
    let lt = binary(&eq.right);
    assert_eq!(lt.op, Operator::Less);
    let add = binary(&lt.right);
    assert_eq!(add.op, Operator::Plus);
    assert_eq!(binary(&add.right).op, Operator::Mod);
}

#[test]
fn parse_unary_prefixes() {
    let stmts = program("!-x;");
    match expression_of(&stmts[0]) {
        Expression::Unary(u) => {
            assert_eq!(u.op, Operator::Not);
            match &*u.right {
                Expression::Unary(inner) => {
                    assert_eq!(inner.op, Operator::Minus);
                    assert_eq!(*inner.right, variable("x"));
                }
                other => panic!("not a unary expression: {:?}", other),
            }
        }
        other => panic!("not a unary expression: {:?}", other),
    }
}

#[test]
fn parse_grouping() {
    let stmts = program("(a + b) * c;");
    let top = binary(expression_of(&stmts[0]));
    assert_eq!(top.op, Operator::Multiply);
    match &*top.left {
        Expression::Grouping(g) => assert_eq!(binary(g).op, Operator::Plus),
        other => panic!("not a grouping: {:?}", other),
    }
}

#[test]
fn parse_constructor_arguments() {
    let stmts = program("vec4 c = vec4(1, x, 0.5, \"s\");");
    match &stmts[0] {
        Statement::Declaration(d) => {
            assert_eq!(d.name, "c");
            match d.init.as_ref().unwrap() {
                Expression::Constructor(k) => {
                    assert_eq!(
                        k.parameters,
                        vec![
                            Expression::Number("1".to_string()),
                            variable("x"),
                            Expression::Number("0.5".to_string()),
                            Expression::Stringy("s".to_string()),
                        ]
                    );
                }
                other => panic!("not a constructor: {:?}", other),
            }
        }
        other => panic!("not a declaration: {:?}", other),
    }
    let empty = program("x = vec4();");
    let assign = binary(expression_of(&empty[0]));
    assert!(matches!(&*assign.right, Expression::Constructor(k) if k.parameters.is_empty()));
    assert_eq!(parse_source("x = vec4(1 2);"), Err(Error::Parse(ParseError::ExpectedCloseParen)));
    assert_eq!(parse_source("x = vec4 1;"), Err(Error::Parse(ParseError::ExpectedOpenParen)));
    assert_eq!(parse_source("vec4();"), Err(Error::Parse(ParseError::ExpectedIdentifier)));
    assert_eq!(parse_source("vec4 1;"), Err(Error::Parse(ParseError::ExpectedIdentifier)));
}

#[test]
fn parse_calls() {
    let stmts = program("f(); g(a);");
    match expression_of(&stmts[0]) {
        Expression::Call(c) => {
            assert_eq!(*c.func, variable("f"));
            assert!(c.parameters.is_empty());
        }
        other => panic!("not a call: {:?}", other),
    }
    match expression_of(&stmts[1]) {
        Expression::Call(c) => assert_eq!(c.parameters, vec![variable("a")]),
        other => panic!("not a call: {:?}", other),
    }
    assert_eq!(parse_source("f(a, b);"), Err(Error::Parse(ParseError::UnsupportedArguments)));
    assert_eq!(parse_source("f(a;"), Err(Error::Parse(ParseError::ExpectedCloseParen)));
}

#[test]
fn parse_member_without_call() {
    let stmts = program("a:b;");
    match expression_of(&stmts[0]) {
        Expression::Member(m) => assert_eq!((m.value1.as_str(), m.value2.as_str()), ("a", "b")),
        other => panic!("not a member: {:?}", other),
    }
    assert_eq!(parse_source("a:1;"), Err(Error::Parse(ParseError::ExpectedIdentifier)));
}

#[test]
fn parse_declarations() {
    let stmts = program("in in float a; vec3 b = c + 1;");
    match &stmts[0] {
        Statement::Declaration(d) => {
            assert_eq!(d.name, "a");
            assert!(d.init.is_none());
        }
        other => panic!("not a declaration: {:?}", other),
    }
    match &stmts[1] {
        Statement::Declaration(d) => assert_eq!(binary(d.init.as_ref().unwrap()).op, Operator::Plus),
        other => panic!("not a declaration: {:?}", other),
    }
    assert_eq!(parse_source("in x;"), Err(Error::Parse(ParseError::ExpectedDeclaration)));
    assert_eq!(parse_source("float 1;"), Err(Error::Parse(ParseError::ExpectedIdentifier)));
    assert_eq!(parse_source("float a + 1;"), Err(Error::Parse(ParseError::ExpectedAssignOperator)));
    assert_eq!(parse_source("float a = 1"), Err(Error::Parse(ParseError::ExpectedSemicolon)));
}

#[test]
fn parse_function_declaration() {
    let stmts = program("void main() { x; y; }");
    match &stmts[0] {
        Statement::Function(f) => {
            assert!(f.parameters.is_empty());
            assert_eq!(f.block.statements.len(), 2);
        }
        other => panic!("not a function: {:?}", other),
    }
    assert_eq!(parse_source("void main(a) { }"), Err(Error::Parse(ParseError::UnsupportedParameters)));
    assert_eq!(parse_source("void main() x;"), Err(Error::Parse(ParseError::ExpectedOpenCurly)));
}

#[test]
fn parse_preprocessor_directive() {
    let stmts = program("#version x;");
    assert_eq!(stmts.len(), 2);
    match &stmts[0] {
        Statement::PreprocessorDirective(p) => {
            assert_eq!(p.name, "version");
            assert!(p.parameters.is_empty());
        }
        other => panic!("not a directive: {:?}", other),
    }
}

#[test]
fn parse_statement_errors() {
    assert_eq!(parse_source("x"), Err(Error::Parse(ParseError::ExpectedSemicolon)));
    assert_eq!(parse_source("if x"), Err(Error::Parse(ParseError::ExpectedOpenParen)));
    assert_eq!(parse_source("if (x { }"), Err(Error::Parse(ParseError::ExpectedCloseParen)));
    assert_eq!(parse_source("{ x;"), Err(Error::Parse(ParseError::UnexpectedToken)));
    assert_eq!(parse_source(";"), Err(Error::Parse(ParseError::UnexpectedToken)));
}

#[test]
fn parse_stops_at_first_eof_token() {
    let tokens = vec![Token::Identifier("a".to_string()), Token::Semicolon, Token::Eof, Token::Comma];
    assert_eq!(parse(tokens).unwrap().len(), 1);
    assert_eq!(parse(vec![]).unwrap().len(), 0);
}

#[test]
fn parse_source_reports_lexical_errors() {
    assert_eq!(parse_source("a = 1.2.3;"), Err(Error::Lex(LexError::MalformedNumber)));
    assert_eq!(parse_source("a = b $ c;"), Err(Error::Lex(LexError::UnexpectedCharacter('$'))));
}

#[test]
fn parser_cursor_reads_past_end_as_eof() {
    let mut state = kong::parser::State { tokens: vec![Token::Comma, Token::Identifier("n".to_string())], index: 0 };
    assert_eq!(state.current(), Token::Comma);
    state.advance();
    assert_eq!(state.current(), Token::Identifier("n".to_string()));
    state.advance();
    assert_eq!(state.current(), Token::Eof);
}

#[test]
fn duplicate_keeps_the_token() {
    let t = Token::Stringy("abc".to_string());
    assert_eq!(t.duplicate(), t);
}
