use kong::token::{Operator, Token};
use kong::tokenizer::{tokenize, LexError};
use kong::util::{is_num, is_op, is_whitespace, push_attribute, push_identifier, select_mode, Mode, State};

fn ident(s: &str) -> Token {
    Token::Identifier(s.to_string())
}

#[test]
fn tokenize_vec3_declaration() {
    let tokens = tokenize("vec3 x = 1.5;").unwrap();
    assert_eq!(
        tokens,
        vec![
            Token::Vec3,
            ident("x"),
            Token::Operator(Operator::Assign),
            Token::Number("1.5".to_string()),
            Token::Semicolon,
            Token::Eof,
        ]
    );
}

#[test]
fn tokenize_twice_gives_equal_tokens() {
    let source = "#version\nin vec4 pos;\nvoid main() { if (a <= b && !c) { x = vec4(1, 2.5); } }";
    let first = tokenize(source).unwrap();
    let second = tokenize(source).unwrap();
    assert_eq!(first, second);
    assert!(first.len() > 10);
}

#[test]
fn tokenize_empty_source_is_only_eof() {
    assert_eq!(tokenize("").unwrap(), vec![Token::Eof]);
    assert_eq!(tokenize(" \t\r\n ").unwrap(), vec![Token::Eof]);
}

#[test]
fn tokenize_ends_with_exactly_one_eof() {
    let tokens = tokenize("a; b; // trailing comment").unwrap();
    assert_eq!(tokens.last(), Some(&Token::Eof));
    assert_eq!(tokens.iter().filter(|t| **t == Token::Eof).count(), 1);
}

#[test]
fn tokenize_reserved_words() {
    let tokens = tokenize("true false if float in vec3 vec4 void struct fn let mut other").unwrap();
    assert_eq!(
        tokens,
        vec![
            Token::Boolean(true),
            Token::Boolean(false),
            Token::If,
            Token::Float,
            Token::In,
            Token::Vec3,
            Token::Vec4,
            Token::Void,
            Token::Struct,
            Token::Function,
            Token::Let,
            Token::Mut,
            ident("other"),
            Token::Eof,
        ]
    );
}

#[test]
fn tokenize_identifiers_with_digits_and_underscores() {
    assert_eq!(tokenize("_a1 b_2").unwrap(), vec![ident("_a1"), ident("b_2"), Token::Eof]);
    assert_eq!(tokenize("truex").unwrap(), vec![ident("truex"), Token::Eof]);
}

#[test]
fn tokenize_operators() {
    let tokens = tokenize("= == ! != && || < <= > >= + - * / %").unwrap();
    let ops: Vec<Operator> = tokens
        .iter()
        .filter_map(|t| match t {
            Token::Operator(op) => Some(*op),
            _ => None,
        })
        .collect();
    assert_eq!(
        ops,
        vec![
            Operator::Assign,
            Operator::Equals,
            Operator::Not,
            Operator::NotEquals,
            Operator::And,
            Operator::Or,
            Operator::Less,
            Operator::LessEqual,
            Operator::Greater,
            Operator::GreaterEqual,
            Operator::Plus,
            Operator::Minus,
            Operator::Multiply,
            Operator::Div,
            Operator::Mod,
        ]
    );
    assert_eq!(tokens.len(), 16);
}

#[test]
fn tokenize_operators_without_spaces() {
    assert_eq!(
        tokenize("a<=-b").unwrap(),
        vec![
            ident("a"),
            Token::Operator(Operator::LessEqual),
            Token::Operator(Operator::Minus),
            ident("b"),
            Token::Eof,
        ]
    );
}

#[test]
fn tokenize_punctuation() {
    assert_eq!(
        tokenize("{}():;,").unwrap(),
        vec![
            Token::LeftCurly,
            Token::RightCurly,
            Token::LeftParen,
            Token::RightParen,
            Token::Colon,
            Token::Semicolon,
            Token::Comma,
            Token::Eof,
        ]
    );
}

#[test]
fn tokenize_string_and_attribute() {
    assert_eq!(
        tokenize("#pipe \"hello world\"").unwrap(),
        vec![
            Token::Attribute("pipe".to_string()),
            Token::Stringy("hello world".to_string()),
            Token::Eof,
        ]
    );
}

#[test]
fn tokenize_skips_comments() {
    assert_eq!(
        tokenize("a // one\n/* two\n three */ b /**/").unwrap(),
        vec![ident("a"), ident("b"), Token::Eof]
    );
}

#[test]
fn tokenize_numbers() {
    assert_eq!(
        tokenize("42 0.25 7.").unwrap(),
        vec![
            Token::Number("42".to_string()),
            Token::Number("0.25".to_string()),
            Token::Number("7.".to_string()),
            Token::Eof,
        ]
    );
}

#[test]
fn tokenize_malformed_number() {
    assert_eq!(tokenize("x = 1.2.3;"), Err(LexError::MalformedNumber));
}

#[test]
fn tokenize_unexpected_character() {
    assert_eq!(tokenize("a @ b"), Err(LexError::UnexpectedCharacter('@')));
}

#[test]
fn tokenize_unterminated_string() {
    assert_eq!(tokenize("\"abc"), Err(LexError::UnterminatedString));
}

#[test]
fn tokenize_unterminated_comment() {
    assert_eq!(tokenize("a /* b *"), Err(LexError::UnterminatedComment));
}

#[test]
fn tokenize_lone_ampersand() {
    assert_eq!(tokenize("a & b"), Err(LexError::UnknownOperator('&')));
    assert_eq!(tokenize("a | b"), Err(LexError::UnknownOperator('|')));
}

#[test]
fn character_classes() {
    assert!(is_num('0') && is_num('9') && !is_num('a') && !is_num('.'));
    assert!(is_op('%') && is_op('&') && !is_op('#') && !is_op(';'));
    assert!(is_whitespace(' ') && is_whitespace('\t') && !is_whitespace('x'));
}

#[test]
fn modes_of_characters() {
    assert_eq!(select_mode('#', None), Mode::Attribute);
    assert_eq!(select_mode('3', Some('.')), Mode::Number);
    assert_eq!(select_mode('"', None), Mode::Stringy);
    assert_eq!(select_mode('/', Some('/')), Mode::LineComment);
    assert_eq!(select_mode('/', Some('*')), Mode::Comment);
    assert_eq!(select_mode('/', Some(' ')), Mode::Operator);
    assert_eq!(select_mode('k', None), Mode::Identifier);
    assert_eq!(select_mode(';', None), Mode::Select);
}

#[test]
fn push_identifier_classifies_words() {
    let mut tokens = vec![Token::Comma];
    push_identifier(&mut tokens, "vec4");
    push_identifier(&mut tokens, "false");
    push_identifier(&mut tokens, "color");
    push_attribute(&mut tokens, "name");
    assert_eq!(
        tokens,
        vec![
            Token::Comma,
            Token::Vec4,
            Token::Boolean(false),
            ident("color"),
            Token::Attribute("name".to_string()),
        ]
    );
}

#[test]
fn state_window_moves_by_one() {
    let mut state = State::new("ab");
    assert_eq!((state.next, state.next_next), (Some('a'), Some('b')));
    state.advance();
    assert_eq!((state.next, state.next_next), (Some('b'), None));
    state.advance();
    assert_eq!((state.next, state.next_next), (None, None));
}
