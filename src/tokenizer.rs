use vstd::prelude::*;
use vstd::string::StrSliceExecFns;
use crate::token::{Operator, Token, TokenModel, tokens_model};
use crate::util::{
    at, digit, is_num, is_whitespace, keyword_model, mode_of, push_attribute, push_identifier,
    push_token, select_mode, space, word_char, is_letter, Mode, State,
};

verus! {

/// Why a source text cannot be tokenized.
#[derive(Clone, Copy, Debug, PartialEq, Eq, Structural)]
pub enum LexError {
    /// A number literal with more than one decimal point.
    MalformedNumber,
    /// A character that starts no token.
    UnexpectedCharacter(char),
    /// A string literal without its closing quote.
    UnterminatedString,
    /// A block comment without its closing delimiter.
    UnterminatedComment,
    /// An operator character that forms no operator here (a lone `&` or `|`).
    UnknownOperator(char),
}

/// The runs of characters that the tokenizer skips over.
#[derive(Clone, Copy, Debug, PartialEq, Eq, Structural)]
pub enum Scan {
    /// Identifier characters.
    Word,
    /// Digits and decimal points.
    Numeral,
    /// Everything up to a double quote.
    Quote,
    /// Everything up to a line feed.
    LineEnd,
    /// Everything up to `*/`.
    CommentClose,
}

/// Whether a run of the given kind ends at position `j`.
pub open spec fn stops(s: Seq<char>, j: int, k: Scan) -> bool {
    match k {
        Scan::Word => !word_char(s[j]),
        Scan::Numeral => !(digit(s[j]) || s[j] == '.'),
        Scan::Quote => s[j] == '"',
        Scan::LineEnd => s[j] == '\n',
        Scan::CommentClose => s[j] == '*' && at(s, j + 1) == Some('/'),
    }
}

/// The first position at or after `i` where a run of kind `k` ends, or the end of `s`.
pub open spec fn scan(s: Seq<char>, i: int, k: Scan) -> int
    decreases s.len() - i,
{
    if 0 <= i < s.len() && !stops(s, i, k) {
        scan(s, i + 1, k)
    } else {
        i
    }
}

pub proof fn lemma_scan_bounds(s: Seq<char>, i: int, k: Scan)
    ensures
        i <= scan(s, i, k),
        i <= s.len() ==> scan(s, i, k) <= s.len(),
        0 <= i ==> (scan(s, i, k) < s.len() ==> stops(s, scan(s, i, k), k)),
    decreases s.len() - i,
{
    if 0 <= i < s.len() && !stops(s, i, k) {
        lemma_scan_bounds(s, i + 1, k);
    }
}

/// The number of decimal points in `w`.
pub open spec fn dots(w: Seq<char>) -> nat
    decreases w.len(),
{
    if w.len() == 0 {
        0
    } else {
        dots(w.drop_last()) + if w.last() == '.' {
            1nat
        } else {
            0nat
        }
    }
}

/// The two-character operators.
pub open spec fn op_pair(c: char, n: Option<char>) -> Option<Operator> {
    match n {
        Some(d) => if c == '=' && d == '=' {
            Some(Operator::Equals)
        } else if c == '!' && d == '=' {
            Some(Operator::NotEquals)
        } else if c == '&' && d == '&' {
            Some(Operator::And)
        } else if c == '|' && d == '|' {
            Some(Operator::Or)
        } else if c == '<' && d == '=' {
            Some(Operator::LessEqual)
        } else if c == '>' && d == '=' {
            Some(Operator::GreaterEqual)
        } else {
            None
        },
        None => None,
    }
}

/// The one-character operators.
pub open spec fn op_single(c: char) -> Option<Operator> {
    if c == '=' {
        Some(Operator::Assign)
    } else if c == '!' {
        Some(Operator::Not)
    } else if c == '<' {
        Some(Operator::Less)
    } else if c == '>' {
        Some(Operator::Greater)
    } else if c == '+' {
        Some(Operator::Plus)
    } else if c == '-' {
        Some(Operator::Minus)
    } else if c == '*' {
        Some(Operator::Multiply)
    } else if c == '/' {
        Some(Operator::Div)
    } else if c == '%' {
        Some(Operator::Mod)
    } else {
        None
    }
}

pub open spec fn punct(c: char) -> Option<TokenModel> {
    if c == '{' {
        Some(TokenModel::LeftCurly)
    } else if c == '}' {
        Some(TokenModel::RightCurly)
    } else if c == '(' {
        Some(TokenModel::LeftParen)
    } else if c == ')' {
        Some(TokenModel::RightParen)
    } else if c == ':' {
        Some(TokenModel::Colon)
    } else if c == ';' {
        Some(TokenModel::Semicolon)
    } else if c == ',' {
        Some(TokenModel::Comma)
    } else {
        None
    }
}

/// `t` in front of a successful result; an error unchanged.
pub open spec fn prepend(t: TokenModel, r: Result<Seq<TokenModel>, LexError>) -> Result<
    Seq<TokenModel>,
    LexError,
> {
    match r {
        Ok(rest) => Ok(seq![t] + rest),
        Err(e) => Err(e),
    }
}

/// `pre` in front of a successful result; an error unchanged.
pub open spec fn prepend_all(pre: Seq<TokenModel>, r: Result<Seq<TokenModel>, LexError>) -> Result<
    Seq<TokenModel>,
    LexError,
> {
    match r {
        Ok(rest) => Ok(pre + rest),
        Err(e) => Err(e),
    }
}

/// The tokens of `s` from position `i` on, ending with one end-of-input token.
pub open spec fn lex_from(s: Seq<char>, i: int) -> Result<Seq<TokenModel>, LexError>
    decreases s.len() - i,
    when 0 <= i <= s.len()
    via lex_from_decreases
{
    if i >= s.len() {
        Ok(seq![TokenModel::Eof])
    } else {
        let c = s[i];
        let n = at(s, i + 1);
        match mode_of(c, n) {
            Mode::Attribute => {
                let j = scan(s, i + 1, Scan::Word);
                prepend(TokenModel::Attribute(s.subrange(i + 1, j)), lex_from(s, j))
            },
            Mode::Number => {
                let j = scan(s, i + 1, Scan::Numeral);
                let w = s.subrange(i, j);
                if dots(w) <= 1 {
                    prepend(TokenModel::Number(w), lex_from(s, j))
                } else {
                    Err(LexError::MalformedNumber)
                }
            },
            Mode::Stringy => {
                let j = scan(s, i + 1, Scan::Quote);
                if j < s.len() {
                    prepend(TokenModel::Stringy(s.subrange(i + 1, j)), lex_from(s, j + 1))
                } else {
                    Err(LexError::UnterminatedString)
                }
            },
            Mode::LineComment => lex_from(s, scan(s, i + 2, Scan::LineEnd)),
            Mode::Comment => {
                let j = scan(s, i + 2, Scan::CommentClose);
                if j < s.len() {
                    lex_from(s, j + 2)
                } else {
                    Err(LexError::UnterminatedComment)
                }
            },
            Mode::Operator => match op_pair(c, n) {
                Some(op) => prepend(TokenModel::Operator(op), lex_from(s, i + 2)),
                None => match op_single(c) {
                    Some(op) => prepend(TokenModel::Operator(op), lex_from(s, i + 1)),
                    None => Err(LexError::UnknownOperator(c)),
                },
            },
            Mode::Identifier => {
                let j = scan(s, i + 1, Scan::Word);
                prepend(keyword_model(s.subrange(i, j)), lex_from(s, j))
            },
            Mode::Select => if space(c) {
                lex_from(s, i + 1)
            } else {
                match punct(c) {
                    Some(t) => prepend(t, lex_from(s, i + 1)),
                    None => Err(LexError::UnexpectedCharacter(c)),
                }
            },
        }
    }
}

#[via_fn]
proof fn lex_from_decreases(s: Seq<char>, i: int) {
    if 0 <= i < s.len() {
        lemma_scan_bounds(s, i + 1, Scan::Word);
        lemma_scan_bounds(s, i + 1, Scan::Numeral);
        lemma_scan_bounds(s, i + 1, Scan::Quote);
        if i + 2 <= s.len() {
            lemma_scan_bounds(s, i + 2, Scan::LineEnd);
            lemma_scan_bounds(s, i + 2, Scan::CommentClose);
        }
    }
}

/// The tokens of a whole source text.
pub open spec fn lex(s: Seq<char>) -> Result<Seq<TokenModel>, LexError> {
    lex_from(s, 0)
}

/// The model of a tokenizer result.
pub open spec fn lexed(r: Result<Vec<Token>, LexError>) -> Result<Seq<TokenModel>, LexError> {
    match r {
        Ok(v) => Ok(tokens_model(v@)),
        Err(e) => Err(e),
    }
}

proof fn lemma_prepend_push(pre: Seq<TokenModel>, t: TokenModel, r: Result<Seq<TokenModel>, LexError>)
    ensures
        prepend_all(pre.push(t), r) == prepend_all(pre, prepend(t, r)),
{
    if let Ok(rest) = r {
        assert(pre.push(t) + rest =~= pre + (seq![t] + rest));
    }
}

/// Whether the run of kind `k` goes on at the cursor.
fn run_continues(state: &State, k: Scan) -> (r: bool)
    requires
        state.wf(),
    ensures
        r == (state.pos < state.len && !stops(state.source@, state.pos as int, k)),
{
    match state.next {
        None => false,
        Some(c) => match k {
            Scan::Word => is_num(c) || is_letter(c),
            Scan::Numeral => is_num(c) || c == '.',
            Scan::Quote => c != '"',
            Scan::LineEnd => c != '\n',
            Scan::CommentClose => !(c == '*' && state.next_next == Some('/')),
        },
    }
}

/// Moves the cursor to where the run of kind `k` that starts at it ends.
fn scan_run(state: &mut State, k: Scan)
    requires
        old(state).wf(),
    ensures
        final(state).wf(),
        final(state).source == old(state).source,
        final(state).pos == scan(old(state).source@, old(state).pos as int, k),
        final(state).pos >= old(state).pos,
{
    let ghost start = state.pos as int;
    let mut go = run_continues(state, k);
    while go
        invariant
            state.wf(),
            state.source == old(state).source,
            scan(state.source@, state.pos as int, k) == scan(state.source@, start, k),
            go == (state.pos < state.len && !stops(state.source@, state.pos as int, k)),
            state.pos >= start,
        decreases state.len - state.pos,
    {
        state.advance();
        go = run_continues(state, k);
    }
}

/// The number of decimal points in `w`.
fn count_dots(w: &str) -> (r: usize)
    ensures
        r == dots(w@),
{
    let n = w.unicode_len();
    let mut i: usize = 0;
    let mut count: usize = 0;
    while i < n
        invariant
            n == w@.len(),
            i <= n,
            count == dots(w@.subrange(0, i as int)),
            count <= i,
        decreases n - i,
    {
        assert(w@.subrange(0, i + 1).drop_last() =~= w@.subrange(0, i as int));
        if w.get_char(i) == '.' {
            count = count + 1;
        }
        i = i + 1;
    }
    assert(w@ =~= w@.subrange(0, n as int));
    count
}

fn operator_pair(c: char, n: Option<char>) -> (r: Option<Operator>)
    ensures
        r == op_pair(c, n),
{
    match n {
        Some(d) => if c == '=' && d == '=' {
            Some(Operator::Equals)
        } else if c == '!' && d == '=' {
            Some(Operator::NotEquals)
        } else if c == '&' && d == '&' {
            Some(Operator::And)
        } else if c == '|' && d == '|' {
            Some(Operator::Or)
        } else if c == '<' && d == '=' {
            Some(Operator::LessEqual)
        } else if c == '>' && d == '=' {
            Some(Operator::GreaterEqual)
        } else {
            None
        },
        None => None,
    }
}

fn operator_single(c: char) -> (r: Option<Operator>)
    ensures
        r == op_single(c),
{
    if c == '=' {
        Some(Operator::Assign)
    } else if c == '!' {
        Some(Operator::Not)
    } else if c == '<' {
        Some(Operator::Less)
    } else if c == '>' {
        Some(Operator::Greater)
    } else if c == '+' {
        Some(Operator::Plus)
    } else if c == '-' {
        Some(Operator::Minus)
    } else if c == '*' {
        Some(Operator::Multiply)
    } else if c == '/' {
        Some(Operator::Div)
    } else if c == '%' {
        Some(Operator::Mod)
    } else {
        None
    }
}

fn punctuation(c: char) -> (r: Option<Token>)
    ensures
        match r {
            Some(t) => punct(c) == Some(t@),
            None => punct(c) is None,
        },
{
    if c == '{' {
        Some(Token::LeftCurly)
    } else if c == '}' {
        Some(Token::RightCurly)
    } else if c == '(' {
        Some(Token::LeftParen)
    } else if c == ')' {
        Some(Token::RightParen)
    } else if c == ':' {
        Some(Token::Colon)
    } else if c == ';' {
        Some(Token::Semicolon)
    } else if c == ',' {
        Some(Token::Comma)
    } else {
        None
    }
}

/// Splits a source text into tokens, ending with one end-of-input token.
///
/// The result is exactly `lex(source@)`: the token sequence when every
/// character is accounted for, or the first lexical error met.
pub fn tokenize(source: &str) -> (r: Result<Vec<Token>, LexError>)
    ensures
        lexed(r) == lex(source@),
{
    let mut state = State::new(source);
    let mut tokens: Vec<Token> = Vec::new();
    proof {
        assert(tokens_model(tokens@) =~= Seq::<TokenModel>::empty());
        assert(Seq::<TokenModel>::empty() + lex_from(source@, 0)->Ok_0 =~= lex_from(source@, 0)->Ok_0);
    }
    while state.pos < state.len
        invariant
            state.wf(),
            state.source == source,
            lex(source@) == prepend_all(tokens_model(tokens@), lex_from(source@, state.pos as int)),
        decreases state.len - state.pos,
    {
        let ghost s = source@;
        let ghost i = state.pos as int;
        let ghost pre = tokens_model(tokens@);
        let c = source.get_char(state.pos);
        let n = state.next_next;
        assert(state.next == Some(c));
        match select_mode(c, n) {
            Mode::Attribute => {
                state.advance();
                let start = state.pos;
                scan_run(&mut state, Scan::Word);
                proof { lemma_scan_bounds(s, i + 1, Scan::Word); }
                let text = source.substring_char(start, state.pos);
                push_attribute(&mut tokens, text);
                proof { lemma_prepend_push(pre, TokenModel::Attribute(text@), lex_from(s, state.pos as int)); }
            },
            Mode::Number => {
                let start = state.pos;
                state.advance();
                scan_run(&mut state, Scan::Numeral);
                proof { lemma_scan_bounds(s, i + 1, Scan::Numeral); }
                let text = source.substring_char(start, state.pos);
                if count_dots(text) > 1 {
                    return Err(LexError::MalformedNumber);
                }
                push_token(&mut tokens, Token::Number(text.to_owned()));
                proof { lemma_prepend_push(pre, TokenModel::Number(text@), lex_from(s, state.pos as int)); }
            },
            Mode::Stringy => {
                state.advance();
                let start = state.pos;
                scan_run(&mut state, Scan::Quote);
                proof { lemma_scan_bounds(s, i + 1, Scan::Quote); }
                if state.pos >= state.len {
                    return Err(LexError::UnterminatedString);
                }
                let text = source.substring_char(start, state.pos);
                state.advance();
                push_token(&mut tokens, Token::Stringy(text.to_owned()));
                proof { lemma_prepend_push(pre, TokenModel::Stringy(text@), lex_from(s, state.pos as int)); }
            },
            Mode::LineComment => {
                state.advance();
                state.advance();
                scan_run(&mut state, Scan::LineEnd);
            },
            Mode::Comment => {
                state.advance();
                state.advance();
                scan_run(&mut state, Scan::CommentClose);
                proof { lemma_scan_bounds(s, i + 2, Scan::CommentClose); }
                if state.pos >= state.len {
                    return Err(LexError::UnterminatedComment);
                }
                state.advance();
                state.advance();
            },
            Mode::Operator => {
                match operator_pair(c, n) {
                    Some(op) => {
                        state.advance();
                        state.advance();
                        push_token(&mut tokens, Token::Operator(op));
                        proof { lemma_prepend_push(pre, TokenModel::Operator(op), lex_from(s, i + 2)); }
                    },
                    None => match operator_single(c) {
                        Some(op) => {
                            state.advance();
                            push_token(&mut tokens, Token::Operator(op));
                            proof { lemma_prepend_push(pre, TokenModel::Operator(op), lex_from(s, i + 1)); }
                        },
                        None => {
                            return Err(LexError::UnknownOperator(c));
                        },
                    },
                }
            },
            Mode::Identifier => {
                let start = state.pos;
                state.advance();
                scan_run(&mut state, Scan::Word);
                proof { lemma_scan_bounds(s, i + 1, Scan::Word); }
                let text = source.substring_char(start, state.pos);
                push_identifier(&mut tokens, text);
                proof { lemma_prepend_push(pre, keyword_model(text@), lex_from(s, state.pos as int)); }
            },
            Mode::Select => {
                if is_whitespace(c) {
                    state.advance();
                } else {
                    match punctuation(c) {
                        Some(t) => {
                            state.advance();
                            let ghost tm = t@;
                            push_token(&mut tokens, t);
                            proof { lemma_prepend_push(pre, tm, lex_from(s, i + 1)); }
                        },
                        None => {
                            return Err(LexError::UnexpectedCharacter(c));
                        },
                    }
                }
            },
        }
    }
    let ghost pre = tokens_model(tokens@);
    push_token(&mut tokens, Token::Eof);
    proof { lemma_prepend_push(pre, TokenModel::Eof, Ok(Seq::<TokenModel>::empty())); 
        assert(seq![TokenModel::Eof] + Seq::<TokenModel>::empty() =~= seq![TokenModel::Eof]);
        assert(pre.push(TokenModel::Eof) + Seq::<TokenModel>::empty() =~= pre.push(TokenModel::Eof));
    }
    Ok(tokens)
}

} // verus!
