use vstd::prelude::*;
use vstd::string::StrSliceExecFns;
use crate::token::{Token, TokenModel, tokens_model};

verus! {

pub open spec fn digit(c: char) -> bool {
    '0' <= c <= '9'
}

pub open spec fn letter(c: char) -> bool {
    ('a' <= c <= 'z') || ('A' <= c <= 'Z') || c == '_'
}

/// Characters that may continue an identifier or an attribute name.
pub open spec fn word_char(c: char) -> bool {
    letter(c) || digit(c)
}

pub open spec fn op_char(c: char) -> bool {
    c == '&' || c == '|' || c == '+' || c == '-' || c == '*' || c == '/' || c == '=' || c == '!'
        || c == '<' || c == '>' || c == '%'
}

pub open spec fn space(c: char) -> bool {
    c == ' ' || c == '\n' || c == '\r' || c == '\t'
}

/// The character at `i`, if there is one.
pub open spec fn at(s: Seq<char>, i: int) -> Option<char> {
    if 0 <= i < s.len() {
        Some(s[i])
    } else {
        None
    }
}

pub fn is_num(ch: char) -> (r: bool)
    ensures
        r == digit(ch),
{
    ch == '0' || ch == '1' || ch == '2' || ch == '3' || ch == '4' || ch == '5' || ch == '6'
        || ch == '7' || ch == '8' || ch == '9'
}

pub fn is_op(ch: char) -> (r: bool)
    ensures
        r == op_char(ch),
{
    ch == '&' || ch == '|' || ch == '+' || ch == '-' || ch == '*' || ch == '/' || ch == '='
        || ch == '!' || ch == '<' || ch == '>' || ch == '%'
}

pub fn is_whitespace(ch: char) -> (r: bool)
    ensures
        r == space(ch),
{
    ch == ' ' || ch == '\n' || ch == '\r' || ch == '\t'
}

pub fn is_letter(ch: char) -> (r: bool)
    ensures
        r == letter(ch),
{
    ('a' <= ch && ch <= 'z') || ('A' <= ch && ch <= 'Z') || ch == '_'
}

/// The token that a word stands for: a reserved word's own token, else an identifier.
pub open spec fn keyword_model(w: Seq<char>) -> TokenModel {
    if w == "true"@ {
        TokenModel::Boolean(true)
    } else if w == "false"@ {
        TokenModel::Boolean(false)
    } else if w == "if"@ {
        TokenModel::If
    } else if w == "float"@ {
        TokenModel::Float
    } else if w == "in"@ {
        TokenModel::In
    } else if w == "vec3"@ {
        TokenModel::Vec3
    } else if w == "vec4"@ {
        TokenModel::Vec4
    } else if w == "void"@ {
        TokenModel::Void
    } else if w == "struct"@ {
        TokenModel::Struct
    } else if w == "fn"@ {
        TokenModel::Function
    } else if w == "let"@ {
        TokenModel::Let
    } else if w == "mut"@ {
        TokenModel::Mut
    } else {
        TokenModel::Identifier(w)
    }
}

/// Whether two strings hold the same characters.
pub fn same_text(a: &str, b: &str) -> (r: bool)
    ensures
        r == (a@ == b@),
{
    let n = a.unicode_len();
    if n != b.unicode_len() {
        return false;
    }
    let mut i: usize = 0;
    while i < n
        invariant
            n == a@.len(),
            n == b@.len(),
            i <= n,
            a@.subrange(0, i as int) == b@.subrange(0, i as int),
        decreases n - i,
    {
        if a.get_char(i) != b.get_char(i) {
            return false;
        }
        assert(a@.subrange(0, i + 1) =~= a@.subrange(0, i as int).push(a@[i as int]));
        assert(b@.subrange(0, i + 1) =~= b@.subrange(0, i as int).push(b@[i as int]));
        i = i + 1;
    }
    assert(a@ =~= a@.subrange(0, n as int));
    assert(b@ =~= b@.subrange(0, n as int));
    true
}

/// Appends the token of a word: a reserved word, a boolean literal or an identifier.
pub fn push_identifier(tokens: &mut Vec<Token>, buffer: &str)
    ensures
        tokens_model(final(tokens)@) == tokens_model(old(tokens)@).push(keyword_model(buffer@)),
{
    let t = if same_text(buffer, "true") {
        Token::Boolean(true)
    } else if same_text(buffer, "false") {
        Token::Boolean(false)
    } else if same_text(buffer, "if") {
        Token::If
    } else if same_text(buffer, "float") {
        Token::Float
    } else if same_text(buffer, "in") {
        Token::In
    } else if same_text(buffer, "vec3") {
        Token::Vec3
    } else if same_text(buffer, "vec4") {
        Token::Vec4
    } else if same_text(buffer, "void") {
        Token::Void
    } else if same_text(buffer, "struct") {
        Token::Struct
    } else if same_text(buffer, "fn") {
        Token::Function
    } else if same_text(buffer, "let") {
        Token::Let
    } else if same_text(buffer, "mut") {
        Token::Mut
    } else {
        Token::Identifier(buffer.to_owned())
    };
    push_token(tokens, t);
}

/// Appends an attribute token holding `buffer`.
pub fn push_attribute(tokens: &mut Vec<Token>, buffer: &str)
    ensures
        tokens_model(final(tokens)@) == tokens_model(old(tokens)@).push(
            TokenModel::Attribute(buffer@),
        ),
{
    push_token(tokens, Token::Attribute(buffer.to_owned()));
}

pub fn push_token(tokens: &mut Vec<Token>, t: Token)
    ensures
        final(tokens)@ == old(tokens)@.push(t),
        tokens_model(final(tokens)@) == tokens_model(old(tokens)@).push(t@),
{
    tokens.push(t);
    assert(tokens_model(tokens@) =~= tokens_model(old(tokens)@).push(t@));
}

/// What the character under the cursor starts.
#[derive(Clone, Copy, Debug, PartialEq, Eq, Structural)]
pub enum Mode {
    /// Between tokens: whitespace, punctuation, or a character that starts nothing.
    Select,
    Number,
    Stringy,
    Operator,
    Identifier,
    LineComment,
    Comment,
    Attribute,
}

pub open spec fn mode_of(c: char, next: Option<char>) -> Mode {
    if c == '#' {
        Mode::Attribute
    } else if digit(c) {
        Mode::Number
    } else if c == '"' {
        Mode::Stringy
    } else if c == '/' && next == Some('/') {
        Mode::LineComment
    } else if c == '/' && next == Some('*') {
        Mode::Comment
    } else if op_char(c) {
        Mode::Operator
    } else if letter(c) {
        Mode::Identifier
    } else {
        Mode::Select
    }
}

/// Classifies a character, given the one after it.
pub fn select_mode(ch: char, next: Option<char>) -> (m: Mode)
    ensures
        m == mode_of(ch, next),
{
    if ch == '#' {
        Mode::Attribute
    } else if is_num(ch) {
        Mode::Number
    } else if ch == '"' {
        Mode::Stringy
    } else if ch == '/' && next == Some('/') {
        Mode::LineComment
    } else if ch == '/' && next == Some('*') {
        Mode::Comment
    } else if is_op(ch) {
        Mode::Operator
    } else if is_letter(ch) {
        Mode::Identifier
    } else {
        Mode::Select
    }
}

/// A cursor over the characters of a source text, with a window of two characters.
pub struct State<'a> {
    pub source: &'a str,
    pub len: usize,
    pub pos: usize,
    pub next: Option<char>,
    pub next_next: Option<char>,
}

impl<'a> State<'a> {
    pub open spec fn wf(&self) -> bool {
        &&& self.len == self.source@.len()
        &&& self.pos <= self.len
        &&& self.next == at(self.source@, self.pos as int)
        &&& self.next_next == at(self.source@, self.pos + 1)
    }

    fn char_at(source: &str, len: usize, i: usize) -> (r: Option<char>)
        requires
            len == source@.len(),
        ensures
            r == at(source@, i as int),
    {
        if i < len {
            Some(source.get_char(i))
        } else {
            None
        }
    }

    pub fn new(source: &'a str) -> (r: State<'a>)
        ensures
            r.wf(),
            r.source == source,
            r.pos == 0,
    {
        let len = source.unicode_len();
        let next = Self::char_at(source, len, 0);
        let next_next = Self::char_at(source, len, 1);
        State { source, len, pos: 0, next, next_next }
    }

    pub fn advance(&mut self)
        requires
            old(self).wf(),
            old(self).pos < old(self).len,
        ensures
            final(self).wf(),
            final(self).source == old(self).source,
            final(self).pos == old(self).pos + 1,
    {
        self.next = self.next_next;
        self.pos = self.pos + 1;
        if self.pos < self.len {
            self.next_next = Self::char_at(self.source, self.len, self.pos + 1);
        } else {
            self.next_next = None;
        }
    }
}

} // verus!
