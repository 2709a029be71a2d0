use vstd::prelude::*;

pub mod token;
pub mod util;
pub mod tokenizer;
pub mod expression;
pub mod statement;
pub mod grammar;
pub mod parser;

use crate::token::{Token, TokenModel};
use crate::tokenizer::{
    LexError, Scan, lemma_scan_bounds, lex, lex_from, lexed, op_pair, op_single, prepend, punct,
    scan,
};
use crate::util::{Mode, at, keyword_model, mode_of, space};
use crate::grammar::{ParseError, advanced, cur, parse_program, parse_statement, program_from};
use crate::statement::{Statement, StmtModel, stmts_model};

verus! {

/// Why a source text is not a program.
#[derive(Clone, Copy, Debug, PartialEq, Eq, Structural)]
pub enum Error {
    Lex(LexError),
    Parse(ParseError),
}

/// What a source text's tokens and statements are, or the first error met.
pub open spec fn source_program(s: Seq<char>) -> Result<Seq<StmtModel>, Error> {
    match lex(s) {
        Ok(ts) => match parse_program(ts) {
            Ok(stmts) => Ok(stmts),
            Err(e) => Err(Error::Parse(e)),
        },
        Err(e) => Err(Error::Lex(e)),
    }
}

/// Tokenizes and parses a source text: all its top-level statements, or the
/// first error and no statement at all.
pub fn parse_source(source: &str) -> (r: Result<Vec<Statement>, Error>)
    ensures
        match r {
            Ok(v) => source_program(source@) == Ok::<Seq<StmtModel>, Error>(stmts_model(v@)),
            Err(e) => source_program(source@) == Err::<Seq<StmtModel>, Error>(e),
        },
{
    let tokens = match tokenizer::tokenize(source) {
        Ok(t) => t,
        Err(e) => return Err(Error::Lex(e)),
    };
    match parser::parse(tokens) {
        Ok(v) => Ok(v),
        Err(e) => Err(Error::Parse(e)),
    }
}

/// Tokenizing is deterministic: two results that each meet `tokenize`'s
/// contract for one source text are equal, token by token.
pub proof fn tokenize_is_deterministic(
    s: Seq<char>,
    a: Result<Vec<Token>, LexError>,
    b: Result<Vec<Token>, LexError>,
)
    requires
        lexed(a) == lex(s),
        lexed(b) == lex(s),
    ensures
        lexed(a) == lexed(b),
{
}

/// A token sequence that ends with the end-of-input token and holds no other.
pub open spec fn ends_with_one_eof(ts: Seq<TokenModel>) -> bool {
    &&& ts.len() >= 1
    &&& ts.last() == TokenModel::Eof
    &&& forall|k: int| 0 <= k < ts.len() - 1 ==> ts[k] != TokenModel::Eof
}

proof fn lemma_prepend_keeps_one_eof(t: TokenModel, r: Result<Seq<TokenModel>, LexError>)
    requires
        t != TokenModel::Eof,
        r is Ok ==> ends_with_one_eof(r->Ok_0),
    ensures
        prepend(t, r) is Ok ==> ends_with_one_eof(prepend(t, r)->Ok_0),
{
    if let Ok(rest) = r {
        let all = seq![t] + rest;
        assert(all.last() == rest.last());
        assert forall|k: int| 0 <= k < all.len() - 1 implies all[k] != TokenModel::Eof by {
            if k > 0 {
                assert(all[k] == rest[k - 1]);
            }
        }
    }
}

proof fn lemma_lex_from_one_eof(s: Seq<char>, i: int)
    requires
        0 <= i <= s.len(),
    ensures
        lex_from(s, i) is Ok ==> ends_with_one_eof(lex_from(s, i)->Ok_0),
    decreases s.len() - i,
{
    if i < s.len() {
        let c = s[i];
        let n = at(s, i + 1);
        lemma_scan_bounds(s, i + 1, Scan::Word);
        lemma_scan_bounds(s, i + 1, Scan::Numeral);
        lemma_scan_bounds(s, i + 1, Scan::Quote);
        match mode_of(c, n) {
            Mode::Attribute | Mode::Identifier => {
                let j = scan(s, i + 1, Scan::Word);
                lemma_lex_from_one_eof(s, j);
                if mode_of(c, n) == Mode::Attribute {
                    lemma_prepend_keeps_one_eof(TokenModel::Attribute(s.subrange(i + 1, j)), lex_from(s, j));
                } else {
                    lemma_prepend_keeps_one_eof(keyword_model(s.subrange(i, j)), lex_from(s, j));
                }
            },
            Mode::Number => {
                let j = scan(s, i + 1, Scan::Numeral);
                lemma_lex_from_one_eof(s, j);
                lemma_prepend_keeps_one_eof(TokenModel::Number(s.subrange(i, j)), lex_from(s, j));
            },
            Mode::Stringy => {
                let j = scan(s, i + 1, Scan::Quote);
                if j < s.len() {
                    lemma_lex_from_one_eof(s, j + 1);
                    lemma_prepend_keeps_one_eof(TokenModel::Stringy(s.subrange(i + 1, j)), lex_from(s, j + 1));
                }
            },
            Mode::LineComment => {
                lemma_scan_bounds(s, i + 2, Scan::LineEnd);
                lemma_lex_from_one_eof(s, scan(s, i + 2, Scan::LineEnd));
            },
            Mode::Comment => {
                lemma_scan_bounds(s, i + 2, Scan::CommentClose);
                let j = scan(s, i + 2, Scan::CommentClose);
                if j < s.len() {
                    lemma_lex_from_one_eof(s, j + 2);
                }
            },
            Mode::Operator => {
                match op_pair(c, n) {
                    Some(op) => {
                        lemma_lex_from_one_eof(s, i + 2);
                        lemma_prepend_keeps_one_eof(TokenModel::Operator(op), lex_from(s, i + 2));
                    },
                    None => {
                        lemma_lex_from_one_eof(s, i + 1);
                        if let Some(op) = op_single(c) {
                            lemma_prepend_keeps_one_eof(TokenModel::Operator(op), lex_from(s, i + 1));
                        }
                    },
                }
            },
            Mode::Select => {
                lemma_lex_from_one_eof(s, i + 1);
                if !space(c) {
                    if let Some(t) = punct(c) {
                        lemma_prepend_keeps_one_eof(t, lex_from(s, i + 1));
                    }
                }
            },
        }
    } else {
        assert(seq![TokenModel::Eof].last() == TokenModel::Eof);
    }
}

/// A tokenized source text ends with exactly one end-of-input token.
pub proof fn tokens_end_with_one_eof(s: Seq<char>)
    ensures
        lex(s) is Ok ==> ends_with_one_eof(lex(s)->Ok_0),
{
    lemma_lex_from_one_eof(s, 0);
}

/// Where the successive top-level statements from `p` on begin; the last
/// position is where parsing stopped.
pub open spec fn statement_starts(ts: Seq<TokenModel>, p: int) -> Seq<int>
    decreases ts.len() - p,
{
    match cur(ts, p) {
        TokenModel::Eof => seq![p],
        _ => match parse_statement(ts, p) {
            Ok((_, q)) => if advanced(ts, p, q) {
                seq![p] + statement_starts(ts, q)
            } else {
                seq![p]
            },
            Err(_) => seq![p],
        },
    }
}

/// The tokens from `starts[0]` split into consecutive statements, the k-th of
/// which runs from `starts[k]` to `starts[k + 1]` and parses to `stmts[k]`,
/// and then the end-of-input token.
pub open spec fn split_into_statements(ts: Seq<TokenModel>, starts: Seq<int>, stmts: Seq<StmtModel>) -> bool {
    &&& starts.len() == stmts.len() + 1
    &&& cur(ts, starts.last()) == TokenModel::Eof
    &&& forall|k: int|
        0 <= k < stmts.len() ==> #[trigger] parse_statement(ts, starts[k]) == Ok::<(StmtModel, int), ParseError>(
            (stmts[k], starts[k + 1]),
        )
}

proof fn lemma_program_from_splits(ts: Seq<TokenModel>, p: int, done: Seq<StmtModel>, all: Seq<StmtModel>)
    requires
        program_from(ts, p, done) == Ok::<Seq<StmtModel>, ParseError>(all),
    ensures
        done.len() <= all.len(),
        all.subrange(0, done.len() as int) == done,
        statement_starts(ts, p)[0] == p,
        split_into_statements(ts, statement_starts(ts, p), all.subrange(done.len() as int, all.len() as int)),
    decreases ts.len() - p,
{
    let starts = statement_starts(ts, p);
    let rest = all.subrange(done.len() as int, all.len() as int);
    match cur(ts, p) {
        TokenModel::Eof => {
            assert(all.subrange(0, done.len() as int) =~= done);
            assert(rest =~= Seq::<StmtModel>::empty());
        },
        _ => {
            let (s, q) = parse_statement(ts, p)->Ok_0;
            lemma_program_from_splits(ts, q, done.push(s), all);
            let later = statement_starts(ts, q);
            let tail = all.subrange(done.len() as int + 1, all.len() as int);
            assert(starts == seq![p] + later);
            assert(all.subrange(0, done.len() as int) =~= done.push(s).subrange(0, done.len() as int));
            assert(all[done.len() as int] == done.push(s)[done.len() as int]);
            assert(rest =~= seq![s] + tail);
            assert forall|k: int| 0 <= k < rest.len() implies #[trigger] parse_statement(ts, starts[k])
                == Ok::<(StmtModel, int), ParseError>((rest[k], starts[k + 1])) by {
                if k > 0 {
                    assert(starts[k] == later[k - 1]);
                    assert(starts[k + 1] == later[k]);
                    assert(rest[k] == tail[k - 1]);
                    assert(parse_statement(ts, later[k - 1]) == Ok::<(StmtModel, int), ParseError>((tail[k - 1], later[k])));
                }
            }
            assert(starts.last() == later.last());
        },
    }
}

/// A parsed program holds one statement for each top-level statement of its
/// tokens: from the first token up to the end-of-input token, the tokens split
/// into consecutive statements, the k-th of which parses to the program's k-th.
pub proof fn program_is_its_top_level_statements(ts: Seq<TokenModel>, stmts: Seq<StmtModel>)
    requires
        parse_program(ts) == Ok::<Seq<StmtModel>, ParseError>(stmts),
    ensures
        statement_starts(ts, 0)[0] == 0,
        split_into_statements(ts, statement_starts(ts, 0), stmts),
{
    lemma_program_from_splits(ts, 0, Seq::empty(), stmts);
    assert(stmts.subrange(0, stmts.len() as int) =~= stmts);
}

} // verus!
