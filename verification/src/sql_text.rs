//! The SQL text front end of the resolver: a tokenizer that discards
//! comments and string literals, and a recursive-descent reader of the
//! query shapes the resolver cares about — WITH clauses, FROM lists and
//! their joins (comma joins included), derived tables, nested joins and
//! set operations. Everything else (projections, predicates, expression
//! subqueries) is skipped structurally, contributing no table reference,
//! which mirrors what the dependency walk reads. A malformed statement is
//! an explicit error, never a panic.

use vstd::prelude::*;

use crate::error::{BenchError, BenchResult};
use crate::sql_resolver::{
    query_base_tables, spec_query_tables, spec_names_set, spec_sorted_unique, SqlCte, SqlCteView,
    SqlQuery, SqlQueryView, SqlSetExpr, SqlSetExprView, SqlTableRef, SqlTableRefView,
};
use crate::strutil::{lower_char, spec_lower_char, str_eq, u64_to_string};

verus! {

/// One token: a (lowercased) word, punctuation the grammar reads, or
/// any other lexeme, which the reader skips over.
#[derive(Clone, Debug)]
pub enum SqlToken {
    Word(String),
    LParen,
    RParen,
    Comma,
    Dot,
    Semicolon,
    Other,
}

pub enum SqlTokenView {
    Word(Seq<char>),
    LParen,
    RParen,
    Comma,
    Dot,
    Semicolon,
    Other,
}

impl View for SqlToken {
    type V = SqlTokenView;

    open spec fn view(&self) -> SqlTokenView {
        match self {
            SqlToken::Word(w) => SqlTokenView::Word(w@),
            SqlToken::LParen => SqlTokenView::LParen,
            SqlToken::RParen => SqlTokenView::RParen,
            SqlToken::Comma => SqlTokenView::Comma,
            SqlToken::Dot => SqlTokenView::Dot,
            SqlToken::Semicolon => SqlTokenView::Semicolon,
            SqlToken::Other => SqlTokenView::Other,
        }
    }
}

/// The mathematical value of an exec token list.
pub open spec fn spec_toks_view(toks: Seq<SqlToken>) -> Seq<SqlTokenView> {
    Seq::new(toks.len(), |i: int| toks[i]@)
}

/// The position of the newline (or the end) that closes a line comment.
pub open spec fn spec_line_end(chars: Seq<char>, p: int) -> int
    decreases chars.len() - p,
{
    if p < 0 || p >= chars.len() {
        chars.len() as int
    } else if chars[p] == '\n' {
        p
    } else {
        spec_line_end(chars, p + 1)
    }
}

/// The position after the `*/` that closes a block comment, if any.
pub open spec fn spec_block_end(chars: Seq<char>, p: int) -> Option<int>
    decreases chars.len() - p,
{
    if p < 0 || p >= chars.len() {
        None
    } else if chars[p] == '*' && p + 1 < chars.len() && chars[p + 1] == '/' {
        Some(p + 2)
    } else {
        spec_block_end(chars, p + 1)
    }
}

/// The position after the quote that closes a string literal; a doubled
/// quote stays inside the literal.
pub open spec fn spec_str_end(chars: Seq<char>, p: int) -> Option<int>
    decreases chars.len() - p,
{
    if p < 0 || p >= chars.len() {
        None
    } else if chars[p] == '\'' {
        if p + 1 < chars.len() && chars[p + 1] == '\'' {
            spec_str_end(chars, p + 2)
        } else {
            Some(p + 1)
        }
    } else {
        spec_str_end(chars, p + 1)
    }
}

/// The lowercased body of a quoted identifier and the position after its
/// closing quote, if any.
pub open spec fn spec_quoted_name(chars: Seq<char>, p: int, quote: char) -> Option<
    (Seq<char>, int),
>
    decreases chars.len() - p,
{
    if p < 0 || p >= chars.len() {
        None
    } else if chars[p] == quote {
        Some((Seq::empty(), p + 1))
    } else {
        match spec_quoted_name(chars, p + 1, quote) {
            None => None,
            Some((n, e)) => Some((seq![spec_lower_char(chars[p])] + n, e)),
        }
    }
}

/// The lowercased body of a bare word and the position after it.
pub open spec fn spec_word_end(chars: Seq<char>, p: int) -> (Seq<char>, int)
    decreases chars.len() - p,
{
    if 0 <= p < chars.len() && spec_is_word_part(chars[p]) {
        let (n, e) = spec_word_end(chars, p + 1);
        (seq![spec_lower_char(chars[p])] + n, e)
    } else {
        (Seq::empty(), p)
    }
}

/// The position after a numeric lexeme.
pub open spec fn spec_num_end(chars: Seq<char>, p: int) -> int
    decreases chars.len() - p,
{
    if 0 <= p < chars.len() && (spec_is_word_part(chars[p]) || chars[p] == '.') {
        spec_num_end(chars, p + 1)
    } else {
        p
    }
}

pub open spec fn spec_lex_cons(t: SqlTokenView, rest: Option<Seq<SqlTokenView>>) -> Option<
    Seq<SqlTokenView>,
> {
    match rest {
        None => None,
        Some(r) => Some(seq![t] + r),
    }
}

pub open spec fn spec_lex_app(ts: Seq<SqlTokenView>, rest: Option<Seq<SqlTokenView>>) -> Option<
    Seq<SqlTokenView>,
> {
    match rest {
        None => None,
        Some(r) => Some(ts + r),
    }
}

/// The token stream of the text from position `i` on, or nothing when a
/// literal or comment is unterminated. Each guard demands that a lexeme
/// consumed at least one character and stayed in bounds, which every
/// lexeme does.
pub open spec fn spec_lex(chars: Seq<char>, i: int) -> Option<Seq<SqlTokenView>>
    decreases chars.len() - i,
{
    if i < 0 || i >= chars.len() {
        Some(Seq::empty())
    } else {
        let c = chars[i];
        if c == ' ' || c == '\t' || c == '\n' || c == '\r' {
            spec_lex(chars, i + 1)
        } else if c == '-' && i + 1 < chars.len() && chars[i + 1] == '-' {
            let j = spec_line_end(chars, i + 2);
            if i < j && j <= chars.len() {
                spec_lex(chars, j)
            } else {
                None
            }
        } else if c == '/' && i + 1 < chars.len() && chars[i + 1] == '*' {
            match spec_block_end(chars, i + 2) {
                None => None,
                Some(j) => if i < j && j <= chars.len() {
                    spec_lex(chars, j)
                } else {
                    None
                },
            }
        } else if c == '\'' {
            match spec_str_end(chars, i + 1) {
                None => None,
                Some(j) => if i < j && j <= chars.len() {
                    spec_lex_cons(SqlTokenView::Other, spec_lex(chars, j))
                } else {
                    None
                },
            }
        } else if c == '"' || c == '`' {
            match spec_quoted_name(chars, i + 1, c) {
                None => None,
                Some((n, j)) => if i < j && j <= chars.len() {
                    spec_lex_cons(SqlTokenView::Word(n), spec_lex(chars, j))
                } else {
                    None
                },
            }
        } else if spec_is_word_start(c) {
            let (n, j) = spec_word_end(chars, i);
            if i < j && j <= chars.len() {
                spec_lex_cons(SqlTokenView::Word(n), spec_lex(chars, j))
            } else {
                None
            }
        } else if 48 <= c as u32 <= 57 {
            let j = spec_num_end(chars, i);
            if i < j && j <= chars.len() {
                spec_lex_cons(SqlTokenView::Other, spec_lex(chars, j))
            } else {
                None
            }
        } else if c == '(' {
            spec_lex_cons(SqlTokenView::LParen, spec_lex(chars, i + 1))
        } else if c == ')' {
            spec_lex_cons(SqlTokenView::RParen, spec_lex(chars, i + 1))
        } else if c == ',' {
            spec_lex_cons(SqlTokenView::Comma, spec_lex(chars, i + 1))
        } else if c == '.' {
            spec_lex_cons(SqlTokenView::Dot, spec_lex(chars, i + 1))
        } else if c == ';' {
            spec_lex_cons(SqlTokenView::Semicolon, spec_lex(chars, i + 1))
        } else {
            spec_lex_cons(SqlTokenView::Other, spec_lex(chars, i + 1))
        }
    }
}

proof fn lemma_lex_app_cons(ts: Seq<SqlTokenView>, t: SqlTokenView, rest: Option<Seq<SqlTokenView>>)
    ensures
        spec_lex_app(ts, spec_lex_cons(t, rest)) == spec_lex_app(ts.push(t), rest),
{
    match rest {
        Some(r) => {
            assert(ts + (seq![t] + r) =~= ts.push(t) + r);
        },
        None => {},
    }
}

pub open spec fn spec_is_word_start(c: char) -> bool {
    let u = c as u32;
    (97 <= u <= 122) || (65 <= u <= 90) || u == 95 || u > 127
}

pub open spec fn spec_is_word_part(c: char) -> bool {
    let u = c as u32;
    (97 <= u <= 122) || (65 <= u <= 90) || (48 <= u <= 57) || u == 95 || u == 36 || u > 127
}

fn is_word_start(c: char) -> (r: bool)
    ensures
        r == spec_is_word_start(c),
{
    let u = c as u32;
    (97 <= u && u <= 122) || (65 <= u && u <= 90) || u == 95 || u > 127
}

fn is_word_part(c: char) -> (r: bool)
    ensures
        r == spec_is_word_part(c),
{
    let u = c as u32;
    (97 <= u && u <= 122) || (65 <= u && u <= 90) || (48 <= u && u <= 57) || u == 95 || u == 36
        || u > 127
}

fn is_digit(c: char) -> (r: bool)
    ensures
        r == (48 <= c as u32 <= 57),
{
    let u = c as u32;
    48 <= u && u <= 57
}

/// Tokenizes one statement, exactly as `spec_lex` states. Comments and
/// string literals are consumed here and never reach the reader, so
/// nothing inside them can be taken for a table reference. An
/// unterminated literal or comment is an error.
#[verifier::loop_isolation(false)]
pub fn tokenize_sql(chars: &Vec<char>) -> (r: Result<Vec<SqlToken>, String>)
    ensures
        r matches Ok(toks) ==> spec_lex(chars@, 0) == Some(spec_toks_view(toks@)),
        r is Err ==> spec_lex(chars@, 0) is None,
{
    let len = chars.len();
    let mut out: Vec<SqlToken> = Vec::new();
    let mut i: usize = 0;
    proof {
        assert(spec_toks_view(out@) =~= Seq::<SqlTokenView>::empty());
        if spec_lex(chars@, 0) is Some {
            assert(Seq::<SqlTokenView>::empty() + spec_lex(chars@, 0)->0 =~= spec_lex(
                chars@,
                0,
            )->0);
        }
    }
    while i < len
        invariant
            len == chars@.len(),
            i <= len,
            spec_lex_app(spec_toks_view(out@), spec_lex(chars@, i as int)) == spec_lex(chars@, 0),
        decreases len - i,
    {
        let ghost arm = i as int;
        let ghost out0 = spec_toks_view(out@);
        let c = chars[i];
        if c == ' ' || c == '\t' || c == '\n' || c == '\r' {
            i += 1;
            proof {
                assert(spec_lex(chars@, arm) == spec_lex(chars@, i as int));
            }
        } else if c == '-' && i + 1 < len && chars[i + 1] == '-' {
            i += 2;
            let ghost entry = i;
            while i < len && chars[i] != '\n'
                invariant
                    len == chars@.len(),
                    entry <= i <= len,
                    spec_line_end(chars@, entry as int) == spec_line_end(chars@, i as int),
                decreases len - i,
            {
                i += 1;
            }
            proof {
                assert(spec_line_end(chars@, i as int) == i as int);
                assert(spec_lex(chars@, arm) == spec_lex(chars@, i as int));
            }
        } else if c == '/' && i + 1 < len && chars[i + 1] == '*' {
            i += 2;
            let ghost entry = i;
            let mut closed = false;
            while i < len && !closed
                invariant
                    len == chars@.len(),
                    entry <= i <= len,
                    !closed ==> spec_block_end(chars@, entry as int) == spec_block_end(
                        chars@,
                        i as int,
                    ),
                    closed ==> spec_block_end(chars@, entry as int) == Some(i as int),
                decreases len - i,
            {
                if chars[i] == '*' && i + 1 < len && chars[i + 1] == '/' {
                    i += 2;
                    closed = true;
                } else {
                    i += 1;
                }
            }
            if !closed {
                proof {
                    assert(spec_block_end(chars@, i as int) is None);
                    assert(spec_lex(chars@, arm) is None);
                }
                return Err("unterminated block comment".to_owned());
            }
            proof {
                assert(spec_lex(chars@, arm) == spec_lex(chars@, i as int));
            }
        } else if c == '\'' {
            i += 1;
            let ghost entry = i;
            let mut closed = false;
            while i < len && !closed
                invariant
                    len == chars@.len(),
                    entry <= i <= len,
                    !closed ==> spec_str_end(chars@, entry as int) == spec_str_end(
                        chars@,
                        i as int,
                    ),
                    closed ==> spec_str_end(chars@, entry as int) == Some(i as int),
                decreases len - i,
            {
                if chars[i] == '\'' {
                    if i + 1 < len && chars[i + 1] == '\'' {
                        i += 2;
                    } else {
                        i += 1;
                        closed = true;
                    }
                } else {
                    i += 1;
                }
            }
            if !closed {
                proof {
                    assert(spec_str_end(chars@, i as int) is None);
                    assert(spec_lex(chars@, arm) is None);
                }
                return Err("unterminated string literal".to_owned());
            }
            proof {
                assert(spec_lex(chars@, arm) == spec_lex_cons(
                    SqlTokenView::Other,
                    spec_lex(chars@, i as int),
                ));
                lemma_lex_app_cons(out0, SqlTokenView::Other, spec_lex(chars@, i as int));
            }
            out.push(SqlToken::Other);
            proof {
                assert(spec_toks_view(out@) =~= out0.push(SqlTokenView::Other));
            }
        } else if c == '"' || c == '`' {
            let quote = c;
            i += 1;
            let ghost entry = i;
            let mut name = String::new();
            let mut closed = false;
            while i < len && !closed
                invariant
                    len == chars@.len(),
                    entry <= i <= len,
                    !closed ==> (match spec_quoted_name(chars@, i as int, quote) {
                        None => spec_quoted_name(chars@, entry as int, quote) is None,
                        Some((n, e)) => spec_quoted_name(chars@, entry as int, quote) == Some(
                            (name@ + n, e),
                        ),
                    }),
                    closed ==> spec_quoted_name(chars@, entry as int, quote) == Some(
                        (name@, i as int),
                    ),
                decreases len - i,
            {
                if chars[i] == quote {
                    i += 1;
                    closed = true;
                    proof {
                        assert(name@ + Seq::<char>::empty() =~= name@);
                    }
                } else {
                    let ghost name0 = name@;
                    let lc = lower_char(chars[i]);
                    name.push(lc);
                    proof {
                        if spec_quoted_name(chars@, i + 1, quote) is Some {
                            let (n2, _e2) = spec_quoted_name(chars@, i + 1, quote)->0;
                            assert(name0 + (seq![spec_lower_char(chars@[i as int])] + n2) =~= name@
                                + n2);
                        }
                    }
                    i += 1;
                }
            }
            if !closed {
                proof {
                    assert(spec_quoted_name(chars@, i as int, quote) is None);
                    assert(spec_lex(chars@, arm) is None);
                }
                return Err("unterminated quoted identifier".to_owned());
            }
            proof {
                assert(spec_lex(chars@, arm) == spec_lex_cons(
                    SqlTokenView::Word(name@),
                    spec_lex(chars@, i as int),
                ));
                lemma_lex_app_cons(out0, SqlTokenView::Word(name@), spec_lex(chars@, i as int));
            }
            let ghost nm = name@;
            out.push(SqlToken::Word(name));
            proof {
                assert(spec_toks_view(out@) =~= out0.push(SqlTokenView::Word(nm)));
            }
        } else if is_word_start(c) {
            let ghost entry = i;
            let mut name = String::new();
            while i < len && is_word_part(chars[i])
                invariant
                    len == chars@.len(),
                    entry <= i <= len,
                    spec_word_end(chars@, entry as int).0 == name@ + spec_word_end(
                        chars@,
                        i as int,
                    ).0,
                    spec_word_end(chars@, entry as int).1 == spec_word_end(chars@, i as int).1,
                decreases len - i,
            {
                let ghost name0 = name@;
                let lc = lower_char(chars[i]);
                name.push(lc);
                proof {
                    assert(name0 + (seq![spec_lower_char(chars@[i as int])] + spec_word_end(
                        chars@,
                        i + 1,
                    ).0) =~= name@ + spec_word_end(chars@, i + 1).0);
                }
                i += 1;
            }
            proof {
                assert(i > entry);
                assert(spec_word_end(chars@, i as int).0 =~= Seq::<char>::empty());
                assert(name@ + Seq::<char>::empty() =~= name@);
                assert(spec_word_end(chars@, entry as int).0 == name@);
                assert(spec_word_end(chars@, entry as int).1 == i as int);
                assert(spec_lex(chars@, arm) == spec_lex_cons(
                    SqlTokenView::Word(name@),
                    spec_lex(chars@, i as int),
                ));
                lemma_lex_app_cons(out0, SqlTokenView::Word(name@), spec_lex(chars@, i as int));
            }
            let ghost nm = name@;
            out.push(SqlToken::Word(name));
            proof {
                assert(spec_toks_view(out@) =~= out0.push(SqlTokenView::Word(nm)));
            }
        } else if is_digit(c) {
            let ghost entry = i;
            while i < len && (is_word_part(chars[i]) || chars[i] == '.')
                invariant
                    len == chars@.len(),
                    entry <= i <= len,
                    spec_num_end(chars@, entry as int) == spec_num_end(chars@, i as int),
                decreases len - i,
            {
                i += 1;
            }
            proof {
                assert(i > entry);
                assert(spec_num_end(chars@, entry as int) == i as int);
                assert(spec_lex(chars@, arm) == spec_lex_cons(
                    SqlTokenView::Other,
                    spec_lex(chars@, i as int),
                ));
                lemma_lex_app_cons(out0, SqlTokenView::Other, spec_lex(chars@, i as int));
            }
            out.push(SqlToken::Other);
            proof {
                assert(spec_toks_view(out@) =~= out0.push(SqlTokenView::Other));
            }
        } else if c == '(' {
            proof {
                assert(spec_lex(chars@, arm) == spec_lex_cons(
                    SqlTokenView::LParen,
                    spec_lex(chars@, arm + 1),
                ));
                lemma_lex_app_cons(out0, SqlTokenView::LParen, spec_lex(chars@, arm + 1));
            }
            out.push(SqlToken::LParen);
            i += 1;
            proof {
                assert(spec_toks_view(out@) =~= out0.push(SqlTokenView::LParen));
            }
        } else if c == ')' {
            proof {
                assert(spec_lex(chars@, arm) == spec_lex_cons(
                    SqlTokenView::RParen,
                    spec_lex(chars@, arm + 1),
                ));
                lemma_lex_app_cons(out0, SqlTokenView::RParen, spec_lex(chars@, arm + 1));
            }
            out.push(SqlToken::RParen);
            i += 1;
            proof {
                assert(spec_toks_view(out@) =~= out0.push(SqlTokenView::RParen));
            }
        } else if c == ',' {
            proof {
                assert(spec_lex(chars@, arm) == spec_lex_cons(
                    SqlTokenView::Comma,
                    spec_lex(chars@, arm + 1),
                ));
                lemma_lex_app_cons(out0, SqlTokenView::Comma, spec_lex(chars@, arm + 1));
            }
            out.push(SqlToken::Comma);
            i += 1;
            proof {
                assert(spec_toks_view(out@) =~= out0.push(SqlTokenView::Comma));
            }
        } else if c == '.' {
            proof {
                assert(spec_lex(chars@, arm) == spec_lex_cons(
                    SqlTokenView::Dot,
                    spec_lex(chars@, arm + 1),
                ));
                lemma_lex_app_cons(out0, SqlTokenView::Dot, spec_lex(chars@, arm + 1));
            }
            out.push(SqlToken::Dot);
            i += 1;
            proof {
                assert(spec_toks_view(out@) =~= out0.push(SqlTokenView::Dot));
            }
        } else if c == ';' {
            proof {
                assert(spec_lex(chars@, arm) == spec_lex_cons(
                    SqlTokenView::Semicolon,
                    spec_lex(chars@, arm + 1),
                ));
                lemma_lex_app_cons(out0, SqlTokenView::Semicolon, spec_lex(chars@, arm + 1));
            }
            out.push(SqlToken::Semicolon);
            i += 1;
            proof {
                assert(spec_toks_view(out@) =~= out0.push(SqlTokenView::Semicolon));
            }
        } else {
            proof {
                assert(spec_lex(chars@, arm) == spec_lex_cons(
                    SqlTokenView::Other,
                    spec_lex(chars@, arm + 1),
                ));
                lemma_lex_app_cons(out0, SqlTokenView::Other, spec_lex(chars@, arm + 1));
            }
            out.push(SqlToken::Other);
            i += 1;
            proof {
                assert(spec_toks_view(out@) =~= out0.push(SqlTokenView::Other));
            }
        }
    }
    proof {
        assert(spec_lex(chars@, i as int) == Some(Seq::<SqlTokenView>::empty()));
        assert(spec_toks_view(out@) + Seq::<SqlTokenView>::empty() =~= spec_toks_view(out@));
    }
    Ok(out)
}

pub open spec fn stok_is_word(toks: Seq<SqlTokenView>, pos: int, w: Seq<char>) -> bool {
    0 <= pos < toks.len() && (toks[pos] matches SqlTokenView::Word(n) && n == w)
}

pub open spec fn stok_word(toks: Seq<SqlTokenView>, pos: int) -> Option<Seq<char>> {
    if 0 <= pos < toks.len() {
        match toks[pos] {
            SqlTokenView::Word(n) => Some(n),
            _ => None,
        }
    } else {
        None
    }
}

pub open spec fn stok_is_lparen(toks: Seq<SqlTokenView>, pos: int) -> bool {
    0 <= pos < toks.len() && toks[pos] is LParen
}

pub open spec fn stok_is_rparen(toks: Seq<SqlTokenView>, pos: int) -> bool {
    0 <= pos < toks.len() && toks[pos] is RParen
}

pub open spec fn stok_is_comma(toks: Seq<SqlTokenView>, pos: int) -> bool {
    0 <= pos < toks.len() && toks[pos] is Comma
}

pub open spec fn stok_is_dot(toks: Seq<SqlTokenView>, pos: int) -> bool {
    0 <= pos < toks.len() && toks[pos] is Dot
}

pub open spec fn stok_is_semi(toks: Seq<SqlTokenView>, pos: int) -> bool {
    0 <= pos < toks.len() && toks[pos] is Semicolon
}

pub open spec fn spec_join_word(toks: Seq<SqlTokenView>, pos: int) -> bool {
    stok_is_word(toks, pos, "join"@) || stok_is_word(toks, pos, "inner"@) || stok_is_word(
        toks,
        pos,
        "left"@,
    ) || stok_is_word(toks, pos, "right"@) || stok_is_word(toks, pos, "full"@) || stok_is_word(
        toks,
        pos,
        "cross"@,
    ) || stok_is_word(toks, pos, "natural"@)
}

pub open spec fn spec_set_op_word(toks: Seq<SqlTokenView>, pos: int) -> bool {
    stok_is_word(toks, pos, "union"@) || stok_is_word(toks, pos, "intersect"@) || stok_is_word(
        toks,
        pos,
        "except"@,
    )
}

pub open spec fn spec_clause_word(toks: Seq<SqlTokenView>, pos: int) -> bool {
    stok_is_word(toks, pos, "where"@) || stok_is_word(toks, pos, "group"@) || stok_is_word(
        toks,
        pos,
        "having"@,
    ) || stok_is_word(toks, pos, "order"@) || stok_is_word(toks, pos, "limit"@) || stok_is_word(
        toks,
        pos,
        "offset"@,
    ) || stok_is_word(toks, pos, "window"@) || stok_is_word(toks, pos, "qualify"@) || stok_is_word(
        toks,
        pos,
        "fetch"@,
    ) || stok_is_word(toks, pos, "for"@) || spec_set_op_word(toks, pos)
}

pub open spec fn spec_reserved_word(toks: Seq<SqlTokenView>, pos: int) -> bool {
    spec_join_word(toks, pos) || spec_clause_word(toks, pos) || stok_is_word(toks, pos, "on"@)
        || stok_is_word(toks, pos, "using"@) || stok_is_word(toks, pos, "outer"@) || stok_is_word(
        toks,
        pos,
        "as"@,
    ) || stok_is_word(toks, pos, "with"@) || stok_is_word(toks, pos, "select"@) || stok_is_word(
        toks,
        pos,
        "pivot"@,
    ) || stok_is_word(toks, pos, "unpivot"@) || stok_is_word(toks, pos, "match_recognize"@)
}

fn tok_is_word(toks: &Vec<SqlToken>, pos: usize, word: &str) -> (r: bool)
    ensures
        r == stok_is_word(spec_toks_view(toks@), pos as int, word@),
        r ==> pos < toks@.len(),
{
    if pos >= toks.len() {
        return false;
    }
    proof {
        assert(spec_toks_view(toks@)[pos as int] == toks@[pos as int]@);
    }
    match &toks[pos] {
        SqlToken::Word(w) => str_eq(w.as_str(), word),
        _ => false,
    }
}

fn tok_is_lparen(toks: &Vec<SqlToken>, pos: usize) -> (r: bool)
    ensures
        r == stok_is_lparen(spec_toks_view(toks@), pos as int),
        r ==> pos < toks@.len(),
{
    if pos >= toks.len() {
        return false;
    }
    proof {
        assert(spec_toks_view(toks@)[pos as int] == toks@[pos as int]@);
    }
    match &toks[pos] {
        SqlToken::LParen => true,
        _ => false,
    }
}

fn tok_is_rparen(toks: &Vec<SqlToken>, pos: usize) -> (r: bool)
    ensures
        r == stok_is_rparen(spec_toks_view(toks@), pos as int),
        r ==> pos < toks@.len(),
{
    if pos >= toks.len() {
        return false;
    }
    proof {
        assert(spec_toks_view(toks@)[pos as int] == toks@[pos as int]@);
    }
    match &toks[pos] {
        SqlToken::RParen => true,
        _ => false,
    }
}

fn tok_is_comma(toks: &Vec<SqlToken>, pos: usize) -> (r: bool)
    ensures
        r == stok_is_comma(spec_toks_view(toks@), pos as int),
        r ==> pos < toks@.len(),
{
    if pos >= toks.len() {
        return false;
    }
    proof {
        assert(spec_toks_view(toks@)[pos as int] == toks@[pos as int]@);
    }
    match &toks[pos] {
        SqlToken::Comma => true,
        _ => false,
    }
}

fn tok_is_dot(toks: &Vec<SqlToken>, pos: usize) -> (r: bool)
    ensures
        r == stok_is_dot(spec_toks_view(toks@), pos as int),
        r ==> pos < toks@.len(),
{
    if pos >= toks.len() {
        return false;
    }
    proof {
        assert(spec_toks_view(toks@)[pos as int] == toks@[pos as int]@);
    }
    match &toks[pos] {
        SqlToken::Dot => true,
        _ => false,
    }
}

fn tok_word(toks: &Vec<SqlToken>, pos: usize) -> (r: Option<String>)
    ensures
        match r {
            Some(w) => stok_word(spec_toks_view(toks@), pos as int) == Some(w@),
            None => stok_word(spec_toks_view(toks@), pos as int) is None,
        },
        r is Some ==> pos < toks@.len(),
{
    if pos >= toks.len() {
        return None;
    }
    proof {
        assert(spec_toks_view(toks@)[pos as int] == toks@[pos as int]@);
    }
    match &toks[pos] {
        SqlToken::Word(w) => Some(w.clone()),
        _ => None,
    }
}

/// A word that starts or continues a join clause.
fn is_join_word(toks: &Vec<SqlToken>, pos: usize) -> (r: bool)
    ensures
        r == spec_join_word(spec_toks_view(toks@), pos as int),
        r ==> pos < toks@.len(),
{
    tok_is_word(toks, pos, "join") || tok_is_word(toks, pos, "inner") || tok_is_word(
        toks,
        pos,
        "left",
    ) || tok_is_word(toks, pos, "right") || tok_is_word(toks, pos, "full") || tok_is_word(
        toks,
        pos,
        "cross",
    ) || tok_is_word(toks, pos, "natural")
}

/// A word that ends a FROM list: the clauses that may follow it, or a
/// set operation.
fn is_clause_word(toks: &Vec<SqlToken>, pos: usize) -> (r: bool)
    ensures
        r == spec_clause_word(spec_toks_view(toks@), pos as int),
        r ==> pos < toks@.len(),
{
    tok_is_word(toks, pos, "where") || tok_is_word(toks, pos, "group") || tok_is_word(
        toks,
        pos,
        "having",
    ) || tok_is_word(toks, pos, "order") || tok_is_word(toks, pos, "limit") || tok_is_word(
        toks,
        pos,
        "offset",
    ) || tok_is_word(toks, pos, "window") || tok_is_word(toks, pos, "qualify") || tok_is_word(
        toks,
        pos,
        "fetch",
    ) || tok_is_word(toks, pos, "for") || is_set_op_word(toks, pos)
}

fn is_set_op_word(toks: &Vec<SqlToken>, pos: usize) -> (r: bool)
    ensures
        r == spec_set_op_word(spec_toks_view(toks@), pos as int),
        r ==> pos < toks@.len(),
{
    tok_is_word(toks, pos, "union") || tok_is_word(toks, pos, "intersect") || tok_is_word(
        toks,
        pos,
        "except",
    )
}

/// A word that cannot serve as a bare table alias.
fn is_reserved_word(toks: &Vec<SqlToken>, pos: usize) -> (r: bool)
    ensures
        r == spec_reserved_word(spec_toks_view(toks@), pos as int),
        r ==> pos < toks@.len(),
{
    is_join_word(toks, pos) || is_clause_word(toks, pos) || tok_is_word(toks, pos, "on")
        || tok_is_word(toks, pos, "using") || tok_is_word(toks, pos, "outer") || tok_is_word(
        toks,
        pos,
        "as",
    ) || tok_is_word(toks, pos, "with") || tok_is_word(toks, pos, "select") || tok_is_word(
        toks,
        pos,
        "pivot",
    ) || tok_is_word(toks, pos, "unpivot") || tok_is_word(toks, pos, "match_recognize")
}

fn parse_error(what: &str, pos: usize) -> (r: String)
{
    let mut m = String::new();
    m.append(what);
    m.append(" near token ");
    let p = u64_to_string(pos as u64);
    m.append(p.as_str());
    m
}

/// Where a balanced parenthesis group that starts at depth `depth`
/// closes, walking from `i`.
pub open spec fn spec_skip_depth(toks: Seq<SqlTokenView>, i: int, depth: int) -> Option<int>
    decreases toks.len() - i,
{
    if depth <= 0 {
        Some(i)
    } else if i < 0 || i >= toks.len() {
        None
    } else {
        let d2 = match toks[i] {
            SqlTokenView::LParen => if depth < usize::MAX as int {
                depth + 1
            } else {
                depth
            },
            SqlTokenView::RParen => depth - 1,
            _ => depth,
        };
        spec_skip_depth(toks, i + 1, d2)
    }
}

/// The position after the group whose opening parenthesis sits at `pos`.
pub open spec fn spec_skip_balanced(toks: Seq<SqlTokenView>, pos: int) -> Option<int> {
    if !stok_is_lparen(toks, pos) {
        None
    } else {
        spec_skip_depth(toks, pos + 1, 1)
    }
}

/// The FROM-list boundary that ends an ON expression.
pub open spec fn spec_skip_on_expr(toks: Seq<SqlTokenView>, i: int) -> Option<int>
    decreases toks.len() - i,
{
    if i < 0 {
        None
    } else if i >= toks.len() {
        Some(i)
    } else if stok_is_rparen(toks, i) || stok_is_comma(toks, i) || spec_join_word(toks, i)
        || spec_clause_word(toks, i) {
        Some(i)
    } else if stok_is_lparen(toks, i) {
        match spec_skip_balanced(toks, i) {
            None => None,
            Some(j) => if i < j && j <= toks.len() {
                spec_skip_on_expr(toks, j)
            } else {
                None
            },
        }
    } else {
        spec_skip_on_expr(toks, i + 1)
    }
}

/// The boundary that ends the clauses after a FROM list.
pub open spec fn spec_skip_trailing(toks: Seq<SqlTokenView>, i: int) -> Option<int>
    decreases toks.len() - i,
{
    if i < 0 {
        None
    } else if i >= toks.len() {
        Some(i)
    } else if stok_is_rparen(toks, i) || spec_set_op_word(toks, i) {
        Some(i)
    } else if stok_is_semi(toks, i) {
        Some(i)
    } else if stok_is_lparen(toks, i) {
        match spec_skip_balanced(toks, i) {
            None => None,
            Some(j) => if i < j && j <= toks.len() {
                spec_skip_trailing(toks, j)
            } else {
                None
            },
        }
    } else {
        spec_skip_trailing(toks, i + 1)
    }
}

/// Whether and where a select's FROM keyword occurs at depth zero.
pub open spec fn spec_find_from(toks: Seq<SqlTokenView>, i: int) -> Option<(bool, int)>
    decreases toks.len() - i,
{
    if i < 0 {
        None
    } else if i >= toks.len() {
        Some((false, i))
    } else if stok_is_word(toks, i, "from"@) {
        Some((true, i))
    } else if stok_is_rparen(toks, i) || spec_set_op_word(toks, i) || spec_clause_word(toks, i) {
        Some((false, i))
    } else if stok_is_semi(toks, i) {
        Some((false, i))
    } else if stok_is_lparen(toks, i) {
        match spec_skip_balanced(toks, i) {
            None => None,
            Some(j) => if i < j && j <= toks.len() {
                spec_find_from(toks, j)
            } else {
                None
            },
        }
    } else {
        spec_find_from(toks, i + 1)
    }
}

/// The position after the run of join words that introduces one joined
/// table, counting the words already consumed in `g`.
pub open spec fn spec_skip_join(toks: Seq<SqlTokenView>, p: int, g: int) -> Option<int>
    decreases 3 - g,
{
    if stok_is_word(toks, p, "join"@) {
        Some(p + 1)
    } else if g >= 3 {
        None
    } else if spec_join_word(toks, p) || stok_is_word(toks, p, "outer"@) {
        spec_skip_join(toks, p + 1, g + 1)
    } else {
        None
    }
}

/// The last name part of a dotted reference and the position after it.
pub open spec fn spec_dot_chain(toks: Seq<SqlTokenView>, name: Seq<char>, p: int) -> Option<
    (Seq<char>, int),
>
    decreases toks.len() - p,
{
    if stok_is_dot(toks, p) {
        match stok_word(toks, p + 1) {
            Some(w) => if p + 2 <= toks.len() {
                spec_dot_chain(toks, w, p + 2)
            } else {
                None
            },
            None => None,
        }
    } else {
        Some((name, p))
    }
}

/// The position after an optional alias and any PIVOT/UNPIVOT/
/// MATCH_RECOGNIZE wrapper.
pub open spec fn spec_skip_alias(toks: Seq<SqlTokenView>, cur: int) -> Option<int>
    decreases toks.len() - cur,
{
    if stok_is_word(toks, cur, "pivot"@) || stok_is_word(toks, cur, "unpivot"@) || stok_is_word(
        toks,
        cur,
        "match_recognize"@,
    ) {
        if toks.len() - cur <= 1 {
            None
        } else {
            match spec_skip_balanced(toks, cur + 1) {
                None => None,
                Some(j) => if cur < j && j <= toks.len() {
                    spec_skip_alias(toks, j)
                } else {
                    None
                },
            }
        }
    } else if stok_is_word(toks, cur, "as"@) {
        if toks.len() - cur <= 1 {
            None
        } else {
            match stok_word(toks, cur + 1) {
                Some(_) => if cur + 2 <= toks.len() {
                    spec_skip_alias(toks, cur + 2)
                } else {
                    None
                },
                None => None,
            }
        }
    } else if 0 <= cur < toks.len() && !spec_reserved_word(toks, cur) {
        match stok_word(toks, cur) {
            Some(_) => if cur + 1 <= toks.len() {
                spec_skip_alias(toks, cur + 1)
            } else {
                None
            },
            None => Some(cur),
        }
    } else {
        Some(cur)
    }
}

/// The mathematical value of an exec CTE list.
pub open spec fn spec_ctes_view(ctes: Seq<SqlCte>) -> Seq<SqlCteView> {
    Seq::new(
        ctes.len(),
        |i: int| SqlCteView { name: ctes[i].name@, query: crate::sql_resolver::spec_query_view(ctes[i].query) },
    )
}

/// The mathematical value of an exec FROM-list entry list.
pub open spec fn spec_refs_view(refs: Seq<SqlTableRef>) -> Seq<SqlTableRefView> {
    Seq::new(refs.len(), |i: int| crate::sql_resolver::spec_table_ref_view(refs[i]))
}

pub open spec fn spec_cte_app(
    acc: Seq<SqlCteView>,
    o: Option<(Seq<SqlCteView>, int)>,
) -> Option<(Seq<SqlCteView>, int)> {
    match o {
        None => None,
        Some((l, e)) => Some((acc + l, e)),
    }
}

/// One query block of the grammar, read from `pos`: an optional WITH
/// clause, then a body. Each guard demands that a sub-parse advanced and
/// stayed in bounds, which every sub-parse does.
pub open spec fn spec_parse_query(toks: Seq<SqlTokenView>, pos: int) -> Option<(SqlQueryView, int)>
    decreases toks.len() - pos, 4int,
{
    if pos < 0 || pos > toks.len() {
        None
    } else if stok_is_word(toks, pos, "with"@) {
        let p1 = if stok_is_word(toks, pos + 1, "recursive"@) {
            pos + 2
        } else {
            pos + 1
        };
        match spec_parse_ctes(toks, p1) {
            None => None,
            Some((ctes, cur)) => if !(pos < cur <= toks.len()) {
                None
            } else {
                match spec_parse_set_expr(toks, cur) {
                    None => None,
                    Some((body, after)) => Some((SqlQueryView { ctes, body }, after)),
                }
            },
        }
    } else {
        match spec_parse_set_expr(toks, pos) {
            None => None,
            Some((body, after)) => Some(
                (SqlQueryView { ctes: Seq::empty(), body }, after),
            ),
        }
    }
}

/// A comma-separated WITH clause: each binding is a name, an optional
/// column list, AS, and a parenthesized query block.
pub open spec fn spec_parse_ctes(toks: Seq<SqlTokenView>, pos: int) -> Option<
    (Seq<SqlCteView>, int),
>
    decreases toks.len() - pos, 0int,
{
    if pos < 0 || pos > toks.len() {
        None
    } else {
        match stok_word(toks, pos) {
            None => None,
            Some(name) => {
                let after_name = pos + 1;
                let col_end = if after_name < toks.len() && stok_is_lparen(toks, after_name) {
                    spec_skip_balanced(toks, after_name)
                } else {
                    Some(after_name)
                };
                match col_end {
                    None => None,
                    Some(p2) => if !(pos < p2 <= toks.len()) {
                        None
                    } else if !stok_is_word(toks, p2, "as"@) {
                        None
                    } else if !(p2 + 1 < toks.len() && stok_is_lparen(toks, p2 + 1)) {
                        None
                    } else {
                        match spec_parse_query(toks, p2 + 2) {
                            None => None,
                            Some((body, after_q)) => if !(p2 + 2 < after_q <= toks.len()) {
                                None
                            } else if !stok_is_rparen(toks, after_q) {
                                None
                            } else {
                                let cte = SqlCteView { name, query: body };
                                if stok_is_comma(toks, after_q + 1) {
                                    match spec_parse_ctes(toks, after_q + 2) {
                                        None => None,
                                        Some((rest, end)) => Some((seq![cte] + rest, end)),
                                    }
                                } else {
                                    Some((seq![cte], after_q + 1))
                                }
                            },
                        }
                    },
                }
            },
        }
    }
}

/// A body: one select or parenthesized query, then any chain of set
/// operations.
pub open spec fn spec_parse_set_expr(toks: Seq<SqlTokenView>, pos: int) -> Option<
    (SqlSetExprView, int),
>
    decreases toks.len() - pos, 3int,
{
    if pos < 0 || pos > toks.len() {
        None
    } else {
        match spec_parse_set_primary(toks, pos) {
            None => None,
            Some((first, after)) => if !(pos < after <= toks.len()) {
                None
            } else {
                spec_setop_chain(toks, first, after)
            },
        }
    }
}

/// The chain of set operations that follows a body already read into
/// `acc`.
pub open spec fn spec_setop_chain(toks: Seq<SqlTokenView>, acc: SqlSetExprView, cur: int) -> Option<
    (SqlSetExprView, int),
>
    decreases toks.len() - cur, 0int,
{
    if cur < 0 || cur > toks.len() {
        None
    } else if spec_set_op_word(toks, cur) {
        let p2 = if stok_is_word(toks, cur + 1, "all"@) || stok_is_word(toks, cur + 1, "distinct"@) {
            cur + 2
        } else {
            cur + 1
        };
        match spec_parse_set_primary(toks, p2) {
            None => None,
            Some((right, after_r)) => if !(cur < after_r <= toks.len()) {
                None
            } else {
                spec_setop_chain(
                    toks,
                    SqlSetExprView::SetOp { left: Box::new(acc), right: Box::new(right) },
                    after_r,
                )
            },
        }
    } else {
        Some((acc, cur))
    }
}

/// One select block or one parenthesized query.
pub open spec fn spec_parse_set_primary(toks: Seq<SqlTokenView>, pos: int) -> Option<
    (SqlSetExprView, int),
>
    decreases toks.len() - pos, 2int,
{
    if pos < 0 || pos > toks.len() {
        None
    } else if stok_is_lparen(toks, pos) {
        match spec_parse_query(toks, pos + 1) {
            None => None,
            Some((q, after)) => if !stok_is_rparen(toks, after) {
                None
            } else {
                Some((SqlSetExprView::Query(Box::new(q)), after + 1))
            },
        }
    } else if !stok_is_word(toks, pos, "select"@) {
        None
    } else {
        match spec_find_from(toks, pos + 1) {
            None => None,
            Some((has_from, boundary)) => if !(pos + 1 <= boundary <= toks.len()) {
                None
            } else if !has_from {
                match spec_skip_trailing(toks, boundary) {
                    None => None,
                    Some(after) => Some(
                        (
                            SqlSetExprView::Select { from: Seq::empty() },
                            if after > pos {
                                after
                            } else {
                                pos + 1
                            },
                        ),
                    ),
                }
            } else if !(boundary < toks.len()) {
                None
            } else {
                match spec_parse_from_list(toks, boundary + 1) {
                    None => None,
                    Some((refs, after_from)) => if !(pos < after_from <= toks.len()) {
                        None
                    } else {
                        match spec_skip_trailing(toks, after_from) {
                            None => None,
                            Some(after) => Some((SqlSetExprView::Select { from: refs }, after)),
                        }
                    },
                }
            },
        }
    }
}

/// A FROM list: table references joined by comma joins and explicit
/// joins.
pub open spec fn spec_parse_from_list(toks: Seq<SqlTokenView>, pos: int) -> Option<
    (Seq<SqlTableRefView>, int),
>
    decreases toks.len() - pos, 1int,
{
    if pos < 0 || pos > toks.len() {
        None
    } else {
        match spec_parse_table_ref(toks, pos) {
            None => None,
            Some((first, after)) => if !(pos < after <= toks.len()) {
                None
            } else {
                spec_from_chain(toks, seq![first], after)
            },
        }
    }
}

/// The joins and comma joins that follow FROM entries already read into
/// `items`.
pub open spec fn spec_from_chain(
    toks: Seq<SqlTokenView>,
    items: Seq<SqlTableRefView>,
    cur: int,
) -> Option<(Seq<SqlTableRefView>, int)>
    decreases toks.len() - cur, 0int,
{
    if cur < 0 || cur > toks.len() {
        None
    } else if spec_join_word(toks, cur) {
        match spec_skip_join(toks, cur, 0) {
            None => None,
            Some(jcur) => if !(cur < jcur <= toks.len()) {
                None
            } else {
                match spec_parse_table_ref(toks, jcur) {
                    None => None,
                    Some((joined, after_j)) => if !(cur < after_j <= toks.len()) {
                        None
                    } else {
                        let items2 = items.push(joined);
                        if stok_is_word(toks, after_j, "on"@) {
                            match spec_skip_on_expr(toks, after_j + 1) {
                                None => None,
                                Some(after_on) => if !(cur < after_on <= toks.len()) {
                                    None
                                } else {
                                    spec_from_chain(toks, items2, after_on)
                                },
                            }
                        } else if stok_is_word(toks, after_j, "using"@) {
                            if after_j + 1 >= toks.len() {
                                None
                            } else {
                                match spec_skip_balanced(toks, after_j + 1) {
                                    None => None,
                                    Some(after_u) => if !(cur < after_u <= toks.len()) {
                                        None
                                    } else {
                                        spec_from_chain(toks, items2, after_u)
                                    },
                                }
                            }
                        } else {
                            spec_from_chain(toks, items2, after_j)
                        }
                    },
                }
            },
        }
    } else if stok_is_comma(toks, cur) {
        match spec_parse_table_ref(toks, cur + 1) {
            None => None,
            Some((next, after_n)) => if !(cur < after_n <= toks.len()) {
                None
            } else {
                spec_from_chain(toks, items.push(next), after_n)
            },
        }
    } else {
        Some((items, cur))
    }
}

/// One table reference: a possibly qualified name, a derived subquery,
/// or a nested join, each with an optional alias and wrapper clause.
pub open spec fn spec_parse_table_ref(toks: Seq<SqlTokenView>, pos: int) -> Option<
    (SqlTableRefView, int),
>
    decreases toks.len() - pos, 0int,
{
    if pos < 0 || pos > toks.len() {
        None
    } else if stok_is_lparen(toks, pos) {
        if stok_is_word(toks, pos + 1, "select"@) || stok_is_word(toks, pos + 1, "with"@) {
            match spec_parse_query(toks, pos + 1) {
                None => None,
                Some((q, after)) => if !stok_is_rparen(toks, after) {
                    None
                } else {
                    match spec_skip_alias(toks, after + 1) {
                        None => None,
                        Some(cur) => Some((SqlTableRefView::Derived(Box::new(q)), cur)),
                    }
                },
            }
        } else {
            match spec_parse_from_list(toks, pos + 1) {
                None => None,
                Some((items, after)) => if !stok_is_rparen(toks, after) {
                    None
                } else {
                    match spec_skip_alias(toks, after + 1) {
                        None => None,
                        Some(cur) => Some((SqlTableRefView::Nested(items), cur)),
                    }
                },
            }
        }
    } else {
        match stok_word(toks, pos) {
            None => None,
            Some(first) => match spec_dot_chain(toks, first, pos + 1) {
                None => None,
                Some((name, cur)) => match spec_skip_alias(toks, cur) {
                    None => None,
                    Some(end) => Some((SqlTableRefView::Named(name), end)),
                },
            },
        }
    }
}

/// Only semicolons may follow a parsed statement.
pub open spec fn spec_trailing_ok(toks: Seq<SqlTokenView>, p: int) -> bool
    decreases toks.len() - p,
{
    if p < 0 || p >= toks.len() {
        true
    } else {
        toks[p] is Semicolon && spec_trailing_ok(toks, p + 1)
    }
}

/// The query model of one SQL statement's text: its token stream parsed
/// as one query block with only semicolons after it; nothing otherwise.
pub open spec fn spec_parse_sql(s: Seq<char>) -> Option<SqlQueryView> {
    match spec_lex(s, 0) {
        None => None,
        Some(toks) => match spec_parse_query(toks, 0) {
            None => None,
            Some((q, after)) => if spec_trailing_ok(toks, after) {
                Some(q)
            } else {
                None
            },
        },
    }
}

/// Skips a balanced parenthesis group, exactly as `spec_skip_balanced`
/// states; `pos` must sit on the opening parenthesis.
#[verifier::loop_isolation(false)]
fn skip_balanced(toks: &Vec<SqlToken>, pos: usize) -> (r: Result<usize, String>)
    requires
        pos < toks@.len(),
    ensures
        r matches Ok(p) ==> pos < p <= toks@.len() && spec_skip_balanced(
            spec_toks_view(toks@),
            pos as int,
        ) == Some(p as int),
        r is Err ==> spec_skip_balanced(spec_toks_view(toks@), pos as int) is None,
{
    let ghost tv = spec_toks_view(toks@);
    if !tok_is_lparen(toks, pos) {
        return Err(parse_error("expected '('", pos));
    }
    let len = toks.len();
    let mut depth: usize = 1;
    let mut i: usize = pos + 1;
    while i < len && depth > 0
        invariant
            pos < i <= len,
            spec_skip_depth(tv, i as int, depth as int) == spec_skip_depth(tv, pos + 1, 1),
        decreases len - i,
    {
        proof {
            assert(tv[i as int] == toks@[i as int]@);
        }
        match &toks[i] {
            SqlToken::LParen => {
                if depth < usize::MAX {
                    depth += 1;
                }
            },
            SqlToken::RParen => {
                depth -= 1;
            },
            _ => {},
        }
        i += 1;
    }
    if depth > 0 {
        proof {
            assert(spec_skip_depth(tv, i as int, depth as int) is None);
        }
        return Err(parse_error("unbalanced parentheses", pos));
    }
    proof {
        assert(spec_skip_depth(tv, i as int, depth as int) == Some(i as int));
    }
    Ok(i)
}

/// Skips expression tokens until a FROM-list boundary at depth zero,
/// exactly as `spec_skip_on_expr` states.
#[verifier::loop_isolation(false)]
fn skip_on_expression(toks: &Vec<SqlToken>, pos: usize) -> (r: Result<usize, String>)
    requires
        pos <= toks@.len(),
    ensures
        r matches Ok(p) ==> pos <= p <= toks@.len() && spec_skip_on_expr(
            spec_toks_view(toks@),
            pos as int,
        ) == Some(p as int),
        r is Err ==> spec_skip_on_expr(spec_toks_view(toks@), pos as int) is None,
{
    let ghost tv = spec_toks_view(toks@);
    let len = toks.len();
    let mut i: usize = pos;
    while i < len
        invariant
            pos <= i <= len,
            spec_skip_on_expr(tv, i as int) == spec_skip_on_expr(tv, pos as int),
        decreases len - i,
    {
        if tok_is_rparen(toks, i) || tok_is_comma(toks, i) || is_join_word(toks, i)
            || is_clause_word(toks, i) {
            return Ok(i);
        }
        if tok_is_lparen(toks, i) {
            match skip_balanced(toks, i) {
                Ok(next) => {
                    proof {
                        assert(spec_skip_on_expr(tv, i as int) == spec_skip_on_expr(
                            tv,
                            next as int,
                        ));
                    }
                    i = next;
                },
                Err(e) => {
                    proof {
                        assert(spec_skip_on_expr(tv, i as int) is None);
                    }
                    return Err(e);
                },
            }
        } else {
            proof {
                assert(tv[i as int] == toks@[i as int]@);
                assert(spec_skip_on_expr(tv, i as int) == spec_skip_on_expr(tv, i + 1));
            }
            i += 1;
        }
    }
    Ok(i)
}

/// Skips the clauses after a FROM list, exactly as `spec_skip_trailing`
/// states.
#[verifier::loop_isolation(false)]
fn skip_trailing_clauses(toks: &Vec<SqlToken>, pos: usize) -> (r: Result<usize, String>)
    requires
        pos <= toks@.len(),
    ensures
        r matches Ok(p) ==> pos <= p <= toks@.len() && spec_skip_trailing(
            spec_toks_view(toks@),
            pos as int,
        ) == Some(p as int),
        r is Err ==> spec_skip_trailing(spec_toks_view(toks@), pos as int) is None,
{
    let ghost tv = spec_toks_view(toks@);
    let len = toks.len();
    let mut i: usize = pos;
    while i < len
        invariant
            pos <= i <= len,
            spec_skip_trailing(tv, i as int) == spec_skip_trailing(tv, pos as int),
        decreases len - i,
    {
        if tok_is_rparen(toks, i) || is_set_op_word(toks, i) {
            return Ok(i);
        }
        proof {
            assert(tv[i as int] == toks@[i as int]@);
        }
        match &toks[i] {
            SqlToken::Semicolon => {
                return Ok(i);
            },
            SqlToken::LParen => {
                match skip_balanced(toks, i) {
                    Ok(next) => {
                        proof {
                            assert(spec_skip_trailing(tv, i as int) == spec_skip_trailing(
                                tv,
                                next as int,
                            ));
                        }
                        i = next;
                    },
                    Err(e) => {
                        proof {
                            assert(spec_skip_trailing(tv, i as int) is None);
                        }
                        return Err(e);
                    },
                }
            },
            _ => {
                proof {
                    assert(spec_skip_trailing(tv, i as int) == spec_skip_trailing(tv, i + 1));
                }
                i += 1;
            },
        }
    }
    Ok(i)
}

/// Finds the FROM keyword of a select at depth zero, exactly as
/// `spec_find_from` states.
#[verifier::loop_isolation(false)]
fn find_from(toks: &Vec<SqlToken>, pos: usize) -> (r: Result<(bool, usize), String>)
    requires
        pos <= toks@.len(),
    ensures
        r matches Ok(p) ==> pos <= p.1 <= toks@.len() && (p.0 ==> p.1 < toks@.len())
            && spec_find_from(spec_toks_view(toks@), pos as int) == Some((p.0, p.1 as int)),
        r is Err ==> spec_find_from(spec_toks_view(toks@), pos as int) is None,
{
    let ghost tv = spec_toks_view(toks@);
    let len = toks.len();
    let mut i: usize = pos;
    while i < len
        invariant
            pos <= i <= len,
            spec_find_from(tv, i as int) == spec_find_from(tv, pos as int),
        decreases len - i,
    {
        if tok_is_word(toks, i, "from") {
            return Ok((true, i));
        }
        if tok_is_rparen(toks, i) || is_set_op_word(toks, i) || is_clause_word(toks, i) {
            return Ok((false, i));
        }
        proof {
            assert(tv[i as int] == toks@[i as int]@);
        }
        match &toks[i] {
            SqlToken::Semicolon => {
                return Ok((false, i));
            },
            SqlToken::LParen => {
                match skip_balanced(toks, i) {
                    Ok(next) => {
                        proof {
                            assert(spec_find_from(tv, i as int) == spec_find_from(tv, next as int));
                        }
                        i = next;
                    },
                    Err(e) => {
                        proof {
                            assert(spec_find_from(tv, i as int) is None);
                        }
                        return Err(e);
                    },
                }
            },
            _ => {
                proof {
                    assert(spec_find_from(tv, i as int) == spec_find_from(tv, i + 1));
                }
                i += 1;
            },
        }
    }
    Ok((false, i))
}

/// Reads one query block, exactly as `spec_parse_query` states.
#[verifier::loop_isolation(false)]
#[verifier::rlimit(100)]
pub fn parse_query(toks: &Vec<SqlToken>, pos: usize) -> (r: Result<(SqlQuery, usize), String>)
    requires
        pos <= toks@.len(),
    ensures
        r matches Ok(p) ==> pos < p.1 <= toks@.len() && spec_parse_query(
            spec_toks_view(toks@),
            pos as int,
        ) == Some((p.0@, p.1 as int)),
        r is Err ==> spec_parse_query(spec_toks_view(toks@), pos as int) is None,
    decreases toks@.len() - pos, 3int,
{
    let ghost tv = spec_toks_view(toks@);
    let token_count: usize = toks.len();
    let mut ctes: Vec<SqlCte> = Vec::new();
    let mut cur: usize = pos;
    let has_with = tok_is_word(toks, cur, "with");
    if has_with {
        cur += 1;
        if tok_is_word(toks, cur, "recursive") {
            cur += 1;
        }
        let ghost start = cur as int;
        proof {
            assert(spec_ctes_view(ctes@) =~= Seq::<SqlCteView>::empty());
            if spec_parse_ctes(tv, start) is Some {
                let (l, e) = spec_parse_ctes(tv, start)->0;
                assert(Seq::<SqlCteView>::empty() + l =~= l);
            }
        }
        let mut done = false;
        while !done
            invariant
                pos < cur <= toks@.len(),
                !done ==> spec_cte_app(spec_ctes_view(ctes@), spec_parse_ctes(tv, cur as int))
                    == spec_parse_ctes(tv, start),
                done ==> spec_parse_ctes(tv, start) == Some((spec_ctes_view(ctes@), cur as int)),
            decreases toks@.len() - cur, (if done { 0int } else { 1int }),
        {
            let ghost cur0 = cur as int;
            let ghost acc0 = spec_ctes_view(ctes@);
            let name = match tok_word(toks, cur) {
                Some(w) => w,
                None => {
                    proof {
                        assert(spec_parse_ctes(tv, cur0) is None);
                    }
                    return Err(parse_error("expected CTE name", cur));
                },
            };
            let ghost namev = name@;
            cur += 1;
            if cur < toks.len() && tok_is_lparen(toks, cur) {
                match skip_balanced(toks, cur) {
                    Ok(j) => {
                        cur = j;
                    },
                    Err(e) => {
                        proof {
                            assert(spec_parse_ctes(tv, cur0) is None);
                        }
                        return Err(e);
                    },
                }
            }
            if !tok_is_word(toks, cur, "as") {
                proof {
                    assert(spec_parse_ctes(tv, cur0) is None);
                }
                return Err(parse_error("expected AS in CTE definition", cur));
            }
            cur += 1;
            if cur >= toks.len() || !tok_is_lparen(toks, cur) {
                proof {
                    assert(spec_parse_ctes(tv, cur0) is None);
                }
                return Err(parse_error("expected '(' after AS", cur));
            }
            cur += 1;
            let (body, after) = match parse_query(toks, cur) {
                Ok(p) => p,
                Err(e) => {
                    proof {
                        assert(spec_parse_ctes(tv, cur0) is None);
                    }
                    return Err(e);
                },
            };
            cur = after;
            if !tok_is_rparen(toks, cur) {
                proof {
                    assert(spec_parse_ctes(tv, cur0) is None);
                }
                return Err(parse_error("expected ')' after CTE body", cur));
            }
            cur += 1;
            let ghost bodyv = body@;
            ctes.push(SqlCte { name, query: body });
            proof {
                assert(spec_ctes_view(ctes@) =~= acc0.push(
                    SqlCteView { name: namev, query: bodyv },
                ));
            }
            if tok_is_comma(toks, cur) {
                cur += 1;
                proof {
                    let cte = SqlCteView { name: namev, query: bodyv };
                    if spec_parse_ctes(tv, cur as int) is Some {
                        let (rest, end) = spec_parse_ctes(tv, cur as int)->0;
                        assert(spec_parse_ctes(tv, cur0) == Some((seq![cte] + rest, end)));
                        assert(acc0 + (seq![cte] + rest) =~= acc0.push(cte) + rest);
                    } else {
                        assert(spec_parse_ctes(tv, cur0) is None);
                    }
                }
            } else {
                proof {
                    let cte = SqlCteView { name: namev, query: bodyv };
                    assert(spec_parse_ctes(tv, cur0) == Some((seq![cte], cur as int)));
                    assert(acc0 + seq![cte] =~= acc0.push(cte));
                }
                done = true;
            }
        }
    }
    let (body, after) = match parse_set_expr(toks, cur) {
        Ok(p) => p,
        Err(e) => {
            proof {
                assert(spec_parse_query(tv, pos as int) is None);
            }
            return Err(e);
        },
    };
    let ghost ctesv = spec_ctes_view(ctes@);
    let ghost bodyv = body@;
    let result = SqlQuery { ctes, body };
    proof {
        assert(result@.ctes =~= ctesv);
        assert(result@.body == bodyv);
        assert(result@ == SqlQueryView { ctes: ctesv, body: bodyv });
        if has_with {
            assert(spec_parse_query(tv, pos as int) == Some((result@, after as int)));
        } else {
            assert(ctesv =~= Seq::<SqlCteView>::empty());
            assert(result@ == SqlQueryView { ctes: Seq::empty(), body: bodyv });
            assert(spec_parse_query(tv, pos as int) == Some((result@, after as int)));
        }
    }
    Ok((result, after))
}

/// Reads a body, exactly as `spec_parse_set_expr` states.
#[verifier::loop_isolation(false)]
fn parse_set_expr(toks: &Vec<SqlToken>, pos: usize) -> (r: Result<(SqlSetExpr, usize), String>)
    requires
        pos <= toks@.len(),
    ensures
        r matches Ok(p) ==> pos < p.1 <= toks@.len() && spec_parse_set_expr(
            spec_toks_view(toks@),
            pos as int,
        ) == Some((p.0@, p.1 as int)),
        r is Err ==> spec_parse_set_expr(spec_toks_view(toks@), pos as int) is None,
    decreases toks@.len() - pos, 2int,
{
    let ghost tv = spec_toks_view(toks@);
    let token_count: usize = toks.len();
    let (first, after_first) = match parse_set_primary(toks, pos) {
        Ok(p) => p,
        Err(e) => {
            proof {
                assert(spec_parse_set_expr(tv, pos as int) is None);
            }
            return Err(e);
        },
    };
    let mut acc = first;
    let mut cur: usize = after_first;
    proof {
        assert(spec_parse_set_expr(tv, pos as int) == spec_setop_chain(tv, acc@, cur as int));
    }
    while is_set_op_word(toks, cur)
        invariant
            pos < cur <= toks@.len(),
            spec_setop_chain(tv, acc@, cur as int) == spec_parse_set_expr(tv, pos as int),
        decreases toks@.len() - cur,
    {
        let ghost cur0 = cur as int;
        let ghost accv = acc@;
        cur += 1;
        if tok_is_word(toks, cur, "all") || tok_is_word(toks, cur, "distinct") {
            cur += 1;
        }
        let (right, after_right) = match parse_set_primary(toks, cur) {
            Ok(p) => p,
            Err(e) => {
                proof {
                    assert(spec_setop_chain(tv, accv, cur0) is None);
                }
                return Err(e);
            },
        };
        let ghost rightv = right@;
        cur = after_right;
        acc = SqlSetExpr::SetOp { left: Box::new(acc), right: Box::new(right) };
        proof {
            assert(acc@ == SqlSetExprView::SetOp {
                left: Box::new(accv),
                right: Box::new(rightv),
            });
            assert(spec_setop_chain(tv, accv, cur0) == spec_setop_chain(tv, acc@, cur as int));
        }
    }
    proof {
        assert(spec_setop_chain(tv, acc@, cur as int) == Some((acc@, cur as int)));
    }
    Ok((acc, cur))
}

/// Reads one select block or one parenthesized query, exactly as
/// `spec_parse_set_primary` states.
#[verifier::loop_isolation(false)]
fn parse_set_primary(toks: &Vec<SqlToken>, pos: usize) -> (r: Result<(SqlSetExpr, usize), String>)
    requires
        pos <= toks@.len(),
    ensures
        r matches Ok(p) ==> pos < p.1 <= toks@.len() && spec_parse_set_primary(
            spec_toks_view(toks@),
            pos as int,
        ) == Some((p.0@, p.1 as int)),
        r is Err ==> spec_parse_set_primary(spec_toks_view(toks@), pos as int) is None,
    decreases toks@.len() - pos, 1int,
{
    let ghost tv = spec_toks_view(toks@);
    if pos < toks.len() && tok_is_lparen(toks, pos) {
        let (q, after) = match parse_query(toks, pos + 1) {
            Ok(p) => p,
            Err(e) => {
                proof {
                    assert(spec_parse_set_primary(tv, pos as int) is None);
                }
                return Err(e);
            },
        };
        if !tok_is_rparen(toks, after) {
            proof {
                assert(spec_parse_set_primary(tv, pos as int) is None);
            }
            return Err(parse_error("expected ')' after subquery", after));
        }
        let ghost qv = q@;
        let result = SqlSetExpr::Query(Box::new(q));
        proof {
            assert(result@ == SqlSetExprView::Query(Box::new(qv)));
            assert(spec_parse_set_primary(tv, pos as int) == Some((result@, after + 1)));
        }
        return Ok((result, after + 1));
    }
    if !tok_is_word(toks, pos, "select") {
        proof {
            assert(spec_parse_set_primary(tv, pos as int) is None);
        }
        return Err(parse_error("expected SELECT", pos));
    }
    let (has_from, boundary) = match find_from(toks, pos + 1) {
        Ok(p) => p,
        Err(e) => {
            proof {
                assert(spec_parse_set_primary(tv, pos as int) is None);
            }
            return Err(e);
        },
    };
    if !has_from {
        let after = match skip_trailing_clauses(toks, boundary) {
            Ok(p) => p,
            Err(e) => {
                proof {
                    assert(spec_parse_set_primary(tv, pos as int) is None);
                }
                return Err(e);
            },
        };
        let result = SqlSetExpr::Select { from: Vec::new() };
        proof {
            assert(result@->Select_from =~= Seq::<SqlTableRefView>::empty());
            assert(result@ == SqlSetExprView::Select { from: Seq::<SqlTableRefView>::empty() });
            assert(spec_parse_set_primary(tv, pos as int) == Some(
                (
                    result@,
                    if after > pos {
                        after as int
                    } else {
                        pos + 1
                    },
                ),
            ));
        }
        return Ok((result, if after > pos {
            after
        } else {
            pos + 1
        }));
    }
    let (refs, after_from) = match parse_from_list(toks, boundary + 1) {
        Ok(p) => p,
        Err(e) => {
            proof {
                assert(spec_parse_set_primary(tv, pos as int) is None);
            }
            return Err(e);
        },
    };
    let after = match skip_trailing_clauses(toks, after_from) {
        Ok(p) => p,
        Err(e) => {
            proof {
                assert(spec_parse_set_primary(tv, pos as int) is None);
            }
            return Err(e);
        },
    };
    let ghost refsv = spec_refs_view(refs@);
    let result = SqlSetExpr::Select { from: refs };
    proof {
        assert(result@->Select_from =~= refsv);
        assert(result@ == SqlSetExprView::Select { from: refsv });
        assert(spec_parse_set_primary(tv, pos as int) == Some((result@, after as int)));
    }
    Ok((result, after))
}

/// Reads a FROM list, exactly as `spec_parse_from_list` states.
#[verifier::loop_isolation(false)]
fn parse_from_list(toks: &Vec<SqlToken>, pos: usize) -> (r: Result<
    (Vec<SqlTableRef>, usize),
    String,
>)
    requires
        pos <= toks@.len(),
    ensures
        r matches Ok(p) ==> pos < p.1 <= toks@.len() && spec_parse_from_list(
            spec_toks_view(toks@),
            pos as int,
        ) == Some((spec_refs_view(p.0@), p.1 as int)),
        r is Err ==> spec_parse_from_list(spec_toks_view(toks@), pos as int) is None,
    decreases toks@.len() - pos, 1int,
{
    let ghost tv = spec_toks_view(toks@);
    let token_count: usize = toks.len();
    let mut items: Vec<SqlTableRef> = Vec::new();
    let (first, after_first) = match parse_table_ref(toks, pos) {
        Ok(p) => p,
        Err(e) => {
            proof {
                assert(spec_parse_from_list(tv, pos as int) is None);
            }
            return Err(e);
        },
    };
    let ghost firstv = first@;
    items.push(first);
    let mut cur: usize = after_first;
    proof {
        assert(spec_refs_view(items@) =~= seq![firstv]);
        assert(spec_parse_from_list(tv, pos as int) == spec_from_chain(
            tv,
            spec_refs_view(items@),
            cur as int,
        ));
    }
    let mut done = false;
    while !done
        invariant
            pos < cur <= toks@.len(),
            !done ==> spec_from_chain(tv, spec_refs_view(items@), cur as int)
                == spec_parse_from_list(tv, pos as int),
            done ==> spec_parse_from_list(tv, pos as int) == Some(
                (spec_refs_view(items@), cur as int),
            ),
        decreases toks@.len() - cur, (if done { 0int } else { 1int }),
    {
        let ghost cur0 = cur as int;
        let ghost acc0 = spec_refs_view(items@);
        if is_join_word(toks, cur) {
            let ghost entry = cur;
            let mut guard: usize = 0;
            while !tok_is_word(toks, cur, "join") && guard < 3
                invariant
                    pos < cur <= toks@.len(),
                    entry <= cur,
                    guard <= 3,
                    spec_skip_join(tv, cur as int, guard as int) == spec_skip_join(
                        tv,
                        entry as int,
                        0,
                    ),
                decreases 3 - guard,
            {
                if is_join_word(toks, cur) || tok_is_word(toks, cur, "outer") {
                    cur += 1;
                    guard += 1;
                } else {
                    proof {
                        assert(spec_skip_join(tv, entry as int, 0) is None);
                        assert(spec_from_chain(tv, acc0, cur0) is None);
                    }
                    return Err(parse_error("expected JOIN", cur));
                }
            }
            if !tok_is_word(toks, cur, "join") {
                proof {
                    assert(spec_skip_join(tv, entry as int, 0) is None);
                    assert(spec_from_chain(tv, acc0, cur0) is None);
                }
                return Err(parse_error("expected JOIN", cur));
            }
            cur += 1;
            proof {
                assert(spec_skip_join(tv, entry as int, 0) == Some(cur as int));
            }
            let (joined, after_joined) = match parse_table_ref(toks, cur) {
                Ok(p) => p,
                Err(e) => {
                    proof {
                        assert(spec_from_chain(tv, acc0, cur0) is None);
                    }
                    return Err(e);
                },
            };
            let ghost joinedv = joined@;
            items.push(joined);
            cur = after_joined;
            proof {
                assert(spec_refs_view(items@) =~= acc0.push(joinedv));
            }
            if tok_is_word(toks, cur, "on") {
                match skip_on_expression(toks, cur + 1) {
                    Ok(p) => {
                        proof {
                            assert(spec_from_chain(tv, acc0, cur0) == spec_from_chain(
                                tv,
                                acc0.push(joinedv),
                                p as int,
                            ));
                        }
                        cur = p;
                    },
                    Err(e) => {
                        proof {
                            assert(spec_from_chain(tv, acc0, cur0) is None);
                        }
                        return Err(e);
                    },
                }
            } else if tok_is_word(toks, cur, "using") {
                cur += 1;
                if cur >= toks.len() {
                    proof {
                        assert(spec_from_chain(tv, acc0, cur0) is None);
                    }
                    return Err(parse_error("expected '(' after USING", cur));
                }
                match skip_balanced(toks, cur) {
                    Ok(p) => {
                        proof {
                            assert(spec_from_chain(tv, acc0, cur0) == spec_from_chain(
                                tv,
                                acc0.push(joinedv),
                                p as int,
                            ));
                        }
                        cur = p;
                    },
                    Err(e) => {
                        proof {
                            assert(spec_from_chain(tv, acc0, cur0) is None);
                        }
                        return Err(e);
                    },
                }
            } else {
                proof {
                    assert(spec_from_chain(tv, acc0, cur0) == spec_from_chain(
                        tv,
                        acc0.push(joinedv),
                        cur as int,
                    ));
                }
            }
        } else if tok_is_comma(toks, cur) {
            let (next, after_next) = match parse_table_ref(toks, cur + 1) {
                Ok(p) => p,
                Err(e) => {
                    proof {
                        assert(spec_from_chain(tv, acc0, cur0) is None);
                    }
                    return Err(e);
                },
            };
            let ghost nextv = next@;
            items.push(next);
            cur = after_next;
            proof {
                assert(spec_refs_view(items@) =~= acc0.push(nextv));
                assert(spec_from_chain(tv, acc0, cur0) == spec_from_chain(
                    tv,
                    acc0.push(nextv),
                    cur as int,
                ));
            }
        } else {
            proof {
                assert(spec_from_chain(tv, acc0, cur0) == Some((acc0, cur0)));
            }
            done = true;
        }
    }
    Ok((items, cur))
}

/// Reads one table reference, exactly as `spec_parse_table_ref` states.
#[verifier::loop_isolation(false)]
fn parse_table_ref(toks: &Vec<SqlToken>, pos: usize) -> (r: Result<(SqlTableRef, usize), String>)
    requires
        pos <= toks@.len(),
    ensures
        r matches Ok(p) ==> pos < p.1 <= toks@.len() && spec_parse_table_ref(
            spec_toks_view(toks@),
            pos as int,
        ) == Some((p.0@, p.1 as int)),
        r is Err ==> spec_parse_table_ref(spec_toks_view(toks@), pos as int) is None,
    decreases toks@.len() - pos, 0int,
{
    let ghost tv = spec_toks_view(toks@);
    if pos < toks.len() && tok_is_lparen(toks, pos) {
        if tok_is_word(toks, pos + 1, "select") || tok_is_word(toks, pos + 1, "with") {
            let (q, after) = match parse_query(toks, pos + 1) {
                Ok(p) => p,
                Err(e) => {
                    proof {
                        assert(spec_parse_table_ref(tv, pos as int) is None);
                    }
                    return Err(e);
                },
            };
            if !tok_is_rparen(toks, after) {
                proof {
                    assert(spec_parse_table_ref(tv, pos as int) is None);
                }
                return Err(parse_error("expected ')' after derived table", after));
            }
            let cur = match skip_alias_and_wrappers(toks, after + 1) {
                Ok(p) => p,
                Err(e) => {
                    proof {
                        assert(spec_parse_table_ref(tv, pos as int) is None);
                    }
                    return Err(e);
                },
            };
            let ghost qv = q@;
            let result = SqlTableRef::Derived(Box::new(q));
            proof {
                assert(result@ == SqlTableRefView::Derived(Box::new(qv)));
                assert(spec_parse_table_ref(tv, pos as int) == Some((result@, cur as int)));
            }
            return Ok((result, cur));
        }
        let (inner_items, after) = match parse_from_list(toks, pos + 1) {
            Ok(p) => p,
            Err(e) => {
                proof {
                    assert(spec_parse_table_ref(tv, pos as int) is None);
                }
                return Err(e);
            },
        };
        if !tok_is_rparen(toks, after) {
            proof {
                assert(spec_parse_table_ref(tv, pos as int) is None);
            }
            return Err(parse_error("expected ')' after nested join", after));
        }
        let cur = match skip_alias_and_wrappers(toks, after + 1) {
            Ok(p) => p,
            Err(e) => {
                proof {
                    assert(spec_parse_table_ref(tv, pos as int) is None);
                }
                return Err(e);
            },
        };
        let ghost itemsv = spec_refs_view(inner_items@);
        let result = SqlTableRef::Nested(inner_items);
        proof {
            assert(result@->Nested_0 =~= itemsv);
            assert(result@ == SqlTableRefView::Nested(itemsv));
            assert(spec_parse_table_ref(tv, pos as int) == Some((result@, cur as int)));
        }
        return Ok((result, cur));
    }
    let token_count: usize = toks.len();
    let first = match tok_word(toks, pos) {
        Some(w) => w,
        None => {
            proof {
                assert(spec_parse_table_ref(tv, pos as int) is None);
            }
            return Err(parse_error("expected table reference", pos));
        },
    };
    let ghost firstv = first@;
    let mut name = first;
    let mut cur: usize = pos + 1;
    while tok_is_dot(toks, cur)
        invariant
            pos < cur <= toks@.len(),
            spec_dot_chain(tv, name@, cur as int) == spec_dot_chain(tv, firstv, pos + 1),
        decreases toks@.len() - cur,
    {
        let ghost cur0 = cur as int;
        match tok_word(toks, cur + 1) {
            Some(w) => {
                proof {
                    assert(spec_dot_chain(tv, name@, cur0) == spec_dot_chain(tv, w@, cur0 + 2));
                }
                name = w;
                cur += 2;
            },
            None => {
                proof {
                    assert(spec_dot_chain(tv, name@, cur0) is None);
                    assert(spec_parse_table_ref(tv, pos as int) is None);
                }
                return Err(parse_error("expected name after '.'", cur));
            },
        }
    }
    proof {
        assert(spec_dot_chain(tv, name@, cur as int) == Some((name@, cur as int)));
    }
    let end = match skip_alias_and_wrappers(toks, cur) {
        Ok(p) => p,
        Err(e) => {
            proof {
                assert(spec_parse_table_ref(tv, pos as int) is None);
            }
            return Err(e);
        },
    };
    let ghost namev = name@;
    let result = SqlTableRef::Named(name);
    proof {
        assert(result@ == SqlTableRefView::Named(namev));
        assert(spec_parse_table_ref(tv, pos as int) == Some((result@, end as int)));
    }
    Ok((result, end))
}

/// Skips an optional alias and any wrapper clause, exactly as
/// `spec_skip_alias` states.
#[verifier::loop_isolation(false)]
fn skip_alias_and_wrappers(toks: &Vec<SqlToken>, pos: usize) -> (r: Result<usize, String>)
    requires
        pos <= toks@.len(),
    ensures
        r matches Ok(p) ==> pos <= p <= toks@.len() && spec_skip_alias(
            spec_toks_view(toks@),
            pos as int,
        ) == Some(p as int),
        r is Err ==> spec_skip_alias(spec_toks_view(toks@), pos as int) is None,
{
    let ghost tv = spec_toks_view(toks@);
    let mut cur: usize = pos;
    let len = toks.len();
    loop
        invariant
            pos <= cur <= toks@.len(),
            spec_skip_alias(tv, cur as int) == spec_skip_alias(tv, pos as int),
        decreases toks@.len() - cur,
    {
        let ghost cur0 = cur as int;
        if tok_is_word(toks, cur, "pivot") || tok_is_word(toks, cur, "unpivot") || tok_is_word(
            toks,
            cur,
            "match_recognize",
        ) {
            if len - cur <= 1 {
                proof {
                    assert(spec_skip_alias(tv, cur0) is None);
                }
                return Err(parse_error("expected '(' after wrapper", cur));
            }
            match skip_balanced(toks, cur + 1) {
                Ok(p) => {
                    proof {
                        assert(spec_skip_alias(tv, cur0) == spec_skip_alias(tv, p as int));
                    }
                    cur = p;
                },
                Err(e) => {
                    proof {
                        assert(spec_skip_alias(tv, cur0) is None);
                    }
                    return Err(e);
                },
            }
        } else if tok_is_word(toks, cur, "as") {
            if len - cur <= 1 {
                proof {
                    assert(spec_skip_alias(tv, cur0) is None);
                }
                return Err(parse_error("expected alias after AS", cur));
            }
            match tok_word(toks, cur + 1) {
                Some(_) => {
                    proof {
                        assert(spec_skip_alias(tv, cur0) == spec_skip_alias(tv, cur0 + 2));
                    }
                    cur += 2;
                },
                None => {
                    proof {
                        assert(spec_skip_alias(tv, cur0) is None);
                    }
                    return Err(parse_error("expected alias after AS", cur));
                },
            }
        } else if cur < len && !is_reserved_word(toks, cur) {
            match tok_word(toks, cur) {
                Some(_) => {
                    proof {
                        assert(spec_skip_alias(tv, cur0) == spec_skip_alias(tv, cur0 + 1));
                    }
                    cur += 1;
                },
                None => {
                    proof {
                        assert(spec_skip_alias(tv, cur0) == Some(cur0));
                    }
                    return Ok(cur);
                },
            }
        } else {
            proof {
                assert(spec_skip_alias(tv, cur0) == Some(cur0));
            }
            return Ok(cur);
        }
    }
}

/// Parses one SQL statement into the resolver's query model, exactly as
/// `spec_parse_sql` states; trailing semicolons are accepted, anything
/// else after the statement is an error naming its position.
#[verifier::loop_isolation(false)]
pub fn parse_sql_query(sql: &str) -> (r: Result<SqlQuery, String>)
    ensures
        r matches Ok(q) ==> spec_parse_sql(sql@) == Some(q@),
        r is Err ==> spec_parse_sql(sql@) is None,
{
    let len = sql.unicode_len();
    let mut chars: Vec<char> = Vec::new();
    let mut i: usize = 0;
    while i < len
        invariant
            len == sql@.len(),
            i <= len,
            chars@ =~= sql@.subrange(0, i as int),
        decreases len - i,
    {
        let c = sql.get_char(i);
        chars.push(c);
        proof {
            assert(chars@ =~= sql@.subrange(0, i + 1));
        }
        i += 1;
    }
    proof {
        assert(chars@ =~= sql@);
    }
    let toks = match tokenize_sql(&chars) {
        Ok(t) => t,
        Err(e) => {
            proof {
                assert(spec_parse_sql(sql@) is None);
            }
            return Err(e);
        },
    };
    let ghost tv = spec_toks_view(toks@);
    let (query, mut after) = match parse_query(&toks, 0) {
        Ok(p) => p,
        Err(e) => {
            proof {
                assert(spec_parse_sql(sql@) is None);
            }
            return Err(e);
        },
    };
    let total = toks.len();
    let ghost after0 = after as int;
    while after < total
        invariant
            after <= total,
            total == toks@.len(),
            spec_trailing_ok(tv, after as int) == spec_trailing_ok(tv, after0),
        decreases total - after,
    {
        proof {
            assert(tv[after as int] == toks@[after as int]@);
        }
        match &toks[after] {
            SqlToken::Semicolon => {
                proof {
                    assert(spec_trailing_ok(tv, after as int) == spec_trailing_ok(tv, after + 1));
                }
                after += 1;
            },
            _ => {
                proof {
                    assert(!spec_trailing_ok(tv, after as int));
                    assert(spec_parse_sql(sql@) is None);
                }
                return Err(parse_error("unexpected trailing input", after));
            },
        }
    }
    proof {
        assert(spec_trailing_ok(tv, after as int));
        assert(spec_parse_sql(sql@) == Some(query@));
    }
    Ok(query)
}

/// The text every parse rejection starts with.
pub open spec fn spec_sql_reject_prefix() -> Seq<char> {
    "failed to parse TPC-DS SQL for table registration: "@
}

/// The deterministic, case-normalized, lexicographically sorted,
/// duplicate-free base tables one SQL statement reads from, exactly the
/// dependency set of the statement's query model; CTE aliases and
/// derived-table aliases never appear. A statement the grammar rejects
/// earns an explicit error carrying the parser's message.
pub fn referenced_table_names(sql: &str) -> (r: BenchResult<Vec<String>>)
    ensures
        r matches Ok(names) ==> spec_parse_sql(sql@) matches Some(q) && spec_sorted_unique(
            names.deep_view(),
        ) && spec_names_set(names.deep_view()) == spec_query_tables(q, Seq::empty()),
        r matches Err(e) ==> spec_parse_sql(sql@) is None && (e matches BenchError::InvalidArgument(
            m,
        ) && m@.len() >= spec_sql_reject_prefix().len() && m@.subrange(
            0,
            spec_sql_reject_prefix().len() as int,
        ) == spec_sql_reject_prefix() && m@.len() > 0),
{
    match parse_sql_query(sql) {
        Ok(query) => {
            let names = query_base_tables(&query);
            Ok(names)
        },
        Err(detail) => {
            let mut m = String::new();
            m.append("failed to parse TPC-DS SQL for table registration: ");
            m.append(detail.as_str());
            proof {
                reveal_strlit("failed to parse TPC-DS SQL for table registration: ");
                assert(m@ == spec_sql_reject_prefix() + detail@);
                assert(m@.subrange(0, spec_sql_reject_prefix().len() as int)
                    =~= spec_sql_reject_prefix());
            }
            Err(BenchError::InvalidArgument(m))
        },
    }
}

} // verus!
