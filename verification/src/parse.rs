//! The filter-language lexer and parser.
//!
//! Grammar: `or := and ('||' and)*`, `and := primary ('&&' primary)*`,
//! `primary := '(' or ')' | comparison`.  A comparison is a field followed by
//! an operator and a literal, a list, a quoted string, or `null`, or a
//! `len(field)` comparison.  The specification functions below define the
//! parse mathematically; the executable functions mirror them and are proved
//! equal.

use vstd::prelude::*;

use crate::cond::{Compare, Expr, ExprView, Span, Value, ValueView};
use crate::value::{pow10, Num};

verus! {

/// A lexical token shape, over mathematical strings.
pub enum TokView {
    End,
    LPar,
    RPar,
    Comma,
    OpEq,
    OpNe,
    OpGt,
    OpGte,
    OpLt,
    OpLte,
    OpAnd,
    OpOr,
    OpLike,
    OpNotLike,
    OpIn,
    OpNotIn,
    OpIsNull,
    OpIsNotNull,
    OpBelong,
    OpNoBelong,
    KwTrue,
    KwFalse,
    KwNull,
    KwLen,
    Ident(Seq<char>),
    NumTok(Num),
    StrTok(Seq<char>),
}

/// Whitespace, skipped between tokens.
pub open spec fn is_space(c: char) -> bool {
    c == ' ' || c == '\t' || c == '\r' || c == '\n'
}

/// A decimal digit.
pub open spec fn is_digit(c: char) -> bool {
    '0' <= c && c <= '9'
}

/// A character of an identifier: letters, digits, `_`, `-` and `.`.
pub open spec fn is_ident_char(c: char) -> bool {
    ('a' <= c && c <= 'z') || ('A' <= c && c <= 'Z') || is_digit(c) || c == '_' || c == '-'
        || c == '.'
}

/// The first position at or after `i` that does not hold whitespace.
pub open spec fn skip_ws(s: Seq<char>, i: nat) -> nat
    decreases s.len() - i,
{
    if i < s.len() && is_space(s[i as int]) {
        skip_ws(s, i + 1)
    } else {
        i
    }
}

/// The position after the run of digits starting at `i`.
pub open spec fn scan_digits(s: Seq<char>, i: nat) -> nat
    decreases s.len() - i,
{
    if i < s.len() && is_digit(s[i as int]) {
        scan_digits(s, i + 1)
    } else {
        i
    }
}

/// The position after the run of identifier characters starting at `i`.
pub open spec fn scan_ident(s: Seq<char>, i: nat) -> nat
    decreases s.len() - i,
{
    if i < s.len() && is_ident_char(s[i as int]) {
        scan_ident(s, i + 1)
    } else {
        i
    }
}

/// The first position at or after `i` holding the character `c`, or the
/// length of `s` when there is none.
pub open spec fn find_char(s: Seq<char>, i: nat, c: char) -> nat
    decreases s.len() - i,
{
    if i >= s.len() {
        s.len()
    } else if s[i as int] == c {
        i
    } else {
        find_char(s, i + 1, c)
    }
}

/// `find_char` stays within `[i, len]` and marks the first occurrence.
pub proof fn lemma_find_char(s: Seq<char>, i: nat, c: char)
    ensures
        find_char(s, i, c) <= s.len(),
        i <= s.len() ==> i <= find_char(s, i, c),
        find_char(s, i, c) < s.len() ==> s[find_char(s, i, c) as int] == c,
        forall|k: int| i <= k < find_char(s, i, c) ==> s[k] != c,
    decreases s.len() - i,
{
    if i < s.len() && s[i as int] != c {
        lemma_find_char(s, i + 1, c);
    }
}

/// The numeric value of the digits `s[i..j]`, most significant first.
pub open spec fn digits_val(s: Seq<char>, i: nat, j: nat) -> int
    decreases j - i,
{
    if i >= j {
        0
    } else {
        digits_val(s, i, (j - 1) as nat) * 10 + (s[j - 1] as int - '0' as int)
    }
}

/// The identifier word starting at `i`.
pub open spec fn word_at(s: Seq<char>, i: nat) -> Seq<char> {
    s.subrange(i as int, scan_ident(s, i) as int)
}

/// The integer token starting at `i`: the digit run read as an integer, as
/// long as it fits the integer range.
pub open spec fn tok_int(s: Seq<char>, j: nat) -> Option<(TokView, nat, nat)> {
    if scan_digits(s, j) - j <= 20 && digits_val(s, j, scan_digits(s, j)) <= 0xFFFF_FFFF_FFFF_FFFF {
        Some(
            (
                TokView::NumTok(Num::Int(digits_val(s, j, scan_digits(s, j)) as i128)),
                j,
                scan_digits(s, j),
            ),
        )
    } else {
        None
    }
}

/// The mantissa of the decimal literal whose integer digits end at `e1` and
/// whose fractional digits run from `e1 + 1` to `e2`.
pub open spec fn dec_mant(s: Seq<char>, j: nat, e1: nat, e2: nat) -> int {
    digits_val(s, j, e1) * pow10((e2 - e1 - 1) as nat) + digits_val(s, e1 + 1, e2)
}

/// The decimal token starting at `j`, with integer digits up to `e1` and
/// fractional digits up to `e2`: accepted while it keeps at most eighteen
/// digits in all.
pub open spec fn tok_dec(s: Seq<char>, j: nat, e1: nat, e2: nat) -> Option<(TokView, nat, nat)> {
    if (e1 - j) + (e2 - e1 - 1) <= 18 {
        Some(
            (
                TokView::NumTok(
                    Num::Dec {
                        mant: dec_mant(s, j, e1, e2) as i64,
                        scale: (e2 - e1 - 1) as u32,
                    },
                ),
                j,
                e2,
            ),
        )
    } else {
        None
    }
}

/// Whether the digit run starting at `j` continues with a fractional part.
pub open spec fn has_frac(s: Seq<char>, j: nat) -> bool {
    scan_digits(s, j) < s.len() && s[scan_digits(s, j) as int] == '.' && scan_digits(s, j) + 1
        < s.len() && is_digit(s[scan_digits(s, j) as int + 1])
}

/// The numeric token starting at `j`.
pub open spec fn tok_number(s: Seq<char>, j: nat) -> Option<(TokView, nat, nat)> {
    if has_frac(s, j) {
        tok_dec(s, j, scan_digits(s, j), scan_digits(s, scan_digits(s, j) + 1))
    } else {
        tok_int(s, j)
    }
}

/// The string token starting at the quote at `j`: everything up to the next
/// matching quote; an unterminated string is an error.
pub open spec fn tok_str(s: Seq<char>, j: nat) -> Option<(TokView, nat, nat)> {
    if find_char(s, j + 1, s[j as int]) < s.len() {
        Some(
            (
                TokView::StrTok(s.subrange(j as int + 1, find_char(s, j + 1, s[j as int]) as int)),
                j,
                find_char(s, j + 1, s[j as int]) + 1,
            ),
        )
    } else {
        None
    }
}

/// The word token starting at `j`: one of the keywords, or an identifier.
pub open spec fn tok_word(s: Seq<char>, j: nat) -> Option<(TokView, nat, nat)> {
    if word_at(s, j) == seq!['t', 'r', 'u', 'e'] {
        Some((TokView::KwTrue, j, scan_ident(s, j)))
    } else if word_at(s, j) == seq!['f', 'a', 'l', 's', 'e'] {
        Some((TokView::KwFalse, j, scan_ident(s, j)))
    } else if word_at(s, j) == seq!['n', 'u', 'l', 'l'] {
        Some((TokView::KwNull, j, scan_ident(s, j)))
    } else if word_at(s, j) == seq!['l', 'e', 'n'] {
        Some((TokView::KwLen, j, scan_ident(s, j)))
    } else {
        Some((TokView::Ident(word_at(s, j)), j, scan_ident(s, j)))
    }
}

/// The token at position `j` (no leading whitespace): its shape, its start,
/// and the position following it; `None` on a character no token starts
/// with, an unterminated string, or an out-of-range number.
pub open spec fn spec_token(s: Seq<char>, j: nat) -> Option<(TokView, nat, nat)> {
    if j >= s.len() {
        Some((TokView::End, j, j))
    } else if s[j as int] == '(' {
        Some((TokView::LPar, j, j + 1))
    } else if s[j as int] == ')' {
        Some((TokView::RPar, j, j + 1))
    } else if s[j as int] == ',' {
        Some((TokView::Comma, j, j + 1))
    } else if s[j as int] == '=' {
        Some((TokView::OpEq, j, j + 1))
    } else if s[j as int] == '&' {
        if j + 1 < s.len() && s[j as int + 1] == '&' {
            Some((TokView::OpAnd, j, j + 2))
        } else {
            None
        }
    } else if s[j as int] == '|' {
        if j + 1 < s.len() && s[j as int + 1] == '|' {
            Some((TokView::OpOr, j, j + 2))
        } else {
            None
        }
    } else if s[j as int] == '!' {
        if j + 1 < s.len() && s[j as int + 1] == '!' {
            Some((TokView::OpNotLike, j, j + 2))
        } else if j + 1 < s.len() && s[j as int + 1] == '=' {
            Some((TokView::OpNe, j, j + 2))
        } else {
            Some((TokView::OpLike, j, j + 1))
        }
    } else if s[j as int] == '>' {
        if j + 1 < s.len() && s[j as int + 1] == '>' {
            Some((TokView::OpNoBelong, j, j + 2))
        } else if j + 1 < s.len() && s[j as int + 1] == '=' {
            Some((TokView::OpGte, j, j + 2))
        } else {
            Some((TokView::OpGt, j, j + 1))
        }
    } else if s[j as int] == '<' {
        if j + 1 < s.len() && s[j as int + 1] == '<' {
            Some((TokView::OpBelong, j, j + 2))
        } else if j + 1 < s.len() && s[j as int + 1] == '=' {
            Some((TokView::OpLte, j, j + 2))
        } else {
            Some((TokView::OpLt, j, j + 1))
        }
    } else if s[j as int] == '~' {
        if j + 1 < s.len() && s[j as int + 1] == '~' {
            Some((TokView::OpNotIn, j, j + 2))
        } else {
            Some((TokView::OpIn, j, j + 1))
        }
    } else if s[j as int] == '^' {
        if j + 1 < s.len() && s[j as int + 1] == '^' {
            Some((TokView::OpIsNotNull, j, j + 2))
        } else {
            Some((TokView::OpIsNull, j, j + 1))
        }
    } else if s[j as int] == '\'' || s[j as int] == '"' {
        tok_str(s, j)
    } else if is_digit(s[j as int]) {
        tok_number(s, j)
    } else if is_ident_char(s[j as int]) {
        tok_word(s, j)
    } else {
        None
    }
}

/// The next token at or after `i`, whitespace skipped.
pub open spec fn spec_next(s: Seq<char>, i: nat) -> Option<(TokView, nat, nat)> {
    spec_token(s, skip_ws(s, i))
}

} // verus!

verus! {

/// The span from `st` to `en`, as character positions.
pub open spec fn mk_span(st: nat, en: nat) -> Span {
    Span { start: st as usize, end: en as usize }
}

/// The literal at position `i`: a number, a quoted string, `true`, `false`
/// or `null`.
pub open spec fn sp_value(s: Seq<char>, i: nat) -> Option<(ValueView, nat)> {
    match spec_next(s, i) {
        Some((TokView::NumTok(n), st, j)) => Some((ValueView::Number(n), j)),
        Some((TokView::StrTok(t), st, j)) => Some((ValueView::Text(t), j)),
        Some((TokView::KwTrue, st, j)) => Some((ValueView::Bool(true), j)),
        Some((TokView::KwFalse, st, j)) => Some((ValueView::Bool(false), j)),
        Some((TokView::KwNull, st, j)) => Some((ValueView::Null, j)),
        _ => None,
    }
}

/// The elements after the first of a parenthesised list, each preceded by a
/// comma, up to the closing parenthesis.
pub open spec fn sp_list_tail(s: Seq<char>, i: nat, acc: Seq<ValueView>) -> Option<
    (Seq<ValueView>, nat),
>
    decreases s.len() - i,
{
    match spec_next(s, i) {
        Some((TokView::Comma, st, j)) => if j > i {
            match sp_value(s, j) {
                Some((v, k)) => if k > j && k <= s.len() {
                    sp_list_tail(s, k, acc.push(v))
                } else {
                    None
                },
                None => None,
            }
        } else {
            None
        },
        Some((TokView::RPar, st, j)) => Some((acc, j)),
        _ => None,
    }
}

/// A parenthesised, comma-separated, non-empty list of literals.
pub open spec fn sp_list(s: Seq<char>, i: nat) -> Option<(Seq<ValueView>, nat)> {
    match spec_next(s, i) {
        Some((TokView::LPar, st, j)) => match sp_value(s, j) {
            Some((v, k)) => if k > j && k <= s.len() {
                sp_list_tail(s, k, seq![v])
            } else {
                None
            },
            None => None,
        },
        _ => None,
    }
}

/// The comparison following a field name: operator and right-hand side.
pub open spec fn sp_cmp_op(s: Seq<char>, st: nat, f: Seq<char>, j: nat) -> Option<
    (ExprView, nat),
> {
    match spec_next(s, j) {
        Some((TokView::OpEq, st2, k)) => match sp_value(s, k) {
            Some((v, m)) => Some((ExprView::Eq { span: mk_span(st, m), field: f, value: v }, m)),
            None => None,
        },
        Some((TokView::OpNe, st2, k)) => match sp_value(s, k) {
            Some((v, m)) => Some((ExprView::Ne { span: mk_span(st, m), field: f, value: v }, m)),
            None => None,
        },
        Some((TokView::OpGt, st2, k)) => match sp_value(s, k) {
            Some((v, m)) => Some((ExprView::Gt { span: mk_span(st, m), field: f, value: v }, m)),
            None => None,
        },
        Some((TokView::OpGte, st2, k)) => match sp_value(s, k) {
            Some((v, m)) => Some((ExprView::Gte { span: mk_span(st, m), field: f, value: v }, m)),
            None => None,
        },
        Some((TokView::OpLt, st2, k)) => match sp_value(s, k) {
            Some((v, m)) => Some((ExprView::Lt { span: mk_span(st, m), field: f, value: v }, m)),
            None => None,
        },
        Some((TokView::OpLte, st2, k)) => match sp_value(s, k) {
            Some((v, m)) => Some((ExprView::Lte { span: mk_span(st, m), field: f, value: v }, m)),
            None => None,
        },
        Some((TokView::OpLike, st2, k)) => match spec_next(s, k) {
            Some((TokView::StrTok(t), st3, m)) => Some(
                (
                    ExprView::Like {
                        span: mk_span(st, m),
                        field: f,
                        value: ValueView::Text(t),
                    },
                    m,
                ),
            ),
            _ => None,
        },
        Some((TokView::OpNotLike, st2, k)) => match spec_next(s, k) {
            Some((TokView::StrTok(t), st3, m)) => Some(
                (
                    ExprView::NotLike {
                        span: mk_span(st, m),
                        field: f,
                        value: ValueView::Text(t),
                    },
                    m,
                ),
            ),
            _ => None,
        },
        Some((TokView::OpIn, st2, k)) => match sp_list(s, k) {
            Some((items, m)) => Some(
                (
                    ExprView::In {
                        span: mk_span(st, m),
                        field: f,
                        value: ValueView::List(items),
                    },
                    m,
                ),
            ),
            None => None,
        },
        Some((TokView::OpNotIn, st2, k)) => match sp_list(s, k) {
            Some((items, m)) => Some(
                (
                    ExprView::NotIn {
                        span: mk_span(st, m),
                        field: f,
                        value: ValueView::List(items),
                    },
                    m,
                ),
            ),
            None => None,
        },
        Some((TokView::OpBelong, st2, k)) => match sp_list(s, k) {
            Some((items, m)) => Some(
                (
                    ExprView::Belong {
                        span: mk_span(st, m),
                        field: f,
                        value: ValueView::List(items),
                    },
                    m,
                ),
            ),
            None => None,
        },
        Some((TokView::OpNoBelong, st2, k)) => match sp_list(s, k) {
            Some((items, m)) => Some(
                (
                    ExprView::NoBelong {
                        span: mk_span(st, m),
                        field: f,
                        value: ValueView::List(items),
                    },
                    m,
                ),
            ),
            None => None,
        },
        Some((TokView::OpIsNull, st2, k)) => match spec_next(s, k) {
            Some((TokView::KwNull, st3, m)) => Some(
                (ExprView::IsNull { span: mk_span(st, m), field: f }, m),
            ),
            _ => None,
        },
        Some((TokView::OpIsNotNull, st2, k)) => match spec_next(s, k) {
            Some((TokView::KwNull, st3, m)) => Some(
                (ExprView::IsNotNull { span: mk_span(st, m), field: f }, m),
            ),
            _ => None,
        },
        _ => None,
    }
}

/// A `len(field)` comparison: `len` was read at `st`, `j` follows it.
pub open spec fn sp_len(s: Seq<char>, st: nat, j: nat) -> Option<(ExprView, nat)> {
    match spec_next(s, j) {
        Some((TokView::LPar, st2, k)) => match spec_next(s, k) {
            Some((TokView::Ident(f), st3, m)) => match spec_next(s, m) {
                Some((TokView::RPar, st4, p)) => match spec_next(s, p) {
                    Some((TokView::OpEq, st5, q)) => sp_len_value(s, st, f, Compare::Eq, q),
                    Some((TokView::OpNe, st5, q)) => sp_len_value(s, st, f, Compare::Ne, q),
                    Some((TokView::OpGt, st5, q)) => sp_len_value(s, st, f, Compare::Gt, q),
                    Some((TokView::OpGte, st5, q)) => sp_len_value(s, st, f, Compare::Gte, q),
                    Some((TokView::OpLt, st5, q)) => sp_len_value(s, st, f, Compare::Lt, q),
                    Some((TokView::OpLte, st5, q)) => sp_len_value(s, st, f, Compare::Lte, q),
                    _ => None,
                },
                _ => None,
            },
            _ => None,
        },
        _ => None,
    }
}

/// The literal closing a `len(field)` comparison.
pub open spec fn sp_len_value(s: Seq<char>, st: nat, f: Seq<char>, cmp: Compare, q: nat) -> Option<
    (ExprView, nat),
> {
    match sp_value(s, q) {
        Some((v, m)) => Some(
            (ExprView::Len { span: mk_span(st, m), field: f, cmp, value: v }, m),
        ),
        None => None,
    }
}

/// A parenthesised expression: the inside of `'(' or ')'`, entered at `j`.
pub open spec fn sp_paren(s: Seq<char>, i: nat, j: nat) -> Option<(ExprView, nat)>
    decreases s.len() - i, 0int,
{
    if j > i && j <= s.len() {
        match sp_or(s, j) {
            Some((e, k)) => match spec_next(s, k) {
                Some((TokView::RPar, st2, m)) => Some((e, m)),
                _ => None,
            },
            None => None,
        }
    } else {
        None
    }
}

/// A primary expression: a parenthesised expression, a `len` comparison, or
/// a field comparison.
pub open spec fn sp_cmp(s: Seq<char>, i: nat) -> Option<(ExprView, nat)>
    decreases s.len() - i, 1int,
{
    match spec_next(s, i) {
        Some((TokView::LPar, st, j)) => sp_paren(s, i, j),
        Some((TokView::KwLen, st, j)) => sp_len(s, st, j),
        Some((TokView::Ident(f), st, j)) => sp_cmp_op(s, st, f, j),
        _ => None,
    }
}

/// The `&&`-joined continuation of a conjunction, left-associated.
pub open spec fn sp_and_tail(s: Seq<char>, i: nat, acc: ExprView) -> Option<(ExprView, nat)>
    decreases s.len() - i, 2int,
{
    match spec_next(s, i) {
        Some((TokView::OpAnd, st, j)) => if j > i {
            match sp_cmp(s, j) {
                Some((rhs, k)) => if k > j && k <= s.len() {
                    sp_and_tail(
                        s,
                        k,
                        ExprView::And {
                            span: mk_span(st, k),
                            lhs: Box::new(acc),
                            rhs: Box::new(rhs),
                        },
                    )
                } else {
                    None
                },
                None => None,
            }
        } else {
            None
        },
        _ => Some((acc, i)),
    }
}

/// A conjunction of primaries.
pub open spec fn sp_and(s: Seq<char>, i: nat) -> Option<(ExprView, nat)>
    decreases s.len() - i, 3int,
{
    match sp_cmp(s, i) {
        Some((lhs, j)) => if j > i && j <= s.len() {
            sp_and_tail(s, j, lhs)
        } else {
            None
        },
        None => None,
    }
}

/// The `||`-joined continuation of a disjunction, left-associated.
pub open spec fn sp_or_tail(s: Seq<char>, i: nat, acc: ExprView) -> Option<(ExprView, nat)>
    decreases s.len() - i, 4int,
{
    match spec_next(s, i) {
        Some((TokView::OpOr, st, j)) => if j > i {
            match sp_and(s, j) {
                Some((rhs, k)) => if k > j && k <= s.len() {
                    sp_or_tail(
                        s,
                        k,
                        ExprView::Or {
                            span: mk_span(st, k),
                            lhs: Box::new(acc),
                            rhs: Box::new(rhs),
                        },
                    )
                } else {
                    None
                },
                None => None,
            }
        } else {
            None
        },
        _ => Some((acc, i)),
    }
}

/// A disjunction of conjunctions: the whole expression grammar.
pub open spec fn sp_or(s: Seq<char>, i: nat) -> Option<(ExprView, nat)>
    decreases s.len() - i, 5int,
{
    match sp_and(s, i) {
        Some((lhs, j)) => if j > i && j <= s.len() {
            sp_or_tail(s, j, lhs)
        } else {
            None
        },
        None => None,
    }
}

/// The parse of a whole filter text: an expression followed by the end of
/// the input, or nothing when the text does not parse.
pub open spec fn sp_parse(s: Seq<char>) -> Option<ExprView> {
    match sp_or(s, 0) {
        Some((e, j)) => match spec_next(s, j) {
            Some((TokView::End, st, m)) => Some(e),
            _ => None,
        },
        None => None,
    }
}

} // verus!

verus! {

/// A lexical token.
pub enum Tok {
    End,
    LPar,
    RPar,
    Comma,
    OpEq,
    OpNe,
    OpGt,
    OpGte,
    OpLt,
    OpLte,
    OpAnd,
    OpOr,
    OpLike,
    OpNotLike,
    OpIn,
    OpNotIn,
    OpIsNull,
    OpIsNotNull,
    OpBelong,
    OpNoBelong,
    KwTrue,
    KwFalse,
    KwNull,
    KwLen,
    Ident(String),
    NumTok(Num),
    StrTok(String),
}

/// The shape of a token; see [`TokView`].
pub open spec fn tok_view(t: Tok) -> TokView {
    match t {
        Tok::End => TokView::End,
        Tok::LPar => TokView::LPar,
        Tok::RPar => TokView::RPar,
        Tok::Comma => TokView::Comma,
        Tok::OpEq => TokView::OpEq,
        Tok::OpNe => TokView::OpNe,
        Tok::OpGt => TokView::OpGt,
        Tok::OpGte => TokView::OpGte,
        Tok::OpLt => TokView::OpLt,
        Tok::OpLte => TokView::OpLte,
        Tok::OpAnd => TokView::OpAnd,
        Tok::OpOr => TokView::OpOr,
        Tok::OpLike => TokView::OpLike,
        Tok::OpNotLike => TokView::OpNotLike,
        Tok::OpIn => TokView::OpIn,
        Tok::OpNotIn => TokView::OpNotIn,
        Tok::OpIsNull => TokView::OpIsNull,
        Tok::OpIsNotNull => TokView::OpIsNotNull,
        Tok::OpBelong => TokView::OpBelong,
        Tok::OpNoBelong => TokView::OpNoBelong,
        Tok::KwTrue => TokView::KwTrue,
        Tok::KwFalse => TokView::KwFalse,
        Tok::KwNull => TokView::KwNull,
        Tok::KwLen => TokView::KwLen,
        Tok::Ident(s) => TokView::Ident(s@),
        Tok::NumTok(n) => TokView::NumTok(n),
        Tok::StrTok(s) => TokView::StrTok(s@),
    }
}

impl View for Tok {
    type V = TokView;

    open spec fn view(&self) -> TokView {
        tok_view(*self)
    }
}

/// A token's numbers are within the number bounds.
pub open spec fn tok_wf(t: TokView) -> bool {
    match t {
        TokView::NumTok(n) => crate::value::num_wf(n),
        _ => true,
    }
}

/// Skips whitespace from `i` on.
fn skip_ws_exec(s: &str, len: usize, i: usize) -> (r: usize)
    requires
        len == s@.len(),
        i <= len,
    ensures
        r == skip_ws(s@, i as nat),
        i <= r <= len,
{
    let mut j = i;
    while j < len && is_space_exec(s.get_char(j))
        invariant
            i <= j <= len,
            skip_ws(s@, i as nat) == skip_ws(s@, j as nat),
        decreases len - j,
    {
        j = j + 1;
    }
    j
}

/// Whether `c` is whitespace.
fn is_space_exec(c: char) -> (r: bool)
    ensures
        r == is_space(c),
{
    c == ' ' || c == '\t' || c == '\r' || c == '\n'
}

/// Whether `c` is a decimal digit.
fn is_digit_exec(c: char) -> (r: bool)
    ensures
        r == is_digit(c),
{
    '0' <= c && c <= '9'
}

/// Whether `c` may stand in an identifier.
fn is_ident_char_exec(c: char) -> (r: bool)
    ensures
        r == is_ident_char(c),
{
    ('a' <= c && c <= 'z') || ('A' <= c && c <= 'Z') || ('0' <= c && c <= '9') || c == '_'
        || c == '-' || c == '.'
}

/// Scans past the digits from `i` on.
fn scan_digits_exec(s: &str, len: usize, i: usize) -> (r: usize)
    requires
        len == s@.len(),
        i <= len,
    ensures
        r == scan_digits(s@, i as nat),
        i <= r <= len,
        forall|k: int| i <= k < r ==> is_digit(s@[k]),
        i < len && is_digit(s@[i as int]) ==> r > i,
    decreases len - i,
{
    let mut j = i;
    while j < len && is_digit_exec(s.get_char(j))
        invariant
            i <= j <= len,
            scan_digits(s@, i as nat) == scan_digits(s@, j as nat),
            forall|k: int| i <= k < j ==> is_digit(s@[k]),
        decreases len - j,
    {
        j = j + 1;
    }
    j
}

/// Scans past the identifier characters from `i` on.
fn scan_ident_exec(s: &str, len: usize, i: usize) -> (r: usize)
    requires
        len == s@.len(),
        i <= len,
    ensures
        r == scan_ident(s@, i as nat),
        i <= r <= len,
        i < len && is_ident_char(s@[i as int]) ==> r > i,
{
    let mut j = i;
    while j < len && is_ident_char_exec(s.get_char(j))
        invariant
            i <= j <= len,
            scan_ident(s@, i as nat) == scan_ident(s@, j as nat),
        decreases len - j,
    {
        j = j + 1;
    }
    j
}

/// Finds the next occurrence of `c` from `i` on.
pub fn find_char_pub(s: &str, len: usize, i: usize, c: char) -> (r: usize)
    requires
        len == s@.len(),
        i <= len,
    ensures
        r == find_char(s@, i as nat, c),
        i <= r <= len,
{
    let mut j = i;
    while j < len && s.get_char(j) != c
        invariant
            i <= j <= len,
            find_char(s@, i as nat, c) == find_char(s@, j as nat, c),
        decreases len - j,
    {
        j = j + 1;
    }
    j
}

/// `digits_val` of a digit run is below `10^(number of digits)`.
pub proof fn lemma_digits_val_bound(s: Seq<char>, i: nat, j: nat)
    requires
        i <= j,
        forall|k: int| i <= k < j ==> is_digit(s[k]),
    ensures
        0 <= digits_val(s, i, j) < pow10((j - i) as nat),
    decreases j - i,
{
    if i < j {
        lemma_digits_val_bound(s, i, (j - 1) as nat);
    }
}

/// The value of the digit run `s[i..j]`, accumulated left to right.
fn digits_val_exec(s: &str, len: usize, i: usize, j: usize) -> (r: u128)
    requires
        len == s@.len(),
        i <= j <= len,
        j - i <= 20,
        forall|k: int| i <= k < j ==> is_digit(s@[k]),
    ensures
        r == digits_val(s@, i as nat, j as nat),
{
    proof {
        crate::value::lemma_pow10_le20();
    }
    let mut acc: u128 = 0;
    let mut k = i;
    while k < j
        invariant
            i <= k <= j <= len,
            len == s@.len(),
            j - i <= 20,
            forall|kk: int| i <= kk < j ==> is_digit(s@[kk]),
            acc == digits_val(s@, i as nat, k as nat),
            acc < pow10((k - i) as nat),
        decreases j - k,
    {
        proof {
            lemma_digits_val_bound(s@, i as nat, k as nat);
            crate::value::lemma_pow10_le20();
            crate::value::lemma_pow10_mono_pub((k - i) as nat, 20);
            crate::value::lemma_pow10_mono_pub((k + 1 - i) as nat, 20);
        }
        let c = s.get_char(k);
        let d: u128 = (c as u32 as u128) - 48;
        acc = acc * 10 + d;
        k = k + 1;
        proof {
            lemma_digits_val_bound(s@, i as nat, k as nat);
        }
    }
    acc
}

} // verus!

verus! {

/// The exec counterpart of [`tok_number`]: the numeric token at `j`.
fn number_token(s: &str, len: usize, j: usize) -> (r: Option<(Tok, usize, usize)>)
    requires
        len == s@.len(),
        j < len,
        is_digit(s@[j as int]),
    ensures
        match r {
            Some((t, st, n)) => {
                &&& tok_number(s@, j as nat) == Some((t@, st as nat, n as nat))
                &&& st == j
                &&& j < n <= len
                &&& tok_wf(t@)
            },
            None => tok_number(s@, j as nat) is None,
        },
{
    let e1 = scan_digits_exec(s, len, j);
    let frac = e1 < len && s.get_char(e1) == '.' && e1 + 1 < len && is_digit_exec(
        s.get_char(e1 + 1),
    );
    if frac {
        let e2 = scan_digits_exec(s, len, e1 + 1);
        let int_digits = e1 - j;
        let scale = e2 - e1 - 1;
        if int_digits + scale <= 18 {
            let iv = digits_val_exec(s, len, j, e1);
            let fv = digits_val_exec(s, len, e1 + 1, e2);
            let p = Num::pow10_i128(scale as u32);
            proof {
                lemma_digits_val_bound(s@, j as nat, e1 as nat);
                lemma_digits_val_bound(s@, e1 as nat + 1, e2 as nat);
                crate::value::lemma_pow10_mono_pub((e1 - j) as nat, (18 - scale) as nat);
                crate::value::lemma_pow10_mono_pub((e2 - e1 - 1) as nat, 18);
                crate::value::lemma_pow10_le20();
                crate::value::lemma_pow10_add((18 - scale) as nat, scale as nat);
                crate::value::lemma_pow10_mono_pub((18 - scale) as nat, 18);
                crate::value::lemma_mul_lt_right(
                    iv as int,
                    pow10((18 - scale) as nat),
                    pow10(scale as nat),
                );
                assert(iv < pow10((18 - scale) as nat));
                assert(fv < pow10(scale as nat));
                assert((iv as int) * (p as int) <= pow10(18) - pow10(scale as nat));
                assert((iv as int) * (p as int) + (fv as int) < pow10(18));
            }
            let mant128: i128 = (iv as i128) * p + (fv as i128);
            Some((Tok::NumTok(Num::Dec { mant: mant128 as i64, scale: scale as u32 }), j, e2))
        } else {
            None
        }
    } else {
        if e1 - j <= 20 {
            let v = digits_val_exec(s, len, j, e1);
            if v <= 0xFFFF_FFFF_FFFF_FFFFu128 {
                Some((Tok::NumTok(Num::Int(v as i128)), j, e1))
            } else {
                None
            }
        } else {
            proof {
                lemma_digits_val_bound(s@, j as nat, scan_digits(s@, j as nat));
            }
            None
        }
    }
}

/// The exec counterpart of [`tok_word`]: keyword or identifier at `j`.
fn word_token(s: &str, len: usize, j: usize) -> (r: (Tok, usize, usize))
    requires
        len == s@.len(),
        j < len,
    ensures
        tok_word(s@, j as nat) == Some((r.0@, r.1 as nat, r.2 as nat)),
        r.1 == j,
        j <= r.2 <= len,
        is_ident_char(s@[j as int]) ==> r.2 > j,
{
    let e = scan_ident_exec(s, len, j);
    let w = s.substring_char(j, e);
    proof {
        reveal_strlit("true");
        reveal_strlit("false");
        reveal_strlit("null");
        reveal_strlit("len");
        assert("true"@ =~= seq!['t', 'r', 'u', 'e']);
        assert("false"@ =~= seq!['f', 'a', 'l', 's', 'e']);
        assert("null"@ =~= seq!['n', 'u', 'l', 'l']);
        assert("len"@ =~= seq!['l', 'e', 'n']);
        assert(w@ == word_at(s@, j as nat));
    }
    if crate::text::str_eq(w, "true") {
        (Tok::KwTrue, j, e)
    } else if crate::text::str_eq(w, "false") {
        (Tok::KwFalse, j, e)
    } else if crate::text::str_eq(w, "null") {
        (Tok::KwNull, j, e)
    } else if crate::text::str_eq(w, "len") {
        (Tok::KwLen, j, e)
    } else {
        (Tok::Ident(w.to_owned()), j, e)
    }
}

/// The next token at or after `i`: its shape, its starting position, and the
/// position following it.  `None` marks a lexical error.
fn next_token(s: &str, len: usize, i: usize) -> (r: Option<(Tok, usize, usize)>)
    requires
        len == s@.len(),
        i <= len,
    ensures
        match r {
            Some((t, st, j)) => {
                &&& spec_next(s@, i as nat) == Some((t@, st as nat, j as nat))
                &&& i <= j <= len
                &&& (!(t@ is End) ==> j > i)
                &&& tok_wf(t@)
            },
            None => spec_next(s@, i as nat) is None,
        },
{
    let j = skip_ws_exec(s, len, i);
    if j >= len {
        return Some((Tok::End, j, j));
    }
    let c = s.get_char(j);
    if c == '(' {
        Some((Tok::LPar, j, j + 1))
    } else if c == ')' {
        Some((Tok::RPar, j, j + 1))
    } else if c == ',' {
        Some((Tok::Comma, j, j + 1))
    } else if c == '=' {
        Some((Tok::OpEq, j, j + 1))
    } else if c == '&' {
        if j + 1 < len && s.get_char(j + 1) == '&' {
            Some((Tok::OpAnd, j, j + 2))
        } else {
            None
        }
    } else if c == '|' {
        if j + 1 < len && s.get_char(j + 1) == '|' {
            Some((Tok::OpOr, j, j + 2))
        } else {
            None
        }
    } else if c == '!' {
        if j + 1 < len && s.get_char(j + 1) == '!' {
            Some((Tok::OpNotLike, j, j + 2))
        } else if j + 1 < len && s.get_char(j + 1) == '=' {
            Some((Tok::OpNe, j, j + 2))
        } else {
            Some((Tok::OpLike, j, j + 1))
        }
    } else if c == '>' {
        if j + 1 < len && s.get_char(j + 1) == '>' {
            Some((Tok::OpNoBelong, j, j + 2))
        } else if j + 1 < len && s.get_char(j + 1) == '=' {
            Some((Tok::OpGte, j, j + 2))
        } else {
            Some((Tok::OpGt, j, j + 1))
        }
    } else if c == '<' {
        if j + 1 < len && s.get_char(j + 1) == '<' {
            Some((Tok::OpBelong, j, j + 2))
        } else if j + 1 < len && s.get_char(j + 1) == '=' {
            Some((Tok::OpLte, j, j + 2))
        } else {
            Some((Tok::OpLt, j, j + 1))
        }
    } else if c == '~' {
        if j + 1 < len && s.get_char(j + 1) == '~' {
            Some((Tok::OpNotIn, j, j + 2))
        } else {
            Some((Tok::OpIn, j, j + 1))
        }
    } else if c == '^' {
        if j + 1 < len && s.get_char(j + 1) == '^' {
            Some((Tok::OpIsNotNull, j, j + 2))
        } else {
            Some((Tok::OpIsNull, j, j + 1))
        }
    } else if c == '\'' || c == '"' {
        let q = find_char_pub(s, len, j + 1, c);
        if q < len {
            Some((Tok::StrTok(s.substring_char(j + 1, q).to_owned()), j, q + 1))
        } else {
            None
        }
    } else if is_digit_exec(c) {
        number_token(s, len, j)
    } else if is_ident_char_exec(c) {
        Some(word_token(s, len, j))
    } else {
        None
    }
}

} // verus!

verus! {

/// The exec counterpart of [`sp_value`].
fn p_value(s: &str, len: usize, i: usize) -> (r: Option<(Value, usize)>)
    requires
        len == s@.len(),
        i <= len,
    ensures
        match r {
            Some((v, j)) => {
                &&& sp_value(s@, i as nat) == Some((v@, j as nat))
                &&& crate::matchs::lit_wf(v@)
                &&& i <= j <= len
            },
            None => sp_value(s@, i as nat) is None,
        },
{
    match next_token(s, len, i) {
        Some((Tok::NumTok(n), _st, j)) => Some((Value::Number(n), j)),
        Some((Tok::StrTok(t), _st, j)) => Some((Value::Text(t), j)),
        Some((Tok::KwTrue, _st, j)) => Some((Value::Bool(true), j)),
        Some((Tok::KwFalse, _st, j)) => Some((Value::Bool(false), j)),
        Some((Tok::KwNull, _st, j)) => Some((Value::Null, j)),
        _ => None,
    }
}

/// The exec counterpart of [`sp_list_tail`].
fn p_list_tail(s: &str, len: usize, i: usize, acc: Vec<Value>) -> (r: Option<(Vec<Value>, usize)>)
    requires
        len == s@.len(),
        i <= len,
        crate::matchs::lits_wf(crate::cond::values_view(acc@)),
    ensures
        match r {
            Some((vs, j)) => {
                &&& sp_list_tail(s@, i as nat, crate::cond::values_view(acc@)) == Some(
                    (crate::cond::values_view(vs@), j as nat),
                )
                &&& crate::matchs::lits_wf(crate::cond::values_view(vs@))
                &&& j <= len
            },
            None => sp_list_tail(s@, i as nat, crate::cond::values_view(acc@)) is None,
        },
    decreases len - i,
{
    match next_token(s, len, i) {
        Some((Tok::Comma, _st, j)) => {
            if j > i {
                match p_value(s, len, j) {
                    Some((v, k)) => {
                        if k > j && k <= len {
                            proof {
                                crate::cond::lemma_values_view_push(acc@, v);
                                crate::matchs::lemma_lits_wf_push(
                                    crate::cond::values_view(acc@),
                                    v@,
                                );
                            }
                            let ghost acc0 = crate::cond::values_view(acc@);
                            let mut acc2 = acc;
                            acc2.push(v);
                            p_list_tail(s, len, k, acc2)
                        } else {
                            None
                        }
                    },
                    None => None,
                }
            } else {
                None
            }
        },
        Some((Tok::RPar, _st, j)) => Some((acc, j)),
        _ => None,
    }
}

/// The exec counterpart of [`sp_list`].
fn p_list(s: &str, len: usize, i: usize) -> (r: Option<(Vec<Value>, usize)>)
    requires
        len == s@.len(),
        i <= len,
    ensures
        match r {
            Some((vs, j)) => {
                &&& sp_list(s@, i as nat) == Some((crate::cond::values_view(vs@), j as nat))
                &&& crate::matchs::lits_wf(crate::cond::values_view(vs@))
                &&& j <= len
            },
            None => sp_list(s@, i as nat) is None,
        },
{
    match next_token(s, len, i) {
        Some((Tok::LPar, _st, j)) => {
            match p_value(s, len, j) {
                Some((v, k)) => {
                    if k > j && k <= len {
                        let mut acc: Vec<Value> = Vec::new();
                        proof {
                            assert(crate::cond::values_view(acc@) =~= Seq::<ValueView>::empty());
                            crate::cond::lemma_values_view_push(acc@, v);
                        }
                        acc.push(v);
                        proof {
                            assert(crate::cond::values_view(acc@) =~= seq![v@]);
                            crate::matchs::lemma_lits_wf(crate::cond::values_view(acc@));
                        }
                        p_list_tail(s, len, k, acc)
                    } else {
                        None
                    }
                },
                None => None,
            }
        },
        _ => None,
    }
}

} // verus!

verus! {

/// The exec counterpart of [`sp_cmp_op`].
#[verifier::rlimit(100)]
fn p_cmp_op(s: &str, len: usize, st: usize, f: String, j: usize) -> (r: Option<(Expr, usize)>)
    requires
        len == s@.len(),
        j <= len,
    ensures
        match r {
            Some((e, m)) => {
                &&& sp_cmp_op(s@, st as nat, f@, j as nat) == Some((e@, m as nat))
                &&& crate::matchs::expr_wf(e@)
                &&& m <= len
            },
            None => sp_cmp_op(s@, st as nat, f@, j as nat) is None,
        },
{
    match next_token(s, len, j) {
        Some((Tok::OpEq, _st2, k)) => match p_value(s, len, k) {
            Some((v, m)) => Some((Expr::Eq { span: Span { start: st, end: m }, field: f, value: v }, m)),
            None => None,
        },
        Some((Tok::OpNe, _st2, k)) => match p_value(s, len, k) {
            Some((v, m)) => Some((Expr::Ne { span: Span { start: st, end: m }, field: f, value: v }, m)),
            None => None,
        },
        Some((Tok::OpGt, _st2, k)) => match p_value(s, len, k) {
            Some((v, m)) => Some((Expr::Gt { span: Span { start: st, end: m }, field: f, value: v }, m)),
            None => None,
        },
        Some((Tok::OpGte, _st2, k)) => match p_value(s, len, k) {
            Some((v, m)) => Some((Expr::Gte { span: Span { start: st, end: m }, field: f, value: v }, m)),
            None => None,
        },
        Some((Tok::OpLt, _st2, k)) => match p_value(s, len, k) {
            Some((v, m)) => Some((Expr::Lt { span: Span { start: st, end: m }, field: f, value: v }, m)),
            None => None,
        },
        Some((Tok::OpLte, _st2, k)) => match p_value(s, len, k) {
            Some((v, m)) => Some((Expr::Lte { span: Span { start: st, end: m }, field: f, value: v }, m)),
            None => None,
        },
        Some((Tok::OpLike, _st2, k)) => match next_token(s, len, k) {
            Some((Tok::StrTok(t), _st3, m)) => Some(
                (
                    Expr::Like {
                        span: Span { start: st, end: m },
                        field: f,
                        value: Value::Text(t),
                    },
                    m,
                ),
            ),
            _ => None,
        },
        Some((Tok::OpNotLike, _st2, k)) => match next_token(s, len, k) {
            Some((Tok::StrTok(t), _st3, m)) => Some(
                (
                    Expr::NotLike {
                        span: Span { start: st, end: m },
                        field: f,
                        value: Value::Text(t),
                    },
                    m,
                ),
            ),
            _ => None,
        },
        Some((Tok::OpIn, _st2, k)) => match p_list(s, len, k) {
            Some((items, m)) => Some(
                (
                    Expr::In {
                        span: Span { start: st, end: m },
                        field: f,
                        value: Value::List(items),
                    },
                    m,
                ),
            ),
            None => None,
        },
        Some((Tok::OpNotIn, _st2, k)) => match p_list(s, len, k) {
            Some((items, m)) => Some(
                (
                    Expr::NotIn {
                        span: Span { start: st, end: m },
                        field: f,
                        value: Value::List(items),
                    },
                    m,
                ),
            ),
            None => None,
        },
        Some((Tok::OpBelong, _st2, k)) => match p_list(s, len, k) {
            Some((items, m)) => Some(
                (
                    Expr::Belong {
                        span: Span { start: st, end: m },
                        field: f,
                        value: Value::List(items),
                    },
                    m,
                ),
            ),
            None => None,
        },
        Some((Tok::OpNoBelong, _st2, k)) => match p_list(s, len, k) {
            Some((items, m)) => Some(
                (
                    Expr::NoBelong {
                        span: Span { start: st, end: m },
                        field: f,
                        value: Value::List(items),
                    },
                    m,
                ),
            ),
            None => None,
        },
        Some((Tok::OpIsNull, _st2, k)) => match next_token(s, len, k) {
            Some((Tok::KwNull, _st3, m)) => Some(
                (Expr::IsNull { span: Span { start: st, end: m }, field: f }, m),
            ),
            _ => None,
        },
        Some((Tok::OpIsNotNull, _st2, k)) => match next_token(s, len, k) {
            Some((Tok::KwNull, _st3, m)) => Some(
                (Expr::IsNotNull { span: Span { start: st, end: m }, field: f }, m),
            ),
            _ => None,
        },
        _ => None,
    }
}

/// The exec counterpart of [`sp_len`].
#[verifier::rlimit(100)]
fn p_len(s: &str, len: usize, st: usize, j: usize) -> (r: Option<(Expr, usize)>)
    requires
        len == s@.len(),
        j <= len,
    ensures
        match r {
            Some((e, m)) => {
                &&& sp_len(s@, st as nat, j as nat) == Some((e@, m as nat))
                &&& crate::matchs::expr_wf(e@)
                &&& m <= len
            },
            None => sp_len(s@, st as nat, j as nat) is None,
        },
{
    match next_token(s, len, j) {
        Some((Tok::LPar, _st2, k)) => match next_token(s, len, k) {
            Some((Tok::Ident(f), _st3, m)) => match next_token(s, len, m) {
                Some((Tok::RPar, _st4, p)) => match next_token(s, len, p) {
                    Some((Tok::OpEq, _st5, q)) => p_len_value(s, len, st, f, Compare::Eq, q),
                    Some((Tok::OpNe, _st5, q)) => p_len_value(s, len, st, f, Compare::Ne, q),
                    Some((Tok::OpGt, _st5, q)) => p_len_value(s, len, st, f, Compare::Gt, q),
                    Some((Tok::OpGte, _st5, q)) => p_len_value(s, len, st, f, Compare::Gte, q),
                    Some((Tok::OpLt, _st5, q)) => p_len_value(s, len, st, f, Compare::Lt, q),
                    Some((Tok::OpLte, _st5, q)) => p_len_value(s, len, st, f, Compare::Lte, q),
                    _ => None,
                },
                _ => None,
            },
            _ => None,
        },
        _ => None,
    }
}

/// The exec counterpart of [`sp_len_value`].
fn p_len_value(s: &str, len: usize, st: usize, f: String, cmp: Compare, q: usize) -> (r: Option<
    (Expr, usize),
>)
    requires
        len == s@.len(),
        q <= len,
    ensures
        match r {
            Some((e, m)) => {
                &&& sp_len_value(s@, st as nat, f@, cmp, q as nat) == Some((e@, m as nat))
                &&& crate::matchs::expr_wf(e@)
                &&& m <= len
            },
            None => sp_len_value(s@, st as nat, f@, cmp, q as nat) is None,
        },
{
    match p_value(s, len, q) {
        Some((v, m)) => Some(
            (Expr::Len { span: Span { start: st, end: m }, field: f, cmp, value: v }, m),
        ),
        None => None,
    }
}

/// The exec counterpart of [`sp_paren`].
fn p_paren(s: &str, len: usize, i: usize, j: usize) -> (r: Option<(Expr, usize)>)
    requires
        len == s@.len(),
        i <= len,
        j <= len,
    ensures
        match r {
            Some((e, m)) => {
                &&& sp_paren(s@, i as nat, j as nat) == Some((e@, m as nat))
                &&& crate::matchs::expr_wf(e@)
                &&& m <= len
            },
            None => sp_paren(s@, i as nat, j as nat) is None,
        },
    decreases len - i, 0int,
{
    if j > i && j <= len {
        match p_or(s, len, j) {
            Some((e, k)) => match next_token(s, len, k) {
                Some((Tok::RPar, _st2, m)) => Some((e, m)),
                _ => None,
            },
            None => None,
        }
    } else {
        None
    }
}

/// The exec counterpart of [`sp_cmp`].
#[verifier::rlimit(100)]
fn p_cmp(s: &str, len: usize, i: usize) -> (r: Option<(Expr, usize)>)
    requires
        len == s@.len(),
        i <= len,
    ensures
        match r {
            Some((e, m)) => {
                &&& sp_cmp(s@, i as nat) == Some((e@, m as nat))
                &&& crate::matchs::expr_wf(e@)
                &&& m <= len
            },
            None => sp_cmp(s@, i as nat) is None,
        },
    decreases len - i, 1int,
{
    match next_token(s, len, i) {
        Some((Tok::LPar, _st, j)) => p_paren(s, len, i, j),
        Some((Tok::KwLen, st, j)) => p_len(s, len, st, j),
        Some((Tok::Ident(f), st, j)) => p_cmp_op(s, len, st, f, j),
        _ => None,
    }
}

/// The exec counterpart of [`sp_and_tail`].
fn p_and_tail(s: &str, len: usize, i: usize, acc: Expr) -> (r: Option<(Expr, usize)>)
    requires
        len == s@.len(),
        i <= len,
        crate::matchs::expr_wf(acc@),
    ensures
        match r {
            Some((e, m)) => {
                &&& sp_and_tail(s@, i as nat, acc@) == Some((e@, m as nat))
                &&& crate::matchs::expr_wf(e@)
                &&& m <= len
            },
            None => sp_and_tail(s@, i as nat, acc@) is None,
        },
    decreases len - i, 2int,
{
    match next_token(s, len, i) {
        Some((Tok::OpAnd, st, j)) => {
            if j > i {
                match p_cmp(s, len, j) {
                    Some((rhs, k)) => {
                        if k > j && k <= len {
                            p_and_tail(
                                s,
                                len,
                                k,
                                Expr::And {
                                    span: Span { start: st, end: k },
                                    lhs: Box::new(acc),
                                    rhs: Box::new(rhs),
                                },
                            )
                        } else {
                            None
                        }
                    },
                    None => None,
                }
            } else {
                None
            }
        },
        _ => Some((acc, i)),
    }
}

/// The exec counterpart of [`sp_and`].
fn p_and(s: &str, len: usize, i: usize) -> (r: Option<(Expr, usize)>)
    requires
        len == s@.len(),
        i <= len,
    ensures
        match r {
            Some((e, m)) => {
                &&& sp_and(s@, i as nat) == Some((e@, m as nat))
                &&& crate::matchs::expr_wf(e@)
                &&& m <= len
            },
            None => sp_and(s@, i as nat) is None,
        },
    decreases len - i, 3int,
{
    match p_cmp(s, len, i) {
        Some((lhs, j)) => {
            if j > i && j <= len {
                p_and_tail(s, len, j, lhs)
            } else {
                None
            }
        },
        None => None,
    }
}

/// The exec counterpart of [`sp_or_tail`].
fn p_or_tail(s: &str, len: usize, i: usize, acc: Expr) -> (r: Option<(Expr, usize)>)
    requires
        len == s@.len(),
        i <= len,
        crate::matchs::expr_wf(acc@),
    ensures
        match r {
            Some((e, m)) => {
                &&& sp_or_tail(s@, i as nat, acc@) == Some((e@, m as nat))
                &&& crate::matchs::expr_wf(e@)
                &&& m <= len
            },
            None => sp_or_tail(s@, i as nat, acc@) is None,
        },
    decreases len - i, 4int,
{
    match next_token(s, len, i) {
        Some((Tok::OpOr, st, j)) => {
            if j > i {
                match p_and(s, len, j) {
                    Some((rhs, k)) => {
                        if k > j && k <= len {
                            p_or_tail(
                                s,
                                len,
                                k,
                                Expr::Or {
                                    span: Span { start: st, end: k },
                                    lhs: Box::new(acc),
                                    rhs: Box::new(rhs),
                                },
                            )
                        } else {
                            None
                        }
                    },
                    None => None,
                }
            } else {
                None
            }
        },
        _ => Some((acc, i)),
    }
}

/// The exec counterpart of [`sp_or`].
fn p_or(s: &str, len: usize, i: usize) -> (r: Option<(Expr, usize)>)
    requires
        len == s@.len(),
        i <= len,
    ensures
        match r {
            Some((e, m)) => {
                &&& sp_or(s@, i as nat) == Some((e@, m as nat))
                &&& crate::matchs::expr_wf(e@)
                &&& m <= len
            },
            None => sp_or(s@, i as nat) is None,
        },
    decreases len - i, 5int,
{
    match p_and(s, len, i) {
        Some((lhs, j)) => {
            if j > i && j <= len {
                p_or_tail(s, len, j, lhs)
            } else {
                None
            }
        },
        None => None,
    }
}

/// Parses a filter text into its expression tree.
///
/// Succeeds exactly when the text belongs to the filter grammar (see
/// [`sp_parse`]); the error carries a diagnostic that reproduces the text.
pub fn yacc_parse(s: &str) -> (r: Result<Expr, String>)
    ensures
        r matches Ok(e) ==> {
            &&& sp_parse(s@) == Some(e@)
            &&& crate::matchs::expr_wf(e@)
        },
        r is Err ==> sp_parse(s@) is None,
{
    let len = s.unicode_len();
    match p_or(s, len, 0) {
        Some((e, j)) => match next_token(s, len, j) {
            Some((Tok::End, _st, _m)) => Ok(e),
            _ => Err(
                String::from_str("cannot parse the condition expression: ").concat(s),
            ),
        },
        None => Err(String::from_str("cannot parse the condition expression: ").concat(s)),
    }
}

} // verus!

verus! {

/// The sequence without its trailing run of `c`.
pub open spec fn trim_end_ch(s: Seq<char>, c: char) -> Seq<char>
    decreases s,
{
    if s.len() > 0 && s[s.len() - 1] == c {
        trim_end_ch(s.subrange(0, s.len() - 1), c)
    } else {
        s
    }
}

/// The sequence without its leading run of `c`.
pub open spec fn trim_start_ch(s: Seq<char>, c: char) -> Seq<char>
    decreases s,
{
    if s.len() > 0 && s[0] == c {
        trim_start_ch(s.subrange(1, s.len() as int), c)
    } else {
        s
    }
}

/// Strips the quote runs from both ends of a quoted literal: single quotes
/// when the text starts with one, double quotes otherwise.
pub fn remove_apostrophe(s: String) -> (r: String)
    ensures
        s@.len() > 0 && s@[0] == '\'' ==> r@ == trim_start_ch(trim_end_ch(s@, '\''), '\''),
        !(s@.len() > 0 && s@[0] == '\'') ==> r@ == trim_start_ch(trim_end_ch(s@, '"'), '"'),
{
    let len = s.as_str().unicode_len();
    let quote: char = if len > 0 && s.as_str().get_char(0) == '\'' {
        '\''
    } else {
        '"'
    };
    proof {
        assert(s@.subrange(0, len as int) =~= s@);
    }
    let mut end = len;
    while end > 0 && s.as_str().get_char(end - 1) == quote
        invariant
            end <= len,
            len == s@.len(),
            trim_end_ch(s@, quote) == trim_end_ch(s@.subrange(0, end as int), quote),
        decreases end,
    {
        proof {
            assert(s@.subrange(0, end as int).subrange(0, end - 1) =~= s@.subrange(0, end - 1));
        }
        end = end - 1;
    }
    proof {
        assert(trim_end_ch(s@.subrange(0, end as int), quote) == s@.subrange(0, end as int));
    }
    let mut start: usize = 0;
    while start < end && s.as_str().get_char(start) == quote
        invariant
            start <= end <= len,
            len == s@.len(),
            trim_end_ch(s@, quote) == s@.subrange(0, end as int),
            trim_start_ch(s@.subrange(0, end as int), quote) == trim_start_ch(
                s@.subrange(start as int, end as int),
                quote,
            ),
        decreases end - start,
    {
        proof {
            assert(s@.subrange(start as int, end as int).subrange(
                1,
                end - start,
            ) =~= s@.subrange(start as int + 1, end as int));
        }
        start = start + 1;
    }
    proof {
        assert(s@.subrange(0 as int, end as int) =~= s@.subrange(0, end as int));
        assert(trim_start_ch(s@.subrange(start as int, end as int), quote) == s@.subrange(
            start as int,
            end as int,
        ));
    }
    s.as_str().substring_char(start, end).to_owned()
}

} // verus!
