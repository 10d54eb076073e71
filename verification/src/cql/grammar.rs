//! The grammar, written once as total spec functions over `Seq<char>`.
//!
//! Every function takes the whole input and a start position and says what
//! a parse attempt at that position yields: a parsed view plus the position
//! of the unconsumed remainder, or how and where the attempt fails.  The
//! executable parsers in `parse` promise to return exactly these values.

use vstd::prelude::*;

use crate::cql::ast::ArithmeticOperator;
use crate::cql::ast::ArgView;
use crate::cql::ast::ErrorKind;
use crate::cql::ast::ExprView;
use crate::cql::ast::FuncView;
use crate::cql::ast::IdentView;
use crate::cql::ast::NumView;
use crate::cql::ast::OperandView;
use crate::cql::ast::Sign;
use crate::cql::ast::operator_of_char;

verus! {

/// The outcome of a parse attempt: a value plus the position after it, or
/// the kind of failure plus the position at which the attempt failed.
pub enum Parsed<T> {
    Found(T, int),
    Fail(ErrorKind, int),
}

/// Whitespace permitted around an arithmetic operator.
pub open spec fn is_space_char(c: char) -> bool {
    c == ' ' || c == '\t'
}

/// A decimal digit.
pub open spec fn is_digit_char(c: char) -> bool {
    ('0' as u32) <= c as u32 && c as u32 <= ('9' as u32)
}

/// An ASCII alphabetic character: the only permitted start of an unquoted
/// identifier and the only material of a function name.
pub open spec fn is_alpha_char(c: char) -> bool {
    (('a' as u32) <= c as u32 && c as u32 <= ('z' as u32)) || (('A' as u32) <= c as u32 && c
        as u32 <= ('Z' as u32))
}

/// The material of the `identifierPart` production: alphabetic, digit,
/// dollar or underscore.
pub open spec fn is_ident_core_char(c: char) -> bool {
    is_alpha_char(c) || is_digit_char(c) || c == '$' || c == '_'
}

/// A character that may continue an identifier once it has started: an
/// identifier-part character, a colon, or a period.
pub open spec fn is_ident_part_char(c: char) -> bool {
    is_ident_core_char(c) || c == ':' || c == '.'
}

/// The first position at or after `from` whose character fails `p` (or the
/// end of the input): the end of the maximal run of `p`-characters.
pub open spec fn run_end(s: Seq<char>, from: int, p: spec_fn(char) -> bool) -> int
    decreases s.len() - from,
{
    if 0 <= from < s.len() && p(s[from]) {
        run_end(s, from + 1, p)
    } else {
        from
    }
}

/// What `run_end` yields: a position within bounds, every character of the
/// run satisfies `p`, and the run is maximal.
pub proof fn lemma_run_end(s: Seq<char>, from: int, p: spec_fn(char) -> bool)
    requires
        0 <= from <= s.len(),
    ensures
        from <= run_end(s, from, p) <= s.len(),
        forall|j: int| from <= j < run_end(s, from, p) ==> p(s[j]),
        run_end(s, from, p) == s.len() || !p(s[run_end(s, from, p)]),
    decreases s.len() - from,
{
    if from < s.len() && p(s[from]) {
        lemma_run_end(s, from + 1, p);
    }
}

/// The converse: any position bounding a maximal run of `p`-characters is
/// `run_end`.
pub proof fn lemma_run_end_is(s: Seq<char>, from: int, p: spec_fn(char) -> bool, e: int)
    requires
        0 <= from <= e <= s.len(),
        forall|j: int| from <= j < e ==> p(s[j]),
        e == s.len() || !p(s[e]),
    ensures
        run_end(s, from, p) == e,
    decreases e - from,
{
    if from < e {
        assert(p(s[from]));
        lemma_run_end_is(s, from + 1, p, e);
    }
}

/// The end of the run of decimal digits starting at `from`.
pub open spec fn digits_end(s: Seq<char>, from: int) -> int {
    run_end(s, from, |c: char| is_digit_char(c))
}

/// The end of the run of alphabetic characters starting at `from`.
pub open spec fn alpha_end(s: Seq<char>, from: int) -> int {
    run_end(s, from, |c: char| is_alpha_char(c))
}

/// The end of the run of whitespace starting at `from`.
pub open spec fn spaces_end(s: Seq<char>, from: int) -> int {
    run_end(s, from, |c: char| is_space_char(c))
}

/// The end of the run of identifier-continuation characters starting at
/// `from`.
pub open spec fn ident_part_end(s: Seq<char>, from: int) -> int {
    run_end(s, from, |c: char| is_ident_part_char(c))
}

/// The end of the run of identifier-part characters (no colon or period)
/// starting at `from`.
pub open spec fn ident_core_end(s: Seq<char>, from: int) -> int {
    run_end(s, from, |c: char| is_ident_core_char(c))
}

/// An unsigned decimal number: digits optionally followed by a fractional
/// part, or a fractional part alone (`123`, `123.45`, `7.`, `.5`).  Yields
/// the lexeme and the position after it.
pub open spec fn unsigned_numeric(s: Seq<char>, from: int) -> Option<(Seq<char>, int)> {
    if 0 <= from < s.len() && is_digit_char(s[from]) {
        let d = digits_end(s, from);
        if d < s.len() && s[d] == '.' {
            let f = digits_end(s, d + 1);
            Some((s.subrange(from, f), f))
        } else {
            Some((s.subrange(from, d), d))
        }
    } else if 0 <= from && from + 1 < s.len() && s[from] == '.' && is_digit_char(s[from + 1]) {
        let f = digits_end(s, from + 1);
        Some((s.subrange(from, f), f))
    } else {
        None
    }
}

/// A numeric literal: an optional sign character followed by an unsigned
/// decimal number.  The sign is the explicit sign token when present and
/// `Positive` otherwise.
pub open spec fn signed_numeric(s: Seq<char>, from: int) -> Option<(NumView, int)> {
    if 0 <= from < s.len() && (s[from] == '+' || s[from] == '-') {
        let sg = if s[from] == '-' {
            Sign::Negative
        } else {
            Sign::Positive
        };
        match unsigned_numeric(s, from + 1) {
            Some((mag, end)) => Some((NumView { sign: sg, magnitude: mag }, end)),
            None => None,
        }
    } else {
        match unsigned_numeric(s, from) {
            Some((mag, end)) => Some((NumView { sign: Sign::Positive, magnitude: mag }, end)),
            None => None,
        }
    }
}

/// The `identifierPart` production alone: the maximal run of
/// identifier-part-character material (no colon or period), at least one
/// character long.
pub open spec fn identifier_part_at(s: Seq<char>, from: int) -> Option<(Seq<char>, int)> {
    if 0 <= from < s.len() && is_ident_core_char(s[from]) {
        let end = ident_core_end(s, from);
        Some((s.subrange(from, end), end))
    } else {
        None
    }
}

/// An unquoted identifier: an alphabetic start character followed by the
/// maximal run of identifier-continuation characters.  A leading digit is
/// rejected here by design; a token that begins with a digit is a numeric
/// literal, never an identifier.
pub open spec fn unquoted_identifier(s: Seq<char>, from: int) -> Option<(IdentView, int)> {
    if 0 <= from < s.len() && is_alpha_char(s[from]) {
        let end = ident_part_end(s, from);
        Some((IdentView { value: s.subrange(from, end), is_quoted: false }, end))
    } else {
        None
    }
}

/// A quoted identifier: a pair of double quotes enclosing one or more
/// identifiers (recursively) whose decoded values are concatenated and
/// whose delimiters are stripped.
pub open spec fn quoted_identifier_at(s: Seq<char>, from: int) -> Parsed<IdentView>
    decreases s.len() - from, 0int,
{
    if 0 <= from < s.len() && s[from] == '"' {
        match identifier_list(s, from + 1) {
            None => Parsed::Fail(ErrorKind::Incomplete, from + 1),
            Some((value, end)) => {
                if end < s.len() && s[end] == '"' {
                    Parsed::Found(IdentView { value, is_quoted: true }, end + 1)
                } else {
                    Parsed::Fail(ErrorKind::Incomplete, end)
                }
            },
        }
    } else {
        Parsed::Fail(ErrorKind::Lexical, from)
    }
}

/// An identifier: the unquoted form, or else the quoted form.  The two
/// are mutually exclusive on their first character.
pub open spec fn identifier_at(s: Seq<char>, from: int) -> Parsed<IdentView>
    decreases s.len() - from, 1int,
{
    match unquoted_identifier(s, from) {
        Some((id, end)) => Parsed::Found(id, end),
        None => quoted_identifier_at(s, from),
    }
}

/// One or more identifiers in sequence; yields their concatenated decoded
/// values.  This is the content permitted between quote delimiters.
pub open spec fn identifier_list(s: Seq<char>, from: int) -> Option<(Seq<char>, int)>
    decreases s.len() - from, 2int,
{
    match identifier_at(s, from) {
        Parsed::Fail(_, _) => None,
        Parsed::Found(id, end) => {
            if from < end <= s.len() {
                match identifier_list(s, end) {
                    None => Some((id.value, end)),
                    Some((rest, end2)) => Some((id.value + rest, end2)),
                }
            } else {
                // an identifier always consumes at least one character, so
                // this branch is unreachable; it only justifies termination
                Some((id.value, end))
            }
        },
    }
}

/// An arithmetic operator token with optional surrounding whitespace.
pub open spec fn operator_at(s: Seq<char>, from: int) -> Parsed<ArithmeticOperator> {
    let i = spaces_end(s, from);
    if i < s.len() && operator_of_char(s[i]) is Some {
        match operator_of_char(s[i]) {
            Some(op) => Parsed::Found(op, spaces_end(s, i + 1)),
            None => Parsed::Fail(ErrorKind::Lexical, i),
        }
    } else {
        Parsed::Fail(ErrorKind::Lexical, i)
    }
}

/// One argument of a function call: a numeric literal, or else a property
/// name.  The other declared argument productions are not realized.
pub open spec fn argument_at(s: Seq<char>, from: int) -> Option<(ArgView, int)> {
    match signed_numeric(s, from) {
        Some((n, end)) => Some((ArgView::NumericLiteral(n), end)),
        None => match identifier_at(s, from) {
            Parsed::Found(id, end) => Some((ArgView::PropertyName(id), end)),
            Parsed::Fail(_, _) => None,
        },
    }
}

/// A comma-separated list of one or more arguments, in call-site order.  A
/// comma commits the list to another argument: a trailing comma fails.
pub open spec fn argument_list_at(s: Seq<char>, from: int) -> Option<(Seq<ArgView>, int)>
    decreases s.len() - from,
{
    match argument_at(s, from) {
        None => None,
        Some((a, end)) => {
            if from < end < s.len() && s[end] == ',' {
                match argument_list_at(s, end + 1) {
                    None => None,
                    Some((rest, end2)) => Some((seq![a] + rest, end2)),
                }
            } else {
                Some((seq![a], end))
            }
        },
    }
}

/// A function call: an alphabetic name, an opening parenthesis, an optional
/// argument list, and a closing parenthesis.
pub open spec fn function_at(s: Seq<char>, from: int) -> Parsed<FuncView> {
    if 0 <= from < s.len() && is_alpha_char(s[from]) {
        let n = alpha_end(s, from);
        if n < s.len() && s[n] == '(' {
            if n + 1 < s.len() && s[n + 1] == ')' {
                Parsed::Found(FuncView { name: s.subrange(from, n), args: Seq::empty() }, n + 2)
            } else {
                match argument_list_at(s, n + 1) {
                    None => Parsed::Fail(ErrorKind::Incomplete, n + 1),
                    Some((args, a_end)) => {
                        if a_end < s.len() && s[a_end] == ')' {
                            Parsed::Found(
                                FuncView { name: s.subrange(from, n), args },
                                a_end + 1,
                            )
                        } else {
                            Parsed::Fail(ErrorKind::Incomplete, a_end)
                        }
                    },
                }
            }
        } else {
            Parsed::Fail(ErrorKind::Incomplete, n)
        }
    } else {
        Parsed::Fail(ErrorKind::Lexical, from)
    }
}

/// An operand, trying in order: numeric literal, function call, property
/// name.  A token that begins with a digit is therefore always numeric, and
/// an alphabetic name immediately followed by a well-formed parenthesized
/// argument list is a function call rather than an identifier.
pub open spec fn operand_at(s: Seq<char>, from: int) -> Option<(OperandView, int)> {
    match signed_numeric(s, from) {
        Some((n, end)) => Some((OperandView::Literal(n), end)),
        None => match function_at(s, from) {
            Parsed::Found(f, end) => Some((OperandView::Function(f), end)),
            Parsed::Fail(_, _) => match identifier_at(s, from) {
                Parsed::Found(id, end) => Some((OperandView::Identifier(id), end)),
                Parsed::Fail(_, _) => None,
            },
        },
    }
}

/// The body of an arithmetic expression: an operand, an operator with
/// optional surrounding whitespace, and a second operand.
pub open spec fn expression_body_at(s: Seq<char>, from: int) -> Parsed<ExprView> {
    match operand_at(s, from) {
        None => Parsed::Fail(ErrorKind::Lexical, from),
        Some((l, e1)) => match operator_at(s, e1) {
            Parsed::Fail(_, p) => Parsed::Fail(ErrorKind::Incomplete, p),
            Parsed::Found(op, e2) => match operand_at(s, e2) {
                None => Parsed::Fail(ErrorKind::Incomplete, e2),
                Some((r, e3)) => Parsed::Found(
                    ExprView { left_operand: l, operator: op, right_operand: r },
                    e3,
                ),
            },
        },
    }
}

/// An arithmetic expression: its body, or the body wrapped in one matching
/// pair of parentheses.  No operand can begin with a parenthesis, so the
/// first character decides which form applies.
pub open spec fn expression_at(s: Seq<char>, from: int) -> Parsed<ExprView> {
    if 0 <= from < s.len() && s[from] == '(' {
        match expression_body_at(s, from + 1) {
            Parsed::Fail(k, p) => Parsed::Fail(k, p),
            Parsed::Found(e, end) => {
                if end < s.len() && s[end] == ')' {
                    Parsed::Found(e, end + 1)
                } else {
                    Parsed::Fail(ErrorKind::Incomplete, end)
                }
            },
        }
    } else {
        expression_body_at(s, from)
    }
}

/// An unsigned number spans at least one character and lies within bounds;
/// its lexeme is exactly the consumed text.
pub proof fn lemma_unsigned_numeric_bounds(s: Seq<char>, from: int)
    requires
        0 <= from <= s.len(),
        unsigned_numeric(s, from) is Some,
    ensures
        ({
            let (mag, end) = unsigned_numeric(s, from)->Some_0;
            from < end <= s.len() && mag == s.subrange(from, end) && mag.len() >= 1
        }),
{
    if from < s.len() && is_digit_char(s[from]) {
        lemma_run_end(s, from, |c: char| is_digit_char(c));
        let d = digits_end(s, from);
        assert(is_digit_char(s[from]));
        assert(d > from);
        if d < s.len() && s[d] == '.' {
            lemma_run_end(s, d + 1, |c: char| is_digit_char(c));
        }
    } else {
        lemma_run_end(s, from + 1, |c: char| is_digit_char(c));
    }
}

/// A numeric literal spans at least one character and lies within bounds.
pub proof fn lemma_signed_numeric_bounds(s: Seq<char>, from: int)
    requires
        0 <= from <= s.len(),
        signed_numeric(s, from) is Some,
    ensures
        ({
            let (n, end) = signed_numeric(s, from)->Some_0;
            from < end <= s.len()
        }),
{
    if from < s.len() && (s[from] == '+' || s[from] == '-') {
        lemma_unsigned_numeric_bounds(s, from + 1);
    } else {
        lemma_unsigned_numeric_bounds(s, from);
    }
}

} // verus!
