//! The executable parsers.
//!
//! Every function takes the input text and the position to start at, and
//! returns the parsed value together with the position of the unconsumed
//! remainder, or a `ParseError`.  A caller expecting a complete expression
//! must check that the returned position equals the input's length.  Each
//! contract says that the function returns exactly what the corresponding
//! spec function in `grammar` yields, so no parse can abort and no parse
//! can consume or produce anything the grammar does not.

use vstd::prelude::*;
use vstd::string::StrSliceExecFns;
use vstd::string::StringExecFns;

use crate::cql::ast::Argument;
use crate::cql::ast::ArithmeticExpression;
use crate::cql::ast::ArithmeticOperator;
use crate::cql::ast::ErrorKind;
use crate::cql::ast::Function;
use crate::cql::ast::IdentView;
use crate::cql::ast::Identifier;
use crate::cql::ast::NumericLiteral;
use crate::cql::ast::Operand;
use crate::cql::ast::ParseError;
use crate::cql::ast::Rule;
use crate::cql::ast::Sign;
use crate::cql::ast::view_args;
use crate::cql::grammar::Parsed;
use crate::cql::grammar::alpha_end;
use crate::cql::grammar::argument_at;
use crate::cql::grammar::argument_list_at;
use crate::cql::grammar::digits_end;
use crate::cql::grammar::expression_at;
use crate::cql::grammar::expression_body_at;
use crate::cql::grammar::function_at;
use crate::cql::grammar::ident_core_end;
use crate::cql::grammar::ident_part_end;
use crate::cql::grammar::identifier_at;
use crate::cql::grammar::identifier_list;
use crate::cql::grammar::identifier_part_at;
use crate::cql::grammar::is_alpha_char;
use crate::cql::grammar::is_digit_char;
use crate::cql::grammar::is_ident_core_char;
use crate::cql::grammar::is_ident_part_char;
use crate::cql::grammar::is_space_char;
use crate::cql::grammar::lemma_run_end_is;
use crate::cql::grammar::operand_at;
use crate::cql::grammar::operator_at;
use crate::cql::grammar::quoted_identifier_at;
use crate::cql::grammar::signed_numeric;
use crate::cql::grammar::spaces_end;
use crate::cql::grammar::unquoted_identifier;
use crate::cql::grammar::unsigned_numeric;

verus! {

fn is_space(c: char) -> (r: bool)
    ensures
        r == is_space_char(c),
{
    c == ' ' || c == '\t'
}

fn is_digit(c: char) -> (r: bool)
    ensures
        r == is_digit_char(c),
{
    let u = c as u32;
    ('0' as u32) <= u && u <= ('9' as u32)
}

fn is_alpha(c: char) -> (r: bool)
    ensures
        r == is_alpha_char(c),
{
    let u = c as u32;
    (('a' as u32) <= u && u <= ('z' as u32)) || (('A' as u32) <= u && u <= ('Z' as u32))
}

fn is_ident_core(c: char) -> (r: bool)
    ensures
        r == is_ident_core_char(c),
{
    is_alpha(c) || is_digit(c) || c == '$' || c == '_'
}

fn is_ident_part(c: char) -> (r: bool)
    ensures
        r == is_ident_part_char(c),
{
    is_ident_core(c) || c == ':' || c == '.'
}

fn scan_spaces(s: &str, from: usize) -> (r: usize)
    requires
        from <= s@.len(),
    ensures
        r == spaces_end(s@, from as int),
        from <= r <= s@.len(),
    decreases s@.len() - from,
{
    let n = s.unicode_len();
    let mut i = from;
    while i < n && is_space(s.get_char(i))
        invariant
            from <= i <= n,
            n == s@.len(),
            forall|j: int| from <= j < i ==> is_space_char(s@[j]),
        decreases n - i,
    {
        i = i + 1;
    }
    proof {
        lemma_run_end_is(s@, from as int, |c: char| is_space_char(c), i as int);
    }
    i
}

fn scan_digits(s: &str, from: usize) -> (r: usize)
    requires
        from <= s@.len(),
    ensures
        r == digits_end(s@, from as int),
        from <= r <= s@.len(),
{
    let n = s.unicode_len();
    let mut i = from;
    while i < n && is_digit(s.get_char(i))
        invariant
            from <= i <= n,
            n == s@.len(),
            forall|j: int| from <= j < i ==> is_digit_char(s@[j]),
        decreases n - i,
    {
        i = i + 1;
    }
    proof {
        lemma_run_end_is(s@, from as int, |c: char| is_digit_char(c), i as int);
    }
    i
}

fn scan_alpha(s: &str, from: usize) -> (r: usize)
    requires
        from <= s@.len(),
    ensures
        r == alpha_end(s@, from as int),
        from <= r <= s@.len(),
{
    let n = s.unicode_len();
    let mut i = from;
    while i < n && is_alpha(s.get_char(i))
        invariant
            from <= i <= n,
            n == s@.len(),
            forall|j: int| from <= j < i ==> is_alpha_char(s@[j]),
        decreases n - i,
    {
        i = i + 1;
    }
    proof {
        lemma_run_end_is(s@, from as int, |c: char| is_alpha_char(c), i as int);
    }
    i
}

fn scan_ident_part(s: &str, from: usize) -> (r: usize)
    requires
        from <= s@.len(),
    ensures
        r == ident_part_end(s@, from as int),
        from <= r <= s@.len(),
{
    let n = s.unicode_len();
    let mut i = from;
    while i < n && is_ident_part(s.get_char(i))
        invariant
            from <= i <= n,
            n == s@.len(),
            forall|j: int| from <= j < i ==> is_ident_part_char(s@[j]),
        decreases n - i,
    {
        i = i + 1;
    }
    proof {
        lemma_run_end_is(s@, from as int, |c: char| is_ident_part_char(c), i as int);
    }
    i
}

fn scan_ident_core(s: &str, from: usize) -> (r: usize)
    requires
        from <= s@.len(),
    ensures
        r == ident_core_end(s@, from as int),
        from <= r <= s@.len(),
{
    let n = s.unicode_len();
    let mut i = from;
    while i < n && is_ident_core(s.get_char(i))
        invariant
            from <= i <= n,
            n == s@.len(),
            forall|j: int| from <= j < i ==> is_ident_core_char(s@[j]),
        decreases n - i,
    {
        i = i + 1;
    }
    proof {
        lemma_run_end_is(s@, from as int, |c: char| is_ident_core_char(c), i as int);
    }
    i
}

/// Parse the `identifierPart` production: a run of alphabetic, digit,
/// dollar or underscore characters.
pub fn identifier_part(s: &str, from: usize) -> (r: Result<(String, usize), ParseError>)
    requires
        from <= s@.len(),
    ensures
        match r {
            Ok((part, end)) => {
                &&& identifier_part_at(s@, from as int) == Some((part@, end as int))
                &&& from < end <= s@.len()
            },
            Err(e) => {
                &&& identifier_part_at(s@, from as int) is None
                &&& e == (ParseError {
                    rule: Rule::IdentifierPart,
                    kind: ErrorKind::Lexical,
                    pos: from,
                })
            },
        },
{
    let n = s.unicode_len();
    if from < n && is_ident_core(s.get_char(from)) {
        let end = scan_ident_core(s, from);
        proof {
            crate::cql::grammar::lemma_run_end(s@, from as int, |c: char| is_ident_core_char(c));
        }
        let part = s.substring_char(from, end).to_owned();
        Ok((part, end))
    } else {
        Err(ParseError { rule: Rule::IdentifierPart, kind: ErrorKind::Lexical, pos: from })
    }
}

/// Parse an unquoted identifier: an alphabetic start character followed by
/// identifier-continuation characters.
pub fn identifier_unquoted(s: &str, from: usize) -> (r: Result<(Identifier, usize), ParseError>)
    requires
        from <= s@.len(),
    ensures
        match r {
            Ok((id, end)) => {
                &&& unquoted_identifier(s@, from as int) == Some((id@, end as int))
                &&& from < end <= s@.len()
            },
            Err(e) => {
                &&& unquoted_identifier(s@, from as int) is None
                &&& e == (ParseError {
                    rule: Rule::Identifier,
                    kind: ErrorKind::Lexical,
                    pos: from,
                })
            },
        },
{
    let n = s.unicode_len();
    if from < n && is_alpha(s.get_char(from)) {
        let end = scan_ident_part(s, from);
        proof {
            crate::cql::grammar::lemma_run_end(s@, from as int, |c: char| is_ident_part_char(c));
            assert(is_ident_part_char(s@[from as int]));
        }
        let value = s.substring_char(from, end).to_owned();
        Ok((Identifier { value, is_quoted: false }, end))
    } else {
        Err(ParseError { rule: Rule::Identifier, kind: ErrorKind::Lexical, pos: from })
    }
}

/// Parse an identifier whose start character permits it: the unquoted rule
/// applied at the start of the token.
pub fn identifier_start(s: &str, from: usize) -> (r: Result<(Identifier, usize), ParseError>)
    requires
        from <= s@.len(),
    ensures
        match r {
            Ok((id, end)) => {
                &&& unquoted_identifier(s@, from as int) == Some((id@, end as int))
                &&& from < end <= s@.len()
            },
            Err(e) => {
                &&& unquoted_identifier(s@, from as int) is None
                &&& e == (ParseError {
                    rule: Rule::Identifier,
                    kind: ErrorKind::Lexical,
                    pos: from,
                })
            },
        },
{
    identifier_unquoted(s, from)
}

/// Parse a quoted identifier: one or more identifiers between double
/// quotes, their decoded values concatenated and the delimiters stripped.
pub fn identifier_quoted(s: &str, from: usize) -> (r: Result<(Identifier, usize), ParseError>)
    requires
        from <= s@.len(),
    ensures
        match r {
            Ok((id, end)) => {
                &&& quoted_identifier_at(s@, from as int) == Parsed::Found(id@, end as int)
                &&& from < end <= s@.len()
            },
            Err(e) => {
                &&& quoted_identifier_at(s@, from as int) == Parsed::<IdentView>::Fail(
                    e.kind,
                    e.pos as int,
                )
                &&& e.rule == Rule::Identifier
                &&& from <= e.pos <= s@.len()
            },
        },
    decreases s@.len() - from, 0int,
{
    let n = s.unicode_len();
    if from < n && s.get_char(from) == '"' {
        match ident_list(s, from + 1) {
            None => Err(
                ParseError { rule: Rule::Identifier, kind: ErrorKind::Incomplete, pos: from + 1 },
            ),
            Some((value, end)) => {
                if end < n && s.get_char(end) == '"' {
                    Ok((Identifier { value, is_quoted: true }, end + 1))
                } else {
                    Err(ParseError { rule: Rule::Identifier, kind: ErrorKind::Incomplete, pos: end })
                }
            },
        }
    } else {
        Err(ParseError { rule: Rule::Identifier, kind: ErrorKind::Lexical, pos: from })
    }
}

/// Parse an identifier (a property name): the unquoted form, or else the
/// quoted form.
pub fn identifier(s: &str, from: usize) -> (r: Result<(Identifier, usize), ParseError>)
    requires
        from <= s@.len(),
    ensures
        match r {
            Ok((id, end)) => {
                &&& identifier_at(s@, from as int) == Parsed::Found(id@, end as int)
                &&& from < end <= s@.len()
            },
            Err(e) => {
                &&& identifier_at(s@, from as int) == Parsed::<IdentView>::Fail(
                    e.kind,
                    e.pos as int,
                )
                &&& e.rule == Rule::Identifier
                &&& from <= e.pos <= s@.len()
            },
        },
    decreases s@.len() - from, 1int,
{
    match identifier_unquoted(s, from) {
        Ok((id, end)) => Ok((id, end)),
        Err(_) => identifier_quoted(s, from),
    }
}

/// One or more identifiers in sequence, their decoded values concatenated:
/// the content permitted between quote delimiters.
fn ident_list(s: &str, from: usize) -> (r: Option<(String, usize)>)
    requires
        from <= s@.len(),
    ensures
        match r {
            Some((value, end)) => {
                &&& identifier_list(s@, from as int) == Some((value@, end as int))
                &&& from < end <= s@.len()
            },
            None => identifier_list(s@, from as int) is None,
        },
    decreases s@.len() - from, 2int,
{
    match identifier(s, from) {
        Err(_) => None,
        Ok((id, end)) => {
            match ident_list(s, end) {
                None => Some((id.value, end)),
                Some((rest, end2)) => {
                    let mut value = id.value;
                    value.append(rest.as_str());
                    Some((value, end2))
                },
            }
        },
    }
}

fn scan_unsigned(s: &str, from: usize) -> (r: Option<(String, usize)>)
    requires
        from <= s@.len(),
    ensures
        match r {
            Some((mag, end)) => {
                &&& unsigned_numeric(s@, from as int) == Some((mag@, end as int))
                &&& from < end <= s@.len()
            },
            None => unsigned_numeric(s@, from as int) is None,
        },
{
    let n = s.unicode_len();
    if from < n && is_digit(s.get_char(from)) {
        let d = scan_digits(s, from);
        proof {
            crate::cql::grammar::lemma_run_end(s@, from as int, |c: char| is_digit_char(c));
            assert(is_digit_char(s@[from as int]));
        }
        if d < n && s.get_char(d) == '.' {
            let f = scan_digits(s, d + 1);
            Some((s.substring_char(from, f).to_owned(), f))
        } else {
            Some((s.substring_char(from, d).to_owned(), d))
        }
    } else if from < n && s.get_char(from) == '.' && from + 1 < n && is_digit(
        s.get_char(from + 1),
    ) {
        let f = scan_digits(s, from + 1);
        proof {
            crate::cql::grammar::lemma_run_end(s@, from + 1, |c: char| is_digit_char(c));
            assert(is_digit_char(s@[from + 1]));
        }
        Some((s.substring_char(from, f).to_owned(), f))
    } else {
        None
    }
}

/// Parse an unsigned numeric literal: a decimal number with no sign token.
/// Its sign is always `Positive`.
pub fn unsigned_numeric_literal(s: &str, from: usize) -> (r: Result<
    (NumericLiteral, usize),
    ParseError,
>)
    requires
        from <= s@.len(),
    ensures
        match r {
            Ok((lit, end)) => {
                &&& unsigned_numeric(s@, from as int) == Some((lit@.magnitude, end as int))
                &&& lit@.sign == Sign::Positive
                &&& from < end <= s@.len()
            },
            Err(e) => {
                &&& unsigned_numeric(s@, from as int) is None
                &&& e == (ParseError {
                    rule: Rule::NumericLiteral,
                    kind: ErrorKind::Lexical,
                    pos: from,
                })
            },
        },
{
    match scan_unsigned(s, from) {
        Some((magnitude, end)) => Ok((NumericLiteral { sign: Sign::Positive, magnitude }, end)),
        None => Err(ParseError { rule: Rule::NumericLiteral, kind: ErrorKind::Lexical, pos: from }),
    }
}

/// Parse a signed numeric literal: an optional `+` or `-` followed by a
/// decimal number.  The stored sign is the explicit sign token when
/// present, `Positive` otherwise.
pub fn signed_numeric_literal(s: &str, from: usize) -> (r: Result<
    (NumericLiteral, usize),
    ParseError,
>)
    requires
        from <= s@.len(),
    ensures
        match r {
            Ok((lit, end)) => {
                &&& signed_numeric(s@, from as int) == Some((lit@, end as int))
                &&& from < end <= s@.len()
            },
            Err(e) => {
                &&& signed_numeric(s@, from as int) is None
                &&& e == (ParseError {
                    rule: Rule::NumericLiteral,
                    kind: ErrorKind::Lexical,
                    pos: from,
                })
            },
        },
{
    let n = s.unicode_len();
    if from < n && (s.get_char(from) == '+' || s.get_char(from) == '-') {
        let sign = if s.get_char(from) == '-' {
            Sign::Negative
        } else {
            Sign::Positive
        };
        match scan_unsigned(s, from + 1) {
            Some((magnitude, end)) => Ok((NumericLiteral { sign, magnitude }, end)),
            None => Err(
                ParseError { rule: Rule::NumericLiteral, kind: ErrorKind::Lexical, pos: from },
            ),
        }
    } else {
        match scan_unsigned(s, from) {
            Some((magnitude, end)) => Ok((NumericLiteral { sign: Sign::Positive, magnitude }, end)),
            None => Err(
                ParseError { rule: Rule::NumericLiteral, kind: ErrorKind::Lexical, pos: from },
            ),
        }
    }
}

/// Parse a numeric literal.  The realized subset accepts signed and
/// unsigned decimals; exponent notation is not realized.
pub fn numeric_literal(s: &str, from: usize) -> (r: Result<(NumericLiteral, usize), ParseError>)
    requires
        from <= s@.len(),
    ensures
        match r {
            Ok((lit, end)) => {
                &&& signed_numeric(s@, from as int) == Some((lit@, end as int))
                &&& from < end <= s@.len()
            },
            Err(e) => {
                &&& signed_numeric(s@, from as int) is None
                &&& e == (ParseError {
                    rule: Rule::NumericLiteral,
                    kind: ErrorKind::Lexical,
                    pos: from,
                })
            },
        },
{
    signed_numeric_literal(s, from)
}

/// Parse an arithmetic operator token, permitting whitespace immediately
/// before and after it.
pub fn arithmetic_operator(s: &str, from: usize) -> (r: Result<
    (ArithmeticOperator, usize),
    ParseError,
>)
    requires
        from <= s@.len(),
    ensures
        match r {
            Ok((op, end)) => {
                &&& operator_at(s@, from as int) == Parsed::Found(op, end as int)
                &&& from < end <= s@.len()
            },
            Err(e) => {
                &&& operator_at(s@, from as int) == Parsed::<ArithmeticOperator>::Fail(
                    e.kind,
                    e.pos as int,
                )
                &&& e.rule == Rule::ArithmeticOperator
                &&& e.kind == ErrorKind::Lexical
                &&& from <= e.pos <= s@.len()
            },
        },
{
    let n = s.unicode_len();
    let i = scan_spaces(s, from);
    if i < n {
        match ArithmeticOperator::from_char(s.get_char(i)) {
            Some(op) => {
                let j = scan_spaces(s, i + 1);
                Ok((op, j))
            },
            None => Err(
                ParseError { rule: Rule::ArithmeticOperator, kind: ErrorKind::Lexical, pos: i },
            ),
        }
    } else {
        Err(ParseError { rule: Rule::ArithmeticOperator, kind: ErrorKind::Lexical, pos: i })
    }
}

/// Parse one argument of a function call: a numeric literal, or else a
/// property name.
pub fn argument(s: &str, from: usize) -> (r: Result<(Argument, usize), ParseError>)
    requires
        from <= s@.len(),
    ensures
        match r {
            Ok((a, end)) => {
                &&& argument_at(s@, from as int) == Some((a@, end as int))
                &&& from < end <= s@.len()
            },
            Err(e) => {
                &&& argument_at(s@, from as int) is None
                &&& e == (ParseError { rule: Rule::Argument, kind: ErrorKind::Lexical, pos: from })
            },
        },
{
    match signed_numeric_literal(s, from) {
        Ok((lit, end)) => Ok((Argument::NumericLiteral(lit), end)),
        Err(_) => {
            match identifier(s, from) {
                Ok((id, end)) => Ok((Argument::PropertyName(id), end)),
                Err(_) => Err(
                    ParseError { rule: Rule::Argument, kind: ErrorKind::Lexical, pos: from },
                ),
            }
        },
    }
}

/// Parse a comma-separated list of one or more arguments, in call-site
/// order.  A comma commits the list to another argument.
pub fn argument_list(s: &str, from: usize) -> (r: Result<(Vec<Argument>, usize), ParseError>)
    requires
        from <= s@.len(),
    ensures
        match r {
            Ok((args, end)) => {
                &&& argument_list_at(s@, from as int) == Some((view_args(args@), end as int))
                &&& from < end <= s@.len()
                &&& args@.len() >= 1
            },
            Err(e) => {
                &&& argument_list_at(s@, from as int) is None
                &&& e == (ParseError {
                    rule: Rule::ArgumentList,
                    kind: ErrorKind::Lexical,
                    pos: from,
                })
            },
        },
    decreases s@.len() - from,
{
    let n = s.unicode_len();
    match argument(s, from) {
        Err(_) => Err(ParseError { rule: Rule::ArgumentList, kind: ErrorKind::Lexical, pos: from }),
        Ok((a, end)) => {
            if end < n && s.get_char(end) == ',' {
                match argument_list(s, end + 1) {
                    Err(_) => Err(
                        ParseError { rule: Rule::ArgumentList, kind: ErrorKind::Lexical, pos: from },
                    ),
                    Ok((rest, end2)) => {
                        let ghost a_view = a@;
                        let ghost rest_views = view_args(rest@);
                        let mut args: Vec<Argument> = Vec::new();
                        args.push(a);
                        let mut rest = rest;
                        args.append(&mut rest);
                        proof {
                            assert(view_args(args@) =~= seq![a_view] + rest_views);
                        }
                        Ok((args, end2))
                    },
                }
            } else {
                let ghost a_view = a@;
                let mut args: Vec<Argument> = Vec::new();
                args.push(a);
                proof {
                    assert(view_args(args@) =~= seq![a_view]);
                }
                Ok((args, end))
            }
        },
    }
}

/// Parse a function call: an alphabetic name, an opening parenthesis, an
/// optional argument list, and a closing parenthesis.
pub fn function(s: &str, from: usize) -> (r: Result<(Function, usize), ParseError>)
    requires
        from <= s@.len(),
    ensures
        match r {
            Ok((f, end)) => {
                &&& function_at(s@, from as int) == Parsed::Found(f@, end as int)
                &&& from < end <= s@.len()
            },
            Err(e) => {
                &&& function_at(s@, from as int) == Parsed::<crate::cql::ast::FuncView>::Fail(
                    e.kind,
                    e.pos as int,
                )
                &&& e.rule == Rule::Function
                &&& from <= e.pos <= s@.len()
            },
        },
{
    let n = s.unicode_len();
    if from < n && is_alpha(s.get_char(from)) {
        let name_end = scan_alpha(s, from);
        proof {
            crate::cql::grammar::lemma_run_end(s@, from as int, |c: char| is_alpha_char(c));
            assert(is_alpha_char(s@[from as int]));
        }
        if name_end < n && s.get_char(name_end) == '(' {
            let name = s.substring_char(from, name_end).to_owned();
            if name_end + 1 < n && s.get_char(name_end + 1) == ')' {
                let args: Vec<Argument> = Vec::new();
                proof {
                    assert(view_args(args@) =~= Seq::<crate::cql::ast::ArgView>::empty());
                }
                Ok((Function { name, args }, name_end + 2))
            } else {
                match argument_list(s, name_end + 1) {
                    Err(_) => Err(
                        ParseError {
                            rule: Rule::Function,
                            kind: ErrorKind::Incomplete,
                            pos: name_end + 1,
                        },
                    ),
                    Ok((args, a_end)) => {
                        if a_end < n && s.get_char(a_end) == ')' {
                            Ok((Function { name, args }, a_end + 1))
                        } else {
                            Err(
                                ParseError {
                                    rule: Rule::Function,
                                    kind: ErrorKind::Incomplete,
                                    pos: a_end,
                                },
                            )
                        }
                    },
                }
            }
        } else {
            Err(ParseError { rule: Rule::Function, kind: ErrorKind::Incomplete, pos: name_end })
        }
    } else {
        Err(ParseError { rule: Rule::Function, kind: ErrorKind::Lexical, pos: from })
    }
}

/// Parse an operand, trying in order: numeric literal, function call,
/// property name.
pub fn arithmetic_operand(s: &str, from: usize) -> (r: Result<(Operand, usize), ParseError>)
    requires
        from <= s@.len(),
    ensures
        match r {
            Ok((o, end)) => {
                &&& operand_at(s@, from as int) == Some((o@, end as int))
                &&& from < end <= s@.len()
            },
            Err(e) => {
                &&& operand_at(s@, from as int) is None
                &&& e == (ParseError {
                    rule: Rule::ArithmeticOperand,
                    kind: ErrorKind::Lexical,
                    pos: from,
                })
            },
        },
{
    match signed_numeric_literal(s, from) {
        Ok((lit, end)) => Ok((Operand::Literal(lit), end)),
        Err(_) => {
            match function(s, from) {
                Ok((f, end)) => Ok((Operand::Function(f), end)),
                Err(_) => {
                    match identifier(s, from) {
                        Ok((id, end)) => Ok((Operand::Identifier(id), end)),
                        Err(_) => Err(
                            ParseError {
                                rule: Rule::ArithmeticOperand,
                                kind: ErrorKind::Lexical,
                                pos: from,
                            },
                        ),
                    }
                },
            }
        },
    }
}

/// The body of an arithmetic expression: an operand, an operator with
/// optional surrounding whitespace, and a second operand.
fn arithmetic_expression_spaced(s: &str, from: usize) -> (r: Result<
    (ArithmeticExpression, usize),
    ParseError,
>)
    requires
        from <= s@.len(),
    ensures
        match r {
            Ok((expr, end)) => {
                &&& expression_body_at(s@, from as int) == Parsed::Found(expr@, end as int)
                &&& from < end <= s@.len()
            },
            Err(e) => {
                &&& expression_body_at(s@, from as int) == Parsed::<crate::cql::ast::ExprView>::Fail(
                    e.kind,
                    e.pos as int,
                )
                &&& e.rule == Rule::ArithmeticExpression
                &&& from <= e.pos <= s@.len()
            },
        },
{
    match arithmetic_operand(s, from) {
        Err(_) => Err(
            ParseError { rule: Rule::ArithmeticExpression, kind: ErrorKind::Lexical, pos: from },
        ),
        Ok((left_operand, e1)) => {
            match arithmetic_operator(s, e1) {
                Err(oe) => Err(
                    ParseError {
                        rule: Rule::ArithmeticExpression,
                        kind: ErrorKind::Incomplete,
                        pos: oe.pos,
                    },
                ),
                Ok((operator, e2)) => {
                    match arithmetic_operand(s, e2) {
                        Err(_) => Err(
                            ParseError {
                                rule: Rule::ArithmeticExpression,
                                kind: ErrorKind::Incomplete,
                                pos: e2,
                            },
                        ),
                        Ok((right_operand, e3)) => Ok(
                            (
                                ArithmeticExpression { left_operand, operator, right_operand },
                                e3,
                            ),
                        ),
                    }
                },
            }
        },
    }
}

/// Parse an arithmetic expression: operand, operator, operand — or the
/// same wrapped in one matching pair of parentheses.
pub fn arithmetic_expression(s: &str, from: usize) -> (r: Result<
    (ArithmeticExpression, usize),
    ParseError,
>)
    requires
        from <= s@.len(),
    ensures
        match r {
            Ok((expr, end)) => {
                &&& expression_at(s@, from as int) == Parsed::Found(expr@, end as int)
                &&& from < end <= s@.len()
            },
            Err(e) => {
                &&& expression_at(s@, from as int) == Parsed::<crate::cql::ast::ExprView>::Fail(
                    e.kind,
                    e.pos as int,
                )
                &&& e.rule == Rule::ArithmeticExpression
                &&& from <= e.pos <= s@.len()
            },
        },
{
    let n = s.unicode_len();
    if from < n && s.get_char(from) == '(' {
        match arithmetic_expression_spaced(s, from + 1) {
            Err(e) => Err(e),
            Ok((expr, end)) => {
                if end < n && s.get_char(end) == ')' {
                    Ok((expr, end + 1))
                } else {
                    Err(
                        ParseError {
                            rule: Rule::ArithmeticExpression,
                            kind: ErrorKind::Incomplete,
                            pos: end,
                        },
                    )
                }
            },
        }
    } else {
        arithmetic_expression_spaced(s, from)
    }
}

/// The character-literal production is declared by the grammar but not
/// realized; parsing it is a typed not-supported failure.
pub fn character_literal(s: &str, from: usize) -> (r: Result<(Argument, usize), ParseError>)
    requires
        from <= s@.len(),
    ensures
        r == Err::<(Argument, usize), ParseError>(
            ParseError { rule: Rule::CharacterLiteral, kind: ErrorKind::NotSupported, pos: from },
        ),
{
    Err(ParseError { rule: Rule::CharacterLiteral, kind: ErrorKind::NotSupported, pos: from })
}

/// The spatial-literal production is declared by the grammar but not
/// realized; parsing it is a typed not-supported failure.
pub fn spatial_literal(s: &str, from: usize) -> (r: Result<
    (ArithmeticExpression, usize),
    ParseError,
>)
    requires
        from <= s@.len(),
    ensures
        r == Err::<(ArithmeticExpression, usize), ParseError>(
            ParseError { rule: Rule::SpatialLiteral, kind: ErrorKind::NotSupported, pos: from },
        ),
{
    Err(ParseError { rule: Rule::SpatialLiteral, kind: ErrorKind::NotSupported, pos: from })
}

/// The temporal-literal production is declared by the grammar but not
/// realized; parsing it is a typed not-supported failure.
pub fn temporal_literal(s: &str, from: usize) -> (r: Result<
    (ArithmeticExpression, usize),
    ParseError,
>)
    requires
        from <= s@.len(),
    ensures
        r == Err::<(ArithmeticExpression, usize), ParseError>(
            ParseError { rule: Rule::TemporalLiteral, kind: ErrorKind::NotSupported, pos: from },
        ),
{
    Err(ParseError { rule: Rule::TemporalLiteral, kind: ErrorKind::NotSupported, pos: from })
}

/// The array-expression production is declared by the grammar but not
/// realized; parsing it is a typed not-supported failure.
pub fn array_expression(s: &str, from: usize) -> (r: Result<
    (ArithmeticExpression, usize),
    ParseError,
>)
    requires
        from <= s@.len(),
    ensures
        r == Err::<(ArithmeticExpression, usize), ParseError>(
            ParseError { rule: Rule::ArrayExpression, kind: ErrorKind::NotSupported, pos: from },
        ),
{
    Err(ParseError { rule: Rule::ArrayExpression, kind: ErrorKind::NotSupported, pos: from })
}

} // verus!
