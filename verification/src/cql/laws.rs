//! General facts about the grammar, stated and proved once.
//!
//! Each public proof function here is a law of the parser: a statement
//! about every input of a given shape, proved against the spec functions
//! in `grammar` that the executable parsers are contracted to return.
//! Totality — that every entry point returns a result and never aborts,
//! whatever the input — is not a separate law: it is what the verification
//! of every function in `parse` establishes.

use vstd::prelude::*;

use crate::cql::ast::ArgView;
use crate::cql::ast::ArithmeticOperator;
use crate::cql::ast::ExprView;
use crate::cql::ast::FuncView;
use crate::cql::ast::IdentView;
use crate::cql::ast::NumView;
use crate::cql::ast::OperandView;
use crate::cql::ast::Sign;
use crate::cql::ast::operator_of_char;
use crate::cql::grammar::Parsed;
use crate::cql::grammar::argument_at;
use crate::cql::grammar::argument_list_at;
use crate::cql::grammar::expression_at;
use crate::cql::grammar::expression_body_at;
use crate::cql::grammar::function_at;
use crate::cql::grammar::identifier_at;
use crate::cql::grammar::identifier_list;
use crate::cql::grammar::is_alpha_char;
use crate::cql::grammar::is_digit_char;
use crate::cql::grammar::is_ident_part_char;
use crate::cql::grammar::is_space_char;
use crate::cql::grammar::lemma_run_end;
use crate::cql::grammar::lemma_run_end_is;
use crate::cql::grammar::lemma_signed_numeric_bounds;
use crate::cql::grammar::operand_at;
use crate::cql::grammar::operator_at;
use crate::cql::grammar::quoted_identifier_at;
use crate::cql::grammar::signed_numeric;
use crate::cql::grammar::unquoted_identifier;
use crate::cql::grammar::unsigned_numeric;

verus! {

/// Every character of `s` is alphabetic.
pub open spec fn all_alpha(s: Seq<char>) -> bool {
    forall|i: int| 0 <= i < s.len() ==> is_alpha_char(#[trigger] s[i])
}

/// Every character of `s` is a decimal digit.
pub open spec fn all_digits(s: Seq<char>) -> bool {
    forall|i: int| 0 <= i < s.len() ==> is_digit_char(#[trigger] s[i])
}

/// Every character of `s` is whitespace.
pub open spec fn all_spaces(s: Seq<char>) -> bool {
    forall|i: int| 0 <= i < s.len() ==> is_space_char(#[trigger] s[i])
}

/// A numeric literal begins with a sign, a digit, or a period — never
/// with whitespace, a letter, or a delimiter.
proof fn lemma_signed_numeric_first_char(m: Seq<char>)
    requires
        signed_numeric(m, 0) is Some,
    ensures
        m.len() >= 1,
        m[0] == '+' || m[0] == '-' || is_digit_char(m[0]) || m[0] == '.',
{
}

/// An unsigned number that consumes a whole string still consumes exactly
/// that string when it is embedded between a prefix and a remainder that
/// cannot extend it (one not starting with a digit or a period).
proof fn lemma_unsigned_numeric_embed(a: Seq<char>, m: Seq<char>, rest: Seq<char>, f: int, mag: Seq<
    char,
>)
    requires
        0 <= f,
        unsigned_numeric(m, f) == Some((mag, m.len() as int)),
        rest.len() == 0 || (!is_digit_char(rest[0]) && rest[0] != '.'),
    ensures
        unsigned_numeric(a + m + rest, a.len() + f) == Some((mag, a.len() + m.len() as int)),
{
    let t = a + m + rest;
    let k = a.len() as int;
    assert(f < m.len());
    assert forall|j: int| 0 <= j < m.len() implies t[k + j] == m[j] by {}
    assert forall|j: int| 0 <= j < rest.len() implies t[k + m.len() + j] == rest[j] by {}
    let digit_run = |c: char| is_digit_char(c);
    if is_digit_char(m[f]) {
        let d = crate::cql::grammar::digits_end(m, f);
        lemma_run_end(m, f, digit_run);
        assert(d > f);
        lemma_run_end_is(t, k + f, digit_run, k + d);
        if d < m.len() && m[d] == '.' {
            let g = crate::cql::grammar::digits_end(m, d + 1);
            lemma_run_end(m, d + 1, digit_run);
            assert(g == m.len());
            lemma_run_end_is(t, k + d + 1, digit_run, k + g);
            assert(t.subrange(k + f, k + g) =~= m.subrange(f, g));
        } else {
            assert(d == m.len());
            if k + d < t.len() {
                assert(t[k + d] == rest[0]);
            }
            assert(t.subrange(k + f, k + d) =~= m.subrange(f, d));
        }
    } else {
        assert(m[f] == '.' && f + 1 < m.len() && is_digit_char(m[f + 1]));
        let g = crate::cql::grammar::digits_end(m, f + 1);
        lemma_run_end(m, f + 1, digit_run);
        assert(g == m.len());
        lemma_run_end_is(t, k + f + 1, digit_run, k + g);
        assert(t.subrange(k + f, k + g) =~= m.subrange(f, g));
    }
}

/// A numeric literal that consumes a whole string still consumes exactly
/// that string when it is embedded between a prefix and a remainder that
/// cannot extend it.
proof fn lemma_signed_numeric_embed(a: Seq<char>, m: Seq<char>, rest: Seq<char>, nv: NumView)
    requires
        signed_numeric(m, 0) == Some((nv, m.len() as int)),
        rest.len() == 0 || (!is_digit_char(rest[0]) && rest[0] != '.'),
    ensures
        signed_numeric(a + m + rest, a.len() as int) == Some((nv, a.len() + m.len() as int)),
{
    let t = a + m + rest;
    let k = a.len() as int;
    lemma_signed_numeric_first_char(m);
    assert(t[k] == m[0]);
    if m[0] == '+' || m[0] == '-' {
        lemma_unsigned_numeric_embed(a, m, rest, 1, nv.magnitude);
    } else {
        lemma_unsigned_numeric_embed(a, m, rest, 0, nv.magnitude);
    }
}

/// An alphabetic word followed by a remainder that can neither continue an
/// identifier nor open an argument list parses, as an operand, to exactly
/// that word as an unquoted identifier.
proof fn lemma_operand_identifier_embed(a: Seq<char>, l: Seq<char>, rest: Seq<char>)
    requires
        l.len() >= 1,
        all_alpha(l),
        rest.len() == 0 || (!is_ident_part_char(rest[0]) && rest[0] != '('),
    ensures
        ({
            let t = a + l + rest;
            let id = IdentView { value: l, is_quoted: false };
            &&& identifier_at(t, a.len() as int) == Parsed::Found(id, a.len() + l.len() as int)
            &&& operand_at(t, a.len() as int) == Some(
                (OperandView::Identifier(id), a.len() + l.len() as int),
            )
        }),
{
    let t = a + l + rest;
    let k = a.len() as int;
    let e = k + l.len();
    assert forall|j: int| 0 <= j < l.len() implies t[k + j] == l[j] by {}
    assert forall|j: int| 0 <= j < rest.len() implies t[e + j] == rest[j] by {}
    assert(is_alpha_char(t[k]));
    // the word is not a numeric literal
    assert(signed_numeric(t, k) is None);
    // the identifier-continuation run is exactly the word
    lemma_run_end_is(t, k, |c: char| is_ident_part_char(c), e);
    assert(t.subrange(k, e) =~= l);
    assert(unquoted_identifier(t, k) == Some(
        (IdentView { value: l, is_quoted: false }, e),
    ));
    // a function call needs an opening parenthesis right after the name
    lemma_run_end_is(t, k, |c: char| is_alpha_char(c), e);
    assert(function_at(t, k) is Fail);
}

/// A numeric literal that consumes a whole string parses, as an operand,
/// to exactly that literal when embedded before a remainder that cannot
/// extend it.
proof fn lemma_operand_numeric_embed(a: Seq<char>, m: Seq<char>, rest: Seq<char>, nv: NumView)
    requires
        signed_numeric(m, 0) == Some((nv, m.len() as int)),
        rest.len() == 0 || (!is_digit_char(rest[0]) && rest[0] != '.'),
    ensures
        operand_at(a + m + rest, a.len() as int) == Some(
            (OperandView::Literal(nv), a.len() + m.len() as int),
        ),
{
    lemma_signed_numeric_embed(a, m, rest, nv);
}

/// An operator token with optional whitespace on both sides is consumed
/// exactly, stopping at the first non-space character after it.
proof fn lemma_operator_embed(
    a: Seq<char>,
    w1: Seq<char>,
    c: char,
    w2: Seq<char>,
    rest: Seq<char>,
    op: ArithmeticOperator,
)
    requires
        all_spaces(w1),
        all_spaces(w2),
        operator_of_char(c) == Some(op),
        rest.len() >= 1,
        !is_space_char(rest[0]),
    ensures
        operator_at(a + w1 + seq![c] + w2 + rest, a.len() as int) == Parsed::Found(
            op,
            a.len() + w1.len() + 1 + w2.len() as int,
        ),
{
    let t = a + w1 + seq![c] + w2 + rest;
    let k = a.len() as int;
    let i = k + w1.len();
    let j = i + 1 + w2.len();
    assert forall|m: int| 0 <= m < w1.len() implies t[k + m] == w1[m] by {}
    assert forall|m: int| 0 <= m < w2.len() implies t[i + 1 + m] == w2[m] by {}
    assert(t[i] == c);
    assert(t[j] == rest[0]);
    assert(!is_space_char(c));
    lemma_run_end_is(t, k, |ch: char| is_space_char(ch), i);
    lemma_run_end_is(t, i + 1, |ch: char| is_space_char(ch), j);
}

/// A string usable as one side of an arithmetic expression: an alphabetic
/// word, or the full text of a numeric literal.
pub open spec fn operand_text(m: Seq<char>) -> bool {
    ||| (m.len() >= 1 && all_alpha(m))
    ||| (signed_numeric(m, 0) matches Some((_, end)) && end == m.len())
}

/// The operand such a string denotes: an unquoted identifier for an
/// alphabetic word, the literal itself for a numeric literal.
pub open spec fn operand_view_of(m: Seq<char>) -> OperandView {
    if m.len() >= 1 && all_alpha(m) {
        OperandView::Identifier(IdentView { value: m, is_quoted: false })
    } else {
        match signed_numeric(m, 0) {
            Some((nv, _)) => OperandView::Literal(nv),
            None => OperandView::Literal(NumView { sign: Sign::Positive, magnitude: Seq::empty() }),
        }
    }
}

/// An operand string begins with a letter, a sign, a digit or a period —
/// never with whitespace or a delimiter.
proof fn lemma_operand_text_first_char(m: Seq<char>)
    requires
        operand_text(m),
    ensures
        m.len() >= 1,
        !is_space_char(m[0]),
        m[0] != '(',
        m[0] != ')',
        m[0] != ',',
{
    if !(m.len() >= 1 && all_alpha(m)) {
        lemma_signed_numeric_first_char(m);
    } else {
        assert(is_alpha_char(m[0]));
    }
}

/// An operand string embedded before a remainder that cannot extend it is
/// consumed exactly, and denotes `operand_view_of` of itself.
proof fn lemma_operand_embed(a: Seq<char>, m: Seq<char>, rest: Seq<char>)
    requires
        operand_text(m),
        rest.len() == 0 || (!is_ident_part_char(rest[0]) && rest[0] != '('),
    ensures
        operand_at(a + m + rest, a.len() as int) == Some(
            (operand_view_of(m), a.len() + m.len() as int),
        ),
{
    if m.len() >= 1 && all_alpha(m) {
        lemma_operand_identifier_embed(a, m, rest);
    } else {
        let nv = signed_numeric(m, 0)->Some_0.0;
        if rest.len() > 0 {
            assert(!is_digit_char(rest[0]) && rest[0] != '.');
        }
        lemma_operand_numeric_embed(a, m, rest, nv);
    }
}

/// The core of the expression laws: between any prefix and any suffix
/// that cannot extend its last operand, an operand-operator-operand body
/// is consumed exactly and denotes the expression of the parts.
proof fn lemma_expression_core(
    a: Seq<char>,
    l: Seq<char>,
    w1: Seq<char>,
    c: char,
    w2: Seq<char>,
    r: Seq<char>,
    tail: Seq<char>,
    op: ArithmeticOperator,
)
    requires
        operand_text(l),
        operand_text(r),
        all_spaces(w1),
        all_spaces(w2),
        operator_of_char(c) == Some(op),
        tail.len() == 0 || (!is_ident_part_char(tail[0]) && tail[0] != '('),
    ensures
        expression_body_at(a + (l + w1 + seq![c] + w2 + r) + tail, a.len() as int)
            == Parsed::Found(
            ExprView {
                left_operand: operand_view_of(l),
                operator: op,
                right_operand: operand_view_of(r),
            },
            a.len() + l.len() + w1.len() + 1 + w2.len() + r.len() as int,
        ),
{
    let t = a + (l + w1 + seq![c] + w2 + r) + tail;
    let k = a.len() as int;
    let k1 = k + l.len();
    let k2 = k1 + w1.len() + 1 + w2.len();
    let k3 = k2 + r.len();
    lemma_operand_text_first_char(l);
    lemma_operand_text_first_char(r);

    // the middle of the input cannot extend the left operand
    let mid = w1 + seq![c] + w2 + (r + tail);
    assert(mid[0] == if w1.len() > 0 {
        w1[0]
    } else {
        c
    });
    assert(!is_ident_part_char(mid[0]) && mid[0] != '(');

    // left operand
    assert(operand_at(t, k) == Some((operand_view_of(l), k1))) by {
        assert(t =~= a + l + mid);
        lemma_operand_embed(a, l, mid);
    }

    // operator
    assert(operator_at(t, k1) == Parsed::Found(op, k2)) by {
        assert(t =~= (a + l) + w1 + seq![c] + w2 + (r + tail));
        assert((r + tail)[0] == r[0]);
        lemma_operator_embed(a + l, w1, c, w2, r + tail, op);
    }

    // right operand
    assert(operand_at(t, k2) == Some((operand_view_of(r), k3))) by {
        assert(t =~= (a + l + w1 + seq![c] + w2) + r + tail);
        lemma_operand_embed(a + l + w1 + seq![c] + w2, r, tail);
    }
}

/// The law behind the expression shapes: two operand strings joined by an
/// operator with optional whitespace parse to exactly the expression of
/// their denoted operands, bare or parenthesized alike.
#[verifier::rlimit(60)]
proof fn lemma_expression_parts(
    l: Seq<char>,
    w1: Seq<char>,
    c: char,
    w2: Seq<char>,
    r: Seq<char>,
    op: ArithmeticOperator,
)
    requires
        operand_text(l),
        operand_text(r),
        all_spaces(w1),
        all_spaces(w2),
        operator_of_char(c) == Some(op),
    ensures
        ({
            let t = l + w1 + seq![c] + w2 + r;
            let ev = ExprView {
                left_operand: operand_view_of(l),
                operator: op,
                right_operand: operand_view_of(r),
            };
            &&& expression_body_at(t, 0) == Parsed::Found(ev, t.len() as int)
            &&& expression_at(t, 0) == Parsed::Found(ev, t.len() as int)
            &&& expression_at(seq!['('] + t + seq![')'], 0) == Parsed::Found(
                ev,
                t.len() + 2int,
            )
        }),
{
    let t = l + w1 + seq![c] + w2 + r;
    let ev = ExprView {
        left_operand: operand_view_of(l),
        operator: op,
        right_operand: operand_view_of(r),
    };
    lemma_operand_text_first_char(l);

    // the bare form
    assert(expression_body_at(t, 0) == Parsed::Found(ev, t.len() as int)) by {
        lemma_expression_core(Seq::empty(), l, w1, c, w2, r, Seq::empty(), op);
        assert(Seq::<char>::empty() + (l + w1 + seq![c] + w2 + r) + Seq::<char>::empty() =~= t);
    }
    assert(t[0] == l[0]);
    assert(t[0] != '(');
    assert(expression_at(t, 0) == Parsed::Found(ev, t.len() as int));

    // the same, wrapped in parentheses
    let t2 = seq!['('] + t + seq![')'];
    assert(expression_body_at(t2, 1) == Parsed::Found(ev, 1 + t.len() as int)) by {
        lemma_expression_core(seq!['('], l, w1, c, w2, r, seq![')'], op);
        assert(seq!['('] + (l + w1 + seq![c] + w2 + r) + seq![')'] =~= t2);
    }
    assert(t2[0] == '(');
    assert(t2[1 + t.len() as int] == ')');
    assert(expression_at(t2, 0) == Parsed::Found(ev, t.len() + 2int));
}

/// A string of decimal digits parses, as an unsigned numeric literal, to
/// the `Positive` sign and the whole string as its magnitude, consuming
/// all of it; the signed rule agrees.
pub proof fn lemma_digit_string_parses(s: Seq<char>)
    requires
        s.len() >= 1,
        all_digits(s),
    ensures
        unsigned_numeric(s, 0) == Some((s, s.len() as int)),
        signed_numeric(s, 0) == Some(
            (NumView { sign: Sign::Positive, magnitude: s }, s.len() as int),
        ),
{
    lemma_run_end_is(s, 0, |c: char| is_digit_char(c), s.len() as int);
    assert(s.subrange(0, s.len() as int) =~= s);
    assert(is_digit_char(s[0]));
}

/// A sign character followed by the full text of an unsigned number
/// parses, as a signed numeric literal, to that sign and that magnitude,
/// consuming the whole string.
pub proof fn lemma_signed_string_parses(c: char, m: Seq<char>)
    requires
        c == '+' || c == '-',
        unsigned_numeric(m, 0) == Some((m, m.len() as int)),
    ensures
        signed_numeric(seq![c] + m, 0) == Some(
            (
                NumView {
                    sign: if c == '-' {
                        Sign::Negative
                    } else {
                        Sign::Positive
                    },
                    magnitude: m,
                },
                1 + m.len() as int,
            ),
        ),
{
    let t = seq![c] + m;
    assert(t[0] == c);
    // embed the unsigned number after the one-character sign prefix
    assert(t =~= seq![c] + m + Seq::<char>::empty());
    lemma_unsigned_numeric_embed(seq![c], m, Seq::empty(), 0, m);
}

/// A digit string with a period and a (possibly empty) digit fraction is
/// the full text of an unsigned number: together with the laws above, any
/// signed decimal string with a fractional part parses to its lexical
/// sign and its exact magnitude text.
pub proof fn lemma_fraction_string_parses(d: Seq<char>, f: Seq<char>)
    requires
        d.len() >= 1,
        all_digits(d),
        all_digits(f),
    ensures
        unsigned_numeric(d + seq!['.'] + f, 0) == Some(
            (d + seq!['.'] + f, d.len() + 1 + f.len() as int),
        ),
{
    let t = d + seq!['.'] + f;
    let n = d.len() as int;
    let e = n + 1 + f.len();
    assert forall|j: int| 0 <= j < d.len() implies t[j] == d[j] by {}
    assert forall|j: int| 0 <= j < f.len() implies t[n + 1 + j] == f[j] by {}
    assert(t[n] == '.');
    assert(is_digit_char(t[0]));
    assert(!is_digit_char('.'));
    lemma_run_end_is(t, 0, |c: char| is_digit_char(c), n);
    lemma_run_end_is(t, n + 1, |c: char| is_digit_char(c), e);
    assert(t.subrange(0, e) =~= t);
}

/// An alphabetic string parses, as an identifier, to an unquoted
/// identifier whose value is the whole string, consuming all of it.
pub proof fn lemma_alphabetic_identifier_parses(s: Seq<char>)
    requires
        s.len() >= 1,
        all_alpha(s),
    ensures
        identifier_at(s, 0) == Parsed::Found(
            IdentView { value: s, is_quoted: false },
            s.len() as int,
        ),
{
    assert(s =~= Seq::<char>::empty() + s + Seq::<char>::empty());
    lemma_operand_identifier_embed(Seq::empty(), s, Seq::empty());
}

/// An alphabetic string wrapped in double quotes parses, as an
/// identifier, to a quoted identifier whose value is the unwrapped
/// string, consuming all of it.
pub proof fn lemma_quoted_identifier_parses(s: Seq<char>)
    requires
        s.len() >= 1,
        all_alpha(s),
    ensures
        identifier_at(seq!['"'] + s + seq!['"'], 0) == Parsed::Found(
            IdentView { value: s, is_quoted: true },
            s.len() + 2int,
        ),
{
    let t = seq!['"'] + s + seq!['"'];
    let n = s.len() as int;
    assert(t.len() == n + 2);
    assert forall|j: int| 0 <= j < n implies t[1 + j] == s[j] by {}
    assert(t[0] == '"');
    assert(t[n + 1] == '"');

    // the inner word is one unquoted identifier
    assert(is_alpha_char(t[1]));
    lemma_run_end_is(t, 1, |c: char| is_ident_part_char(c), n + 1);
    assert(t.subrange(1, n + 1) =~= s);
    assert(identifier_at(t, 1) == Parsed::Found(
        IdentView { value: s, is_quoted: false },
        n + 1,
    ));

    // at the closing quote no further identifier begins
    assert(unquoted_identifier(t, n + 1) is None);
    assert(unquoted_identifier(t, n + 2) is None);
    assert(quoted_identifier_at(t, n + 2) is Fail);
    assert(identifier_at(t, n + 2) is Fail);
    assert(identifier_list(t, n + 2) is None);
    assert(quoted_identifier_at(t, n + 1) is Fail);
    assert(identifier_at(t, n + 1) is Fail);
    assert(identifier_list(t, n + 1) is None);

    // so the quoted content is exactly the word
    assert(identifier_list(t, 1) == Some((s, n + 1)));
    assert(unquoted_identifier(t, 0) is None);
    assert(quoted_identifier_at(t, 0) == Parsed::Found(
        IdentView { value: s, is_quoted: true },
        n + 2,
    ));
}

/// Two alphabetic identifiers joined by an operator, with or without
/// whitespace around the operator, parse to the expression of the two
/// identifier operands and that operator, consuming the whole input; the
/// parenthesized form yields the identical expression.
pub proof fn lemma_identifier_expression_parses(
    l: Seq<char>,
    w1: Seq<char>,
    c: char,
    w2: Seq<char>,
    r: Seq<char>,
    op: ArithmeticOperator,
)
    requires
        l.len() >= 1,
        all_alpha(l),
        r.len() >= 1,
        all_alpha(r),
        all_spaces(w1),
        all_spaces(w2),
        operator_of_char(c) == Some(op),
    ensures
        ({
            let t = l + w1 + seq![c] + w2 + r;
            let ev = ExprView {
                left_operand: OperandView::Identifier(IdentView { value: l, is_quoted: false }),
                operator: op,
                right_operand: OperandView::Identifier(IdentView { value: r, is_quoted: false }),
            };
            &&& expression_at(t, 0) == Parsed::Found(ev, t.len() as int)
            &&& expression_at(seq!['('] + t + seq![')'], 0) == Parsed::Found(
                ev,
                t.len() + 2int,
            )
        }),
{
    lemma_expression_parts(l, w1, c, w2, r, op);
}

/// An alphabetic identifier joined by an operator to the full text of a
/// numeric literal parses to the expression whose numeric side is exactly
/// that literal — whichever side the literal stands on.
pub proof fn lemma_numeric_expression_parses(
    l: Seq<char>,
    w1: Seq<char>,
    c: char,
    w2: Seq<char>,
    m: Seq<char>,
    op: ArithmeticOperator,
    nv: NumView,
)
    requires
        l.len() >= 1,
        all_alpha(l),
        signed_numeric(m, 0) == Some((nv, m.len() as int)),
        all_spaces(w1),
        all_spaces(w2),
        operator_of_char(c) == Some(op),
    ensures
        ({
            let t = l + w1 + seq![c] + w2 + m;
            expression_at(t, 0) == Parsed::Found(
                ExprView {
                    left_operand: OperandView::Identifier(
                        IdentView { value: l, is_quoted: false },
                    ),
                    operator: op,
                    right_operand: OperandView::Literal(nv),
                },
                t.len() as int,
            )
        }),
        ({
            let t = m + w1 + seq![c] + w2 + l;
            expression_at(t, 0) == Parsed::Found(
                ExprView {
                    left_operand: OperandView::Literal(nv),
                    operator: op,
                    right_operand: OperandView::Identifier(
                        IdentView { value: l, is_quoted: false },
                    ),
                },
                t.len() as int,
            )
        }),
{
    lemma_signed_numeric_first_char(m);
    assert(!all_alpha(m)) by {
        assert(!is_alpha_char(m[0]));
    }
    assert(operand_view_of(m) == OperandView::Literal(nv));
    lemma_expression_parts(l, w1, c, w2, m, op);
    lemma_expression_parts(m, w1, c, w2, l, op);
}

/// An alphabetic function name applied to two numeric-literal arguments
/// parses, as an operand, to a function call with that name and exactly
/// those two arguments in call order, consuming the whole input.
pub proof fn lemma_function_call_operand_parses(
    name: Seq<char>,
    a1: Seq<char>,
    a2: Seq<char>,
    v1: NumView,
    v2: NumView,
)
    requires
        name.len() >= 1,
        all_alpha(name),
        signed_numeric(a1, 0) == Some((v1, a1.len() as int)),
        signed_numeric(a2, 0) == Some((v2, a2.len() as int)),
    ensures
        ({
            let t = name + seq!['('] + a1 + seq![','] + a2 + seq![')'];
            operand_at(t, 0) == Some(
                (
                    OperandView::Function(
                        FuncView {
                            name: name,
                            args: seq![
                                ArgView::NumericLiteral(v1),
                                ArgView::NumericLiteral(v2),
                            ],
                        },
                    ),
                    t.len() as int,
                ),
            )
        }),
{
    let t = name + seq!['('] + a1 + seq![','] + a2 + seq![')'];
    let k0 = name.len() as int;
    let e1 = k0 + 1 + a1.len();
    let e2 = e1 + 1 + a2.len();
    lemma_signed_numeric_bounds(a1, 0);
    lemma_signed_numeric_bounds(a2, 0);
    lemma_signed_numeric_first_char(a1);
    lemma_signed_numeric_first_char(a2);
    assert(t.len() == e2 + 1);
    assert forall|j: int| 0 <= j < name.len() implies t[j] == name[j] by {}
    assert(t[k0] == '(');
    assert(t[k0 + 1] == a1[0]);
    assert(t[e1] == ',');
    assert(t[e2] == ')');

    // the name is not a numeric literal
    assert(is_alpha_char(t[0]));
    assert(signed_numeric(t, 0) is None);

    // the name run stops at the opening parenthesis
    lemma_run_end_is(t, 0, |c: char| is_alpha_char(c), k0);
    assert(t.subrange(0, k0) =~= name);

    // first argument
    assert(t =~= (name + seq!['(']) + a1 + (seq![','] + a2 + seq![')']));
    assert((seq![','] + a2 + seq![')'])[0] == ',');
    lemma_signed_numeric_embed(name + seq!['('], a1, seq![','] + a2 + seq![')'], v1);
    assert(signed_numeric(t, k0 + 1) == Some((v1, e1)));
    assert(argument_at(t, k0 + 1) == Some((ArgView::NumericLiteral(v1), e1)));

    // second argument
    assert(t =~= (name + seq!['('] + a1 + seq![',']) + a2 + seq![')']);
    lemma_signed_numeric_embed(name + seq!['('] + a1 + seq![','], a2, seq![')'], v2);
    assert(signed_numeric(t, e1 + 1) == Some((v2, e2)));
    assert(argument_at(t, e1 + 1) == Some((ArgView::NumericLiteral(v2), e2)));

    // the argument list is exactly the two of them
    assert(argument_list_at(t, e1 + 1) == Some((seq![ArgView::NumericLiteral(v2)], e2)));
    assert(argument_list_at(t, k0 + 1) == Some(
        (seq![ArgView::NumericLiteral(v1)] + seq![ArgView::NumericLiteral(v2)], e2),
    ));
    assert(seq![ArgView::NumericLiteral(v1)] + seq![ArgView::NumericLiteral(v2)] =~= seq![
        ArgView::NumericLiteral(v1),
        ArgView::NumericLiteral(v2),
    ]);

    assert(function_at(t, 0) == Parsed::Found(
        FuncView {
            name: name,
            args: seq![ArgView::NumericLiteral(v1), ArgView::NumericLiteral(v2)],
        },
        t.len() as int,
    ));
}

} // verus!
