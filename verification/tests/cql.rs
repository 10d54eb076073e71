use ogc::cql::ast::Argument;
use ogc::cql::ast::ArithmeticExpression;
use ogc::cql::ast::ArithmeticOperator;
use ogc::cql::ast::ErrorKind;
use ogc::cql::ast::Function;
use ogc::cql::ast::Identifier;
use ogc::cql::ast::NumericLiteral;
use ogc::cql::ast::Operand;
use ogc::cql::ast::Rule;
use ogc::cql::ast::Sign;
use ogc::cql::parse::argument;
use ogc::cql::parse::argument_list;
use ogc::cql::parse::arithmetic_expression;
use ogc::cql::parse::arithmetic_operand;
use ogc::cql::parse::arithmetic_operator;
use ogc::cql::parse::array_expression;
use ogc::cql::parse::character_literal;
use ogc::cql::parse::function;
use ogc::cql::parse::identifier;
use ogc::cql::parse::identifier_part;
use ogc::cql::parse::identifier_quoted;
use ogc::cql::parse::identifier_start;
use ogc::cql::parse::identifier_unquoted;
use ogc::cql::parse::numeric_literal;
use ogc::cql::parse::signed_numeric_literal;
use ogc::cql::parse::spatial_literal;
use ogc::cql::parse::temporal_literal;
use ogc::cql::parse::unsigned_numeric_literal;

fn ident(value: &str, is_quoted: bool) -> Identifier {
    Identifier { value: value.to_string(), is_quoted }
}

fn num(sign: Sign, magnitude: &str) -> NumericLiteral {
    NumericLiteral { sign, magnitude: magnitude.to_string() }
}

#[test]
fn test_parse_identifier() {
    assert_eq!(
        Identifier { value: "propertyName".to_string(), is_quoted: false },
        identifier("propertyName", 0).unwrap().0
    );
    assert_eq!(
        Identifier { value: "propertyName".to_string(), is_quoted: true },
        identifier("\"propertyName\"", 0).unwrap().0
    );
    assert_eq!(
        Identifier { value: "vehicle_height".to_string(), is_quoted: false },
        identifier("vehicle_height", 0).unwrap().0
    );
    assert_eq!(
        Identifier { value: "vehicle_height".to_string(), is_quoted: true },
        identifier("\"vehicle_height\"", 0).unwrap().0
    );
}

#[test]
fn test_parse_arithmetic_expression() {
    assert_eq!(
        ArithmeticExpression {
            left_operand: Operand::from(Identifier::new("speed".to_string(), false)),
            operator: ArithmeticOperator::PlusSign,
            right_operand: Operand::from(Identifier::new("delay".to_string(), false)),
        },
        arithmetic_expression("speed + delay", 0).unwrap().0
    );
    assert_eq!(
        ArithmeticExpression {
            left_operand: Operand::from(Identifier::new("speed".to_string(), false)),
            operator: ArithmeticOperator::MinusSign,
            right_operand: Operand::from(num(Sign::Positive, "10")),
        },
        arithmetic_expression("speed - 10", 0).unwrap().0
    );
    assert_eq!(
        ArithmeticExpression {
            left_operand: Operand::from(Identifier::new("speed".to_string(), false)),
            operator: ArithmeticOperator::Asterisk,
            right_operand: Operand::from(num(Sign::Positive, "10")),
        },
        arithmetic_expression("speed * 10", 0).unwrap().0
    );
    assert_eq!(
        ArithmeticExpression {
            left_operand: Operand::from(Identifier::new("speed".to_string(), false)),
            operator: ArithmeticOperator::Solidus,
            right_operand: Operand::from(num(Sign::Positive, "10")),
        },
        arithmetic_expression("speed / 10", 0).unwrap().0
    );
}

#[test]
fn parse_arithmetic_numeric_example() {
    let example = "AAAAAAAaaa - -282120334891901200000000000000000000000000000000000000000000000000000000000000000000.0";
    let (expr, end) = arithmetic_expression(example, 0).unwrap();
    assert_eq!(end, example.chars().count());
    assert_eq!(
        expr.left_operand,
        Operand::identifier(Identifier::new("AAAAAAAaaa".to_string(), false))
    );
    assert_eq!(expr.operator, ArithmeticOperator::from_char('-').unwrap());
    match expr.right_operand {
        Operand::Literal(lit) => {
            assert_eq!(lit.sign, Sign::Negative);
            assert_eq!(
                lit.magnitude,
                "282120334891901200000000000000000000000000000000000000000000000000000000000000000000.0"
            );
            // the magnitude overflows f32 range: it saturates to negative
            // infinity once the sign is applied, rather than failing
            let value: f32 = format!("-{}", lit.magnitude).parse().unwrap();
            assert_eq!(value, f32::NEG_INFINITY);
        }
        other => panic!("expected a numeric literal, got {:?}", other),
    }
}

#[test]
fn unsigned_decimal_is_positive_and_whole() {
    let (lit, end) = unsigned_numeric_literal("12345", 0).unwrap();
    assert_eq!(lit, num(Sign::Positive, "12345"));
    assert_eq!(end, 5);

    let (lit, end) = unsigned_numeric_literal("123.45xyz", 0).unwrap();
    assert_eq!(lit, num(Sign::Positive, "123.45"));
    assert_eq!(end, 6);
}

#[test]
fn signed_decimal_keeps_sign_and_magnitude() {
    let (lit, end) = signed_numeric_literal("-123.45", 0).unwrap();
    assert_eq!(lit, num(Sign::Negative, "123.45"));
    assert_eq!(end, 7);
    assert_eq!("-123.45".parse::<f32>().unwrap(), -123.45f32);

    let (lit, end) = signed_numeric_literal("+7", 0).unwrap();
    assert_eq!(lit, num(Sign::Positive, "7"));
    assert_eq!(end, 2);

    // the lexical sign is kept even when the magnitude is zero
    let (lit, _) = signed_numeric_literal("-0", 0).unwrap();
    assert_eq!(lit.sign, Sign::Negative);
}

#[test]
fn numeric_literal_accepts_fraction_forms() {
    assert_eq!(num(Sign::Positive, "7."), numeric_literal("7.", 0).unwrap().0);
    assert_eq!(num(Sign::Positive, ".5"), numeric_literal(".5", 0).unwrap().0);
    assert_eq!(num(Sign::Negative, ".5"), numeric_literal("-.5", 0).unwrap().0);
}

#[test]
fn numeric_literal_failures_are_lexical() {
    for input in ["", "+", "-", "-a", "abc", ".", ".x"] {
        let e = numeric_literal(input, 0).unwrap_err();
        assert_eq!(e.rule, Rule::NumericLiteral);
        assert_eq!(e.kind, ErrorKind::Lexical);
        assert_eq!(e.pos, 0);
    }
}

#[test]
fn identifier_continuations_allow_digits_and_punctuation() {
    let (id, end) = identifier("a1$_:.x tail", 0).unwrap();
    assert_eq!(id, ident("a1$_:.x", false));
    assert_eq!(end, 7);

    let (id, end) = identifier_unquoted("abc.def", 0).unwrap();
    assert_eq!(id, ident("abc.def", false));
    assert_eq!(end, 7);

    let (id, _) = identifier_start("abc:def", 0).unwrap();
    assert_eq!(id, ident("abc:def", false));
}

#[test]
fn identifier_part_stops_at_punctuation() {
    let (part, end) = identifier_part("ab1$_:rest", 0).unwrap();
    assert_eq!(part, "ab1$_".to_string());
    assert_eq!(end, 5);

    let e = identifier_part(":a", 0).unwrap_err();
    assert_eq!(e.rule, Rule::IdentifierPart);
    assert_eq!(e.kind, ErrorKind::Lexical);
}

#[test]
fn quoted_identifier_strips_delimiters() {
    let (id, end) = identifier_quoted("\"abc.def\"", 0).unwrap();
    assert_eq!(id, ident("abc.def", true));
    assert_eq!(end, 9);
}

#[test]
fn quoted_identifier_may_nest() {
    // the content between quotes is itself a sequence of identifiers,
    // quoted ones included; all delimiters are stripped from the value
    let (id, end) = identifier("\"\"a\"\"", 0).unwrap();
    assert_eq!(id, ident("a", true));
    assert_eq!(end, 5);

    let e = identifier_quoted("abc", 0).unwrap_err();
    assert_eq!(e.kind, ErrorKind::Lexical);
    assert_eq!(e.pos, 0);
}

#[test]
fn quoted_identifier_without_closing_quote_is_incomplete() {
    let e = identifier("\"abc", 0).unwrap_err();
    assert_eq!(e.rule, Rule::Identifier);
    assert_eq!(e.kind, ErrorKind::Incomplete);
    assert_eq!(e.pos, 4);
}

#[test]
fn digit_leading_token_is_numeric_not_identifier() {
    // a token that begins with a digit is never an identifier: the
    // numeric rule claims it, and the unquoted identifier rule rejects it
    let e = identifier("0:", 0).unwrap_err();
    assert_eq!(e.kind, ErrorKind::Lexical);

    let (op, end) = arithmetic_operand("10abc", 0).unwrap();
    assert_eq!(op, Operand::literal(num(Sign::Positive, "10")));
    assert_eq!(end, 2);
}

#[test]
fn operator_token_allows_surrounding_whitespace() {
    let (op, end) = arithmetic_operator(" * ", 0).unwrap();
    assert_eq!(op, ArithmeticOperator::Asterisk);
    assert_eq!(end, 3);

    let (op, end) = arithmetic_operator("\t+\tx", 0).unwrap();
    assert_eq!(op, ArithmeticOperator::PlusSign);
    assert_eq!(end, 3);

    let e = arithmetic_operator("  x", 0).unwrap_err();
    assert_eq!(e.rule, Rule::ArithmeticOperator);
    assert_eq!(e.kind, ErrorKind::Lexical);
    assert_eq!(e.pos, 2);
}

#[test]
fn operand_classifies_each_form() {
    let (op, _) = arithmetic_operand("speed", 0).unwrap();
    assert_eq!(op, Operand::identifier(ident("speed", false)));

    let (op, _) = arithmetic_operand("-3.5", 0).unwrap();
    assert_eq!(op, Operand::literal(num(Sign::Negative, "3.5")));

    let (op, end) = arithmetic_operand("f(1,2)", 0).unwrap();
    assert_eq!(end, 6);
    assert_eq!(
        op,
        Operand::function(Function::new(
            "f".to_string(),
            vec![
                Argument::numeric(num(Sign::Positive, "1")),
                Argument::numeric(num(Sign::Positive, "2")),
            ],
        ))
    );

    let e = arithmetic_operand("(x)", 0).unwrap_err();
    assert_eq!(e.rule, Rule::ArithmeticOperand);
    assert_eq!(e.kind, ErrorKind::Lexical);
}

#[test]
fn function_call_keeps_argument_order() {
    let (f, end) = function("avg(speed,2,delay)", 0).unwrap();
    assert_eq!(end, 18);
    assert_eq!(f.name, "avg");
    assert_eq!(
        f.args,
        vec![
            Argument::property(ident("speed", false)),
            Argument::numeric(num(Sign::Positive, "2")),
            Argument::property(ident("delay", false)),
        ]
    );
}

#[test]
fn function_call_with_no_arguments() {
    let (f, end) = function("now()", 0).unwrap();
    assert_eq!(f, Function::new("now".to_string(), Vec::new()));
    assert_eq!(end, 5);
}

#[test]
fn function_call_failures() {
    // no opening parenthesis after the name
    let e = function("f", 0).unwrap_err();
    assert_eq!(e.rule, Rule::Function);
    assert_eq!(e.kind, ErrorKind::Incomplete);
    assert_eq!(e.pos, 1);

    // a trailing comma commits to another argument
    let e = function("f(1,)", 0).unwrap_err();
    assert_eq!(e.kind, ErrorKind::Incomplete);

    // missing closing parenthesis
    let e = function("f(1", 0).unwrap_err();
    assert_eq!(e.kind, ErrorKind::Incomplete);
    assert_eq!(e.pos, 3);

    // no alphabetic name at all
    let e = function("1f()", 0).unwrap_err();
    assert_eq!(e.kind, ErrorKind::Lexical);
    assert_eq!(e.pos, 0);
}

#[test]
fn argument_list_mixes_numbers_and_names() {
    let (args, end) = argument_list("1,\"a\",x", 0).unwrap();
    assert_eq!(
        args,
        vec![
            Argument::numeric(num(Sign::Positive, "1")),
            Argument::property(ident("a", true)),
            Argument::property(ident("x", false)),
        ]
    );
    assert_eq!(end, 7);

    let e = argument_list(",1", 0).unwrap_err();
    assert_eq!(e.rule, Rule::ArgumentList);
    assert_eq!(e.kind, ErrorKind::Lexical);
}

#[test]
fn argument_classifies_numeric_before_property() {
    let (a, _) = argument("12", 0).unwrap();
    assert_eq!(a, Argument::numeric(num(Sign::Positive, "12")));

    let (a, _) = argument("prop", 0).unwrap();
    assert_eq!(a, Argument::property(ident("prop", false)));

    let e = argument("(", 0).unwrap_err();
    assert_eq!(e.rule, Rule::Argument);
}

#[test]
fn expression_whitespace_and_parentheses_agree() {
    let bare = arithmetic_expression("speed+delay", 0).unwrap();
    let spaced = arithmetic_expression("speed + delay", 0).unwrap();
    let wrapped = arithmetic_expression("(speed + delay)", 0).unwrap();
    assert_eq!(bare.0, spaced.0);
    assert_eq!(spaced.0, wrapped.0);
    assert_eq!(bare.1, 11);
    assert_eq!(spaced.1, 13);
    assert_eq!(wrapped.1, 15);
}

#[test]
fn expression_numeric_on_either_side() {
    let (l, _) = arithmetic_expression("10 * speed", 0).unwrap();
    assert_eq!(l.left_operand, Operand::literal(num(Sign::Positive, "10")));
    assert_eq!(l.operator, ArithmeticOperator::Asterisk);
    assert_eq!(l.right_operand, Operand::identifier(ident("speed", false)));

    let (r, _) = arithmetic_expression("speed * 10", 0).unwrap();
    assert_eq!(r.left_operand, Operand::identifier(ident("speed", false)));
    assert_eq!(r.right_operand, Operand::literal(num(Sign::Positive, "10")));
}

#[test]
fn expression_failures_carry_position() {
    // the operator never arrives
    let e = arithmetic_expression("speed", 0).unwrap_err();
    assert_eq!(e.rule, Rule::ArithmeticExpression);
    assert_eq!(e.kind, ErrorKind::Incomplete);
    assert_eq!(e.pos, 5);

    // the right operand never arrives
    let e = arithmetic_expression("speed + ", 0).unwrap_err();
    assert_eq!(e.kind, ErrorKind::Incomplete);
    assert_eq!(e.pos, 8);

    // the closing parenthesis never arrives
    let e = arithmetic_expression("(a+b", 0).unwrap_err();
    assert_eq!(e.kind, ErrorKind::Incomplete);
    assert_eq!(e.pos, 4);

    // nothing parses at all
    let e = arithmetic_expression("+a", 0).unwrap_err();
    assert_eq!(e.kind, ErrorKind::Lexical);
    assert_eq!(e.pos, 0);
}

#[test]
fn full_consumption_is_the_callers_check() {
    let input = "a+b extra";
    let (_, end) = arithmetic_expression(input, 0).unwrap();
    assert_eq!(end, 3);
    assert!(end < input.chars().count());
}

#[test]
fn unrealized_rules_return_not_supported() {
    let e = character_literal("'x'", 0).unwrap_err();
    assert_eq!((e.rule, e.kind, e.pos), (Rule::CharacterLiteral, ErrorKind::NotSupported, 0));

    let e = spatial_literal("POINT(1 2)", 0).unwrap_err();
    assert_eq!((e.rule, e.kind, e.pos), (Rule::SpatialLiteral, ErrorKind::NotSupported, 0));

    let e = temporal_literal("2020-01-01", 0).unwrap_err();
    assert_eq!((e.rule, e.kind, e.pos), (Rule::TemporalLiteral, ErrorKind::NotSupported, 0));

    let e = array_expression("[1,2]", 0).unwrap_err();
    assert_eq!((e.rule, e.kind, e.pos), (Rule::ArrayExpression, ErrorKind::NotSupported, 0));
}

#[test]
fn arbitrary_inputs_never_abort() {
    let inputs = [
        "",
        " ",
        "((((",
        "\"\"\"",
        "...",
        ",,,",
        "a+",
        "+-*/",
        "\"",
        "()",
        "漢字テスト",
        "🦀🦀",
        "\u{0}\u{1}\u{2}",
        "a\u{308}b",
        "-282120334891901200000000000000000000000000000000000000000000000",
        "\\\\\\",
    ];
    for input in inputs {
        let _ = identifier(input, 0);
        let _ = numeric_literal(input, 0);
        let _ = arithmetic_operator(input, 0);
        let _ = arithmetic_operand(input, 0);
        let _ = arithmetic_expression(input, 0);
        let _ = function(input, 0);
        let _ = argument(input, 0);
        let _ = argument_list(input, 0);
    }
}

#[test]
fn conversions_and_accessors() {
    assert_eq!(Sign::from_char('+'), Some(Sign::Positive));
    assert_eq!(Sign::from_char('-'), Some(Sign::Negative));
    assert_eq!(Sign::from_char('x'), None);

    assert_eq!(ArithmeticOperator::from_char('+'), Some(ArithmeticOperator::PlusSign));
    assert_eq!(ArithmeticOperator::from_char('-'), Some(ArithmeticOperator::MinusSign));
    assert_eq!(ArithmeticOperator::from_char('*'), Some(ArithmeticOperator::Asterisk));
    assert_eq!(ArithmeticOperator::from_char('/'), Some(ArithmeticOperator::Solidus));
    assert_eq!(ArithmeticOperator::from_char('%'), None);

    let id = Identifier::new("depth".to_string(), false);
    assert_eq!(id.name(), "depth".to_string());
    assert_eq!(Operand::from(id.clone()), Operand::identifier(id));

    let f = Function::new("f".to_string(), Vec::new());
    assert_eq!(Operand::from(f.clone()), Operand::function(f));

    let n = num(Sign::Positive, "1");
    assert_eq!(Operand::from(n.clone()), Operand::literal(n.clone()));
    assert_eq!(Argument::numeric(n.clone()), Argument::NumericLiteral(n));
    assert_eq!(Argument::character('c'), Argument::CharacterLiteral('c'));
}
