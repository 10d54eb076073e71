//! The abstract syntax tree produced by the parser, and the failure model
//! shared by every parsing function.
//!
//! Each executable type has a view type (`IdentView`, `NumView`, ...) over
//! `Seq<char>`; contracts throughout the crate speak of those views.

use vstd::prelude::*;

verus! {

/// The lexical sign of a numeric literal.
#[derive(Clone, Copy, Debug, PartialEq, Eq, Structural)]
pub enum Sign {
    Positive,
    Negative,
}

/// What `Sign::from_char` yields: a sign for `+` and `-`, nothing otherwise.
pub open spec fn sign_of_char(c: char) -> Option<Sign> {
    if c == '+' {
        Some(Sign::Positive)
    } else if c == '-' {
        Some(Sign::Negative)
    } else {
        None
    }
}

impl Sign {
    /// Classify a sign character.  Unrecognized characters yield `None`
    /// rather than aborting.
    pub fn from_char(c: char) -> (r: Option<Sign>)
        ensures
            r == sign_of_char(c),
    {
        if c == '+' {
            Some(Sign::Positive)
        } else if c == '-' {
            Some(Sign::Negative)
        } else {
            None
        }
    }
}

/// The four binary arithmetic operators, named after their lexical tokens
/// `+ - * /`.
#[derive(Clone, Copy, Debug, PartialEq, Eq, Structural)]
pub enum ArithmeticOperator {
    PlusSign,
    MinusSign,
    Asterisk,
    Solidus,
}

/// What `ArithmeticOperator::from_char` yields.
pub open spec fn operator_of_char(c: char) -> Option<ArithmeticOperator> {
    if c == '+' {
        Some(ArithmeticOperator::PlusSign)
    } else if c == '-' {
        Some(ArithmeticOperator::MinusSign)
    } else if c == '*' {
        Some(ArithmeticOperator::Asterisk)
    } else if c == '/' {
        Some(ArithmeticOperator::Solidus)
    } else {
        None
    }
}

impl ArithmeticOperator {
    /// Classify an operator character.  Unrecognized characters yield `None`
    /// rather than aborting.
    pub fn from_char(c: char) -> (r: Option<ArithmeticOperator>)
        ensures
            r == operator_of_char(c),
    {
        if c == '+' {
            Some(ArithmeticOperator::PlusSign)
        } else if c == '-' {
            Some(ArithmeticOperator::MinusSign)
        } else if c == '*' {
            Some(ArithmeticOperator::Asterisk)
        } else if c == '/' {
            Some(ArithmeticOperator::Solidus)
        } else {
            None
        }
    }
}

/// The view of an `Identifier`.
pub struct IdentView {
    pub value: Seq<char>,
    pub is_quoted: bool,
}

/// A property name: the decoded identifier text, plus whether the source
/// wrote it between double quotes (the delimiters are stripped from
/// `value`).  A parsed identifier is never empty.
#[derive(Clone, Debug, PartialEq)]
pub struct Identifier {
    pub value: String,
    pub is_quoted: bool,
}

impl View for Identifier {
    type V = IdentView;

    open spec fn view(&self) -> IdentView {
        IdentView { value: self.value@, is_quoted: self.is_quoted }
    }
}

impl Identifier {
    pub fn new(value: String, is_quoted: bool) -> (r: Identifier)
        ensures
            r == (Identifier { value, is_quoted }),
    {
        Identifier { value, is_quoted }
    }

    pub fn name(&self) -> (r: String)
        ensures
            r@ == self@.value,
    {
        self.value.clone()
    }
}

/// The view of a `NumericLiteral`.
pub struct NumView {
    pub sign: Sign,
    pub magnitude: Seq<char>,
}

/// A numeric literal: its sign and the unsigned decimal text exactly as it
/// stood in the input (digits, optionally with a fractional part).  Keeping
/// the full text means no magnitude is ever silently truncated; converting
/// it to a machine float, saturating to infinity when the magnitude
/// overflows, is the caller's concern.
#[derive(Clone, Debug, PartialEq)]
pub struct NumericLiteral {
    pub sign: Sign,
    pub magnitude: String,
}

impl View for NumericLiteral {
    type V = NumView;

    open spec fn view(&self) -> NumView {
        NumView { sign: self.sign, magnitude: self.magnitude@ }
    }
}

/// The view of an `Argument`.
pub enum ArgView {
    CharacterLiteral(char),
    NumericLiteral(NumView),
    PropertyName(IdentView),
}

/// One element of a function call's argument list.  The realized grammar
/// only constructs the numeric-literal and property-name variants; the
/// character-literal variant is declared for completeness but no parsing
/// rule yields it yet.
#[derive(Clone, Debug, PartialEq)]
pub enum Argument {
    CharacterLiteral(char),
    NumericLiteral(NumericLiteral),
    PropertyName(Identifier),
}

impl View for Argument {
    type V = ArgView;

    open spec fn view(&self) -> ArgView {
        match self {
            Argument::CharacterLiteral(c) => ArgView::CharacterLiteral(*c),
            Argument::NumericLiteral(n) => ArgView::NumericLiteral(n@),
            Argument::PropertyName(p) => ArgView::PropertyName(p@),
        }
    }
}

impl Argument {
    pub fn character(item: char) -> (r: Argument)
        ensures
            r == Argument::CharacterLiteral(item),
    {
        Argument::CharacterLiteral(item)
    }

    pub fn numeric(item: NumericLiteral) -> (r: Argument)
        ensures
            r == Argument::NumericLiteral(item),
    {
        Argument::NumericLiteral(item)
    }

    pub fn property(item: Identifier) -> (r: Argument)
        ensures
            r == Argument::PropertyName(item),
    {
        Argument::PropertyName(item)
    }
}

/// The view of a `Function`.
pub struct FuncView {
    pub name: Seq<char>,
    pub args: Seq<ArgView>,
}

/// A function call: its name (plain alphabetic identifier) and its
/// arguments in call-site order.
#[derive(Clone, Debug, PartialEq)]
pub struct Function {
    pub name: String,
    pub args: Vec<Argument>,
}

/// The views of a sequence of arguments, in order.
pub open spec fn view_args(args: Seq<Argument>) -> Seq<ArgView> {
    Seq::new(args.len(), |i: int| args[i]@)
}

impl View for Function {
    type V = FuncView;

    open spec fn view(&self) -> FuncView {
        FuncView { name: self.name@, args: view_args(self.args@) }
    }
}

impl Function {
    pub fn new(name: String, args: Vec<Argument>) -> (r: Function)
        ensures
            r == (Function { name, args }),
    {
        Function { name, args }
    }
}

/// The view of an `Operand`.
pub enum OperandView {
    Literal(NumView),
    Identifier(IdentView),
    Function(FuncView),
}

/// The left or right side of a binary arithmetic expression: exactly one of
/// a numeric literal, a property name, or a function call.
#[derive(Clone, Debug, PartialEq)]
pub enum Operand {
    Literal(NumericLiteral),
    Identifier(Identifier),
    Function(Function),
}

impl View for Operand {
    type V = OperandView;

    open spec fn view(&self) -> OperandView {
        match self {
            Operand::Literal(n) => OperandView::Literal(n@),
            Operand::Identifier(p) => OperandView::Identifier(p@),
            Operand::Function(f) => OperandView::Function(f@),
        }
    }
}

impl Operand {
    pub fn literal(x: NumericLiteral) -> (r: Operand)
        ensures
            r == Operand::Literal(x),
    {
        Operand::Literal(x)
    }

    pub fn identifier(x: Identifier) -> (r: Operand)
        ensures
            r == Operand::Identifier(x),
    {
        Operand::Identifier(x)
    }

    pub fn function(x: Function) -> (r: Operand)
        ensures
            r == Operand::Function(x),
    {
        Operand::Function(x)
    }
}

impl From<NumericLiteral> for Operand {
    fn from(item: NumericLiteral) -> (r: Operand) {
        Operand::Literal(item)
    }
}

impl vstd::std_specs::convert::FromSpecImpl<NumericLiteral> for Operand {
    open spec fn obeys_from_spec() -> bool {
        true
    }

    open spec fn from_spec(t: NumericLiteral) -> Operand {
        Operand::Literal(t)
    }
}

impl From<Identifier> for Operand {
    fn from(item: Identifier) -> (r: Operand) {
        Operand::Identifier(item)
    }
}

impl vstd::std_specs::convert::FromSpecImpl<Identifier> for Operand {
    open spec fn obeys_from_spec() -> bool {
        true
    }

    open spec fn from_spec(t: Identifier) -> Operand {
        Operand::Identifier(t)
    }
}

impl From<Function> for Operand {
    fn from(item: Function) -> (r: Operand) {
        Operand::Function(item)
    }
}

impl vstd::std_specs::convert::FromSpecImpl<Function> for Operand {
    open spec fn obeys_from_spec() -> bool {
        true
    }

    open spec fn from_spec(t: Function) -> Operand {
        Operand::Function(t)
    }
}

/// The view of an `ArithmeticExpression`.
pub struct ExprView {
    pub left_operand: OperandView,
    pub operator: ArithmeticOperator,
    pub right_operand: OperandView,
}

/// A binary arithmetic expression.  The realized grammar supports exactly
/// one operator between exactly two operands; an operand is never itself an
/// expression.
#[derive(Clone, Debug, PartialEq)]
pub struct ArithmeticExpression {
    pub left_operand: Operand,
    pub operator: ArithmeticOperator,
    pub right_operand: Operand,
}

impl View for ArithmeticExpression {
    type V = ExprView;

    open spec fn view(&self) -> ExprView {
        ExprView {
            left_operand: self.left_operand@,
            operator: self.operator,
            right_operand: self.right_operand@,
        }
    }
}

/// A placeholder for the root of a full filter expression; the realized
/// grammar does not construct it yet.
pub struct Filter {}

/// The grammar rule a failing parse was attempting.
#[derive(Clone, Copy, Debug, PartialEq, Eq, Structural)]
pub enum Rule {
    IdentifierPart,
    Identifier,
    NumericLiteral,
    ArithmeticOperator,
    ArithmeticOperand,
    ArithmeticExpression,
    Function,
    ArgumentList,
    Argument,
    CharacterLiteral,
    SpatialLiteral,
    TemporalLiteral,
    ArrayExpression,
}

/// How a parse failed: no token of the rule matches at the position
/// (`Lexical`), the rule matched its first element but a later required
/// token is missing — a structural failure of a composite rule
/// (`Incomplete`) — or the rule is a declared grammar production that is
/// not realized yet (`NotSupported`).
#[derive(Clone, Copy, Debug, PartialEq, Eq, Structural)]
pub enum ErrorKind {
    Lexical,
    Incomplete,
    NotSupported,
}

/// A typed parse failure: the rule being attempted, how it failed, and the
/// offset into the input at which it failed.
#[derive(Clone, Copy, Debug, PartialEq, Eq, Structural)]
pub struct ParseError {
    pub rule: Rule,
    pub kind: ErrorKind,
    pub pos: usize,
}

} // verus!
