//! Tokens: what the compiler reads.

use crate::number::{parse_i64, spec_parse_i64};
use crate::operator::Operator;
use crate::types::ValueType;
use vstd::prelude::*;

verus! {

/// The kind of a token.
#[derive(Clone, Copy, Debug, PartialEq, Eq, Structural)]
pub enum TokenKind {
    SemiColon,
    LeftParenthesis,
    RightParenthesis,
    LeftCurly,
    RightCurly,
    Equal,
    Colon,
    Comma,
    Add,
    Mul,
    Div,
    Sub,
    Less,
    Greater,
    EqualEqual,
    NotEqual,
    LessEqual,
    GreaterEqual,
    IntType,
    FloatType,
    StringType,
    Fn,
    Let,
    And,
    Or,
    While,
    Return,
    If,
    Else,
    Void,
    Break,
    VecInt,
    VecFloat,
    VecString,
    Identifier,
    Int,
    Float,
    Str,
    /// Marks the end of the input. No production of the grammar accepts it.
    EndOfInput,
}

/// A token: its kind, its text as written in the source, and the line it
/// stands on, counted from one.
#[derive(Debug)]
pub struct Token {
    pub kind: TokenKind,
    pub text: String,
    pub line: usize,
    /// For a float literal, the bits of its value as an IEEE-754 double.
    /// Nothing reads it on a token of another kind.
    pub float_bits: i64,
}

impl TokenKind {
    /// The binary operator that a token of this kind writes, if it writes one.
    pub open spec fn spec_operator(self) -> Option<Operator> {
        match self {
            TokenKind::Or => Some(Operator::Or),
            TokenKind::And => Some(Operator::And),
            TokenKind::EqualEqual => Some(Operator::EqualEqual),
            TokenKind::NotEqual => Some(Operator::NotEqual),
            TokenKind::Less => Some(Operator::Less),
            TokenKind::Greater => Some(Operator::Greater),
            TokenKind::LessEqual => Some(Operator::LessEqual),
            TokenKind::GreaterEqual => Some(Operator::GreaterEqual),
            TokenKind::Add => Some(Operator::Add),
            TokenKind::Sub => Some(Operator::Sub),
            TokenKind::Mul => Some(Operator::Mul),
            TokenKind::Div => Some(Operator::Div),
            _ => None,
        }
    }

    /// The type that a type keyword of this kind names, if it is one that a
    /// variable can have.
    pub open spec fn spec_value_type(self) -> Option<ValueType> {
        match self {
            TokenKind::IntType => Some(ValueType::Int),
            TokenKind::FloatType => Some(ValueType::Float),
            TokenKind::StringType => Some(ValueType::Str),
            TokenKind::VecInt => Some(ValueType::VecInt),
            TokenKind::VecFloat => Some(ValueType::VecFloat),
            TokenKind::VecString => Some(ValueType::VecStr),
            _ => None,
        }
    }

    /// Whether a token of this kind may stand last in the input. An operator,
    /// a comma, `else` and an opening parenthesis all announce more to come.
    pub open spec fn spec_may_end_input(self) -> bool {
        self.spec_operator() is None && self != TokenKind::Comma && self != TokenKind::Else && self
            != TokenKind::LeftParenthesis
    }

    /// The binary operator that a token of this kind writes, if it writes one.
    #[verifier::when_used_as_spec(spec_operator)]
    pub fn operator(self) -> (op: Option<Operator>)
        ensures
            op == self.spec_operator(),
    {
        match self {
            TokenKind::Or => Some(Operator::Or),
            TokenKind::And => Some(Operator::And),
            TokenKind::EqualEqual => Some(Operator::EqualEqual),
            TokenKind::NotEqual => Some(Operator::NotEqual),
            TokenKind::Less => Some(Operator::Less),
            TokenKind::Greater => Some(Operator::Greater),
            TokenKind::LessEqual => Some(Operator::LessEqual),
            TokenKind::GreaterEqual => Some(Operator::GreaterEqual),
            TokenKind::Add => Some(Operator::Add),
            TokenKind::Sub => Some(Operator::Sub),
            TokenKind::Mul => Some(Operator::Mul),
            TokenKind::Div => Some(Operator::Div),
            _ => None,
        }
    }

    /// The type that a type keyword of this kind names, if it is one that a
    /// variable can have.
    #[verifier::when_used_as_spec(spec_value_type)]
    pub fn value_type(self) -> (ty: Option<ValueType>)
        ensures
            ty == self.spec_value_type(),
    {
        match self {
            TokenKind::IntType => Some(ValueType::Int),
            TokenKind::FloatType => Some(ValueType::Float),
            TokenKind::StringType => Some(ValueType::Str),
            TokenKind::VecInt => Some(ValueType::VecInt),
            TokenKind::VecFloat => Some(ValueType::VecFloat),
            TokenKind::VecString => Some(ValueType::VecStr),
            _ => None,
        }
    }

    /// Whether a token of this kind may stand last in the input.
    #[verifier::when_used_as_spec(spec_may_end_input)]
    pub fn may_end_input(self) -> (b: bool)
        ensures
            b == self.spec_may_end_input(),
    {
        match self {
            TokenKind::Comma | TokenKind::Else | TokenKind::LeftParenthesis => false,
            _ => self.operator().is_none(),
        }
    }
}

impl Token {
    /// A token that is no float literal.
    pub fn new(kind: TokenKind, text: &str, line: usize) -> (token: Token)
        ensures
            token.kind == kind,
            token.text@ == text@,
            token.line == line,
            token.float_bits == 0,
    {
        Token { kind, text: String::from_str(text), line, float_bits: 0 }
    }

    /// A float literal, written `text`, whose value has the bits `float_bits`.
    pub fn float(text: &str, float_bits: i64, line: usize) -> (token: Token)
        ensures
            token.kind == TokenKind::Float,
            token.text@ == text@,
            token.line == line,
            token.float_bits == float_bits,
    {
        Token { kind: TokenKind::Float, text: String::from_str(text), line, float_bits }
    }
}

/// The number that an integer literal with the text `text` writes.
pub open spec fn int_value(text: Seq<char>) -> i64 {
    spec_parse_i64(text)->0
}

/// What the compiler asks of its input: it is not empty, the kind of its
/// last token may end an input, and the text of every integer literal writes a
/// number of 64 bits.
pub open spec fn well_formed(tokens: Seq<Token>) -> bool {
    &&& tokens.len() > 0
    &&& tokens.last().kind.spec_may_end_input()
    &&& forall|i: int|
        0 <= i < tokens.len() && (#[trigger] tokens[i]).kind == TokenKind::Int ==> spec_parse_i64(
            tokens[i].text@,
        ) is Some
}

/// Decides whether `tokens` is an input that the compiler takes.
pub fn check_tokens(tokens: &Vec<Token>) -> (ok: bool)
    ensures
        ok == well_formed(tokens@),
{
    let n: usize = tokens.len();
    if n == 0 {
        return false;
    }
    if !tokens[n - 1].kind.may_end_input() {
        return false;
    }
    let mut i: usize = 0;
    while i < n
        invariant
            n == tokens.len(),
            i <= n,
            forall|j: int|
                0 <= j < i && (#[trigger] tokens[j]).kind == TokenKind::Int ==> spec_parse_i64(
                    tokens[j].text@,
                ) is Some,
        decreases n - i,
    {
        if tokens[i].kind == TokenKind::Int {
            if parse_i64(tokens[i].text.as_str()).is_none() {
                return false;
            }
        }
        i += 1;
    }
    true
}

/// The value of the integer literal `token`.
pub fn literal_value(token: &Token) -> (value: i64)
    requires
        spec_parse_i64(token.text@) is Some,
    ensures
        value == int_value(token.text@),
{
    match parse_i64(token.text.as_str()) {
        Some(value) => value,
        None => 0,
    }
}

} // verus!
