//! Binary operators and their precedence.

use vstd::prelude::*;

verus! {

/// A binary operator of the expression language.
#[derive(Clone, Copy, Debug, PartialEq, Eq, Structural)]
pub enum Operator {
    Or,
    And,
    EqualEqual,
    NotEqual,
    Less,
    Greater,
    LessEqual,
    GreaterEqual,
    Add,
    Sub,
    Mul,
    Div,
}

impl Operator {
    /// How tightly the operator binds: `or` loosest, then `and`, equality,
    /// ordering, additive and multiplicative operators.
    pub open spec fn spec_precedence(self) -> u8 {
        match self {
            Operator::Or => 1,
            Operator::And => 2,
            Operator::EqualEqual | Operator::NotEqual => 3,
            Operator::Less | Operator::Greater | Operator::LessEqual | Operator::GreaterEqual => 4,
            Operator::Add | Operator::Sub => 5,
            Operator::Mul | Operator::Div => 6,
        }
    }

    /// Whether the operator joins two conditions rather than two values.
    pub open spec fn spec_is_logical(self) -> bool {
        self == Operator::And || self == Operator::Or
    }

    /// How tightly the operator binds.
    #[verifier::when_used_as_spec(spec_precedence)]
    pub fn precedence(self) -> (p: u8)
        ensures
            p == self.spec_precedence(),
            1 <= p <= 6,
    {
        match self {
            Operator::Or => 1,
            Operator::And => 2,
            Operator::EqualEqual | Operator::NotEqual => 3,
            Operator::Less | Operator::Greater | Operator::LessEqual | Operator::GreaterEqual => 4,
            Operator::Add | Operator::Sub => 5,
            Operator::Mul | Operator::Div => 6,
        }
    }

    /// Whether the operator joins two conditions rather than two values.
    #[verifier::when_used_as_spec(spec_is_logical)]
    pub fn is_logical(self) -> (b: bool)
        ensures
            b == self.spec_is_logical(),
    {
        self == Operator::And || self == Operator::Or
    }
}

} // verus!
