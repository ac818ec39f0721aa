//! Value types of the language and the security lattice.

use vstd::prelude::*;

verus! {

/// The type of a value, of a variable or of what a function returns.
#[derive(Clone, Copy, Debug, PartialEq, Eq, Structural)]
pub enum ValueType {
    /// No value: the return type of a procedure.
    Void,
    Int,
    Float,
    Str,
    VecInt,
    VecFloat,
    VecStr,
    /// The type of a variable declared without a readable type. It equals no
    /// type that an expression can be asked for.
    Unknown,
}

/// The most secret level there is; zero is public.
pub const MAX_SECURITY: i64 = 100;

/// A declared parameter: its type and the highest security level an argument
/// passed for it may carry.
#[derive(Clone, Copy, Debug, PartialEq, Eq, Structural)]
pub struct Param {
    pub ty: ValueType,
    pub security: i64,
}

impl ValueType {
    /// The word that stands for this type in the operand of a `USE`.
    pub open spec fn spec_code(self) -> i64 {
        match self {
            ValueType::Void => 0,
            ValueType::Int => 1,
            ValueType::Float => 2,
            ValueType::Str => 3,
            ValueType::VecInt => 4,
            ValueType::VecFloat => 5,
            ValueType::VecStr => 6,
            ValueType::Unknown => 0,
        }
    }

    /// Whether values of this type exist: every type but `Void` and `Unknown`.
    pub open spec fn spec_has_values(self) -> bool {
        self != ValueType::Void && self != ValueType::Unknown
    }

    /// The word that stands for this type in the operand of a `USE`.
    #[verifier::when_used_as_spec(spec_code)]
    pub fn code(self) -> (word: i64)
        ensures
            word == self.spec_code(),
    {
        match self {
            ValueType::Void => 0,
            ValueType::Int => 1,
            ValueType::Float => 2,
            ValueType::Str => 3,
            ValueType::VecInt => 4,
            ValueType::VecFloat => 5,
            ValueType::VecStr => 6,
            ValueType::Unknown => 0,
        }
    }

    /// Whether values of this type exist.
    #[verifier::when_used_as_spec(spec_has_values)]
    pub fn has_values(self) -> (b: bool)
        ensures
            b == self.spec_has_values(),
    {
        !(self == ValueType::Void || self == ValueType::Unknown)
    }
}

/// The lattice check: data labelled `level` may flow into a context whose
/// ceiling is `ceiling` exactly when the level does not exceed the ceiling.
pub open spec fn flow_allowed(level: i64, ceiling: i64) -> bool {
    level <= ceiling
}

} // verus!
