//! Diagnostics: what the compiler reports about a program.

use crate::operator::Operator;
use vstd::prelude::*;

verus! {

/// What a matcher of the grammar was looking for.
#[derive(Clone, Copy, Debug, PartialEq, Eq, Structural)]
pub enum Expectation {
    LeftCurly,
    RightCurly,
    Fn,
    /// A type keyword or `void`.
    FnType,
    SemiColon,
    Let,
    Identifier,
    /// A type keyword.
    VarType,
    Colon,
    Integer,
    Float,
    Equal,
    LeftParenthesis,
    RightParenthesis,
    Comma,
    Return,
    If,
    Else,
    While,
    Break,
}

/// The kinds of diagnostic.
#[derive(Clone, Copy, Debug, PartialEq, Eq, Structural)]
pub enum DiagnosticKind {
    /// A function is named like a built-in.
    ReservedFunctionName,
    /// The program declares no function `main`.
    NoMain,
    /// `main` is declared with a return type.
    MainNotVoid,
    /// A second function of the same name.
    DuplicateFunction,
    /// A function's body has no `return` at its top level.
    MissingReturn,
    /// A call that stands as a statement returns a value.
    CallNotVoid,
    /// `break` outside any loop.
    BreakOutsideLoop,
    /// No statement begins with this token.
    UnknownStatement,
    /// A matcher met another token than the one it was looking for.
    Expected(Expectation),
    /// The type of the expression has no such operator.
    Unsupported(Operator),
    /// A built-in returns another type than the expression asks for, or a
    /// value is printed that is no integer, float or string.
    TypeMismatch,
    /// A parenthesis is not closed.
    NoClosingParenthesis,
    /// Neither an operand nor a parenthesis begins here.
    InvalidOperand,
    /// A variable is used that no declaration in sight introduces.
    UndeclaredVariable,
    /// A variable is used outside the block that declares it.
    OutOfScope,
    /// A declaration reuses the name of a variable in sight.
    AlreadyDeclared,
    /// A declared security level above the maximum; holds the level.
    SecurityAboveMaximum(i64),
    /// A declared security level below zero; holds the level.
    SecurityBelowMinimum(i64),
    /// A call of a function that is declared nowhere.
    UnknownFunction,
    /// `return` with a value in a procedure.
    ReturnValueFromVoid,
    /// `return` without a value in a function.
    MissingReturnValue,
    /// No argument of `print` begins with this token.
    UnknownPrintArgument,
    /// A function returns another type than the expression asks for.
    FunctionTypeMismatch,
    /// A value is more secret than its context allows.
    SecurityExceeded,
    /// In a string literal a backslash is followed by something other than `n`.
    BadEscape,
    /// A variable has another type than the expression asks for.
    VariableTypeMismatch,
}

/// One reported problem.
#[derive(Clone, Copy, Debug, PartialEq, Eq, Structural)]
pub struct Diagnostic {
    pub kind: DiagnosticKind,
    /// The source line the problem was found on; zero for a problem of the
    /// program as a whole.
    pub line: usize,
    /// The index of the token whose text the message quotes.
    pub token: usize,
}

} // verus!
