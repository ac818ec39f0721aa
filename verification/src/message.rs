//! The text of a diagnostic.

use crate::diagnostic::{Diagnostic, DiagnosticKind, Expectation};
use crate::operator::Operator;
use crate::token::Token;
use vstd::prelude::*;

verus! {

/// The character that writes the digit `d`.
pub open spec fn digit_char(d: int) -> char {
    if d == 0 {
        '0'
    } else if d == 1 {
        '1'
    } else if d == 2 {
        '2'
    } else if d == 3 {
        '3'
    } else if d == 4 {
        '4'
    } else if d == 5 {
        '5'
    } else if d == 6 {
        '6'
    } else if d == 7 {
        '7'
    } else if d == 8 {
        '8'
    } else {
        '9'
    }
}

/// The digits that write the number `n` in base ten, without leading zeros.
pub open spec fn digits_of(n: nat) -> Seq<char>
    decreases n,
{
    if n < 10 {
        seq![digit_char(n as int)]
    } else {
        digits_of(n / 10).push(digit_char((n % 10) as int))
    }
}

/// The number `n` written in base ten, with a minus sign where it is below
/// zero.
pub open spec fn decimal(n: int) -> Seq<char> {
    if n < 0 {
        seq!['-'] + digits_of((-n) as nat)
    } else {
        digits_of(n as nat)
    }
}

/// The text that writes the digit `d`.
fn digit_word(d: u8) -> (word: &'static str)
    requires
        d < 10,
    ensures
        word@ == seq![digit_char(d as int)],
{
    proof {
        reveal_strlit("0");
        reveal_strlit("1");
        reveal_strlit("2");
        reveal_strlit("3");
        reveal_strlit("4");
        reveal_strlit("5");
        reveal_strlit("6");
        reveal_strlit("7");
        reveal_strlit("8");
        reveal_strlit("9");
    }
    let word = match d {
        0 => "0",
        1 => "1",
        2 => "2",
        3 => "3",
        4 => "4",
        5 => "5",
        6 => "6",
        7 => "7",
        8 => "8",
        _ => "9",
    };
    assert(word@ =~= seq![digit_char(d as int)]);
    word
}

/// Adds the number `n`, written in base ten, to `text`.
pub(crate) fn append_number(text: &mut String, n: u64)
    ensures
        final(text)@ == old(text)@ + digits_of(n as nat),
{
    let ghost start = text@;
    let mut digits: Vec<u8> = Vec::new();
    let mut rest: u64 = n;
    let ghost mut low: Seq<char> = Seq::empty();
    while rest >= 10
        invariant
            digits_of(n as nat) == digits_of(rest as nat) + low,
            low.len() == digits.len(),
            forall|j: int|
                0 <= j < low.len() ==> low[j] == digit_char(digits[low.len() - 1 - j] as int),
            forall|j: int| 0 <= j < digits.len() ==> digits[j] < 10,
        decreases rest,
    {
        let d: u8 = (rest % 10) as u8;
        proof {
            let before = low;
            low = seq![digit_char(d as int)] + low;
            assert(digits_of(rest as nat) == digits_of((rest / 10) as nat).push(
                digit_char(d as int),
            ));
            assert(digits_of((rest / 10) as nat).push(digit_char(d as int)) + before =~= digits_of(
                (rest / 10) as nat,
            ) + low);
        }
        digits.push(d);
        rest = rest / 10;
    }
    proof {
        let before = low;
        low = seq![digit_char(rest as int)] + low;
        assert(digits_of(rest as nat) + before =~= low);
    }
    digits.push(rest as u8);
    let mut i: usize = digits.len();
    while i > 0
        invariant
            i <= digits.len(),
            low.len() == digits.len(),
            forall|j: int|
                0 <= j < low.len() ==> low[j] == digit_char(digits[low.len() - 1 - j] as int),
            forall|j: int| 0 <= j < digits.len() ==> digits[j] < 10,
            text@ == start + low.take(digits.len() - i),
        decreases i,
    {
        i -= 1;
        let ghost before = text@;
        text.append(digit_word(digits[i]));
        assert(text@ =~= start + low.take(digits.len() - i)) by {
            let k = digits.len() - i;
            assert(low.take(k) =~= low.take(k - 1).push(low[k - 1]));
        }
    }
    assert(low.take(low.len() as int) =~= low);
}

/// Adds the number `n`, written in base ten with its sign, to `text`.
pub(crate) fn append_signed(text: &mut String, n: i64)
    ensures
        final(text)@ == old(text)@ + decimal(n as int),
{
    if n < 0 {
        proof {
            reveal_strlit("-");
        }
        let ghost start = text@;
        text.append("-");
        let magnitude: u64 = (-(n + 1)) as u64 + 1;
        append_number(text, magnitude);
        assert(text@ =~= start + (seq!['-'] + digits_of((-n) as nat))) by {
            assert("-"@ =~= seq!['-']);
        }
    } else {
        append_number(text, n as u64);
    }
}

/// How a message names what a matcher was looking for.
pub open spec fn wanted_text(wanted: Expectation) -> Seq<char> {
    match wanted {
        Expectation::LeftCurly => "'{',"@,
        Expectation::RightCurly => "'}',"@,
        Expectation::Fn => "'fn',"@,
        Expectation::FnType => "type,"@,
        Expectation::SemiColon => "';',"@,
        Expectation::Let => "'let',"@,
        Expectation::Identifier => "identifier,"@,
        Expectation::VarType => "type,"@,
        Expectation::Colon => "':',"@,
        Expectation::Integer => "integer,"@,
        Expectation::Float => "float,"@,
        Expectation::Equal => "'=',"@,
        Expectation::LeftParenthesis => "'('"@,
        Expectation::RightParenthesis => "')'"@,
        Expectation::Comma => "','"@,
        Expectation::Return => "'return',"@,
        Expectation::If => "'if',"@,
        Expectation::Else => "'else',"@,
        Expectation::While => "'while',"@,
        Expectation::Break => "'break',"@,
    }
}

/// How a message names an operation.
pub open spec fn operation_text(op: Operator) -> Seq<char> {
    match op {
        Operator::Or => "disjunction"@,
        Operator::And => "conjunction"@,
        Operator::EqualEqual => "equal comparison"@,
        Operator::NotEqual => "not equal comparison"@,
        Operator::Less => "less than comparison"@,
        Operator::Greater => "greater than comparison"@,
        Operator::LessEqual => "less than or equal comparison"@,
        Operator::GreaterEqual => "greater than or equal comparison"@,
        Operator::Add => "addition"@,
        Operator::Sub => "subtraction"@,
        Operator::Mul => "multiplication"@,
        Operator::Div => "division"@,
    }
}

/// The end of a message that names a line.
pub open spec fn placed(line: usize) -> Seq<char> {
    " on line "@ + digits_of(line as nat) + "."@
}

/// The text that the diagnostic quotes: the text of its token.
pub open spec fn quoted(d: Diagnostic, tokens: Seq<Token>) -> Seq<char> {
    if d.token < tokens.len() {
        tokens[d.token as int].text@
    } else {
        Seq::empty()
    }
}

/// The message of a diagnostic about the program `tokens`.
pub open spec fn message_text(d: Diagnostic, tokens: Seq<Token>) -> Seq<char> {
    let name = quoted(d, tokens);
    let end = placed(d.line);
    match d.kind {
        DiagnosticKind::ReservedFunctionName => "Function name '"@ + name
            + "' cannot be the same as a standard library function"@ + end,
        DiagnosticKind::NoMain => "No main function found in program."@,
        DiagnosticKind::MainNotVoid => "Function 'main' must be of type void"@ + end,
        DiagnosticKind::DuplicateFunction => "Function with name '"@ + name + "' already exists"@
            + end,
        DiagnosticKind::MissingReturn => "Function '"@ + name + "' has no return statement."@,
        DiagnosticKind::CallNotVoid => "Function not within an expression must be void"@ + end,
        DiagnosticKind::BreakOutsideLoop => "Cannot break out of a non loop"@ + end,
        DiagnosticKind::UnknownStatement => "Beginning of unkown statement type"@ + end,
        DiagnosticKind::Expected(wanted) => "Expected "@ + wanted_text(wanted) + " got '"@ + name
            + "'"@ + end,
        DiagnosticKind::Unsupported(op) => "Type does not support "@ + operation_text(op) + end,
        DiagnosticKind::TypeMismatch => "Type mismatch"@ + end,
        DiagnosticKind::NoClosingParenthesis => "No closing parenthesis on line "@ + digits_of(
            d.line as nat,
        ),
        DiagnosticKind::InvalidOperand =>
            "Invalid Token Type: Expected either literal or grouped expression, got '"@ + name
            + "'"@ + end,
        DiagnosticKind::UndeclaredVariable => "Undeclared variable '"@ + name + "'"@ + end,
        DiagnosticKind::OutOfScope => "Variable '"@ + name + "' is not found within this scope"@
            + end,
        DiagnosticKind::AlreadyDeclared => "Identifier '"@ + name + "' already declared"@ + end,
        DiagnosticKind::SecurityAboveMaximum(level) => "'"@ + decimal(level as int)
            + "' exceeds the maximum security of 100"@ + end,
        DiagnosticKind::SecurityBelowMinimum(level) => "'"@ + decimal(level as int)
            + "' is below the lowest security of 0"@ + end,
        DiagnosticKind::UnknownFunction => "Unkown function '"@ + name + "' found"@ + end,
        DiagnosticKind::ReturnValueFromVoid => "Cannot return value from void function"@ + end,
        DiagnosticKind::MissingReturnValue => "Must return value from non-void function"@ + end,
        DiagnosticKind::UnknownPrintArgument => "Unknown token '"@ + name
            + "', expected beginning of expression"@ + end,
        DiagnosticKind::FunctionTypeMismatch => "Type mismatch: function '"@ + name + "'"@ + end,
        DiagnosticKind::SecurityExceeded => "Max security level exceeded with '"@ + name + "'"@
            + end,
        DiagnosticKind::BadEscape => "Expect 'n' after backslash in token "@ + name + end,
        DiagnosticKind::VariableTypeMismatch => "Type mismatch: identifier '"@ + name + "'"@ + end,
    }
}

/// How a message names what a matcher was looking for.
fn wanted_word(wanted: Expectation) -> (word: &'static str)
    ensures
        word@ == wanted_text(wanted),
{
    match wanted {
        Expectation::LeftCurly => "'{',",
        Expectation::RightCurly => "'}',",
        Expectation::Fn => "'fn',",
        Expectation::FnType => "type,",
        Expectation::SemiColon => "';',",
        Expectation::Let => "'let',",
        Expectation::Identifier => "identifier,",
        Expectation::VarType => "type,",
        Expectation::Colon => "':',",
        Expectation::Integer => "integer,",
        Expectation::Float => "float,",
        Expectation::Equal => "'=',",
        Expectation::LeftParenthesis => "'('",
        Expectation::RightParenthesis => "')'",
        Expectation::Comma => "','",
        Expectation::Return => "'return',",
        Expectation::If => "'if',",
        Expectation::Else => "'else',",
        Expectation::While => "'while',",
        Expectation::Break => "'break',",
    }
}

/// How a message names an operation.
fn operation_word(op: Operator) -> (word: &'static str)
    ensures
        word@ == operation_text(op),
{
    match op {
        Operator::Or => "disjunction",
        Operator::And => "conjunction",
        Operator::EqualEqual => "equal comparison",
        Operator::NotEqual => "not equal comparison",
        Operator::Less => "less than comparison",
        Operator::Greater => "greater than comparison",
        Operator::LessEqual => "less than or equal comparison",
        Operator::GreaterEqual => "greater than or equal comparison",
        Operator::Add => "addition",
        Operator::Sub => "subtraction",
        Operator::Mul => "multiplication",
        Operator::Div => "division",
    }
}

/// Adds " on line ", the line and a full stop to `text`.
fn append_place(text: &mut String, line: usize)
    ensures
        final(text)@ == old(text)@ + placed(line),
{
    let ghost start = text@;
    text.append(" on line ");
    append_number(text, line as u64);
    text.append(".");
    assert(text@ =~= start + placed(line));
}

/// `head`, the quoted text, `tail` and the line.
fn around(head: &str, name: &str, tail: &str, line: usize) -> (text: String)
    ensures
        text@ == head@ + name@ + tail@ + placed(line),
{
    let mut text = String::from_str(head);
    text.append(name);
    text.append(tail);
    append_place(&mut text, line);
    text
}

/// `head` and the line.
fn plain(head: &str, line: usize) -> (text: String)
    ensures
        text@ == head@ + placed(line),
{
    let mut text = String::from_str(head);
    append_place(&mut text, line);
    text
}

impl Diagnostic {
    /// The message of the diagnostic about the program `tokens`, as a line
    /// for a reader.
    pub fn message(&self, tokens: &Vec<Token>) -> (text: String)
        ensures
            text@ == message_text(*self, tokens@),
    {
        let empty = String::new();
        let name: &str = if self.token < tokens.len() {
            tokens[self.token].text.as_str()
        } else {
            empty.as_str()
        };
        let line = self.line;
        match self.kind {
            DiagnosticKind::ReservedFunctionName => around(
                "Function name '",
                name,
                "' cannot be the same as a standard library function",
                line,
            ),
            DiagnosticKind::NoMain => String::from_str("No main function found in program."),
            DiagnosticKind::MainNotVoid => plain("Function 'main' must be of type void", line),
            DiagnosticKind::DuplicateFunction => around(
                "Function with name '",
                name,
                "' already exists",
                line,
            ),
            DiagnosticKind::MissingReturn => {
                let mut text = String::from_str("Function '");
                text.append(name);
                text.append("' has no return statement.");
                text
            },
            DiagnosticKind::CallNotVoid => plain(
                "Function not within an expression must be void",
                line,
            ),
            DiagnosticKind::BreakOutsideLoop => plain("Cannot break out of a non loop", line),
            DiagnosticKind::UnknownStatement => plain("Beginning of unkown statement type", line),
            DiagnosticKind::Expected(wanted) => {
                let mut text = String::from_str("Expected ");
                text.append(wanted_word(wanted));
                text.append(" got '");
                text.append(name);
                text.append("'");
                append_place(&mut text, line);
                text
            },
            DiagnosticKind::Unsupported(op) => {
                let mut text = String::from_str("Type does not support ");
                text.append(operation_word(op));
                append_place(&mut text, line);
                text
            },
            DiagnosticKind::TypeMismatch => plain("Type mismatch", line),
            DiagnosticKind::NoClosingParenthesis => {
                let mut text = String::from_str("No closing parenthesis on line ");
                append_number(&mut text, line as u64);
                text
            },
            DiagnosticKind::InvalidOperand => around(
                "Invalid Token Type: Expected either literal or grouped expression, got '",
                name,
                "'",
                line,
            ),
            DiagnosticKind::UndeclaredVariable => around("Undeclared variable '", name, "'", line),
            DiagnosticKind::OutOfScope => around(
                "Variable '",
                name,
                "' is not found within this scope",
                line,
            ),
            DiagnosticKind::AlreadyDeclared => around(
                "Identifier '",
                name,
                "' already declared",
                line,
            ),
            DiagnosticKind::SecurityAboveMaximum(level) => {
                let mut text = String::from_str("'");
                append_signed(&mut text, level);
                text.append("' exceeds the maximum security of 100");
                append_place(&mut text, line);
                text
            },
            DiagnosticKind::SecurityBelowMinimum(level) => {
                let mut text = String::from_str("'");
                append_signed(&mut text, level);
                text.append("' is below the lowest security of 0");
                append_place(&mut text, line);
                text
            },
            DiagnosticKind::UnknownFunction => around("Unkown function '", name, "' found", line),
            DiagnosticKind::ReturnValueFromVoid => plain(
                "Cannot return value from void function",
                line,
            ),
            DiagnosticKind::MissingReturnValue => plain(
                "Must return value from non-void function",
                line,
            ),
            DiagnosticKind::UnknownPrintArgument => around(
                "Unknown token '",
                name,
                "', expected beginning of expression",
                line,
            ),
            DiagnosticKind::FunctionTypeMismatch => around(
                "Type mismatch: function '",
                name,
                "'",
                line,
            ),
            DiagnosticKind::SecurityExceeded => around(
                "Max security level exceeded with '",
                name,
                "'",
                line,
            ),
            DiagnosticKind::BadEscape => {
                let mut text = String::from_str("Expect 'n' after backslash in token ");
                text.append(name);
                append_place(&mut text, line);
                text
            },
            DiagnosticKind::VariableTypeMismatch => around(
                "Type mismatch: identifier '",
                name,
                "'",
                line,
            ),
        }
    }
}

} // verus!
