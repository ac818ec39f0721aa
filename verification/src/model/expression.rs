//! Expressions: operands, operators by precedence, calls, and the check of
//! every value against the security ceiling of its context.

use crate::diagnostic::{Diagnostic, DiagnosticKind, Expectation};
use crate::model::state::{
    consume, current, emit, emit2, emit3, expect, kind, moved, remaining, report, report_if,
    stayed, text, word_of, State,
};
use crate::opcode::{
    ARG_LOAD, CALL, F_ADD, F_CONSTANT, F_DIV, F_EQUAL, F_GREATER, F_GREATER_EQUAL, F_LESS,
    F_LESS_EQUAL, F_MUL, F_NOT_EQUAL, F_SUB, I_ADD, I_CONSTANT, I_DIV, I_EQUAL, I_GREATER,
    I_GREATER_EQUAL, I_LESS, I_LESS_EQUAL, I_MUL, I_NOT_EQUAL, I_SUB, LOCAL_LOAD, OP_AND, OP_OR,
    PRINT, READ, S_ADD, S_CONSTANT, S_EQUAL, S_NOT_EQUAL, USE,
};
use crate::operator::Operator;
use crate::symbol::{find_builtin, undeclared_variable};
use crate::token::{int_value, Token, TokenKind};
use crate::types::{flow_allowed, Param, ValueType, MAX_SECURITY};
use vstd::prelude::*;

verus! {

/// The instruction that applies `op` to two values of type `ty`, where the
/// type has that operator: integers and floats have all of them, strings
/// have addition and the two equalities, and `and` and `or` join conditions
/// of any type.
pub open spec fn instruction(op: Operator, ty: ValueType) -> Option<i64> {
    match (op, ty) {
        (Operator::And, _) => Some(OP_AND),
        (Operator::Or, _) => Some(OP_OR),
        (Operator::Add, ValueType::Int) => Some(I_ADD),
        (Operator::Sub, ValueType::Int) => Some(I_SUB),
        (Operator::Mul, ValueType::Int) => Some(I_MUL),
        (Operator::Div, ValueType::Int) => Some(I_DIV),
        (Operator::EqualEqual, ValueType::Int) => Some(I_EQUAL),
        (Operator::NotEqual, ValueType::Int) => Some(I_NOT_EQUAL),
        (Operator::Less, ValueType::Int) => Some(I_LESS),
        (Operator::Greater, ValueType::Int) => Some(I_GREATER),
        (Operator::LessEqual, ValueType::Int) => Some(I_LESS_EQUAL),
        (Operator::GreaterEqual, ValueType::Int) => Some(I_GREATER_EQUAL),
        (Operator::Add, ValueType::Float) => Some(F_ADD),
        (Operator::Sub, ValueType::Float) => Some(F_SUB),
        (Operator::Mul, ValueType::Float) => Some(F_MUL),
        (Operator::Div, ValueType::Float) => Some(F_DIV),
        (Operator::EqualEqual, ValueType::Float) => Some(F_EQUAL),
        (Operator::NotEqual, ValueType::Float) => Some(F_NOT_EQUAL),
        (Operator::Less, ValueType::Float) => Some(F_LESS),
        (Operator::Greater, ValueType::Float) => Some(F_GREATER),
        (Operator::LessEqual, ValueType::Float) => Some(F_LESS_EQUAL),
        (Operator::GreaterEqual, ValueType::Float) => Some(F_GREATER_EQUAL),
        (Operator::Add, ValueType::Str) => Some(S_ADD),
        (Operator::EqualEqual, ValueType::Str) => Some(S_EQUAL),
        (Operator::NotEqual, ValueType::Str) => Some(S_NOT_EQUAL),
        _ => None,
    }
}

/// Turns one operator into code: its instruction, or a report where the
/// type has no such operator.
pub open spec fn lower(tokens: Seq<Token>, st: State, ty: ValueType, op: Operator) -> State {
    match instruction(op, ty) {
        Some(word) => emit(st, word),
        None => report(tokens, st, DiagnosticKind::Unsupported(op)),
    }
}

/// Turns all waiting operators into code, the one that came last first.
pub open spec fn drain(tokens: Seq<Token>, st: State, ty: ValueType, ops: Seq<Operator>) -> State
    decreases ops.len(),
{
    if ops.len() == 0 {
        st
    } else {
        drain(tokens, lower(tokens, st, ty, ops.last()), ty, ops.drop_last())
    }
}

/// Lets `op` wait for its right operand. The waiting operators that bind at
/// least as tightly as `op` are turned into code first: their operands are
/// complete.
pub open spec fn shunt(
    tokens: Seq<Token>,
    st: State,
    ty: ValueType,
    ops: Seq<Operator>,
    op: Operator,
) -> (State, Seq<Operator>)
    decreases ops.len(),
{
    if ops.len() > 0 && op.spec_precedence() <= ops.last().spec_precedence() {
        shunt(tokens, lower(tokens, st, ty, ops.last()), ty, ops.drop_last(), op)
    } else {
        (st, ops.push(op))
    }
}

/// The first position from `i` on that holds no opening parenthesis.
pub open spec fn skip_parentheses(tokens: Seq<Token>, i: int) -> int
    decreases tokens.len() - i,
{
    if 0 <= i < tokens.len() && tokens[i].kind == TokenKind::LeftParenthesis {
        skip_parentheses(tokens, i + 1)
    } else {
        i
    }
}

/// The type of the operand that begins under the cursor, told from its first
/// token behind any opening parentheses: a literal has its own type, a call
/// the type its function returns, a variable its declared type. Anything
/// else counts as an integer.
pub open spec fn derived_type(tokens: Seq<Token>, st: State) -> ValueType {
    let i = skip_parentheses(tokens, st.cursor);
    if !(0 <= i < tokens.len()) {
        ValueType::Int
    } else {
        let name = tokens[i].text@;
        match tokens[i].kind {
            TokenKind::Int => ValueType::Int,
            TokenKind::Float => ValueType::Float,
            TokenKind::Str => ValueType::Str,
            TokenKind::Identifier => if i + 1 < tokens.len() {
                if tokens[i + 1].kind == TokenKind::LeftParenthesis {
                    if st.fns.contains_key(name) {
                        st.fns[name].returns
                    } else {
                        match find_builtin(st.builtins, name) {
                            Some(b) => {
                                let result = st.builtins[b].returns;
                                if result == ValueType::Int || result == ValueType::Float
                                    || result == ValueType::Str {
                                    result
                                } else {
                                    ValueType::Int
                                }
                            },
                            None => ValueType::Int,
                        }
                    }
                } else if st.vars.contains_key(name) {
                    st.vars[name].ty
                } else {
                    ValueType::Int
                }
            } else {
                ValueType::Int
            },
            _ => ValueType::Int,
        }
    }
}

/// The words of a string literal: one for each character, with the two
/// characters of the escape `\n` giving the one word of a line feed, and
/// none for a quotation mark. A backslash before anything but `n` is
/// reported and gives no word. `escaped` says whether a backslash was the
/// last character read.
pub open spec fn string_words(
    tokens: Seq<Token>,
    st: State,
    chars: Seq<char>,
    escaped: bool,
) -> State
    decreases chars.len(),
{
    if chars.len() == 0 {
        st
    } else {
        let c = chars[0];
        let rest = chars.drop_first();
        if escaped {
            if c == 'n' {
                string_words(tokens, emit(st, 10), rest, false)
            } else {
                string_words(tokens, report(tokens, st, DiagnosticKind::BadEscape), rest, false)
            }
        } else if c == '\\' {
            string_words(tokens, st, rest, true)
        } else if c == '"' {
            string_words(tokens, st, rest, false)
        } else {
            string_words(tokens, emit(st, c as u8 as i64), rest, false)
        }
    }
}

/// A string literal: the opcode, the words of the text and a zero word.
pub open spec fn string_constant(tokens: Seq<Token>, st: State) -> State {
    consume(
        tokens,
        emit(string_words(tokens, emit(st, S_CONSTANT), text(tokens, st), false), 0),
    )
}

/// The use of a variable as an operand. It must be declared, of the type
/// asked for, no more secret than `ceiling` allows, and in sight.
pub open spec fn identifier_variable(
    tokens: Seq<Token>,
    st: State,
    ty: ValueType,
    ceiling: i64,
) -> State {
    let name = text(tokens, st);
    let declared = st.vars.contains_key(name);
    let v = if declared {
        st.vars[name]
    } else {
        undeclared_variable()
    };
    let s1 = report_if(tokens, st, !declared, DiagnosticKind::UndeclaredVariable);
    let s2 = report_if(tokens, s1, v.ty != ty, DiagnosticKind::VariableTypeMismatch);
    let s3 = report_if(
        tokens,
        s2,
        !flow_allowed(v.security, ceiling),
        DiagnosticKind::SecurityExceeded,
    );
    let s4 = report_if(tokens, s3, v.depth > st.depth, DiagnosticKind::OutOfScope);
    consume(
        tokens,
        emit2(
            s4,
            if v.is_arg {
                ARG_LOAD
            } else {
                LOCAL_LOAD
            },
            v.slot,
        ),
    )
}

/// An expression of type `ty` whose value may be no more secret than
/// `ceiling`: a chain of operands and operators, and then the code of the
/// operators still waiting, which are those of the type of the operands
/// they stand between.
pub open spec fn expression(tokens: Seq<Token>, st: State, ty: ValueType, ceiling: i64) -> State
    decreases remaining(tokens, st), 4nat, 0nat,
{
    let (s1, ops, active) = term(tokens, st, Seq::empty(), ty, ceiling);
    drain(tokens, s1, active, ops)
}

/// An operand, and the operators and operands that follow it. `ops` holds
/// the operators that wait for their right operand. The result holds the
/// state behind the chain, the operators that still wait, and the type of
/// the operands they wait between.
pub open spec fn term(
    tokens: Seq<Token>,
    st: State,
    ops: Seq<Operator>,
    ty: ValueType,
    ceiling: i64,
) -> (State, Seq<Operator>, ValueType)
    decreases remaining(tokens, st), 3nat, 1nat,
{
    let s1 = literal(tokens, st, ty, ceiling);
    if stayed(st, s1) {
        operators(tokens, s1, ops, ty, ceiling)
    } else {
        (s1, ops, ty)
    }
}

/// What follows an operand: as long as an operator stands under the cursor,
/// the operator and its right operand. Behind `and` and `or` nothing waits,
/// and the type of the right operand is told anew from its first token.
pub open spec fn operators(
    tokens: Seq<Token>,
    st: State,
    ops: Seq<Operator>,
    ty: ValueType,
    ceiling: i64,
) -> (State, Seq<Operator>, ValueType)
    decreases remaining(tokens, st), 3nat, 0nat,
{
    match kind(tokens, st).spec_operator() {
        None => (st, ops, ty),
        Some(op) => {
            let s1 = consume(tokens, st);
            let (s2, waiting) = if op.spec_is_logical() {
                (drain(tokens, s1, ty, ops), seq![op])
            } else {
                shunt(tokens, s1, ty, ops, op)
            };
            let next_ty = if op.spec_is_logical() {
                derived_type(tokens, s2)
            } else {
                ty
            };
            if moved(tokens, st, s2) {
                let s3 = literal(tokens, s2, next_ty, ceiling);
                if moved(tokens, st, s3) {
                    operators(tokens, s3, waiting, next_ty, ceiling)
                } else {
                    (s3, waiting, next_ty)
                }
            } else {
                (s2, waiting, next_ty)
            }
        },
    }
}

/// Whether a built-in that returns a `result` cannot stand where a value of
/// type `ty` is asked for.
pub open spec fn builtin_mismatch(result: ValueType, ty: ValueType) -> bool {
    result.spec_has_values() && result != ty
}

/// One operand: a literal of the type asked for, a call, a variable, or an
/// expression in parentheses.
pub open spec fn literal(tokens: Seq<Token>, st: State, ty: ValueType, ceiling: i64) -> State
    decreases remaining(tokens, st), 2nat, 0nat,
{
    let k = kind(tokens, st);
    if k == TokenKind::Int && ty == ValueType::Int {
        consume(tokens, emit2(st, I_CONSTANT, int_value(text(tokens, st))))
    } else if k == TokenKind::Float && ty == ValueType::Float {
        consume(tokens, emit2(st, F_CONSTANT, current(tokens, st).float_bits))
    } else if k == TokenKind::Str && ty == ValueType::Str {
        string_constant(tokens, st)
    } else if k == TokenKind::Identifier && st.cursor + 1 < tokens.len() {
        if tokens[st.cursor + 1].kind == TokenKind::LeftParenthesis {
            match find_builtin(st.builtins, text(tokens, st)) {
                Some(b) => sl_use(
                    tokens,
                    report_if(
                        tokens,
                        st,
                        builtin_mismatch(st.builtins[b].returns, ty),
                        DiagnosticKind::TypeMismatch,
                    ),
                    ty,
                ),
                None => identifier_function(tokens, st, ty, ceiling),
            }
        } else {
            identifier_variable(tokens, st, ty, ceiling)
        }
    } else if k == TokenKind::LeftParenthesis {
        let s1 = consume(tokens, st);
        if moved(tokens, st, s1) {
            let s2 = expression(tokens, s1, ty, ceiling);
            if kind(tokens, s2) == TokenKind::RightParenthesis {
                consume(tokens, s2)
            } else {
                consume(tokens, report(tokens, s2, DiagnosticKind::NoClosingParenthesis))
            }
        } else {
            s1
        }
    } else if k != TokenKind::Identifier && ty == ValueType::Int {
        consume(tokens, report(tokens, st, DiagnosticKind::Expected(Expectation::Integer)))
    } else if k != TokenKind::Identifier && ty == ValueType::Float {
        consume(tokens, report(tokens, st, DiagnosticKind::Expected(Expectation::Float)))
    } else {
        consume(tokens, report(tokens, st, DiagnosticKind::InvalidOperand))
    }
}

/// A call of the built-in named under the cursor. `print` takes any number
/// of arguments and prints each; `read` takes none and yields a value of the
/// type `wanted`; any other built-in takes the arguments of its signature.
pub open spec fn sl_use(tokens: Seq<Token>, st: State, wanted: ValueType) -> State
    decreases remaining(tokens, st), 1nat, 0nat,
{
    let name = text(tokens, st);
    let s1 = expect(tokens, consume(tokens, st), Expectation::LeftParenthesis);
    if name == "print"@ {
        let s2 = if moved(tokens, st, s1) {
            print_args(tokens, s1)
        } else {
            s1
        };
        expect(tokens, s2, Expectation::RightParenthesis)
    } else if name == "read"@ {
        emit3(expect(tokens, s1, Expectation::RightParenthesis), USE, READ, wanted.spec_code())
    } else {
        match find_builtin(st.builtins, name) {
            Some(b) => {
                let s2 = if moved(tokens, st, s1) {
                    builtin_args(tokens, s1, st.builtins[b].params@, 0)
                } else {
                    s1
                };
                emit2(expect(tokens, s2, Expectation::RightParenthesis), USE, st.builtins[b].id)
            },
            None => expect(tokens, s1, Expectation::RightParenthesis),
        }
    }
}

/// The code that prints the value on top of the stack as a `ty`. Integers,
/// floats and strings can be printed; a value of another type is reported.
pub open spec fn emit_print(tokens: Seq<Token>, st: State, ty: ValueType) -> State {
    if ty == ValueType::Int || ty == ValueType::Float || ty == ValueType::Str {
        emit3(st, USE, PRINT, ty.spec_code())
    } else {
        report(tokens, st, DiagnosticKind::TypeMismatch)
    }
}

/// The arguments of `print`, separated by commas. Each is an expression
/// whose type is told from its first token, and is printed as soon as it is
/// computed. Nothing printed is held to a ceiling.
pub open spec fn print_args(tokens: Seq<Token>, st: State) -> State
    decreases remaining(tokens, st), 5nat, 0nat,
{
    let k = kind(tokens, st);
    let s1 = if k == TokenKind::Int {
        emit_print(tokens, expression(tokens, st, ValueType::Int, MAX_SECURITY), ValueType::Int)
    } else if k == TokenKind::Float {
        emit_print(tokens, expression(tokens, st, ValueType::Float, MAX_SECURITY), ValueType::Float)
    } else if k == TokenKind::Str {
        emit_print(tokens, expression(tokens, st, ValueType::Str, MAX_SECURITY), ValueType::Str)
    } else if k == TokenKind::Identifier {
        let ty = derived_type(tokens, st);
        emit_print(tokens, expression(tokens, st, ty, MAX_SECURITY), ty)
    } else {
        report(tokens, st, DiagnosticKind::UnknownPrintArgument)
    };
    if kind(tokens, s1) != TokenKind::Comma {
        s1
    } else {
        let s2 = expect(tokens, s1, Expectation::Comma);
        if moved(tokens, st, s2) {
            print_args(tokens, s2)
        } else {
            s2
        }
    }
}

/// The arguments of a built-in from the `i`-th on: one expression for each
/// parameter that takes a value, with commas between the parameters.
pub open spec fn builtin_args(
    tokens: Seq<Token>,
    st: State,
    params: Seq<ValueType>,
    i: int,
) -> State
    decreases remaining(tokens, st), 5nat, params.len() - i,
{
    if !(0 <= i < params.len()) {
        st
    } else {
        let s1 = if params[i].spec_has_values() {
            expression(tokens, st, params[i], MAX_SECURITY)
        } else {
            st
        };
        let s2 = if i + 1 != params.len() {
            expect(tokens, s1, Expectation::Comma)
        } else {
            s1
        };
        if stayed(st, s2) {
            builtin_args(tokens, s2, params, i + 1)
        } else {
            s2
        }
    }
}

/// The arguments of a declared function from the `i`-th on: one expression
/// for each parameter, of the parameter's type and held to the parameter's
/// security level, with commas between them.
pub open spec fn call_args(tokens: Seq<Token>, st: State, params: Seq<Param>, i: int) -> State
    decreases remaining(tokens, st), 5nat, params.len() - i,
{
    if !(0 <= i < params.len()) {
        st
    } else {
        let s1 = expression(tokens, st, params[i].ty, params[i].security);
        let s2 = if i + 1 != params.len() {
            expect(tokens, s1, Expectation::Comma)
        } else {
            s1
        };
        if stayed(st, s2) {
            call_args(tokens, s2, params, i + 1)
        } else {
            s2
        }
    }
}

/// The call of a declared function: its name, its arguments in parentheses,
/// and the call instruction with the function's address and the number of
/// its parameters.
pub open spec fn call(tokens: Seq<Token>, st: State, address: i64, params: Seq<Param>) -> State
    decreases remaining(tokens, st), 0nat, 0nat,
{
    let s1 = expect(
        tokens,
        expect(tokens, st, Expectation::Identifier),
        Expectation::LeftParenthesis,
    );
    let s2 = if kind(tokens, s1) != TokenKind::RightParenthesis && moved(tokens, st, s1) {
        call_args(tokens, s1, params, 0)
    } else {
        s1
    };
    emit3(
        expect(tokens, s2, Expectation::RightParenthesis),
        CALL,
        address,
        word_of(params.len() as int),
    )
}

/// What holds of the result `to` of compiling the call that begins under the
/// cursor of `st` where a value of type `ty` and a ceiling `ceiling` are
/// asked for: a declared function whose value is more secret than the
/// ceiling allows is reported, and the compilation has failed.
pub open spec fn call_is_checked(
    tokens: Seq<Token>,
    st: State,
    ty: ValueType,
    ceiling: i64,
    to: State,
) -> bool {
    let name = text(tokens, st);
    let first = st.diagnostics.len() as int;
    let at = if st.fns[name].returns != ty {
        first + 1
    } else {
        first
    };
    st.fns.contains_key(name) && !flow_allowed(st.fns[name].security, ceiling) ==> to.error && at
        < to.diagnostics.len() && to.diagnostics[at] == (Diagnostic {
        kind: DiagnosticKind::SecurityExceeded,
        line: tokens[st.cursor].line,
        token: st.cursor as usize,
    })
}

/// A call as an operand. The function must be declared, return the type
/// asked for, and return nothing more secret than `ceiling` allows.
pub open spec fn identifier_function(
    tokens: Seq<Token>,
    st: State,
    ty: ValueType,
    ceiling: i64,
) -> State
    decreases remaining(tokens, st), 1nat, 0nat,
{
    let name = text(tokens, st);
    if st.fns.contains_key(name) {
        let f = st.fns[name];
        let s1 = report_if(tokens, st, f.returns != ty, DiagnosticKind::FunctionTypeMismatch);
        let s2 = report_if(
            tokens,
            s1,
            !flow_allowed(f.security, ceiling),
            DiagnosticKind::SecurityExceeded,
        );
        call(tokens, s2, f.address, f.params)
    } else {
        let s1 = report(tokens, st, DiagnosticKind::UnknownFunction);
        let s2 = report_if(
            tokens,
            s1,
            ty != ValueType::Int,
            DiagnosticKind::FunctionTypeMismatch,
        );
        let s3 = report_if(
            tokens,
            s2,
            !flow_allowed(0, ceiling),
            DiagnosticKind::SecurityExceeded,
        );
        call(tokens, s3, 0, Seq::empty())
    }
}

} // verus!
