//! Expressions keep what they have to keep.

use crate::diagnostic::{DiagnosticKind, Expectation};
use crate::model::expression::{
    builtin_args, builtin_mismatch, call, call_args, derived_type, drain, emit_print, expression,
    identifier_function, literal, lower, operators, print_args, shunt, sl_use, string_words, term,
};
use crate::model::state::{
    at_end, consume, emit, expect, kind, moved, remaining, report, report_if, stayed, text, State,
};
use crate::opcode::S_CONSTANT;
use crate::operator::Operator;
use crate::symbol::{find_builtin, lemma_find_builtin};
use crate::theory::{kept, lemma_expect, lemma_not_last, sound};
use crate::token::{Token, TokenKind};
use crate::types::{flow_allowed, Param, ValueType, MAX_SECURITY};
use vstd::prelude::*;

verus! {

/// The code of the waiting operators keeps the state but for the code and
/// the reports.
pub proof fn lemma_drain(tokens: Seq<Token>, st: State, ty: ValueType, ops: Seq<Operator>)
    requires
        sound(tokens, st),
    ensures
        kept(tokens, st, drain(tokens, st, ty, ops)),
        drain(tokens, st, ty, ops).cursor == st.cursor,
    decreases ops.len(),
{
    if ops.len() > 0 {
        lemma_drain(tokens, lower(tokens, st, ty, ops.last()), ty, ops.drop_last());
    }
}

/// Letting an operator wait keeps the state but for the code and the
/// reports.
pub proof fn lemma_shunt(
    tokens: Seq<Token>,
    st: State,
    ty: ValueType,
    ops: Seq<Operator>,
    op: Operator,
)
    requires
        sound(tokens, st),
    ensures
        kept(tokens, st, shunt(tokens, st, ty, ops, op).0),
        shunt(tokens, st, ty, ops, op).0.cursor == st.cursor,
    decreases ops.len(),
{
    if ops.len() > 0 && op.spec_precedence() <= ops.last().spec_precedence() {
        lemma_shunt(tokens, lower(tokens, st, ty, ops.last()), ty, ops.drop_last(), op);
    }
}

/// The words of a text keep the state but for the code and the reports.
pub proof fn lemma_string_words(tokens: Seq<Token>, st: State, chars: Seq<char>, escaped: bool)
    requires
        sound(tokens, st),
    ensures
        kept(tokens, st, string_words(tokens, st, chars, escaped)),
        string_words(tokens, st, chars, escaped).cursor == st.cursor,
    decreases chars.len(),
{
    if chars.len() > 0 {
        let c = chars[0];
        let rest = chars.drop_first();
        if escaped {
            if c == 'n' {
                lemma_string_words(tokens, emit(st, 10), rest, false);
            } else {
                lemma_string_words(
                    tokens,
                    report(tokens, st, DiagnosticKind::BadEscape),
                    rest,
                    false,
                );
            }
        } else if c == '\\' {
            lemma_string_words(tokens, st, rest, true);
        } else if c == '"' {
            lemma_string_words(tokens, st, rest, false);
        } else {
            lemma_string_words(
                tokens,
                emit(st, c as u8 as i64),
                rest,
                false,
            );
        }
    }
}

/// An expression keeps what it has to keep.
pub proof fn lemma_expression(tokens: Seq<Token>, st: State, ty: ValueType, ceiling: i64)
    requires
        sound(tokens, st),
    ensures
        kept(tokens, st, expression(tokens, st, ty, ceiling)),
    decreases remaining(tokens, st), 4nat, 0nat,
{
    lemma_term(tokens, st, Seq::empty(), ty, ceiling);
    let (s1, ops, active) = term(tokens, st, Seq::empty(), ty, ceiling);
    lemma_drain(tokens, s1, active, ops);
}

/// An operand with what follows it keeps what it has to keep.
pub proof fn lemma_term(
    tokens: Seq<Token>,
    st: State,
    ops: Seq<Operator>,
    ty: ValueType,
    ceiling: i64,
)
    requires
        sound(tokens, st),
    ensures
        kept(tokens, st, term(tokens, st, ops, ty, ceiling).0),
    decreases remaining(tokens, st), 3nat, 1nat,
{
    lemma_literal(tokens, st, ty, ceiling);
    lemma_operators(tokens, literal(tokens, st, ty, ceiling), ops, ty, ceiling);
}

/// The operators behind an operand keep what they have to keep.
pub proof fn lemma_operators(
    tokens: Seq<Token>,
    st: State,
    ops: Seq<Operator>,
    ty: ValueType,
    ceiling: i64,
)
    requires
        sound(tokens, st),
    ensures
        kept(tokens, st, operators(tokens, st, ops, ty, ceiling).0),
    decreases remaining(tokens, st), 3nat, 0nat,
{
    match kind(tokens, st).spec_operator() {
        None => {},
        Some(op) => {
            lemma_not_last(tokens, st);
            let s1 = consume(tokens, st);
            let (s2, waiting) = if op.spec_is_logical() {
                (drain(tokens, s1, ty, ops), seq![op])
            } else {
                shunt(tokens, s1, ty, ops, op)
            };
            if op.spec_is_logical() {
                lemma_drain(tokens, s1, ty, ops);
            } else {
                lemma_shunt(tokens, s1, ty, ops, op);
            }
            let next_ty = if op.spec_is_logical() {
                derived_type(tokens, s2)
            } else {
                ty
            };
            assert(moved(tokens, st, s2));
            lemma_literal(tokens, s2, next_ty, ceiling);
            let s3 = literal(tokens, s2, next_ty, ceiling);
            assert(moved(tokens, st, s3));
            lemma_operators(tokens, s3, waiting, next_ty, ceiling);
        },
    }
}

/// An operand keeps what it has to keep.
pub proof fn lemma_literal(tokens: Seq<Token>, st: State, ty: ValueType, ceiling: i64)
    requires
        sound(tokens, st),
    ensures
        kept(tokens, st, literal(tokens, st, ty, ceiling)),
    decreases remaining(tokens, st), 2nat, 0nat,
{
    let k = kind(tokens, st);
    if k == TokenKind::Int && ty == ValueType::Int {
    } else if k == TokenKind::Float && ty == ValueType::Float {
    } else if k == TokenKind::Str && ty == ValueType::Str {
        lemma_string_words(
            tokens,
            emit(st, S_CONSTANT),
            text(tokens, st),
            false,
        );
    } else if k == TokenKind::Identifier && st.cursor + 1 < tokens.len() {
        if tokens[st.cursor + 1].kind == TokenKind::LeftParenthesis {
            match find_builtin(st.builtins, text(tokens, st)) {
                Some(b) => {
                    lemma_find_builtin(st.builtins, text(tokens, st), 0);
                    lemma_sl_use(
                        tokens,
                        report_if(
                            tokens,
                            st,
                            builtin_mismatch(st.builtins[b].returns, ty),
                            DiagnosticKind::TypeMismatch,
                        ),
                        ty,
                    );
                },
                None => {
                    lemma_identifier_function(tokens, st, ty, ceiling);
                },
            }
        } else {
        }
    } else if k == TokenKind::LeftParenthesis {
        lemma_not_last(tokens, st);
        let s1 = consume(tokens, st);
        lemma_expression(tokens, s1, ty, ceiling);
    } else {
    }
}

/// A call of a built-in keeps what it has to keep, and moves the cursor.
pub proof fn lemma_sl_use(tokens: Seq<Token>, st: State, wanted: ValueType)
    requires
        sound(tokens, st),
        !at_end(tokens, st),
    ensures
        kept(tokens, st, sl_use(tokens, st, wanted)),
        st.cursor < sl_use(tokens, st, wanted).cursor,
    decreases remaining(tokens, st), 1nat, 0nat,
{
    let name = text(tokens, st);
    lemma_expect(tokens, consume(tokens, st), Expectation::LeftParenthesis);
    let s1 = expect(tokens, consume(tokens, st), Expectation::LeftParenthesis);
    if name == "print"@ {
        lemma_print_args(tokens, s1);
        lemma_expect(tokens, print_args(tokens, s1), Expectation::RightParenthesis);
    } else if name == "read"@ {
        lemma_expect(tokens, s1, Expectation::RightParenthesis);
    } else {
        match find_builtin(st.builtins, name) {
            Some(b) => {
                lemma_builtin_args(tokens, s1, st.builtins[b].params@, 0);
                lemma_expect(
                    tokens,
                    builtin_args(tokens, s1, st.builtins[b].params@, 0),
                    Expectation::RightParenthesis,
                );
            },
            None => {
                lemma_expect(tokens, s1, Expectation::RightParenthesis);
            },
        }
    }
}

/// The arguments of `print` keep what they have to keep.
pub proof fn lemma_print_args(tokens: Seq<Token>, st: State)
    requires
        sound(tokens, st),
    ensures
        kept(tokens, st, print_args(tokens, st)),
    decreases remaining(tokens, st), 5nat, 0nat,
{
    let k = kind(tokens, st);
    let s1 = if k == TokenKind::Int {
        lemma_expression(tokens, st, ValueType::Int, MAX_SECURITY);
        emit_print(
            tokens,
            expression(tokens, st, ValueType::Int, MAX_SECURITY),
            ValueType::Int,
        )
    } else if k == TokenKind::Float {
        lemma_expression(tokens, st, ValueType::Float, MAX_SECURITY);
        emit_print(
            tokens,
            expression(tokens, st, ValueType::Float, MAX_SECURITY),
            ValueType::Float,
        )
    } else if k == TokenKind::Str {
        lemma_expression(tokens, st, ValueType::Str, MAX_SECURITY);
        emit_print(
            tokens,
            expression(tokens, st, ValueType::Str, MAX_SECURITY),
            ValueType::Str,
        )
    } else if k == TokenKind::Identifier {
        let ty = derived_type(tokens, st);
        lemma_expression(tokens, st, ty, MAX_SECURITY);
        emit_print(tokens, expression(tokens, st, ty, MAX_SECURITY), ty)
    } else {
        report(tokens, st, DiagnosticKind::UnknownPrintArgument)
    };
    if kind(tokens, s1) == TokenKind::Comma {
        lemma_not_last(tokens, s1);
        lemma_expect(tokens, s1, Expectation::Comma);
        let s2 = expect(tokens, s1, Expectation::Comma);
        assert(moved(tokens, st, s2));
        lemma_print_args(tokens, s2);
    }
}

/// The arguments of a built-in keep what they have to keep.
pub proof fn lemma_builtin_args(tokens: Seq<Token>, st: State, params: Seq<ValueType>, i: int)
    requires
        sound(tokens, st),
    ensures
        kept(tokens, st, builtin_args(tokens, st, params, i)),
    decreases remaining(tokens, st), 5nat, params.len() - i,
{
    if 0 <= i < params.len() {
        let s1 = if params[i].spec_has_values() {
            lemma_expression(tokens, st, params[i], MAX_SECURITY);
            expression(tokens, st, params[i], MAX_SECURITY)
        } else {
            st
        };
        let s2 = if i + 1 != params.len() {
            lemma_expect(tokens, s1, Expectation::Comma);
            expect(tokens, s1, Expectation::Comma)
        } else {
            s1
        };
        assert(stayed(st, s2));
        lemma_builtin_args(tokens, s2, params, i + 1);
    }
}

/// The arguments of a call keep what they have to keep.
pub proof fn lemma_call_args(tokens: Seq<Token>, st: State, params: Seq<Param>, i: int)
    requires
        sound(tokens, st),
    ensures
        kept(tokens, st, call_args(tokens, st, params, i)),
    decreases remaining(tokens, st), 5nat, params.len() - i,
{
    if 0 <= i < params.len() {
        lemma_expression(tokens, st, params[i].ty, params[i].security);
        let s1 = expression(tokens, st, params[i].ty, params[i].security);
        let s2 = if i + 1 != params.len() {
            lemma_expect(tokens, s1, Expectation::Comma);
            expect(tokens, s1, Expectation::Comma)
        } else {
            s1
        };
        assert(stayed(st, s2));
        lemma_call_args(tokens, s2, params, i + 1);
    }
}

/// A call keeps what it has to keep, and moves the cursor.
pub proof fn lemma_call(tokens: Seq<Token>, st: State, address: i64, params: Seq<Param>)
    requires
        sound(tokens, st),
        !at_end(tokens, st),
    ensures
        kept(tokens, st, call(tokens, st, address, params)),
        st.cursor < call(tokens, st, address, params).cursor,
    decreases remaining(tokens, st), 0nat, 0nat,
{
    lemma_expect(tokens, st, Expectation::Identifier);
    let s0 = expect(tokens, st, Expectation::Identifier);
    lemma_expect(tokens, s0, Expectation::LeftParenthesis);
    let s1 = expect(tokens, s0, Expectation::LeftParenthesis);
    let s2 = if kind(tokens, s1) != TokenKind::RightParenthesis && moved(tokens, st, s1) {
        lemma_call_args(tokens, s1, params, 0);
        call_args(tokens, s1, params, 0)
    } else {
        s1
    };
    lemma_expect(tokens, s2, Expectation::RightParenthesis);
}

/// A call as an operand keeps what it has to keep, and moves the cursor.
pub proof fn lemma_identifier_function(
    tokens: Seq<Token>,
    st: State,
    ty: ValueType,
    ceiling: i64,
)
    requires
        sound(tokens, st),
        !at_end(tokens, st),
    ensures
        kept(tokens, st, identifier_function(tokens, st, ty, ceiling)),
        st.cursor < identifier_function(tokens, st, ty, ceiling).cursor,
    decreases remaining(tokens, st), 1nat, 0nat,
{
    let name = text(tokens, st);
    if st.fns.contains_key(name) {
        let f = st.fns[name];
        let s1 = report_if(tokens, st, f.returns != ty, DiagnosticKind::FunctionTypeMismatch);
        let s2 = report_if(
            tokens,
            s1,
            !flow_allowed(f.security, ceiling),
            DiagnosticKind::SecurityExceeded,
        );
        lemma_call(tokens, s2, f.address, f.params);
    } else {
        let s1 = report(tokens, st, DiagnosticKind::UnknownFunction);
        let s2 = report_if(
            tokens,
            s1,
            ty != ValueType::Int,
            DiagnosticKind::FunctionTypeMismatch,
        );
        let s3 = report_if(
            tokens,
            s2,
            !flow_allowed(0, ceiling),
            DiagnosticKind::SecurityExceeded,
        );
        lemma_call(tokens, s3, 0, Seq::empty());
    }
}

} // verus!
