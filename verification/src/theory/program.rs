//! Declarations, the first pass and the program keep what they have to keep.

use crate::diagnostic::{DiagnosticKind, Expectation};
use crate::model::prepass::{
    first_tally, index_from, index_functions, index_step, return_type, scan_params, Tally,
};
use crate::model::program::{compile, declare_params, define, fn_dec, fn_decs};
use crate::model::state::{
    annotates, at_end, consume, declares, emit3, expect, grows, kind, lemma_annotates_twice,
    moved, remaining, report_if, report_unplaced, text, valid, word_of, State,
};
use crate::model::statement::{param_type, security_here};
use crate::opcode::CALL;
use crate::symbol::{find_builtin, Variable};
use crate::theory::statement::lemma_block;
use crate::theory::{lemma_expect, lemma_not_last};
use crate::token::{Token, TokenKind};
use crate::types::{Param, ValueType};
use vstd::prelude::*;

verus! {

/// The parameters of a declaration keep the state but for the cursor, the
/// reports and the variables.
pub proof fn lemma_declare_params(tokens: Seq<Token>, st: State, index: int)
    requires
        valid(tokens, st),
    ensures
        valid(tokens, declare_params(tokens, st, index)),
        declares(st, declare_params(tokens, st, index)),
        declare_params(tokens, st, index).fns == st.fns,
    decreases remaining(tokens, st),
{
    lemma_expect(tokens, st, Expectation::Identifier);
    let s1 = expect(tokens, st, Expectation::Identifier);
    lemma_expect(tokens, s1, Expectation::VarType);
    let s1b = expect(tokens, s1, Expectation::VarType);
    lemma_expect(tokens, s1b, Expectation::Colon);
    let s2 = expect(tokens, s1b, Expectation::Colon);
    lemma_expect(tokens, s2, Expectation::Integer);
    let s3 = expect(tokens, s2, Expectation::Integer);
    let s4 = State {
        vars: s3.vars.insert(
            text(tokens, st),
            Variable {
                slot: word_of(index),
                ty: param_type(kind(tokens, s1)),
                security: security_here(tokens, s2),
                is_arg: true,
                depth: 1,
                owner: s3.current_fn as usize,
            },
        ),
        ..s3
    };
    if kind(tokens, s4) == TokenKind::Comma {
        lemma_not_last(tokens, s4);
        lemma_expect(tokens, s4, Expectation::Comma);
        let s5 = expect(tokens, s4, Expectation::Comma);
        assert(moved(tokens, st, s5));
        lemma_declare_params(tokens, s5, index + 1);
    }
}

/// The declaration of a function turns a state between functions into a
/// state between functions, keeps the code and the reports it found, keeps
/// every function with its address and its signature, and moves the cursor.
pub proof fn lemma_fn_dec(tokens: Seq<Token>, st: State)
    requires
        valid(tokens, st),
        !at_end(tokens, st),
        st.depth == 0,
        st.loop_depth == 0,
    ensures
        valid(tokens, fn_dec(tokens, st)),
        grows(st, fn_dec(tokens, st)),
        annotates(st.fns, fn_dec(tokens, st).fns),
        st.cursor < fn_dec(tokens, st).cursor,
{
    let s0 = State { next_slot: 0, ..st };
    lemma_expect(tokens, s0, Expectation::Fn);
    let s1 = expect(tokens, s0, Expectation::Fn);
    let is_void = kind(tokens, s1) == TokenKind::Void;
    lemma_expect(tokens, s1, Expectation::FnType);
    let s1a = expect(tokens, s1, Expectation::FnType);
    lemma_expect(tokens, s1a, Expectation::Colon);
    let s1b = expect(tokens, s1a, Expectation::Colon);
    lemma_expect(tokens, s1b, Expectation::Integer);
    let s2 = if is_void {
        s1a
    } else {
        expect(tokens, s1b, Expectation::Integer)
    };
    let is_main = text(tokens, s2) == "main"@;
    let s2r = report_if(
        tokens,
        State { current_fn: s2.cursor, ..s2 },
        is_main && !is_void,
        DiagnosticKind::MainNotVoid,
    );
    let s3 = define(tokens, s2r);
    assert(annotates(st.fns, s3.fns));
    lemma_expect(tokens, s3, Expectation::Identifier);
    let s3a = expect(tokens, s3, Expectation::Identifier);
    lemma_expect(tokens, s3a, Expectation::LeftParenthesis);
    let s4 = expect(tokens, s3a, Expectation::LeftParenthesis);
    let s5 = if !is_main && kind(tokens, s4) != TokenKind::RightParenthesis {
        lemma_declare_params(tokens, s4, 0);
        declare_params(tokens, s4, 0)
    } else {
        s4
    };
    lemma_expect(tokens, s5, Expectation::RightParenthesis);
    let s6 = expect(tokens, s5, Expectation::RightParenthesis);
    let s6r = State { returns: 0, breaks: Seq::empty(), ..s6 };
    lemma_block(tokens, s6r);
}

/// The declarations of a program keep the code and the reports they found,
/// and every function with its address and its signature.
pub proof fn lemma_fn_decs(tokens: Seq<Token>, st: State)
    requires
        valid(tokens, st),
        st.depth == 0,
        st.loop_depth == 0,
    ensures
        valid(tokens, fn_decs(tokens, st)),
        grows(st, fn_decs(tokens, st)),
        annotates(st.fns, fn_decs(tokens, st).fns),
    decreases remaining(tokens, st),
{
    if !at_end(tokens, st) {
        lemma_fn_dec(tokens, st);
        let s1 = fn_dec(tokens, st);
        assert(moved(tokens, st, s1));
        lemma_fn_decs(tokens, s1);
        lemma_annotates_twice(st.fns, s1.fns, fn_decs(tokens, s1).fns);
    }
}

/// The parameters of a signature keep the state but for the cursor.
pub proof fn lemma_scan_params(tokens: Seq<Token>, st: State, params: Seq<Param>)
    requires
        valid(tokens, st),
    ensures
        scan_params(tokens, st, params).0 == (State {
            cursor: scan_params(tokens, st, params).0.cursor,
            ..st
        }),
        st.cursor <= scan_params(tokens, st, params).0.cursor < tokens.len(),
    decreases remaining(tokens, st),
{
    let s1 = consume(tokens, st);
    let s2 = consume(tokens, consume(tokens, s1));
    let s3 = consume(tokens, s2);
    if kind(tokens, s3) == TokenKind::Comma {
        lemma_not_last(tokens, s3);
        let s4 = consume(tokens, s3);
        assert(moved(tokens, st, s4));
        lemma_scan_params(
            tokens,
            s4,
            params.push(
                Param {
                    ty: param_type(kind(tokens, s1)),
                    security: security_here(tokens, s2),
                },
            ),
        );
    }
}

/// A step of the first pass keeps the state but for the cursor, the reports
/// and the functions, and moves the cursor.
pub proof fn lemma_index_step(tokens: Seq<Token>, st: State, tally: Tally)
    requires
        valid(tokens, st),
        !at_end(tokens, st),
    ensures
        valid(tokens, index_step(tokens, st, tally).0),
        declares(st, index_step(tokens, st, tally).0),
        index_step(tokens, st, tally).0.vars == st.vars,
        st.cursor < index_step(tokens, st, tally).0.cursor,
{
    if kind(tokens, st) == TokenKind::Fn {
        let s1 = consume(tokens, st);
        let result = return_type(kind(tokens, s1));
        let s2 = if result == ValueType::Void {
            s1
        } else {
            consume(tokens, consume(tokens, s1))
        };
        let s3 = consume(tokens, s2);
        let name = text(tokens, s3);
        let s4 = consume(
            tokens,
            consume(
                tokens,
                report_if(
                    tokens,
                    s3,
                    find_builtin(s3.builtins, name) is Some,
                    DiagnosticKind::ReservedFunctionName,
                ),
            ),
        );
        if kind(tokens, s4) != TokenKind::RightParenthesis {
            lemma_scan_params(tokens, s4, Seq::empty());
        }
    }
}

/// The first pass keeps the state but for the cursor, the reports and the
/// functions.
pub proof fn lemma_index_from(tokens: Seq<Token>, st: State, tally: Tally)
    requires
        valid(tokens, st),
    ensures
        valid(tokens, index_from(tokens, st, tally)),
        declares(st, index_from(tokens, st, tally)),
        index_from(tokens, st, tally).vars == st.vars,
    decreases remaining(tokens, st),
{
    if !at_end(tokens, st) {
        lemma_index_step(tokens, st, tally);
        let (s1, next) = index_step(tokens, st, tally);
        assert(moved(tokens, st, s1));
        lemma_index_from(tokens, s1, next);
    }
}

/// A compilation turns a state between functions into a state between
/// functions, keeps the code and the reports it found, and keeps every
/// function that the first pass records with its address and its signature.
pub proof fn lemma_compile(tokens: Seq<Token>, st: State)
    requires
        valid(tokens, st),
        st.depth == 0,
        st.loop_depth == 0,
    ensures
        valid(tokens, compile(tokens, st)),
        compile(tokens, st).depth == 0,
        compile(tokens, st).loop_depth == 0,
        grows(st, compile(tokens, st)),
        annotates(index_functions(tokens, st).fns, compile(tokens, st).fns),
{
    lemma_index_from(tokens, st, first_tally());
    let s1 = index_functions(tokens, st);
    let s2 = if s1.fns.contains_key("main"@) {
        emit3(s1, CALL, s1.fns["main"@].address, 0)
    } else {
        report_unplaced(s1, DiagnosticKind::NoMain, 0)
    };
    lemma_fn_decs(tokens, State { cursor: 0, ..s2 });
}

} // verus!
