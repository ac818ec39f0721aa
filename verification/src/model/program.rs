//! Function declarations and the program as a whole.

use crate::diagnostic::{DiagnosticKind, Expectation};
use crate::model::prepass::index_functions;
use crate::model::state::{
    at_end, emit3, expect, kind, moved, remaining, report_if, report_unplaced, text, word_of,
    State,
};
use crate::model::statement::{block, param_type, security_here};
use crate::opcode::CALL;
use crate::symbol::{FnInfo, Variable};
use crate::token::{Token, TokenKind};
use vstd::prelude::*;

verus! {

/// The parameters of a function from the `index`-th on, each with its name,
/// its type, a colon and its security level, with commas between them.
/// Each becomes a variable of the function.
pub open spec fn declare_params(tokens: Seq<Token>, st: State, index: int) -> State
    decreases remaining(tokens, st),
{
    let name = text(tokens, st);
    let s1 = expect(tokens, st, Expectation::Identifier);
    let ty = param_type(kind(tokens, s1));
    let s2 = expect(tokens, expect(tokens, s1, Expectation::VarType), Expectation::Colon);
    let security = security_here(tokens, s2);
    let s3 = expect(tokens, s2, Expectation::Integer);
    let s4 = State {
        vars: s3.vars.insert(
            name,
            Variable {
                slot: word_of(index),
                ty,
                security,
                is_arg: true,
                depth: 1,
                owner: s3.current_fn as usize,
            },
        ),
        ..s3
    };
    if kind(tokens, s4) != TokenKind::Comma {
        s4
    } else {
        let s5 = expect(tokens, s4, Expectation::Comma);
        if moved(tokens, st, s5) {
            declare_params(tokens, s5, index + 1)
        } else {
            s5
        }
    }
}

/// Marks the function named under the cursor as met, and reports it where it
/// was met before.
pub open spec fn define(tokens: Seq<Token>, st: State) -> State {
    let name = text(tokens, st);
    if st.fns.contains_key(name) {
        let f = st.fns[name];
        report_if(
            tokens,
            State { fns: st.fns.insert(name, FnInfo { defined: true, ..f }), ..st },
            f.defined,
            DiagnosticKind::DuplicateFunction,
        )
    } else {
        st
    }
}

/// The head of the declaration of a function: `fn`, the return type with a
/// colon and a security level, or `void`; the name; and the parameters in
/// parentheses. `main` takes no parameters and returns nothing.
pub open spec fn signature(tokens: Seq<Token>, st: State) -> State {
    let s1 = expect(tokens, State { next_slot: 0, ..st }, Expectation::Fn);
    let is_void = kind(tokens, s1) == TokenKind::Void;
    let s2 = if is_void {
        expect(tokens, s1, Expectation::FnType)
    } else {
        expect(
            tokens,
            expect(tokens, expect(tokens, s1, Expectation::FnType), Expectation::Colon),
            Expectation::Integer,
        )
    };
    let is_main = text(tokens, s2) == "main"@;
    let s3 = define(
        tokens,
        report_if(
            tokens,
            State { current_fn: s2.cursor, ..s2 },
            is_main && !is_void,
            DiagnosticKind::MainNotVoid,
        ),
    );
    let s4 = expect(
        tokens,
        expect(tokens, s3, Expectation::Identifier),
        Expectation::LeftParenthesis,
    );
    let s5 = if !is_main && kind(tokens, s4) != TokenKind::RightParenthesis {
        declare_params(tokens, s4, 0)
    } else {
        s4
    };
    expect(tokens, s5, Expectation::RightParenthesis)
}

/// The declaration of a function: its head and its body. A body without a
/// `return` at its top level is reported.
pub open spec fn fn_dec(tokens: Seq<Token>, st: State) -> State {
    let s6 = signature(tokens, st);
    let s7 = block(tokens, State { returns: 0, breaks: Seq::empty(), ..s6 });
    if s7.returns == 0 {
        report_unplaced(s7, DiagnosticKind::MissingReturn, s7.current_fn)
    } else {
        s7
    }
}

/// Function declarations up to the end of the input.
pub open spec fn fn_decs(tokens: Seq<Token>, st: State) -> State
    decreases remaining(tokens, st),
{
    if at_end(tokens, st) {
        st
    } else {
        let s1 = fn_dec(tokens, st);
        if moved(tokens, st, s1) {
            fn_decs(tokens, s1)
        } else {
            s1
        }
    }
}

/// The compilation of a program: the first pass; a call of `main`, or the
/// report that there is none; and the declarations from the first token on.
pub open spec fn compile(tokens: Seq<Token>, st: State) -> State {
    let s1 = index_functions(tokens, st);
    let s2 = if s1.fns.contains_key("main"@) {
        emit3(s1, CALL, s1.fns["main"@].address, 0)
    } else {
        report_unplaced(s1, DiagnosticKind::NoMain, 0)
    };
    fn_decs(tokens, State { cursor: 0, ..s2 })
}

} // verus!
