//! The first pass: where the code of each function will start.
//!
//! The pass walks the tokens once and keeps count of the words that the code
//! generator emits for them. At each function declaration it records the
//! count as the address of the function, together with the signature, so
//! that a call can be compiled before the function it calls. The count is a
//! machine word and wraps around like one.

use crate::diagnostic::DiagnosticKind;
use crate::model::state::{at_end, consume, kind, moved, remaining, report_if, text, State};
use crate::model::statement::{param_type, security_here};
use crate::symbol::{find_builtin, FnInfo};
use crate::token::{Token, TokenKind};
use crate::types::{Param, ValueType};
use vstd::prelude::*;

verus! {

/// The address behind the words of a string literal with the text `chars`
/// that start at `address`: one word for each character but quotation marks
/// and backslashes.
pub open spec fn behind_text(address: i64, chars: Seq<char>) -> i64
    decreases chars.len(),
{
    if chars.len() == 0 {
        address
    } else {
        behind_text(
            if chars[0] != '"' && chars[0] != '\\' {
                address.wrapping_add(1)
            } else {
                address
            },
            chars.drop_first(),
        )
    }
}

/// The address behind the code that prints the arguments of a `print` from
/// the second on, looking from position `i` on, where `open` parentheses
/// are open of which the first is that of the `print`: three words for each
/// comma between its arguments, up to the parenthesis that closes it.
pub open spec fn behind_print(tokens: Seq<Token>, i: int, open: int, address: i64) -> i64
    decreases tokens.len() - i,
{
    if open <= 0 || !(0 <= i < tokens.len()) {
        address
    } else if tokens[i].kind == TokenKind::LeftParenthesis {
        behind_print(tokens, i + 1, open + 1, address)
    } else if tokens[i].kind == TokenKind::RightParenthesis {
        behind_print(tokens, i + 1, open - 1, address)
    } else if tokens[i].kind == TokenKind::Comma && open == 1 {
        behind_print(tokens, i + 1, open, address.wrapping_add(3))
    } else {
        behind_print(tokens, i + 1, open, address)
    }
}

/// The parameters of a function declaration from the one under the cursor
/// on, added to `params`.
pub open spec fn scan_params(tokens: Seq<Token>, st: State, params: Seq<Param>) -> (
    State,
    Seq<Param>,
)
    decreases remaining(tokens, st),
{
    let s1 = consume(tokens, st);
    let ty = param_type(kind(tokens, s1));
    let s2 = consume(tokens, consume(tokens, s1));
    let security = security_here(tokens, s2);
    let s3 = consume(tokens, s2);
    let all = params.push(Param { ty, security });
    if kind(tokens, s3) != TokenKind::Comma {
        (s3, all)
    } else {
        let s4 = consume(tokens, s3);
        if moved(tokens, st, s4) {
            scan_params(tokens, s4, all)
        } else {
            (s4, all)
        }
    }
}

/// The type that a function returns whose declaration names it with a token
/// of kind `k`.
pub open spec fn return_type(k: TokenKind) -> ValueType {
    match k {
        TokenKind::Void => ValueType::Void,
        TokenKind::FloatType => ValueType::Float,
        TokenKind::StringType => ValueType::Str,
        _ => ValueType::Int,
    }
}

/// A function declaration up to its closing parenthesis. The function is
/// recorded with the address `address`. A function named like a built-in is
/// reported.
pub open spec fn scan_signature(tokens: Seq<Token>, st: State, address: i64) -> State {
    let s1 = consume(tokens, st);
    let result = return_type(kind(tokens, s1));
    let s2 = if result == ValueType::Void {
        s1
    } else {
        consume(tokens, consume(tokens, s1))
    };
    let security = if result == ValueType::Void {
        0
    } else {
        security_here(tokens, s2)
    };
    let s3 = consume(tokens, s2);
    let name = text(tokens, s3);
    let s4 = consume(
        tokens,
        consume(
            tokens,
            report_if(
                tokens,
                s3,
                find_builtin(s3.builtins, name) is Some,
                DiagnosticKind::ReservedFunctionName,
            ),
        ),
    );
    let (s5, params) = if kind(tokens, s4) != TokenKind::RightParenthesis {
        scan_params(tokens, s4, Seq::empty())
    } else {
        (s4, Seq::empty())
    };
    let s6 = consume(tokens, s5);
    State {
        fns: s6.fns.insert(
            name,
            FnInfo { address, returns: result, security, params, defined: false },
        ),
        ..s6
    }
}

/// The address behind the code of a call whose name stands before the
/// cursor and whose opening parenthesis stands under it.
pub open spec fn behind_call(tokens: Seq<Token>, st: State, address: i64) -> i64 {
    let name = tokens[st.cursor - 1].text@;
    if find_builtin(st.builtins, name) is None {
        address.wrapping_add(3)
    } else if name == "print"@ {
        behind_print(tokens, st.cursor + 1, 1, address.wrapping_add(3))
    } else if name == "read"@ {
        address.wrapping_add(3)
    } else {
        address.wrapping_add(2)
    }
}

/// What the pass keeps count of.
pub struct Tally {
    /// The address of the code for the token under the cursor.
    pub address: i64,
    /// The number of local slots that the current function has handed out
    /// before the token under the cursor.
    pub slots: i64,
}

/// The count behind `words` more words of code.
pub open spec fn behind(tally: Tally, words: i64) -> Tally {
    Tally { address: tally.address.wrapping_add(words), ..tally }
}

/// One step of the pass: over the token under the cursor, or over a whole
/// function signature, with the count behind the code that the token stands
/// for.
///
/// A literal is two words, or as many as its text takes; an operator one;
/// the use of a variable two, a load or a store; a call what it takes
/// behind its arguments. `if` and `while` stand for the two jumps around
/// their block, `break` for its jump, and `let` for the store of the first
/// value into a new slot. `return` stands for its own word and for the two
/// words that give up each slot handed out so far. A function begins with
/// no slots. An integer behind a colon is a security level and a name
/// behind `let` is declared, not used: they stand for no code.
pub open spec fn index_step(tokens: Seq<Token>, st: State, tally: Tally) -> (State, Tally) {
    let s1 = consume(tokens, st);
    match kind(tokens, st) {
        TokenKind::Fn => (
            scan_signature(tokens, st, tally.address),
            Tally { slots: 0, ..tally },
        ),
        TokenKind::Int => (
            s1,
            if st.cursor > 0 && tokens[st.cursor - 1].kind != TokenKind::Colon {
                behind(tally, 2)
            } else {
                tally
            },
        ),
        TokenKind::Float => (s1, behind(tally, 2)),
        TokenKind::Str => (
            s1,
            Tally {
                address: behind_text(
                    tally.address.wrapping_add(1),
                    text(tokens, st),
                ).wrapping_add(1),
                ..tally
            },
        ),
        TokenKind::Let => (
            s1,
            Tally {
                address: if s1.cursor + 1 < tokens.len() && tokens[s1.cursor
                    + 1].kind.spec_value_type() is Some {
                    tally.address.wrapping_add(2)
                } else {
                    tally.address
                },
                slots: tally.slots.wrapping_add(1),
            },
        ),
        TokenKind::Identifier => (
            s1,
            if st.cursor > 0 && tokens[st.cursor - 1].kind == TokenKind::Let {
                tally
            } else if kind(tokens, s1) != TokenKind::LeftParenthesis {
                behind(tally, 2)
            } else if s1.cursor > 0 {
                Tally { address: behind_call(tokens, s1, tally.address), ..tally }
            } else {
                tally
            },
        ),
        TokenKind::If | TokenKind::While => (s1, behind(tally, 4)),
        TokenKind::Return => (
            s1,
            behind(behind(behind(tally, 1), tally.slots), tally.slots),
        ),
        TokenKind::Break => (s1, behind(tally, 2)),
        other => (
            s1,
            if other.spec_operator() is Some {
                behind(tally, 1)
            } else {
                tally
            },
        ),
    }
}

/// The pass from the cursor to the end of the input.
pub open spec fn index_from(tokens: Seq<Token>, st: State, tally: Tally) -> State
    decreases remaining(tokens, st),
{
    if at_end(tokens, st) {
        st
    } else {
        let (s1, next) = index_step(tokens, st, tally);
        if moved(tokens, st, s1) {
            index_from(tokens, s1, next)
        } else {
            s1
        }
    }
}

/// The number of words that the code generator emits before the code of the
/// first function: a call of `main`.
pub const PRELUDE_WORDS: i64 = 3;

/// The count with which the pass starts.
pub open spec fn first_tally() -> Tally {
    Tally { address: PRELUDE_WORDS, slots: 0 }
}

/// The whole pass.
pub open spec fn index_functions(tokens: Seq<Token>, st: State) -> State {
    index_from(tokens, st, first_tally())
}

} // verus!
