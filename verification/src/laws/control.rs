//! Laws of the control flow: branches, loops and `break`.

use crate::diagnostic::{Diagnostic, DiagnosticKind, Expectation};
use crate::model::state::{at_end, expect, kind, kind_absent, moved, remaining, State};
use crate::model::statement::{
    block, chain_is_linked, if_branches, if_statement, loop_is_closed, statement, statements,
    while_statement, Branch,
};
use crate::theory::scope::{lemma_block_scope, lemma_while_scope};
use crate::theory::statement::{
    lemma_block, lemma_if_chain, lemma_statement, lemma_statements, lemma_while_statement,
};
use crate::theory::{lemma_expect, sound, sound_inside};
use crate::token::{Token, TokenKind};
use vstd::prelude::*;

verus! {

/// In a chain of `if`, `else if` and `else`, the jump over the block of each
/// branch leads to just behind the branch: to the head of the next branch,
/// to the `else` block, or to the end of the chain. Behind its block every
/// branch jumps to the end of the chain. So at most one block of a chain
/// runs, and exactly one where an `else` closes it.
pub proof fn law_chain_is_linked(tokens: Seq<Token>, st: State)
    requires
        sound(tokens, st),
        !at_end(tokens, st),
        kind(tokens, st) == TokenKind::If,
    ensures
        chain_is_linked(tokens, st, if_statement(tokens, st, Seq::empty()).code),
{
    lemma_if_chain(tokens, st, st, Seq::empty(), Seq::empty());
    assert(Seq::<Branch>::empty() + if_branches(tokens, st) =~= if_branches(tokens, st));
}

/// A `while` loop ends with a jump back to the address at which it began,
/// and the jump over its body and the jump of every `break` in its body lead
/// to the one address just behind the loop.
pub proof fn law_loop_is_closed(tokens: Seq<Token>, st: State)
    requires
        sound(tokens, st),
        !at_end(tokens, st),
        kind(tokens, st) == TokenKind::While,
    ensures
        loop_is_closed(tokens, st, while_statement(tokens, st).code),
{
    lemma_while_statement(tokens, st);
}

/// A `break` is reported exactly where no loop is open around it.
pub proof fn law_break_needs_loop(tokens: Seq<Token>, st: State)
    requires
        kind(tokens, st) == TokenKind::Break,
    ensures
        ({
            let to = statement(tokens, st);
            let first = st.diagnostics.len() as int;
            &&& st.loop_depth == 0 ==> to.error && first < to.diagnostics.len()
                && to.diagnostics[first] == (Diagnostic {
                kind: DiagnosticKind::BreakOutsideLoop,
                line: tokens[st.cursor].line,
                token: st.cursor as usize,
            })
            &&& st.loop_depth != 0 ==> kind_absent(
                to.diagnostics,
                first,
                DiagnosticKind::BreakOutsideLoop,
            )
        }),
{
    reveal(expect);
}

/// A loop reports no `break`, however deep in its body one stands and
/// whether or not a loop is open around it.
pub proof fn law_loop_takes_every_break(tokens: Seq<Token>, st: State)
    requires
        sound(tokens, st),
        !at_end(tokens, st),
        kind(tokens, st) == TokenKind::While,
    ensures
        kind_absent(
            while_statement(tokens, st).diagnostics,
            st.diagnostics.len() as int,
            DiagnosticKind::BreakOutsideLoop,
        ),
{
    lemma_while_scope(tokens, st);
}

/// A block that stands inside a loop reports no `break`.
pub proof fn law_block_inside_loop_takes_every_break(tokens: Seq<Token>, st: State)
    requires
        sound(tokens, st),
        st.loop_depth > 0,
    ensures
        kind_absent(
            block(tokens, st).diagnostics,
            st.diagnostics.len() as int,
            DiagnosticKind::BreakOutsideLoop,
        ),
{
    lemma_block_scope(tokens, st);
}

/// The state in which a block that is entered in `st` begins its statements.
pub open spec fn inside(tokens: Seq<Token>, st: State) -> State {
    let s1 = expect(tokens, st, Expectation::LeftCurly);
    State { depth: s1.depth + 1, ..s1 }
}

/// Whether one of the statements that begin under the cursor of `st`, up to
/// the closing bracket of their block, is compiled from the state `at`.
pub open spec fn begins_statement(tokens: Seq<Token>, st: State, at: State) -> bool
    decreases remaining(tokens, st),
{
    if at_end(tokens, st) || kind(tokens, st) == TokenKind::RightCurly {
        false
    } else {
        at == st || (moved(tokens, st, statement(tokens, st)) && begins_statement(
            tokens,
            statement(tokens, st),
            at,
        ))
    }
}

/// The report of the `break` under the cursor of `at`.
pub open spec fn break_report(tokens: Seq<Token>, at: State) -> Diagnostic {
    Diagnostic {
        kind: DiagnosticKind::BreakOutsideLoop,
        line: tokens[at.cursor].line,
        token: at.cursor as usize,
    }
}

/// Statements outside every loop of which one is a `break` fail the
/// compilation and report the `break`.
proof fn lemma_break_is_reported(tokens: Seq<Token>, st: State, at: State)
    requires
        sound_inside(tokens, st),
        st.loop_depth == 0,
        begins_statement(tokens, st, at),
        kind(tokens, at) == TokenKind::Break,
    ensures
        statements(tokens, st).error,
        at.diagnostics.len() < statements(tokens, st).diagnostics.len(),
        statements(tokens, st).diagnostics[at.diagnostics.len() as int] == break_report(
            tokens,
            at,
        ),
    decreases remaining(tokens, st),
{
    lemma_statement(tokens, st);
    let s1 = statement(tokens, st);
    lemma_statements(tokens, s1);
    if at == st {
        law_break_needs_loop(tokens, st);
    } else {
        lemma_break_is_reported(tokens, s1, at);
    }
}

/// A block that stands outside every loop and holds a `break` among its
/// statements, in no loop of its own, fails the compilation and reports the
/// `break`.
pub proof fn law_break_outside_loops_fails_the_block(tokens: Seq<Token>, st: State, at: State)
    requires
        sound(tokens, st),
        st.loop_depth == 0,
        begins_statement(tokens, inside(tokens, st), at),
        kind(tokens, at) == TokenKind::Break,
    ensures
        block(tokens, st).error,
        at.diagnostics.len() < block(tokens, st).diagnostics.len(),
        block(tokens, st).diagnostics[at.diagnostics.len() as int] == break_report(tokens, at),
{
    lemma_expect(tokens, st, Expectation::LeftCurly);
    let s2 = inside(tokens, st);
    lemma_break_is_reported(tokens, s2, at);
    lemma_statements(tokens, s2);
    lemma_expect(tokens, statements(tokens, s2), Expectation::RightCurly);
}

/// Behind a statement, and behind a block, as many loops are open as before
/// it: the statements of a block that stands outside every loop are
/// compiled outside every loop, so a `break` among them is reported.
pub proof fn law_loops_are_closed_where_they_open(tokens: Seq<Token>, st: State)
    requires
        sound(tokens, st),
    ensures
        block(tokens, st).loop_depth == st.loop_depth,
        !at_end(tokens, st) ==> statement(tokens, st).loop_depth == st.loop_depth,
{
    lemma_block(tokens, st);
    if !at_end(tokens, st) {
        lemma_statement(tokens, st);
    }
}

} // verus!
