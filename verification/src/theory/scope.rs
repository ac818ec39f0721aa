//! What blocks and statements do to the variables in sight, and where they
//! report a `break`.

use crate::diagnostic::{DiagnosticKind, Expectation};
use crate::model::expression::sl_use;
use crate::model::state::{
    at_end, begins, emit2, expect, extends, kind, kind_absent, moved, patch, patch_all,
    remaining, report_if, stayed, text, State,
};
use crate::model::statement::{
    block, branch, break_statement, condition, fn_call, if_statement, leaves, return_statement,
    statement, statements, var_dec, var_def, while_statement,
};
use crate::opcode::JUMP;
use crate::symbol::{find_builtin, Variable};
use crate::theory::count::lemma_patched_length;
use crate::theory::expression::lemma_sl_use;
use crate::theory::statement::{
    lemma_block, lemma_branch, lemma_break_statement, lemma_condition, lemma_fn_call,
    lemma_return_statement, lemma_statement, lemma_statements, lemma_var_dec, lemma_var_def,
};
use crate::theory::{lemma_expect, lemma_not_last, sound, sound_inside};
use crate::token::{Token, TokenKind};
use crate::types::ValueType;
use vstd::prelude::*;

verus! {

/// Whether a declaration of `name` begins at the token `i`.
pub open spec fn declares_at(tokens: Seq<Token>, i: int, name: Seq<char>) -> bool {
    0 <= i && i + 1 < tokens.len() && tokens[i].kind == TokenKind::Let && tokens[i + 1].text@
        == name
}

/// Whether a declaration of `name` begins at one of the tokens from `from`
/// up to, and without, `to`.
pub open spec fn declared_between(tokens: Seq<Token>, name: Seq<char>, from: int, to: int) -> bool {
    exists|i: int| from <= i < to && #[trigger] declares_at(tokens, i, name)
}

/// Every variable in sight in `to` was in sight in `from`, and is what it
/// was.
pub open spec fn sight_is_kept(from: State, to: State) -> bool {
    forall|name: Seq<char>| #[trigger]
        to.vars.contains_key(name) ==> from.vars.contains_key(name) && to.vars[name]
            == from.vars[name]
}

/// Every variable in sight in `to` was in sight in `from` and is what it
/// was, or belongs to the block that is open in `from`.
pub open spec fn sight_grows(from: State, to: State) -> bool {
    forall|name: Seq<char>| #[trigger]
        to.vars.contains_key(name) ==> (from.vars.contains_key(name) && to.vars[name]
            == from.vars[name]) || leaves(from, to.vars[name])
}

/// Whether the variable `v` belongs to a block that is open in `st`, or to
/// another function: not to a block deeper than the one that is open.
pub open spec fn outer(st: State, v: Variable) -> bool {
    !(v.owner == st.current_fn && v.depth > st.depth)
}

/// Every variable of the blocks that are open in `from` is in sight in `to`
/// and is what it was, unless a declaration of its name begins between the
/// cursors of the two.
pub open spec fn outer_stays(tokens: Seq<Token>, from: State, to: State) -> bool {
    forall|name: Seq<char>| #[trigger]
        from.vars.contains_key(name) && outer(from, from.vars[name]) && !declared_between(
            tokens,
            name,
            from.cursor,
            to.cursor,
        ) ==> to.vars.contains_key(name) && to.vars[name] == from.vars[name]
}

/// The two states stand in one block of one function, the second behind the
/// first.
pub open spec fn in_step(from: State, to: State) -> bool {
    &&& from.cursor <= to.cursor
    &&& begins(to.diagnostics, from.diagnostics)
    &&& to.current_fn == from.current_fn
    &&& to.depth == from.depth
    &&& to.loop_depth == from.loop_depth
}

/// What a statement does to the variables in sight, and that it reports no
/// `break` where a loop is open.
pub open spec fn scoped(tokens: Seq<Token>, from: State, to: State) -> bool {
    &&& in_step(from, to)
    &&& sight_grows(from, to)
    &&& outer_stays(tokens, from, to)
    &&& from.loop_depth > 0 ==> kind_absent(
        to.diagnostics,
        from.diagnostics.len() as int,
        DiagnosticKind::BreakOutsideLoop,
    )
}

/// What holds of one step and of the next holds of the two.
pub proof fn lemma_scoped_joins(tokens: Seq<Token>, a: State, b: State, c: State)
    requires
        scoped(tokens, a, b),
        scoped(tokens, b, c),
    ensures
        scoped(tokens, a, c),
{
    assert forall|name: Seq<char>| #[trigger]
        a.vars.contains_key(name) && outer(a, a.vars[name]) && !declared_between(
            tokens,
            name,
            a.cursor,
            c.cursor,
        ) implies c.vars.contains_key(name) && c.vars[name] == a.vars[name] by {
        if declared_between(tokens, name, a.cursor, b.cursor) {
            let i = choose|i: int| a.cursor <= i < b.cursor && declares_at(tokens, i, name);
            assert(a.cursor <= i < c.cursor && declares_at(tokens, i, name));
        }
        assert(b.vars.contains_key(name));
        if declared_between(tokens, name, b.cursor, c.cursor) {
            let i = choose|i: int| b.cursor <= i < c.cursor && declares_at(tokens, i, name);
            assert(a.cursor <= i < c.cursor && declares_at(tokens, i, name));
        }
    }
    assert forall|name: Seq<char>| #[trigger] c.vars.contains_key(name) implies (
    a.vars.contains_key(name) && c.vars[name] == a.vars[name]) || leaves(a, c.vars[name]) by {
        if !leaves(b, c.vars[name]) {
            assert(b.vars.contains_key(name));
        }
    }
    if a.loop_depth > 0 {
        assert forall|i: int| a.diagnostics.len() <= i < c.diagnostics.len() implies (
        #[trigger] c.diagnostics[i]).kind != DiagnosticKind::BreakOutsideLoop by {
            if i < b.diagnostics.len() {
                assert(c.diagnostics[i] == b.diagnostics[i]);
            }
        }
    }
}

/// A step that keeps the variables and reports no `break` does nothing to
/// the variables in sight.
pub proof fn lemma_even_is_scoped(tokens: Seq<Token>, a: State, b: State)
    requires
        extends(a, b),
        b.vars == a.vars,
        kind_absent(b.diagnostics, a.diagnostics.len() as int, DiagnosticKind::BreakOutsideLoop),
    ensures
        scoped(tokens, a, b),
        sight_is_kept(a, b),
{
}

/// A block leaves in sight what was in sight before it, less what a
/// declaration inside it has named again, and reports no `break` where a
/// loop is open.
pub proof fn lemma_block_scope(tokens: Seq<Token>, st: State)
    requires
        sound(tokens, st),
    ensures
        scoped(tokens, st, block(tokens, st)),
        sight_is_kept(st, block(tokens, st)),
    decreases remaining(tokens, st), 1nat,
{
    lemma_block(tokens, st);
    lemma_expect(tokens, st, Expectation::LeftCurly);
    let s1 = expect(tokens, st, Expectation::LeftCurly);
    let s2 = State { depth: s1.depth + 1, ..s1 };
    let s3 = if moved(tokens, st, s2) {
        lemma_statements(tokens, s2);
        lemma_statements_scope(tokens, s2);
        statements(tokens, s2)
    } else {
        s2
    };
    lemma_expect(tokens, s3, Expectation::RightCurly);
    let s4 = expect(tokens, s3, Expectation::RightCurly);
    let to = block(tokens, st);
    assert(scoped(tokens, s2, s3));
    assert(s4.vars == s3.vars);
    assert(s2.vars == st.vars);
    assert forall|name: Seq<char>| #[trigger] to.vars.contains_key(name) implies
        st.vars.contains_key(name) && to.vars[name] == st.vars[name] by {
        assert(s3.vars.contains_key(name));
        assert(!leaves(s4, s3.vars[name]));
    }
    assert forall|name: Seq<char>| #[trigger]
        st.vars.contains_key(name) && outer(st, st.vars[name]) && !declared_between(
            tokens,
            name,
            st.cursor,
            to.cursor,
        ) implies to.vars.contains_key(name) && to.vars[name] == st.vars[name] by {
        assert(s2.vars.contains_key(name));
        assert(outer(s2, s2.vars[name]));
        if declared_between(tokens, name, s2.cursor, s3.cursor) {
            let i = choose|i: int| s2.cursor <= i < s3.cursor && declares_at(tokens, i, name);
            assert(st.cursor <= i < to.cursor && declares_at(tokens, i, name));
        }
        assert(s3.vars.contains_key(name));
    }
    if st.loop_depth > 0 {
        assert forall|i: int| st.diagnostics.len() <= i < to.diagnostics.len() implies (
        #[trigger] to.diagnostics[i]).kind != DiagnosticKind::BreakOutsideLoop by {
            if i < s1.diagnostics.len() {
            } else if i < s3.diagnostics.len() {
                assert(s4.diagnostics[i] == s3.diagnostics[i]);
            } else {
            }
        }
    }
}

/// The statements of a block add to the variables in sight only variables
/// of the block, and report no `break` where a loop is open.
pub proof fn lemma_statements_scope(tokens: Seq<Token>, st: State)
    requires
        sound_inside(tokens, st),
    ensures
        scoped(tokens, st, statements(tokens, st)),
    decreases remaining(tokens, st), 5nat,
{
    if !(at_end(tokens, st) || kind(tokens, st) == TokenKind::RightCurly) {
        lemma_statement(tokens, st);
        lemma_statement_scope(tokens, st);
        let s1 = statement(tokens, st);
        assert(moved(tokens, st, s1));
        lemma_statements_scope(tokens, s1);
        lemma_scoped_joins(tokens, st, s1, statements(tokens, s1));
    }
}

/// A statement adds to the variables in sight only the variable that it
/// declares, and reports no `break` where a loop is open.
pub proof fn lemma_statement_scope(tokens: Seq<Token>, st: State)
    requires
        sound(tokens, st),
        !at_end(tokens, st),
    ensures
        scoped(tokens, st, statement(tokens, st)),
    decreases remaining(tokens, st), 4nat,
{
    lemma_statement(tokens, st);
    let to = statement(tokens, st);
    match kind(tokens, st) {
        TokenKind::Let => {
            lemma_var_dec(tokens, st);
            let s1 = var_dec(tokens, st);
            lemma_expect(tokens, s1, Expectation::SemiColon);
            let name = tokens[st.cursor + 1].text@;
            assert(declares_at(tokens, st.cursor, name));
            assert(declared_between(tokens, name, st.cursor, to.cursor));
            assert(leaves(st, s1.vars[name]));
            lemma_absent_joins(st, s1, to);
        },
        TokenKind::Identifier => {
            if tokens[st.cursor + 1].kind != TokenKind::LeftParenthesis {
                lemma_var_def(tokens, st);
                lemma_expect(tokens, var_def(tokens, st), Expectation::SemiColon);
                lemma_absent_joins(st, var_def(tokens, st), to);
            } else {
                match find_builtin(st.builtins, text(tokens, st)) {
                    Some(b) => {
                        let s1 = report_if(
                            tokens,
                            st,
                            st.builtins[b].returns != ValueType::Void,
                            DiagnosticKind::CallNotVoid,
                        );
                        lemma_sl_use(tokens, s1, ValueType::Void);
                        let s2 = sl_use(tokens, s1, ValueType::Void);
                        lemma_expect(tokens, s2, Expectation::SemiColon);
                        lemma_absent_joins(s1, s2, to);
                        lemma_absent_joins(st, s1, to);
                    },
                    None => {
                        lemma_fn_call(tokens, st);
                        lemma_expect(tokens, fn_call(tokens, st), Expectation::SemiColon);
                        lemma_absent_joins(st, fn_call(tokens, st), to);
                    },
                }
            }
            lemma_even_is_scoped(tokens, st, to);
        },
        TokenKind::If => {
            lemma_if_scope(tokens, st, Seq::empty());
        },
        TokenKind::While => {
            lemma_while_scope(tokens, st);
        },
        TokenKind::Break => {
            let s1 = report_if(
                tokens,
                st,
                st.loop_depth == 0,
                DiagnosticKind::BreakOutsideLoop,
            );
            lemma_break_statement(tokens, s1);
            let s2 = break_statement(tokens, s1);
            lemma_expect(tokens, s2, Expectation::SemiColon);
            if st.loop_depth > 0 {
                lemma_absent_joins(st, s2, to);
            }
        },
        TokenKind::Return => {
            lemma_return_statement(tokens, st);
            lemma_expect(tokens, return_statement(tokens, st), Expectation::SemiColon);
            lemma_absent_joins(st, return_statement(tokens, st), to);
            lemma_even_is_scoped(tokens, st, to);
        },
        _ => {},
    }
}

/// Where neither of two steps reports a `break`, the two report none.
pub proof fn lemma_absent_joins(a: State, b: State, c: State)
    requires
        begins(b.diagnostics, a.diagnostics),
        begins(c.diagnostics, b.diagnostics),
        kind_absent(b.diagnostics, a.diagnostics.len() as int, DiagnosticKind::BreakOutsideLoop),
        kind_absent(c.diagnostics, b.diagnostics.len() as int, DiagnosticKind::BreakOutsideLoop),
    ensures
        begins(c.diagnostics, a.diagnostics),
        kind_absent(c.diagnostics, a.diagnostics.len() as int, DiagnosticKind::BreakOutsideLoop),
{
    assert forall|i: int| a.diagnostics.len() <= i < c.diagnostics.len() implies (
    #[trigger] c.diagnostics[i]).kind != DiagnosticKind::BreakOutsideLoop by {
        if i < b.diagnostics.len() {
            assert(c.diagnostics[i] == b.diagnostics[i]);
        }
    }
}

/// A branch leaves in sight what was in sight before it, less what a
/// declaration inside it has named again.
pub proof fn lemma_branch_scope(tokens: Seq<Token>, st: State)
    requires
        sound(tokens, st),
    ensures
        scoped(tokens, st, branch(tokens, st)),
        sight_is_kept(st, branch(tokens, st)),
    decreases remaining(tokens, st), 2nat,
{
    lemma_branch(tokens, st);
    lemma_condition(tokens, st, Expectation::If);
    let s1 = condition(tokens, st, Expectation::If);
    lemma_even_is_scoped(tokens, st, s1);
    if stayed(st, s1) {
        lemma_block(tokens, s1);
        lemma_block_scope(tokens, s1);
        let s2 = block(tokens, s1);
        let s3 = emit2(s2, JUMP, 0);
        let to = patch(s3, s1.code.len() - 1, s3.code.len() as int);
        assert(scoped(tokens, s2, to));
        lemma_scoped_joins(tokens, st, s1, s2);
        lemma_scoped_joins(tokens, st, s2, to);
    }
}

/// A chain of branches leaves in sight what was in sight before it, less
/// what a declaration inside it has named again.
pub proof fn lemma_if_scope(tokens: Seq<Token>, st: State, ends: Seq<int>)
    requires
        sound(tokens, st),
    ensures
        sound(tokens, if_statement(tokens, st, ends)),
        scoped(tokens, st, if_statement(tokens, st, ends)),
        sight_is_kept(st, if_statement(tokens, st, ends)),
    decreases remaining(tokens, st), 3nat,
{
    lemma_branch(tokens, st);
    lemma_branch_scope(tokens, st);
    let s1 = branch(tokens, st);
    let all = ends.push(s1.code.len() - 1);
    if kind(tokens, s1) != TokenKind::Else {
        let to = patch_all(s1, all, s1.code.len() as int);
        lemma_patched_length(s1.code, all, s1.code.len() as int);
        assert(scoped(tokens, s1, to));
        lemma_scoped_joins(tokens, st, s1, to);
    } else {
        lemma_expect(tokens, s1, Expectation::Else);
        let s2 = expect(tokens, s1, Expectation::Else);
        lemma_not_last(tokens, s1);
        lemma_even_is_scoped(tokens, s1, s2);
        lemma_scoped_joins(tokens, st, s1, s2);
        if kind(tokens, s2) == TokenKind::LeftCurly {
            lemma_block(tokens, s2);
            lemma_block_scope(tokens, s2);
            let s3 = block(tokens, s2);
            let to = patch_all(s3, all, s3.code.len() as int);
            lemma_patched_length(s3.code, all, s3.code.len() as int);
            assert(scoped(tokens, s3, to));
            lemma_scoped_joins(tokens, st, s2, s3);
            lemma_scoped_joins(tokens, st, s3, to);
        } else {
            lemma_if_scope(tokens, s2, all);
            lemma_scoped_joins(tokens, st, s2, if_statement(tokens, s2, all));
        }
    }
}

/// A loop leaves in sight what was in sight before it, less what a
/// declaration inside it has named again, and reports no `break`.
pub proof fn lemma_while_scope(tokens: Seq<Token>, st: State)
    requires
        sound(tokens, st),
        !at_end(tokens, st),
        kind(tokens, st) == TokenKind::While,
    ensures
        scoped(tokens, st, while_statement(tokens, st)),
        sight_is_kept(st, while_statement(tokens, st)),
        kind_absent(
            while_statement(tokens, st).diagnostics,
            st.diagnostics.len() as int,
            DiagnosticKind::BreakOutsideLoop,
        ),
    decreases remaining(tokens, st), 3nat,
{
    lemma_condition(tokens, st, Expectation::While);
    let s1 = condition(tokens, st, Expectation::While);
    lemma_even_is_scoped(tokens, st, s1);
    let entered = State { loop_depth: s1.loop_depth + 1, breaks: Seq::empty(), ..s1 };
    lemma_block(tokens, entered);
    lemma_block_scope(tokens, entered);
    let s2 = block(tokens, entered);
    let to = while_statement(tokens, st);
    assert(to.vars == s2.vars);
    assert(to.diagnostics == s2.diagnostics);
    assert(to.cursor == s2.cursor);
    lemma_absent_joins(st, s1, s2);
    assert forall|name: Seq<char>| #[trigger]
        s1.vars.contains_key(name) && outer(s1, s1.vars[name]) && !declared_between(
            tokens,
            name,
            s1.cursor,
            to.cursor,
        ) implies to.vars.contains_key(name) && to.vars[name] == s1.vars[name] by {
        assert(entered.vars.contains_key(name));
        assert(outer(entered, entered.vars[name]));
    }
    assert(scoped(tokens, s1, to));
    lemma_scoped_joins(tokens, st, s1, to);
}

} // verus!
