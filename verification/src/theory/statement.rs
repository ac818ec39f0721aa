//! Statements and blocks keep what they have to keep.

use crate::diagnostic::{DiagnosticKind, Expectation};
use crate::model::expression::{derived_type, expression, sl_use};
use crate::model::state::{
    accepts, all_below, all_from, at_end, begins, emit2, expect, extends, extends_evenly, kind,
    kind_absent, lemma_patched, moved, patch, remaining, report, report_if, report_quoting, text, word_of,
    State,
};
use crate::model::statement::{
    annotated_security, annotation, block, branch, branch_is_closed, branch_layout,
    break_statement, condition, current_function, declaration_is_checked, fn_call, if_branches,
    if_statement, loop_is_closed, pops, return_statement, scope_is_closed, security_here,
    statement, statements, var_dec, var_def, while_statement, Branch,
};
use crate::opcode::{JUMP, JUMP_IF_FALSE, POP};
use crate::symbol::{find_builtin, undeclared_variable};
use crate::theory::chain::{
    chain_so_far, lemma_chain_ends, lemma_chain_grows, lemma_chain_kept,
};
use crate::theory::expression::{lemma_call, lemma_expression, lemma_sl_use};
use crate::theory::{held, kept, lemma_expect, lemma_not_last, sound, sound_inside};
use crate::token::{Token, TokenKind};
use crate::types::{ValueType, MAX_SECURITY};
use vstd::prelude::*;

verus! {

/// The annotation of a declaration keeps what it has to keep.
pub proof fn lemma_annotation(tokens: Seq<Token>, st: State)
    requires
        sound(tokens, st),
    ensures
        kept(tokens, st, annotation(tokens, st)),
        annotation(tokens, st).vars == st.vars,
{
    lemma_expect(tokens, st, Expectation::VarType);
    let s0 = expect(tokens, st, Expectation::VarType);
    lemma_expect(tokens, s0, Expectation::Colon);
    let s1 = expect(tokens, s0, Expectation::Colon);
    let security = security_here(tokens, s1);
    let s2 = if security > MAX_SECURITY {
        report(tokens, s1, DiagnosticKind::SecurityAboveMaximum(security))
    } else if security < 0 {
        report(tokens, s1, DiagnosticKind::SecurityBelowMinimum(security))
    } else {
        s1
    };
    lemma_expect(tokens, s2, Expectation::Integer);
    lemma_expect(
        tokens,
        expect(tokens, s2, Expectation::Integer),
        Expectation::Equal,
    );
}

/// A declaration keeps what it has to keep, moves the cursor, and checks the
/// name it declares.
pub proof fn lemma_var_dec(tokens: Seq<Token>, st: State)
    requires
        sound(tokens, st),
        !at_end(tokens, st),
        kind(tokens, st) == TokenKind::Let,
    ensures
        held(tokens, st, var_dec(tokens, st)),
        var_dec(tokens, st).breaks == st.breaks,
        st.cursor < var_dec(tokens, st).cursor,
        declaration_is_checked(tokens, st, var_dec(tokens, st)),
        var_dec(tokens, st).vars == st.vars.insert(
            tokens[st.cursor + 1].text@,
            var_dec(tokens, st).vars[tokens[st.cursor + 1].text@],
        ),
        kind_absent(
            var_dec(tokens, st).diagnostics,
            st.diagnostics.len() as int,
            DiagnosticKind::BreakOutsideLoop,
        ),
{
    lemma_expect(tokens, st, Expectation::Let);
    let s1 = expect(tokens, st, Expectation::Let);
    let name = text(tokens, s1);
    let first = st.diagnostics.len() as int;
    let s1r = report_if(tokens, s1, s1.vars.contains_key(name), DiagnosticKind::AlreadyDeclared);
    assert(s1.vars.contains_key(name) ==> s1r.diagnostics.len() == first + 1
        && s1r.diagnostics[first].kind == DiagnosticKind::AlreadyDeclared);
    assert(!s1.vars.contains_key(name) ==> s1r.diagnostics.len() == first);
    lemma_expect(tokens, s1r, Expectation::Identifier);
    let s2 = expect(tokens, s1r, Expectation::Identifier);
    let declared = kind(tokens, s2).spec_value_type();
    let s3 = State { next_slot: s2.next_slot + 1, ..s2 };
    lemma_annotation(tokens, s3);
    let s4 = annotation(tokens, s3);
    lemma_expression(
        tokens,
        s4,
        match declared {
            Some(ty) => ty,
            None => ValueType::Int,
        },
        annotated_security(tokens, s3),
    );
    let s5 = expression(
        tokens,
        s4,
        match declared {
            Some(ty) => ty,
            None => ValueType::Int,
        },
        annotated_security(tokens, s3),
    );
    assert(extends_evenly(s1r, s2));
    assert(extends_evenly(s3, s5));
    assert(begins(s5.diagnostics, s1r.diagnostics));
    assert(var_dec(tokens, st).diagnostics == s5.diagnostics);
    if s1.vars.contains_key(name) {
        assert(s5.diagnostics[first] == s1r.diagnostics[first]);
    }
}

/// An assignment keeps what it has to keep.
pub proof fn lemma_var_def(tokens: Seq<Token>, st: State)
    requires
        sound(tokens, st),
    ensures
        kept(tokens, st, var_def(tokens, st)),
        !at_end(tokens, st) ==> st.cursor < var_def(tokens, st).cursor,
{
    let name = text(tokens, st);
    lemma_expect(tokens, st, Expectation::Identifier);
    let s0 = expect(tokens, st, Expectation::Identifier);
    lemma_expect(tokens, s0, Expectation::Equal);
    let s1 = expect(tokens, s0, Expectation::Equal);
    let declared = s1.vars.contains_key(name);
    let v = if declared {
        s1.vars[name]
    } else {
        undeclared_variable()
    };
    let s2 = if declared {
        s1
    } else {
        report_quoting(tokens, s1, DiagnosticKind::UndeclaredVariable, st.cursor)
    };
    let s3 = if v.depth > s2.depth {
        report_quoting(tokens, s2, DiagnosticKind::OutOfScope, st.cursor)
    } else {
        s2
    };
    lemma_expression(tokens, s3, v.ty, v.security);
}

/// A call that stands as a statement keeps what it has to keep, and moves
/// the cursor.
pub proof fn lemma_fn_call(tokens: Seq<Token>, st: State)
    requires
        sound(tokens, st),
        !at_end(tokens, st),
    ensures
        kept(tokens, st, fn_call(tokens, st)),
        st.cursor < fn_call(tokens, st).cursor,
{
    let name = text(tokens, st);
    if st.fns.contains_key(name) {
        let f = st.fns[name];
        lemma_call(
            tokens,
            report_if(tokens, st, f.returns != ValueType::Void, DiagnosticKind::CallNotVoid),
            f.address,
            f.params,
        );
    } else {
        lemma_call(tokens, report(tokens, st, DiagnosticKind::UnknownFunction), 0, Seq::empty());
    }
}

/// Giving up the slots keeps the state but for the code.
pub proof fn lemma_pops(tokens: Seq<Token>, st: State, n: int)
    requires
        sound(tokens, st),
    ensures
        kept(tokens, st, pops(st, n)),
        pops(st, n).cursor == st.cursor,
    decreases n,
{
    if n > 0 {
        lemma_pops(tokens, emit2(st, POP, word_of(n - 1)), n - 1);
    }
}

/// A `return` keeps what it has to keep, and moves the cursor.
pub proof fn lemma_return_statement(tokens: Seq<Token>, st: State)
    requires
        sound(tokens, st),
        !at_end(tokens, st),
        kind(tokens, st) == TokenKind::Return,
    ensures
        held(tokens, st, return_statement(tokens, st)),
        return_statement(tokens, st).breaks == st.breaks,
        return_statement(tokens, st).next_slot == st.next_slot,
        st.cursor < return_statement(tokens, st).cursor,
        return_statement(tokens, st).vars == st.vars,
        kind_absent(
            return_statement(tokens, st).diagnostics,
            st.diagnostics.len() as int,
            DiagnosticKind::BreakOutsideLoop,
        ),
{
    lemma_expect(tokens, st, Expectation::Return);
    let s1 = expect(tokens, st, Expectation::Return);
    let s2 = if s1.depth == 1 {
        State { returns: s1.returns + 1, ..s1 }
    } else {
        s1
    };
    let f = current_function(tokens, s2);
    if kind(tokens, s2) != TokenKind::SemiColon {
        let s3 = match f {
            Some(f) => if f.returns != ValueType::Void {
                lemma_expression(tokens, s2, f.returns, f.security);
                expression(tokens, s2, f.returns, f.security)
            } else {
                report(tokens, s2, DiagnosticKind::ReturnValueFromVoid)
            },
            None => {
                lemma_expression(tokens, s2, ValueType::Int, 0);
                expression(tokens, s2, ValueType::Int, 0)
            },
        };
        lemma_pops(tokens, s3, s3.next_slot);
    } else {
        let s3 = report_if(
            tokens,
            s2,
            f is Some && f->0.returns != ValueType::Void,
            DiagnosticKind::MissingReturnValue,
        );
        lemma_pops(tokens, s3, s3.next_slot);
    }
}

/// A `break` keeps what it has to keep.
pub proof fn lemma_break_statement(tokens: Seq<Token>, st: State)
    requires
        sound(tokens, st),
    ensures
        held(tokens, st, break_statement(tokens, st)),
        break_statement(tokens, st).next_slot == st.next_slot,
        break_statement(tokens, st).returns == st.returns,
        !at_end(tokens, st) ==> st.cursor < break_statement(tokens, st).cursor,
        break_statement(tokens, st).vars == st.vars,
        kind_absent(
            break_statement(tokens, st).diagnostics,
            st.diagnostics.len() as int,
            DiagnosticKind::BreakOutsideLoop,
        ),
{
    lemma_expect(tokens, st, Expectation::Break);
}

/// The head of a branch or a loop keeps what it has to keep and ends with a
/// jump whose target is still to be written.
pub proof fn lemma_condition(tokens: Seq<Token>, st: State, keyword: Expectation)
    requires
        sound(tokens, st),
    ensures
        kept(tokens, st, condition(tokens, st, keyword)),
        condition(tokens, st, keyword).code.len() >= st.code.len() + 2,
        condition(tokens, st, keyword).code[condition(tokens, st, keyword).code.len() - 2]
            == JUMP_IF_FALSE,
        !at_end(tokens, st) && accepts(keyword, kind(tokens, st)) ==> st.cursor < condition(
            tokens,
            st,
            keyword,
        ).cursor,
{
    lemma_expect(tokens, st, keyword);
    let s1 = expect(tokens, st, keyword);
    lemma_expression(tokens, s1, derived_type(tokens, s1), MAX_SECURITY);
}

/// A block keeps what it has to keep, and leaves none of its variables in
/// sight.
pub proof fn lemma_block(tokens: Seq<Token>, st: State)
    requires
        sound(tokens, st),
    ensures
        held(tokens, st, block(tokens, st)),
        scope_is_closed(st, block(tokens, st)),
    decreases remaining(tokens, st), 1nat,
{
    lemma_expect(tokens, st, Expectation::LeftCurly);
    let s1 = expect(tokens, st, Expectation::LeftCurly);
    let s2 = State { depth: s1.depth + 1, ..s1 };
    let s3 = if moved(tokens, st, s2) {
        lemma_statements(tokens, s2);
        statements(tokens, s2)
    } else {
        s2
    };
    lemma_expect(tokens, s3, Expectation::RightCurly);
}

/// The statements of a block keep what they have to keep.
pub proof fn lemma_statements(tokens: Seq<Token>, st: State)
    requires
        sound_inside(tokens, st),
    ensures
        sound_inside(tokens, statements(tokens, st)),
        extends(st, statements(tokens, st)),
    decreases remaining(tokens, st), 5nat,
{
    if !(at_end(tokens, st) || kind(tokens, st) == TokenKind::RightCurly) {
        lemma_statement(tokens, st);
        let s1 = statement(tokens, st);
        assert(moved(tokens, st, s1));
        lemma_statements(tokens, s1);
    }
}

/// A statement keeps what it has to keep, and moves the cursor.
pub proof fn lemma_statement(tokens: Seq<Token>, st: State)
    requires
        sound(tokens, st),
        !at_end(tokens, st),
    ensures
        held(tokens, st, statement(tokens, st)),
        st.cursor < statement(tokens, st).cursor,
    decreases remaining(tokens, st), 4nat,
{
    match kind(tokens, st) {
        TokenKind::Let => {
            lemma_var_dec(tokens, st);
            lemma_expect(tokens, var_dec(tokens, st), Expectation::SemiColon);
        },
        TokenKind::Identifier => {
            if tokens[st.cursor + 1].kind != TokenKind::LeftParenthesis {
                lemma_var_def(tokens, st);
                lemma_expect(tokens, var_def(tokens, st), Expectation::SemiColon);
            } else {
                match find_builtin(st.builtins, text(tokens, st)) {
                    Some(b) => {
                        let s1 = report_if(
                            tokens,
                            st,
                            st.builtins[b].returns != ValueType::Void,
                            DiagnosticKind::CallNotVoid,
                        );
                        lemma_sl_use(tokens, s1, ValueType::Void);
                        lemma_expect(
                            tokens,
                            sl_use(tokens, s1, ValueType::Void),
                            Expectation::SemiColon,
                        );
                    },
                    None => {
                        lemma_fn_call(tokens, st);
                        lemma_expect(tokens, fn_call(tokens, st), Expectation::SemiColon);
                    },
                }
            }
        },
        TokenKind::If => {
            lemma_if_chain(tokens, st, st, Seq::empty(), Seq::empty());
        },
        TokenKind::While => {
            lemma_while_statement(tokens, st);
        },
        TokenKind::Break => {
            let s1 = report_if(
                tokens,
                st,
                st.loop_depth == 0,
                DiagnosticKind::BreakOutsideLoop,
            );
            lemma_break_statement(tokens, s1);
            lemma_expect(tokens, break_statement(tokens, s1), Expectation::SemiColon);
        },
        TokenKind::Return => {
            lemma_return_statement(tokens, st);
            lemma_expect(tokens, return_statement(tokens, st), Expectation::SemiColon);
        },
        _ => {},
    }
}

/// A branch keeps what it has to keep, and its jump over the block leads to
/// just behind it.
pub proof fn lemma_branch(tokens: Seq<Token>, st: State)
    requires
        sound(tokens, st),
    ensures
        held(tokens, st, branch(tokens, st)),
        !at_end(tokens, st) && kind(tokens, st) == TokenKind::If ==> st.cursor < branch(
            tokens,
            st,
        ).cursor,
        branch_is_closed(branch_layout(tokens, st), branch(tokens, st).code),
        branch_layout(tokens, st).jump == branch(tokens, st).code.len() - 1,
    decreases remaining(tokens, st), 2nat,
{
    lemma_condition(tokens, st, Expectation::If);
    let s1 = condition(tokens, st, Expectation::If);
    lemma_block(tokens, s1);
}

/// A chain of branches, from any of its branches on, keeps what it has to
/// keep and is linked from its first branch to its end. `linked` holds the
/// branches before the one under the cursor and `ends` their jumps to the
/// end of the chain.
pub proof fn lemma_if_chain(
    tokens: Seq<Token>,
    start: State,
    st: State,
    linked: Seq<Branch>,
    ends: Seq<int>,
)
    requires
        sound(tokens, st),
        extends(start, st),
        chain_so_far(start, linked, ends, st.code),
        all_below(ends, st.code.len() as int),
        all_from(ends, 0, start.code.len() as int),
        linked.len() == 0 ==> st == start && !at_end(tokens, st) && kind(tokens, st)
            == TokenKind::If,
        linked.len() > 0 ==> linked.last().jump + 1 == st.code.len() && start.cursor < st.cursor,
    ensures
        held(tokens, start, if_statement(tokens, st, ends)),
        start.cursor < if_statement(tokens, st, ends).cursor,
        ({
            let all = linked + if_branches(tokens, st);
            let code = if_statement(tokens, st, ends).code;
            &&& all.len() > 0
            &&& all[0].head == start.code.len()
            &&& forall|i: int|
                0 <= i < all.len() ==> branch_is_closed(#[trigger] all[i], code)
                    && code[all[i].jump] == word_of(code.len() as int)
            &&& forall|i: int|
                0 <= i < all.len() - 1 ==> (#[trigger] all[i + 1]).head == all[i].jump + 1
        }),
    decreases remaining(tokens, st), 3nat,
{
    lemma_branch(tokens, st);
    let s1 = branch(tokens, st);
    let b = branch_layout(tokens, st);
    let slot = s1.code.len() - 1;
    let linked2 = linked.push(b);
    let ends2 = ends.push(slot);
    lemma_chain_grows(start, linked, ends, st.code, b, slot, s1.code);
    if kind(tokens, s1) != TokenKind::Else {
        assert(linked + if_branches(tokens, st) =~= linked2);
        lemma_chain_ends(tokens, start, s1, linked2, ends2);
    } else {
        lemma_not_last(tokens, s1);
        lemma_expect(tokens, s1, Expectation::Else);
        let s2 = expect(tokens, s1, Expectation::Else);
        assert(moved(tokens, st, s2));
        if kind(tokens, s2) == TokenKind::LeftCurly {
            assert(linked + if_branches(tokens, st) =~= linked2);
            lemma_block(tokens, s2);
            let s3 = block(tokens, s2);
            lemma_chain_kept(start, linked2, ends2, s1.code, s3.code);
            lemma_chain_ends(tokens, start, s3, linked2, ends2);
        } else {
            assert(linked + if_branches(tokens, st) =~= linked2 + if_branches(tokens, s2));
            lemma_if_chain(tokens, start, s2, linked2, ends2);
        }
    }
}

/// A loop keeps what it has to keep, moves the cursor, and is closed.
pub proof fn lemma_while_statement(tokens: Seq<Token>, st: State)
    requires
        sound(tokens, st),
        !at_end(tokens, st),
        kind(tokens, st) == TokenKind::While,
    ensures
        held(tokens, st, while_statement(tokens, st)),
        st.cursor < while_statement(tokens, st).cursor,
        loop_is_closed(tokens, st, while_statement(tokens, st).code),
    decreases remaining(tokens, st), 3nat,
{
    lemma_condition(tokens, st, Expectation::While);
    let s1 = condition(tokens, st, Expectation::While);
    let entered = State { loop_depth: s1.loop_depth + 1, breaks: Seq::empty(), ..s1 };
    lemma_block(tokens, entered);
    let s2 = block(tokens, entered);
    let s3 = emit2(
        State { loop_depth: s2.loop_depth - 1, ..s2 },
        JUMP,
        word_of(st.code.len() as int),
    );
    let exit = s3.code.len() as int;
    let skip = s1.code.len() - 1;
    let patched_once = patch(s3, skip, exit);
    let breaks = s2.breaks;
    assert(all_from(breaks, 0, entered.code.len() as int));
    assert(all_below(breaks, s2.code.len() as int));
    assert(!breaks.contains(skip)) by {
        if breaks.contains(skip) {
            let j = choose|j: int| 0 <= j < breaks.len() && breaks[j] == skip;
            assert(breaks[j] >= entered.code.len());
        }
    }
    assert(!breaks.contains(exit - 1)) by {
        if breaks.contains(exit - 1) {
            let j = choose|j: int| 0 <= j < breaks.len() && breaks[j] == exit - 1;
            assert(breaks[j] < s2.code.len());
        }
    }
    assert(!breaks.contains(exit - 2)) by {
        if breaks.contains(exit - 2) {
            let j = choose|j: int| 0 <= j < breaks.len() && breaks[j] == exit - 2;
            assert(breaks[j] < s2.code.len());
        }
    }
    assert(!breaks.contains(skip - 1)) by {
        if breaks.contains(skip - 1) {
            let j = choose|j: int| 0 <= j < breaks.len() && breaks[j] == skip - 1;
            assert(breaks[j] >= entered.code.len());
        }
    }
    lemma_patched(patched_once.code, breaks, exit);
    assert forall|k: int| 0 <= k < st.code.len() implies !(#[trigger] breaks.contains(
        k,
    )) by {
        if breaks.contains(k) {
            let j = choose|j: int| 0 <= j < breaks.len() && breaks[j] == k;
            assert(breaks[j] >= entered.code.len());
        }
    }
}

} // verus!
