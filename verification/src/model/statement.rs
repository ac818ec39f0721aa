//! Statements and blocks.

use crate::diagnostic::{Diagnostic, DiagnosticKind, Expectation};
use crate::model::expression::{call, derived_type, expression, sl_use};
use crate::model::state::{
    at_end, consume, emit, emit2, expect, kind, kind_absent, moved, patch, patch_all, remaining,
    report, report_if, report_quoting, stayed, text, word_of, State,
};
use crate::opcode::{
    ARG_STORE, HALT, JUMP, JUMP_IF_FALSE, LOCAL_STORE, POP, RETURN_NON_VAL, RETURN_VAL,
};
use crate::symbol::{find_builtin, undeclared_variable, FnInfo, Variable};
use crate::token::{int_value, Token, TokenKind};
use crate::types::{ValueType, MAX_SECURITY};
use vstd::prelude::*;

verus! {

/// The security level written under the cursor: the value of an integer
/// literal, and zero where anything else stands there.
pub open spec fn security_here(tokens: Seq<Token>, st: State) -> i64 {
    if kind(tokens, st) == TokenKind::Int {
        int_value(text(tokens, st))
    } else {
        0
    }
}

/// The type of a parameter whose type keyword has the kind `k`. A parameter
/// without a readable type counts as an integer.
pub open spec fn param_type(k: TokenKind) -> ValueType {
    match k.spec_value_type() {
        Some(ty) => ty,
        None => ValueType::Int,
    }
}

/// The security level that the annotation under the cursor gives: a type,
/// a colon and the level.
pub open spec fn annotated_security(tokens: Seq<Token>, st: State) -> i64 {
    security_here(
        tokens,
        expect(tokens, expect(tokens, st, Expectation::VarType), Expectation::Colon),
    )
}

/// The annotation of a declaration and the `=` behind it: a type, a colon,
/// a security level between zero and the maximum, and `=`.
pub open spec fn annotation(tokens: Seq<Token>, st: State) -> State {
    let s1 = expect(tokens, expect(tokens, st, Expectation::VarType), Expectation::Colon);
    let security = security_here(tokens, s1);
    let s2 = if security > MAX_SECURITY {
        report(tokens, s1, DiagnosticKind::SecurityAboveMaximum(security))
    } else if security < 0 {
        report(tokens, s1, DiagnosticKind::SecurityBelowMinimum(security))
    } else {
        s1
    };
    expect(tokens, expect(tokens, s2, Expectation::Integer), Expectation::Equal)
}

/// A declaration: `let`, a new name, its annotation, `=`, and the expression
/// that gives its first value, which may be no more secret than the
/// variable. The variable gets the next free slot.
pub open spec fn var_dec(tokens: Seq<Token>, st: State) -> State {
    let s1 = expect(tokens, st, Expectation::Let);
    let name = text(tokens, s1);
    let s2 = expect(
        tokens,
        report_if(tokens, s1, s1.vars.contains_key(name), DiagnosticKind::AlreadyDeclared),
        Expectation::Identifier,
    );
    let declared = kind(tokens, s2).spec_value_type();
    let s3 = State { next_slot: s2.next_slot + 1, ..s2 };
    let security = annotated_security(tokens, s3);
    let s4 = expression(
        tokens,
        annotation(tokens, s3),
        match declared {
            Some(ty) => ty,
            None => ValueType::Int,
        },
        security,
    );
    let slot = word_of(s4.next_slot - 1);
    emit2(
        State {
            vars: s4.vars.insert(
                name,
                Variable {
                    slot,
                    ty: match declared {
                        Some(ty) => ty,
                        None => ValueType::Unknown,
                    },
                    security,
                    is_arg: false,
                    depth: s4.depth as usize,
                    owner: s4.current_fn as usize,
                },
            ),
            ..s4
        },
        LOCAL_STORE,
        slot,
    )
}

/// What holds of the result `to` of compiling the declaration that begins
/// under the cursor of `st`, with `let`: a name that is in sight is reported
/// as declared already, and a name that is not in sight is not. Either way
/// the name then stands for a new variable of the current block, in a slot
/// that no variable of the function had before.
pub open spec fn declaration_is_checked(tokens: Seq<Token>, st: State, to: State) -> bool {
    let name_token = st.cursor + 1;
    let name = tokens[name_token].text@;
    let first = st.diagnostics.len() as int;
    &&& st.vars.contains_key(name) ==> to.error && first < to.diagnostics.len()
        && to.diagnostics[first] == (Diagnostic {
        kind: DiagnosticKind::AlreadyDeclared,
        line: tokens[name_token].line,
        token: name_token as usize,
    })
    &&& !st.vars.contains_key(name) ==> kind_absent(
        to.diagnostics,
        first,
        DiagnosticKind::AlreadyDeclared,
    )
    &&& to.next_slot == st.next_slot + 1
    &&& to.vars.contains_key(name)
    &&& to.vars[name].slot == word_of(st.next_slot)
    &&& !to.vars[name].is_arg
    &&& to.vars[name].depth == st.depth
    &&& to.vars[name].owner == st.current_fn
}

/// What holds of the variables in sight behind a block that was entered in
/// the state `st`: none of them was declared in the block.
pub open spec fn scope_is_closed(st: State, to: State) -> bool {
    forall|name: Seq<char>| #[trigger]
        to.vars.contains_key(name) ==> !(to.vars[name].owner == st.current_fn
            && to.vars[name].depth == st.depth + 1)
}

/// An assignment: a variable in sight, `=`, and an expression of the
/// variable's type that is no more secret than the variable.
pub open spec fn var_def(tokens: Seq<Token>, st: State) -> State {
    let name = text(tokens, st);
    let s1 = expect(tokens, expect(tokens, st, Expectation::Identifier), Expectation::Equal);
    let declared = s1.vars.contains_key(name);
    let v = if declared {
        s1.vars[name]
    } else {
        undeclared_variable()
    };
    let s2 = if declared {
        s1
    } else {
        report_quoting(tokens, s1, DiagnosticKind::UndeclaredVariable, st.cursor)
    };
    let s3 = if v.depth > s2.depth {
        report_quoting(tokens, s2, DiagnosticKind::OutOfScope, st.cursor)
    } else {
        s2
    };
    emit2(
        expression(tokens, s3, v.ty, v.security),
        if v.is_arg {
            ARG_STORE
        } else {
            LOCAL_STORE
        },
        v.slot,
    )
}

/// A call that stands as a statement. The function must be declared and
/// return nothing.
pub open spec fn fn_call(tokens: Seq<Token>, st: State) -> State {
    let name = text(tokens, st);
    if st.fns.contains_key(name) {
        let f = st.fns[name];
        call(
            tokens,
            report_if(tokens, st, f.returns != ValueType::Void, DiagnosticKind::CallNotVoid),
            f.address,
            f.params,
        )
    } else {
        call(tokens, report(tokens, st, DiagnosticKind::UnknownFunction), 0, Seq::empty())
    }
}

/// The code that gives up the first `n` local slots, the highest first.
pub open spec fn pops(st: State, n: int) -> State
    decreases n,
{
    if n <= 0 {
        st
    } else {
        pops(emit2(st, POP, word_of(n - 1)), n - 1)
    }
}

/// The function that the cursor is inside of, if it is declared.
pub open spec fn current_function(tokens: Seq<Token>, st: State) -> Option<FnInfo> {
    let name = tokens[st.current_fn].text@;
    if st.fns.contains_key(name) {
        Some(st.fns[name])
    } else {
        None
    }
}

/// A `return`. A function returns the value of an expression of its type,
/// no more secret than its declared level; a procedure returns nothing, and
/// `main` halts the machine. Whatever it returns, the code first gives up
/// every local slot of the function.
pub open spec fn return_statement(tokens: Seq<Token>, st: State) -> State {
    let s1 = expect(tokens, st, Expectation::Return);
    let s2 = if s1.depth == 1 {
        State { returns: s1.returns + 1, ..s1 }
    } else {
        s1
    };
    let f = current_function(tokens, s2);
    if kind(tokens, s2) != TokenKind::SemiColon {
        let s3 = match f {
            Some(f) => if f.returns != ValueType::Void {
                expression(tokens, s2, f.returns, f.security)
            } else {
                report(tokens, s2, DiagnosticKind::ReturnValueFromVoid)
            },
            None => expression(tokens, s2, ValueType::Int, 0),
        };
        emit(pops(s3, s3.next_slot), RETURN_VAL)
    } else {
        let s3 = report_if(
            tokens,
            s2,
            f is Some && f->0.returns != ValueType::Void,
            DiagnosticKind::MissingReturnValue,
        );
        emit(
            pops(s3, s3.next_slot),
            if tokens[s3.current_fn].text@ == "main"@ {
                HALT
            } else {
                RETURN_NON_VAL
            },
        )
    }
}

/// A `break`: a jump whose target awaits the address of the loop's exit.
pub open spec fn break_statement(tokens: Seq<Token>, st: State) -> State {
    let s1 = emit2(expect(tokens, st, Expectation::Break), JUMP, 0);
    State { breaks: s1.breaks.push(s1.code.len() - 1), ..s1 }
}

/// Whether the variable `v` was declared by the block that the cursor of
/// `st` is about to leave.
pub open spec fn leaves(st: State, v: Variable) -> bool {
    v.owner == st.current_fn && v.depth == st.depth
}

/// The variables that stay in sight when a block is left.
pub open spec fn purge(st: State) -> State {
    State {
        vars: Map::new(
            |name: Seq<char>| st.vars.contains_key(name) && !leaves(st, st.vars[name]),
            |name: Seq<char>| st.vars[name],
        ),
        ..st
    }
}

/// A block: statements in curly brackets. The variables it declares are in
/// sight until it closes.
pub open spec fn block(tokens: Seq<Token>, st: State) -> State
    decreases remaining(tokens, st), 1nat,
{
    let s1 = expect(tokens, st, Expectation::LeftCurly);
    let s2 = State { depth: s1.depth + 1, ..s1 };
    let s3 = if moved(tokens, st, s2) {
        statements(tokens, s2)
    } else {
        s2
    };
    let s4 = purge(expect(tokens, s3, Expectation::RightCurly));
    State { depth: s4.depth - 1, ..s4 }
}

/// Statements up to the closing bracket of their block, or to the end of the
/// input.
pub open spec fn statements(tokens: Seq<Token>, st: State) -> State
    decreases remaining(tokens, st), 5nat,
{
    if at_end(tokens, st) || kind(tokens, st) == TokenKind::RightCurly {
        st
    } else {
        let s1 = statement(tokens, st);
        if moved(tokens, st, s1) {
            statements(tokens, s1)
        } else {
            s1
        }
    }
}

/// One statement, told from its first token, which is not the last of the
/// input. A name begins a call where a parenthesis follows it and an
/// assignment where anything else does.
pub open spec fn statement(tokens: Seq<Token>, st: State) -> State
    decreases remaining(tokens, st), 4nat,
{
    match kind(tokens, st) {
        TokenKind::Let => expect(tokens, var_dec(tokens, st), Expectation::SemiColon),
        TokenKind::Identifier => if tokens[st.cursor + 1].kind != TokenKind::LeftParenthesis {
            expect(tokens, var_def(tokens, st), Expectation::SemiColon)
        } else {
            match find_builtin(st.builtins, text(tokens, st)) {
                Some(b) => expect(
                    tokens,
                    sl_use(
                        tokens,
                        report_if(
                            tokens,
                            st,
                            st.builtins[b].returns != ValueType::Void,
                            DiagnosticKind::CallNotVoid,
                        ),
                        ValueType::Void,
                    ),
                    Expectation::SemiColon,
                ),
                None => expect(tokens, fn_call(tokens, st), Expectation::SemiColon),
            }
        },
        TokenKind::If => if_statement(tokens, st, Seq::empty()),
        TokenKind::While => while_statement(tokens, st),
        TokenKind::Break => expect(
            tokens,
            break_statement(
                tokens,
                report_if(tokens, st, st.loop_depth == 0, DiagnosticKind::BreakOutsideLoop),
            ),
            Expectation::SemiColon,
        ),
        TokenKind::Return => expect(tokens, return_statement(tokens, st), Expectation::SemiColon),
        _ => consume(tokens, report(tokens, st, DiagnosticKind::UnknownStatement)),
    }
}

/// The head of an `if` or a `while`: the keyword, the condition, and a jump
/// over the body, taken where the condition fails, whose target awaits its
/// address in the last word of the code. No ceiling is laid on a condition.
pub open spec fn condition(tokens: Seq<Token>, st: State, keyword: Expectation) -> State {
    let s1 = expect(tokens, st, keyword);
    emit2(expression(tokens, s1, derived_type(tokens, s1), MAX_SECURITY), JUMP_IF_FALSE, 0)
}

/// One conditional branch of a chain: `if`, the condition, and the block;
/// then a jump to the end of the chain, whose target awaits its address in
/// the last word of the code. The jump over the block leads to just behind
/// that jump.
pub open spec fn branch(tokens: Seq<Token>, st: State) -> State
    decreases remaining(tokens, st), 2nat,
{
    let s1 = condition(tokens, st, Expectation::If);
    if !stayed(st, s1) {
        s1
    } else {
        let s2 = emit2(block(tokens, s1), JUMP, 0);
        patch(s2, s1.code.len() - 1, s2.code.len() as int)
    }
}

/// A chain of `if`, `else if` and `else`, from one of its `if`s on. `ends`
/// holds the targets of the jumps to the end of the chain that the branches
/// before this one have emitted; all get the address of the end when it is
/// reached.
pub open spec fn if_statement(tokens: Seq<Token>, st: State, ends: Seq<int>) -> State
    decreases remaining(tokens, st), 3nat,
{
    let s1 = branch(tokens, st);
    let all = ends.push(s1.code.len() - 1);
    if kind(tokens, s1) != TokenKind::Else {
        patch_all(s1, all, s1.code.len() as int)
    } else {
        let s2 = expect(tokens, s1, Expectation::Else);
        if !moved(tokens, st, s2) {
            s2
        } else if kind(tokens, s2) == TokenKind::LeftCurly {
            let s3 = block(tokens, s2);
            patch_all(s3, all, s3.code.len() as int)
        } else {
            if_statement(tokens, s2, all)
        }
    }
}

/// Where a conditional branch of a chain lies in the code.
pub struct Branch {
    /// The address at which the branch begins, with the code of its
    /// condition.
    pub head: int,
    /// The position of the target of the jump that skips the block where the
    /// condition fails.
    pub skip: int,
    /// The position of the target of the jump that leaves the chain behind
    /// the block.
    pub jump: int,
}

/// Where the branch that begins under the cursor lies in the code.
pub open spec fn branch_layout(tokens: Seq<Token>, st: State) -> Branch {
    Branch {
        head: st.code.len() as int,
        skip: condition(tokens, st, Expectation::If).code.len() - 1,
        jump: branch(tokens, st).code.len() - 1,
    }
}

/// The conditional branches of the chain that begins under the cursor, in
/// the order of the source: the `if` and every `else if`.
pub open spec fn if_branches(tokens: Seq<Token>, st: State) -> Seq<Branch>
    decreases remaining(tokens, st),
{
    let s1 = branch(tokens, st);
    let s2 = expect(tokens, s1, Expectation::Else);
    if kind(tokens, s1) == TokenKind::Else && kind(tokens, s2) != TokenKind::LeftCurly && moved(
        tokens,
        st,
        s2,
    ) {
        seq![branch_layout(tokens, st)] + if_branches(tokens, s2)
    } else {
        seq![branch_layout(tokens, st)]
    }
}

/// What holds of the code of one branch: the jump over its block leads to
/// just behind the branch, where a jump awaits the end of the chain.
pub open spec fn branch_is_closed(b: Branch, code: Seq<i64>) -> bool {
    &&& 0 <= b.head < b.skip < b.jump - 1
    &&& b.jump < code.len()
    &&& code[b.skip - 1] == JUMP_IF_FALSE
    &&& code[b.skip] == word_of(b.jump + 1)
    &&& code[b.jump - 1] == JUMP
}

/// What holds of the code `code` of a chain of conditional branches that was
/// compiled from the state `st`: each branch begins where the one before it
/// ends; where the condition of a branch fails, the jump over its block
/// leads to just behind the branch, which is the head of the next branch,
/// the `else` block, or the end of the chain; and behind its block every
/// branch jumps to the end of the chain. So one block of the chain runs at
/// most, and with a closing `else` exactly one.
pub open spec fn chain_is_linked(tokens: Seq<Token>, st: State, code: Seq<i64>) -> bool {
    let branches = if_branches(tokens, st);
    &&& branches.len() > 0
    &&& branches[0].head == st.code.len()
    &&& forall|i: int|
        0 <= i < branches.len() ==> branch_is_closed(#[trigger] branches[i], code)
            && code[branches[i].jump] == word_of(code.len() as int)
    &&& forall|i: int|
        0 <= i < branches.len() - 1 ==> (#[trigger] branches[i + 1]).head == branches[i].jump + 1
}

/// The state behind the body of the `while` loop that begins under the
/// cursor. Its `breaks` are the targets of the `break`s of the loop.
pub open spec fn loop_body(tokens: Seq<Token>, st: State) -> State {
    let s1 = condition(tokens, st, Expectation::While);
    block(tokens, State { loop_depth: s1.loop_depth + 1, breaks: Seq::empty(), ..s1 })
}

/// What holds of the code `code` of a `while` loop that was compiled from
/// the state `st`: the loop ends with a jump back to the address at which it
/// began, and the jump over the body and the jump of every `break` in the
/// body lead to the address just behind the loop.
pub open spec fn loop_is_closed(tokens: Seq<Token>, st: State, code: Seq<i64>) -> bool {
    let head = st.code.len() as int;
    let skip = condition(tokens, st, Expectation::While).code.len() - 1;
    let breaks = loop_body(tokens, st).breaks;
    let exit = code.len() as int;
    &&& head < skip < exit - 2
    &&& code[exit - 2] == JUMP
    &&& code[exit - 1] == word_of(head)
    &&& code[skip - 1] == JUMP_IF_FALSE
    &&& code[skip] == word_of(exit)
    &&& forall|i: int|
        0 <= i < breaks.len() ==> skip < (#[trigger] breaks[i]) < exit - 2 && code[breaks[i]]
            == word_of(exit)
}

/// A `while` loop: the condition, the body, and a jump back to the
/// condition. The jump over the body and every `break` in the body lead to
/// just behind the jump back.
pub open spec fn while_statement(tokens: Seq<Token>, st: State) -> State
    decreases remaining(tokens, st), 3nat,
{
    let head = st.code.len();
    let s1 = condition(tokens, st, Expectation::While);
    if !stayed(st, s1) {
        s1
    } else {
        let skip = s1.code.len() - 1;
        let s2 = block(
            tokens,
            State { loop_depth: s1.loop_depth + 1, breaks: Seq::empty(), ..s1 },
        );
        let s3 = emit2(State { loop_depth: s2.loop_depth - 1, ..s2 }, JUMP, word_of(head as int));
        let exit = s3.code.len() as int;
        State { breaks: s1.breaks, ..patch_all(patch(s3, skip, exit), s2.breaks, exit) }
    }
}

} // verus!
