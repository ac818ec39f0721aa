//! The state of a compilation and the elementary steps on it.

use crate::diagnostic::{Diagnostic, DiagnosticKind, Expectation};
use crate::symbol::{Builtin, FnInfo, Variable};
use crate::token::{well_formed, Token, TokenKind};
use vstd::prelude::*;

verus! {

/// Everything the compiler knows at one moment.
pub struct State {
    /// The index of the token under the cursor.
    pub cursor: int,
    /// The instruction buffer.
    pub code: Seq<i64>,
    /// Whether a problem has been reported. Once set it stays set.
    pub error: bool,
    /// The problems reported, oldest first.
    pub diagnostics: Seq<Diagnostic>,
    /// The variables in sight.
    pub vars: Map<Seq<char>, Variable>,
    /// The declared functions.
    pub fns: Map<Seq<char>, FnInfo>,
    /// The built-in functions.
    pub builtins: Seq<Builtin>,
    /// The number of local slots handed out in the current function. Slots
    /// are numbered from zero and never handed out twice, so the slots in use
    /// are exactly those below this number.
    pub next_slot: int,
    /// The current function, by the index of the token that names it.
    pub current_fn: int,
    /// The number of `return` statements met at the top level of the body of
    /// the current function.
    pub returns: int,
    /// The number of blocks the cursor is inside of.
    pub depth: int,
    /// The number of loops the cursor is inside of.
    pub loop_depth: int,
    /// The positions in `code` of the targets of the `break`s met in the
    /// innermost loop. Each awaits the address of the loop's exit.
    pub breaks: Seq<int>,
}

/// The state in which a compilation starts.
pub open spec fn initial_state(builtins: Seq<Builtin>) -> State {
    State {
        cursor: 0,
        code: Seq::empty(),
        error: false,
        diagnostics: Seq::empty(),
        vars: Map::empty(),
        fns: Map::empty(),
        builtins,
        next_slot: 0,
        current_fn: 0,
        returns: 0,
        depth: 0,
        loop_depth: 0,
        breaks: Seq::empty(),
    }
}

/// Whether the cursor stands on the last token.
pub open spec fn at_end(tokens: Seq<Token>, st: State) -> bool {
    st.cursor + 1 >= tokens.len()
}

/// The token under the cursor.
pub open spec fn current(tokens: Seq<Token>, st: State) -> Token {
    tokens[st.cursor]
}

/// The kind of the token under the cursor.
pub open spec fn kind(tokens: Seq<Token>, st: State) -> TokenKind {
    tokens[st.cursor].kind
}

/// The text of the token under the cursor.
pub open spec fn text(tokens: Seq<Token>, st: State) -> Seq<char> {
    tokens[st.cursor].text@
}

/// Moves the cursor one token on. It never leaves the last token.
pub open spec fn consume(tokens: Seq<Token>, st: State) -> State {
    if at_end(tokens, st) {
        st
    } else {
        State { cursor: st.cursor + 1, ..st }
    }
}

/// Whether the cursor of `to` is further on than that of `from`, which was
/// inside the input. A production repeats while this holds of each round.
pub open spec fn moved(tokens: Seq<Token>, from: State, to: State) -> bool {
    0 <= from.cursor < to.cursor && from.cursor < tokens.len()
}

/// Whether the cursor of `to` is not behind that of `from`.
pub open spec fn stayed(from: State, to: State) -> bool {
    0 <= from.cursor <= to.cursor
}

/// The distance from the cursor to the end of the input.
pub open spec fn remaining(tokens: Seq<Token>, st: State) -> nat {
    if 0 <= st.cursor < tokens.len() {
        (tokens.len() - st.cursor) as nat
    } else {
        0
    }
}

/// Appends one word to the code.
pub open spec fn emit(st: State, word: i64) -> State {
    State { code: st.code.push(word), ..st }
}

/// Appends an instruction with one operand.
pub open spec fn emit2(st: State, opcode: i64, operand: i64) -> State {
    emit(emit(st, opcode), operand)
}

/// Appends an instruction with two operands.
pub open spec fn emit3(st: State, opcode: i64, first: i64, second: i64) -> State {
    emit(emit(emit(st, opcode), first), second)
}

/// A position or a count as the word that is written into the code.
pub open spec fn word_of(number: int) -> i64 {
    number as usize as i64
}

/// The code with the address `target` written at each of `slots`.
pub open spec fn patched(code: Seq<i64>, slots: Seq<int>, target: int) -> Seq<i64>
    decreases slots.len(),
{
    if slots.len() == 0 {
        code
    } else {
        let before = patched(code, slots.drop_last(), target);
        if 0 <= slots.last() < before.len() {
            before.update(slots.last(), word_of(target))
        } else {
            before
        }
    }
}

/// Writes the address `target` into the code at `slot`.
pub open spec fn patch(st: State, slot: int, target: int) -> State {
    if 0 <= slot < st.code.len() {
        State { code: st.code.update(slot, word_of(target)), ..st }
    } else {
        st
    }
}

/// Writes the address `target` into the code at each of `slots`.
pub open spec fn patch_all(st: State, slots: Seq<int>, target: int) -> State {
    State { code: patched(st.code, slots, target), ..st }
}

/// Patching writes the address at each of the slots and leaves the other
/// words of the code as they were.
pub proof fn lemma_patched(code: Seq<i64>, slots: Seq<int>, target: int)
    requires
        all_below(slots, code.len() as int),
    ensures
        patched(code, slots, target).len() == code.len(),
        forall|i: int|
            0 <= i < slots.len() ==> patched(code, slots, target)[#[trigger] slots[i]] == word_of(
                target,
            ),
        forall|k: int|
            0 <= k < code.len() && !slots.contains(k) ==> #[trigger] patched(
                code,
                slots,
                target,
            )[k] == code[k],
    decreases slots.len(),
{
    if slots.len() > 0 {
        let front = slots.drop_last();
        lemma_patched(code, front, target);
        assert forall|k: int|
            0 <= k < code.len() && !slots.contains(k) implies #[trigger] patched(
            code,
            slots,
            target,
        )[k] == code[k] by {
            assert(k != slots.last()) by {
                assert(slots[slots.len() - 1] == slots.last());
            }
            if front.contains(k) {
                let j = choose|j: int| 0 <= j < front.len() && front[j] == k;
                assert(slots[j] == k);
            }
        }
        assert forall|i: int| 0 <= i < slots.len() implies patched(code, slots, target)[
        #[trigger] slots[i]] == word_of(target) by {
            if i < slots.len() - 1 {
                assert(front[i] == slots[i]);
            }
        }
    }
}

/// Reports a problem with the line of the token under the cursor, quoting the
/// token at `quoted`.
pub open spec fn report_quoting(
    tokens: Seq<Token>,
    st: State,
    problem: DiagnosticKind,
    quoted: int,
) -> State {
    State {
        error: true,
        diagnostics: st.diagnostics.push(
            Diagnostic {
                kind: problem,
                line: tokens[st.cursor].line,
                token: quoted as usize,
            },
        ),
        ..st
    }
}

/// Reports a problem at the token under the cursor.
pub open spec fn report(tokens: Seq<Token>, st: State, problem: DiagnosticKind) -> State {
    report_quoting(tokens, st, problem, st.cursor)
}

/// Reports a problem that has no line, quoting the token at `quoted`.
pub open spec fn report_unplaced(st: State, problem: DiagnosticKind, quoted: int) -> State {
    State {
        error: true,
        diagnostics: st.diagnostics.push(
            Diagnostic { kind: problem, line: 0, token: quoted as usize },
        ),
        ..st
    }
}

/// Reports `problem` at the token under the cursor if `failed` holds.
pub open spec fn report_if(
    tokens: Seq<Token>,
    st: State,
    failed: bool,
    problem: DiagnosticKind,
) -> State {
    if failed {
        report(tokens, st, problem)
    } else {
        st
    }
}

/// Whether a token of kind `found` is what `wanted` looks for.
pub open spec fn accepts(wanted: Expectation, found: TokenKind) -> bool {
    match wanted {
        Expectation::LeftCurly => found == TokenKind::LeftCurly,
        Expectation::RightCurly => found == TokenKind::RightCurly,
        Expectation::Fn => found == TokenKind::Fn,
        Expectation::FnType => found.spec_value_type() is Some || found == TokenKind::Void,
        Expectation::SemiColon => found == TokenKind::SemiColon,
        Expectation::Let => found == TokenKind::Let,
        Expectation::Identifier => found == TokenKind::Identifier,
        Expectation::VarType => found.spec_value_type() is Some,
        Expectation::Colon => found == TokenKind::Colon,
        Expectation::Integer => found == TokenKind::Int,
        Expectation::Float => found == TokenKind::Float,
        Expectation::Equal => found == TokenKind::Equal,
        Expectation::LeftParenthesis => found == TokenKind::LeftParenthesis,
        Expectation::RightParenthesis => found == TokenKind::RightParenthesis,
        Expectation::Comma => found == TokenKind::Comma,
        Expectation::Return => found == TokenKind::Return,
        Expectation::If => found == TokenKind::If,
        Expectation::Else => found == TokenKind::Else,
        Expectation::While => found == TokenKind::While,
        Expectation::Break => found == TokenKind::Break,
    }
}

/// A matcher: passes over the token under the cursor, and reports it where
/// it is not what `wanted` looks for.
#[verifier::opaque]
pub open spec fn expect(tokens: Seq<Token>, st: State, wanted: Expectation) -> State {
    if accepts(wanted, kind(tokens, st)) {
        consume(tokens, st)
    } else {
        consume(tokens, report(tokens, st, DiagnosticKind::Expected(wanted)))
    }
}

/// The positions that `slots` holds, as numbers.
pub open spec fn positions(slots: Seq<usize>) -> Seq<int> {
    Seq::new(slots.len(), |i: int| slots[i] as int)
}

/// Whether each of `slots` is a position below `bound`.
pub open spec fn all_below(slots: Seq<int>, bound: int) -> bool {
    forall|i: int| 0 <= i < slots.len() ==> 0 <= (#[trigger] slots[i]) < bound
}

/// What holds of the state throughout a compilation of `tokens`: the input
/// is one that the compiler takes and that a machine can hold, the cursor
/// and the current function are tokens of it, and every target that awaits
/// an address lies in the code.
pub open spec fn valid(tokens: Seq<Token>, st: State) -> bool {
    &&& well_formed(tokens)
    &&& tokens.len() <= usize::MAX
    &&& 0 <= st.cursor < tokens.len()
    &&& 0 <= st.current_fn < tokens.len()
    &&& all_below(st.breaks, st.code.len() as int)
}

/// Each counter of the state has grown by at most one for each token that
/// the cursor has passed.
pub open spec fn counted(st: State) -> bool {
    &&& 0 <= st.next_slot <= st.cursor
    &&& 0 <= st.returns <= st.cursor
    &&& 0 <= st.depth <= st.cursor
    &&& 0 <= st.loop_depth <= st.cursor
}

/// Whether `whole` begins with `part`.
pub open spec fn begins<T>(whole: Seq<T>, part: Seq<T>) -> bool {
    &&& part.len() <= whole.len()
    &&& forall|i: int|
        #![trigger whole[i]]
        #![trigger part[i]]
        0 <= i < part.len() ==> whole[i] == part[i]
}

/// Whether each of `slots` from position `first` on is at least `bound`.
pub open spec fn all_from(slots: Seq<int>, first: int, bound: int) -> bool {
    forall|i: int| first <= i < slots.len() ==> bound <= #[trigger] slots[i]
}

/// What every production keeps of the state it starts from: the cursor does
/// not go back, a reported problem stays reported, and what the code held
/// stays where it was. A production writes only behind the code it found.
pub open spec fn extends(from: State, to: State) -> bool {
    &&& from.cursor <= to.cursor
    &&& from.error ==> to.error
    &&& begins(to.diagnostics, from.diagnostics)
    &&& begins(to.code, from.code)
    &&& to.builtins == from.builtins
    &&& to.fns == from.fns
    &&& to.current_fn == from.current_fn
    &&& to.depth == from.depth
    &&& to.loop_depth == from.loop_depth
    &&& from.next_slot <= to.next_slot
    &&& from.returns <= to.returns
    &&& begins(to.breaks, from.breaks)
    &&& all_from(to.breaks, from.breaks.len() as int, from.code.len() as int)
}

/// What every part of a compilation keeps of the state it starts from: a
/// reported problem stays reported, and what the code held stays where it
/// was.
pub open spec fn grows(from: State, to: State) -> bool {
    &&& from.error ==> to.error
    &&& begins(to.diagnostics, from.diagnostics)
    &&& begins(to.code, from.code)
    &&& to.builtins == from.builtins
    &&& to.depth == from.depth
    &&& to.loop_depth == from.loop_depth
}

/// Whether the functions `to` are the functions `from`, but that more of them
/// may have been met by the code generator: no function is forgotten or
/// added, and none changes its address or its signature.
pub open spec fn annotates(from: Map<Seq<char>, FnInfo>, to: Map<Seq<char>, FnInfo>) -> bool {
    &&& forall|name: Seq<char>| from.contains_key(name) <==> #[trigger] to.contains_key(name)
    &&& forall|name: Seq<char>| #[trigger]
        from.contains_key(name) ==> to[name] == (FnInfo {
            defined: to[name].defined,
            ..from[name]
        }) && (from[name].defined ==> to[name].defined)
}

/// Functions that were annotated twice were annotated.
pub proof fn lemma_annotates_twice(
    a: Map<Seq<char>, FnInfo>,
    b: Map<Seq<char>, FnInfo>,
    c: Map<Seq<char>, FnInfo>,
)
    requires
        annotates(a, b),
        annotates(b, c),
    ensures
        annotates(a, c),
{
    assert forall|name: Seq<char>| a.contains_key(name) <==> #[trigger] c.contains_key(name) by {
        assert(a.contains_key(name) <==> b.contains_key(name));
    }
    assert forall|name: Seq<char>| #[trigger] a.contains_key(name) implies c[name] == (FnInfo {
        defined: c[name].defined,
        ..a[name]
    }) && (a[name].defined ==> c[name].defined) by {
        assert(b.contains_key(name));
    }
}

/// What a part of a compilation that only reads declarations keeps of the
/// state it starts from: everything but the cursor, the reports, and the
/// variables and functions it declares.
pub open spec fn declares(from: State, to: State) -> bool {
    &&& to == State {
        cursor: to.cursor,
        error: to.error,
        diagnostics: to.diagnostics,
        vars: to.vars,
        fns: to.fns,
        ..from
    }
    &&& from.cursor <= to.cursor
    &&& from.error ==> to.error
    &&& begins(to.diagnostics, from.diagnostics)
}

/// Whether no report of `reports` from position `first` on is of the kind
/// `problem`.
pub open spec fn kind_absent(
    reports: Seq<Diagnostic>,
    first: int,
    problem: DiagnosticKind,
) -> bool {
    forall|i: int| first <= i < reports.len() ==> (#[trigger] reports[i]).kind != problem
}

/// What an expression keeps of the state it starts from: all that a
/// production keeps, and the variables, the counters and the waiting targets
/// as they were. An expression declares nothing and holds no statement, so
/// it reports no redeclaration and no `break` outside a loop.
pub open spec fn extends_evenly(from: State, to: State) -> bool {
    &&& extends(from, to)
    &&& to.vars == from.vars
    &&& to.next_slot == from.next_slot
    &&& to.returns == from.returns
    &&& to.breaks == from.breaks
    &&& kind_absent(
        to.diagnostics,
        from.diagnostics.len() as int,
        DiagnosticKind::AlreadyDeclared,
    )
    &&& kind_absent(
        to.diagnostics,
        from.diagnostics.len() as int,
        DiagnosticKind::BreakOutsideLoop,
    )
}

} // verus!
