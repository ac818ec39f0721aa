//! What the model keeps: proofs about the productions themselves.
//!
//! Each production takes a state that is valid for the input to a state that
//! is valid for it, and keeps of the first what a production has to keep.
//! On such a state no repetition of the model stops short: wherever the
//! model tests that the cursor has moved, it has.
//!
//! `count` and `address` show that the first pass counts the words that the
//! code generator emits where it reports nothing, and `scope` what a block
//! does to the variables in sight.

pub mod address;
pub mod chain;
pub mod count;
pub mod expression;
pub mod program;
pub mod scope;
pub mod statement;

use crate::diagnostic::Expectation;
use crate::model::state::{
    accepts, at_end, counted, expect, extends, extends_evenly, kind, valid, State,
};
use crate::token::Token;
use vstd::prelude::*;

verus! {

/// The state is valid for the input and its counters are in step with its
/// cursor.
pub open spec fn sound(tokens: Seq<Token>, st: State) -> bool {
    valid(tokens, st) && counted(st)
}

/// What an expression makes of a sound state: a sound state that keeps of
/// the first what an expression has to keep.
pub open spec fn kept(tokens: Seq<Token>, from: State, to: State) -> bool {
    sound(tokens, to) && extends_evenly(from, to)
}

/// A matcher keeps the state but for the cursor and its report. It passes
/// over the token under the cursor unless that is the last.
pub proof fn lemma_expect(tokens: Seq<Token>, st: State, wanted: Expectation)
    requires
        valid(tokens, st),
    ensures
        valid(tokens, expect(tokens, st, wanted)),
        extends_evenly(st, expect(tokens, st, wanted)),
        accepts(wanted, kind(tokens, st)) ==> expect(tokens, st, wanted).diagnostics
            == st.diagnostics,
        expect(tokens, st, wanted).code == st.code,
        expect(tokens, st, wanted).vars == st.vars,
        expect(tokens, st, wanted).cursor == st.cursor + (if !at_end(tokens, st) {
            1int
        } else {
            0int
        }),
{
    reveal(expect);
}

/// A token that announces more to come is not the last of the input.
pub proof fn lemma_not_last(tokens: Seq<Token>, st: State)
    requires
        valid(tokens, st),
        !kind(tokens, st).spec_may_end_input(),
    ensures
        !at_end(tokens, st),
{
}

/// The state is valid for the input and its counters are in step with its
/// cursor, but that the depth may be one ahead where the cursor stands on
/// the last token: the state just inside a block.
pub open spec fn sound_inside(tokens: Seq<Token>, st: State) -> bool {
    &&& valid(tokens, st)
    &&& 0 <= st.next_slot <= st.cursor
    &&& 0 <= st.returns <= st.cursor
    &&& 0 <= st.loop_depth <= st.cursor
    &&& 0 <= st.depth
    &&& at_end(tokens, st) || st.depth <= st.cursor
}

/// What a statement makes of a sound state: a sound state that keeps of the
/// first what a production has to keep.
pub open spec fn held(tokens: Seq<Token>, from: State, to: State) -> bool {
    sound(tokens, to) && extends(from, to)
}

} // verus!
