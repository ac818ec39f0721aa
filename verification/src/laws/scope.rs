//! Laws of the scopes: declarations and the blocks that hold them.

use crate::model::state::{at_end, kind, State};
use crate::model::statement::{
    block, declaration_is_checked, leaves, purge, scope_is_closed, var_dec,
};
use crate::theory::scope::{lemma_block_scope, outer_stays, sight_is_kept};
use crate::theory::sound;
use crate::theory::statement::{lemma_block, lemma_var_dec};
use crate::token::{Token, TokenKind};
use vstd::prelude::*;

verus! {

/// The declaration of a name that is in sight is reported and the
/// compilation has failed; the declaration of a name that is not in sight,
/// be it because the block that declared it has closed, is not reported.
/// Either way the name stands for a new variable in a slot of its own.
pub proof fn law_declaration_is_checked(tokens: Seq<Token>, st: State)
    requires
        sound(tokens, st),
        !at_end(tokens, st),
        kind(tokens, st) == TokenKind::Let,
    ensures
        declaration_is_checked(tokens, st, var_dec(tokens, st)),
{
    lemma_var_dec(tokens, st);
}

/// Behind a block none of the variables that it declared is in sight.
pub proof fn law_block_leaves_nothing_in_sight(tokens: Seq<Token>, st: State)
    requires
        sound(tokens, st),
    ensures
        scope_is_closed(st, block(tokens, st)),
{
    lemma_block(tokens, st);
}

/// A block gives back the scope that it found. Behind it the depth and the
/// function are those before it. Every variable in sight behind it was in
/// sight before it and is what it was, so a name that was free before the
/// block is free behind it, whatever the block declared. A variable of the
/// blocks around it stays in sight and is what it was, unless a declaration
/// inside the block names it again. And the next free slot is not below the
/// one before the block: a slot that the block handed out is not handed out
/// again.
pub proof fn law_block_restores_its_scope(tokens: Seq<Token>, st: State)
    requires
        sound(tokens, st),
    ensures
        block(tokens, st).depth == st.depth,
        block(tokens, st).current_fn == st.current_fn,
        st.next_slot <= block(tokens, st).next_slot,
        sight_is_kept(st, block(tokens, st)),
        outer_stays(tokens, st, block(tokens, st)),
{
    lemma_block(tokens, st);
    lemma_block_scope(tokens, st);
}

/// When a block closes, the variables it declared go out of sight, and the
/// others stay as they were.
pub proof fn law_block_closes_its_scope(st: State, name: Seq<char>)
    ensures
        purge(st).vars.contains_key(name) <==> st.vars.contains_key(name) && !leaves(
            st,
            st.vars[name],
        ),
        purge(st).vars.contains_key(name) ==> purge(st).vars[name] == st.vars[name],
{
}

} // verus!
