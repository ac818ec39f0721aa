//! Chains of conditional branches.

use crate::model::state::{
    all_below, all_from, begins, extends, lemma_patched, patch_all, patched, word_of, State,
};
use crate::model::statement::{branch_is_closed, Branch};
use crate::theory::{held, sound};
use crate::token::Token;
use vstd::prelude::*;

verus! {

/// What holds while a chain is being compiled: every branch so far is
/// closed, begins where the one before it ends, and its jump to the end of
/// the chain is one of `ends`.
pub open spec fn chain_so_far(
    start: State,
    linked: Seq<Branch>,
    ends: Seq<int>,
    code: Seq<i64>,
) -> bool {
    &&& linked.len() == ends.len()
    &&& linked.len() > 0 ==> linked[0].head == start.code.len()
    &&& forall|i: int|
        0 <= i < linked.len() ==> branch_is_closed(#[trigger] linked[i], code) && linked[i].jump
            == ends[i]
    &&& forall|i: int|
        0 <= i < linked.len() - 1 ==> (#[trigger] linked[i + 1]).head == linked[i].jump + 1
    &&& linked.len() > 0 ==> linked.last().jump < code.len()
}

/// A chain stays what it is when code is added behind it.
pub proof fn lemma_chain_kept(
    start: State,
    linked: Seq<Branch>,
    ends: Seq<int>,
    code: Seq<i64>,
    longer: Seq<i64>,
)
    requires
        chain_so_far(start, linked, ends, code),
        begins(longer, code),
    ensures
        chain_so_far(start, linked, ends, longer),
{
    assert forall|i: int| 0 <= i < linked.len() implies branch_is_closed(
        #[trigger] linked[i],
        longer,
    ) by {
        let b = linked[i];
        assert(branch_is_closed(b, code));
        assert(longer[b.skip - 1] == code[b.skip - 1]);
        assert(longer[b.skip] == code[b.skip]);
        assert(longer[b.jump - 1] == code[b.jump - 1]);
    }
}

/// A chain with one more branch, compiled behind it, is a chain.
pub proof fn lemma_chain_grows(
    start: State,
    linked: Seq<Branch>,
    ends: Seq<int>,
    code: Seq<i64>,
    b: Branch,
    slot: int,
    longer: Seq<i64>,
)
    requires
        chain_so_far(start, linked, ends, code),
        linked.len() == 0 ==> code.len() == start.code.len(),
        linked.len() > 0 ==> linked.last().jump + 1 == code.len(),
        begins(longer, code),
        branch_is_closed(b, longer),
        b.head == code.len(),
        b.jump == longer.len() - 1,
        b.jump == slot,
    ensures
        chain_so_far(start, linked.push(b), ends.push(slot), longer),
{
    lemma_chain_kept(start, linked, ends, code, longer);
    let all = linked.push(b);
    assert forall|i: int| 0 <= i < all.len() implies branch_is_closed(#[trigger] all[i], longer)
        && all[i].jump == ends.push(slot)[i] by {
        if i < linked.len() {
            assert(all[i] == linked[i]);
        }
    }
    assert forall|i: int| 0 <= i < all.len() - 1 implies (#[trigger] all[i + 1]).head
        == all[i].jump + 1 by {
        assert(all[i] == linked[i]);
        if i + 1 < linked.len() {
            assert(all[i + 1] == linked[i + 1]);
        }
    }
}

/// Branches that follow one another in the code lie in the order of their
/// positions.
pub proof fn lemma_ordered(branches: Seq<Branch>)
    requires
        forall|i: int|
            0 <= i < branches.len() ==> (#[trigger] branches[i]).head < branches[i].skip
                < branches[i].jump - 1,
        forall|i: int|
            0 <= i < branches.len() - 1 ==> (#[trigger] branches[i + 1]).head == branches[i].jump
                + 1,
    ensures
        forall|i: int, j: int|
            0 <= i < j < branches.len() ==> (#[trigger] branches[i]).jump < (
            #[trigger] branches[j]).head,
    decreases branches.len(),
{
    if branches.len() > 1 {
        let front = branches.drop_last();
        assert forall|i: int| 0 <= i < front.len() implies (#[trigger] front[i]).head
            < front[i].skip < front[i].jump - 1 by {
            assert(front[i] == branches[i]);
        }
        assert forall|i: int| 0 <= i < front.len() - 1 implies (#[trigger] front[i + 1]).head
            == front[i].jump + 1 by {
            assert(front[i + 1] == branches[i + 1]);
            assert(front[i] == branches[i]);
        }
        lemma_ordered(front);
        let last = branches.len() - 1;
        assert forall|i: int, j: int| 0 <= i < j < branches.len() implies (
        #[trigger] branches[i]).jump < (#[trigger] branches[j]).head by {
            if j < last {
                assert(front[i] == branches[i]);
                assert(front[j] == branches[j]);
            } else {
                let k = last - 1;
                assert(branches[k + 1].head == branches[k].jump + 1);
                if i < k {
                    assert(front[i] == branches[i]);
                    assert(front[k] == branches[k]);
                    assert(front[i].jump < front[k].head);
                }
            }
        }
    }
}

/// Writing the address of the end into the jumps of a chain closes it.
pub proof fn lemma_chain_closes(
    start: State,
    linked: Seq<Branch>,
    ends: Seq<int>,
    code: Seq<i64>,
    target: int,
)
    requires
        chain_so_far(start, linked, ends, code),
        all_below(ends, code.len() as int),
        target == code.len(),
    ensures
        forall|i: int|
            0 <= i < linked.len() ==> branch_is_closed(
                #[trigger] linked[i],
                patched(code, ends, target),
            ) && patched(code, ends, target)[linked[i].jump] == word_of(target),
{
    lemma_patched(code, ends, target);
    assert forall|i: int| 0 <= i < linked.len() implies (#[trigger] linked[i]).head
        < linked[i].skip < linked[i].jump - 1 by {
        assert(branch_is_closed(linked[i], code));
    }
    lemma_ordered(linked);
    let after = patched(code, ends, target);
    assert forall|i: int| 0 <= i < linked.len() implies branch_is_closed(
        #[trigger] linked[i],
        after,
    ) && after[linked[i].jump] == word_of(target) by {
        let b = linked[i];
        assert(branch_is_closed(b, code));
        assert forall|j: int| 0 <= j < ends.len() implies ends[j] != b.skip && ends[j] != b.skip
            - 1 && ends[j] != b.jump - 1 by {
            assert(branch_is_closed(linked[j], code));
            assert(linked[j].jump == ends[j]);
            if j < i {
                assert(linked[j].jump < linked[i].head);
            } else if i < j {
                assert(linked[i].jump < linked[j].head);
            }
        }
        assert(!ends.contains(b.skip));
        assert(!ends.contains(b.skip - 1));
        assert(!ends.contains(b.jump - 1));
        assert(ends[i] == b.jump);
        assert(after[ends[i]] == word_of(target));
    }
}

/// Writing the address of the end into the jumps of a chain links it and
/// keeps what has to be kept.
pub proof fn lemma_chain_ends(
    tokens: Seq<Token>,
    start: State,
    st: State,
    linked: Seq<Branch>,
    ends: Seq<int>,
)
    requires
        sound(tokens, st),
        extends(start, st),
        chain_so_far(start, linked, ends, st.code),
        all_below(ends, st.code.len() as int),
        all_from(ends, 0, start.code.len() as int),
        linked.len() > 0,
    ensures
        held(tokens, start, patch_all(st, ends, st.code.len() as int)),
        ({
            let code = patch_all(st, ends, st.code.len() as int).code;
            &&& linked[0].head == start.code.len()
            &&& forall|i: int|
                0 <= i < linked.len() ==> branch_is_closed(#[trigger] linked[i], code)
                    && code[linked[i].jump] == word_of(code.len() as int)
            &&& forall|i: int|
                0 <= i < linked.len() - 1 ==> (#[trigger] linked[i + 1]).head == linked[i].jump
                    + 1
        }),
{
    let target = st.code.len() as int;
    lemma_chain_closes(start, linked, ends, st.code, target);
    lemma_patched(st.code, ends, target);
    assert forall|k: int| 0 <= k < start.code.len() implies !(#[trigger] ends.contains(
        k,
    )) by {
        if ends.contains(k) {
            let j = choose|j: int| 0 <= j < ends.len() && ends[j] == k;
            assert(ends[j] >= start.code.len());
        }
    }
}

} // verus!
