//! Laws of the sizes: where the first pass and the code generator agree
//! on the number of words that a construct takes.
//!
//! The first pass counts words token by token and knows no grammar.

use crate::diagnostic::Expectation;
use crate::model::expression::{
    call, identifier_variable, instruction, literal, lower, string_constant, string_words,
};
use crate::model::prepass::{index_step, Tally};
use crate::model::state::{emit, emit2, expect, kind, patch, stayed, text, word_of, State};
use crate::model::statement::{
    block, branch, break_statement, condition, loop_body, pops, return_statement, var_dec,
    var_def, while_statement,
};
use crate::opcode::{
    ARG_STORE, CALL, HALT, JUMP, LOCAL_STORE, RETURN_NON_VAL, RETURN_VAL, S_CONSTANT,
};
use crate::operator::Operator;
use crate::symbol::find_builtin;
use crate::theory::count::{
    lemma_patched_length, lemma_pops_length, lemma_text_is_counted, text_words,
};
use crate::token::{Token, TokenKind};
use crate::types::{Param, ValueType};
use vstd::prelude::*;

verus! {

/// The count behind `words` more words of code.
pub open spec fn counted(tally: Tally, words: int) -> Tally {
    Tally { address: (tally.address + words) as i64, ..tally }
}

/// Whether every backslash of `chars` is followed by an `n`. `escaped` says
/// whether a backslash stands just before `chars`.
pub open spec fn escapes_are_line_feeds(chars: Seq<char>, escaped: bool) -> bool
    decreases chars.len(),
{
    if chars.len() == 0 {
        true
    } else if escaped {
        chars[0] == 'n' && escapes_are_line_feeds(chars.drop_first(), false)
    } else {
        escapes_are_line_feeds(chars.drop_first(), chars[0] == '\\')
    }
}

/// The code generator emits a word for each character but quotation marks
/// and backslashes, where every escape is a line feed.
proof fn lemma_text_is_emitted(tokens: Seq<Token>, st: State, chars: Seq<char>, escaped: bool)
    requires
        escapes_are_line_feeds(chars, escaped),
    ensures
        string_words(tokens, st, chars, escaped).code.len() == st.code.len() + text_words(chars),
        string_words(tokens, st, chars, escaped).diagnostics == st.diagnostics,
    decreases chars.len(),
{
    if chars.len() > 0 {
        let c = chars[0];
        let rest = chars.drop_first();
        if escaped {
            lemma_text_is_emitted(tokens, emit(st, 10), rest, false);
        } else if c == '\\' {
            lemma_text_is_emitted(tokens, st, rest, true);
        } else if c == '"' {
            lemma_text_is_emitted(tokens, st, rest, false);
        } else {
            lemma_text_is_emitted(tokens, emit(st, c as u8 as i64), rest, false);
        }
    }
}

/// The first pass and the code generator agree on the size of a string
/// literal whose escapes are all line feeds: both count the opcode, a word
/// for each character and the closing zero.
pub proof fn law_string_size_is_predicted(tokens: Seq<Token>, st: State, tally: Tally)
    requires
        kind(tokens, st) == TokenKind::Str,
        escapes_are_line_feeds(text(tokens, st), false),
        tally.address + text_words(text(tokens, st)) + 2 <= i64::MAX,
    ensures
        string_constant(tokens, st).code.len() == st.code.len() + text_words(text(tokens, st)) + 2,
        index_step(tokens, st, tally).1 == counted(tally, text_words(text(tokens, st)) + 2int),
{
    lemma_text_is_counted(tally.address.wrapping_add(1), text(tokens, st));
    lemma_text_is_emitted(tokens, emit(st, S_CONSTANT), text(tokens, st), false);
}

/// The first pass and the code generator agree on the size of a number: an
/// integer literal that stands for a value, and not for a security level
/// behind a colon, and a float literal are both two words of code.
pub proof fn law_number_size_is_predicted(
    tokens: Seq<Token>,
    st: State,
    ty: ValueType,
    ceiling: i64,
    tally: Tally,
)
    requires
        tally.address + 2 <= i64::MAX,
        kind(tokens, st) == TokenKind::Int && ty == ValueType::Int && st.cursor > 0
            && tokens[st.cursor - 1].kind != TokenKind::Colon || kind(tokens, st)
            == TokenKind::Float && ty == ValueType::Float,
    ensures
        literal(tokens, st, ty, ceiling).code.len() == st.code.len() + 2,
        index_step(tokens, st, tally).1 == counted(tally, 2 as int),
{
}

/// The first pass and the code generator agree on the size of an operator
/// that the type of its operands has: one word.
pub proof fn law_operator_size_is_predicted(
    tokens: Seq<Token>,
    st: State,
    ty: ValueType,
    op: Operator,
    tally: Tally,
)
    requires
        tally.address + 1 <= i64::MAX,
        kind(tokens, st).spec_operator() == Some(op),
        instruction(op, ty) is Some,
    ensures
        lower(tokens, st, ty, op).code.len() == st.code.len() + 1,
        index_step(tokens, st, tally).1 == counted(tally, 1 as int),
{
}

/// The first pass and the code generator agree on the size of the use of a
/// variable: the two words of a load.
pub proof fn law_variable_size_is_predicted(
    tokens: Seq<Token>,
    st: State,
    ty: ValueType,
    ceiling: i64,
    tally: Tally,
)
    requires
        tally.address + 2 <= i64::MAX,
        0 <= st.cursor,
        st.cursor + 1 < tokens.len(),
        kind(tokens, st) == TokenKind::Identifier,
        st.cursor == 0 || tokens[st.cursor - 1].kind != TokenKind::Let,
        tokens[st.cursor + 1].kind != TokenKind::LeftParenthesis,
    ensures
        identifier_variable(tokens, st, ty, ceiling).code.len() == st.code.len() + 2,
        index_step(tokens, st, tally).1 == counted(tally, 2 as int),
{
}

/// The first pass and the code generator agree on the size of what stands
/// around the condition and the block of a conditional branch: four words,
/// two for the jump over the block and two for the jump behind it.
pub proof fn law_branch_size_is_predicted(tokens: Seq<Token>, st: State, tally: Tally)
    requires
        tally.address + 4 <= i64::MAX,
        kind(tokens, st) == TokenKind::If,
        stayed(st, condition(tokens, st, Expectation::If)),
    ensures
        ({
            let tested = condition(tokens, st, Expectation::If);
            let condition_words = tested.code.len() - 2 - st.code.len();
            let block_words = block(tokens, tested).code.len() - tested.code.len();
            branch(tokens, st).code.len() == st.code.len() + condition_words + block_words + 4
        }),
        index_step(tokens, st, tally).1 == counted(tally, 4 as int),
{
}

/// The first pass and the code generator agree on the size of what stands
/// around the condition and the body of a loop: four words, two for the jump
/// over the body and two for the jump back.
pub proof fn law_loop_size_is_predicted(tokens: Seq<Token>, st: State, tally: Tally)
    requires
        tally.address + 4 <= i64::MAX,
        kind(tokens, st) == TokenKind::While,
        stayed(st, condition(tokens, st, Expectation::While)),
    ensures
        ({
            let tested = condition(tokens, st, Expectation::While);
            let condition_words = tested.code.len() - 2 - st.code.len();
            let body_words = loop_body(tokens, st).code.len() - tested.code.len();
            while_statement(tokens, st).code.len() == st.code.len() + condition_words + body_words
                + 4
        }),
        index_step(tokens, st, tally).1 == counted(tally, 4 as int),
{
    let tested = condition(tokens, st, Expectation::While);
    let body = loop_body(tokens, st);
    let closed = emit2(
        State { loop_depth: body.loop_depth - 1, ..body },
        JUMP,
        word_of(st.code.len() as int),
    );
    let exit = closed.code.len() as int;
    lemma_patched_length(patch(closed, tested.code.len() - 1, exit).code, body.breaks, exit);
}

/// An assignment ends with the two words of a store, which the first pass
/// counts for the name on its left.
pub proof fn law_assignment_size_is_predicted(tokens: Seq<Token>, st: State, tally: Tally)
    requires
        tally.address + 2 <= i64::MAX,
        0 <= st.cursor,
        st.cursor + 1 < tokens.len(),
        kind(tokens, st) == TokenKind::Identifier,
        st.cursor == 0 || tokens[st.cursor - 1].kind != TokenKind::Let,
        tokens[st.cursor + 1].kind != TokenKind::LeftParenthesis,
    ensures
        ({
            let code = var_def(tokens, st).code;
            code.len() >= 2 && (code[code.len() - 2] == LOCAL_STORE || code[code.len() - 2]
                == ARG_STORE)
        }),
        index_step(tokens, st, tally).1 == counted(tally, 2 as int),
{
}

/// A declaration ends with the two words of a store into its slot. The
/// first pass counts them at the `let`, and two more at the name: the two
/// A declaration ends with the two words of a store into its slot, which
/// the first pass counts at the `let`, where it also counts the slot. For
/// the name that follows it counts nothing.
pub proof fn law_declaration_size_is_predicted(tokens: Seq<Token>, st: State, tally: Tally)
    requires
        0 <= tally.slots < i64::MAX,
        tally.address + 2 <= i64::MAX,
        0 <= st.cursor,
        st.cursor + 3 < tokens.len(),
        kind(tokens, st) == TokenKind::Let,
        tokens[st.cursor + 1].kind == TokenKind::Identifier,
        tokens[st.cursor + 2].kind.spec_value_type() is Some,
    ensures
        ({
            let code = var_dec(tokens, st).code;
            code.len() >= 2 && code[code.len() - 2] == LOCAL_STORE
        }),
        ({
            let (named, behind_let) = index_step(tokens, st, tally);
            &&& behind_let == (Tally {
                address: (tally.address + 2) as i64,
                slots: (tally.slots + 1) as i64,
            })
            &&& named.cursor == st.cursor + 1
            &&& index_step(tokens, named, behind_let).1 == behind_let
        }),
{
}

/// A `return` gives up every slot of its function with two words each and
/// The first pass and the code generator agree on the size of a `return`:
/// two words for each slot that the function has handed out, which give the
/// slot up, and one word to return.
pub proof fn law_return_size_is_predicted(tokens: Seq<Token>, st: State, tally: Tally)
    requires
        kind(tokens, st) == TokenKind::Return,
        tally.slots == st.next_slot,
        0 <= tally.slots,
        tally.address + 1 + 2 * tally.slots <= i64::MAX,
    ensures
        emit(pops(st, st.next_slot), RETURN_NON_VAL).code.len() == st.code.len() + 2
            * st.next_slot + 1,
        ({
            let code = return_statement(tokens, st).code;
            code.len() >= 1 && (code.last() == RETURN_VAL || code.last() == RETURN_NON_VAL
                || code.last() == HALT)
        }),
        index_step(tokens, st, tally).1 == counted(tally, 2 * tally.slots + 1),
{
    lemma_pops_length(st, st.next_slot);
}

/// The first pass and the code generator agree on the size of a `break`:
/// the two words of its jump.
pub proof fn law_break_size_is_predicted(tokens: Seq<Token>, st: State, tally: Tally)
    requires
        kind(tokens, st) == TokenKind::Break,
        tally.address + 2 <= i64::MAX,
    ensures
        break_statement(tokens, st).code.len() == st.code.len() + 2,
        index_step(tokens, st, tally).1 == counted(tally, 2),
{
    reveal(expect);
}

/// The first pass and the code generator agree on the size of what stands
/// behind the arguments of a call of a declared function: three words.
pub proof fn law_call_size_is_predicted(
    tokens: Seq<Token>,
    st: State,
    target: i64,
    params: Seq<Param>,
    tally: Tally,
)
    requires
        tally.address + 3 <= i64::MAX,
        0 <= st.cursor,
        st.cursor + 1 < tokens.len(),
        kind(tokens, st) == TokenKind::Identifier,
        st.cursor == 0 || tokens[st.cursor - 1].kind != TokenKind::Let,
        tokens[st.cursor + 1].kind == TokenKind::LeftParenthesis,
        find_builtin(st.builtins, text(tokens, st)) is None,
    ensures
        call(tokens, st, target, params).code.len() >= 3,
        ({
            let code = call(tokens, st, target, params).code;
            code[code.len() - 3] == CALL && code[code.len() - 2] == target
        }),
        index_step(tokens, st, tally).1 == counted(tally, 3 as int),
{
}

} // verus!
