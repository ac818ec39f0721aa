//! What the first pass counts, token by token, and that the code generator
//! emits just as much for a program that it compiles without a report.

use crate::diagnostic::{DiagnosticKind, Expectation};
use crate::model::expression::{
    builtin_args, builtin_mismatch, call, call_args, derived_type, drain, emit_print, expression,
    identifier_function, literal, lower, operators, print_args, shunt, sl_use, string_words,
    term,
};
use crate::model::prepass::{behind_print, behind_text};
use crate::model::state::{
    accepts, at_end, consume, emit, emit2, expect, kind, moved, patch, patched, remaining,
    report, report_if, report_quoting, text, valid, word_of, State,
};
use crate::model::statement::{
    annotated_security, annotation, block, branch, break_statement, condition,
    current_function, fn_call, if_statement, pops, return_statement, security_here, statement,
    statements, var_dec, var_def, while_statement,
};
use crate::opcode::{JUMP, POP, S_CONSTANT};
use crate::operator::Operator;
use crate::symbol::{find_builtin, lemma_find_builtin, undeclared_variable, Builtin};
use crate::theory::expression::{
    lemma_builtin_args, lemma_call, lemma_call_args, lemma_drain, lemma_expression,
    lemma_identifier_function, lemma_literal, lemma_operators, lemma_print_args, lemma_shunt,
    lemma_sl_use, lemma_string_words, lemma_term,
};
use crate::theory::statement::{
    lemma_annotation, lemma_block, lemma_branch, lemma_break_statement, lemma_condition,
    lemma_fn_call, lemma_pops, lemma_return_statement, lemma_statement, lemma_statements,
    lemma_var_dec, lemma_var_def,
};
use crate::theory::{lemma_expect, lemma_not_last, sound, sound_inside};
use crate::token::{Token, TokenKind};
use crate::types::{flow_allowed, Param, ValueType, MAX_SECURITY};
use vstd::prelude::*;

verus! {

/// The number of words that stand for the text `chars` in the code: one for
/// each character but quotation marks and backslashes.
pub open spec fn text_words(chars: Seq<char>) -> nat
    decreases chars.len(),
{
    if chars.len() == 0 {
        0
    } else if chars[0] != '"' && chars[0] != '\\' {
        1 + text_words(chars.drop_first())
    } else {
        text_words(chars.drop_first())
    }
}

/// The first pass counts a word for each character but quotation marks and
/// backslashes.
pub proof fn lemma_text_is_counted(address: i64, chars: Seq<char>)
    requires
        address + text_words(chars) <= i64::MAX,
    ensures
        behind_text(address, chars) == address + text_words(chars),
    decreases chars.len(),
{
    if chars.len() > 0 {
        if chars[0] != '"' && chars[0] != '\\' {
            lemma_text_is_counted(address.wrapping_add(1), chars.drop_first());
        } else {
            lemma_text_is_counted(address, chars.drop_first());
        }
    }
}

/// What a walk over tokens counts: the words of code they stand for, the
/// slots handed out behind them, and the function declarations met.
pub struct Count {
    pub words: int,
    pub slots: int,
    pub fns: int,
}

/// The input ends with the end marker.
pub open spec fn tidy(tokens: Seq<Token>) -> bool {
    tokens.len() > 0 && tokens.last().kind == TokenKind::EndOfInput
}

/// The number of commas between the arguments of a `print`, looking from
/// position `i` on, where `open` parentheses are open of which the first is
/// that of the `print`.
pub open spec fn commas(tokens: Seq<Token>, i: int, open: int) -> int
    decreases tokens.len() - i,
{
    if open <= 0 || !(0 <= i < tokens.len()) {
        0
    } else if tokens[i].kind == TokenKind::LeftParenthesis {
        commas(tokens, i + 1, open + 1)
    } else if tokens[i].kind == TokenKind::RightParenthesis {
        commas(tokens, i + 1, open - 1)
    } else if tokens[i].kind == TokenKind::Comma && open == 1 {
        1 + commas(tokens, i + 1, open)
    } else {
        commas(tokens, i + 1, open)
    }
}

/// There are no fewer commas than none.
pub proof fn lemma_commas_grow(tokens: Seq<Token>, i: int, open: int)
    ensures
        commas(tokens, i, open) >= 0,
    decreases tokens.len() - i,
{
    if open > 0 && 0 <= i < tokens.len() {
        if tokens[i].kind == TokenKind::LeftParenthesis {
            lemma_commas_grow(tokens, i + 1, open + 1);
        } else if tokens[i].kind == TokenKind::RightParenthesis {
            lemma_commas_grow(tokens, i + 1, open - 1);
        } else {
            lemma_commas_grow(tokens, i + 1, open);
        }
    }
}

/// The first pass counts three words for each comma between the arguments
/// of a `print`.
pub proof fn lemma_commas_counted(tokens: Seq<Token>, i: int, open: int, address: i64)
    requires
        0 <= address,
        address + 3 * commas(tokens, i, open) <= i64::MAX,
    ensures
        behind_print(tokens, i, open, address) == address + 3 * commas(tokens, i, open),
    decreases tokens.len() - i,
{
    if open > 0 && 0 <= i < tokens.len() {
        if tokens[i].kind == TokenKind::LeftParenthesis {
            lemma_commas_counted(tokens, i + 1, open + 1, address);
        } else if tokens[i].kind == TokenKind::RightParenthesis {
            lemma_commas_counted(tokens, i + 1, open - 1, address);
        } else if tokens[i].kind == TokenKind::Comma && open == 1 {
            lemma_commas_grow(tokens, i + 1, open);
            lemma_commas_counted(tokens, i + 1, open, address.wrapping_add(3));
        } else {
            lemma_commas_counted(tokens, i + 1, open, address);
        }
    }
}

/// A token that is no parenthesis, and no comma between the arguments of the
/// `print`, is passed over in the search for such commas.
pub proof fn lemma_no_comma(tokens: Seq<Token>, st: State, open: int)
    requires
        valid(tokens, st),
        open >= 1,
        kind(tokens, st) != TokenKind::LeftParenthesis,
        kind(tokens, st) != TokenKind::RightParenthesis,
        kind(tokens, st) != TokenKind::Comma || open >= 2,
    ensures
        commas(tokens, st.cursor, open) == commas(tokens, st.cursor + 1, open),
{
}

/// An opening parenthesis opens one more.
pub proof fn lemma_opens(tokens: Seq<Token>, st: State, open: int)
    requires
        valid(tokens, st),
        open >= 1,
        kind(tokens, st) == TokenKind::LeftParenthesis,
    ensures
        commas(tokens, st.cursor, open) == commas(tokens, st.cursor + 1, open + 1),
{
}

/// A comma behind an argument of the `print` itself is counted.
pub proof fn lemma_counts(tokens: Seq<Token>, st: State)
    requires
        valid(tokens, st),
        kind(tokens, st) == TokenKind::Comma,
    ensures
        commas(tokens, st.cursor, 1) == 1 + commas(tokens, st.cursor + 1, 1),
{
}

/// A closing parenthesis closes one.
pub proof fn lemma_closes(tokens: Seq<Token>, st: State, open: int)
    requires
        valid(tokens, st),
        open >= 1,
        kind(tokens, st) == TokenKind::RightParenthesis,
    ensures
        commas(tokens, st.cursor, open) == commas(tokens, st.cursor + 1, open - 1),
{
}

/// The number of words that the first pass counts for the token at `i`,
/// which is no `fn`, where `slots` slots are handed out before it.
pub open spec fn words_at(tokens: Seq<Token>, builtins: Seq<Builtin>, i: int, slots: int) -> int {
    match tokens[i].kind {
        TokenKind::Int => if i > 0 && tokens[i - 1].kind != TokenKind::Colon {
            2int
        } else {
            0int
        },
        TokenKind::Float => 2int,
        TokenKind::Str => text_words(tokens[i].text@) + 2int,
        TokenKind::Let => if i + 2 < tokens.len() && tokens[i + 2].kind.spec_value_type()
            is Some {
            2int
        } else {
            0int
        },
        TokenKind::Identifier => if i > 0 && tokens[i - 1].kind == TokenKind::Let {
            0int
        } else if tokens[i + 1].kind != TokenKind::LeftParenthesis {
            2int
        } else if find_builtin(builtins, tokens[i].text@) is None {
            3int
        } else if tokens[i].text@ == "print"@ {
            3 + 3 * commas(tokens, i + 2, 1)
        } else if tokens[i].text@ == "read"@ {
            3int
        } else {
            2int
        },
        TokenKind::If | TokenKind::While => 4int,
        TokenKind::Return => 1int + 2 * slots,
        TokenKind::Break => 2int,
        other => if other.spec_operator() is Some {
            1int
        } else {
            0int
        },
    }
}

/// What the first pass counts from the token at `from` up to the token at
/// `stop`, where `slots` slots are handed out before the first.
pub open spec fn walk(
    tokens: Seq<Token>,
    builtins: Seq<Builtin>,
    from: int,
    stop: int,
    slots: int,
) -> Count
    decreases stop - from,
{
    if from >= stop {
        Count { words: 0, slots, fns: 0 }
    } else {
        let here = tokens[from].kind;
        let rest = walk(
            tokens,
            builtins,
            from + 1,
            stop,
            if here == TokenKind::Let {
                slots + 1
            } else {
                slots
            },
        );
        Count {
            words: words_at(tokens, builtins, from, slots) + rest.words,
            slots: rest.slots,
            fns: rest.fns + if here == TokenKind::Fn {
                1int
            } else {
                0int
            },
        }
    }
}

/// Whether the walk from `from` to `stop` counts `words` words, ends with
/// `after` slots and meets no function declaration.
pub open spec fn walked(
    tokens: Seq<Token>,
    builtins: Seq<Builtin>,
    from: int,
    stop: int,
    slots: int,
    words: int,
    after: int,
) -> bool {
    from <= stop && walk(tokens, builtins, from, stop, slots) == (Count {
        words,
        slots: after,
        fns: 0,
    })
}

/// A walk counts no function declaration less than none.
pub proof fn lemma_walk_fns(
    tokens: Seq<Token>,
    builtins: Seq<Builtin>,
    from: int,
    stop: int,
    slots: int,
)
    ensures
        walk(tokens, builtins, from, stop, slots).fns >= 0,
    decreases stop - from,
{
    if from < stop {
        lemma_walk_fns(
            tokens,
            builtins,
            from + 1,
            stop,
            if tokens[from].kind == TokenKind::Let {
                slots + 1
            } else {
                slots
            },
        );
    }
}

/// Two walks, one behind the other, are one walk.
pub proof fn lemma_walk_joins(
    tokens: Seq<Token>,
    builtins: Seq<Builtin>,
    from: int,
    mid: int,
    stop: int,
    slots: int,
    first: int,
    between: int,
    second: int,
    after: int,
)
    requires
        walked(tokens, builtins, from, mid, slots, first, between),
        walked(tokens, builtins, mid, stop, between, second, after),
    ensures
        walked(tokens, builtins, from, stop, slots, first + second, after),
    decreases mid - from,
{
    if from < mid {
        let next = if tokens[from].kind == TokenKind::Let {
            slots + 1
        } else {
            slots
        };
        lemma_walk_fns(tokens, builtins, from + 1, mid, next);
        lemma_walk_joins(
            tokens,
            builtins,
            from + 1,
            mid,
            stop,
            next,
            first - words_at(tokens, builtins, from, slots),
            between,
            second,
            after,
        );
    }
}

/// The walk over one token.
pub proof fn lemma_walk_one(tokens: Seq<Token>, builtins: Seq<Builtin>, i: int, slots: int)
    requires
        tokens[i].kind != TokenKind::Fn,
    ensures
        walked(
            tokens,
            builtins,
            i,
            i + 1,
            slots,
            words_at(tokens, builtins, i, slots),
            if tokens[i].kind == TokenKind::Let {
                slots + 1
            } else {
                slots
            },
        ),
{
    assert(walk(tokens, builtins, i + 1, i + 1, if tokens[i].kind == TokenKind::Let {
        slots + 1
    } else {
        slots
    }).words == 0);
}

/// Whether the production that took `from` to `to` emitted as many words as
/// the first pass counts for the tokens it passed over, and `extra` more.
pub open spec fn agrees(tokens: Seq<Token>, from: State, to: State, extra: int) -> bool {
    walked(
        tokens,
        from.builtins,
        from.cursor,
        to.cursor,
        from.next_slot,
        to.code.len() - from.code.len() + extra,
        to.next_slot,
    )
}

/// Whether the production that took `from` to `to` reported nothing.
pub open spec fn clean(from: State, to: State) -> bool {
    to.diagnostics.len() == from.diagnostics.len()
}

/// Whether the token before position `i` is neither a colon nor `let`: a
/// number or a name at `i` stands for a value.
pub open spec fn plain(tokens: Seq<Token>, i: int) -> bool {
    i > 0 && tokens[i - 1].kind != TokenKind::Colon && tokens[i - 1].kind != TokenKind::Let
}

/// Productions one behind the other agree where each of them does.
pub proof fn lemma_agrees_joins(
    tokens: Seq<Token>,
    from: State,
    mid: State,
    to: State,
    first: int,
    second: int,
)
    requires
        from.builtins == mid.builtins,
        agrees(tokens, from, mid, first),
        agrees(tokens, mid, to, second),
    ensures
        agrees(tokens, from, to, first + second),
{
    lemma_walk_joins(
        tokens,
        from.builtins,
        from.cursor,
        mid.cursor,
        to.cursor,
        from.next_slot,
        mid.code.len() - from.code.len() + first,
        mid.next_slot,
        to.code.len() - mid.code.len() + second,
        to.next_slot,
    );
}

/// A matcher that reports nothing has found what it was looking for and
/// passed over it.
pub proof fn lemma_accepted(tokens: Seq<Token>, st: State, wanted: Expectation)
    requires
        valid(tokens, st),
        tidy(tokens),
        clean(st, expect(tokens, st, wanted)),
    ensures
        accepts(wanted, kind(tokens, st)),
        expect(tokens, st, wanted) == (State { cursor: st.cursor + 1, ..st }),
{
    reveal(expect);
}

/// A token that is no end marker is not the last of a tidy input.
pub proof fn lemma_inside(tokens: Seq<Token>, st: State)
    requires
        valid(tokens, st),
        tidy(tokens),
        kind(tokens, st) != TokenKind::EndOfInput,
    ensures
        !at_end(tokens, st),
        consume(tokens, st) == (State { cursor: st.cursor + 1, ..st }),
{
}

/// Passing over a token that stands for no code agrees with the first
/// pass.
pub proof fn lemma_passed(tokens: Seq<Token>, st: State)
    requires
        valid(tokens, st),
        kind(tokens, st) != TokenKind::Fn,
        kind(tokens, st) != TokenKind::Let,
        words_at(tokens, st.builtins, st.cursor, st.next_slot) == 0,
    ensures
        agrees(tokens, st, State { cursor: st.cursor + 1, ..st }, 0),
{
    lemma_walk_one(tokens, st.builtins, st.cursor, st.next_slot);
}

/// The words of a text that is compiled without a report are as many as the
/// first pass counts.
pub proof fn lemma_text_agrees(tokens: Seq<Token>, st: State, chars: Seq<char>, escaped: bool)
    requires
        sound(tokens, st),
        clean(st, string_words(tokens, st, chars, escaped)),
    ensures
        string_words(tokens, st, chars, escaped).code.len() == st.code.len() + text_words(chars),
        string_words(tokens, st, chars, escaped) == (State {
            code: string_words(tokens, st, chars, escaped).code,
            ..st
        }),
    decreases chars.len(),
{
    if chars.len() > 0 {
        let c = chars[0];
        let rest = chars.drop_first();
        if escaped {
            if c == 'n' {
                lemma_string_words(tokens, emit(st, 10), rest, false);
                lemma_text_agrees(tokens, emit(st, 10), rest, false);
            } else {
                lemma_string_words(
                    tokens,
                    report(tokens, st, DiagnosticKind::BadEscape),
                    rest,
                    false,
                );
            }
        } else if c == '\\' {
            lemma_string_words(tokens, st, rest, true);
            lemma_text_agrees(tokens, st, rest, true);
        } else if c == '"' {
            lemma_string_words(tokens, st, rest, false);
            lemma_text_agrees(tokens, st, rest, false);
        } else {
            lemma_string_words(tokens, emit(st, c as u8 as i64), rest, false);
            lemma_text_agrees(tokens, emit(st, c as u8 as i64), rest, false);
        }
    }
}

/// The waiting operators that are turned into code without a report take a
/// word each.
pub proof fn lemma_drain_agrees(tokens: Seq<Token>, st: State, ty: ValueType, ops: Seq<Operator>)
    requires
        sound(tokens, st),
        clean(st, drain(tokens, st, ty, ops)),
    ensures
        drain(tokens, st, ty, ops) == (State {
            code: drain(tokens, st, ty, ops).code,
            ..st
        }),
        drain(tokens, st, ty, ops).code.len() == st.code.len() + ops.len(),
    decreases ops.len(),
{
    if ops.len() > 0 {
        let s1 = lower(tokens, st, ty, ops.last());
        lemma_drain(tokens, s1, ty, ops.drop_last());
        lemma_drain_agrees(tokens, s1, ty, ops.drop_last());
    }
}

/// An operator that is let wait without a report takes one word, now or
/// when it is turned into code.
pub proof fn lemma_shunt_agrees(
    tokens: Seq<Token>,
    st: State,
    ty: ValueType,
    ops: Seq<Operator>,
    op: Operator,
)
    requires
        sound(tokens, st),
        clean(st, shunt(tokens, st, ty, ops, op).0),
    ensures
        shunt(tokens, st, ty, ops, op).0 == (State {
            code: shunt(tokens, st, ty, ops, op).0.code,
            ..st
        }),
        shunt(tokens, st, ty, ops, op).0.code.len() + shunt(tokens, st, ty, ops, op).1.len()
            == st.code.len() + ops.len() + 1,
    decreases ops.len(),
{
    if ops.len() > 0 && op.spec_precedence() <= ops.last().spec_precedence() {
        let s1 = lower(tokens, st, ty, ops.last());
        lemma_shunt(tokens, s1, ty, ops.drop_last(), op);
        lemma_shunt_agrees(tokens, s1, ty, ops.drop_last(), op);
    }
}

/// An expression that is compiled without a report emits as many words as
/// the first pass counts for it.
pub proof fn lemma_expression_agrees(tokens: Seq<Token>, st: State, ty: ValueType, ceiling: i64)
    requires
        sound(tokens, st),
        tidy(tokens),
        plain(tokens, st.cursor),
        clean(st, expression(tokens, st, ty, ceiling)),
    ensures
        agrees(tokens, st, expression(tokens, st, ty, ceiling), 0),
    decreases remaining(tokens, st), 4nat, 0nat,
{
    let (s1, ops, active) = term(tokens, st, Seq::empty(), ty, ceiling);
    lemma_term(tokens, st, Seq::empty(), ty, ceiling);
    lemma_drain(tokens, s1, active, ops);
    lemma_term_agrees(tokens, st, Seq::empty(), ty, ceiling);
    lemma_drain_agrees(tokens, s1, active, ops);
}

/// An operand with what follows it agrees with the first pass, the
/// operators that still wait counted.
pub proof fn lemma_term_agrees(
    tokens: Seq<Token>,
    st: State,
    ops: Seq<Operator>,
    ty: ValueType,
    ceiling: i64,
)
    requires
        sound(tokens, st),
        tidy(tokens),
        plain(tokens, st.cursor),
        clean(st, term(tokens, st, ops, ty, ceiling).0),
    ensures
        agrees(
            tokens,
            st,
            term(tokens, st, ops, ty, ceiling).0,
            term(tokens, st, ops, ty, ceiling).1.len() - ops.len(),
        ),
    decreases remaining(tokens, st), 3nat, 1nat,
{
    let s1 = literal(tokens, st, ty, ceiling);
    lemma_literal(tokens, st, ty, ceiling);
    lemma_operators(tokens, s1, ops, ty, ceiling);
    lemma_literal_agrees(tokens, st, ty, ceiling);
    lemma_operators_agrees(tokens, s1, ops, ty, ceiling);
    lemma_agrees_joins(
        tokens,
        st,
        s1,
        operators(tokens, s1, ops, ty, ceiling).0,
        0,
        operators(tokens, s1, ops, ty, ceiling).1.len() - ops.len(),
    );
}

/// The operators behind an operand agree with the first pass, the operators
/// that still wait counted.
pub proof fn lemma_operators_agrees(
    tokens: Seq<Token>,
    st: State,
    ops: Seq<Operator>,
    ty: ValueType,
    ceiling: i64,
)
    requires
        sound(tokens, st),
        tidy(tokens),
        clean(st, operators(tokens, st, ops, ty, ceiling).0),
    ensures
        agrees(
            tokens,
            st,
            operators(tokens, st, ops, ty, ceiling).0,
            operators(tokens, st, ops, ty, ceiling).1.len() - ops.len(),
        ),
    decreases remaining(tokens, st), 3nat, 0nat,
{
    match kind(tokens, st).spec_operator() {
        None => {},
        Some(op) => {
            lemma_inside(tokens, st);
            let s1 = consume(tokens, st);
            let (s2, waiting) = if op.spec_is_logical() {
                (drain(tokens, s1, ty, ops), seq![op])
            } else {
                shunt(tokens, s1, ty, ops, op)
            };
            let next_ty = if op.spec_is_logical() {
                derived_type(tokens, s2)
            } else {
                ty
            };
            if op.spec_is_logical() {
                lemma_drain(tokens, s1, ty, ops);
            } else {
                lemma_shunt(tokens, s1, ty, ops, op);
            }
            lemma_literal(tokens, s2, next_ty, ceiling);
            let s3 = literal(tokens, s2, next_ty, ceiling);
            lemma_operators(tokens, s3, waiting, next_ty, ceiling);
            let end = operators(tokens, s3, waiting, next_ty, ceiling);
            if op.spec_is_logical() {
                lemma_drain_agrees(tokens, s1, ty, ops);
            } else {
                lemma_shunt_agrees(tokens, s1, ty, ops, op);
            }
            lemma_walk_one(tokens, st.builtins, st.cursor, st.next_slot);
            assert(agrees(tokens, st, s2, waiting.len() - ops.len()));
            lemma_literal_agrees(tokens, s2, next_ty, ceiling);
            lemma_operators_agrees(tokens, s3, waiting, next_ty, ceiling);
            lemma_agrees_joins(tokens, st, s2, s3, waiting.len() - ops.len(), 0);
            lemma_agrees_joins(
                tokens,
                st,
                s3,
                end.0,
                waiting.len() - ops.len(),
                end.1.len() - waiting.len(),
            );
        },
    }
}

/// An operand that is compiled without a report emits as many words as the
/// first pass counts for it.
pub proof fn lemma_literal_agrees(tokens: Seq<Token>, st: State, ty: ValueType, ceiling: i64)
    requires
        sound(tokens, st),
        tidy(tokens),
        plain(tokens, st.cursor),
        clean(st, literal(tokens, st, ty, ceiling)),
    ensures
        agrees(tokens, st, literal(tokens, st, ty, ceiling), 0),
    decreases remaining(tokens, st), 2nat, 0nat,
{
    let k = kind(tokens, st);
    if k == TokenKind::Int && ty == ValueType::Int {
        lemma_inside(tokens, st);
        lemma_walk_one(tokens, st.builtins, st.cursor, st.next_slot);
    } else if k == TokenKind::Float && ty == ValueType::Float {
        lemma_inside(tokens, st);
        lemma_walk_one(tokens, st.builtins, st.cursor, st.next_slot);
    } else if k == TokenKind::Str && ty == ValueType::Str {
        lemma_inside(tokens, st);
        lemma_string_words(tokens, emit(st, S_CONSTANT), text(tokens, st), false);
        lemma_text_agrees(tokens, emit(st, S_CONSTANT), text(tokens, st), false);
        lemma_walk_one(tokens, st.builtins, st.cursor, st.next_slot);
    } else if k == TokenKind::Identifier && st.cursor + 1 < tokens.len() {
        if tokens[st.cursor + 1].kind == TokenKind::LeftParenthesis {
            match find_builtin(st.builtins, text(tokens, st)) {
                Some(b) => {
                    lemma_find_builtin(st.builtins, text(tokens, st), 0);
                    let s0 = report_if(
                        tokens,
                        st,
                        builtin_mismatch(st.builtins[b].returns, ty),
                        DiagnosticKind::TypeMismatch,
                    );
                    lemma_sl_use(tokens, s0, ty);
                    lemma_sl_use_agrees(tokens, s0, ty);
                },
                None => {
                    lemma_identifier_function_agrees(tokens, st, ty, ceiling);
                },
            }
        } else {
            lemma_inside(tokens, st);
            lemma_walk_one(tokens, st.builtins, st.cursor, st.next_slot);
        }
    } else if k == TokenKind::LeftParenthesis {
        lemma_inside(tokens, st);
        let s1 = consume(tokens, st);
        lemma_expression(tokens, s1, ty, ceiling);
        let s2 = expression(tokens, s1, ty, ceiling);
        lemma_passed(tokens, st);
        lemma_expression_agrees(tokens, s1, ty, ceiling);
        lemma_agrees_joins(tokens, st, s1, s2, 0, 0);
        lemma_inside(tokens, s2);
        lemma_passed(tokens, s2);
        lemma_agrees_joins(tokens, st, s2, consume(tokens, s2), 0, 0);
    } else {
    }
}

/// The call of a built-in that is compiled without a report emits as many
/// words as the first pass counts for it.
pub proof fn lemma_sl_use_agrees(tokens: Seq<Token>, st: State, wanted: ValueType)
    requires
        sound(tokens, st),
        tidy(tokens),
        plain(tokens, st.cursor),
        kind(tokens, st) == TokenKind::Identifier,
        st.cursor + 1 < tokens.len(),
        tokens[st.cursor + 1].kind == TokenKind::LeftParenthesis,
        find_builtin(st.builtins, text(tokens, st)) is Some,
        clean(st, sl_use(tokens, st, wanted)),
    ensures
        agrees(tokens, st, sl_use(tokens, st, wanted), 0),
    decreases remaining(tokens, st), 1nat, 0nat,
{
    let name = text(tokens, st);
    lemma_inside(tokens, st);
    let s0 = consume(tokens, st);
    lemma_expect(tokens, s0, Expectation::LeftParenthesis);
    let s1 = expect(tokens, s0, Expectation::LeftParenthesis);
    lemma_walk_one(tokens, st.builtins, st.cursor, st.next_slot);
    if name == "print"@ {
        lemma_print_args(tokens, s1);
        let s2 = print_args(tokens, s1);
        lemma_expect(tokens, s2, Expectation::RightParenthesis);
        let s3 = expect(tokens, s2, Expectation::RightParenthesis);
        lemma_accepted(tokens, s0, Expectation::LeftParenthesis);
        lemma_accepted(tokens, s2, Expectation::RightParenthesis);
        lemma_passed(tokens, s0);
        lemma_print_args_agrees(tokens, s1);
        lemma_passed(tokens, s2);
        let ahead = 3 + 3 * commas(tokens, st.cursor + 2, 1);
        assert(agrees(tokens, st, s0, ahead));
        lemma_agrees_joins(tokens, st, s0, s1, ahead, 0);
        lemma_agrees_joins(tokens, st, s1, s2, ahead, -ahead);
        lemma_agrees_joins(tokens, st, s2, s3, 0, 0);
    } else if name == "read"@ {
        lemma_expect(tokens, s1, Expectation::RightParenthesis);
        lemma_accepted(tokens, s0, Expectation::LeftParenthesis);
        lemma_accepted(tokens, s1, Expectation::RightParenthesis);
        let s2 = expect(tokens, s1, Expectation::RightParenthesis);
        lemma_passed(tokens, s0);
        lemma_passed(tokens, s1);
        assert(agrees(tokens, st, s0, 3));
        lemma_agrees_joins(tokens, st, s0, s1, 3, 0);
        lemma_agrees_joins(tokens, st, s1, s2, 3, 0);
    } else {
        let b = find_builtin(st.builtins, name)->0;
        let params = st.builtins[b].params@;
        lemma_builtin_args(tokens, s1, params, 0);
        let s2 = builtin_args(tokens, s1, params, 0);
        lemma_expect(tokens, s2, Expectation::RightParenthesis);
        let s3 = expect(tokens, s2, Expectation::RightParenthesis);
        lemma_accepted(tokens, s0, Expectation::LeftParenthesis);
        lemma_accepted(tokens, s2, Expectation::RightParenthesis);
        lemma_passed(tokens, s0);
        lemma_builtin_args_agrees(tokens, s1, params, 0);
        lemma_passed(tokens, s2);
        assert(agrees(tokens, st, s0, 2));
        lemma_agrees_joins(tokens, st, s0, s1, 2, 0);
        lemma_agrees_joins(tokens, st, s1, s2, 2, 0);
        lemma_agrees_joins(tokens, st, s2, s3, 2, 0);
    }
}

/// The type of the argument of `print` that begins under the cursor.
pub open spec fn printed_type(tokens: Seq<Token>, st: State) -> ValueType {
    let k = kind(tokens, st);
    if k == TokenKind::Int {
        ValueType::Int
    } else if k == TokenKind::Float {
        ValueType::Float
    } else if k == TokenKind::Str {
        ValueType::Str
    } else {
        derived_type(tokens, st)
    }
}

/// The arguments of a `print` that are compiled without a report, up to the
/// parenthesis that closes it, emit three words less than the first pass
/// counts for them, and three less for each comma between them: the words
/// that the first pass has counted at the `print`.
pub proof fn lemma_print_args_agrees(tokens: Seq<Token>, st: State)
    requires
        sound(tokens, st),
        tidy(tokens),
        plain(tokens, st.cursor),
        clean(st, print_args(tokens, st)),
        kind(tokens, print_args(tokens, st)) == TokenKind::RightParenthesis,
    ensures
        agrees(
            tokens,
            st,
            print_args(tokens, st),
            -(3 + 3 * commas(tokens, st.cursor, 1)),
        ),
    decreases remaining(tokens, st), 5nat, 0nat,
{
    let k = kind(tokens, st);
    if k == TokenKind::Int || k == TokenKind::Float || k == TokenKind::Str || k
        == TokenKind::Identifier {
        let ty = printed_type(tokens, st);
        lemma_expression(tokens, st, ty, MAX_SECURITY);
        let s0 = expression(tokens, st, ty, MAX_SECURITY);
        let s1 = emit_print(tokens, s0, ty);
        if kind(tokens, s1) == TokenKind::Comma {
            lemma_not_last(tokens, s1);
            lemma_expect(tokens, s1, Expectation::Comma);
            let s2 = expect(tokens, s1, Expectation::Comma);
            lemma_print_args(tokens, s2);
            assert(print_args(tokens, st) == print_args(tokens, s2));
        } else {
            assert(print_args(tokens, st) == s1);
        }
        assert(clean(st, s0));
        lemma_expression_agrees(tokens, st, ty, MAX_SECURITY);
        lemma_expression_passes(tokens, st, ty, MAX_SECURITY, 1);
        assert(agrees(tokens, st, s1, -3));
        if kind(tokens, s1) == TokenKind::Comma {
            let s2 = expect(tokens, s1, Expectation::Comma);
            lemma_accepted(tokens, s1, Expectation::Comma);
            lemma_passed(tokens, s1);
            lemma_counts(tokens, s1);
            lemma_print_args_agrees(tokens, s2);
            let rest = -(3 + 3 * commas(tokens, s2.cursor, 1));
            lemma_agrees_joins(tokens, st, s1, s2, -3, 0);
            lemma_agrees_joins(tokens, st, s2, print_args(tokens, s2), -3, rest);
        } else {
            lemma_closes(tokens, s1, 1);
            assert(commas(tokens, s1.cursor + 1, 0) == 0);
        }
    } else {
        let s1 = report(tokens, st, DiagnosticKind::UnknownPrintArgument);
        if kind(tokens, s1) == TokenKind::Comma {
            lemma_not_last(tokens, s1);
            lemma_expect(tokens, s1, Expectation::Comma);
            lemma_print_args(tokens, expect(tokens, s1, Expectation::Comma));
        }
    }
}

/// An expression that is compiled without a report holds no comma between
/// the arguments of a `print` around it, and closes every parenthesis that
/// it opens.
pub proof fn lemma_expression_passes(
    tokens: Seq<Token>,
    st: State,
    ty: ValueType,
    ceiling: i64,
    open: int,
)
    requires
        sound(tokens, st),
        tidy(tokens),
        open >= 1,
        clean(st, expression(tokens, st, ty, ceiling)),
    ensures
        commas(tokens, st.cursor, open) == commas(
            tokens,
            expression(tokens, st, ty, ceiling).cursor,
            open,
        ),
    decreases remaining(tokens, st), 4nat, 0nat,
{
    let (s1, ops, active) = term(tokens, st, Seq::empty(), ty, ceiling);
    lemma_term(tokens, st, Seq::empty(), ty, ceiling);
    lemma_drain(tokens, s1, active, ops);
    lemma_literal(tokens, st, ty, ceiling);
    lemma_operators(tokens, literal(tokens, st, ty, ceiling), Seq::empty(), ty, ceiling);
    lemma_literal_passes(tokens, st, ty, ceiling, open);
    lemma_operators_passes(
        tokens,
        literal(tokens, st, ty, ceiling),
        Seq::empty(),
        ty,
        ceiling,
        open,
    );
}

/// The operators behind an operand hold no comma of a `print` around them.
pub proof fn lemma_operators_passes(
    tokens: Seq<Token>,
    st: State,
    ops: Seq<Operator>,
    ty: ValueType,
    ceiling: i64,
    open: int,
)
    requires
        sound(tokens, st),
        tidy(tokens),
        open >= 1,
        clean(st, operators(tokens, st, ops, ty, ceiling).0),
    ensures
        commas(tokens, st.cursor, open) == commas(
            tokens,
            operators(tokens, st, ops, ty, ceiling).0.cursor,
            open,
        ),
    decreases remaining(tokens, st), 3nat, 0nat,
{
    match kind(tokens, st).spec_operator() {
        None => {},
        Some(op) => {
            lemma_inside(tokens, st);
            lemma_no_comma(tokens, st, open);
            let s1 = consume(tokens, st);
            let (s2, waiting) = if op.spec_is_logical() {
                (drain(tokens, s1, ty, ops), seq![op])
            } else {
                shunt(tokens, s1, ty, ops, op)
            };
            let next_ty = if op.spec_is_logical() {
                derived_type(tokens, s2)
            } else {
                ty
            };
            if op.spec_is_logical() {
                lemma_drain(tokens, s1, ty, ops);
            } else {
                lemma_shunt(tokens, s1, ty, ops, op);
            }
            lemma_literal(tokens, s2, next_ty, ceiling);
            let s3 = literal(tokens, s2, next_ty, ceiling);
            lemma_operators(tokens, s3, waiting, next_ty, ceiling);
            lemma_literal_passes(tokens, s2, next_ty, ceiling, open);
            lemma_operators_passes(tokens, s3, waiting, next_ty, ceiling, open);
        },
    }
}

/// An operand holds no comma of a `print` around it.
pub proof fn lemma_literal_passes(
    tokens: Seq<Token>,
    st: State,
    ty: ValueType,
    ceiling: i64,
    open: int,
)
    requires
        sound(tokens, st),
        tidy(tokens),
        open >= 1,
        clean(st, literal(tokens, st, ty, ceiling)),
    ensures
        commas(tokens, st.cursor, open) == commas(
            tokens,
            literal(tokens, st, ty, ceiling).cursor,
            open,
        ),
    decreases remaining(tokens, st), 2nat, 0nat,
{
    let k = kind(tokens, st);
    if k == TokenKind::Int && ty == ValueType::Int {
        lemma_inside(tokens, st);
        lemma_no_comma(tokens, st, open);
    } else if k == TokenKind::Float && ty == ValueType::Float {
        lemma_inside(tokens, st);
        lemma_no_comma(tokens, st, open);
    } else if k == TokenKind::Str && ty == ValueType::Str {
        lemma_inside(tokens, st);
        lemma_no_comma(tokens, st, open);
        lemma_string_words(tokens, emit(st, S_CONSTANT), text(tokens, st), false);
    } else if k == TokenKind::Identifier && st.cursor + 1 < tokens.len() {
        if tokens[st.cursor + 1].kind == TokenKind::LeftParenthesis {
            match find_builtin(st.builtins, text(tokens, st)) {
                Some(b) => {
                    lemma_find_builtin(st.builtins, text(tokens, st), 0);
                    let s0 = report_if(
                        tokens,
                        st,
                        builtin_mismatch(st.builtins[b].returns, ty),
                        DiagnosticKind::TypeMismatch,
                    );
                    lemma_sl_use(tokens, s0, ty);
                    lemma_sl_use_passes(tokens, s0, ty, open);
                },
                None => {
                    let name = text(tokens, st);
                    if st.fns.contains_key(name) {
                        let f = st.fns[name];
                        let s1 = report_if(
                            tokens,
                            st,
                            f.returns != ty,
                            DiagnosticKind::FunctionTypeMismatch,
                        );
                        let s2 = report_if(
                            tokens,
                            s1,
                            !flow_allowed(f.security, ceiling),
                            DiagnosticKind::SecurityExceeded,
                        );
                        lemma_call(tokens, s2, f.address, f.params);
                        lemma_call_passes(tokens, s2, f.address, f.params, open);
                    } else {
                        lemma_identifier_function(tokens, st, ty, ceiling);
                        let s1 = report(tokens, st, DiagnosticKind::UnknownFunction);
                        let s2 = report_if(
                            tokens,
                            s1,
                            ty != ValueType::Int,
                            DiagnosticKind::FunctionTypeMismatch,
                        );
                        let s3 = report_if(
                            tokens,
                            s2,
                            !flow_allowed(0, ceiling),
                            DiagnosticKind::SecurityExceeded,
                        );
                        lemma_call(tokens, s3, 0, Seq::empty());
                    }
                },
            }
        } else {
            lemma_inside(tokens, st);
            lemma_no_comma(tokens, st, open);
        }
    } else if k == TokenKind::LeftParenthesis {
        lemma_inside(tokens, st);
        lemma_opens(tokens, st, open);
        let s1 = consume(tokens, st);
        lemma_expression(tokens, s1, ty, ceiling);
        let s2 = expression(tokens, s1, ty, ceiling);
        lemma_expression_passes(tokens, s1, ty, ceiling, open + 1);
        lemma_inside(tokens, s2);
        lemma_closes(tokens, s2, open + 1);
    } else {
    }
}

/// The call of a built-in holds no comma of a `print` around it.
pub proof fn lemma_sl_use_passes(tokens: Seq<Token>, st: State, wanted: ValueType, open: int)
    requires
        sound(tokens, st),
        tidy(tokens),
        open >= 1,
        kind(tokens, st) == TokenKind::Identifier,
        st.cursor + 1 < tokens.len(),
        find_builtin(st.builtins, text(tokens, st)) is Some,
        clean(st, sl_use(tokens, st, wanted)),
    ensures
        commas(tokens, st.cursor, open) == commas(
            tokens,
            sl_use(tokens, st, wanted).cursor,
            open,
        ),
    decreases remaining(tokens, st), 1nat, 0nat,
{
    let name = text(tokens, st);
    lemma_inside(tokens, st);
    lemma_no_comma(tokens, st, open);
    let s0 = consume(tokens, st);
    lemma_expect(tokens, s0, Expectation::LeftParenthesis);
    let s1 = expect(tokens, s0, Expectation::LeftParenthesis);
    if name == "print"@ {
        lemma_print_args(tokens, s1);
        let s2 = print_args(tokens, s1);
        lemma_expect(tokens, s2, Expectation::RightParenthesis);
        lemma_accepted(tokens, s0, Expectation::LeftParenthesis);
        lemma_accepted(tokens, s2, Expectation::RightParenthesis);
        lemma_opens(tokens, s0, open);
        lemma_print_args_passes(tokens, s1, open + 1);
        lemma_closes(tokens, s2, open + 1);
    } else if name == "read"@ {
        lemma_expect(tokens, s1, Expectation::RightParenthesis);
        lemma_accepted(tokens, s0, Expectation::LeftParenthesis);
        lemma_accepted(tokens, s1, Expectation::RightParenthesis);
        lemma_opens(tokens, s0, open);
        lemma_closes(tokens, s1, open + 1);
    } else {
        let b = find_builtin(st.builtins, name)->0;
        let params = st.builtins[b].params@;
        lemma_builtin_args(tokens, s1, params, 0);
        let s2 = builtin_args(tokens, s1, params, 0);
        lemma_expect(tokens, s2, Expectation::RightParenthesis);
        lemma_accepted(tokens, s0, Expectation::LeftParenthesis);
        lemma_accepted(tokens, s2, Expectation::RightParenthesis);
        lemma_opens(tokens, s0, open);
        lemma_builtin_args_passes(tokens, s1, params, 0, open + 1);
        lemma_closes(tokens, s2, open + 1);
    }
}

/// The arguments of a `print` inside the parentheses of another hold no
/// comma of the other.
pub proof fn lemma_print_args_passes(tokens: Seq<Token>, st: State, open: int)
    requires
        sound(tokens, st),
        tidy(tokens),
        open >= 2,
        clean(st, print_args(tokens, st)),
    ensures
        commas(tokens, st.cursor, open) == commas(tokens, print_args(tokens, st).cursor, open),
    decreases remaining(tokens, st), 5nat, 0nat,
{
    let k = kind(tokens, st);
    if k == TokenKind::Int || k == TokenKind::Float || k == TokenKind::Str || k
        == TokenKind::Identifier {
        let ty = printed_type(tokens, st);
        lemma_expression(tokens, st, ty, MAX_SECURITY);
        let s0 = expression(tokens, st, ty, MAX_SECURITY);
        let s1 = emit_print(tokens, s0, ty);
        if kind(tokens, s1) == TokenKind::Comma {
            lemma_not_last(tokens, s1);
            lemma_expect(tokens, s1, Expectation::Comma);
            let s2 = expect(tokens, s1, Expectation::Comma);
            lemma_print_args(tokens, s2);
            assert(print_args(tokens, st) == print_args(tokens, s2));
            lemma_accepted(tokens, s1, Expectation::Comma);
            lemma_no_comma(tokens, s1, open);
            lemma_print_args_passes(tokens, s2, open);
        } else {
            assert(print_args(tokens, st) == s1);
        }
        assert(clean(st, s0));
        lemma_expression_passes(tokens, st, ty, MAX_SECURITY, open);
    } else {
        let s1 = report(tokens, st, DiagnosticKind::UnknownPrintArgument);
        if kind(tokens, s1) == TokenKind::Comma {
            lemma_not_last(tokens, s1);
            lemma_expect(tokens, s1, Expectation::Comma);
            lemma_print_args(tokens, expect(tokens, s1, Expectation::Comma));
        }
    }
}

/// The arguments of a built-in hold no comma of a `print` around the call.
pub proof fn lemma_builtin_args_passes(
    tokens: Seq<Token>,
    st: State,
    params: Seq<ValueType>,
    i: int,
    open: int,
)
    requires
        sound(tokens, st),
        tidy(tokens),
        open >= 2,
        clean(st, builtin_args(tokens, st, params, i)),
    ensures
        commas(tokens, st.cursor, open) == commas(
            tokens,
            builtin_args(tokens, st, params, i).cursor,
            open,
        ),
    decreases remaining(tokens, st), 5nat, params.len() - i,
{
    if 0 <= i < params.len() {
        let s1 = if params[i].spec_has_values() {
            lemma_expression(tokens, st, params[i], MAX_SECURITY);
            expression(tokens, st, params[i], MAX_SECURITY)
        } else {
            st
        };
        let s2 = if i + 1 != params.len() {
            lemma_expect(tokens, s1, Expectation::Comma);
            expect(tokens, s1, Expectation::Comma)
        } else {
            s1
        };
        lemma_builtin_args(tokens, s2, params, i + 1);
        if params[i].spec_has_values() {
            lemma_expression_passes(tokens, st, params[i], MAX_SECURITY, open);
        }
        if i + 1 != params.len() {
            lemma_accepted(tokens, s1, Expectation::Comma);
            lemma_no_comma(tokens, s1, open);
        }
        lemma_builtin_args_passes(tokens, s2, params, i + 1, open);
    }
}

/// The arguments of a call hold no comma of a `print` around the call.
pub proof fn lemma_call_args_passes(
    tokens: Seq<Token>,
    st: State,
    params: Seq<Param>,
    i: int,
    open: int,
)
    requires
        sound(tokens, st),
        tidy(tokens),
        open >= 2,
        clean(st, call_args(tokens, st, params, i)),
    ensures
        commas(tokens, st.cursor, open) == commas(
            tokens,
            call_args(tokens, st, params, i).cursor,
            open,
        ),
    decreases remaining(tokens, st), 5nat, params.len() - i,
{
    if 0 <= i < params.len() {
        lemma_expression(tokens, st, params[i].ty, params[i].security);
        let s1 = expression(tokens, st, params[i].ty, params[i].security);
        let s2 = if i + 1 != params.len() {
            lemma_expect(tokens, s1, Expectation::Comma);
            expect(tokens, s1, Expectation::Comma)
        } else {
            s1
        };
        lemma_call_args(tokens, s2, params, i + 1);
        lemma_expression_passes(tokens, st, params[i].ty, params[i].security, open);
        if i + 1 != params.len() {
            lemma_accepted(tokens, s1, Expectation::Comma);
            lemma_no_comma(tokens, s1, open);
        }
        lemma_call_args_passes(tokens, s2, params, i + 1, open);
    }
}

/// The call of a declared function holds no comma of a `print` around it.
pub proof fn lemma_call_passes(
    tokens: Seq<Token>,
    st: State,
    address: i64,
    params: Seq<Param>,
    open: int,
)
    requires
        sound(tokens, st),
        tidy(tokens),
        open >= 1,
        st.cursor + 1 < tokens.len(),
        clean(st, call(tokens, st, address, params)),
    ensures
        commas(tokens, st.cursor, open) == commas(
            tokens,
            call(tokens, st, address, params).cursor,
            open,
        ),
    decreases remaining(tokens, st), 0nat, 0nat,
{
    lemma_expect(tokens, st, Expectation::Identifier);
    let s0 = expect(tokens, st, Expectation::Identifier);
    lemma_expect(tokens, s0, Expectation::LeftParenthesis);
    let s1 = expect(tokens, s0, Expectation::LeftParenthesis);
    let s2 = if kind(tokens, s1) != TokenKind::RightParenthesis && moved(tokens, st, s1) {
        lemma_call_args(tokens, s1, params, 0);
        call_args(tokens, s1, params, 0)
    } else {
        s1
    };
    lemma_expect(tokens, s2, Expectation::RightParenthesis);
    lemma_accepted(tokens, st, Expectation::Identifier);
    lemma_accepted(tokens, s0, Expectation::LeftParenthesis);
    lemma_accepted(tokens, s2, Expectation::RightParenthesis);
    lemma_no_comma(tokens, st, open);
    lemma_opens(tokens, s0, open);
    if kind(tokens, s1) != TokenKind::RightParenthesis {
        lemma_call_args_passes(tokens, s1, params, 0, open + 1);
    }
    lemma_closes(tokens, s2, open + 1);
}

/// The arguments of a built-in that are compiled without a report emit as
/// many words as the first pass counts for them.
pub proof fn lemma_builtin_args_agrees(
    tokens: Seq<Token>,
    st: State,
    params: Seq<ValueType>,
    i: int,
)
    requires
        sound(tokens, st),
        tidy(tokens),
        plain(tokens, st.cursor),
        clean(st, builtin_args(tokens, st, params, i)),
    ensures
        agrees(tokens, st, builtin_args(tokens, st, params, i), 0),
    decreases remaining(tokens, st), 5nat, params.len() - i,
{
    if 0 <= i < params.len() {
        let s1 = if params[i].spec_has_values() {
            lemma_expression(tokens, st, params[i], MAX_SECURITY);
            expression(tokens, st, params[i], MAX_SECURITY)
        } else {
            st
        };
        let s2 = if i + 1 != params.len() {
            lemma_expect(tokens, s1, Expectation::Comma);
            expect(tokens, s1, Expectation::Comma)
        } else {
            s1
        };
        lemma_builtin_args(tokens, s2, params, i + 1);
        if params[i].spec_has_values() {
            lemma_expression_agrees(tokens, st, params[i], MAX_SECURITY);
        }
        if i + 1 != params.len() {
            lemma_accepted(tokens, s1, Expectation::Comma);
            lemma_passed(tokens, s1);
        }
        lemma_agrees_joins(tokens, st, s1, s2, 0, 0);
        if i + 1 != params.len() {
            lemma_builtin_args_agrees(tokens, s2, params, i + 1);
        }
        lemma_agrees_joins(tokens, st, s2, builtin_args(tokens, s2, params, i + 1), 0, 0);
    }
}

/// The arguments of a call that are compiled without a report emit as many
/// words as the first pass counts for them.
pub proof fn lemma_call_args_agrees(tokens: Seq<Token>, st: State, params: Seq<Param>, i: int)
    requires
        sound(tokens, st),
        tidy(tokens),
        plain(tokens, st.cursor),
        clean(st, call_args(tokens, st, params, i)),
    ensures
        agrees(tokens, st, call_args(tokens, st, params, i), 0),
    decreases remaining(tokens, st), 5nat, params.len() - i,
{
    if 0 <= i < params.len() {
        lemma_expression(tokens, st, params[i].ty, params[i].security);
        let s1 = expression(tokens, st, params[i].ty, params[i].security);
        let s2 = if i + 1 != params.len() {
            lemma_expect(tokens, s1, Expectation::Comma);
            expect(tokens, s1, Expectation::Comma)
        } else {
            s1
        };
        lemma_call_args(tokens, s2, params, i + 1);
        lemma_expression_agrees(tokens, st, params[i].ty, params[i].security);
        if i + 1 != params.len() {
            lemma_accepted(tokens, s1, Expectation::Comma);
            lemma_passed(tokens, s1);
        }
        lemma_agrees_joins(tokens, st, s1, s2, 0, 0);
        if i + 1 != params.len() {
            lemma_call_args_agrees(tokens, s2, params, i + 1);
        }
        lemma_agrees_joins(tokens, st, s2, call_args(tokens, s2, params, i + 1), 0, 0);
    }
}

/// The call of a declared function that is compiled without a report emits
/// as many words as the first pass counts for it.
pub proof fn lemma_call_agrees(tokens: Seq<Token>, st: State, address: i64, params: Seq<Param>)
    requires
        sound(tokens, st),
        tidy(tokens),
        plain(tokens, st.cursor),
        st.cursor + 1 < tokens.len(),
        tokens[st.cursor + 1].kind == TokenKind::LeftParenthesis,
        find_builtin(st.builtins, text(tokens, st)) is None,
        clean(st, call(tokens, st, address, params)),
    ensures
        agrees(tokens, st, call(tokens, st, address, params), 0),
    decreases remaining(tokens, st), 0nat, 0nat,
{
    lemma_expect(tokens, st, Expectation::Identifier);
    let s0 = expect(tokens, st, Expectation::Identifier);
    lemma_expect(tokens, s0, Expectation::LeftParenthesis);
    let s1 = expect(tokens, s0, Expectation::LeftParenthesis);
    let s2 = if kind(tokens, s1) != TokenKind::RightParenthesis && moved(tokens, st, s1) {
        lemma_call_args(tokens, s1, params, 0);
        call_args(tokens, s1, params, 0)
    } else {
        s1
    };
    lemma_expect(tokens, s2, Expectation::RightParenthesis);
    let s3 = expect(tokens, s2, Expectation::RightParenthesis);
    lemma_accepted(tokens, st, Expectation::Identifier);
    lemma_accepted(tokens, s0, Expectation::LeftParenthesis);
    lemma_accepted(tokens, s2, Expectation::RightParenthesis);
    lemma_walk_one(tokens, st.builtins, st.cursor, st.next_slot);
    assert(agrees(tokens, st, s0, 3));
    lemma_passed(tokens, s0);
    if kind(tokens, s1) != TokenKind::RightParenthesis {
        lemma_call_args_agrees(tokens, s1, params, 0);
    }
    lemma_passed(tokens, s2);
    lemma_agrees_joins(tokens, st, s0, s1, 3, 0);
    lemma_agrees_joins(tokens, st, s1, s2, 3, 0);
    lemma_agrees_joins(tokens, st, s2, s3, 3, 0);
}

/// A call as an operand that is compiled without a report emits as many
/// words as the first pass counts for it.
pub proof fn lemma_identifier_function_agrees(
    tokens: Seq<Token>,
    st: State,
    ty: ValueType,
    ceiling: i64,
)
    requires
        sound(tokens, st),
        tidy(tokens),
        plain(tokens, st.cursor),
        st.cursor + 1 < tokens.len(),
        tokens[st.cursor + 1].kind == TokenKind::LeftParenthesis,
        find_builtin(st.builtins, text(tokens, st)) is None,
        clean(st, identifier_function(tokens, st, ty, ceiling)),
    ensures
        agrees(tokens, st, identifier_function(tokens, st, ty, ceiling), 0),
    decreases remaining(tokens, st), 1nat, 0nat,
{
    let name = text(tokens, st);
    if st.fns.contains_key(name) {
        let f = st.fns[name];
        let s1 = report_if(tokens, st, f.returns != ty, DiagnosticKind::FunctionTypeMismatch);
        let s2 = report_if(
            tokens,
            s1,
            !flow_allowed(f.security, ceiling),
            DiagnosticKind::SecurityExceeded,
        );
        lemma_call(tokens, s2, f.address, f.params);
        lemma_call_agrees(tokens, s2, f.address, f.params);
    } else {
        let s1 = report(tokens, st, DiagnosticKind::UnknownFunction);
        let s2 = report_if(
            tokens,
            s1,
            ty != ValueType::Int,
            DiagnosticKind::FunctionTypeMismatch,
        );
        let s3 = report_if(
            tokens,
            s2,
            !flow_allowed(0, ceiling),
            DiagnosticKind::SecurityExceeded,
        );
        lemma_call(tokens, s3, 0, Seq::empty());
    }
}

/// Giving up `slots` slots takes two words for each.
pub proof fn lemma_pops_length(st: State, slots: int)
    requires
        slots >= 0,
    ensures
        pops(st, slots).code.len() == st.code.len() + 2 * slots,
        pops(st, slots) == (State { code: pops(st, slots).code, ..st }),
    decreases slots,
{
    if slots > 0 {
        lemma_pops_length(emit2(st, POP, word_of(slots - 1)), slots - 1);
    }
}

/// Patching keeps the length of the code.
pub proof fn lemma_patched_length(code: Seq<i64>, slots: Seq<int>, target: int)
    ensures
        patched(code, slots, target).len() == code.len(),
    decreases slots.len(),
{
    if slots.len() > 0 {
        lemma_patched_length(code, slots.drop_last(), target);
    }
}

/// The annotation of a declaration that is compiled without a report
/// stands for no code, and ends with `=`.
pub proof fn lemma_annotation_agrees(tokens: Seq<Token>, st: State)
    requires
        sound(tokens, st),
        tidy(tokens),
        clean(st, annotation(tokens, st)),
    ensures
        agrees(tokens, st, annotation(tokens, st), 0),
        plain(tokens, annotation(tokens, st).cursor),
        annotation(tokens, st).code == st.code,
{
    lemma_expect(tokens, st, Expectation::VarType);
    let s0 = expect(tokens, st, Expectation::VarType);
    lemma_expect(tokens, s0, Expectation::Colon);
    let s1 = expect(tokens, s0, Expectation::Colon);
    let security = security_here(tokens, s1);
    let s2 = if security > MAX_SECURITY {
        report(tokens, s1, DiagnosticKind::SecurityAboveMaximum(security))
    } else if security < 0 {
        report(tokens, s1, DiagnosticKind::SecurityBelowMinimum(security))
    } else {
        s1
    };
    lemma_expect(tokens, s2, Expectation::Integer);
    let s3 = expect(tokens, s2, Expectation::Integer);
    lemma_expect(tokens, s3, Expectation::Equal);
    let s4 = expect(tokens, s3, Expectation::Equal);
    lemma_accepted(tokens, st, Expectation::VarType);
    lemma_accepted(tokens, s0, Expectation::Colon);
    lemma_accepted(tokens, s2, Expectation::Integer);
    lemma_accepted(tokens, s3, Expectation::Equal);
    lemma_passed(tokens, st);
    lemma_passed(tokens, s0);
    lemma_passed(tokens, s2);
    lemma_passed(tokens, s3);
    lemma_agrees_joins(tokens, st, s0, s1, 0, 0);
    lemma_agrees_joins(tokens, st, s1, s3, 0, 0);
    lemma_agrees_joins(tokens, st, s3, s4, 0, 0);
}

/// A declaration that is compiled without a report emits as many words as
/// the first pass counts for it, and hands out the slot that the first pass
/// counts.
pub proof fn lemma_var_dec_agrees(tokens: Seq<Token>, st: State)
    requires
        sound(tokens, st),
        tidy(tokens),
        kind(tokens, st) == TokenKind::Let,
        clean(st, var_dec(tokens, st)),
    ensures
        agrees(tokens, st, var_dec(tokens, st), 0),
{
    lemma_inside(tokens, st);
    lemma_expect(tokens, st, Expectation::Let);
    let s1 = expect(tokens, st, Expectation::Let);
    let name = text(tokens, s1);
    let s1r = report_if(tokens, s1, s1.vars.contains_key(name), DiagnosticKind::AlreadyDeclared);
    lemma_expect(tokens, s1r, Expectation::Identifier);
    let s2 = expect(tokens, s1r, Expectation::Identifier);
    let declared = kind(tokens, s2).spec_value_type();
    let s3 = State { next_slot: s2.next_slot + 1, ..s2 };
    lemma_annotation(tokens, s3);
    let s4 = annotation(tokens, s3);
    let ty = match declared {
        Some(ty) => ty,
        None => ValueType::Int,
    };
    lemma_expression(tokens, s4, ty, annotated_security(tokens, s3));
    let s5 = expression(tokens, s4, ty, annotated_security(tokens, s3));
    lemma_accepted(tokens, st, Expectation::Let);
    lemma_accepted(tokens, s1r, Expectation::Identifier);
    lemma_annotation_agrees(tokens, s3);
    lemma_expression_agrees(tokens, s4, ty, annotated_security(tokens, s3));
    reveal(expect);
    let i = st.cursor;
    let slots = st.next_slot;
    let b = st.builtins;
    lemma_walk_one(tokens, b, i, slots);
    lemma_walk_one(tokens, b, i + 1, slots + 1);
    lemma_walk_joins(tokens, b, i, i + 1, i + 2, slots, 2, slots + 1, 0, slots + 1);
    lemma_walk_joins(tokens, b, i, i + 2, s4.cursor, slots, 2, slots + 1, 0, slots + 1);
    lemma_walk_joins(
        tokens,
        b,
        i,
        s4.cursor,
        s5.cursor,
        slots,
        2,
        slots + 1,
        s5.code.len() - s4.code.len(),
        slots + 1,
    );
}

/// An assignment that is compiled without a report emits as many words as
/// the first pass counts for it.
pub proof fn lemma_var_def_agrees(tokens: Seq<Token>, st: State)
    requires
        sound(tokens, st),
        tidy(tokens),
        plain(tokens, st.cursor),
        clean(st, var_def(tokens, st)),
    ensures
        agrees(tokens, st, var_def(tokens, st), 0),
{
    let name = text(tokens, st);
    lemma_expect(tokens, st, Expectation::Identifier);
    let s0 = expect(tokens, st, Expectation::Identifier);
    lemma_expect(tokens, s0, Expectation::Equal);
    let s1 = expect(tokens, s0, Expectation::Equal);
    let declared = s1.vars.contains_key(name);
    let v = if declared {
        s1.vars[name]
    } else {
        undeclared_variable()
    };
    let s2 = if declared {
        s1
    } else {
        report_quoting(tokens, s1, DiagnosticKind::UndeclaredVariable, st.cursor)
    };
    let s3 = if v.depth > s2.depth {
        report_quoting(tokens, s2, DiagnosticKind::OutOfScope, st.cursor)
    } else {
        s2
    };
    lemma_expression(tokens, s3, v.ty, v.security);
    let s4 = expression(tokens, s3, v.ty, v.security);
    lemma_accepted(tokens, st, Expectation::Identifier);
    lemma_accepted(tokens, s0, Expectation::Equal);
    lemma_walk_one(tokens, st.builtins, st.cursor, st.next_slot);
    assert(agrees(tokens, st, s0, 2));
    lemma_passed(tokens, s0);
    lemma_expression_agrees(tokens, s3, v.ty, v.security);
    lemma_agrees_joins(tokens, st, s0, s1, 2, 0);
    lemma_agrees_joins(tokens, st, s3, s4, 2, 0);
}

/// A call that stands as a statement and is compiled without a report emits
/// as many words as the first pass counts for it.
pub proof fn lemma_fn_call_agrees(tokens: Seq<Token>, st: State)
    requires
        sound(tokens, st),
        tidy(tokens),
        plain(tokens, st.cursor),
        st.cursor + 1 < tokens.len(),
        tokens[st.cursor + 1].kind == TokenKind::LeftParenthesis,
        find_builtin(st.builtins, text(tokens, st)) is None,
        clean(st, fn_call(tokens, st)),
    ensures
        agrees(tokens, st, fn_call(tokens, st), 0),
{
    let name = text(tokens, st);
    if st.fns.contains_key(name) {
        let f = st.fns[name];
        let s1 = report_if(tokens, st, f.returns != ValueType::Void, DiagnosticKind::CallNotVoid);
        lemma_call(tokens, s1, f.address, f.params);
        lemma_call_agrees(tokens, s1, f.address, f.params);
    } else {
        lemma_call(tokens, report(tokens, st, DiagnosticKind::UnknownFunction), 0, Seq::empty());
    }
}

/// A `return` that is compiled without a report emits as many words as the
/// first pass counts for it.
pub proof fn lemma_return_agrees(tokens: Seq<Token>, st: State)
    requires
        sound(tokens, st),
        tidy(tokens),
        kind(tokens, st) == TokenKind::Return,
        clean(st, return_statement(tokens, st)),
    ensures
        agrees(tokens, st, return_statement(tokens, st), 0),
{
    lemma_inside(tokens, st);
    lemma_expect(tokens, st, Expectation::Return);
    let s1 = expect(tokens, st, Expectation::Return);
    lemma_accepted(tokens, st, Expectation::Return);
    let s2 = if s1.depth == 1 {
        State { returns: s1.returns + 1, ..s1 }
    } else {
        s1
    };
    let f = current_function(tokens, s2);
    lemma_walk_one(tokens, st.builtins, st.cursor, st.next_slot);
    assert(agrees(tokens, st, s2, 1 + 2 * st.next_slot));
    if kind(tokens, s2) != TokenKind::SemiColon {
        let value = f is None || f->0.returns != ValueType::Void;
        let ty = if f is Some {
            f->0.returns
        } else {
            ValueType::Int
        };
        let level = if f is Some {
            f->0.security
        } else {
            0
        };
        let s3 = if value {
            expression(tokens, s2, ty, level)
        } else {
            report(tokens, s2, DiagnosticKind::ReturnValueFromVoid)
        };
        if value {
            lemma_expression(tokens, s2, ty, level);
        }
        lemma_pops(tokens, s3, s3.next_slot);
        lemma_pops_length(s3, s3.next_slot);
        if value {
            lemma_expression_agrees(tokens, s2, ty, level);
            lemma_agrees_joins(tokens, st, s2, s3, 1 + 2 * st.next_slot, 0);
        }
    } else {
        let s3 = report_if(
            tokens,
            s2,
            f is Some && f->0.returns != ValueType::Void,
            DiagnosticKind::MissingReturnValue,
        );
        lemma_pops(tokens, s3, s3.next_slot);
        lemma_pops_length(s3, s3.next_slot);
    }
}

/// A `break` that is compiled without a report emits as many words as the
/// first pass counts for it.
pub proof fn lemma_break_agrees(tokens: Seq<Token>, st: State)
    requires
        sound(tokens, st),
        tidy(tokens),
        kind(tokens, st) == TokenKind::Break,
        clean(st, break_statement(tokens, st)),
    ensures
        agrees(tokens, st, break_statement(tokens, st), 0),
{
    lemma_expect(tokens, st, Expectation::Break);
    lemma_accepted(tokens, st, Expectation::Break);
    lemma_walk_one(tokens, st.builtins, st.cursor, st.next_slot);
}

/// The head of a branch or a loop that is compiled without a report emits
/// two words less than the first pass counts for it: the jump behind the
/// block is still to come.
pub proof fn lemma_condition_agrees(tokens: Seq<Token>, st: State, keyword: Expectation)
    requires
        sound(tokens, st),
        tidy(tokens),
        keyword == Expectation::If || keyword == Expectation::While,
        clean(st, condition(tokens, st, keyword)),
    ensures
        agrees(tokens, st, condition(tokens, st, keyword), 2),
{
    lemma_expect(tokens, st, keyword);
    let s1 = expect(tokens, st, keyword);
    lemma_expression(tokens, s1, derived_type(tokens, s1), MAX_SECURITY);
    let s2 = expression(tokens, s1, derived_type(tokens, s1), MAX_SECURITY);
    lemma_accepted(tokens, st, keyword);
    lemma_walk_one(tokens, st.builtins, st.cursor, st.next_slot);
    assert(agrees(tokens, st, s1, 4));
    lemma_expression_agrees(tokens, s1, derived_type(tokens, s1), MAX_SECURITY);
    lemma_agrees_joins(tokens, st, s1, s2, 4, 0);
}

/// A block that is compiled without a report emits as many words as the
/// first pass counts for it, and ends with its closing bracket.
pub proof fn lemma_block_agrees(tokens: Seq<Token>, st: State)
    requires
        sound(tokens, st),
        tidy(tokens),
        clean(st, block(tokens, st)),
    ensures
        agrees(tokens, st, block(tokens, st), 0),
        plain(tokens, block(tokens, st).cursor),
    decreases remaining(tokens, st), 1nat,
{
    lemma_expect(tokens, st, Expectation::LeftCurly);
    let s1 = expect(tokens, st, Expectation::LeftCurly);
    let s2 = State { depth: s1.depth + 1, ..s1 };
    let s3 = if moved(tokens, st, s2) {
        lemma_statements(tokens, s2);
        statements(tokens, s2)
    } else {
        s2
    };
    lemma_expect(tokens, s3, Expectation::RightCurly);
    let s4 = expect(tokens, s3, Expectation::RightCurly);
    lemma_accepted(tokens, st, Expectation::LeftCurly);
    lemma_accepted(tokens, s3, Expectation::RightCurly);
    lemma_passed(tokens, st);
    lemma_statements_agrees(tokens, s2);
    lemma_passed(tokens, s3);
    lemma_agrees_joins(tokens, st, s2, s3, 0, 0);
    lemma_agrees_joins(tokens, st, s3, s4, 0, 0);
}

/// The statements of a block that are compiled without a report emit as
/// many words as the first pass counts for them.
pub proof fn lemma_statements_agrees(tokens: Seq<Token>, st: State)
    requires
        sound_inside(tokens, st),
        tidy(tokens),
        plain(tokens, st.cursor),
        clean(st, statements(tokens, st)),
    ensures
        agrees(tokens, st, statements(tokens, st), 0),
    decreases remaining(tokens, st), 5nat,
{
    if !(at_end(tokens, st) || kind(tokens, st) == TokenKind::RightCurly) {
        lemma_statement(tokens, st);
        let s1 = statement(tokens, st);
        lemma_statements(tokens, s1);
        lemma_statement_agrees(tokens, st);
        lemma_statements_agrees(tokens, s1);
        lemma_agrees_joins(tokens, st, s1, statements(tokens, s1), 0, 0);
    }
}

/// A statement that is compiled without a report emits as many words as the
/// first pass counts for it, and ends with a semicolon or a closing
/// bracket.
pub proof fn lemma_statement_agrees(tokens: Seq<Token>, st: State)
    requires
        sound(tokens, st),
        tidy(tokens),
        !at_end(tokens, st),
        plain(tokens, st.cursor),
        clean(st, statement(tokens, st)),
    ensures
        agrees(tokens, st, statement(tokens, st), 0),
        plain(tokens, statement(tokens, st).cursor),
    decreases remaining(tokens, st), 4nat,
{
    match kind(tokens, st) {
        TokenKind::Let => {
            lemma_var_dec(tokens, st);
            let s1 = var_dec(tokens, st);
            lemma_expect(tokens, s1, Expectation::SemiColon);
            lemma_var_dec_agrees(tokens, st);
            lemma_accepted(tokens, s1, Expectation::SemiColon);
            lemma_passed(tokens, s1);
            lemma_agrees_joins(tokens, st, s1, expect(tokens, s1, Expectation::SemiColon), 0, 0);
        },
        TokenKind::Identifier => {
            if tokens[st.cursor + 1].kind != TokenKind::LeftParenthesis {
                lemma_var_def(tokens, st);
                let s1 = var_def(tokens, st);
                lemma_expect(tokens, s1, Expectation::SemiColon);
                lemma_var_def_agrees(tokens, st);
                lemma_accepted(tokens, s1, Expectation::SemiColon);
                lemma_passed(tokens, s1);
                lemma_agrees_joins(
                    tokens,
                    st,
                    s1,
                    expect(tokens, s1, Expectation::SemiColon),
                    0,
                    0,
                );
            } else {
                match find_builtin(st.builtins, text(tokens, st)) {
                    Some(b) => {
                        lemma_find_builtin(st.builtins, text(tokens, st), 0);
                        let s0 = report_if(
                            tokens,
                            st,
                            st.builtins[b].returns != ValueType::Void,
                            DiagnosticKind::CallNotVoid,
                        );
                        lemma_sl_use(tokens, s0, ValueType::Void);
                        let s1 = sl_use(tokens, s0, ValueType::Void);
                        lemma_expect(tokens, s1, Expectation::SemiColon);
                        lemma_sl_use_agrees(tokens, s0, ValueType::Void);
                        lemma_accepted(tokens, s1, Expectation::SemiColon);
                        lemma_passed(tokens, s1);
                        lemma_agrees_joins(
                            tokens,
                            st,
                            s1,
                            expect(tokens, s1, Expectation::SemiColon),
                            0,
                            0,
                        );
                    },
                    None => {
                        lemma_fn_call(tokens, st);
                        let s1 = fn_call(tokens, st);
                        lemma_expect(tokens, s1, Expectation::SemiColon);
                        lemma_fn_call_agrees(tokens, st);
                        lemma_accepted(tokens, s1, Expectation::SemiColon);
                        lemma_passed(tokens, s1);
                        lemma_agrees_joins(
                            tokens,
                            st,
                            s1,
                            expect(tokens, s1, Expectation::SemiColon),
                            0,
                            0,
                        );
                    },
                }
            }
        },
        TokenKind::If => {
            lemma_if_agrees(tokens, st, Seq::empty());
        },
        TokenKind::While => {
            lemma_while_agrees(tokens, st);
        },
        TokenKind::Break => {
            let s0 = report_if(
                tokens,
                st,
                st.loop_depth == 0,
                DiagnosticKind::BreakOutsideLoop,
            );
            lemma_break_statement(tokens, s0);
            let s1 = break_statement(tokens, s0);
            lemma_expect(tokens, s1, Expectation::SemiColon);
            lemma_break_agrees(tokens, s0);
            lemma_accepted(tokens, s1, Expectation::SemiColon);
            lemma_passed(tokens, s1);
            lemma_agrees_joins(tokens, st, s1, expect(tokens, s1, Expectation::SemiColon), 0, 0);
        },
        TokenKind::Return => {
            lemma_return_statement(tokens, st);
            let s1 = return_statement(tokens, st);
            lemma_expect(tokens, s1, Expectation::SemiColon);
            lemma_return_agrees(tokens, st);
            lemma_accepted(tokens, s1, Expectation::SemiColon);
            lemma_passed(tokens, s1);
            lemma_agrees_joins(tokens, st, s1, expect(tokens, s1, Expectation::SemiColon), 0, 0);
        },
        _ => {},
    }
}

/// A branch that is compiled without a report emits as many words as the
/// first pass counts for it, and ends with the closing bracket of its
/// block.
pub proof fn lemma_branch_agrees(tokens: Seq<Token>, st: State)
    requires
        sound(tokens, st),
        tidy(tokens),
        clean(st, branch(tokens, st)),
    ensures
        agrees(tokens, st, branch(tokens, st), 0),
        plain(tokens, branch(tokens, st).cursor),
    decreases remaining(tokens, st), 2nat,
{
    lemma_condition(tokens, st, Expectation::If);
    let s1 = condition(tokens, st, Expectation::If);
    lemma_block(tokens, s1);
    let s2 = block(tokens, s1);
    lemma_condition_agrees(tokens, st, Expectation::If);
    lemma_block_agrees(tokens, s1);
    lemma_agrees_joins(tokens, st, s1, s2, 2, 0);
}

/// A chain of branches keeps the reports it found, and where it is compiled
/// without a report it emits as many words as the first pass counts for it
/// and ends with a closing bracket.
pub proof fn lemma_if_agrees(tokens: Seq<Token>, st: State, ends: Seq<int>)
    requires
        sound(tokens, st),
        tidy(tokens),
    ensures
        sound(tokens, if_statement(tokens, st, ends)),
        if_statement(tokens, st, ends).diagnostics.len() >= st.diagnostics.len(),
        if_statement(tokens, st, ends).builtins == st.builtins,
        clean(st, if_statement(tokens, st, ends)) ==> agrees(
            tokens,
            st,
            if_statement(tokens, st, ends),
            0,
        ) && plain(tokens, if_statement(tokens, st, ends).cursor),
    decreases remaining(tokens, st), 3nat,
{
    lemma_branch(tokens, st);
    let s1 = branch(tokens, st);
    let all = ends.push(s1.code.len() - 1);
    if clean(st, s1) {
        lemma_branch_agrees(tokens, st);
    }
    if kind(tokens, s1) != TokenKind::Else {
        lemma_patched_length(s1.code, all, s1.code.len() as int);
    } else {
        lemma_expect(tokens, s1, Expectation::Else);
        let s2 = expect(tokens, s1, Expectation::Else);
        lemma_not_last(tokens, s1);
        if clean(s1, s2) {
            lemma_accepted(tokens, s1, Expectation::Else);
            lemma_passed(tokens, s1);
        }
        if kind(tokens, s2) == TokenKind::LeftCurly {
            lemma_block(tokens, s2);
            let s3 = block(tokens, s2);
            lemma_patched_length(s3.code, all, s3.code.len() as int);
            if clean(st, s3) {
                lemma_block_agrees(tokens, s2);
                lemma_agrees_joins(tokens, st, s1, s2, 0, 0);
                lemma_agrees_joins(tokens, st, s2, s3, 0, 0);
            }
        } else {
            lemma_if_agrees(tokens, s2, all);
            let s3 = if_statement(tokens, s2, all);
            if clean(st, s3) {
                lemma_agrees_joins(tokens, st, s1, s2, 0, 0);
                lemma_agrees_joins(tokens, st, s2, s3, 0, 0);
            }
        }
    }
}

/// A loop that is compiled without a report emits as many words as the
/// first pass counts for it, and ends with the closing bracket of its body.
pub proof fn lemma_while_agrees(tokens: Seq<Token>, st: State)
    requires
        sound(tokens, st),
        tidy(tokens),
        !at_end(tokens, st),
        kind(tokens, st) == TokenKind::While,
        clean(st, while_statement(tokens, st)),
    ensures
        agrees(tokens, st, while_statement(tokens, st), 0),
        plain(tokens, while_statement(tokens, st).cursor),
    decreases remaining(tokens, st), 3nat,
{
    lemma_condition(tokens, st, Expectation::While);
    let s1 = condition(tokens, st, Expectation::While);
    let entered = State { loop_depth: s1.loop_depth + 1, breaks: Seq::empty(), ..s1 };
    lemma_block(tokens, entered);
    let s2 = block(tokens, entered);
    let s3 = emit2(
        State { loop_depth: s2.loop_depth - 1, ..s2 },
        JUMP,
        word_of(st.code.len() as int),
    );
    let exit = s3.code.len() as int;
    lemma_patched_length(patch(s3, s1.code.len() - 1, exit).code, s2.breaks, exit);
    lemma_condition_agrees(tokens, st, Expectation::While);
    lemma_block_agrees(tokens, entered);
    assert(agrees(tokens, s1, s2, 0));
    lemma_agrees_joins(tokens, st, s1, s2, 2, 0);
}

} // verus!
