//! The addresses that the first pass records are those at which the code
//! generator starts the declarations of a program that it compiles without
//! a report.

use crate::diagnostic::{DiagnosticKind, Expectation};
use crate::model::prepass::{
    index_from, index_step, return_type, scan_params, scan_signature, Tally,
};
use crate::model::program::{declare_params, define, fn_dec, fn_decs, signature};
use crate::model::state::{
    at_end, consume, expect, kind, moved, remaining, report_if, text, valid, word_of, State,
};
use crate::model::statement::{block, param_type, security_here};
use crate::symbol::{find_builtin, Builtin, FnInfo, Variable};
use crate::theory::count::{
    agrees, clean, commas, lemma_accepted, lemma_block_agrees, lemma_commas_counted,
    lemma_commas_grow, lemma_text_is_counted, lemma_walk_fns, tidy, walk, walked, words_at,
};
use crate::theory::program::{
    lemma_declare_params, lemma_fn_dec, lemma_fn_decs, lemma_index_step, lemma_scan_params,
};
use crate::theory::statement::lemma_block;
use crate::theory::{lemma_expect, sound};
use crate::token::{Token, TokenKind};
use crate::types::{Param, ValueType};
use vstd::prelude::*;

verus! {

/// The name of the function whose declaration begins under the cursor, as
/// the first pass reads it: behind `fn` and the return type, which takes
/// three tokens with its security level and one without.
pub open spec fn declared_name(tokens: Seq<Token>, st: State) -> Seq<char> {
    let s1 = consume(tokens, st);
    let s2 = if return_type(kind(tokens, s1)) == ValueType::Void {
        s1
    } else {
        consume(tokens, consume(tokens, s1))
    };
    text(tokens, consume(tokens, s2))
}

/// The functions that the first pass records from the cursor on, each with
/// its address, in the order of the declarations.
pub open spec fn recorded(tokens: Seq<Token>, st: State, tally: Tally) -> Seq<(Seq<char>, int)>
    decreases remaining(tokens, st),
{
    if at_end(tokens, st) {
        Seq::empty()
    } else {
        let (s1, next) = index_step(tokens, st, tally);
        let here = if kind(tokens, st) == TokenKind::Fn {
            seq![(declared_name(tokens, st), tally.address as int)]
        } else {
            Seq::empty()
        };
        if moved(tokens, st, s1) {
            here + recorded(tokens, s1, next)
        } else {
            here
        }
    }
}

/// The name of the function whose declaration begins under the cursor, as
/// the code generator reads it: the function that it takes itself to be in
/// behind the head of the declaration.
pub open spec fn compiled_name(tokens: Seq<Token>, st: State) -> Seq<char> {
    tokens[signature(tokens, st).current_fn].text@
}

/// The functions that the code generator compiles from the cursor on, each
/// with the length of the code at which its declaration starts, in the
/// order of the declarations.
pub open spec fn started(tokens: Seq<Token>, st: State) -> Seq<(Seq<char>, int)>
    decreases remaining(tokens, st),
{
    if at_end(tokens, st) {
        Seq::empty()
    } else {
        let s1 = fn_dec(tokens, st);
        let here = seq![(compiled_name(tokens, st), st.code.len() as int)];
        if moved(tokens, st, s1) {
            here + started(tokens, s1)
        } else {
            here
        }
    }
}

/// The address of each function of a table.
pub open spec fn addresses(fns: Map<Seq<char>, FnInfo>) -> Map<Seq<char>, int> {
    Map::new(|name: Seq<char>| fns.contains_key(name), |name: Seq<char>| fns[name].address as int)
}

/// The table `base` with the functions of `pairs` put in it in their order,
/// each with its address: a later function takes the place of an earlier
/// one of its name.
pub open spec fn tabled(
    pairs: Seq<(Seq<char>, int)>,
    base: Map<Seq<char>, int>,
) -> Map<Seq<char>, int>
    decreases pairs.len(),
{
    if pairs.len() == 0 {
        base
    } else {
        tabled(pairs.drop_first(), base.insert(pairs[0].0, pairs[0].1))
    }
}

/// Whether no function of `pairs` behind the one at `k` has its name.
pub open spec fn is_last_of_its_name(pairs: Seq<(Seq<char>, int)>, k: int) -> bool {
    forall|j: int| k < j < pairs.len() ==> (#[trigger] pairs[j]).0 != pairs[k].0
}

/// Functions of other names leave a name of the table as it was.
pub proof fn lemma_tabled_keeps(
    pairs: Seq<(Seq<char>, int)>,
    base: Map<Seq<char>, int>,
    name: Seq<char>,
)
    requires
        forall|j: int| 0 <= j < pairs.len() ==> (#[trigger] pairs[j]).0 != name,
    ensures
        tabled(pairs, base).contains_key(name) <==> base.contains_key(name),
        base.contains_key(name) ==> tabled(pairs, base)[name] == base[name],
    decreases pairs.len(),
{
    if pairs.len() > 0 {
        let rest = pairs.drop_first();
        assert forall|j: int| 0 <= j < rest.len() implies (#[trigger] rest[j]).0 != name by {
            assert(rest[j] == pairs[j + 1]);
        }
        assert(pairs[0].0 != name);
        lemma_tabled_keeps(rest, base.insert(pairs[0].0, pairs[0].1), name);
    }
}

/// The table gives the last function of a name its address.
pub proof fn lemma_tabled_last(pairs: Seq<(Seq<char>, int)>, base: Map<Seq<char>, int>, k: int)
    requires
        0 <= k < pairs.len(),
        is_last_of_its_name(pairs, k),
    ensures
        tabled(pairs, base).contains_key(pairs[k].0),
        tabled(pairs, base)[pairs[k].0] == pairs[k].1,
    decreases pairs.len(),
{
    let rest = pairs.drop_first();
    let next = base.insert(pairs[0].0, pairs[0].1);
    if k == 0 {
        assert forall|j: int| 0 <= j < rest.len() implies (#[trigger] rest[j]).0
            != pairs[0].0 by {
            assert(rest[j] == pairs[j + 1]);
        }
        lemma_tabled_keeps(rest, next, pairs[0].0);
    } else {
        assert(rest[k - 1] == pairs[k]);
        assert forall|j: int| k - 1 < j < rest.len() implies (#[trigger] rest[j]).0
            != rest[k - 1].0 by {
            assert(rest[j] == pairs[j + 1]);
        }
        lemma_tabled_last(rest, next, k - 1);
    }
}

/// The first pass puts the functions that it records in the table, each
/// with its address, and leaves the addresses of the others as they were.
pub proof fn lemma_pass_tables(tokens: Seq<Token>, st: State, tally: Tally)
    requires
        valid(tokens, st),
    ensures
        addresses(index_from(tokens, st, tally).fns) == tabled(
            recorded(tokens, st, tally),
            addresses(st.fns),
        ),
    decreases remaining(tokens, st),
{
    if !at_end(tokens, st) {
        lemma_index_step(tokens, st, tally);
        let (s1, next) = index_step(tokens, st, tally);
        assert(moved(tokens, st, s1));
        lemma_pass_tables(tokens, s1, next);
        let rest = recorded(tokens, s1, next);
        if kind(tokens, st) == TokenKind::Fn {
            let name = declared_name(tokens, st);
            let pass_a = consume(tokens, st);
            let pass_b = if return_type(kind(tokens, pass_a)) == ValueType::Void {
                pass_a
            } else {
                consume(tokens, consume(tokens, pass_a))
            };
            let pass_c = consume(tokens, pass_b);
            let pass_d = consume(
                tokens,
                consume(
                    tokens,
                    report_if(
                        tokens,
                        pass_c,
                        find_builtin(pass_c.builtins, text(tokens, pass_c)) is Some,
                        DiagnosticKind::ReservedFunctionName,
                    ),
                ),
            );
            if kind(tokens, pass_d) != TokenKind::RightParenthesis {
                lemma_scan_params(tokens, pass_d, Seq::empty());
            }
            assert(s1.fns == st.fns.insert(name, s1.fns[name]));
            assert(s1.fns[name].address == tally.address);
            assert(addresses(s1.fns) =~= addresses(st.fns).insert(name, tally.address as int));
            let pairs = seq![(name, tally.address as int)] + rest;
            assert(pairs.drop_first() =~= rest);
        } else {
            assert(s1.fns == st.fns);
            assert(Seq::<(Seq<char>, int)>::empty() + rest =~= rest);
        }
    }
}

/// A walk counts no word less than none and gives no slot back.
pub proof fn lemma_walk_grows(
    tokens: Seq<Token>,
    builtins: Seq<Builtin>,
    from: int,
    stop: int,
    slots: int,
)
    requires
        slots >= 0,
    ensures
        walk(tokens, builtins, from, stop, slots).words >= 0,
        walk(tokens, builtins, from, stop, slots).slots >= slots,
    decreases stop - from,
{
    if from < stop {
        lemma_commas_grow(tokens, from + 2, 1);
        lemma_walk_grows(
            tokens,
            builtins,
            from + 1,
            stop,
            if tokens[from].kind == TokenKind::Let {
                slots + 1
            } else {
                slots
            },
        );
    }
}

/// Where the first pass walks over tokens that hold no declaration, and its
/// count stays within a word, it records nothing and counts what the walk
/// counts.
pub proof fn lemma_pass_walks(
    tokens: Seq<Token>,
    st: State,
    tally: Tally,
    stop: int,
    words: int,
    after: int,
)
    requires
        valid(tokens, st),
        tidy(tokens),
        stop < tokens.len(),
        walked(tokens, st.builtins, st.cursor, stop, tally.slots as int, words, after),
        0 <= tally.address,
        tally.address + words <= i64::MAX,
        0 <= tally.slots,
        after < i64::MAX,
    ensures
        recorded(tokens, st, tally) == recorded(
            tokens,
            State { cursor: stop, ..st },
            Tally { address: (tally.address + words) as i64, slots: after as i64 },
        ),
    decreases stop - st.cursor,
{
    let i = st.cursor;
    if i < stop {
        let slots = tally.slots as int;
        let next = if tokens[i].kind == TokenKind::Let {
            slots + 1
        } else {
            slots
        };
        lemma_walk_fns(tokens, st.builtins, i + 1, stop, next);
        lemma_walk_grows(tokens, st.builtins, i + 1, stop, next);
        let here = words_at(tokens, st.builtins, i, slots);
        lemma_commas_grow(tokens, i + 2, 1);
        if here == 3 + 3 * commas(tokens, i + 2, 1) {
            lemma_commas_counted(tokens, i + 2, 1, tally.address.wrapping_add(3));
        }
        if tokens[i].kind == TokenKind::Str {
            lemma_text_is_counted(tally.address.wrapping_add(1), tokens[i].text@);
        }
        let s1 = consume(tokens, st);
        let stepped = Tally { address: (tally.address + here) as i64, slots: next as i64 };
        assert(index_step(tokens, st, tally) == (s1, stepped));
        lemma_pass_walks(tokens, s1, stepped, stop, words - here, after);
        assert((State { cursor: stop, ..s1 }) == (State { cursor: stop, ..st }));
    } else {
        assert(st == (State { cursor: stop, ..st }));
    }
}

/// The parameters that the code generator declares without a report are
/// those that the first pass passes over.
pub proof fn lemma_params_pass(
    tokens: Seq<Token>,
    st: State,
    pass: State,
    index: int,
    params: Seq<Param>,
)
    requires
        valid(tokens, st),
        valid(tokens, pass),
        tidy(tokens),
        pass.cursor == st.cursor,
        clean(st, declare_params(tokens, st, index)),
    ensures
        scan_params(tokens, pass, params).0.cursor == declare_params(tokens, st, index).cursor,
    decreases remaining(tokens, st),
{
    lemma_expect(tokens, st, Expectation::Identifier);
    let s1 = expect(tokens, st, Expectation::Identifier);
    lemma_expect(tokens, s1, Expectation::VarType);
    let s1b = expect(tokens, s1, Expectation::VarType);
    lemma_expect(tokens, s1b, Expectation::Colon);
    let s2 = expect(tokens, s1b, Expectation::Colon);
    lemma_expect(tokens, s2, Expectation::Integer);
    let s3 = expect(tokens, s2, Expectation::Integer);
    let s4 = State {
        vars: declare_params_inserts(tokens, st, index),
        ..s3
    };
    if kind(tokens, s4) == TokenKind::Comma {
        lemma_expect(tokens, s4, Expectation::Comma);
        let s5 = expect(tokens, s4, Expectation::Comma);
        lemma_declare_params(tokens, s5, index + 1);
    }
    lemma_accepted(tokens, st, Expectation::Identifier);
    lemma_accepted(tokens, s1, Expectation::VarType);
    lemma_accepted(tokens, s1b, Expectation::Colon);
    lemma_accepted(tokens, s2, Expectation::Integer);
    if kind(tokens, s4) == TokenKind::Comma {
        lemma_accepted(tokens, s4, Expectation::Comma);
        let s5 = expect(tokens, s4, Expectation::Comma);
        let pass_d = consume(
            tokens,
            consume(tokens, consume(tokens, consume(tokens, consume(tokens, pass)))),
        );
        lemma_params_pass(
            tokens,
            s5,
            pass_d,
            index + 1,
            params.push(
                Param {
                    ty: param_type(kind(tokens, consume(tokens, pass))),
                    security: security_here(
                        tokens,
                        consume(tokens, consume(tokens, consume(tokens, pass))),
                    ),
                },
            ),
        );
    }
}

/// The variables in sight behind the parameter that begins under the cursor.
pub open spec fn declare_params_inserts(
    tokens: Seq<Token>,
    st: State,
    index: int,
) -> Map<Seq<char>, Variable> {
    let s1 = expect(tokens, st, Expectation::Identifier);
    let s2 = expect(tokens, expect(tokens, s1, Expectation::VarType), Expectation::Colon);
    let s3 = expect(tokens, s2, Expectation::Integer);
    s3.vars.insert(
        text(tokens, st),
        Variable {
            slot: word_of(index),
            ty: param_type(kind(tokens, s1)),
            security: security_here(tokens, s2),
            is_arg: true,
            depth: 1,
            owner: s3.current_fn as usize,
        },
    )
}

/// The head of a declaration keeps the code and is sound for the body. Where
/// the code generator passes over it without a report, it begins with `fn`
/// and is the head that the first pass passes over.
pub proof fn lemma_signature_passes(tokens: Seq<Token>, st: State, pass: State, address: i64)
    requires
        valid(tokens, st),
        valid(tokens, pass),
        tidy(tokens),
        pass.cursor == st.cursor,
        !at_end(tokens, st),
        st.depth == 0,
        st.loop_depth == 0,
    ensures
        sound(tokens, State { returns: 0, breaks: Seq::empty(), ..signature(tokens, st) }),
        signature(tokens, st).code == st.code,
        signature(tokens, st).builtins == st.builtins,
        signature(tokens, st).next_slot == 0,
        signature(tokens, st).diagnostics.len() >= st.diagnostics.len(),
        clean(st, signature(tokens, st)) ==> kind(tokens, st) == TokenKind::Fn
            && scan_signature(tokens, pass, address).cursor == signature(tokens, st).cursor
            && declared_name(tokens, pass) == compiled_name(tokens, st),
{
    let s0 = State { next_slot: 0, ..st };
    lemma_expect(tokens, s0, Expectation::Fn);
    let s1 = expect(tokens, s0, Expectation::Fn);
    let is_void = kind(tokens, s1) == TokenKind::Void;
    lemma_expect(tokens, s1, Expectation::FnType);
    let s1a = expect(tokens, s1, Expectation::FnType);
    lemma_expect(tokens, s1a, Expectation::Colon);
    let s1b = expect(tokens, s1a, Expectation::Colon);
    lemma_expect(tokens, s1b, Expectation::Integer);
    let s2 = if is_void {
        s1a
    } else {
        expect(tokens, s1b, Expectation::Integer)
    };
    let is_main = text(tokens, s2) == "main"@;
    let s2r = report_if(
        tokens,
        State { current_fn: s2.cursor, ..s2 },
        is_main && !is_void,
        DiagnosticKind::MainNotVoid,
    );
    let s3 = define(tokens, s2r);
    lemma_expect(tokens, s3, Expectation::Identifier);
    let s3a = expect(tokens, s3, Expectation::Identifier);
    lemma_expect(tokens, s3a, Expectation::LeftParenthesis);
    let s4 = expect(tokens, s3a, Expectation::LeftParenthesis);
    let s5 = if !is_main && kind(tokens, s4) != TokenKind::RightParenthesis {
        lemma_declare_params(tokens, s4, 0);
        declare_params(tokens, s4, 0)
    } else {
        s4
    };
    lemma_expect(tokens, s5, Expectation::RightParenthesis);
    let s6 = expect(tokens, s5, Expectation::RightParenthesis);
    if clean(st, s6) {
        lemma_accepted(tokens, s0, Expectation::Fn);
        lemma_accepted(tokens, s1, Expectation::FnType);
        if !is_void {
            lemma_accepted(tokens, s1a, Expectation::Colon);
            lemma_accepted(tokens, s1b, Expectation::Integer);
        }
        lemma_accepted(tokens, s3, Expectation::Identifier);
        lemma_accepted(tokens, s3a, Expectation::LeftParenthesis);
        lemma_accepted(tokens, s5, Expectation::RightParenthesis);
        let pass_a = consume(tokens, pass);
        let pass_b = if return_type(kind(tokens, pass_a)) == ValueType::Void {
            pass_a
        } else {
            consume(tokens, consume(tokens, pass_a))
        };
        let pass_c = consume(tokens, pass_b);
        let pass_d = consume(
            tokens,
            consume(
                tokens,
                report_if(
                    tokens,
                    pass_c,
                    find_builtin(pass_c.builtins, text(tokens, pass_c)) is Some,
                    DiagnosticKind::ReservedFunctionName,
                ),
            ),
        );
        assert(pass_d.cursor == s4.cursor);
        if kind(tokens, s4) != TokenKind::RightParenthesis {
            lemma_params_pass(tokens, s4, pass_d, 0, Seq::empty());
            lemma_scan_params(tokens, pass_d, Seq::empty());
        }
    }
}

/// Where the code generator compiles the declarations from the cursor on
/// without a report, and the code stays within the addresses of a word,
/// the first pass records for each declaration the length of the code at
/// which the code generator starts it.
pub proof fn lemma_declarations_agree(tokens: Seq<Token>, st: State, pass: State, tally: Tally)
    requires
        valid(tokens, st),
        valid(tokens, pass),
        tidy(tokens),
        tokens.len() < i64::MAX,
        st.depth == 0,
        st.loop_depth == 0,
        pass.cursor == st.cursor,
        pass.builtins == st.builtins,
        tally.address == st.code.len(),
        clean(st, fn_decs(tokens, st)),
        fn_decs(tokens, st).code.len() <= i64::MAX,
    ensures
        recorded(tokens, pass, tally) == started(tokens, st),
    decreases remaining(tokens, st),
{
    if !at_end(tokens, st) {
        lemma_fn_dec(tokens, st);
        let done = fn_dec(tokens, st);
        lemma_fn_decs(tokens, done);
        lemma_signature_passes(tokens, st, pass, tally.address);
        let head = signature(tokens, st);
        let inside = State { returns: 0, breaks: Seq::empty(), ..head };
        lemma_block(tokens, inside);
        let body = block(tokens, inside);
        lemma_block_agrees(tokens, inside);
        lemma_index_step(tokens, pass, tally);
        let (pass_a, tally_a) = index_step(tokens, pass, tally);
        assert(agrees(tokens, inside, body, 0));
        lemma_pass_walks(
            tokens,
            pass_a,
            tally_a,
            body.cursor,
            body.code.len() - inside.code.len(),
            body.next_slot,
        );
        let pass_b = State { cursor: body.cursor, ..pass_a };
        let tally_b = Tally {
            address: (tally.address + body.code.len() - inside.code.len()) as i64,
            slots: body.next_slot as i64,
        };
        lemma_declarations_agree(tokens, done, pass_b, tally_b);
    }
}

/// A function of the table stays in it whatever is put in behind it.
pub proof fn lemma_tabled_grows(
    pairs: Seq<(Seq<char>, int)>,
    base: Map<Seq<char>, int>,
    name: Seq<char>,
)
    requires
        base.contains_key(name),
    ensures
        tabled(pairs, base).contains_key(name),
    decreases pairs.len(),
{
    if pairs.len() > 0 {
        lemma_tabled_grows(pairs.drop_first(), base.insert(pairs[0].0, pairs[0].1), name);
    }
}

/// Every function that is put in the table stands in it.
pub proof fn lemma_tabled_holds(pairs: Seq<(Seq<char>, int)>, base: Map<Seq<char>, int>, k: int)
    requires
        0 <= k < pairs.len(),
    ensures
        tabled(pairs, base).contains_key(pairs[k].0),
    decreases pairs.len(),
{
    let rest = pairs.drop_first();
    let next = base.insert(pairs[0].0, pairs[0].1);
    if k == 0 {
        lemma_tabled_grows(rest, next, pairs[0].0);
    } else {
        assert(rest[k - 1] == pairs[k]);
        lemma_tabled_holds(rest, next, k - 1);
    }
}

/// Whether the table knows each of the functions that the code generator
/// compiles from the cursor on.
pub open spec fn knows_all(tokens: Seq<Token>, st: State) -> bool {
    forall|i: int|
        0 <= i < started(tokens, st).len() ==> st.fns.contains_key(
            (#[trigger] started(tokens, st)[i]).0,
        )
}

/// A declaration that is compiled without a report is the first that the
/// code generator meets of its function, and marks the function as met.
pub proof fn lemma_declaration_is_first(tokens: Seq<Token>, st: State)
    requires
        valid(tokens, st),
        tidy(tokens),
        !at_end(tokens, st),
        st.depth == 0,
        st.loop_depth == 0,
        st.fns.contains_key(compiled_name(tokens, st)),
        clean(st, fn_dec(tokens, st)),
    ensures
        !st.fns[compiled_name(tokens, st)].defined,
        fn_dec(tokens, st).fns[compiled_name(tokens, st)].defined,
{
    lemma_signature_passes(tokens, st, st, 0);
    let head = signature(tokens, st);
    let inside = State { returns: 0, breaks: Seq::empty(), ..head };
    lemma_block(tokens, inside);
    assert(clean(st, head));
    let s0 = State { next_slot: 0, ..st };
    lemma_expect(tokens, s0, Expectation::Fn);
    let s1 = expect(tokens, s0, Expectation::Fn);
    let is_void = kind(tokens, s1) == TokenKind::Void;
    lemma_expect(tokens, s1, Expectation::FnType);
    let s1a = expect(tokens, s1, Expectation::FnType);
    lemma_expect(tokens, s1a, Expectation::Colon);
    let s1b = expect(tokens, s1a, Expectation::Colon);
    lemma_expect(tokens, s1b, Expectation::Integer);
    let s2 = if is_void {
        s1a
    } else {
        expect(tokens, s1b, Expectation::Integer)
    };
    let is_main = text(tokens, s2) == "main"@;
    let s2r = report_if(
        tokens,
        State { current_fn: s2.cursor, ..s2 },
        is_main && !is_void,
        DiagnosticKind::MainNotVoid,
    );
    let s3 = define(tokens, s2r);
    lemma_expect(tokens, s3, Expectation::Identifier);
    let s3a = expect(tokens, s3, Expectation::Identifier);
    lemma_expect(tokens, s3a, Expectation::LeftParenthesis);
    let s4 = expect(tokens, s3a, Expectation::LeftParenthesis);
    let s5 = if !is_main && kind(tokens, s4) != TokenKind::RightParenthesis {
        lemma_declare_params(tokens, s4, 0);
        declare_params(tokens, s4, 0)
    } else {
        s4
    };
    lemma_expect(tokens, s5, Expectation::RightParenthesis);
    assert(head.current_fn == s2.cursor);
    assert(compiled_name(tokens, st) == text(tokens, s2r));
    assert(s2r.fns == st.fns);
    assert(head.fns == s3.fns);
}

/// Among the declarations that are compiled without a report, none is of a
/// function that was met before, and no two are of one function.
pub proof fn lemma_names_differ(tokens: Seq<Token>, st: State, k: int)
    requires
        valid(tokens, st),
        tidy(tokens),
        st.depth == 0,
        st.loop_depth == 0,
        knows_all(tokens, st),
        clean(st, fn_decs(tokens, st)),
        0 <= k < started(tokens, st).len(),
    ensures
        !st.fns[started(tokens, st)[k].0].defined,
        forall|j: int| 0 <= j < k ==> (#[trigger] started(tokens, st)[j]).0 != started(
            tokens,
            st,
        )[k].0,
    decreases remaining(tokens, st),
{
    let all = started(tokens, st);
    lemma_fn_dec(tokens, st);
    let s1 = fn_dec(tokens, st);
    lemma_fn_decs(tokens, s1);
    assert(moved(tokens, st, s1));
    let rest = started(tokens, s1);
    assert(all =~= seq![(compiled_name(tokens, st), st.code.len() as int)] + rest);
    assert(all[0].0 == compiled_name(tokens, st));
    lemma_declaration_is_first(tokens, st);
    if k > 0 {
        assert forall|i: int| 0 <= i < rest.len() implies s1.fns.contains_key(
            (#[trigger] rest[i]).0,
        ) by {
            assert(rest[i] == all[i + 1]);
        }
        assert(rest[k - 1] == all[k]);
        lemma_names_differ(tokens, s1, k - 1);
        assert forall|j: int| 0 <= j < k implies (#[trigger] all[j]).0 != all[k].0 by {
            if j > 0 {
                assert(all[j] == rest[j - 1]);
            }
        }
    }
}

} // verus!
