//! The law of the addresses: the first pass predicts where the code of each
//! function starts.

use crate::diagnostic::DiagnosticKind;
use crate::model::prepass::{first_tally, index_functions, index_step, Tally};
use crate::model::program::{compile, fn_decs};
use crate::model::state::{emit3, kind, report_unplaced, valid, State};
use crate::opcode::CALL;
use crate::theory::address::{
    addresses, declared_name, is_last_of_its_name, lemma_declarations_agree,
    lemma_names_differ, lemma_pass_tables, lemma_tabled_holds, lemma_tabled_last, recorded,
    started,
};
use crate::theory::count::{clean, tidy};
use crate::theory::program::{lemma_fn_decs, lemma_index_from};
use crate::token::{Token, TokenKind};
use vstd::prelude::*;

verus! {

/// At a declaration the first pass records the function under its name with
/// the address that it has counted up to there.
pub proof fn law_counted_address_is_recorded(tokens: Seq<Token>, st: State, tally: Tally)
    requires
        kind(tokens, st) == TokenKind::Fn,
    ensures
        index_step(tokens, st, tally).0.fns.contains_key(declared_name(tokens, st)),
        index_step(tokens, st, tally).0.fns[declared_name(tokens, st)].address == tally.address,
{
}

/// The state in which the code generator starts the declarations of a
/// program with a function `main`: behind the first pass and the call of
/// `main`, at the first token.
pub open spec fn at_declarations(tokens: Seq<Token>, st: State) -> State {
    let indexed = index_functions(tokens, st);
    State { cursor: 0, ..emit3(indexed, CALL, indexed.fns["main"@].address, 0) }
}

/// For a program that is compiled without a report, the address that the
/// first pass records for each declared function is the length of the code
/// at which the code generator starts the declaration of that function: a
/// call of the function leads to its first instruction. The two passes name
/// the same functions in the same order, no two of them have one name, and
/// each stands in the table of the compiled program with the length of the
/// code at which its declaration starts.
///
/// The law is stated of a compilation that starts with no code at the first
/// token, of an input that ends with the end marker, and of code that stays
/// within the addresses of a word.
pub proof fn law_addresses_are_predicted(tokens: Seq<Token>, st: State)
    requires
        valid(tokens, st),
        tidy(tokens),
        tokens.len() < i64::MAX,
        st.cursor == 0,
        st.code.len() == 0,
        st.depth == 0,
        st.loop_depth == 0,
        clean(st, compile(tokens, st)),
        compile(tokens, st).code.len() <= i64::MAX,
    ensures
        index_functions(tokens, st).fns.contains_key("main"@),
        compile(tokens, st) == fn_decs(tokens, at_declarations(tokens, st)),
        recorded(tokens, st, first_tally()) == started(tokens, at_declarations(tokens, st)),
        forall|k: int|
            #![trigger started(tokens, at_declarations(tokens, st))[k]]
            {
                let functions = started(tokens, at_declarations(tokens, st));
                0 <= k < functions.len() ==> is_last_of_its_name(functions, k) && compile(
                    tokens,
                    st,
                ).fns.contains_key(functions[k].0) && compile(
                    tokens,
                    st,
                ).fns[functions[k].0].address == functions[k].1
            },
{
    lemma_index_from(tokens, st, first_tally());
    let indexed = index_functions(tokens, st);
    if indexed.fns.contains_key("main"@) {
        let called = at_declarations(tokens, st);
        lemma_fn_decs(tokens, called);
        lemma_declarations_agree(tokens, called, st, first_tally());
        lemma_pass_tables(tokens, st, first_tally());
        let functions = started(tokens, called);
        let table = compile(tokens, st).fns;
        assert(addresses(table) =~= addresses(indexed.fns));
        assert forall|i: int| 0 <= i < functions.len() implies called.fns.contains_key(
            (#[trigger] functions[i]).0,
        ) by {
            lemma_tabled_holds(functions, addresses(st.fns), i);
            assert(addresses(indexed.fns).contains_key(functions[i].0));
        }
        assert forall|k: int|
            #![trigger functions[k]]
            0 <= k < functions.len() implies is_last_of_its_name(functions, k)
            && table.contains_key(functions[k].0) && table[functions[k].0].address
            == functions[k].1 by {
            assert forall|j: int| k < j < functions.len() implies (#[trigger] functions[j]).0
                != functions[k].0 by {
                lemma_names_differ(tokens, called, j);
            }
            lemma_tabled_last(functions, addresses(st.fns), k);
            assert(addresses(table).contains_key(functions[k].0));
            assert(addresses(table)[functions[k].0] == table[functions[k].0].address);
        }
    } else {
        let reported = report_unplaced(indexed, DiagnosticKind::NoMain, 0);
        lemma_fn_decs(tokens, State { cursor: 0, ..reported });
    }
}

} // verus!
