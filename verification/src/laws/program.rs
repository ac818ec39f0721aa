//! Laws of the compilation as a whole.

use crate::diagnostic::{Diagnostic, DiagnosticKind};
use crate::model::prepass::{first_tally, index_functions};
use crate::model::program::compile;
use crate::model::state::{annotates, at_end, extends, grows, report_unplaced, valid, State};
use crate::model::statement::statement;
use crate::theory::program::{lemma_compile, lemma_fn_decs, lemma_index_from};
use crate::theory::sound;
use crate::theory::statement::lemma_statement;
use crate::token::Token;
use vstd::prelude::*;

verus! {

/// A program without a function `main` is reported as such, and its
/// compilation has failed, whatever else the program holds.
pub proof fn law_missing_main_is_reported(tokens: Seq<Token>, st: State)
    requires
        valid(tokens, st),
        st.depth == 0,
        st.loop_depth == 0,
        !index_functions(tokens, st).fns.contains_key("main"@),
    ensures
        compile(tokens, st).error,
        index_functions(tokens, st).diagnostics.len() < compile(tokens, st).diagnostics.len(),
        compile(tokens, st).diagnostics[index_functions(tokens, st).diagnostics.len() as int] == (
        Diagnostic { kind: DiagnosticKind::NoMain, line: 0, token: 0 }),
{
    lemma_index_from(tokens, st, first_tally());
    let s1 = index_functions(tokens, st);
    let s2 = report_unplaced(s1, DiagnosticKind::NoMain, 0);
    lemma_fn_decs(tokens, State { cursor: 0, ..s2 });
    assert(s2.diagnostics[s1.diagnostics.len() as int].kind == DiagnosticKind::NoMain);
}

/// A compilation keeps the code and the reports it found and adds to them:
/// the buffer grows at its end, and only the targets of jumps that the
/// compilation itself has emitted are written later. A reported problem
/// stays reported. Every function keeps the address and the signature that
/// the first pass records for it.
pub proof fn law_compilation_only_adds(tokens: Seq<Token>, st: State)
    requires
        valid(tokens, st),
        st.depth == 0,
        st.loop_depth == 0,
    ensures
        grows(st, compile(tokens, st)),
        annotates(index_functions(tokens, st).fns, compile(tokens, st).fns),
{
    lemma_compile(tokens, st);
}

/// Every production of a statement moves the cursor on and never back,
/// keeps the code that it found, and keeps a reported problem reported.
pub proof fn law_statement_only_adds(tokens: Seq<Token>, st: State)
    requires
        sound(tokens, st),
        !at_end(tokens, st),
    ensures
        extends(st, statement(tokens, st)),
        st.cursor < statement(tokens, st).cursor,
{
    lemma_statement(tokens, st);
}

} // verus!
