//! Laws of the security lattice.

use crate::diagnostic::{Diagnostic, DiagnosticKind};
use crate::model::expression::{call_is_checked, identifier_function, identifier_variable};
use crate::model::state::{at_end, kind_absent, report_if, text, State};
use crate::theory::expression::lemma_call;
use crate::theory::sound;
use crate::token::Token;
use crate::types::{flow_allowed, ValueType};
use vstd::prelude::*;

verus! {

/// The report of a flow that the lattice forbids, found at the token under
/// the cursor of `st`.
pub open spec fn flow_report(tokens: Seq<Token>, st: State) -> Diagnostic {
    Diagnostic {
        kind: DiagnosticKind::SecurityExceeded,
        line: tokens[st.cursor].line,
        token: st.cursor as usize,
    }
}

/// A declared variable is read without complaint about its security level
/// exactly where the level does not exceed the ceiling of the context.
/// Where it does, the use is reported and the compilation has failed.
pub proof fn law_variable_respects_ceiling(
    tokens: Seq<Token>,
    st: State,
    ty: ValueType,
    ceiling: i64,
)
    requires
        st.vars.contains_key(text(tokens, st)),
    ensures
        ({
            let v = st.vars[text(tokens, st)];
            let to = identifier_variable(tokens, st, ty, ceiling);
            let first = st.diagnostics.len() as int;
            let at = if v.ty != ty {
                first + 1
            } else {
                first
            };
            &&& flow_allowed(v.security, ceiling) <==> v.security <= ceiling
            &&& !flow_allowed(v.security, ceiling) ==> to.error && at < to.diagnostics.len()
                && to.diagnostics[at] == flow_report(tokens, st)
            &&& flow_allowed(v.security, ceiling) ==> kind_absent(
                to.diagnostics,
                first,
                DiagnosticKind::SecurityExceeded,
            )
        }),
{
}

/// A call of a declared function whose value is more secret than the
/// ceiling of its context allows is reported, and the compilation has
/// failed.
pub proof fn law_call_respects_ceiling(tokens: Seq<Token>, st: State, ty: ValueType, ceiling: i64)
    requires
        sound(tokens, st),
        !at_end(tokens, st),
    ensures
        call_is_checked(tokens, st, ty, ceiling, identifier_function(tokens, st, ty, ceiling)),
{
    let name = text(tokens, st);
    if st.fns.contains_key(name) {
        let f = st.fns[name];
        let s1 = report_if(tokens, st, f.returns != ty, DiagnosticKind::FunctionTypeMismatch);
        let s2 = report_if(
            tokens,
            s1,
            !flow_allowed(f.security, ceiling),
            DiagnosticKind::SecurityExceeded,
        );
        lemma_call(tokens, s2, f.address, f.params);
    }
}

} // verus!
