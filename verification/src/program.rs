//! Function declarations and the compilation of a whole program.

use crate::diagnostic::{Diagnostic, DiagnosticKind, Expectation};
use crate::expression::is_word;
use crate::model::prepass::index_functions;
use crate::model::program::{compile, declare_params, define, fn_dec, fn_decs};
use crate::model::state::{
    annotates, at_end, declares, grows, lemma_annotates_twice, moved, positions, remaining,
};
use crate::opcode::CALL;
use crate::parser::Parser;
use crate::symbol::{copy_params, lemma_fn_infos_insert, Function, Variable};
use crate::token::{Token, TokenKind};
use crate::types::ValueType;
use vstd::prelude::*;

verus! {

impl Parser {
    /// The parameters of a function, each of which becomes a variable.
    #[verifier::rlimit(40)]
    pub(crate) fn declare_params(&mut self, tokens: &Vec<Token>)
        requires
            old(self).wf(tokens@),
        ensures
            final(self).wf(tokens@),
            final(self)@ == declare_params(tokens@, old(self)@, 0),
            declares(old(self)@, final(self)@),
            final(self)@.fns == old(self)@.fns,
    {
        let ghost start = self@;
        let mut arg_location: usize = 0;
        loop
            invariant_except_break
                declare_params(tokens@, self@, arg_location as int) == declare_params(
                    tokens@,
                    start,
                    0,
                ),
                arg_location <= self@.cursor,
            invariant
                self.wf(tokens@),
                declares(start, self@),
                self@.fns == start.fns,
            ensures
                self@ == declare_params(tokens@, start, 0),
            decreases remaining(tokens@, self@),
        {
            let ghost head = self@;
            let name_token: usize = self.current_token_num;
            self.expect(tokens, Expectation::Identifier);
            let ty = match self.kind(tokens).value_type() {
                Some(ty) => ty,
                None => ValueType::Int,
            };
            self.expect(tokens, Expectation::VarType);
            self.expect(tokens, Expectation::Colon);
            let security = self.security_here(tokens);
            self.expect(tokens, Expectation::Integer);
            let variable = Variable {
                slot: #[verifier::truncate] (arg_location as i64),
                ty,
                security,
                is_arg: true,
                depth: 1,
                owner: self.current_fn,
            };
            self.var_data.insert(tokens[name_token].text.clone(), variable);
            if self.kind(tokens) != TokenKind::Comma {
                break ;
            } else {
                self.expect(tokens, Expectation::Comma);
                assert(moved(tokens@, head, self@));
                arg_location += 1;
            }
        }
    }

    /// Marks the function named under the cursor as met, and reports it
    /// where it was met before.
    pub(crate) fn define(&mut self, tokens: &Vec<Token>)
        requires
            old(self).wf(tokens@),
        ensures
            final(self).wf(tokens@),
            final(self)@ == define(tokens@, old(self)@),
            declares(old(self)@, final(self)@),
            annotates(old(self)@.fns, final(self)@.fns),
            final(self)@.cursor == old(self)@.cursor,
            final(self)@.vars == old(self)@.vars,
    {
        match self.fn_data.find(&tokens[self.current_token_num].text) {
            Some(i) => {
                let function = self.fn_data.get(i);
                let met_before = function.defined;
                let updated = Function {
                    address: function.address,
                    returns: function.returns,
                    security: function.security,
                    params: copy_params(&function.params),
                    defined: true,
                };
                proof {
                    lemma_fn_infos_insert(
                        self.fn_data.map(),
                        tokens@[self@.cursor].text@,
                        updated,
                    );
                }
                self.fn_data.set_at(i, updated);
                self.report_if(tokens, met_before, DiagnosticKind::DuplicateFunction);
            },
            None => {},
        }
    }

    /// The declaration of a function.
    #[verifier::rlimit(40)]
    pub(crate) fn fn_dec(&mut self, tokens: &Vec<Token>)
        requires
            old(self).wf(tokens@),
            !at_end(tokens@, old(self)@),
            old(self)@.depth == 0,
            old(self)@.loop_depth == 0,
        ensures
            final(self).wf(tokens@),
            final(self)@ == fn_dec(tokens@, old(self)@),
            grows(old(self)@, final(self)@),
            annotates(old(self)@.fns, final(self)@.fns),
            old(self)@.cursor < final(self)@.cursor,
    {
        self.stack_size = 0;
        self.expect(tokens, Expectation::Fn);
        let is_void = self.kind(tokens) == TokenKind::Void;
        if is_void {
            self.expect(tokens, Expectation::FnType);
        } else {
            self.expect(tokens, Expectation::FnType);
            self.expect(tokens, Expectation::Colon);
            self.expect(tokens, Expectation::Integer);
        }
        self.current_fn = self.current_token_num;
        let is_main = is_word(&tokens[self.current_fn].text, "main");
        self.report_if(tokens, is_main && !is_void, DiagnosticKind::MainNotVoid);
        self.define(tokens);
        self.expect(tokens, Expectation::Identifier);
        self.expect(tokens, Expectation::LeftParenthesis);
        if !is_main && self.kind(tokens) != TokenKind::RightParenthesis {
            self.declare_params(tokens);
        }
        self.expect(tokens, Expectation::RightParenthesis);
        self.return_num = 0;
        self.breaks = Vec::new();
        assert(positions(self.breaks@) =~= Seq::<int>::empty());
        self.block(tokens);
        if self.return_num == 0 {
            self.report_unplaced(tokens, DiagnosticKind::MissingReturn, self.current_fn);
        }
    }

    /// Compiles the program `tokens` and says whether a problem was reported.
    ///
    /// The code and the reports are added to those that the compiler holds.
    /// Code is emitted to the end of the input whether or not a problem is
    /// found on the way. A program that declares no function `main` is
    /// reported as such, whatever else it holds. Every function keeps the
    /// address and the signature that the first pass recorded for it.
    #[verifier::rlimit(40)]
    pub fn parse(&mut self, tokens: &Vec<Token>) -> (had_error: bool)
        requires
            old(self).idle(tokens@),
        ensures
            final(self).idle(tokens@),
            final(self).has_tables(),
            final(self).token_count() == old(self).token_count(),
            final(self)@ == compile(tokens@, old(self)@),
            had_error == final(self)@.error,
            grows(old(self)@, final(self)@),
            annotates(index_functions(tokens@, old(self)@).fns, final(self)@.fns),
            !index_functions(tokens@, old(self)@).fns.contains_key("main"@) ==> had_error
                && final(self)@.diagnostics[index_functions(
                tokens@,
                old(self)@,
            ).diagnostics.len() as int] == (Diagnostic {
                kind: DiagnosticKind::NoMain,
                line: 0,
                token: 0,
            }),
    {
        let ghost start = self@;
        self.index_functions(tokens);
        let ghost indexed = self@;
        match self.fn_data.find(&String::from_str("main")) {
            Some(f) => {
                let address = self.fn_data.get(f).address;
                self.emit3(tokens, CALL, address, 0);
            },
            None => {
                self.report_unplaced(tokens, DiagnosticKind::NoMain, 0);
            },
        }
        self.current_token_num = 0;
        let ghost called = self@;
        while self.is_last_token() == false
            invariant
                self.wf(tokens@),
                self@.depth == 0,
                self@.loop_depth == 0,
                grows(called, self@),
                annotates(called.fns, self@.fns),
                fn_decs(tokens@, self@) == fn_decs(tokens@, called),
            decreases remaining(tokens@, self@),
        {
            let ghost before = self@;
            self.fn_dec(tokens);
            proof {
                lemma_annotates_twice(called.fns, before.fns, self@.fns);
            }
        }
        self.error
    }
}

} // verus!
