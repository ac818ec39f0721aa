//! The statement compiler.

use crate::diagnostic::{DiagnosticKind, Expectation};
use crate::expression::is_word;
use crate::model::state::{
    accepts, all_below, at_end, extends, extends_evenly, kind, moved, patch_all, positions,
    remaining, State,
};
use crate::model::statement::{
    annotated_security, annotation, block, branch, branch_is_closed, branch_layout,
    break_statement, chain_is_linked, condition, declaration_is_checked, fn_call, if_statement,
    leaves, loop_is_closed, pops, purge, return_statement, scope_is_closed, security_here,
    statement, statements, var_dec, var_def, while_statement,
};
use crate::opcode::{
    ARG_STORE, HALT, JUMP, JUMP_IF_FALSE, LOCAL_STORE, POP, RETURN_NON_VAL, RETURN_VAL,
};
use crate::parser::Parser;
use crate::symbol::{copy_params, lookup_builtin, Variable};
use crate::theory::statement::{lemma_if_chain, lemma_var_dec, lemma_while_statement};
use crate::token::{literal_value, Token, TokenKind};
use crate::types::{Param, ValueType, MAX_SECURITY};
use vstd::prelude::*;

verus! {

impl Parser {
    /// The security level written under the cursor.
    pub(crate) fn security_here(&self, tokens: &Vec<Token>) -> (level: i64)
        requires
            self.wf(tokens@),
        ensures
            level == security_here(tokens@, self@),
    {
        if tokens[self.current_token_num].kind == TokenKind::Int {
            literal_value(&tokens[self.current_token_num])
        } else {
            0
        }
    }

    /// The annotation of a declaration and the `=` behind it. Returns the
    /// security level that the annotation gives.
    pub(crate) fn annotation(&mut self, tokens: &Vec<Token>) -> (security_level: i64)
        requires
            old(self).wf(tokens@),
        ensures
            final(self).wf(tokens@),
            final(self)@ == annotation(tokens@, old(self)@),
            security_level == annotated_security(tokens@, old(self)@),
            extends_evenly(old(self)@, final(self)@),
            final(self)@.vars == old(self)@.vars,
    {
        self.expect(tokens, Expectation::VarType);
        self.expect(tokens, Expectation::Colon);
        let security_level = self.security_here(tokens);
        if security_level > MAX_SECURITY {
            self.report(tokens, DiagnosticKind::SecurityAboveMaximum(security_level));
        } else if security_level < 0 {
            self.report(tokens, DiagnosticKind::SecurityBelowMinimum(security_level));
        }
        self.expect(tokens, Expectation::Integer);
        self.expect(tokens, Expectation::Equal);
        security_level
    }

    /// A declaration of a variable.
    #[verifier::rlimit(40)]
    pub(crate) fn var_dec(&mut self, tokens: &Vec<Token>)
        requires
            old(self).ready(tokens@),
            !at_end(tokens@, old(self)@),
            kind(tokens@, old(self)@) == TokenKind::Let,
        ensures
            final(self).ready(tokens@),
            final(self)@ == var_dec(tokens@, old(self)@),
            extends(old(self)@, final(self)@),
            final(self)@.breaks == old(self)@.breaks,
            old(self)@.cursor < final(self)@.cursor,
            declaration_is_checked(tokens@, old(self)@, final(self)@),
    {
        self.expect(tokens, Expectation::Let);
        let name_token: usize = self.current_token_num;
        let declared_before = self.var_data.find(&tokens[name_token].text).is_some();
        self.report_if(tokens, declared_before, DiagnosticKind::AlreadyDeclared);
        self.expect(tokens, Expectation::Identifier);
        let declared = self.kind(tokens).value_type();
        self.stack_size += 1;
        let security_level = self.annotation(tokens);
        let expression_type = match declared {
            Some(ty) => ty,
            None => ValueType::Int,
        };
        self.expression(tokens, expression_type, security_level);
        let mem_location: i64 = #[verifier::truncate] ((self.stack_size - 1) as i64);
        let variable = Variable {
            slot: mem_location,
            ty: match declared {
                Some(ty) => ty,
                None => ValueType::Unknown,
            },
            security: security_level,
            is_arg: false,
            depth: self.current_scope,
            owner: self.current_fn,
        };
        self.var_data.insert(tokens[name_token].text.clone(), variable);
        self.emit2(tokens, LOCAL_STORE, mem_location);
        proof {
            lemma_var_dec(tokens@, old(self)@);
        }
    }

    /// An assignment.
    pub(crate) fn var_def(&mut self, tokens: &Vec<Token>)
        requires
            old(self).ready(tokens@),
        ensures
            final(self).ready(tokens@),
            final(self)@ == var_def(tokens@, old(self)@),
            extends_evenly(old(self)@, final(self)@),
            !at_end(tokens@, old(self)@) ==> old(self)@.cursor < final(self)@.cursor,
    {
        let name_token: usize = self.current_token_num;
        self.expect(tokens, Expectation::Identifier);
        self.expect(tokens, Expectation::Equal);
        let found = self.var_data.find(&tokens[name_token].text);
        let v: Variable = match found {
            Some(i) => *self.var_data.get(i),
            None => Variable {
                slot: 0,
                ty: ValueType::Int,
                security: 0,
                is_arg: false,
                depth: 1,
                owner: 0,
            },
        };
        if found.is_none() {
            self.report_quoting(tokens, DiagnosticKind::UndeclaredVariable, name_token);
        }
        if v.depth > self.current_scope {
            self.report_quoting(tokens, DiagnosticKind::OutOfScope, name_token);
        }
        self.expression(tokens, v.ty, v.security);
        if v.is_arg == false {
            self.emit2(tokens, LOCAL_STORE, v.slot);
        } else {
            self.emit2(tokens, ARG_STORE, v.slot);
        }
    }

    /// A call that stands as a statement.
    pub(crate) fn fn_call(&mut self, tokens: &Vec<Token>)
        requires
            old(self).ready(tokens@),
            !at_end(tokens@, old(self)@),
        ensures
            final(self).ready(tokens@),
            final(self)@ == fn_call(tokens@, old(self)@),
            extends_evenly(old(self)@, final(self)@),
            old(self)@.cursor < final(self)@.cursor,
    {
        match self.fn_data.find(&tokens[self.current_token_num].text) {
            Some(f) => {
                let function = self.fn_data.get(f);
                let address = function.address;
                let result = function.returns;
                let params = copy_params(&function.params);
                self.report_if(tokens, result != ValueType::Void, DiagnosticKind::CallNotVoid);
                self.call(tokens, address, &params);
            },
            None => {
                self.report(tokens, DiagnosticKind::UnknownFunction);
                let params: Vec<Param> = Vec::new();
                self.call(tokens, 0, &params);
            },
        }
    }

    /// The code that gives up every local slot, the highest first.
    pub(crate) fn pop_locals(&mut self, tokens: &Vec<Token>)
        requires
            old(self).wf(tokens@),
        ensures
            final(self).wf(tokens@),
            final(self)@ == pops(old(self)@, old(self)@.next_slot),
            extends_evenly(old(self)@, final(self)@),
            final(self)@.cursor == old(self)@.cursor,
    {
        let ghost start = self@;
        let mut local: usize = self.stack_size;
        while local > 0
            invariant
                self.wf(tokens@),
                extends_evenly(start, self@),
                self@.cursor == start.cursor,
                pops(self@, local as int) == pops(start, start.next_slot),
            decreases local,
        {
            self.emit2(tokens, POP, #[verifier::truncate] ((local - 1) as i64));
            local -= 1;
        }
    }

    /// A `return`.
    #[verifier::rlimit(40)]
    pub(crate) fn return_statement(&mut self, tokens: &Vec<Token>)
        requires
            old(self).ready(tokens@),
            !at_end(tokens@, old(self)@),
            kind(tokens@, old(self)@) == TokenKind::Return,
        ensures
            final(self).ready(tokens@),
            final(self)@ == return_statement(tokens@, old(self)@),
            extends(old(self)@, final(self)@),
            final(self)@.breaks == old(self)@.breaks,
            final(self)@.next_slot == old(self)@.next_slot,
            old(self)@.cursor < final(self)@.cursor,
    {
        self.expect(tokens, Expectation::Return);
        if self.current_scope == 1 {
            self.return_num += 1;
        }
        let mut fn_type: Option<ValueType> = None;
        let mut security: i64 = 0;
        match self.fn_data.find(&tokens[self.current_fn].text) {
            Some(f) => {
                fn_type = Some(self.fn_data.get(f).returns);
                security = self.fn_data.get(f).security;
            },
            None => {},
        }
        if self.kind(tokens) != TokenKind::SemiColon {
            match fn_type {
                Some(ty) => {
                    if ty != ValueType::Void {
                        self.expression(tokens, ty, security);
                    } else {
                        self.report(tokens, DiagnosticKind::ReturnValueFromVoid);
                    }
                },
                None => {
                    self.expression(tokens, ValueType::Int, 0);
                },
            }
            self.pop_locals(tokens);
            self.emit(tokens, RETURN_VAL);
        } else {
            let missing = match fn_type {
                Some(ty) => ty != ValueType::Void,
                None => false,
            };
            self.report_if(tokens, missing, DiagnosticKind::MissingReturnValue);
            self.pop_locals(tokens);
            if is_word(&tokens[self.current_fn].text, "main") {
                self.emit(tokens, HALT);
            } else {
                self.emit(tokens, RETURN_NON_VAL);
            }
        }
    }

    /// A `break`.
    pub(crate) fn break_statement(&mut self, tokens: &Vec<Token>)
        requires
            old(self).ready(tokens@),
        ensures
            final(self).ready(tokens@),
            final(self)@ == break_statement(tokens@, old(self)@),
            extends(old(self)@, final(self)@),
            final(self)@.next_slot == old(self)@.next_slot,
            final(self)@.returns == old(self)@.returns,
            !at_end(tokens@, old(self)@) ==> old(self)@.cursor < final(self)@.cursor,
    {
        self.expect(tokens, Expectation::Break);
        self.emit2(tokens, JUMP, 0);
        let ghost before = self.breaks@;
        self.breaks.push(self.code.len() - 1);
        assert(positions(self.breaks@) =~= positions(before).push(self.code.len() - 1));
    }

    /// Takes out of sight the variables of the block that is being left.
    pub(crate) fn purge(&mut self, tokens: &Vec<Token>)
        requires
            old(self).wf(tokens@),
        ensures
            final(self).wf(tokens@),
            final(self)@ == purge(old(self)@),
    {
        let ghost start = self@;
        let ghost before = self.var_data.map();
        let mut i: usize = 0;
        while i < self.var_data.len()
            invariant
                self.wf(tokens@),
                self@ == (State { vars: self.var_data.map(), ..start }),
                before == start.vars,
                i <= self.var_data.spec_len(),
                forall|name: Seq<char>| #[trigger]
                    self.var_data.map().contains_key(name) ==> before.contains_key(name)
                        && before[name] == self.var_data.map()[name],
                forall|name: Seq<char>|
                    before.contains_key(name) && !leaves(start, #[trigger] before[name])
                        ==> self.var_data.map().contains_key(name),
                forall|j: int| 0 <= j < i ==> !leaves(start, #[trigger] self.var_data.value_at(j)),
            decreases self.var_data.spec_len() - i,
        {
            let v = *self.var_data.get(i);
            proof {
                self.var_data.lemma_entry(i as int);
            }
            if v.owner == self.current_fn && v.depth == self.current_scope {
                self.var_data.remove_at(i);
            } else {
                i += 1;
            }
        }
        proof {
            assert forall|name: Seq<char>| #[trigger]
                self.var_data.map().contains_key(name) implies !leaves(
                start,
                before[name],
            ) by {
                let j = self.var_data.position(name);
                self.var_data.lemma_entry(j);
            }
            assert(self.var_data.map() =~= purge(start).vars);
        }
    }
}

impl Parser {
    /// Writes the address `target` into the code at each of `slots`.
    pub(crate) fn patch_all(&mut self, tokens: &Vec<Token>, slots: &Vec<usize>, target: usize)
        requires
            old(self).wf(tokens@),
            all_below(positions(slots@), old(self)@.code.len() as int),
        ensures
            final(self).wf(tokens@),
            final(self)@ == patch_all(old(self)@, positions(slots@), target as int),
            final(self)@.code.len() == old(self)@.code.len(),
    {
        let ghost start = self@;
        let mut i: usize = 0;
        while i < slots.len()
            invariant
                self.wf(tokens@),
                i <= slots.len(),
                all_below(positions(slots@), start.code.len() as int),
                self@ == patch_all(start, positions(slots@).take(i as int), target as int),
                self@.code.len() == start.code.len(),
            decreases slots.len() - i,
        {
            assert(positions(slots@).take(i + 1).drop_last() =~= positions(slots@).take(i as int));
            assert(positions(slots@).take(i + 1).last() == slots@[i as int]);
            assert(positions(slots@)[i as int] == slots@[i as int]);
            self.patch(tokens, slots[i], target);
            i += 1;
        }
        assert(positions(slots@).take(slots@.len() as int) =~= positions(slots@));
    }

    /// The head of an `if` or a `while`.
    pub(crate) fn condition(&mut self, tokens: &Vec<Token>, keyword: Expectation)
        requires
            old(self).ready(tokens@),
        ensures
            final(self).ready(tokens@),
            final(self)@ == condition(tokens@, old(self)@, keyword),
            extends_evenly(old(self)@, final(self)@),
            final(self)@.code.len() >= old(self)@.code.len() + 2,
            !at_end(tokens@, old(self)@) && accepts(keyword, kind(tokens@, old(self)@))
                ==> old(self)@.cursor < final(self)@.cursor,
    {
        self.expect(tokens, keyword);
        let expression_type = self.change_expression_type(tokens);
        self.expression(tokens, expression_type, MAX_SECURITY);
        self.emit2(tokens, JUMP_IF_FALSE, 0);
    }

    /// A block: statements in curly brackets.
    #[verifier::rlimit(40)]
    pub(crate) fn block(&mut self, tokens: &Vec<Token>)
        requires
            old(self).ready(tokens@),
        ensures
            final(self).ready(tokens@),
            final(self)@ == block(tokens@, old(self)@),
            extends(old(self)@, final(self)@),
            scope_is_closed(old(self)@, final(self)@),
        decreases remaining(tokens@, old(self)@), 1nat,
    {
        let ghost start = self@;
        self.expect(tokens, Expectation::LeftCurly);
        self.current_scope += 1;
        let ghost inside = self@;
        while self.is_last_token() == false && self.kind(tokens) != TokenKind::RightCurly
            invariant
                self.wf(tokens@),
                start == old(self)@,
                extends(inside, self@),
                0 <= self@.next_slot <= self@.cursor,
                0 <= self@.returns <= self@.cursor,
                0 <= self@.loop_depth <= self@.cursor,
                at_end(tokens@, self@) || (start.cursor < self@.cursor && self@.depth
                    <= self@.cursor),
                statements(tokens@, self@) == statements(tokens@, inside),
            decreases remaining(tokens@, self@),
        {
            self.statement(tokens);
        }
        self.expect(tokens, Expectation::RightCurly);
        self.purge(tokens);
        self.current_scope -= 1;
    }

    /// One statement, told from its first token.
    #[verifier::rlimit(40)]
    pub(crate) fn statement(&mut self, tokens: &Vec<Token>)
        requires
            old(self).ready(tokens@),
            !at_end(tokens@, old(self)@),
        ensures
            final(self).ready(tokens@),
            final(self)@ == statement(tokens@, old(self)@),
            extends(old(self)@, final(self)@),
            old(self)@.cursor < final(self)@.cursor,
        decreases remaining(tokens@, old(self)@), 4nat,
    {
        let here: usize = self.current_token_num;
        match tokens[here].kind {
            TokenKind::Let => {
                self.var_dec(tokens);
                self.expect(tokens, Expectation::SemiColon);
            },
            TokenKind::Identifier => {
                if tokens[here + 1].kind != TokenKind::LeftParenthesis {
                    self.var_def(tokens);
                    self.expect(tokens, Expectation::SemiColon);
                } else {
                    match lookup_builtin(&self.sl_data, &tokens[here].text) {
                        Some(b) => {
                            let result = self.sl_data[b].returns;
                            self.report_if(
                                tokens,
                                result != ValueType::Void,
                                DiagnosticKind::CallNotVoid,
                            );
                            self.sl_use(tokens, ValueType::Void);
                            self.expect(tokens, Expectation::SemiColon);
                        },
                        None => {
                            self.fn_call(tokens);
                            self.expect(tokens, Expectation::SemiColon);
                        },
                    }
                }
            },
            TokenKind::If => {
                self.if_statement(tokens);
            },
            TokenKind::While => {
                self.while_statement(tokens);
            },
            TokenKind::Break => {
                self.report_if(
                    tokens,
                    self.loop_nest_num == 0,
                    DiagnosticKind::BreakOutsideLoop,
                );
                self.break_statement(tokens);
                self.expect(tokens, Expectation::SemiColon);
            },
            TokenKind::Return => {
                self.return_statement(tokens);
                self.expect(tokens, Expectation::SemiColon);
            },
            _ => {
                self.report(tokens, DiagnosticKind::UnknownStatement);
                self.consume_token(tokens);
            },
        }
    }

    /// One conditional branch of a chain.
    pub(crate) fn branch(&mut self, tokens: &Vec<Token>)
        requires
            old(self).ready(tokens@),
        ensures
            final(self).ready(tokens@),
            final(self)@ == branch(tokens@, old(self)@),
            extends(old(self)@, final(self)@),
            !at_end(tokens@, old(self)@) && kind(tokens@, old(self)@) == TokenKind::If
                ==> old(self)@.cursor < final(self)@.cursor,
            branch_is_closed(branch_layout(tokens@, old(self)@), final(self)@.code),
            branch_layout(tokens@, old(self)@).jump == final(self)@.code.len() - 1,
        decreases remaining(tokens@, old(self)@), 2nat,
    {
        self.condition(tokens, Expectation::If);
        let code_location: usize = self.code.len() - 1;
        self.block(tokens);
        self.emit2(tokens, JUMP, 0);
        let jump_location: usize = self.code.len();
        self.patch(tokens, code_location, jump_location);
    }

    /// A chain of `if`, `else if` and `else`.
    #[verifier::rlimit(40)]
    pub(crate) fn if_statement(&mut self, tokens: &Vec<Token>)
        requires
            old(self).ready(tokens@),
            !at_end(tokens@, old(self)@),
            kind(tokens@, old(self)@) == TokenKind::If,
        ensures
            final(self).ready(tokens@),
            final(self)@ == if_statement(tokens@, old(self)@, Seq::empty()),
            extends(old(self)@, final(self)@),
            old(self)@.cursor < final(self)@.cursor,
            chain_is_linked(tokens@, old(self)@, final(self)@.code),
        decreases remaining(tokens@, old(self)@), 3nat,
    {
        let ghost start = self@;
        let mut end_of_if_jump_locations: Vec<usize> = Vec::new();
        assert(positions(end_of_if_jump_locations@) =~= Seq::<int>::empty());
        loop
            invariant_except_break
                if_statement(tokens@, self@, positions(end_of_if_jump_locations@))
                    == if_statement(tokens@, start, Seq::empty()),
            invariant
                self.ready(tokens@),
                start == old(self)@,
                start.cursor <= self@.cursor,
                all_below(positions(end_of_if_jump_locations@), self@.code.len() as int),
            ensures
                if_statement(tokens@, start, Seq::empty()) == patch_all(
                    self@,
                    positions(end_of_if_jump_locations@),
                    self@.code.len() as int,
                ),
            decreases remaining(tokens@, self@),
        {
            let ghost head = self@;
            let ghost ends = positions(end_of_if_jump_locations@);
            self.branch(tokens);
            end_of_if_jump_locations.push(self.code.len() - 1);
            assert(positions(end_of_if_jump_locations@) =~= ends.push(self@.code.len() - 1));
            if self.kind(tokens) != TokenKind::Else {
                break ;
            } else {
                self.expect(tokens, Expectation::Else);
                assert(moved(tokens@, head, self@));
                if self.kind(tokens) == TokenKind::LeftCurly {
                    self.block(tokens);
                    break ;
                }
            }
        }
        self.patch_all(tokens, &end_of_if_jump_locations, self.code.len());
        proof {
            lemma_if_chain(tokens@, start, start, Seq::empty(), Seq::empty());
        }
    }

    /// A `while` loop.
    #[verifier::rlimit(40)]
    pub(crate) fn while_statement(&mut self, tokens: &Vec<Token>)
        requires
            old(self).ready(tokens@),
            !at_end(tokens@, old(self)@),
            kind(tokens@, old(self)@) == TokenKind::While,
        ensures
            final(self).ready(tokens@),
            final(self)@ == while_statement(tokens@, old(self)@),
            extends(old(self)@, final(self)@),
            old(self)@.cursor < final(self)@.cursor,
            loop_is_closed(tokens@, old(self)@, final(self)@.code),
        decreases remaining(tokens@, old(self)@), 3nat,
    {
        let begin_location: usize = self.code.len();
        self.condition(tokens, Expectation::While);
        let code_location: usize = self.code.len() - 1;
        let mut breaks: Vec<usize> = Vec::new();
        core::mem::swap(&mut self.breaks, &mut breaks);
        assert(positions(self.breaks@) =~= Seq::<int>::empty());
        self.loop_nest_num += 1;
        self.block(tokens);
        self.loop_nest_num -= 1;
        self.emit2(tokens, JUMP, #[verifier::truncate] (begin_location as i64));
        let jump_location: usize = self.code.len();
        self.patch(tokens, code_location, jump_location);
        core::mem::swap(&mut self.breaks, &mut breaks);
        self.patch_all(tokens, &breaks, jump_location);
        proof {
            lemma_while_statement(tokens@, old(self)@);
        }
    }
}

} // verus!
