//! The first pass of the compiler.

use crate::diagnostic::DiagnosticKind;
use crate::expression::is_word;
use crate::model::prepass::{
    behind_call, behind_print, behind_text, index_from, index_functions, scan_params,
    scan_signature, first_tally, Tally, PRELUDE_WORDS,
};
use crate::model::state::{at_end, declares, moved, remaining};
use crate::parser::Parser;
use crate::symbol::{lemma_fn_infos_insert, lookup_builtin, Function};
use crate::token::{Token, TokenKind};
use crate::types::{Param, ValueType};
use vstd::prelude::*;

verus! {

/// The address behind the words of a string literal that start at `address`.
pub(crate) fn text_end(address: i64, text: &str) -> (end: i64)
    ensures
        end == behind_text(address, text@),
{
    let ghost chars = text@;
    let mut end: i64 = address;
    assert(chars.subrange(0, chars.len() as int) =~= chars);
    for c in it: text.chars()
        invariant
            it.seq() == chars,
            behind_text(end, chars.subrange(it.index() as int, chars.len() as int))
                == behind_text(address, chars),
    {
        proof {
            let rest = chars.subrange(it.index() as int, chars.len() as int);
            assert(rest[0] == c);
            assert(rest.drop_first() =~= chars.subrange(
                it.index() as int + 1,
                chars.len() as int,
            ));
        }
        if c != '"' && c != '\\' {
            end = end.wrapping_add(1);
        }
    }
    assert(chars.subrange(chars.len() as int, chars.len() as int) =~= Seq::<char>::empty());
    end
}

/// The address behind the code that prints the arguments of a `print` from
/// the second on, whose first argument begins at `start`.
pub(crate) fn print_end(tokens: &Vec<Token>, start: usize, address: i64) -> (end: i64)
    requires
        1 <= start <= tokens.len(),
    ensures
        end == behind_print(tokens@, start as int, 1, address),
{
    let n: usize = tokens.len();
    let mut i: usize = start;
    let mut num_parenthesis: usize = 1;
    let mut end: i64 = address;
    while num_parenthesis != 0 && i < n
        invariant
            n == tokens.len(),
            1 <= start <= i <= n,
            num_parenthesis <= i - start + 1,
            behind_print(tokens@, i as int, num_parenthesis as int, end) == behind_print(
                tokens@,
                start as int,
                1,
                address,
            ),
        decreases n - i,
    {
        if tokens[i].kind == TokenKind::LeftParenthesis {
            num_parenthesis += 1;
        } else if tokens[i].kind == TokenKind::RightParenthesis {
            num_parenthesis -= 1;
        } else if tokens[i].kind == TokenKind::Comma && num_parenthesis == 1 {
            end = end.wrapping_add(3);
        }
        i += 1;
    }
    end
}

impl Parser {
    /// A function declaration up to its closing parenthesis.
    #[verifier::rlimit(40)]
    pub(crate) fn scan_signature(&mut self, tokens: &Vec<Token>, address: i64)
        requires
            old(self).wf(tokens@),
        ensures
            final(self).wf(tokens@),
            final(self)@ == scan_signature(tokens@, old(self)@, address),
            declares(old(self)@, final(self)@),
            final(self)@.vars == old(self)@.vars,
            !at_end(tokens@, old(self)@) ==> old(self)@.cursor < final(self)@.cursor,
    {
        let ghost start = self@;
        self.consume_token(tokens);
        let fn_type = match self.kind(tokens) {
            TokenKind::Void => ValueType::Void,
            TokenKind::FloatType => ValueType::Float,
            TokenKind::StringType => ValueType::Str,
            _ => ValueType::Int,
        };
        let mut security: i64 = 0;
        if fn_type != ValueType::Void {
            self.consume_token(tokens);
            self.consume_token(tokens);
            security = self.security_here(tokens);
        }
        self.consume_token(tokens);
        let name_token: usize = self.current_token_num;
        let reserved = lookup_builtin(&self.sl_data, &tokens[name_token].text).is_some();
        self.report_if(tokens, reserved, DiagnosticKind::ReservedFunctionName);
        self.consume_token(tokens);
        self.consume_token(tokens);
        let mut params: Vec<Param> = Vec::new();
        let ghost opened = self@;
        if self.kind(tokens) != TokenKind::RightParenthesis {
            loop
                invariant_except_break
                    scan_params(tokens@, self@, params@) == scan_params(
                        tokens@,
                        opened,
                        Seq::empty(),
                    ),
                invariant
                    self.wf(tokens@),
                    declares(start, self@),
                    self@.vars == start.vars,
                    self@.fns == start.fns,
                    !at_end(tokens@, start) ==> start.cursor < self@.cursor,
                ensures
                    (self@, params@) == scan_params(tokens@, opened, Seq::empty()),
                decreases remaining(tokens@, self@),
            {
                let ghost head = self@;
                self.consume_token(tokens);
                let ty = match self.kind(tokens).value_type() {
                    Some(ty) => ty,
                    None => ValueType::Int,
                };
                self.consume_token(tokens);
                self.consume_token(tokens);
                let level = self.security_here(tokens);
                self.consume_token(tokens);
                params.push(Param { ty, security: level });
                if self.kind(tokens) != TokenKind::Comma {
                    break ;
                } else {
                    self.consume_token(tokens);
                    assert(moved(tokens@, head, self@));
                }
            }
        }
        self.consume_token(tokens);
        let function = Function { address, returns: fn_type, security, params, defined: false };
        proof {
            lemma_fn_infos_insert(self.fn_data.map(), tokens@[name_token as int].text@, function);
        }
        self.fn_data.insert(tokens[name_token].text.clone(), function);
    }

    /// The address behind the code of a call whose name stands before the
    /// cursor and whose opening parenthesis stands under it.
    pub(crate) fn call_size(&self, tokens: &Vec<Token>, address: i64) -> (end: i64)
        requires
            self.wf(tokens@),
            self@.cursor > 0,
        ensures
            end == behind_call(tokens@, self@, address),
    {
        let name = &tokens[self.current_token_num - 1].text;
        if lookup_builtin(&self.sl_data, name).is_none() {
            address.wrapping_add(3)
        } else if is_word(name, "print") {
            print_end(tokens, self.current_token_num + 1, address.wrapping_add(3))
        } else if is_word(name, "read") {
            address.wrapping_add(3)
        } else {
            address.wrapping_add(2)
        }
    }

    /// The first pass: records every declared function with its signature
    /// and the address at which its code will start.
    #[verifier::rlimit(40)]
    pub(crate) fn index_functions(&mut self, tokens: &Vec<Token>)
        requires
            old(self).wf(tokens@),
        ensures
            final(self).wf(tokens@),
            final(self)@ == index_functions(tokens@, old(self)@),
            declares(old(self)@, final(self)@),
            final(self)@.vars == old(self)@.vars,
    {
        let ghost start = self@;
        let mut instruction_counter: i64 = PRELUDE_WORDS;
        let mut slots: i64 = 0;
        while self.is_last_token() == false
            invariant
                self.wf(tokens@),
                declares(start, self@),
                self@.vars == start.vars,
                index_from(
                    tokens@,
                    self@,
                    Tally { address: instruction_counter, slots },
                ) == index_from(tokens@, start, first_tally()),
            decreases remaining(tokens@, self@),
        {
            let here: usize = self.current_token_num;
            match tokens[here].kind {
                TokenKind::Fn => {
                    self.scan_signature(tokens, instruction_counter);
                    slots = 0;
                },
                TokenKind::Int => {
                    if here != 0 && tokens[here - 1].kind != TokenKind::Colon {
                        instruction_counter = instruction_counter.wrapping_add(2);
                    }
                    self.consume_token(tokens);
                },
                TokenKind::Float => {
                    instruction_counter = instruction_counter.wrapping_add(2);
                    self.consume_token(tokens);
                },
                TokenKind::Str => {
                    instruction_counter = text_end(
                        instruction_counter.wrapping_add(1),
                        tokens[here].text.as_str(),
                    ).wrapping_add(1);
                    self.consume_token(tokens);
                },
                TokenKind::Let => {
                    self.consume_token(tokens);
                    slots = slots.wrapping_add(1);
                    if self.current_token_num + 1 < self.num_tokens {
                        if tokens[self.current_token_num + 1].kind.value_type().is_some() {
                            instruction_counter = instruction_counter.wrapping_add(2);
                        }
                    }
                },
                TokenKind::Identifier => {
                    self.consume_token(tokens);
                    if here != 0 && tokens[here - 1].kind == TokenKind::Let {
                    } else if self.kind(tokens) != TokenKind::LeftParenthesis {
                        instruction_counter = instruction_counter.wrapping_add(2);
                    } else {
                        instruction_counter = self.call_size(tokens, instruction_counter);
                    }
                },
                TokenKind::If | TokenKind::While => {
                    instruction_counter = instruction_counter.wrapping_add(4);
                    self.consume_token(tokens);
                },
                TokenKind::Return => {
                    instruction_counter = instruction_counter.wrapping_add(1).wrapping_add(
                        slots,
                    ).wrapping_add(slots);
                    self.consume_token(tokens);
                },
                TokenKind::Break => {
                    instruction_counter = instruction_counter.wrapping_add(2);
                    self.consume_token(tokens);
                },
                other => {
                    if other.operator().is_some() {
                        instruction_counter = instruction_counter.wrapping_add(1);
                    }
                    self.consume_token(tokens);
                },
            }
        }
    }
}

} // verus!
