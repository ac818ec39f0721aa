//! The compiler: its state and the elementary steps on it.

use crate::diagnostic::{Diagnostic, DiagnosticKind, Expectation};
use crate::model::state::{
    accepts, at_end, consume, counted, emit, emit2, emit3, expect, extends_evenly,
    initial_state, kind, patch, positions, report, report_if, report_quoting, report_unplaced,
    valid, word_of, State,
};
use crate::serialize::{serialize, to_bytes};
use crate::symbol::{
    fn_infos, is_standard_library, standard_library, Builtin, FnInfo, Function, Variable,
};
use crate::table::NameTable;
use crate::token::{well_formed, Token, TokenKind};
use vstd::prelude::*;

verus! {

/// A compilation in progress. Its view is the state of the compilation.
pub struct Parser {
    /// Whether a problem has been reported.
    pub(crate) error: bool,
    /// The number of tokens of the input.
    pub(crate) num_tokens: usize,
    /// The index of the token under the cursor.
    pub(crate) current_token_num: usize,
    /// The instruction buffer.
    pub(crate) code: Vec<i64>,
    /// The variables in sight.
    pub(crate) var_data: NameTable<Variable>,
    /// The number of local slots handed out in the current function.
    pub(crate) stack_size: usize,
    /// The declared functions.
    pub(crate) fn_data: NameTable<Function>,
    /// The current function, by the index of the token that names it.
    pub(crate) current_fn: usize,
    /// The number of `return` statements met at the top level of the body
    /// of the current function.
    pub(crate) return_num: usize,
    /// The number of blocks the cursor is inside of.
    pub(crate) current_scope: usize,
    /// The built-in functions.
    pub(crate) sl_data: Vec<Builtin>,
    /// The number of loops the cursor is inside of.
    pub(crate) loop_nest_num: usize,
    /// The targets of the `break`s met in the innermost loop.
    pub(crate) breaks: Vec<usize>,
    /// The problems reported, oldest first.
    pub(crate) diagnostics: Vec<Diagnostic>,
}

impl View for Parser {
    type V = State;

    /// The state of the compilation.
    open(crate) spec fn view(&self) -> State {
        State {
            cursor: self.current_token_num as int,
            code: self.code@,
            error: self.error,
            diagnostics: self.diagnostics@,
            vars: self.var_data.map(),
            fns: fn_infos(self.fn_data.map()),
            builtins: self.sl_data@,
            next_slot: self.stack_size as int,
            current_fn: self.current_fn as int,
            returns: self.return_num as int,
            depth: self.current_scope as int,
            loop_depth: self.loop_nest_num as int,
            breaks: positions(self.breaks@),
        }
    }
}

impl Parser {
    /// The compiler was made for `tokens` and its state is valid for them.
    pub open(crate) spec fn wf(&self, tokens: Seq<Token>) -> bool {
        &&& self.num_tokens == tokens.len()
        &&& self.var_data.wf()
        &&& self.fn_data.wf()
        &&& valid(tokens, self@)
    }

    /// The number of tokens of the input that the compiler was made for.
    pub open(crate) spec fn token_count(&self) -> nat {
        self.num_tokens as nat
    }

    /// The tables of the compiler hold no name twice.
    pub open(crate) spec fn has_tables(&self) -> bool {
        self.var_data.wf() && self.fn_data.wf()
    }

    /// The compiler is valid for `tokens` and its counters are in step with
    /// its cursor.
    pub open(crate) spec fn ready(&self, tokens: Seq<Token>) -> bool {
        self.wf(tokens) && counted(self@)
    }

    /// Whether the compiler is ready to compile `tokens`: it was made for
    /// them, they are an input that it takes, and it is inside no function.
    pub open(crate) spec fn idle(&self, tokens: Seq<Token>) -> bool {
        &&& self.wf(tokens)
        &&& self@.depth == 0
        &&& self@.loop_depth == 0
    }

    /// A compiler for `tokens` that knows the standard built-ins.
    pub fn new(tokens: &Vec<Token>) -> (parser: Parser)
        ensures
            is_standard_library(parser@.builtins),
            parser@ == initial_state(parser@.builtins),
            parser.token_count() == tokens@.len(),
            parser.has_tables(),
            well_formed(tokens@) ==> parser.idle(tokens@),
    {
        Self::with_builtins(tokens, standard_library())
    }

    /// A compiler for `tokens` that knows the built-ins of `builtins`.
    pub fn with_builtins(tokens: &Vec<Token>, builtins: Vec<Builtin>) -> (parser: Parser)
        ensures
            parser@ == initial_state(builtins@),
            parser.token_count() == tokens@.len(),
            parser.has_tables(),
            well_formed(tokens@) ==> parser.idle(tokens@),
    {
        let parser = Parser {
            error: false,
            num_tokens: tokens.len(),
            current_token_num: 0,
            code: Vec::new(),
            var_data: NameTable::new(),
            stack_size: 0,
            fn_data: NameTable::new(),
            current_fn: 0,
            return_num: 0,
            current_scope: 0,
            sl_data: builtins,
            loop_nest_num: 0,
            breaks: Vec::new(),
            diagnostics: Vec::new(),
        };
        assert(parser@.fns =~= Map::<Seq<char>, FnInfo>::empty());
        assert(parser@.breaks =~= Seq::<int>::empty());
        parser
    }

    /// Whether a problem has been reported.
    pub fn had_error(&self) -> (error: bool)
        ensures
            error == self@.error,
    {
        self.error
    }

    /// The code emitted so far.
    pub fn code(&self) -> (code: &Vec<i64>)
        ensures
            code@ == self@.code,
    {
        &self.code
    }

    /// The problems reported so far, oldest first.
    pub fn diagnostics(&self) -> (diagnostics: &Vec<Diagnostic>)
        ensures
            diagnostics@ == self@.diagnostics,
    {
        &self.diagnostics
    }

    /// The address recorded for the function `name`, if it is declared.
    pub fn function_address(&self, name: &str) -> (address: Option<i64>)
        requires
            self.has_tables(),
        ensures
            address == (if self@.fns.contains_key(name@) {
                Some(self@.fns[name@].address)
            } else {
                None
            }),
    {
        match self.fn_data.find(&String::from_str(name)) {
            Some(f) => Some(self.fn_data.get(f).address),
            None => None,
        }
    }

    /// The code emitted so far as bytes: each word as eight bytes, the most
    /// significant first, in the order of emission, with nothing before,
    /// between or behind them.
    pub fn output_code(&self) -> (bytes: Vec<u8>)
        ensures
            bytes@ == serialize(self@.code),
    {
        to_bytes(&self.code)
    }

    /// Whether the cursor stands on the last token.
    pub(crate) fn is_last_token(&self) -> (last: bool)
        requires
            self.num_tokens > 0,
        ensures
            last == (self.current_token_num == self.num_tokens - 1),
    {
        if self.current_token_num == self.num_tokens - 1 {
            return true;
        }
        false
    }

    /// Moves the cursor one token on. It never leaves the last token.
    pub(crate) fn consume_token(&mut self, tokens: &Vec<Token>)
        requires
            old(self).wf(tokens@),
        ensures
            final(self).wf(tokens@),
            final(self)@ == consume(tokens@, old(self)@),
            extends_evenly(old(self)@, final(self)@),
    {
        if self.is_last_token() == false {
            self.current_token_num += 1;
        }
    }

    /// The kind of the token under the cursor.
    pub(crate) fn kind(&self, tokens: &Vec<Token>) -> (k: TokenKind)
        requires
            self.wf(tokens@),
        ensures
            k == tokens@[self@.cursor].kind,
    {
        tokens[self.current_token_num].kind
    }

    /// Appends one word to the code.
    pub(crate) fn emit(&mut self, tokens: &Vec<Token>, word: i64)
        requires
            old(self).wf(tokens@),
        ensures
            final(self).wf(tokens@),
            final(self)@ == emit(old(self)@, word),
            extends_evenly(old(self)@, final(self)@),
    {
        self.code.push(word);
    }

    /// Appends an instruction with one operand.
    pub(crate) fn emit2(&mut self, tokens: &Vec<Token>, opcode: i64, operand: i64)
        requires
            old(self).wf(tokens@),
        ensures
            final(self).wf(tokens@),
            final(self)@ == emit2(old(self)@, opcode, operand),
            extends_evenly(old(self)@, final(self)@),
    {
        self.code.push(opcode);
        self.code.push(operand);
    }

    /// Appends an instruction with two operands.
    pub(crate) fn emit3(&mut self, tokens: &Vec<Token>, opcode: i64, first: i64, second: i64)
        requires
            old(self).wf(tokens@),
        ensures
            final(self).wf(tokens@),
            final(self)@ == emit3(old(self)@, opcode, first, second),
            extends_evenly(old(self)@, final(self)@),
    {
        self.code.push(opcode);
        self.code.push(first);
        self.code.push(second);
    }

    /// Writes the address `target` into the code at `slot`.
    pub(crate) fn patch(&mut self, tokens: &Vec<Token>, slot: usize, target: usize)
        requires
            old(self).wf(tokens@),
            slot < old(self)@.code.len(),
        ensures
            final(self).wf(tokens@),
            final(self)@ == patch(old(self)@, slot as int, target as int),
            final(self)@.code == old(self)@.code.update(slot as int, word_of(target as int)),
    {
        self.code[slot] = #[verifier::truncate] (target as i64);
    }

    /// Reports a problem with the line of the token under the cursor,
    /// quoting the token at `quoted`.
    pub(crate) fn report_quoting(
        &mut self,
        tokens: &Vec<Token>,
        problem: DiagnosticKind,
        quoted: usize,
    )
        requires
            old(self).wf(tokens@),
        ensures
            final(self).wf(tokens@),
            final(self)@ == report_quoting(tokens@, old(self)@, problem, quoted as int),
            problem != DiagnosticKind::AlreadyDeclared && problem
                != DiagnosticKind::BreakOutsideLoop ==> extends_evenly(old(self)@, final(self)@),
    {
        self.diagnostics.push(
            Diagnostic { kind: problem, line: tokens[self.current_token_num].line, token: quoted },
        );
        self.error = true;
    }

    /// Reports a problem at the token under the cursor.
    pub(crate) fn report(&mut self, tokens: &Vec<Token>, problem: DiagnosticKind)
        requires
            old(self).wf(tokens@),
        ensures
            final(self).wf(tokens@),
            final(self)@ == report(tokens@, old(self)@, problem),
            problem != DiagnosticKind::AlreadyDeclared && problem
                != DiagnosticKind::BreakOutsideLoop ==> extends_evenly(old(self)@, final(self)@),
    {
        self.report_quoting(tokens, problem, self.current_token_num);
    }

    /// Reports a problem that has no line, quoting the token at `quoted`.
    pub(crate) fn report_unplaced(
        &mut self,
        tokens: &Vec<Token>,
        problem: DiagnosticKind,
        quoted: usize,
    )
        requires
            old(self).wf(tokens@),
        ensures
            final(self).wf(tokens@),
            final(self)@ == report_unplaced(old(self)@, problem, quoted as int),
            problem != DiagnosticKind::AlreadyDeclared && problem
                != DiagnosticKind::BreakOutsideLoop ==> extends_evenly(old(self)@, final(self)@),
    {
        self.diagnostics.push(Diagnostic { kind: problem, line: 0, token: quoted });
        self.error = true;
    }

    /// Reports `problem` at the token under the cursor if `failed` holds.
    pub(crate) fn report_if(&mut self, tokens: &Vec<Token>, failed: bool, problem: DiagnosticKind)
        requires
            old(self).wf(tokens@),
        ensures
            final(self).wf(tokens@),
            final(self)@ == report_if(tokens@, old(self)@, failed, problem),
            problem != DiagnosticKind::AlreadyDeclared && problem
                != DiagnosticKind::BreakOutsideLoop ==> extends_evenly(old(self)@, final(self)@),
    {
        if failed {
            self.report(tokens, problem);
        }
    }

    /// Whether a token of kind `found` is what `wanted` looks for.
    pub(crate) fn accepts(wanted: Expectation, found: TokenKind) -> (ok: bool)
        ensures
            ok == accepts(wanted, found),
    {
        match wanted {
            Expectation::LeftCurly => found == TokenKind::LeftCurly,
            Expectation::RightCurly => found == TokenKind::RightCurly,
            Expectation::Fn => found == TokenKind::Fn,
            Expectation::FnType => found.value_type().is_some() || found == TokenKind::Void,
            Expectation::SemiColon => found == TokenKind::SemiColon,
            Expectation::Let => found == TokenKind::Let,
            Expectation::Identifier => found == TokenKind::Identifier,
            Expectation::VarType => found.value_type().is_some(),
            Expectation::Colon => found == TokenKind::Colon,
            Expectation::Integer => found == TokenKind::Int,
            Expectation::Float => found == TokenKind::Float,
            Expectation::Equal => found == TokenKind::Equal,
            Expectation::LeftParenthesis => found == TokenKind::LeftParenthesis,
            Expectation::RightParenthesis => found == TokenKind::RightParenthesis,
            Expectation::Comma => found == TokenKind::Comma,
            Expectation::Return => found == TokenKind::Return,
            Expectation::If => found == TokenKind::If,
            Expectation::Else => found == TokenKind::Else,
            Expectation::While => found == TokenKind::While,
            Expectation::Break => found == TokenKind::Break,
        }
    }

    /// A matcher: passes over the token under the cursor, and reports it
    /// where it is not what `wanted` looks for.
    pub(crate) fn expect(&mut self, tokens: &Vec<Token>, wanted: Expectation)
        requires
            old(self).wf(tokens@),
        ensures
            final(self).wf(tokens@),
            final(self)@ == expect(tokens@, old(self)@, wanted),
            extends_evenly(old(self)@, final(self)@),
            final(self)@.code == old(self)@.code,
            final(self)@.vars == old(self)@.vars,
            accepts(wanted, kind(tokens@, old(self)@)) ==> final(self)@.diagnostics
                == old(self)@.diagnostics,
            final(self)@.cursor == old(self)@.cursor + (if !at_end(tokens@, old(self)@) {
                1int
            } else {
                0int
            }),
    {
        reveal(expect);
        if Self::accepts(wanted, self.kind(tokens)) {
            self.consume_token(tokens);
        } else {
            self.report(tokens, DiagnosticKind::Expected(wanted));
            self.consume_token(tokens);
        }
    }
}

} // verus!
