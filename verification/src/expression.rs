//! The expression compiler.

use crate::diagnostic::{DiagnosticKind, Expectation};
use crate::model::expression::{
    builtin_args, call, call_args, call_is_checked, derived_type, drain, emit_print, expression,
    identifier_function, identifier_variable, instruction, literal, lower, operators, print_args,
    shunt, skip_parentheses, sl_use, string_constant, string_words, term,
};
use crate::model::state::{at_end, extends_evenly, moved, remaining};
use crate::opcode::{
    ARG_LOAD, CALL, F_ADD, F_CONSTANT, F_DIV, F_EQUAL, F_GREATER, F_GREATER_EQUAL, F_LESS,
    F_LESS_EQUAL, F_MUL, F_NOT_EQUAL, F_SUB, I_ADD, I_CONSTANT, I_DIV, I_EQUAL, I_GREATER,
    I_GREATER_EQUAL, I_LESS, I_LESS_EQUAL, I_MUL, I_NOT_EQUAL, I_SUB, LOCAL_LOAD, OP_AND, OP_OR,
    PRINT, READ, S_ADD, S_CONSTANT, S_EQUAL, S_NOT_EQUAL, USE,
};
use crate::operator::Operator;
use crate::parser::Parser;
use crate::symbol::{copy_params, copy_types, lookup_builtin, Variable};
use crate::token::{literal_value, Token, TokenKind};
use crate::types::{Param, ValueType, MAX_SECURITY};
use vstd::prelude::*;

verus! {

/// Whether `text` is the word `word`.
pub(crate) fn is_word(text: &String, word: &str) -> (same: bool)
    ensures
        same == (text@ == word@),
{
    let other = String::from_str(word);
    *text == other
}

impl Parser {
    /// The instruction that applies `op` to two values of type `ty`, where
    /// the type has that operator.
    pub(crate) fn instruction(op: Operator, ty: ValueType) -> (word: Option<i64>)
        ensures
            word == instruction(op, ty),
    {
        match (op, ty) {
            (Operator::And, _) => Some(OP_AND),
            (Operator::Or, _) => Some(OP_OR),
            (Operator::Add, ValueType::Int) => Some(I_ADD),
            (Operator::Sub, ValueType::Int) => Some(I_SUB),
            (Operator::Mul, ValueType::Int) => Some(I_MUL),
            (Operator::Div, ValueType::Int) => Some(I_DIV),
            (Operator::EqualEqual, ValueType::Int) => Some(I_EQUAL),
            (Operator::NotEqual, ValueType::Int) => Some(I_NOT_EQUAL),
            (Operator::Less, ValueType::Int) => Some(I_LESS),
            (Operator::Greater, ValueType::Int) => Some(I_GREATER),
            (Operator::LessEqual, ValueType::Int) => Some(I_LESS_EQUAL),
            (Operator::GreaterEqual, ValueType::Int) => Some(I_GREATER_EQUAL),
            (Operator::Add, ValueType::Float) => Some(F_ADD),
            (Operator::Sub, ValueType::Float) => Some(F_SUB),
            (Operator::Mul, ValueType::Float) => Some(F_MUL),
            (Operator::Div, ValueType::Float) => Some(F_DIV),
            (Operator::EqualEqual, ValueType::Float) => Some(F_EQUAL),
            (Operator::NotEqual, ValueType::Float) => Some(F_NOT_EQUAL),
            (Operator::Less, ValueType::Float) => Some(F_LESS),
            (Operator::Greater, ValueType::Float) => Some(F_GREATER),
            (Operator::LessEqual, ValueType::Float) => Some(F_LESS_EQUAL),
            (Operator::GreaterEqual, ValueType::Float) => Some(F_GREATER_EQUAL),
            (Operator::Add, ValueType::Str) => Some(S_ADD),
            (Operator::EqualEqual, ValueType::Str) => Some(S_EQUAL),
            (Operator::NotEqual, ValueType::Str) => Some(S_NOT_EQUAL),
            _ => None,
        }
    }

    /// How tightly `op` binds.
    pub fn get_precedence(op: Operator) -> (p: u8)
        ensures
            p == op.spec_precedence(),
    {
        op.precedence()
    }

    /// Turns one operator into code.
    pub(crate) fn lower(&mut self, tokens: &Vec<Token>, ty: ValueType, op: Operator)
        requires
            old(self).wf(tokens@),
        ensures
            final(self).wf(tokens@),
            final(self)@ == lower(tokens@, old(self)@, ty, op),
            extends_evenly(old(self)@, final(self)@),
            final(self)@.cursor == old(self)@.cursor,
    {
        match Self::instruction(op, ty) {
            Some(word) => self.emit(tokens, word),
            None => self.report(tokens, DiagnosticKind::Unsupported(op)),
        }
    }

    /// Turns all waiting operators into code, the one that came last first.
    pub(crate) fn drain_expression_stack(
        &mut self,
        tokens: &Vec<Token>,
        ty: ValueType,
        stack: &mut Vec<Operator>,
    )
        requires
            old(self).wf(tokens@),
        ensures
            final(self).wf(tokens@),
            final(self)@ == drain(tokens@, old(self)@, ty, old(stack)@),
            extends_evenly(old(self)@, final(self)@),
            final(self)@.cursor == old(self)@.cursor,
            final(stack)@.len() == 0,
    {
        let ghost start = self@;
        let ghost waiting = stack@;
        while stack.len() > 0
            invariant
                self.wf(tokens@),
                drain(tokens@, self@, ty, stack@) == drain(tokens@, start, ty, waiting),
                extends_evenly(start, self@),
                self@.cursor == start.cursor,
            decreases stack.len(),
        {
            let ghost before = stack@;
            let op = stack[stack.len() - 1];
            self.lower(tokens, ty, op);
            stack.pop();
            assert(stack@ =~= before.drop_last());
        }
    }

    /// Lets `op` wait for its right operand, behind the code of the waiting
    /// operators that bind at least as tightly.
    pub(crate) fn shunting_yard(
        &mut self,
        tokens: &Vec<Token>,
        stack: &mut Vec<Operator>,
        ty: ValueType,
        op: Operator,
    )
        requires
            old(self).wf(tokens@),
        ensures
            final(self).wf(tokens@),
            (final(self)@, final(stack)@) == shunt(tokens@, old(self)@, ty, old(stack)@, op),
            extends_evenly(old(self)@, final(self)@),
            final(self)@.cursor == old(self)@.cursor,
    {
        let ghost start = self@;
        let ghost waiting = stack@;
        while stack.len() > 0 && Self::get_precedence(op) <= Self::get_precedence(
            stack[stack.len() - 1],
        )
            invariant
                self.wf(tokens@),
                shunt(tokens@, self@, ty, stack@, op) == shunt(tokens@, start, ty, waiting, op),
                extends_evenly(start, self@),
                self@.cursor == start.cursor,
            decreases stack.len(),
        {
            let ghost before = stack@;
            let top = stack[stack.len() - 1];
            self.lower(tokens, ty, top);
            stack.pop();
            assert(stack@ =~= before.drop_last());
        }
        stack.push(op);
    }

    /// The type of the operand that begins under the cursor, told from its
    /// first token behind any opening parentheses.
    pub(crate) fn change_expression_type(&self, tokens: &Vec<Token>) -> (ty: ValueType)
        requires
            self.wf(tokens@),
        ensures
            ty == derived_type(tokens@, self@),
    {
        let n: usize = tokens.len();
        let mut i: usize = self.current_token_num;
        while i < n && tokens[i].kind == TokenKind::LeftParenthesis
            invariant
                n == tokens.len(),
                i <= n,
                skip_parentheses(tokens@, i as int) == skip_parentheses(
                    tokens@,
                    self@.cursor,
                ),
            decreases n - i,
        {
            i += 1;
        }
        if i >= n {
            return ValueType::Int;
        }
        match tokens[i].kind {
            TokenKind::Int => ValueType::Int,
            TokenKind::Float => ValueType::Float,
            TokenKind::Str => ValueType::Str,
            TokenKind::Identifier => {
                if i + 1 < n {
                    if tokens[i + 1].kind == TokenKind::LeftParenthesis {
                        match self.fn_data.find(&tokens[i].text) {
                            Some(f) => self.fn_data.get(f).returns,
                            None => match lookup_builtin(&self.sl_data, &tokens[i].text) {
                                Some(b) => {
                                    let result = self.sl_data[b].returns;
                                    if result == ValueType::Int || result == ValueType::Float
                                        || result == ValueType::Str {
                                        result
                                    } else {
                                        ValueType::Int
                                    }
                                },
                                None => ValueType::Int,
                            },
                        }
                    } else {
                        match self.var_data.find(&tokens[i].text) {
                            Some(v) => self.var_data.get(v).ty,
                            None => ValueType::Int,
                        }
                    }
                } else {
                    ValueType::Int
                }
            },
            _ => ValueType::Int,
        }
    }

    /// A string literal: the opcode, the words of the text and a zero word.
    pub(crate) fn string_constant(&mut self, tokens: &Vec<Token>)
        requires
            old(self).wf(tokens@),
        ensures
            final(self).wf(tokens@),
            final(self)@ == string_constant(tokens@, old(self)@),
            extends_evenly(old(self)@, final(self)@),
    {
        let ghost start = self@;
        let ghost chars = tokens@[start.cursor].text@;
        self.emit(tokens, S_CONSTANT);
        let ghost opened = self@;
        let mut backslash: bool = false;
        let text: &str = tokens[self.current_token_num].text.as_str();
        assert(chars.subrange(0, chars.len() as int) =~= chars);
        for c in it: text.chars()
            invariant
                it.seq() == chars,
                self.wf(tokens@),
                extends_evenly(start, self@),
                self@.cursor == start.cursor,
                string_words(
                    tokens@,
                    self@,
                    chars.subrange(it.index() as int, chars.len() as int),
                    backslash,
                ) == string_words(tokens@, opened, chars, false),
        {
            proof {
                let rest = chars.subrange(it.index() as int, chars.len() as int);
                assert(rest[0] == c);
                assert(rest.drop_first() =~= chars.subrange(
                    it.index() as int + 1,
                    chars.len() as int,
                ));
            }
            if backslash == false {
                if c != '"' && c != '\\' {
                    self.emit(tokens, (#[verifier::truncate] (c as u8)) as i64);
                } else if c == '\\' {
                    backslash = true;
                }
            } else {
                if c == 'n' {
                    self.emit(tokens, 10);
                } else {
                    self.report(tokens, DiagnosticKind::BadEscape);
                }
                backslash = false;
            }
        }
        assert(chars.subrange(chars.len() as int, chars.len() as int) =~= Seq::<char>::empty());
        self.emit(tokens, 0);
        self.consume_token(tokens);
    }

    /// The use of a variable as an operand.
    pub(crate) fn identifier_variable(&mut self, tokens: &Vec<Token>, ty: ValueType, ceiling: i64)
        requires
            old(self).wf(tokens@),
        ensures
            final(self).wf(tokens@),
            final(self)@ == identifier_variable(tokens@, old(self)@, ty, ceiling),
            extends_evenly(old(self)@, final(self)@),
    {
        let found = self.var_data.find(&tokens[self.current_token_num].text);
        let v: Variable = match found {
            Some(i) => *self.var_data.get(i),
            None => Variable {
                slot: 0,
                ty: ValueType::Int,
                security: 0,
                is_arg: false,
                depth: 1,
                owner: 0,
            },
        };
        self.report_if(tokens, found.is_none(), DiagnosticKind::UndeclaredVariable);
        self.report_if(tokens, v.ty != ty, DiagnosticKind::VariableTypeMismatch);
        self.report_if(tokens, v.security > ceiling, DiagnosticKind::SecurityExceeded);
        self.report_if(tokens, v.depth > self.current_scope, DiagnosticKind::OutOfScope);
        if v.is_arg == false {
            self.emit2(tokens, LOCAL_LOAD, v.slot);
        } else {
            self.emit2(tokens, ARG_LOAD, v.slot);
        }
        self.consume_token(tokens);
    }
}

impl Parser {
    /// An expression of type `ty` whose value may be no more secret than
    /// `ceiling`.
    pub(crate) fn expression(&mut self, tokens: &Vec<Token>, ty: ValueType, ceiling: i64)
        requires
            old(self).ready(tokens@),
        ensures
            final(self).ready(tokens@),
            final(self)@ == expression(tokens@, old(self)@, ty, ceiling),
            extends_evenly(old(self)@, final(self)@),
        decreases remaining(tokens@, old(self)@), 4nat, 0nat,
    {
        let mut expression_stack: Vec<Operator> = Vec::new();
        let active = self.term(tokens, &mut expression_stack, ty, ceiling);
        self.drain_expression_stack(tokens, active, &mut expression_stack);
    }

    /// An operand, and the operators and operands that follow it. Returns
    /// the type of the operands that the waiting operators stand between.
    #[verifier::rlimit(40)]
    pub(crate) fn term(
        &mut self,
        tokens: &Vec<Token>,
        expression_stack: &mut Vec<Operator>,
        ty: ValueType,
        ceiling: i64,
    ) -> (active: ValueType)
        requires
            old(self).ready(tokens@),
        ensures
            final(self).ready(tokens@),
            (final(self)@, final(expression_stack)@, active) == term(
                tokens@,
                old(self)@,
                old(expression_stack)@,
                ty,
                ceiling,
            ),
            extends_evenly(old(self)@, final(self)@),
        decreases remaining(tokens@, old(self)@), 3nat, 1nat,
    {
        let ghost start = self@;
        let ghost waiting = expression_stack@;
        let mut expression_type: ValueType = ty;
        self.literal(tokens, expression_type, ceiling);
        let ghost first = self@;
        loop
            invariant_except_break
                operators(tokens@, self@, expression_stack@, expression_type, ceiling)
                    == operators(tokens@, first, waiting, ty, ceiling),
            invariant
                self.ready(tokens@),
                extends_evenly(start, self@),
                start == old(self)@,
            ensures
                (self@, expression_stack@, expression_type) == operators(
                    tokens@,
                    first,
                    waiting,
                    ty,
                    ceiling,
                ),
            decreases remaining(tokens@, self@),
        {
            let ghost head = self@;
            match self.kind(tokens).operator() {
                None => {
                    break ;
                },
                Some(op) => {
                    self.consume_token(tokens);
                    if op.is_logical() {
                        self.drain_expression_stack(tokens, expression_type, expression_stack);
                        expression_stack.push(op);
                        assert(expression_stack@ =~= seq![op]);
                        expression_type = self.change_expression_type(tokens);
                    } else {
                        self.shunting_yard(tokens, expression_stack, expression_type, op);
                    }
                },
            }
            assert(moved(tokens@, head, self@));
            self.literal(tokens, expression_type, ceiling);
        }
        expression_type
    }

    /// One operand: a literal of the type asked for, a call, a variable, or
    /// an expression in parentheses.
    #[verifier::rlimit(40)]
    pub(crate) fn literal(&mut self, tokens: &Vec<Token>, ty: ValueType, ceiling: i64)
        requires
            old(self).ready(tokens@),
        ensures
            final(self).ready(tokens@),
            final(self)@ == literal(tokens@, old(self)@, ty, ceiling),
            extends_evenly(old(self)@, final(self)@),
        decreases remaining(tokens@, old(self)@), 2nat, 0nat,
    {
        let here: usize = self.current_token_num;
        let k = tokens[here].kind;
        if k == TokenKind::Int && ty == ValueType::Int {
            self.emit2(tokens, I_CONSTANT, literal_value(&tokens[here]));
            self.consume_token(tokens);
        } else if k == TokenKind::Float && ty == ValueType::Float {
            self.emit2(tokens, F_CONSTANT, tokens[here].float_bits);
            self.consume_token(tokens);
        } else if k == TokenKind::Str && ty == ValueType::Str {
            self.string_constant(tokens);
        } else if k == TokenKind::Identifier && here + 1 < tokens.len() {
            if tokens[here + 1].kind == TokenKind::LeftParenthesis {
                match lookup_builtin(&self.sl_data, &tokens[here].text) {
                    Some(b) => {
                        let result = self.sl_data[b].returns;
                        self.report_if(
                            tokens,
                            result.has_values() && result != ty,
                            DiagnosticKind::TypeMismatch,
                        );
                        self.sl_use(tokens, ty);
                    },
                    None => {
                        self.identifier_function(tokens, ty, ceiling);
                    },
                }
            } else {
                self.identifier_variable(tokens, ty, ceiling);
            }
        } else if k == TokenKind::LeftParenthesis {
            self.consume_token(tokens);
            self.expression(tokens, ty, ceiling);
            if self.kind(tokens) == TokenKind::RightParenthesis {
                self.consume_token(tokens);
            } else {
                self.report(tokens, DiagnosticKind::NoClosingParenthesis);
                self.consume_token(tokens);
            }
        } else if k != TokenKind::Identifier && ty == ValueType::Int {
            self.report(tokens, DiagnosticKind::Expected(Expectation::Integer));
            self.consume_token(tokens);
        } else if k != TokenKind::Identifier && ty == ValueType::Float {
            self.report(tokens, DiagnosticKind::Expected(Expectation::Float));
            self.consume_token(tokens);
        } else {
            self.report(tokens, DiagnosticKind::InvalidOperand);
            self.consume_token(tokens);
        }
    }

    /// The code that prints the value on top of the stack as a `ty`, or the
    /// report that a value of this type cannot be printed.
    pub(crate) fn emit_print(&mut self, tokens: &Vec<Token>, ty: ValueType)
        requires
            old(self).wf(tokens@),
        ensures
            final(self).wf(tokens@),
            final(self)@ == emit_print(tokens@, old(self)@, ty),
            extends_evenly(old(self)@, final(self)@),
            final(self)@.cursor == old(self)@.cursor,
    {
        if ty == ValueType::Int || ty == ValueType::Float || ty == ValueType::Str {
            self.emit3(tokens, USE, PRINT, ty.code());
        } else {
            self.report(tokens, DiagnosticKind::TypeMismatch);
        }
    }

    /// A call of the built-in named under the cursor.
    #[verifier::rlimit(40)]
    pub(crate) fn sl_use(&mut self, tokens: &Vec<Token>, wanted: ValueType)
        requires
            old(self).ready(tokens@),
            !at_end(tokens@, old(self)@),
        ensures
            final(self).ready(tokens@),
            final(self)@ == sl_use(tokens@, old(self)@, wanted),
            extends_evenly(old(self)@, final(self)@),
            old(self)@.cursor < final(self)@.cursor,
        decreases remaining(tokens@, old(self)@), 1nat, 0nat,
    {
        let ghost start = self@;
        let here: usize = self.current_token_num;
        let found = lookup_builtin(&self.sl_data, &tokens[here].text);
        self.consume_token(tokens);
        self.expect(tokens, Expectation::LeftParenthesis);
        let ghost opened = self@;
        if is_word(&tokens[here].text, "print") {
            loop
                invariant_except_break
                    print_args(tokens@, self@) == print_args(tokens@, opened),
                invariant
                    self.ready(tokens@),
                    extends_evenly(start, self@),
                    start.cursor < self@.cursor,
                    start == old(self)@,
                ensures
                    self@ == print_args(tokens@, opened),
                decreases remaining(tokens@, self@),
            {
                let ghost head = self@;
                let k = self.kind(tokens);
                if k == TokenKind::Int {
                    self.expression(tokens, ValueType::Int, MAX_SECURITY);
                    self.emit_print(tokens, ValueType::Int);
                } else if k == TokenKind::Float {
                    self.expression(tokens, ValueType::Float, MAX_SECURITY);
                    self.emit_print(tokens, ValueType::Float);
                } else if k == TokenKind::Str {
                    self.expression(tokens, ValueType::Str, MAX_SECURITY);
                    self.emit_print(tokens, ValueType::Str);
                } else if k == TokenKind::Identifier {
                    let expression_type = self.change_expression_type(tokens);
                    self.expression(tokens, expression_type, MAX_SECURITY);
                    self.emit_print(tokens, expression_type);
                } else {
                    self.report(tokens, DiagnosticKind::UnknownPrintArgument);
                }
                if self.kind(tokens) != TokenKind::Comma {
                    break ;
                } else {
                    self.expect(tokens, Expectation::Comma);
                    assert(moved(tokens@, head, self@));
                }
            }
            self.expect(tokens, Expectation::RightParenthesis);
        } else if is_word(&tokens[here].text, "read") {
            self.expect(tokens, Expectation::RightParenthesis);
            self.emit3(tokens, USE, READ, wanted.code());
        } else {
            match found {
                Some(b) => {
                    let types = copy_types(&self.sl_data[b].params);
                    let id = self.sl_data[b].id;
                    let mut i: usize = 0;
                    while i < types.len()
                        invariant
                            self.ready(tokens@),
                            extends_evenly(start, self@),
                            start.cursor < self@.cursor,
                            start == old(self)@,
                            i <= types.len(),
                            builtin_args(tokens@, self@, types@, i as int) == builtin_args(
                                tokens@,
                                opened,
                                types@,
                                0,
                            ),
                        decreases types.len() - i,
                    {
                        if types[i].has_values() {
                            self.expression(tokens, types[i], MAX_SECURITY);
                        }
                        if i + 1 != types.len() {
                            self.expect(tokens, Expectation::Comma);
                        }
                        i += 1;
                    }
                    self.expect(tokens, Expectation::RightParenthesis);
                    self.emit2(tokens, USE, id);
                },
                None => {
                    self.expect(tokens, Expectation::RightParenthesis);
                },
            }
        }
    }

    /// The call of a declared function: its name, its arguments in
    /// parentheses, and the call instruction.
    pub(crate) fn call(&mut self, tokens: &Vec<Token>, address: i64, params: &Vec<Param>)
        requires
            old(self).ready(tokens@),
            !at_end(tokens@, old(self)@),
        ensures
            final(self).ready(tokens@),
            final(self)@ == call(tokens@, old(self)@, address, params@),
            extends_evenly(old(self)@, final(self)@),
            old(self)@.cursor < final(self)@.cursor,
        decreases remaining(tokens@, old(self)@), 0nat, 0nat,
    {
        let ghost start = self@;
        self.expect(tokens, Expectation::Identifier);
        self.expect(tokens, Expectation::LeftParenthesis);
        let ghost opened = self@;
        if self.kind(tokens) != TokenKind::RightParenthesis {
            let mut i: usize = 0;
            while i < params.len()
                invariant
                    self.ready(tokens@),
                    extends_evenly(start, self@),
                    start.cursor < self@.cursor,
                    start == old(self)@,
                    i <= params.len(),
                    call_args(tokens@, self@, params@, i as int) == call_args(
                        tokens@,
                        opened,
                        params@,
                        0,
                    ),
                decreases params.len() - i,
            {
                self.expression(tokens, params[i].ty, params[i].security);
                if i + 1 != params.len() {
                    self.expect(tokens, Expectation::Comma);
                }
                i += 1;
            }
        }
        self.expect(tokens, Expectation::RightParenthesis);
        self.emit3(tokens, CALL, address, #[verifier::truncate] (params.len() as i64));
    }

    /// A call as an operand.
    pub(crate) fn identifier_function(&mut self, tokens: &Vec<Token>, ty: ValueType, ceiling: i64)
        requires
            old(self).ready(tokens@),
            !at_end(tokens@, old(self)@),
        ensures
            final(self).ready(tokens@),
            final(self)@ == identifier_function(tokens@, old(self)@, ty, ceiling),
            extends_evenly(old(self)@, final(self)@),
            call_is_checked(tokens@, old(self)@, ty, ceiling, final(self)@),
        decreases remaining(tokens@, old(self)@), 1nat, 0nat,
    {
        match self.fn_data.find(&tokens[self.current_token_num].text) {
            Some(f) => {
                let function = self.fn_data.get(f);
                let address = function.address;
                let result = function.returns;
                let security = function.security;
                let params = copy_params(&function.params);
                self.report_if(tokens, result != ty, DiagnosticKind::FunctionTypeMismatch);
                self.report_if(tokens, security > ceiling, DiagnosticKind::SecurityExceeded);
                self.call(tokens, address, &params);
            },
            None => {
                self.report(tokens, DiagnosticKind::UnknownFunction);
                self.report_if(
                    tokens,
                    ty != ValueType::Int,
                    DiagnosticKind::FunctionTypeMismatch,
                );
                self.report_if(tokens, 0 > ceiling, DiagnosticKind::SecurityExceeded);
                let params: Vec<Param> = Vec::new();
                self.call(tokens, 0, &params);
            },
        }
    }
}

} // verus!
