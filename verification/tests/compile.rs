use vsl_compiler::diagnostic::{Diagnostic, DiagnosticKind, Expectation};
use vsl_compiler::operator::Operator;
use vsl_compiler::symbol::Builtin;
use vsl_compiler::types::ValueType;
use vsl_compiler::opcode;
use vsl_compiler::parser::Parser;
use vsl_compiler::token::{check_tokens, Token, TokenKind};

fn keyword(word: &str) -> Option<TokenKind> {
    Some(match word {
        "int" => TokenKind::IntType,
        "float" => TokenKind::FloatType,
        "string" => TokenKind::StringType,
        "vec_int" => TokenKind::VecInt,
        "vec_float" => TokenKind::VecFloat,
        "vec_string" => TokenKind::VecString,
        "fn" => TokenKind::Fn,
        "let" => TokenKind::Let,
        "and" => TokenKind::And,
        "or" => TokenKind::Or,
        "while" => TokenKind::While,
        "return" => TokenKind::Return,
        "if" => TokenKind::If,
        "else" => TokenKind::Else,
        "void" => TokenKind::Void,
        "break" => TokenKind::Break,
        _ => return None,
    })
}

/// Splits a source text into tokens and closes them with an end marker.
fn lex(source: &str) -> Vec<Token> {
    let chars: Vec<char> = source.chars().collect();
    let mut tokens = Vec::new();
    let mut line = 1;
    let mut i = 0;
    while i < chars.len() {
        let c = chars[i];
        if c == '\n' {
            line += 1;
            i += 1;
        } else if c.is_whitespace() {
            i += 1;
        } else if c.is_ascii_alphabetic() || c == '_' {
            let start = i;
            while i < chars.len() && (chars[i].is_ascii_alphanumeric() || chars[i] == '_') {
                i += 1;
            }
            let word: String = chars[start..i].iter().collect();
            let kind = keyword(&word).unwrap_or(TokenKind::Identifier);
            tokens.push(Token::new(kind, &word, line));
        } else if c.is_ascii_digit() {
            let start = i;
            while i < chars.len() && (chars[i].is_ascii_digit() || chars[i] == '.') {
                i += 1;
            }
            let word: String = chars[start..i].iter().collect();
            if word.contains('.') {
                let value: f64 = word.parse().unwrap();
                tokens.push(Token::float(&word, value.to_bits() as i64, line));
            } else {
                tokens.push(Token::new(TokenKind::Int, &word, line));
            }
        } else if c == '"' {
            let start = i;
            i += 1;
            while i < chars.len() && chars[i] != '"' {
                i += 1;
            }
            i += 1;
            let word: String = chars[start..i.min(chars.len())].iter().collect();
            tokens.push(Token::new(TokenKind::Str, &word, line));
        } else {
            let two: String = chars[i..(i + 2).min(chars.len())].iter().collect();
            let (kind, len) = match two.as_str() {
                "==" => (TokenKind::EqualEqual, 2),
                "!=" => (TokenKind::NotEqual, 2),
                "<=" => (TokenKind::LessEqual, 2),
                ">=" => (TokenKind::GreaterEqual, 2),
                _ => (
                    match c {
                        ';' => TokenKind::SemiColon,
                        '(' => TokenKind::LeftParenthesis,
                        ')' => TokenKind::RightParenthesis,
                        '{' => TokenKind::LeftCurly,
                        '}' => TokenKind::RightCurly,
                        '=' => TokenKind::Equal,
                        ':' => TokenKind::Colon,
                        ',' => TokenKind::Comma,
                        '+' => TokenKind::Add,
                        '*' => TokenKind::Mul,
                        '/' => TokenKind::Div,
                        '-' => TokenKind::Sub,
                        '<' => TokenKind::Less,
                        '>' => TokenKind::Greater,
                        other => panic!("no token begins with {}", other),
                    },
                    1,
                ),
            };
            let word: String = chars[i..i + len].iter().collect();
            tokens.push(Token::new(kind, &word, line));
            i += len;
        }
    }
    tokens.push(Token::new(TokenKind::EndOfInput, "", line));
    tokens
}

/// Compiles a source text: the error flag, the code and the reports.
fn compile(source: &str) -> (bool, Vec<i64>, Vec<Diagnostic>) {
    let tokens = lex(source);
    assert!(check_tokens(&tokens));
    let mut parser = Parser::new(&tokens);
    let had_error = parser.parse(&tokens);
    assert_eq!(had_error, parser.had_error());
    (had_error, parser.code().clone(), parser.diagnostics().clone())
}

fn kinds(diagnostics: &Vec<Diagnostic>) -> Vec<DiagnosticKind> {
    diagnostics.iter().map(|d| d.kind).collect()
}

/// Compiles tokens with the built-ins of `builtins`.
fn compile_with(tokens: Vec<Token>, builtins: Vec<Builtin>) -> (bool, Vec<i64>, Vec<Diagnostic>) {
    assert!(check_tokens(&tokens));
    let mut parser = Parser::with_builtins(&tokens, builtins);
    let had_error = parser.parse(&tokens);
    (had_error, parser.code().clone(), parser.diagnostics().clone())
}

/// The kinds of the reports of a program.
fn problems(source: &str) -> Vec<DiagnosticKind> {
    let (had_error, _, diagnostics) = compile(source);
    assert_eq!(had_error, !diagnostics.is_empty());
    kinds(&diagnostics)
}

/// The code of the body of `main` in a program that holds nothing else.
fn body(statements: &str) -> Vec<i64> {
    let source = format!("fn void main() {{ {} }}", statements);
    let (had_error, code, diagnostics) = compile(&source);
    assert!(!had_error, "{:?}", diagnostics);
    assert_eq!(code[..3], [opcode::CALL, 3, 0]);
    code[3..].to_vec()
}

#[test]
fn empty_main_is_a_call_and_a_halt() {
    let (had_error, code, diagnostics) = compile("fn void main() { return; }");
    assert!(!had_error);
    assert!(diagnostics.is_empty());
    assert_eq!(code, vec![opcode::CALL, 3, 0, opcode::HALT]);
}

#[test]
fn last_bracket_may_end_the_input() {
    let mut tokens = lex("fn void main() { return; }");
    tokens.pop();
    assert!(check_tokens(&tokens));
    let mut parser = Parser::new(&tokens);
    assert!(!parser.parse(&tokens));
    assert_eq!(parser.code(), &vec![opcode::CALL, 3, 0, opcode::HALT]);
}

#[test]
fn string_literal_words() {
    assert_eq!(
        body("let s string:0 = \"a\\nb\"; return;"),
        vec![
            opcode::S_CONSTANT,
            97,
            10,
            98,
            0,
            opcode::LOCAL_STORE,
            0,
            opcode::POP,
            0,
            opcode::HALT
        ]
    );
}

#[test]
fn string_characters_are_reduced_to_a_byte() {
    assert_eq!(
        body("let s string:0 = \"\u{e9}\u{141}\"; return;")[..4],
        [opcode::S_CONSTANT, 0xe9, 0x41, 0]
    );
}

#[test]
fn float_literal_is_stored_by_its_bits() {
    let code = body("let x float:0 = 1.5; return;");
    assert_eq!(code[0], opcode::F_CONSTANT);
    assert_eq!(code[1], 1.5f64.to_bits() as i64);
    assert_eq!(code[1], 0x3FF8_0000_0000_0000);
}

#[test]
fn integer_literal_is_stored_by_its_value() {
    assert_eq!(
        body("let x int:0 = 9223372036854775807; return;")[..2],
        [opcode::I_CONSTANT, i64::MAX]
    );
}

#[test]
fn missing_main_is_reported() {
    let (had_error, _, diagnostics) = compile("fn void helper() { return; }");
    assert!(had_error);
    assert_eq!(diagnostics, vec![Diagnostic { kind: DiagnosticKind::NoMain, line: 0, token: 0 }]);
}

#[test]
fn missing_main_is_reported_among_other_problems() {
    let reported = problems("fn void helper() { x = 1; }");
    assert_eq!(
        reported,
        vec![
            DiagnosticKind::NoMain,
            DiagnosticKind::UndeclaredVariable,
            DiagnosticKind::MissingReturn
        ]
    );
}

#[test]
fn missing_main_is_reported_for_the_empty_program() {
    assert_eq!(problems(""), vec![DiagnosticKind::NoMain]);
}

#[test]
fn function_addresses_point_at_the_code_of_the_functions() {
    let tokens = lex(
        "fn int:0 add(a int:0, b int:0) { return a + b; }
         fn void main() { let x int:0 = add(1, 2); print(x); return; }",
    );
    let mut parser = Parser::new(&tokens);
    assert!(!parser.parse(&tokens));
    assert_eq!(parser.function_address("add"), Some(3));
    assert_eq!(parser.function_address("main"), Some(9));
    assert_eq!(parser.function_address("other"), None);
    assert_eq!(
        parser.code(),
        &vec![
            opcode::CALL,
            9,
            0,
            // add
            opcode::ARG_LOAD,
            0,
            opcode::ARG_LOAD,
            1,
            opcode::I_ADD,
            opcode::RETURN_VAL,
            // main
            opcode::I_CONSTANT,
            1,
            opcode::I_CONSTANT,
            2,
            opcode::CALL,
            3,
            2,
            opcode::LOCAL_STORE,
            0,
            opcode::LOCAL_LOAD,
            0,
            opcode::USE,
            opcode::PRINT,
            1,
            opcode::POP,
            0,
            opcode::HALT
        ]
    );
}

#[test]
fn function_addresses_count_strings_loops_and_branches() {
    let tokens = lex(
        "fn void first() { let s string:0 = \"a\\nb\"; while 1 < 2 { if 1.5 < 2.5 { } } return; }
         fn void second() { print(1, 2); return; }
         fn void main() { first(); second(); return; }",
    );
    let mut parser = Parser::new(&tokens);
    assert!(!parser.parse(&tokens));
    let code = parser.code().clone();
    let first = parser.function_address("first").unwrap() as usize;
    let second = parser.function_address("second").unwrap() as usize;
    let main = parser.function_address("main").unwrap() as usize;
    assert_eq!((first, second, main), (3, 31, 42));
    // the code of `first` ends with its return, and `second` begins behind it
    assert_eq!(code[second - 1], opcode::RETURN_NON_VAL);
    assert_eq!(code[second], opcode::I_CONSTANT);
    assert_eq!(code[main - 1], opcode::RETURN_NON_VAL);
    assert_eq!(code[main..], [opcode::CALL, 3, 0, opcode::CALL, second as i64, 0, opcode::HALT]);
    assert_eq!(code[..3], [opcode::CALL, main as i64, 0]);
}

#[test]
fn function_addresses_count_calls_among_printed_values() {
    let tokens = lex(
        "fn int:0 sum(a int:0, b int:0) { return a + b; }
         fn void show() { print(sum(1, 2), 3); return; }
         fn void main() { show(); return; }",
    );
    let mut parser = Parser::new(&tokens);
    assert!(!parser.parse(&tokens));
    let code = parser.code().clone();
    assert_eq!(parser.function_address("sum"), Some(3));
    assert_eq!(parser.function_address("show"), Some(9));
    assert_eq!(parser.function_address("main"), Some(25));
    assert_eq!(
        code[9..25],
        [
            opcode::I_CONSTANT,
            1,
            opcode::I_CONSTANT,
            2,
            opcode::CALL,
            3,
            2,
            opcode::USE,
            opcode::PRINT,
            1,
            opcode::I_CONSTANT,
            3,
            opcode::USE,
            opcode::PRINT,
            1,
            opcode::RETURN_NON_VAL
        ]
    );
    assert_eq!(code[25..], [opcode::CALL, 9, 0, opcode::HALT]);
}

#[test]
fn function_addresses_count_the_slots_given_up_at_each_return() {
    let tokens = lex(
        "fn void first() { let a int:0 = 1; if a == 1 { return; } return; }
         fn void main() { return; }",
    );
    let mut parser = Parser::new(&tokens);
    assert!(!parser.parse(&tokens));
    // each of the two returns gives the slot up, in two words
    assert_eq!(parser.function_address("main"), Some(22));
    assert_eq!(parser.code()[21..], [opcode::RETURN_NON_VAL, opcode::HALT]);
    assert_eq!(parser.code()[..3], [opcode::CALL, 22, 0]);
}

#[test]
fn function_addresses_count_the_jump_of_a_break() {
    let tokens = lex(
        "fn void first() { while 1 == 1 { break; } return; } fn void main() { return; }",
    );
    let mut parser = Parser::new(&tokens);
    assert!(!parser.parse(&tokens));
    // the loop takes the eleven words from 3 to 13 and the return the word 14
    assert_eq!(parser.code()[14..], [opcode::RETURN_NON_VAL, opcode::HALT]);
    assert_eq!(parser.function_address("main"), Some(15));
}

#[test]
fn call_behind_a_loop_with_a_break_carries_the_address_of_the_function() {
    let (had_error, code, _) = compile(
        "fn void main() { while 1 == 1 { break; } f(); return; } fn void f() { return; }",
    );
    assert!(!had_error);
    assert_eq!(
        code,
        vec![
            opcode::CALL,
            3,
            0,
            opcode::I_CONSTANT,
            1,
            opcode::I_CONSTANT,
            1,
            opcode::I_EQUAL,
            opcode::JUMP_IF_FALSE,
            14,
            opcode::JUMP,
            14,
            opcode::JUMP,
            3,
            opcode::CALL,
            18,
            0,
            opcode::HALT,
            opcode::RETURN_NON_VAL
        ]
    );
}

#[test]
fn function_addresses_count_a_print_among_the_arguments_of_a_call() {
    let tokens = lex(
        "fn void g(a int:0, b int:0) { return; }
         fn void f() { g(print(1), 2); return; }
         fn void main() { return; }",
    );
    let mut parser = Parser::new(&tokens);
    assert!(!parser.parse(&tokens));
    assert_eq!(parser.function_address("g"), Some(3));
    assert_eq!(parser.function_address("f"), Some(4));
    assert_eq!(parser.function_address("main"), Some(15));
    assert_eq!(
        parser.code()[4..],
        [
            opcode::I_CONSTANT,
            1,
            opcode::USE,
            opcode::PRINT,
            1,
            opcode::I_CONSTANT,
            2,
            opcode::CALL,
            3,
            2,
            opcode::RETURN_NON_VAL,
            opcode::HALT
        ]
    );
}

#[test]
fn value_that_cannot_be_printed_is_reported() {
    let (had_error, code, diagnostics) = compile(
        "fn void f(v vec_int:0) { print(v, 1); return; } fn void main() { return; }",
    );
    assert!(had_error);
    assert_eq!(kinds(&diagnostics), vec![DiagnosticKind::TypeMismatch]);
    assert_eq!(
        code[3..],
        [
            opcode::ARG_LOAD,
            0,
            opcode::I_CONSTANT,
            1,
            opcode::USE,
            opcode::PRINT,
            1,
            opcode::RETURN_NON_VAL,
            opcode::HALT
        ]
    );
}

#[test]
fn a_forward_call_knows_its_address() {
    let (had_error, code, _) =
        compile("fn void main() { later(); return; } fn void later() { return; }");
    assert!(!had_error);
    assert_eq!(
        code,
        vec![
            opcode::CALL,
            3,
            0,
            opcode::CALL,
            7,
            0,
            opcode::HALT,
            opcode::RETURN_NON_VAL
        ]
    );
}

#[test]
fn if_chain_skips_to_the_next_branch_and_leaves_to_the_end() {
    let code = body(
        "let x int:0 = 1; if x == 1 { x = 2; } else if x == 2 { x = 3; } else { x = 4; } return;",
    );
    let mut whole = vec![opcode::CALL, 3, 0];
    whole.extend(code);
    assert_eq!(
        whole,
        vec![
            opcode::CALL,
            3,
            0,
            opcode::I_CONSTANT,
            1,
            opcode::LOCAL_STORE,
            0,
            // first branch, at 7
            opcode::LOCAL_LOAD,
            0,
            opcode::I_CONSTANT,
            1,
            opcode::I_EQUAL,
            opcode::JUMP_IF_FALSE,
            20,
            opcode::I_CONSTANT,
            2,
            opcode::LOCAL_STORE,
            0,
            opcode::JUMP,
            37,
            // second branch, at 20
            opcode::LOCAL_LOAD,
            0,
            opcode::I_CONSTANT,
            2,
            opcode::I_EQUAL,
            opcode::JUMP_IF_FALSE,
            33,
            opcode::I_CONSTANT,
            3,
            opcode::LOCAL_STORE,
            0,
            opcode::JUMP,
            37,
            // else, at 33
            opcode::I_CONSTANT,
            4,
            opcode::LOCAL_STORE,
            0,
            // end of the chain, at 37
            opcode::POP,
            0,
            opcode::HALT
        ]
    );
}

#[test]
fn if_without_else_skips_to_the_end() {
    assert_eq!(
        body("if 1 == 2 { } return;"),
        vec![
            opcode::I_CONSTANT,
            1,
            opcode::I_CONSTANT,
            2,
            opcode::I_EQUAL,
            opcode::JUMP_IF_FALSE,
            12,
            opcode::JUMP,
            12,
            opcode::HALT
        ]
    );
}

#[test]
fn while_loop_jumps_back_to_its_head_and_breaks_to_its_exit() {
    let code =
        body("let x int:0 = 0; while x < 10 { if x == 5 { break; } x = x + 1; } return;");
    let mut whole = vec![opcode::CALL, 3, 0];
    whole.extend(code);
    assert_eq!(
        whole,
        vec![
            opcode::CALL,
            3,
            0,
            opcode::I_CONSTANT,
            0,
            opcode::LOCAL_STORE,
            0,
            // head of the loop, at 7
            opcode::LOCAL_LOAD,
            0,
            opcode::I_CONSTANT,
            10,
            opcode::I_LESS,
            opcode::JUMP_IF_FALSE,
            34,
            opcode::LOCAL_LOAD,
            0,
            opcode::I_CONSTANT,
            5,
            opcode::I_EQUAL,
            opcode::JUMP_IF_FALSE,
            25,
            // break
            opcode::JUMP,
            34,
            opcode::JUMP,
            25,
            opcode::LOCAL_LOAD,
            0,
            opcode::I_CONSTANT,
            1,
            opcode::I_ADD,
            opcode::LOCAL_STORE,
            0,
            opcode::JUMP,
            7,
            // exit of the loop, at 34
            opcode::POP,
            0,
            opcode::HALT
        ]
    );
}

#[test]
fn breaks_of_nested_loops_leave_their_own_loop() {
    let code = body("while 1 == 1 { while 2 == 2 { break; } break; } return;");
    // outer head 3, inner head 10, inner exit 21, outer exit 25
    assert_eq!(
        code,
        vec![
            opcode::I_CONSTANT,
            1,
            opcode::I_CONSTANT,
            1,
            opcode::I_EQUAL,
            opcode::JUMP_IF_FALSE,
            25,
            opcode::I_CONSTANT,
            2,
            opcode::I_CONSTANT,
            2,
            opcode::I_EQUAL,
            opcode::JUMP_IF_FALSE,
            21,
            opcode::JUMP,
            21,
            opcode::JUMP,
            10,
            opcode::JUMP,
            25,
            opcode::JUMP,
            3,
            opcode::HALT
        ]
    );
}

#[test]
fn secret_variable_may_not_flow_into_a_lower_parameter() {
    let (had_error, _, diagnostics) = compile(
        "fn void take(p int:50) { return; } fn void main() { let x int:80 = 1; take(x); return; }",
    );
    assert!(had_error);
    assert_eq!(
        diagnostics,
        vec![Diagnostic { kind: DiagnosticKind::SecurityExceeded, line: 1, token: 29 }]
    );
}

#[test]
fn secret_variable_may_flow_into_a_higher_parameter() {
    let (had_error, code, diagnostics) = compile(
        "fn void take(p int:90) { return; } fn void main() { let x int:80 = 1; take(x); return; }",
    );
    assert!(!had_error);
    assert!(diagnostics.is_empty());
    assert_eq!(
        code,
        vec![
            opcode::CALL,
            4,
            0,
            opcode::RETURN_NON_VAL,
            opcode::I_CONSTANT,
            1,
            opcode::LOCAL_STORE,
            0,
            opcode::LOCAL_LOAD,
            0,
            opcode::CALL,
            3,
            1,
            opcode::POP,
            0,
            opcode::HALT
        ]
    );
}

#[test]
fn variable_may_flow_where_the_ceiling_equals_its_level() {
    assert!(problems(
        "fn void take(p int:80) { return; } fn void main() { let x int:80 = 1; take(x); return; }"
    )
    .is_empty());
}

#[test]
fn secret_variable_may_not_be_stored_in_a_public_one() {
    assert_eq!(
        problems("fn void main() { let x int:80 = 1; let y int:10 = x + 1; return; }"),
        vec![DiagnosticKind::SecurityExceeded]
    );
    assert!(problems("fn void main() { let x int:10 = 1; let y int:80 = x + 1; return; }")
        .is_empty());
}

#[test]
fn secret_result_may_not_be_stored_in_a_public_variable() {
    assert_eq!(
        problems(
            "fn int:70 secret() { return 1; } fn void main() { let y int:10 = secret(); return; }"
        ),
        vec![DiagnosticKind::SecurityExceeded]
    );
    assert!(problems(
        "fn int:70 secret() { return 1; } fn void main() { let y int:70 = secret(); return; }"
    )
    .is_empty());
}

#[test]
fn returned_value_is_held_to_the_level_of_the_function() {
    assert_eq!(
        problems("fn int:10 leak(s int:60) { return s; } fn void main() { return; }"),
        vec![DiagnosticKind::SecurityExceeded]
    );
}

#[test]
fn conditions_and_printed_values_have_no_ceiling() {
    assert!(problems(
        "fn void main() { let x int:100 = 1; if x == 1 { } while x == 2 { } print(x); return; }"
    )
    .is_empty());
}

#[test]
fn redeclaration_in_sight_is_rejected() {
    let (had_error, code, diagnostics) =
        compile("fn void main() { let x int:0 = 1; let x int:0 = 2; return; }");
    assert!(had_error);
    assert_eq!(
        diagnostics,
        vec![Diagnostic { kind: DiagnosticKind::AlreadyDeclared, line: 1, token: 15 }]
    );
    // the second declaration still gets a slot of its own
    assert_eq!(
        code[3..],
        [
            opcode::I_CONSTANT,
            1,
            opcode::LOCAL_STORE,
            0,
            opcode::I_CONSTANT,
            2,
            opcode::LOCAL_STORE,
            1,
            opcode::POP,
            1,
            opcode::POP,
            0,
            opcode::HALT
        ]
    );
}

#[test]
fn name_is_free_again_behind_the_block_that_declared_it() {
    assert_eq!(
        body("if 1 == 1 { let x int:0 = 1; } let x int:0 = 2; return;"),
        vec![
            opcode::I_CONSTANT,
            1,
            opcode::I_CONSTANT,
            1,
            opcode::I_EQUAL,
            opcode::JUMP_IF_FALSE,
            16,
            opcode::I_CONSTANT,
            1,
            opcode::LOCAL_STORE,
            0,
            opcode::JUMP,
            16,
            opcode::I_CONSTANT,
            2,
            opcode::LOCAL_STORE,
            1,
            opcode::POP,
            1,
            opcode::POP,
            0,
            opcode::HALT
        ]
    );
}

#[test]
fn redeclaration_of_a_parameter_is_rejected() {
    assert_eq!(
        problems("fn void f(a int:0) { let a int:0 = 1; return; } fn void main() { return; }"),
        vec![DiagnosticKind::AlreadyDeclared]
    );
}

#[test]
fn variables_of_one_function_are_out_of_sight_in_the_next() {
    assert!(problems(
        "fn void f(a int:0) { let b int:0 = a; return; }
         fn void main() { let a int:0 = 1; let b int:0 = 2; return; }"
    )
    .is_empty());
}

#[test]
fn variable_of_a_closed_block_is_undeclared() {
    assert_eq!(
        problems("fn void main() { if 1 == 1 { let x int:0 = 1; } x = 2; return; }"),
        vec![DiagnosticKind::UndeclaredVariable]
    );
}

#[test]
fn break_outside_a_loop_is_rejected() {
    let (had_error, code, diagnostics) = compile("fn void main() { break; return; }");
    assert!(had_error);
    assert_eq!(
        diagnostics,
        vec![Diagnostic { kind: DiagnosticKind::BreakOutsideLoop, line: 1, token: 6 }]
    );
    assert_eq!(code, vec![opcode::CALL, 3, 0, opcode::JUMP, 0, opcode::HALT]);
}

#[test]
fn break_inside_a_loop_is_accepted() {
    assert_eq!(
        body("while 1 == 1 { break; } return;"),
        vec![
            opcode::I_CONSTANT,
            1,
            opcode::I_CONSTANT,
            1,
            opcode::I_EQUAL,
            opcode::JUMP_IF_FALSE,
            14,
            opcode::JUMP,
            14,
            opcode::JUMP,
            3,
            opcode::HALT
        ]
    );
}

#[test]
fn break_behind_a_loop_is_rejected() {
    assert_eq!(
        problems("fn void main() { while 1 == 1 { } break; return; }"),
        vec![DiagnosticKind::BreakOutsideLoop]
    );
}

#[test]
fn operators_are_emitted_by_precedence() {
    assert_eq!(
        body("let x int:0 = 1 + 2 * 3 - 4; return;")[..11],
        [
            opcode::I_CONSTANT,
            1,
            opcode::I_CONSTANT,
            2,
            opcode::I_CONSTANT,
            3,
            opcode::I_MUL,
            opcode::I_ADD,
            opcode::I_CONSTANT,
            4,
            opcode::I_SUB
        ]
    );
    assert_eq!(
        body("let x int:0 = 8 / 2 / 2; return;")[..8],
        [
            opcode::I_CONSTANT,
            8,
            opcode::I_CONSTANT,
            2,
            opcode::I_DIV,
            opcode::I_CONSTANT,
            2,
            opcode::I_DIV
        ]
    );
}

#[test]
fn parentheses_group() {
    assert_eq!(
        body("let x int:0 = (1 + 2) * 3; return;")[..8],
        [
            opcode::I_CONSTANT,
            1,
            opcode::I_CONSTANT,
            2,
            opcode::I_ADD,
            opcode::I_CONSTANT,
            3,
            opcode::I_MUL
        ]
    );
}

#[test]
fn comparisons_bind_looser_than_arithmetic() {
    assert_eq!(
        body("if 1 + 2 <= 3 { } return;")[..8],
        [
            opcode::I_CONSTANT,
            1,
            opcode::I_CONSTANT,
            2,
            opcode::I_ADD,
            opcode::I_CONSTANT,
            3,
            opcode::I_LESS_EQUAL,
            opcode::JUMP_IF_FALSE
        ][..8]
    );
}

#[test]
fn float_operators_have_their_own_instructions() {
    let code = body(
        "let a float:0 = 1.0 + 2.0 - 3.0 * 4.0 / 5.0; if a < 1.0 { } if a > 1.0 { } if a <= 1.0 { } if a >= 1.0 { } if a == 1.0 { } if a != 1.0 { } return;",
    );
    for instruction in [
        opcode::F_ADD,
        opcode::F_SUB,
        opcode::F_MUL,
        opcode::F_DIV,
        opcode::F_LESS,
        opcode::F_GREATER,
        opcode::F_LESS_EQUAL,
        opcode::F_GREATER_EQUAL,
        opcode::F_EQUAL,
        opcode::F_NOT_EQUAL,
    ] {
        assert!(code.contains(&instruction), "{}", instruction);
    }
}

#[test]
fn integer_comparisons_have_their_own_instructions() {
    for (op, instruction) in [
        ("<", opcode::I_LESS),
        (">", opcode::I_GREATER),
        ("<=", opcode::I_LESS_EQUAL),
        (">=", opcode::I_GREATER_EQUAL),
        ("==", opcode::I_EQUAL),
        ("!=", opcode::I_NOT_EQUAL),
    ] {
        let code = body(&format!("if 1 {} 2 {{ }} return;", op));
        assert_eq!(code[4], instruction, "{}", op);
    }
}

#[test]
fn and_or_close_the_chain_and_retype_the_right_operand() {
    assert_eq!(
        body("if 1 < 2 and 2.5 > 1.5 or 1 == 1 { } return;"),
        vec![
            opcode::I_CONSTANT,
            1,
            opcode::I_CONSTANT,
            2,
            opcode::I_LESS,
            opcode::F_CONSTANT,
            2.5f64.to_bits() as i64,
            opcode::F_CONSTANT,
            1.5f64.to_bits() as i64,
            opcode::F_GREATER,
            opcode::OP_AND,
            opcode::I_CONSTANT,
            1,
            opcode::I_CONSTANT,
            1,
            opcode::I_EQUAL,
            opcode::OP_OR,
            opcode::JUMP_IF_FALSE,
            24,
            opcode::JUMP,
            24,
            opcode::HALT
        ]
    );
}

#[test]
fn operators_behind_and_or_are_those_of_the_right_operand() {
    assert_eq!(
        body("if 1 == 1 or 1.5 < 2.5 { } return;")[..11],
        [
            opcode::I_CONSTANT,
            1,
            opcode::I_CONSTANT,
            1,
            opcode::I_EQUAL,
            opcode::F_CONSTANT,
            1.5f64.to_bits() as i64,
            opcode::F_CONSTANT,
            2.5f64.to_bits() as i64,
            opcode::F_LESS,
            opcode::OP_OR
        ]
    );
    assert_eq!(
        body("if 1.5 < 2.5 and \"a\" == \"b\" { } return;")[..12],
        [
            opcode::F_CONSTANT,
            1.5f64.to_bits() as i64,
            opcode::F_CONSTANT,
            2.5f64.to_bits() as i64,
            opcode::F_LESS,
            opcode::S_CONSTANT,
            97,
            0,
            opcode::S_CONSTANT,
            98,
            0,
            opcode::S_EQUAL
        ]
    );
}

#[test]
fn missing_semicolon_is_reported_and_the_token_in_its_place_passed_over() {
    let (had_error, code, diagnostics) =
        compile("fn void main() { let x int:0 = 1 return; }");
    assert!(had_error);
    // `return` stands where the semicolon is missed and is passed over: the
    // next statement begins with the semicolon behind it
    assert_eq!(
        diagnostics,
        vec![
            Diagnostic {
                kind: DiagnosticKind::Expected(Expectation::SemiColon),
                line: 1,
                token: 13
            },
            Diagnostic { kind: DiagnosticKind::UnknownStatement, line: 1, token: 14 },
            Diagnostic { kind: DiagnosticKind::MissingReturn, line: 0, token: 2 },
        ]
    );
    assert_eq!(code[3..], [opcode::I_CONSTANT, 1, opcode::LOCAL_STORE, 0]);
}

#[test]
fn strings_are_added_and_compared() {
    assert_eq!(
        body("let s string:0 = \"a\" + \"b\"; if s == \"ab\" { } if s != \"c\" { } return;")[..16],
        [
            opcode::S_CONSTANT,
            97,
            0,
            opcode::S_CONSTANT,
            98,
            0,
            opcode::S_ADD,
            opcode::LOCAL_STORE,
            0,
            opcode::LOCAL_LOAD,
            0,
            opcode::S_CONSTANT,
            97,
            98,
            0,
            opcode::S_EQUAL
        ]
    );
}

#[test]
fn condition_that_begins_with_a_string_literal_is_a_string() {
    assert!(problems("fn void main() { if \"a\" == \"b\" { } return; }").is_empty());
}

#[test]
fn strings_have_no_ordering_and_no_other_arithmetic() {
    for (source, op) in [
        ("\"a\" - \"b\"", Operator::Sub),
        ("\"a\" * \"b\"", Operator::Mul),
        ("\"a\" / \"b\"", Operator::Div),
    ] {
        let program = format!("fn void main() {{ let s string:0 = {}; return; }}", source);
        assert_eq!(problems(&program), vec![DiagnosticKind::Unsupported(op)]);
    }
    for (source, op) in [
        ("\"a\" < \"b\"", Operator::Less),
        ("\"a\" > \"b\"", Operator::Greater),
        ("\"a\" <= \"b\"", Operator::LessEqual),
        ("\"a\" >= \"b\"", Operator::GreaterEqual),
    ] {
        let program = format!("fn void main() {{ if {} {{ }} return; }}", source);
        assert_eq!(problems(&program), vec![DiagnosticKind::Unsupported(op)]);
    }
}

#[test]
fn vectors_have_no_operators() {
    assert_eq!(
        problems(
            "fn void main(){ let v vec_int:0 = w; return; }"
        ),
        vec![DiagnosticKind::UndeclaredVariable, DiagnosticKind::VariableTypeMismatch]
    );
    assert_eq!(
        problems("fn void f(v vec_int:0, w vec_int:0) { let u vec_int:0 = v + w; return; } fn void main() { return; }"),
        vec![DiagnosticKind::Unsupported(Operator::Add)]
    );
    assert_eq!(
        problems("fn void f(v vec_int:0, w vec_int:0) { if v <= w { } return; } fn void main() { return; }"),
        vec![DiagnosticKind::Unsupported(Operator::LessEqual)]
    );
}

#[test]
fn arguments_and_locals_have_their_own_instructions() {
    let (had_error, code, _) = compile(
        "fn void f(a int:0, b float:0) { let c int:0 = a; a = c; b = 1.5; return; } fn void main() { return; }",
    );
    assert!(!had_error);
    assert_eq!(
        code[3..],
        [
            opcode::ARG_LOAD,
            0,
            opcode::LOCAL_STORE,
            0,
            opcode::LOCAL_LOAD,
            0,
            opcode::ARG_STORE,
            0,
            opcode::F_CONSTANT,
            1.5f64.to_bits() as i64,
            opcode::ARG_STORE,
            1,
            opcode::POP,
            0,
            opcode::RETURN_NON_VAL,
            opcode::HALT
        ]
    );
}

#[test]
fn return_gives_up_every_slot_of_the_function_highest_first() {
    assert_eq!(
        body("let a int:0 = 1; if 1 == 1 { let b int:0 = 2; return; } let c int:0 = 3; return;"),
        vec![
            opcode::I_CONSTANT,
            1,
            opcode::LOCAL_STORE,
            0,
            opcode::I_CONSTANT,
            1,
            opcode::I_CONSTANT,
            1,
            opcode::I_EQUAL,
            opcode::JUMP_IF_FALSE,
            25,
            opcode::I_CONSTANT,
            2,
            opcode::LOCAL_STORE,
            1,
            opcode::POP,
            1,
            opcode::POP,
            0,
            opcode::HALT,
            opcode::JUMP,
            25,
            opcode::I_CONSTANT,
            3,
            opcode::LOCAL_STORE,
            2,
            opcode::POP,
            2,
            opcode::POP,
            1,
            opcode::POP,
            0,
            opcode::HALT
        ]
    );
}

#[test]
fn function_returns_its_value_behind_the_pops() {
    let (had_error, code, _) = compile(
        "fn float:0 half(x float:0) { let h float:0 = x / 2.0; return h; } fn void main() { return; }",
    );
    assert!(!had_error);
    assert_eq!(
        code[3..],
        [
            opcode::ARG_LOAD,
            0,
            opcode::F_CONSTANT,
            2.0f64.to_bits() as i64,
            opcode::F_DIV,
            opcode::LOCAL_STORE,
            0,
            opcode::LOCAL_LOAD,
            0,
            opcode::POP,
            0,
            opcode::RETURN_VAL,
            opcode::HALT
        ]
    );
}

#[test]
fn print_prints_each_argument_by_its_type() {
    assert_eq!(
        body("let x float:0 = read(); print(1, 2.5, \"s\", x); return;"),
        vec![
            opcode::USE,
            opcode::READ,
            2,
            opcode::LOCAL_STORE,
            0,
            opcode::I_CONSTANT,
            1,
            opcode::USE,
            opcode::PRINT,
            1,
            opcode::F_CONSTANT,
            2.5f64.to_bits() as i64,
            opcode::USE,
            opcode::PRINT,
            2,
            opcode::S_CONSTANT,
            115,
            0,
            opcode::USE,
            opcode::PRINT,
            3,
            opcode::LOCAL_LOAD,
            0,
            opcode::USE,
            opcode::PRINT,
            2,
            opcode::POP,
            0,
            opcode::HALT
        ]
    );
}

#[test]
fn read_yields_the_type_that_is_asked_for() {
    assert_eq!(body("let x int:0 = read(); return;")[..3], [opcode::USE, opcode::READ, 1]);
    assert_eq!(body("let x string:0 = read(); return;")[..3], [opcode::USE, opcode::READ, 3]);
    assert_eq!(body("let x vec_int:0 = read(); return;")[..3], [opcode::USE, opcode::READ, 4]);
    assert_eq!(body("let x vec_float:0 = read(); return;")[..3], [opcode::USE, opcode::READ, 5]);
    assert_eq!(body("let x vec_string:0 = read(); return;")[..3], [opcode::USE, opcode::READ, 6]);
    assert_eq!(body("read(); return;")[..3], [opcode::USE, opcode::READ, 0]);
}

#[test]
fn other_built_ins_are_called_by_their_signature() {
    let tokens = lex("fn void main() { let r float:0 = sqrt(4.0); log(\"m\", 1); return; }");
    let builtins = vec![
        Builtin {
            name: "sqrt".to_string(),
            id: 7,
            params: vec![ValueType::Float],
            returns: ValueType::Float,
        },
        Builtin {
            name: "log".to_string(),
            id: 9,
            params: vec![ValueType::Str, ValueType::Int],
            returns: ValueType::Void,
        },
    ];
    let (had_error, code, diagnostics) = compile_with(tokens, builtins);
    assert!(!had_error, "{:?}", diagnostics);
    assert_eq!(
        code[3..],
        [
            opcode::F_CONSTANT,
            4.0f64.to_bits() as i64,
            opcode::USE,
            7,
            opcode::LOCAL_STORE,
            0,
            opcode::S_CONSTANT,
            109,
            0,
            opcode::I_CONSTANT,
            1,
            opcode::USE,
            9,
            opcode::POP,
            0,
            opcode::HALT
        ]
    );
}

#[test]
fn built_in_of_another_type_is_a_mismatch() {
    let tokens = lex("fn void main() { let r int:0 = sqrt(4.0); return; }");
    let builtins = vec![Builtin {
        name: "sqrt".to_string(),
        id: 7,
        params: vec![ValueType::Float],
        returns: ValueType::Float,
    }];
    let (_, _, diagnostics) = compile_with(tokens, builtins);
    assert_eq!(kinds(&diagnostics), vec![DiagnosticKind::TypeMismatch]);
}

#[test]
fn built_in_with_a_value_is_no_statement() {
    let tokens = lex("fn void main() { sqrt(4.0); return; }");
    let builtins = vec![Builtin {
        name: "sqrt".to_string(),
        id: 7,
        params: vec![ValueType::Float],
        returns: ValueType::Float,
    }];
    let (_, _, diagnostics) = compile_with(tokens, builtins);
    assert_eq!(kinds(&diagnostics), vec![DiagnosticKind::CallNotVoid]);
}

#[test]
fn program_without_the_standard_built_ins_knows_no_print() {
    let tokens = lex("fn void main() { print(1); return; }");
    let (_, _, diagnostics) = compile_with(tokens, Vec::new());
    assert_eq!(kinds(&diagnostics)[0], DiagnosticKind::UnknownFunction);
}

#[test]
fn each_problem_is_reported() {
    let cases: Vec<(&str, Vec<DiagnosticKind>)> = vec![
        (
            "fn void print() { return; } fn void main() { return; }",
            vec![DiagnosticKind::ReservedFunctionName],
        ),
        ("fn int:0 main() { return 1; }", vec![DiagnosticKind::MainNotVoid]),
        (
            "fn void f() { return; } fn void f() { return; } fn void main() { return; }",
            vec![DiagnosticKind::DuplicateFunction],
        ),
        ("fn void main() { }", vec![DiagnosticKind::MissingReturn]),
        (
            "fn void main() { if 1 == 1 { return; } }",
            vec![DiagnosticKind::MissingReturn],
        ),
        (
            "fn int:0 f() { return 1; } fn void main() { f(); return; }",
            vec![DiagnosticKind::CallNotVoid],
        ),
        ("fn void main() { ; return; }", vec![DiagnosticKind::UnknownStatement]),
        (
            "fn void main() { let x int:0 = 1 return; }",
            vec![
                DiagnosticKind::Expected(Expectation::SemiColon),
                DiagnosticKind::UnknownStatement,
                DiagnosticKind::MissingReturn,
            ],
        ),
        (
            "fn void main() { return }",
            vec![
                DiagnosticKind::ReturnValueFromVoid,
                DiagnosticKind::Expected(Expectation::SemiColon),
                DiagnosticKind::Expected(Expectation::RightCurly),
            ],
        ),
        (
            "fn void main() { let x int:0 = (1 + 2 return; }",
            vec![DiagnosticKind::NoClosingParenthesis, DiagnosticKind::MissingReturn],
        ),
        ("fn void main() { let s string:0 = 5; return; }", vec![DiagnosticKind::InvalidOperand]),
        (
            "fn void main() { let x int:0 = 1.5; return; }",
            vec![DiagnosticKind::Expected(Expectation::Integer)],
        ),
        (
            "fn void main() { let x float:0 = 1; return; }",
            vec![DiagnosticKind::Expected(Expectation::Float)],
        ),
        ("fn void main() { x = 1; return; }", vec![DiagnosticKind::UndeclaredVariable]),
        (
            "fn void main() { let x int:0 = y; return; }",
            vec![DiagnosticKind::UndeclaredVariable],
        ),
        (
            "fn void main() { let x int:101 = 1; return; }",
            vec![DiagnosticKind::SecurityAboveMaximum(101)],
        ),
        ("fn void main() { nothing(); return; }", vec![DiagnosticKind::UnknownFunction]),
        (
            "fn void main() { let x int:0 = nothing(); return; }",
            vec![DiagnosticKind::UnknownFunction],
        ),
        (
            // the value is not compiled: it stands where the semicolon is
            // missed, and the semicolon behind it begins no statement
            "fn void main() { return 1; }",
            vec![
                DiagnosticKind::ReturnValueFromVoid,
                DiagnosticKind::Expected(Expectation::SemiColon),
                DiagnosticKind::UnknownStatement,
            ],
        ),
        (
            "fn int:0 f() { return; } fn void main() { return; }",
            vec![DiagnosticKind::MissingReturnValue],
        ),
        (
            "fn int:0 f() { return 1; } fn void main() { let x float:0 = f(); return; }",
            vec![DiagnosticKind::FunctionTypeMismatch],
        ),
        (
            "fn void main() { let s string:0 = \"a\\qb\"; return; }",
            vec![DiagnosticKind::BadEscape],
        ),
        (
            "fn void main() { let x int:0 = 1; let y float:0 = x; return; }",
            vec![DiagnosticKind::VariableTypeMismatch],
        ),
    ];
    for (source, expected) in cases {
        assert_eq!(problems(source), expected, "{}", source);
    }
}

#[test]
fn print_of_a_parenthesis_is_reported() {
    let reported = problems("fn void main() { print((1)); return; }");
    assert_eq!(reported[0], DiagnosticKind::UnknownPrintArgument);
}

#[test]
fn security_below_zero_is_reported() {
    let mut tokens = lex("fn void main() { let x int:5 = 1; return; }");
    let level = tokens.iter().position(|t| t.text == "5").unwrap();
    tokens[level] = Token::new(TokenKind::Int, "-5", 1);
    let (had_error, _, diagnostics) = compile_with(tokens, Vec::new());
    assert!(had_error);
    assert_eq!(kinds(&diagnostics), vec![DiagnosticKind::SecurityBelowMinimum(-5)]);
}

#[test]
fn each_matcher_reports_what_it_misses() {
    let cases: Vec<(&str, Expectation)> = vec![
        ("fn void main() return; }", Expectation::LeftCurly),
        ("void main() { return; }", Expectation::Fn),
        ("fn main() { return; }", Expectation::FnType),
        ("fn void main() { let 5 int:0 = 1; return; }", Expectation::Identifier),
        ("fn void main() { let x 5:0 = 1; return; }", Expectation::VarType),
        ("fn void main() { let x int 0 = 1; return; }", Expectation::Colon),
        ("fn void main() { let x int:y = 1; return; }", Expectation::Integer),
        ("fn void main() { let x int:0 1; return; }", Expectation::Equal),
        ("fn void main { return; }", Expectation::LeftParenthesis),
        ("fn void main( { return; }", Expectation::RightParenthesis),
        (
            "fn void f(a int:0, b int:0) { return; } fn void main() { f(1 2); return; }",
            Expectation::Comma,
        ),
        ("fn void main() { if 1 == 1 { } else 2 == 2 { } return; }", Expectation::If),
        ("fn void main() { return;", Expectation::RightCurly),
    ];
    for (source, expected) in cases {
        let reported = problems(source);
        let first = reported.iter().find(|kind| **kind != DiagnosticKind::NoMain);
        assert_eq!(first, Some(&DiagnosticKind::Expected(expected)), "{}", source);
    }
}

#[test]
fn compilation_goes_on_behind_a_problem() {
    let (had_error, code, diagnostics) =
        compile("fn void main() { x = 1; let y int:0 = 2; return; }");
    assert!(had_error);
    assert_eq!(kinds(&diagnostics), vec![DiagnosticKind::UndeclaredVariable]);
    assert_eq!(
        code[3..],
        [
            opcode::I_CONSTANT,
            1,
            opcode::LOCAL_STORE,
            0,
            opcode::I_CONSTANT,
            2,
            opcode::LOCAL_STORE,
            0,
            opcode::POP,
            0,
            opcode::HALT
        ]
    );
}

#[test]
fn reports_carry_the_line_of_the_problem() {
    let (_, _, diagnostics) =
        compile("fn void main() {\n    x = 1;\n    return;\n}\nfn void f() {\n}\n");
    assert_eq!(
        diagnostics,
        vec![
            // found behind the `=`, on line 2, and quoting the name
            Diagnostic { kind: DiagnosticKind::UndeclaredVariable, line: 2, token: 6 },
            Diagnostic { kind: DiagnosticKind::MissingReturn, line: 0, token: 15 },
        ]
    );
}

#[test]
fn a_second_compilation_adds_to_the_first() {
    let tokens = lex("fn void main() { return; }");
    let mut parser = Parser::new(&tokens);
    assert!(!parser.parse(&tokens));
    assert!(parser.parse(&tokens));
    assert_eq!(kinds(parser.diagnostics()), vec![DiagnosticKind::DuplicateFunction]);
    assert_eq!(
        parser.code(),
        &vec![opcode::CALL, 3, 0, opcode::HALT, opcode::CALL, 3, 0, opcode::HALT]
    );
}

#[test]
fn input_must_be_able_to_end() {
    assert!(!check_tokens(&Vec::new()));
    for last in [
        TokenKind::Add,
        TokenKind::Sub,
        TokenKind::Mul,
        TokenKind::Div,
        TokenKind::Less,
        TokenKind::Greater,
        TokenKind::EqualEqual,
        TokenKind::NotEqual,
        TokenKind::LessEqual,
        TokenKind::GreaterEqual,
        TokenKind::And,
        TokenKind::Or,
        TokenKind::Comma,
        TokenKind::Else,
        TokenKind::LeftParenthesis,
    ] {
        assert!(!check_tokens(&vec![Token::new(last, "", 1)]), "{:?}", last);
        assert!(!last.may_end_input());
    }
    for last in [
        TokenKind::EndOfInput,
        TokenKind::RightCurly,
        TokenKind::SemiColon,
        TokenKind::Identifier,
        TokenKind::If,
    ] {
        assert!(check_tokens(&vec![Token::new(last, "", 1)]), "{:?}", last);
    }
}

#[test]
fn integer_literals_must_fit() {
    assert!(check_tokens(&vec![
        Token::new(TokenKind::Int, "9223372036854775807", 1),
        Token::new(TokenKind::EndOfInput, "", 1)
    ]));
    assert!(!check_tokens(&vec![
        Token::new(TokenKind::Int, "9223372036854775808", 1),
        Token::new(TokenKind::EndOfInput, "", 1)
    ]));
    assert!(!check_tokens(&vec![
        Token::new(TokenKind::Int, "12a", 1),
        Token::new(TokenKind::EndOfInput, "", 1)
    ]));
    // the text of other tokens is free
    assert!(check_tokens(&vec![
        Token::new(TokenKind::Identifier, "12a", 1),
        Token::new(TokenKind::EndOfInput, "", 1)
    ]));
}

#[test]
fn input_that_breaks_off_is_compiled_to_its_end() {
    for source in [
        "fn",
        "fn void",
        "fn void main",
        "fn void main(",
        "fn void main() {",
        "fn void main() { let",
        "fn void main() { let x",
        "fn void main() { let x int:0 =",
        "fn void main() { if",
        "fn void main() { if 1 == 1 { } else",
        "fn void main() { while",
        "fn void main() { print(1,",
        "fn void main() { f(",
        "fn void main() { return",
        "fn int:0 f(a int:0,",
        "fn void main() { x = (",
    ] {
        let mut tokens = lex(source);
        if !check_tokens(&tokens) {
            tokens.push(Token::new(TokenKind::EndOfInput, "", 1));
        }
        assert!(check_tokens(&tokens));
        let mut parser = Parser::new(&tokens);
        assert!(parser.parse(&tokens), "{}", source);
    }
}

#[test]
fn reports_are_written_as_lines_for_a_reader() {
    let tokens = lex(
        "fn void helper(a int:50) {\n    let a int:0 = 1;\n    b = a +;\n}\n",
    );
    let mut parser = Parser::new(&tokens);
    assert!(parser.parse(&tokens));
    let lines: Vec<String> =
        parser.diagnostics().iter().map(|report| report.message(&tokens)).collect();
    assert_eq!(
        lines,
        vec![
            "No main function found in program.",
            "Identifier 'a' already declared on line 2.",
            "Undeclared variable 'b' on line 3.",
            "Expected integer, got ';' on line 3.",
            "Expected ';', got '}' on line 4.",
            "Expected '}', got '' on line 5.",
            "Function 'helper' has no return statement.",
        ]
    );
}

#[test]
fn break_in_a_block_inside_a_loop_is_accepted() {
    assert_eq!(
        problems(
            "fn void main() {
                 while 1 == 1 { if 1 == 1 { while 2 == 2 { } break; } else { break; } }
                 return;
             }"
        ),
        vec![]
    );
}

#[test]
fn break_in_a_block_outside_every_loop_is_rejected() {
    let (had_error, code, diagnostics) =
        compile("fn void main() { if 1 == 1 { break; } return; }");
    assert!(had_error);
    assert_eq!(
        diagnostics,
        vec![Diagnostic { kind: DiagnosticKind::BreakOutsideLoop, line: 1, token: 11 }]
    );
    assert_eq!(
        code[3..],
        [
            opcode::I_CONSTANT,
            1,
            opcode::I_CONSTANT,
            1,
            opcode::I_EQUAL,
            opcode::JUMP_IF_FALSE,
            14,
            opcode::JUMP,
            0,
            opcode::JUMP,
            14,
            opcode::HALT
        ]
    );
}

#[test]
fn variable_around_a_block_stays_in_sight_behind_it() {
    assert_eq!(
        problems(
            "fn void main() {
                 let x int:0 = 1;
                 if x == 1 { let y int:0 = 2; x = y; }
                 x = 3;
                 return;
             }"
        ),
        vec![]
    );
}

#[test]
fn variable_that_a_block_declares_again_leaves_with_the_block() {
    assert_eq!(
        problems(
            "fn void main() {
                 let x int:0 = 1;
                 if 1 == 1 { let x int:0 = 2; }
                 x = 3;
                 return;
             }"
        ),
        vec![DiagnosticKind::AlreadyDeclared, DiagnosticKind::UndeclaredVariable]
    );
}

#[test]
fn slot_of_a_closed_block_is_not_handed_out_again() {
    let code = body("if 1 == 1 { let x int:0 = 1; } let y int:0 = 2; return;");
    assert_eq!(code[7..11], [opcode::I_CONSTANT, 1, opcode::LOCAL_STORE, 0]);
    assert_eq!(code[13..17], [opcode::I_CONSTANT, 2, opcode::LOCAL_STORE, 1]);
}

#[test]
fn function_addresses_count_each_value_of_a_print() {
    let tokens = lex(
        "fn void f() { print(1, 2 + 3 * 4, \"a\"); return; }
         fn void main() { f(); return; }",
    );
    let mut parser = Parser::new(&tokens);
    assert!(!parser.parse(&tokens));
    assert_eq!(parser.function_address("f"), Some(3));
    assert_eq!(parser.function_address("main"), Some(26));
    assert_eq!(parser.code().len(), 30);
    assert_eq!(parser.code()[26..], [opcode::CALL, 3, 0, opcode::HALT]);
}
