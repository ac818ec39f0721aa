use vsl_compiler::diagnostic::{Diagnostic, DiagnosticKind, Expectation};
use vsl_compiler::disassembler::{Disassembler, Instruction, Operands};
use vsl_compiler::number::parse_i64;
use vsl_compiler::opcode;
use vsl_compiler::operator::Operator;
use vsl_compiler::parser::Parser;
use vsl_compiler::symbol::standard_library;
use vsl_compiler::serialize::{to_bytes, word_bytes};
use vsl_compiler::token::{literal_value, Token, TokenKind};
use vsl_compiler::types::ValueType;

fn main_that_returns() -> Vec<Token> {
    vec![
        Token::new(TokenKind::Fn, "fn", 1),
        Token::new(TokenKind::Void, "void", 1),
        Token::new(TokenKind::Identifier, "main", 1),
        Token::new(TokenKind::LeftParenthesis, "(", 1),
        Token::new(TokenKind::RightParenthesis, ")", 1),
        Token::new(TokenKind::LeftCurly, "{", 1),
        Token::new(TokenKind::Return, "return", 2),
        Token::new(TokenKind::SemiColon, ";", 2),
        Token::new(TokenKind::RightCurly, "}", 3),
        Token::new(TokenKind::EndOfInput, "", 3),
    ]
}

#[test]
fn words_are_written_most_significant_byte_first() {
    assert_eq!(word_bytes(1), [0, 0, 0, 0, 0, 0, 0, 1]);
    assert_eq!(word_bytes(0x0102_0304_0506_0708), [1, 2, 3, 4, 5, 6, 7, 8]);
    assert_eq!(word_bytes(-1), [255; 8]);
    assert_eq!(word_bytes(-2), [255, 255, 255, 255, 255, 255, 255, 254]);
    assert_eq!(word_bytes(i64::MIN), [128, 0, 0, 0, 0, 0, 0, 0]);
    assert_eq!(word_bytes(i64::MAX), [127, 255, 255, 255, 255, 255, 255, 255]);
    for word in [0, 40, 256, -256, 1.5f64.to_bits() as i64, 0x1234_5678_9abc_def0] {
        assert_eq!(word_bytes(word), word.to_be_bytes());
    }
}

#[test]
fn code_is_written_word_by_word_with_nothing_around() {
    assert_eq!(to_bytes(&Vec::new()), Vec::<u8>::new());
    assert_eq!(
        to_bytes(&vec![34, 3, -1]),
        vec![
            0, 0, 0, 0, 0, 0, 0, 34, //
            0, 0, 0, 0, 0, 0, 0, 3, //
            255, 255, 255, 255, 255, 255, 255, 255
        ]
    );
}

#[test]
fn compiled_program_is_written_out() {
    let tokens = main_that_returns();
    let mut parser = Parser::new(&tokens);
    assert!(!parser.parse(&tokens));
    assert_eq!(
        parser.output_code(),
        vec![
            0, 0, 0, 0, 0, 0, 0, 34, //
            0, 0, 0, 0, 0, 0, 0, 3, //
            0, 0, 0, 0, 0, 0, 0, 0, //
            0, 0, 0, 0, 0, 0, 0, 40
        ]
    );
}

#[test]
fn fresh_compiler_holds_nothing() {
    let tokens = main_that_returns();
    let parser = Parser::new(&tokens);
    assert!(!parser.had_error());
    assert!(parser.code().is_empty());
    assert!(parser.diagnostics().is_empty());
    assert_eq!(parser.function_address("main"), None);
    assert!(parser.output_code().is_empty());
}

#[test]
fn standard_library_is_print_and_read() {
    let table = standard_library();
    assert_eq!(table.len(), 2);
    assert_eq!(table[0].name, "print");
    assert_eq!(table[0].id, opcode::PRINT);
    assert!(table[0].params.is_empty());
    assert_eq!(table[0].returns, ValueType::Void);
    assert_eq!(table[1].name, "read");
    assert_eq!(table[1].id, opcode::READ);
    assert!(table[1].params.is_empty());
    assert_eq!(table[1].returns, ValueType::Void);
}

#[test]
fn type_codes() {
    assert_eq!(ValueType::Void.code(), 0);
    assert_eq!(ValueType::Int.code(), 1);
    assert_eq!(ValueType::Float.code(), 2);
    assert_eq!(ValueType::Str.code(), 3);
    assert_eq!(ValueType::VecInt.code(), 4);
    assert_eq!(ValueType::VecFloat.code(), 5);
    assert_eq!(ValueType::VecStr.code(), 6);
    assert_eq!(ValueType::Unknown.code(), 0);
    assert!(ValueType::Int.has_values());
    assert!(ValueType::VecStr.has_values());
    assert!(!ValueType::Void.has_values());
    assert!(!ValueType::Unknown.has_values());
}

#[test]
fn precedence_rises_from_or_to_the_multiplicative_operators() {
    assert_eq!(Parser::get_precedence(Operator::Or), 1);
    assert_eq!(Parser::get_precedence(Operator::And), 2);
    assert_eq!(Parser::get_precedence(Operator::EqualEqual), 3);
    assert_eq!(Parser::get_precedence(Operator::NotEqual), 3);
    assert_eq!(Parser::get_precedence(Operator::Less), 4);
    assert_eq!(Parser::get_precedence(Operator::Greater), 4);
    assert_eq!(Parser::get_precedence(Operator::LessEqual), 4);
    assert_eq!(Parser::get_precedence(Operator::GreaterEqual), 4);
    assert_eq!(Parser::get_precedence(Operator::Add), 5);
    assert_eq!(Parser::get_precedence(Operator::Sub), 5);
    assert_eq!(Parser::get_precedence(Operator::Mul), 6);
    assert_eq!(Parser::get_precedence(Operator::Div), 6);
    assert!(Operator::And.is_logical());
    assert!(Operator::Or.is_logical());
    assert!(!Operator::Add.is_logical());
}

#[test]
fn token_kinds_write_operators_and_types() {
    assert_eq!(TokenKind::Add.operator(), Some(Operator::Add));
    assert_eq!(TokenKind::Sub.operator(), Some(Operator::Sub));
    assert_eq!(TokenKind::Mul.operator(), Some(Operator::Mul));
    assert_eq!(TokenKind::Div.operator(), Some(Operator::Div));
    assert_eq!(TokenKind::Less.operator(), Some(Operator::Less));
    assert_eq!(TokenKind::Greater.operator(), Some(Operator::Greater));
    assert_eq!(TokenKind::LessEqual.operator(), Some(Operator::LessEqual));
    assert_eq!(TokenKind::GreaterEqual.operator(), Some(Operator::GreaterEqual));
    assert_eq!(TokenKind::EqualEqual.operator(), Some(Operator::EqualEqual));
    assert_eq!(TokenKind::NotEqual.operator(), Some(Operator::NotEqual));
    assert_eq!(TokenKind::And.operator(), Some(Operator::And));
    assert_eq!(TokenKind::Or.operator(), Some(Operator::Or));
    assert_eq!(TokenKind::Equal.operator(), None);
    assert_eq!(TokenKind::IntType.value_type(), Some(ValueType::Int));
    assert_eq!(TokenKind::FloatType.value_type(), Some(ValueType::Float));
    assert_eq!(TokenKind::StringType.value_type(), Some(ValueType::Str));
    assert_eq!(TokenKind::VecInt.value_type(), Some(ValueType::VecInt));
    assert_eq!(TokenKind::VecFloat.value_type(), Some(ValueType::VecFloat));
    assert_eq!(TokenKind::VecString.value_type(), Some(ValueType::VecStr));
    assert_eq!(TokenKind::Void.value_type(), None);
    assert_eq!(TokenKind::Int.value_type(), None);
}

#[test]
fn decimal_integers_are_read() {
    assert_eq!(parse_i64("0"), Some(0));
    assert_eq!(parse_i64("7"), Some(7));
    assert_eq!(parse_i64("007"), Some(7));
    assert_eq!(parse_i64("100"), Some(100));
    assert_eq!(parse_i64("+5"), Some(5));
    assert_eq!(parse_i64("-5"), Some(-5));
    assert_eq!(parse_i64("-0"), Some(0));
    assert_eq!(parse_i64("9223372036854775807"), Some(i64::MAX));
    assert_eq!(parse_i64("-9223372036854775808"), Some(i64::MIN));
    assert_eq!(parse_i64("9223372036854775808"), None);
    assert_eq!(parse_i64("-9223372036854775809"), None);
    assert_eq!(parse_i64("99999999999999999999999"), None);
    assert_eq!(parse_i64(""), None);
    assert_eq!(parse_i64("-"), None);
    assert_eq!(parse_i64("+"), None);
    assert_eq!(parse_i64("--1"), None);
    assert_eq!(parse_i64("1-"), None);
    assert_eq!(parse_i64("12a"), None);
    assert_eq!(parse_i64(" 1"), None);
    assert_eq!(parse_i64("1.5"), None);
    assert_eq!(parse_i64("\u{661}"), None);
    for text in ["0", "42", "-17", "+8", "x", "", "-", "18446744073709551616"] {
        assert_eq!(parse_i64(text), text.parse::<i64>().ok(), "{}", text);
    }
    assert_eq!(literal_value(&Token::new(TokenKind::Int, "80", 1)), 80);
}

#[test]
fn compiled_program_is_decoded() {
    let tokens = main_that_returns();
    let mut parser = Parser::new(&tokens);
    assert!(!parser.parse(&tokens));
    let mut disassembler = Disassembler::new(parser.code().clone());
    assert!(disassembler.is_decodable());
    assert_eq!(
        disassembler.disassemble(),
        vec![
            Instruction { offset: 0, opcode: opcode::CALL, operands: Operands::Two(3, 0) },
            Instruction { offset: 3, opcode: opcode::HALT, operands: Operands::Zero },
        ]
    );
    // the decoder stands at the end now
    assert!(disassembler.is_decodable());
    assert_eq!(disassembler.disassemble(), Vec::new());
}

#[test]
fn every_instruction_is_decoded_with_its_operands() {
    let code = vec![
        opcode::POP,
        2,
        opcode::LOCAL_LOAD,
        1,
        opcode::LOCAL_STORE,
        0,
        opcode::I_CONSTANT,
        -7,
        opcode::I_ADD,
        opcode::F_CONSTANT,
        1.5f64.to_bits() as i64,
        opcode::F_DIV,
        opcode::S_CONSTANT,
        104,
        105,
        0,
        opcode::S_CONSTANT,
        0,
        opcode::S_ADD,
        opcode::OP_AND,
        opcode::JUMP_IF_FALSE,
        24,
        opcode::JUMP,
        0,
        opcode::CALL,
        3,
        2,
        opcode::RETURN_VAL,
        opcode::RETURN_NON_VAL,
        opcode::ARG_LOAD,
        1,
        opcode::ARG_STORE,
        0,
        opcode::USE,
        opcode::PRINT,
        3,
        opcode::USE,
        opcode::READ,
        1,
        opcode::USE,
        17,
        opcode::HALT,
    ];
    let mut disassembler = Disassembler::new(code);
    assert!(disassembler.is_decodable());
    let listing: Vec<(usize, i64, Operands)> =
        disassembler.disassemble().iter().map(|i| (i.offset, i.opcode, i.operands)).collect();
    assert_eq!(
        listing,
        vec![
            (0, opcode::POP, Operands::One(2)),
            (2, opcode::LOCAL_LOAD, Operands::One(1)),
            (4, opcode::LOCAL_STORE, Operands::One(0)),
            (6, opcode::I_CONSTANT, Operands::One(-7)),
            (8, opcode::I_ADD, Operands::Zero),
            (9, opcode::F_CONSTANT, Operands::One(1.5f64.to_bits() as i64)),
            (11, opcode::F_DIV, Operands::Zero),
            (12, opcode::S_CONSTANT, Operands::Text { first: 13, count: 2 }),
            (16, opcode::S_CONSTANT, Operands::Text { first: 17, count: 0 }),
            (18, opcode::S_ADD, Operands::Zero),
            (19, opcode::OP_AND, Operands::Zero),
            (20, opcode::JUMP_IF_FALSE, Operands::One(24)),
            (22, opcode::JUMP, Operands::One(0)),
            (24, opcode::CALL, Operands::Two(3, 2)),
            (27, opcode::RETURN_VAL, Operands::Zero),
            (28, opcode::RETURN_NON_VAL, Operands::Zero),
            (29, opcode::ARG_LOAD, Operands::One(1)),
            (31, opcode::ARG_STORE, Operands::One(0)),
            (33, opcode::USE, Operands::Two(opcode::PRINT, 3)),
            (36, opcode::USE, Operands::Two(opcode::READ, 1)),
            (39, opcode::USE, Operands::One(17)),
            (41, opcode::HALT, Operands::Zero),
        ]
    );
}

#[test]
fn broken_code_is_not_decodable() {
    assert!(Disassembler::new(Vec::new()).is_decodable());
    // no opcode
    assert!(!Disassembler::new(vec![0]).is_decodable());
    assert!(!Disassembler::new(vec![41]).is_decodable());
    assert!(!Disassembler::new(vec![-1]).is_decodable());
    assert!(!Disassembler::new(vec![opcode::HALT, 99]).is_decodable());
    // the code ends inside an instruction
    assert!(!Disassembler::new(vec![opcode::I_CONSTANT]).is_decodable());
    assert!(!Disassembler::new(vec![opcode::CALL, 3]).is_decodable());
    assert!(!Disassembler::new(vec![opcode::USE]).is_decodable());
    assert!(!Disassembler::new(vec![opcode::USE, opcode::PRINT]).is_decodable());
    assert!(!Disassembler::new(vec![opcode::S_CONSTANT, 97, 98]).is_decodable());
    assert!(!Disassembler::new(vec![opcode::S_CONSTANT]).is_decodable());
    assert!(Disassembler::new(vec![opcode::S_CONSTANT, 0]).is_decodable());
    assert!(Disassembler::new(vec![opcode::USE, 5]).is_decodable());
}

fn tokens_for_messages() -> Vec<Token> {
    vec![Token::new(TokenKind::Identifier, "name", 1), Token::new(TokenKind::EndOfInput, "", 1)]
}

fn message(kind: DiagnosticKind, line: usize) -> String {
    Diagnostic { kind, line, token: 0 }.message(&tokens_for_messages())
}

#[test]
fn messages_name_the_problem_and_the_line() {
    let cases = vec![
        (
            DiagnosticKind::ReservedFunctionName,
            "Function name 'name' cannot be the same as a standard library function on line 12.",
        ),
        (DiagnosticKind::NoMain, "No main function found in program."),
        (DiagnosticKind::MainNotVoid, "Function 'main' must be of type void on line 12."),
        (DiagnosticKind::DuplicateFunction, "Function with name 'name' already exists on line 12."),
        (DiagnosticKind::MissingReturn, "Function 'name' has no return statement."),
        (
            DiagnosticKind::CallNotVoid,
            "Function not within an expression must be void on line 12.",
        ),
        (DiagnosticKind::BreakOutsideLoop, "Cannot break out of a non loop on line 12."),
        (DiagnosticKind::UnknownStatement, "Beginning of unkown statement type on line 12."),
        (DiagnosticKind::TypeMismatch, "Type mismatch on line 12."),
        (DiagnosticKind::NoClosingParenthesis, "No closing parenthesis on line 12"),
        (
            DiagnosticKind::InvalidOperand,
            "Invalid Token Type: Expected either literal or grouped expression, got 'name' on line 12.",
        ),
        (DiagnosticKind::UndeclaredVariable, "Undeclared variable 'name' on line 12."),
        (
            DiagnosticKind::OutOfScope,
            "Variable 'name' is not found within this scope on line 12.",
        ),
        (DiagnosticKind::AlreadyDeclared, "Identifier 'name' already declared on line 12."),
        (
            DiagnosticKind::SecurityAboveMaximum(101),
            "'101' exceeds the maximum security of 100 on line 12.",
        ),
        (
            DiagnosticKind::SecurityBelowMinimum(-5),
            "'-5' is below the lowest security of 0 on line 12.",
        ),
        (
            DiagnosticKind::SecurityBelowMinimum(i64::MIN),
            "'-9223372036854775808' is below the lowest security of 0 on line 12.",
        ),
        (DiagnosticKind::UnknownFunction, "Unkown function 'name' found on line 12."),
        (
            DiagnosticKind::ReturnValueFromVoid,
            "Cannot return value from void function on line 12.",
        ),
        (
            DiagnosticKind::MissingReturnValue,
            "Must return value from non-void function on line 12.",
        ),
        (
            DiagnosticKind::UnknownPrintArgument,
            "Unknown token 'name', expected beginning of expression on line 12.",
        ),
        (DiagnosticKind::FunctionTypeMismatch, "Type mismatch: function 'name' on line 12."),
        (DiagnosticKind::SecurityExceeded, "Max security level exceeded with 'name' on line 12."),
        (DiagnosticKind::BadEscape, "Expect 'n' after backslash in token name on line 12."),
        (DiagnosticKind::VariableTypeMismatch, "Type mismatch: identifier 'name' on line 12."),
    ];
    for (kind, expected) in cases {
        assert_eq!(message(kind, 12), expected);
    }
}

#[test]
fn messages_of_the_matchers() {
    let cases = vec![
        (Expectation::LeftCurly, "Expected '{', got 'name' on line 3."),
        (Expectation::RightCurly, "Expected '}', got 'name' on line 3."),
        (Expectation::Fn, "Expected 'fn', got 'name' on line 3."),
        (Expectation::FnType, "Expected type, got 'name' on line 3."),
        (Expectation::SemiColon, "Expected ';', got 'name' on line 3."),
        (Expectation::Let, "Expected 'let', got 'name' on line 3."),
        (Expectation::Identifier, "Expected identifier, got 'name' on line 3."),
        (Expectation::VarType, "Expected type, got 'name' on line 3."),
        (Expectation::Colon, "Expected ':', got 'name' on line 3."),
        (Expectation::Integer, "Expected integer, got 'name' on line 3."),
        (Expectation::Float, "Expected float, got 'name' on line 3."),
        (Expectation::Equal, "Expected '=', got 'name' on line 3."),
        (Expectation::LeftParenthesis, "Expected '(' got 'name' on line 3."),
        (Expectation::RightParenthesis, "Expected ')' got 'name' on line 3."),
        (Expectation::Comma, "Expected ',' got 'name' on line 3."),
        (Expectation::Return, "Expected 'return', got 'name' on line 3."),
        (Expectation::If, "Expected 'if', got 'name' on line 3."),
        (Expectation::Else, "Expected 'else', got 'name' on line 3."),
        (Expectation::While, "Expected 'while', got 'name' on line 3."),
        (Expectation::Break, "Expected 'break', got 'name' on line 3."),
    ];
    for (wanted, expected) in cases {
        assert_eq!(message(DiagnosticKind::Expected(wanted), 3), expected);
    }
}

#[test]
fn messages_of_the_operators() {
    let cases = vec![
        (Operator::Div, "Type does not support division on line 1."),
        (Operator::Mul, "Type does not support multiplication on line 1."),
        (Operator::Sub, "Type does not support subtraction on line 1."),
        (Operator::Add, "Type does not support addition on line 1."),
        (
            Operator::GreaterEqual,
            "Type does not support greater than or equal comparison on line 1.",
        ),
        (Operator::LessEqual, "Type does not support less than or equal comparison on line 1."),
        (Operator::Greater, "Type does not support greater than comparison on line 1."),
        (Operator::Less, "Type does not support less than comparison on line 1."),
        (Operator::EqualEqual, "Type does not support equal comparison on line 1."),
        (Operator::NotEqual, "Type does not support not equal comparison on line 1."),
    ];
    for (op, expected) in cases {
        assert_eq!(message(DiagnosticKind::Unsupported(op), 1), expected);
    }
}

#[test]
fn lines_are_written_in_base_ten() {
    assert_eq!(message(DiagnosticKind::TypeMismatch, 0), "Type mismatch on line 0.");
    assert_eq!(message(DiagnosticKind::TypeMismatch, 9), "Type mismatch on line 9.");
    assert_eq!(message(DiagnosticKind::TypeMismatch, 10), "Type mismatch on line 10.");
    assert_eq!(message(DiagnosticKind::TypeMismatch, 1234567890), "Type mismatch on line 1234567890.");
}

#[test]
fn message_of_a_report_without_a_token_quotes_nothing() {
    let report = Diagnostic { kind: DiagnosticKind::UndeclaredVariable, line: 4, token: 99 };
    assert_eq!(report.message(&tokens_for_messages()), "Undeclared variable '' on line 4.");
}

#[test]
fn instructions_are_listed_with_their_position_and_operands() {
    let halt = Instruction { offset: 3, opcode: opcode::HALT, operands: Operands::Zero };
    assert_eq!(halt.line(), Some(String::from("3: halt")));
    assert_eq!(halt.line_head(), "3: halt");
    let push = Instruction { offset: 120, opcode: opcode::I_CONSTANT, operands: Operands::One(-7) };
    assert_eq!(push.line(), Some(String::from("120: i_constant -7")));
    let least =
        Instruction { offset: 0, opcode: opcode::I_CONSTANT, operands: Operands::One(i64::MIN) };
    assert_eq!(least.line(), Some(String::from("0: i_constant -9223372036854775808")));
    let call = Instruction { offset: 0, opcode: opcode::CALL, operands: Operands::Two(18, 2) };
    assert_eq!(call.line(), Some(String::from("0: call 18 2")));
}

#[test]
fn floats_and_texts_are_not_listed_as_integers() {
    let float = Instruction {
        offset: 9,
        opcode: opcode::F_CONSTANT,
        operands: Operands::One(1.5f64.to_bits() as i64),
    };
    assert_eq!(float.line(), None);
    assert_eq!(float.line_head(), "9: f_constant");
    let text = Instruction {
        offset: 12,
        opcode: opcode::S_CONSTANT,
        operands: Operands::Text { first: 13, count: 2 },
    };
    assert_eq!(text.line(), None);
    assert_eq!(text.line_head(), "12: s_constant");
}
