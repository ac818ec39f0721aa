use vsl_compiler::opcode;
use vsl_compiler::parser::Parser;
use vsl_compiler::token::{check_tokens, Token, TokenKind};

fn keyword(word: &str) -> Option<TokenKind> {
    Some(match word {
        "int" => TokenKind::IntType,
        "float" => TokenKind::FloatType,
        "string" => TokenKind::StringType,
        "vec_int" => TokenKind::VecInt,
        "vec_float" => TokenKind::VecFloat,
        "vec_string" => TokenKind::VecString,
        "fn" => TokenKind::Fn,
        "let" => TokenKind::Let,
        "and" => TokenKind::And,
        "or" => TokenKind::Or,
        "while" => TokenKind::While,
        "return" => TokenKind::Return,
        "if" => TokenKind::If,
        "else" => TokenKind::Else,
        "void" => TokenKind::Void,
        "break" => TokenKind::Break,
        _ => return None,
    })
}

/// Splits a source text into tokens and closes them with an end marker.
fn lex(source: &str) -> Vec<Token> {
    let chars: Vec<char> = source.chars().collect();
    let mut tokens = Vec::new();
    let mut line = 1;
    let mut i = 0;
    while i < chars.len() {
        let c = chars[i];
        if c == '\n' {
            line += 1;
            i += 1;
        } else if c.is_whitespace() {
            i += 1;
        } else if c.is_ascii_alphabetic() || c == '_' {
            let start = i;
            while i < chars.len() && (chars[i].is_ascii_alphanumeric() || chars[i] == '_') {
                i += 1;
            }
            let word: String = chars[start..i].iter().collect();
            let kind = keyword(&word).unwrap_or(TokenKind::Identifier);
            tokens.push(Token::new(kind, &word, line));
        } else if c.is_ascii_digit() {
            let start = i;
            while i < chars.len() && (chars[i].is_ascii_digit() || chars[i] == '.') {
                i += 1;
            }
            let word: String = chars[start..i].iter().collect();
            if word.contains('.') {
                let value: f64 = word.parse().unwrap();
                tokens.push(Token::float(&word, value.to_bits() as i64, line));
            } else {
                tokens.push(Token::new(TokenKind::Int, &word, line));
            }
        } else if c == '"' {
            let start = i;
            i += 1;
            while i < chars.len() && chars[i] != '"' {
                i += 1;
            }
            i += 1;
            let word: String = chars[start..i.min(chars.len())].iter().collect();
            tokens.push(Token::new(TokenKind::Str, &word, line));
        } else {
            let two: String = chars[i..(i + 2).min(chars.len())].iter().collect();
            let (kind, len) = match two.as_str() {
                "==" => (TokenKind::EqualEqual, 2),
                "!=" => (TokenKind::NotEqual, 2),
                "<=" => (TokenKind::LessEqual, 2),
                ">=" => (TokenKind::GreaterEqual, 2),
                _ => (
                    match c {
                        ';' => TokenKind::SemiColon,
                        '(' => TokenKind::LeftParenthesis,
                        ')' => TokenKind::RightParenthesis,
                        '{' => TokenKind::LeftCurly,
                        '}' => TokenKind::RightCurly,
                        '=' => TokenKind::Equal,
                        ':' => TokenKind::Colon,
                        ',' => TokenKind::Comma,
                        '+' => TokenKind::Add,
                        '*' => TokenKind::Mul,
                        '/' => TokenKind::Div,
                        '-' => TokenKind::Sub,
                        '<' => TokenKind::Less,
                        '>' => TokenKind::Greater,
                        other => panic!("no token begins with {}", other),
                    },
                    1,
                ),
            };
            let word: String = chars[i..i + len].iter().collect();
            tokens.push(Token::new(kind, &word, line));
            i += len;
        }
    }
    tokens.push(Token::new(TokenKind::EndOfInput, "", line));
    tokens
}

/// What a run of a program prints: the values handed to `print`, as words.
///
/// A machine for the integer part of the instruction set. Each call has a
/// frame of arguments and local slots; values are computed on one stack.
fn run(code: &[i64]) -> Vec<i64> {
    struct Frame {
        args: Vec<i64>,
        locals: Vec<i64>,
        back: usize,
    }
    let mut printed = Vec::new();
    let mut stack: Vec<i64> = Vec::new();
    let mut frames = vec![Frame { args: Vec::new(), locals: Vec::new(), back: code.len() }];
    let mut pc = 0;
    let mut steps = 0;
    while pc < code.len() {
        steps += 1;
        assert!(steps < 100_000, "the program does not stop");
        let op = code[pc];
        let frame = frames.len() - 1;
        match op {
            opcode::I_CONSTANT => {
                stack.push(code[pc + 1]);
                pc += 2;
            }
            opcode::LOCAL_LOAD => {
                stack.push(frames[frame].locals[code[pc + 1] as usize]);
                pc += 2;
            }
            opcode::LOCAL_STORE => {
                let slot = code[pc + 1] as usize;
                let value = stack.pop().unwrap();
                if frames[frame].locals.len() <= slot {
                    frames[frame].locals.resize(slot + 1, 0);
                }
                frames[frame].locals[slot] = value;
                pc += 2;
            }
            opcode::ARG_LOAD => {
                stack.push(frames[frame].args[code[pc + 1] as usize]);
                pc += 2;
            }
            opcode::ARG_STORE => {
                let value = stack.pop().unwrap();
                frames[frame].args[code[pc + 1] as usize] = value;
                pc += 2;
            }
            opcode::POP => {
                assert_eq!(frames[frame].locals.len(), code[pc + 1] as usize + 1);
                frames[frame].locals.pop();
                pc += 2;
            }
            opcode::I_ADD..=opcode::I_GREATER_EQUAL | opcode::OP_AND | opcode::OP_OR => {
                let right = stack.pop().unwrap();
                let left = stack.pop().unwrap();
                stack.push(match op {
                    opcode::I_ADD => left + right,
                    opcode::I_SUB => left - right,
                    opcode::I_MUL => left * right,
                    opcode::I_DIV => left / right,
                    opcode::I_EQUAL => (left == right) as i64,
                    opcode::I_NOT_EQUAL => (left != right) as i64,
                    opcode::I_LESS => (left < right) as i64,
                    opcode::I_GREATER => (left > right) as i64,
                    opcode::I_LESS_EQUAL => (left <= right) as i64,
                    opcode::I_GREATER_EQUAL => (left >= right) as i64,
                    opcode::OP_AND => (left != 0 && right != 0) as i64,
                    _ => (left != 0 || right != 0) as i64,
                });
                pc += 1;
            }
            opcode::JUMP_IF_FALSE => {
                if stack.pop().unwrap() == 0 {
                    pc = code[pc + 1] as usize;
                } else {
                    pc += 2;
                }
            }
            opcode::JUMP => pc = code[pc + 1] as usize,
            opcode::CALL => {
                let count = code[pc + 2] as usize;
                let args = stack.split_off(stack.len() - count);
                frames.push(Frame { args, locals: Vec::new(), back: pc + 3 });
                pc = code[pc + 1] as usize;
            }
            opcode::RETURN_VAL | opcode::RETURN_NON_VAL => {
                let done = frames.pop().unwrap();
                assert!(done.locals.is_empty(), "a slot was not given up");
                pc = done.back;
            }
            opcode::USE => {
                assert_eq!(code[pc + 1], opcode::PRINT);
                printed.push(stack.pop().unwrap());
                pc += 3;
            }
            opcode::HALT => {
                assert!(frames[frame].locals.is_empty(), "a slot was not given up");
                return printed;
            }
            other => panic!("the machine has no instruction {}", other),
        }
    }
    printed
}

/// What the program `source` prints.
fn output(source: &str) -> Vec<i64> {
    let tokens = lex(source);
    assert!(check_tokens(&tokens));
    let mut parser = Parser::new(&tokens);
    let had_error = parser.parse(&tokens);
    assert!(!had_error, "{:?}", parser.diagnostics());
    run(parser.code())
}

fn chain(x: i64) -> Vec<i64> {
    output(&format!(
        "fn void main() {{
            let x int:0 = {};
            if x == 1 {{ print(10); }} else if x == 2 {{ print(20); }} else if x == 3 {{ print(30); }} else {{ print(40); }}
            print(99);
            return;
        }}",
        x
    ))
}

#[test]
fn exactly_one_branch_of_a_chain_runs() {
    assert_eq!(chain(1), vec![10, 99]);
    assert_eq!(chain(2), vec![20, 99]);
    assert_eq!(chain(3), vec![30, 99]);
    assert_eq!(chain(4), vec![40, 99]);
    assert_eq!(chain(0), vec![40, 99]);
}

#[test]
fn no_branch_runs_where_no_condition_holds_and_no_else_closes_the_chain() {
    let source = |x: i64| {
        format!(
            "fn void main() {{ let x int:0 = {};
                if x == 1 {{ print(10); }} else if x == 2 {{ print(20); }}
                print(99); return; }}",
            x
        )
    };
    assert_eq!(output(&source(1)), vec![10, 99]);
    assert_eq!(output(&source(2)), vec![20, 99]);
    assert_eq!(output(&source(3)), vec![99]);
}

#[test]
fn nested_chains_run_one_branch_each() {
    let source = |x: i64, y: i64| {
        format!(
            "fn void main() {{ let x int:0 = {}; let y int:0 = {};
                if x == 1 {{ if y == 1 {{ print(11); }} else {{ print(12); }} }}
                else {{ if y == 1 {{ print(21); }} else {{ print(22); }} }}
                return; }}",
            x, y
        )
    };
    assert_eq!(output(&source(1, 1)), vec![11]);
    assert_eq!(output(&source(1, 2)), vec![12]);
    assert_eq!(output(&source(2, 1)), vec![21]);
    assert_eq!(output(&source(2, 2)), vec![22]);
}

#[test]
fn loop_runs_until_its_condition_fails() {
    assert_eq!(
        output(
            "fn void main() { let i int:0 = 0; let sum int:0 = 0;
                while i < 5 { i = i + 1; sum = sum + i; }
                print(sum); print(i); return; }"
        ),
        vec![15, 5]
    );
}

#[test]
fn break_leaves_the_loop_at_once() {
    assert_eq!(
        output(
            "fn void main() { let i int:0 = 0;
                while i < 10 { if i == 3 { break; } print(i); i = i + 1; }
                print(100); return; }"
        ),
        vec![0, 1, 2, 100]
    );
}

#[test]
fn break_leaves_the_innermost_loop_only() {
    assert_eq!(
        output(
            "fn void main() { let i int:0 = 0;
                while i < 3 {
                    let j int:0 = 0;
                    while 1 == 1 { if j == 2 { break; } j = j + 1; }
                    print(i * 10 + j);
                    i = i + 1;
                }
                return; }"
        ),
        vec![2, 12, 22]
    );
}

#[test]
fn expressions_are_computed_by_precedence() {
    assert_eq!(
        output(
            "fn void main() { let grouped int:0 = (1 + 2) * 3;
                print(1 + 2 * 3 - 4, grouped, 20 / 2 / 5, 7 - 2 - 1); return; }"
        ),
        vec![3, 9, 2, 4]
    );
}

#[test]
fn conditions_are_joined() {
    let source = |a: i64, b: i64| {
        format!(
            "fn void main() {{ let a int:0 = {}; let b int:0 = {};
                if a == 1 and b == 1 {{ print(1); }} else {{ print(0); }}
                if a == 1 or b == 1 {{ print(1); }} else {{ print(0); }}
                return; }}",
            a, b
        )
    };
    assert_eq!(output(&source(1, 1)), vec![1, 1]);
    assert_eq!(output(&source(1, 0)), vec![0, 1]);
    assert_eq!(output(&source(0, 1)), vec![0, 1]);
    assert_eq!(output(&source(0, 0)), vec![0, 0]);
}

#[test]
fn functions_are_called_with_their_arguments() {
    assert_eq!(
        output(
            "fn void show(a int:0, b int:0) { let d int:0 = a - b; print(d); return; }
             fn void main() { show(7, 2); show(1, 1); return; }"
        ),
        vec![5, 0]
    );
}
