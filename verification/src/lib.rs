//! A single-pass compiler from a small, statically typed, security-annotated
//! language to the code of a stack machine, and a decoder for that code.
//!
//! The compiler reads tokens and emits code as it goes: there is no syntax
//! tree. A first pass over the tokens finds where the code of each function
//! will start, so that a call can be compiled before the function it calls.
//! The second pass parses by recursive descent, checks types and security
//! levels, and emits the code, writing the targets of forward jumps when the
//! addresses are known. A problem is reported and the compilation goes on.
//!
//! `model` says what the compiler computes, as functions on mathematical
//! values; `parser`, `prepass`, `expression`, `statement` and `program` hold
//! the compiler itself, which is proved to compute just that; `theory`
//! proves what every production keeps of the state it starts from, and
//! `laws` states what follows for every program.

pub mod diagnostic;
pub mod disassembler;
pub mod expression;
pub mod laws;
pub mod message;
pub mod model;
pub mod number;
pub mod opcode;
pub mod operator;
pub mod parser;
pub mod prepass;
pub mod program;
pub mod serialize;
pub mod statement;
pub mod symbol;
pub mod table;
pub mod theory;
pub mod token;
pub mod types;
