//! The instruction set of the stack machine.
//!
//! Every instruction is one opcode word followed by a fixed number of operand
//! words, except the string constant, whose operand is a zero-terminated run of
//! character words. The code generator and the decoder both go by the numbers
//! and operand counts given here.

use vstd::prelude::*;

verus! {

/// Gives up the local slot that the operand names.
pub const POP: i64 = 1;
/// Pushes the value of the local slot that the operand names.
pub const LOCAL_LOAD: i64 = 2;
/// Pops a value into the local slot that the operand names.
pub const LOCAL_STORE: i64 = 3;

/// Pushes the operand, an integer.
pub const I_CONSTANT: i64 = 4;
/// Adds two integers.
pub const I_ADD: i64 = 5;
/// Subtracts two integers.
pub const I_SUB: i64 = 6;
/// Multiplies two integers.
pub const I_MUL: i64 = 7;
/// Divides two integers.
pub const I_DIV: i64 = 8;
/// Tells whether two integers are equal.
pub const I_EQUAL: i64 = 9;
/// Tells whether an integer is less than another.
pub const I_LESS: i64 = 10;
/// Tells whether an integer is greater than another.
pub const I_GREATER: i64 = 11;
/// Tells whether two integers differ.
pub const I_NOT_EQUAL: i64 = 12;
/// Tells whether an integer is at most another.
pub const I_LESS_EQUAL: i64 = 13;
/// Tells whether an integer is at least another.
pub const I_GREATER_EQUAL: i64 = 14;

/// Pushes the operand, the bits of a float.
pub const F_CONSTANT: i64 = 15;
/// Adds two floats.
pub const F_ADD: i64 = 16;
/// Subtracts two floats.
pub const F_SUB: i64 = 17;
/// Multiplies two floats.
pub const F_MUL: i64 = 18;
/// Divides two floats.
pub const F_DIV: i64 = 19;
/// Tells whether two floats are equal.
pub const F_EQUAL: i64 = 20;
/// Tells whether a float is less than another.
pub const F_LESS: i64 = 21;
/// Tells whether a float is greater than another.
pub const F_GREATER: i64 = 22;
/// Tells whether two floats differ.
pub const F_NOT_EQUAL: i64 = 23;
/// Tells whether a float is at most another.
pub const F_LESS_EQUAL: i64 = 24;
/// Tells whether a float is at least another.
pub const F_GREATER_EQUAL: i64 = 25;

/// Pushes a string: the words that follow, one for each character, up to a
/// zero word.
pub const S_CONSTANT: i64 = 26;
/// Joins two strings.
pub const S_ADD: i64 = 27;
/// Tells whether two strings are equal.
pub const S_EQUAL: i64 = 28;
/// Tells whether two strings differ.
pub const S_NOT_EQUAL: i64 = 29;

/// Tells whether two conditions both hold.
pub const OP_AND: i64 = 30;
/// Tells whether one of two conditions holds.
pub const OP_OR: i64 = 31;

/// Pops a condition and, where it fails, goes on at the address in the
/// operand.
pub const JUMP_IF_FALSE: i64 = 32;
/// Goes on at the address in the operand.
pub const JUMP: i64 = 33;

/// Calls the function at the address in the first operand with as many
/// arguments as the second operand says.
pub const CALL: i64 = 34;
/// Returns from a function with the value on top of the stack.
pub const RETURN_VAL: i64 = 35;
/// Returns from a procedure.
pub const RETURN_NON_VAL: i64 = 36;
/// Pushes the value of the argument that the operand names.
pub const ARG_LOAD: i64 = 37;
/// Pops a value into the argument that the operand names.
pub const ARG_STORE: i64 = 38;

/// Calls the built-in that the first operand names. The calls of `print` and
/// `read` carry the code of a type as a second operand.
pub const USE: i64 = 39;

/// Stops the machine.
pub const HALT: i64 = 40;

/// Identifier of the built-in `print`, the first operand of its `USE`.
pub const PRINT: i64 = 0;

/// Identifier of the built-in `read`, the first operand of its `USE`.
pub const READ: i64 = 1;

/// Whether `word` is the number of an instruction.
pub open spec fn is_opcode(word: i64) -> bool {
    POP <= word <= HALT
}

/// The number of operand words that follow the opcode `word`, for every
/// instruction but `S_CONSTANT` and `USE`, whose lengths depend on what
/// follows them.
pub open spec fn fixed_operands(word: i64) -> nat {
    if word == POP || word == LOCAL_LOAD || word == LOCAL_STORE || word == I_CONSTANT || word
        == F_CONSTANT || word == JUMP_IF_FALSE || word == JUMP || word == ARG_LOAD || word
        == ARG_STORE {
        1
    } else if word == CALL {
        2
    } else {
        0
    }
}

/// The number of operand words of a `USE` whose first operand is `id`: `print`
/// and `read` carry a type code after the identifier, other built-ins do not.
pub open spec fn use_operands(id: i64) -> nat {
    if id == PRINT || id == READ {
        2
    } else {
        1
    }
}

/// The name of the instruction with the number `opcode`; the empty text for
/// a word that is no opcode.
pub open spec fn mnemonic_text(opcode: i64) -> Seq<char> {
    if opcode == POP {
        "pop"@
    } else if opcode == LOCAL_LOAD {
        "local_load"@
    } else if opcode == LOCAL_STORE {
        "local_store"@
    } else if opcode == I_CONSTANT {
        "i_constant"@
    } else if opcode == I_ADD {
        "i_add"@
    } else if opcode == I_SUB {
        "i_sub"@
    } else if opcode == I_MUL {
        "i_mul"@
    } else if opcode == I_DIV {
        "i_div"@
    } else if opcode == I_EQUAL {
        "i_equal"@
    } else if opcode == I_LESS {
        "i_less"@
    } else if opcode == I_GREATER {
        "i_greater"@
    } else if opcode == I_NOT_EQUAL {
        "i_not_equal"@
    } else if opcode == I_LESS_EQUAL {
        "i_less_equal"@
    } else if opcode == I_GREATER_EQUAL {
        "i_greater_equal"@
    } else if opcode == F_CONSTANT {
        "f_constant"@
    } else if opcode == F_ADD {
        "f_add"@
    } else if opcode == F_SUB {
        "f_sub"@
    } else if opcode == F_MUL {
        "f_mul"@
    } else if opcode == F_DIV {
        "f_div"@
    } else if opcode == F_EQUAL {
        "f_equal"@
    } else if opcode == F_LESS {
        "f_less"@
    } else if opcode == F_GREATER {
        "f_greater"@
    } else if opcode == F_NOT_EQUAL {
        "f_not_equal"@
    } else if opcode == F_LESS_EQUAL {
        "f_less_equal"@
    } else if opcode == F_GREATER_EQUAL {
        "f_greater_equal"@
    } else if opcode == S_CONSTANT {
        "s_constant"@
    } else if opcode == S_ADD {
        "s_add"@
    } else if opcode == S_EQUAL {
        "s_equal"@
    } else if opcode == S_NOT_EQUAL {
        "s_not_equal"@
    } else if opcode == OP_AND {
        "and"@
    } else if opcode == OP_OR {
        "or"@
    } else if opcode == JUMP_IF_FALSE {
        "jump_if_false"@
    } else if opcode == JUMP {
        "jump"@
    } else if opcode == CALL {
        "call"@
    } else if opcode == RETURN_VAL {
        "return_val"@
    } else if opcode == RETURN_NON_VAL {
        "return_non_val"@
    } else if opcode == ARG_LOAD {
        "arg_load"@
    } else if opcode == ARG_STORE {
        "arg_store"@
    } else if opcode == USE {
        "use"@
    } else if opcode == HALT {
        "halt"@
    } else {
        ""@
    }
}

/// The name of the instruction with the number `opcode`.
pub fn mnemonic(opcode: i64) -> (name: &'static str)
    ensures
        name@ == mnemonic_text(opcode),
{
    if opcode == POP {
        "pop"
    } else if opcode == LOCAL_LOAD {
        "local_load"
    } else if opcode == LOCAL_STORE {
        "local_store"
    } else if opcode == I_CONSTANT {
        "i_constant"
    } else if opcode == I_ADD {
        "i_add"
    } else if opcode == I_SUB {
        "i_sub"
    } else if opcode == I_MUL {
        "i_mul"
    } else if opcode == I_DIV {
        "i_div"
    } else if opcode == I_EQUAL {
        "i_equal"
    } else if opcode == I_LESS {
        "i_less"
    } else if opcode == I_GREATER {
        "i_greater"
    } else if opcode == I_NOT_EQUAL {
        "i_not_equal"
    } else if opcode == I_LESS_EQUAL {
        "i_less_equal"
    } else if opcode == I_GREATER_EQUAL {
        "i_greater_equal"
    } else if opcode == F_CONSTANT {
        "f_constant"
    } else if opcode == F_ADD {
        "f_add"
    } else if opcode == F_SUB {
        "f_sub"
    } else if opcode == F_MUL {
        "f_mul"
    } else if opcode == F_DIV {
        "f_div"
    } else if opcode == F_EQUAL {
        "f_equal"
    } else if opcode == F_LESS {
        "f_less"
    } else if opcode == F_GREATER {
        "f_greater"
    } else if opcode == F_NOT_EQUAL {
        "f_not_equal"
    } else if opcode == F_LESS_EQUAL {
        "f_less_equal"
    } else if opcode == F_GREATER_EQUAL {
        "f_greater_equal"
    } else if opcode == S_CONSTANT {
        "s_constant"
    } else if opcode == S_ADD {
        "s_add"
    } else if opcode == S_EQUAL {
        "s_equal"
    } else if opcode == S_NOT_EQUAL {
        "s_not_equal"
    } else if opcode == OP_AND {
        "and"
    } else if opcode == OP_OR {
        "or"
    } else if opcode == JUMP_IF_FALSE {
        "jump_if_false"
    } else if opcode == JUMP {
        "jump"
    } else if opcode == CALL {
        "call"
    } else if opcode == RETURN_VAL {
        "return_val"
    } else if opcode == RETURN_NON_VAL {
        "return_non_val"
    } else if opcode == ARG_LOAD {
        "arg_load"
    } else if opcode == ARG_STORE {
        "arg_store"
    } else if opcode == USE {
        "use"
    } else if opcode == HALT {
        "halt"
    } else {
        ""
    }
}

} // verus!
