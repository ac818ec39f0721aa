//! The decoder: from a code buffer back to its instructions.

use crate::message::{append_number, append_signed, decimal, digits_of};
use crate::opcode::{
    fixed_operands, is_opcode, mnemonic, mnemonic_text, use_operands, ARG_LOAD, ARG_STORE, CALL,
    F_CONSTANT, HALT, I_CONSTANT, JUMP, JUMP_IF_FALSE, LOCAL_LOAD, LOCAL_STORE, POP, PRINT, READ,
    S_CONSTANT, USE,
};
use vstd::prelude::*;

verus! {

/// What follows the opcode of an instruction.
#[derive(Clone, Copy, Debug, PartialEq, Eq, Structural)]
pub enum Operands {
    /// Nothing.
    Zero,
    /// One word.
    One(i64),
    /// Two words.
    Two(i64, i64),
    /// The text of a string constant: the `count` words of the code from
    /// position `first` on, one for each character. The zero word that
    /// closes the text follows them.
    Text { first: usize, count: usize },
}

/// One instruction of a code buffer.
#[derive(Clone, Copy, Debug, PartialEq, Eq, Structural)]
pub struct Instruction {
    /// The position of the opcode in the buffer.
    pub offset: usize,
    pub opcode: i64,
    pub operands: Operands,
}

/// How a listing begins the line of `instruction`: its position, a colon
/// and the name of the instruction.
pub open spec fn line_head(instruction: Instruction) -> Seq<char> {
    digits_of(instruction.offset as nat) + ": "@ + mnemonic_text(instruction.opcode)
}

/// The line of `instruction` in a listing, where its operands are written as
/// integers: the head of the line and, behind a space each, the operands in
/// base ten. There is none for a float constant and for a text.
pub open spec fn line_text(instruction: Instruction) -> Option<Seq<char>> {
    match instruction.operands {
        Operands::Zero => Some(line_head(instruction)),
        Operands::One(word) => if instruction.opcode == F_CONSTANT {
            None
        } else {
            Some(line_head(instruction) + " "@ + decimal(word as int))
        },
        Operands::Two(first, second) => Some(
            line_head(instruction) + " "@ + decimal(first as int) + " "@ + decimal(second as int),
        ),
        Operands::Text { .. } => None,
    }
}

impl Instruction {
    /// How a listing begins the line of this instruction.
    pub fn line_head(&self) -> (text: String)
        ensures
            text@ == line_head(*self),
    {
        let mut text = String::from_str("");
        proof {
            reveal_strlit("");
        }
        append_number(&mut text, self.offset as u64);
        text.append(": ");
        text.append(mnemonic(self.opcode));
        assert(text@ =~= line_head(*self));
        text
    }

    /// The line of this instruction in a listing, where its operands are
    /// written as integers.
    pub fn line(&self) -> (text: Option<String>)
        ensures
            match text {
                Some(line) => line_text(*self) == Some(line@),
                None => line_text(*self) is None,
            },
    {
        match self.operands {
            Operands::Zero => Some(self.line_head()),
            Operands::One(word) => {
                if self.opcode == F_CONSTANT {
                    None
                } else {
                    let mut text = self.line_head();
                    text.append(" ");
                    append_signed(&mut text, word);
                    Some(text)
                }
            },
            Operands::Two(first, second) => {
                let mut text = self.line_head();
                text.append(" ");
                append_signed(&mut text, first);
                text.append(" ");
                append_signed(&mut text, second);
                Some(text)
            },
            Operands::Text { .. } => None,
        }
    }
}

/// A code buffer and a position in it.
pub struct Disassembler {
    ip: usize,
    code: Vec<i64>,
}

/// The first position from `i` on that holds a zero word; the length of the
/// code where none does.
pub open spec fn text_end(code: Seq<i64>, i: int) -> int
    decreases code.len() - i,
{
    if 0 <= i < code.len() && code[i] != 0 {
        text_end(code, i + 1)
    } else {
        i
    }
}

/// The operands of the instruction whose opcode stands at `ip`, and the
/// position behind the instruction. There is none where the word at `ip` is
/// no opcode or the code ends inside the instruction.
pub open spec fn operands_at(code: Seq<i64>, ip: int) -> Option<(Operands, int)> {
    let opcode = code[ip];
    if !(0 <= ip < code.len()) || !is_opcode(opcode) {
        None
    } else if opcode == S_CONSTANT {
        let end = text_end(code, ip + 1);
        if ip < end < code.len() {
            Some(
                (
                    Operands::Text { first: (ip + 1) as usize, count: (end - ip - 1) as usize },
                    end + 1,
                ),
            )
        } else {
            None
        }
    } else if opcode == USE {
        if ip + 1 < code.len() && use_operands(code[ip + 1]) == 1 {
            Some((Operands::One(code[ip + 1]), ip + 2))
        } else if ip + 2 < code.len() {
            Some((Operands::Two(code[ip + 1], code[ip + 2]), ip + 3))
        } else {
            None
        }
    } else if fixed_operands(opcode) == 0 {
        Some((Operands::Zero, ip + 1))
    } else if fixed_operands(opcode) == 1 {
        if ip + 1 < code.len() {
            Some((Operands::One(code[ip + 1]), ip + 2))
        } else {
            None
        }
    } else if ip + 2 < code.len() {
        Some((Operands::Two(code[ip + 1], code[ip + 2]), ip + 3))
    } else {
        None
    }
}

/// The instructions of `code` from position `ip` to its end, where the code
/// from there on is a sequence of whole instructions.
pub open spec fn listing(code: Seq<i64>, ip: int) -> Option<Seq<Instruction>>
    decreases code.len() - ip,
{
    if ip >= code.len() {
        Some(Seq::empty())
    } else {
        match operands_at(code, ip) {
            Some((operands, next)) => if ip < next {
                match listing(code, next) {
                    Some(rest) => Some(
                        seq![
                            Instruction { offset: ip as usize, opcode: code[ip], operands },
                        ] + rest,
                    ),
                    None => None,
                }
            } else {
                None
            },
            None => None,
        }
    }
}

impl Disassembler {
    /// The code that the decoder holds.
    pub closed spec fn code(&self) -> Seq<i64> {
        self.code@
    }

    /// The position up to which the code has been decoded.
    pub closed spec fn position(&self) -> int {
        self.ip as int
    }

    /// A decoder for `program`, at its first word.
    pub fn new(program: Vec<i64>) -> (disassembler: Disassembler)
        ensures
            disassembler.code() == program@,
            disassembler.position() == 0,
    {
        let mut disassembler = Disassembler { ip: 0, code: Vec::new() };
        let n: usize = program.len();
        let mut i: usize = 0;
        while i < n
            invariant
                n == program.len(),
                i <= n,
                disassembler.ip == 0,
                disassembler.code@ == program@.take(i as int),
            decreases n - i,
        {
            disassembler.code.push(program[i]);
            assert(program@.take(i + 1) =~= program@.take(i as int).push(program[i as int]));
            i += 1;
        }
        assert(program@.take(n as int) =~= program@);
        disassembler
    }

    /// The instruction at `ip` and the position behind it.
    fn decode_at(&self, ip: usize) -> (found: Option<(Instruction, usize)>)
        requires
            ip < self.code@.len(),
        ensures
            match found {
                Some((instruction, next)) => operands_at(self.code@, ip as int) == Some(
                    (instruction.operands, next as int),
                ) && instruction.offset == ip && instruction.opcode == self.code@[ip as int] && ip
                    < next <= self.code@.len(),
                None => operands_at(self.code@, ip as int) is None,
            },
    {
        let length: usize = self.code.len();
        let opcode = self.code[ip];
        if opcode < POP || opcode > HALT {
            return None;
        }
        let operands: Operands;
        let next: usize;
        if opcode == S_CONSTANT {
            let mut end: usize = ip + 1;
            while end < length && self.code[end] != 0
                invariant
                    length == self.code@.len(),
                    ip < end <= length,
                    text_end(self.code@, end as int) == text_end(self.code@, ip + 1),
                decreases length - end,
            {
                end += 1;
            }
            if end >= length {
                return None;
            }
            operands = Operands::Text { first: ip + 1, count: end - ip - 1 };
            next = end + 1;
        } else if opcode == USE {
            if ip + 1 < length && !(self.code[ip + 1] == PRINT || self.code[ip + 1] == READ) {
                operands = Operands::One(self.code[ip + 1]);
                next = ip + 2;
            } else if ip + 1 < length && ip + 2 < length {
                operands = Operands::Two(self.code[ip + 1], self.code[ip + 2]);
                next = ip + 3;
            } else {
                return None;
            }
        } else if opcode == CALL {
            if ip + 1 < length && ip + 2 < length {
                operands = Operands::Two(self.code[ip + 1], self.code[ip + 2]);
                next = ip + 3;
            } else {
                return None;
            }
        } else if Self::takes_operand(opcode) {
            if ip + 1 < length {
                operands = Operands::One(self.code[ip + 1]);
                next = ip + 2;
            } else {
                return None;
            }
        } else {
            operands = Operands::Zero;
            next = ip + 1;
        }
        Some((Instruction { offset: ip, opcode, operands }, next))
    }

    /// Whether the instruction `opcode` has exactly one operand word.
    fn takes_operand(opcode: i64) -> (one: bool)
        ensures
            one == (fixed_operands(opcode) == 1),
    {
        opcode == POP || opcode == LOCAL_LOAD || opcode == LOCAL_STORE || opcode == I_CONSTANT
            || opcode == F_CONSTANT || opcode == JUMP_IF_FALSE || opcode == JUMP || opcode
            == ARG_LOAD || opcode == ARG_STORE
    }

    /// The instructions from position `from` to the end of the code, if the
    /// code from there on is a sequence of whole instructions.
    fn scan(&self, from: usize) -> (found: Option<Vec<Instruction>>)
        ensures
            match found {
                Some(instructions) => listing(self.code@, from as int) == Some(instructions@),
                None => listing(self.code@, from as int) is None,
            },
    {
        let length: usize = self.code.len();
        let mut instructions: Vec<Instruction> = Vec::new();
        let mut ip: usize = from;
        while ip < length
            invariant
                length == self.code@.len(),
                listing(self.code@, from as int) == match listing(self.code@, ip as int) {
                    Some(rest) => Some(instructions@ + rest),
                    None => None,
                },
            decreases length - ip,
        {
            match self.decode_at(ip) {
                Some((instruction, next)) => {
                    proof {
                        let rest = listing(self.code@, next as int);
                        if rest is Some {
                            assert(instructions@.push(instruction) + rest->0 =~= instructions@ + (
                            seq![instruction] + rest->0));
                        }
                    }
                    instructions.push(instruction);
                    ip = next;
                },
                None => {
                    return None;
                },
            }
        }
        assert(instructions@ + Seq::<Instruction>::empty() =~= instructions@);
        Some(instructions)
    }

    /// Whether the code from the current position on is a sequence of whole
    /// instructions.
    pub fn is_decodable(&self) -> (ok: bool)
        ensures
            ok == (listing(self.code(), self.position()) is Some),
    {
        self.scan(self.ip).is_some()
    }

    /// Decodes the code from the current position to its end, and moves the
    /// position there.
    pub fn disassemble(&mut self) -> (instructions: Vec<Instruction>)
        requires
            listing(old(self).code(), old(self).position()) is Some,
        ensures
            Some(instructions@) == listing(old(self).code(), old(self).position()),
            final(self).code() == old(self).code(),
            final(self).position() == if old(self).position() < old(self).code().len() {
                old(self).code().len() as int
            } else {
                old(self).position()
            },
    {
        let instructions = match self.scan(self.ip) {
            Some(instructions) => instructions,
            None => Vec::new(),
        };
        if self.ip < self.code.len() {
            self.ip = self.code.len();
        }
        instructions
    }
}

} // verus!
