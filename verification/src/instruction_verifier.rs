//! A standalone operand-shape check for instructions, independent of the
//! parser's dispatch.

use vstd::prelude::*;
use crate::lexer::{Token, TokenView, token_views};
use crate::opcode::Opcode;

verus! {

/// Why an instruction fails the shape check.
#[derive(Debug, Clone, Copy, PartialEq, Eq, Structural)]
pub enum InstructionFault {
    WrongOperandCount,
    InvalidOperands,
    Deprecated,
    Unsupported,
}

/// The operand shapes `verify_instruction` accepts, by opcode family.
pub open spec fn spec_instruction_ok(op: Opcode, ops: Seq<TokenView>) -> bool {
    if op.spec_is_alu() {
        ops.len() == 2 && ops[0] is Register && (ops[1] is Register || ops[1] is ImmediateValue)
    } else if op.spec_is_jump_cond() {
        ops.len() == 3 && ops[0] is Register && (ops[1] is Register || ops[1] is ImmediateValue)
            && ops[2] is Label
    } else if op is Ja {
        ops.len() == 1 && (ops[0] is Label || ops[0] is ImmediateValue)
    } else if op is Exit {
        ops.len() == 0
    } else if op is Call {
        ops.len() == 1 && ops[0] is Label
    } else if op is Lddw {
        ops.len() == 2 && ops[0] is Register && (ops[1] is ImmediateValue || ops[1] is Label)
    } else if op is Neg64 {
        ops.len() == 1 && ops[0] is Register
    } else {
        false
    }
}

/// Check one instruction's operand shape against its opcode family.
/// The deprecated store forms and the byte-swap opcodes always fail.
pub fn verify_instruction(opcode: &Opcode, operands: &[Token]) -> (r: Result<(), InstructionFault>)
    ensures
        r is Ok <==> spec_instruction_ok(*opcode, token_views(operands@)),
{
    let ghost ops = token_views(operands@);
    proof {
        assert(ops.len() == operands@.len());
        assert(forall|j: int| 0 <= j < operands@.len() ==> ops[j] == operands@[j]@);
    }
    if opcode.is_alu() {
        if operands.len() != 2 {
            return Err(InstructionFault::WrongOperandCount);
        }
        match (&operands[0], &operands[1]) {
            (Token::Register(_, _), Token::Register(_, _)) => Ok(()),
            (Token::Register(_, _), Token::ImmediateValue(_, _)) => Ok(()),
            _ => Err(InstructionFault::InvalidOperands),
        }
    } else if opcode.is_jump_cond() {
        if operands.len() != 3 {
            return Err(InstructionFault::WrongOperandCount);
        }
        match (&operands[0], &operands[1], &operands[2]) {
            (Token::Register(_, _), Token::Register(_, _), Token::Label(_, _)) => Ok(()),
            (Token::Register(_, _), Token::ImmediateValue(_, _), Token::Label(_, _)) => Ok(()),
            _ => Err(InstructionFault::InvalidOperands),
        }
    } else {
        match opcode {
            Opcode::Ja => {
                if operands.len() != 1 {
                    return Err(InstructionFault::WrongOperandCount);
                }
                match &operands[0] {
                    Token::Label(_, _) => Ok(()),
                    Token::ImmediateValue(_, _) => Ok(()),
                    _ => Err(InstructionFault::InvalidOperands),
                }
            }
            Opcode::Exit => {
                if operands.len() != 0 {
                    return Err(InstructionFault::WrongOperandCount);
                }
                Ok(())
            }
            Opcode::Call => {
                if operands.len() != 1 {
                    return Err(InstructionFault::WrongOperandCount);
                }
                match &operands[0] {
                    Token::Label(_, _) => Ok(()),
                    _ => Err(InstructionFault::InvalidOperands),
                }
            }
            Opcode::Lddw => {
                if operands.len() != 2 {
                    return Err(InstructionFault::WrongOperandCount);
                }
                match (&operands[0], &operands[1]) {
                    (Token::Register(_, _), Token::ImmediateValue(_, _)) => Ok(()),
                    (Token::Register(_, _), Token::Label(_, _)) => Ok(()),
                    _ => Err(InstructionFault::InvalidOperands),
                }
            }
            Opcode::Stb | Opcode::Sth | Opcode::Stw | Opcode::Stdw => Err(
                InstructionFault::Deprecated,
            ),
            Opcode::Neg64 => {
                if operands.len() != 1 {
                    return Err(InstructionFault::WrongOperandCount);
                }
                match &operands[0] {
                    Token::Register(_, _) => Ok(()),
                    _ => Err(InstructionFault::InvalidOperands),
                }
            }
            _ => Err(InstructionFault::Unsupported),
        }
    }
}

} // verus!
