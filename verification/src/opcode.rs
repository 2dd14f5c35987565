//! The opcode table: mnemonics, numeric encodings, opcode families, and
//! the immediate/register variant specialization the parser applies.

use vstd::prelude::*;
use vstd::string::StringSliceAdditionalSpecFns;
use crate::bytesutil::bytes_eq;

verus! {

/// A closed enumeration of every instruction the assembler knows.
///
/// Arithmetic and conditional-jump mnemonics parse to a generic variant;
/// the parser rewrites it to the `..Imm` or `..Reg` form once the operand
/// shape is known, and only those specialized forms are emitted.
#[derive(Debug, Clone, Copy, PartialEq, Eq, Structural)]
pub enum Opcode {
    Lddw,
    Ldxb,
    Ldxh,
    Ldxw,
    Ldxdw,
    Stb,
    Sth,
    Stw,
    Stdw,
    Stxb,
    Stxh,
    Stxw,
    Stxdw,
    Add32,
    Add32Imm,
    Add32Reg,
    Sub32,
    Sub32Imm,
    Sub32Reg,
    Mul32,
    Mul32Imm,
    Mul32Reg,
    Div32,
    Div32Imm,
    Div32Reg,
    Or32,
    Or32Imm,
    Or32Reg,
    And32,
    And32Imm,
    And32Reg,
    Lsh32,
    Lsh32Imm,
    Lsh32Reg,
    Rsh32,
    Rsh32Imm,
    Rsh32Reg,
    Mod32,
    Mod32Imm,
    Mod32Reg,
    Xor32,
    Xor32Imm,
    Xor32Reg,
    Mov32,
    Mov32Imm,
    Mov32Reg,
    Arsh32,
    Arsh32Imm,
    Arsh32Reg,
    Neg32,
    Neg32Imm,
    Neg32Reg,
    Lmul32,
    Lmul32Imm,
    Lmul32Reg,
    Udiv32,
    Udiv32Imm,
    Udiv32Reg,
    Urem32,
    Urem32Imm,
    Urem32Reg,
    Sdiv32,
    Sdiv32Imm,
    Sdiv32Reg,
    Srem32,
    Srem32Imm,
    Srem32Reg,
    Add64,
    Add64Imm,
    Add64Reg,
    Sub64,
    Sub64Imm,
    Sub64Reg,
    Mul64,
    Mul64Imm,
    Mul64Reg,
    Div64,
    Div64Imm,
    Div64Reg,
    Or64,
    Or64Imm,
    Or64Reg,
    And64,
    And64Imm,
    And64Reg,
    Lsh64,
    Lsh64Imm,
    Lsh64Reg,
    Rsh64,
    Rsh64Imm,
    Rsh64Reg,
    Mod64,
    Mod64Imm,
    Mod64Reg,
    Xor64,
    Xor64Imm,
    Xor64Reg,
    Mov64,
    Mov64Imm,
    Mov64Reg,
    Arsh64,
    Arsh64Imm,
    Arsh64Reg,
    Lmul64,
    Lmul64Imm,
    Lmul64Reg,
    Udiv64,
    Udiv64Imm,
    Udiv64Reg,
    Urem64,
    Urem64Imm,
    Urem64Reg,
    Sdiv64,
    Sdiv64Imm,
    Sdiv64Reg,
    Srem64,
    Srem64Imm,
    Srem64Reg,
    Neg64,
    Uhmul64,
    Uhmul64Imm,
    Uhmul64Reg,
    Ja,
    Jeq,
    JeqImm,
    JeqReg,
    Jgt,
    JgtImm,
    JgtReg,
    Jge,
    JgeImm,
    JgeReg,
    Jlt,
    JltImm,
    JltReg,
    Jle,
    JleImm,
    JleReg,
    Jset,
    JsetImm,
    JsetReg,
    Jne,
    JneImm,
    JneReg,
    Jsgt,
    JsgtImm,
    JsgtReg,
    Jsge,
    JsgeImm,
    JsgeReg,
    Jslt,
    JsltImm,
    JsltReg,
    Jsle,
    JsleImm,
    JsleReg,
    Call,
    Exit,
    Le,
    Be,
}

impl Opcode {
    /// The instruction byte this opcode encodes to (byte 0 of the
    /// emitted instruction). Generic arithmetic and jump variants give
    /// the byte of their immediate form.
    pub open spec fn spec_to_bytecode(self) -> u8 {
        match self {
            Opcode::Lddw => 0x18,
            Opcode::Ldxb => 0x71,
            Opcode::Ldxh => 0x69,
            Opcode::Ldxw => 0x61,
            Opcode::Ldxdw => 0x79,
            Opcode::Stb => 0x72,
            Opcode::Sth => 0x6a,
            Opcode::Stw => 0x62,
            Opcode::Stdw => 0x7a,
            Opcode::Stxb => 0x73,
            Opcode::Stxh => 0x6b,
            Opcode::Stxw => 0x63,
            Opcode::Stxdw => 0x7b,
            Opcode::Add32 => 0x04,
            Opcode::Add32Imm => 0x04,
            Opcode::Add32Reg => 0x0c,
            Opcode::Sub32 => 0x14,
            Opcode::Sub32Imm => 0x14,
            Opcode::Sub32Reg => 0x1c,
            Opcode::Mul32 => 0x24,
            Opcode::Mul32Imm => 0x24,
            Opcode::Mul32Reg => 0x2c,
            Opcode::Div32 => 0x34,
            Opcode::Div32Imm => 0x34,
            Opcode::Div32Reg => 0x3c,
            Opcode::Or32 => 0x44,
            Opcode::Or32Imm => 0x44,
            Opcode::Or32Reg => 0x4c,
            Opcode::And32 => 0x54,
            Opcode::And32Imm => 0x54,
            Opcode::And32Reg => 0x5c,
            Opcode::Lsh32 => 0x64,
            Opcode::Lsh32Imm => 0x64,
            Opcode::Lsh32Reg => 0x6c,
            Opcode::Rsh32 => 0x74,
            Opcode::Rsh32Imm => 0x74,
            Opcode::Rsh32Reg => 0x7c,
            Opcode::Mod32 => 0x94,
            Opcode::Mod32Imm => 0x94,
            Opcode::Mod32Reg => 0x9c,
            Opcode::Xor32 => 0xa4,
            Opcode::Xor32Imm => 0xa4,
            Opcode::Xor32Reg => 0xac,
            Opcode::Mov32 => 0xb4,
            Opcode::Mov32Imm => 0xb4,
            Opcode::Mov32Reg => 0xbc,
            Opcode::Arsh32 => 0xc4,
            Opcode::Arsh32Imm => 0xc4,
            Opcode::Arsh32Reg => 0xcc,
            Opcode::Neg32 => 0x84,
            Opcode::Neg32Imm => 0x84,
            Opcode::Neg32Reg => 0x8c,
            Opcode::Lmul32 => 0x86,
            Opcode::Lmul32Imm => 0x86,
            Opcode::Lmul32Reg => 0x8e,
            Opcode::Udiv32 => 0x46,
            Opcode::Udiv32Imm => 0x46,
            Opcode::Udiv32Reg => 0x4e,
            Opcode::Urem32 => 0x66,
            Opcode::Urem32Imm => 0x66,
            Opcode::Urem32Reg => 0x6e,
            Opcode::Sdiv32 => 0xc6,
            Opcode::Sdiv32Imm => 0xc6,
            Opcode::Sdiv32Reg => 0xce,
            Opcode::Srem32 => 0xe6,
            Opcode::Srem32Imm => 0xe6,
            Opcode::Srem32Reg => 0xee,
            Opcode::Add64 => 0x07,
            Opcode::Add64Imm => 0x07,
            Opcode::Add64Reg => 0x0f,
            Opcode::Sub64 => 0x17,
            Opcode::Sub64Imm => 0x17,
            Opcode::Sub64Reg => 0x1f,
            Opcode::Mul64 => 0x27,
            Opcode::Mul64Imm => 0x27,
            Opcode::Mul64Reg => 0x2f,
            Opcode::Div64 => 0x37,
            Opcode::Div64Imm => 0x37,
            Opcode::Div64Reg => 0x3f,
            Opcode::Or64 => 0x47,
            Opcode::Or64Imm => 0x47,
            Opcode::Or64Reg => 0x4f,
            Opcode::And64 => 0x57,
            Opcode::And64Imm => 0x57,
            Opcode::And64Reg => 0x5f,
            Opcode::Lsh64 => 0x67,
            Opcode::Lsh64Imm => 0x67,
            Opcode::Lsh64Reg => 0x6f,
            Opcode::Rsh64 => 0x77,
            Opcode::Rsh64Imm => 0x77,
            Opcode::Rsh64Reg => 0x7f,
            Opcode::Mod64 => 0x97,
            Opcode::Mod64Imm => 0x97,
            Opcode::Mod64Reg => 0x9f,
            Opcode::Xor64 => 0xa7,
            Opcode::Xor64Imm => 0xa7,
            Opcode::Xor64Reg => 0xaf,
            Opcode::Mov64 => 0xb7,
            Opcode::Mov64Imm => 0xb7,
            Opcode::Mov64Reg => 0xbf,
            Opcode::Arsh64 => 0xc7,
            Opcode::Arsh64Imm => 0xc7,
            Opcode::Arsh64Reg => 0xcf,
            Opcode::Lmul64 => 0x96,
            Opcode::Lmul64Imm => 0x96,
            Opcode::Lmul64Reg => 0x9e,
            Opcode::Udiv64 => 0x56,
            Opcode::Udiv64Imm => 0x56,
            Opcode::Udiv64Reg => 0x5e,
            Opcode::Urem64 => 0x76,
            Opcode::Urem64Imm => 0x76,
            Opcode::Urem64Reg => 0x7e,
            Opcode::Sdiv64 => 0xd6,
            Opcode::Sdiv64Imm => 0xd6,
            Opcode::Sdiv64Reg => 0xde,
            Opcode::Srem64 => 0xf6,
            Opcode::Srem64Imm => 0xf6,
            Opcode::Srem64Reg => 0xfe,
            Opcode::Neg64 => 0x87,
            Opcode::Uhmul64 => 0x36,
            Opcode::Uhmul64Imm => 0x36,
            Opcode::Uhmul64Reg => 0x3e,
            Opcode::Ja => 0x05,
            Opcode::Jeq => 0x15,
            Opcode::JeqImm => 0x15,
            Opcode::JeqReg => 0x1d,
            Opcode::Jgt => 0x25,
            Opcode::JgtImm => 0x25,
            Opcode::JgtReg => 0x2d,
            Opcode::Jge => 0x35,
            Opcode::JgeImm => 0x35,
            Opcode::JgeReg => 0x3d,
            Opcode::Jlt => 0xa5,
            Opcode::JltImm => 0xa5,
            Opcode::JltReg => 0xad,
            Opcode::Jle => 0xb5,
            Opcode::JleImm => 0xb5,
            Opcode::JleReg => 0xbd,
            Opcode::Jset => 0x45,
            Opcode::JsetImm => 0x45,
            Opcode::JsetReg => 0x4d,
            Opcode::Jne => 0x55,
            Opcode::JneImm => 0x55,
            Opcode::JneReg => 0x5d,
            Opcode::Jsgt => 0x65,
            Opcode::JsgtImm => 0x65,
            Opcode::JsgtReg => 0x6d,
            Opcode::Jsge => 0x75,
            Opcode::JsgeImm => 0x75,
            Opcode::JsgeReg => 0x7d,
            Opcode::Jslt => 0xc5,
            Opcode::JsltImm => 0xc5,
            Opcode::JsltReg => 0xcd,
            Opcode::Jsle => 0xd5,
            Opcode::JsleImm => 0xd5,
            Opcode::JsleReg => 0xdd,
            Opcode::Call => 0x85,
            Opcode::Exit => 0x95,
            Opcode::Le => 0xd4,
            Opcode::Be => 0xdc,
        }
    }

    pub fn to_bytecode(&self) -> (r: u8)
        ensures
            r == self.spec_to_bytecode(),
    {
        match self {
            Opcode::Lddw => 0x18,
            Opcode::Ldxb => 0x71,
            Opcode::Ldxh => 0x69,
            Opcode::Ldxw => 0x61,
            Opcode::Ldxdw => 0x79,
            Opcode::Stb => 0x72,
            Opcode::Sth => 0x6a,
            Opcode::Stw => 0x62,
            Opcode::Stdw => 0x7a,
            Opcode::Stxb => 0x73,
            Opcode::Stxh => 0x6b,
            Opcode::Stxw => 0x63,
            Opcode::Stxdw => 0x7b,
            Opcode::Add32 => 0x04,
            Opcode::Add32Imm => 0x04,
            Opcode::Add32Reg => 0x0c,
            Opcode::Sub32 => 0x14,
            Opcode::Sub32Imm => 0x14,
            Opcode::Sub32Reg => 0x1c,
            Opcode::Mul32 => 0x24,
            Opcode::Mul32Imm => 0x24,
            Opcode::Mul32Reg => 0x2c,
            Opcode::Div32 => 0x34,
            Opcode::Div32Imm => 0x34,
            Opcode::Div32Reg => 0x3c,
            Opcode::Or32 => 0x44,
            Opcode::Or32Imm => 0x44,
            Opcode::Or32Reg => 0x4c,
            Opcode::And32 => 0x54,
            Opcode::And32Imm => 0x54,
            Opcode::And32Reg => 0x5c,
            Opcode::Lsh32 => 0x64,
            Opcode::Lsh32Imm => 0x64,
            Opcode::Lsh32Reg => 0x6c,
            Opcode::Rsh32 => 0x74,
            Opcode::Rsh32Imm => 0x74,
            Opcode::Rsh32Reg => 0x7c,
            Opcode::Mod32 => 0x94,
            Opcode::Mod32Imm => 0x94,
            Opcode::Mod32Reg => 0x9c,
            Opcode::Xor32 => 0xa4,
            Opcode::Xor32Imm => 0xa4,
            Opcode::Xor32Reg => 0xac,
            Opcode::Mov32 => 0xb4,
            Opcode::Mov32Imm => 0xb4,
            Opcode::Mov32Reg => 0xbc,
            Opcode::Arsh32 => 0xc4,
            Opcode::Arsh32Imm => 0xc4,
            Opcode::Arsh32Reg => 0xcc,
            Opcode::Neg32 => 0x84,
            Opcode::Neg32Imm => 0x84,
            Opcode::Neg32Reg => 0x8c,
            Opcode::Lmul32 => 0x86,
            Opcode::Lmul32Imm => 0x86,
            Opcode::Lmul32Reg => 0x8e,
            Opcode::Udiv32 => 0x46,
            Opcode::Udiv32Imm => 0x46,
            Opcode::Udiv32Reg => 0x4e,
            Opcode::Urem32 => 0x66,
            Opcode::Urem32Imm => 0x66,
            Opcode::Urem32Reg => 0x6e,
            Opcode::Sdiv32 => 0xc6,
            Opcode::Sdiv32Imm => 0xc6,
            Opcode::Sdiv32Reg => 0xce,
            Opcode::Srem32 => 0xe6,
            Opcode::Srem32Imm => 0xe6,
            Opcode::Srem32Reg => 0xee,
            Opcode::Add64 => 0x07,
            Opcode::Add64Imm => 0x07,
            Opcode::Add64Reg => 0x0f,
            Opcode::Sub64 => 0x17,
            Opcode::Sub64Imm => 0x17,
            Opcode::Sub64Reg => 0x1f,
            Opcode::Mul64 => 0x27,
            Opcode::Mul64Imm => 0x27,
            Opcode::Mul64Reg => 0x2f,
            Opcode::Div64 => 0x37,
            Opcode::Div64Imm => 0x37,
            Opcode::Div64Reg => 0x3f,
            Opcode::Or64 => 0x47,
            Opcode::Or64Imm => 0x47,
            Opcode::Or64Reg => 0x4f,
            Opcode::And64 => 0x57,
            Opcode::And64Imm => 0x57,
            Opcode::And64Reg => 0x5f,
            Opcode::Lsh64 => 0x67,
            Opcode::Lsh64Imm => 0x67,
            Opcode::Lsh64Reg => 0x6f,
            Opcode::Rsh64 => 0x77,
            Opcode::Rsh64Imm => 0x77,
            Opcode::Rsh64Reg => 0x7f,
            Opcode::Mod64 => 0x97,
            Opcode::Mod64Imm => 0x97,
            Opcode::Mod64Reg => 0x9f,
            Opcode::Xor64 => 0xa7,
            Opcode::Xor64Imm => 0xa7,
            Opcode::Xor64Reg => 0xaf,
            Opcode::Mov64 => 0xb7,
            Opcode::Mov64Imm => 0xb7,
            Opcode::Mov64Reg => 0xbf,
            Opcode::Arsh64 => 0xc7,
            Opcode::Arsh64Imm => 0xc7,
            Opcode::Arsh64Reg => 0xcf,
            Opcode::Lmul64 => 0x96,
            Opcode::Lmul64Imm => 0x96,
            Opcode::Lmul64Reg => 0x9e,
            Opcode::Udiv64 => 0x56,
            Opcode::Udiv64Imm => 0x56,
            Opcode::Udiv64Reg => 0x5e,
            Opcode::Urem64 => 0x76,
            Opcode::Urem64Imm => 0x76,
            Opcode::Urem64Reg => 0x7e,
            Opcode::Sdiv64 => 0xd6,
            Opcode::Sdiv64Imm => 0xd6,
            Opcode::Sdiv64Reg => 0xde,
            Opcode::Srem64 => 0xf6,
            Opcode::Srem64Imm => 0xf6,
            Opcode::Srem64Reg => 0xfe,
            Opcode::Neg64 => 0x87,
            Opcode::Uhmul64 => 0x36,
            Opcode::Uhmul64Imm => 0x36,
            Opcode::Uhmul64Reg => 0x3e,
            Opcode::Ja => 0x05,
            Opcode::Jeq => 0x15,
            Opcode::JeqImm => 0x15,
            Opcode::JeqReg => 0x1d,
            Opcode::Jgt => 0x25,
            Opcode::JgtImm => 0x25,
            Opcode::JgtReg => 0x2d,
            Opcode::Jge => 0x35,
            Opcode::JgeImm => 0x35,
            Opcode::JgeReg => 0x3d,
            Opcode::Jlt => 0xa5,
            Opcode::JltImm => 0xa5,
            Opcode::JltReg => 0xad,
            Opcode::Jle => 0xb5,
            Opcode::JleImm => 0xb5,
            Opcode::JleReg => 0xbd,
            Opcode::Jset => 0x45,
            Opcode::JsetImm => 0x45,
            Opcode::JsetReg => 0x4d,
            Opcode::Jne => 0x55,
            Opcode::JneImm => 0x55,
            Opcode::JneReg => 0x5d,
            Opcode::Jsgt => 0x65,
            Opcode::JsgtImm => 0x65,
            Opcode::JsgtReg => 0x6d,
            Opcode::Jsge => 0x75,
            Opcode::JsgeImm => 0x75,
            Opcode::JsgeReg => 0x7d,
            Opcode::Jslt => 0xc5,
            Opcode::JsltImm => 0xc5,
            Opcode::JsltReg => 0xcd,
            Opcode::Jsle => 0xd5,
            Opcode::JsleImm => 0xd5,
            Opcode::JsleReg => 0xdd,
            Opcode::Call => 0x85,
            Opcode::Exit => 0x95,
            Opcode::Le => 0xd4,
            Opcode::Be => 0xdc,
        }
    }

    /// Register-indexed loads: `ldx{b,h,w,dw}`.
    pub open spec fn spec_is_load_indexed(self) -> bool {
        self is Ldxb || self is Ldxh || self is Ldxw || self is Ldxdw
    }

    pub fn is_load_indexed(&self) -> (r: bool)
        ensures
            r == self.spec_is_load_indexed(),
    {
        match self {
            Opcode::Ldxb | Opcode::Ldxh | Opcode::Ldxw | Opcode::Ldxdw => true,
            _ => false,
        }
    }

    /// Stores, immediate or register sourced: `st*`, `stx*`.
    pub open spec fn spec_is_store(self) -> bool {
        self is Stb || self is Sth || self is Stw || self is Stdw || self is Stxb || self is Stxh || self is Stxw || self is Stxdw
    }

    pub fn is_store(&self) -> (r: bool)
        ensures
            r == self.spec_is_store(),
    {
        match self {
            Opcode::Stb | Opcode::Sth | Opcode::Stw | Opcode::Stdw | Opcode::Stxb | Opcode::Stxh | Opcode::Stxw | Opcode::Stxdw => true,
            _ => false,
        }
    }

    /// Generic arithmetic mnemonics, 32- and 64-bit, before specialization.
    pub open spec fn spec_is_alu(self) -> bool {
        self is Add32 || self is Sub32 || self is Mul32 || self is Div32 || self is Or32 || self is And32 || self is Lsh32 || self is Rsh32 || self is Mod32 || self is Xor32 || self is Mov32 || self is Arsh32 || self is Neg32 || self is Lmul32 || self is Udiv32 || self is Urem32 || self is Sdiv32 || self is Srem32 || self is Add64 || self is Sub64 || self is Mul64 || self is Div64 || self is Or64 || self is And64 || self is Lsh64 || self is Rsh64 || self is Mod64 || self is Xor64 || self is Mov64 || self is Arsh64 || self is Lmul64 || self is Udiv64 || self is Urem64 || self is Sdiv64 || self is Srem64 || self is Uhmul64
    }

    pub fn is_alu(&self) -> (r: bool)
        ensures
            r == self.spec_is_alu(),
    {
        match self {
            Opcode::Add32 | Opcode::Sub32 | Opcode::Mul32 | Opcode::Div32 | Opcode::Or32 | Opcode::And32 | Opcode::Lsh32 | Opcode::Rsh32 | Opcode::Mod32 | Opcode::Xor32 | Opcode::Mov32 | Opcode::Arsh32 | Opcode::Neg32 | Opcode::Lmul32 | Opcode::Udiv32 | Opcode::Urem32 | Opcode::Sdiv32 | Opcode::Srem32 | Opcode::Add64 | Opcode::Sub64 | Opcode::Mul64 | Opcode::Div64 | Opcode::Or64 | Opcode::And64 | Opcode::Lsh64 | Opcode::Rsh64 | Opcode::Mod64 | Opcode::Xor64 | Opcode::Mov64 | Opcode::Arsh64 | Opcode::Lmul64 | Opcode::Udiv64 | Opcode::Urem64 | Opcode::Sdiv64 | Opcode::Srem64 | Opcode::Uhmul64 => true,
            _ => false,
        }
    }

    /// Generic conditional-jump mnemonics, before specialization.
    pub open spec fn spec_is_jump_cond(self) -> bool {
        self is Jeq || self is Jgt || self is Jge || self is Jlt || self is Jle || self is Jset || self is Jne || self is Jsgt || self is Jsge || self is Jslt || self is Jsle
    }

    pub fn is_jump_cond(&self) -> (r: bool)
        ensures
            r == self.spec_is_jump_cond(),
    {
        match self {
            Opcode::Jeq | Opcode::Jgt | Opcode::Jge | Opcode::Jlt | Opcode::Jle | Opcode::Jset | Opcode::Jne | Opcode::Jsgt | Opcode::Jsge | Opcode::Jslt | Opcode::Jsle => true,
            _ => false,
        }
    }

    /// Jump forms whose final operand the second pass resolves to a relative offset.
    pub open spec fn spec_is_jump_resolved(self) -> bool {
        self is Ja || self is JeqImm || self is JgtImm || self is JgeImm || self is JltImm || self is JleImm || self is JsetImm || self is JneImm || self is JsgtImm || self is JsgeImm || self is JsltImm || self is JsleImm || self is JeqReg || self is JgtReg || self is JgeReg || self is JltReg || self is JleReg || self is JsetReg || self is JneReg || self is JsgtReg || self is JsgeReg || self is JsltReg || self is JsleReg
    }

    pub fn is_jump_resolved(&self) -> (r: bool)
        ensures
            r == self.spec_is_jump_resolved(),
    {
        match self {
            Opcode::Ja | Opcode::JeqImm | Opcode::JgtImm | Opcode::JgeImm | Opcode::JltImm | Opcode::JleImm | Opcode::JsetImm | Opcode::JneImm | Opcode::JsgtImm | Opcode::JsgeImm | Opcode::JsltImm | Opcode::JsleImm | Opcode::JeqReg | Opcode::JgtReg | Opcode::JgeReg | Opcode::JltReg | Opcode::JleReg | Opcode::JsetReg | Opcode::JneReg | Opcode::JsgtReg | Opcode::JsgeReg | Opcode::JsltReg | Opcode::JsleReg => true,
            _ => false,
        }
    }

    /// The immediate-operand form of a generic arithmetic or jump mnemonic;
    /// any other opcode is returned unchanged.
    pub open spec fn spec_imm_variant(self) -> Opcode {
        match self {
            Opcode::Add32 => Opcode::Add32Imm,
            Opcode::Sub32 => Opcode::Sub32Imm,
            Opcode::Mul32 => Opcode::Mul32Imm,
            Opcode::Div32 => Opcode::Div32Imm,
            Opcode::Or32 => Opcode::Or32Imm,
            Opcode::And32 => Opcode::And32Imm,
            Opcode::Lsh32 => Opcode::Lsh32Imm,
            Opcode::Rsh32 => Opcode::Rsh32Imm,
            Opcode::Mod32 => Opcode::Mod32Imm,
            Opcode::Xor32 => Opcode::Xor32Imm,
            Opcode::Mov32 => Opcode::Mov32Imm,
            Opcode::Arsh32 => Opcode::Arsh32Imm,
            Opcode::Neg32 => Opcode::Neg32Imm,
            Opcode::Lmul32 => Opcode::Lmul32Imm,
            Opcode::Udiv32 => Opcode::Udiv32Imm,
            Opcode::Urem32 => Opcode::Urem32Imm,
            Opcode::Sdiv32 => Opcode::Sdiv32Imm,
            Opcode::Srem32 => Opcode::Srem32Imm,
            Opcode::Add64 => Opcode::Add64Imm,
            Opcode::Sub64 => Opcode::Sub64Imm,
            Opcode::Mul64 => Opcode::Mul64Imm,
            Opcode::Div64 => Opcode::Div64Imm,
            Opcode::Or64 => Opcode::Or64Imm,
            Opcode::And64 => Opcode::And64Imm,
            Opcode::Lsh64 => Opcode::Lsh64Imm,
            Opcode::Rsh64 => Opcode::Rsh64Imm,
            Opcode::Mod64 => Opcode::Mod64Imm,
            Opcode::Xor64 => Opcode::Xor64Imm,
            Opcode::Mov64 => Opcode::Mov64Imm,
            Opcode::Arsh64 => Opcode::Arsh64Imm,
            Opcode::Lmul64 => Opcode::Lmul64Imm,
            Opcode::Udiv64 => Opcode::Udiv64Imm,
            Opcode::Urem64 => Opcode::Urem64Imm,
            Opcode::Sdiv64 => Opcode::Sdiv64Imm,
            Opcode::Srem64 => Opcode::Srem64Imm,
            Opcode::Uhmul64 => Opcode::Uhmul64Imm,
            Opcode::Jeq => Opcode::JeqImm,
            Opcode::Jgt => Opcode::JgtImm,
            Opcode::Jge => Opcode::JgeImm,
            Opcode::Jlt => Opcode::JltImm,
            Opcode::Jle => Opcode::JleImm,
            Opcode::Jset => Opcode::JsetImm,
            Opcode::Jne => Opcode::JneImm,
            Opcode::Jsgt => Opcode::JsgtImm,
            Opcode::Jsge => Opcode::JsgeImm,
            Opcode::Jslt => Opcode::JsltImm,
            Opcode::Jsle => Opcode::JsleImm,
            _ => self,
        }
    }

    pub fn imm_variant(&self) -> (r: Opcode)
        ensures
            r == self.spec_imm_variant(),
    {
        match self {
            Opcode::Add32 => Opcode::Add32Imm,
            Opcode::Sub32 => Opcode::Sub32Imm,
            Opcode::Mul32 => Opcode::Mul32Imm,
            Opcode::Div32 => Opcode::Div32Imm,
            Opcode::Or32 => Opcode::Or32Imm,
            Opcode::And32 => Opcode::And32Imm,
            Opcode::Lsh32 => Opcode::Lsh32Imm,
            Opcode::Rsh32 => Opcode::Rsh32Imm,
            Opcode::Mod32 => Opcode::Mod32Imm,
            Opcode::Xor32 => Opcode::Xor32Imm,
            Opcode::Mov32 => Opcode::Mov32Imm,
            Opcode::Arsh32 => Opcode::Arsh32Imm,
            Opcode::Neg32 => Opcode::Neg32Imm,
            Opcode::Lmul32 => Opcode::Lmul32Imm,
            Opcode::Udiv32 => Opcode::Udiv32Imm,
            Opcode::Urem32 => Opcode::Urem32Imm,
            Opcode::Sdiv32 => Opcode::Sdiv32Imm,
            Opcode::Srem32 => Opcode::Srem32Imm,
            Opcode::Add64 => Opcode::Add64Imm,
            Opcode::Sub64 => Opcode::Sub64Imm,
            Opcode::Mul64 => Opcode::Mul64Imm,
            Opcode::Div64 => Opcode::Div64Imm,
            Opcode::Or64 => Opcode::Or64Imm,
            Opcode::And64 => Opcode::And64Imm,
            Opcode::Lsh64 => Opcode::Lsh64Imm,
            Opcode::Rsh64 => Opcode::Rsh64Imm,
            Opcode::Mod64 => Opcode::Mod64Imm,
            Opcode::Xor64 => Opcode::Xor64Imm,
            Opcode::Mov64 => Opcode::Mov64Imm,
            Opcode::Arsh64 => Opcode::Arsh64Imm,
            Opcode::Lmul64 => Opcode::Lmul64Imm,
            Opcode::Udiv64 => Opcode::Udiv64Imm,
            Opcode::Urem64 => Opcode::Urem64Imm,
            Opcode::Sdiv64 => Opcode::Sdiv64Imm,
            Opcode::Srem64 => Opcode::Srem64Imm,
            Opcode::Uhmul64 => Opcode::Uhmul64Imm,
            Opcode::Jeq => Opcode::JeqImm,
            Opcode::Jgt => Opcode::JgtImm,
            Opcode::Jge => Opcode::JgeImm,
            Opcode::Jlt => Opcode::JltImm,
            Opcode::Jle => Opcode::JleImm,
            Opcode::Jset => Opcode::JsetImm,
            Opcode::Jne => Opcode::JneImm,
            Opcode::Jsgt => Opcode::JsgtImm,
            Opcode::Jsge => Opcode::JsgeImm,
            Opcode::Jslt => Opcode::JsltImm,
            Opcode::Jsle => Opcode::JsleImm,
            _ => *self,
        }
    }

    /// The register-operand form of a generic arithmetic or jump mnemonic;
    /// any other opcode is returned unchanged.
    pub open spec fn spec_reg_variant(self) -> Opcode {
        match self {
            Opcode::Add32 => Opcode::Add32Reg,
            Opcode::Sub32 => Opcode::Sub32Reg,
            Opcode::Mul32 => Opcode::Mul32Reg,
            Opcode::Div32 => Opcode::Div32Reg,
            Opcode::Or32 => Opcode::Or32Reg,
            Opcode::And32 => Opcode::And32Reg,
            Opcode::Lsh32 => Opcode::Lsh32Reg,
            Opcode::Rsh32 => Opcode::Rsh32Reg,
            Opcode::Mod32 => Opcode::Mod32Reg,
            Opcode::Xor32 => Opcode::Xor32Reg,
            Opcode::Mov32 => Opcode::Mov32Reg,
            Opcode::Arsh32 => Opcode::Arsh32Reg,
            Opcode::Neg32 => Opcode::Neg32Reg,
            Opcode::Lmul32 => Opcode::Lmul32Reg,
            Opcode::Udiv32 => Opcode::Udiv32Reg,
            Opcode::Urem32 => Opcode::Urem32Reg,
            Opcode::Sdiv32 => Opcode::Sdiv32Reg,
            Opcode::Srem32 => Opcode::Srem32Reg,
            Opcode::Add64 => Opcode::Add64Reg,
            Opcode::Sub64 => Opcode::Sub64Reg,
            Opcode::Mul64 => Opcode::Mul64Reg,
            Opcode::Div64 => Opcode::Div64Reg,
            Opcode::Or64 => Opcode::Or64Reg,
            Opcode::And64 => Opcode::And64Reg,
            Opcode::Lsh64 => Opcode::Lsh64Reg,
            Opcode::Rsh64 => Opcode::Rsh64Reg,
            Opcode::Mod64 => Opcode::Mod64Reg,
            Opcode::Xor64 => Opcode::Xor64Reg,
            Opcode::Mov64 => Opcode::Mov64Reg,
            Opcode::Arsh64 => Opcode::Arsh64Reg,
            Opcode::Lmul64 => Opcode::Lmul64Reg,
            Opcode::Udiv64 => Opcode::Udiv64Reg,
            Opcode::Urem64 => Opcode::Urem64Reg,
            Opcode::Sdiv64 => Opcode::Sdiv64Reg,
            Opcode::Srem64 => Opcode::Srem64Reg,
            Opcode::Uhmul64 => Opcode::Uhmul64Reg,
            Opcode::Jeq => Opcode::JeqReg,
            Opcode::Jgt => Opcode::JgtReg,
            Opcode::Jge => Opcode::JgeReg,
            Opcode::Jlt => Opcode::JltReg,
            Opcode::Jle => Opcode::JleReg,
            Opcode::Jset => Opcode::JsetReg,
            Opcode::Jne => Opcode::JneReg,
            Opcode::Jsgt => Opcode::JsgtReg,
            Opcode::Jsge => Opcode::JsgeReg,
            Opcode::Jslt => Opcode::JsltReg,
            Opcode::Jsle => Opcode::JsleReg,
            _ => self,
        }
    }

    pub fn reg_variant(&self) -> (r: Opcode)
        ensures
            r == self.spec_reg_variant(),
    {
        match self {
            Opcode::Add32 => Opcode::Add32Reg,
            Opcode::Sub32 => Opcode::Sub32Reg,
            Opcode::Mul32 => Opcode::Mul32Reg,
            Opcode::Div32 => Opcode::Div32Reg,
            Opcode::Or32 => Opcode::Or32Reg,
            Opcode::And32 => Opcode::And32Reg,
            Opcode::Lsh32 => Opcode::Lsh32Reg,
            Opcode::Rsh32 => Opcode::Rsh32Reg,
            Opcode::Mod32 => Opcode::Mod32Reg,
            Opcode::Xor32 => Opcode::Xor32Reg,
            Opcode::Mov32 => Opcode::Mov32Reg,
            Opcode::Arsh32 => Opcode::Arsh32Reg,
            Opcode::Neg32 => Opcode::Neg32Reg,
            Opcode::Lmul32 => Opcode::Lmul32Reg,
            Opcode::Udiv32 => Opcode::Udiv32Reg,
            Opcode::Urem32 => Opcode::Urem32Reg,
            Opcode::Sdiv32 => Opcode::Sdiv32Reg,
            Opcode::Srem32 => Opcode::Srem32Reg,
            Opcode::Add64 => Opcode::Add64Reg,
            Opcode::Sub64 => Opcode::Sub64Reg,
            Opcode::Mul64 => Opcode::Mul64Reg,
            Opcode::Div64 => Opcode::Div64Reg,
            Opcode::Or64 => Opcode::Or64Reg,
            Opcode::And64 => Opcode::And64Reg,
            Opcode::Lsh64 => Opcode::Lsh64Reg,
            Opcode::Rsh64 => Opcode::Rsh64Reg,
            Opcode::Mod64 => Opcode::Mod64Reg,
            Opcode::Xor64 => Opcode::Xor64Reg,
            Opcode::Mov64 => Opcode::Mov64Reg,
            Opcode::Arsh64 => Opcode::Arsh64Reg,
            Opcode::Lmul64 => Opcode::Lmul64Reg,
            Opcode::Udiv64 => Opcode::Udiv64Reg,
            Opcode::Urem64 => Opcode::Urem64Reg,
            Opcode::Sdiv64 => Opcode::Sdiv64Reg,
            Opcode::Srem64 => Opcode::Srem64Reg,
            Opcode::Uhmul64 => Opcode::Uhmul64Reg,
            Opcode::Jeq => Opcode::JeqReg,
            Opcode::Jgt => Opcode::JgtReg,
            Opcode::Jge => Opcode::JgeReg,
            Opcode::Jlt => Opcode::JltReg,
            Opcode::Jle => Opcode::JleReg,
            Opcode::Jset => Opcode::JsetReg,
            Opcode::Jne => Opcode::JneReg,
            Opcode::Jsgt => Opcode::JsgtReg,
            Opcode::Jsge => Opcode::JsgeReg,
            Opcode::Jslt => Opcode::JsltReg,
            Opcode::Jsle => Opcode::JsleReg,
            _ => *self,
        }
    }

    /// The bytes of the source mnemonic, shared by a generic variant and
    /// its specialized forms.
    pub open spec fn spec_mnemonic(self) -> Seq<u8> {
        match self {
            Opcode::Lddw => "lddw".spec_bytes(),
            Opcode::Ldxb => "ldxb".spec_bytes(),
            Opcode::Ldxh => "ldxh".spec_bytes(),
            Opcode::Ldxw => "ldxw".spec_bytes(),
            Opcode::Ldxdw => "ldxdw".spec_bytes(),
            Opcode::Stb => "stb".spec_bytes(),
            Opcode::Sth => "sth".spec_bytes(),
            Opcode::Stw => "stw".spec_bytes(),
            Opcode::Stdw => "stdw".spec_bytes(),
            Opcode::Stxb => "stxb".spec_bytes(),
            Opcode::Stxh => "stxh".spec_bytes(),
            Opcode::Stxw => "stxw".spec_bytes(),
            Opcode::Stxdw => "stxdw".spec_bytes(),
            Opcode::Add32 => "add32".spec_bytes(),
            Opcode::Add32Imm => "add32".spec_bytes(),
            Opcode::Add32Reg => "add32".spec_bytes(),
            Opcode::Sub32 => "sub32".spec_bytes(),
            Opcode::Sub32Imm => "sub32".spec_bytes(),
            Opcode::Sub32Reg => "sub32".spec_bytes(),
            Opcode::Mul32 => "mul32".spec_bytes(),
            Opcode::Mul32Imm => "mul32".spec_bytes(),
            Opcode::Mul32Reg => "mul32".spec_bytes(),
            Opcode::Div32 => "div32".spec_bytes(),
            Opcode::Div32Imm => "div32".spec_bytes(),
            Opcode::Div32Reg => "div32".spec_bytes(),
            Opcode::Or32 => "or32".spec_bytes(),
            Opcode::Or32Imm => "or32".spec_bytes(),
            Opcode::Or32Reg => "or32".spec_bytes(),
            Opcode::And32 => "and32".spec_bytes(),
            Opcode::And32Imm => "and32".spec_bytes(),
            Opcode::And32Reg => "and32".spec_bytes(),
            Opcode::Lsh32 => "lsh32".spec_bytes(),
            Opcode::Lsh32Imm => "lsh32".spec_bytes(),
            Opcode::Lsh32Reg => "lsh32".spec_bytes(),
            Opcode::Rsh32 => "rsh32".spec_bytes(),
            Opcode::Rsh32Imm => "rsh32".spec_bytes(),
            Opcode::Rsh32Reg => "rsh32".spec_bytes(),
            Opcode::Mod32 => "mod32".spec_bytes(),
            Opcode::Mod32Imm => "mod32".spec_bytes(),
            Opcode::Mod32Reg => "mod32".spec_bytes(),
            Opcode::Xor32 => "xor32".spec_bytes(),
            Opcode::Xor32Imm => "xor32".spec_bytes(),
            Opcode::Xor32Reg => "xor32".spec_bytes(),
            Opcode::Mov32 => "mov32".spec_bytes(),
            Opcode::Mov32Imm => "mov32".spec_bytes(),
            Opcode::Mov32Reg => "mov32".spec_bytes(),
            Opcode::Arsh32 => "arsh32".spec_bytes(),
            Opcode::Arsh32Imm => "arsh32".spec_bytes(),
            Opcode::Arsh32Reg => "arsh32".spec_bytes(),
            Opcode::Neg32 => "neg32".spec_bytes(),
            Opcode::Neg32Imm => "neg32".spec_bytes(),
            Opcode::Neg32Reg => "neg32".spec_bytes(),
            Opcode::Lmul32 => "lmul32".spec_bytes(),
            Opcode::Lmul32Imm => "lmul32".spec_bytes(),
            Opcode::Lmul32Reg => "lmul32".spec_bytes(),
            Opcode::Udiv32 => "udiv32".spec_bytes(),
            Opcode::Udiv32Imm => "udiv32".spec_bytes(),
            Opcode::Udiv32Reg => "udiv32".spec_bytes(),
            Opcode::Urem32 => "urem32".spec_bytes(),
            Opcode::Urem32Imm => "urem32".spec_bytes(),
            Opcode::Urem32Reg => "urem32".spec_bytes(),
            Opcode::Sdiv32 => "sdiv32".spec_bytes(),
            Opcode::Sdiv32Imm => "sdiv32".spec_bytes(),
            Opcode::Sdiv32Reg => "sdiv32".spec_bytes(),
            Opcode::Srem32 => "srem32".spec_bytes(),
            Opcode::Srem32Imm => "srem32".spec_bytes(),
            Opcode::Srem32Reg => "srem32".spec_bytes(),
            Opcode::Add64 => "add64".spec_bytes(),
            Opcode::Add64Imm => "add64".spec_bytes(),
            Opcode::Add64Reg => "add64".spec_bytes(),
            Opcode::Sub64 => "sub64".spec_bytes(),
            Opcode::Sub64Imm => "sub64".spec_bytes(),
            Opcode::Sub64Reg => "sub64".spec_bytes(),
            Opcode::Mul64 => "mul64".spec_bytes(),
            Opcode::Mul64Imm => "mul64".spec_bytes(),
            Opcode::Mul64Reg => "mul64".spec_bytes(),
            Opcode::Div64 => "div64".spec_bytes(),
            Opcode::Div64Imm => "div64".spec_bytes(),
            Opcode::Div64Reg => "div64".spec_bytes(),
            Opcode::Or64 => "or64".spec_bytes(),
            Opcode::Or64Imm => "or64".spec_bytes(),
            Opcode::Or64Reg => "or64".spec_bytes(),
            Opcode::And64 => "and64".spec_bytes(),
            Opcode::And64Imm => "and64".spec_bytes(),
            Opcode::And64Reg => "and64".spec_bytes(),
            Opcode::Lsh64 => "lsh64".spec_bytes(),
            Opcode::Lsh64Imm => "lsh64".spec_bytes(),
            Opcode::Lsh64Reg => "lsh64".spec_bytes(),
            Opcode::Rsh64 => "rsh64".spec_bytes(),
            Opcode::Rsh64Imm => "rsh64".spec_bytes(),
            Opcode::Rsh64Reg => "rsh64".spec_bytes(),
            Opcode::Mod64 => "mod64".spec_bytes(),
            Opcode::Mod64Imm => "mod64".spec_bytes(),
            Opcode::Mod64Reg => "mod64".spec_bytes(),
            Opcode::Xor64 => "xor64".spec_bytes(),
            Opcode::Xor64Imm => "xor64".spec_bytes(),
            Opcode::Xor64Reg => "xor64".spec_bytes(),
            Opcode::Mov64 => "mov64".spec_bytes(),
            Opcode::Mov64Imm => "mov64".spec_bytes(),
            Opcode::Mov64Reg => "mov64".spec_bytes(),
            Opcode::Arsh64 => "arsh64".spec_bytes(),
            Opcode::Arsh64Imm => "arsh64".spec_bytes(),
            Opcode::Arsh64Reg => "arsh64".spec_bytes(),
            Opcode::Lmul64 => "lmul64".spec_bytes(),
            Opcode::Lmul64Imm => "lmul64".spec_bytes(),
            Opcode::Lmul64Reg => "lmul64".spec_bytes(),
            Opcode::Udiv64 => "udiv64".spec_bytes(),
            Opcode::Udiv64Imm => "udiv64".spec_bytes(),
            Opcode::Udiv64Reg => "udiv64".spec_bytes(),
            Opcode::Urem64 => "urem64".spec_bytes(),
            Opcode::Urem64Imm => "urem64".spec_bytes(),
            Opcode::Urem64Reg => "urem64".spec_bytes(),
            Opcode::Sdiv64 => "sdiv64".spec_bytes(),
            Opcode::Sdiv64Imm => "sdiv64".spec_bytes(),
            Opcode::Sdiv64Reg => "sdiv64".spec_bytes(),
            Opcode::Srem64 => "srem64".spec_bytes(),
            Opcode::Srem64Imm => "srem64".spec_bytes(),
            Opcode::Srem64Reg => "srem64".spec_bytes(),
            Opcode::Neg64 => "neg64".spec_bytes(),
            Opcode::Uhmul64 => "uhmul64".spec_bytes(),
            Opcode::Uhmul64Imm => "uhmul64".spec_bytes(),
            Opcode::Uhmul64Reg => "uhmul64".spec_bytes(),
            Opcode::Ja => "ja".spec_bytes(),
            Opcode::Jeq => "jeq".spec_bytes(),
            Opcode::JeqImm => "jeq".spec_bytes(),
            Opcode::JeqReg => "jeq".spec_bytes(),
            Opcode::Jgt => "jgt".spec_bytes(),
            Opcode::JgtImm => "jgt".spec_bytes(),
            Opcode::JgtReg => "jgt".spec_bytes(),
            Opcode::Jge => "jge".spec_bytes(),
            Opcode::JgeImm => "jge".spec_bytes(),
            Opcode::JgeReg => "jge".spec_bytes(),
            Opcode::Jlt => "jlt".spec_bytes(),
            Opcode::JltImm => "jlt".spec_bytes(),
            Opcode::JltReg => "jlt".spec_bytes(),
            Opcode::Jle => "jle".spec_bytes(),
            Opcode::JleImm => "jle".spec_bytes(),
            Opcode::JleReg => "jle".spec_bytes(),
            Opcode::Jset => "jset".spec_bytes(),
            Opcode::JsetImm => "jset".spec_bytes(),
            Opcode::JsetReg => "jset".spec_bytes(),
            Opcode::Jne => "jne".spec_bytes(),
            Opcode::JneImm => "jne".spec_bytes(),
            Opcode::JneReg => "jne".spec_bytes(),
            Opcode::Jsgt => "jsgt".spec_bytes(),
            Opcode::JsgtImm => "jsgt".spec_bytes(),
            Opcode::JsgtReg => "jsgt".spec_bytes(),
            Opcode::Jsge => "jsge".spec_bytes(),
            Opcode::JsgeImm => "jsge".spec_bytes(),
            Opcode::JsgeReg => "jsge".spec_bytes(),
            Opcode::Jslt => "jslt".spec_bytes(),
            Opcode::JsltImm => "jslt".spec_bytes(),
            Opcode::JsltReg => "jslt".spec_bytes(),
            Opcode::Jsle => "jsle".spec_bytes(),
            Opcode::JsleImm => "jsle".spec_bytes(),
            Opcode::JsleReg => "jsle".spec_bytes(),
            Opcode::Call => "call".spec_bytes(),
            Opcode::Exit => "exit".spec_bytes(),
            Opcode::Le => "le".spec_bytes(),
            Opcode::Be => "be".spec_bytes(),
        }
    }

    pub fn mnemonic(&self) -> (r: &'static str)
        ensures
            r.spec_bytes() == self.spec_mnemonic(),
    {
        match self {
            Opcode::Lddw => "lddw",
            Opcode::Ldxb => "ldxb",
            Opcode::Ldxh => "ldxh",
            Opcode::Ldxw => "ldxw",
            Opcode::Ldxdw => "ldxdw",
            Opcode::Stb => "stb",
            Opcode::Sth => "sth",
            Opcode::Stw => "stw",
            Opcode::Stdw => "stdw",
            Opcode::Stxb => "stxb",
            Opcode::Stxh => "stxh",
            Opcode::Stxw => "stxw",
            Opcode::Stxdw => "stxdw",
            Opcode::Add32 => "add32",
            Opcode::Add32Imm => "add32",
            Opcode::Add32Reg => "add32",
            Opcode::Sub32 => "sub32",
            Opcode::Sub32Imm => "sub32",
            Opcode::Sub32Reg => "sub32",
            Opcode::Mul32 => "mul32",
            Opcode::Mul32Imm => "mul32",
            Opcode::Mul32Reg => "mul32",
            Opcode::Div32 => "div32",
            Opcode::Div32Imm => "div32",
            Opcode::Div32Reg => "div32",
            Opcode::Or32 => "or32",
            Opcode::Or32Imm => "or32",
            Opcode::Or32Reg => "or32",
            Opcode::And32 => "and32",
            Opcode::And32Imm => "and32",
            Opcode::And32Reg => "and32",
            Opcode::Lsh32 => "lsh32",
            Opcode::Lsh32Imm => "lsh32",
            Opcode::Lsh32Reg => "lsh32",
            Opcode::Rsh32 => "rsh32",
            Opcode::Rsh32Imm => "rsh32",
            Opcode::Rsh32Reg => "rsh32",
            Opcode::Mod32 => "mod32",
            Opcode::Mod32Imm => "mod32",
            Opcode::Mod32Reg => "mod32",
            Opcode::Xor32 => "xor32",
            Opcode::Xor32Imm => "xor32",
            Opcode::Xor32Reg => "xor32",
            Opcode::Mov32 => "mov32",
            Opcode::Mov32Imm => "mov32",
            Opcode::Mov32Reg => "mov32",
            Opcode::Arsh32 => "arsh32",
            Opcode::Arsh32Imm => "arsh32",
            Opcode::Arsh32Reg => "arsh32",
            Opcode::Neg32 => "neg32",
            Opcode::Neg32Imm => "neg32",
            Opcode::Neg32Reg => "neg32",
            Opcode::Lmul32 => "lmul32",
            Opcode::Lmul32Imm => "lmul32",
            Opcode::Lmul32Reg => "lmul32",
            Opcode::Udiv32 => "udiv32",
            Opcode::Udiv32Imm => "udiv32",
            Opcode::Udiv32Reg => "udiv32",
            Opcode::Urem32 => "urem32",
            Opcode::Urem32Imm => "urem32",
            Opcode::Urem32Reg => "urem32",
            Opcode::Sdiv32 => "sdiv32",
            Opcode::Sdiv32Imm => "sdiv32",
            Opcode::Sdiv32Reg => "sdiv32",
            Opcode::Srem32 => "srem32",
            Opcode::Srem32Imm => "srem32",
            Opcode::Srem32Reg => "srem32",
            Opcode::Add64 => "add64",
            Opcode::Add64Imm => "add64",
            Opcode::Add64Reg => "add64",
            Opcode::Sub64 => "sub64",
            Opcode::Sub64Imm => "sub64",
            Opcode::Sub64Reg => "sub64",
            Opcode::Mul64 => "mul64",
            Opcode::Mul64Imm => "mul64",
            Opcode::Mul64Reg => "mul64",
            Opcode::Div64 => "div64",
            Opcode::Div64Imm => "div64",
            Opcode::Div64Reg => "div64",
            Opcode::Or64 => "or64",
            Opcode::Or64Imm => "or64",
            Opcode::Or64Reg => "or64",
            Opcode::And64 => "and64",
            Opcode::And64Imm => "and64",
            Opcode::And64Reg => "and64",
            Opcode::Lsh64 => "lsh64",
            Opcode::Lsh64Imm => "lsh64",
            Opcode::Lsh64Reg => "lsh64",
            Opcode::Rsh64 => "rsh64",
            Opcode::Rsh64Imm => "rsh64",
            Opcode::Rsh64Reg => "rsh64",
            Opcode::Mod64 => "mod64",
            Opcode::Mod64Imm => "mod64",
            Opcode::Mod64Reg => "mod64",
            Opcode::Xor64 => "xor64",
            Opcode::Xor64Imm => "xor64",
            Opcode::Xor64Reg => "xor64",
            Opcode::Mov64 => "mov64",
            Opcode::Mov64Imm => "mov64",
            Opcode::Mov64Reg => "mov64",
            Opcode::Arsh64 => "arsh64",
            Opcode::Arsh64Imm => "arsh64",
            Opcode::Arsh64Reg => "arsh64",
            Opcode::Lmul64 => "lmul64",
            Opcode::Lmul64Imm => "lmul64",
            Opcode::Lmul64Reg => "lmul64",
            Opcode::Udiv64 => "udiv64",
            Opcode::Udiv64Imm => "udiv64",
            Opcode::Udiv64Reg => "udiv64",
            Opcode::Urem64 => "urem64",
            Opcode::Urem64Imm => "urem64",
            Opcode::Urem64Reg => "urem64",
            Opcode::Sdiv64 => "sdiv64",
            Opcode::Sdiv64Imm => "sdiv64",
            Opcode::Sdiv64Reg => "sdiv64",
            Opcode::Srem64 => "srem64",
            Opcode::Srem64Imm => "srem64",
            Opcode::Srem64Reg => "srem64",
            Opcode::Neg64 => "neg64",
            Opcode::Uhmul64 => "uhmul64",
            Opcode::Uhmul64Imm => "uhmul64",
            Opcode::Uhmul64Reg => "uhmul64",
            Opcode::Ja => "ja",
            Opcode::Jeq => "jeq",
            Opcode::JeqImm => "jeq",
            Opcode::JeqReg => "jeq",
            Opcode::Jgt => "jgt",
            Opcode::JgtImm => "jgt",
            Opcode::JgtReg => "jgt",
            Opcode::Jge => "jge",
            Opcode::JgeImm => "jge",
            Opcode::JgeReg => "jge",
            Opcode::Jlt => "jlt",
            Opcode::JltImm => "jlt",
            Opcode::JltReg => "jlt",
            Opcode::Jle => "jle",
            Opcode::JleImm => "jle",
            Opcode::JleReg => "jle",
            Opcode::Jset => "jset",
            Opcode::JsetImm => "jset",
            Opcode::JsetReg => "jset",
            Opcode::Jne => "jne",
            Opcode::JneImm => "jne",
            Opcode::JneReg => "jne",
            Opcode::Jsgt => "jsgt",
            Opcode::JsgtImm => "jsgt",
            Opcode::JsgtReg => "jsgt",
            Opcode::Jsge => "jsge",
            Opcode::JsgeImm => "jsge",
            Opcode::JsgeReg => "jsge",
            Opcode::Jslt => "jslt",
            Opcode::JsltImm => "jslt",
            Opcode::JsltReg => "jslt",
            Opcode::Jsle => "jsle",
            Opcode::JsleImm => "jsle",
            Opcode::JsleReg => "jsle",
            Opcode::Call => "call",
            Opcode::Exit => "exit",
            Opcode::Le => "le",
            Opcode::Be => "be",
        }
    }

    /// The mnemonic as owned bytes, for diagnostics.
    pub fn mnemonic_bytes(&self) -> (r: Vec<u8>)
        ensures
            r@ == self.spec_mnemonic(),
    {
        let m = self.mnemonic();
        vstd::slice::slice_to_vec(m.as_bytes())
    }
}

pub open spec fn spec_mnemonic_ld_st(s: Seq<u8>) -> Option<Opcode> {
    if s == "lddw".spec_bytes() {
        Some(Opcode::Lddw)
    } else if s == "ldxb".spec_bytes() {
        Some(Opcode::Ldxb)
    } else if s == "ldxh".spec_bytes() {
        Some(Opcode::Ldxh)
    } else if s == "ldxw".spec_bytes() {
        Some(Opcode::Ldxw)
    } else if s == "ldxdw".spec_bytes() {
        Some(Opcode::Ldxdw)
    } else if s == "stb".spec_bytes() {
        Some(Opcode::Stb)
    } else if s == "sth".spec_bytes() {
        Some(Opcode::Sth)
    } else if s == "stw".spec_bytes() {
        Some(Opcode::Stw)
    } else if s == "stdw".spec_bytes() {
        Some(Opcode::Stdw)
    } else if s == "stxb".spec_bytes() {
        Some(Opcode::Stxb)
    } else if s == "stxh".spec_bytes() {
        Some(Opcode::Stxh)
    } else if s == "stxw".spec_bytes() {
        Some(Opcode::Stxw)
    } else if s == "stxdw".spec_bytes() {
        Some(Opcode::Stxdw)
    } else {
        None
    }
}

fn mnemonic_ld_st(s: &[u8]) -> (r: Option<Opcode>)
    ensures
        r == spec_mnemonic_ld_st(s@),
{
    if bytes_eq(s, "lddw".as_bytes()) {
        Some(Opcode::Lddw)
    } else if bytes_eq(s, "ldxb".as_bytes()) {
        Some(Opcode::Ldxb)
    } else if bytes_eq(s, "ldxh".as_bytes()) {
        Some(Opcode::Ldxh)
    } else if bytes_eq(s, "ldxw".as_bytes()) {
        Some(Opcode::Ldxw)
    } else if bytes_eq(s, "ldxdw".as_bytes()) {
        Some(Opcode::Ldxdw)
    } else if bytes_eq(s, "stb".as_bytes()) {
        Some(Opcode::Stb)
    } else if bytes_eq(s, "sth".as_bytes()) {
        Some(Opcode::Sth)
    } else if bytes_eq(s, "stw".as_bytes()) {
        Some(Opcode::Stw)
    } else if bytes_eq(s, "stdw".as_bytes()) {
        Some(Opcode::Stdw)
    } else if bytes_eq(s, "stxb".as_bytes()) {
        Some(Opcode::Stxb)
    } else if bytes_eq(s, "stxh".as_bytes()) {
        Some(Opcode::Stxh)
    } else if bytes_eq(s, "stxw".as_bytes()) {
        Some(Opcode::Stxw)
    } else if bytes_eq(s, "stxdw".as_bytes()) {
        Some(Opcode::Stxdw)
    } else {
        None
    }
}

pub open spec fn spec_mnemonic_alu32(s: Seq<u8>) -> Option<Opcode> {
    if s == "add32".spec_bytes() {
        Some(Opcode::Add32)
    } else if s == "sub32".spec_bytes() {
        Some(Opcode::Sub32)
    } else if s == "mul32".spec_bytes() {
        Some(Opcode::Mul32)
    } else if s == "div32".spec_bytes() {
        Some(Opcode::Div32)
    } else if s == "or32".spec_bytes() {
        Some(Opcode::Or32)
    } else if s == "and32".spec_bytes() {
        Some(Opcode::And32)
    } else if s == "lsh32".spec_bytes() {
        Some(Opcode::Lsh32)
    } else if s == "rsh32".spec_bytes() {
        Some(Opcode::Rsh32)
    } else if s == "mod32".spec_bytes() {
        Some(Opcode::Mod32)
    } else if s == "xor32".spec_bytes() {
        Some(Opcode::Xor32)
    } else if s == "mov32".spec_bytes() {
        Some(Opcode::Mov32)
    } else if s == "arsh32".spec_bytes() {
        Some(Opcode::Arsh32)
    } else if s == "neg32".spec_bytes() {
        Some(Opcode::Neg32)
    } else if s == "lmul32".spec_bytes() {
        Some(Opcode::Lmul32)
    } else if s == "udiv32".spec_bytes() {
        Some(Opcode::Udiv32)
    } else if s == "urem32".spec_bytes() {
        Some(Opcode::Urem32)
    } else if s == "sdiv32".spec_bytes() {
        Some(Opcode::Sdiv32)
    } else if s == "srem32".spec_bytes() {
        Some(Opcode::Srem32)
    } else {
        None
    }
}

fn mnemonic_alu32(s: &[u8]) -> (r: Option<Opcode>)
    ensures
        r == spec_mnemonic_alu32(s@),
{
    if bytes_eq(s, "add32".as_bytes()) {
        Some(Opcode::Add32)
    } else if bytes_eq(s, "sub32".as_bytes()) {
        Some(Opcode::Sub32)
    } else if bytes_eq(s, "mul32".as_bytes()) {
        Some(Opcode::Mul32)
    } else if bytes_eq(s, "div32".as_bytes()) {
        Some(Opcode::Div32)
    } else if bytes_eq(s, "or32".as_bytes()) {
        Some(Opcode::Or32)
    } else if bytes_eq(s, "and32".as_bytes()) {
        Some(Opcode::And32)
    } else if bytes_eq(s, "lsh32".as_bytes()) {
        Some(Opcode::Lsh32)
    } else if bytes_eq(s, "rsh32".as_bytes()) {
        Some(Opcode::Rsh32)
    } else if bytes_eq(s, "mod32".as_bytes()) {
        Some(Opcode::Mod32)
    } else if bytes_eq(s, "xor32".as_bytes()) {
        Some(Opcode::Xor32)
    } else if bytes_eq(s, "mov32".as_bytes()) {
        Some(Opcode::Mov32)
    } else if bytes_eq(s, "arsh32".as_bytes()) {
        Some(Opcode::Arsh32)
    } else if bytes_eq(s, "neg32".as_bytes()) {
        Some(Opcode::Neg32)
    } else if bytes_eq(s, "lmul32".as_bytes()) {
        Some(Opcode::Lmul32)
    } else if bytes_eq(s, "udiv32".as_bytes()) {
        Some(Opcode::Udiv32)
    } else if bytes_eq(s, "urem32".as_bytes()) {
        Some(Opcode::Urem32)
    } else if bytes_eq(s, "sdiv32".as_bytes()) {
        Some(Opcode::Sdiv32)
    } else if bytes_eq(s, "srem32".as_bytes()) {
        Some(Opcode::Srem32)
    } else {
        None
    }
}

pub open spec fn spec_mnemonic_alu64(s: Seq<u8>) -> Option<Opcode> {
    if s == "add64".spec_bytes() {
        Some(Opcode::Add64)
    } else if s == "sub64".spec_bytes() {
        Some(Opcode::Sub64)
    } else if s == "mul64".spec_bytes() {
        Some(Opcode::Mul64)
    } else if s == "div64".spec_bytes() {
        Some(Opcode::Div64)
    } else if s == "or64".spec_bytes() {
        Some(Opcode::Or64)
    } else if s == "and64".spec_bytes() {
        Some(Opcode::And64)
    } else if s == "lsh64".spec_bytes() {
        Some(Opcode::Lsh64)
    } else if s == "rsh64".spec_bytes() {
        Some(Opcode::Rsh64)
    } else if s == "mod64".spec_bytes() {
        Some(Opcode::Mod64)
    } else if s == "xor64".spec_bytes() {
        Some(Opcode::Xor64)
    } else if s == "mov64".spec_bytes() {
        Some(Opcode::Mov64)
    } else if s == "arsh64".spec_bytes() {
        Some(Opcode::Arsh64)
    } else if s == "lmul64".spec_bytes() {
        Some(Opcode::Lmul64)
    } else if s == "udiv64".spec_bytes() {
        Some(Opcode::Udiv64)
    } else if s == "urem64".spec_bytes() {
        Some(Opcode::Urem64)
    } else if s == "sdiv64".spec_bytes() {
        Some(Opcode::Sdiv64)
    } else if s == "srem64".spec_bytes() {
        Some(Opcode::Srem64)
    } else if s == "neg64".spec_bytes() {
        Some(Opcode::Neg64)
    } else if s == "uhmul64".spec_bytes() {
        Some(Opcode::Uhmul64)
    } else {
        None
    }
}

fn mnemonic_alu64(s: &[u8]) -> (r: Option<Opcode>)
    ensures
        r == spec_mnemonic_alu64(s@),
{
    if bytes_eq(s, "add64".as_bytes()) {
        Some(Opcode::Add64)
    } else if bytes_eq(s, "sub64".as_bytes()) {
        Some(Opcode::Sub64)
    } else if bytes_eq(s, "mul64".as_bytes()) {
        Some(Opcode::Mul64)
    } else if bytes_eq(s, "div64".as_bytes()) {
        Some(Opcode::Div64)
    } else if bytes_eq(s, "or64".as_bytes()) {
        Some(Opcode::Or64)
    } else if bytes_eq(s, "and64".as_bytes()) {
        Some(Opcode::And64)
    } else if bytes_eq(s, "lsh64".as_bytes()) {
        Some(Opcode::Lsh64)
    } else if bytes_eq(s, "rsh64".as_bytes()) {
        Some(Opcode::Rsh64)
    } else if bytes_eq(s, "mod64".as_bytes()) {
        Some(Opcode::Mod64)
    } else if bytes_eq(s, "xor64".as_bytes()) {
        Some(Opcode::Xor64)
    } else if bytes_eq(s, "mov64".as_bytes()) {
        Some(Opcode::Mov64)
    } else if bytes_eq(s, "arsh64".as_bytes()) {
        Some(Opcode::Arsh64)
    } else if bytes_eq(s, "lmul64".as_bytes()) {
        Some(Opcode::Lmul64)
    } else if bytes_eq(s, "udiv64".as_bytes()) {
        Some(Opcode::Udiv64)
    } else if bytes_eq(s, "urem64".as_bytes()) {
        Some(Opcode::Urem64)
    } else if bytes_eq(s, "sdiv64".as_bytes()) {
        Some(Opcode::Sdiv64)
    } else if bytes_eq(s, "srem64".as_bytes()) {
        Some(Opcode::Srem64)
    } else if bytes_eq(s, "neg64".as_bytes()) {
        Some(Opcode::Neg64)
    } else if bytes_eq(s, "uhmul64".as_bytes()) {
        Some(Opcode::Uhmul64)
    } else {
        None
    }
}

pub open spec fn spec_mnemonic_jump(s: Seq<u8>) -> Option<Opcode> {
    if s == "ja".spec_bytes() {
        Some(Opcode::Ja)
    } else if s == "jeq".spec_bytes() {
        Some(Opcode::Jeq)
    } else if s == "jgt".spec_bytes() {
        Some(Opcode::Jgt)
    } else if s == "jge".spec_bytes() {
        Some(Opcode::Jge)
    } else if s == "jlt".spec_bytes() {
        Some(Opcode::Jlt)
    } else if s == "jle".spec_bytes() {
        Some(Opcode::Jle)
    } else if s == "jset".spec_bytes() {
        Some(Opcode::Jset)
    } else if s == "jne".spec_bytes() {
        Some(Opcode::Jne)
    } else if s == "jsgt".spec_bytes() {
        Some(Opcode::Jsgt)
    } else if s == "jsge".spec_bytes() {
        Some(Opcode::Jsge)
    } else if s == "jslt".spec_bytes() {
        Some(Opcode::Jslt)
    } else if s == "jsle".spec_bytes() {
        Some(Opcode::Jsle)
    } else {
        None
    }
}

fn mnemonic_jump(s: &[u8]) -> (r: Option<Opcode>)
    ensures
        r == spec_mnemonic_jump(s@),
{
    if bytes_eq(s, "ja".as_bytes()) {
        Some(Opcode::Ja)
    } else if bytes_eq(s, "jeq".as_bytes()) {
        Some(Opcode::Jeq)
    } else if bytes_eq(s, "jgt".as_bytes()) {
        Some(Opcode::Jgt)
    } else if bytes_eq(s, "jge".as_bytes()) {
        Some(Opcode::Jge)
    } else if bytes_eq(s, "jlt".as_bytes()) {
        Some(Opcode::Jlt)
    } else if bytes_eq(s, "jle".as_bytes()) {
        Some(Opcode::Jle)
    } else if bytes_eq(s, "jset".as_bytes()) {
        Some(Opcode::Jset)
    } else if bytes_eq(s, "jne".as_bytes()) {
        Some(Opcode::Jne)
    } else if bytes_eq(s, "jsgt".as_bytes()) {
        Some(Opcode::Jsgt)
    } else if bytes_eq(s, "jsge".as_bytes()) {
        Some(Opcode::Jsge)
    } else if bytes_eq(s, "jslt".as_bytes()) {
        Some(Opcode::Jslt)
    } else if bytes_eq(s, "jsle".as_bytes()) {
        Some(Opcode::Jsle)
    } else {
        None
    }
}

pub open spec fn spec_mnemonic_misc(s: Seq<u8>) -> Option<Opcode> {
    if s == "call".spec_bytes() {
        Some(Opcode::Call)
    } else if s == "exit".spec_bytes() {
        Some(Opcode::Exit)
    } else if s == "le".spec_bytes() {
        Some(Opcode::Le)
    } else if s == "be".spec_bytes() {
        Some(Opcode::Be)
    } else {
        None
    }
}

fn mnemonic_misc(s: &[u8]) -> (r: Option<Opcode>)
    ensures
        r == spec_mnemonic_misc(s@),
{
    if bytes_eq(s, "call".as_bytes()) {
        Some(Opcode::Call)
    } else if bytes_eq(s, "exit".as_bytes()) {
        Some(Opcode::Exit)
    } else if bytes_eq(s, "le".as_bytes()) {
        Some(Opcode::Le)
    } else if bytes_eq(s, "be".as_bytes()) {
        Some(Opcode::Be)
    } else {
        None
    }
}

/// The opcode a source mnemonic names, if any.
#[verifier::opaque]
pub open spec fn spec_from_mnemonic(s: Seq<u8>) -> Option<Opcode> {
    if spec_mnemonic_ld_st(s) is Some {
        spec_mnemonic_ld_st(s)
    } else if spec_mnemonic_alu32(s) is Some {
        spec_mnemonic_alu32(s)
    } else if spec_mnemonic_alu64(s) is Some {
        spec_mnemonic_alu64(s)
    } else if spec_mnemonic_jump(s) is Some {
        spec_mnemonic_jump(s)
    } else {
        spec_mnemonic_misc(s)
    }
}

pub fn from_mnemonic(s: &[u8]) -> (r: Option<Opcode>)
    ensures
        r == spec_from_mnemonic(s@),
{
    proof {
        reveal(spec_from_mnemonic);
    }
    if let Some(op) = mnemonic_ld_st(s) {
        Some(op)
    } else if let Some(op) = mnemonic_alu32(s) {
        Some(op)
    } else if let Some(op) = mnemonic_alu64(s) {
        Some(op)
    } else if let Some(op) = mnemonic_jump(s) {
        Some(op)
    } else {
        mnemonic_misc(s)
    }
}

} // verus!
