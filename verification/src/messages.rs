//! Expected-pattern labels attached to `InvalidInstruction` and other
//! syntactic diagnostics, kept in one place.

use vstd::prelude::*;

verus! {

pub const EXPECTS_LABEL_DIR_STR: &'static str = "expects <label>, <directive>, <string literal>";

pub const EXPECTS_IDEN: &'static str = "expects <identifier>";

pub const EXPECTS_IDEN_COM_IMM: &'static str = "expects <identifier>, <immediate value>";

pub const EXPECTS_MORE_OPERAND: &'static str = "expects more operand";

pub const EXPECTS_REG_COM_IMM: &'static str = "expects <register>, <immediate value>";

pub const EXPECTS_REG_COM_REG: &'static str = "expects <register>, <register>";

pub const EXPECTS_REG_COM_IMM_OR_IDEN: &'static str = "expects <register>, <immediate value>/<identifier>";

pub const EXPECTS_REG_COM_IMM_COM_IMM_OR_IDEN: &'static str = "expects <register>, <immediate value>, <immediate value>/<identifier>";

pub const EXPECTS_REG_COM_LB_REG_BIOP_IMM_RB: &'static str = "expects <register>, [<register> <binary operator> <immediate value>]";

pub const EXPECTS_LB_REG_BIOP_IMM_RB_COM_REG: &'static str = "expects [<register> <binary operator> <immediate value>], <register>";

} // verus!
