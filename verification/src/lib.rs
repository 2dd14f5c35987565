//! An assembler for the Solana BPF (SBF) instruction set.
//!
//! The pipeline turns assembly source text into a position-independent
//! ELF64 shared object: lexing, parsing with constant folding and opcode
//! specialization, two-pass symbol resolution, and byte-exact ELF layout.

use vstd::prelude::*;

pub mod span;
pub mod lexer;
pub mod errors;
pub mod messages;
pub mod bytesutil;
pub mod opcode;
pub mod debuginfo;
pub mod dynsym;
pub mod header;
pub mod section;
pub mod parser;
pub mod program;
pub mod astnode;

pub mod instruction_verifier;

verus! {

use crate::errors::CompileError;
use crate::lexer::{tokenize, spec_tokenize, token_views};
use crate::parser::Parser;
use crate::program::Program;

/// What a successful assembly promises of its bytes: they are the
/// emission of a program laid out, per the layout contract, from a
/// clean parse of the source's token stream.
pub open spec fn spec_assembled(source: Seq<u8>, bytes: Seq<u8>) -> bool {
    exists|
        tokens: Seq<crate::lexer::Token>,
        result: crate::parser::ParseResult,
        p: crate::program::Program,
    |
        #![trigger crate::lexer::token_views(tokens), crate::program::spec_program_of(result, p)]
        {
            &&& crate::lexer::token_views(tokens) == spec_tokenize(source).0
            &&& crate::parser::spec_parse_diags(tokens).len() == 0
            &&& crate::parser::spec_parse_ok(tokens, source, result)
            &&& crate::program::spec_program_of(result, p)
            &&& bytes == crate::program::spec_emit_bytes(p)
        }
}

/// Assemble source text into the bytes of an ELF64 shared object, or
/// the diagnostics that stopped it: exactly the lexer's when lexing
/// fails, else exactly the parser's. Reading the source and writing the
/// object file belong to the caller.
#[verifier::rlimit(100)]
pub fn assemble(source: &[u8]) -> (r: Result<Vec<u8>, Vec<CompileError>>)
    requires
        source@.len() < 0x0400_0000,
    ensures
        match r {
            Ok(bytes) => {
                &&& spec_tokenize(source@).1.len() == 0
                &&& bytes@.len() >= 64
                &&& spec_assembled(source@, bytes@)
            },
            Err(errors) => {
                &&& errors@.len() > 0
                &&& (spec_tokenize(source@).1.len() > 0 ==> crate::errors::error_views(errors@)
                    == spec_tokenize(source@).1)
                &&& (spec_tokenize(source@).1.len() == 0 ==> exists|
                    tokens: Seq<crate::lexer::Token>,
                |
                    #![trigger crate::lexer::token_views(tokens)]
                    {
                        &&& crate::lexer::token_views(tokens) == spec_tokenize(source@).0
                        &&& crate::errors::error_views(errors@) == crate::parser::spec_parse_diags(
                            tokens,
                        )
                        &&& crate::parser::spec_parse_diags(tokens).len() > 0
                    })
            },
        },
{
    let tokens = match tokenize(source) {
        Ok(t) => t,
        Err(errors) => {
            proof {
                assert(crate::errors::error_views(errors@).len() == errors@.len());
            }
            return Err(errors);
        }
    };
    let ghost toks = tokens@;
    proof {
        crate::lexer::lemma_lex_all_bounds(source@, 0, 0);
        crate::parser::lemma_lit_sum_views(tokens@);
        crate::parser::lemma_name_bound_views(tokens@, source@.len() as int);
        assert(token_views(tokens@).len() == tokens@.len());
    }
    let mut parser = Parser::new(tokens, source);
    let parse_result = match parser.parse() {
        Ok(p) => p,
        Err(errors) => {
            proof {
                assert(crate::errors::error_views(errors@).len() == errors@.len());
                assert(crate::errors::error_views(errors@) == crate::parser::spec_parse_diags(
                    toks,
                ));
            }
            return Err(errors);
        }
    };
    let ghost gres = parse_result;
    let program = Program::from_parse_result(parse_result);
    let bytes = program.emit_bytecode();
    proof {
        assert(crate::header::spec_elf_header_bytes(program.elf_header).len() == 64);
        assert(crate::parser::spec_parse_ok(toks, source@, gres));
        assert(crate::program::spec_program_of(gres, program));
        assert(bytes@ == crate::program::spec_emit_bytes(program));
        assert(spec_assembled(source@, bytes@));
    }
    Ok(bytes)
}

} // verus!
