//! The concrete end-to-end scenarios: jumps, constant folding, boundary
//! behaviors, and the diagnostics for broken sources.

use sbpf_assembler::assemble;
use sbpf_assembler::errors::CompileError;
use sbpf_assembler::lexer::{tokenize, Token, ImmediateValue};

fn read_u16(bytes: &[u8], at: usize) -> u16 {
    u16::from_le_bytes([bytes[at], bytes[at + 1]])
}

fn read_u32(bytes: &[u8], at: usize) -> u32 {
    let mut b = [0u8; 4];
    b.copy_from_slice(&bytes[at..at + 4]);
    u32::from_le_bytes(b)
}

#[test]
fn jump_forward_resolves_to_one() {
    let src = b".globl e\ne:\n  jeq r1, 0, end\n  mov64 r0, 0\nend:\n  exit\n";
    let bytes = assemble(src).expect("assembles");
    // No relocations: a static ELF with one program header and the
    // entry right after it.
    assert_eq!(read_u16(&bytes, 56), 1);
    let text = 120;
    // jeq specializes to its immediate form 0x15; the relative offset
    // (16 - 0) / 8 - 1 = 1 sits in bytes 2-3.
    assert_eq!(bytes[text], 0x15);
    assert_eq!(read_u16(&bytes, text + 2), 1);
    // mov64 immediate form, then exit.
    assert_eq!(bytes[text + 8], 0xb7);
    assert_eq!(bytes[text + 16], 0x95);
}

#[test]
fn equ_constants_fold_into_immediates() {
    let src = b".equ STRIDE, 8\n.globl e\ne:\n  add64 r1, STRIDE+2\n  exit\n";
    let bytes = assemble(src).expect("assembles");
    assert_eq!(read_u16(&bytes, 56), 1);
    let text = 120;
    // add64 immediate form with the folded immediate 10.
    assert_eq!(bytes[text], 0x07);
    assert_eq!(bytes[text + 1], 1);
    assert_eq!(read_u32(&bytes, text + 4), 10);
}

#[test]
fn ja_to_next_instruction_is_zero() {
    let src = b".globl e\ne:\n  ja next\nnext:\n  exit\n";
    let bytes = assemble(src).expect("assembles");
    let text = 120;
    assert_eq!(bytes[text], 0x05);
    assert_eq!(read_u16(&bytes, text + 2), 0);
}

#[test]
fn empty_rodata_is_omitted_and_elf_is_static() {
    let src = b".globl e\ne:\n  mov64 r0, 0\n  exit\n";
    let bytes = assemble(src).expect("assembles");
    // One program header, and sections are null, .text, .shstrtab.
    assert_eq!(read_u16(&bytes, 56), 1);
    assert_eq!(read_u16(&bytes, 60), 3);
    assert_eq!(read_u16(&bytes, 62), 2);
}

#[test]
fn hello_layout_matches_the_spec() {
    let src = b".globl entrypoint\nentrypoint:\n  lddw r1, message\n  lddw r2, 14\n  call sol_log_\n  exit\n.rodata\n  message: .ascii \"Hello, Solana!\"\n";
    let bytes = assemble(src).expect("assembles");
    // Dynamic: e_phnum = 3, e_entry = 232, eight sections.
    assert_eq!(read_u16(&bytes, 56), 3);
    assert_eq!(read_u16(&bytes, 60), 8);
    assert_eq!(read_u16(&bytes, 62), 7);
    // lddw r1, message resolves to the rodata offset past the headers:
    // code is 48 bytes, so message sits at 232 + 48 = 280.
    let text = 232;
    assert_eq!(bytes[text], 0x18);
    assert_eq!(read_u32(&bytes, text + 4), 280);
    // The rodata payload holds the message with no terminator.
    assert_eq!(&bytes[text + 48..text + 62], b"Hello, Solana!");
    // .dynstr begins with a null byte and lists the entry point before
    // the call target.
    let needle = b"\0entrypoint\0sol_log_\0";
    assert!(bytes.windows(needle.len()).any(|w| w == needle));
    // Whole file: after .shstrtab the section headers are 8-aligned.
    assert_eq!(bytes.len() % 8, 0);
}

#[test]
fn unterminated_string_is_a_single_diagnostic() {
    let errors = assemble(b"\"abc\n").expect_err("must fail");
    assert_eq!(errors.len(), 1);
    match &errors[0] {
        CompileError::UnterminatedStringLiteral { span, .. } => {
            assert_eq!(span.start, 0);
            assert_eq!(span.end, 1);
        }
        other => panic!("wrong diagnostic: {:?}", other),
    }
}

#[test]
fn undefined_lddw_target_is_reported() {
    let errors = assemble(b"lddw r1, nosuch\nexit\n").expect_err("must fail");
    assert_eq!(errors.len(), 1);
    match &errors[0] {
        CompileError::UndefinedLabel { label, span, .. } => {
            assert_eq!(label.as_slice(), b"nosuch");
            assert_eq!(span.start, 9);
            assert_eq!(span.end, 15);
        }
        other => panic!("wrong diagnostic: {:?}", other),
    }
}

#[test]
fn lexer_classifies_the_token_kinds() {
    let tokens = tokenize(b"add64 r1, 0x10\n").expect("lexes");
    assert_eq!(tokens.len(), 5);
    assert!(matches!(tokens[0], Token::Opcode(_, _)));
    match &tokens[1] {
        Token::Register(r, _) => assert_eq!(*r, 1),
        other => panic!("wrong token: {:?}", other),
    }
    assert!(matches!(tokens[2], Token::Comma(_)));
    match &tokens[3] {
        Token::ImmediateValue(ImmediateValue::Addr(v), _) => assert_eq!(*v, 0x10),
        other => panic!("wrong token: {:?}", other),
    }
    assert!(matches!(tokens[4], Token::Newline(_)));
}

#[test]
fn lexing_is_pure() {
    let a = tokenize(b".equ A, 5\nadd64 r0, A\n").expect("lexes");
    let b = tokenize(b".equ A, 5\nadd64 r0, A\n").expect("lexes");
    assert_eq!(format!("{:?}", a), format!("{:?}", b));
}

#[test]
fn immediate_addition_prefers_the_address_kind() {
    let a = ImmediateValue::Int(2);
    let b = ImmediateValue::Addr(3);
    assert!(matches!(a.add(b), ImmediateValue::Addr(5)));
    assert!(matches!(a.add(a), ImmediateValue::Int(4)));
    assert!(matches!(b.sub(a), ImmediateValue::Addr(1)));
}

#[test]
fn invalid_register_and_number_are_diagnosed() {
    let errors = tokenize(b"mov64 r999, 5\n").expect_err("bad register");
    assert!(matches!(errors[0], CompileError::InvalidRegister { .. }));
    let errors = tokenize(b"mov64 r1, 99999999999999999999\n").expect_err("bad number");
    assert!(matches!(errors[0], CompileError::InvalidNumber { .. }));
}

#[test]
fn invalid_directive_and_instruction_are_diagnosed() {
    let errors = assemble(b".bogus\nexit\n").expect_err("bad directive");
    assert!(matches!(errors[0], CompileError::InvalidDirective { .. }));
    let errors = assemble(b"add64 r1\nexit\n").expect_err("bad instruction");
    assert!(matches!(errors[0], CompileError::InvalidInstruction { .. }));
}
