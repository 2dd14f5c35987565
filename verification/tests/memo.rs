//! End-to-end assembly of the memo programs the project scaffolding
//! generates: the default hello program and the account-frame reader.

use sbpf_assembler::assemble;

const MEMO_SOURCE: &str = r#".globl entrypoint
entrypoint:
    lddw r1, message
    lddw r2, 14
    call sol_log_
    exit
.extern sol_log_
.rodata
    message: .ascii "Hello, Solana!"
"#;

const MEMO2_SOURCE: &str = r#".equ NUM_ACCOUNTS, 0x00
.equ DATA_LEN, 0x08
.equ DATA, 0x10

.globl entrypoint
entrypoint:
  ldxdw r0, [r1+NUM_ACCOUNTS]
  ldxdw r2, [r1+DATA_LEN]
  add64 r1, DATA
  call sol_log_
  exit"#;

fn read_u16(bytes: &[u8], at: usize) -> u16 {
    u16::from_le_bytes([bytes[at], bytes[at + 1]])
}

fn read_u64(bytes: &[u8], at: usize) -> u64 {
    let mut b = [0u8; 8];
    b.copy_from_slice(&bytes[at..at + 8]);
    u64::from_le_bytes(b)
}

#[test]
fn test_memo_project_e2e() {
    let bytes = assemble(MEMO_SOURCE.as_bytes()).expect("memo program should assemble");
    // ELF identification: magic, 64-bit, little-endian.
    assert_eq!(&bytes[0..4], &[0x7f, 0x45, 0x4c, 0x46]);
    assert_eq!(bytes[4], 2);
    assert_eq!(bytes[5], 1);
    // ET_DYN for machine 247 (BPF).
    assert_eq!(read_u16(&bytes, 16), 3);
    assert_eq!(read_u16(&bytes, 18), 247);
    // The program calls a syscall, so it is dynamic: three program
    // headers and the entry right after them.
    assert_eq!(read_u16(&bytes, 56), 3);
    assert_eq!(read_u64(&bytes, 24), 232);
    println!("All tests passed! Memo project E2E test completed successfully.");
}

#[test]
fn test_memo_project_e2e_second() {
    let bytes = assemble(MEMO2_SOURCE.as_bytes()).expect("memo2 program should assemble");
    assert_eq!(&bytes[0..4], &[0x7f, 0x45, 0x4c, 0x46]);
    assert_eq!(read_u16(&bytes, 16), 3);
    assert_eq!(read_u16(&bytes, 18), 247);
    assert_eq!(read_u16(&bytes, 56), 3);
    // ldxdw r0, [r1+0x00]: opcode 0x79, dst 0, src 1, offset 0.
    let text = 232;
    assert_eq!(bytes[text], 0x79);
    assert_eq!(bytes[text + 1], 0x10);
    assert_eq!(read_u16(&bytes, text + 2), 0x00);
    // ldxdw r2, [r1+0x08].
    assert_eq!(bytes[text + 8], 0x79);
    assert_eq!(bytes[text + 9], 0x12);
    assert_eq!(read_u16(&bytes, text + 10), 0x08);
    // add64 r1, 0x10: immediate form 0x07.
    assert_eq!(bytes[text + 16], 0x07);
    assert_eq!(bytes[text + 17], 1);
    assert_eq!(read_u16(&bytes, text + 20).wrapping_add(0), 0x10);
    println!("Second test passed! Memo2 project E2E test completed successfully.");
}

#[test]
fn assembling_twice_is_byte_identical() {
    let first = assemble(MEMO_SOURCE.as_bytes()).expect("assembles");
    let second = assemble(MEMO_SOURCE.as_bytes()).expect("assembles");
    assert_eq!(first, second);
}
