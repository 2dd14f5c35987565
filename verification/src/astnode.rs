//! The AST: directives, labels, instructions and read-only data, and the
//! byte encoding of the nodes that reach the output.

use vstd::prelude::*;
use crate::span::Span;
use crate::lexer::{Token, TokenView, ImmediateValue, token_views};
use crate::opcode::Opcode;
use crate::dynsym::RelocationType;
use crate::debuginfo::{DebugInfo, RegisterHint, RegisterType, spec_line_number, span_to_line_number};
use crate::bytesutil::{le_byte64, le_byte64_x};

verus! {

/// A recognized but otherwise inert directive, such as `.section`.
#[derive(Debug, Clone)]
pub struct Directive {
    pub name: Vec<u8>,
    pub args: Vec<Token>,
    pub span: Span,
}

/// `.global` / `.globl`: names the program entry label.
#[derive(Debug, Clone)]
pub struct GlobalDecl {
    pub entry_label: Vec<u8>,
    pub span: Span,
}

impl GlobalDecl {
    pub fn get_entry_label(&self) -> (r: Vec<u8>)
        ensures
            r@ == self.entry_label@,
    {
        vstd::slice::slice_to_vec(self.entry_label.as_slice())
    }
}

/// `.equ name, value`: binds a name to an immediate.
#[derive(Debug, Clone)]
pub struct EquDecl {
    pub name: Vec<u8>,
    pub value: Token,
    pub span: Span,
}

impl EquDecl {
    pub fn get_name(&self) -> (r: Vec<u8>)
        ensures
            r@ == self.name@,
    {
        vstd::slice::slice_to_vec(self.name.as_slice())
    }

    /// The bound immediate. The parser only builds `EquDecl` nodes whose
    /// value token is an immediate.
    pub fn get_val(&self) -> (r: ImmediateValue)
        requires
            self.value@ is ImmediateValue,
        ensures
            self.value@ == TokenView::ImmediateValue(r, self.value@->ImmediateValue_1),
    {
        match &self.value {
            Token::ImmediateValue(v, _) => *v,
            _ => {
                proof {
                    assert(false);
                }
                ImmediateValue::Int(0)
            }
        }
    }
}

/// `.extern name+`: external symbols, recorded but unused.
#[derive(Debug, Clone)]
pub struct ExternDecl {
    pub args: Vec<Token>,
    pub span: Span,
}

/// `.rodata`: switches the parser into the read-only-data phase.
#[derive(Debug, Clone)]
pub struct RodataDecl {
    pub span: Span,
}

/// A code label.
#[derive(Debug, Clone)]
pub struct Label {
    pub name: Vec<u8>,
    pub span: Span,
}

/// One instruction with its (already specialized) opcode and operands.
#[derive(Debug, Clone)]
pub struct Instruction {
    pub opcode: Opcode,
    pub operands: Vec<Token>,
    pub span: Span,
}

/// The byte size an instruction occupies: 16 for `lddw`, 8 otherwise.
pub open spec fn spec_instruction_size(op: Opcode) -> u64 {
    if op is Lddw {
        16
    } else {
        8
    }
}

/// Whether an instruction needs a relocation record: every `call`, and
/// every `lddw` whose value operand is still an identifier.
pub open spec fn spec_needs_relocation(op: Opcode, ops: Seq<TokenView>) -> bool {
    if op is Call {
        true
    } else if op is Lddw {
        ops.len() >= 2 && ops[1] is Identifier
    } else {
        false
    }
}

impl Instruction {
    pub fn get_size(&self) -> (r: u64)
        ensures
            r == spec_instruction_size(self.opcode),
    {
        match self.opcode {
            Opcode::Lddw => 16,
            _ => 8,
        }
    }

    pub fn needs_relocation(&self) -> (r: bool)
        ensures
            r == spec_needs_relocation(self.opcode, token_views(self.operands@)),
    {
        match self.opcode {
            Opcode::Call => true,
            Opcode::Lddw => {
                if self.operands.len() >= 2 {
                    proof {
                        assert(token_views(self.operands@)[1] == self.operands@[1]@);
                    }
                    match &self.operands[1] {
                        Token::Identifier(_, _) => true,
                        _ => false,
                    }
                } else {
                    false
                }
            }
            _ => false,
        }
    }

    /// The relocation type and target name of an instruction that needs
    /// relocation: the relative type for `lddw`, the syscall type (with
    /// the called name) otherwise.
    pub fn get_relocation_info(&self) -> (r: (RelocationType, Vec<u8>))
        requires
            spec_needs_relocation(self.opcode, token_views(self.operands@)),
            !(self.opcode is Lddw) ==> self.operands@.len() >= 1 && self.operands@[0]@ is Identifier,
        ensures
            self.opcode is Lddw ==> r.0 is RSbf64Relative && r.1@ == token_views(
                self.operands@,
            )[1]->Identifier_0,
            !(self.opcode is Lddw) ==> r.0 is RSbfSyscall && r.1@ == token_views(
                self.operands@,
            )[0]->Identifier_0,
    {
        proof {
            if self.operands@.len() >= 2 {
                assert(token_views(self.operands@)[1] == self.operands@[1]@);
            }
            if self.operands@.len() >= 1 {
                assert(token_views(self.operands@)[0] == self.operands@[0]@);
            }
        }
        match self.opcode {
            Opcode::Lddw => {
                match &self.operands[1] {
                    Token::Identifier(name, _) => (
                        RelocationType::RSbf64Relative,
                        vstd::slice::slice_to_vec(name.as_slice()),
                    ),
                    _ => {
                        proof {
                            assert(false);
                        }
                        (RelocationType::RSbf64Relative, Vec::new())
                    }
                }
            }
            _ => {
                match &self.operands[0] {
                    Token::Identifier(name, _) => (
                        RelocationType::RSbfSyscall,
                        vstd::slice::slice_to_vec(name.as_slice()),
                    ),
                    _ => {
                        proof {
                            assert(false);
                        }
                        (RelocationType::RSbfSyscall, Vec::new())
                    }
                }
            }
        }
    }
}

/// A read-only data entry: `name: .ascii "…"`.
#[derive(Debug, Clone)]
pub struct ROData {
    pub name: Vec<u8>,
    pub args: Vec<Token>,
    pub span: Span,
}

/// The payload of a read-only data node: the bytes of its string-literal
/// arguments, concatenated in order, with no terminator.
pub open spec fn spec_rodata_bytes(args: Seq<Token>) -> Seq<u8>
    decreases args.len(),
{
    if args.len() == 0 {
        Seq::empty()
    } else {
        spec_rodata_bytes(args.drop_last()) + match args.last()@ {
            TokenView::StringLiteral(s, _) => s,
            _ => Seq::empty(),
        }
    }
}

impl ROData {
    /// The byte size of the entry's payload.
    pub fn get_size(&self) -> (r: u64)
        requires
            spec_rodata_bytes(self.args@).len() <= u64::MAX,
        ensures
            r == spec_rodata_bytes(self.args@).len(),
    {
        let mut size: u64 = 0;
        let mut i: usize = 0;
        proof {
            assert(self.args@.take(0) =~= Seq::<Token>::empty());
        }
        while i < self.args.len()
            invariant
                0 <= i <= self.args@.len(),
                size == spec_rodata_bytes(self.args@.take(i as int)).len(),
                spec_rodata_bytes(self.args@).len() <= u64::MAX,
            decreases self.args@.len() - i,
        {
            proof {
                assert(self.args@.take(i + 1).drop_last() =~= self.args@.take(i as int));
                assert(self.args@.take(i + 1).last() == self.args@[i as int]);
                lemma_rodata_bytes_prefix(self.args@, i + 1);
            }
            match &self.args[i] {
                Token::StringLiteral(s, _) => {
                    size = size + s.len() as u64;
                }
                _ => {}
            }
            i += 1;
        }
        proof {
            assert(self.args@.take(self.args@.len() as int) =~= self.args@);
        }
        size
    }
}

proof fn lemma_rodata_bytes_prefix(args: Seq<Token>, k: int)
    requires
        0 <= k <= args.len(),
    ensures
        spec_rodata_bytes(args.take(k)).len() <= spec_rodata_bytes(args).len(),
    decreases args.len() - k,
{
    if k < args.len() {
        assert(args.take(k + 1).drop_last() =~= args.take(k));
        lemma_rodata_bytes_prefix(args, k + 1);
    } else {
        assert(args.take(k) =~= args);
    }
}

/// A parsed node. Only `Instruction` and `ROData` nodes carry bytes into
/// the output; the offset on each is its byte offset within its section's
/// address space as assigned by the first parser pass.
#[derive(Debug, Clone)]
pub enum ASTNode {
    Directive { directive: Directive },
    GlobalDecl { global_decl: GlobalDecl },
    EquDecl { equ_decl: EquDecl },
    ExternDecl { extern_decl: ExternDecl },
    RodataDecl { rodata_decl: RodataDecl },
    Label { label: Label },
    Instruction { instruction: Instruction, offset: u64 },
    ROData { rodata: ROData, offset: u64 },
}

// ---------------------------------------------------------------------------
// Instruction encoding
// ---------------------------------------------------------------------------

/// Byte `k` (little-endian) of an immediate's two's-complement bits.
pub open spec fn imm_byte(v: i64, k: u64) -> u8 {
    le_byte64(v as u64, k)
}

/// The nibble-packed register byte: `hi` in the high nibble, `lo` in the
/// low nibble.
pub open spec fn spec_reg_pair(hi: u8, lo: u8) -> u8 {
    (hi << 4) | lo
}

/// `n` zero bytes (none if `n` is negative).
pub open spec fn zero_bytes(n: int) -> Seq<u8> {
    Seq::new(
        if n >= 0 {
            n as nat
        } else {
            0
        },
        |i: int| 0u8,
    )
}

/// The encoded bytes of an instruction before padding. The operand shape
/// selects the layout; a shape nothing matches contributes only the
/// opcode byte, so an unresolved operand encodes as zeros.
pub open spec fn spec_instruction_core(op: Opcode, ops: Seq<TokenView>) -> Seq<u8> {
    let opb = op.spec_to_bytecode();
    if op is Call {
        seq![opb, 0x10, 0x00, 0x00, 0xff, 0xff, 0xff, 0xff]
    } else if op is Lddw {
        if ops.len() == 2 && ops[0] is Register && ops[1] is ImmediateValue {
            let reg = ops[0]->Register_0;
            let v = ops[1]->ImmediateValue_0.spec_value();
            seq![
                opb,
                reg,
                0,
                0,
                imm_byte(v, 0),
                imm_byte(v, 1),
                imm_byte(v, 2),
                imm_byte(v, 3),
                0,
                0,
                0,
                0,
                imm_byte(v, 4),
                imm_byte(v, 5),
                imm_byte(v, 6),
                imm_byte(v, 7),
            ]
        } else {
            seq![opb]
        }
    } else if ops.len() == 1 && ops[0] is ImmediateValue {
        let v = ops[0]->ImmediateValue_0.spec_value();
        if op is Ja {
            seq![opb, 0, imm_byte(v, 0), imm_byte(v, 1)]
        } else {
            seq![opb, 0, imm_byte(v, 0), imm_byte(v, 1), imm_byte(v, 2), imm_byte(v, 3)]
        }
    } else if ops.len() == 2 && ops[0] is Register && ops[1] is ImmediateValue {
        let reg = ops[0]->Register_0;
        let v = ops[1]->ImmediateValue_0.spec_value();
        seq![opb, reg, 0, 0, imm_byte(v, 0), imm_byte(v, 1), imm_byte(v, 2), imm_byte(v, 3)]
    } else if ops.len() == 3 && ops[0] is Register && ops[1] is ImmediateValue && ops[2]
        is ImmediateValue {
        let reg = ops[0]->Register_0;
        let v = ops[1]->ImmediateValue_0.spec_value();
        let o = ops[2]->ImmediateValue_0.spec_value();
        seq![
            opb,
            reg,
            imm_byte(o, 0),
            imm_byte(o, 1),
            imm_byte(v, 0),
            imm_byte(v, 1),
            imm_byte(v, 2),
            imm_byte(v, 3),
        ]
    } else if ops.len() == 2 && ops[0] is Register && ops[1] is Register {
        let dst = ops[0]->Register_0;
        let src = ops[1]->Register_0;
        seq![opb, spec_reg_pair(src, dst)]
    } else if ops.len() == 3 && ops[0] is Register && ops[1] is Register && ops[2]
        is ImmediateValue {
        let dst = ops[0]->Register_0;
        let src = ops[1]->Register_0;
        let o = ops[2]->ImmediateValue_0.spec_value();
        seq![opb, spec_reg_pair(src, dst), imm_byte(o, 0), imm_byte(o, 1)]
    } else if ops.len() == 3 && ops[0] is Register && ops[1] is ImmediateValue && ops[2]
        is Register {
        let base = ops[0]->Register_0;
        let dst = ops[2]->Register_0;
        let o = ops[1]->ImmediateValue_0.spec_value();
        seq![opb, spec_reg_pair(dst, base), imm_byte(o, 0), imm_byte(o, 1)]
    } else {
        seq![opb]
    }
}

/// The emitted bytes of an instruction: the core encoding padded with
/// zeros to 8 bytes, or 16 for `lddw`.
pub open spec fn spec_instruction_bytes(op: Opcode, ops: Seq<TokenView>) -> Seq<u8> {
    let core = spec_instruction_core(op, ops);
    core + zero_bytes(spec_instruction_size(op) - core.len())
}

/// Every emitted instruction is exactly its size: 16 bytes for `lddw`
/// and 8 for everything else.
pub proof fn lemma_instruction_bytes_len(op: Opcode, ops: Seq<TokenView>)
    ensures
        spec_instruction_bytes(op, ops).len() == spec_instruction_size(op),
        op is Lddw ==> spec_instruction_bytes(op, ops).len() == 16,
        !(op is Lddw) ==> spec_instruction_bytes(op, ops).len() == 8,
{
    let core = spec_instruction_core(op, ops);
    assert(core.len() <= spec_instruction_size(op));
}

/// The register-type hint an instruction records: set when a two- or
/// three-operand immediate form loads an `Addr`-kind value.
pub open spec fn spec_register_hint(op: Opcode, ops: Seq<TokenView>) -> RegisterHint {
    let none = RegisterHint { register: 0, register_type: RegisterType::Null };
    if op is Call || op is Lddw {
        none
    } else if ops.len() == 2 && ops[0] is Register && ops[1] is ImmediateValue && ops[1]
        ->ImmediateValue_0 is Addr {
        RegisterHint { register: ops[0]->Register_0 as usize, register_type: RegisterType::Addr }
    } else if ops.len() == 3 && ops[0] is Register && ops[1] is ImmediateValue && ops[2]
        is ImmediateValue && ops[1]->ImmediateValue_0 is Addr {
        RegisterHint { register: ops[0]->Register_0 as usize, register_type: RegisterType::Addr }
    } else {
        none
    }
}

/// Append `n` zero bytes.
fn pad_with_zeros(bytes: &mut Vec<u8>, target: usize)
    ensures
        final(bytes)@ == old(bytes)@ + zero_bytes(target - old(bytes)@.len()),
{
    let start = bytes.len();
    proof {
        assert(bytes@ =~= old(bytes)@ + zero_bytes(0));
    }
    while bytes.len() < target
        invariant
            start == old(bytes)@.len(),
            start <= bytes@.len(),
            bytes@.len() <= if start > target {
                start
            } else {
                target
            },
            bytes@ == old(bytes)@ + zero_bytes(bytes@.len() - start),
        decreases target - bytes@.len(),
    {
        bytes.push(0);
        proof {
            assert(bytes@ =~= old(bytes)@ + zero_bytes(bytes@.len() - start));
        }
    }
}

/// Encode one instruction, also computing its register-type hint.
#[verifier::rlimit(60)]
fn instruction_bytes(opcode: &Opcode, operands: &Vec<Token>) -> (r: (Vec<u8>, RegisterHint))
    ensures
        r.0@ == spec_instruction_bytes(*opcode, token_views(operands@)),
        r.1 == spec_register_hint(*opcode, token_views(operands@)),
{
    let ghost ops = token_views(operands@);
    proof {
        assert(ops.len() == operands@.len());
        assert(forall|j: int| 0 <= j < operands@.len() ==> ops[j] == operands@[j]@);
    }
    let mut bytes: Vec<u8> = Vec::new();
    let mut hint = RegisterHint { register: 0, register_type: RegisterType::Null };
    bytes.push(opcode.to_bytecode());
    let is_call = match opcode {
        Opcode::Call => true,
        _ => false,
    };
    let is_lddw = match opcode {
        Opcode::Lddw => true,
        _ => false,
    };
    let is_ja = match opcode {
        Opcode::Ja => true,
        _ => false,
    };
    if is_call {
        bytes.push(0x10);
        bytes.push(0x00);
        bytes.push(0x00);
        bytes.push(0xff);
        bytes.push(0xff);
        bytes.push(0xff);
        bytes.push(0xff);
    } else if is_lddw {
        if operands.len() == 2 {
            match (&operands[0], &operands[1]) {
                (Token::Register(reg, _), Token::ImmediateValue(imm, _)) => {
                    let v = imm.value();
                    let u: u64 = #[verifier::truncate] (v as u64);
                    bytes.push(*reg);
                    bytes.push(0);
                    bytes.push(0);
                    bytes.push(le_byte64_x(u, 0));
                    bytes.push(le_byte64_x(u, 1));
                    bytes.push(le_byte64_x(u, 2));
                    bytes.push(le_byte64_x(u, 3));
                    bytes.push(0);
                    bytes.push(0);
                    bytes.push(0);
                    bytes.push(0);
                    bytes.push(le_byte64_x(u, 4));
                    bytes.push(le_byte64_x(u, 5));
                    bytes.push(le_byte64_x(u, 6));
                    bytes.push(le_byte64_x(u, 7));
                }
                _ => {}
            }
        }
    } else {
        if operands.len() == 1 {
            match &operands[0] {
                Token::ImmediateValue(imm, _) => {
                    let v = imm.value();
                    let u: u64 = #[verifier::truncate] (v as u64);
                    bytes.push(0);
                    if is_ja {
                        bytes.push(le_byte64_x(u, 0));
                        bytes.push(le_byte64_x(u, 1));
                    } else {
                        bytes.push(le_byte64_x(u, 0));
                        bytes.push(le_byte64_x(u, 1));
                        bytes.push(le_byte64_x(u, 2));
                        bytes.push(le_byte64_x(u, 3));
                    }
                }
                _ => {}
            }
        } else if operands.len() == 2 {
            match (&operands[0], &operands[1]) {
                (Token::Register(reg, _), Token::ImmediateValue(imm, _)) => {
                    let v = imm.value();
                    let u: u64 = #[verifier::truncate] (v as u64);
                    bytes.push(*reg);
                    bytes.push(0);
                    bytes.push(0);
                    bytes.push(le_byte64_x(u, 0));
                    bytes.push(le_byte64_x(u, 1));
                    bytes.push(le_byte64_x(u, 2));
                    bytes.push(le_byte64_x(u, 3));
                    if imm.is_addr() {
                        hint = RegisterHint {
                            register: *reg as usize,
                            register_type: RegisterType::Addr,
                        };
                    }
                }
                (Token::Register(dst, _), Token::Register(src, _)) => {
                    bytes.push((*src << 4) | *dst);
                }
                _ => {}
            }
        } else if operands.len() == 3 {
            match (&operands[0], &operands[1], &operands[2]) {
                (
                    Token::Register(reg, _),
                    Token::ImmediateValue(imm, _),
                    Token::ImmediateValue(offset, _),
                ) => {
                    let v = imm.value();
                    let u: u64 = #[verifier::truncate] (v as u64);
                    let o: u64 = #[verifier::truncate] (offset.value() as u64);
                    bytes.push(*reg);
                    bytes.push(le_byte64_x(o, 0));
                    bytes.push(le_byte64_x(o, 1));
                    bytes.push(le_byte64_x(u, 0));
                    bytes.push(le_byte64_x(u, 1));
                    bytes.push(le_byte64_x(u, 2));
                    bytes.push(le_byte64_x(u, 3));
                    if imm.is_addr() {
                        hint = RegisterHint {
                            register: *reg as usize,
                            register_type: RegisterType::Addr,
                        };
                    }
                }
                (
                    Token::Register(dst, _),
                    Token::Register(src, _),
                    Token::ImmediateValue(offset, _),
                ) => {
                    let o: u64 = #[verifier::truncate] (offset.value() as u64);
                    bytes.push((*src << 4) | *dst);
                    bytes.push(le_byte64_x(o, 0));
                    bytes.push(le_byte64_x(o, 1));
                }
                (
                    Token::Register(base, _),
                    Token::ImmediateValue(offset, _),
                    Token::Register(dst, _),
                ) => {
                    let o: u64 = #[verifier::truncate] (offset.value() as u64);
                    bytes.push((*dst << 4) | *base);
                    bytes.push(le_byte64_x(o, 0));
                    bytes.push(le_byte64_x(o, 1));
                }
                _ => {}
            }
        }
    }
    proof {
        assert(bytes@ =~= spec_instruction_core(*opcode, ops));
        assert(hint == spec_register_hint(*opcode, ops));
    }
    let target: usize = if is_lddw {
        16
    } else {
        8
    };
    pad_with_zeros(&mut bytes, target);
    proof {
        assert(bytes@ =~= spec_instruction_bytes(*opcode, ops));
    }
    (bytes, hint)
}

impl ImmediateValue {
    /// Whether this immediate carries the address kind.
    pub fn is_addr(&self) -> (r: bool)
        ensures
            r == self.spec_is_addr(),
    {
        match self {
            ImmediateValue::Addr(_) => true,
            _ => false,
        }
    }
}

/// Concatenate the string-literal bytes of a read-only data node.
fn rodata_bytes(args: &Vec<Token>) -> (r: Vec<u8>)
    ensures
        r@ == spec_rodata_bytes(args@),
{
    let mut bytes: Vec<u8> = Vec::new();
    let mut i: usize = 0;
    proof {
        assert(args@.take(0) =~= Seq::<Token>::empty());
        assert(bytes@ =~= spec_rodata_bytes(args@.take(0)));
    }
    while i < args.len()
        invariant
            0 <= i <= args@.len(),
            bytes@ == spec_rodata_bytes(args@.take(i as int)),
        decreases args@.len() - i,
    {
        proof {
            assert(args@.take(i + 1).drop_last() =~= args@.take(i as int));
            assert(args@.take(i + 1).last() == args@[i as int]);
        }
        match &args[i] {
            Token::StringLiteral(s, _) => {
                bytes.extend_from_slice(s.as_slice());
            }
            _ => {}
        }
        proof {
            assert(bytes@ =~= spec_rodata_bytes(args@.take(i + 1)));
        }
        i += 1;
    }
    proof {
        assert(args@.take(args@.len() as int) =~= args@);
    }
    bytes
}

impl ASTNode {
    /// The bytes of a node that reaches the output: the encoded
    /// instruction, or the read-only payload. Other nodes carry none.
    pub fn bytecode(&self) -> (r: Option<Vec<u8>>)
        ensures
            match self {
                ASTNode::Instruction { instruction, .. } => r is Some && r->0@
                    == spec_instruction_bytes(
                    instruction.opcode,
                    token_views(instruction.operands@),
                ),
                ASTNode::ROData { rodata, .. } => r is Some && r->0@ == spec_rodata_bytes(
                    rodata.args@,
                ),
                _ => r is None,
            },
    {
        match self {
            ASTNode::Instruction { instruction, .. } => {
                let (bytes, _) = instruction_bytes(&instruction.opcode, &instruction.operands);
                Some(bytes)
            }
            ASTNode::ROData { rodata, .. } => Some(rodata_bytes(&rodata.args)),
            _ => None,
        }
    }

    /// Like `bytecode`, but for instructions also the debug record at the
    /// instruction's offset: its source line and register-type hint.
    pub fn bytecode_with_debug_map(&self, source: &[u8]) -> (r: Option<
        (Vec<u8>, Vec<(u64, DebugInfo)>),
    >)
        requires
            source@.len() < usize::MAX,
        ensures
            match self {
                ASTNode::Instruction { instruction, offset } => r is Some && {
                    let (bytes, debug) = r->0;
                    &&& bytes@ == spec_instruction_bytes(
                        instruction.opcode,
                        token_views(instruction.operands@),
                    )
                    &&& debug@ == seq![
                        (
                            *offset,
                            DebugInfo {
                                line_number: spec_line_number(
                                    source@,
                                    instruction.span.start as int,
                                ) as usize,
                                register_hint: spec_register_hint(
                                    instruction.opcode,
                                    token_views(instruction.operands@),
                                ),
                            },
                        ),
                    ]
                },
                ASTNode::ROData { rodata, .. } => r is Some && {
                    let (bytes, debug) = r->0;
                    &&& bytes@ == spec_rodata_bytes(rodata.args@)
                    &&& debug@ == Seq::<(u64, DebugInfo)>::empty()
                },
                _ => r is None,
            },
    {
        match self {
            ASTNode::Instruction { instruction, offset } => {
                let (bytes, hint) = instruction_bytes(&instruction.opcode, &instruction.operands);
                let line = span_to_line_number(instruction.span, source);
                let mut debug: Vec<(u64, DebugInfo)> = Vec::new();
                debug.push((*offset, DebugInfo { line_number: line, register_hint: hint }));
                proof {
                    assert(debug@ =~= seq![
                        (
                            *offset,
                            DebugInfo {
                                line_number: spec_line_number(
                                    source@,
                                    instruction.span.start as int,
                                ) as usize,
                                register_hint: spec_register_hint(
                                    instruction.opcode,
                                    token_views(instruction.operands@),
                                ),
                            },
                        ),
                    ]);
                }
                Some((bytes, debug))
            }
            ASTNode::ROData { rodata, .. } => {
                let bytes = rodata_bytes(&rodata.args);
                let debug: Vec<(u64, DebugInfo)> = Vec::new();
                proof {
                    assert(debug@ =~= Seq::<(u64, DebugInfo)>::empty());
                }
                Some((bytes, debug))
            }
            _ => None,
        }
    }
}


// ---------------------------------------------------------------------------
// Node views
// ---------------------------------------------------------------------------

/// The mathematical shape of a parsed node: owned byte strings become
/// sequences and operand lists become token-view sequences.
pub enum NodeView {
    Directive { name: Seq<u8>, args: Seq<TokenView>, span: Span },
    GlobalDecl { entry_label: Seq<u8>, span: Span },
    EquDecl { name: Seq<u8>, value: TokenView, span: Span },
    ExternDecl { args: Seq<TokenView>, span: Span },
    RodataDecl { span: Span },
    Label { name: Seq<u8>, span: Span },
    Instruction { opcode: Opcode, operands: Seq<TokenView>, span: Span, offset: u64 },
    ROData { name: Seq<u8>, args: Seq<TokenView>, span: Span, offset: u64 },
}

/// The view of one node.
pub open spec fn node_view(n: ASTNode) -> NodeView {
    match n {
        ASTNode::Directive { directive } => NodeView::Directive {
            name: directive.name@,
            args: token_views(directive.args@),
            span: directive.span,
        },
        ASTNode::GlobalDecl { global_decl } => NodeView::GlobalDecl {
            entry_label: global_decl.entry_label@,
            span: global_decl.span,
        },
        ASTNode::EquDecl { equ_decl } => NodeView::EquDecl {
            name: equ_decl.name@,
            value: equ_decl.value@,
            span: equ_decl.span,
        },
        ASTNode::ExternDecl { extern_decl } => NodeView::ExternDecl {
            args: token_views(extern_decl.args@),
            span: extern_decl.span,
        },
        ASTNode::RodataDecl { rodata_decl } => NodeView::RodataDecl { span: rodata_decl.span },
        ASTNode::Label { label } => NodeView::Label { name: label.name@, span: label.span },
        ASTNode::Instruction { instruction, offset } => NodeView::Instruction {
            opcode: instruction.opcode,
            operands: token_views(instruction.operands@),
            span: instruction.span,
            offset,
        },
        ASTNode::ROData { rodata, offset } => NodeView::ROData {
            name: rodata.name@,
            args: token_views(rodata.args@),
            span: rodata.span,
            offset,
        },
    }
}

/// The views of a node list, in order.
pub open spec fn node_views(s: Seq<ASTNode>) -> Seq<NodeView> {
    s.map_values(|n: ASTNode| node_view(n))
}

/// Views distribute over pushing a node.
pub proof fn lemma_node_views_push(s: Seq<ASTNode>, x: ASTNode)
    ensures
        node_views(s.push(x)) == node_views(s).push(node_view(x)),
{
    assert(node_views(s.push(x)) =~= node_views(s).push(node_view(x)));
}

} // verus!
