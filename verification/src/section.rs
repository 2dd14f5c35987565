//! Section builders: `.text`, `.rodata`, the dynamic-linking tables, the
//! string tables and the null section. Each knows its payload bytes, its
//! size — always the payload's length — and its 64-byte section header.

use vstd::prelude::*;
use vstd::string::StringSliceAdditionalSpecFns;
use crate::astnode::{ASTNode, ROData, spec_instruction_bytes, spec_rodata_bytes, zero_bytes};
use crate::lexer::{Token, token_views};
use crate::header::{
    SectionHeader, spec_section_header_bytes, SHT_NULL, SHT_PROGBITS, SHT_STRTAB, SHT_DYNAMIC,
    SHT_REL, SHT_DYNSYM, SHF_WRITE, SHF_ALLOC, SHF_EXECINSTR, le8,
};
use crate::dynsym::{DynamicSymbol, RelDyn, spec_dynsym_bytes, spec_reldyn_bytes, push_le64};
use crate::debuginfo::DebugInfo;

verus! {

/// What every section offers: a name, payload bytes, and a size. The
/// size of a section always equals its payload's length.
pub trait Section {
    fn name(&self) -> &'static str;

    fn bytecode(&self) -> Vec<u8>;

    fn size(&self) -> u64;
}

/// How many zero bytes pad a payload of length `n` to a multiple of 8.
pub open spec fn pad8_len(n: int) -> int {
    (8 - n % 8) % 8
}

/// Append zero bytes until the length is a multiple of 8.
fn pad_to_align8(bytes: &mut Vec<u8>)
    ensures
        final(bytes)@ == old(bytes)@ + zero_bytes(pad8_len(old(bytes)@.len() as int)),
{
    let ghost n = old(bytes)@.len() as int;
    proof {
        assert(bytes@ =~= old(bytes)@ + zero_bytes(0));
        assert(0 <= pad8_len(n) < 8);
        assert((n + pad8_len(n)) % 8 == 0) by {
            assert((n + (8 - n % 8) % 8) % 8 == 0) by (nonlinear_arith);
        }
    }
    while bytes.len() % 8 != 0
        invariant
            n == old(bytes)@.len(),
            (n + pad8_len(n)) % 8 == 0,
            0 <= pad8_len(n) < 8,
            n <= bytes@.len() <= n + pad8_len(n),
            bytes@ == old(bytes)@ + zero_bytes(bytes@.len() - n),
        decreases n + pad8_len(n) - bytes@.len(),
    {
        proof {
            assert(bytes@.len() < n + pad8_len(n));
        }
        bytes.push(0);
        proof {
            assert(bytes@ =~= old(bytes)@ + zero_bytes(bytes@.len() - n));
        }
    }
}

// ---------------------------------------------------------------------------
// .text
// ---------------------------------------------------------------------------

/// The `.text` payload: the encoded bytes of every instruction node, in
/// order. Other nodes contribute nothing.
pub open spec fn spec_text_bytes(nodes: Seq<ASTNode>) -> Seq<u8>
    decreases nodes.len(),
{
    if nodes.len() == 0 {
        Seq::empty()
    } else {
        spec_text_bytes(nodes.drop_last()) + match nodes.last() {
            ASTNode::Instruction { instruction, .. } => spec_instruction_bytes(
                instruction.opcode,
                token_views(instruction.operands@),
            ),
            ASTNode::ROData { rodata, .. } => spec_rodata_bytes(rodata.args@),
            _ => Seq::empty(),
        }
    }
}

/// The executable code section.
#[derive(Debug)]
pub struct CodeSection {
    nodes: Vec<ASTNode>,
    size: u64,
    offset: u64,
    line_map: Vec<(u64, usize)>,
    debug_map: Vec<(u64, DebugInfo)>,
}

/// The debug records of a node list: one per instruction node, keyed by
/// the instruction's offset, in order.
pub open spec fn spec_debug_entries(nodes: Seq<ASTNode>, src: Seq<u8>) -> Seq<(u64, DebugInfo)>
    decreases nodes.len(),
{
    if nodes.len() == 0 {
        Seq::empty()
    } else {
        spec_debug_entries(nodes.drop_last(), src) + match nodes.last() {
            ASTNode::Instruction { instruction, offset } => seq![
                (
                    offset,
                    DebugInfo {
                        line_number: crate::debuginfo::spec_line_number(
                            src,
                            instruction.span.start as int,
                        ) as usize,
                        register_hint: crate::astnode::spec_register_hint(
                            instruction.opcode,
                            token_views(instruction.operands@),
                        ),
                    },
                ),
            ],
            _ => Seq::<(u64, DebugInfo)>::empty(),
        }
    }
}

/// The line recorded with the first debug entry at an offset, if any.
pub open spec fn spec_find_line(entries: Seq<(u64, DebugInfo)>, offset: u64) -> Option<usize>
    decreases entries.len(),
{
    if entries.len() == 0 {
        None
    } else if entries[0].0 == offset {
        Some(entries[0].1.line_number)
    } else {
        spec_find_line(entries.skip(1), offset)
    }
}

proof fn lemma_find_line_at(entries: Seq<(u64, DebugInfo)>, offset: u64, i: int)
    requires
        0 <= i < entries.len(),
        entries[i].0 == offset,
        forall|j: int| 0 <= j < i ==> (#[trigger] entries[j]).0 != offset,
    ensures
        spec_find_line(entries, offset) == Some(entries[i].1.line_number),
    decreases entries.len(),
{
    if i > 0 {
        assert(forall|j: int|
            0 <= j < entries.skip(1).len() ==> #[trigger] entries.skip(1)[j] == entries[j + 1]);
        lemma_find_line_at(entries.skip(1), offset, i - 1);
    }
}

proof fn lemma_find_line_none(entries: Seq<(u64, DebugInfo)>, offset: u64)
    requires
        forall|j: int| 0 <= j < entries.len() ==> (#[trigger] entries[j]).0 != offset,
    ensures
        spec_find_line(entries, offset) is None,
    decreases entries.len(),
{
    if entries.len() > 0 {
        assert(forall|j: int|
            0 <= j < entries.skip(1).len() ==> #[trigger] entries.skip(1)[j] == entries[j + 1]);
        lemma_find_line_none(entries.skip(1), offset);
    }
}

impl CodeSection {
    /// Build the code section over the parsed nodes, with the byte size
    /// the parser accumulated, computing the debug records against the
    /// source.
    pub fn new(nodes: Vec<ASTNode>, size: u64, source: &[u8]) -> (r: Self)
        requires
            source@.len() < usize::MAX,
        ensures
            r.spec_nodes() == nodes@,
            r.spec_size() == size,
            r.spec_offset() == 0,
            r.spec_line_map() == Seq::<(u64, usize)>::empty(),
            r.spec_debug_map() == spec_debug_entries(nodes@, source@),
    {
        let line_map: Vec<(u64, usize)> = Vec::new();
        let mut debug_map: Vec<(u64, DebugInfo)> = Vec::new();
        let mut i: usize = 0;
        proof {
            assert(nodes@.take(0) =~= Seq::<ASTNode>::empty());
            assert(debug_map@ =~= spec_debug_entries(nodes@.take(0), source@));
        }
        while i < nodes.len()
            invariant
                0 <= i <= nodes@.len(),
                source@.len() < usize::MAX,
                debug_map@ == spec_debug_entries(nodes@.take(i as int), source@),
            decreases nodes@.len() - i,
        {
            proof {
                assert(nodes@.take(i + 1).drop_last() =~= nodes@.take(i as int));
                assert(nodes@.take(i + 1).last() == nodes@[i as int]);
            }
            match nodes[i].bytecode_with_debug_map(source) {
                Some((_, node_debug)) => {
                    let mut k: usize = 0;
                    let ghost pre = debug_map@;
                    while k < node_debug.len()
                        invariant
                            0 <= k <= node_debug@.len(),
                            debug_map@ == pre + node_debug@.take(k as int),
                        decreases node_debug@.len() - k,
                    {
                        debug_map.push(node_debug[k]);
                        proof {
                            assert(node_debug@.take(k + 1) =~= node_debug@.take(k as int).push(
                                node_debug@[k as int],
                            ));
                            assert(debug_map@ =~= pre + node_debug@.take(k + 1));
                        }
                        k += 1;
                    }
                    proof {
                        assert(node_debug@.take(node_debug@.len() as int) =~= node_debug@);
                        assert(debug_map@ =~= spec_debug_entries(nodes@.take(i + 1), source@));
                    }
                }
                None => {
                    proof {
                        assert(debug_map@ =~= spec_debug_entries(nodes@.take(i + 1), source@));
                    }
                }
            }
            i += 1;
        }
        proof {
            assert(nodes@.take(nodes@.len() as int) =~= nodes@);
        }
        Self { nodes, size, offset: 0, line_map, debug_map }
    }

    /// The parsed nodes the section holds.
    pub closed spec fn spec_nodes(&self) -> Seq<ASTNode> {
        self.nodes@
    }

    /// The byte size assigned by the parser.
    pub closed spec fn spec_size(&self) -> u64 {
        self.size
    }

    /// The file offset assigned by the layout pass.
    pub closed spec fn spec_offset(&self) -> u64 {
        self.offset
    }

    pub closed spec fn spec_line_map(&self) -> Seq<(u64, usize)> {
        self.line_map@
    }

    pub closed spec fn spec_debug_map(&self) -> Seq<(u64, DebugInfo)> {
        self.debug_map@
    }

    /// The source line recorded for an instruction offset, if any.
    pub fn get_line_number(&self, offset: u64) -> (r: Option<usize>)
        ensures
            r == spec_find_line(self.spec_debug_map(), offset),
    {
        let ghost dm = self.spec_debug_map();
        let mut i: usize = 0;
        while i < self.debug_map.len()
            invariant
                0 <= i <= self.debug_map@.len(),
                dm == self.spec_debug_map(),
                dm.len() == self.debug_map@.len(),
                forall|j: int| 0 <= j < i ==> (#[trigger] dm[j]).0 != offset,
            decreases self.debug_map@.len() - i,
        {
            if self.debug_map[i].0 == offset {
                proof {
                    assert((self.spec_debug_map()[i as int]).0 == offset);
                    lemma_find_line_at(dm, offset, i as int);
                }
                return Some(self.debug_map[i].1.line_number);
            }
            i += 1;
        }
        proof {
            lemma_find_line_none(dm, offset);
        }
        None
    }

    pub fn get_nodes(&self) -> (r: &Vec<ASTNode>)
        ensures
            r@ == self.spec_nodes(),
    {
        &self.nodes
    }

    pub fn get_size(&self) -> (r: u64)
        ensures
            r == self.spec_size(),
    {
        self.size
    }

    pub fn get_line_map(&self) -> (r: &Vec<(u64, usize)>)
        ensures
            r@ == self.spec_line_map(),
    {
        &self.line_map
    }

    pub fn get_debug_map(&self) -> (r: &Vec<(u64, DebugInfo)>)
        ensures
            r@ == self.spec_debug_map(),
    {
        &self.debug_map
    }

    pub fn set_offset(&mut self, offset: u64)
        ensures
            final(self).spec_offset() == offset,
            final(self).spec_nodes() == old(self).spec_nodes(),
            final(self).spec_size() == old(self).spec_size(),
            final(self).spec_line_map() == old(self).spec_line_map(),
            final(self).spec_debug_map() == old(self).spec_debug_map(),
    {
        self.offset = offset;
    }

    /// The `.text` section header: program bits, allocated and
    /// executable, 4-byte aligned, named at string-table offset 1.
    pub fn section_header_bytecode(&self) -> (r: Vec<u8>)
        ensures
            r@ == spec_section_header_bytes(
                SectionHeader {
                    sh_name: 1,
                    sh_type: SHT_PROGBITS,
                    sh_flags: SHF_ALLOC | SHF_EXECINSTR,
                    sh_addr: self.spec_offset(),
                    sh_offset: self.spec_offset(),
                    sh_size: self.spec_size(),
                    sh_link: 0,
                    sh_info: 0,
                    sh_addralign: 4,
                    sh_entsize: 0,
                },
            ),
    {
        let flags = SHF_ALLOC | SHF_EXECINSTR;
        SectionHeader::new(
            1,
            SHT_PROGBITS,
            flags,
            self.offset,
            self.offset,
            self.size,
            0,
            0,
            4,
            0,
        ).bytecode()
    }

    /// The payload: every node's bytes, in order.
    pub fn payload(&self) -> (r: Vec<u8>)
        ensures
            r@ == spec_text_bytes(self.spec_nodes()),
    {
        let mut bytes: Vec<u8> = Vec::new();
        let mut i: usize = 0;
        proof {
            assert(self.nodes@.take(0) =~= Seq::<ASTNode>::empty());
            assert(bytes@ =~= spec_text_bytes(self.nodes@.take(0)));
        }
        while i < self.nodes.len()
            invariant
                0 <= i <= self.nodes@.len(),
                bytes@ == spec_text_bytes(self.nodes@.take(i as int)),
            decreases self.nodes@.len() - i,
        {
            proof {
                assert(self.nodes@.take(i + 1).drop_last() =~= self.nodes@.take(i as int));
                assert(self.nodes@.take(i + 1).last() == self.nodes@[i as int]);
            }
            match self.nodes[i].bytecode() {
                Some(node_bytes) => {
                    bytes.extend_from_slice(node_bytes.as_slice());
                }
                None => {}
            }
            proof {
                assert(bytes@ =~= spec_text_bytes(self.nodes@.take(i + 1)));
            }
            i += 1;
        }
        proof {
            assert(self.nodes@.take(self.nodes@.len() as int) =~= self.nodes@);
        }
        bytes
    }
}

impl Section for CodeSection {
    fn name(&self) -> &'static str {
        ".text"
    }

    fn bytecode(&self) -> Vec<u8> {
        self.payload()
    }

    fn size(&self) -> u64 {
        self.size
    }
}

// ---------------------------------------------------------------------------
// .rodata
// ---------------------------------------------------------------------------

/// The unpadded `.rodata` content: the payload bytes of every read-only
/// data node, in order.
pub open spec fn spec_data_content(nodes: Seq<ASTNode>) -> Seq<u8>
    decreases nodes.len(),
{
    if nodes.len() == 0 {
        Seq::empty()
    } else {
        spec_data_content(nodes.drop_last()) + match nodes.last() {
            ASTNode::ROData { rodata, .. } => spec_rodata_bytes(rodata.args@),
            ASTNode::Instruction { instruction, .. } => spec_instruction_bytes(
                instruction.opcode,
                token_views(instruction.operands@),
            ),
            _ => Seq::empty(),
        }
    }
}

/// The emitted `.rodata` payload: the content padded with zeros to a
/// multiple of 8.
pub open spec fn spec_data_bytes(nodes: Seq<ASTNode>) -> Seq<u8> {
    spec_data_content(nodes) + zero_bytes(pad8_len(spec_data_content(nodes).len() as int))
}

/// The read-only data section.
#[derive(Debug)]
pub struct DataSection {
    nodes: Vec<ASTNode>,
    size: u64,
    offset: u64,
}

/// The (name, offset, literal) triples of the read-only entries, in
/// order: the label name, the node's offset, and the string bytes.
pub open spec fn spec_rodata_entries(nodes: Seq<ASTNode>) -> Seq<(Seq<u8>, usize, Seq<u8>)>
    decreases nodes.len(),
{
    if nodes.len() == 0 {
        Seq::empty()
    } else {
        spec_rodata_entries(nodes.drop_last()) + match nodes.last() {
            ASTNode::ROData { rodata, offset } => if rodata.args@.len() >= 2 && rodata.args@[1]@
                is StringLiteral {
                seq![
                    (rodata.name@, offset as usize, rodata.args@[1]@->StringLiteral_0),
                ]
            } else {
                Seq::<(Seq<u8>, usize, Seq<u8>)>::empty()
            },
            _ => Seq::<(Seq<u8>, usize, Seq<u8>)>::empty(),
        }
    }
}

impl DataSection {
    /// Build the data section over the read-only nodes, with the byte
    /// size the parser accumulated.
    pub fn new(nodes: Vec<ASTNode>, size: u64) -> (r: Self)
        ensures
            r.spec_nodes() == nodes@,
            r.spec_size() == size,
            r.spec_offset() == 0,
    {
        Self { nodes, size, offset: 0 }
    }

    pub closed spec fn spec_nodes(&self) -> Seq<ASTNode> {
        self.nodes@
    }

    /// The unpadded content size the parser accumulated.
    pub closed spec fn spec_size(&self) -> u64 {
        self.size
    }

    pub closed spec fn spec_offset(&self) -> u64 {
        self.offset
    }

    pub fn get_nodes(&self) -> (r: &Vec<ASTNode>)
        ensures
            r@ == self.spec_nodes(),
    {
        &self.nodes
    }

    /// The unpadded content size the parser accumulated.
    pub fn get_size(&self) -> (r: u64)
        ensures
            r == self.spec_size(),
    {
        self.size
    }

    pub fn set_offset(&mut self, offset: u64)
        ensures
            final(self).spec_offset() == offset,
            final(self).spec_nodes() == old(self).spec_nodes(),
            final(self).spec_size() == old(self).spec_size(),
    {
        self.offset = offset;
    }

    /// The read-only entries: each label with its offset and its string
    /// bytes, in order.
    pub fn rodata(&self) -> (r: Vec<(Vec<u8>, usize, Vec<u8>)>)
        ensures
            r@.map_values(|t: (Vec<u8>, usize, Vec<u8>)| (t.0@, t.1, t.2@)) == spec_rodata_entries(
                self.spec_nodes(),
            ),
    {
        let mut out: Vec<(Vec<u8>, usize, Vec<u8>)> = Vec::new();
        let mut i: usize = 0;
        proof {
            assert(self.nodes@.take(0) =~= Seq::<ASTNode>::empty());
            assert(out@.map_values(|t: (Vec<u8>, usize, Vec<u8>)| (t.0@, t.1, t.2@))
                =~= spec_rodata_entries(self.nodes@.take(0)));
        }
        while i < self.nodes.len()
            invariant
                0 <= i <= self.nodes@.len(),
                out@.map_values(|t: (Vec<u8>, usize, Vec<u8>)| (t.0@, t.1, t.2@))
                    == spec_rodata_entries(self.nodes@.take(i as int)),
            decreases self.nodes@.len() - i,
        {
            proof {
                assert(self.nodes@.take(i + 1).drop_last() =~= self.nodes@.take(i as int));
                assert(self.nodes@.take(i + 1).last() == self.nodes@[i as int]);
            }
            match &self.nodes[i] {
                ASTNode::ROData { rodata, offset } => {
                    if rodata.args.len() >= 2 {
                        proof {
                            assert(token_views(rodata.args@)[1] == rodata.args@[1]@ || true);
                        }
                        match &rodata.args[1] {
                            Token::StringLiteral(lit, _) => {
                                let name = vstd::slice::slice_to_vec(rodata.name.as_slice());
                                let lit_copy = vstd::slice::slice_to_vec(lit.as_slice());
                                let off = *offset as usize;
                                out.push((name, off, lit_copy));
                            }
                            _ => {}
                        }
                    }
                }
                _ => {}
            }
            proof {
                assert(out@.map_values(|t: (Vec<u8>, usize, Vec<u8>)| (t.0@, t.1, t.2@))
                    =~~= spec_rodata_entries(self.nodes@.take(i + 1)));
            }
            i += 1;
        }
        proof {
            assert(self.nodes@.take(self.nodes@.len() as int) =~= self.nodes@);
        }
        out
    }

    /// The `.rodata` section header: program bits, allocated, byte
    /// aligned, named at string-table offset 7.
    pub fn section_header_bytecode(&self) -> (r: Vec<u8>)
        ensures
            r@ == spec_section_header_bytes(
                SectionHeader {
                    sh_name: 7,
                    sh_type: SHT_PROGBITS,
                    sh_flags: SHF_ALLOC,
                    sh_addr: self.spec_offset(),
                    sh_offset: self.spec_offset(),
                    sh_size: self.spec_size(),
                    sh_link: 0,
                    sh_info: 0,
                    sh_addralign: 1,
                    sh_entsize: 0,
                },
            ),
    {
        SectionHeader::new(
            7,
            SHT_PROGBITS,
            SHF_ALLOC,
            self.offset,
            self.offset,
            self.size,
            0,
            0,
            1,
            0,
        ).bytecode()
    }

    /// The payload: the entries' bytes padded with zeros to a multiple
    /// of 8.
    pub fn payload(&self) -> (r: Vec<u8>)
        ensures
            r@ == spec_data_bytes(self.spec_nodes()),
    {
        let mut bytes: Vec<u8> = Vec::new();
        let mut i: usize = 0;
        proof {
            assert(self.nodes@.take(0) =~= Seq::<ASTNode>::empty());
            assert(bytes@ =~= spec_data_content(self.nodes@.take(0)));
        }
        while i < self.nodes.len()
            invariant
                0 <= i <= self.nodes@.len(),
                bytes@ == spec_data_content(self.nodes@.take(i as int)),
            decreases self.nodes@.len() - i,
        {
            proof {
                assert(self.nodes@.take(i + 1).drop_last() =~= self.nodes@.take(i as int));
                assert(self.nodes@.take(i + 1).last() == self.nodes@[i as int]);
            }
            match self.nodes[i].bytecode() {
                Some(node_bytes) => {
                    bytes.extend_from_slice(node_bytes.as_slice());
                }
                None => {}
            }
            proof {
                assert(bytes@ =~= spec_data_content(self.nodes@.take(i + 1)));
            }
            i += 1;
        }
        proof {
            assert(self.nodes@.take(self.nodes@.len() as int) =~= self.nodes@);
            lemma_data_content_prefix(self.nodes@, self.nodes@.len() as int);
        }
        pad_to_align8(&mut bytes);
        bytes
    }
}

proof fn lemma_data_content_prefix(nodes: Seq<ASTNode>, k: int)
    requires
        0 <= k <= nodes.len(),
    ensures
        spec_data_content(nodes.take(k)).len() <= spec_data_content(nodes).len(),
    decreases nodes.len() - k,
{
    if k < nodes.len() {
        assert(nodes.take(k + 1).drop_last() =~= nodes.take(k));
        lemma_data_content_prefix(nodes, k + 1);
    } else {
        assert(nodes.take(k) =~= nodes);
    }
}

impl Section for DataSection {
    fn name(&self) -> &'static str {
        ".rodata"
    }

    fn bytecode(&self) -> Vec<u8> {
        let mut bytes: Vec<u8> = Vec::new();
        let mut i: usize = 0;
        while i < self.nodes.len()
            decreases self.nodes@.len() - i,
        {
            match self.nodes[i].bytecode() {
                Some(node_bytes) => {
                    bytes.extend_from_slice(node_bytes.as_slice());
                }
                None => {}
            }
            i += 1;
        }
        while bytes.len() % 8 != 0 && bytes.len() < usize::MAX
            decreases usize::MAX - bytes@.len(),
        {
            bytes.push(0);
        }
        bytes
    }

    fn size(&self) -> u64 {
        self.size
    }
}

// ---------------------------------------------------------------------------
// The null section
// ---------------------------------------------------------------------------

/// The unused section at index 0: an all-zero header and no payload.
#[derive(Debug)]
pub struct NullSection {
    offset: u64,
}

impl NullSection {
    pub fn new() -> (r: Self)
        ensures
            r.spec_offset() == 0,
    {
        Self { offset: 0 }
    }

    pub closed spec fn spec_offset(&self) -> u64 {
        self.offset
    }

    /// The all-zero section header.
    pub fn section_header_bytecode(&self) -> (r: Vec<u8>)
        ensures
            r@ == spec_section_header_bytes(
                SectionHeader {
                    sh_name: 0,
                    sh_type: SHT_NULL,
                    sh_flags: 0,
                    sh_addr: 0,
                    sh_offset: 0,
                    sh_size: 0,
                    sh_link: 0,
                    sh_info: 0,
                    sh_addralign: 0,
                    sh_entsize: 0,
                },
            ),
    {
        SectionHeader::new(0, SHT_NULL, 0, 0, 0, 0, 0, 0, 0, 0).bytecode()
    }
}

impl Section for NullSection {
    fn name(&self) -> &'static str {
        ""
    }

    fn bytecode(&self) -> Vec<u8> {
        Vec::new()
    }

    fn size(&self) -> u64 {
        0
    }
}

// ---------------------------------------------------------------------------
// String tables
// ---------------------------------------------------------------------------

/// The views of a list of owned byte strings.
pub open spec fn byte_seqs(v: Seq<Vec<u8>>) -> Seq<Seq<u8>> {
    v.map_values(|n: Vec<u8>| n@)
}

/// The unpadded content of the section-name table: a null byte, then
/// each non-empty name with a null terminator, in order.
pub open spec fn spec_strtab_content(names: Seq<Seq<u8>>) -> Seq<u8>
    decreases names.len(),
{
    if names.len() == 0 {
        seq![0u8]
    } else {
        spec_strtab_content(names.drop_last()) + if names.last().len() > 0 {
            names.last() + seq![0u8]
        } else {
            Seq::<u8>::empty()
        }
    }
}

/// The `.shstrtab` payload: the content padded with zeros to a multiple
/// of 8.
pub open spec fn spec_shstrtab_bytes(names: Seq<Seq<u8>>) -> Seq<u8> {
    spec_strtab_content(names) + zero_bytes(pad8_len(spec_strtab_content(names).len() as int))
}

/// The section-name string table. It always names itself last.
#[derive(Debug)]
pub struct ShStrTabSection {
    name_offset: u32,
    section_names: Vec<Vec<u8>>,
    offset: u64,
}

impl ShStrTabSection {
    /// Build the table over the given section names, appending
    /// `.shstrtab` itself, with its own name at `name_offset`.
    pub fn new(name_offset: u32, section_names: Vec<Vec<u8>>) -> (r: Self)
        ensures
            r.spec_names() == byte_seqs(section_names@).push(".shstrtab".spec_bytes()),
            r.spec_name_offset() == name_offset,
            r.spec_offset() == 0,
    {
        let mut names = section_names;
        let ghost pre = byte_seqs(names@);
        names.push(vstd::slice::slice_to_vec(".shstrtab".as_bytes()));
        proof {
            assert(byte_seqs(names@) =~= pre.push(".shstrtab".spec_bytes()));
        }
        Self { name_offset, section_names: names, offset: 0 }
    }

    pub closed spec fn spec_names(&self) -> Seq<Seq<u8>> {
        byte_seqs(self.section_names@)
    }

    pub closed spec fn spec_name_offset(&self) -> u32 {
        self.name_offset
    }

    pub closed spec fn spec_offset(&self) -> u64 {
        self.offset
    }

    pub fn set_offset(&mut self, offset: u64)
        ensures
            final(self).spec_offset() == offset,
            final(self).spec_names() == old(self).spec_names(),
            final(self).spec_name_offset() == old(self).spec_name_offset(),
    {
        self.offset = offset;
    }

    /// The payload: a null byte, the non-empty names null-terminated in
    /// order, padded to a multiple of 8.
    pub fn payload(&self) -> (r: Vec<u8>)
        ensures
            r@ == spec_shstrtab_bytes(self.spec_names()),
    {
        let mut bytes: Vec<u8> = Vec::new();
        bytes.push(0);
        let mut i: usize = 0;
        proof {
            assert(self.spec_names().take(0) =~= Seq::<Seq<u8>>::empty());
            assert(bytes@ =~= spec_strtab_content(self.spec_names().take(0)));
        }
        while i < self.section_names.len()
            invariant
                0 <= i <= self.section_names@.len(),
                self.spec_names().len() == self.section_names@.len(),
                bytes@ == spec_strtab_content(self.spec_names().take(i as int)),
            decreases self.section_names@.len() - i,
        {
            proof {
                assert(self.spec_names().take(i + 1).drop_last() =~= self.spec_names().take(
                    i as int,
                ));
                assert(self.spec_names().take(i + 1).last() == self.spec_names()[i as int]);
                assert(self.spec_names()[i as int] == self.section_names@[i as int]@);
            }
            let name = &self.section_names[i];
            if name.len() > 0 {
                bytes.extend_from_slice(name.as_slice());
                bytes.push(0);
            }
            proof {
                assert(bytes@ =~= spec_strtab_content(self.spec_names().take(i + 1)));
            }
            i += 1;
        }
        proof {
            assert(self.spec_names().take(self.spec_names().len() as int) =~= self.spec_names());
        }
        pad_to_align8(&mut bytes);
        bytes
    }

    /// The section size: the payload's length.
    pub fn section_size(&self) -> (r: u64)
        ensures
            r == spec_shstrtab_bytes(self.spec_names()).len(),
    {
        let bytes = self.payload();
        bytes.len() as u64
    }

    /// The `.shstrtab` section header: a string table, unallocated, byte
    /// aligned.
    pub fn section_header_bytecode(&self) -> (r: Vec<u8>)
        ensures
            r@ == spec_section_header_bytes(
                SectionHeader {
                    sh_name: self.spec_name_offset(),
                    sh_type: SHT_STRTAB,
                    sh_flags: 0,
                    sh_addr: 0,
                    sh_offset: self.spec_offset(),
                    sh_size: spec_shstrtab_bytes(self.spec_names()).len() as u64,
                    sh_link: 0,
                    sh_info: 0,
                    sh_addralign: 1,
                    sh_entsize: 0,
                },
            ),
    {
        SectionHeader::new(
            self.name_offset,
            SHT_STRTAB,
            0,
            0,
            self.offset,
            self.section_size(),
            0,
            0,
            1,
            0,
        ).bytecode()
    }
}

impl Section for ShStrTabSection {
    fn name(&self) -> &'static str {
        ".shstrtab"
    }

    fn bytecode(&self) -> Vec<u8> {
        self.payload()
    }

    fn size(&self) -> u64 {
        self.section_size()
    }
}

/// The unpadded content of the dynamic-string table: a null byte, then
/// every symbol name with a null terminator, in order.
pub open spec fn spec_dynstr_content(names: Seq<Seq<u8>>) -> Seq<u8>
    decreases names.len(),
{
    if names.len() == 0 {
        seq![0u8]
    } else {
        spec_dynstr_content(names.drop_last()) + names.last() + seq![0u8]
    }
}

/// The `.dynstr` payload: the content padded with zeros to a multiple
/// of 8. Its first byte is null, and the names appear in the order they
/// were handed over.
pub open spec fn spec_dynstr_bytes(names: Seq<Seq<u8>>) -> Seq<u8> {
    spec_dynstr_content(names) + zero_bytes(pad8_len(spec_dynstr_content(names).len() as int))
}

/// The dynamic-symbol string table.
#[derive(Debug)]
pub struct DynStrSection {
    name_offset: u32,
    symbol_names: Vec<Vec<u8>>,
    offset: u64,
}

impl DynStrSection {
    pub fn new(name_offset: u32, symbol_names: Vec<Vec<u8>>) -> (r: Self)
        ensures
            r.spec_names() == byte_seqs(symbol_names@),
            r.spec_name_offset() == name_offset,
            r.spec_offset() == 0,
    {
        Self { name_offset, symbol_names, offset: 0 }
    }

    pub closed spec fn spec_names(&self) -> Seq<Seq<u8>> {
        byte_seqs(self.symbol_names@)
    }

    pub closed spec fn spec_name_offset(&self) -> u32 {
        self.name_offset
    }

    pub closed spec fn spec_offset(&self) -> u64 {
        self.offset
    }

    pub fn set_offset(&mut self, offset: u64)
        ensures
            final(self).spec_offset() == offset,
            final(self).spec_names() == old(self).spec_names(),
            final(self).spec_name_offset() == old(self).spec_name_offset(),
    {
        self.offset = offset;
    }

    /// The payload: a null byte, every name null-terminated in order,
    /// padded to a multiple of 8.
    pub fn payload(&self) -> (r: Vec<u8>)
        ensures
            r@ == spec_dynstr_bytes(self.spec_names()),
    {
        let mut bytes: Vec<u8> = Vec::new();
        bytes.push(0);
        let mut i: usize = 0;
        proof {
            assert(self.spec_names().take(0) =~= Seq::<Seq<u8>>::empty());
            assert(bytes@ =~= spec_dynstr_content(self.spec_names().take(0)));
        }
        while i < self.symbol_names.len()
            invariant
                0 <= i <= self.symbol_names@.len(),
                self.spec_names().len() == self.symbol_names@.len(),
                bytes@ == spec_dynstr_content(self.spec_names().take(i as int)),
            decreases self.symbol_names@.len() - i,
        {
            proof {
                assert(self.spec_names().take(i + 1).drop_last() =~= self.spec_names().take(
                    i as int,
                ));
                assert(self.spec_names().take(i + 1).last() == self.spec_names()[i as int]);
                assert(self.spec_names()[i as int] == self.symbol_names@[i as int]@);
            }
            let name = &self.symbol_names[i];
            bytes.extend_from_slice(name.as_slice());
            bytes.push(0);
            proof {
                assert(bytes@ =~= spec_dynstr_content(self.spec_names().take(i + 1)));
            }
            i += 1;
        }
        proof {
            assert(self.spec_names().take(self.spec_names().len() as int) =~= self.spec_names());
        }
        pad_to_align8(&mut bytes);
        bytes
    }

    /// The section size: the payload's length.
    pub fn section_size(&self) -> (r: u64)
        ensures
            r == spec_dynstr_bytes(self.spec_names()).len(),
    {
        let bytes = self.payload();
        bytes.len() as u64
    }

    /// The `.dynstr` section header: an allocated string table, byte
    /// aligned.
    pub fn section_header_bytecode(&self) -> (r: Vec<u8>)
        ensures
            r@ == spec_section_header_bytes(
                SectionHeader {
                    sh_name: self.spec_name_offset(),
                    sh_type: SHT_STRTAB,
                    sh_flags: SHF_ALLOC,
                    sh_addr: self.spec_offset(),
                    sh_offset: self.spec_offset(),
                    sh_size: spec_dynstr_bytes(self.spec_names()).len() as u64,
                    sh_link: 0,
                    sh_info: 0,
                    sh_addralign: 1,
                    sh_entsize: 0,
                },
            ),
    {
        SectionHeader::new(
            self.name_offset,
            SHT_STRTAB,
            SHF_ALLOC,
            self.offset,
            self.offset,
            self.section_size(),
            0,
            0,
            1,
            0,
        ).bytecode()
    }
}

impl Section for DynStrSection {
    fn name(&self) -> &'static str {
        ".dynstr"
    }

    fn bytecode(&self) -> Vec<u8> {
        self.payload()
    }

    fn size(&self) -> u64 {
        self.section_size()
    }
}

// ---------------------------------------------------------------------------
// .dynamic
// ---------------------------------------------------------------------------

/// The `.dynamic` payload: `(tag, value)` entries of 16 bytes each, in a
/// fixed order, with `DT_RELCOUNT` present only when relative
/// relocations exist, ending with `DT_NULL`.
pub open spec fn spec_dynamic_bytes(
    rel_offset: u64,
    rel_size: u64,
    rel_count: u64,
    dynsym_offset: u64,
    dynstr_offset: u64,
    dynstr_size: u64,
) -> Seq<u8> {
    le8(0x1e) + le8(0x04)  // DT_FLAGS: DF_TEXTREL
     + le8(0x11) + le8(rel_offset)  // DT_REL
     + le8(0x12) + le8(rel_size)  // DT_RELSZ
     + le8(0x13) + le8(0x10)  // DT_RELENT: 16 bytes per entry
     + (if rel_count > 0 {
        le8(0x6ffffffa) + le8(rel_count)  // DT_RELCOUNT
    } else {
        Seq::<u8>::empty()
    }) + le8(0x06) + le8(dynsym_offset)  // DT_SYMTAB
     + le8(0x0b) + le8(0x18)  // DT_SYMENT: 24 bytes per symbol
     + le8(0x05) + le8(dynstr_offset)  // DT_STRTAB
     + le8(0x0a) + le8(dynstr_size)  // DT_STRSZ
     + le8(0x16) + le8(0x00)  // DT_TEXTREL
     + le8(0x00) + le8(0x00)  // DT_NULL
}

/// The dynamic-linking directory, cross-filled with its sibling
/// sections' offsets and sizes by the layout pass.
#[derive(Debug)]
pub struct DynamicSection {
    name_offset: u32,
    offset: u64,
    rel_offset: u64,
    rel_size: u64,
    rel_count: u64,
    dynsym_offset: u64,
    dynstr_offset: u64,
    dynstr_size: u64,
}

impl DynamicSection {
    pub fn new(name_offset: u32) -> (r: Self)
        ensures
            r.spec_name_offset() == name_offset,
            r.spec_offset() == 0,
            r.spec_rel_offset() == 0,
            r.spec_rel_size() == 0,
            r.spec_rel_count() == 0,
            r.spec_dynsym_offset() == 0,
            r.spec_dynstr_offset() == 0,
            r.spec_dynstr_size() == 0,
    {
        Self {
            name_offset,
            offset: 0,
            rel_offset: 0,
            rel_size: 0,
            rel_count: 0,
            dynsym_offset: 0,
            dynstr_offset: 0,
            dynstr_size: 0,
        }
    }

    pub closed spec fn spec_name_offset(&self) -> u32 {
        self.name_offset
    }

    pub closed spec fn spec_offset(&self) -> u64 {
        self.offset
    }

    pub closed spec fn spec_rel_offset(&self) -> u64 {
        self.rel_offset
    }

    pub closed spec fn spec_rel_size(&self) -> u64 {
        self.rel_size
    }

    pub closed spec fn spec_rel_count(&self) -> u64 {
        self.rel_count
    }

    pub closed spec fn spec_dynsym_offset(&self) -> u64 {
        self.dynsym_offset
    }

    pub closed spec fn spec_dynstr_offset(&self) -> u64 {
        self.dynstr_offset
    }

    pub closed spec fn spec_dynstr_size(&self) -> u64 {
        self.dynstr_size
    }

    /// The payload these fields encode to.
    pub open spec fn spec_payload(&self) -> Seq<u8> {
        spec_dynamic_bytes(
            self.spec_rel_offset(),
            self.spec_rel_size(),
            self.spec_rel_count(),
            self.spec_dynsym_offset(),
            self.spec_dynstr_offset(),
            self.spec_dynstr_size(),
        )
    }

    pub fn set_offset(&mut self, offset: u64)
        ensures
            final(self).spec_offset() == offset,
            final(self).spec_payload() == old(self).spec_payload(),
            final(self).spec_name_offset() == old(self).spec_name_offset(),
            final(self).spec_rel_count() == old(self).spec_rel_count(),
    {
        self.offset = offset;
    }

    pub fn set_rel_offset(&mut self, offset: u64)
        ensures
            final(self).spec_rel_offset() == offset,
            unchanged_but_rel_offset(*old(self), *final(self)),
    {
        self.rel_offset = offset;
    }

    pub fn set_rel_size(&mut self, size: u64)
        ensures
            final(self).spec_rel_size() == size,
            unchanged_but_rel_size(*old(self), *final(self)),
    {
        self.rel_size = size;
    }

    pub fn set_rel_count(&mut self, count: u64)
        ensures
            final(self).spec_rel_count() == count,
            unchanged_but_rel_count(*old(self), *final(self)),
    {
        self.rel_count = count;
    }

    pub fn set_dynsym_offset(&mut self, offset: u64)
        ensures
            final(self).spec_dynsym_offset() == offset,
            unchanged_but_dynsym_offset(*old(self), *final(self)),
    {
        self.dynsym_offset = offset;
    }

    pub fn set_dynstr_offset(&mut self, offset: u64)
        ensures
            final(self).spec_dynstr_offset() == offset,
            unchanged_but_dynstr_offset(*old(self), *final(self)),
    {
        self.dynstr_offset = offset;
    }

    pub fn set_dynstr_size(&mut self, size: u64)
        ensures
            final(self).spec_dynstr_size() == size,
            unchanged_but_dynstr_size(*old(self), *final(self)),
    {
        self.dynstr_size = size;
    }

    /// The payload bytes.
    pub fn payload(&self) -> (r: Vec<u8>)
        ensures
            r@ == self.spec_payload(),
            r@.len() == if self.spec_rel_count() > 0 {
                176int
            } else {
                160int
            },
    {
        let mut bytes: Vec<u8> = Vec::new();
        push_le64(&mut bytes, 0x1e);
        push_le64(&mut bytes, 0x04);
        push_le64(&mut bytes, 0x11);
        push_le64(&mut bytes, self.rel_offset);
        push_le64(&mut bytes, 0x12);
        push_le64(&mut bytes, self.rel_size);
        push_le64(&mut bytes, 0x13);
        push_le64(&mut bytes, 0x10);
        if self.rel_count > 0 {
            push_le64(&mut bytes, 0x6ffffffa);
            push_le64(&mut bytes, self.rel_count);
        }
        push_le64(&mut bytes, 0x06);
        push_le64(&mut bytes, self.dynsym_offset);
        push_le64(&mut bytes, 0x0b);
        push_le64(&mut bytes, 0x18);
        push_le64(&mut bytes, 0x05);
        push_le64(&mut bytes, self.dynstr_offset);
        push_le64(&mut bytes, 0x0a);
        push_le64(&mut bytes, self.dynstr_size);
        push_le64(&mut bytes, 0x16);
        push_le64(&mut bytes, 0x00);
        push_le64(&mut bytes, 0x00);
        push_le64(&mut bytes, 0x00);
        proof {
            assert(bytes@ =~= self.spec_payload());
        }
        bytes
    }

    /// The section size: 11 entries of 16 bytes with `DT_RELCOUNT`, 10
    /// without.
    pub fn section_size(&self) -> (r: u64)
        ensures
            r == self.spec_payload().len(),
    {
        if self.rel_count > 0 {
            176
        } else {
            160
        }
    }

    /// The `.dynamic` section header: allocated and writable, 8-byte
    /// aligned, 16-byte entries, linked to section 5.
    pub fn section_header_bytecode(&self) -> (r: Vec<u8>)
        ensures
            r@ == spec_section_header_bytes(
                SectionHeader {
                    sh_name: self.spec_name_offset(),
                    sh_type: SHT_DYNAMIC,
                    sh_flags: SHF_ALLOC | SHF_WRITE,
                    sh_addr: self.spec_offset(),
                    sh_offset: self.spec_offset(),
                    sh_size: self.spec_payload().len() as u64,
                    sh_link: 5,
                    sh_info: 0,
                    sh_addralign: 8,
                    sh_entsize: 16,
                },
            ),
    {
        SectionHeader::new(
            self.name_offset,
            SHT_DYNAMIC,
            SHF_ALLOC | SHF_WRITE,
            self.offset,
            self.offset,
            self.section_size(),
            5,
            0,
            8,
            16,
        ).bytecode()
    }
}

/// Field-preservation predicates for the `.dynamic` setters.
pub open spec fn unchanged_but_rel_offset(a: DynamicSection, b: DynamicSection) -> bool {
    &&& a.spec_name_offset() == b.spec_name_offset()
    &&& a.spec_offset() == b.spec_offset()
    &&& a.spec_rel_size() == b.spec_rel_size()
    &&& a.spec_rel_count() == b.spec_rel_count()
    &&& a.spec_dynsym_offset() == b.spec_dynsym_offset()
    &&& a.spec_dynstr_offset() == b.spec_dynstr_offset()
    &&& a.spec_dynstr_size() == b.spec_dynstr_size()
}

pub open spec fn unchanged_but_rel_size(a: DynamicSection, b: DynamicSection) -> bool {
    &&& a.spec_name_offset() == b.spec_name_offset()
    &&& a.spec_offset() == b.spec_offset()
    &&& a.spec_rel_offset() == b.spec_rel_offset()
    &&& a.spec_rel_count() == b.spec_rel_count()
    &&& a.spec_dynsym_offset() == b.spec_dynsym_offset()
    &&& a.spec_dynstr_offset() == b.spec_dynstr_offset()
    &&& a.spec_dynstr_size() == b.spec_dynstr_size()
}

pub open spec fn unchanged_but_rel_count(a: DynamicSection, b: DynamicSection) -> bool {
    &&& a.spec_name_offset() == b.spec_name_offset()
    &&& a.spec_offset() == b.spec_offset()
    &&& a.spec_rel_offset() == b.spec_rel_offset()
    &&& a.spec_rel_size() == b.spec_rel_size()
    &&& a.spec_dynsym_offset() == b.spec_dynsym_offset()
    &&& a.spec_dynstr_offset() == b.spec_dynstr_offset()
    &&& a.spec_dynstr_size() == b.spec_dynstr_size()
}

pub open spec fn unchanged_but_dynsym_offset(a: DynamicSection, b: DynamicSection) -> bool {
    &&& a.spec_name_offset() == b.spec_name_offset()
    &&& a.spec_offset() == b.spec_offset()
    &&& a.spec_rel_offset() == b.spec_rel_offset()
    &&& a.spec_rel_size() == b.spec_rel_size()
    &&& a.spec_rel_count() == b.spec_rel_count()
    &&& a.spec_dynstr_offset() == b.spec_dynstr_offset()
    &&& a.spec_dynstr_size() == b.spec_dynstr_size()
}

pub open spec fn unchanged_but_dynstr_offset(a: DynamicSection, b: DynamicSection) -> bool {
    &&& a.spec_name_offset() == b.spec_name_offset()
    &&& a.spec_offset() == b.spec_offset()
    &&& a.spec_rel_offset() == b.spec_rel_offset()
    &&& a.spec_rel_size() == b.spec_rel_size()
    &&& a.spec_rel_count() == b.spec_rel_count()
    &&& a.spec_dynsym_offset() == b.spec_dynsym_offset()
    &&& a.spec_dynstr_size() == b.spec_dynstr_size()
}

pub open spec fn unchanged_but_dynstr_size(a: DynamicSection, b: DynamicSection) -> bool {
    &&& a.spec_name_offset() == b.spec_name_offset()
    &&& a.spec_offset() == b.spec_offset()
    &&& a.spec_rel_offset() == b.spec_rel_offset()
    &&& a.spec_rel_size() == b.spec_rel_size()
    &&& a.spec_rel_count() == b.spec_rel_count()
    &&& a.spec_dynsym_offset() == b.spec_dynsym_offset()
    &&& a.spec_dynstr_offset() == b.spec_dynstr_offset()
}

impl Section for DynamicSection {
    fn name(&self) -> &'static str {
        ".dynamic"
    }

    fn bytecode(&self) -> Vec<u8> {
        self.payload()
    }

    fn size(&self) -> u64 {
        self.section_size()
    }
}

// ---------------------------------------------------------------------------
// .dynsym
// ---------------------------------------------------------------------------

/// The `.dynsym` payload: the 24-byte encodings of the symbols, in
/// order.
pub open spec fn spec_dynsym_payload(symbols: Seq<DynamicSymbol>) -> Seq<u8>
    decreases symbols.len(),
{
    if symbols.len() == 0 {
        Seq::empty()
    } else {
        spec_dynsym_payload(symbols.drop_last()) + spec_dynsym_bytes(symbols.last())
    }
}

/// Every symbol entry is 24 bytes.
pub proof fn lemma_dynsym_payload_len(symbols: Seq<DynamicSymbol>)
    ensures
        spec_dynsym_payload(symbols).len() == 24 * symbols.len(),
    decreases symbols.len(),
{
    if symbols.len() > 0 {
        lemma_dynsym_payload_len(symbols.drop_last());
    }
}

/// The dynamic symbol table.
#[derive(Debug)]
pub struct DynSymSection {
    name_offset: u32,
    offset: u64,
    symbols: Vec<DynamicSymbol>,
}

impl DynSymSection {
    pub fn new(name_offset: u32, symbols: Vec<DynamicSymbol>) -> (r: Self)
        ensures
            r.spec_symbols() == symbols@,
            r.spec_name_offset() == name_offset,
            r.spec_offset() == 0,
    {
        Self { name_offset, offset: 0, symbols }
    }

    pub closed spec fn spec_symbols(&self) -> Seq<DynamicSymbol> {
        self.symbols@
    }

    pub closed spec fn spec_name_offset(&self) -> u32 {
        self.name_offset
    }

    pub closed spec fn spec_offset(&self) -> u64 {
        self.offset
    }

    pub fn set_offset(&mut self, offset: u64)
        ensures
            final(self).spec_offset() == offset,
            final(self).spec_symbols() == old(self).spec_symbols(),
            final(self).spec_name_offset() == old(self).spec_name_offset(),
    {
        self.offset = offset;
    }

    /// The payload bytes.
    pub fn payload(&self) -> (r: Vec<u8>)
        ensures
            r@ == spec_dynsym_payload(self.spec_symbols()),
    {
        let mut bytes: Vec<u8> = Vec::new();
        let mut i: usize = 0;
        proof {
            assert(self.symbols@.take(0) =~= Seq::<DynamicSymbol>::empty());
            assert(bytes@ =~= spec_dynsym_payload(self.symbols@.take(0)));
        }
        while i < self.symbols.len()
            invariant
                0 <= i <= self.symbols@.len(),
                bytes@ == spec_dynsym_payload(self.symbols@.take(i as int)),
            decreases self.symbols@.len() - i,
        {
            proof {
                assert(self.symbols@.take(i + 1).drop_last() =~= self.symbols@.take(i as int));
                assert(self.symbols@.take(i + 1).last() == self.symbols@[i as int]);
            }
            let entry = self.symbols[i].bytecode();
            bytes.extend_from_slice(entry.as_slice());
            proof {
                assert(bytes@ =~= spec_dynsym_payload(self.symbols@.take(i + 1)));
            }
            i += 1;
        }
        proof {
            assert(self.symbols@.take(self.symbols@.len() as int) =~= self.symbols@);
        }
        bytes
    }

    /// The section size: 24 bytes per symbol.
    pub fn section_size(&self) -> (r: u64)
        ensures
            r == spec_dynsym_payload(self.spec_symbols()).len(),
    {
        let bytes = self.payload();
        bytes.len() as u64
    }

    /// The `.dynsym` section header: allocated, 8-byte aligned, 24-byte
    /// entries, linked to section 5, first global symbol at index 1.
    pub fn section_header_bytecode(&self) -> (r: Vec<u8>)
        ensures
            r@ == spec_section_header_bytes(
                SectionHeader {
                    sh_name: self.spec_name_offset(),
                    sh_type: SHT_DYNSYM,
                    sh_flags: SHF_ALLOC,
                    sh_addr: self.spec_offset(),
                    sh_offset: self.spec_offset(),
                    sh_size: spec_dynsym_payload(self.spec_symbols()).len() as u64,
                    sh_link: 5,
                    sh_info: 1,
                    sh_addralign: 8,
                    sh_entsize: 24,
                },
            ),
    {
        SectionHeader::new(
            self.name_offset,
            SHT_DYNSYM,
            SHF_ALLOC,
            self.offset,
            self.offset,
            self.section_size(),
            5,
            1,
            8,
            24,
        ).bytecode()
    }
}

impl Section for DynSymSection {
    fn name(&self) -> &'static str {
        ".dynsym"
    }

    fn bytecode(&self) -> Vec<u8> {
        self.payload()
    }

    fn size(&self) -> u64 {
        self.section_size()
    }
}

// ---------------------------------------------------------------------------
// .rel.dyn
// ---------------------------------------------------------------------------

/// The `.rel.dyn` payload: the encodings of the relocation records, in
/// order.
pub open spec fn spec_reldyn_payload(entries: Seq<RelDyn>) -> Seq<u8>
    decreases entries.len(),
{
    if entries.len() == 0 {
        Seq::empty()
    } else {
        spec_reldyn_payload(entries.drop_last()) + spec_reldyn_bytes(entries.last())
    }
}

/// A record whose type is one the assembler emits takes 16 bytes, so a
/// table of such records is 16 bytes per entry.
pub proof fn lemma_reldyn_payload_len(entries: Seq<RelDyn>)
    requires
        forall|j: int|
            0 <= j < entries.len() ==> (#[trigger] entries[j]).rel_type == 0x08 || entries[j].rel_type
                == 0x0a,
    ensures
        spec_reldyn_payload(entries).len() == 16 * entries.len(),
    decreases entries.len(),
{
    if entries.len() > 0 {
        assert(forall|j: int|
            0 <= j < entries.len() - 1 ==> entries.drop_last()[j] == (#[trigger] entries[j]));
        lemma_reldyn_payload_len(entries.drop_last());
        assert(entries.last().rel_type == 0x08 || entries.last().rel_type == 0x0a);
    }
}

/// The relocation table.
#[derive(Debug)]
pub struct RelDynSection {
    name_offset: u32,
    offset: u64,
    entries: Vec<RelDyn>,
}

impl RelDynSection {
    pub fn new(name_offset: u32, entries: Vec<RelDyn>) -> (r: Self)
        ensures
            r.spec_entries() == entries@,
            r.spec_name_offset() == name_offset,
            r.spec_offset() == 0,
    {
        Self { name_offset, offset: 0, entries }
    }

    pub closed spec fn spec_entries(&self) -> Seq<RelDyn> {
        self.entries@
    }

    pub closed spec fn spec_name_offset(&self) -> u32 {
        self.name_offset
    }

    pub closed spec fn spec_offset(&self) -> u64 {
        self.offset
    }

    pub fn set_offset(&mut self, offset: u64)
        ensures
            final(self).spec_offset() == offset,
            final(self).spec_entries() == old(self).spec_entries(),
            final(self).spec_name_offset() == old(self).spec_name_offset(),
    {
        self.offset = offset;
    }

    /// The payload bytes.
    pub fn payload(&self) -> (r: Vec<u8>)
        ensures
            r@ == spec_reldyn_payload(self.spec_entries()),
    {
        let mut bytes: Vec<u8> = Vec::new();
        let mut i: usize = 0;
        proof {
            assert(self.entries@.take(0) =~= Seq::<RelDyn>::empty());
            assert(bytes@ =~= spec_reldyn_payload(self.entries@.take(0)));
        }
        while i < self.entries.len()
            invariant
                0 <= i <= self.entries@.len(),
                bytes@ == spec_reldyn_payload(self.entries@.take(i as int)),
            decreases self.entries@.len() - i,
        {
            proof {
                assert(self.entries@.take(i + 1).drop_last() =~= self.entries@.take(i as int));
                assert(self.entries@.take(i + 1).last() == self.entries@[i as int]);
            }
            let entry = self.entries[i].bytecode();
            bytes.extend_from_slice(entry.as_slice());
            proof {
                assert(bytes@ =~= spec_reldyn_payload(self.entries@.take(i + 1)));
            }
            i += 1;
        }
        proof {
            assert(self.entries@.take(self.entries@.len() as int) =~= self.entries@);
        }
        bytes
    }

    /// The section size: the payload's length.
    pub fn size(&self) -> (r: u64)
        ensures
            r == spec_reldyn_payload(self.spec_entries()).len(),
    {
        let bytes = self.payload();
        bytes.len() as u64
    }

    /// The `.rel.dyn` section header: an allocated relocation table,
    /// 8-byte aligned, 16-byte entries, linked to section 4.
    pub fn section_header_bytecode(&self) -> (r: Vec<u8>)
        ensures
            r@ == spec_section_header_bytes(
                SectionHeader {
                    sh_name: self.spec_name_offset(),
                    sh_type: SHT_REL,
                    sh_flags: SHF_ALLOC,
                    sh_addr: self.spec_offset(),
                    sh_offset: self.spec_offset(),
                    sh_size: spec_reldyn_payload(self.spec_entries()).len() as u64,
                    sh_link: 4,
                    sh_info: 0,
                    sh_addralign: 8,
                    sh_entsize: 16,
                },
            ),
    {
        SectionHeader::new(
            self.name_offset,
            SHT_REL,
            SHF_ALLOC,
            self.offset,
            self.offset,
            self.size(),
            4,
            0,
            8,
            16,
        ).bytecode()
    }
}

impl Section for RelDynSection {
    fn name(&self) -> &'static str {
        ".rel.dyn"
    }

    fn bytecode(&self) -> Vec<u8> {
        self.payload()
    }

    fn size(&self) -> u64 {
        RelDynSection::size(self)
    }
}

// ---------------------------------------------------------------------------
// Dispatch over the section kinds
// ---------------------------------------------------------------------------

/// Any of the sections a program can hold.
#[derive(Debug)]
pub enum SectionType {
    Code(CodeSection),
    Data(DataSection),
    ShStrTab(ShStrTabSection),
    Dynamic(DynamicSection),
    DynStr(DynStrSection),
    DynSym(DynSymSection),
    Default(NullSection),
    RelDyn(RelDynSection),
}

impl SectionType {
    /// The payload each kind of section emits.
    pub open spec fn spec_payload(&self) -> Seq<u8> {
        match self {
            SectionType::Code(cs) => spec_text_bytes(cs.spec_nodes()),
            SectionType::Data(ds) => spec_data_bytes(ds.spec_nodes()),
            SectionType::ShStrTab(ss) => spec_shstrtab_bytes(ss.spec_names()),
            SectionType::Dynamic(ds) => ds.spec_payload(),
            SectionType::DynStr(ds) => spec_dynstr_bytes(ds.spec_names()),
            SectionType::DynSym(ds) => spec_dynsym_payload(ds.spec_symbols()),
            SectionType::Default(_) => Seq::empty(),
            SectionType::RelDyn(ds) => spec_reldyn_payload(ds.spec_entries()),
        }
    }

    /// The section's name.
    pub fn name(&self) -> (r: &'static str)
        ensures
            match self {
                SectionType::Code(_) => r@ == ".text"@,
                SectionType::Data(_) => r@ == ".rodata"@,
                SectionType::ShStrTab(_) => r@ == ".shstrtab"@,
                SectionType::Dynamic(_) => r@ == ".dynamic"@,
                SectionType::DynStr(_) => r@ == ".dynstr"@,
                SectionType::DynSym(_) => r@ == ".dynsym"@,
                SectionType::Default(_) => r@ == ""@,
                SectionType::RelDyn(_) => r@ == ".rel.dyn"@,
            },
    {
        match self {
            SectionType::Code(_) => ".text",
            SectionType::Data(_) => ".rodata",
            SectionType::ShStrTab(_) => ".shstrtab",
            SectionType::Dynamic(_) => ".dynamic",
            SectionType::DynStr(_) => ".dynstr",
            SectionType::DynSym(_) => ".dynsym",
            SectionType::Default(_) => "",
            SectionType::RelDyn(_) => ".rel.dyn",
        }
    }

    /// The payload bytes.
    pub fn bytecode(&self) -> (r: Vec<u8>)
        ensures
            r@ == self.spec_payload(),
    {
        match self {
            SectionType::Code(cs) => cs.payload(),
            SectionType::Data(ds) => ds.payload(),
            SectionType::ShStrTab(ss) => ss.payload(),
            SectionType::Dynamic(ds) => ds.payload(),
            SectionType::DynStr(ds) => ds.payload(),
            SectionType::DynSym(ds) => ds.payload(),
            SectionType::Default(_) => Vec::new(),
            SectionType::RelDyn(ds) => ds.payload(),
        }
    }

    /// The size of every section but `.text` equals its payload length;
    /// `.text` carries the size the parser accumulated.
    pub fn size(&self) -> (r: u64)
        ensures
            match self {
                SectionType::Code(cs) => r == cs.spec_size(),
                SectionType::Data(_) => r == self.spec_payload().len(),
                SectionType::ShStrTab(_) => r == self.spec_payload().len(),
                SectionType::Dynamic(_) => r == self.spec_payload().len(),
                SectionType::DynStr(_) => r == self.spec_payload().len(),
                SectionType::DynSym(_) => r == self.spec_payload().len(),
                SectionType::Default(_) => r == 0,
                SectionType::RelDyn(_) => r == self.spec_payload().len(),
            },
    {
        match self {
            SectionType::Code(cs) => cs.get_size(),
            SectionType::Data(ds) => {
                let bytes = ds.payload();
                bytes.len() as u64
            }
            SectionType::ShStrTab(ss) => ss.section_size(),
            SectionType::Dynamic(ds) => ds.section_size(),
            SectionType::DynStr(ds) => ds.section_size(),
            SectionType::DynSym(ds) => ds.section_size(),
            SectionType::Default(_) => 0,
            SectionType::RelDyn(ds) => ds.size(),
        }
    }

    /// The section header each kind of section writes.
    pub open spec fn spec_section_header(&self) -> SectionHeader {
        match self {
            SectionType::Code(cs) => SectionHeader {
                sh_name: 1,
                sh_type: SHT_PROGBITS,
                sh_flags: SHF_ALLOC | SHF_EXECINSTR,
                sh_addr: cs.spec_offset(),
                sh_offset: cs.spec_offset(),
                sh_size: cs.spec_size(),
                sh_link: 0,
                sh_info: 0,
                sh_addralign: 4,
                sh_entsize: 0,
            },
            SectionType::Data(ds) => SectionHeader {
                sh_name: 7,
                sh_type: SHT_PROGBITS,
                sh_flags: SHF_ALLOC,
                sh_addr: ds.spec_offset(),
                sh_offset: ds.spec_offset(),
                sh_size: ds.spec_size(),
                sh_link: 0,
                sh_info: 0,
                sh_addralign: 1,
                sh_entsize: 0,
            },
            SectionType::ShStrTab(ss) => SectionHeader {
                sh_name: ss.spec_name_offset(),
                sh_type: SHT_STRTAB,
                sh_flags: 0,
                sh_addr: 0,
                sh_offset: ss.spec_offset(),
                sh_size: spec_shstrtab_bytes(ss.spec_names()).len() as u64,
                sh_link: 0,
                sh_info: 0,
                sh_addralign: 1,
                sh_entsize: 0,
            },
            SectionType::Dynamic(ds) => SectionHeader {
                sh_name: ds.spec_name_offset(),
                sh_type: SHT_DYNAMIC,
                sh_flags: SHF_ALLOC | SHF_WRITE,
                sh_addr: ds.spec_offset(),
                sh_offset: ds.spec_offset(),
                sh_size: ds.spec_payload().len() as u64,
                sh_link: 5,
                sh_info: 0,
                sh_addralign: 8,
                sh_entsize: 16,
            },
            SectionType::DynStr(ds) => SectionHeader {
                sh_name: ds.spec_name_offset(),
                sh_type: SHT_STRTAB,
                sh_flags: SHF_ALLOC,
                sh_addr: ds.spec_offset(),
                sh_offset: ds.spec_offset(),
                sh_size: spec_dynstr_bytes(ds.spec_names()).len() as u64,
                sh_link: 0,
                sh_info: 0,
                sh_addralign: 1,
                sh_entsize: 0,
            },
            SectionType::DynSym(ds) => SectionHeader {
                sh_name: ds.spec_name_offset(),
                sh_type: SHT_DYNSYM,
                sh_flags: SHF_ALLOC,
                sh_addr: ds.spec_offset(),
                sh_offset: ds.spec_offset(),
                sh_size: spec_dynsym_payload(ds.spec_symbols()).len() as u64,
                sh_link: 5,
                sh_info: 1,
                sh_addralign: 8,
                sh_entsize: 24,
            },
            SectionType::Default(_) => SectionHeader {
                sh_name: 0,
                sh_type: SHT_NULL,
                sh_flags: 0,
                sh_addr: 0,
                sh_offset: 0,
                sh_size: 0,
                sh_link: 0,
                sh_info: 0,
                sh_addralign: 0,
                sh_entsize: 0,
            },
            SectionType::RelDyn(ds) => SectionHeader {
                sh_name: ds.spec_name_offset(),
                sh_type: SHT_REL,
                sh_flags: SHF_ALLOC,
                sh_addr: ds.spec_offset(),
                sh_offset: ds.spec_offset(),
                sh_size: spec_reldyn_payload(ds.spec_entries()).len() as u64,
                sh_link: 4,
                sh_info: 0,
                sh_addralign: 8,
                sh_entsize: 16,
            },
        }
    }

    /// The section-header record, against the current offset.
    #[verifier::rlimit(100)]
    #[verifier::spinoff_prover]
    pub fn section_header_bytecode(&self) -> (r: Vec<u8>)
        ensures
            r@ == spec_section_header_bytes(self.spec_section_header()),
            r@.len() == 64,
    {
        match self {
            SectionType::Code(cs) => cs.section_header_bytecode(),
            SectionType::Data(ds) => ds.section_header_bytecode(),
            SectionType::ShStrTab(ss) => ss.section_header_bytecode(),
            SectionType::Dynamic(ds) => ds.section_header_bytecode(),
            SectionType::DynStr(ds) => ds.section_header_bytecode(),
            SectionType::DynSym(ds) => ds.section_header_bytecode(),
            SectionType::Default(ns) => ns.section_header_bytecode(),
            SectionType::RelDyn(ds) => ds.section_header_bytecode(),
        }
    }

    /// Assign the file offset. The null section has none.
    pub fn set_offset(&mut self, offset: u64)
        ensures
            (*final(self)) matches SectionType::Default(_) ==> final(self).spec_offset() == old(
                self,
            ).spec_offset(),
            !((*final(self)) matches SectionType::Default(_)) ==> final(self).spec_offset()
                == offset,
            final(self).spec_payload() == old(self).spec_payload(),
            (*final(self)) matches SectionType::Code(_) <==> (*old(self)) matches SectionType::Code(
                _,
            ),
            (*final(self)) matches SectionType::Data(_) <==> (*old(self)) matches SectionType::Data(
                _,
            ),
    {
        match self {
            SectionType::Code(cs) => cs.set_offset(offset),
            SectionType::Data(ds) => ds.set_offset(offset),
            SectionType::ShStrTab(ss) => ss.set_offset(offset),
            SectionType::Dynamic(ds) => ds.set_offset(offset),
            SectionType::DynStr(ds) => ds.set_offset(offset),
            SectionType::DynSym(ds) => ds.set_offset(offset),
            SectionType::RelDyn(ds) => ds.set_offset(offset),
            SectionType::Default(_) => {}
        }
    }

    /// The assigned file offset.
    pub open spec fn spec_offset(&self) -> u64 {
        match self {
            SectionType::Code(cs) => cs.spec_offset(),
            SectionType::Data(ds) => ds.spec_offset(),
            SectionType::ShStrTab(ss) => ss.spec_offset(),
            SectionType::Dynamic(ds) => ds.spec_offset(),
            SectionType::DynStr(ds) => ds.spec_offset(),
            SectionType::DynSym(ds) => ds.spec_offset(),
            SectionType::Default(ns) => ns.spec_offset(),
            SectionType::RelDyn(ds) => ds.spec_offset(),
        }
    }

    pub fn offset(&self) -> (r: u64)
        ensures
            r == self.spec_offset(),
    {
        match self {
            SectionType::Code(cs) => cs.spec_offset_exec(),
            SectionType::Data(ds) => ds.spec_offset_exec(),
            SectionType::ShStrTab(ss) => ss.spec_offset_exec(),
            SectionType::Dynamic(ds) => ds.spec_offset_exec(),
            SectionType::DynStr(ds) => ds.spec_offset_exec(),
            SectionType::DynSym(ds) => ds.spec_offset_exec(),
            SectionType::Default(ns) => ns.spec_offset_exec(),
            SectionType::RelDyn(ds) => ds.spec_offset_exec(),
        }
    }
}

impl CodeSection {
    pub fn spec_offset_exec(&self) -> (r: u64)
        ensures
            r == self.spec_offset(),
    {
        self.offset
    }
}

impl DataSection {
    pub fn spec_offset_exec(&self) -> (r: u64)
        ensures
            r == self.spec_offset(),
    {
        self.offset
    }
}

impl ShStrTabSection {
    pub fn spec_offset_exec(&self) -> (r: u64)
        ensures
            r == self.spec_offset(),
    {
        self.offset
    }
}

impl DynamicSection {
    pub fn spec_offset_exec(&self) -> (r: u64)
        ensures
            r == self.spec_offset(),
    {
        self.offset
    }
}

impl DynStrSection {
    pub fn spec_offset_exec(&self) -> (r: u64)
        ensures
            r == self.spec_offset(),
    {
        self.offset
    }
}

impl DynSymSection {
    pub fn spec_offset_exec(&self) -> (r: u64)
        ensures
            r == self.spec_offset(),
    {
        self.offset
    }
}

impl NullSection {
    pub fn spec_offset_exec(&self) -> (r: u64)
        ensures
            r == self.spec_offset(),
    {
        self.offset
    }
}

impl RelDynSection {
    pub fn spec_offset_exec(&self) -> (r: u64)
        ensures
            r == self.spec_offset(),
    {
        self.offset
    }
}

/// The byte lengths of the section names this assembler writes.
pub proof fn lemma_section_name_lens()
    ensures
        ".text".spec_bytes().len() == 5,
        ".rodata".spec_bytes().len() == 7,
        ".dynamic".spec_bytes().len() == 8,
        ".dynsym".spec_bytes().len() == 7,
        ".dynstr".spec_bytes().len() == 7,
        ".rel.dyn".spec_bytes().len() == 8,
        ".shstrtab".spec_bytes().len() == 9,
{
    reveal_strlit(".text");
    reveal_strlit(".rodata");
    reveal_strlit(".dynamic");
    reveal_strlit(".dynsym");
    reveal_strlit(".dynstr");
    reveal_strlit(".rel.dyn");
    reveal_strlit(".shstrtab");
    assert(vstd::utf8::is_ascii_chars(".text"@));
    assert(vstd::utf8::is_ascii_chars(".rodata"@));
    assert(vstd::utf8::is_ascii_chars(".dynamic"@));
    assert(vstd::utf8::is_ascii_chars(".dynsym"@));
    assert(vstd::utf8::is_ascii_chars(".dynstr"@));
    assert(vstd::utf8::is_ascii_chars(".rel.dyn"@));
    assert(vstd::utf8::is_ascii_chars(".shstrtab"@));
    vstd::utf8::is_ascii_chars_encode_utf8(".text"@);
    vstd::utf8::is_ascii_chars_encode_utf8(".rodata"@);
    vstd::utf8::is_ascii_chars_encode_utf8(".dynamic"@);
    vstd::utf8::is_ascii_chars_encode_utf8(".dynsym"@);
    vstd::utf8::is_ascii_chars_encode_utf8(".dynstr"@);
    vstd::utf8::is_ascii_chars_encode_utf8(".rel.dyn"@);
    vstd::utf8::is_ascii_chars_encode_utf8(".shstrtab"@);
}

/// The section-name content grows by at most each name plus its
/// terminator.
pub proof fn lemma_strtab_content_len_bound(names: Seq<Seq<u8>>, per: int)
    requires
        forall|j: int| 0 <= j < names.len() ==> (#[trigger] names[j]).len() <= per,
        per >= 0,
    ensures
        spec_strtab_content(names).len() <= 1 + names.len() * (per + 1),
    decreases names.len(),
{
    if names.len() > 0 {
        assert(forall|j: int|
            0 <= j < names.drop_last().len() ==> names.drop_last()[j] == (#[trigger] names[j]));
        lemma_strtab_content_len_bound(names.drop_last(), per);
        assert(names.last().len() <= per);
        assert((names.len() - 1) * (per + 1) + (per + 1) == names.len() * (per + 1))
            by (nonlinear_arith);
    }
}

} // verus!
