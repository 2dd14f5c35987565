//! Dynamic symbols and relocation records.
//!
//! Both maps keep entries in first-insertion order, so the tables they
//! feed — `.dynsym`, `.dynstr`, `.rel.dyn` — come out the same for the
//! same source every time.

use vstd::prelude::*;
use crate::bytesutil::{bytes_eq, le_byte64, le_byte64_x};

verus! {

/// One `.dynsym` entry: 24 bytes in the ELF64 symbol layout.
#[derive(Debug, Clone, Copy, PartialEq, Eq, Structural)]
pub struct DynamicSymbol {
    pub name: u32,
    pub info: u8,
    pub other: u8,
    pub shndx: u16,
    pub value: u64,
    pub size: u64,
}

/// The 24-byte ELF64 encoding of a dynamic symbol: name index (4 bytes
/// little-endian), info, other, section index (2 bytes), value (8 bytes),
/// size (8 bytes).
pub open spec fn spec_dynsym_bytes(s: DynamicSymbol) -> Seq<u8> {
    seq![
        le_byte64(s.name as u64, 0),
        le_byte64(s.name as u64, 1),
        le_byte64(s.name as u64, 2),
        le_byte64(s.name as u64, 3),
        s.info,
        s.other,
        le_byte64(s.shndx as u64, 0),
        le_byte64(s.shndx as u64, 1),
        le_byte64(s.value, 0),
        le_byte64(s.value, 1),
        le_byte64(s.value, 2),
        le_byte64(s.value, 3),
        le_byte64(s.value, 4),
        le_byte64(s.value, 5),
        le_byte64(s.value, 6),
        le_byte64(s.value, 7),
        le_byte64(s.size, 0),
        le_byte64(s.size, 1),
        le_byte64(s.size, 2),
        le_byte64(s.size, 3),
        le_byte64(s.size, 4),
        le_byte64(s.size, 5),
        le_byte64(s.size, 6),
        le_byte64(s.size, 7),
    ]
}

/// Append the 8 little-endian bytes of `u` to `out`.
pub fn push_le64(out: &mut Vec<u8>, u: u64)
    ensures
        final(out)@ == old(out)@ + seq![
            le_byte64(u, 0),
            le_byte64(u, 1),
            le_byte64(u, 2),
            le_byte64(u, 3),
            le_byte64(u, 4),
            le_byte64(u, 5),
            le_byte64(u, 6),
            le_byte64(u, 7),
        ],
{
    out.push(le_byte64_x(u, 0));
    out.push(le_byte64_x(u, 1));
    out.push(le_byte64_x(u, 2));
    out.push(le_byte64_x(u, 3));
    out.push(le_byte64_x(u, 4));
    out.push(le_byte64_x(u, 5));
    out.push(le_byte64_x(u, 6));
    out.push(le_byte64_x(u, 7));
    proof {
        assert(out@ =~= old(out)@ + seq![
            le_byte64(u, 0),
            le_byte64(u, 1),
            le_byte64(u, 2),
            le_byte64(u, 3),
            le_byte64(u, 4),
            le_byte64(u, 5),
            le_byte64(u, 6),
            le_byte64(u, 7),
        ]);
    }
}

/// Append the 4 little-endian bytes of `u` to `out`.
pub fn push_le32(out: &mut Vec<u8>, u: u32)
    ensures
        final(out)@ == old(out)@ + seq![
            le_byte64(u as u64, 0),
            le_byte64(u as u64, 1),
            le_byte64(u as u64, 2),
            le_byte64(u as u64, 3),
        ],
{
    let w: u64 = u as u64;
    out.push(le_byte64_x(w, 0));
    out.push(le_byte64_x(w, 1));
    out.push(le_byte64_x(w, 2));
    out.push(le_byte64_x(w, 3));
    proof {
        assert(out@ =~= old(out)@ + seq![
            le_byte64(w, 0),
            le_byte64(w, 1),
            le_byte64(w, 2),
            le_byte64(w, 3),
        ]);
    }
}

/// Append the 2 little-endian bytes of `u` to `out`.
pub fn push_le16(out: &mut Vec<u8>, u: u16)
    ensures
        final(out)@ == old(out)@ + seq![le_byte64(u as u64, 0), le_byte64(u as u64, 1)],
{
    let w: u64 = u as u64;
    out.push(le_byte64_x(w, 0));
    out.push(le_byte64_x(w, 1));
    proof {
        assert(out@ =~= old(out)@ + seq![le_byte64(w, 0), le_byte64(w, 1)]);
    }
}

impl DynamicSymbol {
    pub fn new(name: u32, info: u8, other: u8, shndx: u16, value: u64, size: u64) -> (r: Self)
        ensures
            r == (DynamicSymbol { name, info, other, shndx, value, size }),
    {
        Self { name, info, other, shndx, value, size }
    }

    pub fn bytecode(&self) -> (r: Vec<u8>)
        ensures
            r@ == spec_dynsym_bytes(*self),
            r@.len() == 24,
    {
        let mut bytes: Vec<u8> = Vec::new();
        push_le32(&mut bytes, self.name);
        bytes.push(self.info);
        bytes.push(self.other);
        push_le16(&mut bytes, self.shndx);
        push_le64(&mut bytes, self.value);
        push_le64(&mut bytes, self.size);
        proof {
            assert(bytes@ =~= spec_dynsym_bytes(*self));
        }
        bytes
    }

    pub fn get_name(&self) -> (r: u32)
        ensures
            r == self.name,
    {
        self.name
    }
}

/// What a dynamic symbol stands for: the program entry, or a syscall the
/// program calls.
#[derive(Debug, Clone, Copy, PartialEq, Eq, Structural)]
pub enum SymbolKind {
    EntryPoint,
    CallTarget,
}

/// Dynamic symbols by name, each with the occurrences recorded for it,
/// in first-insertion order.
#[derive(Debug)]
pub struct DynamicSymbolMap {
    symbols: Vec<(Vec<u8>, Vec<(SymbolKind, u64)>)>,
}

/// The mathematical content of the map: a sequence of
/// (name, occurrences) groups in first-insertion order.
spec fn sym_map_view(m: DynamicSymbolMap) -> Seq<(Seq<u8>, Seq<(SymbolKind, u64)>)> {
    m.symbols@.map_values(|e: (Vec<u8>, Vec<(SymbolKind, u64)>)| (e.0@, e.1@))
}

impl View for DynamicSymbolMap {
    type V = Seq<(Seq<u8>, Seq<(SymbolKind, u64)>)>;

    closed spec fn view(&self) -> Seq<(Seq<u8>, Seq<(SymbolKind, u64)>)> {
        sym_map_view(*self)
    }
}

/// The first group holding `name`, or `-1`.
pub open spec fn find_name(sv: Seq<(Seq<u8>, Seq<(SymbolKind, u64)>)>, name: Seq<u8>) -> int
    decreases sv.len(),
{
    if sv.len() == 0 {
        -1
    } else if sv[0].0 == name {
        0
    } else {
        let r = find_name(sv.skip(1), name);
        if r < 0 {
            -1
        } else {
            r + 1
        }
    }
}

pub proof fn lemma_find_name_props(sv: Seq<(Seq<u8>, Seq<(SymbolKind, u64)>)>, name: Seq<u8>)
    ensures
        find_name(sv, name) == -1 ==> forall|j: int|
            0 <= j < sv.len() ==> (#[trigger] sv[j]).0 != name,
        find_name(sv, name) != -1 ==> {
            let r = find_name(sv, name);
            &&& 0 <= r < sv.len()
            &&& sv[r].0 == name
            &&& forall|j: int| 0 <= j < r ==> (#[trigger] sv[j]).0 != name
        },
    decreases sv.len(),
{
    if sv.len() > 0 && sv[0].0 != name {
        lemma_find_name_props(sv.skip(1), name);
        let rs = find_name(sv.skip(1), name);
        if rs < 0 {
            assert forall|j: int| 0 <= j < sv.len() implies (#[trigger] sv[j]).0 != name by {
                if j > 0 {
                    assert(sv.skip(1)[j - 1] == sv[j]);
                }
            }
        } else {
            assert(sv.skip(1)[rs] == sv[rs + 1]);
            assert forall|j: int| 0 <= j < rs + 1 implies (#[trigger] sv[j]).0 != name by {
                if j > 0 {
                    assert(sv.skip(1)[j - 1] == sv[j]);
                }
            }
        }
    }
}

/// Whether some occurrence in the group has the given kind.
pub open spec fn has_kind(pairs: Seq<(SymbolKind, u64)>, kind: SymbolKind) -> bool {
    exists|j: int| 0 <= j < pairs.len() && (#[trigger] pairs[j]).0 == kind
}

/// The first occurrence of the given kind, or `-1`.
pub open spec fn find_kind(pairs: Seq<(SymbolKind, u64)>, kind: SymbolKind) -> int
    decreases pairs.len(),
{
    if pairs.len() == 0 {
        -1
    } else if pairs[0].0 == kind {
        0
    } else {
        let r = find_kind(pairs.skip(1), kind);
        if r < 0 {
            -1
        } else {
            r + 1
        }
    }
}

pub proof fn lemma_find_kind_props(pairs: Seq<(SymbolKind, u64)>, kind: SymbolKind)
    ensures
        find_kind(pairs, kind) == -1 ==> !has_kind(pairs, kind),
        find_kind(pairs, kind) != -1 ==> {
            let r = find_kind(pairs, kind);
            &&& 0 <= r < pairs.len()
            &&& pairs[r].0 == kind
            &&& forall|j: int| 0 <= j < r ==> (#[trigger] pairs[j]).0 != kind
        },
    decreases pairs.len(),
{
    if pairs.len() > 0 && pairs[0].0 != kind {
        lemma_find_kind_props(pairs.skip(1), kind);
        let rs = find_kind(pairs.skip(1), kind);
        if rs < 0 {
            if has_kind(pairs, kind) {
                let j = choose|j: int|
                    0 <= j < pairs.len() && (#[trigger] pairs[j]).0 == kind;
                assert(j > 0);
                assert(pairs.skip(1)[j - 1] == pairs[j]);
                assert(has_kind(pairs.skip(1), kind));
            }
        } else {
            assert(pairs.skip(1)[rs] == pairs[rs + 1]);
            assert forall|j: int| 0 <= j < rs + 1 implies (#[trigger] pairs[j]).0 != kind by {
                if j > 0 {
                    assert(pairs.skip(1)[j - 1] == pairs[j]);
                }
            }
        }
    }
}

/// The names that have an occurrence of `kind`, in map order, each with
/// the offset of its first such occurrence.
pub open spec fn syms_of_kind(
    sv: Seq<(Seq<u8>, Seq<(SymbolKind, u64)>)>,
    kind: SymbolKind,
) -> Seq<(Seq<u8>, u64)>
    decreases sv.len(),
{
    if sv.len() == 0 {
        Seq::empty()
    } else {
        let init = syms_of_kind(sv.drop_last(), kind);
        let last = sv.last();
        if has_kind(last.1, kind) {
            init + seq![(last.0, last.1[find_kind(last.1, kind)].1)]
        } else {
            init
        }
    }
}

impl DynamicSymbolMap {
    pub fn new() -> (r: Self)
        ensures
            r@ == Seq::<(Seq<u8>, Seq<(SymbolKind, u64)>)>::empty(),
    {
        let r = Self { symbols: Vec::new() };
        proof {
            assert(r@ =~= Seq::<(Seq<u8>, Seq<(SymbolKind, u64)>)>::empty());
        }
        r
    }

    /// A by-value copy of the whole map.
    pub fn copy(&self) -> (r: Self)
        ensures
            r@ == self@,
    {
        let mut symbols: Vec<(Vec<u8>, Vec<(SymbolKind, u64)>)> = Vec::new();
        let mut i: usize = 0;
        while i < self.symbols.len()
            invariant
                0 <= i <= self.symbols@.len(),
                symbols@.len() == i,
                forall|j: int|
                    0 <= j < i ==> (#[trigger] symbols@[j]).0@ == self.symbols@[j].0@
                        && symbols@[j].1@ == self.symbols@[j].1@,
            decreases self.symbols@.len() - i,
        {
            let entry = &self.symbols[i];
            let name = vstd::slice::slice_to_vec(entry.0.as_slice());
            let pairs = vstd::slice::slice_to_vec(entry.1.as_slice());
            symbols.push((name, pairs));
            i += 1;
        }
        let r = Self { symbols };
        proof {
            assert(r@ =~= self@);
        }
        r
    }

    /// Record an occurrence of `name`: appended to its group if the name
    /// is present, else opening a new group at the end.
    pub fn add_symbol(&mut self, name: Vec<u8>, kind: SymbolKind, offset: u64)
        ensures
            ({
                let sv = old(self)@;
                let r = find_name(sv, name@);
                if r >= 0 {
                    final(self)@ == sv.update(r, (sv[r].0, sv[r].1.push((kind, offset))))
                } else {
                    final(self)@ == sv.push((name@, seq![(kind, offset)]))
                }
            }),
    {
        proof {
            lemma_find_name_props(old(self)@, name@);
        }
        let ghost sv = self@;
        let mut i: usize = 0;
        while i < self.symbols.len()
            invariant
                0 <= i <= self.symbols@.len(),
                sv == sym_map_view(*self),
                self == old(self),
                forall|j: int| 0 <= j < i ==> (#[trigger] sv[j]).0 != name@,
            decreases self.symbols@.len() - i,
        {
            if bytes_eq(self.symbols[i].0.as_slice(), name.as_slice()) {
                proof {
                    assert(sv[i as int].0 == name@);
                    lemma_find_name_props(sv, name@);
                    let r = find_name(sv, name@);
                    if r == -1 {
                        assert(sv[i as int].0 != name@);
                    } else if r < i as int {
                        assert(sv[r].0 != name@);
                    } else if r > i as int {
                        assert(sv[i as int].0 != name@);
                    }
                    assert(r == i as int);
                }
                let entry = &mut self.symbols[i];
                entry.1.push((kind, offset));
                proof {
                    assert(self@ =~= sv.update(
                        i as int,
                        (sv[i as int].0, sv[i as int].1.push((kind, offset))),
                    ));
                }
                return;
            }
            i += 1;
        }
        proof {
            assert(find_name(sv, name@) == -1) by {
                lemma_find_name_props(sv, name@);
                if find_name(sv, name@) != -1 {
                    assert(sv[find_name(sv, name@)].0 == name@);
                }
            }
        }
        let ghost nv = name@;
        let mut pairs: Vec<(SymbolKind, u64)> = Vec::new();
        pairs.push((kind, offset));
        self.symbols.push((name, pairs));
        proof {
            assert(self@ =~= sv.push((nv, seq![(kind, offset)])));
        }
    }

    /// Record the program entry symbol.
    pub fn add_entry_point(&mut self, name: Vec<u8>, offset: u64)
        ensures
            ({
                let sv = old(self)@;
                let r = find_name(sv, name@);
                if r >= 0 {
                    final(self)@ == sv.update(
                        r,
                        (sv[r].0, sv[r].1.push((SymbolKind::EntryPoint, offset))),
                    )
                } else {
                    final(self)@ == sv.push((name@, seq![(SymbolKind::EntryPoint, offset)]))
                }
            }),
    {
        self.add_symbol(name, SymbolKind::EntryPoint, offset);
    }

    /// Record a syscall call target.
    pub fn add_call_target(&mut self, name: Vec<u8>, offset: u64)
        ensures
            ({
                let sv = old(self)@;
                let r = find_name(sv, name@);
                if r >= 0 {
                    final(self)@ == sv.update(
                        r,
                        (sv[r].0, sv[r].1.push((SymbolKind::CallTarget, offset))),
                    )
                } else {
                    final(self)@ == sv.push((name@, seq![(SymbolKind::CallTarget, offset)]))
                }
            }),
    {
        self.add_symbol(name, SymbolKind::CallTarget, offset);
    }

    fn get_symbols_by_kind(&self, kind: SymbolKind) -> (r: Vec<(Vec<u8>, u64)>)
        ensures
            r@.map_values(|p: (Vec<u8>, u64)| (p.0@, p.1)) == syms_of_kind(self@, kind),
    {
        let mut out: Vec<(Vec<u8>, u64)> = Vec::new();
        let mut i: usize = 0;
        proof {
            assert(self@.take(0) =~= Seq::<(Seq<u8>, Seq<(SymbolKind, u64)>)>::empty());
            assert(out@.map_values(|p: (Vec<u8>, u64)| (p.0@, p.1)) =~= syms_of_kind(
                self@.take(0),
                kind,
            ));
        }
        while i < self.symbols.len()
            invariant
                0 <= i <= self.symbols@.len(),
                self@.len() == self.symbols@.len(),
                out@.map_values(|p: (Vec<u8>, u64)| (p.0@, p.1)) == syms_of_kind(
                    self@.take(i as int),
                    kind,
                ),
            decreases self.symbols@.len() - i,
        {
            let entry = &self.symbols[i];
            let ghost pre = out@;
            let mut k: usize = 0;
            let mut found: bool = false;
            proof {
                lemma_find_kind_props(entry.1@, kind);
            }
            while k < entry.1.len() && !found
                invariant
                    0 <= k <= entry.1@.len(),
                    found ==> find_kind(entry.1@, kind) == k - 1 && k >= 1,
                    !found ==> forall|j: int| 0 <= j < k ==> (#[trigger] entry.1@[j]).0 != kind,
                decreases entry.1@.len() - k + if found {
                    0int
                } else {
                    1int
                },
            {
                if entry.1[k].0 == kind {
                    found = true;
                    proof {
                        lemma_find_kind_props(entry.1@, kind);
                        let r = find_kind(entry.1@, kind);
                        if r == -1 {
                            assert(!has_kind(entry.1@, kind));
                            assert(entry.1@[k as int].0 == kind);
                            assert(has_kind(entry.1@, kind));
                        } else if r < k as int {
                            assert(entry.1@[r].0 != kind);
                        } else if r > k as int {
                            assert(entry.1@[k as int].0 != kind);
                        }
                        assert(r == k as int);
                    }
                }
                k += 1;
            }
            if found {
                let pair = entry.1[k - 1];
                let name = vstd::slice::slice_to_vec(entry.0.as_slice());
                out.push((name, pair.1));
                proof {
                    assert(has_kind(entry.1@, kind)) by {
                        assert(entry.1@[k - 1].0 == kind);
                    }
                }
            } else {
                proof {
                    if has_kind(entry.1@, kind) {
                        let j = choose|j: int|
                            0 <= j < entry.1@.len() && (#[trigger] entry.1@[j]).0 == kind;
                        assert((entry.1@[j]).0 != kind);
                    }
                }
            }
            proof {
                assert(self@.take(i + 1).drop_last() =~= self@.take(i as int));
                assert(self@.take(i + 1).last() == self@[i as int]);
                assert(self@[i as int].0 == entry.0@);
                assert(self@[i as int].1 == entry.1@);
                assert(out@.map_values(|p: (Vec<u8>, u64)| (p.0@, p.1)) =~= syms_of_kind(
                    self@.take(i + 1),
                    kind,
                ));
            }
            i += 1;
        }
        proof {
            assert(self@.take(self@.len() as int) =~= self@);
        }
        out
    }

    /// The entry-point symbols, in first-insertion order.
    pub fn get_entry_points(&self) -> (r: Vec<(Vec<u8>, u64)>)
        ensures
            r@.map_values(|p: (Vec<u8>, u64)| (p.0@, p.1)) == syms_of_kind(
                self@,
                SymbolKind::EntryPoint,
            ),
    {
        self.get_symbols_by_kind(SymbolKind::EntryPoint)
    }

    /// The syscall call targets, in first-insertion order.
    pub fn get_call_targets(&self) -> (r: Vec<(Vec<u8>, u64)>)
        ensures
            r@.map_values(|p: (Vec<u8>, u64)| (p.0@, p.1)) == syms_of_kind(
                self@,
                SymbolKind::CallTarget,
            ),
    {
        self.get_symbols_by_kind(SymbolKind::CallTarget)
    }

    /// The occurrences recorded for a name, if any.
    pub fn get_symbol(&self, name: &[u8]) -> (r: Option<&Vec<(SymbolKind, u64)>>)
        ensures
            ({
                let f = find_name(self@, name@);
                match r {
                    Some(pairs) => f >= 0 && pairs@ == self@[f].1,
                    None => f == -1,
                }
            }),
    {
        proof {
            lemma_find_name_props(self@, name@);
        }
        let ghost sv = self@;
        let mut i: usize = 0;
        while i < self.symbols.len()
            invariant
                0 <= i <= self.symbols@.len(),
                sv == sym_map_view(*self),
                forall|j: int| 0 <= j < i ==> (#[trigger] sv[j]).0 != name@,
            decreases self.symbols@.len() - i,
        {
            if bytes_eq(self.symbols[i].0.as_slice(), name) {
                proof {
                    assert(sv[i as int].0 == name@);
                    lemma_find_name_props(sv, name@);
                    let r = find_name(sv, name@);
                    if r == -1 {
                        assert(sv[i as int].0 != name@);
                    } else if r < i as int {
                        assert(sv[r].0 != name@);
                    } else if r > i as int {
                        assert(sv[i as int].0 != name@);
                    }
                    assert(r == i as int);
                }
                return Some(&self.symbols[i].1);
            }
            i += 1;
        }
        proof {
            if find_name(sv, name@) != -1 {
                assert(sv[find_name(sv, name@)].0 == name@);
            }
        }
        None
    }

    /// Every group, in first-insertion order.
    pub fn get_symbols(&self) -> (r: &Vec<(Vec<u8>, Vec<(SymbolKind, u64)>)>)
        ensures
            r@.map_values(|e: (Vec<u8>, Vec<(SymbolKind, u64)>)| (e.0@, e.1@)) == self@,
    {
        &self.symbols
    }
}

/// The relocation kinds the assembler emits.
#[derive(Debug, Clone, Copy, PartialEq, Eq, Structural)]
pub enum RelocationType {
    RSbf64Relative,
    RSbfSyscall,
}

impl RelocationType {
    /// The numeric relocation type in the ELF table.
    pub open spec fn spec_value(self) -> u64 {
        match self {
            RelocationType::RSbf64Relative => 0x08,
            RelocationType::RSbfSyscall => 0x0a,
        }
    }

    pub fn value(&self) -> (r: u64)
        ensures
            r == self.spec_value(),
    {
        match self {
            RelocationType::RSbf64Relative => 0x08,
            RelocationType::RSbfSyscall => 0x0a,
        }
    }
}

/// One `.rel.dyn` record: the file offset it patches, the numeric
/// relocation type, and for syscalls the 1-based `.dynsym` index.
#[derive(Debug, Clone, Copy, PartialEq, Eq, Structural)]
pub struct RelDyn {
    pub offset: u64,
    pub rel_type: u64,
    pub dynstr_offset: u64,
}

/// The 16-byte encoding of a relocation record: 8 bytes of offset, then
/// for a relative relocation the type as 8 bytes, and for a syscall the
/// type as 4 bytes followed by the symbol index as 4 bytes.
pub open spec fn spec_reldyn_bytes(r: RelDyn) -> Seq<u8> {
    let off = seq![
        le_byte64(r.offset, 0),
        le_byte64(r.offset, 1),
        le_byte64(r.offset, 2),
        le_byte64(r.offset, 3),
        le_byte64(r.offset, 4),
        le_byte64(r.offset, 5),
        le_byte64(r.offset, 6),
        le_byte64(r.offset, 7),
    ];
    if r.rel_type == 0x08 {
        off + seq![
            le_byte64(r.rel_type, 0),
            le_byte64(r.rel_type, 1),
            le_byte64(r.rel_type, 2),
            le_byte64(r.rel_type, 3),
            le_byte64(r.rel_type, 4),
            le_byte64(r.rel_type, 5),
            le_byte64(r.rel_type, 6),
            le_byte64(r.rel_type, 7),
        ]
    } else if r.rel_type == 0x0a {
        off + seq![
            le_byte64(r.rel_type, 0),
            le_byte64(r.rel_type, 1),
            le_byte64(r.rel_type, 2),
            le_byte64(r.rel_type, 3),
            le_byte64(r.dynstr_offset, 0),
            le_byte64(r.dynstr_offset, 1),
            le_byte64(r.dynstr_offset, 2),
            le_byte64(r.dynstr_offset, 3),
        ]
    } else {
        off
    }
}

impl RelDyn {
    pub fn new(offset: u64, rel_type: u64, dynstr_offset: u64) -> (r: Self)
        ensures
            r == (RelDyn { offset, rel_type, dynstr_offset }),
    {
        Self { offset, rel_type, dynstr_offset }
    }

    pub fn bytecode(&self) -> (r: Vec<u8>)
        ensures
            r@ == spec_reldyn_bytes(*self),
    {
        let mut bytes: Vec<u8> = Vec::new();
        push_le64(&mut bytes, self.offset);
        if self.rel_type == 0x08 {
            push_le64(&mut bytes, self.rel_type);
        } else if self.rel_type == 0x0a {
            let t: u32 = self.rel_type as u32;
            let d: u32 = #[verifier::truncate] (self.dynstr_offset as u32);
            proof {
                assert(t as u64 == self.rel_type);
                let dv = self.dynstr_offset;
                assert((((dv as u32) as u64) >> 0) & 0xff == (dv >> 0) & 0xff
                    && (((dv as u32) as u64) >> 8) & 0xff == (dv >> 8) & 0xff
                    && (((dv as u32) as u64) >> 16) & 0xff == (dv >> 16) & 0xff
                    && (((dv as u32) as u64) >> 24) & 0xff == (dv >> 24) & 0xff) by (bit_vector);
                assert(forall|k: u64| k < 4 ==> #[trigger] le_byte64((dv as u32) as u64, k)
                    == le_byte64(dv, k)) by {
                    assert(8 * 0u64 == 0 && 8 * 1u64 == 8 && 8 * 2u64 == 16 && 8 * 3u64 == 24);
                }
            }
            push_le32(&mut bytes, t);
            push_le32(&mut bytes, d);
        }
        proof {
            assert(bytes@ =~= spec_reldyn_bytes(*self));
        }
        bytes
    }
}

/// Relocation requests keyed by code offset, in first-insertion order.
#[derive(Debug)]
pub struct RelDynMap {
    rel_dyns: Vec<(u64, Vec<(RelocationType, Vec<u8>)>)>,
}

/// The mathematical content of the relocation map.
spec fn rel_map_view(m: RelDynMap) -> Seq<(u64, Seq<(RelocationType, Seq<u8>)>)> {
    m.rel_dyns@.map_values(
        |e: (u64, Vec<(RelocationType, Vec<u8>)>)|
            (e.0, e.1@.map_values(|p: (RelocationType, Vec<u8>)| (p.0, p.1@))),
    )
}

impl View for RelDynMap {
    type V = Seq<(u64, Seq<(RelocationType, Seq<u8>)>)>;

    closed spec fn view(&self) -> Seq<(u64, Seq<(RelocationType, Seq<u8>)>)> {
        rel_map_view(*self)
    }
}

/// The first group for `offset`, or `-1`.
pub open spec fn find_offset(sv: Seq<(u64, Seq<(RelocationType, Seq<u8>)>)>, offset: u64) -> int
    decreases sv.len(),
{
    if sv.len() == 0 {
        -1
    } else if sv[0].0 == offset {
        0
    } else {
        let r = find_offset(sv.skip(1), offset);
        if r < 0 {
            -1
        } else {
            r + 1
        }
    }
}

pub proof fn lemma_find_offset_props(sv: Seq<(u64, Seq<(RelocationType, Seq<u8>)>)>, offset: u64)
    ensures
        find_offset(sv, offset) == -1 ==> forall|j: int|
            0 <= j < sv.len() ==> (#[trigger] sv[j]).0 != offset,
        find_offset(sv, offset) != -1 ==> {
            let r = find_offset(sv, offset);
            &&& 0 <= r < sv.len()
            &&& sv[r].0 == offset
            &&& forall|j: int| 0 <= j < r ==> (#[trigger] sv[j]).0 != offset
        },
    decreases sv.len(),
{
    if sv.len() > 0 && sv[0].0 != offset {
        lemma_find_offset_props(sv.skip(1), offset);
        let rs = find_offset(sv.skip(1), offset);
        if rs < 0 {
            assert forall|j: int| 0 <= j < sv.len() implies (#[trigger] sv[j]).0 != offset by {
                if j > 0 {
                    assert(sv.skip(1)[j - 1] == sv[j]);
                }
            }
        } else {
            assert(sv.skip(1)[rs] == sv[rs + 1]);
            assert forall|j: int| 0 <= j < rs + 1 implies (#[trigger] sv[j]).0 != offset by {
                if j > 0 {
                    assert(sv.skip(1)[j - 1] == sv[j]);
                }
            }
        }
    }
}

/// The relocation records flattened to (offset, type, name) triples, in
/// insertion order.
pub open spec fn flatten_rels(
    sv: Seq<(u64, Seq<(RelocationType, Seq<u8>)>)>,
) -> Seq<(u64, RelocationType, Seq<u8>)>
    decreases sv.len(),
{
    if sv.len() == 0 {
        Seq::empty()
    } else {
        flatten_rels(sv.drop_last()) + sv.last().1.map_values(
            |p: (RelocationType, Seq<u8>)| (sv.last().0, p.0, p.1),
        )
    }
}

/// How one group extends the flattened sequence: earlier triples keep
/// their places, and the group's occurrences follow in order.
pub proof fn lemma_flatten_last(sv: Seq<(u64, Seq<(RelocationType, Seq<u8>)>)>)
    requires
        sv.len() > 0,
    ensures
        flatten_rels(sv).len() == flatten_rels(sv.drop_last()).len() + sv.last().1.len(),
        forall|j: int|
            0 <= j < flatten_rels(sv.drop_last()).len() ==> #[trigger] flatten_rels(sv)[j]
                == flatten_rels(sv.drop_last())[j],
        forall|j: int|
            0 <= j < sv.last().1.len() ==> #[trigger] flatten_rels(sv)[flatten_rels(
                sv.drop_last(),
            ).len() + j] == (sv.last().0, sv.last().1[j].0, sv.last().1[j].1),
{
}

/// Appending an occurrence to a group extends the flattened sequence by
/// one.
pub proof fn lemma_flatten_update_len(
    sv: Seq<(u64, Seq<(RelocationType, Seq<u8>)>)>,
    r: int,
    p: (RelocationType, Seq<u8>),
)
    requires
        0 <= r < sv.len(),
    ensures
        flatten_rels(sv.update(r, (sv[r].0, sv[r].1.push(p)))).len() == flatten_rels(sv).len() + 1,
    decreases sv.len(),
{
    let sv2 = sv.update(r, (sv[r].0, sv[r].1.push(p)));
    if r == sv.len() - 1 {
        assert(sv2.drop_last() =~= sv.drop_last());
        assert(sv2.last() == (sv[r].0, sv[r].1.push(p)));
    } else {
        assert(sv2.drop_last() =~= sv.drop_last().update(r, (sv[r].0, sv[r].1.push(p))));
        assert(sv.drop_last()[r] == sv[r]);
        lemma_flatten_update_len(sv.drop_last(), r, p);
        assert(sv2.last() == sv.last());
    }
}

/// Opening a new group extends the flattened sequence by its size.
pub proof fn lemma_flatten_push_len(
    sv: Seq<(u64, Seq<(RelocationType, Seq<u8>)>)>,
    e: (u64, Seq<(RelocationType, Seq<u8>)>),
)
    ensures
        flatten_rels(sv.push(e)).len() == flatten_rels(sv).len() + e.1.len(),
{
    assert(sv.push(e).drop_last() =~= sv);
    assert(sv.push(e).last() == e);
}

impl RelDynMap {
    pub fn new() -> (r: Self)
        ensures
            r@ == Seq::<(u64, Seq<(RelocationType, Seq<u8>)>)>::empty(),
    {
        let r = Self { rel_dyns: Vec::new() };
        proof {
            assert(r@ =~= Seq::<(u64, Seq<(RelocationType, Seq<u8>)>)>::empty());
        }
        r
    }

    /// Record a relocation request at a code offset: appended to the
    /// offset's group if present, else opening a new group at the end.
    pub fn add_rel_dyn(&mut self, offset: u64, rel_type: RelocationType, name: Vec<u8>)
        ensures
            ({
                let sv = old(self)@;
                let r = find_offset(sv, offset);
                if r >= 0 {
                    final(self)@ == sv.update(r, (offset, sv[r].1.push((rel_type, name@))))
                } else {
                    final(self)@ == sv.push((offset, seq![(rel_type, name@)]))
                }
            }),
    {
        proof {
            lemma_find_offset_props(old(self)@, offset);
        }
        let ghost sv = self@;
        let ghost nv = name@;
        let mut i: usize = 0;
        while i < self.rel_dyns.len()
            invariant
                0 <= i <= self.rel_dyns@.len(),
                sv == rel_map_view(*self),
                self == old(self),
                nv == name@,
                forall|j: int| 0 <= j < i ==> (#[trigger] sv[j]).0 != offset,
            decreases self.rel_dyns@.len() - i,
        {
            if self.rel_dyns[i].0 == offset {
                proof {
                    assert(sv[i as int].0 == offset);
                    lemma_find_offset_props(sv, offset);
                    let r = find_offset(sv, offset);
                    if r == -1 {
                        assert(sv[i as int].0 != offset);
                    } else if r < i as int {
                        assert(sv[r].0 != offset);
                    } else if r > i as int {
                        assert(sv[i as int].0 != offset);
                    }
                    assert(r == i as int);
                }
                let entry = &mut self.rel_dyns[i];
                let ghost op = entry.1@;
                let ghost gname = name;
                entry.1.push((rel_type, name));
                proof {
                    assert(self.rel_dyns@[i as int].1@ == op.push((rel_type, gname)));
                    assert(self@.len() == sv.len());
                    assert(self@[i as int].0 == offset);
                    assert(self@[i as int].1.len() == sv[i as int].1.len() + 1);
                    assert forall|j: int|
                        0 <= j < sv[i as int].1.len() implies self@[i as int].1[j]
                        == sv[i as int].1[j] by {
                        assert(op.push((rel_type, name))[j] == op[j]);
                    }
                    let ghost np = self.rel_dyns@[i as int].1@;
                    assert(np.len() == op.len() + 1);
                    assert(np.last() == (rel_type, gname));
                    assert(np.last().0 == rel_type && np.last().1@ == nv);
                    assert(self@[i as int].1[np.len() - 1] == (np.last().0, np.last().1@));
                    assert(self@[i as int].1.last() == (rel_type, nv));
                    assert(self@[i as int].1 =~= sv[i as int].1.push((rel_type, nv)));
                    assert(self@ =~~= sv.update(
                        i as int,
                        (offset, sv[i as int].1.push((rel_type, nv))),
                    ));
                }
                return;
            }
            i += 1;
        }
        proof {
            if find_offset(sv, offset) != -1 {
                assert(sv[find_offset(sv, offset)].0 == offset);
            }
        }
        let mut pairs: Vec<(RelocationType, Vec<u8>)> = Vec::new();
        pairs.push((rel_type, name));
        self.rel_dyns.push((offset, pairs));
        proof {
            assert(self@ =~~= sv.push((offset, seq![(rel_type, nv)])));
        }
    }

    /// Every request as an (offset, type, name) triple, in insertion order.
    pub fn get_rel_dyns(&self) -> (r: Vec<(u64, RelocationType, Vec<u8>)>)
        ensures
            r@.map_values(|t: (u64, RelocationType, Vec<u8>)| (t.0, t.1, t.2@)) == flatten_rels(
                self@,
            ),
    {
        let mut out: Vec<(u64, RelocationType, Vec<u8>)> = Vec::new();
        let mut i: usize = 0;
        proof {
            assert(self@.take(0) =~= Seq::<(u64, Seq<(RelocationType, Seq<u8>)>)>::empty());
        }
        while i < self.rel_dyns.len()
            invariant
                0 <= i <= self.rel_dyns@.len(),
                self@.len() == self.rel_dyns@.len(),
                out@.len() == flatten_rels(self@.take(i as int)).len(),
                forall|j: int|
                    0 <= j < out@.len() ==> ((#[trigger] out@[j]).0, out@[j].1, out@[j].2@)
                        == flatten_rels(self@.take(i as int))[j],
            decreases self.rel_dyns@.len() - i,
        {
            let ghost base = flatten_rels(self@.take(i as int));
            let entry = &self.rel_dyns[i];
            let offset = entry.0;
            proof {
                assert(entry.0 == self@[i as int].0);
                assert(entry.1@.len() == self@[i as int].1.len());
                assert(forall|j: int|
                    0 <= j < entry.1@.len() ==> self@[i as int].1[j] == ((
                    #[trigger] entry.1@[j]).0, entry.1@[j].1@));
            }
            let mut k: usize = 0;
            while k < entry.1.len()
                invariant
                    0 <= k <= entry.1@.len(),
                    offset == entry.0,
                    0 <= i < self.rel_dyns@.len(),
                    self@.len() == self.rel_dyns@.len(),
                    base == flatten_rels(self@.take(i as int)),
                    entry.0 == self@[i as int].0,
                    entry.1@.len() == self@[i as int].1.len(),
                    forall|j: int|
                        0 <= j < entry.1@.len() ==> self@[i as int].1[j] == ((
                        #[trigger] entry.1@[j]).0, entry.1@[j].1@),
                    out@.len() == base.len() + k,
                    forall|j: int|
                        0 <= j < base.len() ==> ((#[trigger] out@[j]).0, out@[j].1, out@[j].2@)
                            == base[j],
                    forall|j: int|
                        base.len() <= j < out@.len() ==> ((#[trigger] out@[j]).0, out@[j].1,
                            out@[j].2@) == (entry.0, entry.1@[j - base.len()].0, entry.1@[
                            j - base.len()].1@),
                decreases entry.1@.len() - k,
            {
                let pair = &entry.1[k];
                let name = vstd::slice::slice_to_vec(pair.1.as_slice());
                out.push((offset, pair.0, name));
                k += 1;
            }
            proof {
                assert(self@.take(i + 1).drop_last() =~= self@.take(i as int));
                assert(self@.take(i + 1).last() == self@[i as int]);
                lemma_flatten_last(self@.take(i + 1));
                assert(flatten_rels(self@.take(i + 1)).len()
                    == base.len() + self@[i as int].1.len());
                assert(out@.len() == flatten_rels(self@.take(i + 1)).len());
                assert forall|j: int|
                    0 <= j < out@.len() implies ((#[trigger] out@[j]).0, out@[j].1, out@[j].2@)
                        == flatten_rels(self@.take(i + 1))[j] by {
                    if j < base.len() {
                        assert(flatten_rels(self@.take(i + 1))[j] == base[j]);
                    } else {
                        let m = j - base.len();
                        assert(flatten_rels(self@.take(i + 1))[base.len() + m] == (
                            self@[i as int].0,
                            self@[i as int].1[m].0,
                            self@[i as int].1[m].1,
                        ));
                        assert(self@[i as int].1[m] == (entry.1@[m].0, entry.1@[m].1@));
                    }
                }
            }
            i += 1;
        }
        proof {
            assert(self@.take(self@.len() as int) =~= self@);
            assert(out@.map_values(|t: (u64, RelocationType, Vec<u8>)| (t.0, t.1, t.2@))
                =~= flatten_rels(self@));
        }
        out
    }

    /// A by-value copy of the whole map.
    pub fn copy(&self) -> (r: Self)
        ensures
            r@ == self@,
    {
        let mut rel_dyns: Vec<(u64, Vec<(RelocationType, Vec<u8>)>)> = Vec::new();
        let mut i: usize = 0;
        while i < self.rel_dyns.len()
            invariant
                0 <= i <= self.rel_dyns@.len(),
                rel_dyns@.len() == i,
                forall|j: int|
                    0 <= j < i ==> (#[trigger] rel_dyns@[j]).0 == self.rel_dyns@[j].0
                        && rel_dyns@[j].1@.map_values(|p: (RelocationType, Vec<u8>)| (p.0, p.1@))
                        == self.rel_dyns@[j].1@.map_values(
                        |p: (RelocationType, Vec<u8>)| (p.0, p.1@),
                    ),
            decreases self.rel_dyns@.len() - i,
        {
            let entry = &self.rel_dyns[i];
            let mut pairs: Vec<(RelocationType, Vec<u8>)> = Vec::new();
            let mut k: usize = 0;
            while k < entry.1.len()
                invariant
                    0 <= k <= entry.1@.len(),
                    pairs@.len() == k,
                    forall|j: int|
                        0 <= j < k ==> (#[trigger] pairs@[j]).0 == entry.1@[j].0
                            && pairs@[j].1@ == entry.1@[j].1@,
                decreases entry.1@.len() - k,
            {
                let pair = &entry.1[k];
                pairs.push((pair.0, vstd::slice::slice_to_vec(pair.1.as_slice())));
                k += 1;
            }
            proof {
                assert(pairs@.map_values(|p: (RelocationType, Vec<u8>)| (p.0, p.1@)) =~~= entry.1@
                    .map_values(|p: (RelocationType, Vec<u8>)| (p.0, p.1@)));
            }
            rel_dyns.push((entry.0, pairs));
            i += 1;
        }
        let r = Self { rel_dyns };
        proof {
            assert(r@ =~~= self@);
        }
        r
    }
}

} // verus!
