//! Program layout and emission: ELF header, program headers, section
//! payloads in allocation order, then the section-header table.

use vstd::prelude::*;
use vstd::string::StringSliceAdditionalSpecFns;
use crate::header::{
    ElfHeader, ProgramHeader, spec_elf_header_bytes, spec_program_header_bytes,
};
use crate::section::{
    Section, NullSection, DynamicSection, ShStrTabSection, SectionType, DynStrSection,
    DynSymSection, RelDynSection, byte_seqs, spec_data_bytes,
};
use crate::dynsym::{
    DynamicSymbol, RelDyn, RelocationType, DynamicSymbolMap, RelDynMap, SymbolKind, flatten_rels,
    syms_of_kind, has_kind,
};
use crate::parser::{ParseResult, label_bound, reloc_syms_consistent, spec_ph_offset};
use crate::debuginfo::DebugInfo;
use crate::bytesutil::bytes_eq;
use crate::astnode::ASTNode;

verus! {

/// One assembled program: the file header, its program headers, and the
/// sections in allocation order.
#[derive(Debug)]
pub struct Program {
    pub is_static: bool,
    pub elf_header: ElfHeader,
    pub program_headers: Vec<ProgramHeader>,
    pub sections: Vec<SectionType>,
}

/// The names of a symbol list, in order.
pub open spec fn sym_names(s: Seq<(Seq<u8>, u64)>) -> Seq<Seq<u8>> {
    s.map_values(|p: (Seq<u8>, u64)| p.0)
}

/// Keys of flattened relocations stay below the keys' bound.
pub proof fn lemma_flatten_keys_bound(sv: Seq<(u64, Seq<(RelocationType, Seq<u8>)>)>, bound: int)
    requires
        forall|j: int| 0 <= j < sv.len() ==> (#[trigger] sv[j]).0 < bound,
    ensures
        forall|j: int|
            0 <= j < flatten_rels(sv).len() ==> (#[trigger] flatten_rels(sv)[j]).0 < bound,
    decreases sv.len(),
{
    if sv.len() > 0 {
        assert(forall|j: int|
            0 <= j < sv.drop_last().len() ==> sv.drop_last()[j] == (#[trigger] sv[j]));
        lemma_flatten_keys_bound(sv.drop_last(), bound);
        crate::dynsym::lemma_flatten_last(sv);
        let base = flatten_rels(sv.drop_last());
        assert forall|j: int|
            0 <= j < flatten_rels(sv).len() implies (#[trigger] flatten_rels(sv)[j]).0 < bound by {
            if j < base.len() {
                assert(flatten_rels(sv)[j] == base[j]);
            } else {
                assert(flatten_rels(sv)[base.len() + (j - base.len())] == (
                    sv.last().0,
                    sv.last().1[j - base.len()].0,
                    sv.last().1[j - base.len()].1,
                ));
            }
        }
    }
}

/// A name with an occurrence of `kind` appears among the projections of
/// that kind.
pub proof fn lemma_name_in_syms_of_kind(
    sv: Seq<(Seq<u8>, Seq<(SymbolKind, u64)>)>,
    kind: SymbolKind,
    j: int,
)
    requires
        0 <= j < sv.len(),
        has_kind(sv[j].1, kind),
    ensures
        exists|i: int|
            0 <= i < syms_of_kind(sv, kind).len() && (#[trigger] syms_of_kind(sv, kind)[i]).0
                == sv[j].0,
    decreases sv.len(),
{
    if j == sv.len() - 1 {
        let w = syms_of_kind(sv.drop_last(), kind).len() as int;
        assert(syms_of_kind(sv, kind)[w].0 == sv.last().0);
    } else {
        assert(sv.drop_last()[j] == sv[j]);
        lemma_name_in_syms_of_kind(sv.drop_last(), kind, j);
        let i0 = choose|i: int|
            0 <= i < syms_of_kind(sv.drop_last(), kind).len() && (#[trigger] syms_of_kind(
                sv.drop_last(),
                kind,
            )[i]).0 == sv.drop_last()[j].0;
        assert(syms_of_kind(sv, kind)[i0].0 == sv[j].0);
    }
}

/// How many of the flattened relocations are relative.
pub open spec fn spec_rel_count(flat: Seq<(u64, RelocationType, Seq<u8>)>) -> int
    decreases flat.len(),
{
    if flat.len() == 0 {
        0
    } else {
        spec_rel_count(flat.drop_last()) + if flat.last().1 is RSbf64Relative {
            1int
        } else {
            0int
        }
    }
}

/// The first position of a name in a name list, or `-1`.
pub open spec fn spec_first_name(names: Seq<Seq<u8>>, name: Seq<u8>) -> int
    decreases names.len(),
{
    if names.len() == 0 {
        -1
    } else if names[0] == name {
        0
    } else {
        let r = spec_first_name(names.skip(1), name);
        if r < 0 {
            -1
        } else {
            r + 1
        }
    }
}

proof fn lemma_first_name_at(names: Seq<Seq<u8>>, name: Seq<u8>, i: int)
    requires
        0 <= i < names.len(),
        names[i] == name,
        forall|j: int| 0 <= j < i ==> (#[trigger] names[j]) != name,
    ensures
        spec_first_name(names, name) == i,
    decreases names.len(),
{
    if i > 0 {
        assert(forall|j: int|
            0 <= j < names.skip(1).len() ==> #[trigger] names.skip(1)[j] == names[j + 1]);
        lemma_first_name_at(names.skip(1), name, i - 1);
    }
}

/// The index of the first code section, or `-1`.
pub open spec fn first_code_index(sections: Seq<SectionType>) -> int
    decreases sections.len(),
{
    if sections.len() == 0 {
        -1
    } else if sections[0] is Code {
        0
    } else {
        let r = first_code_index(sections.skip(1));
        if r < 0 {
            -1
        } else {
            r + 1
        }
    }
}

/// The index of the first data section, or `-1`.
pub open spec fn first_data_index(sections: Seq<SectionType>) -> int
    decreases sections.len(),
{
    if sections.len() == 0 {
        -1
    } else if sections[0] is Data {
        0
    } else {
        let r = first_data_index(sections.skip(1));
        if r < 0 {
            -1
        } else {
            r + 1
        }
    }
}

proof fn lemma_first_code_at(sections: Seq<SectionType>, i: int)
    requires
        0 <= i < sections.len(),
        sections[i] is Code,
        forall|j: int| 0 <= j < i ==> !((#[trigger] sections[j]) is Code),
    ensures
        first_code_index(sections) == i,
    decreases sections.len(),
{
    if i > 0 {
        assert(forall|j: int|
            0 <= j < sections.skip(1).len() ==> #[trigger] sections.skip(1)[j] == sections[j + 1]);
        lemma_first_code_at(sections.skip(1), i - 1);
    }
}

proof fn lemma_first_code_none(sections: Seq<SectionType>)
    requires
        forall|j: int| 0 <= j < sections.len() ==> !((#[trigger] sections[j]) is Code),
    ensures
        first_code_index(sections) == -1,
    decreases sections.len(),
{
    if sections.len() > 0 {
        assert(forall|j: int|
            0 <= j < sections.skip(1).len() ==> #[trigger] sections.skip(1)[j] == sections[j + 1]);
        lemma_first_code_none(sections.skip(1));
    }
}

proof fn lemma_first_data_at(sections: Seq<SectionType>, i: int)
    requires
        0 <= i < sections.len(),
        sections[i] is Data,
        forall|j: int| 0 <= j < i ==> !((#[trigger] sections[j]) is Data),
    ensures
        first_data_index(sections) == i,
    decreases sections.len(),
{
    if i > 0 {
        assert(forall|j: int|
            0 <= j < sections.skip(1).len() ==> #[trigger] sections.skip(1)[j] == sections[j + 1]);
        lemma_first_data_at(sections.skip(1), i - 1);
    }
}

proof fn lemma_first_data_none(sections: Seq<SectionType>)
    requires
        forall|j: int| 0 <= j < sections.len() ==> !((#[trigger] sections[j]) is Data),
    ensures
        first_data_index(sections) == -1,
    decreases sections.len(),
{
    if sections.len() > 0 {
        assert(forall|j: int|
            0 <= j < sections.skip(1).len() ==> #[trigger] sections.skip(1)[j] == sections[j + 1]);
        lemma_first_data_none(sections.skip(1));
    }
}

/// Everything the layout pass promises of the program it builds from a
/// parse result.
#[verifier::opaque]
pub open spec fn spec_program_of(result: ParseResult, p: Program) -> bool {
    &&& (p.is_static == result.prog_is_static)
    &&& (p.elf_header.e_phnum == if result.prog_is_static {
                1u16
            } else {
                3u16
            })
    &&& (p.elf_header.e_entry == spec_ph_offset(result.prog_is_static))
    &&& (p.elf_header.e_shoff % 8 == 0)
    &&& (p.program_headers@.len() == if result.prog_is_static {
                1int
            } else {
                3int
            })
    &&& (p.elf_header.e_shnum == p.sections@.len())
    &&& (p.elf_header.e_shstrndx == p.sections@.len() - 1)
    &&& (p.sections@.len() >= 3)
    &&& (p.sections@[0] is Default)
    &&& (p.sections@[1] is Code)
    &&& (p.sections@.last() is ShStrTab)
    &&& ((p.sections@[2] is Data <==> spec_data_bytes(result.data_section.spec_nodes()).len()
                > 0))
    &&& (!result.prog_is_static ==> ({
                let b: int = if spec_data_bytes(result.data_section.spec_nodes()).len() > 0 {
                    3
                } else {
                    2
                };
                let flat = flatten_rels(result.relocation_data@);
                let eps = syms_of_kind(result.dynamic_symbols@, SymbolKind::EntryPoint);
                let cts = syms_of_kind(result.dynamic_symbols@, SymbolKind::CallTarget);
                let names = sym_names(eps) + sym_names(cts);
                &&& p.sections@.len() == b + 5
                &&& p.sections@[b] is Dynamic
                &&& p.sections@[b + 1] is DynSym
                &&& p.sections@[b + 2] is DynStr
                &&& p.sections@[b + 3] is RelDyn
                &&& p.sections@[b + 3]->RelDyn_0.spec_entries().len() == flat.len()
                &&& forall|j: int|
                    0 <= j < flat.len() ==> {
                        let e = (#[trigger] p.sections@[b + 3]->RelDyn_0.spec_entries()[j]);
                        &&& e.offset == flat[j].0 + spec_ph_offset(false)
                        &&& e.rel_type == flat[j].1.spec_value()
                        &&& (flat[j].1 is RSbfSyscall ==> e.dynstr_offset == 1 + spec_first_name(
                            names,
                            flat[j].2,
                        ))
                        &&& (flat[j].1 is RSbf64Relative ==> e.dynstr_offset == 0)
                    }
                &&& p.sections@[b + 2]->DynStr_0.spec_names() == names
                &&& p.sections@[b + 1]->DynSym_0.spec_symbols().len() == 1 + eps.len() + cts.len()
                &&& p.sections@[b + 1]->DynSym_0.spec_symbols()[0] == (DynamicSymbol {
                    name: 0,
                    info: 0,
                    other: 0,
                    shndx: 0,
                    value: 0,
                    size: 0,
                })
                &&& forall|k: int|
                    0 <= k < eps.len() ==> {
                        let sym = (#[trigger] p.sections@[b + 1]->DynSym_0.spec_symbols()[1 + k]);
                        &&& sym.info == 0x10
                        &&& sym.shndx == 1
                        &&& sym.value == spec_ph_offset(false)
                        &&& sym.size == 0
                    }
                &&& forall|k: int|
                    0 <= k < cts.len() ==> {
                        let sym = (#[trigger] p.sections@[b + 1]->DynSym_0.spec_symbols()[1
                            + eps.len() + k]);
                        &&& sym.info == 0x10
                        &&& sym.shndx == 0
                        &&& sym.value == 0
                        &&& sym.size == 0
                    }
                &&& p.sections@[b]->Dynamic_0.spec_rel_count() as int == spec_rel_count(flat)
                &&& p.sections@[b]->Dynamic_0.spec_rel_offset() == p.sections@[b + 3].spec_offset()
                &&& p.sections@[b]->Dynamic_0.spec_dynsym_offset() == p.sections@[
                    b + 1].spec_offset()
                &&& p.sections@[b]->Dynamic_0.spec_dynstr_offset() == p.sections@[
                    b + 2].spec_offset()
                &&& p.program_headers@[1].p_type == 1
                &&& p.program_headers@[1].p_flags == 4
                &&& p.program_headers@[1].p_offset == p.sections@[b + 1].spec_offset()
                &&& p.program_headers@[2].p_type == 2
                &&& p.program_headers@[2].p_flags == 6
                &&& p.program_headers@[2].p_offset == p.sections@[b].spec_offset()
            }))
    &&& (p.program_headers@[0].p_type == 1)
    &&& (p.program_headers@[0].p_flags == 5)
    &&& (p.program_headers@[0].p_offset == spec_ph_offset(result.prog_is_static))
    &&& (p.program_headers@[0].p_filesz == result.code_section.spec_size() + spec_data_bytes(
        result.data_section.spec_nodes(),
    ).len())
    &&& (result.prog_is_static ==> p.sections@.len() == (
            if spec_data_bytes(result.data_section.spec_nodes()).len() > 0 {
                4int
            } else {
                3int
            }))
}

/// Build the dynamic-linking tables: the `.dynsym` entries (null symbol
/// first, then entry points, then call targets), the symbol names in the
/// same order, the `.rel.dyn` records with their file offsets past the
/// headers and 1-based symbol indices, and the count of relative
/// relocations. The `u32` name offsets stored in the symbols truncate,
/// as the original's casts did, for tables past 4 GiB of names.
#[verifier::rlimit(100)]
fn build_dynamic_tables(
    dynamic_symbols: &DynamicSymbolMap,
    relocation_data: &RelDynMap,
    e_entry: u64,
) -> (r: (Vec<DynamicSymbol>, Vec<Vec<u8>>, Vec<RelDyn>, u64))
    requires
        e_entry == spec_ph_offset(false),
        dynamic_symbols@.len() <= 0x0400_0001,
        forall|j: int|
            0 <= j < dynamic_symbols@.len() ==> (#[trigger] dynamic_symbols@[j]).0.len()
                <= 0x0400_0000,
        flatten_rels(relocation_data@).len() <= 0x0400_0000,
        forall|j: int|
            0 <= j < relocation_data@.len() ==> (#[trigger] relocation_data@[j]).0 < label_bound(),
        reloc_syms_consistent(relocation_data@, dynamic_symbols@),
    ensures
        ({
            let eps = syms_of_kind(dynamic_symbols@, SymbolKind::EntryPoint);
            let cts = syms_of_kind(dynamic_symbols@, SymbolKind::CallTarget);
            let names = sym_names(eps) + sym_names(cts);
            let flat = flatten_rels(relocation_data@);
            &&& r.0@.len() == 1 + eps.len() + cts.len()
            &&& r.0@[0] == (DynamicSymbol { name: 0, info: 0, other: 0, shndx: 0, value: 0, size: 0 })
            &&& forall|k: int|
                0 <= k < eps.len() ==> {
                    let sym = (#[trigger] r.0@[1 + k]);
                    sym.info == 0x10 && sym.shndx == 1 && sym.value == e_entry && sym.size == 0
                }
            &&& forall|k: int|
                0 <= k < cts.len() ==> {
                    let sym = (#[trigger] r.0@[1 + eps.len() + k]);
                    sym.info == 0x10 && sym.shndx == 0 && sym.value == 0 && sym.size == 0
                }
            &&& byte_seqs(r.1@) == names
            &&& forall|j: int| 0 <= j < r.1@.len() ==> (#[trigger] r.1@[j])@.len() <= 0x0400_0000
            &&& r.2@.len() == flat.len()
            &&& forall|j: int|
                0 <= j < flat.len() ==> {
                    let e = (#[trigger] r.2@[j]);
                    &&& e.offset == flat[j].0 + spec_ph_offset(false)
                    &&& e.rel_type == flat[j].1.spec_value()
                    &&& (flat[j].1 is RSbfSyscall ==> e.dynstr_offset == 1 + spec_first_name(
                        names,
                        flat[j].2,
                    ))
                    &&& (flat[j].1 is RSbf64Relative ==> e.dynstr_offset == 0)
                }
            &&& r.3 as int == spec_rel_count(flat)
            &&& r.3 <= flat.len()
        }),
{
    let ghost svm = dynamic_symbols@;
    let ghost eps_spec = syms_of_kind(svm, SymbolKind::EntryPoint);
    let ghost cts_spec = syms_of_kind(svm, SymbolKind::CallTarget);
    let eps = dynamic_symbols.get_entry_points();
    let cts = dynamic_symbols.get_call_targets();
    proof {
        lemma_syms_of_kind_len(svm, SymbolKind::EntryPoint);
        lemma_syms_of_kind_len(svm, SymbolKind::CallTarget);
        assert(eps@.len() == eps_spec.len());
        assert(cts@.len() == cts_spec.len());
    }

    let mut symbol_names: Vec<Vec<u8>> = Vec::new();
    let mut dyn_syms: Vec<DynamicSymbol> = Vec::new();
    let mut dynstr: Vec<u8> = Vec::new();
    dynstr.push(0);
    dyn_syms.push(DynamicSymbol::new(0, 0, 0, 0, 0, 0));

    let mut i: usize = 0;
    while i < eps.len()
        invariant
            0 <= i <= eps@.len(),
            eps@.len() == eps_spec.len(),
            forall|k: int|
                0 <= k < eps@.len() ==> ((#[trigger] eps@[k]).0@, eps@[k].1) == eps_spec[k],
            symbol_names@.len() == i,
            forall|k: int| 0 <= k < i ==> (#[trigger] symbol_names@[k])@ == eps_spec[k].0,
            dyn_syms@.len() == 1 + i,
            dyn_syms@[0] == (DynamicSymbol { name: 0, info: 0, other: 0, shndx: 0, value: 0, size: 0 }),
            forall|k: int|
                0 <= k < i ==> {
                    let s = (#[trigger] dyn_syms@[1 + k]);
                    s.info == 0x10 && s.shndx == 1 && s.value == e_entry && s.size == 0
                },
        decreases eps@.len() - i,
    {
        let name_off: u32 = #[verifier::truncate] (dynstr.len() as u32);
        dyn_syms.push(DynamicSymbol::new(name_off, 0x10, 0, 1, e_entry, 0));
        let name = vstd::slice::slice_to_vec(eps[i].0.as_slice());
        dynstr.extend_from_slice(name.as_slice());
        dynstr.push(0);
        symbol_names.push(name);
        proof {
            assert(symbol_names@.last()@ == eps_spec[i as int].0);
        }
        i += 1;
    }
    let n_eps = eps.len();
    let mut i: usize = 0;
    while i < cts.len()
        invariant
            0 <= i <= cts@.len(),
            cts@.len() == cts_spec.len(),
            eps@.len() == eps_spec.len(),
            n_eps == eps@.len(),
            forall|k: int|
                0 <= k < cts@.len() ==> ((#[trigger] cts@[k]).0@, cts@[k].1) == cts_spec[k],
            symbol_names@.len() == n_eps + i,
            forall|k: int| 0 <= k < n_eps ==> (#[trigger] symbol_names@[k])@ == eps_spec[k].0,
            forall|k: int|
                0 <= k < i ==> (#[trigger] symbol_names@[n_eps + k])@ == cts_spec[k].0,
            dyn_syms@.len() == 1 + n_eps + i,
            dyn_syms@[0] == (DynamicSymbol { name: 0, info: 0, other: 0, shndx: 0, value: 0, size: 0 }),
            forall|k: int|
                0 <= k < n_eps ==> {
                    let s = (#[trigger] dyn_syms@[1 + k]);
                    s.info == 0x10 && s.shndx == 1 && s.value == e_entry && s.size == 0
                },
            forall|k: int|
                0 <= k < i ==> {
                    let s = (#[trigger] dyn_syms@[1 + n_eps + k]);
                    s.info == 0x10 && s.shndx == 0 && s.value == 0 && s.size == 0
                },
        decreases cts@.len() - i,
    {
        let name_off: u32 = #[verifier::truncate] (dynstr.len() as u32);
        dyn_syms.push(DynamicSymbol::new(name_off, 0x10, 0, 0, 0, 0));
        let name = vstd::slice::slice_to_vec(cts[i].0.as_slice());
        dynstr.extend_from_slice(name.as_slice());
        dynstr.push(0);
        symbol_names.push(name);
        proof {
            assert(symbol_names@.last()@ == cts_spec[i as int].0);
        }
        i += 1;
    }

    let ghost all_names = sym_names(eps_spec) + sym_names(cts_spec);
    proof {
        assert(sym_names(eps_spec).len() == eps_spec.len());
        assert(sym_names(cts_spec).len() == cts_spec.len());
        assert(byte_seqs(symbol_names@).len() == symbol_names@.len());
        assert forall|j: int|
            0 <= j < byte_seqs(symbol_names@).len() implies #[trigger] byte_seqs(symbol_names@)[j]
            == all_names[j] by {
            assert(byte_seqs(symbol_names@)[j] == symbol_names@[j]@);
            if j < n_eps {
                assert(all_names[j] == sym_names(eps_spec)[j]);
                assert(sym_names(eps_spec)[j] == eps_spec[j].0);
            } else {
                assert(symbol_names@[j] == symbol_names@[n_eps + (j - n_eps)]);
                assert(all_names[j] == sym_names(cts_spec)[j - n_eps]);
                assert(sym_names(cts_spec)[j - n_eps] == cts_spec[j - n_eps].0);
            }
        }
        assert(byte_seqs(symbol_names@) =~= all_names);
        assert forall|j: int|
            0 <= j < symbol_names@.len() implies (#[trigger] symbol_names@[j])@.len()
            <= 0x0400_0000 by {
            if j < n_eps {
                lemma_kind_names_bounded(svm, SymbolKind::EntryPoint, j);
            } else {
                assert(symbol_names@[j] == symbol_names@[n_eps + (j - n_eps)]);
                lemma_kind_names_bounded(svm, SymbolKind::CallTarget, j - n_eps);
            }
        }
    }

    let ghost flat = flatten_rels(relocation_data@);
    let rels = relocation_data.get_rel_dyns();
    proof {
        assert(rels@.len() == flat.len());
        assert(forall|k: int|
            0 <= k < rels@.len() ==> ((#[trigger] rels@[k]).0, rels@[k].1, rels@[k].2@)
                == flat[k]);
        lemma_flatten_keys_bound(relocation_data@, label_bound());
        assert(flat.take(0) =~= Seq::<(u64, RelocationType, Seq<u8>)>::empty());
    }
    let mut rel_count: u64 = 0;
    let mut rel_dyns: Vec<RelDyn> = Vec::new();
    let mut i: usize = 0;
    while i < rels.len()
        invariant
            0 <= i <= rels@.len(),
            flat == flatten_rels(relocation_data@),
            svm == dynamic_symbols@,
            eps_spec == syms_of_kind(svm, SymbolKind::EntryPoint),
            cts_spec == syms_of_kind(svm, SymbolKind::CallTarget),
            all_names == sym_names(eps_spec) + sym_names(cts_spec),
            byte_seqs(symbol_names@) == all_names,
            rels@.len() == flat.len(),
            forall|k: int|
                0 <= k < rels@.len() ==> ((#[trigger] rels@[k]).0, rels@[k].1, rels@[k].2@)
                    == flat[k],
            forall|k: int| 0 <= k < flat.len() ==> (#[trigger] flat[k]).0 < label_bound(),
            rel_dyns@.len() == i,
            rel_count <= i,
            rel_count as int == spec_rel_count(flat.take(i as int)),
            forall|k: int|
                0 <= k < i ==> {
                    let e = (#[trigger] rel_dyns@[k]);
                    &&& e.offset == flat[k].0 + spec_ph_offset(false)
                    &&& e.rel_type == flat[k].1.spec_value()
                    &&& (flat[k].1 is RSbfSyscall ==> e.dynstr_offset == 1 + spec_first_name(
                        all_names,
                        flat[k].2,
                    ))
                    &&& (flat[k].1 is RSbf64Relative ==> e.dynstr_offset == 0)
                },
            e_entry == spec_ph_offset(false),
            reloc_syms_consistent(relocation_data@, svm),
            symbol_names@.len() == n_eps + cts@.len(),
            n_eps == eps_spec.len(),
            cts@.len() == cts_spec.len(),
            forall|k: int| 0 <= k < n_eps ==> (#[trigger] symbol_names@[k])@ == eps_spec[k].0,
            forall|k: int|
                0 <= k < cts@.len() ==> (#[trigger] symbol_names@[n_eps + k])@ == cts_spec[k].0,
        decreases rels@.len() - i,
    {
        let entry = &rels[i];
        let offset = entry.0;
        let rel_type = entry.1;
        proof {
            assert(offset == flat[i as int].0);
            assert(offset < label_bound());
            assert(flat.take(i + 1).drop_last() =~= flat.take(i as int));
            assert(flat.take(i + 1).last() == flat[i as int]);
        }
        let is_syscall = match rel_type {
            RelocationType::RSbfSyscall => true,
            _ => false,
        };
        if is_syscall {
            let mut index: usize = 0;
            let mut found = false;
            while index < symbol_names.len() && !found
                invariant
                    0 <= index <= symbol_names@.len(),
                    found ==> index >= 1 && symbol_names@[index - 1]@ == entry.2@ && forall|k: int|
                        0 <= k < index - 1 ==> (#[trigger] symbol_names@[k])@ != entry.2@,
                    !found ==> forall|k: int|
                        0 <= k < index ==> (#[trigger] symbol_names@[k])@ != entry.2@,
                decreases symbol_names@.len() - index + if found {
                    0int
                } else {
                    1int
                },
            {
                if bytes_eq(symbol_names[index].as_slice(), entry.2.as_slice()) {
                    found = true;
                }
                index += 1;
            }
            if found {
                proof {
                    assert(all_names[index - 1] == symbol_names@[index - 1]@);
                    assert forall|k: int| 0 <= k < index - 1 implies (#[trigger] all_names[k])
                        != entry.2@ by {
                        assert(all_names[k] == symbol_names@[k]@);
                    }
                    lemma_first_name_at(all_names, entry.2@, index - 1);
                }
                rel_dyns.push(RelDyn::new(offset + e_entry, 0x0a, index as u64));
            } else {
                proof {
                    lemma_syscall_name_found(relocation_data@, svm, i as int);
                    let w = choose|w: int|
                        0 <= w < cts_spec.len() && (#[trigger] cts_spec[w]).0 == flat[i as int].2;
                    assert(symbol_names@[n_eps + w]@ == cts_spec[w].0);
                    assert(flat[i as int].2 == entry.2@);
                    assert(false);
                }
                rel_dyns.push(RelDyn::new(offset + e_entry, 0x0a, 0));
            }
        } else {
            rel_count = rel_count + 1;
            rel_dyns.push(RelDyn::new(offset + e_entry, 0x08, 0));
        }
        i += 1;
    }
    proof {
        assert(flat.take(flat.len() as int) =~= flat);
    }
    (dyn_syms, symbol_names, rel_dyns, rel_count)
}

/// The layout predicate holds of a dynamic program assembled from its
/// parts: the base sections followed by the five dynamic-linking
/// sections, with the headers and tables as built.
#[verifier::rlimit(100)]
proof fn lemma_dynamic_layout(
    result: ParseResult,
    p: Program,
    ds: DynamicSection,
    sy: DynSymSection,
    st: DynStrSection,
    rl: RelDynSection,
    sh: ShStrTabSection,
    base_sections: Seq<SectionType>,
)
    requires
        !result.prog_is_static,
        p.is_static == result.prog_is_static,
        p.sections@ == base_sections + seq![
            SectionType::Dynamic(ds),
            SectionType::DynSym(sy),
            SectionType::DynStr(st),
            SectionType::RelDyn(rl),
            SectionType::ShStrTab(sh),
        ],
        base_sections.len() == (
        if spec_data_bytes(result.data_section.spec_nodes()).len() > 0 {
            3int
        } else {
            2int
        }),
        base_sections[0] is Default,
        base_sections[1] is Code,
        base_sections.len() == 3 ==> base_sections[2] is Data,
        p.elf_header.e_phnum == 3,
        p.elf_header.e_entry == spec_ph_offset(false),
        p.elf_header.e_shoff % 8 == 0,
        p.elf_header.e_shnum == p.sections@.len(),
        p.elf_header.e_shstrndx == p.sections@.len() - 1,
        p.program_headers@.len() == 3,
        p.program_headers@[0].p_type == 1,
        p.program_headers@[0].p_flags == 5,
        p.program_headers@[0].p_offset == spec_ph_offset(false),
        p.program_headers@[0].p_filesz == result.code_section.spec_size() + spec_data_bytes(
            result.data_section.spec_nodes(),
        ).len(),
        p.program_headers@[1].p_type == 1,
        p.program_headers@[1].p_flags == 4,
        p.program_headers@[1].p_offset == sy.spec_offset(),
        p.program_headers@[2].p_type == 2,
        p.program_headers@[2].p_flags == 6,
        p.program_headers@[2].p_offset == ds.spec_offset(),
        ({
            let eps = syms_of_kind(result.dynamic_symbols@, SymbolKind::EntryPoint);
            let cts = syms_of_kind(result.dynamic_symbols@, SymbolKind::CallTarget);
            let names = sym_names(eps) + sym_names(cts);
            let flat = flatten_rels(result.relocation_data@);
            &&& sy.spec_symbols().len() == 1 + eps.len() + cts.len()
            &&& sy.spec_symbols()[0] == (DynamicSymbol {
                name: 0,
                info: 0,
                other: 0,
                shndx: 0,
                value: 0,
                size: 0,
            })
            &&& forall|k: int|
                0 <= k < eps.len() ==> {
                    let sym = (#[trigger] sy.spec_symbols()[1 + k]);
                    sym.info == 0x10 && sym.shndx == 1 && sym.value == spec_ph_offset(false)
                        && sym.size == 0
                }
            &&& forall|k: int|
                0 <= k < cts.len() ==> {
                    let sym = (#[trigger] sy.spec_symbols()[1 + eps.len() + k]);
                    sym.info == 0x10 && sym.shndx == 0 && sym.value == 0 && sym.size == 0
                }
            &&& st.spec_names() == names
            &&& rl.spec_entries().len() == flat.len()
            &&& forall|j: int|
                0 <= j < flat.len() ==> {
                    let e = (#[trigger] rl.spec_entries()[j]);
                    &&& e.offset == flat[j].0 + spec_ph_offset(false)
                    &&& e.rel_type == flat[j].1.spec_value()
                    &&& (flat[j].1 is RSbfSyscall ==> e.dynstr_offset == 1 + spec_first_name(
                        names,
                        flat[j].2,
                    ))
                    &&& (flat[j].1 is RSbf64Relative ==> e.dynstr_offset == 0)
                }
            &&& ds.spec_rel_count() as int == spec_rel_count(flat)
            &&& ds.spec_rel_offset() == rl.spec_offset()
            &&& ds.spec_dynsym_offset() == sy.spec_offset()
            &&& ds.spec_dynstr_offset() == st.spec_offset()
        }),
    ensures
        spec_program_of(result, p),
{
    reveal(spec_program_of);
    let b = base_sections.len() as int;
    assert(p.sections@.len() == b + 5);
    assert(p.sections@[b] == SectionType::Dynamic(ds));
    assert(p.sections@[b + 1] == SectionType::DynSym(sy));
    assert(p.sections@[b + 2] == SectionType::DynStr(st));
    assert(p.sections@[b + 3] == SectionType::RelDyn(rl));
    assert(p.sections@[b + 4] == SectionType::ShStrTab(sh));
    assert(p.sections@[0] == base_sections[0]);
    assert(p.sections@[1] == base_sections[1]);
    if b == 3 {
        assert(p.sections@[2] == base_sections[2]);
    }
    assert(p.sections@.last() is ShStrTab);
    let eps = syms_of_kind(result.dynamic_symbols@, SymbolKind::EntryPoint);
    let cts = syms_of_kind(result.dynamic_symbols@, SymbolKind::CallTarget);
    let names = sym_names(eps) + sym_names(cts);
    let flat = flatten_rels(result.relocation_data@);
    assert(p.sections@[b]->Dynamic_0 == ds);
    assert(p.sections@[b + 1]->DynSym_0 == sy);
    assert(p.sections@[b + 2]->DynStr_0 == st);
    assert(p.sections@[b + 3]->RelDyn_0 == rl);
    assert forall|j: int|
        0 <= j < flat.len() implies {
        let e = (#[trigger] p.sections@[b + 3]->RelDyn_0.spec_entries()[j]);
        &&& e.offset == flat[j].0 + spec_ph_offset(false)
        &&& e.rel_type == flat[j].1.spec_value()
        &&& (flat[j].1 is RSbfSyscall ==> e.dynstr_offset == 1 + spec_first_name(names, flat[j].2))
        &&& (flat[j].1 is RSbf64Relative ==> e.dynstr_offset == 0)
    } by {
        let e0 = rl.spec_entries()[j];
        assert(e0.offset == flat[j].0 + spec_ph_offset(false));
    }
    assert forall|k: int|
        0 <= k < eps.len() implies {
        let sym = (#[trigger] p.sections@[b + 1]->DynSym_0.spec_symbols()[1 + k]);
        sym.info == 0x10 && sym.shndx == 1 && sym.value == spec_ph_offset(false) && sym.size == 0
    } by {
        let s0 = sy.spec_symbols()[1 + k];
        assert(s0.info == 0x10);
    }
    assert forall|k: int|
        0 <= k < cts.len() implies {
        let sym = (#[trigger] p.sections@[b + 1]->DynSym_0.spec_symbols()[1 + eps.len() + k]);
        sym.info == 0x10 && sym.shndx == 0 && sym.value == 0 && sym.size == 0
    } by {
        let s0 = sy.spec_symbols()[1 + eps.len() + k];
        assert(s0.info == 0x10);
    }
}

impl Program {
    /// Lay the program out: compute every section's file offset in
    /// allocation order, cross-fill `.dynamic`, and fix the header
    /// fields.
    pub fn from_parse_result(result: ParseResult) -> (r: Program)
        requires
            result.code_section.spec_size() <= 0x4000_0000_0000,
            result.code_section.spec_size() % 8 == 0,
            crate::section::spec_data_content(result.data_section.spec_nodes()).len()
                <= 0x0400_0000,
            result.dynamic_symbols@.len() <= 0x0400_0001,
            forall|j: int|
                0 <= j < result.dynamic_symbols@.len() ==> (
                #[trigger] result.dynamic_symbols@[j]).0.len() <= 0x0400_0000,
            flatten_rels(result.relocation_data@).len() <= 0x0400_0000,
            forall|j: int|
                0 <= j < result.relocation_data@.len() ==> (
                #[trigger] result.relocation_data@[j]).0 < label_bound(),
            reloc_syms_consistent(result.relocation_data@, result.dynamic_symbols@),
            (result.prog_is_static <==> result.relocation_data@.len() == 0),
        ensures
            spec_program_of(result, r),
    {
        if result.prog_is_static {
            Self::layout_static(result)
        } else {
            Self::layout_dynamic(result)
        }
    }

    /// Lay out a static program: the null section, the code, the data if
    /// any, and the section-name table.
    #[verifier::rlimit(100)]
    #[verifier::spinoff_prover]
    fn layout_static(result: ParseResult) -> (r: Program)
        requires
            result.code_section.spec_size() <= 0x4000_0000_0000,
            result.code_section.spec_size() % 8 == 0,
            crate::section::spec_data_content(result.data_section.spec_nodes()).len()
                <= 0x0400_0000,
            result.dynamic_symbols@.len() <= 0x0400_0001,
            forall|j: int|
                0 <= j < result.dynamic_symbols@.len() ==> (
                #[trigger] result.dynamic_symbols@[j]).0.len() <= 0x0400_0000,
            flatten_rels(result.relocation_data@).len() <= 0x0400_0000,
            forall|j: int|
                0 <= j < result.relocation_data@.len() ==> (
                #[trigger] result.relocation_data@[j]).0 < label_bound(),
            reloc_syms_consistent(result.relocation_data@, result.dynamic_symbols@),
            (result.prog_is_static <==> result.relocation_data@.len() == 0),
            result.prog_is_static,
        ensures
            spec_program_of(result, r),
    {
        let ParseResult {
            code_section,
            data_section,
            dynamic_symbols,
            relocation_data,
            prog_is_static: is_static,
        } = result;
        let mut elf_header = ElfHeader::new();
        let ph_count: u64 = 1;
        elf_header.e_phnum = ph_count as u16;
        let mut current_offset: u64 = 64 + ph_count * 56;
        elf_header.e_entry = current_offset;
        let ghost e_entry = current_offset;

        let text_size = code_section.get_size();
        let data_payload = data_section.payload();
        let data_size = data_payload.len() as u64;
        proof {
            assert(data_size <= 0x0400_0000 + 7);
        }

        let mut program_headers: Vec<ProgramHeader> = Vec::new();
        program_headers.push(ProgramHeader::new_load(elf_header.e_entry, text_size + data_size, true));

        let mut sections: Vec<SectionType> = Vec::new();
        sections.push(SectionType::Default(NullSection::new()));

        // The section-name table content built so far: its length is the
        // name offset the next section's header will use.
        let mut shstr: Vec<u8> = Vec::new();
        shstr.push(0);
        let mut section_names: Vec<Vec<u8>> = Vec::new();

        let mut text_section = SectionType::Code(code_section);
        text_section.set_offset(current_offset);
        current_offset = current_offset + text_size;
        section_names.push(vstd::slice::slice_to_vec(".text".as_bytes()));
        shstr.extend_from_slice(".text".as_bytes());
        shstr.push(0);
        sections.push(text_section);

        let has_data = data_payload.len() > 0;
        if has_data {
            let mut rodata_section = SectionType::Data(data_section);
            rodata_section.set_offset(current_offset);
            current_offset = current_offset + data_size;
            section_names.push(vstd::slice::slice_to_vec(".rodata".as_bytes()));
            shstr.extend_from_slice(".rodata".as_bytes());
            shstr.push(0);
            sections.push(rodata_section);
        }

        let padding = (8 - (current_offset % 8)) % 8;
        current_offset = current_offset + padding;

            proof {
                crate::section::lemma_section_name_lens();
                assert forall|j: int|
                    0 <= j < section_names@.len() implies (#[trigger] section_names@[j])@.len()
                    <= 9 by {
                    if j == 0 {
                        assert(section_names@[0]@ == ".text".spec_bytes());
                    } else {
                        assert(section_names@[j]@ == ".rodata".spec_bytes());
                    }
                }
            }
            // The names of the sections so far: the null section's empty
            // name, then each named section.
            let mut plain_names: Vec<Vec<u8>> = Vec::new();
            plain_names.push(Vec::new());
            let mut k: usize = 0;
            while k < section_names.len()
                invariant
                    0 <= k <= section_names@.len(),
                    plain_names@.len() == k + 1,
                    section_names@.len() <= 2,
                    forall|j: int|
                        1 <= j < plain_names@.len() ==> (#[trigger] plain_names@[j])@
                            == section_names@[j - 1]@,
                    plain_names@[0]@ =~= Seq::<u8>::empty(),
                    forall|j: int|
                        0 <= j < section_names@.len() ==> (#[trigger] section_names@[j])@.len()
                            <= 9,
                decreases section_names@.len() - k,
            {
                plain_names.push(vstd::slice::slice_to_vec(section_names[k].as_slice()));
                k += 1;
            }
            proof {
                crate::section::lemma_section_name_lens();
                assert forall|j: int|
                    0 <= j < byte_seqs(plain_names@).len() implies (#[trigger] byte_seqs(
                    plain_names@,
                )[j]).len() <= 9 by {
                    assert(byte_seqs(plain_names@)[j] == plain_names@[j]@);
                }
            }
            let mut shstrtab_section = ShStrTabSection::new(
                #[verifier::truncate] (shstr.len() as u32),
                plain_names,
            );
            shstrtab_section.set_offset(current_offset);
            let shstrtab_size = shstrtab_section.section_size();
            proof {
                crate::section::lemma_section_name_lens();
                assert(shstrtab_section.spec_names().len() <= 4);
                assert forall|j: int|
                    0 <= j < shstrtab_section.spec_names().len() implies (
                #[trigger] shstrtab_section.spec_names()[j]).len() <= 9 by {
                    if j < byte_seqs(plain_names@).len() {
                        assert(shstrtab_section.spec_names()[j] == plain_names@[j]@);
                    } else {
                        assert(shstrtab_section.spec_names()[j] == ".shstrtab".spec_bytes());
                    }
                }
                crate::section::lemma_strtab_content_len_bound(shstrtab_section.spec_names(), 9);
                assert(shstrtab_size <= 1 + 4 * 10 + 7);
            }
            current_offset = current_offset + shstrtab_size;
            sections.push(SectionType::ShStrTab(shstrtab_section));
        
        proof {
            assert(current_offset <= 0x4200_0000_0000_0000);
        }
        let padding2 = (8 - (current_offset % 8)) % 8;
        elf_header.e_shoff = current_offset + padding2;
        elf_header.e_shnum = #[verifier::truncate] (sections.len() as u16);
        elf_header.e_shstrndx = #[verifier::truncate] ((sections.len() - 1) as u16);

        let built = Program { is_static, elf_header, program_headers, sections };
        proof {
            reveal(spec_program_of);
        }
        built
    }

    /// Lay out a dynamic program: the static sections followed by the
    /// dynamic-linking tables, their cross-filled directory, and the two
    /// extra program headers.
    #[verifier::rlimit(100)]
    #[verifier::spinoff_prover]
    fn layout_dynamic(result: ParseResult) -> (r: Program)
        requires
            result.code_section.spec_size() <= 0x4000_0000_0000,
            result.code_section.spec_size() % 8 == 0,
            crate::section::spec_data_content(result.data_section.spec_nodes()).len()
                <= 0x0400_0000,
            result.dynamic_symbols@.len() <= 0x0400_0001,
            forall|j: int|
                0 <= j < result.dynamic_symbols@.len() ==> (
                #[trigger] result.dynamic_symbols@[j]).0.len() <= 0x0400_0000,
            flatten_rels(result.relocation_data@).len() <= 0x0400_0000,
            forall|j: int|
                0 <= j < result.relocation_data@.len() ==> (
                #[trigger] result.relocation_data@[j]).0 < label_bound(),
            reloc_syms_consistent(result.relocation_data@, result.dynamic_symbols@),
            (result.prog_is_static <==> result.relocation_data@.len() == 0),
            !result.prog_is_static,
        ensures
            spec_program_of(result, r),
    {
        let ghost gres = result;
        let ParseResult {
            code_section,
            data_section,
            dynamic_symbols,
            relocation_data,
            prog_is_static: is_static,
        } = result;
        let mut elf_header = ElfHeader::new();
        let ph_count: u64 = 3;
        elf_header.e_phnum = ph_count as u16;
        let mut current_offset: u64 = 64 + ph_count * 56;
        elf_header.e_entry = current_offset;
        let ghost e_entry = current_offset;

        let text_size = code_section.get_size();
        let data_payload = data_section.payload();
        let data_size = data_payload.len() as u64;
        proof {
            assert(data_size <= 0x0400_0000 + 7);
        }

        let mut program_headers: Vec<ProgramHeader> = Vec::new();
        program_headers.push(ProgramHeader::new_load(elf_header.e_entry, text_size + data_size, true));

        let mut sections: Vec<SectionType> = Vec::new();
        sections.push(SectionType::Default(NullSection::new()));

        // The section-name table content built so far: its length is the
        // name offset the next section's header will use.
        let mut shstr: Vec<u8> = Vec::new();
        shstr.push(0);
        let mut section_names: Vec<Vec<u8>> = Vec::new();

        let mut text_section = SectionType::Code(code_section);
        text_section.set_offset(current_offset);
        current_offset = current_offset + text_size;
        section_names.push(vstd::slice::slice_to_vec(".text".as_bytes()));
        shstr.extend_from_slice(".text".as_bytes());
        shstr.push(0);
        sections.push(text_section);

        let has_data = data_payload.len() > 0;
        if has_data {
            let mut rodata_section = SectionType::Data(data_section);
            rodata_section.set_offset(current_offset);
            current_offset = current_offset + data_size;
            section_names.push(vstd::slice::slice_to_vec(".rodata".as_bytes()));
            shstr.extend_from_slice(".rodata".as_bytes());
            shstr.push(0);
            sections.push(rodata_section);
        }

        let padding = (8 - (current_offset % 8)) % 8;
        current_offset = current_offset + padding;

            let ghost svm = dynamic_symbols@;
            let ghost eps_spec = syms_of_kind(svm, SymbolKind::EntryPoint);
            let ghost cts_spec = syms_of_kind(svm, SymbolKind::CallTarget);
            let ghost all_names = sym_names(eps_spec) + sym_names(cts_spec);
            let ghost flat = flatten_rels(relocation_data@);
            let tables = build_dynamic_tables(
                &dynamic_symbols,
                &relocation_data,
                elf_header.e_entry,
            );
            let (dyn_syms, symbol_names, rel_dyns, rel_count) = tables;
            proof {
                lemma_syms_of_kind_len(svm, SymbolKind::EntryPoint);
                lemma_syms_of_kind_len(svm, SymbolKind::CallTarget);
                assert(eps_spec.len() <= 0x0400_0001);
                assert(cts_spec.len() <= 0x0400_0001);
                assert(dyn_syms@.len() <= 1 + 0x0400_0001 + 0x0400_0001);
            }

            let mut dynamic_section = DynamicSection::new(
                #[verifier::truncate] (shstr.len() as u32),
            );
            dynamic_section.set_offset(current_offset);
            dynamic_section.set_rel_count(rel_count);
            let dynamic_offset = current_offset;
            section_names.push(vstd::slice::slice_to_vec(".dynamic".as_bytes()));
            shstr.extend_from_slice(".dynamic".as_bytes());
            shstr.push(0);
            let dynamic_size = dynamic_section.section_size();
            proof {
                assert(current_offset <= 232 + 0x4000_0000_0000 + 0x0400_0008 + 7);
            }
            current_offset = current_offset + dynamic_size;

            let mut dynsym_section = DynSymSection::new(
                #[verifier::truncate] (shstr.len() as u32),
                dyn_syms,
            );
            dynsym_section.set_offset(current_offset);
            let dynsym_offset = current_offset;
            let dynsym_size = dynsym_section.section_size();
            proof {
                crate::section::lemma_dynsym_payload_len(dynsym_section.spec_symbols());
                assert(dynsym_size <= 24 * (1 + 0x0400_0001 + 0x0400_0001));
            }
            current_offset = current_offset + dynsym_size;
            section_names.push(vstd::slice::slice_to_vec(".dynsym".as_bytes()));
            shstr.extend_from_slice(".dynsym".as_bytes());
            shstr.push(0);

            let ghost dynstr_names = byte_seqs(symbol_names@);
            proof {
                assert(dynstr_names.len() == symbol_names@.len());
                assert forall|j: int|
                    0 <= j < dynstr_names.len() implies (#[trigger] dynstr_names[j]).len()
                    <= 0x0400_0000 by {
                    assert(dynstr_names[j] == symbol_names@[j]@);
                }
            }
            let mut dynstr_section = DynStrSection::new(
                #[verifier::truncate] (shstr.len() as u32),
                symbol_names,
            );
            dynstr_section.set_offset(current_offset);
            let dynstr_offset = current_offset;
            let dynstr_size = dynstr_section.section_size();
            proof {
                lemma_dynstr_content_len_bound(dynstr_names, 0x0400_0000);
                assert((0x0400_0001int + 0x0400_0001) * (0x0400_0000 + 1) < 0x0100_0000_0000_0000)
                    by (nonlinear_arith);
                assert(dynstr_size <= 0x0100_0000_0000_0000 + 8);
            }
            current_offset = current_offset + dynstr_size;
            section_names.push(vstd::slice::slice_to_vec(".dynstr".as_bytes()));
            shstr.extend_from_slice(".dynstr".as_bytes());
            shstr.push(0);

            let mut rel_dyn_section = RelDynSection::new(
                #[verifier::truncate] (shstr.len() as u32),
                rel_dyns,
            );
            rel_dyn_section.set_offset(current_offset);
            let rel_dyn_offset = current_offset;
            let rel_dyn_size = rel_dyn_section.size();
            proof {
                lemma_reldyn_entry_sizes(rel_dyn_section.spec_entries());
                assert(rel_dyn_size <= 16 * 0x0400_0000);
            }
            current_offset = current_offset + rel_dyn_size;
            section_names.push(vstd::slice::slice_to_vec(".rel.dyn".as_bytes()));
            shstr.extend_from_slice(".rel.dyn".as_bytes());
            shstr.push(0);

            dynamic_section.set_rel_offset(rel_dyn_offset);
            dynamic_section.set_rel_size(rel_dyn_size);
            dynamic_section.set_dynsym_offset(dynsym_offset);
            dynamic_section.set_dynstr_offset(dynstr_offset);
            dynamic_section.set_dynstr_size(dynstr_size);

            proof {
                crate::section::lemma_section_name_lens();
                assert(byte_seqs(section_names@).len() <= 7);
                assert forall|j: int|
                    0 <= j < byte_seqs(section_names@).len() implies (#[trigger] byte_seqs(
                    section_names@,
                )[j]).len() <= 9 by {
                    assert(byte_seqs(section_names@)[j] == section_names@[j]@);
                }
            }
            let mut shstrtab_section = ShStrTabSection::new(
                #[verifier::truncate] (shstr.len() as u32),
                section_names,
            );
            shstrtab_section.set_offset(current_offset);
            let shstrtab_size = shstrtab_section.section_size();
            proof {
                crate::section::lemma_section_name_lens();
                crate::section::lemma_strtab_content_len_bound(
                    shstrtab_section.spec_names(),
                    9,
                );
                assert(shstrtab_section.spec_names().len() <= 8);
                assert(shstrtab_size <= 1 + 8 * 10 + 7);
            }
            current_offset = current_offset + shstrtab_size;

            let ro_header = ProgramHeader::new_load(
                dynsym_offset,
                dynsym_size + dynstr_size + rel_dyn_size,
                false,
            );
            let dynamic_header = ProgramHeader::new_dynamic(dynamic_offset, dynamic_size);

            let ghost base_sections = sections@;
            let ghost gds = dynamic_section;
            let ghost gsy = dynsym_section;
            let ghost gst = dynstr_section;
            let ghost grl = rel_dyn_section;
            let ghost gsh = shstrtab_section;
            sections.push(SectionType::Dynamic(dynamic_section));
            sections.push(SectionType::DynSym(dynsym_section));
            sections.push(SectionType::DynStr(dynstr_section));
            sections.push(SectionType::RelDyn(rel_dyn_section));
            sections.push(SectionType::ShStrTab(shstrtab_section));
            proof {
                assert(sections@ =~= base_sections + seq![
                    SectionType::Dynamic(gds),
                    SectionType::DynSym(gsy),
                    SectionType::DynStr(gst),
                    SectionType::RelDyn(grl),
                    SectionType::ShStrTab(gsh),
                ]);
            }

            program_headers.push(ro_header);
            program_headers.push(dynamic_header);
        proof {
            assert(current_offset <= 0x4200_0000_0000_0000);
        }
        let padding2 = (8 - (current_offset % 8)) % 8;
        elf_header.e_shoff = current_offset + padding2;
        elf_header.e_shnum = #[verifier::truncate] (sections.len() as u16);
        elf_header.e_shstrndx = #[verifier::truncate] ((sections.len() - 1) as u16);

        let built = Program { is_static, elf_header, program_headers, sections };
        proof {
            lemma_dynamic_layout(gres, built, gds, gsy, gst, grl, gsh, base_sections);
        }
        built
    }

    /// Emit the program: the file header, the program headers in order,
    /// every section payload in allocation order, then every section
    /// header.
    #[verifier::rlimit(100)]
    pub fn emit_bytecode(&self) -> (r: Vec<u8>)
        ensures
            r@ == spec_emit_bytes(*self),
    {
        let mut bytes: Vec<u8> = Vec::new();
        let header = self.elf_header.bytecode();
        bytes.extend_from_slice(header.as_slice());
        let mut i: usize = 0;
        proof {
            assert(self.program_headers@.take(0) =~= Seq::<ProgramHeader>::empty());
            assert(bytes@ =~= spec_elf_header_bytes(self.elf_header) + spec_ph_bytes(
                self.program_headers@.take(0),
            ));
        }
        while i < self.program_headers.len()
            invariant
                0 <= i <= self.program_headers@.len(),
                bytes@ == spec_elf_header_bytes(self.elf_header) + spec_ph_bytes(
                    self.program_headers@.take(i as int),
                ),
            decreases self.program_headers@.len() - i,
        {
            proof {
                assert(self.program_headers@.take(i + 1).drop_last() =~= self.program_headers@.take(
                    i as int,
                ));
                assert(self.program_headers@.take(i + 1).last() == self.program_headers@[i as int]);
            }
            let ph = self.program_headers[i].bytecode();
            bytes.extend_from_slice(ph.as_slice());
            proof {
                assert(bytes@ =~= spec_elf_header_bytes(self.elf_header) + spec_ph_bytes(
                    self.program_headers@.take(i + 1),
                ));
            }
            i += 1;
        }
        proof {
            assert(self.program_headers@.take(self.program_headers@.len() as int)
                =~= self.program_headers@);
        }
        let ghost prefix = bytes@;
        let mut i: usize = 0;
        proof {
            assert(self.sections@.take(0) =~= Seq::<SectionType>::empty());
            assert(bytes@ =~= prefix + spec_payload_bytes(self.sections@.take(0)));
        }
        while i < self.sections.len()
            invariant
                0 <= i <= self.sections@.len(),
                prefix == spec_elf_header_bytes(self.elf_header) + spec_ph_bytes(
                    self.program_headers@,
                ),
                bytes@ == prefix + spec_payload_bytes(self.sections@.take(i as int)),
            decreases self.sections@.len() - i,
        {
            proof {
                assert(self.sections@.take(i + 1).drop_last() =~= self.sections@.take(i as int));
                assert(self.sections@.take(i + 1).last() == self.sections@[i as int]);
            }
            let payload = self.sections[i].bytecode();
            bytes.extend_from_slice(payload.as_slice());
            proof {
                assert(bytes@ =~= prefix + spec_payload_bytes(self.sections@.take(i + 1)));
            }
            i += 1;
        }
        proof {
            assert(self.sections@.take(self.sections@.len() as int) =~= self.sections@);
        }
        let ghost prefix2 = bytes@;
        let mut i: usize = 0;
        proof {
            assert(self.sections@.take(0) =~= Seq::<SectionType>::empty());
            assert(bytes@ =~= prefix2 + spec_sh_bytes(self.sections@.take(0)));
        }
        while i < self.sections.len()
            invariant
                0 <= i <= self.sections@.len(),
                prefix2 == spec_elf_header_bytes(self.elf_header) + spec_ph_bytes(
                    self.program_headers@,
                ) + spec_payload_bytes(self.sections@),
                bytes@ == prefix2 + spec_sh_bytes(self.sections@.take(i as int)),
            decreases self.sections@.len() - i,
        {
            proof {
                assert(self.sections@.take(i + 1).drop_last() =~= self.sections@.take(i as int));
                assert(self.sections@.take(i + 1).last() == self.sections@[i as int]);
            }
            let sh = self.sections[i].section_header_bytecode();
            bytes.extend_from_slice(sh.as_slice());
            proof {
                assert(bytes@ =~= prefix2 + spec_sh_bytes(self.sections@.take(i + 1)));
            }
            i += 1;
        }
        proof {
            assert(self.sections@.take(self.sections@.len() as int) =~= self.sections@);
            assert(bytes@ == spec_emit_bytes(*self));
        }
        bytes
    }

    /// Whether a read-only data section was laid out.
    pub fn has_rodata(&self) -> (r: bool)
        ensures
            r == exists|j: int| 0 <= j < self.sections@.len() && (#[trigger] self.sections@[j])
                is Data,
    {
        let mut i: usize = 0;
        while i < self.sections.len()
            invariant
                0 <= i <= self.sections@.len(),
                forall|j: int| 0 <= j < i ==> !((#[trigger] self.sections@[j]) is Data),
            decreases self.sections@.len() - i,
        {
            match &self.sections[i] {
                SectionType::Data(_) => {
                    proof {
                        assert((self.sections@[i as int]) is Data);
                    }
                    return true;
                }
                _ => {}
            }
            i += 1;
        }
        false
    }

    /// The read-only entries of the first data section, if one was laid
    /// out: each label with its offset and its string bytes, in order.
    pub fn parse_rodata(&self) -> (r: Vec<(Vec<u8>, usize, Vec<u8>)>)
        ensures
            first_data_index(self.sections@) < 0 ==> r@ =~= Seq::<
                (Vec<u8>, usize, Vec<u8>),
            >::empty(),
            first_data_index(self.sections@) >= 0 ==> r@.map_values(
                |t: (Vec<u8>, usize, Vec<u8>)| (t.0@, t.1, t.2@),
            ) == crate::section::spec_rodata_entries(
                self.sections@[first_data_index(self.sections@)]->Data_0.spec_nodes(),
            ),
    {
        let mut i: usize = 0;
        while i < self.sections.len()
            invariant
                0 <= i <= self.sections@.len(),
                forall|j: int| 0 <= j < i ==> !((#[trigger] self.sections@[j]) is Data),
            decreases self.sections@.len() - i,
        {
            match &self.sections[i] {
                SectionType::Data(ds) => {
                    proof {
                        lemma_first_data_at(self.sections@, i as int);
                    }
                    return ds.rodata();
                }
                _ => {}
            }
            i += 1;
        }
        proof {
            lemma_first_data_none(self.sections@);
        }
        Vec::new()
    }

    /// The line map of the first code section. The builder keeps it
    /// empty, as the original did; source lines live in the debug map.
    pub fn get_line_map(&self) -> (r: Vec<(u64, usize)>)
        ensures
            first_code_index(self.sections@) < 0 ==> r@ =~= Seq::<(u64, usize)>::empty(),
            first_code_index(self.sections@) >= 0 ==> r@ == self.sections@[first_code_index(
                self.sections@,
            )]->Code_0.spec_line_map(),
    {
        let mut i: usize = 0;
        while i < self.sections.len()
            invariant
                0 <= i <= self.sections@.len(),
                forall|j: int| 0 <= j < i ==> !((#[trigger] self.sections@[j]) is Code),
            decreases self.sections@.len() - i,
        {
            match &self.sections[i] {
                SectionType::Code(cs) => {
                    proof {
                        lemma_first_code_at(self.sections@, i as int);
                    }
                    return vstd::slice::slice_to_vec(cs.get_line_map().as_slice());
                }
                _ => {}
            }
            i += 1;
        }
        proof {
            lemma_first_code_none(self.sections@);
        }
        Vec::new()
    }

    /// The debug records of the first code section, keyed by offset.
    pub fn get_debug_map(&self) -> (r: Vec<(u64, DebugInfo)>)
        ensures
            first_code_index(self.sections@) < 0 ==> r@ =~= Seq::<(u64, DebugInfo)>::empty(),
            first_code_index(self.sections@) >= 0 ==> r@ == self.sections@[first_code_index(
                self.sections@,
            )]->Code_0.spec_debug_map(),
    {
        let mut i: usize = 0;
        while i < self.sections.len()
            invariant
                0 <= i <= self.sections@.len(),
                forall|j: int| 0 <= j < i ==> !((#[trigger] self.sections@[j]) is Code),
            decreases self.sections@.len() - i,
        {
            match &self.sections[i] {
                SectionType::Code(cs) => {
                    proof {
                        lemma_first_code_at(self.sections@, i as int);
                    }
                    return vstd::slice::slice_to_vec(cs.get_debug_map().as_slice());
                }
                _ => {}
            }
            i += 1;
        }
        proof {
            lemma_first_code_none(self.sections@);
        }
        Vec::new()
    }
}

/// The bytes emission produces for a program: file header, program
/// headers, payloads in allocation order, then the section headers.
pub open spec fn spec_emit_bytes(p: Program) -> Seq<u8> {
    spec_elf_header_bytes(p.elf_header) + spec_ph_bytes(p.program_headers@) + spec_payload_bytes(
        p.sections@,
    ) + spec_sh_bytes(p.sections@)
}

/// The concatenated program-header records.
pub open spec fn spec_ph_bytes(phs: Seq<ProgramHeader>) -> Seq<u8>
    decreases phs.len(),
{
    if phs.len() == 0 {
        Seq::empty()
    } else {
        spec_ph_bytes(phs.drop_last()) + spec_program_header_bytes(phs.last())
    }
}

/// The concatenated section payloads, in allocation order.
pub open spec fn spec_payload_bytes(sections: Seq<SectionType>) -> Seq<u8>
    decreases sections.len(),
{
    if sections.len() == 0 {
        Seq::empty()
    } else {
        spec_payload_bytes(sections.drop_last()) + sections.last().spec_payload()
    }
}

/// The concatenated section-header records, in order.
pub open spec fn spec_sh_bytes(sections: Seq<SectionType>) -> Seq<u8>
    decreases sections.len(),
{
    if sections.len() == 0 {
        Seq::empty()
    } else {
        spec_sh_bytes(sections.drop_last()) + crate::header::spec_section_header_bytes(
            sections.last().spec_section_header(),
        )
    }
}

/// Each projected name keeps the bound every recorded name obeys.
pub proof fn lemma_kind_names_bounded(
    sv: Seq<(Seq<u8>, Seq<(SymbolKind, u64)>)>,
    kind: SymbolKind,
    i: int,
)
    requires
        forall|j: int| 0 <= j < sv.len() ==> (#[trigger] sv[j]).0.len() <= 0x0400_0000,
        0 <= i < syms_of_kind(sv, kind).len(),
    ensures
        syms_of_kind(sv, kind)[i].0.len() <= 0x0400_0000,
    decreases sv.len(),
{
    if sv.len() > 0 {
        assert(forall|j: int|
            0 <= j < sv.drop_last().len() ==> sv.drop_last()[j] == (#[trigger] sv[j]));
        let init = syms_of_kind(sv.drop_last(), kind);
        if i < init.len() {
            lemma_kind_names_bounded(sv.drop_last(), kind, i);
            assert(syms_of_kind(sv, kind)[i] == init[i]);
        } else {
            assert(syms_of_kind(sv, kind)[i].0 == sv.last().0);
            assert(sv[sv.len() - 1].0.len() <= 0x0400_0000);
        }
    }
}

/// A syscall relocation's name appears among the call-target
/// projections.
pub proof fn lemma_syscall_name_found(
    rel: Seq<(u64, Seq<(RelocationType, Seq<u8>)>)>,
    svm: Seq<(Seq<u8>, Seq<(SymbolKind, u64)>)>,
    i: int,
)
    requires
        reloc_syms_consistent(rel, svm),
        0 <= i < flatten_rels(rel).len(),
        flatten_rels(rel)[i].1 is RSbfSyscall,
    ensures
        exists|w: int|
            0 <= w < syms_of_kind(svm, SymbolKind::CallTarget).len() && (#[trigger] syms_of_kind(
                svm,
                SymbolKind::CallTarget,
            )[w]).0 == flatten_rels(rel)[i].2,
{
    lemma_rel_position(rel, i);
    let gp = spec_rel_position(rel, i);
    let g = gp.0;
    let pp = gp.1;
    assert(rel[g].1[pp].0 is RSbfSyscall);
    let j = choose|j: int|
        0 <= j < svm.len() && (#[trigger] svm[j]).0 == rel[g].1[pp].1 && has_kind(
            svm[j].1,
            SymbolKind::CallTarget,
        );
    lemma_name_in_syms_of_kind(svm, SymbolKind::CallTarget, j);
}

/// The kind projection has at most one entry per group.
pub proof fn lemma_syms_of_kind_len(sv: Seq<(Seq<u8>, Seq<(SymbolKind, u64)>)>, kind: SymbolKind)
    ensures
        syms_of_kind(sv, kind).len() <= sv.len(),
    decreases sv.len(),
{
    if sv.len() > 0 {
        lemma_syms_of_kind_len(sv.drop_last(), kind);
    }
}

/// The dynamic-string content grows by at most each name plus its
/// terminator.
pub proof fn lemma_dynstr_content_len_bound(names: Seq<Seq<u8>>, per: int)
    requires
        forall|j: int| 0 <= j < names.len() ==> (#[trigger] names[j]).len() <= per,
        per >= 0,
    ensures
        crate::section::spec_dynstr_content(names).len() <= 1 + names.len() * (per + 1),
    decreases names.len(),
{
    if names.len() > 0 {
        assert(forall|j: int|
            0 <= j < names.drop_last().len() ==> names.drop_last()[j] == (#[trigger] names[j]));
        lemma_dynstr_content_len_bound(names.drop_last(), per);
        assert(names.last().len() <= per);
        assert((names.len() - 1) * (per + 1) + (per + 1) == names.len() * (per + 1))
            by (nonlinear_arith);
    }
}

/// Every relocation record the layout builds is 16 bytes.
pub proof fn lemma_reldyn_entry_sizes(entries: Seq<RelDyn>)
    requires
        forall|j: int|
            0 <= j < entries.len() ==> (#[trigger] entries[j]).rel_type == 0x08
                || entries[j].rel_type == 0x0a,
    ensures
        crate::section::spec_reldyn_payload(entries).len() == 16 * entries.len(),
{
    crate::section::lemma_reldyn_payload_len(entries);
}

/// The group and occurrence a flattened index came from.
pub open spec fn spec_rel_position(
    sv: Seq<(u64, Seq<(RelocationType, Seq<u8>)>)>,
    i: int,
) -> (int, int)
    decreases sv.len(),
{
    if sv.len() == 0 {
        (0, 0)
    } else {
        let base = flatten_rels(sv.drop_last()).len() as int;
        if i < base {
            spec_rel_position(sv.drop_last(), i)
        } else {
            (sv.len() - 1, i - base)
        }
    }
}

/// The position is valid and reproduces the flattened triple.
pub open spec fn rel_position_valid(sv: Seq<(u64, Seq<(RelocationType, Seq<u8>)>)>, i: int) -> bool {
    let gp = spec_rel_position(sv, i);
    &&& 0 <= gp.0 < sv.len()
    &&& 0 <= gp.1 < sv[gp.0].1.len()
    &&& flatten_rels(sv)[i] == (sv[gp.0].0, sv[gp.0].1[gp.1].0, sv[gp.0].1[gp.1].1)
}

/// Every flattened index has a source position.
pub proof fn lemma_rel_position(sv: Seq<(u64, Seq<(RelocationType, Seq<u8>)>)>, i: int)
    requires
        0 <= i < flatten_rels(sv).len(),
    ensures
        rel_position_valid(sv, i),
    decreases sv.len(),
{
    if sv.len() > 0 {
        crate::dynsym::lemma_flatten_last(sv);
        let base = flatten_rels(sv.drop_last()).len() as int;
        if i < base {
            lemma_rel_position(sv.drop_last(), i);
            let gp = spec_rel_position(sv.drop_last(), i);
            assert(sv.drop_last()[gp.0] == sv[gp.0]);
            assert(flatten_rels(sv)[i] == flatten_rels(sv.drop_last())[i]);
        } else {
            assert(flatten_rels(sv)[base + (i - base)] == (
                sv.last().0,
                sv.last().1[i - base].0,
                sv.last().1[i - base].1,
            ));
            assert(sv[sv.len() - 1] == sv.last());
        }
    }
}

} // verus!
