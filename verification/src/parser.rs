//! The parser: token stream to AST with offset assignment, constant
//! folding, opcode specialization, and relocation recording, followed by
//! a second pass that resolves jump and wide-load label operands.

use vstd::prelude::*;
use vstd::string::StringSliceAdditionalSpecFns;
use crate::span::Span;
use crate::lexer::{
    Token, TokenView, ImmediateValue, Op, spec_imm_add, spec_imm_sub, token_views,
};
use crate::errors::{CompileError, ErrorView, error_views};
use crate::opcode::Opcode;
use crate::astnode::{
    ASTNode, Directive, GlobalDecl, EquDecl, ExternDecl, RodataDecl, Label, Instruction, ROData,
    spec_instruction_bytes, spec_instruction_size, spec_needs_relocation, spec_rodata_bytes,
};
use crate::section::{CodeSection, DataSection, spec_text_bytes};
use crate::dynsym::{DynamicSymbolMap, RelDynMap, RelocationType};
use crate::bytesutil::bytes_eq;
use crate::messages::{
    EXPECTS_LABEL_DIR_STR, EXPECTS_IDEN, EXPECTS_IDEN_COM_IMM, EXPECTS_MORE_OPERAND,
    EXPECTS_REG_COM_IMM, EXPECTS_REG_COM_REG, EXPECTS_REG_COM_IMM_OR_IDEN,
    EXPECTS_REG_COM_IMM_COM_IMM_OR_IDEN, EXPECTS_REG_COM_LB_REG_BIOP_IMM_RB,
    EXPECTS_LB_REG_BIOP_IMM_RB_COM_REG,
};

verus! {

// ---------------------------------------------------------------------------
// Name-keyed maps with insertion order and replace-on-insert
// ---------------------------------------------------------------------------

/// The first value bound to `name`, if any.
pub open spec fn map_lookup<V>(entries: Seq<(Seq<u8>, V)>, name: Seq<u8>) -> Option<V>
    decreases entries.len(),
{
    if entries.len() == 0 {
        None
    } else if entries[0].0 == name {
        Some(entries[0].1)
    } else {
        map_lookup(entries.skip(1), name)
    }
}

pub proof fn lemma_map_lookup_props<V>(entries: Seq<(Seq<u8>, V)>, name: Seq<u8>)
    ensures
        map_lookup(entries, name) is None ==> forall|j: int|
            0 <= j < entries.len() ==> (#[trigger] entries[j]).0 != name,
        map_lookup(entries, name) is Some ==> exists|j: int|
            0 <= j < entries.len() && (#[trigger] entries[j]).0 == name && entries[j].1
                == map_lookup(entries, name)->0 && forall|k: int|
                0 <= k < j ==> (#[trigger] entries[k]).0 != name,
    decreases entries.len(),
{
    if entries.len() > 0 && entries[0].0 != name {
        lemma_map_lookup_props(entries.skip(1), name);
        if map_lookup(entries, name) is None {
            assert forall|j: int| 0 <= j < entries.len() implies (#[trigger] entries[j]).0
                != name by {
                if j > 0 {
                    assert(entries.skip(1)[j - 1] == entries[j]);
                }
            }
        } else {
            let j = choose|j: int|
                0 <= j < entries.skip(1).len() && (#[trigger] entries.skip(1)[j]).0 == name
                    && entries.skip(1)[j].1 == map_lookup(entries.skip(1), name)->0 && forall|
                    k: int,
                |
                    0 <= k < j ==> (#[trigger] entries.skip(1)[k]).0 != name;
            assert(entries.skip(1)[j] == entries[j + 1]);
            assert(entries[j + 1].0 == name && entries[j + 1].1 == map_lookup(entries, name)->0);
            assert forall|k: int| 0 <= k < j + 1 implies (#[trigger] entries[k]).0 != name by {
                if k > 0 {
                    assert(entries.skip(1)[k - 1] == entries[k]);
                }
            }
            let w = j + 1;
            assert(0 <= w < entries.len() && (#[trigger] entries[w]).0 == name && entries[w].1
                == map_lookup(entries, name)->0 && forall|k: int|
                0 <= k < w ==> (#[trigger] entries[k]).0 != name);
        }
    }
}

/// The entries after binding `name` to `value`: the first entry for the
/// name is replaced, or a new entry is appended.
pub open spec fn map_insert<V>(entries: Seq<(Seq<u8>, V)>, name: Seq<u8>, value: V) -> Seq<
    (Seq<u8>, V),
>
    decreases entries.len(),
{
    if entries.len() == 0 {
        seq![(name, value)]
    } else if entries[0].0 == name {
        seq![(name, value)] + entries.skip(1)
    } else {
        seq![entries[0]] + map_insert(entries.skip(1), name, value)
    }
}

/// `.equ` bindings: names to immediates, in insertion order.
pub struct ConstMap {
    entries: Vec<(Vec<u8>, ImmediateValue)>,
}

/// Label bindings: names to byte offsets, in insertion order.
pub struct LabelMap {
    entries: Vec<(Vec<u8>, u64)>,
}

/// The view of name-keyed entries with copyable values.
pub open spec fn entry_views<V>(entries: Seq<(Vec<u8>, V)>) -> Seq<(Seq<u8>, V)> {
    entries.map_values(|e: (Vec<u8>, V)| (e.0@, e.1))
}

impl View for ConstMap {
    type V = Seq<(Seq<u8>, ImmediateValue)>;

    closed spec fn view(&self) -> Seq<(Seq<u8>, ImmediateValue)> {
        entry_views(self.entries@)
    }
}

impl View for LabelMap {
    type V = Seq<(Seq<u8>, u64)>;

    closed spec fn view(&self) -> Seq<(Seq<u8>, u64)> {
        entry_views(self.entries@)
    }
}

impl ConstMap {
    pub fn new() -> (r: Self)
        ensures
            r@ == Seq::<(Seq<u8>, ImmediateValue)>::empty(),
    {
        let r = Self { entries: Vec::new() };
        proof {
            assert(r@ =~= Seq::<(Seq<u8>, ImmediateValue)>::empty());
        }
        r
    }

    pub fn get(&self, name: &[u8]) -> (r: Option<ImmediateValue>)
        ensures
            r == map_lookup(self@, name@),
    {
        let ghost sv = self@;
        let mut i: usize = 0;
        proof {
            lemma_map_lookup_props(sv, name@);
        }
        while i < self.entries.len()
            invariant
                0 <= i <= self.entries@.len(),
                sv == entry_views(self.entries@),
                forall|j: int| 0 <= j < i ==> (#[trigger] sv[j]).0 != name@,
            decreases self.entries@.len() - i,
        {
            if bytes_eq(self.entries[i].0.as_slice(), name) {
                proof {
                    assert(sv[i as int].0 == name@);
                    lemma_map_lookup_props(sv, name@);
                    lemma_map_lookup_at(sv, name@, i as int);
                }
                return Some(self.entries[i].1);
            }
            i += 1;
        }
        proof {
            lemma_map_lookup_props(sv, name@);
            if map_lookup(sv, name@) is Some {
                let j = choose|j: int|
                    0 <= j < sv.len() && (#[trigger] sv[j]).0 == name@ && sv[j].1 == map_lookup(
                        sv,
                        name@,
                    )->0 && forall|k: int| 0 <= k < j ==> (#[trigger] sv[k]).0 != name@;
                assert(sv[j].0 != name@);
            }
        }
        None
    }

    pub fn insert(&mut self, name: Vec<u8>, value: ImmediateValue)
        ensures
            final(self)@ == map_insert(old(self)@, name@, value),
    {
        let ghost sv = self@;
        let ghost nv = name@;
        let mut i: usize = 0;
        while i < self.entries.len()
            invariant
                0 <= i <= self.entries@.len(),
                sv == entry_views(self.entries@),
                self == old(self),
                nv == name@,
                forall|j: int| 0 <= j < i ==> (#[trigger] sv[j]).0 != name@,
            decreases self.entries@.len() - i,
        {
            if bytes_eq(self.entries[i].0.as_slice(), name.as_slice()) {
                let ghost gname = name;
                self.entries.set(i, (name, value));
                proof {
                    lemma_map_insert_at(sv, nv, value, i as int);
                    assert(self@ =~= sv.update(i as int, (nv, value)));
                }
                return;
            }
            i += 1;
        }
        let ghost gname = name;
        self.entries.push((name, value));
        proof {
            lemma_map_insert_missing(sv, nv, value);
            assert(self@ =~= sv.push((nv, value)));
        }
    }
}

impl LabelMap {
    pub fn new() -> (r: Self)
        ensures
            r@ == Seq::<(Seq<u8>, u64)>::empty(),
    {
        let r = Self { entries: Vec::new() };
        proof {
            assert(r@ =~= Seq::<(Seq<u8>, u64)>::empty());
        }
        r
    }

    pub fn get(&self, name: &[u8]) -> (r: Option<u64>)
        ensures
            r == map_lookup(self@, name@),
    {
        let ghost sv = self@;
        let mut i: usize = 0;
        proof {
            lemma_map_lookup_props(sv, name@);
        }
        while i < self.entries.len()
            invariant
                0 <= i <= self.entries@.len(),
                sv == entry_views(self.entries@),
                forall|j: int| 0 <= j < i ==> (#[trigger] sv[j]).0 != name@,
            decreases self.entries@.len() - i,
        {
            if bytes_eq(self.entries[i].0.as_slice(), name) {
                proof {
                    assert(sv[i as int].0 == name@);
                    lemma_map_lookup_at(sv, name@, i as int);
                }
                return Some(self.entries[i].1);
            }
            i += 1;
        }
        proof {
            lemma_map_lookup_props(sv, name@);
            if map_lookup(sv, name@) is Some {
                let j = choose|j: int|
                    0 <= j < sv.len() && (#[trigger] sv[j]).0 == name@ && sv[j].1 == map_lookup(
                        sv,
                        name@,
                    )->0 && forall|k: int| 0 <= k < j ==> (#[trigger] sv[k]).0 != name@;
                assert(sv[j].0 != name@);
            }
        }
        None
    }

    pub fn insert(&mut self, name: Vec<u8>, value: u64)
        ensures
            final(self)@ == map_insert(old(self)@, name@, value),
    {
        let ghost sv = self@;
        let ghost nv = name@;
        let mut i: usize = 0;
        while i < self.entries.len()
            invariant
                0 <= i <= self.entries@.len(),
                sv == entry_views(self.entries@),
                self == old(self),
                nv == name@,
                forall|j: int| 0 <= j < i ==> (#[trigger] sv[j]).0 != name@,
            decreases self.entries@.len() - i,
        {
            if bytes_eq(self.entries[i].0.as_slice(), name.as_slice()) {
                self.entries.set(i, (name, value));
                proof {
                    lemma_map_insert_at(sv, nv, value, i as int);
                    assert(self@ =~= sv.update(i as int, (nv, value)));
                }
                return;
            }
            i += 1;
        }
        self.entries.push((name, value));
        proof {
            lemma_map_insert_missing(sv, nv, value);
            assert(self@ =~= sv.push((nv, value)));
        }
    }
}

/// Inserting over the first entry for a present name updates it in
/// place.
pub proof fn lemma_map_insert_at<V>(entries: Seq<(Seq<u8>, V)>, name: Seq<u8>, value: V, i: int)
    requires
        0 <= i < entries.len(),
        entries[i].0 == name,
        forall|j: int| 0 <= j < i ==> (#[trigger] entries[j]).0 != name,
    ensures
        map_insert(entries, name, value) == entries.update(i, (name, value)),
    decreases entries.len(),
{
    if i == 0 {
        assert(map_insert(entries, name, value) =~= entries.update(0, (name, value)));
    } else {
        assert(forall|j: int|
            0 <= j < entries.skip(1).len() ==> #[trigger] entries.skip(1)[j] == entries[j + 1]);
        lemma_map_insert_at(entries.skip(1), name, value, i - 1);
        assert(map_insert(entries, name, value) =~= entries.update(i, (name, value)));
    }
}

/// Inserting an absent name appends it.
pub proof fn lemma_map_insert_missing<V>(entries: Seq<(Seq<u8>, V)>, name: Seq<u8>, value: V)
    requires
        forall|j: int| 0 <= j < entries.len() ==> (#[trigger] entries[j]).0 != name,
    ensures
        map_insert(entries, name, value) == entries.push((name, value)),
    decreases entries.len(),
{
    if entries.len() == 0 {
        assert(map_insert(entries, name, value) =~= entries.push((name, value)));
    } else {
        assert(forall|j: int|
            0 <= j < entries.skip(1).len() ==> #[trigger] entries.skip(1)[j] == entries[j + 1]);
        lemma_map_insert_missing(entries.skip(1), name, value);
        assert(map_insert(entries, name, value) =~= entries.push((name, value)));
    }
}

/// A lookup finds the first entry for a present name.
pub proof fn lemma_map_lookup_at<V>(entries: Seq<(Seq<u8>, V)>, name: Seq<u8>, i: int)
    requires
        0 <= i < entries.len(),
        entries[i].0 == name,
        forall|j: int| 0 <= j < i ==> (#[trigger] entries[j]).0 != name,
    ensures
        map_lookup(entries, name) == Some(entries[i].1),
    decreases entries.len(),
{
    if i > 0 {
        assert(forall|j: int|
            0 <= j < entries.skip(1).len() ==> #[trigger] entries.skip(1)[j] == entries[j + 1]);
        lemma_map_lookup_at(entries.skip(1), name, i - 1);
    }
}

// ---------------------------------------------------------------------------
// Constant folding
// ---------------------------------------------------------------------------

/// The value a token contributes to a fold: an immediate stands for
/// itself, an identifier resolves through the constant map, anything
/// else does not fold.
pub open spec fn spec_fold_start(
    tokens: Seq<Token>,
    cm: Seq<(Seq<u8>, ImmediateValue)>,
    idx: int,
) -> Option<ImmediateValue> {
    if 0 <= idx < tokens.len() {
        match tokens[idx]@ {
            TokenView::ImmediateValue(v, _) => Some(v),
            TokenView::Identifier(name, _) => map_lookup(cm, name),
            _ => None,
        }
    } else {
        None
    }
}

/// Folding a chain `value (op value)*`: each following
/// `BinaryOp Immediate` pair combines into the running value; the fold
/// stops at the first token pair of any other shape. Gives the folded
/// value and the index just past the last token consumed.
pub open spec fn spec_fold_chain(tokens: Seq<Token>, value: ImmediateValue, idx: int) -> (
    ImmediateValue,
    int,
)
    decreases tokens.len() - idx,
{
    if idx < 0 || tokens.len() < idx + 3 {
        (value, idx + 1)
    } else {
        match (tokens[idx + 1]@, tokens[idx + 2]@) {
            (TokenView::BinaryOp(op, _), TokenView::ImmediateValue(v2, _)) => {
                let combined = match op {
                    Op::Add => spec_imm_add(value, v2),
                    Op::Sub => spec_imm_sub(value, v2),
                };
                spec_fold_chain(tokens, combined, idx + 2)
            }
            _ => (value, idx + 1),
        }
    }
}

/// The complete fold at `idx`: `None` if the first token does not fold,
/// else the folded value with the next unconsumed index.
pub open spec fn spec_fold(tokens: Seq<Token>, cm: Seq<(Seq<u8>, ImmediateValue)>, idx: int) -> (
    Option<ImmediateValue>,
    int,
) {
    match spec_fold_start(tokens, cm, idx) {
        Some(v) => {
            let (value, next) = spec_fold_chain(tokens, v, idx);
            (Some(value), next)
        }
        None => (None, idx + 1),
    }
}

/// The fold consumes at least one token and stays within bounds.
pub proof fn lemma_fold_chain_bounds(tokens: Seq<Token>, value: ImmediateValue, idx: int)
    requires
        0 <= idx < tokens.len(),
    ensures
        idx + 1 <= spec_fold_chain(tokens, value, idx).1 <= tokens.len(),
    decreases tokens.len() - idx,
{
    if tokens.len() >= idx + 3 {
        match (tokens[idx + 1]@, tokens[idx + 2]@) {
            (TokenView::BinaryOp(op, _), TokenView::ImmediateValue(v2, _)) => {
                let combined = match op {
                    Op::Add => spec_imm_add(value, v2),
                    Op::Sub => spec_imm_sub(value, v2),
                };
                lemma_fold_chain_bounds(tokens, combined, idx + 2);
            }
            _ => {}
        }
    }
}

/// Continue a fold: combine the running value with each following
/// `BinaryOp Immediate` pair.
pub fn inline_and_fold_constant_helper(
    tokens: &[Token],
    const_map: &ConstMap,
    value: ImmediateValue,
    idx: usize,
) -> (r: (Option<ImmediateValue>, usize))
    requires
        idx < tokens@.len(),
    ensures
        r.0 == Some(spec_fold_chain(tokens@, value, idx as int).0),
        r.1 == spec_fold_chain(tokens@, value, idx as int).1,
    decreases tokens@.len() - idx,
{
    if tokens.len() - idx < 3 {
        return (Some(value), idx + 1);
    }
    let t1 = &tokens[idx + 1];
    let t2 = &tokens[idx + 2];
    match (t1, t2) {
        (Token::BinaryOp(op, _), Token::ImmediateValue(value2, _)) => {
            let result = match op {
                Op::Add => value.add(*value2),
                Op::Sub => value.sub(*value2),
            };
            inline_and_fold_constant_helper(tokens, const_map, result, idx + 2)
        }
        _ => (Some(value), idx + 1),
    }
}

/// Fold a constant expression starting at `idx`: the starting token is
/// an immediate or a constant-map identifier, extended by
/// `+`/`-` immediate pairs. `None` (with the cursor just past `idx`)
/// when the start does not fold.
pub fn inline_and_fold_constant(tokens: &[Token], const_map: &ConstMap, idx: usize) -> (r: (
    Option<ImmediateValue>,
    usize,
))
    requires
        idx < tokens@.len(),
    ensures
        r.0 == spec_fold(tokens@, const_map@, idx as int).0,
        r.1 == spec_fold(tokens@, const_map@, idx as int).1,
        idx + 1 <= r.1 <= tokens@.len(),
{
    proof {
        lemma_fold_chain_bounds(
            tokens@,
            match spec_fold_start(tokens@, const_map@, idx as int) {
                Some(v) => v,
                None => ImmediateValue::Int(0),
            },
            idx as int,
        );
    }
    let value = match &tokens[idx] {
        Token::ImmediateValue(v, _) => *v,
        Token::Identifier(name, _) => {
            match const_map.get(name.as_slice()) {
                Some(v) => v,
                None => {
                    return (None, idx + 1);
                }
            }
        }
        _ => {
            return (None, idx + 1);
        }
    };
    inline_and_fold_constant_helper(tokens, const_map, value, idx)
}

// ---------------------------------------------------------------------------
// Declaration parsers
// ---------------------------------------------------------------------------

/// One parser step: a node and the tokens left over, or a diagnostic.
pub trait Parse {
    fn parse(tokens: &[Token]) -> Result<(Self, &[Token]), CompileError> where Self: Sized;
}

/// The instruction parser, which also needs the constant map.
pub trait ParseInstruction {
    fn parse_instruction<'a>(tokens: &'a [Token], const_map: &ConstMap) -> Result<
        (Self, &'a [Token]),
        CompileError,
    > where Self: Sized;
}

/// Parse `.global IDENT` / `.globl IDENT`: the identifier names the
/// program entry.
pub fn parse_global(tokens: &[Token]) -> (r: Result<(GlobalDecl, &[Token]), CompileError>)
    requires
        tokens@.len() >= 1,
        tokens@[0]@ is Directive,
    ensures
        match r {
            Ok((node, rest)) => {
                &&& tokens@.len() >= 2
                &&& tokens@[1]@ is Identifier
                &&& node.entry_label@ == tokens@[1]@->Identifier_0
                &&& node.span == tokens@[1]@->Identifier_1
                &&& rest@ == tokens@.skip(2)
            },
            Err(e) => {
                &&& tokens@.len() < 2 || !(tokens@[1]@ is Identifier)
                &&& e@ == (ErrorView::InvalidGlobalDecl {
                    span: tokens@[0]@->Directive_1,
                    custom_label: None,
                })
            },
        },
{
    let dir_span = match &tokens[0] {
        Token::Directive(_, s) => *s,
        _ => Span::new(0, 0),
    };
    if tokens.len() < 2 {
        return Err(CompileError::InvalidGlobalDecl { span: dir_span, custom_label: None });
    }
    match &tokens[1] {
        Token::Identifier(name, span) => {
            let node = GlobalDecl {
                entry_label: vstd::slice::slice_to_vec(name.as_slice()),
                span: *span,
            };
            Ok((node, vstd::slice::slice_subrange(tokens, 2, tokens.len())))
        }
        _ => Err(CompileError::InvalidGlobalDecl { span: dir_span, custom_label: None }),
    }
}

/// Parse `.equ IDENT, IMM`: a constant binding.
pub fn parse_equ(tokens: &[Token]) -> (r: Result<(EquDecl, &[Token]), CompileError>)
    requires
        tokens@.len() >= 1,
        tokens@[0]@ is Directive,
    ensures
        match r {
            Ok((node, rest)) => {
                &&& tokens@.len() >= 4
                &&& tokens@[1]@ is Identifier
                &&& tokens@[2]@ is Comma
                &&& tokens@[3]@ is ImmediateValue
                &&& node.name@ == tokens@[1]@->Identifier_0
                &&& node.value@ == tokens@[3]@
                &&& node.span == tokens@[1]@->Identifier_1
                &&& rest@ == tokens@.skip(4)
            },
            Err(e) => {
                if tokens@.len() < 4 {
                    e@ == (ErrorView::InvalidEquDecl {
                        span: tokens@[0]@->Directive_1,
                        custom_label: Some(EXPECTS_MORE_OPERAND@),
                    })
                } else {
                    &&& !(tokens@[1]@ is Identifier && tokens@[2]@ is Comma && tokens@[3]@
                        is ImmediateValue)
                    &&& e@ == (ErrorView::InvalidEquDecl {
                        span: tokens@[0]@->Directive_1,
                        custom_label: Some(EXPECTS_IDEN_COM_IMM@),
                    })
                }
            },
        },
{
    let dir_span = match &tokens[0] {
        Token::Directive(_, s) => *s,
        _ => Span::new(0, 0),
    };
    if tokens.len() < 4 {
        return Err(CompileError::InvalidEquDecl {
            span: dir_span,
            custom_label: Some(EXPECTS_MORE_OPERAND),
        });
    }
    match (&tokens[1], &tokens[2], &tokens[3]) {
        (Token::Identifier(name, span), Token::Comma(_), Token::ImmediateValue(_, _)) => {
            let node = EquDecl {
                name: vstd::slice::slice_to_vec(name.as_slice()),
                value: crate::lexer::clone_token(&tokens[3]),
                span: *span,
            };
            Ok((node, vstd::slice::slice_subrange(tokens, 4, tokens.len())))
        }
        _ => Err(CompileError::InvalidEquDecl {
            span: dir_span,
            custom_label: Some(EXPECTS_IDEN_COM_IMM),
        }),
    }
}

/// The end of the identifier run that starts at position 1.
pub open spec fn ident_run_end(tokens: Seq<Token>, i: int) -> int
    decreases tokens.len() - i,
{
    if 0 <= i < tokens.len() && tokens[i]@ is Identifier {
        ident_run_end(tokens, i + 1)
    } else {
        i
    }
}

proof fn lemma_ident_run_end_bounds(tokens: Seq<Token>, i: int)
    requires
        0 <= i <= tokens.len(),
    ensures
        i <= ident_run_end(tokens, i) <= tokens.len(),
    decreases tokens.len() - i,
{
    if i < tokens.len() && tokens[i]@ is Identifier {
        lemma_ident_run_end_bounds(tokens, i + 1);
    }
}

/// Parse `.extern IDENT+`: external symbol names, retained but unused.
pub fn parse_extern(tokens: &[Token]) -> (r: Result<(ExternDecl, &[Token]), CompileError>)
    requires
        tokens@.len() >= 1,
        tokens@[0]@ is Directive,
    ensures
        match r {
            Ok((node, rest)) => {
                let e = ident_run_end(tokens@, 1);
                &&& tokens@.len() >= 2
                &&& e > 1
                &&& token_views(node.args@) == token_views(tokens@).subrange(1, e)
                &&& node.span == tokens@[0]@->Directive_1
                &&& rest@ == tokens@.skip(e)
            },
            Err(e) => {
                if tokens@.len() < 2 {
                    e@ == (ErrorView::InvalidExternDecl {
                        span: tokens@[0]@->Directive_1,
                        custom_label: Some(EXPECTS_MORE_OPERAND@),
                    })
                } else {
                    &&& ident_run_end(tokens@, 1) == 1
                    &&& e@ == (ErrorView::InvalidExternDecl {
                        span: tokens@[0]@->Directive_1,
                        custom_label: Some(EXPECTS_IDEN@),
                    })
                }
            },
        },
{
    let dir_span = match &tokens[0] {
        Token::Directive(_, s) => *s,
        _ => Span::new(0, 0),
    };
    if tokens.len() < 2 {
        return Err(CompileError::InvalidExternDecl {
            span: dir_span,
            custom_label: Some(EXPECTS_MORE_OPERAND),
        });
    }
    proof {
        lemma_ident_run_end_bounds(tokens@, 1);
    }
    let mut args: Vec<Token> = Vec::new();
    let mut i: usize = 1;
    proof {
        assert(token_views(args@) =~= token_views(tokens@).subrange(1, 1));
    }
    loop
        invariant
            1 <= i <= tokens@.len(),
            args@.len() == i - 1,
            ident_run_end(tokens@, 1) == ident_run_end(tokens@, i as int),
            token_views(args@) == token_views(tokens@).subrange(1, i as int),
            forall|j: int| 1 <= j < i ==> tokens@[j]@ is Identifier,
        ensures
            1 <= i <= tokens@.len(),
            ident_run_end(tokens@, 1) == i as int,
            token_views(args@) == token_views(tokens@).subrange(1, i as int),
        decreases tokens@.len() - i,
    {
        if i >= tokens.len() {
            proof {
                assert(ident_run_end(tokens@, i as int) == i as int);
            }
            break;
        }
        match &tokens[i] {
            Token::Identifier(name, span) => {
                let t = Token::Identifier(vstd::slice::slice_to_vec(name.as_slice()), *span);
                let ghost tv = t@;
                proof {
                    assert(tv == tokens@[i as int]@);
                }
                args.push(t);
                proof {
                    assert(args@.last()@ == tokens@[i as int]@);
                    assert(token_views(args@) =~= token_views(tokens@).subrange(1, i + 1));
                }
                i += 1;
            }
            _ => {
                proof {
                    assert(!(tokens@[i as int]@ is Identifier));
                    assert(ident_run_end(tokens@, i as int) == i as int);
                }
                break;
            }
        }
    }
    if args.len() == 0 {
        Err(CompileError::InvalidExternDecl { span: dir_span, custom_label: Some(EXPECTS_IDEN) })
    } else {
        let node = ExternDecl { args, span: dir_span };
        Ok((node, vstd::slice::slice_subrange(tokens, i, tokens.len())))
    }
}

/// Parse a read-only data entry `NAME: .ascii "…"`.
pub fn parse_rodata_entry(tokens: &[Token]) -> (r: Result<(ROData, &[Token]), CompileError>)
    requires
        tokens@.len() >= 1,
        tokens@[0]@ is Label,
    ensures
        match r {
            Ok((node, rest)) => {
                &&& tokens@.len() >= 3
                &&& tokens@[1]@ is Directive
                &&& tokens@[2]@ is StringLiteral
                &&& node.name@ == tokens@[0]@->Label_0
                &&& token_views(node.args@) == seq![tokens@[1]@, tokens@[2]@]
                &&& node.span == tokens@[0]@->Label_1
                &&& rest@ == tokens@.skip(3)
            },
            Err(e) => {
                if tokens@.len() < 3 {
                    e@ == (ErrorView::InvalidRodataDecl {
                        span: tokens@[0]@->Label_1,
                        custom_label: Some(EXPECTS_MORE_OPERAND@),
                    })
                } else {
                    &&& !(tokens@[1]@ is Directive && tokens@[2]@ is StringLiteral)
                    &&& e@ == (ErrorView::InvalidRodataDecl {
                        span: tokens@[0]@->Label_1,
                        custom_label: Some(EXPECTS_LABEL_DIR_STR@),
                    })
                }
            },
        },
{
    let (label_name, label_span) = match &tokens[0] {
        Token::Label(name, s) => (vstd::slice::slice_to_vec(name.as_slice()), *s),
        _ => (Vec::new(), Span::new(0, 0)),
    };
    if tokens.len() < 3 {
        return Err(CompileError::InvalidRodataDecl {
            span: label_span,
            custom_label: Some(EXPECTS_MORE_OPERAND),
        });
    }
    match (&tokens[1], &tokens[2]) {
        (Token::Directive(_, _), Token::StringLiteral(_, _)) => {
            let mut args: Vec<Token> = Vec::new();
            args.push(crate::lexer::clone_token(&tokens[1]));
            args.push(crate::lexer::clone_token(&tokens[2]));
            proof {
                assert(token_views(args@) =~= seq![tokens@[1]@, tokens@[2]@]);
            }
            let node = ROData { name: label_name, args, span: label_span };
            Ok((node, vstd::slice::slice_subrange(tokens, 3, tokens.len())))
        }
        _ => Err(CompileError::InvalidRodataDecl {
            span: label_span,
            custom_label: Some(EXPECTS_LABEL_DIR_STR),
        }),
    }
}

impl Parse for GlobalDecl {
    fn parse(tokens: &[Token]) -> Result<(Self, &[Token]), CompileError> {
        if tokens.len() >= 1 {
            match &tokens[0] {
                Token::Directive(_, _) => parse_global(tokens),
                _ => Err(CompileError::InvalidGlobalDecl {
                    span: Span::new(0, 0),
                    custom_label: None,
                }),
            }
        } else {
            Err(CompileError::InvalidGlobalDecl { span: Span::new(0, 0), custom_label: None })
        }
    }
}

impl Parse for EquDecl {
    fn parse(tokens: &[Token]) -> Result<(Self, &[Token]), CompileError> {
        if tokens.len() >= 1 {
            match &tokens[0] {
                Token::Directive(_, _) => parse_equ(tokens),
                _ => Err(CompileError::InvalidEquDecl {
                    span: Span::new(0, 0),
                    custom_label: None,
                }),
            }
        } else {
            Err(CompileError::InvalidEquDecl { span: Span::new(0, 0), custom_label: None })
        }
    }
}

impl Parse for ExternDecl {
    fn parse(tokens: &[Token]) -> Result<(Self, &[Token]), CompileError> {
        if tokens.len() >= 1 {
            match &tokens[0] {
                Token::Directive(_, _) => parse_extern(tokens),
                _ => Err(CompileError::InvalidExternDecl {
                    span: Span::new(0, 0),
                    custom_label: None,
                }),
            }
        } else {
            Err(CompileError::InvalidExternDecl { span: Span::new(0, 0), custom_label: None })
        }
    }
}

impl Parse for ROData {
    fn parse(tokens: &[Token]) -> Result<(Self, &[Token]), CompileError> {
        if tokens.len() >= 1 {
            match &tokens[0] {
                Token::Label(_, _) => parse_rodata_entry(tokens),
                _ => Err(CompileError::InvalidRodataDecl {
                    span: Span::new(0, 0),
                    custom_label: None,
                }),
            }
        } else {
            Err(CompileError::InvalidRodataDecl { span: Span::new(0, 0), custom_label: None })
        }
    }
}

// ---------------------------------------------------------------------------
// Instruction parsing
// ---------------------------------------------------------------------------

/// The outcome of parsing one instruction: the (possibly specialized)
/// opcode with its operands and the number of tokens consumed, or the
/// expected-pattern label of the diagnostic.
pub enum InstrParse {
    Parsed { opcode: Opcode, operands: Seq<TokenView>, advance: int },
    Failed { label: Option<Seq<char>> },
}

/// `lddw reg, (fold)` or `lddw reg, ident`.
pub open spec fn spec_pi_lddw(
    tokens: Seq<Token>,
    cm: Seq<(Seq<u8>, ImmediateValue)>,
    span0: Span,
) -> InstrParse {
    if tokens.len() < 4 {
        InstrParse::Failed { label: Some(EXPECTS_MORE_OPERAND@) }
    } else {
        let f = spec_fold(tokens, cm, 3);
        if f.0 is Some {
            if tokens[1]@ is Register && tokens[2]@ is Comma {
                InstrParse::Parsed {
                    opcode: Opcode::Lddw,
                    operands: seq![tokens[1]@, TokenView::ImmediateValue(f.0->0, span0)],
                    advance: f.1,
                }
            } else {
                InstrParse::Failed { label: Some(EXPECTS_REG_COM_IMM_OR_IDEN@) }
            }
        } else {
            if tokens[1]@ is Register && tokens[2]@ is Comma && tokens[3]@ is Identifier {
                InstrParse::Parsed {
                    opcode: Opcode::Lddw,
                    operands: seq![tokens[1]@, tokens[3]@],
                    advance: 4,
                }
            } else {
                InstrParse::Failed { label: Some(EXPECTS_REG_COM_IMM_OR_IDEN@) }
            }
        }
    }
}

/// `ldx{b,h,w,dw} reg, [reg op (fold)]`.
pub open spec fn spec_pi_ldx(
    tokens: Seq<Token>,
    cm: Seq<(Seq<u8>, ImmediateValue)>,
    op: Opcode,
    span0: Span,
) -> InstrParse {
    if tokens.len() < 8 {
        InstrParse::Failed { label: Some(EXPECTS_MORE_OPERAND@) }
    } else {
        let f = spec_fold(tokens, cm, 6);
        if f.0 is Some && tokens[1]@ is Register && tokens[2]@ is Comma && tokens[3]@
            is LeftBracket && tokens[4]@ is Register && tokens[5]@ is BinaryOp && f.1 < tokens.len()
            && tokens[f.1]@ is RightBracket {
            InstrParse::Parsed {
                opcode: op,
                operands: seq![
                    tokens[1]@,
                    tokens[4]@,
                    TokenView::ImmediateValue(f.0->0, span0),
                ],
                advance: f.1 + 1,
            }
        } else {
            InstrParse::Failed { label: Some(EXPECTS_REG_COM_LB_REG_BIOP_IMM_RB@) }
        }
    }
}

/// `st* [reg op (fold)], reg`.
pub open spec fn spec_pi_st(
    tokens: Seq<Token>,
    cm: Seq<(Seq<u8>, ImmediateValue)>,
    op: Opcode,
    span0: Span,
) -> InstrParse {
    if tokens.len() < 8 {
        InstrParse::Failed { label: Some(EXPECTS_MORE_OPERAND@) }
    } else {
        let f = spec_fold(tokens, cm, 4);
        if f.0 is Some && tokens[1]@ is LeftBracket && tokens[2]@ is Register && tokens[3]@
            is BinaryOp && f.1 + 2 < tokens.len() && tokens[f.1]@ is RightBracket && tokens[f.1
            + 1]@ is Comma && tokens[f.1 + 2]@ is Register {
            InstrParse::Parsed {
                opcode: op,
                operands: seq![
                    tokens[2]@,
                    TokenView::ImmediateValue(f.0->0, span0),
                    tokens[f.1 + 2]@,
                ],
                advance: f.1 + 3,
            }
        } else {
            InstrParse::Failed { label: Some(EXPECTS_LB_REG_BIOP_IMM_RB_COM_REG@) }
        }
    }
}

/// Arithmetic: `op reg, (fold)` specializes to the immediate form,
/// `op reg, reg` to the register form.
pub open spec fn spec_pi_alu(
    tokens: Seq<Token>,
    cm: Seq<(Seq<u8>, ImmediateValue)>,
    op: Opcode,
    span0: Span,
) -> InstrParse {
    if tokens.len() < 4 {
        InstrParse::Failed { label: Some(EXPECTS_MORE_OPERAND@) }
    } else {
        let f = spec_fold(tokens, cm, 3);
        if f.0 is Some {
            if tokens[1]@ is Register && tokens[2]@ is Comma {
                InstrParse::Parsed {
                    opcode: op.spec_imm_variant(),
                    operands: seq![tokens[1]@, TokenView::ImmediateValue(f.0->0, span0)],
                    advance: f.1,
                }
            } else {
                InstrParse::Failed { label: Some(EXPECTS_REG_COM_IMM@) }
            }
        } else {
            if tokens[1]@ is Register && tokens[2]@ is Comma && tokens[3]@ is Register {
                InstrParse::Parsed {
                    opcode: op.spec_reg_variant(),
                    operands: seq![tokens[1]@, tokens[3]@],
                    advance: 4,
                }
            } else {
                InstrParse::Failed { label: Some(EXPECTS_REG_COM_REG@) }
            }
        }
    }
}

/// Conditional jumps: `op reg, (fold), ident` specializes to the
/// immediate form, `op reg, reg, ident` to the register form.
pub open spec fn spec_pi_jump(
    tokens: Seq<Token>,
    cm: Seq<(Seq<u8>, ImmediateValue)>,
    op: Opcode,
    span0: Span,
) -> InstrParse {
    if tokens.len() < 6 {
        InstrParse::Failed { label: Some(EXPECTS_MORE_OPERAND@) }
    } else {
        let f = spec_fold(tokens, cm, 3);
        if f.0 is Some {
            if tokens[1]@ is Register && tokens[2]@ is Comma && f.1 + 1 < tokens.len() && tokens[
                f.1]@ is Comma && tokens[f.1 + 1]@ is Identifier {
                InstrParse::Parsed {
                    opcode: op.spec_imm_variant(),
                    operands: seq![
                        tokens[1]@,
                        TokenView::ImmediateValue(f.0->0, span0),
                        tokens[f.1 + 1]@,
                    ],
                    advance: f.1 + 2,
                }
            } else {
                InstrParse::Failed { label: Some(EXPECTS_REG_COM_IMM_COM_IMM_OR_IDEN@) }
            }
        } else {
            if tokens[1]@ is Register && tokens[2]@ is Comma && tokens[3]@ is Register && tokens[4]@
                is Comma && tokens[5]@ is Identifier {
                InstrParse::Parsed {
                    opcode: op.spec_reg_variant(),
                    operands: seq![tokens[1]@, tokens[3]@, tokens[5]@],
                    advance: 6,
                }
            } else {
                InstrParse::Failed { label: Some(EXPECTS_REG_COM_IMM_COM_IMM_OR_IDEN@) }
            }
        }
    }
}

/// `ja (fold)` or `ja ident`.
pub open spec fn spec_pi_ja(
    tokens: Seq<Token>,
    cm: Seq<(Seq<u8>, ImmediateValue)>,
    span0: Span,
) -> InstrParse {
    if tokens.len() < 2 {
        InstrParse::Failed { label: Some(EXPECTS_MORE_OPERAND@) }
    } else {
        let f = spec_fold(tokens, cm, 1);
        if f.0 is Some {
            InstrParse::Parsed {
                opcode: Opcode::Ja,
                operands: seq![TokenView::ImmediateValue(f.0->0, span0)],
                advance: f.1,
            }
        } else {
            if tokens[1]@ is Identifier {
                InstrParse::Parsed { opcode: Opcode::Ja, operands: seq![tokens[1]@], advance: 2 }
            } else {
                InstrParse::Failed { label: Some(EXPECTS_IDEN@) }
            }
        }
    }
}

/// `call ident`.
pub open spec fn spec_pi_call(tokens: Seq<Token>) -> InstrParse {
    if tokens.len() < 2 {
        InstrParse::Failed { label: Some(EXPECTS_MORE_OPERAND@) }
    } else {
        if tokens[1]@ is Identifier {
            InstrParse::Parsed { opcode: Opcode::Call, operands: seq![tokens[1]@], advance: 2 }
        } else {
            InstrParse::Failed { label: Some(EXPECTS_IDEN@) }
        }
    }
}

/// The full operand-shape dispatch for one instruction, by opcode
/// family. Opcodes outside every family — the byte-swap forms and the
/// bare 64-bit negation — are unsupported and fail with the default
/// label.
pub open spec fn spec_parse_instruction(
    tokens: Seq<Token>,
    cm: Seq<(Seq<u8>, ImmediateValue)>,
) -> InstrParse {
    if tokens.len() == 0 || !(tokens[0]@ is Opcode) {
        InstrParse::Failed { label: None }
    } else {
        let op = tokens[0]@->Opcode_0;
        let span0 = tokens[0]@->Opcode_1;
        if op is Lddw {
            spec_pi_lddw(tokens, cm, span0)
        } else if op.spec_is_load_indexed() {
            spec_pi_ldx(tokens, cm, op, span0)
        } else if op.spec_is_store() {
            spec_pi_st(tokens, cm, op, span0)
        } else if op.spec_is_alu() {
            spec_pi_alu(tokens, cm, op, span0)
        } else if op.spec_is_jump_cond() {
            spec_pi_jump(tokens, cm, op, span0)
        } else if op is Ja {
            spec_pi_ja(tokens, cm, span0)
        } else if op is Call {
            spec_pi_call(tokens)
        } else if op is Exit {
            InstrParse::Parsed { opcode: Opcode::Exit, operands: Seq::empty(), advance: 1 }
        } else {
            InstrParse::Failed { label: None }
        }
    }
}

/// A parsed instruction consumes at least one token and stays within
/// bounds.
pub proof fn lemma_parse_instruction_advance(
    tokens: Seq<Token>,
    cm: Seq<(Seq<u8>, ImmediateValue)>,
)
    requires
        tokens.len() >= 1,
        tokens[0]@ is Opcode,
        spec_parse_instruction(tokens, cm) is Parsed,
    ensures
        1 <= spec_parse_instruction(tokens, cm)->advance <= tokens.len(),
{
    let op = tokens[0]@->Opcode_0;
    if op is Lddw && tokens.len() >= 4 {
        lemma_fold_chain_bounds_start(tokens, cm, 3);
    } else if op.spec_is_load_indexed() && tokens.len() >= 8 {
        lemma_fold_chain_bounds_start(tokens, cm, 6);
    } else if op.spec_is_store() && tokens.len() >= 8 {
        lemma_fold_chain_bounds_start(tokens, cm, 4);
    } else if op.spec_is_alu() && tokens.len() >= 4 {
        lemma_fold_chain_bounds_start(tokens, cm, 3);
    } else if op.spec_is_jump_cond() && tokens.len() >= 6 {
        lemma_fold_chain_bounds_start(tokens, cm, 3);
    } else if op is Ja && tokens.len() >= 2 {
        lemma_fold_chain_bounds_start(tokens, cm, 1);
    }
}

proof fn lemma_fold_chain_bounds_start(
    tokens: Seq<Token>,
    cm: Seq<(Seq<u8>, ImmediateValue)>,
    idx: int,
)
    requires
        0 <= idx < tokens.len(),
    ensures
        idx + 1 <= spec_fold(tokens, cm, idx).1 <= tokens.len(),
{
    match spec_fold_start(tokens, cm, idx) {
        Some(v) => {
            lemma_fold_chain_bounds(tokens, v, idx);
        }
        None => {}
    }
}

/// Parse one instruction: dispatch on the opcode family, fold constants
/// at the immediate slot, and specialize arithmetic and jump opcodes by
/// operand shape.
#[verifier::rlimit(100)]
pub fn parse_instruction_tokens<'a>(tokens: &'a [Token], const_map: &ConstMap) -> (r: Result<
    (Instruction, &'a [Token]),
    CompileError,
>)
    requires
        tokens@.len() >= 1,
        tokens@[0]@ is Opcode,
    ensures
        match r {
            Ok((inst, rest)) => {
                let sp = spec_parse_instruction(tokens@, const_map@);
                &&& sp is Parsed
                &&& inst.opcode == sp->Parsed_opcode
                &&& token_views(inst.operands@) == sp->operands
                &&& inst.span == tokens@[0]@->Opcode_1
                &&& 1 <= sp->advance <= tokens@.len()
                &&& rest@ == tokens@.skip(sp->advance)
            },
            Err(e) => {
                let sp = spec_parse_instruction(tokens@, const_map@);
                &&& sp is Failed
                &&& e@ == (ErrorView::InvalidInstruction {
                    instruction: (tokens@[0]@->Opcode_0).spec_mnemonic(),
                    span: tokens@[0]@->Opcode_1,
                    custom_label: match sp->label {
                        Some(l) => Some(l),
                        None => None,
                    },
                })
            },
        },
{
    let (opcode0, span0) = match &tokens[0] {
        Token::Opcode(o, s) => (*o, *s),
        _ => (Opcode::Exit, Span::new(0, 0)),
    };
    let ghost sp = spec_parse_instruction(tokens@, const_map@);
    let mut operands: Vec<Token> = Vec::new();
    let opcode: Opcode;
    let next_token_num: usize;
    if match opcode0 {
        Opcode::Lddw => true,
        _ => false,
    } {
        if tokens.len() < 4 {
            return Err(CompileError::InvalidInstruction {
                instruction: opcode0.mnemonic_bytes(),
                span: span0,
                custom_label: Some(EXPECTS_MORE_OPERAND),
            });
        }
        let (value, advance) = inline_and_fold_constant(tokens, const_map, 3);
        match value {
            Some(v) => {
                match (&tokens[1], &tokens[2]) {
                    (Token::Register(_, _), Token::Comma(_)) => {
                        operands.push(crate::lexer::clone_token(&tokens[1]));
                        operands.push(Token::ImmediateValue(v, span0));
                        opcode = opcode0;
                        next_token_num = advance;
                    }
                    _ => {
                        return Err(CompileError::InvalidInstruction {
                            instruction: opcode0.mnemonic_bytes(),
                            span: span0,
                            custom_label: Some(EXPECTS_REG_COM_IMM_OR_IDEN),
                        });
                    }
                }
            }
            None => {
                match (&tokens[1], &tokens[2], &tokens[3]) {
                    (Token::Register(_, _), Token::Comma(_), Token::Identifier(_, _)) => {
                        operands.push(crate::lexer::clone_token(&tokens[1]));
                        operands.push(crate::lexer::clone_token(&tokens[3]));
                        opcode = opcode0;
                        next_token_num = 4;
                    }
                    _ => {
                        return Err(CompileError::InvalidInstruction {
                            instruction: opcode0.mnemonic_bytes(),
                            span: span0,
                            custom_label: Some(EXPECTS_REG_COM_IMM_OR_IDEN),
                        });
                    }
                }
            }
        }
    } else if opcode0.is_load_indexed() {
        if tokens.len() < 8 {
            return Err(CompileError::InvalidInstruction {
                instruction: opcode0.mnemonic_bytes(),
                span: span0,
                custom_label: Some(EXPECTS_MORE_OPERAND),
            });
        }
        let (value, advance) = inline_and_fold_constant(tokens, const_map, 6);
        let mut shape_ok = false;
        match value {
            Some(_) => {
                if advance < tokens.len() {
                    match (&tokens[1], &tokens[2], &tokens[3], &tokens[4], &tokens[5], &tokens[advance]) {
                        (
                            Token::Register(_, _),
                            Token::Comma(_),
                            Token::LeftBracket(_),
                            Token::Register(_, _),
                            Token::BinaryOp(_, _),
                            Token::RightBracket(_),
                        ) => {
                            shape_ok = true;
                        }
                        _ => {}
                    }
                }
            }
            None => {}
        }
        if shape_ok {
            let v = match value {
                Some(v) => v,
                None => ImmediateValue::Int(0),
            };
            operands.push(crate::lexer::clone_token(&tokens[1]));
            operands.push(crate::lexer::clone_token(&tokens[4]));
            operands.push(Token::ImmediateValue(v, span0));
            opcode = opcode0;
            next_token_num = advance + 1;
        } else {
            return Err(CompileError::InvalidInstruction {
                instruction: opcode0.mnemonic_bytes(),
                span: span0,
                custom_label: Some(EXPECTS_REG_COM_LB_REG_BIOP_IMM_RB),
            });
        }
    } else if opcode0.is_store() {
        if tokens.len() < 8 {
            return Err(CompileError::InvalidInstruction {
                instruction: opcode0.mnemonic_bytes(),
                span: span0,
                custom_label: Some(EXPECTS_MORE_OPERAND),
            });
        }
        let (value, advance) = inline_and_fold_constant(tokens, const_map, 4);
        let mut shape_ok = false;
        match value {
            Some(_) => {
                if advance < tokens.len() - 2 {
                    match (
                        &tokens[1],
                        &tokens[2],
                        &tokens[3],
                        &tokens[advance],
                        &tokens[advance + 1],
                        &tokens[advance + 2],
                    ) {
                        (
                            Token::LeftBracket(_),
                            Token::Register(_, _),
                            Token::BinaryOp(_, _),
                            Token::RightBracket(_),
                            Token::Comma(_),
                            Token::Register(_, _),
                        ) => {
                            shape_ok = true;
                        }
                        _ => {}
                    }
                }
            }
            None => {}
        }
        if shape_ok {
            let v = match value {
                Some(v) => v,
                None => ImmediateValue::Int(0),
            };
            operands.push(crate::lexer::clone_token(&tokens[2]));
            operands.push(Token::ImmediateValue(v, span0));
            operands.push(crate::lexer::clone_token(&tokens[advance + 2]));
            opcode = opcode0;
            next_token_num = advance + 3;
        } else {
            return Err(CompileError::InvalidInstruction {
                instruction: opcode0.mnemonic_bytes(),
                span: span0,
                custom_label: Some(EXPECTS_LB_REG_BIOP_IMM_RB_COM_REG),
            });
        }
    } else if opcode0.is_alu() {
        if tokens.len() < 4 {
            return Err(CompileError::InvalidInstruction {
                instruction: opcode0.mnemonic_bytes(),
                span: span0,
                custom_label: Some(EXPECTS_MORE_OPERAND),
            });
        }
        let (value, advance) = inline_and_fold_constant(tokens, const_map, 3);
        match value {
            Some(v) => {
                match (&tokens[1], &tokens[2]) {
                    (Token::Register(_, _), Token::Comma(_)) => {
                        operands.push(crate::lexer::clone_token(&tokens[1]));
                        operands.push(Token::ImmediateValue(v, span0));
                        opcode = opcode0.imm_variant();
                        next_token_num = advance;
                    }
                    _ => {
                        return Err(CompileError::InvalidInstruction {
                            instruction: opcode0.mnemonic_bytes(),
                            span: span0,
                            custom_label: Some(EXPECTS_REG_COM_IMM),
                        });
                    }
                }
            }
            None => {
                match (&tokens[1], &tokens[2], &tokens[3]) {
                    (Token::Register(_, _), Token::Comma(_), Token::Register(_, _)) => {
                        operands.push(crate::lexer::clone_token(&tokens[1]));
                        operands.push(crate::lexer::clone_token(&tokens[3]));
                        opcode = opcode0.reg_variant();
                        next_token_num = 4;
                    }
                    _ => {
                        return Err(CompileError::InvalidInstruction {
                            instruction: opcode0.mnemonic_bytes(),
                            span: span0,
                            custom_label: Some(EXPECTS_REG_COM_REG),
                        });
                    }
                }
            }
        }
    } else if opcode0.is_jump_cond() {
        if tokens.len() < 6 {
            return Err(CompileError::InvalidInstruction {
                instruction: opcode0.mnemonic_bytes(),
                span: span0,
                custom_label: Some(EXPECTS_MORE_OPERAND),
            });
        }
        let (value, advance) = inline_and_fold_constant(tokens, const_map, 3);
        match value {
            Some(v) => {
                let mut shape_ok = false;
                if advance < tokens.len() - 1 {
                    match (&tokens[1], &tokens[2], &tokens[advance], &tokens[advance + 1]) {
                        (
                            Token::Register(_, _),
                            Token::Comma(_),
                            Token::Comma(_),
                            Token::Identifier(_, _),
                        ) => {
                            shape_ok = true;
                        }
                        _ => {}
                    }
                }
                if shape_ok {
                    operands.push(crate::lexer::clone_token(&tokens[1]));
                    operands.push(Token::ImmediateValue(v, span0));
                    operands.push(crate::lexer::clone_token(&tokens[advance + 1]));
                    opcode = opcode0.imm_variant();
                    next_token_num = advance + 2;
                } else {
                    return Err(CompileError::InvalidInstruction {
                        instruction: opcode0.mnemonic_bytes(),
                        span: span0,
                        custom_label: Some(EXPECTS_REG_COM_IMM_COM_IMM_OR_IDEN),
                    });
                }
            }
            None => {
                match (&tokens[1], &tokens[2], &tokens[3], &tokens[4], &tokens[5]) {
                    (
                        Token::Register(_, _),
                        Token::Comma(_),
                        Token::Register(_, _),
                        Token::Comma(_),
                        Token::Identifier(_, _),
                    ) => {
                        operands.push(crate::lexer::clone_token(&tokens[1]));
                        operands.push(crate::lexer::clone_token(&tokens[3]));
                        operands.push(crate::lexer::clone_token(&tokens[5]));
                        opcode = opcode0.reg_variant();
                        next_token_num = 6;
                    }
                    _ => {
                        return Err(CompileError::InvalidInstruction {
                            instruction: opcode0.mnemonic_bytes(),
                            span: span0,
                            custom_label: Some(EXPECTS_REG_COM_IMM_COM_IMM_OR_IDEN),
                        });
                    }
                }
            }
        }
    } else if match opcode0 {
        Opcode::Ja => true,
        _ => false,
    } {
        if tokens.len() < 2 {
            return Err(CompileError::InvalidInstruction {
                instruction: opcode0.mnemonic_bytes(),
                span: span0,
                custom_label: Some(EXPECTS_MORE_OPERAND),
            });
        }
        let (value, advance) = inline_and_fold_constant(tokens, const_map, 1);
        match value {
            Some(v) => {
                operands.push(Token::ImmediateValue(v, span0));
                opcode = opcode0;
                next_token_num = advance;
            }
            None => {
                match &tokens[1] {
                    Token::Identifier(_, _) => {
                        operands.push(crate::lexer::clone_token(&tokens[1]));
                        opcode = opcode0;
                        next_token_num = 2;
                    }
                    _ => {
                        return Err(CompileError::InvalidInstruction {
                            instruction: opcode0.mnemonic_bytes(),
                            span: span0,
                            custom_label: Some(EXPECTS_IDEN),
                        });
                    }
                }
            }
        }
    } else if match opcode0 {
        Opcode::Call => true,
        _ => false,
    } {
        if tokens.len() < 2 {
            return Err(CompileError::InvalidInstruction {
                instruction: opcode0.mnemonic_bytes(),
                span: span0,
                custom_label: Some(EXPECTS_MORE_OPERAND),
            });
        }
        match &tokens[1] {
            Token::Identifier(_, _) => {
                operands.push(crate::lexer::clone_token(&tokens[1]));
                opcode = opcode0;
                next_token_num = 2;
            }
            _ => {
                return Err(CompileError::InvalidInstruction {
                    instruction: opcode0.mnemonic_bytes(),
                    span: span0,
                    custom_label: Some(EXPECTS_IDEN),
                });
            }
        }
    } else if match opcode0 {
        Opcode::Exit => true,
        _ => false,
    } {
        opcode = opcode0;
        next_token_num = 1;
    } else {
        // The byte-swap opcodes and the bare 64-bit negation are
        // tokenized but not supported by the dispatch.
        return Err(CompileError::InvalidInstruction {
            instruction: opcode0.mnemonic_bytes(),
            span: span0,
            custom_label: None,
        });
    }
    proof {
        assert(sp is Parsed);
        assert(opcode == sp->Parsed_opcode);
        assert(token_views(operands@) =~= sp->operands);
        assert(next_token_num as int == sp->advance);
        lemma_parse_instruction_advance(tokens@, const_map@);
    }
    let inst = Instruction { opcode, operands, span: span0 };
    let rest = vstd::slice::slice_subrange(tokens, next_token_num, tokens.len());
    Ok((inst, rest))
}

impl ParseInstruction for Instruction {
    fn parse_instruction<'a>(tokens: &'a [Token], const_map: &ConstMap) -> Result<
        (Self, &'a [Token]),
        CompileError,
    > {
        if tokens.len() >= 1 {
            match &tokens[0] {
                Token::Opcode(_, _) => parse_instruction_tokens(tokens, const_map),
                _ => Err(CompileError::InvalidInstruction {
                    instruction: Vec::new(),
                    span: Span::new(0, 0),
                    custom_label: None,
                }),
            }
        } else {
            Err(CompileError::InvalidInstruction {
                instruction: Vec::new(),
                span: Span::new(0, 0),
                custom_label: None,
            })
        }
    }
}

// ---------------------------------------------------------------------------
// Second pass: label resolution
// ---------------------------------------------------------------------------

/// The relative jump operand: the signed distance from the instruction
/// to the target in 8-byte slots, minus one (the program counter has
/// already advanced past the jump).
pub open spec fn spec_jump_rel(target: u64, offset: u64) -> i64 {
    let d = target - offset;
    let q = if d >= 0 {
        d / 8
    } else {
        -((-d) / 8)
    };
    (q - 1) as i64
}

/// Jumping to the next instruction is a relative offset of zero.
pub proof fn lemma_jump_to_next_is_zero(offset: u64)
    requires
        offset + 8 <= u64::MAX,
    ensures
        spec_jump_rel((offset + 8) as u64, offset) == 0,
{
}

fn jump_rel(target: u64, offset: u64) -> (r: i64)
    ensures
        r == spec_jump_rel(target, offset),
{
    if target >= offset {
        let q = (target - offset) / 8;
        proof {
            assert(q <= u64::MAX / 8);
        }
        (q as i64) - 1
    } else {
        let q = (offset - target) / 8;
        proof {
            assert(q <= u64::MAX / 8);
        }
        -(q as i64) - 1
    }
}

/// An upper bound on every label offset and instruction offset the
/// parser records; resolution arithmetic stays within `i64`.
pub open spec fn label_bound() -> int {
    0x5000_0000_0000_0000
}

/// The operands of an instruction after the second pass: the last
/// operand of a resolvable jump becomes the relative offset, and the
/// last operand of a `lddw` with a known label becomes the absolute
/// file offset past the headers.
pub open spec fn spec_resolved_ops(
    ops: Seq<TokenView>,
    opcode: Opcode,
    offset: u64,
    lm: Seq<(Seq<u8>, u64)>,
    prog_is_static: bool,
) -> Seq<TokenView> {
    if opcode.spec_is_jump_resolved() && ops.len() > 0 && ops.last() is Identifier {
        match map_lookup(lm, ops.last()->Identifier_0) {
            Some(target) => ops.update(
                ops.len() - 1,
                TokenView::ImmediateValue(
                    ImmediateValue::Int(spec_jump_rel(target, offset)),
                    ops.last()->Identifier_1,
                ),
            ),
            None => ops,
        }
    } else if opcode is Lddw && ops.len() > 0 && ops.last() is Identifier {
        match map_lookup(lm, ops.last()->Identifier_0) {
            Some(target) => ops.update(
                ops.len() - 1,
                TokenView::ImmediateValue(
                    ImmediateValue::Addr((target + spec_ph_offset(prog_is_static)) as i64),
                    ops.last()->Identifier_1,
                ),
            ),
            None => ops,
        }
    } else {
        ops
    }
}

/// The file offset where `.text` begins: the ELF header plus one
/// program header for a static program, three for a dynamic one.
pub open spec fn spec_ph_offset(prog_is_static: bool) -> int {
    if prog_is_static {
        120int
    } else {
        232int
    }
}

/// How one node changes in the second pass.
pub open spec fn spec_resolved_node(
    pre: ASTNode,
    post: ASTNode,
    lm: Seq<(Seq<u8>, u64)>,
    prog_is_static: bool,
) -> bool {
    match pre {
        ASTNode::Instruction { instruction, offset } => match post {
            ASTNode::Instruction { instruction: pi, offset: po } => {
                &&& po == offset
                &&& pi.opcode == instruction.opcode
                &&& pi.span == instruction.span
                &&& token_views(pi.operands@) == spec_resolved_ops(
                    token_views(instruction.operands@),
                    instruction.opcode,
                    offset,
                    lm,
                    prog_is_static,
                )
            },
            _ => false,
        },
        _ => post == pre,
    }
}

/// The diagnostics the second pass adds: one `UndefinedLabel` for every
/// `lddw` whose identifier operand no label defines, in node order.
pub open spec fn spec_undef_errors(nodes: Seq<ASTNode>, lm: Seq<(Seq<u8>, u64)>) -> Seq<ErrorView>
    decreases nodes.len(),
{
    if nodes.len() == 0 {
        Seq::empty()
    } else {
        spec_undef_errors(nodes.drop_last(), lm) + match nodes.last() {
            ASTNode::Instruction { instruction, .. } => {
                let ops = token_views(instruction.operands@);
                if instruction.opcode is Lddw && ops.len() > 0 && ops.last() is Identifier
                    && map_lookup(lm, ops.last()->Identifier_0) is None {
                    seq![
                        ErrorView::UndefinedLabel {
                            label: ops.last()->Identifier_0,
                            span: ops.last()->Identifier_1,
                            custom_label: None,
                        },
                    ]
                } else {
                    Seq::<ErrorView>::empty()
                }
            },
            _ => Seq::<ErrorView>::empty(),
        }
    }
}

/// A copy of an operand list.
fn clone_tokens(v: &Vec<Token>) -> (r: Vec<Token>)
    ensures
        token_views(r@) == token_views(v@),
{
    let mut out: Vec<Token> = Vec::new();
    let mut i: usize = 0;
    proof {
        assert(token_views(out@) =~= token_views(v@).take(0));
    }
    while i < v.len()
        invariant
            0 <= i <= v@.len(),
            out@.len() == i,
            token_views(out@) == token_views(v@).take(i as int),
        decreases v@.len() - i,
    {
        out.push(crate::lexer::clone_token(&v[i]));
        proof {
            assert(token_views(out@) =~= token_views(v@).take(i + 1));
        }
        i += 1;
    }
    proof {
        assert(token_views(v@).take(v@.len() as int) =~= token_views(v@));
    }
    out
}

/// The second pass: walk the instructions and rewrite jump and `lddw`
/// label operands against the label map. Jump targets no label defines
/// are left in place; undefined `lddw` targets are reported.
#[verifier::rlimit(100)]
pub fn resolve_labels(
    nodes: &mut Vec<ASTNode>,
    labels: &LabelMap,
    prog_is_static: bool,
    errors: &mut Vec<CompileError>,
)
    requires
        forall|j: int| 0 <= j < labels@.len() ==> (#[trigger] labels@[j]).1 < label_bound(),
    ensures
        final(nodes)@.len() == old(nodes)@.len(),
        forall|j: int|
            0 <= j < old(nodes)@.len() ==> spec_resolved_node(
                old(nodes)@[j],
                #[trigger] final(nodes)@[j],
                labels@,
                prog_is_static,
            ),
        error_views(final(errors)@) == error_views(old(errors)@) + spec_undef_errors(
            old(nodes)@,
            labels@,
        ),
{
    let ph_count: u64 = if prog_is_static {
        1
    } else {
        3
    };
    let ph_offset: u64 = 64 + ph_count * 56;
    let mut i: usize = 0;
    proof {
        assert(old(nodes)@.take(0) =~= Seq::<ASTNode>::empty());
        assert(error_views(errors@) =~= error_views(old(errors)@) + spec_undef_errors(
            old(nodes)@.take(0),
            labels@,
        ));
    }
    while i < nodes.len()
        invariant
            0 <= i <= nodes@.len(),
            nodes@.len() == old(nodes)@.len(),
            ph_offset == spec_ph_offset(prog_is_static),
            forall|j: int| 0 <= j < labels@.len() ==> (#[trigger] labels@[j]).1 < label_bound(),
            forall|j: int| i <= j < nodes@.len() ==> #[trigger] nodes@[j] == old(nodes)@[j],
            forall|j: int|
                0 <= j < i ==> spec_resolved_node(
                    old(nodes)@[j],
                    #[trigger] nodes@[j],
                    labels@,
                    prog_is_static,
                ),
            error_views(errors@) == error_views(old(errors)@) + spec_undef_errors(
                old(nodes)@.take(i as int),
                labels@,
            ),
        decreases nodes@.len() - i,
    {
        proof {
            assert(old(nodes)@.take(i + 1).drop_last() =~= old(nodes)@.take(i as int));
            assert(old(nodes)@.take(i + 1).last() == old(nodes)@[i as int]);
        }
        let ghost pre_node = nodes@[i as int];
        let mut replaced = false;
        match &nodes[i] {
            ASTNode::Instruction { instruction, offset } => {
                let is_jump = instruction.opcode.is_jump_resolved();
                let is_lddw = match instruction.opcode {
                    Opcode::Lddw => true,
                    _ => false,
                };
                if (is_jump || is_lddw) && instruction.operands.len() > 0 {
                    let last_idx = instruction.operands.len() - 1;
                    match &instruction.operands[last_idx] {
                        Token::Identifier(name, span) => {
                            proof {
                                assert(token_views(instruction.operands@).last()
                                    == instruction.operands@[last_idx as int]@);
                            }
                            match labels.get(name.as_slice()) {
                                Some(target) => {
                                    proof {
                                        lemma_map_lookup_props(labels@, name@);
                                        if map_lookup(labels@, name@) is Some {
                                            let j = choose|j: int|
                                                0 <= j < labels@.len() && (#[trigger] labels@[
                                                j]).0 == name@ && labels@[j].1 == map_lookup(
                                                labels@,
                                                name@,
                                            )->0 && forall|k: int|
                                                0 <= k < j ==> (#[trigger] labels@[k]).0 != name@;
                                            assert(labels@[j].1 < label_bound());
                                        }
                                        assert(target < label_bound());
                                    }
                                    let new_imm = if is_jump {
                                        ImmediateValue::Int(jump_rel(target, *offset))
                                    } else {
                                        ImmediateValue::Addr((target + ph_offset) as i64)
                                    };
                                    let mut new_ops = clone_tokens(&instruction.operands);
                                    new_ops.set(last_idx, Token::ImmediateValue(new_imm, *span));
                                    let new_inst = Instruction {
                                        opcode: instruction.opcode,
                                        operands: new_ops,
                                        span: instruction.span,
                                    };
                                    let new_node = ASTNode::Instruction {
                                        instruction: new_inst,
                                        offset: *offset,
                                    };
                                    let off = *offset;
                                    proof {
                                        assert(token_views(new_node->instruction.operands@)
                                            =~= spec_resolved_ops(
                                            token_views(pre_node->instruction.operands@),
                                            pre_node->instruction.opcode,
                                            off,
                                            labels@,
                                            prog_is_static,
                                        ));
                                    }
                                    nodes.set(i, new_node);
                                    replaced = true;
                                }
                                None => {
                                    if is_lddw {
                                        let ghost pre_errs = errors@;
                                        let e = CompileError::UndefinedLabel {
                                            label: vstd::slice::slice_to_vec(name.as_slice()),
                                            span: *span,
                                            custom_label: None,
                                        };
                                        let ghost ev = e@;
                                        errors.push(e);
                                        proof {
                                            assert(error_views(errors@) =~= error_views(
                                                pre_errs,
                                            ).push(ev));
                                            assert(spec_undef_errors(
                                                old(nodes)@.take(i + 1),
                                                labels@,
                                            ) =~= spec_undef_errors(
                                                old(nodes)@.take(i as int),
                                                labels@,
                                            ).push(ev));
                                            assert(error_views(errors@) =~= error_views(
                                                old(errors)@,
                                            ) + spec_undef_errors(
                                                old(nodes)@.take(i + 1),
                                                labels@,
                                            ));
                                        }
                                    }
                                }
                            }
                        }
                        _ => {}
                    }
                }
            }
            _ => {}
        }
        proof {
            assert(spec_resolved_node(
                old(nodes)@[i as int],
                nodes@[i as int],
                labels@,
                prog_is_static,
            ));
            assert(error_views(errors@) =~= error_views(old(errors)@) + spec_undef_errors(
                old(nodes)@.take(i + 1),
                labels@,
            ));
        }
        i += 1;
    }
    proof {
        assert(old(nodes)@.take(old(nodes)@.len() as int) =~= old(nodes)@);
    }
}

// ---------------------------------------------------------------------------
// The parser driver
// ---------------------------------------------------------------------------

/// The string-literal payload a token carries, in bytes.
pub open spec fn lit_len(t: Token) -> int {
    match t@ {
        TokenView::StringLiteral(s, _) => s.len() as int,
        _ => 0,
    }
}

/// The total string-literal payload of a token sequence.
pub open spec fn lit_len_sum(tokens: Seq<Token>) -> int
    decreases tokens.len(),
{
    if tokens.len() == 0 {
        0
    } else {
        lit_len_sum(tokens.drop_last()) + lit_len(tokens.last())
    }
}

pub proof fn lemma_lit_sum_take_mono(tokens: Seq<Token>, a: int, b: int)
    requires
        0 <= a <= b <= tokens.len(),
    ensures
        lit_len_sum(tokens.take(a)) <= lit_len_sum(tokens.take(b)),
    decreases b - a,
{
    if a < b {
        assert(tokens.take(a + 1).drop_last() =~= tokens.take(a));
        assert(lit_len_sum(tokens.take(a + 1)) == lit_len_sum(tokens.take(a)) + lit_len(
            tokens[a],
        ));
        lemma_lit_sum_take_mono(tokens, a + 1, b);
    }
}

/// Every identifier-like token payload is small enough for symbol-table
/// offset arithmetic.
pub open spec fn tokens_name_bounded(tokens: Seq<Token>) -> bool {
    forall|j: int|
        0 <= j < tokens.len() ==> match #[trigger] tokens[j]@ {
            TokenView::Identifier(n, _) => n.len() <= 0x0400_0000,
            TokenView::Label(n, _) => n.len() <= 0x0400_0000,
            _ => true,
        }
}

/// Every instruction node sits at the byte offset where its bytes begin
/// within the `.text` payload, and offsets are multiples of 8.
pub open spec fn spec_text_offsets_ok(nodes: Seq<ASTNode>) -> bool {
    forall|j: int|
        0 <= j < nodes.len() ==> ((#[trigger] nodes[j]) matches ASTNode::Instruction {
            offset,
            ..
        } ==> (offset == spec_text_bytes(nodes.take(j)).len() && offset % 8 == 0))
}

proof fn lemma_offsets_ok_push(nodes: Seq<ASTNode>, x: ASTNode)
    requires
        spec_text_offsets_ok(nodes),
        x matches ASTNode::Instruction { offset, .. } ==> offset == spec_text_bytes(nodes).len()
            && offset % 8 == 0,
    ensures
        spec_text_offsets_ok(nodes.push(x)),
{
    assert forall|j: int|
        0 <= j < nodes.push(x).len() implies ((#[trigger] nodes.push(x)[j])
            matches ASTNode::Instruction {
            offset,
            ..
        } ==> (offset == spec_text_bytes(nodes.push(x).take(j)).len() && offset % 8 == 0)) by {
        assert(nodes.push(x).take(j) =~= nodes.take(j));
        if j < nodes.len() {
            assert(nodes.push(x)[j] == nodes[j]);
        } else {
            assert(nodes.push(x)[j] == x);
            assert(nodes.take(j) =~= nodes);
        }
    }
}

/// Length changes in the second pass cancel out: resolved operands keep
/// every instruction's encoded length, so offsets stay aligned with the
/// payload.
pub proof fn lemma_resolve_preserves_text(
    pre: Seq<ASTNode>,
    post: Seq<ASTNode>,
    lm: Seq<(Seq<u8>, u64)>,
    prog_is_static: bool,
    k: int,
)
    requires
        pre.len() == post.len(),
        forall|j: int|
            0 <= j < pre.len() ==> spec_resolved_node(pre[j], #[trigger] post[j], lm, prog_is_static),
        0 <= k <= pre.len(),
    ensures
        spec_text_bytes(post.take(k)).len() == spec_text_bytes(pre.take(k)).len(),
    decreases k,
{
    if k > 0 {
        lemma_resolve_preserves_text(pre, post, lm, prog_is_static, k - 1);
        assert(pre.take(k).drop_last() =~= pre.take(k - 1));
        assert(post.take(k).drop_last() =~= post.take(k - 1));
        assert(spec_resolved_node(pre[k - 1], post[k - 1], lm, prog_is_static));
        match pre[k - 1] {
            ASTNode::Instruction { instruction, offset } => {
                match post[k - 1] {
                    ASTNode::Instruction { instruction: pi, offset: po } => {
                        crate::astnode::lemma_instruction_bytes_len(
                            instruction.opcode,
                            token_views(instruction.operands@),
                        );
                        crate::astnode::lemma_instruction_bytes_len(
                            pi.opcode,
                            token_views(pi.operands@),
                        );
                    }
                    _ => {}
                }
            }
            _ => {}
        }
    }
}

/// Offsets stay correct through the second pass.
pub proof fn lemma_resolve_preserves_offsets(
    pre: Seq<ASTNode>,
    post: Seq<ASTNode>,
    lm: Seq<(Seq<u8>, u64)>,
    prog_is_static: bool,
)
    requires
        pre.len() == post.len(),
        forall|j: int|
            0 <= j < pre.len() ==> spec_resolved_node(pre[j], #[trigger] post[j], lm, prog_is_static),
        spec_text_offsets_ok(pre),
    ensures
        spec_text_offsets_ok(post),
        spec_text_bytes(post).len() == spec_text_bytes(pre).len(),
{
    assert forall|j: int|
        0 <= j < post.len() implies ((#[trigger] post[j]) matches ASTNode::Instruction {
            offset,
            ..
        } ==> (offset == spec_text_bytes(post.take(j)).len() && offset % 8 == 0)) by {
        assert(spec_resolved_node(pre[j], post[j], lm, prog_is_static));
        match pre[j] {
            ASTNode::Instruction { instruction, offset: off0 } => {
                lemma_resolve_preserves_text(pre, post, lm, prog_is_static, j);
            }
            _ => {}
        }
    }
    lemma_resolve_preserves_text(pre, post, lm, prog_is_static, pre.len() as int);
    assert(pre.take(pre.len() as int) =~= pre);
    assert(post.take(post.len() as int) =~= post);
}

/// Pushing a node that carries no bytes leaves the payload unchanged.
proof fn lemma_push_plain(nodes: Seq<ASTNode>, x: ASTNode)
    requires
        !(x is Instruction),
        !(x is ROData),
        spec_text_offsets_ok(nodes),
    ensures
        spec_text_bytes(nodes.push(x)) == spec_text_bytes(nodes),
        spec_text_offsets_ok(nodes.push(x)),
{
    assert(nodes.push(x).drop_last() =~= nodes);
    assert(spec_text_bytes(nodes.push(x)) =~= spec_text_bytes(nodes));
    lemma_offsets_ok_push(nodes, x);
}

/// Binding a bounded value into a bounded label map keeps it bounded.
pub proof fn lemma_map_insert_bound(
    entries: Seq<(Seq<u8>, u64)>,
    name: Seq<u8>,
    value: u64,
    bound: int,
)
    requires
        forall|j: int| 0 <= j < entries.len() ==> (#[trigger] entries[j]).1 < bound,
        value < bound,
    ensures
        forall|j: int|
            0 <= j < map_insert(entries, name, value).len() ==> (#[trigger] map_insert(
                entries,
                name,
                value,
            )[j]).1 < bound,
    decreases entries.len(),
{
    if entries.len() == 0 {
    } else if entries[0].0 == name {
        let r = map_insert(entries, name, value);
        assert forall|j: int| 0 <= j < r.len() implies (#[trigger] r[j]).1 < bound by {
            if j > 0 {
                assert(r[j] == entries.skip(1)[j - 1]);
                assert(entries.skip(1)[j - 1] == entries[j]);
            }
        }
    } else {
        assert(forall|j: int|
            0 <= j < entries.skip(1).len() ==> #[trigger] entries.skip(1)[j] == entries[j + 1]);
        lemma_map_insert_bound(entries.skip(1), name, value, bound);
        let r = map_insert(entries, name, value);
        let rs = map_insert(entries.skip(1), name, value);
        assert forall|j: int| 0 <= j < r.len() implies (#[trigger] r[j]).1 < bound by {
            if j > 0 {
                assert(r[j] == rs[j - 1]);
            }
        }
    }
}

/// Every syscall relocation names a symbol recorded as a call target.
pub open spec fn reloc_syms_consistent(
    rel: Seq<(u64, Seq<(RelocationType, Seq<u8>)>)>,
    syms: Seq<(Seq<u8>, Seq<(crate::dynsym::SymbolKind, u64)>)>,
) -> bool {
    forall|g: int, p: int|
        0 <= g < rel.len() && 0 <= p < rel[g].1.len() && (#[trigger] rel[g].1[p]).0
            is RSbfSyscall ==> exists|j: int|
            0 <= j < syms.len() && (#[trigger] syms[j]).0 == rel[g].1[p].1
                && crate::dynsym::has_kind(syms[j].1, crate::dynsym::SymbolKind::CallTarget)
}

/// Everything a successful parse promises of its result, over the
/// token stream and the source it came from.
pub open spec fn spec_parse_ok(tokens: Seq<Token>, source: Seq<u8>, result: ParseResult) -> bool {
    let fp = spec_first_pass(tokens);
                    &&& crate::astnode::node_views(result.code_section.spec_nodes())
                        == spec_resolve_views(fp.nodes, fp.labels, fp.is_static)
                    &&& crate::astnode::node_views(result.data_section.spec_nodes())
                        == fp.rodata_nodes
                    &&& result.dynamic_symbols@ == spec_publish_entry(fp.syms, fp.entry, fp.labels)
                    &&& result.relocation_data@ == fp.rels
                    &&& result.prog_is_static == fp.is_static
                    &&& result.code_section.spec_size() == fp.accum
                    &&& result.data_section.spec_size() == fp.rodata_size
                    &&& result.code_section.spec_offset() == 0
                    &&& result.data_section.spec_offset() == 0
                    &&& result.code_section.spec_line_map() == Seq::<(u64, usize)>::empty()
                    &&& result.code_section.spec_debug_map() == crate::section::spec_debug_entries(
                        result.code_section.spec_nodes(),
                        source,
                    )
                    &&& result.code_section.spec_size() == spec_text_bytes(
                        result.code_section.spec_nodes(),
                    ).len()
                    &&& spec_text_offsets_ok(result.code_section.spec_nodes())
                    &&& result.data_section.spec_size() == crate::section::spec_data_content(
                        result.data_section.spec_nodes(),
                    ).len()
                    &&& (result.prog_is_static <==> result.relocation_data@.len() == 0)
                    &&& forall|j: int|
                        0 <= j < result.relocation_data@.len() ==> (
                        #[trigger] result.relocation_data@[j]).0 < label_bound()
                    &&& result.code_section.spec_size() <= 0x4000_0000_0000
                    &&& result.code_section.spec_size() % 8 == 0
                    &&& crate::section::spec_data_content(
                        result.data_section.spec_nodes(),
                    ).len() <= 0x0400_0000
                    &&& result.dynamic_symbols@.len() <= 0x0400_0001
                    &&& forall|j: int|
                        0 <= j < result.dynamic_symbols@.len() ==> (
                        #[trigger] result.dynamic_symbols@[j]).0.len() <= 0x0400_0000
                    &&& crate::dynsym::flatten_rels(result.relocation_data@).len() <= 0x0400_0000
                    &&& reloc_syms_consistent(result.relocation_data@, result.dynamic_symbols@)
}

/// Recording one more occurrence of a symbol keeps every relocation's
/// witness, and a call-target recording provides one for its name.
proof fn lemma_consistent_after_sym_add(
    rel: Seq<(u64, Seq<(RelocationType, Seq<u8>)>)>,
    syms_old: Seq<(Seq<u8>, Seq<(crate::dynsym::SymbolKind, u64)>)>,
    syms_new: Seq<(Seq<u8>, Seq<(crate::dynsym::SymbolKind, u64)>)>,
    name: Seq<u8>,
    kind: crate::dynsym::SymbolKind,
    offset: u64,
)
    requires
        reloc_syms_consistent(rel, syms_old),
        ({
            let r = crate::dynsym::find_name(syms_old, name);
            if r >= 0 {
                syms_new == syms_old.update(r, (syms_old[r].0, syms_old[r].1.push((kind, offset))))
            } else {
                syms_new == syms_old.push((name, seq![(kind, offset)]))
            }
        }),
    ensures
        reloc_syms_consistent(rel, syms_new),
        exists|j: int|
            0 <= j < syms_new.len() && (#[trigger] syms_new[j]).0 == name && crate::dynsym::has_kind(
                syms_new[j].1,
                kind,
            ),
{
    crate::dynsym::lemma_find_name_props(syms_old, name);
    let r = crate::dynsym::find_name(syms_old, name);
    if r >= 0 {
        assert(syms_new[r].0 == name);
        assert(syms_new[r].1[syms_old[r].1.len() as int] == (kind, offset));
        assert(crate::dynsym::has_kind(syms_new[r].1, kind));
    } else {
        let w = syms_old.len() as int;
        assert(syms_new[w].0 == name);
        assert(syms_new[w].1[0] == (kind, offset));
        assert(crate::dynsym::has_kind(syms_new[w].1, kind));
    }
    assert forall|g: int, p: int|
        0 <= g < rel.len() && 0 <= p < rel[g].1.len() && (#[trigger] rel[g].1[p]).0
            is RSbfSyscall implies exists|j: int|
        0 <= j < syms_new.len() && (#[trigger] syms_new[j]).0 == rel[g].1[p].1
            && crate::dynsym::has_kind(syms_new[j].1, crate::dynsym::SymbolKind::CallTarget) by {
        let j0 = choose|j: int|
            0 <= j < syms_old.len() && (#[trigger] syms_old[j]).0 == rel[g].1[p].1
                && crate::dynsym::has_kind(syms_old[j].1, crate::dynsym::SymbolKind::CallTarget);
        assert(syms_new[j0].0 == syms_old[j0].0);
        if r >= 0 && j0 == r {
            let k0 = choose|k: int|
                0 <= k < syms_old[j0].1.len() && (#[trigger] syms_old[j0].1[k]).0
                    == crate::dynsym::SymbolKind::CallTarget;
            assert(syms_new[j0].1[k0] == syms_old[j0].1[k0]);
            assert(crate::dynsym::has_kind(
                syms_new[j0].1,
                crate::dynsym::SymbolKind::CallTarget,
            ));
        } else {
            assert(syms_new[j0].1 == syms_old[j0].1);
        }
    }
}

/// Recording a relocation whose syscall name already has a call-target
/// witness keeps the whole table consistent.
proof fn lemma_consistent_after_rel_add(
    rel_old: Seq<(u64, Seq<(RelocationType, Seq<u8>)>)>,
    rel_new: Seq<(u64, Seq<(RelocationType, Seq<u8>)>)>,
    syms: Seq<(Seq<u8>, Seq<(crate::dynsym::SymbolKind, u64)>)>,
    offset: u64,
    rtype: RelocationType,
    name: Seq<u8>,
)
    requires
        reloc_syms_consistent(rel_old, syms),
        ({
            let r = crate::dynsym::find_offset(rel_old, offset);
            if r >= 0 {
                rel_new == rel_old.update(r, (offset, rel_old[r].1.push((rtype, name))))
            } else {
                rel_new == rel_old.push((offset, seq![(rtype, name)]))
            }
        }),
        rtype is RSbfSyscall ==> exists|j: int|
            0 <= j < syms.len() && (#[trigger] syms[j]).0 == name && crate::dynsym::has_kind(
                syms[j].1,
                crate::dynsym::SymbolKind::CallTarget,
            ),
    ensures
        reloc_syms_consistent(rel_new, syms),
{
    crate::dynsym::lemma_find_offset_props(rel_old, offset);
    let r = crate::dynsym::find_offset(rel_old, offset);
    assert forall|g: int, p: int|
        0 <= g < rel_new.len() && 0 <= p < rel_new[g].1.len() && (#[trigger] rel_new[g].1[p]).0
            is RSbfSyscall implies exists|j: int|
        0 <= j < syms.len() && (#[trigger] syms[j]).0 == rel_new[g].1[p].1
            && crate::dynsym::has_kind(syms[j].1, crate::dynsym::SymbolKind::CallTarget) by {
        if r >= 0 && g == r && p == rel_old[r].1.len() {
            assert(rel_new[g].1[p] == (rtype, name));
        } else if r < 0 && g == rel_old.len() {
            assert(rel_new[g].1[p] == (rtype, name));
        } else {
            assert(rel_new[g].1[p] == rel_old[g].1[p]);
            assert((rel_old[g].1[p]).0 is RSbfSyscall);
        }
    }
}

/// The parser: carries the token stream, the source (for line numbers),
/// and the cross-section state the passes accumulate.
pub struct Parser {
    tokens: Vec<Token>,
    source: Vec<u8>,
    pub m_prog_is_static: bool,
    pub m_accum_offset: u64,
}

/// Everything parsing produces: the two sections with their nodes, the
/// dynamic symbols, the relocation requests, and whether the program is
/// static.
pub struct ParseResult {
    pub code_section: CodeSection,
    pub data_section: DataSection,
    pub dynamic_symbols: DynamicSymbolMap,
    pub relocation_data: RelDynMap,
    pub prog_is_static: bool,
}

impl Parser {
    pub closed spec fn spec_tokens(&self) -> Seq<Token> {
        self.tokens@
    }

    pub closed spec fn spec_source(&self) -> Seq<u8> {
        self.source@
    }

    /// Input sizes under which every offset computation fits its type.
    pub open spec fn wf_input(&self) -> bool {
        &&& self.spec_tokens().len() <= 0x0400_0000
        &&& lit_len_sum(self.spec_tokens()) <= 0x0400_0000
        &&& tokens_name_bounded(self.spec_tokens())
        &&& self.spec_source().len() < usize::MAX
    }

    pub fn new(tokens: Vec<Token>, source: &[u8]) -> (r: Self)
        ensures
            r.spec_tokens() == tokens@,
            r.spec_source() == source@,
    {
        Self {
            tokens,
            source: vstd::slice::slice_to_vec(source),
            m_prog_is_static: true,
            m_accum_offset: 0,
        }
    }

    /// Both passes: tokens to sections, symbols and relocations. The
    /// result is pinned to the token stream: its parts equal the first
    /// pass's, resolved by the second, and the diagnostics are exactly
    /// the passes' own.
    #[verifier::rlimit(100)]
    pub fn parse(&mut self) -> (r: Result<ParseResult, Vec<CompileError>>)
        requires
            old(self).wf_input(),
        ensures
            r is Err <==> spec_parse_diags(old(self).spec_tokens()).len() > 0,
            match r {
                Ok(result) => spec_parse_ok(
                    old(self).spec_tokens(),
                    old(self).spec_source(),
                    result,
                ),
                Err(errs) => error_views(errs@) == spec_parse_diags(old(self).spec_tokens()),
            },
    {
        let ghost total = self.tokens@.len();
        let mut pos: usize = 0;
        let mut accum: u64 = 0;
        let mut rodata_size: u64 = 0;
        let mut prog_is_static: bool = true;
        let mut rodata_phase: bool = false;
        let mut const_map = ConstMap::new();
        let mut label_map = LabelMap::new();
        let mut dyn_syms = DynamicSymbolMap::new();
        let mut rel_dyns = RelDynMap::new();
        let mut entry_label: Option<Vec<u8>> = None;
        let mut nodes: Vec<ASTNode> = Vec::new();
        let mut rodata_nodes: Vec<ASTNode> = Vec::new();
        let mut errors: Vec<CompileError> = Vec::new();
        proof {
            assert(spec_text_bytes(nodes@) =~= Seq::<u8>::empty());
            assert(crate::section::spec_data_content(rodata_nodes@) =~= Seq::<u8>::empty());
            assert(self.tokens@.take(0) =~= Seq::<Token>::empty());
            lemma_lit_sum_take_mono(self.tokens@, 0, self.tokens@.len() as int);
            assert(self.tokens@.take(self.tokens@.len() as int) =~= self.tokens@);
            assert(crate::dynsym::flatten_rels(rel_dyns@).len() == 0);
            assert(crate::astnode::node_views(nodes@) =~= Seq::<crate::astnode::NodeView>::empty());
            assert(crate::astnode::node_views(rodata_nodes@) =~= Seq::<
                crate::astnode::NodeView,
            >::empty());
            assert(error_views(errors@) =~= Seq::<ErrorView>::empty());
            assert(fp_of(
                crate::astnode::node_views(nodes@),
                crate::astnode::node_views(rodata_nodes@),
                error_views(errors@),
                accum,
                rodata_size,
                const_map@,
                label_map@,
                opt_name_view(entry_label),
                dyn_syms@,
                rel_dyns@,
                prog_is_static,
                rodata_phase,
            ) == fp_init());
        }
        while pos < self.tokens.len()
            invariant
                0 <= pos <= self.tokens@.len(),
                self.tokens@.len() <= 0x0400_0000,
                lit_len_sum(self.tokens@) <= 0x0400_0000,
                tokens_name_bounded(self.tokens@),
                self == old(self),
                accum == spec_text_bytes(nodes@).len(),
                accum % 8 == 0,
                accum <= 16 * pos,
                spec_text_offsets_ok(nodes@),
                rodata_size == crate::section::spec_data_content(rodata_nodes@).len(),
                rodata_size <= lit_len_sum(self.tokens@.take(pos as int)),
                lit_len_sum(self.tokens@.take(pos as int)) <= lit_len_sum(self.tokens@),
                (prog_is_static <==> rel_dyns@.len() == 0),
                forall|j: int| 0 <= j < label_map@.len() ==> (#[trigger] label_map@[j]).1
                    < label_bound(),
                forall|j: int| 0 <= j < rel_dyns@.len() ==> (#[trigger] rel_dyns@[j]).0
                    < label_bound(),
                dyn_syms@.len() <= pos,
                (entry_label matches Some(e) ==> e@.len() <= 0x0400_0000),
                forall|j: int| 0 <= j < dyn_syms@.len() ==> (#[trigger] dyn_syms@[j]).0.len()
                    <= 0x0400_0000,
                crate::dynsym::flatten_rels(rel_dyns@).len() <= pos,
                reloc_syms_consistent(rel_dyns@, dyn_syms@),
                fp_run(
                    self.tokens@,
                    pos as int,
                    fp_of(
                        crate::astnode::node_views(nodes@),
                        crate::astnode::node_views(rodata_nodes@),
                        error_views(errors@),
                        accum,
                        rodata_size,
                        const_map@,
                        label_map@,
                        opt_name_view(entry_label),
                        dyn_syms@,
                        rel_dyns@,
                        prog_is_static,
                        rodata_phase,
                    ),
                ) == spec_first_pass(self.tokens@),
            decreases self.tokens@.len() - pos,
        {
            proof {
                lemma_lit_sum_take_mono(self.tokens@, pos as int, self.tokens@.len() as int);
                assert(self.tokens@.take(self.tokens@.len() as int) =~= self.tokens@);
            }
            let toklen = self.tokens.len();
            let sub = vstd::slice::slice_subrange(self.tokens.as_slice(), pos, toklen);
            let ghost subv = sub@;
            proof {
                assert(subv[0] == self.tokens@[pos as int]);
            }
            let ghost stB = fp_of(
                crate::astnode::node_views(nodes@),
                crate::astnode::node_views(rodata_nodes@),
                error_views(errors@),
                accum,
                rodata_size,
                const_map@,
                label_map@,
                opt_name_view(entry_label),
                dyn_syms@,
                rel_dyns@,
                prog_is_static,
                rodata_phase,
            );
            let consumed: usize;
            match &self.tokens[pos] {
                Token::Directive(name, span) => {
                    let dname = name.as_slice();
                    if bytes_eq(dname, "global".as_bytes()) || bytes_eq(dname, "globl".as_bytes()) {
                        match parse_global(sub) {
                            Ok((node, rest)) => {
                                proof {
                                    assert(subv[1] == self.tokens@[pos + 1]);
                                    assert(node.entry_label@.len() <= 0x0400_0000);
                                }
                                entry_label = Some(node.get_entry_label());
                                let ghost pre_nodes = nodes@;
                                nodes.push(ASTNode::GlobalDecl { global_decl: node });
                                proof {
                                    lemma_push_plain(pre_nodes, nodes@.last());
                                    assert(nodes@ == pre_nodes.push(nodes@.last()));
                                    crate::astnode::lemma_node_views_push(
                                        pre_nodes,
                                        nodes@.last(),
                                    );
                                }
                                consumed = 2;
                                proof {
                                    reveal(fp_directive);
                                    reveal(fp_label);
                                    reveal(fp_opcode);
                                    assert(fp_step(self.tokens@, pos as int, stB) == (
                                        fp_of(
                                            crate::astnode::node_views(nodes@),
                                            crate::astnode::node_views(rodata_nodes@),
                                            error_views(errors@),
                                            accum,
                                            rodata_size,
                                            const_map@,
                                            label_map@,
                                            opt_name_view(entry_label),
                                            dyn_syms@,
                                            rel_dyns@,
                                            prog_is_static,
                                            rodata_phase,
                                        ),
                                        consumed as int,
                                    ));
                                }
                            }
                            Err(e) => {
                                let ghost pre_errs = errors@;
                                errors.push(e);
                                proof {
                                    lemma_error_views_push(pre_errs, errors@.last());
                                    assert(errors@ == pre_errs.push(errors@.last()));
                                }
                                consumed = 1;
                                proof {
                                    reveal(fp_directive);
                                    reveal(fp_label);
                                    reveal(fp_opcode);
                                    assert(fp_step(self.tokens@, pos as int, stB) == (
                                        fp_of(
                                            crate::astnode::node_views(nodes@),
                                            crate::astnode::node_views(rodata_nodes@),
                                            error_views(errors@),
                                            accum,
                                            rodata_size,
                                            const_map@,
                                            label_map@,
                                            opt_name_view(entry_label),
                                            dyn_syms@,
                                            rel_dyns@,
                                            prog_is_static,
                                            rodata_phase,
                                        ),
                                        consumed as int,
                                    ));
                                }
                            }
                        }
                    } else if bytes_eq(dname, "extern".as_bytes()) {
                        match parse_extern(sub) {
                            Ok((node, rest)) => {
                                proof {
                                    lemma_ident_run_end_bounds(subv, 1);
                                    assert(rest@.len() <= subv.len());
                                }
                                let n = sub.len() - rest.len();
                                proof {
                                    assert(n >= 2);
                                }
                                let ghost pre_nodes = nodes@;
                                nodes.push(ASTNode::ExternDecl { extern_decl: node });
                                proof {
                                    lemma_push_plain(pre_nodes, nodes@.last());
                                    assert(nodes@ == pre_nodes.push(nodes@.last()));
                                    crate::astnode::lemma_node_views_push(
                                        pre_nodes,
                                        nodes@.last(),
                                    );
                                    assert(n == ident_run_end(subv, 1));
                                }
                                consumed = n;
                                proof {
                                    reveal(fp_directive);
                                    reveal(fp_label);
                                    reveal(fp_opcode);
                                    assert(fp_step(self.tokens@, pos as int, stB) == (
                                        fp_of(
                                            crate::astnode::node_views(nodes@),
                                            crate::astnode::node_views(rodata_nodes@),
                                            error_views(errors@),
                                            accum,
                                            rodata_size,
                                            const_map@,
                                            label_map@,
                                            opt_name_view(entry_label),
                                            dyn_syms@,
                                            rel_dyns@,
                                            prog_is_static,
                                            rodata_phase,
                                        ),
                                        consumed as int,
                                    ));
                                }
                            }
                            Err(e) => {
                                let ghost pre_errs = errors@;
                                errors.push(e);
                                proof {
                                    lemma_error_views_push(pre_errs, errors@.last());
                                    assert(errors@ == pre_errs.push(errors@.last()));
                                }
                                consumed = 1;
                                proof {
                                    reveal(fp_directive);
                                    reveal(fp_label);
                                    reveal(fp_opcode);
                                    assert(fp_step(self.tokens@, pos as int, stB) == (
                                        fp_of(
                                            crate::astnode::node_views(nodes@),
                                            crate::astnode::node_views(rodata_nodes@),
                                            error_views(errors@),
                                            accum,
                                            rodata_size,
                                            const_map@,
                                            label_map@,
                                            opt_name_view(entry_label),
                                            dyn_syms@,
                                            rel_dyns@,
                                            prog_is_static,
                                            rodata_phase,
                                        ),
                                        consumed as int,
                                    ));
                                }
                            }
                        }
                    } else if bytes_eq(dname, "rodata".as_bytes()) {
                        let ghost pre_nodes = nodes@;
                        nodes.push(ASTNode::RodataDecl {
                            rodata_decl: RodataDecl { span: *span },
                        });
                        proof {
                            lemma_push_plain(pre_nodes, nodes@.last());
                            assert(nodes@ == pre_nodes.push(nodes@.last()));
                            crate::astnode::lemma_node_views_push(pre_nodes, nodes@.last());
                        }
                        rodata_phase = true;
                        consumed = 1;
                        proof {
                                    reveal(fp_directive);
                                    reveal(fp_label);
                                    reveal(fp_opcode);
                                    assert(fp_step(self.tokens@, pos as int, stB) == (
                                        fp_of(
                                            crate::astnode::node_views(nodes@),
                                            crate::astnode::node_views(rodata_nodes@),
                                            error_views(errors@),
                                            accum,
                                            rodata_size,
                                            const_map@,
                                            label_map@,
                                            opt_name_view(entry_label),
                                            dyn_syms@,
                                            rel_dyns@,
                                            prog_is_static,
                                            rodata_phase,
                                        ),
                                        consumed as int,
                                    ));
                                }
                    } else if bytes_eq(dname, "equ".as_bytes()) {
                        match parse_equ(sub) {
                            Ok((node, rest)) => {
                                let cname = node.get_name();
                                let cval = node.get_val();
                                const_map.insert(cname, cval);
                                let ghost pre_nodes = nodes@;
                                nodes.push(ASTNode::EquDecl { equ_decl: node });
                                proof {
                                    lemma_push_plain(pre_nodes, nodes@.last());
                                    assert(nodes@ == pre_nodes.push(nodes@.last()));
                                    crate::astnode::lemma_node_views_push(
                                        pre_nodes,
                                        nodes@.last(),
                                    );
                                }
                                consumed = 4;
                                proof {
                                    reveal(fp_directive);
                                    reveal(fp_label);
                                    reveal(fp_opcode);
                                    assert(fp_step(self.tokens@, pos as int, stB) == (
                                        fp_of(
                                            crate::astnode::node_views(nodes@),
                                            crate::astnode::node_views(rodata_nodes@),
                                            error_views(errors@),
                                            accum,
                                            rodata_size,
                                            const_map@,
                                            label_map@,
                                            opt_name_view(entry_label),
                                            dyn_syms@,
                                            rel_dyns@,
                                            prog_is_static,
                                            rodata_phase,
                                        ),
                                        consumed as int,
                                    ));
                                }
                            }
                            Err(e) => {
                                let ghost pre_errs = errors@;
                                errors.push(e);
                                proof {
                                    lemma_error_views_push(pre_errs, errors@.last());
                                    assert(errors@ == pre_errs.push(errors@.last()));
                                }
                                consumed = 1;
                                proof {
                                    reveal(fp_directive);
                                    reveal(fp_label);
                                    reveal(fp_opcode);
                                    assert(fp_step(self.tokens@, pos as int, stB) == (
                                        fp_of(
                                            crate::astnode::node_views(nodes@),
                                            crate::astnode::node_views(rodata_nodes@),
                                            error_views(errors@),
                                            accum,
                                            rodata_size,
                                            const_map@,
                                            label_map@,
                                            opt_name_view(entry_label),
                                            dyn_syms@,
                                            rel_dyns@,
                                            prog_is_static,
                                            rodata_phase,
                                        ),
                                        consumed as int,
                                    ));
                                }
                            }
                        }
                    } else if bytes_eq(dname, "section".as_bytes()) {
                        let ghost pre_nodes = nodes@;
                        nodes.push(ASTNode::Directive {
                            directive: Directive {
                                name: vstd::slice::slice_to_vec(name.as_slice()),
                                args: Vec::new(),
                                span: *span,
                            },
                        });
                        proof {
                            lemma_push_plain(pre_nodes, nodes@.last());
                            assert(nodes@ == pre_nodes.push(nodes@.last()));
                            crate::astnode::lemma_node_views_push(pre_nodes, nodes@.last());
                            assert(token_views(Seq::<Token>::empty()) =~= Seq::<
                                TokenView,
                            >::empty());
                        }
                        consumed = 1;
                        proof {
                                    reveal(fp_directive);
                                    reveal(fp_label);
                                    reveal(fp_opcode);
                                    assert(fp_step(self.tokens@, pos as int, stB) == (
                                        fp_of(
                                            crate::astnode::node_views(nodes@),
                                            crate::astnode::node_views(rodata_nodes@),
                                            error_views(errors@),
                                            accum,
                                            rodata_size,
                                            const_map@,
                                            label_map@,
                                            opt_name_view(entry_label),
                                            dyn_syms@,
                                            rel_dyns@,
                                            prog_is_static,
                                            rodata_phase,
                                        ),
                                        consumed as int,
                                    ));
                                }
                    } else {
                        let ghost pre_errs = errors@;
                        errors.push(CompileError::InvalidDirective {
                            directive: vstd::slice::slice_to_vec(name.as_slice()),
                            span: *span,
                            custom_label: None,
                        });
                        proof {
                            lemma_error_views_push(pre_errs, errors@.last());
                            assert(errors@ == pre_errs.push(errors@.last()));
                        }
                        consumed = 1;
                        proof {
                                    reveal(fp_directive);
                                    reveal(fp_label);
                                    reveal(fp_opcode);
                                    assert(fp_step(self.tokens@, pos as int, stB) == (
                                        fp_of(
                                            crate::astnode::node_views(nodes@),
                                            crate::astnode::node_views(rodata_nodes@),
                                            error_views(errors@),
                                            accum,
                                            rodata_size,
                                            const_map@,
                                            label_map@,
                                            opt_name_view(entry_label),
                                            dyn_syms@,
                                            rel_dyns@,
                                            prog_is_static,
                                            rodata_phase,
                                        ),
                                        consumed as int,
                                    ));
                                }
                    }
                }
                Token::Label(name, span) => {
                    if rodata_phase {
                        match parse_rodata_entry(sub) {
                            Ok((rodata, rest)) => {
                                proof {
                                    assert(token_views(rodata.args@).len() == 2);
                                    assert(token_views(rodata.args@).len()
                                        == rodata.args@.len());
                                    assert(rodata.args@.len() == 2);
                                    assert(rodata.args@[1]@ == token_views(rodata.args@)[1]);
                                    assert(rodata.args@.last()@ == token_views(rodata.args@)[1]);
                                    assert(rodata.args@[0]@ == token_views(rodata.args@)[0]);
                                    assert(rodata.args@[0]@ is Directive);
                                    assert(rodata.args@.drop_last()[0] == rodata.args@[0]);
                                    assert(rodata.args@.drop_last().last() == rodata.args@[0]);
                                    assert(rodata.args@.drop_last().drop_last() =~= Seq::<
                                        Token,
                                    >::empty());
                                    assert(spec_rodata_bytes(Seq::<Token>::empty()) =~= Seq::<
                                        u8,
                                    >::empty());
                                    assert(spec_rodata_bytes(rodata.args@.drop_last()) =~= Seq::<
                                        u8,
                                    >::empty());
                                    assert(rodata.args@.drop_last() =~= rodata.args@.take(1));
                                    assert(rodata.args@.take(1).drop_last() =~= Seq::<
                                        Token,
                                    >::empty());
                                    assert(token_views(rodata.args@) == seq![
                                        subv[1]@,
                                        subv[2]@,
                                    ]);
                                    assert(rodata.args@[1]@ == subv[2]@);
                                    assert(rodata.args@.last()@ is StringLiteral);
                                    assert(spec_rodata_bytes(rodata.args@)
                                        =~= rodata.args@[1]@->StringLiteral_0);
                                    assert(subv[2] == self.tokens@[pos + 2]);
                                    assert(lit_len(self.tokens@[pos + 2]) == spec_rodata_bytes(
                                        rodata.args@,
                                    ).len());
                                    assert(self.tokens@.take(pos + 3).drop_last()
                                        =~= self.tokens@.take(pos + 2));
                                    assert(self.tokens@.take(pos + 2).drop_last()
                                        =~= self.tokens@.take(pos + 1));
                                    assert(self.tokens@.take(pos + 1).drop_last()
                                        =~= self.tokens@.take(pos as int));
                                    assert(subv.len() == self.tokens@.len() - pos);
                                    assert(pos + 3 <= self.tokens@.len());
                                    assert(self.tokens@.take(pos + 3).last() == self.tokens@[
                                        pos + 2]);
                                    assert(self.tokens@.take(pos + 2).last() == self.tokens@[
                                        pos + 1]);
                                    assert(self.tokens@.take(pos + 1).last() == self.tokens@[
                                        pos as int]);
                                    assert(lit_len_sum(self.tokens@.take(pos + 3)) == lit_len_sum(
                                        self.tokens@.take(pos + 2),
                                    ) + lit_len(self.tokens@[pos + 2]));
                                    assert(lit_len_sum(self.tokens@.take(pos + 2)) == lit_len_sum(
                                        self.tokens@.take(pos + 1),
                                    ) + lit_len(self.tokens@[pos + 1]));
                                    assert(lit_len_sum(self.tokens@.take(pos + 1)) == lit_len_sum(
                                        self.tokens@.take(pos as int),
                                    ) + lit_len(self.tokens@[pos as int]));
                                    lemma_lit_sum_take_mono(self.tokens@, 0, pos + 2);
                                    assert(self.tokens@.take(0) =~= Seq::<Token>::empty());
                                    lemma_lit_sum_take_mono(
                                        self.tokens@,
                                        pos + 3,
                                        self.tokens@.len() as int,
                                    );
                                    assert(spec_rodata_bytes(rodata.args@).len() <= u64::MAX);
                                }
                                let size = rodata.get_size();
                                let ghost pre_lm = label_map@;
                                proof {
                                    assert(accum + rodata_size < label_bound());
                                }
                                label_map.insert(
                                    vstd::slice::slice_to_vec(name.as_slice()),
                                    accum + rodata_size,
                                );
                                proof {
                                    lemma_map_insert_bound(
                                        pre_lm,
                                        name@,
                                        (accum + rodata_size) as u64,
                                        label_bound(),
                                    );
                                }
                                let ghost pre_rn = rodata_nodes@;
                                let ghost rodg = rodata;
                                rodata_nodes.push(ASTNode::ROData { rodata, offset: accum });
                                proof {
                                    assert(rodata_nodes@.drop_last() =~= pre_rn);
                                    assert(rodata_nodes@.last() == (ASTNode::ROData {
                                        rodata: rodg,
                                        offset: accum,
                                    }));
                                    assert(crate::section::spec_data_content(rodata_nodes@)
                                        =~= crate::section::spec_data_content(pre_rn)
                                        + spec_rodata_bytes(rodg.args@));
                                }
                                proof {
                                    crate::astnode::lemma_node_views_push(
                                        pre_rn,
                                        rodata_nodes@.last(),
                                    );
                                }
                                rodata_size = rodata_size + size;
                                consumed = 3;
                                proof {
                                    reveal(fp_directive);
                                    reveal(fp_label);
                                    reveal(fp_opcode);
                                    assert(fp_step(self.tokens@, pos as int, stB) == (
                                        fp_of(
                                            crate::astnode::node_views(nodes@),
                                            crate::astnode::node_views(rodata_nodes@),
                                            error_views(errors@),
                                            accum,
                                            rodata_size,
                                            const_map@,
                                            label_map@,
                                            opt_name_view(entry_label),
                                            dyn_syms@,
                                            rel_dyns@,
                                            prog_is_static,
                                            rodata_phase,
                                        ),
                                        consumed as int,
                                    ));
                                }
                            }
                            Err(e) => {
                                let ghost pre_errs = errors@;
                                errors.push(e);
                                proof {
                                    lemma_error_views_push(pre_errs, errors@.last());
                                    assert(errors@ == pre_errs.push(errors@.last()));
                                }
                                consumed = 1;
                                proof {
                                    reveal(fp_directive);
                                    reveal(fp_label);
                                    reveal(fp_opcode);
                                    assert(fp_step(self.tokens@, pos as int, stB) == (
                                        fp_of(
                                            crate::astnode::node_views(nodes@),
                                            crate::astnode::node_views(rodata_nodes@),
                                            error_views(errors@),
                                            accum,
                                            rodata_size,
                                            const_map@,
                                            label_map@,
                                            opt_name_view(entry_label),
                                            dyn_syms@,
                                            rel_dyns@,
                                            prog_is_static,
                                            rodata_phase,
                                        ),
                                        consumed as int,
                                    ));
                                }
                            }
                        }
                    } else {
                        let ghost pre_lm = label_map@;
                        label_map.insert(vstd::slice::slice_to_vec(name.as_slice()), accum);
                        proof {
                            lemma_map_insert_bound(pre_lm, name@, accum, label_bound());
                        }
                        let ghost pre_nodes = nodes@;
                        nodes.push(ASTNode::Label {
                            label: Label {
                                name: vstd::slice::slice_to_vec(name.as_slice()),
                                span: *span,
                            },
                        });
                        proof {
                            lemma_push_plain(pre_nodes, nodes@.last());
                            assert(nodes@ == pre_nodes.push(nodes@.last()));
                            crate::astnode::lemma_node_views_push(pre_nodes, nodes@.last());
                            assert(token_views(Seq::<Token>::empty()) =~= Seq::<
                                TokenView,
                            >::empty());
                        }
                        consumed = 1;
                        proof {
                                    reveal(fp_directive);
                                    reveal(fp_label);
                                    reveal(fp_opcode);
                                    assert(fp_step(self.tokens@, pos as int, stB) == (
                                        fp_of(
                                            crate::astnode::node_views(nodes@),
                                            crate::astnode::node_views(rodata_nodes@),
                                            error_views(errors@),
                                            accum,
                                            rodata_size,
                                            const_map@,
                                            label_map@,
                                            opt_name_view(entry_label),
                                            dyn_syms@,
                                            rel_dyns@,
                                            prog_is_static,
                                            rodata_phase,
                                        ),
                                        consumed as int,
                                    ));
                                }
                    }
                }
                Token::Opcode(_, _) => {
                    match parse_instruction_tokens(sub, &const_map) {
                        Ok((inst, rest)) => {
                            let n = sub.len() - rest.len();
                            proof {
                                assert(n >= 1);
                            }
                            if inst.needs_relocation() {
                                proof {
                                    let sp = spec_parse_instruction(subv, const_map@);
                                    if inst.opcode is Call {
                                        assert(token_views(inst.operands@) == sp->operands);
                                        assert(sp->operands[0] is Identifier);
                                        assert(token_views(inst.operands@).len()
                                            == inst.operands@.len());
                                        assert(inst.operands@[0]@ == token_views(
                                            inst.operands@,
                                        )[0]);
                                    }
                                    if !(inst.opcode is Call) && !(inst.opcode is Lddw) {
                                        assert(!spec_needs_relocation(
                                            inst.opcode,
                                            token_views(inst.operands@),
                                        ));
                                    }
                                }
                                prog_is_static = false;
                                let (reloc_type, label) = inst.get_relocation_info();
                                let ghost lname = label@;
                                proof {
                                    let sp = spec_parse_instruction(subv, const_map@);
                                    if inst.opcode is Call {
                                        assert(lname == subv[1]@->Identifier_0);
                                        assert(subv[1] == self.tokens@[pos + 1]);
                                        assert(lname.len() <= 0x0400_0000);
                                    } else {
                                        assert(token_views(inst.operands@)[1]
                                            == inst.operands@[1]@);
                                        assert(lname == sp->operands[1]->Identifier_0);
                                        assert(sp->operands[1] == subv[3]@);
                                        assert(subv[3] == self.tokens@[pos + 3]);
                                        assert(lname.len() <= 0x0400_0000);
                                    }
                                }
                                let label2 = vstd::slice::slice_to_vec(label.as_slice());
                                let ghost pre_rel = rel_dyns@;
                                let ghost pre_sym = dyn_syms@;
                                rel_dyns.add_rel_dyn(accum, reloc_type, label);
                                proof {
                                    crate::dynsym::lemma_find_offset_props(pre_rel, accum);
                                    assert(rel_dyns@.len() >= 1);
                                    assert(forall|j: int|
                                        0 <= j < rel_dyns@.len() ==> (#[trigger] rel_dyns@[j]).0
                                            < label_bound());
                                    let r = crate::dynsym::find_offset(pre_rel, accum);
                                    if r >= 0 {
                                        crate::dynsym::lemma_flatten_update_len(
                                            pre_rel,
                                            r,
                                            (reloc_type, lname),
                                        );
                                    } else {
                                        crate::dynsym::lemma_flatten_push_len(
                                            pre_rel,
                                            (accum, seq![(reloc_type, lname)]),
                                        );
                                    }
                                }
                                let is_syscall = match reloc_type {
                                    RelocationType::RSbfSyscall => true,
                                    _ => false,
                                };
                                if is_syscall {
                                    dyn_syms.add_call_target(label2, accum);
                                    proof {
                                        lemma_consistent_after_sym_add(
                                            pre_rel,
                                            pre_sym,
                                            dyn_syms@,
                                            lname,
                                            crate::dynsym::SymbolKind::CallTarget,
                                            accum,
                                        );
                                        lemma_consistent_after_rel_add(
                                            pre_rel,
                                            rel_dyns@,
                                            dyn_syms@,
                                            accum,
                                            reloc_type,
                                            lname,
                                        );
                                        crate::dynsym::lemma_find_name_props(pre_sym, lname);
                                        let rr = crate::dynsym::find_name(pre_sym, lname);
                                        if rr >= 0 {
                                            assert(dyn_syms@ == pre_sym.update(
                                                rr,
                                                (pre_sym[rr].0, pre_sym[rr].1.push(
                                                    (crate::dynsym::SymbolKind::CallTarget, accum),
                                                )),
                                            ));
                                        } else {
                                            assert(dyn_syms@ == pre_sym.push(
                                                (lname, seq![
                                                    (crate::dynsym::SymbolKind::CallTarget, accum),
                                                ]),
                                            ));
                                        }
                                        assert(dyn_syms@.len() <= pre_sym.len() + 1);
                                        assert forall|j: int|
                                            0 <= j < dyn_syms@.len() implies (
                                        #[trigger] dyn_syms@[j]).0.len() <= 0x0400_0000 by {
                                            if rr >= 0 {
                                                assert(dyn_syms@[j].0 == pre_sym[j].0);
                                            } else if j < pre_sym.len() {
                                                assert(dyn_syms@[j] == pre_sym[j]);
                                            } else {
                                                assert(dyn_syms@[j].0 == lname);
                                            }
                                        }
                                    }
                                } else {
                                    proof {
                                        lemma_consistent_after_rel_add(
                                            pre_rel,
                                            rel_dyns@,
                                            dyn_syms@,
                                            accum,
                                            reloc_type,
                                            lname,
                                        );
                                    }
                                }
                            }
                            let ghost pre_nodes = nodes@;
                            let size = inst.get_size();
                            let ghost instg = inst;
                            proof {
                                crate::astnode::lemma_instruction_bytes_len(
                                    inst.opcode,
                                    token_views(inst.operands@),
                                );
                                lemma_offsets_ok_push(
                                    nodes@,
                                    ASTNode::Instruction { instruction: instg, offset: accum },
                                );
                            }
                            nodes.push(ASTNode::Instruction { instruction: inst, offset: accum });
                            proof {
                                assert(nodes@.drop_last() =~= pre_nodes);
                                assert(nodes@.last() == (ASTNode::Instruction {
                                    instruction: instg,
                                    offset: accum,
                                }));
                                assert(spec_text_bytes(nodes@) =~= spec_text_bytes(pre_nodes)
                                    + spec_instruction_bytes(
                                    instg.opcode,
                                    token_views(instg.operands@),
                                ));
                            }
                            proof {
                                crate::astnode::lemma_node_views_push(
                                    pre_nodes,
                                    nodes@.last(),
                                );
                            }
                            accum = accum + size;
                            consumed = n;
                            proof {
                                    reveal(fp_directive);
                                    reveal(fp_label);
                                    reveal(fp_opcode);
                                    assert(fp_step(self.tokens@, pos as int, stB) == (
                                        fp_of(
                                            crate::astnode::node_views(nodes@),
                                            crate::astnode::node_views(rodata_nodes@),
                                            error_views(errors@),
                                            accum,
                                            rodata_size,
                                            const_map@,
                                            label_map@,
                                            opt_name_view(entry_label),
                                            dyn_syms@,
                                            rel_dyns@,
                                            prog_is_static,
                                            rodata_phase,
                                        ),
                                        consumed as int,
                                    ));
                                }
                        }
                        Err(e) => {
                            let ghost pre_errs = errors@;
                            errors.push(e);
                            proof {
                                lemma_error_views_push(pre_errs, errors@.last());
                                assert(errors@ == pre_errs.push(errors@.last()));
                            }
                            consumed = 1;
                            proof {
                                    reveal(fp_directive);
                                    reveal(fp_label);
                                    reveal(fp_opcode);
                                    assert(fp_step(self.tokens@, pos as int, stB) == (
                                        fp_of(
                                            crate::astnode::node_views(nodes@),
                                            crate::astnode::node_views(rodata_nodes@),
                                            error_views(errors@),
                                            accum,
                                            rodata_size,
                                            const_map@,
                                            label_map@,
                                            opt_name_view(entry_label),
                                            dyn_syms@,
                                            rel_dyns@,
                                            prog_is_static,
                                            rodata_phase,
                                        ),
                                        consumed as int,
                                    ));
                                }
                        }
                    }
                }
                _ => {
                    consumed = 1;
                    proof {
                                    reveal(fp_directive);
                                    reveal(fp_label);
                                    reveal(fp_opcode);
                                    assert(fp_step(self.tokens@, pos as int, stB) == (
                                        fp_of(
                                            crate::astnode::node_views(nodes@),
                                            crate::astnode::node_views(rodata_nodes@),
                                            error_views(errors@),
                                            accum,
                                            rodata_size,
                                            const_map@,
                                            label_map@,
                                            opt_name_view(entry_label),
                                            dyn_syms@,
                                            rel_dyns@,
                                            prog_is_static,
                                            rodata_phase,
                                        ),
                                        consumed as int,
                                    ));
                                }
                }
            }
            proof {
                lemma_lit_sum_take_mono(self.tokens@, pos as int, pos + consumed);
                assert(pos + consumed <= self.tokens@.len());
                lemma_lit_sum_take_mono(self.tokens@, pos + consumed, self.tokens@.len() as int);
                assert(self.tokens@.take(self.tokens@.len() as int) =~= self.tokens@);
                assert(fp_run(self.tokens@, pos as int, stB) == fp_run(
                    self.tokens@,
                    pos + consumed,
                    fp_step(self.tokens@, pos as int, stB).0,
                ));
            }
            pos = pos + consumed;
        }
        let ghost fp = spec_first_pass(self.tokens@);
        proof {
            assert(pos == self.tokens@.len());
            assert(fp == fp_of(
                crate::astnode::node_views(nodes@),
                crate::astnode::node_views(rodata_nodes@),
                error_views(errors@),
                accum,
                rodata_size,
                const_map@,
                label_map@,
                opt_name_view(entry_label),
                dyn_syms@,
                rel_dyns@,
                prog_is_static,
                rodata_phase,
            ));
            assert(error_views(errors@).len() == errors@.len());
        }
        if errors.len() > 0 {
            proof {
                assert(spec_parse_diags(self.tokens@) == error_views(errors@));
            }
            return Err(errors);
        }
        proof {
            assert(fp.errors.len() == 0);
            assert(error_views(errors@) =~= Seq::<ErrorView>::empty());
        }
        let ghost pre_resolve = nodes@;
        resolve_labels(&mut nodes, &label_map, prog_is_static, &mut errors);
        proof {
            lemma_resolve_preserves_offsets(pre_resolve, nodes@, label_map@, prog_is_static);
            lemma_undef_errors_views(pre_resolve, label_map@);
            lemma_resolved_views(pre_resolve, nodes@, label_map@, prog_is_static);
            assert(crate::astnode::node_views(pre_resolve) == fp.nodes);
            assert(error_views(errors@) =~= spec_undef_errors_v(fp.nodes, fp.labels));
            assert(error_views(errors@) == spec_parse_diags(self.tokens@));
            assert(error_views(errors@).len() == errors@.len());
        }
        match &entry_label {
            Some(entry) => {
                match label_map.get(entry.as_slice()) {
                    Some(offset) => {
                        let ghost pre_sym = dyn_syms@;
                        proof {
                            assert(entry@.len() <= 0x0400_0000);
                        }
                        dyn_syms.add_entry_point(
                            vstd::slice::slice_to_vec(entry.as_slice()),
                            offset,
                        );
                        proof {
                            lemma_consistent_after_sym_add(
                                rel_dyns@,
                                pre_sym,
                                dyn_syms@,
                                entry@,
                                crate::dynsym::SymbolKind::EntryPoint,
                                offset,
                            );
                            crate::dynsym::lemma_find_name_props(pre_sym, entry@);
                            let rr = crate::dynsym::find_name(pre_sym, entry@);
                            if rr >= 0 {
                                assert(dyn_syms@ == pre_sym.update(
                                    rr,
                                    (pre_sym[rr].0, pre_sym[rr].1.push(
                                        (crate::dynsym::SymbolKind::EntryPoint, offset),
                                    )),
                                ));
                            } else {
                                assert(dyn_syms@ == pre_sym.push(
                                    (entry@, seq![(crate::dynsym::SymbolKind::EntryPoint, offset)]),
                                ));
                            }
                            assert(dyn_syms@.len() <= pre_sym.len() + 1);
                            assert forall|j: int|
                                0 <= j < dyn_syms@.len() implies (#[trigger] dyn_syms@[
                            j]).0.len() <= 0x0400_0000 by {
                                if rr >= 0 {
                                    assert(dyn_syms@[j].0 == pre_sym[j].0);
                                } else if j < pre_sym.len() {
                                    assert(dyn_syms@[j] == pre_sym[j]);
                                } else {
                                    assert(dyn_syms@[j].0 == entry@);
                                }
                            }
                            assert(dyn_syms@ == spec_publish_entry(fp.syms, fp.entry, fp.labels));
                        }
                    }
                    None => {
                        proof {
                            assert(dyn_syms@ == spec_publish_entry(fp.syms, fp.entry, fp.labels));
                        }
                    }
                }
            }
            None => {
                proof {
                    assert(dyn_syms@ == spec_publish_entry(fp.syms, fp.entry, fp.labels));
                }
            }
        }
        if errors.len() > 0 {
            proof {
                assert(spec_parse_diags(self.tokens@) == error_views(errors@));
            }
            return Err(errors);
        }
        proof {
            assert(spec_parse_diags(self.tokens@).len() == 0);
        }
        self.m_prog_is_static = prog_is_static;
        self.m_accum_offset = accum;
        let code_section = CodeSection::new(nodes, accum, self.source.as_slice());
        let data_section = DataSection::new(rodata_nodes, rodata_size);
        Ok(
            ParseResult {
                code_section,
                data_section,
                dynamic_symbols: dyn_syms.copy(),
                relocation_data: rel_dyns.copy(),
                prog_is_static,
            },
        )
    }
}


/// Literal payload sums agree between tokens and their views.
pub proof fn lemma_lit_sum_views(tokens: Seq<Token>)
    ensures
        lit_len_sum(tokens) == crate::lexer::vlit_sum(token_views(tokens)),
    decreases tokens.len(),
{
    if tokens.len() > 0 {
        lemma_lit_sum_views(tokens.drop_last());
        assert(token_views(tokens).drop_last() =~= token_views(tokens.drop_last()));
        assert(token_views(tokens).last() == tokens.last()@);
    }
}

/// Name bounds transfer from views to tokens.
pub proof fn lemma_name_bound_views(tokens: Seq<Token>, b: int)
    requires
        crate::lexer::vname_bounded(token_views(tokens), b),
        b <= 0x0400_0000,
    ensures
        tokens_name_bounded(tokens),
{
    assert forall|j: int|
        0 <= j < tokens.len() implies match #[trigger] tokens[j]@ {
        TokenView::Identifier(n, _) => n.len() <= 0x0400_0000,
        TokenView::Label(n, _) => n.len() <= 0x0400_0000,
        _ => true,
    } by {
        assert(token_views(tokens)[j] == tokens[j]@);
    }
}


// ---------------------------------------------------------------------------
// The first pass as a mathematical function
// ---------------------------------------------------------------------------

/// The whole state the first pass threads: the nodes built so far, the
/// diagnostics, the running offsets, the maps, and the phase flags.
pub struct FirstPass {
    pub nodes: Seq<crate::astnode::NodeView>,
    pub rodata_nodes: Seq<crate::astnode::NodeView>,
    pub errors: Seq<ErrorView>,
    pub accum: u64,
    pub rodata_size: u64,
    pub consts: Seq<(Seq<u8>, ImmediateValue)>,
    pub labels: Seq<(Seq<u8>, u64)>,
    pub entry: Option<Seq<u8>>,
    pub syms: Seq<(Seq<u8>, Seq<(crate::dynsym::SymbolKind, u64)>)>,
    pub rels: Seq<(u64, Seq<(RelocationType, Seq<u8>)>)>,
    pub is_static: bool,
    pub rodata_phase: bool,
}

/// The state the first pass starts from: nothing parsed, code phase,
/// statically linked until a relocation appears.
pub open spec fn fp_init() -> FirstPass {
    FirstPass {
        nodes: Seq::empty(),
        rodata_nodes: Seq::empty(),
        errors: Seq::empty(),
        accum: 0,
        rodata_size: 0,
        consts: Seq::empty(),
        labels: Seq::empty(),
        entry: None,
        syms: Seq::empty(),
        rels: Seq::empty(),
        is_static: true,
        rodata_phase: false,
    }
}

/// Recording one symbol occurrence, as `DynamicSymbolMap::add_symbol`
/// ensures it.
pub open spec fn spec_sym_add(
    syms: Seq<(Seq<u8>, Seq<(crate::dynsym::SymbolKind, u64)>)>,
    name: Seq<u8>,
    kind: crate::dynsym::SymbolKind,
    offset: u64,
) -> Seq<(Seq<u8>, Seq<(crate::dynsym::SymbolKind, u64)>)> {
    let r = crate::dynsym::find_name(syms, name);
    if r >= 0 {
        syms.update(r, (syms[r].0, syms[r].1.push((kind, offset))))
    } else {
        syms.push((name, seq![(kind, offset)]))
    }
}

/// Recording one relocation request, as `RelDynMap::add_rel_dyn`
/// ensures it.
pub open spec fn spec_rel_add(
    rels: Seq<(u64, Seq<(RelocationType, Seq<u8>)>)>,
    offset: u64,
    rtype: RelocationType,
    name: Seq<u8>,
) -> Seq<(u64, Seq<(RelocationType, Seq<u8>)>)> {
    let r = crate::dynsym::find_offset(rels, offset);
    if r >= 0 {
        rels.update(r, (offset, rels[r].1.push((rtype, name))))
    } else {
        rels.push((offset, seq![(rtype, name)]))
    }
}

/// One diagnostic appended to the state.
pub open spec fn fp_err(st: FirstPass, e: ErrorView) -> FirstPass {
    FirstPass { errors: st.errors.push(e), ..st }
}

/// One directive token and what follows it.
#[verifier::opaque]
pub open spec fn fp_directive(sub: Seq<Token>, name: Seq<u8>, span: Span, st: FirstPass) -> (
    FirstPass,
    int,
) {
    if name == "global".spec_bytes() || name == "globl".spec_bytes() {
        if sub.len() >= 2 && sub[1]@ is Identifier {
            (
                FirstPass {
                    nodes: st.nodes.push(
                        crate::astnode::NodeView::GlobalDecl {
                            entry_label: sub[1]@->Identifier_0,
                            span: sub[1]@->Identifier_1,
                        },
                    ),
                    entry: Some(sub[1]@->Identifier_0),
                    ..st
                },
                2,
            )
        } else {
            (fp_err(st, ErrorView::InvalidGlobalDecl { span, custom_label: None }), 1)
        }
    } else if name == "extern".spec_bytes() {
        if sub.len() < 2 {
            (
                fp_err(
                    st,
                    ErrorView::InvalidExternDecl {
                        span,
                        custom_label: Some(EXPECTS_MORE_OPERAND@),
                    },
                ),
                1,
            )
        } else {
            let e = ident_run_end(sub, 1);
            if e > 1 {
                (
                    FirstPass {
                        nodes: st.nodes.push(
                            crate::astnode::NodeView::ExternDecl {
                                args: token_views(sub).subrange(1, e),
                                span,
                            },
                        ),
                        ..st
                    },
                    e,
                )
            } else {
                (
                    fp_err(
                        st,
                        ErrorView::InvalidExternDecl { span, custom_label: Some(EXPECTS_IDEN@) },
                    ),
                    1,
                )
            }
        }
    } else if name == "rodata".spec_bytes() {
        (
            FirstPass {
                nodes: st.nodes.push(crate::astnode::NodeView::RodataDecl { span }),
                rodata_phase: true,
                ..st
            },
            1,
        )
    } else if name == "equ".spec_bytes() {
        if sub.len() >= 4 && sub[1]@ is Identifier && sub[2]@ is Comma && sub[3]@
            is ImmediateValue {
            (
                FirstPass {
                    nodes: st.nodes.push(
                        crate::astnode::NodeView::EquDecl {
                            name: sub[1]@->Identifier_0,
                            value: sub[3]@,
                            span: sub[1]@->Identifier_1,
                        },
                    ),
                    consts: map_insert(
                        st.consts,
                        sub[1]@->Identifier_0,
                        sub[3]@->ImmediateValue_0,
                    ),
                    ..st
                },
                4,
            )
        } else if sub.len() < 4 {
            (
                fp_err(
                    st,
                    ErrorView::InvalidEquDecl { span, custom_label: Some(EXPECTS_MORE_OPERAND@) },
                ),
                1,
            )
        } else {
            (
                fp_err(
                    st,
                    ErrorView::InvalidEquDecl { span, custom_label: Some(EXPECTS_IDEN_COM_IMM@) },
                ),
                1,
            )
        }
    } else if name == "section".spec_bytes() {
        (
            FirstPass {
                nodes: st.nodes.push(
                    crate::astnode::NodeView::Directive { name, args: Seq::empty(), span },
                ),
                ..st
            },
            1,
        )
    } else {
        (
            fp_err(st, ErrorView::InvalidDirective { directive: name, span, custom_label: None }),
            1,
        )
    }
}

/// One label token: a read-only data entry in the rodata phase, a code
/// label otherwise.
#[verifier::opaque]
pub open spec fn fp_label(sub: Seq<Token>, name: Seq<u8>, span: Span, st: FirstPass) -> (
    FirstPass,
    int,
) {
    if st.rodata_phase {
        if sub.len() >= 3 && sub[1]@ is Directive && sub[2]@ is StringLiteral {
            let lit = sub[2]@->StringLiteral_0;
            (
                FirstPass {
                    rodata_nodes: st.rodata_nodes.push(
                        crate::astnode::NodeView::ROData {
                            name,
                            args: seq![sub[1]@, sub[2]@],
                            span,
                            offset: st.accum,
                        },
                    ),
                    labels: map_insert(st.labels, name, (st.accum + st.rodata_size) as u64),
                    rodata_size: (st.rodata_size + lit.len()) as u64,
                    ..st
                },
                3,
            )
        } else if sub.len() < 3 {
            (
                fp_err(
                    st,
                    ErrorView::InvalidRodataDecl {
                        span,
                        custom_label: Some(EXPECTS_MORE_OPERAND@),
                    },
                ),
                1,
            )
        } else {
            (
                fp_err(
                    st,
                    ErrorView::InvalidRodataDecl {
                        span,
                        custom_label: Some(EXPECTS_LABEL_DIR_STR@),
                    },
                ),
                1,
            )
        }
    } else {
        (
            FirstPass {
                nodes: st.nodes.push(crate::astnode::NodeView::Label { name, span }),
                labels: map_insert(st.labels, name, st.accum),
                ..st
            },
            1,
        )
    }
}

/// One opcode token: parse the instruction, record its relocation if it
/// needs one, and advance the code offset by its size.
#[verifier::opaque]
pub open spec fn fp_opcode(sub: Seq<Token>, st: FirstPass) -> (FirstPass, int) {
    let op0 = sub[0]@->Opcode_0;
    let span = sub[0]@->Opcode_1;
    match spec_parse_instruction(sub, st.consts) {
        InstrParse::Parsed { opcode, operands, advance } => {
            let st1 = if spec_needs_relocation(opcode, operands) {
                let rt = if opcode is Lddw {
                    RelocationType::RSbf64Relative
                } else {
                    RelocationType::RSbfSyscall
                };
                let nm = if opcode is Lddw {
                    operands[1]->Identifier_0
                } else {
                    operands[0]->Identifier_0
                };
                FirstPass {
                    rels: spec_rel_add(st.rels, st.accum, rt, nm),
                    syms: if rt is RSbfSyscall {
                        spec_sym_add(
                            st.syms,
                            nm,
                            crate::dynsym::SymbolKind::CallTarget,
                            st.accum,
                        )
                    } else {
                        st.syms
                    },
                    is_static: false,
                    ..st
                }
            } else {
                st
            };
            (
                FirstPass {
                    nodes: st1.nodes.push(
                        crate::astnode::NodeView::Instruction {
                            opcode,
                            operands,
                            span,
                            offset: st.accum,
                        },
                    ),
                    accum: (st.accum + spec_instruction_size(opcode)) as u64,
                    ..st1
                },
                advance,
            )
        },
        InstrParse::Failed { label } => {
            (
                fp_err(
                    st,
                    ErrorView::InvalidInstruction {
                        instruction: op0.spec_mnemonic(),
                        span,
                        custom_label: label,
                    },
                ),
                1,
            )
        },
    }
}

/// One first-pass step at position `pos`: the new state and how many
/// tokens were consumed.
pub open spec fn fp_step(tokens: Seq<Token>, pos: int, st: FirstPass) -> (FirstPass, int) {
    let sub = tokens.subrange(pos, tokens.len() as int);
    match sub[0]@ {
        TokenView::Directive(name, span) => fp_directive(sub, name, span, st),
        TokenView::Label(name, span) => fp_label(sub, name, span, st),
        TokenView::Opcode(_, _) => fp_opcode(sub, st),
        _ => (st, 1),
    }
}

/// Each step consumes at least one token and stays within bounds.
pub proof fn lemma_fp_step_advances(tokens: Seq<Token>, pos: int, st: FirstPass)
    requires
        0 <= pos < tokens.len(),
    ensures
        1 <= fp_step(tokens, pos, st).1 <= tokens.len() - pos,
{
    reveal(fp_directive);
    reveal(fp_label);
    reveal(fp_opcode);
    let sub = tokens.subrange(pos, tokens.len() as int);
    match sub[0]@ {
        TokenView::Directive(name, span) => {
            if name == "extern".spec_bytes() && sub.len() >= 2 {
                lemma_ident_run_end_bounds(sub, 1);
            }
        },
        TokenView::Label(_, _) => {},
        TokenView::Opcode(_, _) => {
            if spec_parse_instruction(sub, st.consts) is Parsed {
                lemma_parse_instruction_advance(sub, st.consts);
            }
        },
        _ => {},
    }
}

/// The first pass from position `pos` onward.
pub open spec fn fp_run(tokens: Seq<Token>, pos: int, st: FirstPass) -> FirstPass
    decreases tokens.len() - pos
        via fp_run_decreases
{
    if pos < 0 || pos >= tokens.len() {
        st
    } else {
        let (st2, n) = fp_step(tokens, pos, st);
        fp_run(tokens, pos + n, st2)
    }
}

#[via_fn]
proof fn fp_run_decreases(tokens: Seq<Token>, pos: int, st: FirstPass) {
    if 0 <= pos < tokens.len() {
        lemma_fp_step_advances(tokens, pos, st);
    }
}

/// Everything the first pass of a token stream produces.
pub open spec fn spec_first_pass(tokens: Seq<Token>) -> FirstPass {
    fp_run(tokens, 0, fp_init())
}

/// The diagnostics parsing yields: the first pass's own, or — when it
/// has none — the undefined-label diagnostics of the second pass.
pub open spec fn spec_parse_diags(tokens: Seq<Token>) -> Seq<ErrorView> {
    let fp = spec_first_pass(tokens);
    if fp.errors.len() > 0 {
        fp.errors
    } else {
        spec_undef_errors_v(fp.nodes, fp.labels)
    }
}

/// The entry-point publication: when the recorded entry label is
/// defined, its symbol is added at the label's offset.
pub open spec fn spec_publish_entry(
    syms: Seq<(Seq<u8>, Seq<(crate::dynsym::SymbolKind, u64)>)>,
    entry: Option<Seq<u8>>,
    labels: Seq<(Seq<u8>, u64)>,
) -> Seq<(Seq<u8>, Seq<(crate::dynsym::SymbolKind, u64)>)> {
    match entry {
        Some(e) => match map_lookup(labels, e) {
            Some(t) => spec_sym_add(syms, e, crate::dynsym::SymbolKind::EntryPoint, t),
            None => syms,
        },
        None => syms,
    }
}

/// The second pass over node views: resolvable jump and `lddw` label
/// operands become immediates, everything else is unchanged.
pub open spec fn spec_resolve_node_v(
    n: crate::astnode::NodeView,
    lm: Seq<(Seq<u8>, u64)>,
    prog_is_static: bool,
) -> crate::astnode::NodeView {
    match n {
        crate::astnode::NodeView::Instruction { opcode, operands, span, offset } =>
            crate::astnode::NodeView::Instruction {
            opcode,
            operands: spec_resolved_ops(operands, opcode, offset, lm, prog_is_static),
            span,
            offset,
        },
        _ => n,
    }
}

/// The second pass over a whole node list.
pub open spec fn spec_resolve_views(
    ns: Seq<crate::astnode::NodeView>,
    lm: Seq<(Seq<u8>, u64)>,
    prog_is_static: bool,
) -> Seq<crate::astnode::NodeView> {
    ns.map_values(|n: crate::astnode::NodeView| spec_resolve_node_v(n, lm, prog_is_static))
}

/// The undefined-label diagnostics over node views: one per `lddw`
/// whose identifier operand no label defines, in node order.
pub open spec fn spec_undef_errors_v(
    nodes: Seq<crate::astnode::NodeView>,
    lm: Seq<(Seq<u8>, u64)>,
) -> Seq<ErrorView>
    decreases nodes.len(),
{
    if nodes.len() == 0 {
        Seq::empty()
    } else {
        spec_undef_errors_v(nodes.drop_last(), lm) + match nodes.last() {
            crate::astnode::NodeView::Instruction { opcode, operands, .. } => {
                if opcode is Lddw && operands.len() > 0 && operands.last() is Identifier
                    && map_lookup(lm, operands.last()->Identifier_0) is None {
                    seq![
                        ErrorView::UndefinedLabel {
                            label: operands.last()->Identifier_0,
                            span: operands.last()->Identifier_1,
                            custom_label: None,
                        },
                    ]
                } else {
                    Seq::<ErrorView>::empty()
                }
            },
            _ => Seq::<ErrorView>::empty(),
        }
    }
}

/// The node-level and view-level undefined-label diagnostics agree.
pub proof fn lemma_undef_errors_views(nodes: Seq<ASTNode>, lm: Seq<(Seq<u8>, u64)>)
    ensures
        spec_undef_errors(nodes, lm) == spec_undef_errors_v(crate::astnode::node_views(nodes), lm),
    decreases nodes.len(),
{
    if nodes.len() > 0 {
        lemma_undef_errors_views(nodes.drop_last(), lm);
        assert(crate::astnode::node_views(nodes).drop_last() =~= crate::astnode::node_views(
            nodes.drop_last(),
        ));
        assert(crate::astnode::node_views(nodes).last() == crate::astnode::node_view(
            nodes.last(),
        ));
        match nodes.last() {
            ASTNode::Instruction { instruction, offset } => {
                assert(spec_undef_errors(nodes, lm) =~= spec_undef_errors_v(
                    crate::astnode::node_views(nodes),
                    lm,
                ));
            },
            _ => {
                assert(spec_undef_errors(nodes, lm) =~= spec_undef_errors_v(
                    crate::astnode::node_views(nodes),
                    lm,
                ));
            },
        }
    }
}

/// Pairwise second-pass resolution lifts to the node views.
pub proof fn lemma_resolved_views(
    pre: Seq<ASTNode>,
    post: Seq<ASTNode>,
    lm: Seq<(Seq<u8>, u64)>,
    prog_is_static: bool,
)
    requires
        pre.len() == post.len(),
        forall|j: int|
            0 <= j < pre.len() ==> spec_resolved_node(pre[j], #[trigger] post[j], lm, prog_is_static),
    ensures
        crate::astnode::node_views(post) == spec_resolve_views(
            crate::astnode::node_views(pre),
            lm,
            prog_is_static,
        ),
{
    assert forall|j: int|
        0 <= j < post.len() implies #[trigger] crate::astnode::node_views(post)[j]
        == spec_resolve_views(crate::astnode::node_views(pre), lm, prog_is_static)[j] by {
        assert(spec_resolved_node(pre[j], post[j], lm, prog_is_static));
        match pre[j] {
            ASTNode::Instruction { instruction, offset } => {
                assert(crate::astnode::node_view(post[j])
                    == spec_resolve_node_v(crate::astnode::node_view(pre[j]), lm, prog_is_static));
            },
            _ => {
                assert(post[j] == pre[j]);
            },
        }
    }
    assert(crate::astnode::node_views(post) =~= spec_resolve_views(
        crate::astnode::node_views(pre),
        lm,
        prog_is_static,
    ));
}

/// A first-pass state assembled from its parts.
pub open spec fn fp_of(
    nodes: Seq<crate::astnode::NodeView>,
    rodata_nodes: Seq<crate::astnode::NodeView>,
    errors: Seq<ErrorView>,
    accum: u64,
    rodata_size: u64,
    consts: Seq<(Seq<u8>, ImmediateValue)>,
    labels: Seq<(Seq<u8>, u64)>,
    entry: Option<Seq<u8>>,
    syms: Seq<(Seq<u8>, Seq<(crate::dynsym::SymbolKind, u64)>)>,
    rels: Seq<(u64, Seq<(RelocationType, Seq<u8>)>)>,
    is_static: bool,
    rodata_phase: bool,
) -> FirstPass {
    FirstPass {
        nodes,
        rodata_nodes,
        errors,
        accum,
        rodata_size,
        consts,
        labels,
        entry,
        syms,
        rels,
        is_static,
        rodata_phase,
    }
}

/// The view of the optional entry label.
pub open spec fn opt_name_view(o: Option<Vec<u8>>) -> Option<Seq<u8>> {
    match o {
        Some(v) => Some(v@),
        None => None,
    }
}

/// Views distribute over pushing a diagnostic.
pub proof fn lemma_error_views_push(s: Seq<CompileError>, e: CompileError)
    ensures
        error_views(s.push(e)) == error_views(s).push(e@),
{
    assert(error_views(s.push(e)) =~= error_views(s).push(e@));
}

} // verus!
