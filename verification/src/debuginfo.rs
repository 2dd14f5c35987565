//! Debug information attached to emitted instructions: the source line of
//! each instruction, and a hint when a register is loaded with an address.

use vstd::prelude::*;
use crate::span::Span;

verus! {

/// What kind of value a register was last loaded with.
#[derive(Debug, Clone, Copy, PartialEq, Eq, Structural)]
pub enum RegisterType {
    Int,
    Addr,
    Null,
}

impl RegisterType {
    /// A short name for rendering.
    pub fn to_string(&self) -> (r: &'static str)
        ensures
            *self is Int ==> r@ == "int"@,
            *self is Addr ==> r@ == "addr"@,
            *self is Null ==> r@ == "null"@,
    {
        match self {
            RegisterType::Int => "int",
            RegisterType::Addr => "addr",
            RegisterType::Null => "null",
        }
    }
}

/// A register together with the kind of value it holds.
#[derive(Debug, Clone, Copy, PartialEq, Eq, Structural)]
pub struct RegisterHint {
    pub register: usize,
    pub register_type: RegisterType,
}

impl Default for RegisterHint {
    /// No hint: register zero, no known type.
    fn default() -> (r: Self)
        ensures
            r.register == 0,
            r.register_type is Null,
    {
        Self { register: 0, register_type: RegisterType::Null }
    }
}

/// Debug facts for one instruction offset.
#[derive(Debug, Clone, Copy, PartialEq, Eq, Structural)]
pub struct DebugInfo {
    pub line_number: usize,
    pub register_hint: RegisterHint,
}

impl DebugInfo {
    pub fn new(line_number: usize) -> (r: Self)
        ensures
            r.line_number == line_number,
            r.register_hint == (RegisterHint { register: 0, register_type: RegisterType::Null }),
    {
        Self {
            line_number,
            register_hint: RegisterHint { register: 0, register_type: RegisterType::Null },
        }
    }
}

/// How many newline bytes lie strictly before position `end`.
pub open spec fn newlines_before(src: Seq<u8>, end: int) -> int
    decreases end,
{
    if end <= 0 || end > src.len() {
        0
    } else {
        newlines_before(src, end - 1) + if src[end - 1] == 10u8 {
            1int
        } else {
            0int
        }
    }
}

/// The one-based line number of byte position `pos` in the source.
pub open spec fn spec_line_number(src: Seq<u8>, pos: int) -> int {
    let end = if pos > src.len() {
        src.len() as int
    } else {
        pos
    };
    newlines_before(src, end) + 1
}

proof fn lemma_newlines_before_bound(src: Seq<u8>, end: int)
    ensures
        0 <= newlines_before(src, end) <= if 0 <= end <= src.len() {
            end
        } else {
            0
        },
    decreases end,
{
    if 0 < end <= src.len() {
        lemma_newlines_before_bound(src, end - 1);
    }
}

/// The one-based line a span starts on: one more than the count of
/// newlines before its first byte.
pub fn span_to_line_number(span: Span, source: &[u8]) -> (r: usize)
    requires
        source@.len() < usize::MAX,
    ensures
        r == spec_line_number(source@, span.start as int),
{
    let end: usize = if span.start > source.len() {
        source.len()
    } else {
        span.start
    };
    let mut count: usize = 0;
    let mut i: usize = 0;
    proof {
        lemma_newlines_before_bound(source@, end as int);
    }
    while i < end
        invariant
            0 <= i <= end <= source@.len() < usize::MAX,
            count == newlines_before(source@, i as int),
            count <= i,
        decreases end - i,
    {
        if source[i] == 10 {
            count += 1;
        }
        i += 1;
    }
    count + 1
}

} // verus!
