//! Tokens and the lexer: source text to a sequence of positioned tokens.
//!
//! The lexer is specified functionally: `spec_tokenize` defines the exact
//! token and diagnostic sequences for any input, and `tokenize` is proved
//! to return them. Lexing is therefore pure: equal sources give equal
//! token streams.

use vstd::prelude::*;
use crate::span::{Span, spec_span};
use crate::errors::{CompileError, ErrorView, error_views};
use crate::opcode::{Opcode, spec_from_mnemonic, from_mnemonic};
use crate::bytesutil::bytes_eq;

verus! {

/// A binary operator inside a constant expression.
#[derive(Debug, Clone, Copy, PartialEq, Eq, Structural)]
pub enum Op {
    Add,
    Sub,
}

/// A numeric literal. `Addr` marks values that came from hexadecimal
/// literals; arithmetic lets `Addr` dominate `Int`.
#[derive(Debug, Clone, Copy, PartialEq, Eq, Structural)]
pub enum ImmediateValue {
    Int(i64),
    Addr(i64),
}

impl ImmediateValue {
    /// The numeric payload, whatever the kind.
    pub open spec fn spec_value(self) -> i64 {
        match self {
            ImmediateValue::Int(v) => v,
            ImmediateValue::Addr(v) => v,
        }
    }

    /// Whether the value carries the address kind.
    pub open spec fn spec_is_addr(self) -> bool {
        self is Addr
    }

    pub fn value(&self) -> (r: i64)
        ensures
            r == self.spec_value(),
    {
        match self {
            ImmediateValue::Int(v) => *v,
            ImmediateValue::Addr(v) => *v,
        }
    }

    /// Sum with wrap-around; the result is `Addr` iff either operand is.
    pub fn add(self, other: ImmediateValue) -> (r: ImmediateValue)
        ensures
            r == spec_imm_add(self, other),
    {
        let v = self.value().wrapping_add(other.value());
        match (self, other) {
            (ImmediateValue::Int(_), ImmediateValue::Int(_)) => ImmediateValue::Int(v),
            _ => ImmediateValue::Addr(v),
        }
    }

    /// Difference with wrap-around; the result is `Addr` iff either operand is.
    pub fn sub(self, other: ImmediateValue) -> (r: ImmediateValue)
        ensures
            r == spec_imm_sub(self, other),
    {
        let v = self.value().wrapping_sub(other.value());
        match (self, other) {
            (ImmediateValue::Int(_), ImmediateValue::Int(_)) => ImmediateValue::Int(v),
            _ => ImmediateValue::Addr(v),
        }
    }
}

/// Wrap-around addition on the payloads; `Addr` dominates `Int`.
pub open spec fn spec_imm_add(a: ImmediateValue, b: ImmediateValue) -> ImmediateValue {
    let v = vstd::wrapping::i64_specs::wrapping_add(a.spec_value(), b.spec_value());
    if a is Int && b is Int {
        ImmediateValue::Int(v)
    } else {
        ImmediateValue::Addr(v)
    }
}

/// Wrap-around subtraction on the payloads; `Addr` dominates `Int`.
pub open spec fn spec_imm_sub(a: ImmediateValue, b: ImmediateValue) -> ImmediateValue {
    let v = vstd::wrapping::i64_specs::wrapping_sub(a.spec_value(), b.spec_value());
    if a is Int && b is Int {
        ImmediateValue::Int(v)
    } else {
        ImmediateValue::Addr(v)
    }
}

/// A positioned token.
#[derive(Debug, Clone)]
pub enum Token {
    Directive(Vec<u8>, Span),
    Label(Vec<u8>, Span),
    Identifier(Vec<u8>, Span),
    Opcode(Opcode, Span),
    Register(u8, Span),
    ImmediateValue(ImmediateValue, Span),
    BinaryOp(Op, Span),
    StringLiteral(Vec<u8>, Span),
    LeftBracket(Span),
    RightBracket(Span),
    Comma(Span),
    Colon(Span),
    Newline(Span),
}

/// The mathematical shape of a token: owned byte strings become sequences.
pub enum TokenView {
    Directive(Seq<u8>, Span),
    Label(Seq<u8>, Span),
    Identifier(Seq<u8>, Span),
    Opcode(Opcode, Span),
    Register(u8, Span),
    ImmediateValue(ImmediateValue, Span),
    BinaryOp(Op, Span),
    StringLiteral(Seq<u8>, Span),
    LeftBracket(Span),
    RightBracket(Span),
    Comma(Span),
    Colon(Span),
    Newline(Span),
}

impl View for Token {
    type V = TokenView;

    open spec fn view(&self) -> TokenView {
        match self {
            Token::Directive(n, s) => TokenView::Directive(n@, *s),
            Token::Label(n, s) => TokenView::Label(n@, *s),
            Token::Identifier(n, s) => TokenView::Identifier(n@, *s),
            Token::Opcode(o, s) => TokenView::Opcode(*o, *s),
            Token::Register(r, s) => TokenView::Register(*r, *s),
            Token::ImmediateValue(v, s) => TokenView::ImmediateValue(*v, *s),
            Token::BinaryOp(o, s) => TokenView::BinaryOp(*o, *s),
            Token::StringLiteral(l, s) => TokenView::StringLiteral(l@, *s),
            Token::LeftBracket(s) => TokenView::LeftBracket(*s),
            Token::RightBracket(s) => TokenView::RightBracket(*s),
            Token::Comma(s) => TokenView::Comma(*s),
            Token::Colon(s) => TokenView::Colon(*s),
            Token::Newline(s) => TokenView::Newline(*s),
        }
    }
}

/// The views of a list of tokens, in order.
pub open spec fn token_views(s: Seq<Token>) -> Seq<TokenView> {
    s.map_values(|t: Token| t@)
}

// ---------------------------------------------------------------------------
// Byte classes
// ---------------------------------------------------------------------------

pub const B_NEWLINE: u8 = 10;
pub const B_QUOTE: u8 = 34;
pub const B_HASH: u8 = 35;
pub const B_PLUS: u8 = 43;
pub const B_COMMA: u8 = 44;
pub const B_MINUS: u8 = 45;
pub const B_DOT: u8 = 46;
pub const B_SLASH: u8 = 47;
pub const B_ZERO: u8 = 48;
pub const B_COLON: u8 = 58;
pub const B_LBRACKET: u8 = 91;
pub const B_RBRACKET: u8 = 93;
pub const B_UNDERSCORE: u8 = 95;
pub const B_R: u8 = 114;
pub const B_X: u8 = 120;

/// A decimal digit.
pub open spec fn is_digit(b: u8) -> bool {
    48 <= b <= 57
}

/// A lowercase hexadecimal letter `a`..`f`.
pub open spec fn is_hex_letter(b: u8) -> bool {
    97 <= b <= 102
}

/// An ASCII letter or digit.
pub open spec fn is_alnum(b: u8) -> bool {
    is_digit(b) || (65 <= b <= 90) || (97 <= b <= 122)
}

/// A byte an identifier may contain while being scanned (trailing colons
/// mark labels and are trimmed afterwards).
pub open spec fn is_ident_byte(b: u8) -> bool {
    is_alnum(b) || b == B_UNDERSCORE || b == B_COLON
}

/// A byte a directive name may contain.
pub open spec fn is_directive_byte(b: u8) -> bool {
    is_alnum(b) || b == B_UNDERSCORE
}

/// ASCII whitespace other than the newline, which ends a line instead.
pub open spec fn is_space(b: u8) -> bool {
    b == 32 || (9 <= b <= 13 && b != B_NEWLINE)
}

// ---------------------------------------------------------------------------
// Scanners: where a token that starts at a position ends
// ---------------------------------------------------------------------------

/// The first position at or after `i` that cannot continue an identifier.
pub open spec fn scan_ident_end(src: Seq<u8>, i: int) -> int
    decreases src.len() - i,
{
    if 0 <= i < src.len() && is_ident_byte(src[i]) {
        scan_ident_end(src, i + 1)
    } else {
        i
    }
}

/// The first position at or after `i` that cannot continue a directive name.
pub open spec fn scan_directive_end(src: Seq<u8>, i: int) -> int
    decreases src.len() - i,
{
    if 0 <= i < src.len() && is_directive_byte(src[i]) {
        scan_directive_end(src, i + 1)
    } else {
        i
    }
}

/// The position of the next newline at or after `i`, or the end of input.
pub open spec fn find_line_end(src: Seq<u8>, i: int) -> int
    decreases src.len() - i,
{
    if 0 <= i < src.len() && src[i] != B_NEWLINE {
        find_line_end(src, i + 1)
    } else {
        i
    }
}

/// The position of the next closing quote, newline, or end of input at or
/// after `i`.
pub open spec fn find_string_end(src: Seq<u8>, i: int) -> int
    decreases src.len() - i,
{
    if 0 <= i < src.len() && src[i] != B_QUOTE && src[i] != B_NEWLINE {
        find_string_end(src, i + 1)
    } else {
        i
    }
}

/// Scanning a numeric literal from position `i` with the digits read so
/// far and whether a `0x` prefix was seen: gives the end position, the
/// digit string (prefix excluded), and the final hexadecimal flag.
pub open spec fn scan_number(src: Seq<u8>, i: int, cur: Seq<u8>, is_addr: bool) -> (int, Seq<u8>, bool)
    decreases src.len() - i,
{
    if 0 <= i < src.len() {
        let b = src[i];
        if is_digit(b) {
            scan_number(src, i + 1, cur.push(b), is_addr)
        } else if cur == seq![B_ZERO] && b == B_X {
            scan_number(src, i + 1, Seq::empty(), true)
        } else if is_addr && is_hex_letter(b) {
            scan_number(src, i + 1, cur.push(b), is_addr)
        } else {
            (i, cur, is_addr)
        }
    } else {
        (i, cur, is_addr)
    }
}

proof fn lemma_scan_ident_end_bounds(src: Seq<u8>, i: int)
    requires
        0 <= i <= src.len(),
    ensures
        i <= scan_ident_end(src, i) <= src.len(),
    decreases src.len() - i,
{
    if i < src.len() && is_ident_byte(src[i]) {
        lemma_scan_ident_end_bounds(src, i + 1);
    }
}

proof fn lemma_scan_directive_end_bounds(src: Seq<u8>, i: int)
    requires
        0 <= i <= src.len(),
    ensures
        i <= scan_directive_end(src, i) <= src.len(),
    decreases src.len() - i,
{
    if i < src.len() && is_directive_byte(src[i]) {
        lemma_scan_directive_end_bounds(src, i + 1);
    }
}

proof fn lemma_find_line_end_bounds(src: Seq<u8>, i: int)
    requires
        0 <= i <= src.len(),
    ensures
        i <= find_line_end(src, i) <= src.len(),
    decreases src.len() - i,
{
    if i < src.len() && src[i] != B_NEWLINE {
        lemma_find_line_end_bounds(src, i + 1);
    }
}

proof fn lemma_find_string_end_bounds(src: Seq<u8>, i: int)
    requires
        0 <= i <= src.len(),
    ensures
        i <= find_string_end(src, i) <= src.len(),
    decreases src.len() - i,
{
    if i < src.len() && src[i] != B_QUOTE && src[i] != B_NEWLINE {
        lemma_find_string_end_bounds(src, i + 1);
    }
}

proof fn lemma_scan_number_bounds(src: Seq<u8>, i: int, cur: Seq<u8>, is_addr: bool)
    requires
        0 <= i <= src.len(),
    ensures
        i <= scan_number(src, i, cur, is_addr).0 <= src.len(),
    decreases src.len() - i,
{
    if i < src.len() {
        let b = src[i];
        if is_digit(b) {
            lemma_scan_number_bounds(src, i + 1, cur.push(b), is_addr);
        } else if cur == seq![B_ZERO] && b == B_X {
            lemma_scan_number_bounds(src, i + 1, Seq::empty(), true);
        } else if is_addr && is_hex_letter(b) {
            lemma_scan_number_bounds(src, i + 1, cur.push(b), is_addr);
        }
    }
}

// ---------------------------------------------------------------------------
// Numeric values of digit strings
// ---------------------------------------------------------------------------

/// The value of a decimal digit string.
pub open spec fn dec_val(s: Seq<u8>) -> int
    decreases s.len(),
{
    if s.len() == 0 {
        0
    } else {
        dec_val(s.drop_last()) * 10 + (s.last() - 48)
    }
}

/// The value of one hexadecimal digit byte (`0`..`9`, `a`..`f`).
pub open spec fn hex_digit_val(b: u8) -> int {
    if is_digit(b) {
        b - 48
    } else {
        b - 87
    }
}

/// The value of a lowercase hexadecimal digit string.
pub open spec fn hex_val(s: Seq<u8>) -> int
    decreases s.len(),
{
    if s.len() == 0 {
        0
    } else {
        hex_val(s.drop_last()) * 16 + hex_digit_val(s.last())
    }
}

/// Every byte of `s` is a decimal digit.
pub open spec fn all_digits(s: Seq<u8>) -> bool {
    forall|k: int| 0 <= k < s.len() ==> is_digit(#[trigger] s[k])
}

/// Every byte of `s` is a decimal digit or a lowercase hex letter.
pub open spec fn all_hex_digits(s: Seq<u8>) -> bool {
    forall|k: int| 0 <= k < s.len() ==> is_digit(#[trigger] s[k]) || is_hex_letter(s[k])
}

proof fn lemma_dec_val_nonneg(s: Seq<u8>)
    requires
        all_digits(s),
    ensures
        dec_val(s) >= 0,
    decreases s.len(),
{
    if s.len() > 0 {
        assert(all_digits(s.drop_last())) by {
            assert(forall|k: int| 0 <= k < s.len() - 1 ==> s.drop_last()[k] == #[trigger] s[k]);
        }
        lemma_dec_val_nonneg(s.drop_last());
    }
}

proof fn lemma_hex_val_nonneg(s: Seq<u8>)
    requires
        all_hex_digits(s),
    ensures
        hex_val(s) >= 0,
    decreases s.len(),
{
    if s.len() > 0 {
        assert(all_hex_digits(s.drop_last())) by {
            assert(forall|k: int| 0 <= k < s.len() - 1 ==> s.drop_last()[k] == #[trigger] s[k]);
        }
        lemma_hex_val_nonneg(s.drop_last());
    }
}

proof fn lemma_dec_val_take_mono(s: Seq<u8>, k: int)
    requires
        all_digits(s),
        0 <= k <= s.len(),
    ensures
        dec_val(s.take(k)) <= dec_val(s),
    decreases s.len() - k,
{
    if k < s.len() {
        assert(s.take(k + 1).drop_last() =~= s.take(k));
        assert(all_digits(s.take(k))) by {
            assert(forall|j: int| 0 <= j < k ==> s.take(k)[j] == #[trigger] s[j]);
        }
        lemma_dec_val_nonneg(s.take(k));
        assert(dec_val(s.take(k + 1)) == dec_val(s.take(k)) * 10 + (s[k] - 48));
        lemma_dec_val_take_mono(s, k + 1);
    } else {
        assert(s.take(k) =~= s);
    }
}

proof fn lemma_hex_val_take_mono(s: Seq<u8>, k: int)
    requires
        all_hex_digits(s),
        0 <= k <= s.len(),
    ensures
        hex_val(s.take(k)) <= hex_val(s),
    decreases s.len() - k,
{
    if k < s.len() {
        assert(s.take(k + 1).drop_last() =~= s.take(k));
        assert(all_hex_digits(s.take(k))) by {
            assert(forall|j: int| 0 <= j < k ==> s.take(k)[j] == #[trigger] s[j]);
        }
        lemma_hex_val_nonneg(s.take(k));
        assert(hex_digit_val(s[k]) >= 0);
        assert(hex_val(s.take(k + 1)) == hex_val(s.take(k)) * 16 + hex_digit_val(s[k]));
        lemma_hex_val_take_mono(s, k + 1);
    } else {
        assert(s.take(k) =~= s);
    }
}

/// Parse a decimal digit string into a signed 64-bit value, failing
/// exactly where `i64` parsing fails: on an empty string or overflow.
pub fn parse_dec(ds: &[u8]) -> (r: Option<i64>)
    requires
        all_digits(ds@),
    ensures
        r is Some <==> ds@.len() > 0 && dec_val(ds@) <= i64::MAX,
        r is Some ==> r->0 == dec_val(ds@),
{
    if ds.len() == 0 {
        return None;
    }
    let mut acc: i64 = 0;
    let mut k: usize = 0;
    proof {
        assert(ds@.take(0) =~= Seq::<u8>::empty());
    }
    while k < ds.len()
        invariant
            0 <= k <= ds@.len(),
            all_digits(ds@),
            acc == dec_val(ds@.take(k as int)),
            acc >= 0,
        decreases ds@.len() - k,
    {
        let d = ds[k];
        proof {
            assert(is_digit(ds@[k as int]));
            assert(ds@.take(k + 1).drop_last() =~= ds@.take(k as int));
        }
        let step = match acc.checked_mul(10) {
            Some(m) => m.checked_add((d - 48) as i64),
            None => None,
        };
        match step {
            Some(v) => {
                acc = v;
            }
            None => {
                proof {
                    assert(dec_val(ds@.take(k + 1)) > i64::MAX);
                    lemma_dec_val_take_mono(ds@, k + 1);
                }
                return None;
            }
        }
        k += 1;
    }
    proof {
        assert(ds@.take(ds@.len() as int) =~= ds@);
    }
    Some(acc)
}

/// Parse a lowercase hexadecimal digit string, failing exactly on an
/// empty string or overflow past `i64::MAX`.
pub fn parse_hex(ds: &[u8]) -> (r: Option<i64>)
    requires
        all_hex_digits(ds@),
    ensures
        r is Some <==> ds@.len() > 0 && hex_val(ds@) <= i64::MAX,
        r is Some ==> r->0 == hex_val(ds@),
{
    if ds.len() == 0 {
        return None;
    }
    let mut acc: i64 = 0;
    let mut k: usize = 0;
    proof {
        assert(ds@.take(0) =~= Seq::<u8>::empty());
    }
    while k < ds.len()
        invariant
            0 <= k <= ds@.len(),
            all_hex_digits(ds@),
            acc == hex_val(ds@.take(k as int)),
            acc >= 0,
        decreases ds@.len() - k,
    {
        let d = ds[k];
        let dv: i64 = if d >= 97 { (d - 87) as i64 } else { (d - 48) as i64 };
        proof {
            assert(is_digit(ds@[k as int]) || is_hex_letter(ds@[k as int]));
            assert(dv == hex_digit_val(ds@[k as int]));
            assert(ds@.take(k + 1).drop_last() =~= ds@.take(k as int));
        }
        let step = match acc.checked_mul(16) {
            Some(m) => m.checked_add(dv),
            None => None,
        };
        match step {
            Some(v) => {
                acc = v;
            }
            None => {
                proof {
                    assert(hex_val(ds@.take(k + 1)) > i64::MAX);
                    lemma_hex_val_take_mono(ds@, k + 1);
                }
                return None;
            }
        }
        k += 1;
    }
    proof {
        assert(ds@.take(ds@.len() as int) =~= ds@);
    }
    Some(acc)
}

// ---------------------------------------------------------------------------
// Label trimming and register names
// ---------------------------------------------------------------------------

/// An identifier with every trailing colon removed.
pub open spec fn trim_colons(s: Seq<u8>) -> Seq<u8>
    decreases s.len(),
{
    if s.len() > 0 && s.last() == B_COLON {
        trim_colons(s.drop_last())
    } else {
        s
    }
}

// ---------------------------------------------------------------------------
// One lexing step
// ---------------------------------------------------------------------------

/// What one lexing step does: where it leaves the cursor and the line
/// start, and the token or diagnostic it emits, if any.
pub struct LexStep {
    pub next: int,
    pub line: int,
    pub tok: Option<TokenView>,
    pub err: Option<ErrorView>,
}

/// A step with no token and no diagnostic.
pub open spec fn step_none(next: int, line: int) -> LexStep {
    LexStep { next, line, tok: None, err: None }
}

/// A step that emits one token.
pub open spec fn step_tok(next: int, line: int, t: TokenView) -> LexStep {
    LexStep { next, line, tok: Some(t), err: None }
}

/// A step that emits one diagnostic.
pub open spec fn step_err(next: int, line: int, e: ErrorView) -> LexStep {
    LexStep { next, line, tok: None, err: Some(e) }
}

/// The classification of an identifier lexeme: a label when it ends in a
/// colon, a register for `r` followed by digits, an opcode for a known
/// mnemonic, a plain identifier otherwise.
pub open spec fn classify_ident(ident: Seq<u8>, span: Span, next: int) -> LexStep {
    if ident.len() > 0 && ident.last() == B_COLON {
        step_tok(next, 0, TokenView::Label(trim_colons(ident), span))
    } else if ident.len() > 0 && ident[0] == B_R && all_digits(ident.skip(1)) {
        if ident.len() >= 2 && dec_val(ident.skip(1)) <= 255 {
            step_tok(next, 0, TokenView::Register(dec_val(ident.skip(1)) as u8, span))
        } else {
            step_err(next, 0, ErrorView::InvalidRegister { register: ident, span, custom_label: None })
        }
    } else if spec_from_mnemonic(ident) is Some {
        step_tok(next, 0, TokenView::Opcode(spec_from_mnemonic(ident)->0, span))
    } else {
        step_tok(next, 0, TokenView::Identifier(ident, span))
    }
}

/// The token or diagnostic a numeric literal scan yields.
pub open spec fn classify_number(num: Seq<u8>, is_addr: bool, span: Span, next: int) -> LexStep {
    if is_addr {
        if num.len() > 0 && hex_val(num) <= i64::MAX {
            step_tok(next, 0, TokenView::ImmediateValue(ImmediateValue::Addr(hex_val(num) as i64), span))
        } else {
            step_err(next, 0, ErrorView::InvalidNumber { number: num, span, custom_label: None })
        }
    } else {
        if num.len() > 0 && dec_val(num) <= i64::MAX {
            step_tok(next, 0, TokenView::ImmediateValue(ImmediateValue::Int(dec_val(num) as i64), span))
        } else {
            step_err(next, 0, ErrorView::InvalidNumber { number: num, span, custom_label: None })
        }
    }
}

/// One lexing step at position `pos` (which must be within the source),
/// with `ls` the position where the current line began.
pub open spec fn lex_step(src: Seq<u8>, pos: int, ls: int) -> LexStep {
    let b = src[pos];
    if b == B_NEWLINE {
        if pos == ls {
            step_none(pos + 1, pos + 1)
        } else {
            LexStep {
                next: pos + 1,
                line: pos + 1,
                tok: Some(TokenView::Newline(spec_span(pos, pos + 1))),
                err: None,
            }
        }
    } else {
        let keep = LexStep { next: 0, line: ls, tok: None, err: None };
        let st = if is_digit(b) {
            let (j, num, is_addr) = scan_number(src, pos, Seq::empty(), false);
            classify_number(num, is_addr, spec_span(pos, pos + num.len()), j)
        } else if is_alnum(b) || b == B_UNDERSCORE {
            let j = scan_ident_end(src, pos);
            classify_ident(src.subrange(pos, j), spec_span(pos, j), j)
        } else if is_space(b) {
            step_none(pos + 1, 0)
        } else if b == B_PLUS {
            step_tok(pos + 1, 0, TokenView::BinaryOp(Op::Add, spec_span(pos, pos + 1)))
        } else if b == B_MINUS {
            step_tok(pos + 1, 0, TokenView::BinaryOp(Op::Sub, spec_span(pos, pos + 1)))
        } else if b == B_DOT {
            let j = scan_directive_end(src, pos + 1);
            let next = if j < src.len() && src[j] != B_NEWLINE {
                j + 1
            } else {
                j
            };
            step_tok(next, 0, TokenView::Directive(src.subrange(pos + 1, j), spec_span(pos, j)))
        } else if b == B_QUOTE {
            let e = find_string_end(src, pos + 1);
            if e < src.len() && src[e] == B_QUOTE {
                step_tok(e + 1, 0, TokenView::StringLiteral(src.subrange(pos + 1, e), spec_span(pos, e + 1)))
            } else {
                step_err(e, 0, ErrorView::UnterminatedStringLiteral {
                    span: spec_span(pos, pos + 1),
                    custom_label: None,
                })
            }
        } else if b == B_LBRACKET {
            step_tok(pos + 1, 0, TokenView::LeftBracket(spec_span(pos, pos + 1)))
        } else if b == B_RBRACKET {
            step_tok(pos + 1, 0, TokenView::RightBracket(spec_span(pos, pos + 1)))
        } else if b == B_COMMA {
            step_tok(pos + 1, 0, TokenView::Comma(spec_span(pos, pos + 1)))
        } else if b == B_HASH {
            step_none(find_line_end(src, pos), 0)
        } else if b == B_SLASH {
            if pos + 1 < src.len() && src[pos + 1] == B_SLASH {
                step_none(find_line_end(src, pos), 0)
            } else {
                step_err(pos + 1, 0, ErrorView::UnexpectedCharacter {
                    character: B_SLASH,
                    span: spec_span(pos, pos + 1),
                    custom_label: None,
                })
            }
        } else {
            step_err(pos + 1, 0, ErrorView::UnexpectedCharacter {
                character: b,
                span: spec_span(pos, pos + 1),
                custom_label: None,
            })
        };
        LexStep { next: st.next, line: ls, tok: st.tok, err: st.err }
    }
}

#[verifier::rlimit(60)]
proof fn lemma_lex_step_advances(src: Seq<u8>, pos: int, ls: int)
    requires
        0 <= pos < src.len(),
    ensures
        pos < lex_step(src, pos, ls).next <= src.len(),
{
    let b = src[pos];
    if b == B_NEWLINE {
    } else if is_digit(b) {
        lemma_scan_number_bounds(src, pos + 1, Seq::empty().push(b), false);
        assert(scan_number(src, pos, Seq::empty(), false)
            == scan_number(src, pos + 1, Seq::empty().push(b), false));
    } else if is_alnum(b) || b == B_UNDERSCORE {
        lemma_scan_ident_end_bounds(src, pos + 1);
        assert(scan_ident_end(src, pos) == scan_ident_end(src, pos + 1));
    } else if is_space(b) {
    } else if b == B_DOT {
        lemma_scan_directive_end_bounds(src, pos + 1);
    } else if b == B_QUOTE {
        lemma_find_string_end_bounds(src, pos + 1);
    } else if b == B_HASH {
        lemma_find_line_end_bounds(src, pos + 1);
        assert(find_line_end(src, pos) == find_line_end(src, pos + 1));
    } else if b == B_SLASH && pos + 1 < src.len() && src[pos + 1] == B_SLASH {
        lemma_find_line_end_bounds(src, pos + 1);
        assert(find_line_end(src, pos) == find_line_end(src, pos + 1));
    } else {
    }
}

/// One element, or nothing.
pub open spec fn opt_seq<T>(o: Option<T>) -> Seq<T> {
    match o {
        Some(x) => seq![x],
        None => Seq::empty(),
    }
}

/// The full token and diagnostic sequences from position `pos`, with `ls`
/// the position where the current line began. A final line that holds any
/// bytes is closed by a `Newline` token just past the end of the input.
pub open spec fn lex_all(src: Seq<u8>, pos: int, ls: int) -> (Seq<TokenView>, Seq<ErrorView>)
    decreases src.len() - pos
        via lex_all_decreases
{
    if pos < 0 {
        (Seq::empty(), Seq::empty())
    } else if pos >= src.len() {
        if pos == src.len() && ls < src.len() {
            (
                seq![TokenView::Newline(spec_span(src.len() as int, src.len() as int + 1))],
                Seq::empty(),
            )
        } else {
            (Seq::empty(), Seq::empty())
        }
    } else {
        let st = lex_step(src, pos, ls);
        let rest = lex_all(src, st.next, st.line);
        (opt_seq(st.tok) + rest.0, opt_seq(st.err) + rest.1)
    }
}

#[via_fn]
proof fn lex_all_decreases(src: Seq<u8>, pos: int, ls: int) {
    if 0 <= pos < src.len() {
        lemma_lex_step_advances(src, pos, ls);
    }
}

/// The exact token and diagnostic sequences lexing a source yields.
pub open spec fn spec_tokenize(src: Seq<u8>) -> (Seq<TokenView>, Seq<ErrorView>) {
    lex_all(src, 0, 0)
}

// ---------------------------------------------------------------------------
// Executable scanners
// ---------------------------------------------------------------------------

fn ident_end(src: &[u8], i: usize) -> (j: usize)
    requires
        i <= src@.len(),
    ensures
        j == scan_ident_end(src@, i as int),
        i <= j <= src@.len(),
{
    let mut j: usize = i;
    loop
        invariant
            i <= j <= src@.len(),
            scan_ident_end(src@, i as int) == scan_ident_end(src@, j as int),
        decreases src@.len() - j,
    {
        if j >= src.len() {
            return j;
        }
        let b = src[j];
        if !((48 <= b && b <= 57) || (65 <= b && b <= 90) || (97 <= b && b <= 122)
            || b == B_UNDERSCORE || b == B_COLON) {
            return j;
        }
        j += 1;
    }
}

fn directive_end(src: &[u8], i: usize) -> (j: usize)
    requires
        i <= src@.len(),
    ensures
        j == scan_directive_end(src@, i as int),
        i <= j <= src@.len(),
{
    let mut j: usize = i;
    loop
        invariant
            i <= j <= src@.len(),
            scan_directive_end(src@, i as int) == scan_directive_end(src@, j as int),
        decreases src@.len() - j,
    {
        if j >= src.len() {
            return j;
        }
        let b = src[j];
        if !((48 <= b && b <= 57) || (65 <= b && b <= 90) || (97 <= b && b <= 122)
            || b == B_UNDERSCORE) {
            return j;
        }
        j += 1;
    }
}

fn line_end(src: &[u8], i: usize) -> (j: usize)
    requires
        i <= src@.len(),
    ensures
        j == find_line_end(src@, i as int),
        i <= j <= src@.len(),
{
    let mut j: usize = i;
    while j < src.len() && src[j] != B_NEWLINE
        invariant
            i <= j <= src@.len(),
            find_line_end(src@, i as int) == find_line_end(src@, j as int),
        decreases src@.len() - j,
    {
        j += 1;
    }
    j
}

fn string_end(src: &[u8], i: usize) -> (j: usize)
    requires
        i <= src@.len(),
    ensures
        j == find_string_end(src@, i as int),
        i <= j <= src@.len(),
{
    let mut j: usize = i;
    while j < src.len() && src[j] != B_QUOTE && src[j] != B_NEWLINE
        invariant
            i <= j <= src@.len(),
            find_string_end(src@, i as int) == find_string_end(src@, j as int),
        decreases src@.len() - j,
    {
        j += 1;
    }
    j
}

fn number_scan(src: &[u8], i: usize) -> (r: (usize, Vec<u8>, bool))
    requires
        i <= src@.len(),
    ensures
        scan_number(src@, i as int, Seq::empty(), false) == (r.0 as int, r.1@, r.2),
        i <= r.0 <= src@.len(),
        r.1@.len() <= r.0 - i,
        if r.2 {
            all_hex_digits(r.1@)
        } else {
            all_digits(r.1@)
        },
{
    let mut j: usize = i;
    let mut num: Vec<u8> = Vec::new();
    let mut is_addr: bool = false;
    loop
        invariant
            i <= j <= src@.len(),
            num@.len() <= j - i,
            if is_addr {
                all_hex_digits(num@)
            } else {
                all_digits(num@)
            },
            scan_number(src@, i as int, Seq::empty(), false) == scan_number(
                src@,
                j as int,
                num@,
                is_addr,
            ),
        decreases src@.len() - j,
    {
        if j >= src.len() {
            return (j, num, is_addr);
        }
        let b = src[j];
        if 48 <= b && b <= 57 {
            num.push(b);
        } else if num.len() == 1 && num[0] == B_ZERO && b == B_X {
            proof {
                assert(num@ =~= seq![B_ZERO]);
            }
            num.clear();
            is_addr = true;
        } else if is_addr && 97 <= b && b <= 102 {
            num.push(b);
        } else {
            proof {
                if num@.len() == 1 && num@[0] == B_ZERO {
                    assert(num@ =~= seq![B_ZERO]);
                } else {
                    assert(num@ != seq![B_ZERO]);
                }
            }
            return (j, num, is_addr);
        }
        j += 1;
    }
}

fn trim_colons_exec(s: &[u8]) -> (r: Vec<u8>)
    ensures
        r@ == trim_colons(s@),
{
    let mut j: usize = s.len();
    proof {
        assert(s@.take(j as int) =~= s@);
    }
    while j > 0 && s[j - 1] == B_COLON
        invariant
            0 <= j <= s@.len(),
            trim_colons(s@) == trim_colons(s@.take(j as int)),
        decreases j,
    {
        proof {
            assert(s@.take(j as int).drop_last() =~= s@.take(j - 1));
            assert(s@.take(j as int).last() == s@[j - 1]);
        }
        j -= 1;
    }
    proof {
        if j > 0 {
            assert(s@.take(j as int).last() == s@[j - 1]);
        }
        assert(trim_colons(s@.take(j as int)) == s@.take(j as int));
    }
    let r = vstd::slice::slice_to_vec(vstd::slice::slice_subrange(s, 0, j));
    proof {
        assert(s@.subrange(0, j as int) =~= s@.take(j as int));
    }
    r
}

fn digits_from(s: &[u8], start: usize) -> (r: bool)
    requires
        start <= s@.len(),
    ensures
        r == all_digits(s@.skip(start as int)),
{
    let mut k: usize = start;
    while k < s.len()
        invariant
            start <= k <= s@.len(),
            forall|m: int| start <= m < k ==> is_digit(#[trigger] s@[m]),
        decreases s@.len() - k,
    {
        let b = s[k];
        if !(48 <= b && b <= 57) {
            proof {
                assert(s@.skip(start as int)[k - start] == s@[k as int]);
            }
            return false;
        }
        k += 1;
    }
    proof {
        assert(forall|m: int|
            0 <= m < s@.skip(start as int).len() ==> #[trigger] s@.skip(start as int)[m]
                == s@[m + start]);
    }
    true
}

// ---------------------------------------------------------------------------
// The lexer
// ---------------------------------------------------------------------------

/// The views of an optional token / diagnostic.
pub open spec fn opt_token_view(o: Option<Token>) -> Option<TokenView> {
    match o {
        Some(t) => Some(t@),
        None => None,
    }
}

pub open spec fn opt_error_view(o: Option<CompileError>) -> Option<ErrorView> {
    match o {
        Some(e) => Some(e@),
        None => None,
    }
}

/// Convert source text into tokens, or the accumulated diagnostics if any
/// byte fails to lex. The result is exactly what `spec_tokenize` gives, so
/// lexing is a pure function of the source.
#[verifier::rlimit(100)]
pub fn tokenize(source: &[u8]) -> (r: Result<Vec<Token>, Vec<CompileError>>)
    requires
        source@.len() < 0x1000_0000_0000_0000,
        source@.len() < usize::MAX,
    ensures
        match r {
            Ok(tokens) => spec_tokenize(source@).1.len() == 0 && token_views(tokens@)
                == spec_tokenize(source@).0,
            Err(errors) => spec_tokenize(source@).1.len() > 0 && error_views(errors@)
                == spec_tokenize(source@).1,
        },
{
    let mut tokens: Vec<Token> = Vec::new();
    let mut errors: Vec<CompileError> = Vec::new();
    let mut pos: usize = 0;
    let mut line_start: usize = 0;
    proof {
        assert(token_views(tokens@) =~= Seq::<TokenView>::empty());
        assert(error_views(errors@) =~= Seq::<ErrorView>::empty());
    }
    while pos < source.len()
        invariant
            source@.len() < 0x1000_0000_0000_0000,
            source@.len() < usize::MAX,
            0 <= line_start <= pos <= source@.len(),
            spec_tokenize(source@).0 == token_views(tokens@) + lex_all(
                source@,
                pos as int,
                line_start as int,
            ).0,
            spec_tokenize(source@).1 == error_views(errors@) + lex_all(
                source@,
                pos as int,
                line_start as int,
            ).1,
        decreases source@.len() - pos,
    {
        let ghost st = lex_step(source@, pos as int, line_start as int);
        proof {
            lemma_lex_step_advances(source@, pos as int, line_start as int);
        }
        let b = source[pos];
        let mut tok: Option<Token> = None;
        let mut err: Option<CompileError> = None;
        let next: usize;
        let mut new_ls: usize = line_start;
        if b == B_NEWLINE {
            if pos != line_start {
                tok = Some(Token::Newline(Span::new(pos, pos + 1)));
            }
            next = pos + 1;
            new_ls = next;
        } else if 48 <= b && b <= 57 {
            let (j, num, is_addr) = number_scan(source, pos);
            let span = Span::new(pos, pos + num.len());
            if is_addr {
                match parse_hex(num.as_slice()) {
                    Some(v) => {
                        tok = Some(Token::ImmediateValue(ImmediateValue::Addr(v), span));
                    }
                    None => {
                        err = Some(CompileError::InvalidNumber {
                            number: num,
                            span,
                            custom_label: None,
                        });
                    }
                }
            } else {
                match parse_dec(num.as_slice()) {
                    Some(v) => {
                        tok = Some(Token::ImmediateValue(ImmediateValue::Int(v), span));
                    }
                    None => {
                        err = Some(CompileError::InvalidNumber {
                            number: num,
                            span,
                            custom_label: None,
                        });
                    }
                }
            }
            next = j;
        } else if (65 <= b && b <= 90) || (97 <= b && b <= 122) || b == B_UNDERSCORE {
            let j = ident_end(source, pos);
            let ident_slice = vstd::slice::slice_subrange(source, pos, j);
            let span = Span::new(pos, j);
            if ident_slice[ident_slice.len() - 1] == B_COLON {
                tok = Some(Token::Label(trim_colons_exec(ident_slice), span));
            } else if ident_slice[0] == B_R && digits_from(ident_slice, 1) {
                let digits = vstd::slice::slice_subrange(ident_slice, 1, ident_slice.len());
                proof {
                    assert(digits@ =~= ident_slice@.skip(1));
                }
                let parsed = parse_dec(digits);
                proof {
                    if parsed is Some {
                        lemma_dec_val_nonneg(digits@);
                    }
                }
                match parsed {
                    Some(v) if v <= 255 => {
                        tok = Some(Token::Register(v as u8, span));
                    }
                    _ => {
                        err = Some(CompileError::InvalidRegister {
                            register: vstd::slice::slice_to_vec(ident_slice),
                            span,
                            custom_label: None,
                        });
                    }
                }
            } else {
                match from_mnemonic(ident_slice) {
                    Some(op) => {
                        tok = Some(Token::Opcode(op, span));
                    }
                    None => {
                        tok = Some(Token::Identifier(vstd::slice::slice_to_vec(ident_slice), span));
                    }
                }
            }
            next = j;
        } else if b == 32 || (9 <= b && b <= 13) {
            next = pos + 1;
        } else if b == B_PLUS {
            tok = Some(Token::BinaryOp(Op::Add, Span::new(pos, pos + 1)));
            next = pos + 1;
        } else if b == B_MINUS {
            tok = Some(Token::BinaryOp(Op::Sub, Span::new(pos, pos + 1)));
            next = pos + 1;
        } else if b == B_DOT {
            let j = directive_end(source, pos + 1);
            let name = vstd::slice::slice_to_vec(vstd::slice::slice_subrange(source, pos + 1, j));
            tok = Some(Token::Directive(name, Span::new(pos, j)));
            if j < source.len() && source[j] != B_NEWLINE {
                next = j + 1;
            } else {
                next = j;
            }
        } else if b == B_QUOTE {
            let e = string_end(source, pos + 1);
            if e < source.len() && source[e] == B_QUOTE {
                let lit = vstd::slice::slice_to_vec(vstd::slice::slice_subrange(source, pos + 1, e));
                tok = Some(Token::StringLiteral(lit, Span::new(pos, e + 1)));
                next = e + 1;
            } else {
                err = Some(CompileError::UnterminatedStringLiteral {
                    span: Span::new(pos, pos + 1),
                    custom_label: None,
                });
                next = e;
            }
        } else if b == B_LBRACKET {
            tok = Some(Token::LeftBracket(Span::new(pos, pos + 1)));
            next = pos + 1;
        } else if b == B_RBRACKET {
            tok = Some(Token::RightBracket(Span::new(pos, pos + 1)));
            next = pos + 1;
        } else if b == B_COMMA {
            tok = Some(Token::Comma(Span::new(pos, pos + 1)));
            next = pos + 1;
        } else if b == B_HASH {
            next = line_end(source, pos);
        } else if b == B_SLASH {
            if pos + 1 < source.len() && source[pos + 1] == B_SLASH {
                next = line_end(source, pos);
            } else {
                err = Some(CompileError::UnexpectedCharacter {
                    character: B_SLASH,
                    span: Span::new(pos, pos + 1),
                    custom_label: None,
                });
                next = pos + 1;
            }
        } else {
            err = Some(CompileError::UnexpectedCharacter {
                character: b,
                span: Span::new(pos, pos + 1),
                custom_label: None,
            });
            next = pos + 1;
        }
        proof {
            assert(st.next == next as int);
            assert(st.line == new_ls as int);
            assert(st.tok == opt_token_view(tok));
            assert(st.err == opt_error_view(err));
            assert(lex_all(source@, pos as int, line_start as int).0 == opt_seq(st.tok) + lex_all(
                source@,
                st.next,
                st.line,
            ).0);
            assert(lex_all(source@, pos as int, line_start as int).1 == opt_seq(st.err) + lex_all(
                source@,
                st.next,
                st.line,
            ).1);
        }
        match tok {
            Some(t) => {
                proof {
                    assert(token_views(tokens@.push(t)) =~= token_views(tokens@) + seq![t@]);
                }
                tokens.push(t);
            }
            None => {}
        }
        match err {
            Some(e) => {
                proof {
                    assert(error_views(errors@.push(e)) =~= error_views(errors@) + seq![e@]);
                }
                errors.push(e);
            }
            None => {}
        }
        pos = next;
        line_start = new_ls;
    }
    if line_start < source.len() {
        proof {
            assert(source@.len() < 0x1000_0000_0000_0000);
        }
        let t = Token::Newline(Span::new(source.len(), source.len() + 1));
        proof {
            assert(token_views(tokens@.push(t)) =~= token_views(tokens@) + seq![t@]);
        }
        tokens.push(t);
    }
    proof {
        assert(lex_all(source@, pos as int, line_start as int).1 =~= Seq::<ErrorView>::empty());
        assert(spec_tokenize(source@).1 =~= error_views(errors@));
        assert(spec_tokenize(source@).0 =~= token_views(tokens@));
    }
    if errors.len() == 0 {
        proof {
            assert(errors@ =~= Seq::<CompileError>::empty());
            assert(error_views(errors@) =~= Seq::<ErrorView>::empty());
        }
        Ok(tokens)
    } else {
        proof {
            assert(error_views(errors@).len() == errors@.len());
        }
        Err(errors)
    }
}


/// A copy of a token, byte strings included.
pub fn clone_token(t: &Token) -> (r: Token)
    ensures
        r@ == t@,
{
    match t {
        Token::Directive(n, s) => Token::Directive(vstd::slice::slice_to_vec(n.as_slice()), *s),
        Token::Label(n, s) => Token::Label(vstd::slice::slice_to_vec(n.as_slice()), *s),
        Token::Identifier(n, s) => Token::Identifier(vstd::slice::slice_to_vec(n.as_slice()), *s),
        Token::Opcode(o, s) => Token::Opcode(*o, *s),
        Token::Register(x, s) => Token::Register(*x, *s),
        Token::ImmediateValue(v, s) => Token::ImmediateValue(*v, *s),
        Token::BinaryOp(o, s) => Token::BinaryOp(*o, *s),
        Token::StringLiteral(l, s) => Token::StringLiteral(
            vstd::slice::slice_to_vec(l.as_slice()),
            *s,
        ),
        Token::LeftBracket(s) => Token::LeftBracket(*s),
        Token::RightBracket(s) => Token::RightBracket(*s),
        Token::Comma(s) => Token::Comma(*s),
        Token::Colon(s) => Token::Colon(*s),
        Token::Newline(s) => Token::Newline(*s),
    }
}


// ---------------------------------------------------------------------------
// Laws of the lexer
// ---------------------------------------------------------------------------

/// Lexing is pure over the source: identical inputs yield identical
/// token streams and identical diagnostics.
pub proof fn lemma_lexing_pure(s1: Seq<u8>, s2: Seq<u8>)
    requires
        s1 == s2,
    ensures
        spec_tokenize(s1) == spec_tokenize(s2),
{
}

/// An opening quote with no closing quote before the end of its line
/// yields exactly one diagnostic — an unterminated string literal whose
/// span is the opening quote — and no token.
pub proof fn lemma_unterminated_string_step(src: Seq<u8>, pos: int, ls: int)
    requires
        0 <= pos < src.len(),
        src[pos] == B_QUOTE,
        ({
            let e = find_string_end(src, pos + 1);
            e >= src.len() || src[e] == B_NEWLINE
        }),
    ensures
        lex_step(src, pos, ls).tok is None,
        lex_step(src, pos, ls).err == Some(
            ErrorView::UnterminatedStringLiteral {
                span: spec_span(pos, pos + 1),
                custom_label: None,
            },
        ),
{
    lemma_find_string_end_bounds(src, pos + 1);
}

/// Addition of immediates is commutative.
pub proof fn lemma_imm_add_commutative(a: ImmediateValue, b: ImmediateValue)
    ensures
        spec_imm_add(a, b) == spec_imm_add(b, a),
{
}

/// Addition of integer-kind immediates is associative.
pub proof fn lemma_imm_add_associative(a: ImmediateValue, b: ImmediateValue, c: ImmediateValue)
    requires
        a is Int,
        b is Int,
        c is Int,
    ensures
        spec_imm_add(a, spec_imm_add(b, c)) == spec_imm_add(spec_imm_add(a, b), c),
{
}

/// The kind of a sum: address-kind dominates integer-kind.
pub proof fn lemma_imm_add_kind(a: ImmediateValue, b: ImmediateValue)
    ensures
        spec_imm_add(a, b) is Addr <==> (a is Addr || b is Addr),
        spec_imm_sub(a, b) is Addr <==> (a is Addr || b is Addr),
{
}

// ---------------------------------------------------------------------------
// Size bounds on what lexing emits
// ---------------------------------------------------------------------------

/// The string-literal payload of one token view.
pub open spec fn vlit_len(t: TokenView) -> int {
    match t {
        TokenView::StringLiteral(s, _) => s.len() as int,
        _ => 0,
    }
}

/// The total string-literal payload of a token-view sequence.
pub open spec fn vlit_sum(ts: Seq<TokenView>) -> int
    decreases ts.len(),
{
    if ts.len() == 0 {
        0
    } else {
        vlit_sum(ts.drop_last()) + vlit_len(ts.last())
    }
}

/// Every identifier-like payload in the views is at most `b` bytes.
pub open spec fn vname_bounded(ts: Seq<TokenView>, b: int) -> bool {
    forall|j: int|
        0 <= j < ts.len() ==> match #[trigger] ts[j] {
            TokenView::Identifier(n, _) => n.len() <= b,
            TokenView::Label(n, _) => n.len() <= b,
            _ => true,
        }
}

proof fn lemma_vlit_sum_concat(a: Seq<TokenView>, b: Seq<TokenView>)
    ensures
        vlit_sum(a + b) == vlit_sum(a) + vlit_sum(b),
    decreases b.len(),
{
    if b.len() == 0 {
        assert(a + b =~= a);
    } else {
        assert((a + b).drop_last() =~= a + b.drop_last());
        lemma_vlit_sum_concat(a, b.drop_last());
        assert((a + b).last() == b.last());
    }
}

proof fn lemma_trim_colons_len(s: Seq<u8>)
    ensures
        trim_colons(s).len() <= s.len(),
    decreases s.len(),
{
    if s.len() > 0 && s.last() == B_COLON {
        lemma_trim_colons_len(s.drop_last());
    }
}

/// What lexing emits stays in proportion to the source: at most one
/// token per byte plus the closing newline, literal payloads no longer
/// than the bytes scanned, and every name no longer than the source.
#[verifier::rlimit(100)]
pub proof fn lemma_lex_all_bounds(src: Seq<u8>, pos: int, ls: int)
    requires
        0 <= pos <= src.len(),
    ensures
        lex_all(src, pos, ls).0.len() <= src.len() - pos + 1,
        vlit_sum(lex_all(src, pos, ls).0) <= src.len() - pos,
        vname_bounded(lex_all(src, pos, ls).0, src.len() as int),
    decreases src.len() - pos,
{
    if pos < src.len() {
        lemma_lex_step_advances(src, pos, ls);
        let st = lex_step(src, pos, ls);
        lemma_lex_all_bounds(src, st.next, st.line);
        let toks = lex_all(src, pos, ls).0;
        let rest = lex_all(src, st.next, st.line).0;
        assert(toks == opt_seq(st.tok) + rest);
        let b = src[pos];
        if b == B_NEWLINE {
            assert(match st.tok {
                Some(t) => vlit_len(t) == 0,
                None => true,
            });
        } else if is_digit(b) {
            assert(match st.tok {
                Some(t) => vlit_len(t) == 0,
                None => true,
            });
        } else if is_alnum(b) || b == B_UNDERSCORE {
            let j = scan_ident_end(src, pos);
            lemma_scan_ident_end_bounds(src, pos + 1);
            assert(scan_ident_end(src, pos) == scan_ident_end(src, pos + 1));
            let ident = src.subrange(pos, j);
            assert(ident.len() <= src.len());
            lemma_trim_colons_len(ident);
            assert(match st.tok {
                Some(t) => vlit_len(t) == 0,
                None => true,
            });
        } else if is_space(b) {
            assert(st.tok is None);
        } else if b == B_PLUS || b == B_MINUS {
            assert(match st.tok {
                Some(t) => vlit_len(t) == 0,
                None => true,
            });
        } else if b == B_DOT {
            let j = scan_directive_end(src, pos + 1);
            lemma_scan_directive_end_bounds(src, pos + 1);
            assert(src.subrange(pos + 1, j).len() <= src.len());
            assert(match st.tok {
                Some(t) => vlit_len(t) == 0,
                None => true,
            });
        } else if b == B_QUOTE {
            let e = find_string_end(src, pos + 1);
            lemma_find_string_end_bounds(src, pos + 1);
            if e < src.len() && src[e] == B_QUOTE {
                assert(src.subrange(pos + 1, e).len() == e - pos - 1);
                assert(st.next == e + 1);
                assert(match st.tok {
                    Some(t) => vlit_len(t) <= st.next - pos,
                    None => true,
                });
            } else {
                assert(st.tok is None);
            }
        } else {
            assert(match st.tok {
                Some(t) => vlit_len(t) == 0,
                None => true,
            });
        }
        assert(match st.tok {
            Some(t) => vlit_len(t) <= st.next - pos,
            None => true,
        });
        lemma_vlit_sum_concat(opt_seq(st.tok), rest);
        assert(vlit_sum(opt_seq(st.tok)) <= st.next - pos) by {
            assert(vlit_sum(Seq::<TokenView>::empty()) == 0);
            match st.tok {
                Some(t) => {
                    assert(opt_seq(st.tok).drop_last() =~= Seq::<TokenView>::empty());
                    assert(opt_seq(st.tok).last() == t);
                    assert(vlit_sum(opt_seq(st.tok)) == vlit_len(t));
                }
                None => {}
            }
        }
        assert forall|k: int|
            0 <= k < toks.len() implies match #[trigger] toks[k] {
            TokenView::Identifier(n, _) => n.len() <= src.len() as int,
            TokenView::Label(n, _) => n.len() <= src.len() as int,
            _ => true,
        } by {
            if k >= opt_seq(st.tok).len() {
                assert(toks[k] == rest[k - opt_seq(st.tok).len()]);
            } else {
                assert(toks[k] == opt_seq(st.tok)[0]);
            }
        }
    } else {
        let toks = lex_all(src, pos, ls).0;
        if pos == src.len() && ls < src.len() {
            assert(toks.drop_last() =~= Seq::<TokenView>::empty());
            assert(vlit_sum(Seq::<TokenView>::empty()) == 0);
            assert(vlit_sum(toks) == vlit_len(toks.last()));
            assert(vlit_len(toks.last()) == 0);
        } else {
            assert(vlit_sum(toks) == 0);
        }
    }
}

} // verus!
