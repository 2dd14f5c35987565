//! Diagnostics: every error the lexer, parser and resolver can report,
//! each carrying a byte span into the source.

use vstd::prelude::*;
use crate::span::Span;

verus! {

/// A diagnostic with its span. `custom_label` overrides the default
/// human-readable label when a family-specific expected pattern is known.
#[derive(Debug, Clone)]
pub enum CompileError {
    // Lexical errors
    InvalidNumber { number: Vec<u8>, span: Span, custom_label: Option<&'static str> },
    InvalidRegister { register: Vec<u8>, span: Span, custom_label: Option<&'static str> },
    UnexpectedCharacter { character: u8, span: Span, custom_label: Option<&'static str> },
    UnterminatedStringLiteral { span: Span, custom_label: Option<&'static str> },
    // Syntactic errors
    InvalidGlobalDecl { span: Span, custom_label: Option<&'static str> },
    InvalidExternDecl { span: Span, custom_label: Option<&'static str> },
    InvalidRodataDecl { span: Span, custom_label: Option<&'static str> },
    InvalidEquDecl { span: Span, custom_label: Option<&'static str> },
    InvalidDirective { directive: Vec<u8>, span: Span, custom_label: Option<&'static str> },
    InvalidInstruction { instruction: Vec<u8>, span: Span, custom_label: Option<&'static str> },
    UnexpectedToken { token: Vec<u8>, span: Span, custom_label: Option<&'static str> },
    // Semantic errors
    UndefinedLabel { label: Vec<u8>, span: Span, custom_label: Option<&'static str> },
}

/// The mathematical shape of a diagnostic: owned byte strings become
/// sequences, everything else is carried as is.
pub enum ErrorView {
    InvalidNumber { number: Seq<u8>, span: Span, custom_label: Option<Seq<char>> },
    InvalidRegister { register: Seq<u8>, span: Span, custom_label: Option<Seq<char>> },
    UnexpectedCharacter { character: u8, span: Span, custom_label: Option<Seq<char>> },
    UnterminatedStringLiteral { span: Span, custom_label: Option<Seq<char>> },
    InvalidGlobalDecl { span: Span, custom_label: Option<Seq<char>> },
    InvalidExternDecl { span: Span, custom_label: Option<Seq<char>> },
    InvalidRodataDecl { span: Span, custom_label: Option<Seq<char>> },
    InvalidEquDecl { span: Span, custom_label: Option<Seq<char>> },
    InvalidDirective { directive: Seq<u8>, span: Span, custom_label: Option<Seq<char>> },
    InvalidInstruction { instruction: Seq<u8>, span: Span, custom_label: Option<Seq<char>> },
    UnexpectedToken { token: Seq<u8>, span: Span, custom_label: Option<Seq<char>> },
    UndefinedLabel { label: Seq<u8>, span: Span, custom_label: Option<Seq<char>> },
}

/// The view of an optional label literal.
pub open spec fn label_view(l: Option<&'static str>) -> Option<Seq<char>> {
    match l {
        Some(s) => Some(s@),
        None => None,
    }
}

impl View for CompileError {
    type V = ErrorView;

    open spec fn view(&self) -> ErrorView {
        match self {
            CompileError::InvalidNumber { number, span, custom_label } => ErrorView::InvalidNumber {
                number: number@,
                span: *span,
                custom_label: label_view(*custom_label),
            },
            CompileError::InvalidRegister { register, span, custom_label } => ErrorView::InvalidRegister {
                register: register@,
                span: *span,
                custom_label: label_view(*custom_label),
            },
            CompileError::UnexpectedCharacter { character, span, custom_label } => ErrorView::UnexpectedCharacter {
                character: *character,
                span: *span,
                custom_label: label_view(*custom_label),
            },
            CompileError::UnterminatedStringLiteral { span, custom_label } => ErrorView::UnterminatedStringLiteral {
                span: *span,
                custom_label: label_view(*custom_label),
            },
            CompileError::InvalidGlobalDecl { span, custom_label } => ErrorView::InvalidGlobalDecl {
                span: *span,
                custom_label: label_view(*custom_label),
            },
            CompileError::InvalidExternDecl { span, custom_label } => ErrorView::InvalidExternDecl {
                span: *span,
                custom_label: label_view(*custom_label),
            },
            CompileError::InvalidRodataDecl { span, custom_label } => ErrorView::InvalidRodataDecl {
                span: *span,
                custom_label: label_view(*custom_label),
            },
            CompileError::InvalidEquDecl { span, custom_label } => ErrorView::InvalidEquDecl {
                span: *span,
                custom_label: label_view(*custom_label),
            },
            CompileError::InvalidDirective { directive, span, custom_label } => ErrorView::InvalidDirective {
                directive: directive@,
                span: *span,
                custom_label: label_view(*custom_label),
            },
            CompileError::InvalidInstruction { instruction, span, custom_label } => ErrorView::InvalidInstruction {
                instruction: instruction@,
                span: *span,
                custom_label: label_view(*custom_label),
            },
            CompileError::UnexpectedToken { token, span, custom_label } => ErrorView::UnexpectedToken {
                token: token@,
                span: *span,
                custom_label: label_view(*custom_label),
            },
            CompileError::UndefinedLabel { label, span, custom_label } => ErrorView::UndefinedLabel {
                label: label@,
                span: *span,
                custom_label: label_view(*custom_label),
            },
        }
    }
}

/// The views of a list of diagnostics, in order.
pub open spec fn error_views(s: Seq<CompileError>) -> Seq<ErrorView> {
    s.map_values(|e: CompileError| e@)
}

impl CompileError {
    /// The span of a diagnostic's view.
    pub open spec fn spec_span_of(v: ErrorView) -> Span {
        match v {
            ErrorView::InvalidNumber { span, .. } => span,
            ErrorView::InvalidRegister { span, .. } => span,
            ErrorView::UnexpectedCharacter { span, .. } => span,
            ErrorView::UnterminatedStringLiteral { span, .. } => span,
            ErrorView::InvalidGlobalDecl { span, .. } => span,
            ErrorView::InvalidExternDecl { span, .. } => span,
            ErrorView::InvalidRodataDecl { span, .. } => span,
            ErrorView::InvalidEquDecl { span, .. } => span,
            ErrorView::InvalidDirective { span, .. } => span,
            ErrorView::InvalidInstruction { span, .. } => span,
            ErrorView::UnexpectedToken { span, .. } => span,
            ErrorView::UndefinedLabel { span, .. } => span,
        }
    }

    /// The byte range the diagnostic points at.
    pub fn span(&self) -> (r: Span)
        ensures
            r == Self::spec_span_of(self@),
    {
        match self {
            CompileError::InvalidNumber { span, .. } => *span,
            CompileError::InvalidRegister { span, .. } => *span,
            CompileError::UnexpectedCharacter { span, .. } => *span,
            CompileError::UnterminatedStringLiteral { span, .. } => *span,
            CompileError::InvalidGlobalDecl { span, .. } => *span,
            CompileError::InvalidExternDecl { span, .. } => *span,
            CompileError::InvalidRodataDecl { span, .. } => *span,
            CompileError::InvalidEquDecl { span, .. } => *span,
            CompileError::InvalidDirective { span, .. } => *span,
            CompileError::InvalidInstruction { span, .. } => *span,
            CompileError::UnexpectedToken { span, .. } => *span,
            CompileError::UndefinedLabel { span, .. } => *span,
        }
    }

    /// The custom label a diagnostic's view carries, if any.
    pub open spec fn spec_custom_of(v: ErrorView) -> Option<Seq<char>> {
        match v {
            ErrorView::InvalidNumber { custom_label, .. } => custom_label,
            ErrorView::InvalidRegister { custom_label, .. } => custom_label,
            ErrorView::UnexpectedCharacter { custom_label, .. } => custom_label,
            ErrorView::UnterminatedStringLiteral { custom_label, .. } => custom_label,
            ErrorView::InvalidGlobalDecl { custom_label, .. } => custom_label,
            ErrorView::InvalidExternDecl { custom_label, .. } => custom_label,
            ErrorView::InvalidRodataDecl { custom_label, .. } => custom_label,
            ErrorView::InvalidEquDecl { custom_label, .. } => custom_label,
            ErrorView::InvalidDirective { custom_label, .. } => custom_label,
            ErrorView::InvalidInstruction { custom_label, .. } => custom_label,
            ErrorView::UnexpectedToken { custom_label, .. } => custom_label,
            ErrorView::UndefinedLabel { custom_label, .. } => custom_label,
        }
    }

    /// The default label of each error kind, shown when no custom label
    /// was attached.
    pub open spec fn spec_default_label(v: ErrorView) -> Seq<char> {
        match v {
            ErrorView::InvalidNumber { .. } => "Invalid number"@,
            ErrorView::InvalidRegister { .. } => "Invalid register"@,
            ErrorView::UnexpectedCharacter { .. } => "Unexpected character"@,
            ErrorView::UnterminatedStringLiteral { .. } => "Unterminated string literal"@,
            ErrorView::InvalidGlobalDecl { .. } => "Expected <identifier> for entry label"@,
            ErrorView::InvalidExternDecl { .. } => "Invalid extern declaration"@,
            ErrorView::InvalidRodataDecl { .. } => "Invalid rodata declaration"@,
            ErrorView::InvalidEquDecl { .. } => "Invalid equ declaration"@,
            ErrorView::InvalidDirective { .. } => "Invalid directive"@,
            ErrorView::InvalidInstruction { .. } => "Invalid instruction"@,
            ErrorView::UnexpectedToken { .. } => "Unexpected token"@,
            ErrorView::UndefinedLabel { .. } => "Undefined label"@,
        }
    }

    /// The label shown beside the span: the custom label when present,
    /// else the kind's default.
    pub open spec fn spec_label_of(v: ErrorView) -> Seq<char> {
        match Self::spec_custom_of(v) {
            Some(l) => l,
            None => Self::spec_default_label(v),
        }
    }

    /// The custom label, if one was attached.
    pub fn custom_label(&self) -> (r: Option<&'static str>)
        ensures
            crate::errors::label_view(r) == Self::spec_custom_of(self@),
    {
        match self {
            CompileError::InvalidNumber { custom_label, .. } => *custom_label,
            CompileError::InvalidRegister { custom_label, .. } => *custom_label,
            CompileError::UnexpectedCharacter { custom_label, .. } => *custom_label,
            CompileError::UnterminatedStringLiteral { custom_label, .. } => *custom_label,
            CompileError::InvalidGlobalDecl { custom_label, .. } => *custom_label,
            CompileError::InvalidExternDecl { custom_label, .. } => *custom_label,
            CompileError::InvalidRodataDecl { custom_label, .. } => *custom_label,
            CompileError::InvalidEquDecl { custom_label, .. } => *custom_label,
            CompileError::InvalidDirective { custom_label, .. } => *custom_label,
            CompileError::InvalidInstruction { custom_label, .. } => *custom_label,
            CompileError::UnexpectedToken { custom_label, .. } => *custom_label,
            CompileError::UndefinedLabel { custom_label, .. } => *custom_label,
        }
    }

    /// The label shown beside the span: the custom label when present,
    /// else a default per error kind.
    pub fn label(&self) -> (r: &'static str)
        ensures
            r@ == Self::spec_label_of(self@),
    {
        match self.custom_label() {
            Some(l) => l,
            None => match self {
                CompileError::InvalidNumber { .. } => "Invalid number",
                CompileError::InvalidRegister { .. } => "Invalid register",
                CompileError::UnexpectedCharacter { .. } => "Unexpected character",
                CompileError::UnterminatedStringLiteral { .. } => "Unterminated string literal",
                CompileError::InvalidGlobalDecl { .. } => "Expected <identifier> for entry label",
                CompileError::InvalidExternDecl { .. } => "Invalid extern declaration",
                CompileError::InvalidRodataDecl { .. } => "Invalid rodata declaration",
                CompileError::InvalidEquDecl { .. } => "Invalid equ declaration",
                CompileError::InvalidDirective { .. } => "Invalid directive",
                CompileError::InvalidInstruction { .. } => "Invalid instruction",
                CompileError::UnexpectedToken { .. } => "Unexpected token",
                CompileError::UndefinedLabel { .. } => "Undefined label",
            },
        }
    }
}

} // verus!
