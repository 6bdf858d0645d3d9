//! Errors of code generation.
use vstd::prelude::*;

verus! {

/// What went wrong during code generation.
#[derive(Debug, PartialEq, Eq)]
pub enum CodegenErrorKind {
    /// No contract tree was given.
    MissingAst,
    /// No macro of this name is defined.
    MissingMacroDefinition(String),
    /// No `CONSTRUCTOR` macro is defined.
    MissingConstructor,
    /// A referenced constant is not defined.
    MissingConstantDefinition,
    /// A free storage pointer was reached before slots were assigned.
    StoragePointersNotDerived,
    /// A macro body holds a statement that cannot be expanded.
    InvalidMacroStatement,
    /// The expansion of an invoked macro failed, with this error.
    FailedMacroRecursion(Box<CodegenErrorKind>),
    /// A jump's label is declared nowhere in the expansion.
    UnmatchedJumpLabel,
    /// The bytecode outgrew the range that a two-byte jump destination can address.
    BytecodeTooLarge,
    /// Macro invocations nest deeper than the expander allows.
    RecursionLimit,
    /// Writing the artifact failed.
    IOError(String),
}

/// The mathematical value of an error kind.
pub enum ErrorView {
    MissingAst,
    MissingMacroDefinition(Seq<char>),
    MissingConstructor,
    MissingConstantDefinition,
    StoragePointersNotDerived,
    InvalidMacroStatement,
    FailedMacroRecursion(Box<ErrorView>),
    UnmatchedJumpLabel,
    BytecodeTooLarge,
    RecursionLimit,
    IOError(Seq<char>),
}

/// The value of an error kind.
pub open spec fn kind_view(k: &CodegenErrorKind) -> ErrorView
    decreases k,
{
    match k {
        CodegenErrorKind::MissingAst => ErrorView::MissingAst,
        CodegenErrorKind::MissingMacroDefinition(s) => ErrorView::MissingMacroDefinition(s@),
        CodegenErrorKind::MissingConstructor => ErrorView::MissingConstructor,
        CodegenErrorKind::MissingConstantDefinition => ErrorView::MissingConstantDefinition,
        CodegenErrorKind::StoragePointersNotDerived => ErrorView::StoragePointersNotDerived,
        CodegenErrorKind::InvalidMacroStatement => ErrorView::InvalidMacroStatement,
        CodegenErrorKind::FailedMacroRecursion(inner) => ErrorView::FailedMacroRecursion(
            Box::new(kind_view(inner)),
        ),
        CodegenErrorKind::UnmatchedJumpLabel => ErrorView::UnmatchedJumpLabel,
        CodegenErrorKind::BytecodeTooLarge => ErrorView::BytecodeTooLarge,
        CodegenErrorKind::RecursionLimit => ErrorView::RecursionLimit,
        CodegenErrorKind::IOError(s) => ErrorView::IOError(s@),
    }
}

impl View for CodegenErrorKind {
    type V = ErrorView;

    open spec fn view(&self) -> ErrorView {
        kind_view(self)
    }
}

/// A source span, in bytes.
#[derive(Debug, PartialEq, Eq)]
pub struct Span {
    /// The first byte.
    pub start: usize,
    /// One past the last byte.
    pub end: usize,
}

/// A code generation error, with an optional span and offending token.
#[derive(Debug)]
pub struct CodegenError {
    /// What went wrong.
    pub kind: CodegenErrorKind,
    /// Where in the source, if known.
    pub span: Option<Span>,
    /// The offending token, if known.
    pub token: Option<String>,
}

impl View for CodegenError {
    type V = ErrorView;

    open spec fn view(&self) -> ErrorView {
        self.kind@
    }
}

impl CodegenError {
    /// An error of the given kind, with no span or token.
    pub fn new(kind: CodegenErrorKind) -> (r: CodegenError)
        ensures
            r.kind == kind,
            r@ == kind@,
            r.span is None,
            r.token is None,
    {
        CodegenError { kind, span: None, token: None }
    }
}

} // verus!
