//! Diagnostics reported by the stages of the compiler.

use vstd::prelude::*;

verus! {

/// One diagnostic, tagged with the source line where it applies.
#[derive(Debug, Clone, PartialEq, Eq)]
pub enum BasmError {
    /// The working directory could not be determined.
    WorkingDirectoryNotFound,
    /// The source path could not be canonicalized.
    CannotCanonicalizePath { path: String },
    /// The source file could not be read.
    CannotReadSource { path: String },
    /// Both lexed and parsed output were asked for.
    UndeterminedOutputType,
    /// A command-line argument that is not a known flag.
    UnknownTerminalArgument { arg: String },
    /// A `"` literal reached the end of its line.
    UnclosedStringLiteral { line: u32 },
    /// A `[` header reached the end of its line.
    UnclosedTargetHeader { line: u32 },
    /// A `{` header reached the end of its line.
    UnclosedMonitorHeader { line: u32 },
    /// A symbol that is no keyword, literal or punctuator.
    UnknownSymbol { line: u32, data: String },
    /// A token that cannot stand where it stands at the top level.
    UnexpectedTokenInTopLevel { line: u32, data: String },
}

/// A diagnostic in the abstract, with texts as character sequences.
pub enum ErrorView {
    WorkingDirectoryNotFound,
    CannotCanonicalizePath(Seq<char>),
    CannotReadSource(Seq<char>),
    UndeterminedOutputType,
    UnknownTerminalArgument(Seq<char>),
    UnclosedStringLiteral(nat),
    UnclosedTargetHeader(nat),
    UnclosedMonitorHeader(nat),
    UnknownSymbol(nat, Seq<char>),
    UnexpectedTokenInTopLevel(nat, Seq<char>),
}

impl View for BasmError {
    type V = ErrorView;

    open spec fn view(&self) -> ErrorView {
        match self {
            BasmError::WorkingDirectoryNotFound => ErrorView::WorkingDirectoryNotFound,
            BasmError::CannotCanonicalizePath { path } => ErrorView::CannotCanonicalizePath(path@),
            BasmError::CannotReadSource { path } => ErrorView::CannotReadSource(path@),
            BasmError::UndeterminedOutputType => ErrorView::UndeterminedOutputType,
            BasmError::UnknownTerminalArgument { arg } => ErrorView::UnknownTerminalArgument(arg@),
            BasmError::UnclosedStringLiteral { line } => ErrorView::UnclosedStringLiteral(*line as nat),
            BasmError::UnclosedTargetHeader { line } => ErrorView::UnclosedTargetHeader(*line as nat),
            BasmError::UnclosedMonitorHeader { line } => ErrorView::UnclosedMonitorHeader(*line as nat),
            BasmError::UnknownSymbol { line, data } => ErrorView::UnknownSymbol(*line as nat, data@),
            BasmError::UnexpectedTokenInTopLevel { line, data } => ErrorView::UnexpectedTokenInTopLevel(
                *line as nat,
                data@,
            ),
        }
    }
}

/// The views of a sequence of diagnostics.
pub open spec fn errors_view(v: Seq<BasmError>) -> Seq<ErrorView> {
    v.map_values(|e: BasmError| e@)
}

} // verus!
