//! Control signals and structured errors.
//!
//! Every scan returns a control signal: `Empty` means the input ran out with
//! no unmatched closing directive, while `Else` and `Endif` name the
//! directive that ended the region. A non-empty signal in a context that
//! forbids one is a hard error.
//!
//! Errors are structured: a kind, the one-based line, and the name of the
//! source in which the error arose. Processing is fail-fast, so no partial
//! output accompanies an error.

use vstd::prelude::*;
use crate::text::line_of;

verus! {

/// How a scanned region ended.
#[derive(Clone, Copy, Debug, PartialEq, Eq, Structural)]
pub enum Signal {
    /// End of input, with no unmatched closing directive.
    Empty,
    /// The region was ended by an `#else` directive.
    Else,
    /// The region was ended by an `#endif` directive.
    Endif,
}

/// What went wrong, with the text the message would name.
#[derive(Debug, PartialEq, Eq)]
pub enum ErrKind {
    /// An identifier was required and the next character cannot start one.
    ExpectedIdent,
    /// A comma was required between list elements.
    ExpectedComma,
    /// A string literal was not closed before the input ran out.
    UnterminatedString,
    /// A block comment was not closed before the input ran out.
    UnterminatedComment,
    /// The input ran out inside a `#define` directive.
    EofInDefine,
    /// A backslash in a macro body was not followed by a line break.
    ExpectedNewline,
    /// The input ran out inside a macro argument.
    EofInMacroArg,
    /// The input ran out inside a macro argument list.
    UnexpectedEof,
    /// An `#else` region was not closed by `#endif`.
    ExpectedEndif,
    /// A directive word that the preprocessor does not know.
    UnknownDirective(Vec<char>),
    /// A function-like macro was invoked with the wrong number of arguments:
    /// the macro's name and the expected count.
    WrongArgCount(Vec<char>, usize),
    /// A closing directive appeared where none is permitted.
    UnexpectedSignal(Signal),
    /// A named source file is not available: the resolved path.
    FileNotFound(Vec<char>),
    /// The step budget of the run was exhausted.
    OutOfFuel,
}

/// Mathematical image of an error kind.
pub enum ErrKindV {
    ExpectedIdent,
    ExpectedComma,
    UnterminatedString,
    UnterminatedComment,
    EofInDefine,
    ExpectedNewline,
    EofInMacroArg,
    UnexpectedEof,
    ExpectedEndif,
    UnknownDirective(Seq<char>),
    WrongArgCount(Seq<char>, int),
    UnexpectedSignal(Signal),
    FileNotFound(Seq<char>),
    OutOfFuel,
}

impl View for ErrKind {
    type V = ErrKindV;

    open spec fn view(&self) -> ErrKindV {
        match self {
            ErrKind::ExpectedIdent => ErrKindV::ExpectedIdent,
            ErrKind::ExpectedComma => ErrKindV::ExpectedComma,
            ErrKind::UnterminatedString => ErrKindV::UnterminatedString,
            ErrKind::UnterminatedComment => ErrKindV::UnterminatedComment,
            ErrKind::EofInDefine => ErrKindV::EofInDefine,
            ErrKind::ExpectedNewline => ErrKindV::ExpectedNewline,
            ErrKind::EofInMacroArg => ErrKindV::EofInMacroArg,
            ErrKind::UnexpectedEof => ErrKindV::UnexpectedEof,
            ErrKind::ExpectedEndif => ErrKindV::ExpectedEndif,
            ErrKind::UnknownDirective(w) => ErrKindV::UnknownDirective(w@),
            ErrKind::WrongArgCount(n, c) => ErrKindV::WrongArgCount(n@, *c as int),
            ErrKind::UnexpectedSignal(sig) => ErrKindV::UnexpectedSignal(*sig),
            ErrKind::FileNotFound(p) => ErrKindV::FileNotFound(p@),
            ErrKind::OutOfFuel => ErrKindV::OutOfFuel,
        }
    }
}

/// A processing error: its kind, the one-based line at which it arose, and
/// the name of the source being scanned at that moment.
#[derive(Debug, PartialEq, Eq)]
pub struct PError {
    pub kind: ErrKind,
    pub line: u128,
    pub src_name: Vec<char>,
}

/// Mathematical image of an error.
pub struct ErrV {
    pub kind: ErrKindV,
    pub line: int,
    pub src_name: Seq<char>,
}

impl View for PError {
    type V = ErrV;

    open spec fn view(&self) -> ErrV {
        ErrV { kind: self.kind@, line: self.line as int, src_name: self.src_name@ }
    }
}

/// The error of kind `kind` raised at position `pos` of the source `s`
/// named `name`.
pub open spec fn err_at(s: Seq<char>, name: Seq<char>, pos: int, kind: ErrKindV) -> ErrV {
    ErrV { kind, line: line_of(s, pos), src_name: name }
}

/// Builds the error that the model places at `pos`.
pub fn build_err(s: &Vec<char>, name: &Vec<char>, pos: usize, kind: ErrKind) -> (e: PError)
    requires
        pos <= s.len(),
    ensures
        e@ == err_at(s@, name@, pos as int, kind@),
{
    let line = crate::text::line_at(s, pos);
    PError { kind, line, src_name: crate::text::copy_chars(name) }
}

} // verus!
