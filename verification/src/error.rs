//! Why a declaration was not translated.

use vstd::prelude::*;
use vstd::string::*;
use crate::ast::Span;

verus! {

/// How severe an error is.
#[derive(Debug, Clone, Copy, PartialEq, Eq, Structural)]
pub enum Level {
    /// The caller or this library broke one of its own rules.
    Bug,
    /// Nothing of the run can be used.
    Fatal,
    /// One declaration cannot be translated.
    Error,
}

/// What went wrong.
#[derive(Debug, Clone, Copy, PartialEq, Eq, Structural)]
pub enum ErrorKind {
    /// A declaration, or a function pointer type, has parameters of its own.
    GenericNotRepresentable,
    /// An enum variant carries data.
    NonUnitVariant,
    /// A struct has neither named fields nor exactly one unnamed field.
    UnrepresentableAggregate,
    /// A function or function pointer never returns.
    DivergingAcrossBoundary,
    /// A type of a shape that C has nothing for.
    UnsupportedType,
    /// A type in a module other than the two whose types C knows.
    UnsupportedModulePath,
    /// A function pointer without a name to declare it under.
    UnnamedFunctionPointer,
    /// The headers cannot be put in an order in which each comes after what it needs.
    DependencyCycle,
    /// A declaration was handed to the translation of another kind of declaration.
    WrongDeclaration,
    /// A path without a segment.
    EmptyPath,
}

/// An error, with the place in the source it is about where there is one.
#[derive(Debug, PartialEq)]
pub struct Error {
    pub level: Level,
    pub span: Option<Span>,
    pub kind: ErrorKind,
    pub message: String,
}

/// Mathematical model of an [`Error`].
pub struct ErrorView {
    pub level: Level,
    pub span: Option<Span>,
    pub kind: ErrorKind,
    pub message: Seq<char>,
}

impl View for Error {
    type V = ErrorView;

    open spec fn view(&self) -> ErrorView {
        ErrorView { level: self.level, span: self.span, kind: self.kind, message: self.message@ }
    }
}

impl ErrorKind {
    /// The severity of an error of this kind.
    pub open spec fn level(self) -> Level {
        match self {
            ErrorKind::WrongDeclaration | ErrorKind::EmptyPath => Level::Bug,
            ErrorKind::DependencyCycle => Level::Fatal,
            _ => Level::Error,
        }
    }

    /// The severity of an error of this kind.
    pub fn severity(&self) -> (level: Level)
        ensures
            level == self.level(),
    {
        match self {
            ErrorKind::WrongDeclaration | ErrorKind::EmptyPath => Level::Bug,
            ErrorKind::DependencyCycle => Level::Fatal,
            _ => Level::Error,
        }
    }
}

/// The error of the given kind at the given place.
pub open spec fn failure(kind: ErrorKind, span: Option<Span>, message: Seq<char>) -> ErrorView {
    ErrorView { level: kind.level(), span, kind, message }
}

impl Error {
    /// The error of the given kind at the given place.
    pub fn new(kind: ErrorKind, span: Option<Span>, message: &str) -> (e: Error)
        ensures
            e@ == failure(kind, span, message@),
    {
        Error { level: kind.severity(), span, kind, message: String::from_str(message) }
    }
}

/// Whether the outcome `r` of a computation is the one that `expected` describes.
pub open spec fn agrees<T: View>(r: Result<T, Error>, expected: Result<T::V, ErrorView>) -> bool {
    match expected {
        Ok(v) => r matches Ok(x) && x@ == v,
        Err(e) => r matches Err(x) && x@ == e,
    }
}

} // verus!
