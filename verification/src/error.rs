//! Structured expansion and resolution errors.
//!
//! Every failure is recoverable at the granularity of one source document:
//! expansion collects all errors found in a document and leaves previously
//! published documents untouched.

use vstd::prelude::*;
use crate::id::Span;

verus! {

#[derive(Clone, Copy, PartialEq, Eq, Structural, Debug)]
pub enum LiveErrorKind {
    /// A bare identifier had no binding in scope and no match at the root.
    UnresolvedIdentifier,
    /// A dotted path segment matched no sibling node.
    NoSuchProperty,
    /// A non-final path segment resolved to a value that is not a class.
    NotAnObjectPath,
    /// An override tried to change a property's value kind, and the existing
    /// node was not a placeholder declaration.
    IncompatibleOverride,
    /// A class's base chain reached a class already being expanded.
    InheritanceCycle,
    /// A local pointer lay outside the addressed document's node arena.
    DanglingPointer,
    /// A cross-document pointer named a source unit the registry lacks.
    UnknownDocument,
    /// A property write descended through a value that is not a class.
    CannotSetNonObjectPath,
}

/// An error together with the source span of the offending node, resolved
/// through the token store where possible.
#[derive(Clone, Copy, PartialEq, Eq, Structural, Debug)]
pub struct LiveError {
    pub kind: LiveErrorKind,
    pub span: Span,
}

impl LiveError {
    /// A short human-readable description of the error kind.
    pub fn message(&self) -> (r: &'static str)
        ensures
            r@ == self.message_spec(),
    {
        match self.kind {
            LiveErrorKind::UnresolvedIdentifier => "unresolved identifier",
            LiveErrorKind::NoSuchProperty => "no such property",
            LiveErrorKind::NotAnObjectPath => "not an object path",
            LiveErrorKind::IncompatibleOverride => "cannot inherit with different value kind",
            LiveErrorKind::InheritanceCycle => "class inheritance cycle",
            LiveErrorKind::DanglingPointer => "dangling node pointer",
            LiveErrorKind::UnknownDocument => "unknown document",
            LiveErrorKind::CannotSetNonObjectPath => "cannot set property through a non-object",
        }
    }

    pub open spec fn message_spec(self) -> Seq<char> {
        match self.kind {
            LiveErrorKind::UnresolvedIdentifier => "unresolved identifier"@,
            LiveErrorKind::NoSuchProperty => "no such property"@,
            LiveErrorKind::NotAnObjectPath => "not an object path"@,
            LiveErrorKind::IncompatibleOverride => "cannot inherit with different value kind"@,
            LiveErrorKind::InheritanceCycle => "class inheritance cycle"@,
            LiveErrorKind::DanglingPointer => "dangling node pointer"@,
            LiveErrorKind::UnknownDocument => "unknown document"@,
            LiveErrorKind::CannotSetNonObjectPath => "cannot set property through a non-object"@,
        }
    }
}

} // verus!
