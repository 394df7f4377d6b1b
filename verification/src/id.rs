//! Identifiers, pointers and source positions.
//!
//! A `LocalPtr` is an index into one document's node arena and is only
//! meaningful together with that document.  A `LivePtr` pairs a `FileId`
//! (the identity of a source unit) with a `LocalPtr` and is the only address
//! kind stored durably across documents.

use vstd::prelude::*;

verus! {

/// An interned identifier, as produced by the tokenizer.
#[derive(Clone, Copy, PartialEq, Eq, Structural, Debug, Hash)]
pub struct Id(pub u64);

impl Id {
    /// The empty identifier, used for anonymous nodes.
    pub fn empty() -> (r: Id)
        ensures
            r == (Id(0)),
    {
        Id(0)
    }

    pub open spec fn is_empty_spec(self) -> bool {
        self.0 == 0
    }

    pub fn is_empty(self) -> (r: bool)
        ensures
            r == self.is_empty_spec(),
    {
        self.0 == 0
    }
}

/// The identity of one registered source unit.
#[derive(Clone, Copy, PartialEq, Eq, Structural, Debug, Hash)]
pub struct FileId(pub u32);

impl FileId {
    pub fn to_index(self) -> (r: usize)
        ensures
            r == self.0 as usize,
    {
        self.0 as usize
    }

    pub fn index(self) -> (r: usize)
        ensures
            r == self.0 as usize,
    {
        self.0 as usize
    }
}

/// An index into one document's node arena.  Valid only together with the
/// identity of that document.
#[derive(Clone, Copy, PartialEq, Eq, Structural, Debug, Hash)]
pub struct LocalPtr(pub usize);

/// A durable cross-document node address: source unit plus local index.
/// Equality is structural.
#[derive(Clone, Copy, PartialEq, Eq, Structural, Debug, Hash)]
pub struct LivePtr {
    pub file_id: FileId,
    pub local_ptr: LocalPtr,
}

/// An externally registered runtime type identity.
#[derive(Clone, Copy, PartialEq, Eq, Structural, Debug, Hash)]
pub struct LiveTypeId(pub u64);

/// A token address: the source unit a token came from and its index in that
/// unit's token sequence.
#[derive(Clone, Copy, PartialEq, Eq, Structural, Debug, Hash)]
pub struct TokenId {
    pub file_id: FileId,
    pub token_index: u32,
}

impl TokenId {
    pub fn token_index(self) -> (r: u32)
        ensures
            r == self.token_index,
    {
        self.token_index
    }
}

/// A source span, resolved through the token store.
#[derive(Clone, Copy, PartialEq, Eq, Structural, Debug, Hash)]
pub struct Span {
    pub file_id: FileId,
    pub start: u32,
    pub end: u32,
}

impl Span {
    /// The span used where no source position can be recovered.
    pub fn unknown() -> (r: Span)
        ensures
            r == (Span { file_id: FileId(0), start: 0, end: 0 }),
    {
        Span { file_id: FileId(0), start: 0, end: 0 }
    }
}

/// One lexical token with its source span; the token payload itself is
/// opaque to this crate.
#[derive(Clone, Copy, PartialEq, Eq, Structural, Debug)]
pub struct TokenWithSpan {
    pub token: u64,
    pub span: Span,
}

/// A reference value: a bare identifier, a dotted identifier path (a range
/// into the owning document's multi-identifier pool), or a resolved
/// cross-document pointer.
#[derive(Clone, Copy, PartialEq, Eq, Structural, Debug)]
pub enum MultiPack {
    Empty,
    SingleId(Id),
    MultiId { index: usize, count: usize },
    LivePtr(LivePtr),
}

impl MultiPack {
    /// Whether this reference still needs name resolution.
    pub open spec fn is_unresolved_spec(self) -> bool {
        self is SingleId || self is MultiId
    }

    pub fn is_unresolved(&self) -> (r: bool)
        ensures
            r == self.is_unresolved_spec(),
    {
        match self {
            MultiPack::SingleId(_) => true,
            MultiPack::MultiId { .. } => true,
            _ => false,
        }
    }
}

/// A node's identifier as parsed: empty, a single identifier, or a dotted
/// path (a range into the owning document's multi-identifier pool).  After
/// expansion every node identifier is `Empty` or `Single`.
#[derive(Clone, Copy, PartialEq, Eq, Structural, Debug)]
pub enum IdPack {
    Empty,
    Single(Id),
    Multi { index: usize, count: usize },
}

impl IdPack {
    pub open spec fn is_single_or_empty_spec(self) -> bool {
        !(self is Multi)
    }

    pub fn is_single_or_empty(&self) -> (r: bool)
        ensures
            r == self.is_single_or_empty_spec(),
    {
        !matches!(self, IdPack::Multi { .. })
    }
}

} // verus!
