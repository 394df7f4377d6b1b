//! Node values: the closed variant set a live document can hold.
//!
//! Scalars store plain data; floating-point scalars and vector components
//! store the IEEE bit pattern, which this crate only ever moves and compares,
//! never interprets.  Structural values (arrays, classes, enum variants with
//! payloads) carry a `(node_start, node_count)` child range into the owning
//! document's node arena.  Code spans (functions, constants, variable
//! declarations) carry a token range and a scope range and are inert payload.

use vstd::prelude::*;
use crate::id::{Id, IdPack, LiveTypeId, MultiPack, TokenId};

verus! {

#[derive(Clone, Copy, PartialEq, Eq, Structural, Debug)]
pub enum LiveValue {
    /// A string by range into the owning document's string pool.
    String { string_start: usize, string_count: usize },
    Bool(bool),
    Int(i64),
    /// A 64-bit float, stored as its bit pattern.
    Float(u64),
    /// A packed RGBA color.
    Color(u32),
    /// A two-component vector of 32-bit floats, stored as bit patterns.
    Vec2 { x: u32, y: u32 },
    /// A three-component vector of 32-bit floats, stored as bit patterns.
    Vec3 { x: u32, y: u32, z: u32 },
    /// An opaque runtime type identity.
    LiveType(LiveTypeId),
    /// A reference value: identifier, dotted path, or resolved pointer.
    MultiPack(MultiPack),
    /// An enum variant without payload; `base` names the enum it belongs to.
    BareEnum { base: MultiPack, variant: Id },
    /// An array of child nodes.
    Array { node_start: usize, node_count: usize },
    /// An enum variant with positional payload nodes.
    TupleEnum { base: MultiPack, variant: Id, node_start: usize, node_count: usize },
    /// An enum variant with named payload nodes.
    NamedEnum { base: MultiPack, variant: Id, node_start: usize, node_count: usize },
    /// A class: `class` refers to its base (`Empty` for a bare class), the
    /// range holds its member nodes.
    Class { class: MultiPack, node_start: usize, node_count: usize },
    /// An inline function body: a token range plus the scope bindings
    /// visible at that point.
    Fn { token_start: usize, token_count: usize, scope_start: usize, scope_count: u32 },
    /// An inline constant expression.
    Const { token_start: usize, token_count: usize, scope_start: usize, scope_count: u32 },
    /// A forward variable/uniform declaration: a placeholder that a later
    /// definition of any value kind may replace.
    VarDef { token_start: usize, token_count: usize, scope_start: usize, scope_count: u32 },
    /// An import record, consumed by scope resolution only.
    Use { crate_id: Id, module_id: Id, object_id: Id },
}

impl LiveValue {
    /// The value kind: overriding a property must keep this unchanged,
    /// unless the overridden node is a `VarDef` placeholder.
    pub open spec fn kind_spec(self) -> int {
        match self {
            LiveValue::String { .. } => 0,
            LiveValue::Bool(..) => 1,
            LiveValue::Int(..) => 2,
            LiveValue::Float(..) => 3,
            LiveValue::Color(..) => 4,
            LiveValue::Vec2 { .. } => 5,
            LiveValue::Vec3 { .. } => 6,
            LiveValue::LiveType(..) => 7,
            LiveValue::MultiPack(..) => 8,
            LiveValue::BareEnum { .. } => 9,
            LiveValue::Array { .. } => 10,
            LiveValue::TupleEnum { .. } => 11,
            LiveValue::NamedEnum { .. } => 12,
            LiveValue::Class { .. } => 13,
            LiveValue::Fn { .. } => 14,
            LiveValue::Const { .. } => 15,
            LiveValue::VarDef { .. } => 16,
            LiveValue::Use { .. } => 17,
        }
    }

    pub fn kind(&self) -> (r: u32)
        ensures
            r == self.kind_spec(),
    {
        match self {
            LiveValue::String { .. } => 0,
            LiveValue::Bool(..) => 1,
            LiveValue::Int(..) => 2,
            LiveValue::Float(..) => 3,
            LiveValue::Color(..) => 4,
            LiveValue::Vec2 { .. } => 5,
            LiveValue::Vec3 { .. } => 6,
            LiveValue::LiveType(..) => 7,
            LiveValue::MultiPack(..) => 8,
            LiveValue::BareEnum { .. } => 9,
            LiveValue::Array { .. } => 10,
            LiveValue::TupleEnum { .. } => 11,
            LiveValue::NamedEnum { .. } => 12,
            LiveValue::Class { .. } => 13,
            LiveValue::Fn { .. } => 14,
            LiveValue::Const { .. } => 15,
            LiveValue::VarDef { .. } => 16,
            LiveValue::Use { .. } => 17,
        }
    }

    pub open spec fn same_kind_spec(self, other: LiveValue) -> bool {
        self.kind_spec() == other.kind_spec()
    }

    pub fn same_kind(&self, other: &LiveValue) -> (r: bool)
        ensures
            r == self.same_kind_spec(*other),
    {
        self.kind() == other.kind()
    }

    pub open spec fn is_var_def_spec(self) -> bool {
        self is VarDef
    }

    pub fn is_var_def(&self) -> (r: bool)
        ensures
            r == self.is_var_def_spec(),
    {
        matches!(self, LiveValue::VarDef { .. })
    }

    pub open spec fn is_class_spec(self) -> bool {
        self is Class
    }

    pub fn is_class(&self) -> (r: bool)
        ensures
            r == self.is_class_spec(),
    {
        matches!(self, LiveValue::Class { .. })
    }

    /// Whether this value owns a child node range.
    pub open spec fn is_structural_spec(self) -> bool {
        ||| self is Array
        ||| self is TupleEnum
        ||| self is NamedEnum
        ||| self is Class
    }

    pub fn is_structural(&self) -> (r: bool)
        ensures
            r == self.is_structural_spec(),
    {
        matches!(
            self,
            LiveValue::Array { .. } | LiveValue::TupleEnum { .. } | LiveValue::NamedEnum { .. }
                | LiveValue::Class { .. }
        )
    }

    /// The child range of a structural value, `(0, 0)` otherwise.
    pub open spec fn child_range_spec(self) -> (int, int) {
        match self {
            LiveValue::Array { node_start, node_count } => (node_start as int, node_count as int),
            LiveValue::TupleEnum { node_start, node_count, .. } => (
                node_start as int,
                node_count as int,
            ),
            LiveValue::NamedEnum { node_start, node_count, .. } => (
                node_start as int,
                node_count as int,
            ),
            LiveValue::Class { node_start, node_count, .. } => (
                node_start as int,
                node_count as int,
            ),
            _ => (0, 0),
        }
    }

    pub fn child_range(&self) -> (r: (usize, usize))
        ensures
            (r.0 as int, r.1 as int) == self.child_range_spec(),
    {
        match self {
            LiveValue::Array { node_start, node_count } => (*node_start, *node_count),
            LiveValue::TupleEnum { node_start, node_count, .. } => (*node_start, *node_count),
            LiveValue::NamedEnum { node_start, node_count, .. } => (*node_start, *node_count),
            LiveValue::Class { node_start, node_count, .. } => (*node_start, *node_count),
            _ => (0, 0),
        }
    }

    /// The same value with its child range replaced; non-structural values
    /// are returned unchanged.
    pub fn with_child_range(&self, start: usize, count: usize) -> (r: LiveValue)
        ensures
            r == self.with_child_range_spec(start as int, count as int),
    {
        match self {
            LiveValue::Array { .. } => LiveValue::Array { node_start: start, node_count: count },
            LiveValue::TupleEnum { base, variant, .. } => LiveValue::TupleEnum {
                base: *base,
                variant: *variant,
                node_start: start,
                node_count: count,
            },
            LiveValue::NamedEnum { base, variant, .. } => LiveValue::NamedEnum {
                base: *base,
                variant: *variant,
                node_start: start,
                node_count: count,
            },
            LiveValue::Class { class, .. } => LiveValue::Class {
                class: *class,
                node_start: start,
                node_count: count,
            },
            _ => *self,
        }
    }

    pub open spec fn with_child_range_spec(self, start: int, count: int) -> LiveValue {
        match self {
            LiveValue::Array { .. } => LiveValue::Array {
                node_start: start as usize,
                node_count: count as usize,
            },
            LiveValue::TupleEnum { base, variant, .. } => LiveValue::TupleEnum {
                base,
                variant,
                node_start: start as usize,
                node_count: count as usize,
            },
            LiveValue::NamedEnum { base, variant, .. } => LiveValue::NamedEnum {
                base,
                variant,
                node_start: start as usize,
                node_count: count as usize,
            },
            LiveValue::Class { class, .. } => LiveValue::Class {
                class,
                node_start: start as usize,
                node_count: count as usize,
            },
            _ => self,
        }
    }
}

/// One entry in a document's flattened node arena.
#[derive(Clone, Copy, PartialEq, Eq, Structural, Debug)]
pub struct LiveNode {
    pub id: IdPack,
    pub token_id: TokenId,
    pub value: LiveValue,
}

} // verus!
