//! A declarative "live" document model and its expansion engine.
//!
//! A live document is one compiled source unit: a flattened node arena, an
//! interned string pool, the token slice it was parsed from, and the scope
//! bindings visible while parsing.  Class inheritance is resolved by an
//! expansion pass that merges a class's declaration with its base class's
//! already-expanded nodes, across documents where needed, and reports
//! structural errors (incompatible overrides, unresolved names, inheritance
//! cycles) without corrupting previously published documents.

#![verifier::loop_isolation(false)]

pub mod id;
pub mod value;
pub mod error;
pub mod document;
pub mod expand;
pub mod ext;
pub mod registry;
pub mod cx;
pub mod gen;
pub mod component;
