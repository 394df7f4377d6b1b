//! The apply/update protocol: the interface runtime objects implement to
//! pull their field values out of a resolved document, either one changed
//! pointer at a time (`live_update`) or by replaying a generated value
//! stream (`apply`).
//!
//! Value-kind mismatches are never errors here: an implementation skips what
//! it does not recognize, favoring availability over strictness during hot
//! reload.

use vstd::prelude::*;
use crate::cx::Cx;
use crate::gen::{skip_value, GenNode, GenValue};
use crate::id::{Id, LivePtr, LiveTypeId};

verus! {

/// Turns a runtime value back into a generated value, for serializing live
/// state.
pub trait ToGenValue {
    fn to_gen_value(&self) -> GenValue;
}

/// A runtime type that can construct itself from the live context and
/// register what it needs there.
pub trait LiveNew: Sized {
    fn live_new(cx: &mut Cx) -> Self;

    fn live_type() -> LiveTypeId;

    fn live_register(cx: &mut Cx);
}

/// Per-field synchronization of a composite runtime object.
pub trait LiveComponentValue {
    /// Re-reads the field named `id` from the node at `ptr`.
    fn live_update_value(&mut self, cx: &mut Cx, id: Id, ptr: LivePtr);

    /// Consumes the value at `index` of the stream into the matching field,
    /// advancing `index` past it.
    fn apply_value(&mut self, cx: &mut Cx, index: &mut usize, nodes: &[GenNode]);
}

/// A runtime object that synchronizes itself against live documents.
pub trait LiveComponent {
    /// Re-reads every live field from the resolved node at `ptr`.
    fn live_update(&mut self, cx: &mut Cx, ptr: LivePtr);

    /// Consumes one value (or group) of the stream starting at `index`,
    /// advancing `index` by exactly what was consumed.
    fn apply_index(&mut self, cx: &mut Cx, index: &mut usize, nodes: &[GenNode]);

    /// Replays a whole generated stream; a stream too short to hold a group
    /// is ignored.
    fn apply(&mut self, cx: &mut Cx, nodes: &[GenNode]) {
        if nodes.len() > 2 {
            let mut index: usize = 0;
            self.apply_index(cx, &mut index, nodes);
        }
    }
}

/// A drawable runtime object: applying a stream and redrawing go together.
pub trait CanvasComponent: LiveComponent {
    fn draw(&mut self, cx: &mut Cx);

    fn apply_draw(&mut self, cx: &mut Cx, nodes: &[GenNode]) {
        self.apply(cx, nodes);
        self.draw(cx);
    }
}

/// Hooks around the update/apply cycle; every default does nothing, and an
/// unknown value in a stream is skipped rather than refused.
pub trait LiveComponentHooks {
    fn live_update_value_unknown(&mut self, _cx: &mut Cx, _id: Id, _ptr: LivePtr) {
    }

    fn apply_value_unknown(&mut self, _cx: &mut Cx, index: &mut usize, nodes: &[GenNode]) {
        skip_value(nodes, index);
    }

    fn before_live_update(&mut self, _cx: &mut Cx, _live_ptr: LivePtr) {
    }

    fn after_live_update(&mut self, _cx: &mut Cx, _live_ptr: LivePtr) {
    }

    fn before_apply_index(&mut self, _cx: &mut Cx, _index: usize, _nodes: &[GenNode]) {
    }

    fn after_apply_index(&mut self, _cx: &mut Cx, _index: usize, _nodes: &[GenNode]) {
    }
}

/// How a component field takes part in live updates.
#[derive(Clone, Copy, PartialEq, Eq, Structural, Debug)]
pub enum LiveFieldKind {
    Local,
    Live,
}

/// One live-updatable field of a component.
pub struct LiveField {
    pub id: Id,
    pub live_type: Option<LiveTypeId>,
    pub kind: LiveFieldKind,
}

/// A long-lived binding a runtime object holds into the resolved documents.
pub struct LiveBinding {
    pub live_ptr: Option<LivePtr>,
}

impl Default for LiveBinding {
    /// A binding starts unbound.
    fn default() -> (r: Self)
        ensures
            r.live_ptr is None,
    {
        LiveBinding { live_ptr: None }
    }
}

} // verus!
