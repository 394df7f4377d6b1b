//! Self-contained generated value streams: a flattened list of values,
//! independent of any document, that runtime objects consume through the
//! apply protocol.
//!
//! A consumer that meets a value kind it does not recognize skips it —
//! `skip_value` advances the cursor past one whole value, nested group
//! included — rather than failing: malformed or newer input degrades
//! gracefully.

use vstd::prelude::*;
use crate::id::Id;

verus! {

/// One generated value.  Floating-point payloads are carried as IEEE bit
/// patterns; a group of nested values stands between `Open` and its matching
/// `Close`.
#[derive(Clone, PartialEq, Eq, Debug)]
pub enum GenValue {
    Empty,
    String(String),
    Bool(bool),
    Int(i64),
    /// A 64-bit float as its bit pattern.
    Float(u64),
    Color(u32),
    /// A two-component vector of 32-bit floats, as bit patterns.
    Vec2 { x: u32, y: u32 },
    /// A three-component vector of 32-bit floats, as bit patterns.
    Vec3 { x: u32, y: u32, z: u32 },
    Id(Id),
    /// Opens a nested group of values.
    Open,
    /// Closes the innermost open group.
    Close,
}

/// One entry of a generated stream.
#[derive(Clone, PartialEq, Eq, Debug)]
pub struct GenNode {
    pub id: Id,
    pub value: GenValue,
}

/// Where a group scan starting at `j` with `depth` groups still open ends:
/// the position just past the `Close` that balances them, or the end of the
/// stream if they never balance.
pub open spec fn group_end_spec(s: Seq<GenNode>, j: int, depth: int) -> int
    decreases s.len() - j,
        when 0 <= j
{
    if j >= s.len() || depth <= 0 {
        j
    } else {
        let d2 = match s[j].value {
            GenValue::Open => if depth < usize::MAX { depth + 1 } else { depth },
            GenValue::Close => depth - 1,
            _ => depth,
        };
        group_end_spec(s, j + 1, d2)
    }
}

/// Where the cursor lands after skipping one value at `i`: one entry for a
/// plain value, just past the matching `Close` for an `Open`, the end of
/// the stream for a cursor out of range.
pub open spec fn skip_value_spec(s: Seq<GenNode>, i: int) -> int {
    if !(0 <= i < s.len()) {
        s.len() as int
    } else if s[i].value is Open {
        group_end_spec(s, i + 1, 1)
    } else {
        i + 1
    }
}

/// Advances the cursor past exactly one value: one entry for a plain value,
/// a whole balanced group — through the `Close` matching the `Open` — for a
/// group.  A cursor at or past the end is clamped to the end; a group left
/// unclosed runs to the end of the stream.
pub fn skip_value(nodes: &[GenNode], index: &mut usize)
    ensures
        *final(index) == skip_value_spec(nodes@, *old(index) as int),
        *final(index) <= nodes@.len(),
        *old(index) < nodes@.len() ==> *old(index) < *final(index),
{
    let n = nodes.len();
    let i0 = *index;
    if i0 >= n {
        *index = n;
        return;
    }
    match nodes[i0].value {
        GenValue::Open => {
            let mut i = i0 + 1;
            let mut depth: usize = 1;
            while i < n && depth > 0
                invariant
                    i0 < i <= n,
                    group_end_spec(nodes@, i0 + 1, 1) == group_end_spec(
                        nodes@,
                        i as int,
                        depth as int,
                    ),
                decreases n - i,
            {
                match nodes[i].value {
                    GenValue::Open => {
                        if depth < usize::MAX {
                            depth = depth + 1;
                        }
                    },
                    GenValue::Close => {
                        depth = depth - 1;
                    },
                    _ => {},
                }
                i = i + 1;
            }
            *index = i;
        },
        _ => {
            *index = i0 + 1;
        },
    }
}

} // verus!
