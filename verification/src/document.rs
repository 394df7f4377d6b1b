//! One compiled source unit: a flattened node arena, a string pool, the
//! token slice it was built from, and the scope bindings collected while
//! parsing.
//!
//! The arena keeps the tree flat: a structural node owns a
//! `(node_start, node_count)` child range into the same arena, and every
//! child range starts strictly after the owning node.  That ordering is the
//! document well-formedness invariant: it keeps every descent bounded and
//! rules out range cycles.

use vstd::prelude::*;
use crate::id::{FileId, Id, IdPack, LivePtr, LocalPtr, Span, TokenId, TokenWithSpan};
use crate::value::{LiveNode, LiveValue};
use crate::error::LiveErrorKind;

verus! {

/// The target of a scope binding: a node in the same document, or a node in
/// another already-compiled document.
#[derive(Clone, Copy, PartialEq, Eq, Structural, Debug)]
pub enum LiveScopeTarget {
    LocalPtr(LocalPtr),
    LivePtr(LivePtr),
}

impl LiveScopeTarget {
    /// The cross-document address of the target, completing a local target
    /// with the identity of the document it was found in.
    pub fn to_full_node_ptr(&self, file_id: FileId) -> (r: LivePtr)
        ensures
            r == self.to_full_node_ptr_spec(file_id),
    {
        match self {
            LiveScopeTarget::LocalPtr(local_ptr) => LivePtr { file_id, local_ptr: *local_ptr },
            LiveScopeTarget::LivePtr(live_ptr) => *live_ptr,
        }
    }

    pub open spec fn to_full_node_ptr_spec(self, file_id: FileId) -> LivePtr {
        match self {
            LiveScopeTarget::LocalPtr(local_ptr) => LivePtr { file_id, local_ptr },
            LiveScopeTarget::LivePtr(live_ptr) => live_ptr,
        }
    }
}

/// One identifier visible at a point of the source, with the node it stands
/// for.  Items are appended in source order, so within a range the latest
/// binding of an identifier shadows earlier ones.
#[derive(Clone, Copy, PartialEq, Eq, Structural, Debug)]
pub struct LiveScopeItem {
    pub id: Id,
    pub target: LiveScopeTarget,
}

pub struct LiveDocument {
    /// Whether the document still needs (re-)expansion.
    pub recompile: bool,
    pub nodes: Vec<LiveNode>,
    /// Flat pool for dotted identifier paths; `IdPack::Multi` and
    /// `MultiPack::MultiId` are ranges into it.
    pub multi_ids: Vec<Id>,
    /// Flat character pool shared by range.
    pub strings: Vec<char>,
    pub tokens: Vec<TokenWithSpan>,
    pub scopes: Vec<LiveScopeItem>,
}

/// The child range of the node at `i`, if it is structural, stays inside the
/// arena and, when non-empty, starts strictly after `i`.
pub open spec fn node_range_ok(nodes: Seq<LiveNode>, i: int) -> bool {
    nodes[i].value.is_structural_spec() ==> {
        let (start, count) = nodes[i].value.child_range_spec();
        start + count <= nodes.len() && (count > 0 ==> i < start)
    }
}

/// Arena well-formedness: every structural node's child range is in bounds
/// and starts after the node itself.
pub open spec fn nodes_wf(nodes: Seq<LiveNode>) -> bool {
    forall|i: int| 0 <= i < nodes.len() ==> #[trigger] node_range_ok(nodes, i)
}

/// The first sibling in `[start, start + count)` whose identifier is
/// exactly `id`.
pub open spec fn find_sibling_spec(nodes: Seq<LiveNode>, id: Id, start: int, count: int) -> Option<
    int,
>
    decreases count,
{
    if count <= 0 || !(0 <= start < nodes.len()) {
        None
    } else if nodes[start].id == IdPack::Single(id) {
        Some(start)
    } else {
        find_sibling_spec(nodes, id, start + 1, count - 1)
    }
}

/// Dotted-path resolution from segment `pi` over the sibling range
/// `[start, start + count)`: each non-final segment must name a class to
/// descend into; the final segment yields the matched node's index.
pub open spec fn scan_path_spec(
    nodes: Seq<LiveNode>,
    path: Seq<Id>,
    pi: int,
    start: int,
    count: int,
) -> Result<int, LiveErrorKind>
    decreases path.len() - pi,
{
    if pi < 0 || pi >= path.len() {
        Err(LiveErrorKind::NoSuchProperty)
    } else {
        match find_sibling_spec(nodes, path[pi], start, count) {
            Option::None => Err(LiveErrorKind::NoSuchProperty),
            Option::Some(j) => {
                if pi == path.len() - 1 {
                    Ok(j)
                } else {
                    match nodes[j].value {
                        LiveValue::Class { node_start, node_count, .. } => scan_path_spec(
                            nodes,
                            path,
                            pi + 1,
                            node_start as int,
                            node_count as int,
                        ),
                        _ => Err(LiveErrorKind::NotAnObjectPath),
                    }
                }
            },
        }
    }
}

/// Path resolution anchored at a node: the node at `start` must be a class,
/// and the path is resolved over its member range.
pub open spec fn scan_from_spec(nodes: Seq<LiveNode>, path: Seq<Id>, start: int) -> Result<
    int,
    LiveErrorKind,
> {
    if !(0 <= start < nodes.len()) {
        Err(LiveErrorKind::DanglingPointer)
    } else {
        match nodes[start].value {
            LiveValue::Class { node_start, node_count, .. } => scan_path_spec(
                nodes,
                path,
                0,
                node_start as int,
                node_count as int,
            ),
            _ => Err(LiveErrorKind::NotAnObjectPath),
        }
    }
}

/// The latest binding of `id` within the scope range `[start, start + count)`
/// (last-write-wins, supporting shadowing).
pub open spec fn find_binding_spec(
    scopes: Seq<LiveScopeItem>,
    id: Id,
    start: int,
    count: int,
) -> Option<LiveScopeTarget>
    decreases count,
{
    if count <= 0 || !(0 <= start + count - 1 < scopes.len()) {
        None
    } else if scopes[start + count - 1].id == id {
        Some(scopes[start + count - 1].target)
    } else {
        find_binding_spec(scopes, id, start, count - 1)
    }
}

/// A found sibling is the first one under that identifier.
pub proof fn lemma_find_sibling_found(nodes: Seq<LiveNode>, id: Id, start: int, count: int)
    requires
        find_sibling_spec(nodes, id, start, count) is Some,
    ensures
        ({
            let j = find_sibling_spec(nodes, id, start, count)->Some_0;
            &&& start <= j < start + count
            &&& 0 <= j < nodes.len()
            &&& nodes[j].id == IdPack::Single(id)
            &&& forall|k: int| start <= k < j ==> #[trigger] nodes[k].id != IdPack::Single(id)
        }),
    decreases count,
{
    if !(count <= 0 || !(0 <= start < nodes.len())) && !(nodes[start].id == IdPack::Single(id)) {
        lemma_find_sibling_found(nodes, id, start + 1, count - 1);
    }
}

/// Path resolution finds exactly the named property: when a dotted path
/// resolves over a sibling range, the address it yields carries the path's
/// final segment as its identifier.
pub proof fn lemma_scan_path_finds_property(
    nodes: Seq<LiveNode>,
    path: Seq<Id>,
    pi: int,
    start: int,
    count: int,
)
    requires
        0 <= pi < path.len(),
        scan_path_spec(nodes, path, pi, start, count) is Ok,
    ensures
        ({
            let j = scan_path_spec(nodes, path, pi, start, count)->Ok_0;
            &&& 0 <= j < nodes.len()
            &&& nodes[j].id == IdPack::Single(path[path.len() - 1])
        }),
    decreases path.len() - pi,
{
    match find_sibling_spec(nodes, path[pi], start, count) {
        Option::Some(j) => {
            lemma_find_sibling_found(nodes, path[pi], start, count);
            if pi < path.len() - 1 {
                match nodes[j].value {
                    LiveValue::Class { node_start, node_count, .. } => {
                        lemma_scan_path_finds_property(
                            nodes,
                            path,
                            pi + 1,
                            node_start as int,
                            node_count as int,
                        );
                    },
                    _ => {},
                }
            }
        },
        Option::None => {},
    }
}

/// Path resolution, anchored at a class node: a path of nested class names
/// ending in a property resolves to the address of exactly that property —
/// its node carries the final segment as identifier — and a path that fails
/// reports why, `NotAnObjectPath` when a non-final segment named a non-class
/// value.
pub proof fn lemma_object_path_resolves(nodes: Seq<LiveNode>, path: Seq<Id>, start: int)
    requires
        path.len() >= 1,
        scan_from_spec(nodes, path, start) is Ok,
    ensures
        ({
            let j = scan_from_spec(nodes, path, start)->Ok_0;
            &&& 0 <= j < nodes.len()
            &&& nodes[j].id == IdPack::Single(path[path.len() - 1])
        }),
{
    if 0 <= start < nodes.len() {
        match nodes[start].value {
            LiveValue::Class { node_start, node_count, .. } => {
                lemma_scan_path_finds_property(
                    nodes,
                    path,
                    0,
                    node_start as int,
                    node_count as int,
                );
            },
            _ => {},
        }
    }
}

impl LiveDocument {
    pub open spec fn wf(&self) -> bool {
        nodes_wf(self.nodes@)
    }

    /// A document is created empty and filled once by parsing.
    pub fn new() -> (r: Self)
        ensures
            r.recompile == true,
            r.nodes@.len() == 0,
            r.multi_ids@.len() == 0,
            r.strings@.len() == 0,
            r.tokens@.len() == 0,
            r.scopes@.len() == 0,
            r.wf(),
    {
        Self {
            recompile: true,
            nodes: Vec::new(),
            multi_ids: Vec::new(),
            strings: Vec::new(),
            tokens: Vec::new(),
            scopes: Vec::new(),
        }
    }

    /// The node a local pointer addresses.
    pub fn resolve_ptr(&self, local_ptr: LocalPtr) -> (r: &LiveNode)
        requires
            local_ptr.0 < self.nodes@.len(),
        ensures
            *r == self.nodes@[local_ptr.0 as int],
    {
        &self.nodes[local_ptr.0]
    }

    /// The token slice `[token_start, token_start + token_count)`.
    pub fn get_tokens(&self, token_start: usize, token_count: usize) -> (r: &[TokenWithSpan])
        requires
            token_start + token_count <= self.tokens@.len(),
        ensures
            r@ == self.tokens@.subrange(token_start as int, token_start + token_count),
    {
        let _n = self.tokens.len();
        vstd::slice::slice_subrange(self.tokens.as_slice(), token_start, token_start + token_count)
    }

    /// The scope-binding slice `[scope_start, scope_start + scope_count)`.
    pub fn get_scopes(&self, scope_start: usize, scope_count: u32) -> (r: &[LiveScopeItem])
        requires
            scope_start + scope_count <= self.scopes@.len(),
        ensures
            r@ == self.scopes@.subrange(scope_start as int, scope_start + scope_count),
    {
        let _n = self.scopes.len();
        vstd::slice::slice_subrange(
            self.scopes.as_slice(),
            scope_start,
            scope_start + scope_count as usize,
        )
    }

    /// Copies the pooled character range into `out`, replacing its contents.
    pub fn get_string(&self, string_start: usize, string_count: usize, out: &mut String)
        requires
            string_start + string_count <= self.strings@.len(),
        ensures
            final(out)@ == self.strings@.subrange(string_start as int, string_start + string_count),
    {
        let n = self.strings.len();
        let mut s = String::new();
        let mut i: usize = 0;
        while i < string_count
            invariant
                i <= string_count,
                n == self.strings@.len(),
                string_start + string_count <= self.strings@.len(),
                s@ == self.strings@.subrange(string_start as int, string_start + i),
            decreases string_count - i,
        {
            crate::ext::string_push(&mut s, self.strings[string_start + i]);
            i = i + 1;
            proof {
                assert(s@ =~= self.strings@.subrange(string_start as int, string_start + i));
            }
        }
        *out = s;
    }

    /// Resets this document as a staging base for recompiling `other`'s
    /// source unit: nodes and scopes are cleared, the previously validated
    /// string and token storage is carried over.
    pub fn restart_from(&mut self, other: &LiveDocument)
        ensures
            final(self).nodes@.len() == 0,
            final(self).scopes@.len() == 0,
            final(self).strings@ == other.strings@,
            final(self).tokens@ == other.tokens@,
            final(self).multi_ids@ == other.multi_ids@,
            final(self).recompile == old(self).recompile,
            final(self).wf(),
    {
        self.nodes.truncate(0);
        self.multi_ids = other.multi_ids.clone();
        self.strings = other.strings.clone();
        self.tokens = other.tokens.clone();
        self.scopes.truncate(0);
    }

    /// The source span of a token of this document.
    pub fn token_id_to_span(&self, token_id: TokenId) -> (r: Span)
        requires
            (token_id.token_index as int) < self.tokens@.len(),
        ensures
            r == self.tokens@[token_id.token_index as int].span,
    {
        self.tokens[token_id.token_index as usize].span
    }

    /// The span of a token if it is in range, or the unknown span: used when
    /// attaching spans to errors, which must never fail themselves.
    pub fn span_or_unknown(&self, token_id: TokenId) -> (r: Span)
        ensures
            r == if (token_id.token_index as int) < self.tokens@.len() {
                self.tokens@[token_id.token_index as int].span
            } else {
                Span { file_id: FileId(0), start: 0, end: 0 }
            },
    {
        if (token_id.token_index as usize) < self.tokens.len() {
            self.tokens[token_id.token_index as usize].span
        } else {
            Span::unknown()
        }
    }

    /// The span of a token when the token belongs to this document's own
    /// source unit: an error about a node inherited from another unit must
    /// not resolve its token against the wrong token table, so it carries
    /// the unknown span instead.
    pub fn span_in(&self, file_id: FileId, token_id: TokenId) -> (r: Span)
        ensures
            r == if token_id.file_id == file_id && (token_id.token_index as int)
                < self.tokens@.len() {
                self.tokens@[token_id.token_index as int].span
            } else {
                Span { file_id: FileId(0), start: 0, end: 0 }
            },
    {
        if token_id.file_id == file_id {
            self.span_or_unknown(token_id)
        } else {
            Span::unknown()
        }
    }

    /// The first sibling with identifier `id` in the given node range.
    pub fn find_sibling(&self, id: Id, start: usize, count: usize) -> (r: Option<usize>)
        requires
            start + count <= self.nodes@.len(),
        ensures
            match r {
                Option::Some(j) => find_sibling_spec(self.nodes@, id, start as int, count as int)
                    == Some(j as int) && start <= j < start + count,
                Option::None => find_sibling_spec(self.nodes@, id, start as int, count as int)
                    is None,
            },
    {
        let n = self.nodes.len();
        let mut i: usize = 0;
        while i < count
            invariant
                i <= count,
                n == self.nodes@.len(),
                start + count <= self.nodes@.len(),
                find_sibling_spec(self.nodes@, id, start as int, count as int)
                    == find_sibling_spec(self.nodes@, id, start + i, count - i),
            decreases count - i,
        {
            if self.nodes[start + i].id == IdPack::Single(id) {
                return Some(start + i);
            }
            i = i + 1;
        }
        None
    }

    /// Resolves a dotted object path against the class node at `start`:
    /// each non-final segment must name a class among the current siblings;
    /// the final segment yields the matched node's address.
    pub fn scan_object_path_from(&self, object_path: &[Id], start: LocalPtr) -> (r: Result<
        LocalPtr,
        LiveErrorKind,
    >)
        requires
            self.wf(),
            object_path@.len() >= 1,
        ensures
            match r {
                Ok(p) => scan_from_spec(self.nodes@, object_path@, start.0 as int) == Ok::<
                    int,
                    LiveErrorKind,
                >(p.0 as int) && p.0 < self.nodes@.len(),
                Err(e) => scan_from_spec(self.nodes@, object_path@, start.0 as int) == Err::<
                    int,
                    LiveErrorKind,
                >(e),
            },
    {
        if start.0 >= self.nodes.len() {
            return Err(LiveErrorKind::DanglingPointer);
        }
        let n = self.nodes.len();
        let (mut cur_start, mut cur_count): (usize, usize) = match self.nodes[start.0].value {
            LiveValue::Class { node_start, node_count, .. } => (node_start, node_count),
            _ => {
                return Err(LiveErrorKind::NotAnObjectPath);
            },
        };
        proof {
            assert(node_range_ok(self.nodes@, start.0 as int));
        }
        let ghost root_start = cur_start as int;
        let ghost root_count = cur_count as int;
        let mut pi: usize = 0;
        loop
            invariant
                self.wf(),
                n == self.nodes@.len(),
                pi < object_path@.len(),
                cur_start + cur_count <= self.nodes@.len(),
                scan_from_spec(self.nodes@, object_path@, start.0 as int) == scan_path_spec(
                    self.nodes@,
                    object_path@,
                    0,
                    root_start,
                    root_count,
                ),
                scan_path_spec(self.nodes@, object_path@, 0, root_start, root_count)
                    == scan_path_spec(
                    self.nodes@,
                    object_path@,
                    pi as int,
                    cur_start as int,
                    cur_count as int,
                ),
            decreases object_path@.len() - pi,
        {
            match self.find_sibling(object_path[pi], cur_start, cur_count) {
                Option::None => {
                    return Err(LiveErrorKind::NoSuchProperty);
                },
                Option::Some(j) => {
                    if pi == object_path.len() - 1 {
                        return Ok(LocalPtr(j));
                    }
                    match self.nodes[j].value {
                        LiveValue::Class { node_start, node_count, .. } => {
                            proof {
                                assert(node_range_ok(self.nodes@, j as int));
                            }
                            cur_start = node_start;
                            cur_count = node_count;
                        },
                        _ => {
                            return Err(LiveErrorKind::NotAnObjectPath);
                        },
                    }
                    pi = pi + 1;
                },
            }
        }
    }

    /// `scan_object_path_from`, with the error distinctions flattened away.
    pub fn scan_for_object_path_from(&self, object_path: &[Id], start: LocalPtr) -> (r: Option<
        LocalPtr,
    >)
        requires
            self.wf(),
            object_path@.len() >= 1,
        ensures
            match r {
                Option::Some(p) => scan_from_spec(self.nodes@, object_path@, start.0 as int) == Ok::<
                    int,
                    LiveErrorKind,
                >(p.0 as int) && p.0 < self.nodes@.len(),
                Option::None => scan_from_spec(self.nodes@, object_path@, start.0 as int) is Err,
            },
    {
        match self.scan_object_path_from(object_path, start) {
            Ok(p) => Some(p),
            Err(_) => None,
        }
    }

    /// Resolves a dotted object path against the document root, which is the
    /// class node at index 0.
    pub fn scan_for_object_path(&self, object_path: &[Id]) -> (r: Option<LocalPtr>)
        requires
            self.wf(),
            object_path@.len() >= 1,
        ensures
            match r {
                Option::Some(p) => scan_from_spec(self.nodes@, object_path@, 0) == Ok::<
                    int,
                    LiveErrorKind,
                >(p.0 as int) && p.0 < self.nodes@.len(),
                Option::None => scan_from_spec(self.nodes@, object_path@, 0) is Err,
            },
    {
        self.scan_for_object_path_from(object_path, LocalPtr(0))
    }

    /// The latest binding of `id` in the scope range (shadowing honors
    /// source order: the last write wins).
    pub fn resolve_identifier(&self, scope_start: usize, scope_count: usize, id: Id) -> (r: Option<
        LiveScopeTarget,
    >)
        requires
            scope_start + scope_count <= self.scopes@.len(),
        ensures
            r == find_binding_spec(self.scopes@, id, scope_start as int, scope_count as int),
    {
        let mut remaining: usize = scope_count;
        while remaining > 0
            invariant
                remaining <= scope_count,
                scope_start + scope_count <= self.scopes@.len(),
                find_binding_spec(self.scopes@, id, scope_start as int, scope_count as int)
                    == find_binding_spec(self.scopes@, id, scope_start as int, remaining as int),
            decreases remaining,
        {
            let _n = self.scopes.len();
            let item = self.scopes[scope_start + remaining - 1];
            if item.id == id {
                return Some(item.target);
            }
            remaining = remaining - 1;
        }
        None
    }
}

} // verus!
