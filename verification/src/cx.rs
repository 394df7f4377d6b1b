//! The live context: the document registry together with the externally
//! registered runtime type information — the enum shape descriptors — that
//! expansion and origin resolution consult but do not define.

use vstd::prelude::*;
use crate::document::{find_sibling_spec, LiveDocument};
use crate::error::LiveError;
use crate::id::{Id, IdPack, LivePtr, LiveTypeId, LocalPtr};
use crate::registry::LiveRegistry;
use crate::value::{LiveNode, LiveValue};

verus! {

/// One body of live source code a host registers: where it came from and
/// the runtime types it mentions.  Parsing it into a document is the
/// tokenizer's job, outside this crate.
#[derive(Clone, Debug)]
pub struct LiveBody {
    pub file: String,
    pub module: String,
    pub line: usize,
    pub column: usize,
    pub code: String,
    pub live_types: Vec<LiveTypeId>,
}

/// The externally registered shape of a runtime enum: the name of the enum
/// type a variant chain resolves to.
#[derive(Clone, Copy, PartialEq, Eq, Structural, Debug)]
pub struct LiveEnumInfo {
    pub base_name: Id,
}

/// The identifier under which an expanded class records its terminal
/// runtime-type node; `find_enum_origin` stops when it reaches it.
pub open spec fn rust_type_marker_spec() -> Id {
    Id(1)
}

pub fn rust_type_marker() -> (r: Id)
    ensures
        r == rust_type_marker_spec(),
{
    Id(1)
}

/// The registered enum info for `ty`, if any.  The latest registration
/// wins: re-registering a type identity overwrites what an earlier
/// registration said.
pub open spec fn find_enum_spec(
    enums: Seq<(LiveTypeId, LiveEnumInfo)>,
    ty: LiveTypeId,
) -> Option<LiveEnumInfo>
    decreases enums.len(),
{
    if enums.len() == 0 {
        None
    } else if enums.last().0 == ty {
        Some(enums.last().1)
    } else {
        find_enum_spec(enums.drop_last(), ty)
    }
}

/// What `find_enum_origin` computes: follow the reference chain through
/// published nodes, one pointer per unit of fuel, until the terminal
/// runtime-type marker node; its type, looked up among the registered enum
/// shapes, gives the enum's declared base name, paired with the identifier
/// the chain went through last.  A chain that leaves the published
/// documents, ends on any other value, or exhausts the fuel yields no
/// origin.
pub open spec fn enum_origin_spec(
    reg: LiveRegistry,
    enums: Seq<(LiveTypeId, LiveEnumInfo)>,
    start: crate::id::MultiPack,
    lhs: Id,
    fuel: nat,
) -> Option<(Id, Id)>
    decreases fuel,
{
    if fuel == 0 {
        None
    } else {
        match start {
            crate::id::MultiPack::LivePtr(p) => {
                if !reg.ptr_ok(p) {
                    None
                } else {
                    let node = reg.node_at(p);
                    if node.id == IdPack::Single(rust_type_marker_spec()) {
                        match node.value {
                            LiveValue::LiveType(t) => match find_enum_spec(enums, t) {
                                Option::Some(info) => Some((info.base_name, lhs)),
                                Option::None => None,
                            },
                            _ => None,
                        }
                    } else {
                        let nl = match node.id {
                            IdPack::Single(x) => x,
                            _ => Id(0),
                        };
                        match node.value {
                            LiveValue::MultiPack(q) => enum_origin_spec(
                                reg,
                                enums,
                                q,
                                nl,
                                (fuel - 1) as nat,
                            ),
                            LiveValue::Class { class, .. } => enum_origin_spec(
                                reg,
                                enums,
                                class,
                                nl,
                                (fuel - 1) as nat,
                            ),
                            LiveValue::BareEnum { base, .. } => enum_origin_spec(
                                reg,
                                enums,
                                base,
                                nl,
                                (fuel - 1) as nat,
                            ),
                            LiveValue::TupleEnum { base, .. } => enum_origin_spec(
                                reg,
                                enums,
                                base,
                                nl,
                                (fuel - 1) as nat,
                            ),
                            LiveValue::NamedEnum { base, .. } => enum_origin_spec(
                                reg,
                                enums,
                                base,
                                nl,
                                (fuel - 1) as nat,
                            ),
                            _ => None,
                        }
                    }
                }
            },
            _ => None,
        }
    }
}

/// The fuel a chain walk starts with: one more than the published node
/// count, accumulated saturating at the machine limit.  A pointer chain
/// longer than all published nodes must repeat, so the fuel only ever cuts
/// chains that cycle.
pub open spec fn walk_fuel_spec(docs: Seq<LiveDocument>, i: int, acc: int) -> int
    decreases docs.len() - i,
{
    if i < 0 || i >= docs.len() {
        acc
    } else {
        let len = docs[i].nodes@.len() as int;
        let acc2 = if acc <= usize::MAX - len {
            acc + len
        } else {
            usize::MAX as int
        };
        walk_fuel_spec(docs, i + 1, acc2)
    }
}

pub struct Cx {
    pub live_registry: LiveRegistry,
    pub live_enums: Vec<(LiveTypeId, LiveEnumInfo)>,
}

impl Cx {
    pub fn new() -> (r: Self)
        ensures
            r.live_registry.wf(),
            r.live_registry.raw@.len() == 0,
            r.live_enums@.len() == 0,
    {
        Self { live_registry: LiveRegistry::new(), live_enums: Vec::new() }
    }

    /// Resets the live system for a fresh round of registrations: every
    /// published document is withdrawn and every raw document is marked for
    /// recompilation, so the next expansion republishes everything against
    /// the newly registered state.
    pub fn live_register(&mut self)
        requires
            old(self).live_registry.wf(),
        ensures
            final(self).live_registry.wf(),
            final(self).live_registry.module_paths@ == old(self).live_registry.module_paths@,
            final(self).live_registry.expanded@ == old(self).live_registry.expanded@,
            final(self).live_registry.generations@ == old(self).live_registry.generations@,
            final(self).live_registry.raw@.len() == old(self).live_registry.raw@.len(),
            forall|i: int|
                0 <= i < old(self).live_registry.raw@.len() ==> #[trigger] crate::registry::raw_content_kept(
                    old(self).live_registry,
                    final(self).live_registry,
                    i,
                ) && final(self).live_registry.raw@[i].recompile,
            forall|i: int|
                0 <= i < final(self).live_registry.expanded_ok@.len() ==> !final(
                    self
                ).live_registry.expanded_ok@[i],
            final(self).live_enums@ == old(self).live_enums@,
    {
        let n = self.live_registry.expanded_ok.len();
        proof {
            assert(self.live_registry.raw@.len() == n);
        }
        let mut i: usize = 0;
        while i < n
            invariant
                i <= n,
                n == self.live_registry.expanded_ok@.len(),
                n == self.live_registry.raw@.len(),
                self.live_registry.wf(),
                self.live_registry.expanded@ == old(self).live_registry.expanded@,
                self.live_registry.generations@ == old(self).live_registry.generations@,
                self.live_registry.module_paths@ == old(self).live_registry.module_paths@,
                self.live_enums@ == old(self).live_enums@,
                forall|j: int| i <= j < n ==> self.live_registry.raw@[j] == old(
                    self,
                ).live_registry.raw@[j] && self.live_registry.expanded_ok@[j] == old(
                    self,
                ).live_registry.expanded_ok@[j],
                forall|j: int|
                    0 <= j < i ==> #[trigger] crate::registry::raw_content_kept(
                        old(self).live_registry,
                        self.live_registry,
                        j,
                    ) && self.live_registry.raw@[j].recompile,
                forall|j: int| 0 <= j < i ==> !self.live_registry.expanded_ok@[j],
            decreases n - i,
        {
            let ghost reg_pre = self.live_registry;
            let ghost raw_pre = self.live_registry.raw@;
            self.live_registry.expanded_ok.set(i, false);
            let d = crate::registry::duplicate_document(&self.live_registry.raw[i]);
            let marked = LiveDocument {
                recompile: true,
                nodes: d.nodes,
                multi_ids: d.multi_ids,
                strings: d.strings,
                tokens: d.tokens,
                scopes: d.scopes,
            };
            self.live_registry.raw.set(i, marked);
            proof {
                assert forall|j: int|
                    0 <= j < i + 1 implies #[trigger] crate::registry::raw_content_kept(
                    old(self).live_registry,
                    self.live_registry,
                    j,
                ) && self.live_registry.raw@[j].recompile by {
                    if j < i {
                        assert(crate::registry::raw_content_kept(
                            old(self).live_registry,
                            reg_pre,
                            j,
                        ));
                        assert(self.live_registry.raw@[j] == raw_pre[j]);
                    } else {
                        assert(raw_pre[j] == old(self).live_registry.raw@[j]);
                        assert(self.live_registry.raw@[j] == marked);
                    }
                }
            }
            i = i + 1;
        }
    }

    /// Runs the expansion over every raw document marked for recompilation
    /// and returns the errors collected:
    ///
    /// - an empty list means every marked document was published anew —
    ///   well-formed, fully expanded, generation moved;
    /// - a document whose expansion collected errors is simply not
    ///   republished: it, and every unit not marked, keep exactly the
    ///   published version (if any) they had, so pointers into them stay
    ///   valid;
    /// - a marked document already in expanded form is published with its
    ///   nodes and pools exactly as they were — expansion is the identity on
    ///   non-inheriting and already-expanded documents.
    pub fn live_expand(&mut self) -> (errs: Vec<LiveError>)
        requires
            old(self).live_registry.wf(),
        ensures
            final(self).live_registry.wf(),
            final(self).live_enums@ == old(self).live_enums@,
            final(self).live_registry.module_paths@ == old(self).live_registry.module_paths@,
            final(self).live_registry.raw@.len() == old(self).live_registry.raw@.len(),
            forall|i: int|
                0 <= i < old(self).live_registry.raw@.len() && !(#[trigger] old(
                    self,
                ).live_registry.raw@[i]).recompile ==> crate::registry::unit_untouched(
                    old(self).live_registry,
                    final(self).live_registry,
                    i,
                ),
            forall|i: int|
                0 <= i < old(self).live_registry.raw@.len()
                    ==> #[trigger] crate::registry::raw_content_kept(
                    old(self).live_registry,
                    final(self).live_registry,
                    i,
                ),
            forall|i: int|
                0 <= i < old(self).live_registry.raw@.len()
                    ==> #[trigger] crate::registry::unit_untouched(
                    old(self).live_registry,
                    final(self).live_registry,
                    i,
                ) || crate::registry::unit_published(
                    old(self).live_registry,
                    final(self).live_registry,
                    i,
                ),
            errs@.len() == 0 ==> forall|i: int|
                0 <= i < old(self).live_registry.raw@.len() && (#[trigger] old(
                    self,
                ).live_registry.raw@[i]).recompile ==> crate::registry::unit_published(
                    old(self).live_registry,
                    final(self).live_registry,
                    i,
                ),
            forall|i: int|
                0 <= i < old(self).live_registry.raw@.len() && (#[trigger] old(
                    self,
                ).live_registry.raw@[i]).recompile && old(self).live_registry.raw@[i].wf()
                    && crate::expand::doc_expanded(old(self).live_registry.raw@[i])
                    ==> crate::registry::published_as_raw(
                    old(self).live_registry,
                    final(self).live_registry,
                    i,
                ),
    {
        let mut errs: Vec<LiveError> = Vec::new();
        self.live_registry.expand_all_documents(&mut errs);
        proof {
            if errs@.len() == 0 {
                assert(errs@ =~= Seq::<LiveError>::empty());
            }
        }
        errs
    }

    /// The published node a pointer addresses; the pointer must be valid.
    pub fn resolve_ptr(&self, live_ptr: LivePtr) -> (r: &LiveNode)
        requires
            self.live_registry.ptr_ok(live_ptr),
        ensures
            *r == self.live_registry.node_at(live_ptr),
    {
        self.live_registry.resolve_ptr(live_ptr)
    }

    /// The published document and node a pointer addresses.
    pub fn resolve_doc_ptr(&self, live_ptr: LivePtr) -> (r: (&LiveDocument, &LiveNode))
        requires
            self.live_registry.ptr_ok(live_ptr),
        ensures
            *r.0 == self.live_registry.expanded@[live_ptr.file_id.0 as int],
            *r.1 == self.live_registry.node_at(live_ptr),
    {
        self.live_registry.resolve_doc_ptr(live_ptr)
    }

    /// The address of the node named `id` at the root of the published
    /// document registered under `path`; both must exist.
    pub fn live_ptr_from_id(&self, path: &str, id: Id) -> (r: LivePtr)
        requires
            self.live_registry.wf(),
            self.live_registry.module_paths@.len() < u32::MAX,
            crate::registry::live_ptr_lookup(self.live_registry, path@, seq![id]) is Some,
        ensures
            Some(r) == crate::registry::live_ptr_lookup(self.live_registry, path@, seq![id]),
            self.live_registry.ptr_ok(r),
    {
        let ids = [id];
        match self.live_registry.live_ptr_from_path(path, &ids) {
            Option::Some(p) => p,
            Option::None => {
                proof {
                    assert(false);
                }
                LivePtr { file_id: crate::id::FileId(0), local_ptr: LocalPtr(0) }
            },
        }
    }

    /// The address of the member named `seek_id` of the published class at
    /// `class_ptr` (the first member under that name), if there is one.
    pub fn find_class_prop_ptr(&self, class_ptr: LivePtr, seek_id: Id) -> (r: Option<LivePtr>)
        requires
            self.live_registry.wf(),
        ensures
            ({
                if self.live_registry.ptr_ok(class_ptr) {
                    match self.live_registry.node_at(class_ptr).value {
                        LiveValue::Class { node_start, node_count, .. } => {
                            match find_sibling_spec(
                                self.live_registry.expanded@[class_ptr.file_id.0 as int].nodes@,
                                seek_id,
                                node_start as int,
                                node_count as int,
                            ) {
                                Option::Some(j) => r == Some(
                                    LivePtr {
                                        file_id: class_ptr.file_id,
                                        local_ptr: LocalPtr(j as usize),
                                    },
                                ),
                                Option::None => r is None,
                            }
                        },
                        _ => r is None,
                    }
                } else {
                    r is None
                }
            }),
    {
        match self.live_registry.try_resolve_ptr(class_ptr) {
            Err(_) => None,
            Ok(node) => {
                match node.value {
                    LiveValue::Class { node_start, node_count, .. } => {
                        let f = class_ptr.file_id.to_index();
                        let doc = &self.live_registry.expanded[f];
                        proof {
                            assert(doc.wf());
                            assert(crate::document::node_range_ok(
                                doc.nodes@,
                                class_ptr.local_ptr.0 as int,
                            ));
                        }
                        match doc.find_sibling(seek_id, node_start, node_count) {
                            Option::Some(j) => Some(
                                LivePtr { file_id: class_ptr.file_id, local_ptr: LocalPtr(j) },
                            ),
                            Option::None => None,
                        }
                    },
                    _ => None,
                }
            },
        }
    }

    /// Whether the published node at `live_ptr` records exactly the runtime
    /// type `live_type`: how a host checks that a long-lived binding still
    /// points at a value of the type it expects.
    pub fn verify_type_signature(&self, live_ptr: LivePtr, live_type: LiveTypeId) -> (r: bool)
        requires
            self.live_registry.ptr_ok(live_ptr),
        ensures
            r == (self.live_registry.node_at(live_ptr).value matches LiveValue::LiveType(t) && t
                == live_type),
    {
        let node = self.live_registry.resolve_ptr(live_ptr);
        match node.value {
            LiveValue::LiveType(ty) => ty == live_type,
            _ => false,
        }
    }

    /// Registers the shape of a runtime enum under its type identity.  A
    /// later registration under the same identity overwrites the earlier
    /// one; every other identity's registration is untouched.
    pub fn register_enum(&mut self, live_type: LiveTypeId, info: LiveEnumInfo)
        ensures
            final(self).live_enums@ == old(self).live_enums@.push((live_type, info)),
            find_enum_spec(final(self).live_enums@, live_type) == Some(info),
            forall|t: LiveTypeId|
                t != live_type ==> #[trigger] find_enum_spec(final(self).live_enums@, t)
                    == find_enum_spec(old(self).live_enums@, t),
            final(self).live_registry == old(self).live_registry,
    {
        self.live_enums.push((live_type, info));
        proof {
            assert forall|t: LiveTypeId| t != live_type implies #[trigger] find_enum_spec(
                self.live_enums@,
                t,
            ) == find_enum_spec(old(self).live_enums@, t) by {
                assert(self.live_enums@.drop_last() =~= old(self).live_enums@);
            }
            assert(find_enum_spec(self.live_enums@, live_type) == Some(info));
        }
    }

    /// The registered enum info for a runtime type (the latest
    /// registration wins).
    pub fn get_enum(&self, live_type: LiveTypeId) -> (r: Option<LiveEnumInfo>)
        ensures
            r == find_enum_spec(self.live_enums@, live_type),
    {
        let mut remaining = self.live_enums.len();
        proof {
            assert(self.live_enums@.subrange(0, remaining as int) =~= self.live_enums@);
        }
        while remaining > 0
            invariant
                remaining <= self.live_enums@.len(),
                find_enum_spec(self.live_enums@, live_type) == find_enum_spec(
                    self.live_enums@.subrange(0, remaining as int),
                    live_type,
                ),
            decreases remaining,
        {
            let (ty, info) = self.live_enums[remaining - 1];
            if ty == live_type {
                proof {
                    let s = self.live_enums@.subrange(0, remaining as int);
                    assert(s.last() == self.live_enums@[remaining - 1]);
                }
                return Some(info);
            }
            proof {
                let s = self.live_enums@.subrange(0, remaining as int);
                assert(s.last() == self.live_enums@[remaining - 1]);
                assert(s.drop_last() =~= self.live_enums@.subrange(0, remaining - 1));
            }
            remaining = remaining - 1;
        }
        proof {
            assert(self.live_enums@.subrange(0, 0) =~= Seq::<(LiveTypeId, LiveEnumInfo)>::empty());
        }
        None
    }

    /// Follows an enum variant's base reference transitively through class
    /// and variant targets until the terminal runtime-type node, and looks
    /// its type up among the registered enum shapes: the enum's declared
    /// base name, paired with the identifier the chain went through last.  A
    /// chain that ends anywhere else yields no origin — that is not an
    /// error, the value is simply not an enum.
    pub fn find_enum_origin(&self, start: crate::id::MultiPack, lhs: Id) -> (r: Option<(Id, Id)>)
        requires
            self.live_registry.wf(),
        ensures
            r == enum_origin_spec(
                self.live_registry,
                self.live_enums@,
                start,
                lhs,
                walk_fuel_spec(self.live_registry.expanded@, 0, 1) as nat,
            ),
    {
        let mut cur = start;
        let mut cur_lhs = lhs;
        let fuel0 = self.total_published_nodes();
        let mut fuel = fuel0;
        while fuel > 0
            invariant
                self.live_registry.wf(),
                fuel <= fuel0,
                enum_origin_spec(
                    self.live_registry,
                    self.live_enums@,
                    start,
                    lhs,
                    fuel0 as nat,
                ) == enum_origin_spec(
                    self.live_registry,
                    self.live_enums@,
                    cur,
                    cur_lhs,
                    fuel as nat,
                ),
            decreases fuel,
        {
            fuel = fuel - 1;
            match cur {
                crate::id::MultiPack::LivePtr(live_ptr) => {
                    match self.live_registry.try_resolve_ptr(live_ptr) {
                        Err(_) => {
                            return None;
                        },
                        Ok(node) => {
                            let node = *node;
                            if node.id == IdPack::Single(rust_type_marker()) {
                                // the terminal pointer: its value carries the
                                // runtime type of the enum
                                if let LiveValue::LiveType(enum_type) = node.value {
                                    match self.get_enum(enum_type) {
                                        Option::Some(enum_info) => {
                                            return Some((enum_info.base_name, cur_lhs));
                                        },
                                        Option::None => {
                                            return None;
                                        },
                                    }
                                }
                                return None;
                            }
                            let next_lhs = match node.id {
                                IdPack::Single(x) => x,
                                _ => Id::empty(),
                            };
                            match node.value {
                                LiveValue::MultiPack(p) => {
                                    cur = p;
                                    cur_lhs = next_lhs;
                                },
                                LiveValue::Class { class, .. } => {
                                    cur = class;
                                    cur_lhs = next_lhs;
                                },
                                LiveValue::BareEnum { base, .. } => {
                                    cur = base;
                                    cur_lhs = next_lhs;
                                },
                                LiveValue::TupleEnum { base, .. } => {
                                    cur = base;
                                    cur_lhs = next_lhs;
                                },
                                LiveValue::NamedEnum { base, .. } => {
                                    cur = base;
                                    cur_lhs = next_lhs;
                                },
                                _ => {
                                    return None;
                                },
                            }
                        },
                    }
                },
                _ => {
                    return None;
                },
            }
        }
        None
    }

    /// The published node count over all documents plus one, saturating:
    /// the fuel bound for pointer-chain walks.
    fn total_published_nodes(&self) -> (r: usize)
        ensures
            r == walk_fuel_spec(self.live_registry.expanded@, 0, 1),
    {
        let n = self.live_registry.expanded.len();
        let mut total: usize = 1;
        let mut i: usize = 0;
        while i < n
            invariant
                i <= n,
                n == self.live_registry.expanded@.len(),
                walk_fuel_spec(self.live_registry.expanded@, 0, 1) == walk_fuel_spec(
                    self.live_registry.expanded@,
                    i as int,
                    total as int,
                ),
            decreases n - i,
        {
            let len = self.live_registry.expanded[i].nodes.len();
            if total <= usize::MAX - len {
                total = total + len;
            } else {
                total = usize::MAX;
            }
            i = i + 1;
        }
        total
    }
}

} // verus!
