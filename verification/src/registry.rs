//! The document registry: raw documents keyed by source-unit identity, the
//! published (expanded) version of each, and the expansion driver.
//!
//! Publication is atomic per document: a document that fails to expand is
//! simply not published, and its previously published version — if any —
//! keeps serving readers.

use vstd::prelude::*;
use crate::id::{FileId, Id, LivePtr};
use crate::value::LiveNode;
use crate::document::{scan_from_spec, LiveDocument};
use crate::error::{LiveError, LiveErrorKind};
use crate::expand::{
    check_nodes_wf, doc_expanded, doc_expanded_exec, expand_document, seq_extends,
};

verus! {

/// An owned copy of a vector of plain values.
pub fn clone_plain_vec<T: Copy>(v: &Vec<T>) -> (r: Vec<T>)
    ensures
        r@ == v@,
{
    let n = v.len();
    let mut r: Vec<T> = Vec::new();
    let mut i: usize = 0;
    while i < n
        invariant
            i <= n,
            n == v@.len(),
            r@ == v@.subrange(0, i as int),
        decreases n - i,
    {
        r.push(v[i]);
        proof {
            assert(r@ =~= v@.subrange(0, i + 1));
        }
        i = i + 1;
    }
    proof {
        assert(v@.subrange(0, n as int) =~= v@);
    }
    r
}

/// The first registered document whose module path reads exactly `path`.
pub open spec fn find_doc_spec(paths: Seq<String>, path: Seq<char>, i: int) -> Option<int>
    decreases paths.len() - i,
{
    if i < 0 || i >= paths.len() {
        None
    } else if paths[i]@ == path {
        Some(i)
    } else {
        find_doc_spec(paths, path, i + 1)
    }
}

/// What `live_ptr_from_path` finds: the first document registered under the
/// module path, provided it is published and the identifier path resolves
/// from its root.
pub open spec fn live_ptr_lookup(reg: LiveRegistry, path: Seq<char>, ids: Seq<Id>) -> Option<
    LivePtr,
> {
    match find_doc_spec(reg.module_paths@, path, 0) {
        Option::None => None,
        Option::Some(f) => {
            if reg.expanded_ok@[f] {
                match scan_from_spec(reg.expanded@[f].nodes@, ids, 0) {
                    Ok(j) => Some(
                        LivePtr {
                            file_id: FileId(f as u32),
                            local_ptr: crate::id::LocalPtr(j as usize),
                        },
                    ),
                    Err(_) => None,
                }
            } else {
                None
            }
        },
    }
}

/// A found document index lies within the path table.
pub proof fn lemma_find_doc_bounds(paths: Seq<String>, path: Seq<char>, i: int)
    requires
        0 <= i,
        find_doc_spec(paths, path, i) is Some,
    ensures
        i <= find_doc_spec(paths, path, i)->Some_0 < paths.len(),
    decreases paths.len() - i,
{
    if i < paths.len() && !(paths[i]@ == path) {
        lemma_find_doc_bounds(paths, path, i + 1);
    }
}

/// The generation after one more publication (the counter wraps at the
/// machine limit).
pub open spec fn next_generation(g: u32) -> u32 {
    if g == u32::MAX {
        0u32
    } else {
        (g + 1) as u32
    }
}

/// Nothing about source unit `i` changed between `pre` and `post`.
pub open spec fn unit_untouched(pre: LiveRegistry, post: LiveRegistry, i: int) -> bool {
    &&& post.raw@[i] == pre.raw@[i]
    &&& post.expanded@[i] == pre.expanded@[i]
    &&& post.expanded_ok@[i] == pre.expanded_ok@[i]
    &&& post.generations@[i] == pre.generations@[i]
}

/// Source unit `i` was published anew between `pre` and `post`: a
/// well-formed, fully expanded document now serves readers, the raw unit is
/// no longer marked for recompilation, and the generation moved.
pub open spec fn unit_published(pre: LiveRegistry, post: LiveRegistry, i: int) -> bool {
    &&& post.expanded_ok@[i]
    &&& post.expanded@[i].wf()
    &&& doc_expanded(post.expanded@[i])
    &&& !post.raw@[i].recompile
    &&& post.generations@[i] == next_generation(pre.generations@[i])
}

/// The parsed content of raw unit `i` is unchanged (only its recompile flag
/// may differ).
pub open spec fn raw_content_kept(pre: LiveRegistry, post: LiveRegistry, i: int) -> bool {
    &&& post.raw@[i].nodes@ == pre.raw@[i].nodes@
    &&& post.raw@[i].multi_ids@ == pre.raw@[i].multi_ids@
    &&& post.raw@[i].strings@ == pre.raw@[i].strings@
    &&& post.raw@[i].tokens@ == pre.raw@[i].tokens@
    &&& post.raw@[i].scopes@ == pre.raw@[i].scopes@
}

/// The published version of unit `i` holds exactly the raw unit's nodes and
/// pools: what publication means for a document that expansion left as it
/// was.
pub open spec fn published_as_raw(pre: LiveRegistry, post: LiveRegistry, i: int) -> bool {
    &&& post.expanded_ok@[i]
    &&& post.expanded@[i].nodes@ == pre.raw@[i].nodes@
    &&& post.expanded@[i].multi_ids@ == pre.raw@[i].multi_ids@
    &&& post.expanded@[i].strings@ == pre.raw@[i].strings@
    &&& post.expanded@[i].tokens@ == pre.raw@[i].tokens@
    &&& post.expanded@[i].scopes@ == pre.raw@[i].scopes@
}

pub struct LiveRegistry {
    /// The module path of each source unit, indexed by `FileId`.
    pub module_paths: Vec<String>,
    /// Each source unit as parsed, before expansion.
    pub raw: Vec<LiveDocument>,
    /// The last successfully expanded version of each source unit.
    pub expanded: Vec<LiveDocument>,
    /// Whether `expanded` holds a published version for the source unit.
    pub expanded_ok: Vec<bool>,
    /// How many times each source unit has been published: long-lived
    /// pointer holders compare this against the value they saw to detect
    /// that a unit was recompiled and their local indices may be stale.
    pub generations: Vec<u32>,
}

impl LiveRegistry {
    pub open spec fn wf(&self) -> bool {
        &&& self.module_paths@.len() == self.raw@.len()
        &&& self.expanded@.len() == self.raw@.len()
        &&& self.expanded_ok@.len() == self.raw@.len()
        &&& self.generations@.len() == self.raw@.len()
        &&& forall|i: int| 0 <= i < self.expanded@.len() ==> (#[trigger] self.expanded@[i]).wf()
        &&& forall|i: int|
            0 <= i < self.expanded@.len() && self.expanded_ok@[i] ==> doc_expanded(
                #[trigger] self.expanded@[i],
            )
    }

    /// A pointer addresses a published node.
    pub open spec fn ptr_ok(&self, ptr: LivePtr) -> bool {
        &&& (ptr.file_id.0 as int) < self.expanded@.len()
        &&& self.expanded_ok@[ptr.file_id.0 as int]
        &&& ptr.local_ptr.0 < self.expanded@[ptr.file_id.0 as int].nodes@.len()
    }

    /// The node a published pointer addresses.
    pub open spec fn node_at(&self, ptr: LivePtr) -> LiveNode {
        self.expanded@[ptr.file_id.0 as int].nodes@[ptr.local_ptr.0 as int]
    }

    pub fn new() -> (r: Self)
        ensures
            r.wf(),
            r.raw@.len() == 0,
    {
        Self {
            module_paths: Vec::new(),
            raw: Vec::new(),
            expanded: Vec::new(),
            expanded_ok: Vec::new(),
            generations: Vec::new(),
        }
    }

    /// Registers one parsed source unit and returns its identity.  A later
    /// registration under the same module path is a distinct unit; hot
    /// reload replaces a unit's raw document through `replace_document`.
    pub fn register_document(&mut self, path: String, doc: LiveDocument) -> (r: FileId)
        requires
            old(self).wf(),
            old(self).raw@.len() < u32::MAX,
        ensures
            final(self).wf(),
            r.0 as int == old(self).raw@.len(),
            final(self).raw@ == old(self).raw@.push(doc),
            final(self).module_paths@ == old(self).module_paths@.push(path),
            final(self).expanded_ok@ == old(self).expanded_ok@.push(false),
            final(self).generations@ == old(self).generations@.push(0),
            final(self).expanded@.len() == old(self).expanded@.len() + 1,
            final(self).expanded@.subrange(0, old(self).expanded@.len() as int) == old(
                self,
            ).expanded@,
            final(self).expanded@.last().nodes@.len() == 0,
    {
        let id = FileId(self.raw.len() as u32);
        self.module_paths.push(path);
        self.raw.push(doc);
        self.expanded.push(LiveDocument::new());
        self.expanded_ok.push(false);
        self.generations.push(0);
        proof {
            assert forall|i: int| 0 <= i < self.expanded@.len() implies (
            #[trigger] self.expanded@[i]).wf() by {
                if i < old(self).expanded@.len() {
                    assert(old(self).expanded@[i].wf());
                }
            }
            assert(self.expanded@.subrange(0, old(self).expanded@.len() as int) =~= old(
                self,
            ).expanded@);
        }
        id
    }

    /// Replaces a source unit's raw document after an edit, marking it for
    /// recompilation.  The published version, if any, keeps serving readers
    /// until the next expansion succeeds.
    pub fn replace_document(&mut self, file_id: FileId, doc: LiveDocument)
        requires
            old(self).wf(),
            (file_id.0 as int) < old(self).raw@.len(),
        ensures
            final(self).wf(),
            final(self).raw@ == old(self).raw@.update(
                file_id.0 as int,
                LiveDocument { recompile: true, ..doc },
            ),
            final(self).module_paths@ == old(self).module_paths@,
            final(self).expanded@ == old(self).expanded@,
            final(self).expanded_ok@ == old(self).expanded_ok@,
            final(self).generations@ == old(self).generations@,
    {
        let staged = LiveDocument {
            recompile: true,
            nodes: doc.nodes,
            multi_ids: doc.multi_ids,
            strings: doc.strings,
            tokens: doc.tokens,
            scopes: doc.scopes,
        };
        self.raw.set(file_id.to_index(), staged);
    }

    /// Expands every raw document marked for recompilation, in registration
    /// order, against the documents already published.  A document expands
    /// cleanly when no error is collected for it; only then is it
    /// published, atomically replacing its previous version, bumping its
    /// generation, and clearing its recompile mark.  Units not marked — and
    /// units whose expansion failed — are left exactly as they were, so
    /// pointers into them stay valid across edits to unrelated documents.
    pub fn expand_all_documents(&mut self, errs: &mut Vec<LiveError>)
        requires
            old(self).wf(),
        ensures
            final(self).wf(),
            final(self).module_paths@ == old(self).module_paths@,
            final(self).raw@.len() == old(self).raw@.len(),
            seq_extends(final(errs)@, old(errs)@),
            forall|i: int|
                0 <= i < old(self).raw@.len() && !(#[trigger] old(self).raw@[i]).recompile
                    ==> unit_untouched(*old(self), *final(self), i),
            forall|i: int|
                0 <= i < old(self).raw@.len() ==> #[trigger] raw_content_kept(
                    *old(self),
                    *final(self),
                    i,
                ),
            forall|i: int|
                0 <= i < old(self).raw@.len() ==> #[trigger] unit_untouched(
                    *old(self),
                    *final(self),
                    i,
                ) || unit_published(*old(self), *final(self), i),
            final(errs)@ == old(errs)@ ==> forall|i: int|
                0 <= i < old(self).raw@.len() && (#[trigger] old(self).raw@[i]).recompile
                    ==> unit_published(*old(self), *final(self), i),
            forall|i: int|
                0 <= i < old(self).raw@.len() && (#[trigger] old(self).raw@[i]).recompile && old(
                    self,
                ).raw@[i].wf() && doc_expanded(old(self).raw@[i]) ==> published_as_raw(
                    *old(self),
                    *final(self),
                    i,
                ),
    {
        proof {
            assert(errs@.subrange(0, errs@.len() as int) =~= errs@);
        }
        let n = self.raw.len();
        let mut i: usize = 0;
        while i < n
            invariant
                i <= n,
                self.wf(),
                n == self.raw@.len(),
                self.module_paths@ == old(self).module_paths@,
                self.expanded@.len() == n,
                self.expanded_ok@.len() == n,
                self.generations@.len() == n,
                seq_extends(errs@, old(errs)@),
                forall|j: int| i <= j < n ==> unit_untouched(*old(self), *self, j),
                forall|j: int|
                    0 <= j < i && !(#[trigger] old(self).raw@[j]).recompile ==> unit_untouched(
                        *old(self),
                        *self,
                        j,
                    ),
                forall|j: int|
                    0 <= j < i ==> #[trigger] raw_content_kept(*old(self), *self, j),
                forall|j: int|
                    0 <= j < i ==> #[trigger] unit_untouched(*old(self), *self, j)
                        || unit_published(*old(self), *self, j),
                errs@ == old(errs)@ ==> forall|j: int|
                    0 <= j < i && (#[trigger] old(self).raw@[j]).recompile ==> unit_published(
                        *old(self),
                        *self,
                        j,
                    ),
                forall|j: int|
                    0 <= j < i && (#[trigger] old(self).raw@[j]).recompile && old(
                        self,
                    ).raw@[j].wf() && doc_expanded(old(self).raw@[j]) ==> published_as_raw(
                        *old(self),
                        *self,
                        j,
                    ),
            decreases n - i,
        {
            let ghost self_pre = *self;
            let ghost errs_pre = errs@;
            let ghost ii = i as int;
            let recompile_i = self.raw[i].recompile;
            if recompile_i {
                let before = errs.len();
                let mut cand = duplicate_document(&self.raw[i]);
                cand.recompile = false;
                let ghost cand0 = cand;
                proof {
                    assert(cand.wf() == self.raw@[ii].wf());
                    assert(doc_expanded(cand) == doc_expanded(self.raw@[ii]));
                }
                expand_document(
                    &mut cand,
                    FileId(i as u32),
                    &self.expanded,
                    &self.expanded_ok,
                    errs,
                );
                let clean = errs.len() == before;
                proof {
                    // for a raw document already in expanded form, expansion
                    // was the identity and collected nothing
                    if old(self).raw@[ii].wf() && doc_expanded(old(self).raw@[ii]) {
                        assert(unit_untouched(*old(self), self_pre, ii));
                        assert(cand0.wf() && doc_expanded(cand0));
                        assert(cand == cand0 && errs@ == errs_pre);
                        assert(clean);
                    }
                }
                if clean {
                    proof {
                        // a clean expansion is well-formed and fully expanded
                        assert(errs@ =~= errs_pre);
                        assert(cand.wf() && doc_expanded(cand));
                    }
                    self.expanded.set(i, cand);
                    self.expanded_ok.set(i, true);
                    let g = self.generations[i];
                    self.generations.set(
                        i,
                        if g == u32::MAX {
                            0
                        } else {
                            g + 1
                        },
                    );
                    let mut done = duplicate_document(&self.raw[i]);
                    done.recompile = false;
                    self.raw.set(i, done);
                    proof {
                        assert(unit_untouched(*old(self), self_pre, ii));
                        assert(unit_published(*old(self), *self, ii));
                        assert(raw_content_kept(*old(self), *self, ii));
                        if old(self).raw@[ii].wf() && doc_expanded(old(self).raw@[ii]) {
                            assert(published_as_raw(*old(self), *self, ii));
                        }
                    }
                } else {
                    proof {
                        assert(*self == self_pre);
                        assert(unit_untouched(*old(self), *self, ii));
                        assert(raw_content_kept(*old(self), *self, ii));
                        // an unclean expansion left its errors behind
                        assert(errs@.len() > errs_pre.len());
                    }
                }
                proof {
                    // a recompiled unit whose turn added nothing was published
                    if errs@ == errs_pre {
                        assert(unit_published(*old(self), *self, ii));
                    }
                }
            } else {
                proof {
                    assert(unit_untouched(*old(self), *self, ii));
                    assert(raw_content_kept(*old(self), *self, ii));
                }
            }
            proof {
                assert(seq_extends(errs@, errs_pre)) by {
                    assert(errs@.subrange(0, errs_pre.len() as int) =~= errs_pre);
                }
                crate::expand::lemma_extends_trans(errs@, errs_pre, old(errs)@);
                assert forall|j: int| 0 <= j < self.expanded@.len() implies (
                #[trigger] self.expanded@[j]).wf() by {}
                // everything at another index is exactly as it was
                assert forall|j: int| 0 <= j < n && j != ii implies unit_untouched(
                    self_pre,
                    *self,
                    j,
                ) by {
                    assert(self.raw@[j] == self_pre.raw@[j]);
                    assert(self.expanded@[j] == self_pre.expanded@[j]);
                    assert(self.expanded_ok@[j] == self_pre.expanded_ok@[j]);
                    assert(self.generations@[j] == self_pre.generations@[j]);
                }
                assert forall|j: int| ii + 1 <= j < n implies unit_untouched(
                    *old(self),
                    *self,
                    j,
                ) by {
                    assert(unit_untouched(*old(self), self_pre, j));
                    assert(unit_untouched(self_pre, *self, j));
                }
                assert forall|j: int|
                    0 <= j < ii && !(#[trigger] old(self).raw@[j]).recompile implies
                    unit_untouched(*old(self), *self, j) by {
                    assert(unit_untouched(*old(self), self_pre, j));
                    assert(unit_untouched(self_pre, *self, j));
                }
                assert forall|j: int| 0 <= j < ii + 1 implies #[trigger] raw_content_kept(
                    *old(self),
                    *self,
                    j,
                ) by {
                    if j < ii {
                        assert(raw_content_kept(*old(self), self_pre, j));
                        assert(unit_untouched(self_pre, *self, j));
                    }
                }
                assert forall|j: int| 0 <= j < ii + 1 implies #[trigger] unit_untouched(
                    *old(self),
                    *self,
                    j,
                ) || unit_published(*old(self), *self, j) by {
                    if j < ii {
                        assert(unit_untouched(self_pre, *self, j));
                        assert(unit_untouched(*old(self), self_pre, j) || unit_published(
                            *old(self),
                            self_pre,
                            j,
                        ));
                    }
                }
                assert forall|j: int|
                    0 <= j < ii + 1 && (#[trigger] old(self).raw@[j]).recompile && old(
                        self,
                    ).raw@[j].wf() && doc_expanded(old(self).raw@[j]) implies published_as_raw(
                    *old(self),
                    *self,
                    j,
                ) by {
                    if j < ii {
                        assert(published_as_raw(*old(self), self_pre, j));
                        assert(unit_untouched(self_pre, *self, j));
                    }
                }
                if errs@ == old(errs)@ {
                    // nothing was collected at all, so this iteration was
                    // clean too and the earlier prefix already held
                    assert(errs_pre =~= old(errs)@) by {
                        assert(errs_pre.len() <= errs@.len());
                        assert(errs@.subrange(0, errs_pre.len() as int) =~= errs_pre);
                    }
                    assert(errs_pre == old(errs)@);
                    assert forall|j: int|
                        0 <= j < ii + 1 && (#[trigger] old(self).raw@[j]).recompile implies
                        unit_published(*old(self), *self, j) by {
                        if j < ii {
                            assert(unit_published(*old(self), self_pre, j));
                            assert(unit_untouched(self_pre, *self, j));
                        } else {
                            assert(unit_untouched(*old(self), self_pre, ii));
                            assert(recompile_i);
                            assert(errs@ == errs_pre);
                            assert(unit_published(*old(self), *self, ii));
                        }
                    }
                }
            }
            i = i + 1;
        }
    }

    /// How many times the source unit has been published.  A reader holding
    /// a `LivePtr` into it must re-resolve through scope or path lookup
    /// whenever this moved past the value it last saw.
    pub fn generation(&self, file_id: FileId) -> (r: Option<u32>)
        requires
            self.wf(),
        ensures
            match r {
                Option::Some(g) => (file_id.0 as int) < self.generations@.len() && g
                    == self.generations@[file_id.0 as int],
                Option::None => (file_id.0 as int) >= self.generations@.len(),
            },
    {
        let f = file_id.to_index();
        if f < self.generations.len() {
            Some(self.generations[f])
        } else {
            None
        }
    }

    /// Resolves a durable cross-document pointer against the published
    /// documents: `UnknownDocument` when the source unit is absent or has no
    /// published version, `DanglingPointer` when the index lies outside its
    /// node arena.
    pub fn try_resolve_ptr(&self, ptr: LivePtr) -> (r: Result<&LiveNode, LiveErrorKind>)
        requires
            self.wf(),
        ensures
            match r {
                Ok(n) => self.ptr_ok(ptr) && *n == self.node_at(ptr),
                Err(e) => !self.ptr_ok(ptr) && (e == LiveErrorKind::UnknownDocument || e
                    == LiveErrorKind::DanglingPointer),
            },
    {
        let f = ptr.file_id.to_index();
        if f >= self.expanded.len() || f >= self.expanded_ok.len() || !self.expanded_ok[f] {
            return Err(LiveErrorKind::UnknownDocument);
        }
        if ptr.local_ptr.0 >= self.expanded[f].nodes.len() {
            return Err(LiveErrorKind::DanglingPointer);
        }
        Ok(&self.expanded[f].nodes[ptr.local_ptr.0])
    }

    /// The published node a pointer addresses; the pointer must be valid.
    pub fn resolve_ptr(&self, ptr: LivePtr) -> (r: &LiveNode)
        requires
            self.ptr_ok(ptr),
        ensures
            *r == self.node_at(ptr),
    {
        let f = ptr.file_id.to_index();
        &self.expanded[f].nodes[ptr.local_ptr.0]
    }

    /// The published document and node a pointer addresses.
    pub fn resolve_doc_ptr(&self, ptr: LivePtr) -> (r: (&LiveDocument, &LiveNode))
        requires
            self.ptr_ok(ptr),
        ensures
            *r.0 == self.expanded@[ptr.file_id.0 as int],
            *r.1 == self.node_at(ptr),
    {
        let f = ptr.file_id.to_index();
        (&self.expanded[f], &self.expanded[f].nodes[ptr.local_ptr.0])
    }

    /// The registered document, published or not, whose module path reads
    /// exactly `path`.
    pub fn file_id_of_path(&self, path: &str) -> (r: Option<FileId>)
        requires
            self.wf(),
            self.module_paths@.len() < u32::MAX,
        ensures
            match r {
                Option::Some(f) => find_doc_spec(self.module_paths@, path@, 0) == Some(
                    f.0 as int,
                ),
                Option::None => find_doc_spec(self.module_paths@, path@, 0) is None,
            },
    {
        let owned: String = path.to_owned();
        let n = self.module_paths.len();
        let mut i: usize = 0;
        while i < n
            invariant
                i <= n,
                n == self.module_paths@.len(),
                n < u32::MAX,
                find_doc_spec(self.module_paths@, path@, 0) == find_doc_spec(
                    self.module_paths@,
                    path@,
                    i as int,
                ),
            decreases n - i,
        {
            if self.module_paths[i] == owned {
                return Some(FileId(i as u32));
            }
            i = i + 1;
        }
        None
    }

    /// The address, in the published document registered under `path`, of
    /// the node the dotted identifier path names from that document's root.
    pub fn live_ptr_from_path(&self, path: &str, ids: &[Id]) -> (r: Option<LivePtr>)
        requires
            self.wf(),
            self.module_paths@.len() < u32::MAX,
            ids@.len() >= 1,
        ensures
            r == live_ptr_lookup(*self, path@, ids@),
            r matches Some(p) ==> self.ptr_ok(p),
    {
        match self.file_id_of_path(path) {
            Option::None => None,
            Option::Some(f) => {
                proof {
                    lemma_find_doc_bounds(self.module_paths@, path@, 0);
                }
                let fi = f.to_index();
                if fi >= self.expanded.len() || fi >= self.expanded_ok.len()
                    || !self.expanded_ok[fi] {
                    return None;
                }
                match self.expanded[fi].scan_for_object_path(ids) {
                    Option::Some(p) => Some(LivePtr { file_id: f, local_ptr: p }),
                    Option::None => None,
                }
            },
        }
    }
}

/// A field-by-field copy of a document, used to stage an expansion while
/// the raw document stays as parsed.
pub fn duplicate_document(doc: &LiveDocument) -> (r: LiveDocument)
    ensures
        r.recompile == doc.recompile,
        r.nodes@ == doc.nodes@,
        r.multi_ids@ == doc.multi_ids@,
        r.strings@ == doc.strings@,
        r.tokens@ == doc.tokens@,
        r.scopes@ == doc.scopes@,
{
    LiveDocument {
        recompile: doc.recompile,
        nodes: clone_plain_vec(&doc.nodes),
        multi_ids: clone_plain_vec(&doc.multi_ids),
        strings: clone_plain_vec(&doc.strings),
        tokens: clone_plain_vec(&doc.tokens),
        scopes: clone_plain_vec(&doc.scopes),
    }
}

} // verus!
