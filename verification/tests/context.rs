use live_doc::cx::{rust_type_marker, Cx, LiveEnumInfo};
use live_doc::document::LiveDocument;
use live_doc::error::LiveErrorKind;
use live_doc::id::{FileId, Id, IdPack, LivePtr, LiveTypeId, LocalPtr, MultiPack, TokenId};
use live_doc::value::{LiveNode, LiveValue};

const WIDGET: u64 = 20;
const COLOR: u64 = 21;
const DEPTH: u64 = 22;
const VARIANT: u64 = 23;

fn tok(file: u32) -> TokenId {
    TokenId { file_id: FileId(file), token_index: 0 }
}

fn node(id: u64, value: LiveValue) -> LiveNode {
    LiveNode { id: IdPack::Single(Id(id)), token_id: tok(0), value }
}

/// A context with one published document:
/// `Widget { color: 5, depth: 2 }` plus an enum chain ending in a
/// runtime-type node.
fn context() -> Cx {
    let mut d = LiveDocument::new();
    d.nodes = vec![
        LiveNode {
            id: IdPack::Empty,
            token_id: tok(0),
            value: LiveValue::Class { class: MultiPack::Empty, node_start: 1, node_count: 3 },
        },
        node(WIDGET, LiveValue::Class { class: MultiPack::Empty, node_start: 4, node_count: 2 }),
        // the enum variant: its base points at the terminal runtime-type node
        node(
            VARIANT,
            LiveValue::MultiPack(MultiPack::LivePtr(LivePtr {
                file_id: FileId(0),
                local_ptr: LocalPtr(3),
            })),
        ),
        LiveNode {
            id: IdPack::Single(rust_type_marker()),
            token_id: tok(0),
            value: LiveValue::LiveType(LiveTypeId(77)),
        },
        node(COLOR, LiveValue::Color(5)),
        node(DEPTH, LiveValue::Int(2)),
    ];
    let mut cx = Cx::new();
    cx.live_registry.register_document("app::widgets".to_string(), d);
    let errs = cx.live_expand();
    assert!(errs.is_empty(), "setup expansion failed: {:?}", errs);
    cx
}

#[test]
fn pointers_resolve_against_published_documents() {
    let cx = context();
    let ptr = cx.live_ptr_from_id("app::widgets", Id(WIDGET));
    assert_eq!(ptr.file_id, FileId(0));
    let n = cx.resolve_ptr(ptr);
    assert!(matches!(n.value, LiveValue::Class { .. }));
    let (doc, n2) = cx.resolve_doc_ptr(ptr);
    assert_eq!(n2.id, IdPack::Single(Id(WIDGET)));
    assert!(doc.nodes.len() >= 6);
}

#[test]
fn unknown_document_and_dangling_pointer_are_distinguished() {
    let cx = context();
    let bad_file = LivePtr { file_id: FileId(9), local_ptr: LocalPtr(0) };
    assert_eq!(
        cx.live_registry.try_resolve_ptr(bad_file).err(),
        Some(LiveErrorKind::UnknownDocument)
    );
    let bad_index = LivePtr { file_id: FileId(0), local_ptr: LocalPtr(999) };
    assert_eq!(
        cx.live_registry.try_resolve_ptr(bad_index).err(),
        Some(LiveErrorKind::DanglingPointer)
    );
}

#[test]
fn find_class_prop_finds_a_member_by_name() {
    let cx = context();
    let class_ptr = cx.live_ptr_from_id("app::widgets", Id(WIDGET));
    let depth = cx.find_class_prop_ptr(class_ptr, Id(DEPTH)).expect("member present");
    let n = cx.resolve_ptr(depth);
    assert_eq!(n.value, LiveValue::Int(2));
    assert!(cx.find_class_prop_ptr(class_ptr, Id(99)).is_none());
    // asking on a non-class node yields nothing
    let scalar_ptr = cx.find_class_prop_ptr(class_ptr, Id(COLOR)).unwrap();
    assert!(cx.find_class_prop_ptr(scalar_ptr, Id(DEPTH)).is_none());
}

#[test]
fn type_signatures_are_checked_exactly() {
    let cx = context();
    let ty_ptr = LivePtr { file_id: FileId(0), local_ptr: LocalPtr(3) };
    assert!(cx.verify_type_signature(ty_ptr, LiveTypeId(77)));
    assert!(!cx.verify_type_signature(ty_ptr, LiveTypeId(78)));
    let other = cx.live_ptr_from_id("app::widgets", Id(WIDGET));
    assert!(!cx.verify_type_signature(other, LiveTypeId(77)));
}

#[test]
fn enum_origin_follows_the_chain_to_the_registered_type() {
    let mut cx = context();
    cx.register_enum(LiveTypeId(77), LiveEnumInfo { base_name: Id(500) });
    let start = MultiPack::LivePtr(LivePtr { file_id: FileId(0), local_ptr: LocalPtr(2) });
    let origin = cx.find_enum_origin(start, Id(VARIANT));
    assert_eq!(origin, Some((Id(500), Id(VARIANT))));
}

#[test]
fn enum_origin_without_registration_is_none() {
    let cx = context();
    let start = MultiPack::LivePtr(LivePtr { file_id: FileId(0), local_ptr: LocalPtr(2) });
    assert_eq!(cx.find_enum_origin(start, Id(VARIANT)), None);
    // a chain that never reaches a runtime-type node is simply not an enum
    let start2 = MultiPack::SingleId(Id(VARIANT));
    assert_eq!(cx.find_enum_origin(start2, Id(VARIANT)), None);
}

#[test]
fn reregistering_an_enum_overwrites_the_earlier_shape() {
    let mut cx = Cx::new();
    cx.register_enum(LiveTypeId(1), LiveEnumInfo { base_name: Id(10) });
    cx.register_enum(LiveTypeId(2), LiveEnumInfo { base_name: Id(20) });
    cx.register_enum(LiveTypeId(1), LiveEnumInfo { base_name: Id(30) });
    // the latest registration of a type identity wins
    assert_eq!(cx.get_enum(LiveTypeId(1)), Some(LiveEnumInfo { base_name: Id(30) }));
    assert_eq!(cx.get_enum(LiveTypeId(2)), Some(LiveEnumInfo { base_name: Id(20) }));
    assert_eq!(cx.get_enum(LiveTypeId(3)), None);
}

#[test]
fn live_register_withdraws_published_documents() {
    let mut cx = context();
    assert!(cx.live_registry.expanded_ok[0]);
    cx.live_register();
    assert!(!cx.live_registry.expanded_ok[0]);
    // the next expansion republishes from the raw documents
    let errs = cx.live_expand();
    assert!(errs.is_empty());
    assert!(cx.live_registry.expanded_ok[0]);
}

#[test]
fn stale_documents_keep_serving_until_a_clean_replacement() {
    let mut cx = context();
    let before = cx.live_registry.expanded[0].nodes.clone();
    // replace the raw document with one that cannot expand
    let mut broken = LiveDocument::new();
    broken.nodes = vec![
        LiveNode {
            id: IdPack::Empty,
            token_id: tok(0),
            value: LiveValue::Class { class: MultiPack::Empty, node_start: 1, node_count: 1 },
        },
        node(
            WIDGET,
            LiveValue::Class { class: MultiPack::SingleId(Id(999)), node_start: 2, node_count: 0 },
        ),
    ];
    cx.live_registry.replace_document(FileId(0), broken);
    let errs = cx.live_expand();
    assert!(!errs.is_empty());
    // the previously published version is untouched
    assert!(cx.live_registry.expanded_ok[0]);
    assert_eq!(cx.live_registry.expanded[0].nodes, before);
}

#[test]
fn error_messages_name_the_failure() {
    let e = live_doc::error::LiveError {
        kind: LiveErrorKind::IncompatibleOverride,
        span: live_doc::id::Span::unknown(),
    };
    assert_eq!(e.message(), "cannot inherit with different value kind");
    let e2 = live_doc::error::LiveError {
        kind: LiveErrorKind::InheritanceCycle,
        span: live_doc::id::Span::unknown(),
    };
    assert_eq!(e2.message(), "class inheritance cycle");
}

#[test]
fn generation_moves_when_a_unit_is_republished() {
    let mut cx = context();
    assert_eq!(cx.live_registry.generation(FileId(0)), Some(1));
    assert_eq!(cx.live_registry.generation(FileId(5)), None);
    // a hot reload withdraws and republishes: readers see the generation move
    cx.live_register();
    let errs = cx.live_expand();
    assert!(errs.is_empty());
    assert_eq!(cx.live_registry.generation(FileId(0)), Some(2));
}

#[test]
fn expanding_again_without_changes_republishes_nothing() {
    let mut cx = context();
    assert_eq!(cx.live_registry.generation(FileId(0)), Some(1));
    // nothing is marked for recompilation, so nothing is republished and
    // the generation stays where readers last saw it
    let errs = cx.live_expand();
    assert!(errs.is_empty());
    assert_eq!(cx.live_registry.generation(FileId(0)), Some(1));
}

#[test]
fn unrelated_edits_leave_a_documents_pointers_stable() {
    let mut cx = context();
    let mut other = LiveDocument::new();
    other.nodes = vec![
        LiveNode {
            id: IdPack::Empty,
            token_id: tok(1),
            value: LiveValue::Class { class: MultiPack::Empty, node_start: 1, node_count: 1 },
        },
        node(DEPTH, LiveValue::Int(9)),
    ];
    cx.live_registry.register_document("app::other".to_string(), other);
    let errs = cx.live_expand();
    assert!(errs.is_empty());
    let ptr = cx.live_ptr_from_id("app::widgets", Id(WIDGET));
    let before = *cx.resolve_ptr(ptr);
    let gen_before = cx.live_registry.generation(FileId(0));
    // edit and recompile only the other document
    let mut edited = LiveDocument::new();
    edited.nodes = vec![
        LiveNode {
            id: IdPack::Empty,
            token_id: tok(1),
            value: LiveValue::Class { class: MultiPack::Empty, node_start: 1, node_count: 1 },
        },
        node(DEPTH, LiveValue::Int(10)),
    ];
    cx.live_registry.replace_document(FileId(1), edited);
    let errs2 = cx.live_expand();
    assert!(errs2.is_empty());
    // the first document was untouched: its generation did not move and the
    // pointer still resolves to the same node
    assert_eq!(cx.live_registry.generation(FileId(0)), gen_before);
    assert_eq!(*cx.resolve_ptr(ptr), before);
    // while the edited document was republished
    assert_eq!(cx.live_registry.generation(FileId(1)), Some(2));
}
