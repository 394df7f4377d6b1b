use live_doc::document::{LiveDocument, LiveScopeItem, LiveScopeTarget};
use live_doc::error::LiveErrorKind;
use live_doc::id::{FileId, Id, IdPack, LivePtr, LocalPtr, MultiPack, TokenId};
use live_doc::registry::{duplicate_document, LiveRegistry};
use live_doc::value::{LiveNode, LiveValue};

const BUTTON: u64 = 100;
const MY_BUTTON: u64 = 101;
const COLOR: u64 = 102;
const LABEL: u64 = 103;
const SIZE: u64 = 104;
const A: u64 = 105;
const B: u64 = 106;
const THEME: u64 = 107;

fn tok(file: u32) -> TokenId {
    TokenId { file_id: FileId(file), token_index: 0 }
}

fn node(id: u64, file: u32, value: LiveValue) -> LiveNode {
    LiveNode { id: IdPack::Single(Id(id)), token_id: tok(file), value }
}

fn root(file: u32, count: usize) -> LiveNode {
    LiveNode {
        id: IdPack::Empty,
        token_id: tok(file),
        value: LiveValue::Class { class: MultiPack::Empty, node_start: 1, node_count: count },
    }
}

fn empty_doc() -> LiveDocument {
    LiveDocument::new()
}

/// A document holding `Button { color: <red> }`.
fn base_button_doc() -> LiveDocument {
    let mut d = empty_doc();
    d.nodes = vec![
        root(0, 1),
        node(
            BUTTON,
            0,
            LiveValue::Class { class: MultiPack::Empty, node_start: 2, node_count: 1 },
        ),
        node(COLOR, 0, LiveValue::Color(0x00ff0000)),
    ];
    d
}

/// A document holding `MyButton: Button { label: "ok" }`, importing Button
/// from file 0 through a scope binding.
fn derived_button_doc() -> LiveDocument {
    let mut d = empty_doc();
    d.strings = vec!['o', 'k'];
    d.scopes = vec![LiveScopeItem {
        id: Id(BUTTON),
        target: LiveScopeTarget::LivePtr(LivePtr {
            file_id: FileId(0),
            local_ptr: LocalPtr(1),
        }),
    }];
    d.nodes = vec![
        root(1, 1),
        node(
            MY_BUTTON,
            1,
            LiveValue::Class {
                class: MultiPack::SingleId(Id(BUTTON)),
                node_start: 2,
                node_count: 1,
            },
        ),
        node(LABEL, 1, LiveValue::String { string_start: 0, string_count: 2 }),
    ];
    d
}

fn expand_two(base: LiveDocument, derived: LiveDocument) -> (LiveRegistry, Vec<live_doc::error::LiveError>) {
    let mut reg = LiveRegistry::new();
    reg.register_document("app::base".to_string(), base);
    reg.register_document("app::derived".to_string(), derived);
    let mut errs = Vec::new();
    reg.expand_all_documents(&mut errs);
    (reg, errs)
}

#[test]
fn expansion_without_bases_is_identity() {
    let mut d = empty_doc();
    d.nodes = vec![
        root(0, 2),
        node(SIZE, 0, LiveValue::Float(12.0f64.to_bits())),
        node(
            BUTTON,
            0,
            LiveValue::Class { class: MultiPack::Empty, node_start: 3, node_count: 1 },
        ),
        node(COLOR, 0, LiveValue::Color(7)),
    ];
    let raw_nodes = d.nodes.clone();
    let mut reg = LiveRegistry::new();
    reg.register_document("app::plain".to_string(), d);
    let mut errs = Vec::new();
    reg.expand_all_documents(&mut errs);
    assert!(errs.is_empty());
    assert!(reg.expanded_ok[0]);
    assert_eq!(reg.expanded[0].nodes, raw_nodes);
}

#[test]
fn reexpanding_an_expanded_document_is_a_fixed_point() {
    let (reg, errs) = expand_two(base_button_doc(), derived_button_doc());
    assert!(errs.is_empty());
    assert!(reg.expanded_ok[1]);
    // treat the expanded derived document as its own raw input
    let mut again = duplicate_document(&reg.expanded[1]);
    again.recompile = true;
    let expanded_nodes = again.nodes.clone();
    let mut reg2 = LiveRegistry::new();
    reg2.register_document("app::base".to_string(), base_button_doc());
    let mut errs2 = Vec::new();
    reg2.expand_all_documents(&mut errs2);
    reg2.register_document("app::derived".to_string(), again);
    reg2.expand_all_documents(&mut errs2);
    assert!(errs2.is_empty());
    assert_eq!(reg2.expanded[1].nodes, expanded_nodes);
}

#[test]
fn derived_class_inherits_base_property_with_base_token() {
    let (reg, errs) = expand_two(base_button_doc(), derived_button_doc());
    assert!(errs.is_empty(), "unexpected errors: {:?}", errs);
    assert!(reg.expanded_ok[1]);
    let doc = &reg.expanded[1];
    let my = doc.scan_for_object_path(&[Id(MY_BUTTON)]).expect("MyButton resolves");
    let (ms, mc) = match doc.nodes[my.0].value {
        LiveValue::Class { node_start, node_count, class } => {
            // the base reference is resolved to a pointer after expansion
            assert!(matches!(class, MultiPack::LivePtr(_)));
            (node_start, node_count)
        }
        ref other => panic!("MyButton is not a class: {:?}", other),
    };
    assert_eq!(mc, 2, "own label plus inherited color");
    let label = doc
        .scan_for_object_path(&[Id(MY_BUTTON), Id(LABEL)])
        .expect("own property kept");
    assert!(matches!(
        doc.nodes[label.0].value,
        LiveValue::String { string_start: 0, string_count: 2 }
    ));
    let color = doc
        .scan_for_object_path(&[Id(MY_BUTTON), Id(COLOR)])
        .expect("inherited property present");
    assert!(matches!(doc.nodes[color.0].value, LiveValue::Color(0x00ff0000)));
    // the inherited node still points at the base document's source span
    assert_eq!(doc.nodes[color.0].token_id.file_id, FileId(0));
    assert!(ms >= 2, "the merged member range sits in the arena");
}

#[test]
fn placeholder_declaration_is_overridden_by_any_kind() {
    // base declares `size` as an uninitialized declaration; the derived
    // class gives the first real definition
    let mut base = empty_doc();
    base.nodes = vec![
        root(0, 1),
        node(
            BUTTON,
            0,
            LiveValue::Class { class: MultiPack::Empty, node_start: 2, node_count: 1 },
        ),
        node(
            SIZE,
            0,
            LiveValue::VarDef { token_start: 0, token_count: 0, scope_start: 0, scope_count: 0 },
        ),
    ];
    let mut derived = derived_button_doc();
    derived.nodes[2] = node(SIZE, 1, LiveValue::Float(12.0f64.to_bits()));
    let (reg, errs) = expand_two(base, derived);
    assert!(errs.is_empty(), "expansion must succeed: {:?}", errs);
    assert!(reg.expanded_ok[1]);
    let doc = &reg.expanded[1];
    let size = doc
        .scan_for_object_path(&[Id(MY_BUTTON), Id(SIZE)])
        .expect("size resolves");
    assert_eq!(doc.nodes[size.0].value, LiveValue::Float(12.0f64.to_bits()));
}

#[test]
fn changed_value_kind_fails_with_incompatible_override() {
    // base declares `size: 12.0`; the derived class overrides it with a
    // string, which must be refused and must leave the base untouched
    let mut base = empty_doc();
    base.nodes = vec![
        root(0, 1),
        node(
            BUTTON,
            0,
            LiveValue::Class { class: MultiPack::Empty, node_start: 2, node_count: 1 },
        ),
        node(SIZE, 0, LiveValue::Float(12.0f64.to_bits())),
    ];
    let base_nodes = base.nodes.clone();
    let mut derived = derived_button_doc();
    derived.strings = vec!['b', 'i', 'g'];
    derived.nodes[2] = node(SIZE, 1, LiveValue::String { string_start: 0, string_count: 3 });
    let (reg, errs) = expand_two(base, derived);
    assert!(
        errs.iter().any(|e| e.kind == LiveErrorKind::IncompatibleOverride),
        "expected IncompatibleOverride, got {:?}",
        errs
    );
    // the failing document is not published; the base is unaffected
    assert!(!reg.expanded_ok[1]);
    assert!(reg.expanded_ok[0]);
    assert_eq!(reg.expanded[0].nodes, base_nodes);
    assert_eq!(reg.raw[0].nodes, base_nodes);
}

#[test]
fn inheritance_cycle_is_detected() {
    // A: B { } and B: A { } — expansion must terminate and report the cycle
    let mut d = empty_doc();
    d.scopes = vec![
        LiveScopeItem { id: Id(A), target: LiveScopeTarget::LocalPtr(LocalPtr(1)) },
        LiveScopeItem { id: Id(B), target: LiveScopeTarget::LocalPtr(LocalPtr(2)) },
    ];
    d.nodes = vec![
        root(0, 2),
        node(
            A,
            0,
            LiveValue::Class { class: MultiPack::SingleId(Id(B)), node_start: 3, node_count: 0 },
        ),
        node(
            B,
            0,
            LiveValue::Class { class: MultiPack::SingleId(Id(A)), node_start: 3, node_count: 0 },
        ),
    ];
    let mut reg = LiveRegistry::new();
    reg.register_document("app::cyclic".to_string(), d);
    let mut errs = Vec::new();
    reg.expand_all_documents(&mut errs);
    assert!(
        errs.iter().any(|e| e.kind == LiveErrorKind::InheritanceCycle),
        "expected InheritanceCycle, got {:?}",
        errs
    );
    assert!(!reg.expanded_ok[0]);
}

#[test]
fn self_inheritance_is_a_cycle() {
    let mut d = empty_doc();
    d.scopes = vec![LiveScopeItem { id: Id(A), target: LiveScopeTarget::LocalPtr(LocalPtr(1)) }];
    d.nodes = vec![
        root(0, 1),
        node(
            A,
            0,
            LiveValue::Class { class: MultiPack::SingleId(Id(A)), node_start: 2, node_count: 0 },
        ),
    ];
    let mut reg = LiveRegistry::new();
    reg.register_document("app::own".to_string(), d);
    let mut errs = Vec::new();
    reg.expand_all_documents(&mut errs);
    assert!(errs.iter().any(|e| e.kind == LiveErrorKind::InheritanceCycle));
}

#[test]
fn unresolved_base_is_reported() {
    let mut d = empty_doc();
    d.nodes = vec![
        root(0, 1),
        node(
            A,
            0,
            LiveValue::Class { class: MultiPack::SingleId(Id(B)), node_start: 2, node_count: 0 },
        ),
    ];
    let mut reg = LiveRegistry::new();
    reg.register_document("app::orphan".to_string(), d);
    let mut errs = Vec::new();
    reg.expand_all_documents(&mut errs);
    assert!(errs.iter().any(|e| e.kind == LiveErrorKind::UnresolvedIdentifier));
    assert!(!reg.expanded_ok[0]);
}

#[test]
fn local_base_declared_later_is_expanded_first() {
    // MyButton: Button appears before Button itself; the scope binding
    // points forward and expansion forces the base first
    let mut d = empty_doc();
    d.scopes = vec![LiveScopeItem { id: Id(BUTTON), target: LiveScopeTarget::LocalPtr(LocalPtr(2)) }];
    d.nodes = vec![
        root(0, 2),
        node(
            MY_BUTTON,
            0,
            LiveValue::Class {
                class: MultiPack::SingleId(Id(BUTTON)),
                node_start: 3,
                node_count: 0,
            },
        ),
        node(
            BUTTON,
            0,
            LiveValue::Class { class: MultiPack::Empty, node_start: 3, node_count: 1 },
        ),
        node(COLOR, 0, LiveValue::Color(3)),
    ];
    let mut reg = LiveRegistry::new();
    reg.register_document("app::forward".to_string(), d);
    let mut errs = Vec::new();
    reg.expand_all_documents(&mut errs);
    assert!(errs.is_empty(), "unexpected errors: {:?}", errs);
    let doc = &reg.expanded[0];
    let color = doc
        .scan_for_object_path(&[Id(MY_BUTTON), Id(COLOR)])
        .expect("inherited through forward reference");
    assert!(matches!(doc.nodes[color.0].value, LiveValue::Color(3)));
}

#[test]
fn dotted_member_overrides_nested_property() {
    // base Button { theme { color: 1 } }; derived overrides `theme.color`
    let mut base = empty_doc();
    base.nodes = vec![
        root(0, 1),
        node(
            BUTTON,
            0,
            LiveValue::Class { class: MultiPack::Empty, node_start: 2, node_count: 1 },
        ),
        node(
            THEME,
            0,
            LiveValue::Class { class: MultiPack::Empty, node_start: 3, node_count: 1 },
        ),
        node(COLOR, 0, LiveValue::Color(1)),
    ];
    let mut derived = empty_doc();
    derived.multi_ids = vec![Id(THEME), Id(COLOR)];
    derived.scopes = vec![LiveScopeItem {
        id: Id(BUTTON),
        target: LiveScopeTarget::LivePtr(LivePtr { file_id: FileId(0), local_ptr: LocalPtr(1) }),
    }];
    derived.nodes = vec![
        root(1, 1),
        node(
            MY_BUTTON,
            1,
            LiveValue::Class {
                class: MultiPack::SingleId(Id(BUTTON)),
                node_start: 2,
                node_count: 1,
            },
        ),
        LiveNode {
            id: IdPack::Multi { index: 0, count: 2 },
            token_id: tok(1),
            value: LiveValue::Color(2),
        },
    ];
    let (reg, errs) = expand_two(base, derived);
    assert!(errs.is_empty(), "unexpected errors: {:?}", errs);
    let doc = &reg.expanded[1];
    let color = doc
        .scan_for_object_path(&[Id(MY_BUTTON), Id(THEME), Id(COLOR)])
        .expect("nested property resolves");
    assert!(matches!(doc.nodes[color.0].value, LiveValue::Color(2)));
}

#[test]
fn dotted_member_with_wrong_kind_is_incompatible() {
    // base Button { theme { color: 1 } }; derived writes `theme.color` as an
    // Int, which changes the kind
    let mut base = empty_doc();
    base.nodes = vec![
        root(0, 1),
        node(
            BUTTON,
            0,
            LiveValue::Class { class: MultiPack::Empty, node_start: 2, node_count: 1 },
        ),
        node(
            THEME,
            0,
            LiveValue::Class { class: MultiPack::Empty, node_start: 3, node_count: 1 },
        ),
        node(COLOR, 0, LiveValue::Color(1)),
    ];
    let mut derived = empty_doc();
    derived.multi_ids = vec![Id(THEME), Id(COLOR)];
    derived.scopes = vec![LiveScopeItem {
        id: Id(BUTTON),
        target: LiveScopeTarget::LivePtr(LivePtr { file_id: FileId(0), local_ptr: LocalPtr(1) }),
    }];
    derived.nodes = vec![
        root(1, 1),
        node(
            MY_BUTTON,
            1,
            LiveValue::Class {
                class: MultiPack::SingleId(Id(BUTTON)),
                node_start: 2,
                node_count: 1,
            },
        ),
        LiveNode {
            id: IdPack::Multi { index: 0, count: 2 },
            token_id: tok(1),
            value: LiveValue::Int(2),
        },
    ];
    let (reg, errs) = expand_two(base, derived);
    assert!(errs.iter().any(|e| e.kind == LiveErrorKind::IncompatibleOverride));
    assert!(!reg.expanded_ok[1]);
}

#[test]
fn dotted_member_through_a_scalar_cannot_be_set() {
    // `color.x: 2` inside MyButton descends through the scalar `color`
    let mut base = empty_doc();
    base.nodes = vec![
        root(0, 1),
        node(
            BUTTON,
            0,
            LiveValue::Class { class: MultiPack::Empty, node_start: 2, node_count: 1 },
        ),
        node(COLOR, 0, LiveValue::Color(1)),
    ];
    let mut derived = empty_doc();
    derived.multi_ids = vec![Id(COLOR), Id(SIZE)];
    derived.scopes = vec![LiveScopeItem {
        id: Id(BUTTON),
        target: LiveScopeTarget::LivePtr(LivePtr { file_id: FileId(0), local_ptr: LocalPtr(1) }),
    }];
    derived.nodes = vec![
        root(1, 1),
        node(
            MY_BUTTON,
            1,
            LiveValue::Class {
                class: MultiPack::SingleId(Id(BUTTON)),
                node_start: 2,
                node_count: 1,
            },
        ),
        LiveNode {
            id: IdPack::Multi { index: 0, count: 2 },
            token_id: tok(1),
            value: LiveValue::Int(2),
        },
    ];
    let (reg, errs) = expand_two(base, derived);
    assert!(
        errs.iter().any(|e| e.kind == LiveErrorKind::CannotSetNonObjectPath),
        "expected CannotSetNonObjectPath, got {:?}",
        errs
    );
    assert!(!reg.expanded_ok[1]);
}

#[test]
fn dotted_member_with_missing_prefix_is_no_such_property() {
    // `theme.color: 2` inside MyButton, whose base has no `theme` at all
    let mut base = base_button_doc();
    base.nodes[2] = node(SIZE, 0, LiveValue::Int(1));
    let mut derived = empty_doc();
    derived.multi_ids = vec![Id(THEME), Id(COLOR)];
    derived.scopes = vec![LiveScopeItem {
        id: Id(BUTTON),
        target: LiveScopeTarget::LivePtr(LivePtr { file_id: FileId(0), local_ptr: LocalPtr(1) }),
    }];
    derived.nodes = vec![
        root(1, 1),
        node(
            MY_BUTTON,
            1,
            LiveValue::Class {
                class: MultiPack::SingleId(Id(BUTTON)),
                node_start: 2,
                node_count: 1,
            },
        ),
        LiveNode {
            id: IdPack::Multi { index: 0, count: 2 },
            token_id: tok(1),
            value: LiveValue::Color(2),
        },
    ];
    let (reg, errs) = expand_two(base, derived);
    assert!(
        errs.iter().any(|e| e.kind == LiveErrorKind::NoSuchProperty),
        "expected NoSuchProperty, got {:?}",
        errs
    );
    assert!(!reg.expanded_ok[1]);
}

#[test]
fn dotted_member_appends_a_new_nested_property() {
    // base Button { theme { color: 1 } }; derived adds `theme.size: 9`
    let mut base = empty_doc();
    base.nodes = vec![
        root(0, 1),
        node(
            BUTTON,
            0,
            LiveValue::Class { class: MultiPack::Empty, node_start: 2, node_count: 1 },
        ),
        node(
            THEME,
            0,
            LiveValue::Class { class: MultiPack::Empty, node_start: 3, node_count: 1 },
        ),
        node(COLOR, 0, LiveValue::Color(1)),
    ];
    let mut derived = empty_doc();
    derived.multi_ids = vec![Id(THEME), Id(SIZE)];
    derived.scopes = vec![LiveScopeItem {
        id: Id(BUTTON),
        target: LiveScopeTarget::LivePtr(LivePtr { file_id: FileId(0), local_ptr: LocalPtr(1) }),
    }];
    derived.nodes = vec![
        root(1, 1),
        node(
            MY_BUTTON,
            1,
            LiveValue::Class {
                class: MultiPack::SingleId(Id(BUTTON)),
                node_start: 2,
                node_count: 1,
            },
        ),
        LiveNode {
            id: IdPack::Multi { index: 0, count: 2 },
            token_id: tok(1),
            value: LiveValue::Int(9),
        },
    ];
    let (reg, errs) = expand_two(base, derived);
    assert!(errs.is_empty(), "unexpected errors: {:?}", errs);
    let doc = &reg.expanded[1];
    let size = doc
        .scan_for_object_path(&[Id(MY_BUTTON), Id(THEME), Id(SIZE)])
        .expect("appended property resolves");
    assert!(matches!(doc.nodes[size.0].value, LiveValue::Int(9)));
    let color = doc
        .scan_for_object_path(&[Id(MY_BUTTON), Id(THEME), Id(COLOR)])
        .expect("inherited sibling kept");
    assert!(matches!(doc.nodes[color.0].value, LiveValue::Color(1)));
}

#[test]
fn one_segment_dotted_member_becomes_a_plain_member() {
    let mut d = empty_doc();
    d.multi_ids = vec![Id(SIZE)];
    d.nodes = vec![
        root(0, 1),
        node(
            BUTTON,
            0,
            LiveValue::Class { class: MultiPack::Empty, node_start: 2, node_count: 1 },
        ),
        LiveNode {
            id: IdPack::Multi { index: 0, count: 1 },
            token_id: tok(0),
            value: LiveValue::Int(5),
        },
    ];
    let mut reg = LiveRegistry::new();
    reg.register_document("app::plaindot".to_string(), d);
    let mut errs = Vec::new();
    reg.expand_all_documents(&mut errs);
    assert!(errs.is_empty(), "unexpected errors: {:?}", errs);
    assert!(reg.expanded_ok[0]);
    let doc = &reg.expanded[0];
    let size = doc
        .scan_for_object_path(&[Id(BUTTON), Id(SIZE)])
        .expect("normalized member resolves");
    assert_eq!(doc.nodes[size.0].id, IdPack::Single(Id(SIZE)));
    assert!(matches!(doc.nodes[size.0].value, LiveValue::Int(5)));
}

#[test]
fn one_segment_dotted_member_overrides_an_inherited_sibling() {
    let base = base_button_doc();
    let mut derived = empty_doc();
    derived.multi_ids = vec![Id(COLOR)];
    derived.scopes = vec![LiveScopeItem {
        id: Id(BUTTON),
        target: LiveScopeTarget::LivePtr(LivePtr { file_id: FileId(0), local_ptr: LocalPtr(1) }),
    }];
    derived.nodes = vec![
        root(1, 1),
        node(
            MY_BUTTON,
            1,
            LiveValue::Class {
                class: MultiPack::SingleId(Id(BUTTON)),
                node_start: 2,
                node_count: 1,
            },
        ),
        LiveNode {
            id: IdPack::Multi { index: 0, count: 1 },
            token_id: tok(1),
            value: LiveValue::Color(9),
        },
    ];
    let (reg, errs) = expand_two(base, derived);
    assert!(errs.is_empty(), "unexpected errors: {:?}", errs);
    assert!(reg.expanded_ok[1]);
    let doc = &reg.expanded[1];
    let color = doc
        .scan_for_object_path(&[Id(MY_BUTTON), Id(COLOR)])
        .expect("overridden property resolves");
    assert!(matches!(doc.nodes[color.0].value, LiveValue::Color(9)));
}
