use live_doc::component::{LiveComponent, LiveComponentHooks, LiveNew, ToGenValue};
use live_doc::cx::Cx;
use live_doc::document::LiveDocument;
use live_doc::gen::{skip_value, GenNode, GenValue};
use live_doc::id::{FileId, Id, IdPack, LivePtr, LiveTypeId, LocalPtr, MultiPack, TokenId};
use live_doc::value::{LiveNode, LiveValue};

const RECT: u64 = 40;
const WIDTH: u64 = 41;
const COUNT: u64 = 42;

fn gn(id: u64, value: GenValue) -> GenNode {
    GenNode { id: Id(id), value }
}

/// A runtime object with one float field and one integer field, kept in
/// sync through the apply/update protocol.
#[derive(Default, Debug, PartialEq)]
struct Rect {
    width: f64,
    count: i64,
}

impl LiveComponent for Rect {
    fn live_update(&mut self, cx: &mut Cx, ptr: LivePtr) {
        if let Some(w) = cx.find_class_prop_ptr(ptr, Id(WIDTH)) {
            match cx.resolve_ptr(w).value {
                // a float field loads floats exactly and widens integers
                LiveValue::Float(bits) => self.width = f64::from_bits(bits),
                LiveValue::Int(v) => self.width = v as f64,
                _ => {}
            }
        }
        if let Some(c) = cx.find_class_prop_ptr(ptr, Id(COUNT)) {
            match cx.resolve_ptr(c).value {
                LiveValue::Int(v) => self.count = v,
                _ => {}
            }
        }
    }

    fn apply_index(&mut self, cx: &mut Cx, index: &mut usize, nodes: &[GenNode]) {
        // the stream for a Rect is a group: Open, fields, Close
        if *index >= nodes.len() || !matches!(nodes[*index].value, GenValue::Open) {
            skip_value(nodes, index);
            return;
        }
        *index += 1;
        while *index < nodes.len() {
            if matches!(nodes[*index].value, GenValue::Close) {
                *index += 1;
                return;
            }
            let id = nodes[*index].id;
            if id == Id(WIDTH) {
                match nodes[*index].value {
                    GenValue::Float(bits) => {
                        self.width = f64::from_bits(bits);
                        *index += 1;
                    }
                    GenValue::Int(v) => {
                        self.width = v as f64;
                        *index += 1;
                    }
                    _ => self.apply_value_unknown(cx, index, nodes),
                }
            } else if id == Id(COUNT) {
                match nodes[*index].value {
                    GenValue::Int(v) => {
                        self.count = v;
                        *index += 1;
                    }
                    _ => self.apply_value_unknown(cx, index, nodes),
                }
            } else {
                // forward compatibility: unknown fields are skipped
                self.apply_value_unknown(cx, index, nodes);
            }
        }
    }
}

impl LiveComponentHooks for Rect {}

impl LiveNew for Rect {
    fn live_new(_cx: &mut Cx) -> Self {
        Rect::default()
    }

    fn live_type() -> LiveTypeId {
        LiveTypeId(900)
    }

    fn live_register(_cx: &mut Cx) {}
}

impl ToGenValue for Rect {
    fn to_gen_value(&self) -> GenValue {
        GenValue::Float(self.width.to_bits())
    }
}

#[test]
fn skip_value_steps_over_one_plain_value() {
    let nodes = vec![gn(1, GenValue::Int(5)), gn(2, GenValue::Bool(true))];
    let mut i = 0usize;
    skip_value(&nodes, &mut i);
    assert_eq!(i, 1);
    skip_value(&nodes, &mut i);
    assert_eq!(i, 2);
    // at the end the cursor stays put
    skip_value(&nodes, &mut i);
    assert_eq!(i, 2);
}

#[test]
fn skip_value_steps_over_a_whole_group() {
    let nodes = vec![
        gn(1, GenValue::Open),
        gn(2, GenValue::Int(1)),
        gn(3, GenValue::Open),
        gn(4, GenValue::Int(2)),
        gn(5, GenValue::Close),
        gn(6, GenValue::Close),
        gn(7, GenValue::Bool(false)),
    ];
    let mut i = 0usize;
    skip_value(&nodes, &mut i);
    assert_eq!(i, 6, "the nested group is skipped as one value");
}

#[test]
fn skip_value_on_an_unclosed_group_runs_to_the_end() {
    let nodes = vec![gn(1, GenValue::Open), gn(2, GenValue::Int(1))];
    let mut i = 0usize;
    skip_value(&nodes, &mut i);
    assert_eq!(i, 2);
}

#[test]
fn apply_consumes_known_fields_and_skips_unknown_ones() {
    let mut cx = Cx::new();
    let mut r = Rect::default();
    let nodes = vec![
        gn(0, GenValue::Open),
        gn(WIDTH, GenValue::Float(2.5f64.to_bits())),
        gn(99, GenValue::Open), // an unknown nested group
        gn(98, GenValue::Int(1)),
        gn(97, GenValue::Close),
        gn(COUNT, GenValue::Int(4)),
        gn(0, GenValue::Close),
    ];
    r.apply(&mut cx, &nodes);
    assert_eq!(r, Rect { width: 2.5, count: 4 });
}

#[test]
fn apply_widens_an_int_into_a_float_field() {
    let mut cx = Cx::new();
    let mut r = Rect::default();
    let nodes = vec![
        gn(0, GenValue::Open),
        gn(WIDTH, GenValue::Int(3)),
        gn(0, GenValue::Close),
    ];
    r.apply(&mut cx, &nodes);
    assert_eq!(r.width, 3.0);
}

#[test]
fn apply_ignores_a_stream_too_short_for_a_group() {
    let mut cx = Cx::new();
    let mut r = Rect { width: 1.0, count: 1 };
    let nodes = vec![gn(WIDTH, GenValue::Float(9.0f64.to_bits()))];
    r.apply(&mut cx, &nodes);
    assert_eq!(r, Rect { width: 1.0, count: 1 });
}

#[test]
fn mismatched_kind_in_a_stream_is_skipped_not_applied() {
    let mut cx = Cx::new();
    let mut r = Rect::default();
    let nodes = vec![
        gn(0, GenValue::Open),
        gn(COUNT, GenValue::Float(7.0f64.to_bits())), // wrong kind for an int field
        gn(WIDTH, GenValue::Float(1.5f64.to_bits())),
        gn(0, GenValue::Close),
    ];
    r.apply(&mut cx, &nodes);
    assert_eq!(r.count, 0, "the mismatched value is a no-op skip");
    assert_eq!(r.width, 1.5, "later fields still apply");
}

#[test]
fn live_update_reads_fields_from_a_resolved_class() {
    let mut d = LiveDocument::new();
    let tok = TokenId { file_id: FileId(0), token_index: 0 };
    d.nodes = vec![
        LiveNode {
            id: IdPack::Empty,
            token_id: tok,
            value: LiveValue::Class { class: MultiPack::Empty, node_start: 1, node_count: 1 },
        },
        LiveNode {
            id: IdPack::Single(Id(RECT)),
            token_id: tok,
            value: LiveValue::Class { class: MultiPack::Empty, node_start: 2, node_count: 2 },
        },
        LiveNode {
            id: IdPack::Single(Id(WIDTH)),
            token_id: tok,
            value: LiveValue::Float(6.25f64.to_bits()),
        },
        LiveNode { id: IdPack::Single(Id(COUNT)), token_id: tok, value: LiveValue::Int(11) },
    ];
    let mut cx = Cx::new();
    cx.live_registry.register_document("app::rects".to_string(), d);
    let errs = cx.live_expand();
    assert!(errs.is_empty());
    let ptr = cx.live_ptr_from_id("app::rects", Id(RECT));
    let mut r = Rect::default();
    r.live_update(&mut cx, ptr);
    assert_eq!(r, Rect { width: 6.25, count: 11 });
    assert_eq!(r.to_gen_value(), GenValue::Float(6.25f64.to_bits()));
}

#[test]
fn ptr_round_trip_through_local_and_global_addresses() {
    let local = LocalPtr(3);
    let global = LivePtr { file_id: FileId(2), local_ptr: local };
    assert_eq!(global.local_ptr, LocalPtr(3));
    assert_eq!(global.file_id.to_index(), 2);
    assert_eq!(global, LivePtr { file_id: FileId(2), local_ptr: LocalPtr(3) });
}

#[test]
fn live_new_constructs_a_fresh_component() {
    let mut cx = Cx::new();
    Rect::live_register(&mut cx);
    let r = Rect::live_new(&mut cx);
    assert_eq!(r, Rect::default());
    assert_eq!(Rect::live_type(), LiveTypeId(900));
}
