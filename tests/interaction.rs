use engine::{Document, DragState, Engine, NodeId};

#[derive(Clone, Copy, Debug, PartialEq)]
struct Pt {
    x: f32,
    y: f32,
}

#[derive(Clone, Copy, Debug)]
struct Shape {
    pos: Pt,
    size: Pt,
}

fn pt(x: f32, y: f32) -> Pt {
    Pt { x, y }
}

fn shape(x: f32, y: f32, w: f32, h: f32) -> Shape {
    Shape { pos: pt(x, y), size: pt(w, h) }
}

fn default_engine() -> Engine<Shape, Pt> {
    let mut doc = Document::new();
    doc.add_rect(shape(100.0, 100.0, 120.0, 80.0));
    doc.add_rect(shape(300.0, 220.0, 140.0, 80.0));
    doc.add_rect(shape(600.0, 900.0, 200.0, 100.0));
    Engine::with_document(doc)
}

fn contains_flags(engine: &Engine<Shape, Pt>, p: Pt) -> Vec<bool> {
    engine
        .doc
        .rects
        .iter()
        .map(|r| {
            let s = r.shape;
            p.x >= s.pos.x && p.x <= s.pos.x + s.size.x && p.y >= s.pos.y && p.y <= s.pos.y + s.size.y
        })
        .collect()
}

fn overlap_flags(engine: &Engine<Shape, Pt>, a: Pt, b: Pt) -> Vec<bool> {
    let (min_x, max_x) = (a.x.min(b.x), a.x.max(b.x));
    let (min_y, max_y) = (a.y.min(b.y), a.y.max(b.y));
    engine
        .doc
        .rects
        .iter()
        .map(|r| {
            let s = r.shape;
            s.pos.x < max_x && s.pos.x + s.size.x > min_x && s.pos.y < max_y && s.pos.y + s.size.y > min_y
        })
        .collect()
}

fn past_threshold(a: Pt, b: Pt) -> bool {
    let dx = a.x - b.x;
    let dy = a.y - b.y;
    dx * dx + dy * dy >= 36.0
}

#[test]
fn hit_test_picks_topmost_rect() {
    let engine = default_engine();
    let top_id = engine.doc.rects[2].id;
    let hits = contains_flags(&engine, pt(610.0, 910.0));
    let hit = engine.check_collide_rects(&hits);
    assert_eq!(hit, Some(top_id));
}

#[test]
fn selection_rules_apply_correcly() {
    let mut engine = default_engine();
    let id = engine.doc.rects[0].id;

    engine.apply_selection(Some(id), false);
    assert_eq!(engine.selected, vec![id]);

    engine.apply_selection(Some(id), true);
    assert!(engine.selected.is_empty());

    engine.apply_selection(None, false);
    assert!(engine.selected.is_empty());
}

#[test]
fn new_document_starts_counting_at_one() {
    let mut doc: Document<Shape> = Document::new();
    assert_eq!(doc.next_id, 1);
    assert!(doc.rects.is_empty());
    assert_eq!(doc.alloc_id(), NodeId(1));
    assert_eq!(doc.alloc_id(), NodeId(2));
    assert_eq!(doc.next_id, 3);
    assert!(doc.rects.is_empty());
}

#[test]
fn add_rect_appends_with_fresh_ids() {
    let engine = default_engine();
    let ids: Vec<NodeId> = engine.doc.rects.iter().map(|r| r.id).collect();
    assert_eq!(ids, vec![NodeId(1), NodeId(2), NodeId(3)]);
    assert_eq!(engine.doc.next_id, 4);
    assert_eq!(engine.doc.rects[1].shape.pos, pt(300.0, 220.0));
}

#[test]
fn index_of_id_finds_shape_or_none() {
    let engine = default_engine();
    assert_eq!(engine.doc.index_of_id(NodeId(2)), Some(1));
    assert_eq!(engine.doc.index_of_id(NodeId(3)), Some(2));
    assert_eq!(engine.doc.index_of_id(NodeId(9)), None);
}

#[test]
fn hit_test_on_empty_space_is_none() {
    let engine = default_engine();
    let hits = contains_flags(&engine, pt(0.0, 0.0));
    assert_eq!(engine.check_collide_rects(&hits), None);
}

#[test]
fn hit_test_bounds_are_inclusive() {
    let engine = default_engine();
    let hits = contains_flags(&engine, pt(220.0, 180.0));
    assert_eq!(engine.check_collide_rects(&hits), Some(NodeId(1)));
}

#[test]
fn hit_test_overlap_resolves_to_last_inserted() {
    let mut doc = Document::new();
    let below = doc.add_rect(shape(0.0, 0.0, 100.0, 100.0));
    let above = doc.add_rect(shape(50.0, 50.0, 100.0, 100.0));
    let engine: Engine<Shape, Pt> = Engine::with_document(doc);
    let in_both = contains_flags(&engine, pt(75.0, 75.0));
    assert_eq!(engine.check_collide_rects(&in_both), Some(above));
    let only_below = contains_flags(&engine, pt(10.0, 10.0));
    assert_eq!(engine.check_collide_rects(&only_below), Some(below));
}

#[test]
fn shift_toggle_twice_restores_membership() {
    let mut engine = default_engine();
    engine.apply_selection(Some(NodeId(1)), true);
    engine.apply_selection(Some(NodeId(2)), true);
    engine.apply_selection(Some(NodeId(3)), true);
    assert_eq!(engine.selected, vec![NodeId(1), NodeId(2), NodeId(3)]);

    engine.apply_selection(Some(NodeId(1)), true);
    assert_eq!(engine.selected, vec![NodeId(3), NodeId(2)]);
    engine.apply_selection(Some(NodeId(1)), true);
    assert_eq!(engine.selected, vec![NodeId(3), NodeId(2), NodeId(1)]);

    engine.apply_selection(Some(NodeId(7)), true);
    engine.apply_selection(Some(NodeId(7)), true);
    assert_eq!(engine.selected, vec![NodeId(3), NodeId(2), NodeId(1)]);
}

#[test]
fn shift_press_on_empty_space_keeps_selection() {
    let mut engine = default_engine();
    engine.apply_selection(Some(NodeId(2)), false);
    engine.apply_selection(None, true);
    assert_eq!(engine.selected, vec![NodeId(2)]);
    assert!(engine.is_selected(NodeId(2)));
    assert!(!engine.is_selected(NodeId(1)));
}

#[test]
fn pointer_down_on_shape_selects_it_and_starts_no_gesture() {
    let mut engine = default_engine();
    let world = pt(610.0, 910.0);
    let hits = contains_flags(&engine, world);
    engine.pointer_down(world, world, false, &hits);
    assert_eq!(engine.selected, vec![engine.doc.rects[2].id]);
    assert!(matches!(engine.drag_state, DragState::Idle));
}

#[test]
fn pointer_down_on_empty_space_starts_pending_marquee() {
    let mut engine = default_engine();
    engine.apply_selection(Some(NodeId(1)), false);
    let p = pt(0.0, 0.0);
    let hits = contains_flags(&engine, p);
    engine.pointer_down(p, p, false, &hits);
    assert!(engine.selected.is_empty());
    match &engine.drag_state {
        DragState::PendingMarquee(pending) => {
            assert_eq!(pending.start_screen_px, p);
            assert_eq!(pending.start_world, p);
            assert!(!pending.additive);
        }
        _ => panic!("expected a pending marquee"),
    }
    assert_eq!(engine.marquee_anchor(), Some(p));
}

#[test]
fn marquee_promotes_only_past_threshold() {
    let mut engine = default_engine();
    let start = pt(0.0, 0.0);
    let hits = contains_flags(&engine, start);
    engine.pointer_down(start, start, false, &hits);

    let near = pt(3.0, 3.0);
    let overlaps = overlap_flags(&engine, start, near);
    engine.pointer_move(near, past_threshold(near, start), &overlaps);
    assert!(matches!(engine.drag_state, DragState::PendingMarquee(_)));

    let far = pt(10.0, 10.0);
    let overlaps = overlap_flags(&engine, start, far);
    engine.pointer_move(far, past_threshold(far, start), &overlaps);
    match &engine.drag_state {
        DragState::Marquee(drag) => {
            assert_eq!(drag.start_world, start);
            assert_eq!(drag.current_world, far);
            assert!(!drag.additive);
        }
        _ => panic!("expected a live marquee"),
    }
    assert!(engine.selected.is_empty());
}

#[test]
fn marquee_selects_partially_overlapping_shape() {
    let mut engine = default_engine();
    let start = pt(0.0, 0.0);
    let hits = contains_flags(&engine, start);
    engine.pointer_down(start, start, false, &hits);

    // Reaches into the first shape only partly.
    let to = pt(150.0, 150.0);
    let overlaps = overlap_flags(&engine, start, to);
    engine.pointer_move(to, true, &overlaps);
    assert_eq!(engine.selected, vec![NodeId(1)]);

    // Grows over the second shape, then shrinks back: no drift.
    let to = pt(310.0, 230.0);
    let overlaps = overlap_flags(&engine, start, to);
    engine.pointer_move(to, true, &overlaps);
    assert_eq!(engine.selected, vec![NodeId(1), NodeId(2)]);

    let to = pt(50.0, 50.0);
    let overlaps = overlap_flags(&engine, start, to);
    engine.pointer_move(to, true, &overlaps);
    assert!(engine.selected.is_empty());

    let to = pt(700.0, 950.0);
    let overlaps = overlap_flags(&engine, start, to);
    engine.pointer_up(to, &overlaps);
    assert_eq!(engine.selected, vec![NodeId(1), NodeId(2), NodeId(3)]);
    assert!(matches!(engine.drag_state, DragState::Idle));
}

#[test]
fn additive_marquee_adds_to_selection_at_start() {
    let mut engine = default_engine();
    engine.apply_selection(Some(NodeId(3)), false);
    let start = pt(0.0, 0.0);
    let hits = contains_flags(&engine, start);
    engine.pointer_down(start, start, true, &hits);
    assert_eq!(engine.selected, vec![NodeId(3)]);

    let to = pt(150.0, 150.0);
    let overlaps = overlap_flags(&engine, start, to);
    engine.pointer_move(to, true, &overlaps);
    assert_eq!(engine.selected, vec![NodeId(3), NodeId(1)]);

    let to = pt(10.0, 10.0);
    let overlaps = overlap_flags(&engine, start, to);
    engine.pointer_move(to, true, &overlaps);
    assert_eq!(engine.selected, vec![NodeId(3)]);
}

#[test]
fn pointer_up_without_marquee_keeps_selection() {
    let mut engine = default_engine();
    let start = pt(0.0, 0.0);
    let hits = contains_flags(&engine, start);
    engine.pointer_down(start, start, true, &hits);
    engine.apply_selection(Some(NodeId(2)), false);
    let overlaps = overlap_flags(&engine, start, pt(1000.0, 1000.0));
    engine.pointer_up(pt(1000.0, 1000.0), &overlaps);
    assert_eq!(engine.selected, vec![NodeId(2)]);
    assert!(matches!(engine.drag_state, DragState::Idle));
}

#[test]
fn pointer_cancel_ends_gesture_without_selecting() {
    let mut engine = default_engine();
    let start = pt(0.0, 0.0);
    let hits = contains_flags(&engine, start);
    engine.pointer_down(start, start, false, &hits);
    let to = pt(150.0, 150.0);
    let overlaps = overlap_flags(&engine, start, to);
    engine.pointer_move(to, true, &overlaps);
    engine.pointer_cancel();
    assert!(matches!(engine.drag_state, DragState::Idle));
    assert_eq!(engine.selected, vec![NodeId(1)]);
    assert_eq!(engine.marquee_anchor(), None);
    // Moving afterwards changes nothing.
    let overlaps = overlap_flags(&engine, start, pt(700.0, 950.0));
    engine.pointer_move(pt(700.0, 950.0), true, &overlaps);
    assert_eq!(engine.selected, vec![NodeId(1)]);
}
