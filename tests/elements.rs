use gpui3::click::{Clickable, ClickableElement};
use gpui3::context::{ElementId, ListenerId, MouseListener, ViewContext};
use gpui3::element::{Block, Element, LayoutNodeState, StyledElement, Styled};
use gpui3::event::{MouseClickEvent, MouseDownEvent, MouseMoveEvent, MouseUpEvent};
use gpui3::geometry::{Bounds, Point};
use gpui3::hover::{Div, Hoverable, HoverableElement};
use gpui3::style::StyleRefinement;

fn down_at(x: i32, y: i32) -> MouseDownEvent {
    MouseDownEvent { position: Point::new(x, y), click_count: 1 }
}

fn up_at(x: i32, y: i32) -> MouseUpEvent {
    MouseUpEvent { position: Point::new(x, y), click_count: 1 }
}

#[test]
fn empty_node_requests_box_without_children_and_paints_nothing() {
    let mut cx = ViewContext::new(Point::new(0, 0));
    let mut node: LayoutNodeState<Block> = LayoutNodeState::new();
    let (id, mut st) = node.layout(None, &mut cx);
    assert_eq!(cx.layout_children(id).len(), 0);
    assert_eq!(st.child_layout_ids.len(), 0);
    node.paint(Bounds::new(0, 0, 10, 10), &mut st, &mut cx);
    assert!(!cx.notified());
}

#[test]
fn node_lays_out_children_in_order() {
    let mut cx = ViewContext::new(Point::new(0, 0));
    let mut node = LayoutNodeState::new().child(Block::new()).children(vec![Block::new(), Block::new()]);
    assert_eq!(node.child_count(), 3);
    let (id, st) = node.layout(None, &mut cx);
    let kids = cx.layout_children(id);
    assert_eq!(kids.len(), 3);
    assert_eq!(kids, st.child_layout_ids);
    assert_eq!(kids[0].index(), 0);
    assert_eq!(kids[1].index(), 1);
    assert_eq!(kids[2].index(), 2);
    assert_eq!(id.index(), 3);
}

#[test]
fn node_passes_resolved_style_to_layout() {
    let mut cx = ViewContext::new(Point::new(0, 0));
    let mut node: LayoutNodeState<Block> = LayoutNodeState::new();
    let slot = node.reserve_style_slot();
    node.set_style_slot(slot, Some(StyleRefinement::new().background(0xff0000)));
    let (id, _) = node.layout(None, &mut cx);
    assert_eq!(cx.layout_style(id).background, 0xff0000);
}

#[test]
fn styled_element_paints_its_style_first() {
    let mut cx = ViewContext::new(Point::new(0, 0));
    let mut block = Block::new();
    let slot = block.reserve_style_slot();
    block.set_style_slot(slot, Some(StyleRefinement::new().border_width(2)));
    let mut el = StyledElement::new(block);
    let (_, mut st) = el.layout(None, &mut cx);
    el.paint(Bounds::new(1, 2, 3, 4), &mut st, &mut cx);
    assert_eq!(el.computed_style().border_width, 2);
}

#[test]
fn click_inside_calls_listener_once_and_clears_record() {
    let mut cx = ViewContext::new(Point::new(0, 0));
    let mut el = ClickableElement::new(Div::<Block>::new(), ElementId { value: 1 });
    el.on_click(ListenerId { value: 7 });
    let b = Bounds::new(0, 0, 100, 100);

    cx.begin_frame();
    let (id, mut st) = el.layout(None, &mut cx);
    cx.set_layout_bounds(id, b);
    el.paint(b, &mut st, &mut cx);
    let down = down_at(10, 10);
    cx.dispatch_mouse_down(&down);
    assert_eq!(cx.mouse_down(st.mouse_down), Some(down));
    assert!(cx.notified());

    cx.begin_frame();
    let (_, mut st) = el.layout(Some(st), &mut cx);
    el.paint(b, &mut st, &mut cx);
    let up = up_at(10, 10);
    let calls = cx.dispatch_mouse_up(&up);
    assert_eq!(calls, vec![(ListenerId { value: 7 }, MouseClickEvent { down, up })]);
    assert_eq!(cx.mouse_down(st.mouse_down), None);
    assert!(cx.notified());
}

#[test]
fn click_calls_every_listener_in_registration_order() {
    let mut cx = ViewContext::new(Point::new(0, 0));
    let mut el = ClickableElement::new(Block::new(), ElementId { value: 2 });
    el.on_click(ListenerId { value: 3 });
    el.on_click(ListenerId { value: 1 });
    el.on_click(ListenerId { value: 2 });
    let b = Bounds::new(0, 0, 50, 50);
    cx.begin_frame();
    let (_, mut st) = el.layout(None, &mut cx);
    el.paint(b, &mut st, &mut cx);
    let down = down_at(5, 5);
    cx.dispatch_mouse_down(&down);
    cx.begin_frame();
    let (_, mut st) = el.layout(Some(st), &mut cx);
    el.paint(b, &mut st, &mut cx);
    let up = up_at(6, 6);
    let calls = cx.dispatch_mouse_up(&up);
    let click = MouseClickEvent { down, up };
    assert_eq!(
        calls,
        vec![
            (ListenerId { value: 3 }, click),
            (ListenerId { value: 1 }, click),
            (ListenerId { value: 2 }, click)
        ]
    );
}

#[test]
fn release_outside_cancels_click() {
    let mut cx = ViewContext::new(Point::new(0, 0));
    let mut el = ClickableElement::new(Block::new(), ElementId { value: 3 });
    el.on_click(ListenerId { value: 1 });
    let b = Bounds::new(0, 0, 50, 50);
    cx.begin_frame();
    let (_, mut st) = el.layout(None, &mut cx);
    el.paint(b, &mut st, &mut cx);
    cx.dispatch_mouse_down(&down_at(5, 5));
    cx.begin_frame();
    let (_, mut st) = el.layout(Some(st), &mut cx);
    el.paint(b, &mut st, &mut cx);
    let calls = cx.dispatch_mouse_up(&up_at(80, 80));
    assert!(calls.is_empty());
    assert_eq!(cx.mouse_down(st.mouse_down), None);
    // a later release inside, with no press in between, fires nothing
    cx.begin_frame();
    let (_, mut st) = el.layout(Some(st), &mut cx);
    el.paint(b, &mut st, &mut cx);
    let calls = cx.dispatch_mouse_up(&up_at(5, 5));
    assert!(calls.is_empty());
}

#[test]
fn press_outside_is_ignored() {
    let mut cx = ViewContext::new(Point::new(0, 0));
    let mut el = ClickableElement::new(Block::new(), ElementId { value: 4 });
    el.on_click(ListenerId { value: 1 });
    let b = Bounds::new(0, 0, 50, 50);
    cx.begin_frame();
    let (_, mut st) = el.layout(None, &mut cx);
    el.paint(b, &mut st, &mut cx);
    cx.dispatch_mouse_down(&down_at(70, 5));
    assert_eq!(cx.mouse_down(st.mouse_down), None);
    assert!(!cx.notified());
}

#[test]
fn pressed_element_takes_active_style() {
    let mut cx = ViewContext::new(Point::new(0, 0));
    let mut el = ClickableElement::new(Block::new(), ElementId { value: 5 })
        .active(StyleRefinement::new().background(42));
    let b = Bounds::new(0, 0, 50, 50);
    cx.begin_frame();
    let (_, mut st) = el.layout(None, &mut cx);
    el.paint(b, &mut st, &mut cx);
    assert_eq!(el.computed_style().background, 0);
    cx.dispatch_mouse_down(&down_at(1, 1));
    cx.begin_frame();
    let (id, mut st) = el.layout(Some(st), &mut cx);
    assert_eq!(cx.layout_style(id).background, 42);
    el.paint(b, &mut st, &mut cx);
    assert_eq!(el.computed_style().background, 42);
}

#[test]
fn clickable_without_listeners_or_active_style_registers_nothing() {
    let mut cx = ViewContext::new(Point::new(0, 0));
    let mut el = ClickableElement::new(Block::new(), ElementId { value: 6 });
    let (_, mut st) = el.layout(None, &mut cx);
    el.paint(Bounds::new(0, 0, 5, 5), &mut st, &mut cx);
    cx.dispatch_mouse_down(&down_at(1, 1));
    assert_eq!(cx.mouse_down(st.mouse_down), None);
    assert_eq!(el.element_id(), Some(ElementId { value: 6 }));
}

#[test]
fn hover_follows_pointer_at_paint() {
    let mut cx = ViewContext::new(Point::new(150, 150));
    let mut el = Div::<Block>::new().hover(StyleRefinement::new().background(9));
    let b = Bounds::new(0, 0, 100, 100);
    cx.begin_frame();
    let (_, mut st) = el.layout(None, &mut cx);
    el.paint(b, &mut st, &mut cx);
    assert!(!cx.hover_flag(st.hovered));
    assert_eq!(el.computed_style().background, 0);

    cx.dispatch_mouse_move(&MouseMoveEvent { position: Point::new(50, 50) });
    // the move asks for a redraw but leaves the flag as the last paint set it
    assert!(cx.notified());
    assert!(!cx.hover_flag(st.hovered));

    cx.begin_frame();
    let (_, mut st) = el.layout(Some(st), &mut cx);
    el.paint(b, &mut st, &mut cx);
    assert!(cx.hover_flag(st.hovered));
    assert_eq!(el.computed_style().background, 9);
}

#[test]
fn move_without_containment_change_asks_no_redraw() {
    let mut cx = ViewContext::new(Point::new(10, 10));
    let mut el = HoverableElement::new(Block::new());
    let b = Bounds::new(0, 0, 100, 100);
    let (_, mut st) = el.layout(None, &mut cx);
    el.paint(b, &mut st, &mut cx);
    assert!(el.is_hovered(&st, &cx));
    cx.dispatch_mouse_move(&MouseMoveEvent { position: Point::new(20, 20) });
    assert!(!cx.notified());
}

#[test]
fn hover_uses_group_bounds_and_falls_back_to_own() {
    let mut cx = ViewContext::new(Point::new(250, 250));
    cx.set_group_bounds(String::from("card"), Bounds::new(200, 200, 100, 100));
    let b = Bounds::new(0, 0, 100, 100);

    let mut grouped = Div::<Block>::new().group(String::from("card")).hover(StyleRefinement::new().background(1));
    let (_, mut st) = grouped.layout(None, &mut cx);
    grouped.paint(b, &mut st, &mut cx);
    assert!(cx.hover_flag(st.hovered));

    let mut missing = Div::<Block>::new().group(String::from("none")).hover(StyleRefinement::new().background(1));
    let (_, mut st2) = missing.layout(None, &mut cx);
    missing.paint(b, &mut st2, &mut cx);
    assert!(!cx.hover_flag(st2.hovered));
    assert_eq!(cx.group_bounds(&String::from("card")), Some(Bounds::new(200, 200, 100, 100)));
    assert_eq!(cx.group_bounds(&String::from("none")), None);
}

#[test]
fn listeners_are_dropped_at_frame_start() {
    let mut cx = ViewContext::new(Point::new(0, 0));
    let record = cx.new_mouse_down_record();
    cx.on_mouse_event(MouseListener::Press { bounds: Bounds::new(0, 0, 1, 1), record });
    cx.notify();
    cx.begin_frame();
    assert!(!cx.notified());
    cx.dispatch_mouse_down(&down_at(0, 0));
    assert!(!cx.notified());
}

#[test]
fn second_release_before_repaint_fires_nothing() {
    let mut cx = ViewContext::new(Point::new(0, 0));
    let mut el = ClickableElement::new(Block::new(), ElementId { value: 8 });
    el.on_click(ListenerId { value: 1 });
    let b = Bounds::new(0, 0, 50, 50);
    cx.begin_frame();
    let (_, mut st) = el.layout(None, &mut cx);
    el.paint(b, &mut st, &mut cx);
    cx.dispatch_mouse_down(&down_at(5, 5));
    cx.begin_frame();
    let (_, mut st) = el.layout(Some(st), &mut cx);
    el.paint(b, &mut st, &mut cx);
    assert!(cx.dispatch_mouse_up(&up_at(90, 90)).is_empty());
    // the release listener of this frame is still registered, but its record is now empty
    assert!(cx.dispatch_mouse_up(&up_at(5, 5)).is_empty());
}

#[test]
fn node_paints_children_in_their_solved_bounds() {
    let mut cx = ViewContext::new(Point::new(0, 0));
    let mut node = LayoutNodeState::new().children(vec![Block::new(), Block::new()]);
    let (_, mut st) = node.layout(None, &mut cx);
    cx.set_layout_bounds(st.child_layout_ids[0], Bounds::new(1, 1, 5, 5));
    let parent = Bounds::new(0, 0, 20, 20);
    node.paint(parent, &mut st, &mut cx);
    assert_eq!(st.painted_bounds, vec![Bounds::new(1, 1, 5, 5), parent]);
}
