use gpui3::cascade::StyleCascade;
use gpui3::geometry::{Bounds, Point};
use gpui3::style::{Style, StyleRefinement};

#[test]
fn empty_cascade_resolves_to_default() {
    let c = StyleCascade::new();
    assert_eq!(c.merged(), StyleRefinement::new());
    assert_eq!(c.resolve(), Style::new());
}

#[test]
fn later_slot_wins_on_overlapping_fields() {
    let mut c = StyleCascade::new();
    let a = c.reserve();
    let b = c.reserve();
    let z = c.reserve();
    // set in reverse slot order: the merge still follows slot order
    c.set(z, None);
    c.set(b, Some(StyleRefinement::new().background(2)));
    c.set(a, Some(StyleRefinement::new().background(1).border_width(3)));
    let m = c.merged();
    assert_eq!(m.background, Some(2));
    assert_eq!(m.border_width, Some(3));
    assert_eq!(m.border_color, None);
    let s = c.resolve();
    assert_eq!(s.background, 2);
    assert_eq!(s.border_width, 3);
    assert_eq!(s.corner_radius, 0);
}

#[test]
fn clearing_a_slot_removes_its_contribution() {
    let mut c = StyleCascade::new();
    let a = c.reserve();
    let b = c.reserve();
    c.set(a, Some(StyleRefinement::new().background(1)));
    c.set(b, Some(StyleRefinement::new().background(9)));
    assert_eq!(c.resolve().background, 9);
    c.set(b, None);
    assert_eq!(c.resolve().background, 1);
    assert_eq!(c.get(b), None);
    assert_eq!(c.len(), 2);
}

#[test]
fn setting_a_slot_twice_overwrites() {
    let mut c = StyleCascade::new();
    let a = c.reserve();
    c.set(a, Some(StyleRefinement::new().corner_radius(4)));
    c.set(a, Some(StyleRefinement::new().corner_radius(6)));
    assert_eq!(c.len(), 1);
    assert_eq!(c.resolve().corner_radius, 6);
    assert_eq!(a.index(), 0);
}

#[test]
fn refine_keeps_unset_fields() {
    let mut r = StyleRefinement::new().background(5).border_color(7);
    r.refine(&StyleRefinement::new().background(8));
    assert_eq!(r, StyleRefinement::new().background(8).border_color(7));
    assert!(r.is_some());
    assert!(!StyleRefinement::new().is_some());
    let s = Style::new().refined(r);
    assert_eq!(s.background, 8);
    assert_eq!(s.border_color, 7);
}

#[test]
fn contains_point_includes_edges() {
    let b = Bounds::new(0, 0, 100, 100);
    assert!(b.contains_point(Point::new(0, 0)));
    assert!(b.contains_point(Point::new(100, 100)));
    assert!(b.contains_point(Point::new(50, 50)));
    assert!(!b.contains_point(Point::new(101, 50)));
    assert!(!b.contains_point(Point::new(150, 150)));
    assert!(!b.contains_point(Point::new(-1, 0)));
    let far = Bounds::new(i32::MAX - 1, 0, i32::MAX, 10);
    assert!(far.contains_point(Point::new(i32::MAX, 5)));
}
