use pulse_shell::geometry::{
    clamp_to_window, effective_content_bounds, fallback_content_bounds, ContentBounds, Rect,
};

fn rect(x: i32, y: i32, width: i32, height: i32) -> Rect {
    Rect { x, y, width, height }
}

#[test]
fn fallback_for_default_window() {
    let r = fallback_content_bounds(&rect(0, 0, 1440, 900));
    assert_eq!(r, rect(345, 104, 1071, 772));
}

#[test]
fn fallback_never_degenerate_on_tiny_window() {
    let r = fallback_content_bounds(&rect(0, 0, 10, 10));
    assert_eq!(r, rect(345, 104, 1, 1));
}

#[test]
fn clamp_keeps_rect_inside_window() {
    let window = rect(0, 0, 800, 600);
    let r = clamp_to_window(rect(700, 500, 400, 400), &window);
    assert_eq!(r, rect(700, 500, 100, 100));
    assert!(r.x + r.width <= window.width);
    assert!(r.y + r.height <= window.height);
}

#[test]
fn clamp_moves_negative_origin_and_fixes_size() {
    let window = rect(0, 0, 800, 600);
    let r = clamp_to_window(rect(-50, -10, 0, -5), &window);
    assert_eq!(r, rect(0, 0, 1, 1));
}

#[test]
fn clamp_origin_past_window_edge() {
    let window = rect(0, 0, 2, 2);
    let r = clamp_to_window(rect(100, 100, 100, 100), &window);
    assert_eq!(r, rect(1, 1, 1, 1));
}

#[test]
fn clamp_on_extreme_values() {
    let window = rect(0, 0, i32::MAX, i32::MAX);
    let r = clamp_to_window(rect(i32::MIN, i32::MAX, i32::MAX, i32::MIN), &window);
    assert_eq!(r, rect(0, i32::MAX - 1, i32::MAX, 1));
}

#[test]
fn effective_bounds_prefer_request() {
    let window = rect(0, 0, 1440, 900);
    let requested = ContentBounds { x: 10, y: 20, width: 300, height: 200 };
    assert_eq!(effective_content_bounds(Some(requested), &window), rect(10, 20, 300, 200));
    assert_eq!(effective_content_bounds(None, &window), rect(345, 104, 1071, 772));
}

#[test]
fn content_bounds_to_rect() {
    let b = ContentBounds { x: 1, y: 2, width: 3, height: 4 };
    assert_eq!(b.to_rect(), rect(1, 2, 3, 4));
}
