use vstd::prelude::*;

verus! {

/// A rectangle in window-relative logical units.
#[derive(Clone, Copy, Debug, PartialEq, Eq, Structural)]
pub struct Rect {
    pub x: i32,
    pub y: i32,
    pub width: i32,
    pub height: i32,
}

/// The rectangle the chrome UI requests for content tabs.
#[derive(Clone, Copy, Debug, PartialEq, Eq, Structural)]
pub struct ContentBounds {
    pub x: i32,
    pub y: i32,
    pub width: i32,
    pub height: i32,
}

impl ContentBounds {
    /// The same rectangle as a `Rect`.
    pub fn to_rect(self) -> (r: Rect)
        ensures
            r == (Rect { x: self.x, y: self.y, width: self.width, height: self.height }),
    {
        Rect { x: self.x, y: self.y, width: self.width, height: self.height }
    }
}


/// Outer margin of the chrome layout.
pub const LAYOUT_MARGIN: i32 = 12;

/// Width of the chrome sidebar.
pub const SIDEBAR_WIDTH: i32 = 320;

/// Height of the section header above the content area.
pub const SECTION_HEADER_HEIGHT: i32 = 48;

/// Padding around the content surface.
pub const SURFACE_PADDING: i32 = 12;

/// Height of the tab strip above the content surface.
pub const TAB_STRIP_HEIGHT: i32 = 32;

/// Left edge of the fallback content rectangle.
pub const FALLBACK_X: i32 = LAYOUT_MARGIN + SIDEBAR_WIDTH + 1 + SURFACE_PADDING;

/// Top edge of the fallback content rectangle.
pub const FALLBACK_Y: i32 = LAYOUT_MARGIN + SECTION_HEADER_HEIGHT + SURFACE_PADDING
    + TAB_STRIP_HEIGHT;

/// The larger of two integers.
pub open spec fn max_int(a: int, b: int) -> int {
    if a >= b {
        a
    } else {
        b
    }
}

/// The smaller of two integers.
pub open spec fn min_int(a: int, b: int) -> int {
    if a <= b {
        a
    } else {
        b
    }
}

/// `v` brought into `[lo, hi]` (for `lo <= hi`).
pub open spec fn clamp_int(v: int, lo: int, hi: int) -> int {
    max_int(lo, min_int(v, hi))
}

/// The content rectangle used before the chrome UI reports one: fixed
/// offsets from the window's top-left corner, the rest of the window
/// minus margin and padding, and never less than one unit wide or high.
pub open spec fn fallback_rect(window: Rect) -> Rect {
    Rect {
        x: FALLBACK_X,
        y: FALLBACK_Y,
        width: max_int(window.width - FALLBACK_X - LAYOUT_MARGIN - SURFACE_PADDING, 1) as i32,
        height: max_int(window.height - FALLBACK_Y - LAYOUT_MARGIN - SURFACE_PADDING, 1) as i32,
    }
}

/// `rect` moved and shrunk into `window`: the origin into
/// `[0, window_dim - 1]`, the size into `[1, window_dim - origin]`.
pub open spec fn clamped_rect(rect: Rect, window: Rect) -> Rect {
    let x = clamp_int(rect.x as int, 0, max_int(window.width - 1, 0));
    let y = clamp_int(rect.y as int, 0, max_int(window.height - 1, 0));
    Rect {
        x: x as i32,
        y: y as i32,
        width: min_int(max_int(rect.width as int, 1), max_int(window.width - x, 1)) as i32,
        height: min_int(max_int(rect.height as int, 1), max_int(window.height - y, 1)) as i32,
    }
}

/// The rectangle content tabs are shown at: the requested bounds, or the
/// fallback, clamped into the window.
pub open spec fn effective_rect(requested: Option<ContentBounds>, window: Rect) -> Rect {
    let base = match requested {
        Some(b) => Rect { x: b.x, y: b.y, width: b.width, height: b.height },
        None => fallback_rect(window),
    };
    clamped_rect(base, window)
}

/// Computes the content rectangle used until the chrome UI reports one.
pub fn fallback_content_bounds(window_bounds: &Rect) -> (r: Rect)
    ensures
        r == fallback_rect(*window_bounds),
{
    let x: i64 = FALLBACK_X as i64;
    let y: i64 = FALLBACK_Y as i64;
    let width: i64 = window_bounds.width as i64 - x - LAYOUT_MARGIN as i64 - SURFACE_PADDING as i64;
    let height: i64 = window_bounds.height as i64 - y - LAYOUT_MARGIN as i64
        - SURFACE_PADDING as i64;
    let width: i64 = if width >= 1 {
        width
    } else {
        1
    };
    let height: i64 = if height >= 1 {
        height
    } else {
        1
    };
    Rect { x: x as i32, y: y as i32, width: width as i32, height: height as i32 }
}

/// Moves and shrinks `rect` so that it lies inside `window`, keeping at least
/// one unit of width and height.
pub fn clamp_to_window(rect: Rect, window: &Rect) -> (r: Rect)
    ensures
        r == clamped_rect(rect, *window),
{
    let max_x: i64 = if window.width as i64 - 1 >= 0 {
        window.width as i64 - 1
    } else {
        0
    };
    let max_y: i64 = if window.height as i64 - 1 >= 0 {
        window.height as i64 - 1
    } else {
        0
    };
    let x: i64 = clamp_i64(rect.x as i64, 0, max_x);
    let y: i64 = clamp_i64(rect.y as i64, 0, max_y);
    let max_width: i64 = if window.width as i64 - x >= 1 {
        window.width as i64 - x
    } else {
        1
    };
    let max_height: i64 = if window.height as i64 - y >= 1 {
        window.height as i64 - y
    } else {
        1
    };
    let width: i64 = if rect.width >= 1 {
        rect.width as i64
    } else {
        1
    };
    let height: i64 = if rect.height >= 1 {
        rect.height as i64
    } else {
        1
    };
    let width: i64 = if width <= max_width {
        width
    } else {
        max_width
    };
    let height: i64 = if height <= max_height {
        height
    } else {
        max_height
    };
    Rect { x: x as i32, y: y as i32, width: width as i32, height: height as i32 }
}

fn clamp_i64(v: i64, lo: i64, hi: i64) -> (r: i64)
    requires
        lo <= hi,
    ensures
        r == clamp_int(v as int, lo as int, hi as int),
{
    if v < lo {
        lo
    } else if v > hi {
        hi
    } else {
        v
    }
}

/// Computes the rectangle content tabs are shown at.
pub fn effective_content_bounds(requested: Option<ContentBounds>, window_bounds: &Rect) -> (r: Rect)
    ensures
        r == effective_rect(requested, *window_bounds),
{
    let base = match requested {
        Some(b) => b.to_rect(),
        None => fallback_content_bounds(window_bounds),
    };
    clamp_to_window(base, window_bounds)
}

/// For a window at least two units wide and high, whatever content
/// rectangle is requested (or none), the rectangle content is shown at lies
/// inside the window and is at least one unit wide and high.
pub proof fn lemma_content_stays_inside(requested: Option<ContentBounds>, window: Rect)
    requires
        window.width >= 2,
        window.height >= 2,
    ensures
        effective_rect(requested, window).x >= 0,
        effective_rect(requested, window).y >= 0,
        effective_rect(requested, window).x + effective_rect(requested, window).width
            <= window.width,
        effective_rect(requested, window).y + effective_rect(requested, window).height
            <= window.height,
        effective_rect(requested, window).width >= 1,
        effective_rect(requested, window).height >= 1,
{
}

} // verus!
