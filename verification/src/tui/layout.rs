//! Placing overlays: a rectangle centred in another, and the inside of a
//! bordered one.
use vstd::prelude::*;

verus! {

/// A rectangle of terminal cells.
#[derive(Clone, Copy, Debug, PartialEq, Eq, Structural)]
pub struct Rect {
    pub x: u16,
    pub y: u16,
    pub width: u16,
    pub height: u16,
}

impl Rect {
    pub fn new(x: u16, y: u16, width: u16, height: u16) -> (r: Rect)
        ensures
            r == (Rect { x, y, width, height }),
    {
        Rect { x, y, width, height }
    }
}

/// `a - b`, or 0 when `b` is larger.
pub open spec fn sat_sub(a: u16, b: u16) -> int {
    if a >= b { a - b } else { 0 }
}

/// The rectangle of `width_pct` percent of `area`'s width (rounded down)
/// and `height_rows` rows, centred in `area` (leftover cells split with the
/// odd one after).
pub open spec fn centered_spec(area: Rect, width_pct: u16, height_rows: u16) -> Rect {
    let w = (area.width * width_pct / 100) as u16;
    Rect {
        x: (area.x + sat_sub(area.width, w) / 2) as u16,
        y: (area.y + sat_sub(area.height, height_rows) / 2) as u16,
        width: w,
        height: height_rows,
    }
}

/// Centres a rectangle in `area`.
pub fn centered_rect(area: Rect, width_pct: u16, height_rows: u16) -> (r: Rect)
    requires
        area.width * width_pct <= u16::MAX,
        area.x + sat_sub(area.width, (area.width * width_pct / 100) as u16) / 2 <= u16::MAX,
        area.y + sat_sub(area.height, height_rows) / 2 <= u16::MAX,
    ensures
        r == centered_spec(area, width_pct, height_rows),
{
    let w: u16 = area.width * width_pct / 100;
    let h: u16 = height_rows;
    let dx: u16 = if area.width >= w { area.width - w } else { 0 };
    let dy: u16 = if area.height >= h { area.height - h } else { 0 };
    Rect { x: area.x + dx / 2, y: area.y + dy / 2, width: w, height: h }
}

/// The inside of `area` once its one-cell border is removed.
pub fn inner(area: Rect) -> (r: Rect)
    requires
        area.x + 1 <= u16::MAX,
        area.y + 1 <= u16::MAX,
    ensures
        r.x == area.x + 1,
        r.y == area.y + 1,
        r.width == sat_sub(area.width, 2),
        r.height == sat_sub(area.height, 2),
{
    Rect {
        x: area.x + 1,
        y: area.y + 1,
        width: if area.width >= 2 { area.width - 2 } else { 0 },
        height: if area.height >= 2 { area.height - 2 } else { 0 },
    }
}

/// A centred rectangle lies within `area` when it is not wider or taller.
pub proof fn lemma_centered_within(area: Rect, width_pct: u16, height_rows: u16)
    requires
        width_pct <= 100,
        height_rows <= area.height,
        area.x + area.width <= u16::MAX,
        area.y + area.height <= u16::MAX,
    ensures
        ({
            let r = centered_spec(area, width_pct, height_rows);
            &&& area.x <= r.x
            &&& r.x + r.width <= area.x + area.width
            &&& area.y <= r.y
            &&& r.y + r.height <= area.y + area.height
        }),
{
    let w = area.width * width_pct / 100;
    assert(area.width * width_pct <= area.width * 100) by (nonlinear_arith)
        requires
            width_pct <= 100,
    ;
    assert(w <= area.width);
}

} // verus!
