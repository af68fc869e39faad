//! Cells and rectangles of the terminal.

use vstd::prelude::*;

verus! {

/// A cell.
#[derive(Clone, Copy, Debug, PartialEq, Eq, Structural)]
pub struct Position {
    pub x: u16,
    pub y: u16,
}

/// A rectangle of cells.
#[derive(Clone, Copy, Debug, PartialEq, Eq, Structural)]
pub struct Rect {
    pub x: u16,
    pub y: u16,
    pub width: u16,
    pub height: u16,
}

/// The sum of two coordinates, at most the largest one.
pub open spec fn sum16(a: int, b: int) -> int {
    if a + b > u16::MAX {
        u16::MAX as int
    } else {
        a + b
    }
}

/// The difference of two numbers, 0 where it would be negative.
pub open spec fn minus(a: int, b: int) -> int {
    if a < b {
        0
    } else {
        a - b
    }
}

/// The smaller of two numbers.
pub open spec fn least(a: int, b: int) -> int {
    if a <= b {
        a
    } else {
        b
    }
}

/// The larger of two numbers.
pub open spec fn most(a: int, b: int) -> int {
    if a >= b {
        a
    } else {
        b
    }
}

/// A number as a coordinate, at most the largest one.
pub open spec fn cell16(n: int) -> int {
    least(n, u16::MAX as int)
}

/// `n` as a coordinate, at most the largest one.
pub fn to_cell(n: usize) -> (cell: u16)
    ensures
        cell == cell16(n as int),
{
    if n > 65535 {
        65535
    } else {
        n as u16
    }
}

/// A multiple of a number of cells, or the largest one that there is.
pub fn times(n: u16, factor: u16) -> (cells: u16)
    ensures
        cells == cell16(n * factor),
{
    assert(n * factor <= 65_535 * 65_535) by (nonlinear_arith)
        requires
            n <= 65_535,
            factor <= 65_535,
    ;
    let product: u32 = (n as u32) * (factor as u32);
    if product > 65_535 {
        65_535
    } else {
        product as u16
    }
}

/// The smaller of two coordinates.
pub fn smaller(a: u16, b: u16) -> (m: u16)
    ensures
        m == least(a as int, b as int),
{
    if a <= b {
        a
    } else {
        b
    }
}

/// The larger of two coordinates.
pub fn larger(a: u16, b: u16) -> (m: u16)
    ensures
        m == most(a as int, b as int),
{
    if a >= b {
        a
    } else {
        b
    }
}

impl Rect {
    /// A rectangle that ends within the coordinates.
    pub open spec fn fits(self) -> bool {
        self.x + self.width <= u16::MAX && self.y + self.height <= u16::MAX
    }

    pub open spec fn right_edge(self) -> int {
        sum16(self.x as int, self.width as int)
    }

    pub open spec fn bottom_edge(self) -> int {
        sum16(self.y as int, self.height as int)
    }

    pub open spec fn covers(self, p: Position) -> bool {
        self.x <= p.x < self.right_edge() && self.y <= p.y < self.bottom_edge()
    }

    pub open spec fn empty(self) -> bool {
        self.width == 0 || self.height == 0
    }

    /// The rectangle without a cell at the origin.
    pub fn none() -> (area: Rect)
        ensures
            area == (Rect { x: 0, y: 0, width: 0, height: 0 }),
    {
        Rect { x: 0, y: 0, width: 0, height: 0 }
    }

    /// The first column to the right of the rectangle.
    pub fn right(&self) -> (edge: u16)
        ensures
            edge == self.right_edge(),
    {
        self.x.saturating_add(self.width)
    }

    /// The first row below the rectangle.
    pub fn bottom(&self) -> (edge: u16)
        ensures
            edge == self.bottom_edge(),
    {
        self.y.saturating_add(self.height)
    }

    /// Whether a cell lies in the rectangle.
    pub fn contains(&self, p: Position) -> (yes: bool)
        ensures
            yes == self.covers(p),
    {
        self.x <= p.x && p.x < self.right() && self.y <= p.y && p.y < self.bottom()
    }

    /// Whether the rectangle has no cell.
    pub fn is_empty(&self) -> (yes: bool)
        ensures
            yes == self.empty(),
    {
        self.width == 0 || self.height == 0
    }
}

/// A coordinate moved into a range, to its lower end where the range is empty.
pub open spec fn clamped(n: int, low: int, high: int) -> int {
    if n < low {
        low
    } else if n > high {
        most(low, high)
    } else {
        n
    }
}

/// The cell of a rectangle that is nearest to a position.
pub open spec fn nearest(p: Position, area: Rect) -> Position {
    Position {
        x: clamped(p.x as int, area.x as int, minus(area.right_edge(), 1)) as u16,
        y: clamped(p.y as int, area.y as int, minus(area.bottom_edge(), 1)) as u16,
    }
}

fn clamp(n: u16, low: u16, high: u16) -> (m: u16)
    ensures
        m == clamped(n as int, low as int, high as int),
{
    if n < low {
        low
    } else if n > high {
        larger(low, high)
    } else {
        n
    }
}

/// The cell of a rectangle that is nearest to a position.
pub fn clamp_to(p: Position, area: Rect) -> (cell: Position)
    ensures
        cell == nearest(p, area),
        area.fits() && !area.empty() ==> area.covers(cell),
{
    Position {
        x: clamp(p.x, area.x, area.right().saturating_sub(1)),
        y: clamp(p.y, area.y, area.bottom().saturating_sub(1)),
    }
}

/// A rectangle of at most the given size in the middle of an area.
pub open spec fn middle(area: Rect, width: int, height: int) -> Rect {
    let w = least(width, area.width as int);
    let h = least(height, area.height as int);
    Rect {
        x: (area.x + (area.width - w) / 2) as u16,
        y: (area.y + (area.height - h) / 2) as u16,
        width: w as u16,
        height: h as u16,
    }
}

/// Places a rectangle of at most the given size in the middle of an area.
pub fn centered(area: Rect, width: u16, height: u16) -> (popup: Rect)
    requires
        area.fits(),
    ensures
        popup == middle(area, width as int, height as int),
        popup.fits(),
        area.x <= popup.x && popup.x + popup.width <= area.x + area.width,
        area.y <= popup.y && popup.y + popup.height <= area.y + area.height,
{
    let w: u16 = smaller(width, area.width);
    let h: u16 = smaller(height, area.height);
    Rect { x: area.x + (area.width - w) / 2, y: area.y + (area.height - h) / 2, width: w, height: h }
}

/// A rectangle of at most the given size in the middle of an area's first rows.
pub open spec fn top_middle(area: Rect, width: int, height: int) -> Rect {
    let w = least(width, area.width as int);
    Rect {
        x: (area.x + (area.width - w) / 2) as u16,
        y: area.y,
        width: w as u16,
        height: least(height, area.height as int) as u16,
    }
}

/// Places a rectangle of at most the given size in the middle of an area's first rows.
pub fn top_centered(area: Rect, width: u16, height: u16) -> (popup: Rect)
    requires
        area.fits(),
    ensures
        popup == top_middle(area, width as int, height as int),
        popup.fits(),
        area.x <= popup.x && popup.x + popup.width <= area.x + area.width,
        area.y <= popup.y && popup.y + popup.height <= area.y + area.height,
{
    let w: u16 = smaller(width, area.width);
    let h: u16 = smaller(height, area.height);
    Rect { x: area.x + (area.width - w) / 2, y: area.y, width: w, height: h }
}

/// Cuts the last row off a rectangle: what is left, and the row. An empty rectangle is both.
pub fn split_footer(inner: Rect) -> (parts: (Rect, Rect))
    requires
        inner.fits(),
    ensures
        inner.empty() ==> parts == (inner, inner),
        !inner.empty() ==> parts.0 == (Rect { height: (inner.height - 1) as u16, ..inner })
            && parts.1 == (Rect { y: (inner.y + inner.height - 1) as u16, height: 1, ..inner }),
        parts.0.fits() && parts.1.fits(),
{
    if inner.is_empty() {
        return (inner, inner);
    }
    let footer = Rect { x: inner.x, y: inner.bottom() - 1, width: inner.width, height: 1 };
    let body = Rect { x: inner.x, y: inner.y, width: inner.width, height: inner.height - 1 };
    (body, footer)
}

/// The rectangle inside a border one cell wide.
pub open spec fn inside(area: Rect) -> Rect {
    Rect {
        x: sum16(area.x as int, if area.width == 0 { 0 } else { 1 }) as u16,
        y: sum16(area.y as int, if area.height == 0 { 0 } else { 1 }) as u16,
        width: minus(area.width as int, 2) as u16,
        height: minus(area.height as int, 2) as u16,
    }
}

/// The rectangle inside a border one cell wide.
pub fn inner(area: Rect) -> (body: Rect)
    requires
        area.fits(),
    ensures
        body == inside(area),
        body.fits(),
{
    Rect {
        x: if area.width == 0 {
            area.x
        } else {
            area.x.saturating_add(1)
        },
        y: if area.height == 0 {
            area.y
        } else {
            area.y.saturating_add(1)
        },
        width: area.width.saturating_sub(2),
        height: area.height.saturating_sub(2),
    }
}

/// A centred popup lies in the area that it is centred in.
pub proof fn law_popups_stay_inside(area: Rect, width: int, height: int, p: Position)
    requires
        area.fits(),
        0 <= width,
        0 <= height,
        middle(area, width, height).covers(p),
    ensures
        area.covers(p),
{
}

} // verus!
