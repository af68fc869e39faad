//! Mouse selection over what is drawn.

use crate::geometry::{clamp_to, minus, nearest, Position, Rect};
use crate::order::texts;
use crate::text::{
    characters, display_width, is_white_space, joined, white_space, width, without_blank_end,
};
use vstd::prelude::*;

verus! {

/// A part of the screen that text can be selected in.
#[derive(Clone, Copy, Debug, PartialEq, Eq, Structural)]
pub enum Surface {
    Transcript,
    Composer,
}

/// A cell of a surface.
#[derive(Clone, Copy, Debug, PartialEq, Eq, Structural)]
pub struct Point {
    pub surface: Surface,
    pub position: Position,
}

/// A selection from one cell to another.
#[derive(Clone, Copy, Debug, PartialEq, Eq, Structural)]
pub struct Span {
    pub anchor: Point,
    pub head: Point,
}

/// The cells of an area when it was drawn last.
#[derive(Debug)]
pub struct Snapshot {
    pub area: Rect,
    pub rows: Vec<Vec<String>>,
}

/// A click that may become a selection, a selection, and the cells to take its text from.
#[derive(Debug)]
pub struct Selection {
    pub pending: Option<Point>,
    pub range: Option<Span>,
    pub snapshot: Option<Snapshot>,
}

/// The selected part of a row.
#[derive(Clone, Copy, Debug, PartialEq, Eq, Structural)]
pub struct SelectedRow {
    pub y: u16,
    pub start: u16,
    pub end: u16,
}

/// The cell that comes first in reading order.
pub open spec fn first_of(a: Position, b: Position) -> Position {
    if a.y < b.y || a.y == b.y && a.x <= b.x {
        a
    } else {
        b
    }
}

/// The cell that comes last in reading order.
pub open spec fn last_of(a: Position, b: Position) -> Position {
    if a.y < b.y || a.y == b.y && a.x <= b.x {
        b
    } else {
        a
    }
}

/// Two cells in reading order.
pub fn ordered(left: Position, right: Position) -> (pair: (Position, Position))
    ensures
        pair == (first_of(left, right), last_of(left, right)),
{
    if left.y < right.y || (left.y == right.y && left.x <= right.x) {
        (left, right)
    } else {
        (right, left)
    }
}

impl Span {
    pub open spec fn first(self) -> Position {
        first_of(self.anchor.position, self.head.position)
    }

    pub open spec fn last(self) -> Position {
        last_of(self.anchor.position, self.head.position)
    }

    /// The selected part of row `y`: the whole row, but for the first and the last one.
    pub open spec fn row(self, area: Rect, y: int) -> SelectedRow {
        SelectedRow {
            y: y as u16,
            start: if y == self.first().y {
                self.first().x
            } else {
                area.x
            },
            end: if y == self.last().y {
                self.last().x
            } else {
                minus(area.right_edge(), 1) as u16
            },
        }
    }

    /// The selected rows.
    pub open spec fn rows(self, area: Rect) -> Seq<SelectedRow> {
        Seq::new(
            (self.last().y - self.first().y + 1) as nat,
            |i: int| self.row(area, self.first().y + i),
        )
    }
}

/// The selected part of each row.
pub fn selected_rows(range: Span, area: Rect) -> (rows: Vec<SelectedRow>)
    ensures
        rows@ == range.rows(area),
{
    let (start, end) = ordered(range.anchor.position, range.head.position);
    let mut rows: Vec<SelectedRow> = Vec::new();
    let mut n: u16 = 0;
    let count: u32 = (end.y - start.y) as u32 + 1;
    while (n as u32) < count
        invariant
            start == range.first(),
            end == range.last(),
            count == end.y - start.y + 1,
            n <= count,
            rows@ == range.rows(area).take(n as int),
        decreases count - n,
    {
        let y: u16 = start.y + n;
        rows.push(
            SelectedRow {
                y,
                start: if y == start.y {
                    start.x
                } else {
                    area.x
                },
                end: if y == end.y {
                    end.x
                } else {
                    area.right().saturating_sub(1)
                },
            },
        );
        assert(rows@ =~= range.rows(area).take(n + 1));
        if y == end.y {
            assert(rows@ =~= range.rows(area));
            return rows;
        }
        n = n + 1;
    }
    assert(rows@ =~= range.rows(area));
    rows
}

/// The symbols of the first `n` cells of a row and the number of cells that the last wide one still
/// covers. Covered cells hold nothing.
pub open spec fn captured(cells: Seq<Seq<char>>, n: int) -> (Seq<Seq<char>>, int)
    decreases n,
{
    if n <= 0 {
        (Seq::empty(), 0)
    } else {
        let (before, covered) = captured(cells, n - 1);
        if covered > 0 {
            (before.push(Seq::empty()), covered - 1)
        } else {
            (before.push(cells[n - 1]), minus(display_width(cells[n - 1]) as int, 1))
        }
    }
}

/// Takes the symbols of a row; the cells that a wide symbol covers hold nothing.
pub fn capture_row(cells: &Vec<String>) -> (row: Vec<String>)
    ensures
        texts(row@) == captured(texts(cells@), cells@.len() as int).0,
{
    let mut row: Vec<String> = Vec::new();
    let mut continuation: usize = 0;
    let mut i: usize = 0;
    assert(texts(row@) =~= captured(texts(cells@), 0).0);
    while i < cells.len()
        invariant
            i <= cells@.len(),
            (texts(row@), continuation as int) == captured(texts(cells@), i as int),
        decreases cells@.len() - i,
    {
        let ghost sofar = texts(row@);
        assert(texts(cells@)[i as int] == cells@[i as int]@);
        if continuation > 0 {
            continuation = continuation - 1;
            let empty = String::new();
            row.push(empty);
            assert(texts(row@) =~= sofar.push(Seq::empty()));
        } else {
            continuation = width(cells[i].as_str()).saturating_sub(1);
            let symbol: String = cells[i].clone();
            row.push(symbol);
            assert(texts(row@) =~= sofar.push(symbol@));
        }
        i = i + 1;
    }
    row
}

/// The symbols of all rows, taken row by row.
pub open spec fn captured_rows(cells: Seq<Vec<String>>) -> Seq<Seq<Seq<char>>> {
    cells.map_values(
        |row: Vec<String>| captured(texts(row@), row@.len() as int).0,
    )
}

/// The symbols of the rows of a snapshot.
pub open spec fn row_texts(rows: Seq<Vec<String>>) -> Seq<Seq<Seq<char>>> {
    rows.map_values(|row: Vec<String>| texts(row@))
}

impl Snapshot {
    /// Takes the symbols of an area, given row by row.
    pub fn capture(area: Rect, cells: &Vec<Vec<String>>) -> (snapshot: Snapshot)
        ensures
            snapshot.area == area,
            row_texts(snapshot.rows@) == captured_rows(cells@),
    {
        let mut rows: Vec<Vec<String>> = Vec::new();
        let mut i: usize = 0;
        while i < cells.len()
            invariant
                i <= cells@.len(),
                row_texts(rows@) == captured_rows(cells@).take(i as int),
            decreases cells@.len() - i,
        {
            let ghost sofar = row_texts(rows@);
            let row: Vec<String> = capture_row(&cells[i]);
            rows.push(row);
            i = i + 1;
            assert(row_texts(rows@) =~= sofar.push(texts(row@)));
            assert(row_texts(rows@) =~= captured_rows(cells@).take(i as int));
        }
        assert(row_texts(rows@) =~= captured_rows(cells@));
        Snapshot { area, rows }
    }

    /// A row's selected part lies in the snapshot.
    pub open spec fn has(self, row: SelectedRow) -> bool {
        let y = minus(row.y as int, self.area.y as int);
        let start = minus(row.start as int, self.area.x as int);
        let end = minus(row.end as int, self.area.x as int);
        y < self.rows@.len() && start <= end + 1 && end < self.rows@[y]@.len()
    }

    /// The text of a row's selected part, without the white space at its end.
    pub open spec fn line(self, row: SelectedRow) -> Seq<char> {
        let y = minus(row.y as int, self.area.y as int);
        let start = minus(row.start as int, self.area.x as int);
        let end = minus(row.end as int, self.area.x as int);
        without_blank_end(joined(texts(self.rows@[y]@).subrange(start, end + 1)))
    }

    /// The text of the first `n` selected rows, and whether there is any row. Rows outside of the
    /// snapshot are left out.
    pub open spec fn copied(self, rows: Seq<SelectedRow>, n: int) -> (Seq<char>, bool)
        decreases n,
    {
        if n <= 0 {
            (Seq::empty(), false)
        } else {
            let (before, some) = self.copied(rows, n - 1);
            if !self.has(rows[n - 1]) {
                (before, some)
            } else if some {
                (before + "\n"@ + self.line(rows[n - 1]), true)
            } else {
                (self.line(rows[n - 1]), true)
            }
        }
    }

    /// The text of a selection.
    pub open spec fn selected_text(self, range: Span) -> Seq<char> {
        self.copied(range.rows(self.area), range.rows(self.area).len() as int).0
    }

    fn row_text(&self, row: SelectedRow) -> (line: Option<String>)
        ensures
            line is Some == self.has(row),
            line matches Some(text) ==> text@ == self.line(row),
    {
        let y: usize = row.y.saturating_sub(self.area.y) as usize;
        let start: usize = row.start.saturating_sub(self.area.x) as usize;
        let end: usize = row.end.saturating_sub(self.area.x) as usize;
        if y >= self.rows.len() || start > end + 1 || end >= self.rows[y].len() {
            return None;
        }
        let ghost cells = texts(self.rows@[y as int]@);
        let ghost part = cells.subrange(start as int, end + 1);
        let mut text = String::new();
        let mut i: usize = start;
        assert(cells.subrange(start as int, start as int) =~= Seq::<Seq<char>>::empty());
        assert(text@ =~= joined(cells.subrange(start as int, start as int)));
        while i <= end
            invariant
                y < self.rows@.len(),
                cells == texts(self.rows@[y as int]@),
                end < cells.len(),
                start <= i <= end + 1,
                end < 65536,
                text@ == joined(cells.subrange(start as int, i as int)),
            decreases end + 1 - i,
        {
            assert(cells[i as int] == self.rows@[y as int]@[i as int]@);
            text.push_str(self.rows[y][i].as_str());
            assert(cells.subrange(start as int, i + 1).drop_last() =~= cells.subrange(
                start as int,
                i as int,
            ));
            i = i + 1;
        }
        Some(trim_end(text.as_str()))
    }

    /// The text of a selection.
    pub fn text(&self, range: Span) -> (text: String)
        ensures
            text@ == self.selected_text(range),
    {
        let rows = selected_rows(range, self.area);
        let mut text = String::new();
        let mut some: bool = false;
        let mut i: usize = 0;
        assert(text@ =~= self.copied(rows@, 0).0);
        while i < rows.len()
            invariant
                i <= rows@.len(),
                (text@, some) == self.copied(rows@, i as int),
            decreases rows@.len() - i,
        {
            match self.row_text(rows[i]) {
                Some(line) => {
                    if some {
                        text.push_str("\n");
                        text.push_str(line.as_str());
                    } else {
                        text = line;
                    }
                    some = true;
                },
                None => {},
            }
            i = i + 1;
        }
        text
    }
}

/// A string without the white space at its end.
pub fn trim_end(text: &str) -> (part: String)
    ensures
        part@ == without_blank_end(text@),
{
    let chars = characters(text);
    let mut n: usize = chars.len();
    while n > 0 && white_space(chars[n - 1])
        invariant
            chars@ == text@,
            n <= chars@.len(),
            forall|k: int| n <= k < text@.len() ==> is_white_space(#[trigger] text@[k]),
        decreases n,
    {
        n = n - 1;
    }
    proof {
        crate::text::lemma_blank_end(text@, n as int);
    }
    let at: usize = crate::text::offset_of(text, n);
    let (head, _) = crate::text::cut(text, at);
    head.to_owned()
}

impl Selection {
    /// No selection.
    pub fn new() -> (selection: Self)
        ensures
            selection.pending is None,
            selection.range is None,
            selection.snapshot is None,
    {
        Selection { pending: None, range: None, snapshot: None }
    }

    /// The cell at which the selection began.
    pub open spec fn start(self) -> Option<Point> {
        match self.pending {
            Some(point) => Some(point),
            None => match self.range {
                Some(range) => Some(range.anchor),
                None => None,
            },
        }
    }

    /// The selection to the cell of an area that is nearest to a position.
    pub open spec fn reaching(self, position: Position, area: Rect) -> Span {
        let anchor = self.start()->0;
        Span {
            anchor,
            head: Point { surface: anchor.surface, position: nearest(position, area) },
        }
    }

    /// A button went down.
    pub fn begin(&mut self, surface: Surface, position: Position)
        ensures
            final(self).pending == Some(Point { surface, position }),
            final(self).range is None,
            final(self).snapshot is None,
    {
        self.pending = Some(Point { surface, position });
        self.range = None;
        self.snapshot = None;
    }

    fn origin(&self) -> (point: Option<Point>)
        ensures
            point == self.start(),
    {
        match self.pending {
            Some(point) => Some(point),
            None => match self.range {
                Some(range) => Some(range.anchor),
                None => None,
            },
        }
    }

    /// The mouse moved with the button down.
    pub fn drag(&mut self, position: Position, area: Rect) -> (changed: bool)
        ensures
            changed == old(self).start() is Some,
            !changed ==> *final(self) == *old(self),
            changed ==> *final(self) == (Selection {
                range: Some(old(self).reaching(position, area)),
                ..*old(self)
            }),
    {
        let anchor: Point = match self.origin() {
            Some(anchor) => anchor,
            None => return false,
        };
        let head = Point { surface: anchor.surface, position: clamp_to(position, area) };
        self.range = Some(Span { anchor, head });
        true
    }

    /// The button went up: whether something is selected. A click that did not move selects
    /// nothing.
    pub fn finish(&mut self, position: Position, area: Rect) -> (selected: bool)
        ensures
            selected == (old(self).start() is Some && !(old(self).range is None && old(
                self,
            ).reaching(position, area).head == old(self).start()->0)),
            selected ==> *final(self) == (Selection {
                range: Some(old(self).reaching(position, area)),
                pending: None,
                ..*old(self)
            }),
            !selected && old(self).start() is None ==> *final(self) == *old(self),
            !selected && old(self).start() is Some ==> *final(self) == (Selection {
                pending: None,
                range: None,
                snapshot: None,
            }),
    {
        let anchor: Point = match self.origin() {
            Some(anchor) => anchor,
            None => return false,
        };
        let head = Point { surface: anchor.surface, position: clamp_to(position, area) };
        if self.range.is_none() && head == anchor {
            self.pending = None;
            self.snapshot = None;
            return false;
        }
        self.range = Some(Span { anchor, head });
        self.pending = None;
        true
    }

    /// Ends the selection: a click that waits is dropped first, otherwise the selection.
    pub fn clear(&mut self) -> (changed: bool)
        ensures
            changed == (old(self).pending is Some || old(self).range is Some),
            final(self).pending is None,
            final(self).snapshot is None,
            final(self).range == (if old(self).pending is Some {
                old(self).range
            } else {
                None
            }),
    {
        let waiting: bool = self.pending.is_some();
        let mut changed: bool = waiting;
        self.pending = None;
        if !waiting {
            changed = self.range.is_some();
            self.range = None;
        }
        self.snapshot = None;
        changed
    }

    /// Whether a click waits.
    pub fn is_pending(&self) -> (yes: bool)
        ensures
            yes == self.pending is Some,
    {
        self.pending.is_some()
    }

    /// Whether something is selected.
    pub fn is_active(&self) -> (yes: bool)
        ensures
            yes == self.range is Some,
    {
        self.range.is_some()
    }

    /// The surface of the click or of the selection.
    pub fn surface(&self) -> (surface: Option<Surface>)
        ensures
            surface == (match self.start() {
                Some(point) => Some(point.surface),
                None => None,
            }),
    {
        match self.origin() {
            Some(point) => Some(point.surface),
            None => None,
        }
    }

    /// Remembers the cells of an area, given row by row, and returns the rows to highlight.
    pub fn capture_and_render(&mut self, area: Rect, cells: &Vec<Vec<String>>) -> (rows: Vec<
        SelectedRow,
    >)
        ensures
            final(self).pending == old(self).pending,
            final(self).range == old(self).range,
            old(self).start() is None ==> final(self).snapshot == old(self).snapshot,
            old(self).start() is Some ==> (final(self).snapshot matches Some(snapshot)
                && snapshot.area == area && row_texts(snapshot.rows@) == captured_rows(cells@)),
            rows@ == (match old(self).range {
                Some(range) => range.rows(area),
                None => Seq::empty(),
            }),
    {
        if self.pending.is_none() && self.range.is_none() {
            return Vec::new();
        }
        self.snapshot = Some(Snapshot::capture(area, cells));
        match self.range {
            Some(range) => selected_rows(range, area),
            None => Vec::new(),
        }
    }

    /// Ends the selection and returns its text, if there is any.
    pub fn take_text(&mut self) -> (text: Option<String>)
        ensures
            old(self).range is None ==> text is None && *final(self) == *old(self),
            old(self).range is Some ==> *final(self) == (Selection {
                pending: None,
                range: None,
                snapshot: None,
            }),
            old(self).range matches Some(range) ==> match old(self).snapshot {
                Some(snapshot) => {
                    let copied = snapshot.selected_text(range);
                    if copied.len() == 0 {
                        text is None
                    } else {
                        text matches Some(found) && found@ == copied
                    }
                },
                None => text is None,
            },
    {
        let range: Span = match self.range {
            Some(range) => range,
            None => return None,
        };
        self.range = None;
        self.pending = None;
        match self.snapshot.take() {
            None => None,
            Some(snapshot) => {
                let text: String = snapshot.text(range);
                if text.as_str().is_empty() {
                    None
                } else {
                    Some(text)
                }
            },
        }
    }
}

impl Selection {
    /// The selection after a button went down.
    pub open spec fn begun(surface: Surface, position: Position) -> Selection {
        Selection { pending: Some(Point { surface, position }), range: None, snapshot: None }
    }

    /// The selection after the mouse moved with the button down.
    pub open spec fn dragged(self, position: Position, area: Rect) -> Selection {
        if self.start() is Some {
            Selection { range: Some(self.reaching(position, area)), ..self }
        } else {
            self
        }
    }

    /// Something is selected when the button goes up.
    pub open spec fn selects(self, position: Position, area: Rect) -> bool {
        self.start() is Some && !(self.range is None && self.reaching(position, area).head
            == self.start()->0)
    }

    /// The selection after the button went up.
    pub open spec fn finished(self, position: Position, area: Rect) -> Selection {
        if self.selects(position, area) {
            Selection {
                range: Some(self.reaching(position, area)),
                pending: None,
                ..self
            }
        } else if self.start() is None {
            self
        } else {
            Selection { pending: None, range: None, snapshot: None }
        }
    }

    /// There is something to clear.
    pub open spec fn stirs(self) -> bool {
        self.pending is Some || self.range is Some
    }

    /// The selection after it was cleared.
    pub open spec fn cleared(self) -> Selection {
        Selection {
            pending: None,
            range: if self.pending is Some {
                self.range
            } else {
                None
            },
            snapshot: None,
        }
    }

    /// The selected text, if there is any.
    pub open spec fn chosen_text(self) -> Option<Seq<char>> {
        match (self.range, self.snapshot) {
            (Some(range), Some(snapshot)) => if snapshot.selected_text(range).len() == 0 {
                None
            } else {
                Some(snapshot.selected_text(range))
            },
            _ => None,
        }
    }

    /// The selection after its text was taken.
    pub open spec fn emptied(self) -> Selection {
        if self.range is Some {
            Selection { pending: None, range: None, snapshot: None }
        } else {
            self
        }
    }

    /// The surface of the click or of the selection.
    pub open spec fn place(self) -> Option<Surface> {
        match self.start() {
            Some(point) => Some(point.surface),
            None => None,
        }
    }
}

/// A selection made backwards is the selection made forwards.
pub proof fn law_direction_does_not_matter(a: Point, b: Point, snapshot: Snapshot)
    ensures
        (Span { anchor: a, head: b }).rows(snapshot.area) == (Span { anchor: b, head: a }).rows(
            snapshot.area,
        ),
        snapshot.selected_text(Span { anchor: a, head: b }) == snapshot.selected_text(
            Span { anchor: b, head: a },
        ),
{
    let forward = Span { anchor: a, head: b };
    let backward = Span { anchor: b, head: a };
    assert(forward.first() == backward.first());
    assert(forward.last() == backward.last());
    assert(forward.rows(snapshot.area) =~= backward.rows(snapshot.area));
}

} // verus!
