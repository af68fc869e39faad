//! Which rows of a transcript are seen.

use crate::geometry::{cell16, least, minus, most, to_cell};
use vstd::prelude::*;

verus! {

/// A row of an entry.
#[derive(Clone, Copy, Debug, PartialEq, Eq, Structural)]
pub struct Anchor {
    pub entry: u64,
    pub line: usize,
}

/// An entry as far as scrolling goes: its identifier, whether it is left out, and its rows.
#[derive(Clone, Copy, Debug, PartialEq, Eq, Structural)]
pub struct Flow {
    pub id: u64,
    pub hidden: bool,
    pub height: usize,
}

/// A request to scroll.
#[derive(Clone, Copy, Debug, PartialEq, Eq, Structural)]
pub enum ScrollCommand {
    Stay,
    Rows(i32),
    Home,
    End,
}

/// Whether the end is followed, or the row that is seen first.
#[derive(Clone, Copy, Debug, PartialEq, Eq, Structural)]
pub enum ScrollState {
    Follow,
    Detached(Anchor),
}

/// A request to show a tool call: anywhere, or in the row where it was.
#[derive(Clone, Copy, Debug, PartialEq, Eq, Structural)]
pub enum PendingToolAnchor {
    Reveal(u64),
    Preserve { entry: u64, row: u16 },
}

/// Where a transcript is scrolled to, what is asked of it, the row that was seen first last time,
/// and the number of changes since the end was seen.
#[derive(Clone, Copy, Debug, PartialEq, Eq, Structural)]
pub struct Viewport {
    pub scroll: ScrollState,
    pub pending_scroll: ScrollCommand,
    pub last_top: Option<Anchor>,
    pub new_updates: u64,
    pub pending_tool: Option<PendingToolAnchor>,
}

/// No two entries have the same identifier.
pub open spec fn distinct(list: Seq<Flow>) -> bool {
    forall|i: int, j: int|
        0 <= i < j < list.len() ==> (#[trigger] list[i]).id != (#[trigger] list[j]).id
}

/// The index of an entry from index `from` on, or the number of entries.
pub open spec fn position(list: Seq<Flow>, id: u64, from: int) -> int
    decreases list.len() - from,
{
    if from >= list.len() {
        list.len() as int
    } else if list[from].id == id {
        from
    } else {
        position(list, id, from + 1)
    }
}

/// An entry has rows to show.
pub open spec fn is_shown(entry: Flow) -> bool {
    !entry.hidden && entry.height > 0
}

/// The index of the first entry with rows from index `from` on, or the number of entries.
pub open spec fn first_shown(list: Seq<Flow>, from: int) -> int
    decreases list.len() - from,
{
    if from >= list.len() {
        list.len() as int
    } else if is_shown(list[from]) {
        from
    } else {
        first_shown(list, from + 1)
    }
}

/// The index of the last entry with rows among the first `n`, or -1.
pub open spec fn last_shown(list: Seq<Flow>, n: int) -> int
    decreases n,
{
    if n <= 0 {
        -1
    } else if is_shown(list[n - 1]) {
        n - 1
    } else {
        last_shown(list, n - 1)
    }
}

/// The first row of the first entry with rows from index `from` on.
pub open spec fn first_row_from(list: Seq<Flow>, from: int) -> Option<Anchor> {
    let j = first_shown(list, from);
    if j >= list.len() {
        None
    } else {
        Some(Anchor { entry: list[j].id, line: 0 })
    }
}

/// The last row of the last entry with rows among the first `n`.
pub open spec fn last_row_of(list: Seq<Flow>, n: int) -> Option<Anchor> {
    let j = last_shown(list, n);
    if j < 0 {
        None
    } else {
        Some(Anchor { entry: list[j].id, line: (list[j].height - 1) as usize })
    }
}

/// The first row of all.
pub open spec fn first_row(list: Seq<Flow>) -> Option<Anchor> {
    first_row_from(list, 0)
}

/// The last row of all.
pub open spec fn last_row(list: Seq<Flow>) -> Option<Anchor> {
    last_row_of(list, list.len() as int)
}

/// The row above.
pub open spec fn above(list: Seq<Flow>, a: Anchor) -> Option<Anchor> {
    let i = position(list, a.entry, 0);
    if a.line > 0 {
        Some(Anchor { line: (a.line - 1) as usize, ..a })
    } else if i >= list.len() {
        None
    } else {
        last_row_of(list, i)
    }
}

/// The row below.
pub open spec fn below(list: Seq<Flow>, a: Anchor) -> Option<Anchor> {
    let i = position(list, a.entry, 0);
    if i >= list.len() {
        None
    } else if a.line + 1 < list[i].height {
        Some(Anchor { line: (a.line + 1) as usize, ..a })
    } else {
        first_row_from(list, i + 1)
    }
}

/// The row `n` rows above, or the first one.
pub open spec fn back(list: Seq<Flow>, a: Anchor, n: int) -> Anchor
    decreases n,
{
    if n <= 0 {
        a
    } else {
        match above(list, a) {
            None => a,
            Some(b) => back(list, b, n - 1),
        }
    }
}

/// The row `n` rows below, or the last one and that there are not so many.
pub open spec fn forth(list: Seq<Flow>, a: Anchor, n: int) -> (Anchor, bool)
    decreases n,
{
    if n <= 0 {
        (a, false)
    } else {
        match below(list, a) {
            None => (a, true),
            Some(b) => forth(list, b, n - 1),
        }
    }
}

/// The number of rows below a row, `n` at most.
pub open spec fn room(list: Seq<Flow>, a: Anchor, n: int) -> int
    decreases n,
{
    if n <= 0 {
        0
    } else {
        match below(list, a) {
            None => 0,
            Some(b) => 1 + room(list, b, n - 1),
        }
    }
}

/// The row that is seen first where the last row of all is seen last.
pub open spec fn tail(list: Seq<Flow>, height: int) -> Option<Anchor> {
    match last_row(list) {
        None => None,
        Some(a) => Some(back(list, a, height - 1)),
    }
}

/// The row that is seen first so that no row of the viewport is empty that could be filled.
pub open spec fn filled(list: Seq<Flow>, a: Anchor, height: int) -> Anchor {
    back(list, a, height - 1 - room(list, a, height - 1))
}

/// The row that an anchor stands for now.
pub open spec fn resolved(list: Seq<Flow>, a: Anchor) -> Option<Anchor> {
    let i = position(list, a.entry, 0);
    if i >= list.len() {
        None
    } else if list[i].hidden {
        first_row_from(list, i + 1)
    } else if list[i].height == 0 {
        None
    } else {
        Some(
            Anchor {
                line: if a.line < list[i].height {
                    a.line
                } else {
                    (list[i].height - 1) as usize
                },
                ..a
            },
        )
    }
}

/// A row and the rows below it, `n` in all at most.
pub open spec fn trail(list: Seq<Flow>, a: Anchor, n: int) -> Seq<Anchor>
    decreases n,
{
    if n <= 0 {
        Seq::empty()
    } else {
        seq![a] + match below(list, a) {
            None => Seq::empty(),
            Some(b) => trail(list, b, n - 1),
        }
    }
}

/// The row is there and is shown.
pub open spec fn is_row(list: Seq<Flow>, a: Anchor) -> bool {
    let i = position(list, a.entry, 0);
    i < list.len() && !list[i].hidden && a.line < list[i].height
}

/// The rows that are seen: how many rows stay empty above them, and the rows.
pub struct Plan {
    pub padding: int,
    pub rows: Seq<Anchor>,
}

impl Viewport {
    /// The viewport follows the end.
    pub fn new() -> (viewport: Self)
        ensures
            viewport == Viewport::following(),
    {
        Viewport {
            scroll: ScrollState::Follow,
            pending_scroll: ScrollCommand::Stay,
            last_top: None,
            new_updates: 0,
            pending_tool: None,
        }
    }

    pub open spec fn following() -> Viewport {
        Viewport {
            scroll: ScrollState::Follow,
            pending_scroll: ScrollCommand::Stay,
            last_top: None,
            new_updates: 0,
            pending_tool: None,
        }
    }

    /// With the request to show a tool call carried out.
    pub open spec fn tool_applied(self, list: Seq<Flow>) -> Viewport {
        match self.pending_tool {
            None => self,
            Some(PendingToolAnchor::Reveal(entry)) => Viewport {
                scroll: ScrollState::Detached(Anchor { entry, line: 0 }),
                pending_tool: None,
                ..self
            },
            Some(PendingToolAnchor::Preserve { entry, row }) => Viewport {
                scroll: ScrollState::Detached(back(list, Anchor { entry, line: 0 }, row as int)),
                pending_tool: None,
                ..self
            },
        }
    }

    /// With the end followed again.
    pub open spec fn followed(self) -> Viewport {
        Viewport { scroll: ScrollState::Follow, new_updates: 0, ..self }
    }

    /// With the request to scroll carried out.
    pub open spec fn scroll_applied(self, list: Seq<Flow>, height: int) -> Viewport {
        let next = Viewport { pending_scroll: ScrollCommand::Stay, ..self };
        match self.pending_scroll {
            ScrollCommand::Stay => next,
            ScrollCommand::End => next.followed(),
            ScrollCommand::Home => match first_row(list) {
                Some(a) => Viewport { scroll: ScrollState::Detached(a), ..next },
                None => next,
            },
            ScrollCommand::Rows(rows) => if rows < 0 {
                let start = match self.scroll {
                    ScrollState::Follow => match self.last_top {
                        Some(a) => Some(a),
                        None => tail(list, height),
                    },
                    ScrollState::Detached(a) => Some(a),
                };
                match start {
                    Some(a) => Viewport {
                        scroll: ScrollState::Detached(back(list, a, -rows)),
                        ..next
                    },
                    None => next,
                }
            } else {
                match self.scroll {
                    ScrollState::Follow => next,
                    ScrollState::Detached(a) => {
                        let (b, reached_end) = forth(list, a, rows as int);
                        if reached_end {
                            next.followed()
                        } else {
                            Viewport { scroll: ScrollState::Detached(b), ..next }
                        }
                    },
                }
            },
        }
    }

    /// With the requests carried out.
    pub open spec fn settled(self, list: Seq<Flow>, height: int) -> Viewport {
        self.tool_applied(list).scroll_applied(list, height)
    }

    /// The row that is seen first once the requests are carried out.
    pub open spec fn top(self, list: Seq<Flow>, height: int) -> Option<Anchor> {
        match self.settled(list, height).scroll {
            ScrollState::Follow => tail(list, height),
            ScrollState::Detached(a) => match resolved(list, a) {
                None => None,
                Some(b) => Some(filled(list, b, height)),
            },
        }
    }

    /// The rows that are seen.
    pub open spec fn seen(self, list: Seq<Flow>, height: int) -> Seq<Anchor> {
        match self.top(list, height) {
            None => Seq::empty(),
            Some(a) => trail(list, a, height),
        }
    }

    /// The viewport after a frame: where the last row of all is seen, the end is followed again.
    pub open spec fn after_plan(self, list: Seq<Flow>, height: int) -> Viewport {
        let settled = self.settled(list, height);
        let top = self.top(list, height);
        let seen = self.seen(list, height);
        let next = Viewport {
            last_top: top,
            scroll: match (settled.scroll, top) {
                (ScrollState::Detached(_), Some(a)) => ScrollState::Detached(a),
                _ => settled.scroll,
            },
            ..settled
        };
        let last = if seen.len() == 0 {
            None
        } else {
            Some(seen.last())
        };
        if next.scroll is Detached && last == last_row(list) {
            next.followed()
        } else {
            next
        }
    }

    /// The rows of a frame.
    pub open spec fn plan(self, list: Seq<Flow>, height: int) -> Plan {
        let rows = self.seen(list, height);
        Plan { padding: minus(height, cell16(rows.len() as int)), rows }
    }
}

fn index_of(list: &Vec<Flow>, id: u64) -> (index: usize)
    ensures
        index == position(list@, id, 0),
        index <= list@.len(),
        index < list@.len() ==> list@[index as int].id == id,
{
    let mut i: usize = 0;
    while i < list.len() && list[i].id != id
        invariant
            i <= list@.len(),
            position(list@, id, i as int) == position(list@, id, 0),
        decreases list@.len() - i,
    {
        i = i + 1;
    }
    i
}

fn first_from(list: &Vec<Flow>, from: usize) -> (anchor: Option<Anchor>)
    requires
        from <= list@.len(),
    ensures
        anchor == first_row_from(list@, from as int),
{
    let mut i: usize = from;
    while i < list.len() && (list[i].hidden || list[i].height == 0)
        invariant
            i <= list@.len(),
            first_shown(list@, i as int) == first_shown(list@, from as int),
        decreases list@.len() - i,
    {
        i = i + 1;
    }
    if i == list.len() {
        None
    } else {
        Some(Anchor { entry: list[i].id, line: 0 })
    }
}

fn last_before(list: &Vec<Flow>, n: usize) -> (anchor: Option<Anchor>)
    requires
        n <= list@.len(),
    ensures
        anchor == last_row_of(list@, n as int),
{
    let mut i: usize = n;
    while i > 0 && (list[i - 1].hidden || list[i - 1].height == 0)
        invariant
            i <= n <= list@.len(),
            last_shown(list@, i as int) == last_shown(list@, n as int),
        decreases i,
    {
        i = i - 1;
    }
    if i == 0 {
        None
    } else {
        Some(Anchor { entry: list[i - 1].id, line: list[i - 1].height - 1 })
    }
}

/// The row above.
pub fn previous(list: &Vec<Flow>, anchor: Anchor) -> (row: Option<Anchor>)
    ensures
        row == above(list@, anchor),
{
    if anchor.line > 0 {
        return Some(Anchor { entry: anchor.entry, line: anchor.line - 1 });
    }
    let i: usize = index_of(list, anchor.entry);
    if i == list.len() {
        return None;
    }
    last_before(list, i)
}

/// The row below.
pub fn next(list: &Vec<Flow>, anchor: Anchor) -> (row: Option<Anchor>)
    ensures
        row == below(list@, anchor),
{
    let i: usize = index_of(list, anchor.entry);
    if i == list.len() {
        return None;
    }
    if anchor.line < list[i].height && anchor.line < list[i].height - 1 {
        return Some(Anchor { entry: anchor.entry, line: anchor.line + 1 });
    }
    first_from(list, i + 1)
}

fn step_back(list: &Vec<Flow>, anchor: Anchor, rows: u32) -> (row: Anchor)
    ensures
        row == back(list@, anchor, rows as int),
{
    let mut row: Anchor = anchor;
    let mut left: u32 = rows;
    while left > 0
        invariant
            back(list@, row, left as int) == back(list@, anchor, rows as int),
        decreases left,
    {
        match previous(list, row) {
            None => return row,
            Some(up) => {
                row = up;
            },
        }
        left = left - 1;
    }
    row
}

/// Moves a row up or down, and tells whether it went down to the end.
pub fn move_anchor(list: &Vec<Flow>, anchor: Anchor, rows: i32) -> (moved: (Anchor, bool))
    ensures
        rows < 0 ==> moved == (back(list@, anchor, -rows), false),
        rows >= 0 ==> moved == forth(list@, anchor, rows as int),
{
    if rows < 0 {
        let count: u32 = if rows == i32::MIN {
            2_147_483_648
        } else {
            (-rows) as u32
        };
        return (step_back(list, anchor, count), false);
    }
    let mut row: Anchor = anchor;
    let mut left: i32 = rows;
    while left > 0
        invariant
            0 <= left,
            rows >= 0,
            forth(list@, row, left as int) == forth(list@, anchor, rows as int),
        decreases left,
    {
        match next(list, row) {
            None => return (row, true),
            Some(down) => {
                row = down;
            },
        }
        left = left - 1;
    }
    (row, false)
}

/// The row that is seen first where the end is seen.
pub fn tail_top(list: &Vec<Flow>, height: u16) -> (row: Option<Anchor>)
    ensures
        row == tail(list@, height as int),
{
    let last: Anchor = match last_before(list, list.len()) {
        Some(last) => last,
        None => return None,
    };
    Some(step_back(list, last, height.saturating_sub(1) as u32))
}

/// The row that is seen first so that no row stays empty that could be filled.
pub fn fill_viewport_from(list: &Vec<Flow>, anchor: Anchor, height: u16) -> (row: Anchor)
    ensures
        row == filled(list@, anchor, height as int),
{
    let wanted: u16 = height.saturating_sub(1);
    let mut available: u16 = 0;
    let mut last: Anchor = anchor;
    let mut more: bool = true;
    while more && available < wanted
        invariant
            available <= wanted,
            room(list@, anchor, wanted as int) == available + if more {
                room(list@, last, wanted - available)
            } else {
                0
            },
        decreases wanted - available, if more { 1int } else { 0 },
    {
        match next(list, last) {
            None => {
                more = false;
            },
            Some(down) => {
                last = down;
                available = available + 1;
            },
        }
    }
    step_back(list, anchor, (wanted - available) as u32)
}

/// The row that an anchor stands for now.
pub fn resolve_anchor(list: &Vec<Flow>, anchor: Anchor) -> (row: Option<Anchor>)
    ensures
        row == resolved(list@, anchor),
{
    let i: usize = index_of(list, anchor.entry);
    if i == list.len() {
        return None;
    }
    if list[i].hidden {
        return first_from(list, i + 1);
    }
    if list[i].height == 0 {
        return None;
    }
    let line: usize = if anchor.line < list[i].height {
        anchor.line
    } else {
        list[i].height - 1
    };
    Some(Anchor { entry: anchor.entry, line })
}

/// A row and the rows below it.
pub fn collect_forward_anchors(list: &Vec<Flow>, anchor: Anchor, height: usize) -> (rows: Vec<
    Anchor,
>)
    ensures
        rows@ == trail(list@, anchor, height as int),
{
    let mut rows: Vec<Anchor> = Vec::new();
    let mut row: Anchor = anchor;
    let mut more: bool = true;
    let ghost whole = trail(list@, anchor, height as int);
    assert(rows@ + trail(list@, row, height as int) =~= whole);
    while more && rows.len() < height
        invariant
            rows@.len() <= height,
            more ==> rows@ + trail(list@, row, height - rows@.len()) == whole,
            !more ==> rows@ == whole,
        decreases height - rows@.len(), if more { 1int } else { 0 },
    {
        let ghost sofar = rows@;
        rows.push(row);
        match next(list, row) {
            None => {
                more = false;
                assert(rows@ =~= whole);
            },
            Some(down) => {
                assert(rows@ + trail(list@, down, height - rows@.len()) =~= sofar + trail(
                    list@,
                    row,
                    height - sofar.len(),
                ));
                row = down;
            },
        }
    }
    if more {
        assert(rows@ =~= whole);
    }
    rows
}

impl Viewport {
    /// Carries out the request to show a tool call.
    pub fn apply_pending_tool_anchor(&mut self, list: &Vec<Flow>)
        ensures
            *final(self) == old(self).tool_applied(list@),
    {
        let request: PendingToolAnchor = match self.pending_tool {
            Some(request) => request,
            None => return ,
        };
        self.pending_tool = None;
        let (entry, row): (u64, u16) = match request {
            PendingToolAnchor::Reveal(entry) => (entry, 0),
            PendingToolAnchor::Preserve { entry, row } => (entry, row),
        };
        let top: Anchor = step_back(list, Anchor { entry, line: 0 }, row as u32);
        self.scroll = ScrollState::Detached(top);
    }

    /// Carries out the request to scroll.
    pub fn apply_pending_scroll(&mut self, list: &Vec<Flow>, height: u16)
        ensures
            *final(self) == old(self).scroll_applied(list@, height as int),
    {
        let command: ScrollCommand = self.pending_scroll;
        self.pending_scroll = ScrollCommand::Stay;
        match command {
            ScrollCommand::Stay => {},
            ScrollCommand::End => {
                self.scroll = ScrollState::Follow;
                self.new_updates = 0;
            },
            ScrollCommand::Home => {
                match first_from(list, 0) {
                    Some(anchor) => {
                        self.scroll = ScrollState::Detached(anchor);
                    },
                    None => {},
                }
            },
            ScrollCommand::Rows(rows) => {
                if rows < 0 {
                    let start: Option<Anchor> = match self.scroll {
                        ScrollState::Follow => match self.last_top {
                            Some(anchor) => Some(anchor),
                            None => tail_top(list, height),
                        },
                        ScrollState::Detached(anchor) => Some(anchor),
                    };
                    match start {
                        Some(anchor) => {
                            let (top, _) = move_anchor(list, anchor, rows);
                            self.scroll = ScrollState::Detached(top);
                        },
                        None => {},
                    }
                } else {
                    match self.scroll {
                        ScrollState::Follow => {},
                        ScrollState::Detached(anchor) => {
                            let (top, reached_end) = move_anchor(list, anchor, rows);
                            if reached_end {
                                self.scroll = ScrollState::Follow;
                                self.new_updates = 0;
                            } else {
                                self.scroll = ScrollState::Detached(top);
                            }
                        },
                    }
                }
            },
        }
    }

    /// Chooses the rows of a frame: how many rows stay empty above them, and the rows.
    pub fn render_plan(&mut self, list: &Vec<Flow>, height: u16) -> (plan: (u16, Vec<Anchor>))
        ensures
            *final(self) == old(self).after_plan(list@, height as int),
            plan.0 == old(self).plan(list@, height as int).padding,
            plan.1@ == old(self).plan(list@, height as int).rows,
    {
        self.apply_pending_tool_anchor(list);
        self.apply_pending_scroll(list, height);
        let top: Option<Anchor> = match self.scroll {
            ScrollState::Follow => tail_top(list, height),
            ScrollState::Detached(anchor) => {
                match resolve_anchor(list, anchor) {
                    None => None,
                    Some(row) => {
                        let top: Anchor = fill_viewport_from(list, row, height);
                        self.scroll = ScrollState::Detached(top);
                        Some(top)
                    },
                }
            },
        };
        self.last_top = top;
        let rows: Vec<Anchor> = match top {
            Some(anchor) => collect_forward_anchors(list, anchor, height as usize),
            None => Vec::new(),
        };
        let last: Option<Anchor> = if rows.len() == 0 {
            None
        } else {
            Some(rows[rows.len() - 1])
        };
        match self.scroll {
            ScrollState::Follow => {},
            ScrollState::Detached(_) => {
                let end: Option<Anchor> = last_before(list, list.len());
                let at_end: bool = match (last, end) {
                    (Some(a), Some(b)) => a == b,
                    (None, None) => true,
                    _ => false,
                };
                if at_end {
                    self.scroll = ScrollState::Follow;
                    self.new_updates = 0;
                }
            },
        }
        let padding: u16 = height.saturating_sub(to_cell(rows.len()));
        (padding, rows)
    }
}

proof fn lemma_position(list: Seq<Flow>, j: int, from: int)
    requires
        distinct(list),
        0 <= from <= j < list.len(),
    ensures
        position(list, list[j].id, from) == j,
    decreases j - from,
{
    if from < j {
        assert(list[from].id != list[j].id);
        lemma_position(list, j, from + 1);
    }
}

proof fn lemma_position_found(list: Seq<Flow>, id: u64, from: int)
    requires
        0 <= from <= list.len(),
    ensures
        from <= position(list, id, from) <= list.len(),
        position(list, id, from) < list.len() ==> list[position(list, id, from)].id == id,
    decreases list.len() - from,
{
    if from < list.len() && list[from].id != id {
        lemma_position_found(list, id, from + 1);
    }
}

proof fn lemma_last_shown(list: Seq<Flow>, n: int)
    requires
        0 <= n <= list.len(),
    ensures
        -1 <= last_shown(list, n) < n,
        last_shown(list, n) >= 0 ==> is_shown(list[last_shown(list, n)]),
        forall|k: int| last_shown(list, n) < k < n ==> !is_shown(#[trigger] list[k]),
    decreases n,
{
    if n > 0 && !is_shown(list[n - 1]) {
        lemma_last_shown(list, n - 1);
    }
}

proof fn lemma_first_shown(list: Seq<Flow>, from: int, j: int)
    requires
        0 <= from <= j < list.len(),
        is_shown(list[j]),
        forall|k: int| from <= k < j ==> !is_shown(#[trigger] list[k]),
    ensures
        first_shown(list, from) == j,
    decreases j - from,
{
    if from < j {
        assert(!is_shown(list[from]));
        lemma_first_shown(list, from + 1, j);
    }
}

proof fn lemma_none_shown(list: Seq<Flow>, from: int)
    requires
        0 <= from <= list.len(),
        forall|k: int| from <= k < list.len() ==> !is_shown(#[trigger] list[k]),
    ensures
        first_shown(list, from) == list.len(),
    decreases list.len() - from,
{
    if from < list.len() {
        assert(!is_shown(list[from]));
        lemma_none_shown(list, from + 1);
    }
}

/// The row below the row above is the row itself.
pub proof fn law_up_and_down(list: Seq<Flow>, a: Anchor)
    requires
        distinct(list),
        is_row(list, a),
        above(list, a) is Some,
    ensures
        is_row(list, above(list, a)->0),
        below(list, above(list, a)->0) == Some(a),
{
    let i = position(list, a.entry, 0);
    lemma_position_found(list, a.entry, 0);
    if a.line == 0 {
        lemma_last_shown(list, i);
        let j = last_shown(list, i);
        lemma_position(list, j, 0);
        assert(is_shown(list[i]));
        lemma_first_shown(list, j + 1, i);
    }
}

proof fn lemma_last_row(list: Seq<Flow>)
    requires
        distinct(list),
        last_row(list) is Some,
    ensures
        is_row(list, last_row(list)->0),
        below(list, last_row(list)->0) is None,
{
    let n = list.len() as int;
    lemma_last_shown(list, n);
    let j = last_shown(list, n);
    lemma_position(list, j, 0);
    lemma_none_shown(list, j + 1);
}

/// Where the end is followed, the last row of all is seen last.
pub proof fn law_following_shows_the_end(list: Seq<Flow>, height: int)
    requires
        distinct(list),
        last_row(list) is Some,
        height > 0,
    ensures
        tail(list, height) is Some,
        trail(list, tail(list, height)->0, height).len() > 0,
        trail(list, tail(list, height)->0, height).last() == last_row(list)->0,
{
    let a = last_row(list)->0;
    lemma_last_row(list);
    let top = back(list, a, height - 1);
    lemma_steps_back(list, a, height - 1, height);
    let k = headroom(list, a, height - 1);
    let rows = trail(list, top, height);
    assert(trail(list, a, height - k) =~= seq![a]);
    assert(rows.skip(k).last() == a);
    assert(rows.last() == rows.skip(k).last());
}

proof fn lemma_more(list: Seq<Flow>, more: Seq<Flow>, a: Anchor)
    requires
        below(list, a) is Some,
    ensures
        below(list + more, a) == below(list, a),
{
    let all = list + more;
    let i = position(list, a.entry, 0);
    lemma_position_found(list, a.entry, 0);
    lemma_position_more(list, more, a.entry, 0);
    if a.line + 1 >= list[i].height {
        lemma_shown_more(list, more, i + 1);
    }
}

proof fn lemma_position_more(list: Seq<Flow>, more: Seq<Flow>, id: u64, from: int)
    requires
        0 <= from <= list.len(),
        position(list, id, from) < list.len(),
    ensures
        position(list + more, id, from) == position(list, id, from),
    decreases list.len() - from,
{
    if from < list.len() && list[from].id != id {
        lemma_position_more(list, more, id, from + 1);
    }
}

proof fn lemma_shown_more(list: Seq<Flow>, more: Seq<Flow>, from: int)
    requires
        0 <= from <= list.len(),
        first_shown(list, from) < list.len(),
    ensures
        first_shown(list + more, from) == first_shown(list, from),
        from <= first_shown(list, from),
    decreases list.len() - from,
{
    if from < list.len() && !is_shown(list[from]) {
        lemma_shown_more(list, more, from + 1);
    }
}

proof fn lemma_room(list: Seq<Flow>, a: Anchor, n: int)
    ensures
        0 <= room(list, a, n),
        n >= 0 ==> room(list, a, n) <= n,
    decreases n,
{
    if n > 0 && below(list, a) is Some {
        lemma_room(list, below(list, a)->0, n - 1);
    }
}

proof fn lemma_same_trail(list: Seq<Flow>, more: Seq<Flow>, a: Anchor, n: int)
    requires
        n > 0,
        room(list, a, n - 1) == n - 1,
    ensures
        room(list + more, a, n - 1) == n - 1,
        trail(list + more, a, n) == trail(list, a, n),
    decreases n,
{
    if n > 1 {
        lemma_more(list, more, a);
        lemma_same_trail(list, more, below(list, a)->0, n - 1);
    } else {
        reveal_with_fuel(trail, 2);
        assert(trail(list + more, a, 1) =~= trail(list, a, 1));
    }
}

/// Entries that are added at the end do not move what is seen of a transcript whose viewport is
/// full and does not follow the end.
pub proof fn law_additions_do_not_move_the_viewport(
    list: Seq<Flow>,
    more: Seq<Flow>,
    a: Anchor,
    height: int,
)
    requires
        height > 0,
        room(list, a, height - 1) == height - 1,
    ensures
        filled(list + more, a, height) == a,
        filled(list, a, height) == a,
        trail(list + more, a, height) == trail(list, a, height),
{
    lemma_same_trail(list, more, a, height);
}

/// The number of rows above a row, `n` at most.
pub open spec fn headroom(list: Seq<Flow>, a: Anchor, n: int) -> int
    decreases n,
{
    if n <= 0 {
        0
    } else {
        match above(list, a) {
            None => 0,
            Some(b) => 1 + headroom(list, b, n - 1),
        }
    }
}

proof fn lemma_first_shown_found(list: Seq<Flow>, from: int)
    requires
        0 <= from <= list.len(),
    ensures
        from <= first_shown(list, from) <= list.len(),
        first_shown(list, from) < list.len() ==> is_shown(list[first_shown(list, from)]),
    decreases list.len() - from,
{
    if from < list.len() && !is_shown(list[from]) {
        lemma_first_shown_found(list, from + 1);
    }
}

proof fn lemma_resolved(list: Seq<Flow>, a: Anchor)
    requires
        distinct(list),
        resolved(list, a) is Some,
    ensures
        is_row(list, resolved(list, a)->0),
{
    let i = position(list, a.entry, 0);
    lemma_position_found(list, a.entry, 0);
    if list[i].hidden {
        lemma_first_shown_found(list, i + 1);
        lemma_position(list, first_shown(list, i + 1), 0);
    }
}

proof fn lemma_steps_back(list: Seq<Flow>, a: Anchor, n: int, m: int)
    requires
        distinct(list),
        is_row(list, a),
        n < m,
        m > 0,
    ensures
        is_row(list, back(list, a, n)),
        0 <= headroom(list, a, n) <= if n > 0 { n } else { 0 },
        headroom(list, a, n) < n ==> above(list, back(list, a, n)) is None,
        trail(list, back(list, a, n), m).len() >= headroom(list, a, n),
        trail(list, back(list, a, n), m).skip(headroom(list, a, n)) == trail(
            list,
            a,
            m - headroom(list, a, n),
        ),
    decreases n,
{
    if n <= 0 || above(list, a) is None {
        assert(trail(list, a, m).skip(0) =~= trail(list, a, m));
    } else {
        let b = above(list, a)->0;
        law_up_and_down(list, a);
        lemma_steps_back(list, b, n - 1, m);
        let k = headroom(list, b, n - 1);
        let rows = trail(list, back(list, a, n), m);
        assert(trail(list, b, m - k) =~= seq![b] + trail(list, a, m - k - 1));
        assert(rows.skip(k + 1) =~= rows.skip(k).skip(1));
        assert(rows.skip(k).skip(1) =~= trail(list, a, m - k - 1));
    }
}

proof fn lemma_trail_length(list: Seq<Flow>, a: Anchor, n: int)
    requires
        n > 0,
    ensures
        trail(list, a, n).len() == 1 + room(list, a, n - 1),
        trail(list, a, n)[0] == a,
        room(list, a, n - 1) < n - 1 ==> below(list, trail(list, a, n).last()) is None,
    decreases n,
{
    match below(list, a) {
        None => {
            assert(trail(list, a, n) =~= seq![a]);
        },
        Some(b) => {
            if n > 1 {
                lemma_trail_length(list, b, n - 1);
                assert(trail(list, a, n).last() == trail(list, b, n - 1).last());
            } else {
                assert(trail(list, b, 0) =~= Seq::<Anchor>::empty());
            }
        },
    }
}

proof fn lemma_room_limit(list: Seq<Flow>, a: Anchor, n: int, m: int)
    requires
        0 <= m <= n,
    ensures
        room(list, a, m) == if room(list, a, n) < m {
            room(list, a, n)
        } else {
            m
        },
    decreases m,
{
    lemma_room(list, a, n);
    if m > 0 && below(list, a) is Some {
        lemma_room_limit(list, below(list, a)->0, n - 1, m - 1);
    }
}

proof fn lemma_filled(list: Seq<Flow>, a: Anchor, height: int)
    requires
        distinct(list),
        is_row(list, a),
        height > 0,
    ensures
        ({
            let top = filled(list, a, height);
            let rows = trail(list, top, height);
            &&& rows.len() > 0
            &&& rows[0] == top
            &&& rows.len() < height ==> above(list, top) is None && below(list, rows.last()) is None
        }),
{
    let r = room(list, a, height - 1);
    lemma_room(list, a, height - 1);
    let n = height - 1 - r;
    let top = filled(list, a, height);
    let rows = trail(list, top, height);
    lemma_steps_back(list, a, n, height);
    lemma_trail_length(list, top, height);
    let k = headroom(list, a, n);
    lemma_trail_length(list, a, height - k);
    lemma_room_limit(list, a, height - 1, height - k - 1);
    assert(rows.skip(k).len() == rows.len() - k);
}

/// Rows of the viewport stay empty only where every row of the transcript is seen.
pub proof fn law_the_viewport_is_filled(viewport: Viewport, list: Seq<Flow>, height: int)
    requires
        distinct(list),
        height > 0,
        viewport.top(list, height) is Some,
    ensures
        ({
            let rows = viewport.seen(list, height);
            &&& 0 < rows.len() <= height
            &&& rows.len() < height ==> above(list, rows.first()) is None && below(
                list,
                rows.last(),
            ) is None
        }),
{
    match viewport.settled(list, height).scroll {
        ScrollState::Follow => {
            let a = last_row(list)->0;
            lemma_last_row(list);
            assert(room(list, a, height - 1) == 0);
            lemma_filled(list, a, height);
        },
        ScrollState::Detached(a) => {
            lemma_resolved(list, a);
            lemma_filled(list, resolved(list, a)->0, height);
        },
    }
    let top = viewport.top(list, height)->0;
    lemma_room(list, top, height - 1);
    lemma_trail_length(list, top, height);
}

/// A call whose details are shown or hidden keeps its summary in the row where it was, if there are
/// rows enough above and below it.
pub proof fn law_toggled_calls_stay_in_place(
    viewport: Viewport,
    list: Seq<Flow>,
    entry: u64,
    row: u16,
    height: int,
)
    requires
        distinct(list),
        is_row(list, Anchor { entry, line: 0 }),
        viewport.pending_tool == Some(PendingToolAnchor::Preserve { entry, row }),
        viewport.pending_scroll is Stay,
        row < height,
        headroom(list, Anchor { entry, line: 0 }, row as int) == row,
        room(list, back(list, Anchor { entry, line: 0 }, row as int), height - 1) == height - 1,
    ensures
        viewport.seen(list, height).len() == height,
        viewport.seen(list, height)[row as int] == (Anchor { entry, line: 0 }),
{
    let a = Anchor { entry, line: 0 };
    let top = back(list, a, row as int);
    lemma_steps_back(list, a, row as int, height);
    lemma_trail_length(list, top, height);
    lemma_trail_length(list, a, height - row);
    assert(resolved(list, top) == Some(top));
    assert(filled(list, top, height) == top);
    let rows = trail(list, top, height);
    assert(rows.skip(row as int)[0] == rows[row as int]);
}

/// The rows of the first `n` entries.
pub open spec fn rows_before(list: Seq<Flow>, n: int) -> int
    decreases n,
{
    if n <= 0 {
        0
    } else if is_shown(list[n - 1]) {
        rows_before(list, n - 1) + list[n - 1].height
    } else {
        rows_before(list, n - 1)
    }
}

/// The number of rows of a transcript.
pub open spec fn row_count(list: Seq<Flow>) -> int {
    rows_before(list, list.len() as int)
}

/// The number of rows in front of a row.
pub open spec fn place(list: Seq<Flow>, a: Anchor) -> int {
    rows_before(list, position(list, a.entry, 0)) + a.line
}

proof fn lemma_rows_grow(list: Seq<Flow>, m: int, n: int)
    requires
        0 <= m <= n <= list.len(),
    ensures
        0 <= rows_before(list, m) <= rows_before(list, n),
        (forall|k: int| m <= k < n ==> !is_shown(#[trigger] list[k])) ==> rows_before(list, m)
            == rows_before(list, n),
    decreases n,
{
    if m < n {
        lemma_rows_grow(list, m, n - 1);
    } else if n > 0 {
        lemma_rows_grow(list, n - 1, n - 1);
    }
}

/// Every row lies among the rows of the transcript.
pub proof fn law_rows_have_places(list: Seq<Flow>, a: Anchor)
    requires
        is_row(list, a),
    ensures
        0 <= place(list, a) < row_count(list),
{
    let i = position(list, a.entry, 0);
    lemma_position_found(list, a.entry, 0);
    lemma_rows_grow(list, 0, i);
    lemma_rows_grow(list, i + 1, list.len() as int);
}

/// The row above stands one row earlier; above the first row there is none.
pub proof fn law_the_row_above(list: Seq<Flow>, a: Anchor)
    requires
        distinct(list),
        is_row(list, a),
    ensures
        above(list, a) is None <==> place(list, a) == 0,
        above(list, a) matches Some(b) ==> is_row(list, b) && place(list, b) == place(list, a) - 1,
{
    let i = position(list, a.entry, 0);
    lemma_position_found(list, a.entry, 0);
    lemma_rows_grow(list, 0, i);
    if a.line == 0 {
        lemma_last_shown(list, i);
        let j = last_shown(list, i);
        if j >= 0 {
            lemma_position(list, j, 0);
            lemma_rows_grow(list, j + 1, i);
            lemma_rows_grow(list, 0, j);
        }
    }
}

/// The row below stands one row later; below the last row there is none.
pub proof fn law_the_row_below(list: Seq<Flow>, a: Anchor)
    requires
        distinct(list),
        is_row(list, a),
    ensures
        below(list, a) is None <==> place(list, a) == row_count(list) - 1,
        below(list, a) matches Some(b) ==> is_row(list, b) && place(list, b) == place(list, a) + 1,
{
    let i = position(list, a.entry, 0);
    let n = list.len() as int;
    lemma_position_found(list, a.entry, 0);
    lemma_rows_grow(list, i + 1, n);
    if a.line + 1 >= list[i].height {
        lemma_first_shown_found(list, i + 1);
        lemma_skipped(list, i + 1);
        let j = first_shown(list, i + 1);
        lemma_rows_grow(list, i + 1, j);
        if j < n {
            lemma_position(list, j, 0);
            lemma_rows_grow(list, j + 1, n);
        }
    }
}

proof fn lemma_skipped(list: Seq<Flow>, from: int)
    requires
        0 <= from <= list.len(),
    ensures
        forall|k: int| from <= k < first_shown(list, from) ==> !is_shown(#[trigger] list[k]),
    decreases list.len() - from,
{
    if from < list.len() && !is_shown(list[from]) {
        lemma_skipped(list, from + 1);
    }
}

/// Two rows in one place are one row.
pub proof fn law_places_tell_rows_apart(list: Seq<Flow>, a: Anchor, b: Anchor)
    requires
        distinct(list),
        is_row(list, a),
        is_row(list, b),
        place(list, a) == place(list, b),
    ensures
        a == b,
{
    let i = position(list, a.entry, 0);
    let j = position(list, b.entry, 0);
    lemma_position_found(list, a.entry, 0);
    lemma_position_found(list, b.entry, 0);
    if i < j {
        lemma_rows_grow(list, i + 1, j);
    } else if j < i {
        lemma_rows_grow(list, j + 1, i);
    }
}

proof fn lemma_back_place(list: Seq<Flow>, a: Anchor, n: int)
    requires
        distinct(list),
        is_row(list, a),
        n >= 0,
    ensures
        is_row(list, back(list, a, n)),
        place(list, back(list, a, n)) == minus(place(list, a), n),
    decreases n,
{
    law_rows_have_places(list, a);
    law_the_row_above(list, a);
    if n > 0 {
        if let Some(b) = above(list, a) {
            lemma_back_place(list, b, n - 1);
        }
    }
}

proof fn lemma_forth_place(list: Seq<Flow>, a: Anchor, n: int)
    requires
        distinct(list),
        is_row(list, a),
        n >= 0,
    ensures
        forth(list, a, n).1 <==> place(list, a) + n >= row_count(list),
        !forth(list, a, n).1 ==> is_row(list, forth(list, a, n).0) && place(
            list,
            forth(list, a, n).0,
        ) == place(list, a) + n,
    decreases n,
{
    law_rows_have_places(list, a);
    law_the_row_below(list, a);
    if n > 0 {
        if let Some(b) = below(list, a) {
            lemma_forth_place(list, b, n - 1);
        }
    }
}

proof fn lemma_room_place(list: Seq<Flow>, a: Anchor, n: int)
    requires
        distinct(list),
        is_row(list, a),
        n >= 0,
    ensures
        room(list, a, n) == least(n, row_count(list) - 1 - place(list, a)),
    decreases n,
{
    law_rows_have_places(list, a);
    law_the_row_below(list, a);
    if n > 0 {
        if let Some(b) = below(list, a) {
            lemma_room_place(list, b, n - 1);
        }
    }
}

proof fn lemma_filled_place(list: Seq<Flow>, a: Anchor, height: int)
    requires
        distinct(list),
        is_row(list, a),
        height > 0,
    ensures
        is_row(list, filled(list, a, height)),
        place(list, filled(list, a, height)) == least(
            place(list, a),
            minus(row_count(list), height),
        ),
{
    law_rows_have_places(list, a);
    lemma_room_place(list, a, height - 1);
    lemma_back_place(list, a, height - 1 - room(list, a, height - 1));
}

proof fn lemma_tail_place(list: Seq<Flow>, height: int)
    requires
        distinct(list),
        row_count(list) > 0,
        height > 0,
    ensures
        tail(list, height) is Some,
        is_row(list, tail(list, height)->0),
        place(list, tail(list, height)->0) == minus(row_count(list), height),
{
    let n = list.len() as int;
    lemma_last_shown(list, n);
    if last_row(list) is None {
        lemma_rows_grow(list, 0, n);
    }
    let a = last_row(list)->0;
    lemma_last_row(list);
    law_the_row_below(list, a);
    lemma_back_place(list, a, height - 1);
}

/// A viewport that follows the end shows the last rows of the transcript.
pub proof fn law_the_end_is_followed(viewport: Viewport, list: Seq<Flow>, height: int)
    requires
        distinct(list),
        row_count(list) > 0,
        height > 0,
        viewport.pending_tool is None,
        viewport.pending_scroll is End || viewport.scroll is Follow && match viewport.pending_scroll {
            ScrollCommand::Stay => true,
            ScrollCommand::Rows(n) => n >= 0,
            _ => false,
        },
    ensures
        viewport.top(list, height) matches Some(b) && is_row(list, b) && place(list, b) == minus(
            row_count(list),
            height,
        ),
{
    lemma_tail_place(list, height);
}

/// A viewport at its start shows the first rows of the transcript.
pub proof fn law_home_is_the_start(viewport: Viewport, list: Seq<Flow>, height: int)
    requires
        distinct(list),
        row_count(list) > 0,
        height > 0,
        viewport.pending_tool is None,
        viewport.pending_scroll is Home,
    ensures
        viewport.top(list, height) matches Some(b) && is_row(list, b) && place(list, b) == 0,
{
    let n = list.len() as int;
    lemma_first_shown_found(list, 0);
    lemma_skipped(list, 0);
    let j = first_shown(list, 0);
    lemma_rows_grow(list, 0, j);
    let a = Anchor { entry: list[j].id, line: 0 };
    lemma_position(list, j, 0);
    lemma_filled_place(list, a, height);
}

/// Scrolling by `n` rows moves the row that is seen first by `n` rows, to the end of the transcript
/// for a positive number and to its start for a negative one, but beyond neither end.
pub proof fn law_scrolling_moves_by_rows(
    viewport: Viewport,
    list: Seq<Flow>,
    height: int,
    a: Anchor,
    n: i32,
)
    requires
        distinct(list),
        is_row(list, a),
        height > 0,
        viewport.pending_tool is None,
        viewport.scroll == ScrollState::Detached(a) || n < 0 && viewport.scroll is Follow
            && viewport.last_top == Some(a),
        viewport.pending_scroll == ScrollCommand::Rows(n),
    ensures
        viewport.top(list, height) matches Some(b) && is_row(list, b) && place(list, b) == least(
            most(place(list, a) + n, 0),
            minus(row_count(list), height),
        ),
{
    law_rows_have_places(list, a);
    if n < 0 {
        let b = back(list, a, -n);
        lemma_back_place(list, a, -n);
        lemma_filled_place(list, b, height);
    } else {
        lemma_forth_place(list, a, n as int);
        let (b, reached_end) = forth(list, a, n as int);
        if reached_end {
            lemma_tail_place(list, height);
        } else {
            lemma_filled_place(list, b, height);
        }
    }
}

/// The rows that are seen follow one another, as many as there are and as have room.
pub proof fn law_seen_rows_follow_one_another(viewport: Viewport, list: Seq<Flow>, height: int)
    requires
        distinct(list),
        height > 0,
        viewport.top(list, height) is Some,
        is_row(list, viewport.top(list, height)->0),
    ensures
        ({
            let top = viewport.top(list, height)->0;
            let rows = viewport.seen(list, height);
            &&& rows.len() == least(height, row_count(list) - place(list, top))
            &&& forall|i: int|
                0 <= i < rows.len() ==> is_row(list, #[trigger] rows[i]) && place(list, rows[i])
                    == place(list, top) + i
        }),
{
    lemma_trail_place(list, viewport.top(list, height)->0, height);
}

proof fn lemma_trail_place(list: Seq<Flow>, a: Anchor, n: int)
    requires
        distinct(list),
        is_row(list, a),
        n > 0,
    ensures
        trail(list, a, n).len() == least(n, row_count(list) - place(list, a)),
        forall|i: int|
            0 <= i < trail(list, a, n).len() ==> is_row(list, #[trigger] trail(list, a, n)[i])
                && place(list, trail(list, a, n)[i]) == place(list, a) + i,
    decreases n,
{
    law_rows_have_places(list, a);
    law_the_row_below(list, a);
    let rows = trail(list, a, n);
    match below(list, a) {
        None => {
            assert(rows =~= seq![a]);
        },
        Some(b) => {
            if n > 1 {
                lemma_trail_place(list, b, n - 1);
            }
            let rest = trail(list, b, n - 1);
            assert(rows =~= seq![a] + rest);
            assert forall|i: int| 0 <= i < rows.len() implies is_row(list, #[trigger] rows[i])
                && place(list, rows[i]) == place(list, a) + i by {
                if i > 0 {
                    assert(rows[i] == rest[i - 1]);
                }
            }
        },
    }
}

/// A viewport that has been scrolled up and is not at the end stays where it is until it is
/// scrolled again, whatever is added behind it.
pub proof fn law_frames_keep_the_top(viewport: Viewport, list: Seq<Flow>, height: int)
    requires
        distinct(list),
        height > 0,
        viewport.top(list, height) matches Some(b) && is_row(list, b) && place(list, b) + height
            < row_count(list),
    ensures
        ({
            let next = viewport.after_plan(list, height);
            &&& next.scroll == ScrollState::Detached(viewport.top(list, height)->0)
            &&& next.pending_scroll is Stay
            &&& next.pending_tool is None
            &&& next.top(list, height) == viewport.top(list, height)
        }),
{
    let b = viewport.top(list, height)->0;
    law_rows_have_places(list, b);
    lemma_trail_place(list, b, height);
    lemma_tail_place(list, height);
    lemma_last_row(list);
    law_the_row_below(list, last_row(list)->0);
    lemma_filled_place(list, b, height);
    law_places_tell_rows_apart(list, filled(list, b, height), b);
    let rows = viewport.seen(list, height);
    assert(place(list, rows.last()) == place(list, b) + height - 1);
}

/// A call that is to be shown stands in the first row that is seen, unless fewer rows than fit
/// follow it: then the rows at the end are seen.
pub proof fn law_revealed_calls_are_seen(
    viewport: Viewport,
    list: Seq<Flow>,
    height: int,
    entry: u64,
)
    requires
        distinct(list),
        is_row(list, Anchor { entry, line: 0 }),
        height > 0,
        viewport.pending_tool == Some(PendingToolAnchor::Reveal(entry)),
        viewport.pending_scroll is Stay,
    ensures
        viewport.top(list, height) matches Some(b) && is_row(list, b) && place(list, b) == least(
            place(list, Anchor { entry, line: 0 }),
            minus(row_count(list), height),
        ),
{
    let a = Anchor { entry, line: 0 };
    law_rows_have_places(list, a);
    lemma_filled_place(list, a, height);
}

/// A row that is still there is found again; where its entry became shorter, the entry's last row
/// stands for it; where its entry is gone, nothing does.
pub proof fn law_rows_are_found_again(list: Seq<Flow>, a: Anchor)
    ensures
        is_row(list, a) ==> resolved(list, a) == Some(a),
        (forall|i: int| 0 <= i < list.len() ==> (#[trigger] list[i]).id != a.entry) ==> resolved(
            list,
            a,
        ) is None && below(list, a) is None && (a.line == 0 ==> above(list, a) is None),
        ({
            let i = position(list, a.entry, 0);
            0 <= i < list.len() && !list[i].hidden && 0 < list[i].height <= a.line ==> resolved(
                list,
                a,
            ) == Some(Anchor { entry: a.entry, line: (list[i].height - 1) as usize })
        }),
{
    if forall|i: int| 0 <= i < list.len() ==> (#[trigger] list[i]).id != a.entry {
        lemma_no_position(list, a.entry, 0);
    }
}

proof fn lemma_no_position(list: Seq<Flow>, id: u64, from: int)
    requires
        0 <= from <= list.len(),
        forall|i: int| 0 <= i < list.len() ==> (#[trigger] list[i]).id != id,
    ensures
        position(list, id, from) == list.len(),
    decreases list.len() - from,
{
    if from < list.len() {
        assert(list[from].id != id);
        lemma_no_position(list, id, from + 1);
    }
}

} // verus!
