//! The entries of a transcript and their rows.

use crate::composer::option_view;
use crate::draw::{colored, lines, say, words, Look, Tone, Word, Words};
use crate::format::{duration_text, format_duration};
use crate::geometry::{minus, most};
use crate::numeral::{decimal, decimal_text};
use crate::settings::ReasoningEffort;
use crate::text::{concat, same};
use crate::tool::{optional_view, render_state, tool_rows, Presentation, Shown, ToolEntry};
use crate::wrap::{wrap_plain, wrapped_text};
use vstd::prelude::*;

verus! {

/// What an entry shows.
#[derive(Debug)]
pub enum EntryKind {
    User { text: String },
    Assistant { text: String },
    Reasoning { text: String },
    Tool(ToolEntry),
    Interrupted { count: u64 },
    ContextCompacted { duration_ns: u64 },
    ContextCompactionFailed { message: String },
    Error { message: String },
}

/// An entry of a transcript. Its revision changes with what it shows.
#[derive(Debug)]
pub struct TranscriptEntry {
    pub id: u64,
    pub revision: u64,
    pub hidden: bool,
    pub kind: EntryKind,
}

/// A link in a row: its columns and where it leads.
#[derive(Debug)]
pub struct LinkSpan {
    pub destination: String,
    pub start: u16,
    pub end: u16,
}

/// A link as mathematical values.
pub struct Link {
    pub destination: Seq<char>,
    pub start: int,
    pub end: int,
}

impl View for LinkSpan {
    type V = Link;

    open spec fn view(&self) -> Link {
        Link {
            destination: self.destination@,
            start: self.start as int,
            end: self.end as int,
        }
    }
}

/// The rows of an entry and the links in each of them.
#[derive(Debug)]
pub struct Layout {
    pub lines: Vec<Vec<Words>>,
    pub links: Vec<Vec<LinkSpan>>,
}

/// The rows of an entry as mathematical values.
pub struct Block {
    pub lines: Seq<Seq<Word>>,
    pub links: Seq<Seq<Link>>,
}

/// The links of a row.
pub open spec fn row_links(list: Seq<LinkSpan>) -> Seq<Link> {
    list.map_values(|link: LinkSpan| link@)
}

/// The links of every row.
pub open spec fn all_links(list: Seq<Vec<LinkSpan>>) -> Seq<Seq<Link>> {
    list.map_values(|row: Vec<LinkSpan>| row_links(row@))
}

impl View for Layout {
    type V = Block;

    open spec fn view(&self) -> Block {
        Block { lines: lines(self.lines@), links: all_links(self.links@) }
    }
}

/// Rows without a link.
pub open spec fn unlinked(rows: Seq<Seq<Word>>) -> Block {
    Block { lines: rows, links: Seq::new(rows.len(), |i: int| Seq::<Link>::empty()) }
}

/// Rows without a link.
pub fn layout_without_links(rows: Vec<Vec<Words>>) -> (layout: Layout)
    ensures
        layout@ == unlinked(lines(rows@)),
{
    let mut links: Vec<Vec<LinkSpan>> = Vec::new();
    let total: usize = rows.len();
    let mut i: usize = 0;
    let ghost expected = unlinked(lines(rows@)).links;
    assert(all_links(links@) =~= expected.take(0));
    while i < total
        invariant
            total == rows@.len(),
            expected == unlinked(lines(rows@)).links,
            i <= total,
            all_links(links@) == expected.take(i as int),
        decreases total - i,
    {
        let ghost sofar = all_links(links@);
        let row: Vec<LinkSpan> = Vec::new();
        links.push(row);
        i = i + 1;
        assert(row_links(row@) =~= Seq::<Link>::empty());
        assert(all_links(links@) =~= sofar.push(row_links(row@)));
        assert(all_links(links@) =~= expected.take(i as int));
    }
    assert(all_links(links@) =~= expected);
    Layout { lines: rows, links }
}

/// Each row behind a gutter.
pub open spec fn guttered(rows: Seq<Seq<Word>>, gutter: Word) -> Seq<Seq<Word>> {
    Seq::new(rows.len(), |i: int| seq![gutter] + rows[i])
}

/// The rows of what the user said.
pub open spec fn user_rows(text: Seq<char>, width: int) -> Seq<Seq<Word>> {
    let look = colored(Tone::Effort(ReasoningEffort::Medium));
    guttered(wrapped_text(text, most(minus(width, 2), 1), look), Word { text: "┃ "@, look })
}

/// The rows of what the user said.
pub fn render_user(text: &str, limit: u16) -> (rows: Vec<Vec<Words>>)
    ensures
        lines(rows@) == user_rows(text@, limit as int),
{
    let look: Look = Look::plain(Tone::Effort(ReasoningEffort::Medium));
    let columns: u16 = if limit > 3 {
        limit - 2
    } else {
        1
    };
    let mut rest: Vec<Vec<Words>> = wrap_plain(text, columns as usize, look);
    let ghost all = rest@;
    let ghost expected = user_rows(text@, limit as int);
    let total: usize = rest.len();
    let mut rows: Vec<Vec<Words>> = Vec::new();
    assert(lines(rows@) =~= expected.take(0));
    assert(rest@ =~= all.skip(0));
    while rest.len() > 0
        invariant
            total == all.len(),
            expected == guttered(lines(all), Word { text: "┃ "@, look }),
            rows@.len() + rest@.len() == total,
            rest@ == all.skip(rows@.len() as int),
            lines(rows@) == expected.take(rows@.len() as int),
        decreases rest@.len(),
    {
        let ghost n = rows@.len() as int;
        let ghost sofar = lines(rows@);
        let mut row: Vec<Words> = rest.remove(0);
        let ghost tail = words(row@);
        assert(lines(all)[n] == tail);
        let mut line: Vec<Words> = Vec::new();
        say(&mut line, "┃ ".to_owned(), look);
        let ghost front = words(line@);
        assert(front =~= seq![Word { text: "┃ "@, look }]);
        line.append(&mut row);
        assert(words(line@) =~= front + tail);
        rows.push(line);
        assert(lines(rows@) =~= sofar.push(words(line@)));
        assert(lines(rows@) =~= expected.take(n + 1));
        assert(rest@ =~= all.skip(n + 1));
    }
    assert(lines(rows@) =~= expected);
    rows
}

/// A word of reasoning.
pub open spec fn subdued(word: Word) -> Word {
    Word { text: word.text, look: Look { tone: Tone::Muted, italic: true, ..word.look } }
}

pub open spec fn subdued_line(line: Seq<Word>) -> Seq<Word> {
    line.map_values(|word: Word| subdued(word))
}

pub open spec fn subdued_lines(rows: Seq<Seq<Word>>) -> Seq<Seq<Word>> {
    rows.map_values(|line: Seq<Word>| subdued_line(line))
}

fn subdue_line(line: &mut Vec<Words>)
    ensures
        words(final(line)@) == subdued_line(words(old(line)@)),
{
    let ghost given = words(line@);
    let mut i: usize = 0;
    let total: usize = line.len();
    while i < total
        invariant
            total == line@.len(),
            given.len() == total,
            i <= total,
            forall|k: int| 0 <= k < i ==> (#[trigger] line@[k])@ == subdued(given[k]),
            forall|k: int| i <= k < total ==> (#[trigger] line@[k])@ == given[k],
        decreases total - i,
    {
        let mut look: Look = line[i].look;
        look.tone = Tone::Muted;
        look.italic = true;
        let word = Words { text: line[i].text.clone(), look };
        line.set(i, word);
        i = i + 1;
    }
    assert(words(line@) =~= subdued_line(given));
}

fn subdue(rows: Vec<Vec<Words>>) -> (changed: Vec<Vec<Words>>)
    ensures
        lines(changed@) == subdued_lines(lines(rows@)),
{
    let mut rest: Vec<Vec<Words>> = rows;
    let ghost all = rest@;
    let ghost expected = subdued_lines(lines(all));
    let total: usize = rest.len();
    let mut changed: Vec<Vec<Words>> = Vec::new();
    assert(lines(changed@) =~= expected.take(0));
    assert(rest@ =~= all.skip(0));
    while rest.len() > 0
        invariant
            total == all.len(),
            expected == subdued_lines(lines(all)),
            changed@.len() + rest@.len() == total,
            rest@ == all.skip(changed@.len() as int),
            lines(changed@) == expected.take(changed@.len() as int),
        decreases rest@.len(),
    {
        let ghost n = changed@.len() as int;
        let ghost sofar = lines(changed@);
        let mut row: Vec<Words> = rest.remove(0);
        assert(lines(all)[n] == words(row@));
        subdue_line(&mut row);
        changed.push(row);
        assert(lines(changed@) =~= sofar.push(words(row@)));
        assert(lines(changed@) =~= expected.take(n + 1));
        assert(rest@ =~= all.skip(n + 1));
    }
    assert(lines(changed@) =~= expected);
    changed
}

/// What an interruption says.
pub open spec fn interruption_text(count: int) -> Seq<char> {
    if count == 0 {
        "◇ Nothing to interrupt"@
    } else if count == 1 {
        "◇ Interrupted response"@
    } else {
        "◇ Interrupted "@ + decimal(count) + " responses"@
    }
}

/// A row with one text.
pub open spec fn note(text: Seq<char>, look: Look) -> Seq<Seq<Word>> {
    seq![seq![Word { text, look }]]
}

fn note_rows(text: String, look: Look) -> (rows: Vec<Vec<Words>>)
    ensures
        lines(rows@) == note(text@, look),
{
    let mut line: Vec<Words> = Vec::new();
    say(&mut line, text, look);
    let mut rows: Vec<Vec<Words>> = Vec::new();
    rows.push(line);
    assert(words(line@) =~= seq![Word { text: text@, look }]);
    assert(lines(rows@) =~= note(text@, look));
    rows
}

/// What is needed for the rows of an entry beside the entry itself: formatted text, which is that
/// of a call's source where the entry is a call, the presentation of a tool call that was made
/// elsewhere, and the home directory.
#[derive(Debug)]
pub struct Materials {
    pub formatted: Option<Layout>,
    pub given: Option<Presentation>,
    pub home: Option<String>,
}

/// The materials of an entry as mathematical values.
pub struct Stuff {
    pub formatted: Option<Block>,
    pub given: Option<Shown>,
    pub home: Option<Seq<char>>,
}

impl View for Materials {
    type V = Stuff;

    open spec fn view(&self) -> Stuff {
        Stuff {
            formatted: match self.formatted {
                Some(layout) => Some(layout@),
                None => None,
            },
            given: optional_view(self.given),
            home: option_view(self.home),
        }
    }
}

/// Formatted text, or the text as it is.
pub open spec fn prose(text: Seq<char>, width: int, formatted: Option<Block>) -> Block {
    match formatted {
        Some(block) => block,
        None => unlinked(wrapped_text(text, width, colored(Tone::Text))),
    }
}

/// The rows of an entry without the empty row behind it.
pub open spec fn entry_body(kind: EntryKind, width: int, expanded: bool, stuff: Stuff) -> Block {
    match kind {
        EntryKind::User { text } => unlinked(user_rows(text@, width)),
        EntryKind::Assistant { text } => prose(text@, width, stuff.formatted),
        EntryKind::Reasoning { text } => {
            let block = prose(text@, minus(width, 2), stuff.formatted);
            Block { lines: subdued_lines(block.lines), links: block.links }
        },
        EntryKind::Tool(tool) => unlinked(
            tool_rows(
                tool,
                width,
                expanded,
                stuff.home,
                match stuff.formatted {
                    Some(block) => Some(block.lines),
                    None => None,
                },
                stuff.given,
            ),
        ),
        EntryKind::Interrupted { count } => unlinked(
            note(interruption_text(count as int), colored(Tone::Border)),
        ),
        EntryKind::ContextCompacted { duration_ns } => unlinked(
            note(
                "◇ Context compacted · "@ + duration_text(duration_ns as int),
                colored(Tone::Muted),
            ),
        ),
        EntryKind::ContextCompactionFailed { message } => unlinked(
            note(
                "◇ Context compaction failed · continuing · "@ + message@,
                colored(Tone::Effort(ReasoningEffort::High)),
            ),
        ),
        EntryKind::Error { message } => unlinked(
            wrapped_text("× "@ + message@, width, colored(Tone::Effort(ReasoningEffort::XHigh))),
        ),
    }
}

/// The rows of an entry: an empty row follows it.
pub open spec fn entry_block(kind: EntryKind, width: int, expanded: bool, stuff: Stuff) -> Block {
    let body = entry_body(kind, width, expanded, stuff);
    Block {
        lines: body.lines.push(Seq::empty()),
        links: body.links.push(Seq::empty()),
    }
}

fn format_prose(text: &str, limit: u16, formatted: Option<Layout>) -> (layout: Layout)
    ensures
        layout@ == prose(
            text@,
            limit as int,
            match formatted {
                Some(given) => Some(given@),
                None => None,
            },
        ),
{
    match formatted {
        Some(layout) => layout,
        None => layout_without_links(wrap_plain(text, limit as usize, Look::plain(Tone::Text))),
    }
}

/// The rows of an entry.
pub fn render_entry(kind: &EntryKind, limit: u16, expanded: bool, materials: Materials) -> (layout:
    Layout)
    ensures
        layout@ == entry_block(*kind, limit as int, expanded, materials@),
        layout.lines@.len() > 0,
{
    let mut layout: Layout = match kind {
        EntryKind::User { text } => layout_without_links(render_user(text.as_str(), limit)),
        EntryKind::Assistant { text } => format_prose(text.as_str(), limit, materials.formatted),
        EntryKind::Reasoning { text } => {
            let plain: Layout = format_prose(
                text.as_str(),
                limit.saturating_sub(2),
                materials.formatted,
            );
            Layout { lines: subdue(plain.lines), links: plain.links }
        },
        EntryKind::Tool(tool) => {
            let home: Option<&str> = match &materials.home {
                Some(home) => Some(home.as_str()),
                None => None,
            };
            let formatted: Option<Vec<Vec<Words>>> = match materials.formatted {
                Some(layout) => Some(layout.lines),
                None => None,
            };
            layout_without_links(
                render_state(tool, limit, expanded, home, formatted, materials.given),
            )
        },
        EntryKind::Interrupted { count } => {
            let label: String = if *count == 0 {
                "◇ Nothing to interrupt".to_owned()
            } else if *count == 1 {
                "◇ Interrupted response".to_owned()
            } else {
                let mut label: String = concat("◇ Interrupted ", decimal_text(*count).as_str());
                label.push_str(" responses");
                label
            };
            layout_without_links(note_rows(label, Look::plain(Tone::Border)))
        },
        EntryKind::ContextCompacted { duration_ns } => layout_without_links(
            note_rows(
                concat("◇ Context compacted · ", format_duration(*duration_ns).as_str()),
                Look::plain(Tone::Muted),
            ),
        ),
        EntryKind::ContextCompactionFailed { message } => layout_without_links(
            note_rows(
                concat("◇ Context compaction failed · continuing · ", message.as_str()),
                Look::plain(Tone::Effort(ReasoningEffort::High)),
            ),
        ),
        EntryKind::Error { message } => layout_without_links(
            wrap_plain(
                concat("× ", message.as_str()).as_str(),
                limit as usize,
                Look::plain(Tone::Effort(ReasoningEffort::XHigh)),
            ),
        ),
    };
    let ghost body = layout@;
    assert(body == entry_body(*kind, limit as int, expanded, materials@));
    let empty_line: Vec<Words> = Vec::new();
    let no_links: Vec<LinkSpan> = Vec::new();
    assert(words(empty_line@) =~= Seq::<Word>::empty());
    assert(row_links(no_links@) =~= Seq::<Link>::empty());
    layout.lines.push(empty_line);
    layout.links.push(no_links);
    assert(lines(layout.lines@) =~= body.lines.push(Seq::empty()));
    assert(all_links(layout.links@) =~= body.links.push(Seq::empty()));
    layout
}

impl TranscriptEntry {
    pub open spec fn is_tool(self) -> bool {
        self.kind is Tool
    }

    /// The entry is unfolded unless the user says otherwise: plans are.
    pub open spec fn unfolded_by_default(self) -> bool {
        match self.kind {
            EntryKind::Tool(tool) => tool.name@ == "update_plan"@,
            _ => false,
        }
    }

    /// Whether the entry is unfolded unless the user says otherwise.
    pub fn expanded_by_default(&self) -> (yes: bool)
        ensures
            yes == self.unfolded_by_default(),
    {
        match &self.kind {
            EntryKind::Tool(tool) => same(tool.name.as_str(), "update_plan"),
            _ => false,
        }
    }

    /// Whether the entry is a tool call.
    pub fn tool_entry(&self) -> (yes: bool)
        ensures
            yes == self.is_tool(),
    {
        match &self.kind {
            EntryKind::Tool(_) => true,
            _ => false,
        }
    }
}

} // verus!
