//! Tool calls in the transcript: a summary and, where it is unfolded, the details.

pub mod code;
pub mod memory;
pub mod shell;

use crate::composer::option_view;
use crate::draw::{
    bold_colored, colored, lines, say, words, Look, Tone, Word, Words,
};
use crate::format::{
    bytes_text, duration_text, format_bytes, format_duration, humanize_tool, tool_words,
};
use crate::geometry::{cell16, minus, most, sum16, to_cell};
use crate::json::{contains_image_data, holds_image, Document, Json};
use crate::numeral::{decimal, decimal_text};
use crate::settings::ReasoningEffort;
use crate::text::{
    clusters, concat, display_width, graphemes, joined, lines_of, same, text_lines, trim, trimmed,
    views, width,
};
use crate::wrap::{clean, sanitize, wrap_onto, wrap_spans, wrapped_line, wrapped_text};
use vstd::prelude::*;

verus! {

/// How far a tool call is.
#[derive(Clone, Copy, Debug, PartialEq, Eq, Structural)]
pub enum ToolState {
    Running,
    Succeeded,
    Failed,
}

/// A tool call.
#[derive(Debug)]
pub struct ToolEntry {
    pub name: String,
    pub arguments: Document,
    pub state: ToolState,
    pub duration_ns: Option<u64>,
    pub result: Option<Document>,
    pub substeps: Vec<String>,
}

/// What a call is about.
#[derive(Debug)]
pub enum Subject {
    Plain(String),
    Styled(Vec<Words>),
}

/// What a call is about, as mathematical values.
pub enum Topic {
    Plain(Seq<char>),
    Styled(Seq<Word>),
}

impl View for Subject {
    type V = Topic;

    open spec fn view(&self) -> Topic {
        match self {
            Subject::Plain(text) => Topic::Plain(text@),
            Subject::Styled(line) => Topic::Styled(words(line@)),
        }
    }
}

/// A call as it is shown.
#[derive(Debug)]
pub struct Presentation {
    pub title: String,
    pub subject: Subject,
    pub outcome: Option<String>,
    pub details: Vec<Vec<Words>>,
    pub footer: Option<String>,
}

/// A call as it is shown, as mathematical values.
pub struct Shown {
    pub title: Seq<char>,
    pub subject: Topic,
    pub outcome: Option<Seq<char>>,
    pub details: Seq<Seq<Word>>,
    pub footer: Option<Seq<char>>,
}

impl View for Presentation {
    type V = Shown;

    open spec fn view(&self) -> Shown {
        Shown {
            title: self.title@,
            subject: self.subject@,
            outcome: option_view(self.outcome),
            details: lines(self.details@),
            footer: option_view(self.footer),
        }
    }
}

/// A presentation with a title and a subject only.
pub open spec fn presented(title: Seq<char>, subject: Seq<char>) -> Shown {
    Shown {
        title,
        subject: Topic::Plain(subject),
        outcome: None,
        details: Seq::empty(),
        footer: None,
    }
}

impl Shown {
    pub open spec fn with_outcome(self, outcome: Seq<char>) -> Shown {
        Shown { outcome: Some(outcome), ..self }
    }

    pub open spec fn with_details(self, details: Seq<Seq<Word>>) -> Shown {
        Shown { details, ..self }
    }

    pub open spec fn with_footer(self, footer: Seq<char>) -> Shown {
        Shown { footer: Some(footer), ..self }
    }
}

impl Presentation {
    /// A presentation with a title and a subject only.
    pub fn new(title: &str, subject: String) -> (presentation: Self)
        ensures
            presentation@ == presented(title@, subject@),
    {
        let details: Vec<Vec<Words>> = Vec::new();
        assert(lines(details@) =~= Seq::<Seq<Word>>::empty());
        Presentation {
            title: title.to_owned(),
            subject: Subject::Plain(subject),
            outcome: None,
            details,
            footer: None,
        }
    }

    /// A presentation with a title and a styled subject only.
    pub fn styled_subject(title: &str, subject: Vec<Words>) -> (presentation: Self)
        ensures
            presentation@ == (Shown {
                title: title@,
                subject: Topic::Styled(words(subject@)),
                outcome: None,
                details: Seq::empty(),
                footer: None,
            }),
    {
        let details: Vec<Vec<Words>> = Vec::new();
        assert(lines(details@) =~= Seq::<Seq<Word>>::empty());
        Presentation {
            title: title.to_owned(),
            subject: Subject::Styled(subject),
            outcome: None,
            details,
            footer: None,
        }
    }

    /// With an outcome.
    pub fn outcome(self, outcome: String) -> (presentation: Self)
        ensures
            presentation@ == self@.with_outcome(outcome@),
    {
        Presentation { outcome: Some(outcome), ..self }
    }

    /// With details.
    pub fn details(self, details: Vec<Vec<Words>>) -> (presentation: Self)
        ensures
            presentation@ == self@.with_details(lines(details@)),
    {
        Presentation { details, ..self }
    }

    /// With a footer.
    pub fn footer(self, footer: String) -> (presentation: Self)
        ensures
            presentation@ == self@.with_footer(footer@),
    {
        Presentation { footer: Some(footer), ..self }
    }
}

impl ToolState {
    pub open spec fn symbol(self) -> Seq<char> {
        match self {
            ToolState::Running => "◌"@,
            ToolState::Succeeded => "✓"@,
            ToolState::Failed => "×"@,
        }
    }

    pub open spec fn look(self) -> Look {
        bold_colored(
            match self {
                ToolState::Running => Tone::Accent,
                ToolState::Succeeded => Tone::Green,
                ToolState::Failed => Tone::Effort(ReasoningEffort::XHigh),
            },
        )
    }
}

/// The symbol of a state.
pub fn status_symbol(state: ToolState) -> (symbol: &'static str)
    ensures
        symbol@ == state.symbol(),
{
    match state {
        ToolState::Running => "◌",
        ToolState::Succeeded => "✓",
        ToolState::Failed => "×",
    }
}

/// The look of a state's symbol.
pub fn status_style(state: ToolState) -> (look: Look)
    ensures
        look == state.look(),
{
    match state {
        ToolState::Running => Look::bold(Tone::Accent),
        ToolState::Succeeded => Look::bold(Tone::Green),
        ToolState::Failed => Look::bold(Tone::Effort(ReasoningEffort::XHigh)),
    }
}

/// A text in one look without control characters; nothing where no character is left.
pub open spec fn span(text: Seq<char>, look: Look) -> Seq<Word> {
    if clean(text).len() == 0 {
        Seq::empty()
    } else {
        seq![Word { text: clean(text), look }]
    }
}

/// The spans of the first `n` words of a line.
pub open spec fn spans(line: Seq<Word>, n: int) -> Seq<Word>
    decreases n,
{
    if n <= 0 {
        Seq::empty()
    } else {
        spans(line, n - 1) + span(line[n - 1].text, line[n - 1].look)
    }
}

/// Appends a text in one look without control characters.
pub fn append_span(line: &mut Vec<Words>, text: &str, look: Look)
    ensures
        words(final(line)@) == words(old(line)@) + span(text@, look),
{
    let ghost start = words(line@);
    let cleaned: String = sanitize(text);
    if !cleaned.as_str().is_empty() {
        say(line, cleaned, look);
    }
    assert(words(line@) =~= start + span(text@, look));
}

impl Topic {
    /// The words of a subject in a summary.
    pub open spec fn spans(self) -> Seq<Word> {
        match self {
            Topic::Plain(text) => if text.len() == 0 {
                Seq::empty()
            } else {
                span("  "@ + text, colored(Tone::Text))
            },
            Topic::Styled(line) => if line.len() == 0 {
                Seq::empty()
            } else {
                span("  "@, colored(Tone::Plain)) + spans(line, line.len() as int)
            },
        }
    }
}

/// Appends the subject of a summary.
pub fn push_subject(line: &mut Vec<Words>, subject: &Subject)
    ensures
        words(final(line)@) == words(old(line)@) + subject@.spans(),
{
    let ghost start = words(line@);
    match subject {
        Subject::Plain(text) => {
            if !text.as_str().is_empty() {
                let indented: String = concat("  ", text.as_str());
                append_span(line, indented.as_str(), Look::plain(Tone::Text));
            }
            assert(words(line@) =~= start + subject@.spans());
        },
        Subject::Styled(parts) => {
            if parts.len() == 0 {
                assert(words(line@) =~= start + subject@.spans());
                return ;
            }
            append_span(line, "  ", Look::plain(Tone::Plain));
            let ghost indented = words(line@);
            let mut i: usize = 0;
            assert(words(line@) =~= indented + spans(words(parts@), 0));
            while i < parts.len()
                invariant
                    i <= parts@.len(),
                    words(line@) == indented + spans(words(parts@), i as int),
                decreases parts@.len() - i,
            {
                let ghost sofar = words(line@);
                append_span(line, parts[i].text.as_str(), parts[i].look);
                assert(words(parts@)[i as int] == parts@[i as int]@);
                i = i + 1;
                assert(words(line@) =~= indented + spans(words(parts@), i as int));
            }
            assert(words(line@) =~= start + subject@.spans());
        },
    }
}

/// The first of some lines, from line `from` on, with a character other than white space, without
/// the white space around it.
pub open spec fn first_filled(list: Seq<Seq<char>>, from: int) -> Option<Seq<char>>
    decreases list.len() - from,
{
    if from >= list.len() {
        None
    } else if trimmed(list[from]).len() > 0 {
        Some(trimmed(list[from]))
    } else {
        first_filled(list, from + 1)
    }
}

/// The text that tells of an error.
pub open spec fn error_text(value: Json) -> Option<Seq<char>> {
    match value.text_at("error"@) {
        Some(text) => Some(text),
        None => match value.text_at("output"@) {
            Some(text) => Some(text),
            None => value.text(),
        },
    }
}

/// The first line of an error.
pub open spec fn error_line(result: Option<Document>) -> Option<Seq<char>> {
    match result {
        None => None,
        Some(document) => match error_text(document.value) {
            None => None,
            Some(text) => match first_filled(lines_of(text), 0) {
                None => None,
                Some(line) => Some(clean(line)),
            },
        },
    }
}

/// The first line of an error.
pub fn first_error_line(result: &Option<Document>) -> (line: Option<String>)
    ensures
        option_view(line) == error_line(*result),
{
    let document: &Document = match result {
        Some(document) => document,
        None => return None,
    };
    let text: &str = match document.value.str_at("error") {
        Some(text) => text,
        None => match document.value.str_at("output") {
            Some(text) => text,
            None => match document.value.as_str() {
                Some(text) => text,
                None => return None,
            },
        },
    };
    let list = text_lines(text);
    let mut i: usize = 0;
    while i < list.len()
        invariant
            *result == Some(*document),
            error_text(document.value) == Some(text@),
            views(list@) == lines_of(text@),
            i <= list@.len(),
            first_filled(views(list@), i as int) == first_filled(views(list@), 0),
        decreases list@.len() - i,
    {
        assert(views(list@)[i as int] == list@[i as int]@);
        let line: &str = trim(list[i]);
        if !line.is_empty() {
            return Some(sanitize(line));
        }
        i = i + 1;
    }
    None
}

/// The words in front of the first row of a summary.
pub open spec fn summary_prefix(state: ToolState, expanded: bool) -> Seq<Word> {
    seq![
        Word { text: "  "@, look: colored(Tone::Plain) },
        Word {
            text: if expanded {
                "▼ "@
            } else {
                "▶ "@
            },
            look: colored(Tone::Border),
        },
        Word { text: state.symbol() + " "@, look: state.look() },
    ]
}

/// A text behind a dot.
pub open spec fn dotted_span(text: Option<Seq<char>>, look: Look) -> Seq<Word> {
    match text {
        Some(found) => span(" · "@ + found, look),
        None => Seq::empty(),
    }
}

/// The words of a summary.
pub open spec fn summary_words(tool: ToolEntry, shown: Shown) -> Seq<Word> {
    span(shown.title, bold_colored(Tone::Text)) + shown.subject.spans() + dotted_span(
        shown.outcome,
        colored(Tone::Muted),
    ) + dotted_span(
        if tool.state == ToolState::Failed {
            error_line(tool.result)
        } else {
            None
        },
        colored(Tone::Effort(ReasoningEffort::XHigh)),
    ) + dotted_span(
        match tool.duration_ns {
            Some(duration) => Some(duration_text(duration as int)),
            None => None,
        },
        colored(Tone::Muted),
    )
}

/// The rows of a summary: the first one behind the prefix, the others indented as far.
pub open spec fn summary_rows(tool: ToolEntry, shown: Shown, width: int, expanded: bool) -> Seq<
    Seq<Word>,
> {
    let prefix = summary_prefix(tool.state, expanded);
    if width <= 6 {
        wrapped_line(prefix + summary_words(tool, shown), width)
    } else {
        let rows = wrapped_line(summary_words(tool, shown), width - 6);
        Seq::new(
            rows.len(),
            |i: int|
                if i == 0 {
                    prefix + rows[i]
                } else {
                    seq![Word { text: "      "@, look: colored(Tone::Plain) }] + rows[i]
                },
        )
    }
}

fn append_dotted(line: &mut Vec<Words>, text: &str, look: Look)
    ensures
        words(final(line)@) == words(old(line)@) + dotted_span(Some(text@), look),
{
    let dotted: String = concat(" · ", text);
    append_span(line, dotted.as_str(), look);
}

fn push_prefix(line: &mut Vec<Words>, state: ToolState, expanded: bool)
    ensures
        words(final(line)@) == words(old(line)@) + summary_prefix(state, expanded),
{
    let ghost start = words(line@);
    say(line, "  ".to_owned(), Look::plain(Tone::Plain));
    let fold: &str = if expanded {
        "▼ "
    } else {
        "▶ "
    };
    say(line, fold.to_owned(), Look::plain(Tone::Border));
    say(line, concat(status_symbol(state), " "), status_style(state));
    assert(words(line@) =~= start + summary_prefix(state, expanded));
}

fn push_content(line: &mut Vec<Words>, tool: &ToolEntry, presentation: &Presentation)
    ensures
        words(final(line)@) == words(old(line)@) + summary_words(*tool, presentation@),
{
    let ghost start = words(line@);
    append_span(line, presentation.title.as_str(), Look::bold(Tone::Text));
    push_subject(line, &presentation.subject);
    match &presentation.outcome {
        Some(outcome) => append_dotted(line, outcome.as_str(), Look::plain(Tone::Muted)),
        None => {},
    }
    if tool.state == ToolState::Failed {
        match first_error_line(&tool.result) {
            Some(error) => append_dotted(
                line,
                error.as_str(),
                Look::plain(Tone::Effort(ReasoningEffort::XHigh)),
            ),
            None => {},
        }
    }
    match tool.duration_ns {
        Some(duration) => append_dotted(
            line,
            format_duration(duration).as_str(),
            Look::plain(Tone::Muted),
        ),
        None => {},
    }
    assert(words(line@) =~= start + summary_words(*tool, presentation@));
}

/// The rows of a summary.
pub fn summary_lines(tool: &ToolEntry, presentation: &Presentation, limit: u16, expanded: bool) -> (
rows: Vec<Vec<Words>>)
    ensures
        lines(rows@) == summary_rows(*tool, presentation@, limit as int, expanded),
        rows@.len() > 0,
{
    if limit <= 6 {
        let mut line: Vec<Words> = Vec::new();
        push_prefix(&mut line, tool.state, expanded);
        push_content(&mut line, tool, presentation);
        assert(words(line@) =~= summary_prefix(tool.state, expanded) + summary_words(
            *tool,
            presentation@,
        ));
        return wrap_spans(&line, limit as usize);
    }
    let mut content: Vec<Words> = Vec::new();
    push_content(&mut content, tool, presentation);
    assert(words(content@) =~= summary_words(*tool, presentation@));
    let wrapped: Vec<Vec<Words>> = wrap_spans(&content, (limit - 6) as usize);
    let ghost body = lines(wrapped@);
    let ghost expected = summary_rows(*tool, presentation@, limit as int, expanded);
    let mut rows: Vec<Vec<Words>> = Vec::new();
    let mut rest: Vec<Vec<Words>> = wrapped;
    let total: usize = rest.len();
    assert(lines(rows@) =~= expected.take(0));
    assert(rest@ =~= wrapped@.skip(0));
    while rest.len() > 0
        invariant
            total == wrapped@.len(),
            body == lines(wrapped@),
            expected.len() == body.len(),
            forall|i: int|
                0 <= i < body.len() ==> #[trigger] expected[i] == if i == 0 {
                    summary_prefix(tool.state, expanded) + body[i]
                } else {
                    seq![Word { text: "      "@, look: colored(Tone::Plain) }] + body[i]
                },
            rows@.len() + rest@.len() == total,
            rest@ == wrapped@.skip(rows@.len() as int),
            lines(rows@) == expected.take(rows@.len() as int),
        decreases rest@.len(),
    {
        let ghost n = rows@.len() as int;
        let ghost sofar = lines(rows@);
        let mut row: Vec<Words> = rest.remove(0);
        assert(body[n] == words(row@));
        let mut line: Vec<Words> = Vec::new();
        if rows.len() == 0 {
            push_prefix(&mut line, tool.state, expanded);
        } else {
            say(&mut line, "      ".to_owned(), Look::plain(Tone::Plain));
        }
        let ghost front = words(line@);
        let ghost tail = words(row@);
        line.append(&mut row);
        assert(words(line@) =~= front + tail);
        assert(words(line@) =~= expected[n]);
        rows.push(line);
        assert(lines(rows@) =~= sofar.push(words(line@)));
        assert(lines(rows@) =~= expected.take(n + 1));
        assert(rest@ =~= wrapped@.skip(n + 1));
    }
    assert(lines(rows@) =~= expected);
    rows
}

/// The number of clusters from cluster `n` on that fit in front of a column when `used` columns are
/// taken; the result counts from the first cluster.
pub open spec fn fit_count(parts: Seq<Seq<char>>, limit: int, n: int, used: int) -> int
    decreases parts.len() - n,
{
    if n >= parts.len() {
        n
    } else {
        let next = sum16(used, cell16(display_width(parts[n]) as int));
        if next > limit {
            n
        } else {
            fit_count(parts, limit, n + 1, next)
        }
    }
}

/// The start of a text that fits into a number of columns.
pub open spec fn truncated(s: Seq<char>, limit: int) -> Seq<char> {
    joined(clusters(s).take(fit_count(clusters(s), limit, 0, 0)))
}

/// The start of a text that fits into a number of columns.
pub fn truncate(text: &str, limit: u16) -> (start: String)
    ensures
        start@ == truncated(text@, limit as int),
{
    let parts = graphemes(text);
    let ghost pieces = views(parts@);
    let mut start = String::new();
    let mut used: u16 = 0;
    let mut i: usize = 0;
    assert(pieces.take(0) =~= Seq::<Seq<char>>::empty());
    assert(start@ =~= joined(pieces.take(0)));
    while i < parts.len()
        invariant
            pieces == views(parts@),
            pieces == clusters(text@),
            i <= parts@.len(),
            start@ == joined(pieces.take(i as int)),
            fit_count(pieces, limit as int, i as int, used as int) == fit_count(
                pieces,
                limit as int,
                0,
                0,
            ),
        decreases parts@.len() - i,
    {
        assert(pieces[i as int] == parts@[i as int]@);
        let next: u16 = used.saturating_add(to_cell(width(parts[i])));
        if next > limit {
            return start;
        }
        start.push_str(parts[i]);
        assert(pieces.take(i + 1).drop_last() =~= pieces.take(i as int));
        used = next;
        i = i + 1;
    }
    start
}

/// The first `n` words of a line cut to a number of columns, and the columns that are left.
pub open spec fn clipped(line: Seq<Word>, n: int, limit: int) -> (Seq<Word>, int)
    decreases n,
{
    if n <= 0 {
        (Seq::empty(), limit)
    } else {
        let (front, left) = clipped(line, n - 1, limit);
        let text = truncated(line[n - 1].text, left);
        if left == 0 {
            (front, 0)
        } else if text.len() == 0 {
            (front, minus(left, cell16(display_width(text) as int)))
        } else {
            (
                front.push(Word { text, look: line[n - 1].look }),
                minus(left, cell16(display_width(text) as int)),
            )
        }
    }
}

/// Appends what fits of a text; `remaining` is the number of columns that are left.
pub fn push_span(line: &mut Vec<Words>, remaining: &mut u16, text: &str, look: Look)
    ensures
        *old(remaining) == 0 ==> *final(remaining) == 0 && *final(line) == *old(line),
        *old(remaining) > 0 ==> {
            let start = truncated(text@, *old(remaining) as int);
            &&& *final(remaining) == minus(
                *old(remaining) as int,
                cell16(display_width(start) as int),
            )
            &&& words(final(line)@) == if start.len() == 0 {
                words(old(line)@)
            } else {
                words(old(line)@).push(Word { text: start, look })
            }
        },
{
    if *remaining == 0 {
        return ;
    }
    let start: String = truncate(text, *remaining);
    let used: u16 = to_cell(width(start.as_str()));
    *remaining = remaining.saturating_sub(used);
    if !start.as_str().is_empty() {
        say(line, start, look);
    }
}

/// A line cut to a number of columns.
pub fn truncate_line(line: &Vec<Words>, limit: u16) -> (part: Vec<Words>)
    ensures
        words(part@) == clipped(words(line@), line@.len() as int, limit as int).0,
{
    let mut part: Vec<Words> = Vec::new();
    let mut remaining: u16 = limit;
    let mut i: usize = 0;
    assert(words(part@) =~= Seq::<Word>::empty());
    while i < line.len()
        invariant
            i <= line@.len(),
            (words(part@), remaining as int) == clipped(words(line@), i as int, limit as int),
        decreases line@.len() - i,
    {
        assert(words(line@)[i as int] == line@[i as int]@);
        push_span(&mut part, &mut remaining, line[i].text.as_str(), line[i].look);
        i = i + 1;
    }
    part
}

/// The rows below a summary.
pub open spec fn detail_rows(shown: Shown, width: int) -> Seq<Seq<Word>> {
    if width < 7 {
        Seq::new(
            shown.details.len(),
            |i: int| clipped(shown.details[i], shown.details[i].len() as int, width).0,
        ) + match shown.footer {
            Some(footer) => seq![
                seq![
                    Word { text: truncated(clean(footer), width), look: colored(Tone::Muted) },
                ],
            ],
            None => Seq::empty(),
        }
    } else {
        let footer = match shown.footer {
            Some(footer) => footer,
            None => "details"@,
        };
        Seq::new(
            shown.details.len(),
            |i: int|
                seq![Word { text: "    │ "@, look: colored(Tone::Border) }] + shown.details[i],
        ) + seq![
            seq![
                Word { text: "    └ "@, look: colored(Tone::Border) },
                Word { text: truncated(clean(footer), width - 6), look: colored(Tone::Muted) },
            ],
        ]
    }
}

/// Appends the rows below a summary.
pub fn append_details(rows: &mut Vec<Vec<Words>>, presentation: Presentation, limit: u16)
    ensures
        lines(final(rows)@) == lines(old(rows)@) + detail_rows(presentation@, limit as int),
        final(rows)@.len() >= old(rows)@.len(),
{
    let ghost start = lines(rows@);
    let ghost shown = presentation@;
    let ghost expected = detail_rows(shown, limit as int);
    let narrow: bool = limit < 7;
    let mut details: Vec<Vec<Words>> = presentation.details;
    let ghost all = details@;
    let total: usize = details.len();
    let mut n: usize = 0;
    assert(start + expected.take(0) =~= start);
    assert(details@ =~= all.skip(0));
    while details.len() > 0
        invariant
            shown == presentation@,
            all == presentation.details@,
            narrow == (limit < 7),
            expected == detail_rows(shown, limit as int),
            total == all.len(),
            n + details@.len() == total,
            details@ == all.skip(n as int),
            lines(rows@) == start + expected.take(n as int),
            rows@.len() >= old(rows)@.len(),
        decreases details@.len(),
    {
        let ghost sofar = lines(rows@);
        let mut detail: Vec<Words> = details.remove(0);
        assert(shown.details[n as int] == words(detail@));
        let line: Vec<Words> = if narrow {
            truncate_line(&detail, limit)
        } else {
            let mut line: Vec<Words> = Vec::new();
            say(&mut line, "    │ ".to_owned(), Look::plain(Tone::Border));
            let ghost front = words(line@);
            let ghost tail = words(detail@);
            line.append(&mut detail);
            assert(words(line@) =~= front + tail);
            assert(words(line@) =~= expected[n as int]);
            line
        };
        rows.push(line);
        n = n + 1;
        assert(lines(rows@) =~= sofar.push(words(line@)));
        assert(lines(rows@) =~= start + expected.take(n as int));
        assert(details@ =~= all.skip(n as int));
    }
    if narrow {
        match presentation.footer {
            Some(footer) => {
                let mut line: Vec<Words> = Vec::new();
                let text: String = sanitize(footer.as_str());
                say(&mut line, truncate(text.as_str(), limit), Look::plain(Tone::Muted));
                let ghost sofar = lines(rows@);
                rows.push(line);
                assert(lines(rows@) =~= sofar.push(words(line@)));
                assert(words(line@) =~= expected[n as int]);
                assert(lines(rows@) =~= start + expected);
            },
            None => {
                assert(lines(rows@) =~= start + expected);
            },
        }
        return ;
    }
    let footer: String = match presentation.footer {
        Some(footer) => footer,
        None => "details".to_owned(),
    };
    let mut line: Vec<Words> = Vec::new();
    say(&mut line, "    └ ".to_owned(), Look::plain(Tone::Border));
    let text: String = sanitize(footer.as_str());
    say(&mut line, truncate(text.as_str(), limit - 6), Look::plain(Tone::Muted));
    let ghost sofar = lines(rows@);
    rows.push(line);
    assert(lines(rows@) =~= sofar.push(words(line@)));
    assert(words(line@) =~= expected[n as int]);
    assert(lines(rows@) =~= start + expected);
}

/// The rows of a value as indented JSON.
pub open spec fn value_rows(document: Document, width: int) -> Seq<Seq<Word>> {
    wrapped_text(document.pretty(), width, crate::draw::code_look())
}

/// The rows of a result: images are not shown, text is shown as it is.
pub open spec fn result_rows(document: Document, width: int) -> Seq<Seq<Word>> {
    if holds_image(document.value) {
        wrapped_text(
            "image data · "@ + bytes_text(crate::text::byte_len(document.compact()) as int),
            width,
            colored(Tone::Muted),
        )
    } else {
        match document.value.text() {
            Some(text) => wrapped_text(text, width, colored(Tone::Text)),
            None => value_rows(document, width),
        }
    }
}

/// Of a result that holds an image only its size is shown.
pub proof fn law_images_are_not_shown(a: Document, b: Document, width: int)
    requires
        holds_image(a.value),
        holds_image(b.value),
        crate::text::byte_len(a.compact()) == crate::text::byte_len(b.compact()),
    ensures
        result_rows(a, width) == result_rows(b, width),
{
}

/// Appends the rows of a value as indented JSON.
pub fn pretty_value(rows: &mut Vec<Vec<Words>>, document: &Document, limit: u16)
    ensures
        lines(final(rows)@) == lines(old(rows)@) + value_rows(*document, limit as int),
{
    let text: String = document.pretty_text();
    wrap_onto(rows, text.as_str(), limit as usize, Look::code());
}

/// Appends the rows of a result.
pub fn render_result(rows: &mut Vec<Vec<Words>>, document: &Document, limit: u16)
    ensures
        lines(final(rows)@) == lines(old(rows)@) + result_rows(*document, limit as int),
{
    if contains_image_data(&document.value) {
        let source: String = document.compact_text();
        let label: String = concat(
            "image data · ",
            format_bytes(crate::text::bytes_in(source.as_str())).as_str(),
        );
        wrap_onto(rows, label.as_str(), limit as usize, Look::plain(Tone::Muted));
        return ;
    }
    match document.value.as_str() {
        Some(text) => wrap_onto(rows, text, limit as usize, Look::plain(Tone::Text)),
        None => pretty_value(rows, document, limit),
    }
}

/// The first of some fields, from field `from` on, that is a text.
pub open spec fn first_text(value: Json, keys: Seq<&'static str>, from: int) -> Option<Seq<char>>
    decreases keys.len() - from,
{
    if from >= keys.len() {
        None
    } else {
        match value.text_at(keys[from]@) {
            Some(text) => Some(text),
            None => first_text(value, keys, from + 1),
        }
    }
}

/// The fields that may name a subject.
pub open spec fn subject_keys() -> Seq<&'static str> {
    seq!["path", "query", "prompt", "url", "name"]
}

/// The first line of a text, nothing for an empty one.
pub open spec fn first_line(text: Seq<char>) -> Seq<char> {
    if lines_of(text).len() == 0 {
        Seq::empty()
    } else {
        lines_of(text)[0]
    }
}

/// The subject that the arguments of a call name.
pub open spec fn named_subject(arguments: Json) -> Option<Seq<char>> {
    match first_text(arguments, subject_keys(), 0) {
        Some(text) => Some(clean(first_line(text))),
        None => None,
    }
}

/// The subject that the arguments of a call name.
pub fn meaningful_subject(arguments: &Json) -> (subject: Option<String>)
    ensures
        option_view(subject) == named_subject(*arguments),
{
    let mut keys: Vec<&'static str> = Vec::new();
    keys.push("path");
    keys.push("query");
    keys.push("prompt");
    keys.push("url");
    keys.push("name");
    assert(keys@ =~= subject_keys());
    let mut i: usize = 0;
    while i < keys.len()
        invariant
            keys@ == subject_keys(),
            i <= keys@.len(),
            first_text(*arguments, keys@, i as int) == first_text(*arguments, keys@, 0),
        decreases keys@.len() - i,
    {
        match arguments.str_at(keys[i]) {
            Some(text) => {
                let list = text_lines(text);
                assert(views(list@).len() == list@.len());
                if list.len() == 0 {
                    assert(clean(Seq::empty()) =~= Seq::<char>::empty());
                    return Some(String::new());
                }
                assert(views(list@)[0] == list@[0]@);
                return Some(sanitize(list[0]));
            },
            None => {},
        }
        i = i + 1;
    }
    None
}

/// A call of a tool without a presentation of its own.
pub open spec fn generic_view(tool: ToolEntry, width: int, expanded: bool) -> Shown {
    let subject = match named_subject(tool.arguments.value) {
        Some(subject) => subject,
        None => decimal(tool.arguments.value.field_count()) + " arguments"@,
    };
    let shown = presented(tool_words(tool.name@), subject);
    if !expanded {
        shown
    } else {
        shown.with_details(
            value_rows(tool.arguments, width) + match tool.result {
                Some(result) => result_rows(result, width),
                None => Seq::empty(),
            },
        ).with_footer("arguments and result"@)
    }
}

/// Presents a call of a tool without a presentation of its own.
pub fn generic(tool: &ToolEntry, limit: u16, expanded: bool) -> (presentation: Presentation)
    ensures
        presentation@ == generic_view(*tool, limit as int, expanded),
{
    let title: String = humanize_tool(tool.name.as_str());
    let subject: String = match meaningful_subject(&tool.arguments.value) {
        Some(subject) => subject,
        None => {
            let count: usize = tool.arguments.value.count_fields();
            concat(decimal_text(count as u64).as_str(), " arguments")
        },
    };
    let presentation = Presentation::new(title.as_str(), subject);
    if !expanded {
        return presentation;
    }
    let mut details: Vec<Vec<Words>> = Vec::new();
    pretty_value(&mut details, &tool.arguments, limit);
    match &tool.result {
        Some(result) => render_result(&mut details, result, limit),
        None => {},
    }
    assert(lines(details@) =~= generic_view(*tool, limit as int, expanded).details);
    presentation.details(details).footer("arguments and result".to_owned())
}

/// Who presents the calls of a tool.
#[derive(Clone, Copy, Debug, PartialEq, Eq, Structural)]
pub enum Presenter {
    Shell,
    Code,
    Memory,
    /// Plans, patches, web pages and images, which are laid out elsewhere.
    Given,
    Generic,
}

pub open spec fn presenter_of(name: Seq<char>) -> Presenter {
    if name == "exec_command"@ || name == "write_stdin"@ {
        Presenter::Shell
    } else if name == "update_plan"@ || name == "apply_patch"@ || name == "web__run"@ || name
        == "view_image"@ || name == "image_gen__imagegen"@ {
        Presenter::Given
    } else if name == "exec"@ || name == "wait"@ {
        Presenter::Code
    } else if name == "memory"@ {
        Presenter::Memory
    } else {
        Presenter::Generic
    }
}

/// Who presents the calls of a tool.
pub fn presenter(name: &str) -> (found: Presenter)
    ensures
        found == presenter_of(name@),
{
    if same(name, "exec_command") || same(name, "write_stdin") {
        Presenter::Shell
    } else if same(name, "update_plan") || same(name, "apply_patch") || same(name, "web__run")
        || same(name, "view_image") || same(name, "image_gen__imagegen") {
        Presenter::Given
    } else if same(name, "exec") || same(name, "wait") {
        Presenter::Code
    } else if same(name, "memory") {
        Presenter::Memory
    } else {
        Presenter::Generic
    }
}

/// A call as it is shown. `home` is the home directory, `formatted` the rows that the Markdown of a
/// source was formatted into, and `given` a presentation that was made elsewhere.
pub open spec fn view_of(
    tool: ToolEntry,
    width: int,
    expanded: bool,
    home: Option<Seq<char>>,
    formatted: Option<Seq<Seq<Word>>>,
    given: Option<Shown>,
) -> Shown {
    match presenter_of(tool.name@) {
        Presenter::Shell => shell::shell_view(tool, width, expanded, home),
        Presenter::Code => code::code_view(tool, width, expanded, formatted),
        Presenter::Memory => memory::memory_view(tool, width, expanded),
        Presenter::Given => match given {
            Some(shown) => shown,
            None => generic_view(tool, width, expanded),
        },
        Presenter::Generic => generic_view(tool, width, expanded),
    }
}

/// The columns of a call's details.
pub open spec fn detail_columns(width: int) -> int {
    most(minus(width, 6), 1)
}

/// The columns of a call's details: what is formatted for them is that wide.
pub fn detail_width(limit: u16) -> (columns: u16)
    ensures
        columns == detail_columns(limit as int),
{
    if limit > 7 {
        limit - 6
    } else {
        1
    }
}

/// The rows of a call.
pub open spec fn tool_rows(
    tool: ToolEntry,
    width: int,
    expanded: bool,
    home: Option<Seq<char>>,
    formatted: Option<Seq<Seq<Word>>>,
    given: Option<Shown>,
) -> Seq<Seq<Word>> {
    let shown = view_of(tool, detail_columns(width), expanded, home, formatted, given);
    if width == 0 {
        Seq::empty()
    } else if expanded {
        summary_rows(tool, shown, width, true) + detail_rows(shown, width)
    } else {
        summary_rows(tool, shown, width, false)
    }
}

pub open spec fn optional_view(given: Option<Presentation>) -> Option<Shown> {
    match given {
        Some(presentation) => Some(presentation@),
        None => None,
    }
}

pub open spec fn rows_view(rows: Option<Vec<Vec<Words>>>) -> Option<Seq<Seq<Word>>> {
    match rows {
        Some(found) => Some(lines(found@)),
        None => None,
    }
}

pub open spec fn str_view(text: Option<&str>) -> Option<Seq<char>> {
    match text {
        Some(found) => Some(found@),
        None => None,
    }
}

/// The rows of a call.
pub fn render_state(
    tool: &ToolEntry,
    limit: u16,
    expanded: bool,
    home: Option<&str>,
    formatted: Option<Vec<Vec<Words>>>,
    given: Option<Presentation>,
) -> (rows: Vec<Vec<Words>>)
    ensures
        lines(rows@) == tool_rows(
            *tool,
            limit as int,
            expanded,
            str_view(home),
            rows_view(formatted),
            optional_view(given),
        ),
        limit > 0 ==> rows@.len() > 0,
{
    if limit == 0 {
        let rows: Vec<Vec<Words>> = Vec::new();
        assert(lines(rows@) =~= Seq::<Seq<Word>>::empty());
        return rows;
    }
    let columns: u16 = detail_width(limit);
    let presentation: Presentation = match presenter(tool.name.as_str()) {
        Presenter::Shell => shell::present(tool, columns, expanded, home),
        Presenter::Code => code::present(tool, columns, expanded, formatted),
        Presenter::Memory => memory::present(tool, columns, expanded),
        Presenter::Given => match given {
            Some(presentation) => presentation,
            None => generic(tool, columns, expanded),
        },
        Presenter::Generic => generic(tool, columns, expanded),
    };
    let mut rows: Vec<Vec<Words>> = summary_lines(tool, &presentation, limit, expanded);
    if !expanded {
        return rows;
    }
    append_details(&mut rows, presentation, limit);
    rows
}

/// The rows of a folded call.
pub fn render(
    tool: &ToolEntry,
    limit: u16,
    home: Option<&str>,
    formatted: Option<Vec<Vec<Words>>>,
    given: Option<Presentation>,
) -> (rows: Vec<Vec<Words>>)
    ensures
        lines(rows@) == tool_rows(
            *tool,
            limit as int,
            false,
            str_view(home),
            rows_view(formatted),
            optional_view(given),
        ),
        limit > 0 ==> rows@.len() > 0,
{
    render_state(tool, limit, false, home, formatted, given)
}

/// The rows of an unfolded call.
pub fn render_expanded(
    tool: &ToolEntry,
    limit: u16,
    home: Option<&str>,
    formatted: Option<Vec<Vec<Words>>>,
    given: Option<Presentation>,
) -> (rows: Vec<Vec<Words>>)
    ensures
        lines(rows@) == tool_rows(
            *tool,
            limit as int,
            true,
            str_view(home),
            rows_view(formatted),
            optional_view(given),
        ),
        limit > 0 ==> rows@.len() > 0,
{
    render_state(tool, limit, true, home, formatted, given)
}

} // verus!
