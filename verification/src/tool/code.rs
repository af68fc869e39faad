//! Calls of the code runner.

use crate::draw::{code_look, colored, lines, Look, Tone, Word, Words};
use crate::format::{bytes_text, format_bytes};
use crate::json::{or_text, Document, Json};
use crate::numeral::{decimal, decimal_text};
use crate::text::{byte_len, bytes_in, concat, same};
use crate::tool::{
    presented, pretty_value, render_result, result_rows, rows_view, value_rows, Presentation, Shown,
    ToolEntry,
};
use crate::wrap::{wrap_onto, wrapped_text};
use vstd::prelude::*;

verus! {

/// The source that a call runs.
pub open spec fn source_of(arguments: Json) -> Seq<char> {
    match arguments.text() {
        Some(text) => text,
        None => or_text(arguments.text_at("input"@), "<source unavailable>"@),
    }
}

/// The number of items that a call emitted.
pub open spec fn emitted_by(result: Option<Document>) -> int {
    match result {
        Some(document) => match document.value.list() {
            Some(values) => values.len() as int,
            None => 0,
        },
        None => 0,
    }
}

/// The rows of the texts among the first `n` items.
pub open spec fn item_rows(values: Seq<Json>, n: int, width: int) -> Seq<Seq<Word>>
    decreases n,
{
    if n <= 0 {
        Seq::empty()
    } else {
        item_rows(values, n - 1, width) + match values[n - 1].text_at("text"@) {
            Some(text) => wrapped_text(text, width, colored(Tone::Text)),
            None => Seq::empty(),
        }
    }
}

/// The rows of a call's result.
pub open spec fn output_rows(result: Option<Document>, width: int) -> Seq<Seq<Word>> {
    match result {
        Some(document) => match document.value.list() {
            Some(values) => item_rows(values, values.len() as int, width),
            None => result_rows(document, width),
        },
        None => Seq::empty(),
    }
}

pub open spec fn result_size(result: Option<Document>) -> int {
    match result {
        Some(document) => byte_len(document.compact()) as int,
        None => 0,
    }
}

pub open spec fn wait_view(tool: ToolEntry, width: int, expanded: bool) -> Shown {
    let shown = presented("Wait"@, "background work"@);
    if !expanded {
        shown
    } else {
        shown.with_details(
            value_rows(tool.arguments, width) + match tool.result {
                Some(result) => result_rows(result, width),
                None => Seq::empty(),
            },
        ).with_footer("wait diagnostics"@)
    }
}

/// The source of a call as a block of Markdown.
pub open spec fn fenced(source: Seq<char>) -> Seq<char> {
    "```javascript\n"@ + source + "\n```"@
}

/// The rows of a call's source: those that its Markdown was formatted into, or the source as it is.
pub open spec fn source_rows(
    tool: ToolEntry,
    width: int,
    formatted: Option<Seq<Seq<Word>>>,
) -> Seq<Seq<Word>> {
    match formatted {
        Some(rows) => rows,
        None => wrapped_text(source_of(tool.arguments.value), width, code_look()),
    }
}

/// A call of the code runner as it is shown. `formatted` are the rows that the Markdown of its
/// source was formatted into.
pub open spec fn code_view(
    tool: ToolEntry,
    width: int,
    expanded: bool,
    formatted: Option<Seq<Seq<Word>>>,
) -> Shown {
    let emitted = emitted_by(tool.result);
    let shown = presented(
        "Code"@,
        if emitted == 1 {
            "1 emitted item"@
        } else {
            decimal(emitted) + " emitted items"@
        },
    );
    if tool.name@ == "wait"@ {
        wait_view(tool, width, expanded)
    } else if !expanded {
        shown
    } else {
        shown.with_details(
            source_rows(tool, width, formatted) + output_rows(tool.result, width),
        ).with_footer(decimal(emitted) + " outputs · "@ + bytes_text(result_size(tool.result)))
    }
}

fn wait(tool: &ToolEntry, limit: u16, expanded: bool) -> (presentation: Presentation)
    ensures
        presentation@ == wait_view(*tool, limit as int, expanded),
{
    let presentation = Presentation::new("Wait", "background work".to_owned());
    if !expanded {
        return presentation;
    }
    let mut details: Vec<Vec<Words>> = Vec::new();
    pretty_value(&mut details, &tool.arguments, limit);
    match &tool.result {
        Some(result) => render_result(&mut details, result, limit),
        None => {},
    }
    assert(lines(details@) =~= wait_view(*tool, limit as int, expanded).details);
    presentation.details(details).footer("wait diagnostics".to_owned())
}

fn push_items(details: &mut Vec<Vec<Words>>, values: &Vec<Json>, limit: u16)
    ensures
        lines(final(details)@) == lines(old(details)@) + item_rows(
            values@,
            values@.len() as int,
            limit as int,
        ),
{
    let ghost start = lines(details@);
    let mut i: usize = 0;
    assert(lines(details@) =~= start + item_rows(values@, 0, limit as int));
    while i < values.len()
        invariant
            i <= values@.len(),
            lines(details@) == start + item_rows(values@, i as int, limit as int),
        decreases values@.len() - i,
    {
        match values[i].str_at("text") {
            Some(text) => wrap_onto(details, text, limit as usize, Look::plain(Tone::Text)),
            None => {},
        }
        i = i + 1;
        assert(lines(details@) =~= start + item_rows(values@, i as int, limit as int));
    }
}

fn source_text(tool: &ToolEntry) -> (source: &str)
    ensures
        source@ == source_of(tool.arguments.value),
{
    match tool.arguments.value.as_str() {
        Some(source) => source,
        None => match tool.arguments.value.str_at("input") {
            Some(source) => source,
            None => "<source unavailable>",
        },
    }
}

/// The Markdown that the source of a call of the code runner is formatted from.
pub fn source_markdown(tool: &ToolEntry) -> (text: String)
    ensures
        text@ == fenced(source_of(tool.arguments.value)),
{
    let mut text: String = concat("```javascript\n", source_text(tool));
    text.push_str("\n```");
    text
}

/// Presents a call of the code runner. `formatted` are the rows that the Markdown of its source was
/// formatted into.
pub fn present(
    tool: &ToolEntry,
    limit: u16,
    expanded: bool,
    formatted: Option<Vec<Vec<Words>>>,
) -> (presentation: Presentation)
    ensures
        presentation@ == code_view(*tool, limit as int, expanded, rows_view(formatted)),
{
    if same(tool.name.as_str(), "wait") {
        return wait(tool, limit, expanded);
    }
    let emitted: usize = match &tool.result {
        Some(document) => match document.value.as_array() {
            Some(values) => values.len(),
            None => 0,
        },
        None => 0,
    };
    let subject: String = if emitted == 1 {
        "1 emitted item".to_owned()
    } else {
        concat(decimal_text(emitted as u64).as_str(), " emitted items")
    };
    let presentation = Presentation::new("Code", subject);
    if !expanded {
        return presentation;
    }
    let mut details: Vec<Vec<Words>> = match formatted {
        Some(rows) => rows,
        None => {
            let mut rows: Vec<Vec<Words>> = Vec::new();
            wrap_onto(&mut rows, source_text(tool), limit as usize, Look::code());
            assert(lines(rows@) =~= source_rows(*tool, limit as int, None));
            rows
        },
    };
    assert(lines(details@) == source_rows(*tool, limit as int, rows_view(formatted)));
    let size: usize = match &tool.result {
        Some(document) => {
            match document.value.as_array() {
                Some(values) => push_items(&mut details, values, limit),
                None => render_result(&mut details, document, limit),
            }
            bytes_in(document.compact_text().as_str())
        },
        None => 0,
    };
    assert(lines(details@) =~= code_view(
        *tool,
        limit as int,
        expanded,
        rows_view(formatted),
    ).details);
    let mut footer: String = concat(decimal_text(emitted as u64).as_str(), " outputs · ");
    footer.push_str(format_bytes(size).as_str());
    presentation.details(details).footer(footer)
}

} // verus!
