//! Calls of the shell.

use crate::composer::option_view;
use crate::draw::{code_look, colored, lines, Look, Tone, Word, Words};
use crate::format::{bytes_text, counted, count_label, format_bytes, shorten_home, shortened};
use crate::json::{or_text, Document, Json};
use crate::numeral::{decimal, decimal_text};
use crate::text::{byte_len, bytes_in, concat, lines_of, same, text_lines, views};
use crate::tool::{presented, render_result, result_rows, str_view, Presentation, Shown, ToolEntry};
use crate::wrap::{wrap_onto, wrapped_text};
use vstd::prelude::*;

verus! {

/// A text as a string literal, with escapes for quotes and for characters that are not printed.
pub uninterp spec fn quoted(s: Seq<char>) -> Seq<char>;

/// The `Debug` format of `str`: the text as a string literal.
#[verifier::external_body]
fn quote(text: &str) -> (literal: String)
    ensures
        literal@ == quoted(text@),
{
    format!("{text:?}")
}

/// An integer in decimal notation.
pub open spec fn signed_decimal(n: int) -> Seq<char> {
    if n < 0 {
        "-"@ + decimal(-n)
    } else {
        decimal(n)
    }
}

/// Writes an integer.
pub fn signed_text(n: i64) -> (text: String)
    ensures
        text@ == signed_decimal(n as int),
{
    if n < 0 {
        let size: u64 = if n == i64::MIN {
            9_223_372_036_854_775_808
        } else {
            (-n) as u64
        };
        concat("-", decimal_text(size).as_str())
    } else {
        decimal_text(n as u64)
    }
}

/// How a command ended.
pub open spec fn outcome_text(result: Option<Document>) -> Option<Seq<char>> {
    match result {
        None => None,
        Some(document) => {
            let value = document.value;
            match value.signed_at("exit_code"@) {
                Some(code) => Some("exit "@ + signed_decimal(code as int)),
                None => match value.text_at("error"@) {
                    Some(error) => Some(
                        if lines_of(error).len() == 0 {
                            error
                        } else {
                            lines_of(error)[0]
                        },
                    ),
                    None => match value.signed_at("session_id"@) {
                        Some(id) => Some(
                            "session "@ + signed_decimal(id as int) + " running"@,
                        ),
                        None => Some("terminated"@),
                    },
                },
            }
        },
    }
}

/// How a command ended.
pub fn shell_outcome(result: &Option<Document>) -> (outcome: Option<String>)
    ensures
        option_view(outcome) == outcome_text(*result),
{
    let value: &Json = match result {
        Some(document) => &document.value,
        None => return None,
    };
    match value.i64_at("exit_code") {
        Some(code) => return Some(concat("exit ", signed_text(code).as_str())),
        None => {},
    }
    match value.str_at("error") {
        Some(error) => {
            let list = text_lines(error);
            assert(views(list@).len() == list@.len());
            if list.len() == 0 {
                return Some(error.to_owned());
            }
            assert(views(list@)[0] == list@[0]@);
            return Some(list[0].to_owned());
        },
        None => {},
    }
    match value.i64_at("session_id") {
        Some(id) => {
            let mut text: String = concat("session ", signed_text(id).as_str());
            text.push_str(" running");
            Some(text)
        },
        None => Some("terminated".to_owned()),
    }
}

/// The rows of the first `n` steps of a call.
pub open spec fn substep_rows(substeps: Seq<String>, n: int, width: int) -> Seq<Seq<Word>>
    decreases n,
{
    if n <= 0 {
        Seq::empty()
    } else {
        substep_rows(substeps, n - 1, width) + wrapped_text(
            "↳ "@ + substeps[n - 1]@,
            width,
            colored(Tone::Muted),
        )
    }
}

/// The output of a call.
pub open spec fn output_of(result: Option<Document>) -> Seq<char> {
    match result {
        Some(document) => or_text(document.value.text_at("output"@), Seq::empty()),
        None => Seq::empty(),
    }
}

/// The command of a call.
pub open spec fn command_of(tool: ToolEntry) -> Seq<char> {
    "$ "@ + or_text(tool.arguments.value.text_at("cmd"@), "<command unavailable>"@)
}

/// The details of a command.
pub open spec fn command_rows(tool: ToolEntry, width: int, home: Option<Seq<char>>) -> Seq<
    Seq<Word>,
> {
    (match tool.arguments.value.text_at("workdir"@) {
        Some(directory) => wrapped_text(
            "cwd "@ + shortened(directory, home),
            width,
            colored(Tone::Muted),
        ),
        None => Seq::empty(),
    }) + wrapped_text(command_of(tool), width, code_look()) + substep_rows(
        tool.substeps@,
        tool.substeps@.len() as int,
        width,
    ) + if output_of(tool.result).len() == 0 {
        Seq::empty()
    } else {
        wrapped_text(output_of(tool.result), width, colored(Tone::Text))
    }
}

/// The number of lines and the size of a command's output.
pub open spec fn output_footer(output: Seq<char>) -> Seq<char> {
    counted(lines_of(output).len() as int, "line"@, "lines"@) + " · "@ + bytes_text(
        byte_len(output) as int,
    )
}

/// Text that is sent to a process, or a poll.
pub open spec fn stdin_subject(tool: ToolEntry) -> Seq<char> {
    match tool.arguments.value.text_at("chars"@) {
        Some(text) => if text.len() == 0 {
            "poll process"@
        } else {
            "send "@ + quoted(text)
        },
        None => "poll process"@,
    }
}

pub open spec fn stdin_view(tool: ToolEntry, width: int, expanded: bool) -> Shown {
    let shown = presented("Shell input"@, stdin_subject(tool));
    if !expanded {
        shown
    } else {
        shown.with_details(
            match tool.result {
                Some(result) => result_rows(result, width),
                None => Seq::empty(),
            },
        ).with_footer("process interaction"@)
    }
}

/// A call of the shell as it is shown.
pub open spec fn shell_view(
    tool: ToolEntry,
    width: int,
    expanded: bool,
    home: Option<Seq<char>>,
) -> Shown {
    let plain = presented("Shell"@, command_of(tool));
    let shown = match outcome_text(tool.result) {
        Some(outcome) => plain.with_outcome(outcome),
        None => plain,
    };
    if tool.name@ == "write_stdin"@ {
        stdin_view(tool, width, expanded)
    } else if !expanded {
        shown
    } else {
        shown.with_details(command_rows(tool, width, home)).with_footer(
            output_footer(output_of(tool.result)),
        )
    }
}

fn stdin(tool: &ToolEntry, limit: u16, expanded: bool) -> (presentation: Presentation)
    ensures
        presentation@ == stdin_view(*tool, limit as int, expanded),
{
    let subject: String = match tool.arguments.value.str_at("chars") {
        Some(text) => if text.is_empty() {
            "poll process".to_owned()
        } else {
            concat("send ", quote(text).as_str())
        },
        None => "poll process".to_owned(),
    };
    let presentation = Presentation::new("Shell input", subject);
    if !expanded {
        return presentation;
    }
    let mut details: Vec<Vec<Words>> = Vec::new();
    match &tool.result {
        Some(result) => render_result(&mut details, result, limit),
        None => {},
    }
    assert(lines(details@) =~= stdin_view(*tool, limit as int, expanded).details);
    presentation.details(details).footer("process interaction".to_owned())
}

/// Presents a call of the shell.
pub fn present(tool: &ToolEntry, limit: u16, expanded: bool, home: Option<&str>) -> (presentation:
    Presentation)
    ensures
        presentation@ == shell_view(*tool, limit as int, expanded, str_view(home)),
{
    if same(tool.name.as_str(), "write_stdin") {
        return stdin(tool, limit, expanded);
    }
    let command: String = match tool.arguments.value.str_at("cmd") {
        Some(command) => concat("$ ", command),
        None => concat("$ ", "<command unavailable>"),
    };
    let mut presentation = Presentation::new("Shell", command.clone());
    match shell_outcome(&tool.result) {
        Some(outcome) => {
            presentation = presentation.outcome(outcome);
        },
        None => {},
    }
    if !expanded {
        return presentation;
    }
    let columns: usize = limit as usize;
    let mut details: Vec<Vec<Words>> = Vec::new();
    let ghost none = lines(details@);
    assert(none =~= Seq::<Seq<Word>>::empty());
    match tool.arguments.value.str_at("workdir") {
        Some(directory) => {
            let place: String = concat("cwd ", shorten_home(directory, home).as_str());
            wrap_onto(&mut details, place.as_str(), columns, Look::plain(Tone::Muted));
        },
        None => {},
    }
    wrap_onto(&mut details, command.as_str(), columns, Look::code());
    let ghost start = lines(details@);
    let mut i: usize = 0;
    assert(lines(details@) =~= start + substep_rows(tool.substeps@, 0, limit as int));
    while i < tool.substeps.len()
        invariant
            columns == limit,
            i <= tool.substeps@.len(),
            lines(details@) == start + substep_rows(tool.substeps@, i as int, limit as int),
        decreases tool.substeps@.len() - i,
    {
        let step: String = concat("↳ ", tool.substeps[i].as_str());
        wrap_onto(&mut details, step.as_str(), columns, Look::plain(Tone::Muted));
        i = i + 1;
        assert(lines(details@) =~= start + substep_rows(tool.substeps@, i as int, limit as int));
    }
    let output: &str = match &tool.result {
        Some(document) => match document.value.str_at("output") {
            Some(output) => output,
            None => "",
        },
        None => "",
    };
    proof {
        reveal_strlit("");
    }
    assert(output@ =~= output_of(tool.result));
    if !output.is_empty() {
        wrap_onto(&mut details, output, columns, Look::plain(Tone::Text));
    }
    assert(lines(details@) =~= command_rows(*tool, limit as int, str_view(home)));
    let list = text_lines(output);
    assert(views(list@).len() == list@.len());
    let mut footer: String = count_label(list.len(), "line", "lines");
    footer.push_str(" · ");
    footer.push_str(format_bytes(bytes_in(output)).as_str());
    presentation.details(details).footer(footer)
}

} // verus!
