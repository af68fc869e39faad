//! What holds of how entries and tool calls are shown.

use crate::draw::{colored, Tone, Word};
use crate::entry::{
    entry_block, entry_body, interruption_text, subdued, user_rows, EntryKind, Stuff,
    TranscriptEntry,
};
use crate::json::{Document, Json};
use crate::layout::columns;
use crate::layout_laws::{lemma_plain, lemma_singles};
use crate::numeral::decimal;
use crate::settings::ReasoningEffort;
use crate::subagents::ellipsized;
use crate::text::{is_plain, lines_of, singles};
use crate::tool::code::code_view;
use crate::tool::shell::{command_of, outcome_text, output_footer, shell_view, signed_decimal};
use crate::tool::{
    detail_rows, error_line, first_text, fit_count, generic_view, presenter_of, subject_keys,
    summary_prefix, summary_words, tool_rows, truncated, Presenter, Shown, ToolEntry, ToolState,
};
use vstd::prelude::*;

verus! {

/// The state of a tool call is told by its symbol and by its colour: a call that failed by a cross
/// in the colour of errors, one that succeeded by a green tick, one that runs by neither.
pub proof fn law_states_are_told_apart(a: ToolState, b: ToolState)
    ensures
        a.symbol() == b.symbol() <==> a == b,
        a.look().tone == b.look().tone <==> a == b,
        a.symbol() == "×"@ <==> a == ToolState::Failed,
        a.symbol() == "✓"@ <==> a == ToolState::Succeeded,
        a.look().tone == Tone::Green <==> a == ToolState::Succeeded,
        a.look().tone == Tone::Effort(ReasoningEffort::XHigh) <==> a == ToolState::Failed,
        a.look().bold,
{
    reveal_strlit("◌");
    reveal_strlit("✓");
    reveal_strlit("×");
    assert("◌"@[0] == '◌' && "✓"@[0] == '✓' && "×"@[0] == '×');
}

/// The triangle in front of a call points down exactly if its details are shown, and the symbol
/// behind it tells the state.
pub proof fn law_the_triangle_tells_what_is_shown(state: ToolState, expanded: bool)
    ensures
        summary_prefix(state, expanded).len() == 3,
        summary_prefix(state, expanded)[1].text == "▼ "@ <==> expanded,
        summary_prefix(state, expanded)[1].text == "▶ "@ <==> !expanded,
        summary_prefix(state, expanded)[2].text == state.symbol() + " "@,
        summary_prefix(state, expanded)[2].look == state.look(),
{
    reveal_strlit("▼ ");
    reveal_strlit("▶ ");
    assert("▼ "@[0] == '▼' && "▶ "@[0] == '▶');
}

/// The error of a call is part of its summary only where the call failed.
pub proof fn law_errors_are_told_of_failures(tool: ToolEntry, result: Option<Document>, shown: Shown)
    requires
        tool.state != ToolState::Failed,
    ensures
        summary_words(tool, shown) == summary_words(ToolEntry { result, ..tool }, shown),
{
}

/// A folded call shows its summary alone; an unfolded one shows a row for each of its details, and a
/// footer, below it.
pub proof fn law_unfolded_calls_show_more(
    tool: ToolEntry,
    width: int,
    home: Option<Seq<char>>,
    formatted: Option<Seq<Seq<Word>>>,
    given: Option<Shown>,
    shown: Shown,
)
    ensures
        width >= 7 ==> detail_rows(shown, width).len() == shown.details.len() + 1,
        width == 0 ==> tool_rows(tool, width, true, home, formatted, given).len() == 0,
        width >= 7 ==> forall|i: int|
            0 <= i < shown.details.len() ==> (#[trigger] detail_rows(shown, width)[i]).skip(1)
                == shown.details[i],
{
    if width >= 7 {
        assert forall|i: int| 0 <= i < shown.details.len() implies (#[trigger] detail_rows(
            shown,
            width,
        )[i]).skip(1) == shown.details[i] by {
            assert(detail_rows(shown, width)[i].skip(1) =~= shown.details[i]);
        }
    }
}

proof fn lemma_fit(s: Seq<char>, limit: int, n: int)
    requires
        is_plain(s),
        0 <= n <= s.len(),
        0 <= n <= limit < u16::MAX,
    ensures
        fit_count(singles(s), limit, n, n) == if s.len() <= limit {
            s.len() as int
        } else {
            limit
        },
    decreases s.len() - n,
{
    if n < s.len() {
        let one = singles(s)[n];
        assert(one == seq![s[n]]);
        assert forall|j: int| 0 <= j < one.len() implies crate::text::is_printable(
            #[trigger] one[j],
        ) by {}
        lemma_plain(one);
        if n < limit {
            lemma_fit(s, limit, n + 1);
        }
    }
}

/// A text of plain letters is cut to as many letters as there are columns; with an ellipsis, the
/// ellipsis takes the last of them, and a text that fits has none.
pub proof fn law_texts_are_cut_to_fit(s: Seq<char>, limit: int)
    requires
        is_plain(s),
        0 < limit < u16::MAX,
    ensures
        s.len() <= limit ==> truncated(s, limit) == s && ellipsized(s, limit) == s,
        s.len() > limit ==> truncated(s, limit) == s.take(limit) && ellipsized(s, limit) == s.take(
            limit - 1,
        ).push('…'),
{
    lemma_plain(s);
    lemma_fit(s, limit, 0);
    lemma_fit(s, limit - 1, 0);
    if s.len() <= limit {
        lemma_singles(s, s.len() as int);
        assert(s.take(s.len() as int) =~= s);
    } else {
        lemma_singles(s, limit);
        lemma_singles(s, limit - 1);
    }
}

/// Every tool is shown by the part that knows it: shells and their input, code and waiting for it,
/// memories, the plans, patches, pages and images that are laid out elsewhere, and all others alike.
pub proof fn law_tools_are_shown_by_those_who_know_them()
    ensures
        presenter_of("exec_command"@) == Presenter::Shell,
        presenter_of("write_stdin"@) == Presenter::Shell,
        presenter_of("exec"@) == Presenter::Code,
        presenter_of("wait"@) == Presenter::Code,
        presenter_of("memory"@) == Presenter::Memory,
        presenter_of("update_plan"@) == Presenter::Given,
        presenter_of("apply_patch"@) == Presenter::Given,
        presenter_of("web__run"@) == Presenter::Given,
        presenter_of("view_image"@) == Presenter::Given,
        presenter_of("image_gen__imagegen"@) == Presenter::Given,
        forall|name: Seq<char>| name.len() > 19 ==> #[trigger] presenter_of(name) == Presenter::Generic,
{
    reveal_strlit("exec_command");
    reveal_strlit("write_stdin");
    reveal_strlit("exec");
    reveal_strlit("wait");
    reveal_strlit("memory");
    reveal_strlit("update_plan");
    reveal_strlit("apply_patch");
    reveal_strlit("web__run");
    reveal_strlit("view_image");
    reveal_strlit("image_gen__imagegen");
    assert("exec"@[0] == 'e' && "wait"@[0] == 'w');
    assert("write_stdin"@[0] == 'w' && "update_plan"@[0] == 'u' && "apply_patch"@[0] == 'a');
    assert("exec_command"@.len() == 12 && "write_stdin"@.len() == 11);
    assert("memory"@.len() == 6 && "web__run"@.len() == 8 && "view_image"@.len() == 10);
    assert("image_gen__imagegen"@.len() == 19);
}

/// The subject of a call is the first that it has of a path, a query, a prompt, an address and a
/// name.
pub proof fn law_subjects_have_an_order(value: Json)
    ensures
        value.text_at("path"@) is Some ==> first_text(value, subject_keys(), 0) == value.text_at(
            "path"@,
        ),
        value.text_at("path"@) is None && value.text_at("query"@) is Some ==> first_text(
            value,
            subject_keys(),
            0,
        ) == value.text_at("query"@),
        value.text_at("path"@) is None && value.text_at("query"@) is None && value.text_at(
            "prompt"@,
        ) is Some ==> first_text(value, subject_keys(), 0) == value.text_at("prompt"@),
        value.text_at("path"@) is None && value.text_at("query"@) is None && value.text_at(
            "prompt"@,
        ) is None && value.text_at("url"@) is None && value.text_at("name"@) is None
            ==> first_text(value, subject_keys(), 0) is None,
{
    reveal_with_fuel(first_text, 7);
}

/// A shell that ended tells its exit code, whatever else it tells; one that could not be run tells
/// the first line of its error; one that goes on tells its session.
pub proof fn law_shells_tell_how_they_ended(document: Document, code: i64, id: i64)
    ensures
        ({
            let value = document.value;
            let outcome = outcome_text(Some(document));
            &&& value.signed_at("exit_code"@) == Some(code) ==> outcome == Some(
                "exit "@ + signed_decimal(code as int),
            )
            &&& value.signed_at("exit_code"@) is None && value.text_at("error"@) is Some
                ==> outcome == Some(
                if lines_of(value.text_at("error"@)->0).len() > 0 {
                    lines_of(value.text_at("error"@)->0)[0]
                } else {
                    value.text_at("error"@)->0
                },
            )
            &&& value.signed_at("exit_code"@) is None && value.text_at("error"@) is None
                && value.signed_at("session_id"@) == Some(id) ==> outcome == Some(
                "session "@ + signed_decimal(id as int) + " running"@,
            )
        }),
        outcome_text(None) is None,
        code >= 0 ==> signed_decimal(code as int) == decimal(code as int),
        code < 0 ==> signed_decimal(code as int) == "-"@ + decimal(-(code as int)),
{
}

/// The command of a shell is what its arguments say, behind a dollar sign.
pub proof fn law_commands_are_shown(tool: ToolEntry, width: int, home: Option<Seq<char>>)
    requires
        tool.arguments.value.text_at("cmd"@) is Some,
    ensures
        command_of(tool) == "$ "@ + tool.arguments.value.text_at("cmd"@)->0,
        tool.name@ != "write_stdin"@ ==> shell_view(tool, width, false, home).subject
            == crate::tool::Topic::Plain(command_of(tool)) && shell_view(
            tool,
            width,
            false,
            home,
        ).details.len() == 0 && shell_view(tool, width, true, home).outcome == shell_view(
            tool,
            width,
            false,
            home,
        ).outcome,
{
}

/// One emitted item is named in the singular, and a folded call shows none of them.
pub proof fn law_emitted_items_are_counted(
    tool: ToolEntry,
    width: int,
    formatted: Option<Seq<Seq<Word>>>,
)
    requires
        tool.name@ != "wait"@,
    ensures
        ({
            let count = crate::tool::code::emitted_by(tool.result);
            let subject = code_view(tool, width, false, formatted).subject;
            &&& count == 1 ==> subject == crate::tool::Topic::Plain("1 emitted item"@)
            &&& count != 1 ==> subject == crate::tool::Topic::Plain(
                decimal(count) + " emitted items"@,
            )
            &&& code_view(tool, width, false, formatted).details.len() == 0
            &&& code_view(tool, width, true, formatted).subject == subject
        }),
{
}

/// Reasoning reads as it was written, but muted and in italics.
pub proof fn law_reasoning_keeps_its_words(word: Word)
    ensures
        subdued(word).text == word.text,
        subdued(word).look.tone == Tone::Muted,
        subdued(word).look.italic,
        subdued(word).look.bold == word.look.bold,
        subdued(word).look.ground == word.look.ground,
{
}

/// Every row of a prompt begins with a bar, and what stands behind it is a row of the wrapped text.
pub proof fn law_prompts_have_a_bar(text: Seq<char>, width: int, i: int)
    requires
        0 <= i < user_rows(text, width).len(),
    ensures
        user_rows(text, width)[i].len() > 0,
        user_rows(text, width)[i][0].text == "┃ "@,
        user_rows(text, width)[i].skip(1) == crate::wrap::wrapped_text(
            text,
            crate::geometry::most(crate::geometry::minus(width, 2), 1),
            colored(Tone::Effort(ReasoningEffort::Medium)),
        )[i],
{
    assert(user_rows(text, width)[i].skip(1) =~= crate::wrap::wrapped_text(
        text,
        crate::geometry::most(crate::geometry::minus(width, 2), 1),
        colored(Tone::Effort(ReasoningEffort::Medium)),
    )[i]);
}

/// Every entry ends with an empty row, which sets it off from the next one.
pub proof fn law_entries_are_set_off(kind: EntryKind, width: int, expanded: bool, stuff: Stuff)
    ensures
        ({
            let block = entry_block(kind, width, expanded, stuff);
            let body = entry_body(kind, width, expanded, stuff);
            &&& block.lines.len() == body.lines.len() + 1
            &&& block.lines.last().len() == 0
            &&& block.lines.drop_last() == body.lines
            &&& block.links.drop_last() == body.links
        }),
{
    let block = entry_block(kind, width, expanded, stuff);
    let body = entry_body(kind, width, expanded, stuff);
    assert(block.lines.drop_last() =~= body.lines);
    assert(block.links.drop_last() =~= body.links);
}

/// An interruption tells how many responses it ended.
pub proof fn law_interruptions_are_counted(count: int)
    requires
        count >= 2,
    ensures
        interruption_text(count) == "◇ Interrupted "@ + decimal(count) + " responses"@,
        interruption_text(0) != interruption_text(1),
        interruption_text(1) == "◇ Interrupted response"@,
        interruption_text(0) == "◇ Nothing to interrupt"@,
{
    reveal_strlit("◇ Interrupted response");
    reveal_strlit("◇ Nothing to interrupt");
    assert("◇ Interrupted response"@[2] == 'I');
    assert("◇ Nothing to interrupt"@[2] == 'N');
}

/// An error is shown in the colour of errors and a failed compaction in a lesser one.
pub proof fn law_errors_are_coloured(message: String, width: int, expanded: bool, stuff: Stuff)
    ensures
        ({
            let failed = entry_body(
                EntryKind::ContextCompactionFailed { message },
                width,
                expanded,
                stuff,
            ).lines;
            failed.len() == 1 && failed[0][0].look.tone == Tone::Effort(ReasoningEffort::High)
                && failed[0][0].text == "◇ Context compaction failed · continuing · "@ + message@
        }),
{
}

/// Only the plan is unfolded unless the user says so.
pub proof fn law_only_plans_are_unfolded(entry: TranscriptEntry)
    ensures
        entry.unfolded_by_default() ==> entry.is_tool(),
        entry.kind matches EntryKind::Tool(tool) ==> (entry.unfolded_by_default() <==> tool.name@
            == "update_plan"@),
{
}

/// The first line with something in it is found, without the white space around it.
pub proof fn law_the_first_filled_line(list: Seq<Seq<char>>, from: int)
    requires
        0 <= from <= list.len(),
    ensures
        ({
            let found = crate::tool::first_filled(list, from);
            &&& found is None <==> forall|i: int|
                from <= i < list.len() ==> crate::text::trimmed(#[trigger] list[i]).len() == 0
            &&& found matches Some(line) ==> line.len() > 0 && exists|i: int|
                from <= i < list.len() && line == crate::text::trimmed(#[trigger] list[i])
                    && forall|j: int|
                    from <= j < i ==> crate::text::trimmed(#[trigger] list[j]).len() == 0
        }),
    decreases list.len() - from,
{
    if from < list.len() {
        if crate::text::trimmed(list[from]).len() > 0 {
            assert(crate::tool::first_filled(list, from) == Some(crate::text::trimmed(list[from])));
        } else {
            law_the_first_filled_line(list, from + 1);
            if let Some(line) = crate::tool::first_filled(list, from + 1) {
                let i = choose|i: int|
                    from + 1 <= i < list.len() && line == crate::text::trimmed(#[trigger] list[i])
                        && forall|j: int|
                        from + 1 <= j < i ==> crate::text::trimmed(#[trigger] list[j]).len() == 0;
                assert(line == crate::text::trimmed(list[i]));
            }
        }
    }
}

/// What a result says of its error comes before its output, and its output before a plain text.
pub proof fn law_errors_come_before_output(value: Json, text: Seq<char>)
    ensures
        value.text_at("error"@) == Some(text) ==> crate::tool::error_text(value) == Some(text),
        value.text_at("error"@) is None && value.text_at("output"@) == Some(text)
            ==> crate::tool::error_text(value) == Some(text),
        value.text_at("error"@) is None && value.text_at("output"@) is None
            ==> crate::tool::error_text(value) == value.text(),
        error_line(None) is None,
{
}

/// Words that are cut to some columns keep their order, their looks and their beginnings, and what is
/// left over is never negative.
pub proof fn law_cut_words_keep_their_looks(line: Seq<Word>, n: int, limit: int)
    requires
        0 <= n <= line.len(),
        0 <= limit,
    ensures
        ({
            let (cut, left) = crate::tool::clipped(line, n, limit);
            &&& cut.len() <= n
            &&& 0 <= left <= limit
            &&& limit == 0 ==> cut.len() == 0
            &&& forall|k: int|
                0 <= k < cut.len() ==> exists|i: int|
                    0 <= i < n && (#[trigger] line[i]).look == (#[trigger] cut[k]).look
        }),
    decreases n,
{
    if n > 0 {
        law_cut_words_keep_their_looks(line, n - 1, limit);
        let (front, _) = crate::tool::clipped(line, n - 1, limit);
        let (cut, _) = crate::tool::clipped(line, n, limit);
        assert forall|k: int| 0 <= k < cut.len() implies exists|i: int|
            0 <= i < n && (#[trigger] line[i]).look == (#[trigger] cut[k]).look by {
            if k < front.len() {
                assert(cut[k] == front[k]);
                let i = choose|i: int| 0 <= i < n - 1 && (#[trigger] line[i]).look == front[k].look;
                assert(line[i].look == cut[k].look);
            } else {
                assert(line[n - 1].look == cut[k].look);
            }
        }
    }
}

/// The first row of a summary begins with its prefix, the others are indented by six columns, and
/// all of them hold the words of the summary.
pub proof fn law_summaries_are_indented(
    tool: ToolEntry,
    shown: Shown,
    width: int,
    expanded: bool,
    i: int,
)
    requires
        width > 6,
        0 <= i < crate::tool::summary_rows(tool, shown, width, expanded).len(),
    ensures
        ({
            let rows = crate::tool::summary_rows(tool, shown, width, expanded);
            let plain = crate::wrap::wrapped_line(summary_words(tool, shown), width - 6);
            &&& rows.len() == plain.len()
            &&& i == 0 ==> rows[i] == summary_prefix(tool.state, expanded) + plain[i]
            &&& i > 0 ==> rows[i].len() == plain[i].len() + 1 && rows[i][0].text == "      "@
                && rows[i].skip(1) == plain[i]
        }),
{
    let rows = crate::tool::summary_rows(tool, shown, width, expanded);
    let plain = crate::wrap::wrapped_line(summary_words(tool, shown), width - 6);
    if i > 0 {
        assert(rows[i].skip(1) =~= plain[i]);
    }
}

/// The first line of a text is what stands before its first line break; a text without one is its
/// own first line.
pub proof fn law_the_first_line(line: Seq<char>, rest: Seq<char>)
    requires
        !line.contains('\n'),
        !line.contains('\r'),
        line.len() > 0,
    ensures
        crate::tool::first_line(line) == line,
        crate::tool::first_line(line + seq!['\n'] + rest) == line,
        crate::tool::first_line(Seq::empty()).len() == 0,
{
    assert forall|i: int| 0 <= i < line.len() implies #[trigger] line[i] != '\n' && line[i] != '\r' by {
        assert(line.contains(line[i]));
    }
    crate::text_laws::law_lines_are_unbroken(line);
    crate::text_laws::law_lines_follow_each_other(line, rest);
    assert(lines_of(Seq::<char>::empty()).len() == 0);
}

/// A presentation that was made elsewhere is used as it is for the tools that ask for one, and for
/// no other tool; without it the call is shown like any other.
pub proof fn law_given_views_are_used(
    tool: ToolEntry,
    width: int,
    expanded: bool,
    home: Option<Seq<char>>,
    formatted: Option<Seq<Seq<Word>>>,
    given: Shown,
)
    ensures
        presenter_of(tool.name@) is Given ==> crate::tool::view_of(
            tool,
            width,
            expanded,
            home,
            formatted,
            Some(given),
        ) == given,
        presenter_of(tool.name@) is Given || presenter_of(tool.name@) is Generic
            ==> crate::tool::view_of(tool, width, expanded, home, formatted, None) == generic_view(
            tool,
            width,
            expanded,
        ),
        !(presenter_of(tool.name@) is Given) ==> crate::tool::view_of(
            tool,
            width,
            expanded,
            home,
            formatted,
            Some(given),
        ) == crate::tool::view_of(tool, width, expanded, home, formatted, None),
{
}

/// Details are six columns narrower than the transcript, one column wide at least.
pub proof fn law_details_are_narrower(width: int)
    requires
        width >= 0,
    ensures
        crate::tool::detail_columns(width) >= 1,
        width >= 7 ==> crate::tool::detail_columns(width) + 6 == width,
        width < 7 ==> crate::tool::detail_columns(width) == 1,
{
}

/// A source is the arguments themselves where these are a text, and their input otherwise.
pub proof fn law_sources_are_found(arguments: Json, text: Seq<char>)
    ensures
        arguments.text() == Some(text) ==> crate::tool::code::source_of(arguments) == text,
        arguments.text() is None && arguments.text_at("input"@) == Some(text)
            ==> crate::tool::code::source_of(arguments) == text,
        arguments.text() is None && arguments.text_at("input"@) is None
            ==> crate::tool::code::source_of(arguments) == "<source unavailable>"@,
{
}

/// The texts that code emits are shown one below the other: those of some items, then those of the
/// rest.
pub proof fn law_emitted_texts_follow_one_another(a: Seq<Json>, b: Seq<Json>, width: int)
    ensures
        crate::tool::code::item_rows(a + b, (a.len() + b.len()) as int, width)
            == crate::tool::code::item_rows(a, a.len() as int, width)
            + crate::tool::code::item_rows(b, b.len() as int, width),
        forall|text: Seq<char>|
            a.len() == 1 && #[trigger] a[0].text_at("text"@) == Some(text)
                ==> crate::tool::code::item_rows(a, 1, width) == crate::wrap::wrapped_text(
                text,
                width,
                colored(Tone::Text),
            ),
    decreases b.len(),
{
    reveal_with_fuel(crate::tool::code::item_rows, 2);
    if a.len() == 1 {
        if let Some(text) = a[0].text_at("text"@) {
            assert(Seq::<Seq<Word>>::empty() + crate::wrap::wrapped_text(
                text,
                width,
                colored(Tone::Text),
            ) =~= crate::wrap::wrapped_text(text, width, colored(Tone::Text)));
        }
    }
    if b.len() == 0 {
        assert(a + b =~= a);
        assert(crate::tool::code::item_rows(a, a.len() as int, width) + Seq::<Seq<Word>>::empty()
            =~= crate::tool::code::item_rows(a, a.len() as int, width));
    } else {
        let front = b.drop_last();
        law_emitted_texts_follow_one_another(a, front, width);
        lemma_items(a + front, a + b, (a.len() + front.len()) as int, width);
        lemma_items(front, b, front.len() as int, width);
        assert((a + b)[(a.len() + b.len() - 1) as int] == b.last());
        let last = match b.last().text_at("text"@) {
            Some(text) => crate::wrap::wrapped_text(text, width, colored(Tone::Text)),
            None => Seq::empty(),
        };
        let first = crate::tool::code::item_rows(a, a.len() as int, width);
        let middle = crate::tool::code::item_rows(front, front.len() as int, width);
        assert((first + middle) + last =~= first + (middle + last));
    }
}

proof fn lemma_items(a: Seq<Json>, b: Seq<Json>, n: int, width: int)
    requires
        0 <= n <= a.len(),
        n <= b.len(),
        forall|i: int| 0 <= i < n ==> a[i] == b[i],
    ensures
        crate::tool::code::item_rows(a, n, width) == crate::tool::code::item_rows(b, n, width),
    decreases n,
{
    if n > 0 {
        lemma_items(a, b, n - 1, width);
    }
}

/// What a shell printed is what its result says; what is sent to one is named, and nothing sent is
/// a look at it.
pub proof fn law_shell_input_is_named(tool: ToolEntry, text: Seq<char>, document: Document)
    ensures
        document.value.text_at("output"@) == Some(text) ==> crate::tool::shell::output_of(
            Some(document),
        ) == text,
        crate::tool::shell::output_of(None).len() == 0,
        tool.arguments.value.text_at("chars"@) == Some(text) && text.len() > 0
            ==> crate::tool::shell::stdin_subject(tool) == "send "@ + crate::tool::shell::quoted(
            text,
        ),
        tool.arguments.value.text_at("chars"@) is None ==> crate::tool::shell::stdin_subject(tool)
            == "poll process"@,
        tool.arguments.value.text_at("chars"@) == Some(Seq::<char>::empty())
            ==> crate::tool::shell::stdin_subject(tool) == "poll process"@,
{
}

/// The footer of a shell counts the lines that it printed, in the singular for one.
pub proof fn law_printed_lines_are_counted(output: Seq<char>)
    ensures
        ({
            let count = lines_of(output).len() as int;
            let size = " · "@ + crate::format::bytes_text(crate::text::byte_len(output) as int);
            &&& count == 1 ==> output_footer(output) == "1 line"@ + size
            &&& count != 1 ==> output_footer(output) == decimal(count) + " lines"@ + size
        }),
{
    reveal_strlit(" ");
    reveal_strlit("line");
    reveal_strlit("lines");
    reveal_strlit("1 line");
    reveal_strlit(" lines");
    let count = lines_of(output).len() as int;
    let size = " · "@ + crate::format::bytes_text(crate::text::byte_len(output) as int);
    assert(decimal(count) + " "@ + "lines"@ =~= decimal(count) + " lines"@);
    assert(decimal(1) =~= seq!['1']);
    assert(decimal(1) + " "@ + "line"@ =~= "1 line"@);
    assert(output_footer(output) =~= (if count == 1 { "1 line"@ } else {
        decimal(count) + " lines"@
    }) + size);
}

/// An answer is shown as it was formatted, and otherwise as wide as the transcript; reasoning is two
/// columns narrower, and neither gains nor loses a row by being muted.
pub proof fn law_answers_are_shown_as_formatted(text: String, width: int, expanded: bool, stuff: Stuff)
    requires
        width >= 2,
    ensures
        ({
            let answer = entry_body(EntryKind::Assistant { text }, width, expanded, stuff);
            let reasoning = entry_body(EntryKind::Reasoning { text }, width, expanded, stuff);
            &&& stuff.formatted matches Some(block) ==> answer == block && reasoning.links
                == block.links && reasoning.lines.len() == block.lines.len()
            &&& stuff.formatted is None ==> answer.lines == crate::wrap::wrapped_text(
                text@,
                width,
                colored(Tone::Text),
            ) && reasoning.lines.len() == crate::wrap::wrapped_text(
                text@,
                width - 2,
                colored(Tone::Text),
            ).len()
        }),
{
}

/// A result that is a text is shown as it is; one that holds an image is told by its size; any other
/// one is shown as indented JSON.
pub proof fn law_results_are_shown(document: Document, text: Seq<char>, width: int)
    ensures
        crate::json::holds_image(document.value) ==> crate::tool::result_rows(document, width)
            == crate::wrap::wrapped_text(
            "image data · "@ + crate::format::bytes_text(
                crate::text::byte_len(document.compact()) as int,
            ),
            width,
            colored(Tone::Muted),
        ),
        !crate::json::holds_image(document.value) && document.value.text() == Some(text)
            ==> crate::tool::result_rows(document, width) == crate::wrap::wrapped_text(
            text,
            width,
            colored(Tone::Text),
        ),
        !crate::json::holds_image(document.value) && document.value.text() is None
            ==> crate::tool::result_rows(document, width) == crate::wrap::wrapped_text(
            document.pretty(),
            width,
            crate::draw::code_look(),
        ),
{
}

/// An image is a text that begins like the address of one; truths and nothing are none.
pub proof fn law_images_are_recognized(text: String, truth: bool)
    ensures
        crate::json::holds_image(Json::Text(text)) <==> crate::text::begins(
            text@,
            "data:image/"@,
        ),
        !crate::json::holds_image(Json::Truth(truth)),
        !crate::json::holds_image(Json::Null),
{
}

/// A call that is shown like any other tells its tool and its subject, or how many arguments it has;
/// unfolded it shows its arguments, and its result below them.
pub proof fn law_other_calls_are_shown_alike(tool: ToolEntry, width: int)
    ensures
        ({
            let folded = generic_view(tool, width, false);
            let open = generic_view(tool, width, true);
            let subject = first_text(tool.arguments.value, subject_keys(), 0);
            &&& folded.title == open.title && folded.subject == open.subject
            &&& folded.details.len() == 0
            &&& subject is None ==> folded.subject == crate::tool::Topic::Plain(
                decimal(tool.arguments.value.field_count()) + " arguments"@,
            )
            &&& tool.result is None ==> open.details == crate::wrap::wrapped_text(
                tool.arguments.pretty(),
                width,
                crate::draw::code_look(),
            )
            &&& tool.result matches Some(result) ==> open.details == crate::wrap::wrapped_text(
                tool.arguments.pretty(),
                width,
                crate::draw::code_look(),
            ) + crate::tool::result_rows(result, width)
        }),
{
    if tool.result is None {
        assert(generic_view(tool, width, true).details =~= crate::wrap::wrapped_text(
            tool.arguments.pretty(),
            width,
            crate::draw::code_look(),
        ));
    }
}

/// A source is put into a fence that names its language, each on a line of its own.
pub proof fn law_sources_are_fenced(source: Seq<char>)
    ensures
        ({
            let text = crate::tool::code::fenced(source);
            let start = "```javascript\n"@.len() as int;
            &&& text.take(start) == "```javascript\n"@
            &&& text.subrange(start, start + source.len()) == source
            &&& text.skip(start + source.len()) == "\n```"@
        }),
{
    let text = crate::tool::code::fenced(source);
    let start = "```javascript\n"@.len() as int;
    assert(text.take(start) =~= "```javascript\n"@);
    assert(text.subrange(start, start + source.len()) =~= source);
    assert(text.skip(start + source.len()) =~= "\n```"@);
}

/// An unfolded shell shows its directory, where it has one of its own, its command, its steps and
/// then what it printed.
pub proof fn law_shells_show_their_output(
    tool: ToolEntry,
    width: int,
    home: Option<Seq<char>>,
    directory: Seq<char>,
)
    requires
        tool.substeps@.len() == 0,
    ensures
        ({
            let rows = crate::tool::shell::command_rows(tool, width, home);
            let command = crate::wrap::wrapped_text(
                command_of(tool),
                width,
                crate::draw::code_look(),
            );
            let output = crate::tool::shell::output_of(tool.result);
            let printed = crate::wrap::wrapped_text(output, width, colored(Tone::Text));
            let place = crate::wrap::wrapped_text(
                "cwd "@ + crate::format::shortened(directory, home),
                width,
                colored(Tone::Muted),
            );
            let elsewhere = tool.arguments.value.text_at("workdir"@);
            &&& elsewhere is None && output.len() == 0 ==> rows == command
            &&& elsewhere is None && output.len() > 0 ==> rows == command + printed
            &&& elsewhere == Some(directory) && output.len() == 0 ==> rows == place + command
            &&& elsewhere == Some(directory) && output.len() > 0 ==> rows == place + command
                + printed
        }),
{
    let rows = crate::tool::shell::command_rows(tool, width, home);
    let command = crate::wrap::wrapped_text(command_of(tool), width, crate::draw::code_look());
    let output = crate::tool::shell::output_of(tool.result);
    let printed = crate::wrap::wrapped_text(output, width, colored(Tone::Text));
    let place = crate::wrap::wrapped_text(
        "cwd "@ + crate::format::shortened(directory, home),
        width,
        colored(Tone::Muted),
    );
    let elsewhere = tool.arguments.value.text_at("workdir"@);
    if elsewhere is None {
        if output.len() == 0 {
            assert(rows =~= command);
        } else {
            assert(rows =~= command + printed);
        }
    } else if elsewhere == Some(directory) {
        if output.len() == 0 {
            assert(rows =~= place + command);
        } else {
            assert(rows =~= place + command + printed);
        }
    }
}

/// Waiting, writing to a shell, shells and code are titled by what they are, folded or not; folded
/// they show no details.
pub proof fn law_calls_are_titled(
    tool: ToolEntry,
    width: int,
    expanded: bool,
    home: Option<Seq<char>>,
    formatted: Option<Seq<Seq<Word>>>,
)
    ensures
        tool.name@ == "wait"@ ==> code_view(tool, width, expanded, formatted).title == "Wait"@,
        tool.name@ != "wait"@ ==> code_view(tool, width, expanded, formatted).title == "Code"@,
        tool.name@ == "write_stdin"@ ==> shell_view(tool, width, expanded, home).title
            == "Shell input"@,
        tool.name@ != "write_stdin"@ ==> shell_view(tool, width, expanded, home).title == "Shell"@,
        code_view(tool, width, false, formatted).details.len() == 0,
        shell_view(tool, width, false, home).details.len() == 0,
        code_view(tool, width, true, formatted).footer is Some,
        shell_view(tool, width, true, home).footer is Some,
{
}

/// Code shows its source, as it was formatted where it was, and below that what it gave.
pub proof fn law_code_shows_its_source(
    tool: ToolEntry,
    width: int,
    rows: Seq<Seq<Word>>,
    document: Document,
)
    requires
        tool.name@ != "wait"@,
    ensures
        tool.result is None ==> code_view(tool, width, true, Some(rows)).details == rows,
        tool.result is None ==> code_view(tool, width, true, None).details
            == crate::wrap::wrapped_text(
            crate::tool::code::source_of(tool.arguments.value),
            width,
            crate::draw::code_look(),
        ),
        tool.result == Some(document) && document.value.list() is None ==> code_view(
            tool,
            width,
            true,
            Some(rows),
        ).details == rows + crate::tool::result_rows(document, width),
        tool.result is None ==> code_view(tool, width, true, Some(rows)).footer == Some(
            decimal(0) + " outputs · "@ + crate::format::bytes_text(0),
        ),
{
    if tool.result is None {
        assert(code_view(tool, width, true, Some(rows)).details =~= rows);
        assert(code_view(tool, width, true, None).details =~= crate::wrap::wrapped_text(
            crate::tool::code::source_of(tool.arguments.value),
            width,
            crate::draw::code_look(),
        ));
    }
}

} // verus!
