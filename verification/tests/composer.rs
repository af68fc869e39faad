//! The composer and what it edits.

#![allow(dead_code)]

use ratatui::buffer::Buffer;
use ratatui::layout::{Alignment, Rect as Area};
use ratatui::style::{Color, Modifier, Style};
use ratatui::text::{Line, Span};
use ratatui::widgets::{
    Block, BorderType, Borders, Clear, List, ListItem, ListState, Paragraph, StatefulWidget, Widget,
    Wrap,
};
use tact_tui::draw::{Look, Paint, Tone, Words};
use tact_tui::settings::Model;
use tact_tui::composer::{
    context_percent, Composer, ComposerChromeTarget, ComposerEffect, ComposerEvent,
    ComposerUpdate,
};
use tact_tui::draft::Draft;
use tact_tui::event::{Event, KeyCode, KeyEvent, KeyKind, Modifiers};
use tact_tui::format::{
    count_label, duration_display_tick, format_bytes, format_duration, humanize_tool, shorten_home,
};
use tact_tui::geometry::{Position, Rect};
use tact_tui::history::PromptHistory;
use tact_tui::layout::{byte_at_column, wrap_text, VisualLayout};
use tact_tui::node::RenderRequest;
use tact_tui::prompt::{InputPart, PastedImage, Submission};
use tact_tui::queue::{ItemState, MessageQueue, QueueEffect};
use tact_tui::settings::ReasoningEffort;
use tact_tui::text::white_space;
use unicode_width::UnicodeWidthStr;

/// A terminal that drawing commands are carried out on.
struct Screen {
    buffer: Buffer,
    cursor: Option<(u16, u16)>,
}

fn color(tone: Tone) -> Color {
    match tone {
        Tone::Plain | Tone::Text => Color::Reset,
        Tone::Muted | Tone::Border | Tone::DarkGray => Color::DarkGray,
        Tone::Accent | Tone::Cyan => Color::Cyan,
        Tone::CodeText => Color::White,
        Tone::CodeBackground => Color::Rgb(0x26, 0x26, 0x26),
        Tone::Effort(_) => Color::LightBlue,
        Tone::Model(Model::Luna) => Color::White,
        Tone::Model(Model::Terra) => Color::Green,
        Tone::Model(Model::Sol) => Color::Yellow,
        Tone::Yellow => Color::Yellow,
        Tone::Blue => Color::Blue,
        Tone::Green => Color::Green,
        Tone::Red => Color::Red,
        Tone::Magenta => Color::Magenta,
        Tone::Black => Color::Black,
    }
}

fn style(look: Look) -> Style {
    let mut style = Style::default();
    if look.tone != Tone::Plain {
        style = style.fg(color(look.tone));
    }
    if look.ground != Tone::Plain {
        style = style.bg(color(look.ground));
    }
    if look.bold {
        style = style.add_modifier(Modifier::BOLD);
    }
    if look.dim {
        style = style.add_modifier(Modifier::DIM);
    }
    if look.italic {
        style = style.add_modifier(Modifier::ITALIC);
    }
    style
}

fn line(words: &[Words]) -> Line<'static> {
    Line::from(
        words
            .iter()
            .map(|part| Span::styled(part.text.clone(), style(part.look)))
            .collect::<Vec<_>>(),
    )
}

fn rows(item: &[Vec<Words>]) -> Vec<Line<'static>> {
    item.iter().map(|row| line(row)).collect()
}

impl Screen {
    fn new(width: u16, height: u16) -> Self {
        Screen {
            buffer: Buffer::empty(Area::new(0, 0, width, height)),
            cursor: None,
        }
    }

    fn clip(&self, area: Rect) -> Area {
        Area::new(area.x, area.y, area.width, area.height).intersection(self.buffer.area)
    }

    fn list(
        &mut self,
        area: Area,
        items: &[Vec<Vec<Words>>],
        selected: Option<usize>,
        symbol: &str,
        highlight: Style,
        cursor: bool,
    ) {
        let list = List::new(items.iter().map(|item| ListItem::new(rows(item))))
            .highlight_symbol(Line::from(symbol.to_owned()))
            .highlight_style(highlight);
        let mut state = ListState::default().with_selected(selected);
        StatefulWidget::render(list, area, &mut self.buffer, &mut state);
        if let (true, Some(selected)) = (cursor, selected) {
            let above: usize = items[state.offset()..selected]
                .iter()
                .map(|item| item.len())
                .sum();
            let row = area.y + u16::try_from(above).unwrap();
            self.cursor = Some((area.x, row.min(area.bottom() - 1)));
        }
    }

    fn draw(&mut self, paints: &[Paint]) {
        for paint in paints {
            match paint {
                Paint::Clear { area } => Clear.render(self.clip(*area), &mut self.buffer),
                Paint::Border {
                    area,
                    title,
                    border,
                    title_tone,
                } => {
                    let mut block = Block::new()
                        .borders(Borders::ALL)
                        .border_type(BorderType::Rounded)
                        .border_style(Style::default().fg(color(*border)));
                    if !title.is_empty() {
                        block = block
                            .title(title.clone())
                            .title_alignment(Alignment::Center)
                            .title_style(
                                Style::default()
                                    .fg(color(*title_tone))
                                    .add_modifier(Modifier::BOLD),
                            );
                    }
                    block.render(self.clip(*area), &mut self.buffer);
                }
                Paint::Rule { area, title } => Block::new()
                    .borders(Borders::TOP)
                    .title(title.clone())
                    .border_style(Style::default().fg(color(Tone::Border)))
                    .title_style(Style::default().fg(color(Tone::Muted)))
                    .render(self.clip(*area), &mut self.buffer),
                Paint::Line {
                    area,
                    line: words,
                    centered,
                } => Paragraph::new(line(words))
                    .alignment(if *centered {
                        Alignment::Center
                    } else {
                        Alignment::Left
                    })
                    .render(self.clip(*area), &mut self.buffer),
                Paint::Wrapped { area, message } => Paragraph::new(line(message))
                    .centered()
                    .wrap(Wrap { trim: true })
                    .render(self.clip(*area), &mut self.buffer),
                Paint::Paragraph {
                    area,
                    text,
                    look,
                    scroll,
                } => Paragraph::new(text.clone())
                    .style(style(*look))
                    .wrap(Wrap { trim: false })
                    .scroll((*scroll, 0))
                    .render(self.clip(*area), &mut self.buffer),
                Paint::List {
                    area,
                    items,
                    selected,
                    marker,
                    highlight,
                    cursor,
                } => {
                    let area = self.clip(*area);
                    let symbol = if *marker { "› " } else { "  " };
                    let highlight = highlight.map(style).unwrap_or_default();
                    self.list(area, items, *selected, symbol, highlight, *cursor);
                }
                Paint::Tree {
                    area,
                    items,
                    row,
                    look,
                } => {
                    let area = self.clip(*area);
                    self.list(area, items, Some(*row), "  ", style(*look), false);
                }
                Paint::Fill { area, look } => {
                    let area = self.clip(*area);
                    self.buffer.set_style(area, style(*look));
                }
                Paint::Symbol { x, y, symbol, look } => {
                    if let Some(cell) = self.buffer.cell_mut((*x, *y)) {
                        cell.set_char(*symbol).set_style(style(*look));
                    }
                }
                Paint::Text {
                    x,
                    y,
                    text,
                    limit,
                    look,
                } => {
                    if self.buffer.area.contains((*x, *y).into()) {
                        self.buffer.set_stringn(*x, *y, text, *limit, style(*look));
                    }
                }
                Paint::Wave {
                    x,
                    y,
                    text,
                    end,
                    tone,
                } => {
                    let limit = usize::from(end.saturating_sub(*x));
                    let style = Style::default().fg(color(*tone));
                    self.buffer.set_stringn(*x, *y, text, limit, style);
                }
                Paint::Artwork { area, model, frame } => {
                    let area = self.clip(*area);
                    let symbol = if frame % 2 == 0 { "*" } else { "+" };
                    for position in area.positions() {
                        self.buffer[position]
                            .set_symbol(symbol)
                            .set_fg(color(Tone::Model(*model)));
                    }
                }
                Paint::Cursor { position } => self.cursor = Some((position.x, position.y)),
            }
        }
    }

    fn symbol(&self, x: u16, y: u16) -> &str {
        self.buffer[(x, y)].symbol()
    }

    fn row(&self, y: u16) -> String {
        (0..self.buffer.area.width)
            .map(|x| self.buffer[(x, y)].symbol())
            .collect()
    }

    fn segment(&self, y: u16, x: u16, width: u16) -> String {
        (x..x + width)
            .map(|column| self.buffer[(column, y)].symbol())
            .collect()
    }

    fn rows(&self) -> Vec<String> {
        (0..self.buffer.area.height).map(|y| self.row(y)).collect()
    }

    fn text(&self) -> String {
        self.rows().concat()
    }
}

fn whole(width: u16, height: u16) -> Rect {
    Rect {
        x: 0,
        y: 0,
        width,
        height,
    }
}

fn composer() -> Composer {
    Composer::new("/work", None, ReasoningEffort::Medium)
}

fn key(code: KeyCode, modifiers: Modifiers) -> ComposerEvent {
    ComposerEvent::Terminal(Event::Key(KeyEvent::new(code, modifiers)))
}

fn press(composer: &mut Composer, code: KeyCode) -> ComposerUpdate {
    composer.update(key(code, Modifiers::none()))
}

fn render(composer: &mut Composer, width: u16, height: u16) -> Screen {
    let mut screen = Screen::new(width, height);
    screen.draw(&composer.render_focused(whole(width, height), "gpt-5.6-sol", true));
    screen
}

fn submitted(update: ComposerUpdate) -> Submission {
    match update.effect {
        Some(ComposerEffect::Submit(prompt)) => prompt,
        other => panic!("nothing was submitted: {other:?}"),
    }
}

#[test]
fn empty_composer_matches_the_pi_chrome() {
    let mut composer = composer();
    let screen = render(&mut composer, 60, 5);

    assert_eq!(
        screen.rows(),
        [
            "╭─ 0%/272k ────────────────────────── gpt-5.6-sol  medium ─╮",
            "│                                                          │",
            "│                                                          │",
            "│                                                          │",
            "╰─ / actions · @ files ──────────────────────────── /work ─╯",
        ]
    );
}

#[test]
fn entry_hint_is_only_shown_for_an_empty_draft_with_room() {
    let mut composer = composer();
    assert!(render(&mut composer, 40, 5).rows()[4].contains("/ actions · @ files"));

    composer.replace_draft("hello".to_owned());
    assert!(!render(&mut composer, 40, 5).rows()[4].contains("/ actions"));

    composer.replace_draft(String::new());
    assert!(!render(&mut composer, 20, 5).rows()[4].contains("/ actions"));
}

#[test]
fn active_turn_waves_the_transient_status_after_context_usage() {
    let mut composer = composer();
    composer.update(ComposerEvent::Activity {
        active: true,
        status: Some("Running exec command…".to_owned()),
    });

    let screen = render(&mut composer, 60, 5);

    assert!(screen.rows()[0].contains("0%/272k Running exec command…"));
    assert!(screen
        .buffer
        .content
        .iter()
        .filter(|cell| "Runningexeccommand…".contains(cell.symbol()))
        .any(|cell| cell.fg == Color::Cyan));
    assert!(composer
        .render_focused(whole(60, 5), "gpt-5.6-sol", true)
        .iter()
        .any(|paint| matches!(paint, Paint::Wave { .. })));
    assert!(composer.animation_deadline(Some(1), Some(2)).is_some());
}

#[test]
fn active_subagents_wave_after_the_transient_status() {
    let mut composer = composer();
    composer.update(ComposerEvent::Activity {
        active: true,
        status: Some("Thinking…".to_owned()),
    });
    composer.update(ComposerEvent::ActiveSubagents { count: 2 });

    let screen = render(&mut composer, 72, 5);

    assert!(screen.rows()[0].contains("Thinking… 2 subagents"));
    assert!(screen
        .buffer
        .content
        .iter()
        .filter(|cell| "2subagents".contains(cell.symbol()))
        .any(|cell| cell.fg == Color::Yellow));
    assert_eq!(
        composer
            .render_focused(whole(72, 5), "gpt-5.6-sol", true)
            .iter()
            .filter(|paint| matches!(paint, Paint::Wave { .. }))
            .count(),
        2
    );
    assert!(composer.animation_deadline(Some(1), Some(2)).is_some());
}

#[test]
fn labels_change_by_themselves_while_they_are_shown() {
    let mut composer = composer();
    assert_eq!(composer.animation_deadline(Some(2), Some(1)), None);
    composer.update(ComposerEvent::Activity {
        active: true,
        status: Some("Thinking…".to_owned()),
    });
    assert_eq!(composer.animation_deadline(Some(2), Some(1)), Some(2));
    composer.update(ComposerEvent::ActiveSubagents { count: 2 });
    assert_eq!(composer.animation_deadline(Some(2), Some(1)), Some(1));
}

#[test]
fn the_composer_names_its_directory_from_the_home_directory_on() {
    let composer = Composer::new("/home/me/src", Some("/home/me"), ReasoningEffort::Medium);
    assert_eq!(composer.workspace, "~/src");
}

#[test]
fn composer_grows_from_three_through_six_rows() {
    let mut composer = composer();
    assert_eq!(composer.desired_height(20), 5);

    composer.replace_draft("1\n2\n3\n4\n5\n6".to_owned());
    assert_eq!(composer.desired_height(20), 8);

    composer.replace_draft("1\n2\n3\n4\n5\n6\n7".to_owned());
    assert_eq!(composer.desired_height(20), 8);
}

#[test]
fn overflow_scrolls_to_keep_the_cursor_visible() {
    let mut composer = composer();
    composer.replace_draft("one\ntwo\nthree\nfour\nfive\nsix\nseven".to_owned());
    let rows = render(&mut composer, 30, 8).rows();

    assert!(rows[1].contains("two"));
    assert!(rows[6].contains("seven"));
    assert!(!rows.iter().any(|row| row.contains("one")));
}

#[test]
fn resize_reflows_wrapped_text() {
    let mut composer = composer();
    composer.replace_draft("alpha beta gamma delta".to_owned());

    render(&mut composer, 14, 5);
    assert_eq!(composer.desired_height(14), 5);
    assert_eq!(composer.last_width, 12);

    render(&mut composer, 8, 6);
    assert_eq!(composer.desired_height(8), 6);
    assert_eq!(composer.last_width, 6);
}

#[test]
fn cursor_movement_respects_graphemes_and_display_width() {
    let mut composer = composer();
    composer.replace_draft("a界e\u{301}".to_owned());
    press(&mut composer, KeyCode::Left);
    assert_eq!(composer.cursor(), 4);
    press(&mut composer, KeyCode::Left);
    assert_eq!(composer.cursor(), 1);

    let screen = render(&mut composer, 20, 5);
    assert_eq!(screen.cursor, Some((2, 1)));
}

#[test]
fn paste_and_editor_replacement_preserve_multiline_text() {
    let mut composer = composer();
    composer.update(ComposerEvent::Terminal(Event::Paste("one\ntwo".to_owned())));
    assert_eq!(composer.draft(), "one\ntwo");

    composer.update(ComposerEvent::ReplaceDraft("edited\ndraft".to_owned()));
    assert_eq!(composer.draft(), "edited\ndraft");
    assert_eq!(composer.cursor(), composer.draft().len());
}

#[test]
fn pasted_images_render_as_numbered_blue_tokens_and_submit_as_images() {
    let mut composer = composer();
    composer.update(ComposerEvent::Insert("inspect ".to_owned()));
    composer.update(ComposerEvent::PasteImage(
        "data:image/png;base64,first".to_owned(),
    ));
    composer.update(ComposerEvent::PasteImage(
        "data:image/png;base64,second".to_owned(),
    ));

    assert_eq!(composer.draft(), "inspect [Image #1][Image #2]");
    let screen = render(&mut composer, 50, 5);
    for x in 9..29 {
        assert_eq!(screen.buffer[(x, 1)].fg, Color::Blue);
    }

    let submission = submitted(press(&mut composer, KeyCode::Enter));
    assert_eq!(submission.display_text(), "inspect [Image #1][Image #2]");
    let content = submission.agent_prompt();
    assert_eq!(content.len(), 3);
    assert!(matches!(&content[0], InputPart::Text(text) if text == "inspect "));
    assert!(matches!(&content[1], InputPart::Image(url) if url.ends_with("first")));
    assert!(matches!(&content[2], InputPart::Image(url) if url.ends_with("second")));
}

#[test]
fn deleting_an_image_token_removes_its_attachment_atomically() {
    let mut composer = composer();
    composer.update(ComposerEvent::PasteImage(
        "data:image/png;base64,removed".to_owned(),
    ));

    press(&mut composer, KeyCode::Backspace);

    assert!(composer.draft().is_empty());
    assert!(composer.edit.images.is_empty());
}

#[test]
fn submission_trims_nonempty_prompts_and_preserves_empty_drafts() {
    let mut composer = composer();
    composer.replace_draft("  inspect this  \n".to_owned());
    let prompt = submitted(press(&mut composer, KeyCode::Enter));

    assert_eq!(prompt.text, "inspect this");
    assert!(prompt.images.is_empty());
    assert!(composer.draft().is_empty());

    composer.replace_draft("   \n".to_owned());
    let update = press(&mut composer, KeyCode::Enter);
    assert!(update.effect.is_none());
    assert_eq!(composer.draft(), "   \n");
}

#[test]
fn leading_bang_uses_yellow_shell_chrome_and_submits_only_the_command() {
    let mut composer = composer();
    composer.replace_draft("!  printf hello  ".to_owned());

    let screen = render(&mut composer, 80, 5);
    for position in [(0, 0), (79, 0), (0, 2), (79, 2), (0, 4), (79, 4)] {
        assert_eq!(screen.buffer[position].fg, Color::Yellow);
    }
    assert!(screen.rows()[0].contains("medium  shell"));

    let update = press(&mut composer, KeyCode::Enter);
    assert!(matches!(
        update.effect,
        Some(ComposerEffect::RunShell(command)) if command == "printf hello"
    ));
    assert!(composer.draft().is_empty());
}

#[test]
fn bang_without_a_command_is_not_submitted() {
    let mut composer = composer();
    composer.replace_draft("!   ".to_owned());

    let update = press(&mut composer, KeyCode::Enter);

    assert!(update.effect.is_none());
    assert_eq!(composer.draft(), "!   ");
}

#[test]
fn arrows_cycle_submitted_prompts_and_restore_the_unsent_draft() {
    let mut composer = composer();
    for prompt in ["first", "second"] {
        composer.replace_draft(prompt.to_owned());
        press(&mut composer, KeyCode::Enter);
    }
    composer.replace_draft("unfinished\nline".to_owned());

    press(&mut composer, KeyCode::Up);
    assert_eq!(composer.draft(), "unfinished\nline");
    press(&mut composer, KeyCode::Up);
    assert_eq!(composer.draft(), "second");
    press(&mut composer, KeyCode::Up);
    assert_eq!(composer.draft(), "first");
    press(&mut composer, KeyCode::Down);
    assert_eq!(composer.draft(), "second");
    press(&mut composer, KeyCode::Down);
    assert_eq!(composer.draft(), "unfinished\nline");
}

#[test]
fn editing_a_recalled_prompt_detaches_it_from_history() {
    let mut composer = composer();
    composer.replace_draft("previous".to_owned());
    press(&mut composer, KeyCode::Enter);

    press(&mut composer, KeyCode::Up);
    press(&mut composer, KeyCode::Char('!'));
    press(&mut composer, KeyCode::Down);

    assert_eq!(composer.draft(), "previous!");
}

#[test]
fn multiline_and_control_effect_keys_are_distinct() {
    let mut composer = composer();
    composer.update(key(KeyCode::Enter, Modifiers::shift()));
    composer.update(key(KeyCode::Char('j'), Modifiers::control()));
    assert_eq!(composer.draft(), "\n\n");

    assert!(matches!(
        composer
            .update(key(KeyCode::Char('g'), Modifiers::control()))
            .effect,
        Some(ComposerEffect::OpenDraftEditor)
    ));
}

#[test]
fn editing_keys_follow_visual_lines_and_grapheme_boundaries() {
    let mut composer = composer();
    composer.replace_draft("abc\ndef".to_owned());
    render(&mut composer, 20, 5);

    press(&mut composer, KeyCode::Up);
    assert_eq!(composer.cursor(), 3);
    press(&mut composer, KeyCode::Home);
    assert_eq!(composer.cursor(), 0);
    press(&mut composer, KeyCode::Delete);
    assert_eq!(composer.draft(), "bc\ndef");
    press(&mut composer, KeyCode::End);
    press(&mut composer, KeyCode::Backspace);
    assert_eq!(composer.draft(), "b\ndef");
}

#[test]
fn wrapping_prefers_words_and_hard_wraps_long_words() {
    let mut composer = composer();
    composer.replace_draft("alpha betaabcdefgh".to_owned());
    let rows = render(&mut composer, 8, 6).rows();

    assert!(rows[1].contains("alpha"));
    assert!(rows[2].contains("betaab"));
    assert!(rows[3].contains("cdefgh"));
}

#[test]
fn context_percentage_is_rounded() {
    assert_eq!(context_percent(0), 0);
    assert_eq!(context_percent(136_000), 50);
    assert_eq!(context_percent(1_400), 1);
}

#[test]
fn narrow_rendering_truncates_without_panicking() {
    let mut composer = composer();
    composer.replace_draft("abcdef".to_owned());

    let screen = render(&mut composer, 3, 2);

    assert_eq!(screen.rows()[0], "abc");
}

#[test]
fn released_keys_are_ignored() {
    let mut composer = composer();
    let update = composer.update(ComposerEvent::Terminal(Event::Key(KeyEvent {
        code: KeyCode::Char('x'),
        modifiers: Modifiers::none(),
        kind: KeyKind::Release,
    })));

    assert!(!update.changed);
    assert!(composer.draft().is_empty());
}

#[test]
fn the_chrome_tells_which_label_stands_under_the_pointer() {
    let mut composer = composer();
    render(&mut composer, 60, 5);

    assert_eq!(
        composer.chrome_target(Position { x: 51, y: 0 }),
        Some(ComposerChromeTarget::Effort)
    );
    assert_eq!(composer.chrome_target(Position { x: 30, y: 0 }), None);
}

#[test]
fn context_usage_and_fast_mode_are_kept() {
    let mut composer = composer();
    composer.update(ComposerEvent::ContextTokens(136_000));
    assert_eq!(composer.context_tokens(), 136_000);
    assert!(render(&mut composer, 60, 5).rows()[0].contains("50%/272k"));

    composer.update(ComposerEvent::SetFastMode(true));
    assert!(composer.fast_mode());

    composer.update(ComposerEvent::SetEffort(ReasoningEffort::Max));
    assert_eq!(composer.effort(), ReasoningEffort::Max);
}

#[test]
fn backspace_takes_back_what_was_typed() {
    let mut draft = Draft::new();
    draft.insert("abc");
    draft.insert("é");
    assert!(draft.backspace());
    assert_eq!(draft.text, "abc");
    assert_eq!(draft.cursor, 3);

    assert!(draft.move_left());
    assert!(draft.delete());
    assert_eq!(draft.text, "ab");
    assert!(!draft.delete());
}

#[test]
fn a_replaced_range_leaves_the_cursor_behind_the_text() {
    let mut draft = Draft::new();
    draft.insert("see @no later");
    draft.replace_range(4, 7, "@notes.md");

    assert_eq!(draft.text, "see @notes.md later");
    assert_eq!(draft.cursor, 13);
}

#[test]
fn cursors_jump_over_image_tokens() {
    let mut draft = Draft::new();
    draft.insert("a");
    draft.insert_image("data:image/png;base64,x".to_owned());
    assert_eq!(draft.text, "a[Image #1]");
    assert!(draft.move_left());
    assert_eq!(draft.cursor, 1);
    assert!(draft.move_right());
    assert_eq!(draft.cursor, 11);
}

#[test]
fn a_mark_behind_an_image_goes_with_the_letter_it_stands_on() {
    let mut draft = Draft::new();
    draft.insert_image("data:image/png;base64,x".to_owned());
    draft.insert("\u{301}");
    assert_eq!(draft.text, "[Image #1]\u{301}");
    assert!(draft.backspace());
    assert_eq!(draft.text, "[Image #1");
    assert_eq!(draft.cursor, 9);
    assert_eq!(draft.images.len(), 1);
    assert_eq!((draft.images[0].start, draft.images[0].end), (0, 9));

    let mut draft = Draft::new();
    draft.insert_image("data:image/png;base64,x".to_owned());
    draft.insert("\u{301}");
    draft.insert("abc");
    for _ in 0..3 {
        assert!(draft.move_left());
    }
    assert!(draft.backspace());
    assert_eq!(draft.text, "[Image #1abc");
    assert_eq!((draft.images[0].start, draft.images[0].end), (0, 10));
}

#[test]
fn white_space_is_that_of_the_standard_library() {
    for c in '\0'..=char::MAX {
        assert_eq!(white_space(c), c.is_whitespace(), "{c:?}");
    }
}

#[test]
fn the_cursor_is_found_at_its_column() {
    let text = "one two three\nfour\n\nfive six";
    for width in 0..12 {
        for cursor in 0..=text.len() {
            let layout = VisualLayout::new(text, cursor, width);
            let line = &layout.lines[layout.cursor_row];
            assert_eq!(byte_at_column(text, line, layout.cursor_column), cursor);
        }
    }
}

#[test]
fn printable_ascii_is_one_cell_each() {
    let text: String = (' '..='~').collect();
    for c in text.chars() {
        let letter = c.to_string();
        assert_eq!(letter.as_str().width(), 1);
        let mut draft = Draft::new();
        draft.insert("a");
        draft.insert(&letter);
        assert!(draft.backspace());
        assert_eq!(draft.text, "a");
    }
    let layout = VisualLayout::new(&text, text.len(), 200);
    assert_eq!((layout.cursor_row, layout.cursor_column), (0, 95));
}

#[test]
fn history_steps_back_and_forth() {
    let mut history = PromptHistory::new();
    assert!(history.previous("draft").is_none());
    history.record("one".to_owned());
    history.record("two".to_owned());

    assert_eq!(history.previous("draft").as_deref(), Some("two"));
    assert_eq!(history.previous("ignored").as_deref(), Some("one"));
    assert!(history.is_browsing());
    assert_eq!(history.next().as_deref(), Some("two"));
    assert_eq!(history.next().as_deref(), Some("draft"));
    assert!(!history.is_browsing());
}

#[test]
fn wrapped_rows_tell_where_the_cursor_stands() {
    let lines = wrap_text("alpha beta", 6);
    assert_eq!(lines.len(), 2);
    assert_eq!((lines[0].start, lines[0].end), (0, 6));
    assert_eq!((lines[1].start, lines[1].end), (6, 10));
    assert_eq!(byte_at_column("alpha beta", &lines[1], 2), 8);

    let layout = VisualLayout::new("alpha beta", 8, 6);
    assert_eq!((layout.cursor_row, layout.cursor_column), (1, 2));
}

fn image(start: usize, end: usize, data_url: &str) -> PastedImage {
    PastedImage {
        start,
        end,
        data_url: data_url.to_owned(),
    }
}

#[test]
fn joined_prompts_keep_their_images_in_place() {
    let first = Submission::multimodal("[Image #1] a".to_owned(), vec![image(0, 10, "one")]);
    let second = Submission::multimodal("b [Image #1]".to_owned(), vec![image(2, 12, "two")]);
    let joined = Submission::join(vec![first, second]);

    assert_eq!(joined.text, "[Image #1] a\n\nb [Image #1]");
    assert_eq!((joined.images[1].start, joined.images[1].end), (16, 26));
    let parts = joined.agent_prompt();
    assert_eq!(parts.len(), 3);
    assert!(matches!(&parts[0], InputPart::Image(url) if url == "one"));
    assert!(matches!(&parts[1], InputPart::Text(text) if text == " a\n\nb "));
    assert!(matches!(&parts[2], InputPart::Image(url) if url == "two"));
}

#[test]
fn plain_prompts_are_one_part() {
    let parts = Submission::plain_text("hi".to_owned()).agent_prompt();
    assert_eq!(parts.len(), 1);
    assert!(matches!(&parts[0], InputPart::Text(text) if text == "hi"));
    assert!(Submission::plain_text(String::new()).agent_prompt().is_empty());
}

fn queue_of(texts: &[&str]) -> MessageQueue {
    let mut queue = MessageQueue::new();
    for text in texts {
        queue.push(Submission::plain_text((*text).to_owned()));
    }
    queue
}

fn event(code: KeyCode) -> Event {
    Event::Key(KeyEvent::new(code, Modifiers::none()))
}

#[test]
fn draining_loses_no_prompt() {
    let mut queue = queue_of(&["one", "two"]);
    let drained = queue.drain_ready();
    assert_eq!(drained.len(), 2);
    assert_eq!(drained[0].text, "one");
    assert_eq!(drained[1].text, "two");
    assert!(queue.is_empty());
}

#[test]
fn interrupted_steers_come_first() {
    let mut queue = queue_of(&["one", "two"]);
    queue.set_focused(true);
    let effects = queue.update(&event(KeyCode::Enter)).effects;
    assert!(matches!(
        effects.as_slice(),
        [QueueEffect::Steer { prompt, .. }] if prompt.text == "two"
    ));
    assert!(queue.has_pending_steer());

    queue.cancel_steers();
    assert!(!queue.has_pending_steer());
    let drained = queue.drain_ready();
    assert_eq!(drained[0].text, "two");
    assert_eq!(drained[1].text, "one");
}

#[test]
fn edited_prompts_come_back_to_their_place() {
    let mut queue = queue_of(&["one", "two"]);
    queue.set_focused(true);
    queue.update(&event(KeyCode::Up));
    let effects = queue.update(&event(KeyCode::Char('e'))).effects;
    assert!(matches!(
        effects.as_slice(),
        [QueueEffect::Edit { index: 0, text }] if text == "one"
    ));
    assert_eq!(queue.len(), 1);

    queue.restore(0, "changed".to_owned());
    assert_eq!(queue.items[0].prompt.text, "changed");
    assert_eq!(queue.items[1].prompt.text, "two");
    assert_eq!(queue.items[0].state, ItemState::Ready);
}

#[test]
fn escape_leaves_the_queue() {
    let mut queue = queue_of(&["one"]);
    queue.set_focused(true);
    let update = queue.update(&event(KeyCode::Esc));
    assert!(matches!(update.effects.as_slice(), [QueueEffect::Blur]));
    assert_eq!(update.render, RenderRequest::Immediate);
}

#[test]
fn durations_round_to_the_same_tick_used_for_live_redraws() {
    for (nanoseconds, expected) in [
        (999_999_999, "999ms"),
        (1_049_999_999, "1.0s"),
        (1_050_000_000, "1.1s"),
        (11_249_999_999, "11.2s"),
        (11_250_000_000, "11.3s"),
    ] {
        assert_eq!(format_duration(nanoseconds), expected);
    }
    assert_eq!(duration_display_tick(1_050_000_000), 1_011);
    for (one, other) in [
        (999_999_999, 1_000_000_000),
        (1_000_000_000, 1_049_999_999),
        (998_999_999, 999_000_000),
        (11_249_999_999, 11_250_000_000),
    ] {
        assert_eq!(
            duration_display_tick(one) == duration_display_tick(other),
            format_duration(one) == format_duration(other)
        );
    }
}

#[test]
fn sizes_names_and_counts_are_written_for_people() {
    assert_eq!(humanize_tool("exec_command"), "exec command");
    assert_eq!(count_label(1, "file", "files"), "1 file");
    assert_eq!(count_label(2, "file", "files"), "2 files");
    assert_eq!(format_bytes(12), "12 B");
    assert_eq!(shorten_home("/home/me/src", Some("/home/me")), "~/src");
    assert_eq!(shorten_home("/home/me/src", None), "/home/me/src");
}
