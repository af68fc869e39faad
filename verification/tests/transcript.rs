//! The transcript: entries, tools, links and scrolling.

#![allow(dead_code)]

use ratatui::buffer::Buffer;
use ratatui::layout::{Alignment, Rect as Area};
use ratatui::style::{Color, Modifier, Style};
use ratatui::text::{Line, Span};
use ratatui::widgets::{
    Block, BorderType, Borders, Clear, List, ListItem, ListState, Paragraph, StatefulWidget, Widget,
    Wrap,
};
use tact_tui::draw::{Look, Paint, Tone, Words};
use tact_tui::settings::Model;
use serde_json::Value;
use tact_tui::cache::LayoutCache;
use tact_tui::empty::{canvas, EmptyLogo, FRAME_INTERVAL_MS};
use tact_tui::entry::{
    layout_without_links, EntryKind, Layout, LinkSpan, Materials, TranscriptEntry,
};
use tact_tui::event::{Event, KeyCode, KeyEvent, Modifiers, MouseButton, MouseEvent, MouseKind};
use tact_tui::geometry::Rect;
use tact_tui::json::{Document, Field, Json, Number};
use tact_tui::node::{ComponentUpdate, RenderRequest};
use tact_tui::scroll::{
    move_anchor, tail_top, Anchor, Flow, PendingToolAnchor, ScrollCommand, ScrollState, Viewport,
};
use tact_tui::settings::ReasoningEffort;
use tact_tui::spinner::{Spinner, SPINNER_INTERVAL_MS};
use tact_tui::tool::{Presentation, ToolEntry, ToolState};
use tact_tui::transcript::{
    transient_label, Change, Content, ToolCommand, Transcript, TranscriptEffect, TranscriptEvent,
    TransientStatus,
};
use tact_tui::wrap::{sanitize, wrap_plain};

/// A terminal that drawing commands are carried out on.
struct Screen {
    buffer: Buffer,
    cursor: Option<(u16, u16)>,
}

fn color(tone: Tone) -> Color {
    match tone {
        Tone::Plain | Tone::Text => Color::Reset,
        Tone::Muted | Tone::Border | Tone::DarkGray => Color::DarkGray,
        Tone::Accent | Tone::Cyan => Color::Cyan,
        Tone::CodeText => Color::White,
        Tone::CodeBackground => Color::Rgb(0x26, 0x26, 0x26),
        Tone::Effort(_) => Color::LightBlue,
        Tone::Model(Model::Luna) => Color::White,
        Tone::Model(Model::Terra) => Color::Green,
        Tone::Model(Model::Sol) => Color::Yellow,
        Tone::Yellow => Color::Yellow,
        Tone::Blue => Color::Blue,
        Tone::Green => Color::Green,
        Tone::Red => Color::Red,
        Tone::Magenta => Color::Magenta,
        Tone::Black => Color::Black,
    }
}

fn style(look: Look) -> Style {
    let mut style = Style::default();
    if look.tone != Tone::Plain {
        style = style.fg(color(look.tone));
    }
    if look.ground != Tone::Plain {
        style = style.bg(color(look.ground));
    }
    if look.bold {
        style = style.add_modifier(Modifier::BOLD);
    }
    if look.dim {
        style = style.add_modifier(Modifier::DIM);
    }
    if look.italic {
        style = style.add_modifier(Modifier::ITALIC);
    }
    style
}

fn line(words: &[Words]) -> Line<'static> {
    Line::from(
        words
            .iter()
            .map(|part| Span::styled(part.text.clone(), style(part.look)))
            .collect::<Vec<_>>(),
    )
}

fn rows(item: &[Vec<Words>]) -> Vec<Line<'static>> {
    item.iter().map(|row| line(row)).collect()
}

impl Screen {
    fn new(width: u16, height: u16) -> Self {
        Screen {
            buffer: Buffer::empty(Area::new(0, 0, width, height)),
            cursor: None,
        }
    }

    fn clip(&self, area: Rect) -> Area {
        Area::new(area.x, area.y, area.width, area.height).intersection(self.buffer.area)
    }

    fn list(
        &mut self,
        area: Area,
        items: &[Vec<Vec<Words>>],
        selected: Option<usize>,
        symbol: &str,
        highlight: Style,
        cursor: bool,
    ) {
        let list = List::new(items.iter().map(|item| ListItem::new(rows(item))))
            .highlight_symbol(Line::from(symbol.to_owned()))
            .highlight_style(highlight);
        let mut state = ListState::default().with_selected(selected);
        StatefulWidget::render(list, area, &mut self.buffer, &mut state);
        if let (true, Some(selected)) = (cursor, selected) {
            let above: usize = items[state.offset()..selected]
                .iter()
                .map(|item| item.len())
                .sum();
            let row = area.y + u16::try_from(above).unwrap();
            self.cursor = Some((area.x, row.min(area.bottom() - 1)));
        }
    }

    fn draw(&mut self, paints: &[Paint]) {
        for paint in paints {
            match paint {
                Paint::Clear { area } => Clear.render(self.clip(*area), &mut self.buffer),
                Paint::Border {
                    area,
                    title,
                    border,
                    title_tone,
                } => {
                    let mut block = Block::new()
                        .borders(Borders::ALL)
                        .border_type(BorderType::Rounded)
                        .border_style(Style::default().fg(color(*border)));
                    if !title.is_empty() {
                        block = block
                            .title(title.clone())
                            .title_alignment(Alignment::Center)
                            .title_style(
                                Style::default()
                                    .fg(color(*title_tone))
                                    .add_modifier(Modifier::BOLD),
                            );
                    }
                    block.render(self.clip(*area), &mut self.buffer);
                }
                Paint::Rule { area, title } => Block::new()
                    .borders(Borders::TOP)
                    .title(title.clone())
                    .border_style(Style::default().fg(color(Tone::Border)))
                    .title_style(Style::default().fg(color(Tone::Muted)))
                    .render(self.clip(*area), &mut self.buffer),
                Paint::Line {
                    area,
                    line: words,
                    centered,
                } => Paragraph::new(line(words))
                    .alignment(if *centered {
                        Alignment::Center
                    } else {
                        Alignment::Left
                    })
                    .render(self.clip(*area), &mut self.buffer),
                Paint::Wrapped { area, message } => Paragraph::new(line(message))
                    .centered()
                    .wrap(Wrap { trim: true })
                    .render(self.clip(*area), &mut self.buffer),
                Paint::Paragraph {
                    area,
                    text,
                    look,
                    scroll,
                } => Paragraph::new(text.clone())
                    .style(style(*look))
                    .wrap(Wrap { trim: false })
                    .scroll((*scroll, 0))
                    .render(self.clip(*area), &mut self.buffer),
                Paint::List {
                    area,
                    items,
                    selected,
                    marker,
                    highlight,
                    cursor,
                } => {
                    let area = self.clip(*area);
                    let symbol = if *marker { "› " } else { "  " };
                    let highlight = highlight.map(style).unwrap_or_default();
                    self.list(area, items, *selected, symbol, highlight, *cursor);
                }
                Paint::Tree {
                    area,
                    items,
                    row,
                    look,
                } => {
                    let area = self.clip(*area);
                    self.list(area, items, Some(*row), "  ", style(*look), false);
                }
                Paint::Fill { area, look } => {
                    let area = self.clip(*area);
                    self.buffer.set_style(area, style(*look));
                }
                Paint::Symbol { x, y, symbol, look } => {
                    if let Some(cell) = self.buffer.cell_mut((*x, *y)) {
                        cell.set_char(*symbol).set_style(style(*look));
                    }
                }
                Paint::Text {
                    x,
                    y,
                    text,
                    limit,
                    look,
                } => {
                    if self.buffer.area.contains((*x, *y).into()) {
                        self.buffer.set_stringn(*x, *y, text, *limit, style(*look));
                    }
                }
                Paint::Wave {
                    x,
                    y,
                    text,
                    end,
                    tone,
                } => {
                    let limit = usize::from(end.saturating_sub(*x));
                    let style = Style::default().fg(color(*tone));
                    self.buffer.set_stringn(*x, *y, text, limit, style);
                }
                Paint::Artwork { area, model, frame } => {
                    let area = self.clip(*area);
                    let symbol = if frame % 2 == 0 { "*" } else { "+" };
                    for position in area.positions() {
                        self.buffer[position]
                            .set_symbol(symbol)
                            .set_fg(color(Tone::Model(*model)));
                    }
                }
                Paint::Cursor { position } => self.cursor = Some((position.x, position.y)),
            }
        }
    }

    fn symbol(&self, x: u16, y: u16) -> &str {
        self.buffer[(x, y)].symbol()
    }

    fn row(&self, y: u16) -> String {
        (0..self.buffer.area.width)
            .map(|x| self.buffer[(x, y)].symbol())
            .collect()
    }

    fn segment(&self, y: u16, x: u16, width: u16) -> String {
        (x..x + width)
            .map(|column| self.buffer[(column, y)].symbol())
            .collect()
    }

    fn rows(&self) -> Vec<String> {
        (0..self.buffer.area.height).map(|y| self.row(y)).collect()
    }

    fn text(&self) -> String {
        self.rows().concat()
    }
}

fn whole(width: u16, height: u16) -> Rect {
    Rect {
        x: 0,
        y: 0,
        width,
        height,
    }
}

fn json_value(value: &Value) -> Json {
    match value {
        Value::Null => Json::Null,
        Value::Bool(truth) => Json::Truth(*truth),
        Value::Number(number) => Json::Number(Number {
            text: number.to_string(),
            signed: number.as_i64(),
            unsigned: number.as_u64(),
            thousandths: number.as_f64().map(|score| format!("{score:.3}")),
        }),
        Value::String(text) => Json::Text(text.clone()),
        Value::Array(values) => Json::List(values.iter().map(json_value).collect()),
        Value::Object(fields) => Json::Object(
            fields
                .iter()
                .map(|(name, value)| Field {
                    name: name.clone(),
                    value: json_value(value),
                })
                .collect(),
        ),
    }
}

fn document(source: &str) -> Document {
    let value: Value = serde_json::from_str(source).unwrap();
    Document {
        value: json_value(&value),
        source: source.to_owned(),
    }
}

/// What a transcript is told of, in the order in which it came.
#[derive(Clone)]
enum Told {
    User(String),
    Assistant(String),
    Reasoning(String),
    Shell(Option<String>),
    Tool(String, String),
}

fn told_entry(index: usize, told: &Told) -> TranscriptEntry {
    let kind = match told {
        Told::User(text) => EntryKind::User { text: text.clone() },
        Told::Assistant(text) => EntryKind::Assistant { text: text.clone() },
        Told::Reasoning(text) => EntryKind::Reasoning { text: text.clone() },
        Told::Shell(output) => EntryKind::Tool(ToolEntry {
            name: "exec_command".to_owned(),
            arguments: document(r#"{"cmd": "cargo test", "workdir": "/work"}"#),
            state: if output.is_some() {
                ToolState::Succeeded
            } else {
                ToolState::Running
            },
            duration_ns: output.as_ref().map(|_| 1_200_000_000),
            result: output.as_ref().map(|output| {
                let text = Value::String(output.clone()).to_string();
                document(&format!(r#"{{"output": {text}, "exit_code": 0}}"#))
            }),
            substeps: Vec::new(),
        }),
        Told::Tool(name, arguments) => EntryKind::Tool(ToolEntry {
            name: name.clone(),
            arguments: document(arguments),
            state: ToolState::Running,
            duration_ns: None,
            result: None,
            substeps: Vec::new(),
        }),
    };
    TranscriptEntry {
        id: index as u64 + 1,
        revision: if matches!(told, Told::Shell(Some(_))) {
            2
        } else {
            1
        },
        hidden: false,
        kind,
    }
}

fn told_content(told: &[Told], status: Option<TransientStatus>) -> Content {
    Content {
        entries: told
            .iter()
            .enumerate()
            .map(|(index, told)| told_entry(index, told))
            .collect(),
        active: status.is_some(),
        status,
        running_tools: told
            .iter()
            .any(|told| matches!(told, Told::Shell(None) | Told::Tool(..))),
    }
}

fn told_change(told: &[Told], status: Option<TransientStatus>) -> Change {
    Change {
        content: told_content(told, status),
        changed: true,
        local: true,
        now: 0,
    }
}

fn no_materials() -> Materials {
    Materials {
        formatted: None,
        given: None,
        home: None,
    }
}

fn lay_out(transcript: &mut Transcript, width: u16) {
    let stale = transcript.stale_entries(width);
    let materials = stale.iter().map(|_| no_materials()).collect();
    transcript.lay_out_all(width, materials);
}

struct Story {
    transcript: Transcript,
    told: Vec<Told>,
}

impl Story {
    fn new() -> Self {
        Story {
            transcript: Transcript::with_effort(ReasoningEffort::Medium, 0),
            told: Vec::new(),
        }
    }

    fn tell(&mut self, told: Told) -> ComponentUpdate<TranscriptEffect> {
        self.tell_with(told, None)
    }

    fn tell_with(
        &mut self,
        told: Told,
        status: Option<TransientStatus>,
    ) -> ComponentUpdate<TranscriptEffect> {
        self.told.push(told);
        let change = told_change(&self.told, status);
        self.transcript.update(TranscriptEvent::Record(change))
    }

    fn user(&mut self, text: impl Into<String>) {
        self.tell(Told::User(text.into()));
    }

    fn shell(&mut self, output: &str) {
        self.tell(Told::Shell(Some(output.to_owned())));
    }

    fn screen(&mut self, width: u16, height: u16) -> Screen {
        lay_out(&mut self.transcript, width);
        let mut screen = Screen::new(width, height);
        let mut paints = Vec::new();
        self.transcript.render(whole(width, height), &mut paints);
        screen.draw(&paints);
        screen
    }

    fn focus_tools(&mut self) {
        self.transcript.tools_focused = true;
        if self.transcript.selected_tool.is_none() {
            self.transcript.selected_tool = self.transcript.tool_hits.last().map(|hit| hit.entry);
        }
    }

    fn scroll(&mut self, event: Event) {
        let command = self
            .transcript
            .scroll_command(&event)
            .expect("test event should be a transcript scroll command");
        self.transcript.update(TranscriptEvent::Scroll(command));
    }
}

fn pressed(code: KeyCode, modifiers: Modifiers) -> Event {
    Event::Key(KeyEvent::new(code, modifiers))
}

fn mouse(kind: MouseKind, column: u16, row: u16) -> Event {
    Event::Mouse(MouseEvent {
        kind,
        column,
        row,
        modifiers: Modifiers::none(),
    })
}

#[test]
fn user_lines_have_a_cyan_gutter_without_outer_chrome() {
    let mut story = Story::new();
    story.user("hello\nworld");

    let screen = story.screen(20, 4);

    assert_eq!(screen.symbol(0, 1), "┃");
    assert_eq!(screen.symbol(2, 1), "h");
    assert_eq!(screen.symbol(0, 2), "┃");
    assert_eq!(screen.symbol(0, 0), " ");
}

#[test]
fn commentary_and_reasoning_render_their_content_without_labels() {
    let mut story = Story::new();
    story.tell(Told::Assistant("commentary body".to_owned()));
    story.tell(Told::Reasoning("reasoning body".to_owned()));

    let rendered = story.screen(40, 8).text();

    assert!(rendered.contains("commentary body"));
    assert!(rendered.contains("reasoning body"));
    assert!(!rendered.contains("Commentary"));
    assert!(!rendered.contains("Thinking"));
}

#[test]
fn empty_logo_is_replaced_as_soon_as_transcript_content_arrives() {
    let mut story = Story::new();

    let empty = story.screen(41, 14);
    assert_ne!(empty.symbol(5, 2), " ");
    let deadline = story
        .transcript
        .animation_deadline()
        .expect("empty transcript should schedule the logo");
    assert_eq!(
        story
            .transcript
            .update(TranscriptEvent::AnimationFrame(deadline))
            .render,
        RenderRequest::Streaming
    );

    story.user("hello");
    let populated = story.screen(41, 14);
    assert_eq!(populated.symbol(5, 2), " ");
    assert!(story.transcript.animation_deadline().is_none());
}

#[test]
fn tool_focus_and_expansion_are_inline() {
    let mut story = Story::new();
    story.shell("all tests passed");
    let collapsed = story.screen(60, 8).text();
    assert!(collapsed.contains("▶"));
    assert!(!collapsed.contains("all tests passed"));

    story.focus_tools();
    let focused = story.screen(60, 8).text();
    assert!(focused.contains("›"));

    story
        .transcript
        .update(TranscriptEvent::Tool(ToolCommand::Toggle));
    let expanded = story.screen(60, 8).text();
    assert!(expanded.contains("▼"));
    assert!(expanded.contains("all tests passed"));

    story.transcript.update(TranscriptEvent::BlurTools);
    assert!(!story.transcript.tools_focused());
    let blurred = story.screen(60, 8).text();
    assert!(!blurred.contains("›"));
}

#[test]
fn expand_all_toggles_every_tool_and_applies_to_future_entries() {
    let mut story = Story::new();
    story.shell("first output");

    story.transcript.update(TranscriptEvent::ToggleExpandAll);
    story.shell("future output");
    let expanded = story.screen(80, 16).text();
    assert!(expanded.contains("first output"));
    assert!(expanded.contains("future output"));

    story.transcript.update(TranscriptEvent::ToggleExpandAll);
    let collapsed = story.screen(80, 16).text();
    assert!(!collapsed.contains("first output"));
    assert!(!collapsed.contains("future output"));
    assert_eq!(collapsed.matches('▶').count(), 2);
}

#[test]
fn plan_tools_are_expanded_by_default() {
    let mut story = Story::new();
    story.tell(Told::Tool(
        "update_plan".to_owned(),
        r#"{"explanation": "Implementation plan", "plan": []}"#.to_owned(),
    ));

    assert!(story.transcript.content.entries[0].expanded_by_default());
    let plain = Look {
        tone: Tone::Text,
        ground: Tone::Plain,
        bold: false,
        dim: false,
        italic: false,
    };
    let details = ["Write the regression test", "Change the default"]
        .iter()
        .flat_map(|step| wrap_plain(step, 74, plain))
        .collect();
    let given = Presentation::new("Plan", "Implementation plan".to_owned()).details(details);
    story.transcript.lay_out(
        0,
        80,
        Materials {
            formatted: None,
            given: Some(given),
            home: None,
        },
    );
    let rendered = story.screen(80, 10).text();

    assert!(rendered.contains("▼"));
    assert!(rendered.contains("Implementation plan"));
    assert!(rendered.contains("Write the regression test"));
    assert!(rendered.contains("Change the default"));
}

#[test]
fn clicking_a_tool_summary_focuses_and_expands_it() {
    let mut story = Story::new();
    story.shell("done");
    story.screen(60, 8);
    let row = story.transcript.tool_hits[0].row;
    let event = mouse(MouseKind::Down(MouseButton::Left), 10, row);
    let command = story.transcript.tool_command(&event).unwrap();

    story.transcript.update(TranscriptEvent::Tool(command));
    let rendered = story.screen(60, 8).text();

    assert!(story.transcript.tools_focused());
    assert!(rendered.contains("▼"));
    assert!(rendered.contains("done"));
    assert!(rendered.contains("↑↓ tool · Enter toggle · Esc back"));
}

fn linked_row(text: &str, destination: &str) -> (Vec<Words>, Vec<LinkSpan>) {
    let look = Look {
        tone: Tone::Cyan,
        ground: Tone::Plain,
        bold: false,
        dim: false,
        italic: false,
    };
    (
        vec![Words {
            text: text.to_owned(),
            look,
        }],
        vec![LinkSpan {
            destination: destination.to_owned(),
            start: 0,
            end: text.len() as u16,
        }],
    )
}

#[test]
fn clicking_a_wrapped_markdown_link_returns_its_destination() {
    let destination = "/work/src/main.rs:12";
    let mut story = Story::new();
    story.tell(Told::Assistant(format!(
        "[a long local filename]({destination})"
    )));
    let (lines, links) = ["a long local", "filename"]
        .iter()
        .map(|text| linked_row(text, destination))
        .unzip();
    story.transcript.lay_out(
        0,
        12,
        Materials {
            formatted: Some(Layout { lines, links }),
            given: None,
            home: None,
        },
    );
    story.screen(12, 8);
    assert_eq!(story.transcript.link_hits.len(), 2);
    let hit = &story.transcript.link_hits[1];
    let event = mouse(MouseKind::Down(MouseButton::Left), hit.start, hit.row);

    assert_eq!(
        story.transcript.link_destination(&event).as_deref(),
        Some("/work/src/main.rs:12")
    );
    let beside = mouse(MouseKind::Down(MouseButton::Left), hit.end, hit.row);
    assert_eq!(story.transcript.link_destination(&beside), None);
}

#[test]
fn expanding_a_visible_tool_preserves_its_summary_row() {
    let mut story = Story::new();
    for sequence in 1..=10 {
        story.user(format!("before {sequence}"));
    }
    story.shell("one\ntwo\nthree");
    for sequence in 13..=18 {
        story.user(format!("after {sequence}"));
    }
    story.transcript.viewport.scroll = ScrollState::Detached(Anchor {
        entry: story.transcript.content.entries[8].id,
        line: 0,
    });
    story.screen(60, 10);
    story.focus_tools();
    story.screen(60, 10);
    let before = story.transcript.tool_hits[0].row;

    story
        .transcript
        .update(TranscriptEvent::Tool(ToolCommand::Toggle));
    story.screen(60, 10);

    assert_eq!(story.transcript.tool_hits[0].row, before);
}

#[test]
fn page_and_mouse_scrolling_detach_then_return_to_tail() {
    let mut story = Story::new();
    for sequence in 1..=20 {
        story.user(format!("line {sequence}"));
    }
    story.screen(30, 6);

    story.scroll(pressed(KeyCode::PageUp, Modifiers::none()));
    let scrolled = story.screen(30, 6).text();
    assert!(!scrolled.contains("line 20"));

    story.scroll(mouse(MouseKind::ScrollDown, 0, 0));
    story.scroll(pressed(KeyCode::End, Modifiers::control()));
    let tail = story.screen(30, 6).text();
    assert!(tail.contains("line 20"));
}

#[test]
fn scrolling_down_near_the_tail_keeps_the_viewport_filled() {
    let mut story = Story::new();
    for sequence in 1..=2 {
        story.user(format!("line {sequence}"));
    }
    story.screen(30, 6);
    story.scroll(pressed(KeyCode::PageUp, Modifiers::none()));
    story.screen(30, 6);

    story.scroll(mouse(MouseKind::ScrollDown, 0, 0));
    let rendered = story.screen(30, 6).text();

    assert!(rendered.contains("line 1"));
    assert!(rendered.contains("line 2"));
}

#[test]
fn incoming_records_follow_when_the_viewport_is_at_the_bottom() {
    let mut story = Story::new();
    for sequence in 1..=20 {
        story.user(format!("line {sequence}"));
    }
    story.screen(30, 6);
    story
        .transcript
        .update(TranscriptEvent::Scroll(ScrollCommand::Rows(-4)));
    story.screen(30, 6);
    story
        .transcript
        .update(TranscriptEvent::Scroll(ScrollCommand::Rows(4)));
    let bottom = story.screen(30, 6).text();
    assert!(matches!(
        story.transcript.viewport.scroll,
        ScrollState::Follow
    ));
    assert!(bottom.contains("line 20"));

    story.user("new tail");
    let rendered = story.screen(30, 6).text();

    assert!(rendered.contains("new tail"));
}

#[test]
fn incoming_records_do_not_move_a_detached_viewport() {
    let mut story = Story::new();
    for sequence in 1..=20 {
        story.user(format!("line {sequence}"));
    }
    story.screen(30, 6);
    story
        .transcript
        .update(TranscriptEvent::Scroll(ScrollCommand::Rows(-4)));
    story.screen(30, 6);

    story.user("new tail");
    let rendered = story.screen(30, 6).text();

    assert!(matches!(
        story.transcript.viewport.scroll,
        ScrollState::Detached(_)
    ));
    assert!(!rendered.contains("new tail"));
    assert!(rendered.contains("1 update"));
}

#[test]
fn generic_activity_is_only_rendered_by_the_composer() {
    let mut story = Story::new();
    let change = told_change(&[], Some(TransientStatus::Thinking));
    story.transcript.update(TranscriptEvent::Record(change));

    let rendered = story.screen(30, 4).text();
    assert!(rendered.chars().any(|character| character != ' '));
    assert!(!rendered.contains("Thinking"));
}

#[test]
fn active_tool_keeps_its_inline_spinner_without_a_status_row() {
    let mut story = Story::new();
    let update = story.tell_with(
        Told::Shell(None),
        Some(TransientStatus::Tool("exec command".to_owned())),
    );

    assert_eq!(update.effects.len(), 1);
    assert_eq!(
        update.effects[0].status.as_deref(),
        Some("Running exec command…")
    );

    let rendered = story.screen(30, 4).text();

    assert!(rendered.contains("⠋"));
    assert!(!rendered.contains("Running exec"));
}

#[test]
fn background_wait_status_does_not_use_the_running_prefix() {
    let mut story = Story::new();
    let update = story.tell_with(
        Told::Tool("wait".to_owned(), r#"{"cell_id": "12"}"#.to_owned()),
        Some(TransientStatus::WaitingForBackgroundWork),
    );

    assert_eq!(
        update.effects[0].status.as_deref(),
        Some("Waiting for background work…")
    );
}

#[test]
fn tool_summary_has_a_blank_row_before_the_next_entry() {
    let mut story = Story::new();
    story.shell("done");
    story.user("next message");

    let rows = story.screen(60, 8).rows();
    let tool = rows
        .iter()
        .position(|row| row.contains("Shell"))
        .expect("tool summary should render");
    let user = rows
        .iter()
        .position(|row| row.contains("next message"))
        .expect("following user entry should render");

    assert_eq!(user, tool + 2);
    assert!(rows[tool + 1].trim().is_empty());
}

fn logo_screen(logo: &EmptyLogo, model: Model, width: u16, height: u16) -> Screen {
    let mut screen = Screen::new(width, height);
    let mut paints = Vec::new();
    logo.render(whole(width, height), model, &mut paints);
    screen.draw(&paints);
    screen
}

#[test]
fn wordmark_is_centered_in_the_model_color() {
    let logo = EmptyLogo::new(0);
    let screen = logo_screen(&logo, Model::Terra, 80, 24);
    let canvas = canvas(whole(80, 24)).unwrap();
    assert_eq!(
        canvas,
        Rect {
            x: 22,
            y: 3,
            width: 35,
            height: 17
        }
    );
    let x = canvas.x + (canvas.width - 4) / 2;
    let y = canvas.y + canvas.height / 2;

    assert_eq!(screen.segment(y, x, 4), "𝒕𝒂𝒄𝒕");
    for column in x..x + 4 {
        assert_eq!(screen.buffer[(column, y)].fg, Color::Green);
    }
}

#[test]
fn the_empty_transcript_shows_the_body_of_its_model() {
    let mut transcript = Transcript::with_effort(ReasoningEffort::Medium, 0);
    for model in [Model::Sol, Model::Terra, Model::Luna] {
        transcript.set_model(model);
        let mut paints = Vec::new();
        transcript.render(whole(80, 24), &mut paints);
        assert!(paints.iter().any(
            |paint| matches!(paint, Paint::Artwork { model: shown, .. } if *shown == model)
        ));
    }
}

#[test]
fn stale_entries_get_their_rows_at_once() {
    let mut transcript = Transcript::with_effort(ReasoningEffort::Medium, 0);
    let told = [
        Told::User("one".to_owned()),
        Told::Assistant("two".to_owned()),
    ];
    transcript.update(TranscriptEvent::Record(told_change(&told, None)));
    assert_eq!(transcript.stale_entries(40), [0, 1]);
    lay_out(&mut transcript, 40);
    assert!(transcript.stale_entries(40).is_empty());
    let rows = transcript.cache.rows(transcript.content.entries[0].id).unwrap();
    assert_eq!(rows.lines[0][1].text, "one");
    assert_eq!(transcript.stale_entries(30), [0, 1]);
}

#[test]
fn animation_advances_only_after_its_deadline() {
    let start = 1_000;
    let mut logo = EmptyLogo::new(start);
    let first = logo_screen(&logo, Model::Sol, 60, 18).text();

    assert!(!logo.advance(start + FRAME_INTERVAL_MS / 2));
    assert!(logo.advance(start + FRAME_INTERVAL_MS));
    assert_ne!(logo_screen(&logo, Model::Sol, 60, 18).text(), first);
    assert!(logo.deadline() > start + FRAME_INTERVAL_MS);
}

#[test]
fn statuses_have_labels() {
    assert_eq!(transient_label(&TransientStatus::Thinking), "Thinking…");
    assert_eq!(
        transient_label(&TransientStatus::Tool("exec command".to_owned())),
        "Running exec command…"
    );
}

#[test]
fn toggling_twice_restores_a_tool() {
    let mut cache = LayoutCache::new();
    let entry = told_entry(0, &Told::Shell(Some("x".to_owned())));
    assert!(!cache.is_expanded(&entry));
    cache.toggle(&entry);
    assert!(cache.is_expanded(&entry));
    cache.toggle(&entry);
    assert!(!cache.is_expanded(&entry));

    cache.layout(&entry, 10, layout_without_links(vec![Vec::new()]));
    assert!(cache.is_fresh(&entry, 10));
    assert!(!cache.is_fresh(&entry, 11));
    cache.toggle_all();
    assert!(cache.is_expanded(&entry));
    assert!(!cache.is_fresh(&entry, 10));
}

#[test]
fn moving_up_and_down_comes_back() {
    let list: Vec<Flow> = (1..=4)
        .map(|id| Flow {
            id,
            hidden: id == 2,
            height: 3,
        })
        .collect();
    let start = Anchor { entry: 3, line: 1 };
    let (up, clamped) = move_anchor(&list, start, -3);
    assert_eq!(up, Anchor { entry: 1, line: 1 });
    assert!(!clamped);
    assert_eq!(move_anchor(&list, up, 3).0, start);
    assert_eq!(tail_top(&list, 4), Some(Anchor { entry: 3, line: 2 }));
}

#[test]
fn spinners_turn_at_their_pace() {
    let mut spinner = Spinner::new(0);
    assert_eq!(spinner.symbol(), "⠋");
    assert!(!spinner.advance(SPINNER_INTERVAL_MS - 1));
    assert!(spinner.advance(SPINNER_INTERVAL_MS));
    assert_ne!(spinner.symbol(), "⠋");
}

#[test]
fn control_characters_do_not_reach_the_terminal() {
    assert_eq!(sanitize("a\u{1b}b"), "ab");
    assert_eq!(sanitize("plain"), "plain");
}

#[test]
fn notes_and_errors_are_entries_too() {
    let mut transcript = Transcript::with_effort(ReasoningEffort::Medium, 0);
    let kinds = vec![
        EntryKind::Interrupted { count: 0 },
        EntryKind::Interrupted { count: 1 },
        EntryKind::Interrupted { count: 3 },
        EntryKind::ContextCompacted {
            duration_ns: 1_500_000_000,
        },
        EntryKind::ContextCompactionFailed {
            message: "no room".to_owned(),
        },
        EntryKind::Error {
            message: "broken".to_owned(),
        },
    ];
    let entries = kinds
        .into_iter()
        .enumerate()
        .map(|(index, kind)| TranscriptEntry {
            id: index as u64,
            revision: 0,
            hidden: false,
            kind,
        })
        .collect();
    transcript.update(TranscriptEvent::Record(Change {
        content: Content {
            entries,
            active: false,
            status: None,
            running_tools: false,
        },
        changed: true,
        local: false,
        now: 0,
    }));
    lay_out(&mut transcript, 60);
    let mut paints = Vec::new();
    transcript.render(whole(60, 20), &mut paints);
    let mut screen = Screen::new(60, 20);
    screen.draw(&paints);
    let rendered = screen.text();

    for expected in [
        "◇ Nothing to interrupt",
        "◇ Interrupted response",
        "◇ Interrupted 3 responses",
        "◇ Context compacted · 1.5s",
        "◇ Context compaction failed · continuing · no room",
        "× broken",
    ] {
        assert!(rendered.contains(expected), "{expected}");
    }
}

#[test]
fn wrapped_rows_fit_and_spell_the_text() {
    let text = "a few words, anextremelylongwordthatfitsnowhere, 日本語 and 👩‍💻 at the end";
    for limit in [2, 3, 7, 20] {
        let rows = wrap_plain(text, limit, Look::plain(Tone::Text));
        let texts = rows
            .iter()
            .map(|row| row.iter().map(|word| word.text.as_str()).collect::<String>())
            .collect::<Vec<_>>();
        assert_eq!(texts.concat(), text);
        assert!(texts
            .iter()
            .all(|row| unicode_width::UnicodeWidthStr::width(row.as_str()) <= limit));
    }
}

fn flows(heights: &[usize]) -> Vec<Flow> {
    heights
        .iter()
        .enumerate()
        .map(|(index, height)| Flow {
            id: index as u64,
            hidden: false,
            height: *height,
        })
        .collect()
}

#[test]
fn the_viewport_is_filled() {
    let list = flows(&[3, 0, 4, 2]);
    let mut viewport = Viewport::new();
    viewport.scroll = ScrollState::Detached(Anchor { entry: 3, line: 1 });
    let (padding, rows) = viewport.render_plan(&list, 5);
    assert_eq!((padding, rows.len()), (0, 5));
    assert_eq!(rows[0], Anchor { entry: 2, line: 1 });
    assert_eq!(viewport.scroll, ScrollState::Follow);

    let (padding, rows) = viewport.render_plan(&list, 12);
    assert_eq!((padding, rows.len()), (3, 9));
    assert_eq!(rows[0], Anchor { entry: 0, line: 0 });
}

#[test]
fn toggled_calls_stay_in_their_row() {
    let list = flows(&[3, 9, 9]);
    let mut viewport = Viewport::new();
    viewport.pending_tool = Some(PendingToolAnchor::Preserve { entry: 1, row: 2 });
    let (padding, rows) = viewport.render_plan(&list, 6);
    assert_eq!((padding, rows.len()), (0, 6));
    assert_eq!(rows[2], Anchor { entry: 1, line: 0 });
}
