//! A session: composer, queue, transcript and what covers them.

#![allow(dead_code)]

use ratatui::buffer::Buffer;
use ratatui::layout::{Alignment, Rect as Area};
use ratatui::style::{Color, Modifier, Style};
use ratatui::text::{Line, Span};
use ratatui::widgets::{
    Block, BorderType, Borders, Clear, List, ListItem, ListState, Paragraph, StatefulWidget, Widget,
    Wrap,
};
use tact_tui::draw::{Look, Paint, Tone, Words};
use tact_tui::settings::Model;
use semver::Version;
use serde_json::Value;
use tact_tui::composer::ComposerChromeTarget;
use tact_tui::composer::ComposerEvent;
use tact_tui::entry::{EntryKind, Layout, LinkSpan, Materials, TranscriptEntry};
use tact_tui::event::{Event, KeyCode, KeyEvent, Modifiers, MouseButton, MouseEvent, MouseKind};
use tact_tui::geometry::{Position, Rect};
use tact_tui::json::{Document, Field, Json, Number};
use tact_tui::node::{ComponentUpdate, RenderRequest};
use tact_tui::prompt::Submission;
use tact_tui::record::{TranscriptRecord, SCHEMA_VERSION};
use tact_tui::root::{
    Frames, Overlay, RestoredRecord, RootEffect, RootEvent, RootNode, ThreadState, Waves,
    BREADCRUMB_DURATION_MS, ESCAPE_CHORD_TIMEOUT_MS,
};
use tact_tui::selection::{SelectedRow, Selection, Surface};
use tact_tui::selectors::{EffortEffect, EffortSelector, ThemeSelector, ThemeSelectorEffect};
use tact_tui::session::SessionSummary;
use tact_tui::settings::{ReasoningEffort, ReasoningMode, ThemeMode};
use tact_tui::subagents::{AgentDescriptor, AgentOrigin, AgentStatus, AgentUpdate, SubagentOverlay};
use tact_tui::tool::{ToolEntry, ToolState};
use tact_tui::transcript::{Change, Content, Transcript, TransientStatus};
use unicode_width::UnicodeWidthStr;

/// A terminal that drawing commands are carried out on.
struct Screen {
    buffer: Buffer,
    cursor: Option<(u16, u16)>,
}

fn color(tone: Tone) -> Color {
    match tone {
        Tone::Plain | Tone::Text => Color::Reset,
        Tone::Muted | Tone::Border | Tone::DarkGray => Color::DarkGray,
        Tone::Accent | Tone::Cyan => Color::Cyan,
        Tone::CodeText => Color::White,
        Tone::CodeBackground => Color::Rgb(0x26, 0x26, 0x26),
        Tone::Effort(_) => Color::LightBlue,
        Tone::Model(Model::Luna) => Color::White,
        Tone::Model(Model::Terra) => Color::Green,
        Tone::Model(Model::Sol) => Color::Yellow,
        Tone::Yellow => Color::Yellow,
        Tone::Blue => Color::Blue,
        Tone::Green => Color::Green,
        Tone::Red => Color::Red,
        Tone::Magenta => Color::Magenta,
        Tone::Black => Color::Black,
    }
}

fn style(look: Look) -> Style {
    let mut style = Style::default();
    if look.tone != Tone::Plain {
        style = style.fg(color(look.tone));
    }
    if look.ground != Tone::Plain {
        style = style.bg(color(look.ground));
    }
    if look.bold {
        style = style.add_modifier(Modifier::BOLD);
    }
    if look.dim {
        style = style.add_modifier(Modifier::DIM);
    }
    if look.italic {
        style = style.add_modifier(Modifier::ITALIC);
    }
    style
}

fn line(words: &[Words]) -> Line<'static> {
    Line::from(
        words
            .iter()
            .map(|part| Span::styled(part.text.clone(), style(part.look)))
            .collect::<Vec<_>>(),
    )
}

fn rows(item: &[Vec<Words>]) -> Vec<Line<'static>> {
    item.iter().map(|row| line(row)).collect()
}

impl Screen {
    fn new(width: u16, height: u16) -> Self {
        Screen {
            buffer: Buffer::empty(Area::new(0, 0, width, height)),
            cursor: None,
        }
    }

    fn clip(&self, area: Rect) -> Area {
        Area::new(area.x, area.y, area.width, area.height).intersection(self.buffer.area)
    }

    fn list(
        &mut self,
        area: Area,
        items: &[Vec<Vec<Words>>],
        selected: Option<usize>,
        symbol: &str,
        highlight: Style,
        cursor: bool,
    ) {
        let list = List::new(items.iter().map(|item| ListItem::new(rows(item))))
            .highlight_symbol(Line::from(symbol.to_owned()))
            .highlight_style(highlight);
        let mut state = ListState::default().with_selected(selected);
        StatefulWidget::render(list, area, &mut self.buffer, &mut state);
        if let (true, Some(selected)) = (cursor, selected) {
            let above: usize = items[state.offset()..selected]
                .iter()
                .map(|item| item.len())
                .sum();
            let row = area.y + u16::try_from(above).unwrap();
            self.cursor = Some((area.x, row.min(area.bottom() - 1)));
        }
    }

    fn draw(&mut self, paints: &[Paint]) {
        for paint in paints {
            match paint {
                Paint::Clear { area } => Clear.render(self.clip(*area), &mut self.buffer),
                Paint::Border {
                    area,
                    title,
                    border,
                    title_tone,
                } => {
                    let mut block = Block::new()
                        .borders(Borders::ALL)
                        .border_type(BorderType::Rounded)
                        .border_style(Style::default().fg(color(*border)));
                    if !title.is_empty() {
                        block = block
                            .title(title.clone())
                            .title_alignment(Alignment::Center)
                            .title_style(
                                Style::default()
                                    .fg(color(*title_tone))
                                    .add_modifier(Modifier::BOLD),
                            );
                    }
                    block.render(self.clip(*area), &mut self.buffer);
                }
                Paint::Rule { area, title } => Block::new()
                    .borders(Borders::TOP)
                    .title(title.clone())
                    .border_style(Style::default().fg(color(Tone::Border)))
                    .title_style(Style::default().fg(color(Tone::Muted)))
                    .render(self.clip(*area), &mut self.buffer),
                Paint::Line {
                    area,
                    line: words,
                    centered,
                } => Paragraph::new(line(words))
                    .alignment(if *centered {
                        Alignment::Center
                    } else {
                        Alignment::Left
                    })
                    .render(self.clip(*area), &mut self.buffer),
                Paint::Wrapped { area, message } => Paragraph::new(line(message))
                    .centered()
                    .wrap(Wrap { trim: true })
                    .render(self.clip(*area), &mut self.buffer),
                Paint::Paragraph {
                    area,
                    text,
                    look,
                    scroll,
                } => Paragraph::new(text.clone())
                    .style(style(*look))
                    .wrap(Wrap { trim: false })
                    .scroll((*scroll, 0))
                    .render(self.clip(*area), &mut self.buffer),
                Paint::List {
                    area,
                    items,
                    selected,
                    marker,
                    highlight,
                    cursor,
                } => {
                    let area = self.clip(*area);
                    let symbol = if *marker { "› " } else { "  " };
                    let highlight = highlight.map(style).unwrap_or_default();
                    self.list(area, items, *selected, symbol, highlight, *cursor);
                }
                Paint::Tree {
                    area,
                    items,
                    row,
                    look,
                } => {
                    let area = self.clip(*area);
                    self.list(area, items, Some(*row), "  ", style(*look), false);
                }
                Paint::Fill { area, look } => {
                    let area = self.clip(*area);
                    self.buffer.set_style(area, style(*look));
                }
                Paint::Symbol { x, y, symbol, look } => {
                    if let Some(cell) = self.buffer.cell_mut((*x, *y)) {
                        cell.set_char(*symbol).set_style(style(*look));
                    }
                }
                Paint::Text {
                    x,
                    y,
                    text,
                    limit,
                    look,
                } => {
                    if self.buffer.area.contains((*x, *y).into()) {
                        self.buffer.set_stringn(*x, *y, text, *limit, style(*look));
                    }
                }
                Paint::Wave {
                    x,
                    y,
                    text,
                    end,
                    tone,
                } => {
                    let limit = usize::from(end.saturating_sub(*x));
                    let style = Style::default().fg(color(*tone));
                    self.buffer.set_stringn(*x, *y, text, limit, style);
                }
                Paint::Artwork { area, model, frame } => {
                    let area = self.clip(*area);
                    let symbol = if frame % 2 == 0 { "*" } else { "+" };
                    for position in area.positions() {
                        self.buffer[position]
                            .set_symbol(symbol)
                            .set_fg(color(Tone::Model(*model)));
                    }
                }
                Paint::Cursor { position } => self.cursor = Some((position.x, position.y)),
            }
        }
    }

    fn symbol(&self, x: u16, y: u16) -> &str {
        self.buffer[(x, y)].symbol()
    }

    fn row(&self, y: u16) -> String {
        (0..self.buffer.area.width)
            .map(|x| self.buffer[(x, y)].symbol())
            .collect()
    }

    fn segment(&self, y: u16, x: u16, width: u16) -> String {
        (x..x + width)
            .map(|column| self.buffer[(column, y)].symbol())
            .collect()
    }

    fn rows(&self) -> Vec<String> {
        (0..self.buffer.area.height).map(|y| self.row(y)).collect()
    }

    fn text(&self) -> String {
        self.rows().concat()
    }
}

fn whole(width: u16, height: u16) -> Rect {
    Rect {
        x: 0,
        y: 0,
        width,
        height,
    }
}

impl Screen {
    fn cells(&self, area: Rect) -> Vec<Vec<String>> {
        (area.y..area.bottom())
            .map(|y| {
                (area.x..area.right())
                    .map(|x| self.symbol(x, y).to_owned())
                    .collect()
            })
            .collect()
    }

    fn select(&mut self, row: SelectedRow) {
        for x in row.start..=row.end {
            let cell = &mut self.buffer[(x, row.y)];
            cell.modifier = Modifier::empty();
            cell.set_fg(Color::Black).set_bg(Color::Yellow);
        }
    }
}

fn json_value(value: &Value) -> Json {
    match value {
        Value::Null => Json::Null,
        Value::Bool(truth) => Json::Truth(*truth),
        Value::Number(number) => Json::Number(Number {
            text: number.to_string(),
            signed: number.as_i64(),
            unsigned: number.as_u64(),
            thousandths: number.as_f64().map(|score| format!("{score:.3}")),
        }),
        Value::String(text) => Json::Text(text.clone()),
        Value::Array(values) => Json::List(values.iter().map(json_value).collect()),
        Value::Object(fields) => Json::Object(
            fields
                .iter()
                .map(|(name, value)| Field {
                    name: name.clone(),
                    value: json_value(value),
                })
                .collect(),
        ),
    }
}

fn document(source: &str) -> Document {
    let value: Value = serde_json::from_str(source).unwrap();
    Document {
        value: json_value(&value),
        source: source.to_owned(),
    }
}

/// What a transcript is told of, in the order in which it came.
#[derive(Clone)]
enum Told {
    User(String),
    Assistant(String),
    Reasoning(String),
    Shell(Option<String>),
    Tool(String, String),
}

fn told_entry(index: usize, told: &Told) -> TranscriptEntry {
    let kind = match told {
        Told::User(text) => EntryKind::User { text: text.clone() },
        Told::Assistant(text) => EntryKind::Assistant { text: text.clone() },
        Told::Reasoning(text) => EntryKind::Reasoning { text: text.clone() },
        Told::Shell(output) => EntryKind::Tool(ToolEntry {
            name: "exec_command".to_owned(),
            arguments: document(r#"{"cmd": "cargo test", "workdir": "/work"}"#),
            state: if output.is_some() {
                ToolState::Succeeded
            } else {
                ToolState::Running
            },
            duration_ns: output.as_ref().map(|_| 1_200_000_000),
            result: output.as_ref().map(|output| {
                let text = Value::String(output.clone()).to_string();
                document(&format!(r#"{{"output": {text}, "exit_code": 0}}"#))
            }),
            substeps: Vec::new(),
        }),
        Told::Tool(name, arguments) => EntryKind::Tool(ToolEntry {
            name: name.clone(),
            arguments: document(arguments),
            state: ToolState::Running,
            duration_ns: None,
            result: None,
            substeps: Vec::new(),
        }),
    };
    TranscriptEntry {
        id: index as u64 + 1,
        revision: if matches!(told, Told::Shell(Some(_))) {
            2
        } else {
            1
        },
        hidden: false,
        kind,
    }
}

fn told_content(told: &[Told], status: Option<TransientStatus>) -> Content {
    Content {
        entries: told
            .iter()
            .enumerate()
            .map(|(index, told)| told_entry(index, told))
            .collect(),
        active: status.is_some(),
        status,
        running_tools: told
            .iter()
            .any(|told| matches!(told, Told::Shell(None) | Told::Tool(..))),
    }
}

fn told_change(told: &[Told], status: Option<TransientStatus>) -> Change {
    Change {
        content: told_content(told, status),
        changed: true,
        local: true,
        now: 0,
    }
}

fn no_materials() -> Materials {
    Materials {
        formatted: None,
        given: None,
        home: None,
    }
}

fn lay_out(transcript: &mut Transcript, width: u16) {
    let stale = transcript.stale_entries(width);
    let materials = stale.iter().map(|_| no_materials()).collect();
    transcript.lay_out_all(width, materials);
}

fn told_draw(root: &mut RootNode, width: u16, height: u16) -> Screen {
    lay_out(&mut root.transcript, width);
    let area = whole(width, height);
    let mut screen = Screen::new(width, height);
    screen.draw(&root.render_root(area, "gpt-5.6-sol", true, 0));
    if let Some(area) = root.selection_area() {
        let cells = screen.cells(area);
        for row in root.capture_selection(area, &cells) {
            screen.select(row);
        }
    }
    let mut paints = Vec::new();
    root.render_notice(area, &mut paints);
    screen.draw(&paints);
    screen
}

fn still() -> Waves {
    Waves {
        activity: false,
        subagents: false,
        effort: RenderRequest::Idle,
        queue: RenderRequest::Idle,
    }
}

fn no_frames() -> Frames {
    Frames {
        activity: None,
        subagents: None,
        effort: None,
        queue: None,
    }
}

fn session() -> RootNode {
    RootNode::new("/work".to_owned(), None, ReasoningEffort::Medium, 0)
}

fn terminal(root: &mut RootNode, event: Event) -> ComponentUpdate<RootEffect> {
    let files = vec!["notes.md".to_owned()];
    root.update(RootEvent::Terminal { event, files }, 0)
}

fn key_with(
    root: &mut RootNode,
    code: KeyCode,
    modifiers: Modifiers,
) -> ComponentUpdate<RootEffect> {
    terminal(root, Event::Key(KeyEvent::new(code, modifiers)))
}

fn key(root: &mut RootNode, code: KeyCode) -> ComponentUpdate<RootEffect> {
    key_with(root, code, Modifiers::none())
}

fn control(root: &mut RootNode, character: char) -> ComponentUpdate<RootEffect> {
    key_with(root, KeyCode::Char(character), Modifiers::control())
}

fn typed(root: &mut RootNode, text: &str) {
    for character in text.chars() {
        key(root, KeyCode::Char(character));
    }
}

fn mouse(
    root: &mut RootNode,
    kind: MouseKind,
    column: u16,
    row: u16,
) -> ComponentUpdate<RootEffect> {
    terminal(
        root,
        Event::Mouse(MouseEvent {
            kind,
            column,
            row,
            modifiers: Modifiers::none(),
        }),
    )
}

fn tell(root: &mut RootNode, event: RootEvent) -> ComponentUpdate<RootEffect> {
    root.update(event, 0)
}

fn text_column(screen: &Screen, row: u16, text: &str) -> u16 {
    let symbols = text
        .chars()
        .map(|character| character.to_string())
        .collect::<Vec<_>>();
    let width = u16::try_from(symbols.len()).unwrap();
    (0..=screen.buffer.area.width.saturating_sub(width))
        .find(|&column| {
            symbols.iter().enumerate().all(|(offset, symbol)| {
                screen.symbol(column + u16::try_from(offset).unwrap(), row) == symbol
            })
        })
        .expect("rendered text should be present")
}

fn written(source: &str, kind: &str, payload: &str) -> TranscriptRecord {
    TranscriptRecord {
        schema_version: SCHEMA_VERSION,
        sequence: 1,
        recorded_at_unix_ms: 1,
        source: source.to_owned(),
        kind: kind.to_owned(),
        payload: document(payload),
    }
}

fn run_steered(root: &mut RootNode) -> ComponentUpdate<RootEffect> {
    let payload = r#"{"steer_index": 1}"#;
    tell(
        root,
        RootEvent::Transcript {
            record: written("agent", "run.steered", payload),
            change: told_change(&[], None),
        },
    )
}

fn completed(tokens: u64) -> String {
    format!(
        r#"{{"direction": "inbound", "phase": "generation", "event": {{
            "type": "response.completed",
            "response": {{"usage": {{"total_tokens": {tokens}}}}}
        }}}}"#
    )
}

fn queued(root: &mut RootNode, text: &str) {
    root.queue.push(Submission::plain_text(text.to_owned()));
}

fn users(count: u64) -> Vec<Told> {
    (1..=count)
        .map(|sequence| Told::User(format!("old prompt {sequence}")))
        .collect()
}

fn record(root: &mut RootNode, told: &[Told]) {
    tell(
        root,
        RootEvent::Transcript {
            record: written("tact", "user.submitted", r#"{"text": "told"}"#),
            change: told_change(told, None),
        },
    );
}

fn submitted(update: &ComponentUpdate<RootEffect>) -> &str {
    match update.effects.as_slice() {
        [RootEffect::Submit(prompt)] => prompt.display_text(),
        other => panic!("no prompt was submitted: {other:?}"),
    }
}

fn steered(update: &ComponentUpdate<RootEffect>) -> u64 {
    match update.effects.as_slice() {
        [RootEffect::Steer { id, .. }] => *id,
        other => panic!("enter should issue a steer: {other:?}"),
    }
}

fn persisted(update: &ComponentUpdate<RootEffect>) -> &str {
    match update.effects.as_slice() {
        [RootEffect::PersistSteer(text)] => text,
        other => panic!("no steer was kept: {other:?}"),
    }
}

fn worker() -> AgentUpdate {
    AgentUpdate::Added(AgentDescriptor {
        id: 1,
        session_id: "child".to_owned(),
        role: "worker".to_owned(),
        task: "work".to_owned(),
        origin: AgentOrigin::Spawn,
        parent: None,
    })
}

#[test]
fn composer_is_anchored_to_the_bottom() {
    let mut root = session();
    let screen = told_draw(&mut root, 40, 12);

    assert_eq!(screen.symbol(0, 7), "╭");
    assert_eq!(screen.symbol(0, 11), "╰");
    assert_eq!(screen.symbol(0, 6), " ");
}

#[test]
fn clicking_composer_chrome_opens_effort_and_subagents() {
    let mut root = session();
    let screen = told_draw(&mut root, 100, 16);
    let top = root.composer_area.y;
    let effort_x = text_column(&screen, top, "medium");
    assert_eq!(
        root.composer.chrome_target(Position {
            x: effort_x,
            y: top
        }),
        Some(ComposerChromeTarget::Effort)
    );

    mouse(&mut root, MouseKind::Down(MouseButton::Left), effort_x, top);
    assert!(matches!(root.overlay, Some(Overlay::Effort(_))));

    root.overlay = None;
    tell(&mut root, RootEvent::Subagent(worker()));
    let screen = told_draw(&mut root, 100, 16);
    let subagents_x = text_column(&screen, top, "1 subagents");

    mouse(
        &mut root,
        MouseKind::Down(MouseButton::Left),
        subagents_x,
        top,
    );
    assert!(matches!(
        root.overlay,
        Some(Overlay::Subagents(SubagentOverlay::Tree))
    ));
}

#[test]
fn composer_hides_subagents_after_they_stop_running() {
    let mut root = session();
    tell(&mut root, RootEvent::Subagent(worker()));
    tell(
        &mut root,
        RootEvent::Subagent(AgentUpdate::Status {
            id: 1,
            status: AgentStatus::Completed {
                report: "done".to_owned(),
            },
        }),
    );

    let rendered = told_draw(&mut root, 100, 16).text();

    assert!(!rendered.contains("subagents"));
}

#[test]
fn transcript_uses_the_space_above_the_composer() {
    let mut root = session();
    record(&mut root, &[Told::User("hello transcript".to_owned())]);

    let screen = told_draw(&mut root, 40, 12);

    assert!((0..7).any(|y| screen.symbol(0, y) == "┃"));
    assert_eq!(screen.symbol(0, 7), "╭");
}

#[test]
fn clicking_a_transcript_link_requests_that_it_be_opened() {
    let mut root = session();
    record(
        &mut root,
        &[Told::Assistant(
            "Open [the site](https://example.com).".to_owned(),
        )],
    );
    let look = Look {
        tone: Tone::Text,
        ground: Tone::Plain,
        bold: false,
        dim: false,
        italic: false,
    };
    let formatted = Layout {
        lines: vec![vec![Words {
            text: "Open the site.".to_owned(),
            look,
        }]],
        links: vec![vec![LinkSpan {
            destination: "https://example.com".to_owned(),
            start: 5,
            end: 13,
        }]],
    };
    root.transcript.lay_out(
        0,
        50,
        Materials {
            formatted: Some(formatted),
            given: None,
            home: None,
        },
    );
    let screen = told_draw(&mut root, 50, 12);
    let (column, row) = screen
        .rows()
        .iter()
        .enumerate()
        .find_map(|(row, rendered)| {
            rendered
                .find("the site")
                .map(|column| (u16::try_from(column).unwrap(), u16::try_from(row).unwrap()))
        })
        .expect("link label should be rendered");

    let down = mouse(&mut root, MouseKind::Down(MouseButton::Left), column, row);
    assert!(down.effects.is_empty());
    let up = mouse(&mut root, MouseKind::Up(MouseButton::Left), column, row);

    assert!(matches!(
        up.effects.as_slice(),
        [RootEffect::OpenLink(link)] if link == "https://example.com"
    ));
}

#[test]
fn submitting_a_prompt_returns_the_transcript_to_the_tail() {
    let mut root = session();
    let mut told = users(20);
    record(&mut root, &told);
    told_draw(&mut root, 40, 12);
    key(&mut root, KeyCode::PageUp);
    told_draw(&mut root, 40, 12);

    typed(&mut root, "new prompt");
    let update = key(&mut root, KeyCode::Enter);
    assert_eq!(submitted(&update), "new prompt");
    told.push(Told::User("new prompt".to_owned()));
    record(&mut root, &told);

    let rendered = told_draw(&mut root, 40, 12).text();

    assert!(rendered.contains("new prompt"));
}

#[test]
fn leading_slash_opens_actions_without_changing_the_draft() {
    let mut root = session();

    let update = key(&mut root, KeyCode::Char('/'));

    assert!(matches!(&root.overlay, Some(Overlay::Actions(_))));
    assert!(root.composer.draft().is_empty());
    assert_eq!(update.render, RenderRequest::Immediate);
}

#[test]
fn slash_after_prompt_text_remains_in_the_composer() {
    let mut root = session();
    key(&mut root, KeyCode::Char('a'));

    key(&mut root, KeyCode::Char('/'));

    assert!(root.overlay.is_none());
    assert_eq!(root.composer.draft(), "a/");
}

#[test]
fn at_at_a_token_boundary_opens_the_file_finder_and_remains_in_the_draft() {
    let mut root = session();
    typed(&mut root, "inspect ");

    let update = key(&mut root, KeyCode::Char('@'));

    assert!(matches!(&root.overlay, Some(Overlay::FileFinder(_))));
    assert_eq!(root.composer.draft(), "inspect @");
    assert_eq!(update.render, RenderRequest::Immediate);
}

#[test]
fn at_inside_a_token_is_inserted_without_opening_the_file_finder() {
    let mut root = session();
    typed(&mut root, "name@example.com");

    assert!(root.overlay.is_none());
    assert_eq!(root.composer.draft(), "name@example.com");
}

#[test]
fn selecting_a_file_inserts_its_relative_path_at_the_composer_cursor() {
    let mut root = session();
    typed(&mut root, "inspect ");
    key(&mut root, KeyCode::Char('@'));
    typed(&mut root, "notes");

    key(&mut root, KeyCode::Enter);

    assert!(root.overlay.is_none());
    assert_eq!(root.composer.draft(), "inspect @notes.md ");
}

#[test]
fn selecting_a_file_replaces_the_query_in_the_middle_of_a_draft() {
    let mut root = session();
    typed(&mut root, "inspect later");
    for _ in 0.."later".len() {
        key(&mut root, KeyCode::Left);
    }
    typed(&mut root, "@notes");

    key(&mut root, KeyCode::Enter);

    assert!(root.overlay.is_none());
    assert_eq!(root.composer.draft(), "inspect @notes.md later");
}

#[test]
fn escape_preserves_a_literal_mention_and_backspace_removes_it() {
    let mut root = session();

    key(&mut root, KeyCode::Char('@'));
    key(&mut root, KeyCode::Esc);
    assert!(root.overlay.is_none());
    assert_eq!(root.composer.draft(), "@");

    key(&mut root, KeyCode::Backspace);
    key(&mut root, KeyCode::Char('@'));
    key(&mut root, KeyCode::Backspace);
    assert!(root.overlay.is_none());
    assert!(root.composer.draft().is_empty());
}

#[test]
fn mention_query_is_composer_text_and_space_closes_suggestions() {
    let mut root = session();

    typed(&mut root, "@someone ");

    assert!(root.overlay.is_none());
    assert_eq!(root.composer.draft(), "@someone ");
}

#[test]
fn escape_and_empty_backspace_close_actions_immediately() {
    for dismiss in [KeyCode::Esc, KeyCode::Backspace] {
        let mut root = session();
        key(&mut root, KeyCode::Char('/'));

        let update = key(&mut root, dismiss);

        assert!(root.overlay.is_none());
        assert_eq!(update.render, RenderRequest::Immediate);
    }
}

#[test]
fn control_c_still_shuts_down_while_actions_are_open() {
    let mut root = session();
    key(&mut root, KeyCode::Char('/'));

    let update = control(&mut root, 'c');

    assert!(matches!(update.effects.as_slice(), [RootEffect::Shutdown]));
}

#[test]
fn control_c_clears_the_focused_composer_before_shutting_down() {
    let mut root = session();
    typed(&mut root, "hi");

    let clear = control(&mut root, 'c');

    assert!(clear.effects.is_empty());
    assert_eq!(clear.render, RenderRequest::Immediate);
    assert!(root.composer.draft().is_empty());

    let shutdown = control(&mut root, 'c');

    assert!(matches!(
        shutdown.effects.as_slice(),
        [RootEffect::Shutdown]
    ));
}

#[test]
fn double_escape_interrupts_without_shutting_down() {
    let mut root = session();

    let first = key(&mut root, KeyCode::Esc);
    let second = key(&mut root, KeyCode::Esc);

    assert!(first.effects.is_empty());
    assert!(matches!(
        second.effects.as_slice(),
        [RootEffect::CancelTurns]
    ));
}

#[test]
fn tab_swaps_between_the_queue_and_composer() {
    let mut root = session();
    root.in_flight_turns = 1;
    typed(&mut root, "queued");
    key(&mut root, KeyCode::Enter);
    told_draw(&mut root, 60, 12);

    key(&mut root, KeyCode::Tab);
    assert!(root.queue.focused());
    key(&mut root, KeyCode::Char('x'));
    assert!(root.composer.draft().is_empty());

    key(&mut root, KeyCode::Tab);
    assert!(!root.queue.focused());
    key(&mut root, KeyCode::Char('x'));

    assert_eq!(root.composer.draft(), "x");
}

#[test]
fn enter_in_an_empty_composer_steers_the_selected_queued_message() {
    let mut root = session();
    root.in_flight_turns = 1;
    queued(&mut root, "later");
    queued(&mut root, "steer now");

    let update = key(&mut root, KeyCode::Enter);

    assert!(matches!(
        update.effects.as_slice(),
        [RootEffect::Steer { prompt, .. }] if prompt.display_text() == "steer now"
    ));
    assert!(!root.queue.focused());
    assert!(root.composer.draft().is_empty());
}

#[test]
fn clicking_the_composer_returns_focus_to_it() {
    let mut root = session();
    root.in_flight_turns = 1;
    queued(&mut root, "queued");
    told_draw(&mut root, 60, 12);
    key(&mut root, KeyCode::Tab);
    assert!(root.queue.focused());

    mouse(&mut root, MouseKind::Down(MouseButton::Left), 10, 9);
    let update = mouse(&mut root, MouseKind::Up(MouseButton::Left), 10, 9);

    assert!(!root.queue.focused());
    assert_eq!(update.render, RenderRequest::Immediate);
}

#[test]
fn active_turn_submissions_can_grow_the_queue_without_restoring_the_draft() {
    let mut root = session();
    root.in_flight_turns = 1;
    for prompt in ["one", "two", "three", "four", "five"] {
        typed(&mut root, prompt);
        let update = key(&mut root, KeyCode::Enter);
        assert!(update.effects.is_empty());
    }

    assert_eq!(root.queue.len(), 5);
    assert!(root.composer.draft().is_empty());
    assert!(!root.queue.focused());
    assert!(root.notification.is_none());

    told_draw(&mut root, 100, 20);
    assert_eq!(root.queue_area.width, 95);
    assert_eq!(root.queue_area.bottom(), root.composer_area.y);
}

#[test]
fn shell_commands_bypass_the_agent_message_queue() {
    let mut root = session();
    root.in_flight_turns = 1;
    tell(&mut root, RootEvent::ReplaceDraft("!pwd".to_owned()));

    let update = key(&mut root, KeyCode::Enter);

    assert!(matches!(
        update.effects.as_slice(),
        [RootEffect::RunShell(command)] if command == "pwd"
    ));
    assert!(root.queue.is_empty());
    assert_eq!(root.in_flight_turns, 1);
}

#[test]
fn finished_turns_batch_ready_queued_messages_in_order() {
    let mut root = session();
    root.in_flight_turns = 1;
    queued(&mut root, "first");
    queued(&mut root, "second");

    let update = tell(&mut root, RootEvent::WorkerTurnFinished);
    assert_eq!(submitted(&update), "first\n\nsecond");
    assert_eq!(root.in_flight_turns, 1);
    assert!(root.queue.is_empty());
}

#[test]
fn editing_removes_a_message_until_the_editor_returns() {
    let mut root = session();
    root.in_flight_turns = 1;
    queued(&mut root, "original");
    root.queue.set_focused(true);

    let edit = key(&mut root, KeyCode::Char('e'));
    assert!(matches!(
        edit.effects.as_slice(),
        [RootEffect::OpenQueueEditor { index: 0, text }] if text == "original"
    ));
    assert!(root.queue.is_empty());

    tell(
        &mut root,
        RootEvent::RestoreQueued {
            index: 0,
            text: "edited".to_owned(),
        },
    );
    assert_eq!(root.queue.len(), 1);
}

#[test]
fn steer_completion_race_does_not_release_another_queued_message() {
    let mut root = session();
    root.in_flight_turns = 1;
    queued(&mut root, "later");
    queued(&mut root, "steer now");
    root.queue.set_focused(true);

    let id = steered(&key(&mut root, KeyCode::Enter));
    let finished = tell(&mut root, RootEvent::WorkerTurnFinished);
    assert!(finished.effects.is_empty());
    assert_eq!(root.queue.len(), 2);

    tell(&mut root, RootEvent::SteerPromoted(id));
    let promoted_finished = tell(&mut root, RootEvent::WorkerTurnFinished);
    assert_eq!(submitted(&promoted_finished), "later");
}

#[test]
fn interrupt_drains_a_pending_steer_before_regular_queue_items() {
    let mut root = session();
    root.in_flight_turns = 1;
    queued(&mut root, "regular");
    queued(&mut root, "priority steer");
    root.queue.set_focused(true);
    key(&mut root, KeyCode::Enter);
    root.queue.set_focused(false);

    key(&mut root, KeyCode::Esc);
    let interrupt = key(&mut root, KeyCode::Esc);
    assert!(matches!(
        interrupt.effects.as_slice(),
        [RootEffect::CancelTurns]
    ));

    tell(&mut root, RootEvent::TurnsCancelled);
    let finished = tell(&mut root, RootEvent::WorkerTurnFinished);
    assert_eq!(submitted(&finished), "priority steer\n\nregular");
}

#[test]
fn applied_steer_after_interrupt_ack_is_not_submitted_again() {
    let mut root = session();
    root.in_flight_turns = 1;
    queued(&mut root, "later");
    queued(&mut root, "priority steer");
    root.queue.set_focused(true);
    let id = steered(&key(&mut root, KeyCode::Enter));
    tell(&mut root, RootEvent::SteerAdmitted(id));

    tell(&mut root, RootEvent::TurnsCancelled);
    let applied = run_steered(&mut root);
    let finished = tell(&mut root, RootEvent::WorkerTurnFinished);

    assert_eq!(persisted(&applied), "priority steer");
    assert_eq!(submitted(&finished), "later");
}

#[test]
fn steer_stays_queued_until_the_model_boundary_event() {
    let mut root = session();
    root.in_flight_turns = 1;
    queued(&mut root, "steer");
    root.queue.set_focused(true);
    let id = steered(&key(&mut root, KeyCode::Enter));

    let admitted = tell(&mut root, RootEvent::SteerAdmitted(id));
    assert!(admitted.effects.is_empty());
    assert_eq!(root.queue.len(), 1);

    let applied = run_steered(&mut root);
    assert_eq!(persisted(&applied), "steer");
    assert!(root.queue.is_empty());
}

#[test]
fn model_boundary_before_worker_ack_is_reconciled_once() {
    let mut root = session();
    root.in_flight_turns = 1;
    queued(&mut root, "steer");
    root.queue.set_focused(true);
    let id = steered(&key(&mut root, KeyCode::Enter));

    let early_boundary = run_steered(&mut root);
    assert!(early_boundary.effects.is_empty());
    assert_eq!(root.queue.len(), 1);

    let admitted = tell(&mut root, RootEvent::SteerAdmitted(id));
    assert_eq!(persisted(&admitted), "steer");
    assert!(root.queue.is_empty());
}

#[test]
fn displaced_release_over_the_composer_copies_without_drag_events() {
    let mut root = session();
    typed(&mut root, "copy me");
    told_draw(&mut root, 40, 12);

    mouse(&mut root, MouseKind::Down(MouseButton::Left), 1, 8);
    told_draw(&mut root, 40, 12);
    let update = mouse(&mut root, MouseKind::Up(MouseButton::Left), 7, 8);

    assert!(matches!(
        update.effects.as_slice(),
        [RootEffect::Copy(text)] if text == "copy me"
    ));
    assert_eq!(update.render, RenderRequest::Immediate);
    assert!(!root.selection.is_active());
    assert!(root.notification.is_none());
    assert_eq!(root.composer.draft(), "copy me");
    tell(
        &mut root,
        RootEvent::NotifySuccess("Copied selection to clipboard.".to_owned()),
    );
    let screen = told_draw(&mut root, 40, 12);
    assert!(screen.text().contains("Copied selection to clipboard."));
    let left = (40 - ("Copied selection to clipboard.".len() as u16 + 4)) / 2;
    assert_eq!(screen.symbol(left, 0), "╭");
    assert_eq!(screen.buffer[(left, 0)].fg, Color::Green);
    assert!(screen.buffer[(left + 2, 1)]
        .modifier
        .contains(Modifier::BOLD));

    let deadline = root.notification.as_ref().unwrap().deadline;
    root.update(
        RootEvent::AnimationFrame(still()),
        deadline,
    );
    assert!(root.notification.is_none());
}

#[test]
fn update_available_uses_the_success_frame_and_styles_version_and_command() {
    let mut root = session();
    let message = "Update available · v1.2.3 · run `tact update`";

    tell(&mut root, RootEvent::UpdateAvailable(Version::new(1, 2, 3).to_string()));
    let screen = told_draw(&mut root, 80, 12);

    let buffer = &screen.buffer;
    let message_width = message.width() as u16;
    let left = (80 - (message_width + 4)) / 2;
    let text_start = left + 2;
    let prefix_width = "Update available · ".width() as u16;
    let version_width = "v1.2.3".width() as u16;
    let suffix_width = " · run ".width() as u16;
    let version_start = text_start + prefix_width;
    let command_start = version_start + version_width + suffix_width;

    assert_eq!(buffer[(left, 0)].symbol(), "╭");
    assert_eq!(buffer[(left, 0)].fg, Color::Green);
    for column in text_start..version_start {
        assert_eq!(buffer[(column, 1)].fg, Color::Green);
        assert!(!buffer[(column, 1)].modifier.contains(Modifier::BOLD));
    }
    for column in version_start..version_start + version_width {
        assert_eq!(buffer[(column, 1)].fg, Color::Green);
        assert!(buffer[(column, 1)].modifier.contains(Modifier::BOLD));
    }
    for column in version_start + version_width..command_start {
        assert_eq!(buffer[(column, 1)].fg, Color::Green);
        assert!(!buffer[(column, 1)].modifier.contains(Modifier::BOLD));
    }
    for column in command_start..text_start + message_width {
        assert_eq!(buffer[(column, 1)].fg, Color::Reset);
        assert!(!buffer[(column, 1)].modifier.contains(Modifier::BOLD));
    }
    assert!(screen.text().contains(message));

    let deadline = root.notification.as_ref().unwrap().deadline;
    assert_eq!(deadline, BREADCRUMB_DURATION_MS);
    root.update(
        RootEvent::AnimationFrame(still()),
        deadline,
    );
    assert!(root.notification.is_none());
}

#[test]
fn dragging_over_the_transcript_copies_visible_text() {
    let mut root = session();
    record(&mut root, &[Told::User("hello transcript".to_owned())]);
    let screen = told_draw(&mut root, 40, 12);
    let row = (0..7).find(|&row| screen.symbol(0, row) == "┃").unwrap();

    mouse(&mut root, MouseKind::Down(MouseButton::Left), 2, row);
    told_draw(&mut root, 40, 12);
    mouse(&mut root, MouseKind::Drag(MouseButton::Left), 6, row);
    told_draw(&mut root, 40, 12);
    let update = mouse(&mut root, MouseKind::Up(MouseButton::Left), 6, row);

    assert!(matches!(
        update.effects.as_slice(),
        [RootEffect::Copy(text)] if text == "hello"
    ));
    assert!(!root.selection.is_active());
}

#[test]
fn escape_chord_expires_and_unrelated_input_resets_it() {
    let mut root = session();
    let now = 10_000;

    assert!(root.update_escape_chord(now).effects.is_empty());
    assert!(root.update_escape_chord(now + 501).effects.is_empty());
    key(&mut root, KeyCode::Char('x'));
    assert!(key(&mut root, KeyCode::Esc).effects.is_empty());
}

#[test]
fn the_directory_is_shown_from_the_home_directory_on() {
    let home = Some("/home/me".to_owned());
    let mut root = RootNode::new("/home/me/src".to_owned(), home, ReasoningEffort::Medium, 0);
    assert!(told_draw(&mut root, 60, 12).text().contains(" ~/src "));
    root.reset_session("/home/me".to_owned(), ReasoningEffort::Low, 0);
    assert_eq!(root.composer.workspace, "~");
    assert_eq!(root.workspace, "/home/me");
    root.reset_session("/work".to_owned(), ReasoningEffort::Low, 0);
    assert_eq!(root.composer.workspace, "/work");
}

#[test]
fn the_composers_highlights_wake_the_session() {
    let mut root = session();
    let soon = Frames {
        activity: Some(0),
        subagents: Some(0),
        ..no_frames()
    };
    assert_ne!(root.animation_deadline(soon), Some(0));
    root.composer.update(ComposerEvent::ActiveSubagents { count: 1 });
    assert_eq!(root.animation_deadline(soon), Some(0));
}

#[test]
fn the_effort_selector_and_the_queue_are_heard_on_a_frame() {
    let mut root = session();
    let shining = Waves {
        effort: RenderRequest::Streaming,
        ..still()
    };
    let soon = Frames {
        effort: Some(0),
        ..no_frames()
    };
    let frame = |root: &mut RootNode, waves| root.update(RootEvent::AnimationFrame(waves), 0).render;
    assert_eq!(frame(&mut root, shining), RenderRequest::Idle);
    assert_ne!(root.animation_deadline(soon), Some(0));
    let queued = Waves {
        queue: RenderRequest::Streaming,
        ..still()
    };
    assert_eq!(frame(&mut root, queued), RenderRequest::Streaming);
    let queue_soon = Frames {
        queue: Some(0),
        ..no_frames()
    };
    assert_eq!(root.animation_deadline(queue_soon), Some(0));

    key(&mut root, KeyCode::Char('/'));
    typed(&mut root, "effort");
    key(&mut root, KeyCode::Enter);
    assert_eq!(frame(&mut root, shining), RenderRequest::Streaming);
    assert_eq!(root.animation_deadline(soon), Some(0));
}

#[test]
fn effort_action_opens_the_selector_and_applies_the_selection() {
    let mut root = session();
    key(&mut root, KeyCode::Char('/'));

    typed(&mut root, "effort");

    key(&mut root, KeyCode::Enter);
    assert!(matches!(&root.overlay, Some(Overlay::Effort(_))));

    key(&mut root, KeyCode::Right);
    assert!(root.animation_deadline(no_frames()).is_some());
    let update = key(&mut root, KeyCode::Enter);

    assert!(matches!(
        update.effects.as_slice(),
        [RootEffect::SetEffort(ReasoningEffort::High)]
    ));
    assert_eq!(root.composer.effort(), ReasoningEffort::High);
    assert!(root.overlay.is_none());

    let screen = told_draw(&mut root, 80, 20);
    let plasma = screen
        .buffer
        .content()
        .chunks(80)
        .take(15)
        .flatten()
        .filter(|cell| cell.symbol() != " ")
        .collect::<Vec<_>>();
    assert!(!plasma.is_empty());
    assert!(plasma
        .iter()
        .all(|cell| matches!(cell.fg, Color::Yellow) || cell.fg == color(Tone::CodeText)));
}

#[test]
fn fast_mode_action_toggles_the_runtime_setting() {
    let mut root = session();
    key(&mut root, KeyCode::Char('/'));
    typed(&mut root, "fast mode");

    let enabled = key(&mut root, KeyCode::Enter);

    assert!(matches!(
        enabled.effects.as_slice(),
        [RootEffect::SetFastMode(true)]
    ));
    assert!(root.composer.fast_mode());
    assert!(root.overlay.is_none());

    key(&mut root, KeyCode::Char('/'));
    typed(&mut root, "priority");
    let disabled = key(&mut root, KeyCode::Enter);

    assert!(matches!(
        disabled.effects.as_slice(),
        [RootEffect::SetFastMode(false)]
    ));
    assert!(!root.composer.fast_mode());
}

#[test]
fn theme_action_opens_the_selector_and_applies_the_selection() {
    let mut root = session();
    key(&mut root, KeyCode::Char('/'));
    typed(&mut root, "appearance");

    key(&mut root, KeyCode::Enter);
    assert!(matches!(&root.overlay, Some(Overlay::Theme(_))));

    key(&mut root, KeyCode::Down);
    let update = key(&mut root, KeyCode::Enter);

    assert!(matches!(
        update.effects.as_slice(),
        [RootEffect::SetTheme(ThemeMode::Light)]
    ));
    assert!(root.overlay.is_none());
}

#[test]
fn control_s_opens_effort_for_new_and_started_threads() {
    let mut root = session();

    let opened = control(&mut root, 's');
    assert!(matches!(&root.overlay, Some(Overlay::Effort(_))));
    assert_eq!(opened.render, RenderRequest::Immediate);

    key(&mut root, KeyCode::Esc);
    root.thread = ThreadState::Started;
    let reopened = control(&mut root, 's');
    assert!(matches!(&root.overlay, Some(Overlay::Effort(_))));
    assert_eq!(reopened.render, RenderRequest::Immediate);
}

#[test]
fn control_o_toggles_transcript_expansion_globally() {
    let mut root = session();

    let expanded = control(&mut root, 'o');
    let collapsed = control(&mut root, 'o');

    assert_eq!(expanded.render, RenderRequest::Immediate);
    assert_eq!(collapsed.render, RenderRequest::Immediate);
    assert!(root.composer.draft().is_empty());
}

#[test]
fn control_o_does_not_change_the_hidden_transcript_behind_an_overlay() {
    let mut root = session();
    key(&mut root, KeyCode::Char('/'));

    let update = control(&mut root, 'o');

    assert_eq!(update.render, RenderRequest::Idle);
    assert!(matches!(root.overlay, Some(Overlay::Actions(_))));
}

#[test]
fn escape_that_blurs_tools_does_not_start_the_interrupt_chord() {
    let mut root = session();
    root.transcript.tools_focused = true;

    let blurred = key(&mut root, KeyCode::Esc);

    assert!(blurred.effects.is_empty());
    assert!(!root.transcript.tools_focused());
    assert!(root.escape_deadline.is_none());

    let chord_started = key(&mut root, KeyCode::Esc);
    assert!(chord_started.effects.is_empty());
    assert!(root.escape_deadline.is_some());
}

#[test]
fn keybindings_action_opens_help_and_escape_closes_it() {
    let mut root = session();
    key(&mut root, KeyCode::Char('/'));
    typed(&mut root, "keyboard");

    key(&mut root, KeyCode::Enter);
    assert!(matches!(&root.overlay, Some(Overlay::Keybindings(_))));

    key(&mut root, KeyCode::Esc);
    assert!(root.overlay.is_none());
}

#[test]
fn resize_redraws_while_keybindings_help_is_open() {
    let mut root = session();
    key(&mut root, KeyCode::Char('/'));
    typed(&mut root, "keyboard");
    key(&mut root, KeyCode::Enter);

    let update = terminal(&mut root, Event::Resize(100, 30));

    assert_eq!(update.render, RenderRequest::Immediate);
}

#[test]
fn config_action_closes_the_menu_and_requests_the_external_editor() {
    let mut root = session();
    key(&mut root, KeyCode::Char('/'));
    typed(&mut root, "edit config");

    let update = key(&mut root, KeyCode::Enter);

    assert!(root.overlay.is_none());
    assert!(matches!(
        update.effects.as_slice(),
        [RootEffect::OpenConfigEditor]
    ));
    assert_eq!(update.render, RenderRequest::Immediate);
}

#[test]
fn reload_config_action_closes_the_menu_and_requests_a_reload() {
    let mut root = session();
    key(&mut root, KeyCode::Char('/'));
    typed(&mut root, "refresh");

    let update = key(&mut root, KeyCode::Enter);

    assert!(root.overlay.is_none());
    assert!(matches!(
        update.effects.as_slice(),
        [RootEffect::ReloadConfig]
    ));
    assert_eq!(update.render, RenderRequest::Immediate);
}

#[test]
fn new_session_action_clears_the_completed_thread_after_runtime_replacement() {
    let mut root = session();
    typed(&mut root, "old prompt");
    key(&mut root, KeyCode::Enter);
    tell(&mut root, RootEvent::WorkerTurnFinished);
    key(&mut root, KeyCode::Char('/'));
    typed(&mut root, "clear");

    let requested = key(&mut root, KeyCode::Enter);

    assert!(matches!(
        requested.effects.as_slice(),
        [RootEffect::NewSession]
    ));
    assert!(root.overlay.is_none());
    assert!(!root.interactive);

    root.reset_session("/work".to_owned(), ReasoningEffort::Medium, 0);

    assert!(root.interactive);
    assert!(matches!(root.thread, ThreadState::New));
    assert!(root.composer.draft().is_empty());
    assert_eq!(root.in_flight_turns, 0);
}

#[test]
fn new_session_action_is_unavailable_while_work_is_active() {
    let mut root = session();
    typed(&mut root, "active prompt");
    key(&mut root, KeyCode::Enter);
    key(&mut root, KeyCode::Char('/'));
    typed(&mut root, "clear");

    let update = key(&mut root, KeyCode::Enter);

    assert!(update.effects.is_empty());
    assert!(matches!(&root.overlay, Some(Overlay::Actions(_))));
}

#[test]
fn effort_action_remains_available_after_the_first_prompt() {
    let mut root = session();
    typed(&mut root, "hi");

    let update = key(&mut root, KeyCode::Enter);
    assert_eq!(submitted(&update), "hi");

    key(&mut root, KeyCode::Char('/'));
    typed(&mut root, "effort");
    let update = key(&mut root, KeyCode::Enter);

    assert!(update.effects.is_empty());
    assert!(matches!(&root.overlay, Some(Overlay::Effort(_))));
}

#[test]
fn escape_twice_within_the_chord_interrupts() {
    let mut root = session();
    assert!(root.update_escape_chord(1_000).effects.is_empty());
    assert_eq!(root.escape_deadline, Some(1_000 + ESCAPE_CHORD_TIMEOUT_MS));
    let second = root.update_escape_chord(1_000 + ESCAPE_CHORD_TIMEOUT_MS);
    assert!(matches!(
        second.effects.as_slice(),
        [RootEffect::CancelTurns]
    ));
}

#[test]
fn a_waiting_session_takes_no_input() {
    let mut root = session();
    root.interactive = false;
    typed(&mut root, "abc");
    assert!(root.composer.draft().is_empty());
}

#[test]
fn reset_sessions_keep_their_settings() {
    let mut root = session();
    root.set_fork_available(false);
    root.set_theme_mode(ThemeMode::Dark);
    root.set_fast_mode(true);
    root.set_max_subagents(3);
    root.reset_session("/other".to_owned(), ReasoningEffort::High, 5);

    assert_eq!(root.theme_mode, ThemeMode::Dark);
    assert_eq!(root.subagents.max_subagents(), 3);
    assert!(!root.fork_available);
    assert_eq!(root.workspace, "/other");
    assert_eq!(root.composer.effort(), ReasoningEffort::High);
}

#[test]
fn the_subagent_limit_is_changed_in_the_tree() {
    let mut root = session();
    root.overlay = Some(Overlay::Subagents(SubagentOverlay::Tree));

    let update = root.update_overlay(Event::Key(KeyEvent::new(
        KeyCode::Char('+'),
        Modifiers::none(),
    )));

    assert!(matches!(
        update.effects.as_slice(),
        [RootEffect::SetMaxSubagents(33)]
    ));
    assert_eq!(root.subagents.max_subagents(), 33);
    assert!(root.overlay.is_some());
}

#[test]
fn failures_are_announced_until_their_deadline() {
    let mut root = session();
    root.update(RootEvent::SessionLoadFailed("no list".to_owned()), 7);
    let notice = root.notification.as_ref().unwrap();
    assert_eq!(notice.color, Tone::Red);
    assert_eq!(notice.deadline, 7 + BREADCRUMB_DURATION_MS);
    assert!(told_draw(&mut root, 60, 12).text().contains("no list"));
}

fn summary(id: &str) -> SessionSummary {
    SessionSummary {
        session_id: id.to_owned(),
        started_at_unix_ms: 1,
        model: "gpt".to_owned(),
        effort: ReasoningEffort::Medium,
        reasoning_mode: ReasoningMode::Standard,
        workspace: "/work".to_owned(),
        preview: "fix parser".to_owned(),
    }
}

#[test]
fn a_listed_session_can_be_resumed() {
    let mut root = session();
    key(&mut root, KeyCode::Char('/'));
    typed(&mut root, "restore");
    let asked = key(&mut root, KeyCode::Enter);
    assert!(matches!(
        asked.effects.as_slice(),
        [RootEffect::LoadSessions]
    ));

    tell(&mut root, RootEvent::SessionsLoaded(vec![summary("old")]));
    assert!(matches!(root.overlay, Some(Overlay::Sessions(_))));
    assert!(told_draw(&mut root, 90, 24).text().contains("fix parser"));
    let chosen = key(&mut root, KeyCode::Enter);
    assert!(matches!(
        chosen.effects.as_slice(),
        [RootEffect::ResumeSession(id)] if id == "old"
    ));

    tell(
        &mut root,
        RootEvent::SessionRestored {
            records: vec![RestoredRecord {
                record: written("agent", "api.event", &completed(136_000)),
                change: told_change(&users(1), None),
            }],
            effort: ReasoningEffort::Max,
            fast_mode: true,
        },
    );
    assert_eq!(root.composer.effort(), ReasoningEffort::Max);
    assert_eq!(root.composer.context_tokens(), 136_000);
    assert!(told_draw(&mut root, 60, 20).text().contains("old prompt 1"));
}

#[test]
fn effort_and_theme_selectors_apply_what_is_chosen() {
    let press = |code| Event::Key(KeyEvent::new(code, Modifiers::none()));
    let mut effort = EffortSelector::new(ReasoningEffort::Low);
    effort.update(&press(KeyCode::Right));
    assert_eq!(
        effort.update(&press(KeyCode::Enter)).effects,
        [EffortEffect::Apply(ReasoningEffort::Medium)]
    );
    assert_eq!(
        effort.update(&press(KeyCode::Esc)).effects,
        [EffortEffect::Dismiss]
    );

    let mut theme = ThemeSelector::new(ThemeMode::Auto);
    theme.update(&press(KeyCode::Down));
    assert_eq!(
        theme.update(&press(KeyCode::Enter)).effects,
        [ThemeSelectorEffect::Apply(ThemeMode::Light)]
    );
}

fn place(x: u16, y: u16) -> Position {
    Position { x, y }
}

fn area_of(width: u16, height: u16) -> Rect {
    whole(width, height)
}

#[test]
fn selection_extracts_forward_and_reverse_visual_ranges() {
    for (anchor, head) in [
        (place(1, 0), place(2, 1)),
        (place(2, 1), place(1, 0)),
    ] {
        let area = area_of(5, 2);
        let mut screen = Screen::new(5, 2);
        screen.buffer.set_string(0, 0, "alpha", Style::default());
        screen.buffer.set_string(0, 1, "beta ", Style::default());
        let mut selection = Selection::new();
        selection.begin(Surface::Transcript, anchor);
        selection.drag(head, area);
        selection.capture_and_render(area, &screen.cells(area));

        assert_eq!(selection.take_text().as_deref(), Some("lpha\nbet"));
    }
}

#[test]
fn pending_click_does_not_create_copyable_text() {
    let mut selection = Selection::new();
    selection.begin(Surface::Composer, place(1, 1));

    assert!(selection.is_pending());
    assert!(!selection.finish(place(1, 1), area_of(3, 3)));
    assert!(selection.take_text().is_none());
}

#[test]
fn displaced_release_finishes_without_a_drag_event() {
    let area = area_of(7, 1);
    let mut screen = Screen::new(7, 1);
    screen.buffer.set_string(0, 0, "copy me", Style::default());
    let mut selection = Selection::new();
    selection.begin(Surface::Composer, place(0, 0));
    selection.capture_and_render(area, &screen.cells(area));

    assert!(selection.finish(place(6, 0), area));
    assert_eq!(selection.take_text().as_deref(), Some("copy me"));
}

#[test]
fn wide_graphemes_do_not_add_continuation_spaces() {
    let area = area_of(4, 1);
    let mut screen = Screen::new(4, 1);
    screen.buffer.set_string(0, 0, "a界b", Style::default());
    let mut selection = Selection::new();
    selection.begin(Surface::Composer, place(0, 0));
    selection.drag(place(3, 0), area);
    selection.capture_and_render(area, &screen.cells(area));

    assert_eq!(selection.take_text().as_deref(), Some("a界b"));
}

#[test]
fn selection_is_always_black_on_yellow() {
    let area = area_of(4, 1);
    let mut screen = Screen::new(4, 1);
    screen.buffer.set_string(
        0,
        0,
        "text",
        Style::default()
            .fg(Color::Red)
            .bg(Color::Blue)
            .add_modifier(Modifier::BOLD),
    );
    let mut selection = Selection::new();
    selection.begin(Surface::Transcript, place(1, 0));
    selection.drag(place(2, 0), area);

    let rows = selection.capture_and_render(area, &screen.cells(area));
    assert_eq!(
        rows,
        [SelectedRow {
            y: 0,
            start: 1,
            end: 2
        }]
    );
    for row in rows {
        screen.select(row);
    }

    for x in 1..=2 {
        assert_eq!(screen.buffer[(x, 0)].fg, Color::Black);
        assert_eq!(screen.buffer[(x, 0)].bg, Color::Yellow);
        assert!(screen.buffer[(x, 0)].modifier.is_empty());
    }
}
