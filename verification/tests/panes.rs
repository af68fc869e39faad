//! The program's panes and its subagents.

#![allow(dead_code)]

use ratatui::buffer::Buffer;
use ratatui::layout::{Alignment, Rect as Area};
use ratatui::style::{Color, Modifier, Style};
use ratatui::text::{Line, Span};
use ratatui::widgets::{
    Block, BorderType, Borders, Clear, List, ListItem, ListState, Paragraph, StatefulWidget, Widget,
    Wrap,
};
use tact_tui::draw::{Look, Paint, Tone, Words};
use tact_tui::settings::Model;
use semver::Version;
use serde_json::Value;
use tact_tui::entry::{EntryKind, Materials, TranscriptEntry};
use tact_tui::event::{Event, KeyCode, KeyEvent, Modifiers, MouseButton, MouseEvent, MouseKind};
use tact_tui::geometry::Rect;
use tact_tui::json::{Document, Field, Json, Number};
use tact_tui::node::{ComponentUpdate, RenderRequest};
use tact_tui::panes::{merge_updates, AppEffect, AppEvent, AppNode, SPLIT_HINT};
use tact_tui::panes_view::{split_area, split_hint_visible};
use tact_tui::record::{TranscriptRecord, SCHEMA_VERSION};
use tact_tui::root::{Frames, RootEffect, RootEvent, RootNode, Waves};
use tact_tui::settings::{PaneId, ReasoningEffort, ThemeMode};
use tact_tui::subagents::{
    truncate_with_ellipsis, unix_time_ms, AgentDescriptor, AgentOrigin, AgentStatus, AgentUpdate,
    transcript_width, SubagentEffect, SubagentTree,
};
use tact_tui::theme::{ColorScheme, Theme};
use tact_tui::tool::{ToolEntry, ToolState};
use tact_tui::transcript::{Change, Content, Transcript, TransientStatus};

/// A terminal that drawing commands are carried out on.
struct Screen {
    buffer: Buffer,
    cursor: Option<(u16, u16)>,
}

fn color(tone: Tone) -> Color {
    match tone {
        Tone::Plain | Tone::Text => Color::Reset,
        Tone::Muted | Tone::Border | Tone::DarkGray => Color::DarkGray,
        Tone::Accent | Tone::Cyan => Color::Cyan,
        Tone::CodeText => Color::White,
        Tone::CodeBackground => Color::Rgb(0x26, 0x26, 0x26),
        Tone::Effort(_) => Color::LightBlue,
        Tone::Model(Model::Luna) => Color::White,
        Tone::Model(Model::Terra) => Color::Green,
        Tone::Model(Model::Sol) => Color::Yellow,
        Tone::Yellow => Color::Yellow,
        Tone::Blue => Color::Blue,
        Tone::Green => Color::Green,
        Tone::Red => Color::Red,
        Tone::Magenta => Color::Magenta,
        Tone::Black => Color::Black,
    }
}

fn style(look: Look) -> Style {
    let mut style = Style::default();
    if look.tone != Tone::Plain {
        style = style.fg(color(look.tone));
    }
    if look.ground != Tone::Plain {
        style = style.bg(color(look.ground));
    }
    if look.bold {
        style = style.add_modifier(Modifier::BOLD);
    }
    if look.dim {
        style = style.add_modifier(Modifier::DIM);
    }
    if look.italic {
        style = style.add_modifier(Modifier::ITALIC);
    }
    style
}

fn line(words: &[Words]) -> Line<'static> {
    Line::from(
        words
            .iter()
            .map(|part| Span::styled(part.text.clone(), style(part.look)))
            .collect::<Vec<_>>(),
    )
}

fn rows(item: &[Vec<Words>]) -> Vec<Line<'static>> {
    item.iter().map(|row| line(row)).collect()
}

impl Screen {
    fn new(width: u16, height: u16) -> Self {
        Screen {
            buffer: Buffer::empty(Area::new(0, 0, width, height)),
            cursor: None,
        }
    }

    fn clip(&self, area: Rect) -> Area {
        Area::new(area.x, area.y, area.width, area.height).intersection(self.buffer.area)
    }

    fn list(
        &mut self,
        area: Area,
        items: &[Vec<Vec<Words>>],
        selected: Option<usize>,
        symbol: &str,
        highlight: Style,
        cursor: bool,
    ) {
        let list = List::new(items.iter().map(|item| ListItem::new(rows(item))))
            .highlight_symbol(Line::from(symbol.to_owned()))
            .highlight_style(highlight);
        let mut state = ListState::default().with_selected(selected);
        StatefulWidget::render(list, area, &mut self.buffer, &mut state);
        if let (true, Some(selected)) = (cursor, selected) {
            let above: usize = items[state.offset()..selected]
                .iter()
                .map(|item| item.len())
                .sum();
            let row = area.y + u16::try_from(above).unwrap();
            self.cursor = Some((area.x, row.min(area.bottom() - 1)));
        }
    }

    fn draw(&mut self, paints: &[Paint]) {
        for paint in paints {
            match paint {
                Paint::Clear { area } => Clear.render(self.clip(*area), &mut self.buffer),
                Paint::Border {
                    area,
                    title,
                    border,
                    title_tone,
                } => {
                    let mut block = Block::new()
                        .borders(Borders::ALL)
                        .border_type(BorderType::Rounded)
                        .border_style(Style::default().fg(color(*border)));
                    if !title.is_empty() {
                        block = block
                            .title(title.clone())
                            .title_alignment(Alignment::Center)
                            .title_style(
                                Style::default()
                                    .fg(color(*title_tone))
                                    .add_modifier(Modifier::BOLD),
                            );
                    }
                    block.render(self.clip(*area), &mut self.buffer);
                }
                Paint::Rule { area, title } => Block::new()
                    .borders(Borders::TOP)
                    .title(title.clone())
                    .border_style(Style::default().fg(color(Tone::Border)))
                    .title_style(Style::default().fg(color(Tone::Muted)))
                    .render(self.clip(*area), &mut self.buffer),
                Paint::Line {
                    area,
                    line: words,
                    centered,
                } => Paragraph::new(line(words))
                    .alignment(if *centered {
                        Alignment::Center
                    } else {
                        Alignment::Left
                    })
                    .render(self.clip(*area), &mut self.buffer),
                Paint::Wrapped { area, message } => Paragraph::new(line(message))
                    .centered()
                    .wrap(Wrap { trim: true })
                    .render(self.clip(*area), &mut self.buffer),
                Paint::Paragraph {
                    area,
                    text,
                    look,
                    scroll,
                } => Paragraph::new(text.clone())
                    .style(style(*look))
                    .wrap(Wrap { trim: false })
                    .scroll((*scroll, 0))
                    .render(self.clip(*area), &mut self.buffer),
                Paint::List {
                    area,
                    items,
                    selected,
                    marker,
                    highlight,
                    cursor,
                } => {
                    let area = self.clip(*area);
                    let symbol = if *marker { "› " } else { "  " };
                    let highlight = highlight.map(style).unwrap_or_default();
                    self.list(area, items, *selected, symbol, highlight, *cursor);
                }
                Paint::Tree {
                    area,
                    items,
                    row,
                    look,
                } => {
                    let area = self.clip(*area);
                    self.list(area, items, Some(*row), "  ", style(*look), false);
                }
                Paint::Fill { area, look } => {
                    let area = self.clip(*area);
                    self.buffer.set_style(area, style(*look));
                }
                Paint::Symbol { x, y, symbol, look } => {
                    if let Some(cell) = self.buffer.cell_mut((*x, *y)) {
                        cell.set_char(*symbol).set_style(style(*look));
                    }
                }
                Paint::Text {
                    x,
                    y,
                    text,
                    limit,
                    look,
                } => {
                    if self.buffer.area.contains((*x, *y).into()) {
                        self.buffer.set_stringn(*x, *y, text, *limit, style(*look));
                    }
                }
                Paint::Wave {
                    x,
                    y,
                    text,
                    end,
                    tone,
                } => {
                    let limit = usize::from(end.saturating_sub(*x));
                    let style = Style::default().fg(color(*tone));
                    self.buffer.set_stringn(*x, *y, text, limit, style);
                }
                Paint::Artwork { area, model, frame } => {
                    let area = self.clip(*area);
                    let symbol = if frame % 2 == 0 { "*" } else { "+" };
                    for position in area.positions() {
                        self.buffer[position]
                            .set_symbol(symbol)
                            .set_fg(color(Tone::Model(*model)));
                    }
                }
                Paint::Cursor { position } => self.cursor = Some((position.x, position.y)),
            }
        }
    }

    fn symbol(&self, x: u16, y: u16) -> &str {
        self.buffer[(x, y)].symbol()
    }

    fn row(&self, y: u16) -> String {
        (0..self.buffer.area.width)
            .map(|x| self.buffer[(x, y)].symbol())
            .collect()
    }

    fn segment(&self, y: u16, x: u16, width: u16) -> String {
        (x..x + width)
            .map(|column| self.buffer[(column, y)].symbol())
            .collect()
    }

    fn rows(&self) -> Vec<String> {
        (0..self.buffer.area.height).map(|y| self.row(y)).collect()
    }

    fn text(&self) -> String {
        self.rows().concat()
    }
}

fn whole(width: u16, height: u16) -> Rect {
    Rect {
        x: 0,
        y: 0,
        width,
        height,
    }
}

fn json_value(value: &Value) -> Json {
    match value {
        Value::Null => Json::Null,
        Value::Bool(truth) => Json::Truth(*truth),
        Value::Number(number) => Json::Number(Number {
            text: number.to_string(),
            signed: number.as_i64(),
            unsigned: number.as_u64(),
            thousandths: number.as_f64().map(|score| format!("{score:.3}")),
        }),
        Value::String(text) => Json::Text(text.clone()),
        Value::Array(values) => Json::List(values.iter().map(json_value).collect()),
        Value::Object(fields) => Json::Object(
            fields
                .iter()
                .map(|(name, value)| Field {
                    name: name.clone(),
                    value: json_value(value),
                })
                .collect(),
        ),
    }
}

fn document(source: &str) -> Document {
    let value: Value = serde_json::from_str(source).unwrap();
    Document {
        value: json_value(&value),
        source: source.to_owned(),
    }
}

/// What a transcript is told of, in the order in which it came.
#[derive(Clone)]
enum Told {
    User(String),
    Assistant(String),
    Reasoning(String),
    Shell(Option<String>),
    Tool(String, String),
}

fn told_entry(index: usize, told: &Told) -> TranscriptEntry {
    let kind = match told {
        Told::User(text) => EntryKind::User { text: text.clone() },
        Told::Assistant(text) => EntryKind::Assistant { text: text.clone() },
        Told::Reasoning(text) => EntryKind::Reasoning { text: text.clone() },
        Told::Shell(output) => EntryKind::Tool(ToolEntry {
            name: "exec_command".to_owned(),
            arguments: document(r#"{"cmd": "cargo test", "workdir": "/work"}"#),
            state: if output.is_some() {
                ToolState::Succeeded
            } else {
                ToolState::Running
            },
            duration_ns: output.as_ref().map(|_| 1_200_000_000),
            result: output.as_ref().map(|output| {
                let text = Value::String(output.clone()).to_string();
                document(&format!(r#"{{"output": {text}, "exit_code": 0}}"#))
            }),
            substeps: Vec::new(),
        }),
        Told::Tool(name, arguments) => EntryKind::Tool(ToolEntry {
            name: name.clone(),
            arguments: document(arguments),
            state: ToolState::Running,
            duration_ns: None,
            result: None,
            substeps: Vec::new(),
        }),
    };
    TranscriptEntry {
        id: index as u64 + 1,
        revision: if matches!(told, Told::Shell(Some(_))) {
            2
        } else {
            1
        },
        hidden: false,
        kind,
    }
}

fn told_content(told: &[Told], status: Option<TransientStatus>) -> Content {
    Content {
        entries: told
            .iter()
            .enumerate()
            .map(|(index, told)| told_entry(index, told))
            .collect(),
        active: status.is_some(),
        status,
        running_tools: told
            .iter()
            .any(|told| matches!(told, Told::Shell(None) | Told::Tool(..))),
    }
}

fn told_change(told: &[Told], status: Option<TransientStatus>) -> Change {
    Change {
        content: told_content(told, status),
        changed: true,
        local: true,
        now: 0,
    }
}

fn no_materials() -> Materials {
    Materials {
        formatted: None,
        given: None,
        home: None,
    }
}

fn lay_out(transcript: &mut Transcript, width: u16) {
    let stale = transcript.stale_entries(width);
    let materials = stale.iter().map(|_| no_materials()).collect();
    transcript.lay_out_all(width, materials);
}

fn written(source: &str, kind: &str, payload: &str) -> TranscriptRecord {
    TranscriptRecord {
        schema_version: SCHEMA_VERSION,
        sequence: 1,
        recorded_at_unix_ms: 1,
        source: source.to_owned(),
        kind: kind.to_owned(),
        payload: document(payload),
    }
}

fn app() -> AppNode {
    let workspace = "/workspace".to_owned();
    let root = RootNode::new(workspace.clone(), None, ReasoningEffort::Low, 0);
    AppNode::new(Theme::new(), workspace, root)
}

fn terminal(app: &mut AppNode, event: Event) -> ComponentUpdate<AppEffect> {
    terminal_with(app, event, &[])
}

fn terminal_with(app: &mut AppNode, event: Event, told: &[Told]) -> ComponentUpdate<AppEffect> {
    let event = AppEvent::Terminal {
        event,
        files: Vec::new(),
        snapshot: told_content(told, None),
    };
    app.update(event, 0)
}

fn control(app: &mut AppNode, character: char) -> ComponentUpdate<AppEffect> {
    terminal(
        app,
        Event::Key(KeyEvent::new(
            KeyCode::Char(character),
            Modifiers::control(),
        )),
    )
}

fn press(app: &mut AppNode, code: KeyCode) -> ComponentUpdate<AppEffect> {
    terminal(app, Event::Key(KeyEvent::new(code, Modifiers::none())))
}

fn click(app: &mut AppNode, column: u16, row: u16) {
    terminal(
        app,
        Event::Mouse(MouseEvent {
            kind: MouseKind::Down(MouseButton::Left),
            column,
            row,
            modifiers: Modifiers::none(),
        }),
    );
}

fn draw(app: &mut AppNode, width: u16, height: u16) -> Screen {
    let area = whole(width, height);
    let split = split_area(area);
    let both = app.main.is_some() && app.fork.is_some();
    let main_place = if both { split.main_content } else { area };
    let fork_place = if both { split.fork_content } else { area };
    if let Some(root) = app.main.as_mut() {
        lay_out(&mut root.transcript, main_place.width);
    }
    if let Some(fork) = app.fork.as_mut() {
        lay_out(&mut fork.root.transcript, fork_place.width);
    }
    let frame = app.render(area, "gpt-5.6-sol", 0);
    let mut screen = Screen::new(width, height);
    screen.draw(&frame.main);
    if let Some(root) = &app.main {
        let mut paints = Vec::new();
        root.render_notice(main_place, &mut paints);
        screen.draw(&paints);
    }
    screen.draw(&frame.fork);
    screen.draw(&frame.frame);
    screen
}

#[test]
fn auto_theme_redraws_for_system_changes_but_explicit_modes_ignore_them() {
    let mut app = app();

    let update = app.update(AppEvent::SystemThemeChanged(ColorScheme::Light), 0);
    assert_eq!(update.render, RenderRequest::Immediate);
    assert_eq!(app.theme.code_background(), (0xEE, 0xEE, 0xEE));

    app.set_theme_mode(ThemeMode::Dark);
    let update = app.update(AppEvent::SystemThemeChanged(ColorScheme::Dark), 0);
    assert_eq!(update.render, RenderRequest::Idle);
    assert_eq!(app.theme.code_background(), (0x26, 0x26, 0x26));
}

#[test]
fn update_available_routes_to_the_primary_notification() {
    let mut app = app();

    let update = app.update(AppEvent::UpdateAvailable(Version::new(1, 2, 3).to_string()), 0);

    assert_eq!(update.render, RenderRequest::Immediate);
    assert!(draw(&mut app, 80, 12)
        .text()
        .contains("Update available · v1.2.3 · run `tact update`"));
}

#[test]
fn fork_immediately_renders_the_primary_transcript_in_both_panes() {
    let mut app = app();
    let told = [Told::User("inherited history".to_owned())];
    app.update(
        AppEvent::Transcript {
            pane: PaneId::Main,
            record: written("tact", "user.submitted", r#"{"text": "inherited history"}"#),
            change: told_change(&told, None),
        },
        0,
    );

    let event = Event::Key(KeyEvent::new(KeyCode::Char('f'), Modifiers::control()));
    let update = terminal_with(&mut app, event, &told);

    assert!(matches!(
        update.effects.as_slice(),
        [AppEffect::OpenFork(PaneId::Fork(1))]
    ));
    let rendered = draw(&mut app, 100, 20).text();
    assert_eq!(rendered.matches("inherited history").count(), 2);
    assert!(app.root(PaneId::Fork(1)).is_some());
}

#[test]
fn fork_inherits_the_primary_context_usage() {
    let mut app = app();
    app.update_root(PaneId::Main, RootEvent::ContextTokens(136_000), None, 0);

    control(&mut app, 'f');

    assert_eq!(
        app.root(PaneId::Fork(1)).unwrap().composer.context_tokens(),
        136_000
    );
}

#[test]
fn fork_effort_changes_do_not_change_the_primary_composer() {
    let mut app = app();
    control(&mut app, 'f');
    app.update(AppEvent::ForkReady(PaneId::Fork(1)), 0);
    control(&mut app, 's');
    press(&mut app, KeyCode::Right);

    let update = press(&mut app, KeyCode::Enter);

    assert!(matches!(
        update.effects.as_slice(),
        [AppEffect::Pane {
            pane: PaneId::Fork(1),
            effect: RootEffect::SetEffort(ReasoningEffort::Medium),
        }]
    ));
    assert_eq!(
        app.root(PaneId::Main).unwrap().composer.effort(),
        ReasoningEffort::Low
    );
    assert_eq!(
        app.root(PaneId::Fork(1)).unwrap().composer.effort(),
        ReasoningEffort::Medium
    );
}

#[test]
fn split_view_shows_mouse_focus_and_close_hint() {
    let mut app = app();
    assert!(!draw(&mut app, 100, 20).text().contains(SPLIT_HINT.trim()));

    control(&mut app, 'f');
    let rendered = draw(&mut app, 100, 20).text();

    assert!(rendered.contains(SPLIT_HINT.trim()));
}

#[test]
fn split_hint_is_hidden_at_narrow_widths() {
    let mut app = app();
    control(&mut app, 'f');

    let rendered = draw(&mut app, 40, 10).text();

    assert!(!rendered.contains(SPLIT_HINT.trim()));
    assert!(!split_hint_visible(whole(40, 10)));
}

#[test]
fn control_c_closes_only_the_focused_pane_when_multiplexed() {
    let mut app = app();
    control(&mut app, 'f');

    let update = control(&mut app, 'c');

    assert!(matches!(
        update.effects.as_slice(),
        [AppEffect::ClosePane(PaneId::Fork(1))]
    ));
    assert!(app.root(PaneId::Main).is_some());
    assert!(app.root(PaneId::Fork(1)).is_none());
}

#[test]
fn control_c_clears_the_focused_fork_composer_before_closing_it() {
    let mut app = app();
    control(&mut app, 'f');
    app.update(AppEvent::ForkReady(PaneId::Fork(1)), 0);
    press(&mut app, KeyCode::Char('h'));
    press(&mut app, KeyCode::Char('i'));

    let update = control(&mut app, 'c');

    assert!(update.effects.is_empty());
    assert_eq!(update.render, RenderRequest::Immediate);
    let fork = app.root(PaneId::Fork(1)).expect("fork should remain open");
    assert!(fork.composer.draft().is_empty());

    let close = control(&mut app, 'c');

    assert!(matches!(
        close.effects.as_slice(),
        [AppEffect::ClosePane(PaneId::Fork(1))]
    ));
    assert!(app.root(PaneId::Fork(1)).is_none());
}

#[test]
fn clicking_a_pane_focuses_the_session_that_control_c_closes() {
    let mut app = app();
    control(&mut app, 'f');
    draw(&mut app, 100, 20);
    click(&mut app, 10, 5);

    let update = control(&mut app, 'c');

    assert!(matches!(
        update.effects.as_slice(),
        [AppEffect::ClosePane(PaneId::Main)]
    ));
    assert!(app.root(PaneId::Main).is_none());
    assert!(app.root(PaneId::Fork(1)).is_some());
}

#[test]
fn a_second_fork_is_unavailable_until_the_first_closes() {
    let mut app = app();
    control(&mut app, 'f');
    draw(&mut app, 100, 20);
    click(&mut app, 10, 5);

    let update = control(&mut app, 'f');

    assert!(update.effects.is_empty());
    assert!(app.root(PaneId::Fork(1)).is_some());
    assert!(app.root(PaneId::Fork(2)).is_none());
}

#[test]
fn fork_failure_closes_the_pending_pane_and_surfaces_the_error() {
    let mut app = app();
    control(&mut app, 'f');

    app.update(
        AppEvent::ForkFailed {
            pane: PaneId::Fork(1),
            error: "no safe checkpoint".to_owned(),
        },
        0,
    );

    let rendered = draw(&mut app, 100, 20).text();
    assert!(rendered.contains("Could not fork session: no safe checkpoint"));
    assert!(app.root(PaneId::Fork(1)).is_none());
}

#[test]
fn what_happens_in_one_pane_leaves_the_other_alone() {
    let mut app = app();
    control(&mut app, 'f');
    app.update(AppEvent::ForkReady(PaneId::Fork(1)), 0);
    app.update(
        AppEvent::EditorDraft {
            pane: PaneId::Fork(1),
            draft: "only here".to_owned(),
        },
        0,
    );

    assert_eq!(
        app.root(PaneId::Fork(1)).unwrap().composer.draft(),
        "only here"
    );
    assert!(app.root(PaneId::Main).unwrap().composer.draft().is_empty());
    assert_eq!(app.focus, PaneId::Fork(1));
}

#[test]
fn frames_reach_both_panes() {
    let mut app = app();
    control(&mut app, 'f');
    let quiet = Waves {
        activity: false,
        subagents: false,
        effort: RenderRequest::Idle,
        queue: RenderRequest::Idle,
    };
    let frames = Frames {
        activity: None,
        subagents: None,
        effort: None,
        queue: None,
    };
    let deadline = app.animation_deadline(frames, frames).unwrap();
    let update = app.update(
        AppEvent::AnimationFrame {
            main: quiet,
            fork: quiet,
        },
        deadline,
    );
    assert_eq!(update.render, RenderRequest::Streaming);
}

#[test]
fn a_subagents_transcript_takes_four_fifths_of_the_area() {
    assert_eq!(transcript_width(whole(100, 30)), 78);
    assert_eq!(transcript_width(whole(2, 30)), 0);
    assert_eq!(transcript_width(whole(u16::MAX, 1)), 13_105);
}

#[test]
fn merged_updates_keep_every_effect_and_the_most_urgent_frame() {
    let first = ComponentUpdate::one(AppEffect::Shutdown, RenderRequest::Streaming);
    let second = ComponentUpdate::one(
        AppEffect::SetTheme(ThemeMode::Light),
        RenderRequest::Immediate,
    );
    let merged = merge_updates(Some(first), Some(second));
    assert!(matches!(
        merged.effects.as_slice(),
        [AppEffect::Shutdown, AppEffect::SetTheme(ThemeMode::Light)]
    ));
    assert_eq!(merged.render, RenderRequest::Immediate);
    assert!(merge_updates(None, None).effects.is_empty());
}

fn descriptor() -> AgentDescriptor {
    AgentDescriptor {
        id: 1,
        session_id: "child-session".to_owned(),
        role: "researcher".to_owned(),
        task: "Trace the event lifecycle".to_owned(),
        origin: AgentOrigin::Fork,
        parent: None,
    }
}

fn tree() -> SubagentTree {
    SubagentTree::new(ReasoningEffort::Medium)
}

fn told(tree: &mut SubagentTree, told: &[Told]) {
    tree.apply(
        AgentUpdate::Event {
            id: 1,
            change: told_change(told, None),
        },
        0,
    );
}

fn status(tree: &mut SubagentTree, status: AgentStatus) {
    tree.apply(AgentUpdate::Status { id: 1, status }, 0);
}

fn completed() -> AgentStatus {
    AgentStatus::Completed {
        report: "done".to_owned(),
    }
}

fn draw_transcript(tree: &mut SubagentTree) -> Screen {
    for node in tree.nodes.iter_mut() {
        lay_out(&mut node.transcript, 78);
    }
    let mut screen = Screen::new(100, 40);
    let mut paints = Vec::new();
    tree.render_transcript(1, whole(100, 40), &mut paints);
    screen.draw(&paints);
    screen
}

fn draw_tree(tree: &SubagentTree) -> Screen {
    let mut screen = Screen::new(90, 24);
    let mut paints = Vec::new();
    tree.render_tree(whole(90, 24), &mut paints);
    screen.draw(&paints);
    screen
}

fn focus_tool(tree: &mut SubagentTree) {
    told(tree, &[Told::Shell(None)]);
    let row = draw_transcript(tree)
        .rows()
        .iter()
        .position(|row| row.contains("▶"))
        .expect("tool summary should render");
    tree.update_transcript(
        1,
        &Event::Mouse(MouseEvent {
            kind: MouseKind::Down(MouseButton::Left),
            column: 20,
            row: u16::try_from(row).unwrap(),
            modifiers: Modifiers::none(),
        }),
    );
    assert!(tree.nodes[0].transcript.tools_focused());
}

#[test]
fn changing_effort_preserves_active_subagents() {
    let mut tree = tree();
    assert!(tree.apply(AgentUpdate::Added(descriptor()), 0));

    tree.set_effort(ReasoningEffort::High);

    assert_eq!(tree.effort, ReasoningEffort::High);
    assert_eq!(tree.active_count(), 1);
    assert!(tree.contains(1));
}

#[test]
fn lifecycle_updates_active_count_and_preserves_reusable_agent() {
    let mut tree = tree();
    assert!(tree.apply(AgentUpdate::Added(descriptor()), 0));
    assert_eq!(tree.active_count(), 1);

    told(&mut tree, &[]);
    status(&mut tree, completed());
    assert_eq!(tree.active_count(), 0);
    assert!(matches!(
        tree.nodes[0].status,
        AgentStatus::Completed { .. }
    ));

    tree.apply(AgentUpdate::Added(descriptor()), 0);
    status(&mut tree, AgentStatus::Running);
    assert_eq!(tree.active_count(), 1);
    assert_eq!(tree.nodes.len(), 1);
}

#[test]
fn completed_agents_remain_visible_and_inspectable() {
    let mut tree = tree();
    tree.apply(AgentUpdate::Added(descriptor()), 0);
    told(&mut tree, &[]);
    status(&mut tree, completed());

    let visible = tree.visible_nodes();

    assert_eq!(visible.len(), 1);
    assert_eq!(tree.nodes[visible[0].index].descriptor.id, 1);
}

#[test]
fn tree_renders_role_task_origin_and_state_as_one_joined_branch() {
    let mut tree = tree();
    tree.apply(AgentUpdate::Added(descriptor()), 0);

    let rendered = draw_tree(&tree).rows().join("\n");

    assert!(rendered.contains("main agent"));
    assert!(rendered.contains("researcher"));
    assert!(rendered.contains("running · fork · #1"));
    assert!(rendered.contains("Trace the event lifecycle"));
}

#[test]
fn tree_nests_children_beneath_their_active_parent() {
    let mut tree = tree();
    let mut parent = descriptor();
    parent.role = "parent".to_owned();
    let mut child = descriptor();
    child.id = 2;
    child.role = "child".to_owned();
    child.parent = Some(parent.id);
    tree.apply(AgentUpdate::Added(parent), 0);
    tree.apply(AgentUpdate::Added(child), 0);

    let visible = tree.visible_nodes();
    assert_eq!(visible.len(), 2);
    assert!(visible[0].ancestor_is_last.is_empty());
    assert_eq!(visible[1].ancestor_is_last, [true]);

    let rendered = draw_tree(&tree).rows().join("\n");

    assert!(rendered.contains("└─ ◐ parent"));
    assert!(rendered.contains("   ├─ Trace the event lifecycle"));
    assert!(rendered.contains("   └─ ◐ child"));
}

#[test]
fn transcript_inspector_uses_ten_percent_margins() {
    let mut tree = tree();
    tree.apply(AgentUpdate::Added(descriptor()), 0);
    told(&mut tree, &[Told::Assistant("Report".to_owned())]);
    let screen = draw_transcript(&mut tree);

    assert_eq!(screen.symbol(10, 4), "╭");
    assert_eq!(screen.symbol(89, 35), "╯");
}

#[test]
fn transcript_footer_reflects_tool_focus_without_permanent_mouse_help() {
    let mut tree = tree();
    tree.apply(AgentUpdate::Added(descriptor()), 0);

    let unfocused = draw_transcript(&mut tree).text();
    assert!(unfocused.contains("pgup/pgdn scroll"));
    assert!(unfocused.contains("esc back"));
    assert!(!unfocused.contains("click"));

    focus_tool(&mut tree);
    let focused = draw_transcript(&mut tree).text();
    assert!(focused.contains("↑↓ tool"));
    assert!(focused.contains("enter toggle"));
    assert!(focused.contains("esc blur, then back"));
    assert!(!focused.contains("pgup/pgdn scroll"));
    assert!(!focused.contains("click"));
}

#[test]
fn escape_blurs_focused_tool_before_returning_to_tree() {
    let mut tree = tree();
    tree.apply(AgentUpdate::Added(descriptor()), 0);
    focus_tool(&mut tree);
    let escape = Event::Key(KeyEvent::new(KeyCode::Esc, Modifiers::none()));

    assert!(tree.update_transcript(1, &escape).is_none());
    assert!(!tree.nodes[0].transcript.tools_focused());
    assert!(matches!(
        tree.update_transcript(1, &escape),
        Some(SubagentEffect::Back)
    ));
}

#[test]
fn enter_in_the_tree_inspects_the_selected_subagent() {
    let mut tree = tree();
    tree.apply(AgentUpdate::Added(descriptor()), 0);
    let key = |code| Event::Key(KeyEvent::new(code, Modifiers::none()));

    assert!(matches!(
        tree.update_tree(&key(KeyCode::Enter)),
        Some(SubagentEffect::Inspect(1))
    ));
    assert!(matches!(
        tree.update_tree(&key(KeyCode::Esc)),
        Some(SubagentEffect::Dismiss)
    ));
}

#[test]
fn records_tell_the_context_of_their_pane() {
    let mut app = app();
    app.update(
        AppEvent::Transcript {
            pane: PaneId::Main,
            record: written(
                "agent",
                "api.event",
                r#"{"direction": "inbound", "phase": "generation", "event": {
                    "type": "response.completed",
                    "response": {"usage": {"total_tokens": 1234}}
                }}"#,
            ),
            change: told_change(&[], None),
        },
        0,
    );
    assert_eq!(app.root(PaneId::Main).unwrap().composer.context_tokens(), 1234);
}

#[test]
fn control_t_opens_a_fork() {
    let mut app = app();
    let update = control(&mut app, 't');
    assert!(matches!(
        update.effects.as_slice(),
        [AppEffect::OpenFork(PaneId::Fork(1))]
    ));
    assert_eq!(app.focus, PaneId::Fork(1));
}

#[test]
fn records_of_one_pane_leave_the_other_alone() {
    let mut app = app();
    control(&mut app, 'f');
    let change = || told_change(&[Told::User("only here".to_owned())], None);
    app.update(
        AppEvent::Transcript {
            pane: PaneId::Main,
            record: written("tact", "user.submitted", r#"{"text": "only here"}"#),
            change: change(),
        },
        0,
    );
    assert_eq!(app.main.as_ref().unwrap().transcript.content.entries.len(), 1);
    assert!(app.fork.as_ref().unwrap().root.transcript.content.entries.is_empty());
}

#[test]
fn the_limit_is_shown_and_changed_in_the_tree() {
    let mut tree = tree();
    let key = |code| Event::Key(KeyEvent::new(code, Modifiers::none()));
    assert_eq!(tree.max_subagents(), 32);
    assert!(draw_tree(&tree).text().contains("limit 32"));

    tree.set_max_subagents(2);
    assert!(matches!(
        tree.update_tree(&key(KeyCode::Char('-'))),
        Some(SubagentEffect::SetMaxSubagents(1))
    ));
    assert!(tree.update_tree(&key(KeyCode::Char('-'))).is_none());
    assert_eq!(tree.max_subagents(), 1);
    assert!(matches!(
        tree.update_tree(&key(KeyCode::Char('+'))),
        Some(SubagentEffect::SetMaxSubagents(2))
    ));
    assert!(draw_tree(&tree).text().contains("limit 2"));
}

#[test]
fn every_descendant_of_the_main_agent_is_shown() {
    let mut tree = tree();
    for id in 1..=6 {
        let mut agent = descriptor();
        agent.id = id;
        agent.parent = if id == 1 { None } else { Some(id - 1) };
        tree.apply(AgentUpdate::Added(agent), 0);
    }

    let visible = tree.visible_nodes();

    assert_eq!(visible.len(), 6);
    for (place, node) in visible.iter().enumerate() {
        assert_eq!(tree.nodes[node.index].descriptor.id, place as u64 + 1);
        assert_eq!(node.ancestor_is_last.len(), place);
    }
}

#[test]
fn subagents_of_unknown_sessions_are_not_taken_in() {
    let mut tree = tree();
    assert!(!tree.apply(
        AgentUpdate::Status {
            id: 9,
            status: AgentStatus::Running
        },
        0
    ));
    assert!(tree.nodes.is_empty());
}

#[test]
fn long_tasks_end_in_an_ellipsis() {
    assert_eq!(truncate_with_ellipsis("abcdef", 4), "abc…");
    assert_eq!(truncate_with_ellipsis("abc", 4), "abc");
    assert_eq!(unix_time_ms(None), 0);
    assert_eq!(unix_time_ms(Some(u128::MAX)), u64::MAX);
}
