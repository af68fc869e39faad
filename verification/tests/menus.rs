//! Menus, pickers and popups.

#![allow(dead_code)]

use ratatui::buffer::Buffer;
use ratatui::layout::{Alignment, Rect as Area};
use ratatui::style::{Color, Modifier, Style};
use ratatui::text::{Line, Span};
use ratatui::widgets::{
    Block, BorderType, Borders, Clear, List, ListItem, ListState, Paragraph, StatefulWidget, Widget,
    Wrap,
};
use tact_tui::draw::{Look, Paint, Tone, Words};
use tact_tui::settings::Model;
use tact_tui::actions::{
    Action, ActionAvailability, ActionsEffect, ActionsEvent, ActionsMenu,
};
use tact_tui::event::{Event, KeyCode, KeyEvent, KeyKind, Modifiers};
use tact_tui::file_finder::{
    discover_files, fuzzy_score, FileFinder, FileFinderEffect, FileFinderEvent,
};
use tact_tui::floating::Floating;
use tact_tui::geometry::Rect;
use tact_tui::keybindings::{KeybindingsEffect, KeybindingsEvent, KeybindingsHelp};
use tact_tui::recent_prompts::{
    one_line_preview, RecentPromptPicker, RecentPromptPickerEffect, RecentPromptPickerEvent,
    RecentPromptScope,
};
use tact_tui::review_range::{
    ReviewRange, ReviewRangeEffect, ReviewRangeEvent, ReviewRangePicker,
};
use tact_tui::search::{contains_ignore_ascii_case, visible_query_tail, Focus};
use tact_tui::session::{format_age, RecentPrompt, SessionSummary};
use tact_tui::session_picker::{SessionPicker, SessionPickerEffect, SessionPickerEvent};
use tact_tui::settings::{ReasoningEffort, ReasoningMode};

/// A terminal that drawing commands are carried out on.
struct Screen {
    buffer: Buffer,
    cursor: Option<(u16, u16)>,
}

fn color(tone: Tone) -> Color {
    match tone {
        Tone::Plain | Tone::Text => Color::Reset,
        Tone::Muted | Tone::Border | Tone::DarkGray => Color::DarkGray,
        Tone::Accent | Tone::Cyan => Color::Cyan,
        Tone::CodeText => Color::White,
        Tone::CodeBackground => Color::Rgb(0x26, 0x26, 0x26),
        Tone::Effort(_) => Color::LightBlue,
        Tone::Model(Model::Luna) => Color::White,
        Tone::Model(Model::Terra) => Color::Green,
        Tone::Model(Model::Sol) => Color::Yellow,
        Tone::Yellow => Color::Yellow,
        Tone::Blue => Color::Blue,
        Tone::Green => Color::Green,
        Tone::Red => Color::Red,
        Tone::Magenta => Color::Magenta,
        Tone::Black => Color::Black,
    }
}

fn style(look: Look) -> Style {
    let mut style = Style::default();
    if look.tone != Tone::Plain {
        style = style.fg(color(look.tone));
    }
    if look.ground != Tone::Plain {
        style = style.bg(color(look.ground));
    }
    if look.bold {
        style = style.add_modifier(Modifier::BOLD);
    }
    if look.dim {
        style = style.add_modifier(Modifier::DIM);
    }
    if look.italic {
        style = style.add_modifier(Modifier::ITALIC);
    }
    style
}

fn line(words: &[Words]) -> Line<'static> {
    Line::from(
        words
            .iter()
            .map(|part| Span::styled(part.text.clone(), style(part.look)))
            .collect::<Vec<_>>(),
    )
}

fn rows(item: &[Vec<Words>]) -> Vec<Line<'static>> {
    item.iter().map(|row| line(row)).collect()
}

impl Screen {
    fn new(width: u16, height: u16) -> Self {
        Screen {
            buffer: Buffer::empty(Area::new(0, 0, width, height)),
            cursor: None,
        }
    }

    fn clip(&self, area: Rect) -> Area {
        Area::new(area.x, area.y, area.width, area.height).intersection(self.buffer.area)
    }

    fn list(
        &mut self,
        area: Area,
        items: &[Vec<Vec<Words>>],
        selected: Option<usize>,
        symbol: &str,
        highlight: Style,
        cursor: bool,
    ) {
        let list = List::new(items.iter().map(|item| ListItem::new(rows(item))))
            .highlight_symbol(Line::from(symbol.to_owned()))
            .highlight_style(highlight);
        let mut state = ListState::default().with_selected(selected);
        StatefulWidget::render(list, area, &mut self.buffer, &mut state);
        if let (true, Some(selected)) = (cursor, selected) {
            let above: usize = items[state.offset()..selected]
                .iter()
                .map(|item| item.len())
                .sum();
            let row = area.y + u16::try_from(above).unwrap();
            self.cursor = Some((area.x, row.min(area.bottom() - 1)));
        }
    }

    fn draw(&mut self, paints: &[Paint]) {
        for paint in paints {
            match paint {
                Paint::Clear { area } => Clear.render(self.clip(*area), &mut self.buffer),
                Paint::Border {
                    area,
                    title,
                    border,
                    title_tone,
                } => {
                    let mut block = Block::new()
                        .borders(Borders::ALL)
                        .border_type(BorderType::Rounded)
                        .border_style(Style::default().fg(color(*border)));
                    if !title.is_empty() {
                        block = block
                            .title(title.clone())
                            .title_alignment(Alignment::Center)
                            .title_style(
                                Style::default()
                                    .fg(color(*title_tone))
                                    .add_modifier(Modifier::BOLD),
                            );
                    }
                    block.render(self.clip(*area), &mut self.buffer);
                }
                Paint::Rule { area, title } => Block::new()
                    .borders(Borders::TOP)
                    .title(title.clone())
                    .border_style(Style::default().fg(color(Tone::Border)))
                    .title_style(Style::default().fg(color(Tone::Muted)))
                    .render(self.clip(*area), &mut self.buffer),
                Paint::Line {
                    area,
                    line: words,
                    centered,
                } => Paragraph::new(line(words))
                    .alignment(if *centered {
                        Alignment::Center
                    } else {
                        Alignment::Left
                    })
                    .render(self.clip(*area), &mut self.buffer),
                Paint::Wrapped { area, message } => Paragraph::new(line(message))
                    .centered()
                    .wrap(Wrap { trim: true })
                    .render(self.clip(*area), &mut self.buffer),
                Paint::Paragraph {
                    area,
                    text,
                    look,
                    scroll,
                } => Paragraph::new(text.clone())
                    .style(style(*look))
                    .wrap(Wrap { trim: false })
                    .scroll((*scroll, 0))
                    .render(self.clip(*area), &mut self.buffer),
                Paint::List {
                    area,
                    items,
                    selected,
                    marker,
                    highlight,
                    cursor,
                } => {
                    let area = self.clip(*area);
                    let symbol = if *marker { "› " } else { "  " };
                    let highlight = highlight.map(style).unwrap_or_default();
                    self.list(area, items, *selected, symbol, highlight, *cursor);
                }
                Paint::Tree {
                    area,
                    items,
                    row,
                    look,
                } => {
                    let area = self.clip(*area);
                    self.list(area, items, Some(*row), "  ", style(*look), false);
                }
                Paint::Fill { area, look } => {
                    let area = self.clip(*area);
                    self.buffer.set_style(area, style(*look));
                }
                Paint::Symbol { x, y, symbol, look } => {
                    if let Some(cell) = self.buffer.cell_mut((*x, *y)) {
                        cell.set_char(*symbol).set_style(style(*look));
                    }
                }
                Paint::Text {
                    x,
                    y,
                    text,
                    limit,
                    look,
                } => {
                    if self.buffer.area.contains((*x, *y).into()) {
                        self.buffer.set_stringn(*x, *y, text, *limit, style(*look));
                    }
                }
                Paint::Wave {
                    x,
                    y,
                    text,
                    end,
                    tone,
                } => {
                    let limit = usize::from(end.saturating_sub(*x));
                    let style = Style::default().fg(color(*tone));
                    self.buffer.set_stringn(*x, *y, text, limit, style);
                }
                Paint::Artwork { area, model, frame } => {
                    let area = self.clip(*area);
                    let symbol = if frame % 2 == 0 { "*" } else { "+" };
                    for position in area.positions() {
                        self.buffer[position]
                            .set_symbol(symbol)
                            .set_fg(color(Tone::Model(*model)));
                    }
                }
                Paint::Cursor { position } => self.cursor = Some((position.x, position.y)),
            }
        }
    }

    fn symbol(&self, x: u16, y: u16) -> &str {
        self.buffer[(x, y)].symbol()
    }

    fn row(&self, y: u16) -> String {
        (0..self.buffer.area.width)
            .map(|x| self.buffer[(x, y)].symbol())
            .collect()
    }

    fn segment(&self, y: u16, x: u16, width: u16) -> String {
        (x..x + width)
            .map(|column| self.buffer[(column, y)].symbol())
            .collect()
    }

    fn rows(&self) -> Vec<String> {
        (0..self.buffer.area.height).map(|y| self.row(y)).collect()
    }

    fn text(&self) -> String {
        self.rows().concat()
    }
}

fn whole(width: u16, height: u16) -> Rect {
    Rect {
        x: 0,
        y: 0,
        width,
        height,
    }
}

fn press(code: KeyCode) -> Event {
    Event::Key(KeyEvent {
        code,
        modifiers: Modifiers::none(),
        kind: KeyKind::Press,
    })
}

fn action_key(code: KeyCode) -> ActionsEvent {
    ActionsEvent::Terminal(press(code))
}

fn file_key(code: KeyCode) -> FileFinderEvent {
    FileFinderEvent::Terminal(press(code))
}

fn available() -> ActionAvailability {
    ActionAvailability {
        new_session: true,
        fork: true,
    }
}

fn menu_screen(menu: &ActionsMenu) -> Screen {
    let mut screen = Screen::new(60, 15);
    screen.draw(&menu.render(whole(60, 15)));
    screen
}

#[test]
fn popup_is_centered_with_search_focused_and_available_actions() {
    let menu = ActionsMenu::new(available());
    let screen = menu_screen(&menu);

    let expected = [
        "╭─────────────────────── Actions ────────────────────────╮",
        "│› Search:                                               │",
        "│  Change effort (alias: thinking)                       │",
        "│  Select theme (alias: appearance)                      │",
        "│  New session (alias: clear)                            │",
        "│  Resume session (alias: restore)                       │",
        "│  Fork session (alias: btw)                             │",
        "│  Keyboard shortcuts                                    │",
        "│  Reload config (alias: refresh)                        │",
        "│  Edit config                                           │",
        "│  Subagents (alias: agents)                             │",
        "│   tab focus · ↑↓ move · enter focus/open · esc close   │",
        "╰────────────────────────────────────────────────────────╯",
    ];
    for (index, row) in expected.iter().enumerate() {
        assert_eq!(screen.segment(1 + index as u16, 1, 58), *row);
    }
    assert_eq!(screen.cursor, Some((12, 2)));
    assert_eq!(screen.buffer[(18, 3)].fg, color(Tone::Muted));
}

#[test]
fn search_filters_actions_and_backspace_edits_before_dismissing() {
    let mut menu = ActionsMenu::new(available());
    menu.update(action_key(KeyCode::Char('E')));
    menu.update(action_key(KeyCode::Char('F')));
    menu.update(action_key(KeyCode::Char('F')));

    assert_eq!(menu.matches, [0]);
    assert!(menu.update(action_key(KeyCode::Backspace)).effects.is_empty());
    assert_eq!(menu.query, "EF");

    menu.update(action_key(KeyCode::Backspace));
    menu.update(action_key(KeyCode::Backspace));
    assert!(matches!(
        menu.update(action_key(KeyCode::Backspace)).effects.as_slice(),
        [ActionsEffect::Dismiss]
    ));
}

#[test]
fn an_empty_query_has_nothing_to_remove() {
    let mut menu = ActionsMenu::new(available());
    menu.select_next();
    menu.remove_last_grapheme();
    assert_eq!(menu.selected, 1);
    assert_eq!(menu.query, "");

    let mut finder = FileFinder::new(workspace_files());
    finder.select_next();
    finder.remove_last_grapheme();
    assert_eq!(finder.selected, 1);

    menu.update(action_key(KeyCode::Char('e')));
    menu.remove_last_grapheme();
    assert_eq!(menu.query, "");
    assert_eq!(menu.selected, 0);
}

#[test]
fn tab_swaps_focus_to_the_action_list() {
    let mut menu = ActionsMenu::new(available());
    menu.update(action_key(KeyCode::Tab));
    assert_eq!(menu.focus, Focus::List);

    for _ in 0..5 {
        menu.update(action_key(KeyCode::Down));
    }
    assert_eq!(menu.selected, 5);

    let screen = menu_screen(&menu);
    assert_eq!(
        screen.segment(2, 1, 58),
        "│  Search:                                               │"
    );
    assert_eq!(
        screen.segment(8, 1, 58),
        "│› Keyboard shortcuts                                    │"
    );
    assert_eq!(screen.cursor, Some((2, 8)));

    menu.update(action_key(KeyCode::BackTab));
    assert_eq!(menu.focus, Focus::Search);
}

fn search_action(query: &str, availability: ActionAvailability) -> Vec<ActionsEffect> {
    let mut menu = ActionsMenu::new(availability);
    for character in query.chars() {
        menu.update(action_key(KeyCode::Char(character)));
    }
    menu.update(action_key(KeyCode::Enter)).effects
}

#[test]
fn effort_action_triggers_when_available() {
    assert_eq!(
        search_action("thinking", available()),
        [ActionsEffect::Trigger(Action::Effort)]
    );
}

#[test]
fn config_actions_are_individually_searchable() {
    assert_eq!(
        search_action("edit config", available()),
        [ActionsEffect::Trigger(Action::EditConfig)]
    );
    assert_eq!(
        search_action("refresh", available()),
        [ActionsEffect::Trigger(Action::ReloadConfig)]
    );
}

#[test]
fn new_session_action_supports_clear_alias_and_busy_explanation() {
    assert_eq!(
        search_action("clear", available()),
        [ActionsEffect::Trigger(Action::NewSession)]
    );

    let mut availability = available();
    availability.new_session = false;
    let mut disabled = ActionsMenu::new(availability);
    disabled.update(action_key(KeyCode::Tab));
    disabled.update(action_key(KeyCode::Down));
    disabled.update(action_key(KeyCode::Down));
    let screen = menu_screen(&disabled);
    assert_eq!(
        screen.segment(5, 1, 58),
        "│› New session · finish active work first (alias: clear) │"
    );
    assert_eq!(screen.buffer[(4, 5)].fg, color(Tone::Muted));
}

#[test]
fn resume_session_action_supports_restore_alias() {
    assert_eq!(
        search_action("restore", available()),
        [ActionsEffect::Trigger(Action::ResumeSession)]
    );
}

#[test]
fn theme_action_is_searchable_by_appearance() {
    assert_eq!(
        search_action("appearance", available()),
        [ActionsEffect::Trigger(Action::Theme)]
    );
}

#[test]
fn keybindings_action_is_searchable_and_triggers_immediately() {
    assert_eq!(
        search_action("keyboard", available()),
        [ActionsEffect::Trigger(Action::Keybindings)]
    );
}

#[test]
fn fork_alias_is_searchable_and_disabled_while_a_fork_is_open() {
    assert_eq!(
        search_action("btw", available()),
        [ActionsEffect::Trigger(Action::Fork)]
    );

    let mut availability = available();
    availability.fork = false;
    assert!(search_action("btw", availability).is_empty());
}

#[test]
fn enter_toggles_focus_when_search_has_no_available_action() {
    let mut menu = ActionsMenu::new(available());
    menu.update(action_key(KeyCode::Char('z')));

    assert!(menu.update(action_key(KeyCode::Enter)).effects.is_empty());
    assert_eq!(menu.focus, Focus::List);
}

#[test]
fn escape_dismisses_from_either_focus() {
    let mut menu = ActionsMenu::new(available());
    menu.update(action_key(KeyCode::Tab));

    assert!(matches!(
        menu.update(action_key(KeyCode::Esc)).effects.as_slice(),
        [ActionsEffect::Dismiss]
    ));
}

#[test]
fn actions_narrow_terminals_do_not_overflow_the_popup() {
    let menu = ActionsMenu::new(available());
    let mut screen = Screen::new(3, 2);
    screen.draw(&menu.render(whole(3, 2)));

    assert_eq!(screen.buffer.area.width, 3);
}

#[test]
fn pasted_text_searches_actions_without_its_control_characters() {
    let mut menu = ActionsMenu::new(available());
    menu.update(ActionsEvent::Terminal(Event::Paste("thi\nnking".to_owned())));

    assert_eq!(menu.query, "thinking");
    assert_eq!(menu.matches, [0]);
}

fn workspace_files() -> Vec<String> {
    ["src/lib.rs", "README.md", "src/components/file_finder.rs"]
        .map(str::to_owned)
        .to_vec()
}

#[test]
fn discovers_relative_workspace_files_and_skips_build_directories() {
    assert_eq!(
        discover_files(workspace_files()),
        ["README.md", "src/components/file_finder.rs", "src/lib.rs"]
    );
    assert!(tact_tui::file_finder::is_skipped_directory("target"));
    assert!(tact_tui::file_finder::is_skipped_directory(".git"));
    assert!(!tact_tui::file_finder::is_skipped_directory("src"));
}

#[test]
fn fuzzy_search_matches_non_contiguous_characters_and_ranks_tight_matches_first() {
    let mut finder = FileFinder::new(workspace_files());
    for character in "ff".chars() {
        finder.update(file_key(KeyCode::Char(character)));
    }

    assert_eq!(finder.matches.len(), 1);
    assert_eq!(
        finder.files[finder.matches[0]],
        "src/components/file_finder.rs"
    );
    assert!(fuzzy_score("src/file_finder.rs", "ff").is_some());
    assert!(fuzzy_score("README.md", "ff").is_none());
}

#[test]
fn adjacent_matches_and_segment_starts_score_higher() {
    // 10 for each match, 15 for the second that follows directly, 8 at a segment's start, less the
    // place of the last match.
    assert_eq!(fuzzy_score("ab", "ab"), Some(10 + 8 + 10 + 15 - 1));
    assert_eq!(fuzzy_score("a/b", "ab"), Some(10 + 8 + 10 + 8 - 2));
    assert_eq!(fuzzy_score("axb", "ab"), Some(10 + 8 + 10 - 2));
    assert_eq!(fuzzy_score("anything", ""), Some(0));
}

#[test]
fn enter_inserts_a_unique_search_result() {
    let mut finder = FileFinder::new(workspace_files());
    for character in "read".chars() {
        finder.update(file_key(KeyCode::Char(character)));
    }

    let effects = finder.update(file_key(KeyCode::Enter)).effects;
    assert!(matches!(effects.as_slice(), [FileFinderEffect::Insert(path)] if path == "README.md"));
}

#[test]
fn list_focus_supports_navigation_and_selection() {
    let mut finder = FileFinder::new(workspace_files());
    finder.update(file_key(KeyCode::Tab));
    finder.update(file_key(KeyCode::Down));

    assert_eq!(finder.focus, Focus::List);
    let effects = finder.update(file_key(KeyCode::Enter)).effects;
    assert!(matches!(
        effects.as_slice(),
        [FileFinderEffect::Insert(path)] if path == "src/components/file_finder.rs"
    ));
}

#[test]
fn backspace_edits_search_then_dismisses_and_escape_always_dismisses() {
    let mut finder = FileFinder::new(workspace_files());
    finder.update(file_key(KeyCode::Char('x')));

    assert!(finder.update(file_key(KeyCode::Backspace)).effects.is_empty());
    assert_eq!(finder.query, "");
    assert!(matches!(
        finder.update(file_key(KeyCode::Backspace)).effects.as_slice(),
        [FileFinderEffect::Dismiss]
    ));

    let mut finder = FileFinder::new(workspace_files());
    finder.update(file_key(KeyCode::Char('x')));
    assert!(matches!(
        finder.update(file_key(KeyCode::Esc)).effects.as_slice(),
        [FileFinderEffect::Dismiss]
    ));
}

#[test]
fn popup_uses_file_finder_chrome_and_focus_styling() {
    let finder = FileFinder::new(workspace_files());
    let mut screen = Screen::new(80, 20);
    screen.draw(&finder.render(whole(80, 20)));

    assert_eq!(screen.symbol(4, 3), "╭");
    assert_eq!(screen.symbol(75, 16), "╯");
    assert_eq!(screen.symbol(5, 4), "›");
    assert_eq!(screen.buffer[(5, 4)].fg, color(Tone::Accent));
    assert!(screen
        .rows()
        .iter()
        .any(|row| row.contains("enter focus results")));
}

#[test]
fn footer_says_when_enter_will_insert() {
    let mut finder = FileFinder::new(workspace_files());
    for character in "read".chars() {
        finder.update(file_key(KeyCode::Char(character)));
    }
    let mut screen = Screen::new(80, 20);
    screen.draw(&finder.render(whole(80, 20)));

    assert!(screen.rows().iter().any(|row| row.contains("enter insert")));
}

#[test]
fn file_finder_narrow_terminals_do_not_overflow_the_popup() {
    let finder = FileFinder::new(workspace_files());
    let mut screen = Screen::new(3, 2);
    screen.draw(&finder.render(whole(3, 2)));

    assert_eq!(screen.buffer.area.width, 3);
}

#[test]
fn floating_centers_rounded_chrome_and_border_colored_key_bindings() {
    let mut paints = Vec::new();
    Floating::new("Test", 16, 6, &vec!["left", "right"]).render(whole(20, 8), &mut paints);
    let mut screen = Screen::new(20, 8);
    screen.draw(&paints);

    assert_eq!(screen.symbol(2, 1), "╭");
    assert_eq!(screen.symbol(17, 6), "╯");
    assert_eq!(screen.symbol(4, 5), "l");
    assert_eq!(screen.symbol(9, 5), "·");
    assert_eq!(screen.buffer[(9, 5)].fg, Color::DarkGray);
}

#[test]
fn a_footer_needs_a_key_and_no_text() {
    let mut paints = Vec::new();
    let body = |keys: Vec<&'static str>, paints: &mut Vec<Paint>| {
        Floating::new("Test", 16, 6, &keys)
            .render(whole(20, 8), paints)
            .height
    };
    assert_eq!(body(vec![], &mut paints), 4);
    assert_eq!(body(vec![""], &mut paints), 3);
    assert_eq!(body(vec!["left"], &mut paints), 3);
}

#[test]
fn popup_centers_green_keys_with_muted_descriptions() {
    let mut screen = Screen::new(80, 20);
    screen.draw(&KeybindingsHelp.render(whole(80, 20)));

    let rows = screen.rows();
    let row = rows
        .iter()
        .position(|row| row.contains("ctrl+s"))
        .expect("effort shortcut should render");
    assert!(rows.iter().any(|row| row.contains("ctrl+o")));
    assert_eq!(
        screen.buffer[(5, u16::try_from(row).unwrap())].fg,
        Color::Green
    );
    assert_eq!(
        screen.buffer[(24, u16::try_from(row).unwrap())].fg,
        Color::DarkGray
    );
}

#[test]
fn popup_documents_context_sensitive_composer_shortcuts() {
    let mut screen = Screen::new(80, 22);
    screen.draw(&KeybindingsHelp.render(whole(80, 22)));

    let rendered = screen.rows();
    for expected in [
        "ctrl/cmd+v",
        "clear focused draft · split closes pane · else exit",
        "shift+enter/ctrl+j",
        "prompt history at edge",
        "focus queue · when present",
        "open actions · empty prompt only",
        "insert workspace file",
        "local shell command · prompt start",
        "mouse click/drag",
    ] {
        assert!(rendered.iter().any(|line| line.contains(expected)));
    }
}

#[test]
fn keybindings_narrow_terminals_do_not_overflow_the_popup() {
    let mut screen = Screen::new(8, 4);
    screen.draw(&KeybindingsHelp.render(whole(8, 4)));

    assert_eq!(screen.buffer.area.width, 8);
}

#[test]
fn escape_dismisses_the_popup() {
    let mut help = KeybindingsHelp;
    let update = help.update(KeybindingsEvent::Terminal(press(KeyCode::Esc)));

    assert!(matches!(
        update.effects.as_slice(),
        [KeybindingsEffect::Dismiss]
    ));
}

fn prompt(text: &str, session_id: &str, workspace: &str) -> RecentPrompt {
    RecentPrompt {
        text: text.to_owned(),
        recorded_at_unix_ms: 1,
        session_id: session_id.to_owned(),
        workspace: workspace.to_owned(),
    }
}

fn recent() -> RecentPromptPicker {
    RecentPromptPicker::new(
        vec![
            prompt("newest", "other", "/work/other"),
            prompt("  exact\n\n    prompt  ", "current", "/work/current"),
            prompt("oldest", "current", "/work/current"),
        ],
        "current".to_owned(),
    )
}

fn recent_key(code: KeyCode) -> RecentPromptPickerEvent {
    RecentPromptPickerEvent::Terminal(press(code))
}

fn inserted(effects: Vec<RecentPromptPickerEffect>) -> String {
    match effects.into_iter().next() {
        Some(RecentPromptPickerEffect::Insert(text)) => text,
        other => panic!("no prompt was inserted: {other:?}"),
    }
}

#[test]
fn defaults_to_global_and_preserves_loader_order() {
    let mut picker = recent();

    assert_eq!(picker.scope(), RecentPromptScope::Global);
    assert_eq!(inserted(picker.update(recent_key(KeyCode::Enter)).effects), "newest");
    picker.update(recent_key(KeyCode::Down));
    assert_eq!(
        inserted(picker.update(recent_key(KeyCode::Tab)).effects),
        "  exact\n\n    prompt  "
    );
}

#[test]
fn unmodified_f_toggles_current_session_filter() {
    let mut picker = recent();
    picker.update(RecentPromptPickerEvent::Terminal(Event::Key(KeyEvent {
        code: KeyCode::Char('f'),
        modifiers: Modifiers {
            control: true,
            ..Modifiers::none()
        },
        kind: KeyKind::Press,
    })));
    assert_eq!(picker.scope(), RecentPromptScope::Global);

    picker.update(recent_key(KeyCode::Char('f')));
    assert_eq!(picker.scope(), RecentPromptScope::CurrentSession);
    assert_eq!(picker.visible, [1, 2]);
    assert_eq!(
        inserted(picker.update(recent_key(KeyCode::Enter)).effects),
        "  exact\n\n    prompt  "
    );

    picker.update(recent_key(KeyCode::Char('f')));
    assert_eq!(picker.scope(), RecentPromptScope::Global);
    assert_eq!(picker.visible, [0, 1, 2]);
}

#[test]
fn navigation_clamps_and_escape_dismisses() {
    let mut picker = recent();

    picker.update(recent_key(KeyCode::Up));
    assert_eq!(picker.selected, 0);
    for _ in 0..5 {
        picker.update(recent_key(KeyCode::Down));
    }
    assert_eq!(picker.selected, 2);
    assert!(matches!(
        picker.update(recent_key(KeyCode::Esc)).effects.as_slice(),
        [RecentPromptPickerEffect::Dismiss]
    ));
}

#[test]
fn long_previews_can_be_scrolled_and_reset_for_the_next_prompt() {
    let mut picker = recent();

    for _ in 0..12 {
        picker.update(recent_key(KeyCode::PageDown));
    }
    assert_eq!(picker.preview_scroll, 12);

    picker.update(recent_key(KeyCode::PageUp));
    assert_eq!(picker.preview_scroll, 11);

    picker.update(recent_key(KeyCode::Down));
    assert_eq!(picker.preview_scroll, 0);
}

#[test]
fn preview_preserves_leading_spaces_blank_lines_and_trailing_spaces() {
    let picker = RecentPromptPicker::new(
        vec![prompt(
            "first\n  indented\n\nlast  ",
            "current",
            "/work/current",
        )],
        "current".to_owned(),
    );
    let mut screen = Screen::new(90, 26);
    screen.draw(&picker.render(whole(90, 26)));

    assert_eq!(screen.symbol(5, 12), "f");
    assert_eq!(screen.symbol(7, 13), "i");
    assert_eq!(screen.symbol(5, 14), " ");
    assert_eq!(screen.symbol(5, 15), "l");
    assert_eq!(screen.symbol(9, 15), " ");
    assert_eq!(screen.symbol(10, 15), " ");
}

#[test]
fn render_includes_numbered_global_metadata() {
    let picker = recent();
    let mut screen = Screen::new(100, 26);
    screen.draw(&picker.render(whole(100, 26)));

    let row = screen
        .rows()
        .into_iter()
        .find(|row| row.contains("1. newest"))
        .expect("numbered prompt row");
    assert!(row.contains("/work/other"));
    assert!(row.contains("other"));
}

#[test]
fn renders_on_a_narrow_terminal() {
    let picker = recent();
    let mut screen = Screen::new(3, 3);
    screen.draw(&picker.render(whole(3, 3)));

    assert_eq!(screen.buffer.area.width, 3);
}

#[test]
fn previews_join_words_with_single_blanks() {
    assert_eq!(one_line_preview("  a\n\tb   c "), "a b c");
    assert_eq!(one_line_preview(" \n "), "");
    assert_eq!(one_line_preview("  exact\n\n    prompt  "), "exact prompt");
    assert_eq!(one_line_preview("exact prompt"), "exact prompt");
}

fn summary(id: &str, preview: &str) -> SessionSummary {
    SessionSummary {
        session_id: id.to_owned(),
        started_at_unix_ms: 1,
        model: "gpt".to_owned(),
        effort: ReasoningEffort::Medium,
        reasoning_mode: ReasoningMode::Standard,
        workspace: "/work".to_owned(),
        preview: preview.to_owned(),
    }
}

#[test]
fn search_selects_a_session_by_preview() {
    let mut picker = SessionPicker::new(vec![
        summary("one", "fix parser"),
        summary("two", "write docs"),
    ]);
    for character in "docs".chars() {
        picker.update(SessionPickerEvent::Terminal(press(KeyCode::Char(character))));
    }
    let effects = picker
        .update(SessionPickerEvent::Terminal(press(KeyCode::Enter)))
        .effects;
    assert!(matches!(effects.as_slice(), [SessionPickerEffect::Resume(id)] if id == "two"));
}

#[test]
fn session_rows_show_their_age() {
    let picker = SessionPicker::new(vec![summary("one", "fix parser")]);
    let mut screen = Screen::new(80, 20);
    screen.draw(&picker.render(whole(80, 20), 7_200_001));

    let rows = screen.rows();
    assert!(rows.iter().any(|row| row.contains("fix parser")));
    assert!(rows.iter().any(|row| row.contains("2h")));
    assert_eq!(format_age(0, 5_000), "now");
    assert_eq!(format_age(61_000, 0), "1m");
    assert_eq!(format_age(90_000_000, 0), "1d");
}

#[test]
fn a_review_range_is_picked_with_enter() {
    let mut picker = ReviewRangePicker::new(vec![
        ReviewRange {
            label: "first".to_owned(),
            detail: "one commit".to_owned(),
        },
        ReviewRange {
            label: "second".to_owned(),
            detail: "two commits".to_owned(),
        },
    ]);
    picker.update(ReviewRangeEvent::Terminal(press(KeyCode::Down)));
    let effects = picker
        .update(ReviewRangeEvent::Terminal(press(KeyCode::Enter)))
        .effects;

    assert!(matches!(effects.as_slice(), [ReviewRangeEffect::Selected(1)]));
}

#[test]
fn queries_ignore_ascii_case_and_show_their_end() {
    assert!(contains_ignore_ascii_case("Change effort", "EFF"));
    assert!(!contains_ignore_ascii_case("Theme", "themes"));
    assert_eq!(visible_query_tail("abcdef", 3), "def");
    assert_eq!(visible_query_tail("ab", 3), "ab");
}
