//! A searchable picker of sessions that can be resumed.

use crate::actions::indices;
use crate::draw::{
    bold_colored, colored, items, lines, paint, say, strokes, words, Look, Paint, Stroke, Tone, Word,
    Words,
};
use crate::event::{Event, KeyCode, KeyEvent};
use crate::floating::{popup, Floating};
use crate::geometry::{minus, Rect};
use crate::node::{ComponentUpdate, RenderRequest};
use crate::search::{
    first_row, lower_characters, lowercase, other_rows, pop_cluster, printable, push_printable,
    render_search, search_strokes, split_first_row, visible_end, visible_query_tail,
    without_last_cluster, Focus,
};
use crate::session::{age_text, format_age, SessionSummary};
use vstd::prelude::*;

verus! {

/// What the picker asks of its owner.
#[derive(Debug)]
pub enum SessionPickerEffect {
    Dismiss,
    Resume(String),
}

/// A request as mathematical values.
pub enum PickerRequest {
    Dismiss,
    Resume(Seq<char>),
}

impl View for SessionPickerEffect {
    type V = PickerRequest;

    open spec fn view(&self) -> PickerRequest {
        match self {
            SessionPickerEffect::Dismiss => PickerRequest::Dismiss,
            SessionPickerEffect::Resume(id) => PickerRequest::Resume(id@),
        }
    }
}

/// What happens to the picker.
#[derive(Debug)]
pub enum SessionPickerEvent {
    Terminal(Event),
}

/// The picker: sessions, a query, the sessions that it finds, and the selected one.
#[derive(Debug)]
pub struct SessionPicker {
    pub sessions: Vec<SessionSummary>,
    pub query: String,
    pub matches: Vec<usize>,
    pub selected: usize,
    pub focus: Focus,
}

/// The indices of the first `n` sessions that a query finds.
pub open spec fn found_sessions(sessions: Seq<SessionSummary>, query: Seq<char>, n: int) -> Seq<int>
    decreases n,
{
    if n <= 0 {
        Seq::empty()
    } else if sessions[n - 1].is_match(lowercase(query)) {
        found_sessions(sessions, query, n - 1).push(n - 1)
    } else {
        found_sessions(sessions, query, n - 1)
    }
}

proof fn lemma_found(sessions: Seq<SessionSummary>, query: Seq<char>, n: int)
    requires
        0 <= n <= sessions.len(),
    ensures
        forall|i: int|
            0 <= i < found_sessions(sessions, query, n).len() ==> 0 <= #[trigger] found_sessions(
                sessions,
                query,
                n,
            )[i] < n,
    decreases n,
{
    if n > 0 {
        lemma_found(sessions, query, n - 1);
        let rest = found_sessions(sessions, query, n - 1);
        let all = found_sessions(sessions, query, n);
        assert forall|i: int| 0 <= i < all.len() implies 0 <= #[trigger] all[i] < n by {
            if i < rest.len() {
                assert(all[i] == rest[i]);
            }
        }
    }
}

/// A picker as mathematical values.
pub struct PickerModel {
    pub sessions: Seq<SessionSummary>,
    pub query: Seq<char>,
    pub matches: Seq<int>,
    pub selected: int,
    pub focus: Focus,
}

impl View for SessionPicker {
    type V = PickerModel;

    open spec fn view(&self) -> PickerModel {
        PickerModel {
            sessions: self.sessions@,
            query: self.query@,
            matches: indices(self.matches@),
            selected: self.selected as int,
            focus: self.focus,
        }
    }
}

/// The picker after an event, and its answer.
pub struct PickerStep {
    pub picker: PickerModel,
    pub effect: Option<PickerRequest>,
    pub render: RenderRequest,
}

impl PickerModel {
    /// The matches are those of the query, and one of them is selected if there is any.
    pub open spec fn wf(self) -> bool {
        &&& self.matches == found_sessions(self.sessions, self.query, self.sessions.len() as int)
        &&& self.selected == 0 || 0 <= self.selected < self.matches.len()
    }

    pub open spec fn searching(self, query: Seq<char>) -> PickerModel {
        PickerModel {
            query,
            matches: found_sessions(self.sessions, query, self.sessions.len() as int),
            selected: 0,
            ..self
        }
    }

    pub open spec fn idle(self) -> PickerStep {
        PickerStep { picker: self, effect: None, render: RenderRequest::Idle }
    }

    pub open spec fn shown(self) -> PickerStep {
        PickerStep { picker: self, effect: None, render: RenderRequest::Immediate }
    }

    pub open spec fn asking(self, effect: PickerRequest) -> PickerStep {
        PickerStep { picker: self, effect: Some(effect), render: RenderRequest::Immediate }
    }

    /// A search that finds one session resumes it; otherwise the list gets the focus. In the list
    /// the selected session is resumed.
    pub open spec fn entered(self) -> PickerStep {
        if self.focus == Focus::Search && self.matches.len() != 1 {
            PickerModel { focus: Focus::List, ..self }.shown()
        } else if self.matches.len() == 0 {
            self.idle()
        } else {
            self.asking(
                PickerRequest::Resume(self.sessions[self.matches[self.selected]].session_id@),
            )
        }
    }

    pub open spec fn on_key(self, key: KeyEvent) -> PickerStep {
        if !key.down() {
            self.idle()
        } else {
            match key.code {
                KeyCode::Esc => self.asking(PickerRequest::Dismiss),
                KeyCode::Backspace => if self.focus == Focus::Search && self.query.len() > 0 {
                    self.searching(without_last_cluster(self.query)).shown()
                } else {
                    self.asking(PickerRequest::Dismiss)
                },
                KeyCode::Tab | KeyCode::BackTab => PickerModel {
                    focus: self.focus.other(),
                    ..self
                }.shown(),
                KeyCode::Up => if self.focus == Focus::List {
                    PickerModel { selected: minus(self.selected, 1), ..self }.shown()
                } else {
                    self.idle()
                },
                KeyCode::Down => if self.focus == Focus::List {
                    PickerModel {
                        selected: if self.selected + 1 < self.matches.len() {
                            self.selected + 1
                        } else {
                            self.selected
                        },
                        ..self
                    }.shown()
                } else {
                    self.idle()
                },
                KeyCode::Enter => self.entered(),
                KeyCode::Char(c) => if self.focus == Focus::Search && !key.modifiers.control
                    && !key.modifiers.alt {
                    self.searching(self.query.push(c)).shown()
                } else {
                    self.idle()
                },
                _ => self.idle(),
            }
        }
    }

    pub open spec fn pasted(self, text: Seq<char>) -> PickerStep {
        if self.focus == Focus::Search {
            self.searching(self.query + printable(text, text.len() as int)).shown()
        } else {
            self.idle()
        }
    }

    pub open spec fn on_event(self, event: SessionPickerEvent) -> PickerStep {
        match event {
            SessionPickerEvent::Terminal(Event::Key(key)) => self.on_key(key),
            SessionPickerEvent::Terminal(Event::Paste(text)) => self.pasted(text@),
            SessionPickerEvent::Terminal(_) => self.idle(),
        }
    }
}

/// The answer of a step.
pub open spec fn answers(update: ComponentUpdate<SessionPickerEffect>, step: PickerStep) -> bool {
    &&& update.render == step.render
    &&& match step.effect {
        Some(effect) => update.effects@.len() == 1 && update.effects@[0]@ == effect,
        None => update.effects@.len() == 0,
    }
}

impl SessionPicker {
    /// The picker with an empty query, which finds every session.
    pub fn new(sessions: Vec<SessionSummary>) -> (picker: Self)
        ensures
            picker@.wf(),
            picker@.sessions == sessions@,
            picker@.query == Seq::<char>::empty(),
            picker@.selected == 0,
            picker@.focus == Focus::Search,
            picker@.matches == found_sessions(sessions@, Seq::empty(), sessions@.len() as int),
    {
        let mut picker = SessionPicker {
            sessions,
            query: String::new(),
            matches: Vec::new(),
            selected: 0,
            focus: Focus::Search,
        };
        picker.refresh_matches();
        picker
    }

    /// Finds the sessions again and selects the first one.
    pub fn refresh_matches(&mut self)
        ensures
            final(self)@ == old(self)@.searching(old(self)@.query),
            final(self)@.wf(),
    {
        let query = lower_characters(self.query.as_str());
        let mut matches: Vec<usize> = Vec::new();
        let mut i: usize = 0;
        assert(indices(matches@) =~= found_sessions(self.sessions@, self.query@, 0));
        while i < self.sessions.len()
            invariant
                query@ == lowercase(self.query@),
                i <= self.sessions@.len(),
                indices(matches@) == found_sessions(self.sessions@, self.query@, i as int),
            decreases self.sessions@.len() - i,
        {
            let ghost sofar = indices(matches@);
            if self.sessions[i].matches(&query) {
                matches.push(i);
                assert(indices(matches@) =~= sofar.push(i as int));
            }
            i = i + 1;
        }
        self.matches = matches;
        self.selected = 0;
    }

    /// One request.
    pub fn effect(effect: SessionPickerEffect) -> (update: ComponentUpdate<SessionPickerEffect>)
        ensures
            update.effects@ == seq![effect],
            update.render == RenderRequest::Immediate,
    {
        ComponentUpdate::one(effect, RenderRequest::Immediate)
    }

    /// Pastes text into the query.
    pub fn insert_paste(&mut self, text: &str) -> (update: ComponentUpdate<SessionPickerEffect>)
        requires
            old(self)@.wf(),
        ensures
            final(self)@ == old(self)@.pasted(text@).picker,
            answers(update, old(self)@.pasted(text@)),
            final(self)@.wf(),
    {
        if self.focus != Focus::Search {
            return ComponentUpdate::none();
        }
        push_printable(&mut self.query, text);
        self.refresh_matches();
        ComponentUpdate::render(RenderRequest::Immediate)
    }

    /// Handles the enter key.
    pub fn resume_selected(&mut self) -> (update: ComponentUpdate<SessionPickerEffect>)
        requires
            old(self)@.wf(),
        ensures
            final(self)@ == old(self)@.entered().picker,
            answers(update, old(self)@.entered()),
            final(self)@.wf(),
    {
        if self.focus == Focus::Search && self.matches.len() != 1 {
            self.focus = Focus::List;
            return ComponentUpdate::render(RenderRequest::Immediate);
        }
        if self.matches.len() == 0 {
            return ComponentUpdate::none();
        }
        proof {
            lemma_found(self@.sessions, self@.query, self@.sessions.len() as int);
            assert(self@.matches[self@.selected] == self.matches@[self.selected as int]);
        }
        let index: usize = self.matches[self.selected];
        Self::effect(SessionPickerEffect::Resume(self.sessions[index].session_id.clone()))
    }

    /// Handles a key.
    pub fn update_key(&mut self, key: KeyEvent) -> (update: ComponentUpdate<SessionPickerEffect>)
        requires
            old(self)@.wf(),
        ensures
            final(self)@ == old(self)@.on_key(key).picker,
            answers(update, old(self)@.on_key(key)),
            final(self)@.wf(),
    {
        if !key.is_down() {
            return ComponentUpdate::none();
        }
        match key.code {
            KeyCode::Esc => Self::effect(SessionPickerEffect::Dismiss),
            KeyCode::Backspace => {
                if self.focus == Focus::Search && !self.query.as_str().is_empty() {
                    pop_cluster(&mut self.query);
                    self.refresh_matches();
                    ComponentUpdate::render(RenderRequest::Immediate)
                } else {
                    Self::effect(SessionPickerEffect::Dismiss)
                }
            },
            KeyCode::Tab | KeyCode::BackTab => {
                self.focus = self.focus.toggled();
                ComponentUpdate::render(RenderRequest::Immediate)
            },
            KeyCode::Up => {
                if self.focus != Focus::List {
                    return ComponentUpdate::none();
                }
                self.selected = self.selected.saturating_sub(1);
                ComponentUpdate::render(RenderRequest::Immediate)
            },
            KeyCode::Down => {
                if self.focus != Focus::List {
                    return ComponentUpdate::none();
                }
                if self.matches.len() > 0 && self.selected < self.matches.len() - 1 {
                    self.selected = self.selected + 1;
                }
                ComponentUpdate::render(RenderRequest::Immediate)
            },
            KeyCode::Enter => self.resume_selected(),
            KeyCode::Char(character) => {
                if self.focus != Focus::Search || key.modifiers.control || key.modifiers.alt {
                    return ComponentUpdate::none();
                }
                self.query.push(character);
                self.refresh_matches();
                ComponentUpdate::render(RenderRequest::Immediate)
            },
            _ => ComponentUpdate::none(),
        }
    }

    /// Handles an event.
    pub fn update(&mut self, event: SessionPickerEvent) -> (update: ComponentUpdate<
        SessionPickerEffect,
    >)
        requires
            old(self)@.wf(),
        ensures
            final(self)@ == old(self)@.on_event(event).picker,
            answers(update, old(self)@.on_event(event)),
            final(self)@.wf(),
    {
        match event {
            SessionPickerEvent::Terminal(Event::Key(key)) => self.update_key(key),
            SessionPickerEvent::Terminal(Event::Paste(text)) => self.insert_paste(text.as_str()),
            SessionPickerEvent::Terminal(_) => ComponentUpdate::none(),
        }
    }
}

/// The two lines of a session: its age and identifier, and its details.
pub open spec fn session_item(session: SessionSummary, unix_ms: int) -> Seq<Seq<Word>> {
    seq![
        seq![
            Word {
                text: age_text(minus(unix_ms, session.started_at_unix_ms as int) / 1_000) + " · "@
                    + session.session_id@,
                look: bold_colored(Tone::Text),
            },
        ],
        seq![
            Word {
                text: session.preview@ + " · "@ + session.model@ + " · "@ + session.effort.title()
                    + " · "@ + session.workspace@,
                look: colored(Tone::Muted),
            },
        ],
    ]
}

/// The keys that the footer names.
pub open spec fn session_keys() -> Seq<&'static str> {
    seq!["tab focus", "↑↓ move", "enter resume", "esc close"]
}

impl PickerModel {
    pub open spec fn session_items(self, unix_ms: int) -> Seq<Seq<Seq<Word>>> {
        Seq::new(
            self.matches.len(),
            |i: int| session_item(self.sessions[self.matches[i]], unix_ms),
        )
    }

    /// The list of sessions, or a note that there is none.
    pub open spec fn list_strokes(self, area: Rect, unix_ms: int) -> Seq<Stroke> {
        let focused = self.focus == Focus::List;
        if area.empty() {
            Seq::empty()
        } else if self.matches.len() == 0 {
            seq![
                Stroke::Line {
                    area,
                    line: seq![
                        Word { text: "  No resumable sessions found"@, look: colored(Tone::Muted) },
                    ],
                    centered: false,
                },
            ]
        } else {
            seq![
                Stroke::List {
                    area,
                    items: self.session_items(unix_ms),
                    selected: Some(self.selected),
                    marker: focused,
                    highlight: if focused {
                        Some(colored(Tone::Accent))
                    } else {
                        None
                    },
                    cursor: focused,
                },
            ]
        }
    }

    /// What the picker draws over an area.
    pub open spec fn picture(self, area: Rect, unix_ms: int) -> Seq<Stroke> {
        let frame = popup("Resume session"@, 76, 18, session_keys());
        let body = frame.body(area);
        if body.empty() {
            frame.picture(area)
        } else {
            frame.picture(area) + search_strokes(
                self.query,
                self.focus == Focus::Search,
                first_row(body),
            ) + self.list_strokes(other_rows(body), unix_ms)
        }
    }
}

fn session_lines(session: &SessionSummary, unix_ms: u64) -> (item: Vec<Vec<Words>>)
    ensures
        lines(item@) == session_item(*session, unix_ms as int),
{
    let mut title: String = format_age(unix_ms, session.started_at_unix_ms);
    title.push_str(" · ");
    title.push_str(session.session_id.as_str());
    let mut first: Vec<Words> = Vec::new();
    say(&mut first, title, Look::bold(Tone::Text));
    let mut detail: String = session.preview.clone();
    detail.push_str(" · ");
    detail.push_str(session.model.as_str());
    detail.push_str(" · ");
    detail.push_str(session.effort.as_title());
    detail.push_str(" · ");
    detail.push_str(session.workspace.as_str());
    let mut second: Vec<Words> = Vec::new();
    say(&mut second, detail, Look::plain(Tone::Muted));
    let ghost expected = session_item(*session, unix_ms as int);
    assert(words(first@) =~= expected[0]);
    assert(words(second@) =~= expected[1]);
    let mut item: Vec<Vec<Words>> = Vec::new();
    item.push(first);
    item.push(second);
    assert(lines(item@) =~= expected);
    item
}

impl SessionPicker {
    /// Draws the list of sessions. `unix_ms` is the time in milliseconds since 1970, like the
    /// times of the sessions.
    pub fn render_sessions(&self, area: Rect, unix_ms: u64, paints: &mut Vec<Paint>)
        requires
            self@.wf(),
        ensures
            strokes(final(paints)@) == strokes(old(paints)@) + self@.list_strokes(
                area,
                unix_ms as int,
            ),
    {
        let ghost start = strokes(paints@);
        if area.is_empty() {
            assert(strokes(paints@) =~= start + self@.list_strokes(area, unix_ms as int));
            return ;
        }
        if self.matches.len() == 0 {
            let mut line: Vec<Words> = Vec::new();
            say(
                &mut line,
                "  No resumable sessions found".to_owned(),
                Look::plain(Tone::Muted),
            );
            assert(words(line@) =~= seq![
                Word { text: "  No resumable sessions found"@, look: colored(Tone::Muted) },
            ]);
            paint(paints, Paint::Line { area, line, centered: false });
            assert(strokes(paints@) =~= start + self@.list_strokes(area, unix_ms as int));
            return ;
        }
        let mut list: Vec<Vec<Vec<Words>>> = Vec::new();
        let mut row: usize = 0;
        while row < self.matches.len()
            invariant
                row <= self.matches@.len(),
                self@.wf(),
                items(list@) == self@.session_items(unix_ms as int).take(row as int),
            decreases self.matches@.len() - row,
        {
            let ghost sofar = items(list@);
            proof {
                lemma_found(self@.sessions, self@.query, self@.sessions.len() as int);
                assert(self@.matches[row as int] == self.matches@[row as int]);
            }
            let index: usize = self.matches[row];
            let item: Vec<Vec<Words>> = session_lines(&self.sessions[index], unix_ms);
            list.push(item);
            row = row + 1;
            assert(items(list@) =~= sofar.push(lines(item@)));
            assert(items(list@) =~= self@.session_items(unix_ms as int).take(row as int));
        }
        assert(items(list@) =~= self@.session_items(unix_ms as int));
        let focused: bool = self.focus == Focus::List;
        let highlight: Option<Look> = if focused {
            Some(Look::plain(Tone::Accent))
        } else {
            None
        };
        paint(
            paints,
            Paint::List {
                area,
                items: list,
                selected: Some(self.selected),
                marker: focused,
                highlight,
                cursor: focused,
            },
        );
        assert(strokes(paints@) =~= start + self@.list_strokes(area, unix_ms as int));
    }

    /// Draws the picker over an area. `unix_ms` is the time in milliseconds since 1970, like the
    /// times of the sessions.
    pub fn render(&self, area: Rect, unix_ms: u64) -> (paints: Vec<Paint>)
        requires
            self@.wf(),
            area.fits(),
        ensures
            strokes(paints@) == self@.picture(area, unix_ms as int),
    {
        let mut paints: Vec<Paint> = Vec::new();
        assert(strokes(paints@) =~= Seq::<Stroke>::empty());
        let mut keys: Vec<&'static str> = Vec::new();
        keys.push("tab focus");
        keys.push("↑↓ move");
        keys.push("enter resume");
        keys.push("esc close");
        assert(keys@ =~= session_keys());
        let frame = Floating::new("Resume session", 76, 18, &keys);
        let body: Rect = frame.render(area, &mut paints);
        assert(strokes(paints@) =~= frame@.picture(area));
        if body.is_empty() {
            return paints;
        }
        let (search, rest) = split_first_row(body);
        render_search(self.query.as_str(), self.focus == Focus::Search, search, &mut paints);
        self.render_sessions(rest, unix_ms, &mut paints);
        assert(strokes(paints@) =~= self@.picture(area, unix_ms as int));
        paints
    }
}

/// The end of a query that fits into a number of columns.
pub fn visible_tail(query: &str, limit: usize) -> (tail: &str)
    ensures
        tail@ == visible_end(query@, limit as int),
{
    visible_query_tail(query, limit)
}

} // verus!
