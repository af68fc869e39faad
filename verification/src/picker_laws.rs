//! What holds of the selectors.

use crate::event::{Event, KeyCode, KeyEvent};
use crate::layout_laws::{lemma_plain, lemma_singles};
use crate::recent_prompts::{
    listed, RecentModel, RecentPromptPickerEvent, RecentPromptScope, RecentRequest,
};
use crate::review_range::{request_of, selection_after, ReviewRangeEffect};
use crate::selectors::{
    mode_index, EffortEffect, EffortSelector, ThemeSelector, ThemeSelectorEffect,
};
use crate::session::{mentions, RecentPrompt, SessionSummary};
use crate::settings::{ReasoningEffort, ReasoningMode, ThemeMode};
use crate::search::{
    contains_folded, fold, is_control, lower, lowercase, matches_at, printable, stands_at, Focus,
};
use crate::session_picker::{found_sessions, PickerModel, PickerRequest, SessionPickerEvent};
use crate::text::{is_plain, lemma_byte_len_concat, singles};
use vstd::prelude::*;
use vstd::utf8::encode_utf8;

verus! {

/// How much a level asks for.
pub open spec fn level(effort: ReasoningEffort) -> int {
    match effort {
        ReasoningEffort::Low => 0,
        ReasoningEffort::Medium => 1,
        ReasoningEffort::High => 2,
        ReasoningEffort::XHigh => 3,
        ReasoningEffort::Max => 4,
    }
}

/// More is the next level up and less the next level down; beyond the ends there is none.
pub proof fn law_levels_go_up_and_down(effort: ReasoningEffort)
    ensures
        level(effort) < 4 ==> level(effort.more()) == level(effort) + 1 && effort.more().less()
            == effort,
        level(effort) == 4 ==> effort.more() == effort,
        level(effort) > 0 ==> level(effort.less()) == level(effort) - 1 && effort.less().more()
            == effort,
        level(effort) == 0 ==> effort.less() == effort,
{
}

/// The right and the up key ask for more, the left and the down key for less. The enter key applies
/// the level that is shown and the escape key applies none.
pub proof fn law_efforts_are_selected(selector: EffortSelector, key: KeyEvent)
    requires
        key.down(),
    ensures
        ({
            let (next, choice) = selector.on_event(Event::Key(key));
            &&& key.code == KeyCode::Right || key.code == KeyCode::Up ==> level(next.selected)
                >= level(selector.selected) && choice.effect is None && (level(selector.selected)
                < 4 ==> next.selected != selector.selected)
            &&& key.code == KeyCode::Left || key.code == KeyCode::Down ==> level(next.selected)
                <= level(selector.selected) && choice.effect is None && (level(selector.selected)
                > 0 ==> next.selected != selector.selected)
            &&& key.code == KeyCode::Enter ==> next == selector && choice.effect == Some(
                EffortEffect::Apply(selector.selected),
            )
            &&& key.code == KeyCode::Esc ==> next == selector && choice.effect == Some(
                EffortEffect::Dismiss,
            )
            &&& choice.effect is Some ==> key.code == KeyCode::Enter || key.code == KeyCode::Esc
        }),
{
}

/// The down key selects the next theme of the list and the up key the one before it. The enter key
/// applies the theme that is shown and the escape key applies none.
pub proof fn law_themes_are_selected(selector: ThemeSelector, key: KeyEvent)
    requires
        key.down(),
    ensures
        ({
            let (next, choice) = selector.on_event(Event::Key(key));
            let at = mode_index(selector.selected);
            &&& key.code == KeyCode::Down && at < 2 ==> mode_index(next.selected) == at + 1
            &&& key.code == KeyCode::Down && at == 2 ==> next == selector
            &&& key.code == KeyCode::Up && at > 0 ==> mode_index(next.selected) == at - 1
            &&& key.code == KeyCode::Up && at == 0 ==> next == selector
            &&& key.code == KeyCode::Enter ==> next == selector && choice.effect == Some(
                ThemeSelectorEffect::Apply(selector.selected),
            )
            &&& key.code == KeyCode::Esc ==> next == selector && choice.effect == Some(
                ThemeSelectorEffect::Dismiss,
            )
            &&& choice.effect is Some ==> key.code == KeyCode::Enter || key.code == KeyCode::Esc
        }),
{
}

/// The list of themes names at each place the theme that is selected there.
pub proof fn law_themes_stand_at_their_places(mode: ThemeMode)
    ensures
        0 <= mode_index(mode) < ThemeSelector::mode_items().len(),
        mode == ThemeMode::Auto ==> ThemeSelector::mode_items()[mode_index(mode)][0][0].text
            == "Auto"@,
        mode == ThemeMode::Light ==> ThemeSelector::mode_items()[mode_index(mode)][0][0].text
            == "Light"@,
        mode == ThemeMode::Dark ==> ThemeSelector::mode_items()[mode_index(mode)][0][0].text
            == "Dark"@,
{
}

/// A released key changes nothing and asks for nothing.
pub proof fn law_released_keys_select_nothing(
    effort: EffortSelector,
    theme: ThemeSelector,
    key: KeyEvent,
)
    requires
        !key.down(),
    ensures
        effort.on_event(Event::Key(key)).0 == effort,
        effort.on_event(Event::Key(key)).1.effect is None,
        theme.on_event(Event::Key(key)).0 == theme,
        theme.on_event(Event::Key(key)).1.effect is None,
{
}

/// The selected range moves by one with the arrow keys and stays in the list; the enter key selects
/// it and the escape key none.
pub proof fn law_ranges_are_selected(selected: int, count: int)
    requires
        0 <= selected < count <= usize::MAX,
    ensures
        selected + 1 < count ==> selection_after(KeyCode::Down, selected, count) == selected + 1,
        selected + 1 == count ==> selection_after(KeyCode::Down, selected, count) == selected,
        selected > 0 ==> selection_after(KeyCode::Up, selected, count) == selected - 1,
        selected == 0 ==> selection_after(KeyCode::Up, selected, count) == 0,
        selection_after(KeyCode::Enter, selected, count) == selected,
        request_of(KeyCode::Enter, selected, count) == seq![
            ReviewRangeEffect::Selected(selected as usize),
        ],
        request_of(KeyCode::Esc, selected, count) == seq![ReviewRangeEffect::Dismiss],
        request_of(KeyCode::Up, selected, count).len() == 0,
        request_of(KeyCode::Down, selected, count).len() == 0,
{
}

/// The kind of reasoning is found again by its name.
pub proof fn law_kinds_of_reasoning_have_names(mode: ReasoningMode)
    ensures
        ReasoningMode::named(mode.name()) == Some(mode),
        mode.name() == "pro"@ <==> mode == ReasoningMode::Pro,
        mode.name() == "standard"@ <==> mode == ReasoningMode::Standard,
{
    reveal_strlit("standard");
    reveal_strlit("pro");
    assert("standard"@.len() != "pro"@.len());
}

/// Every level is known to the service by its own word, and to the user by that word with capitals.
pub proof fn law_levels_have_their_words(effort: ReasoningEffort)
    ensures
        effort.name() == "low"@ <==> level(effort) == 0,
        effort.name() == "medium"@ <==> level(effort) == 1,
        effort.name() == "high"@ <==> level(effort) == 2,
        effort.name() == "xhigh"@ <==> level(effort) == 3,
        effort.name() == "max"@ <==> level(effort) == 4,
        lowercase(effort.title()) == effort.name(),
{
    reveal_strlit("low");
    reveal_strlit("medium");
    reveal_strlit("high");
    reveal_strlit("xhigh");
    reveal_strlit("max");
    reveal_strlit("Low");
    reveal_strlit("Medium");
    reveal_strlit("High");
    reveal_strlit("XHigh");
    reveal_strlit("Max");
    assert("low"@[0] == 'l' && "medium"@[0] == 'm' && "high"@[0] == 'h' && "xhigh"@[0] == 'x');
    assert("max"@.len() == 3 && "medium"@.len() == 6);
    assert(lowercase(effort.title()) =~= effort.name());
}

/// A text mentions what it holds, in capitals or not.
pub proof fn law_capitals_do_not_matter(a: Seq<char>, found: Seq<char>, b: Seq<char>)
    ensures
        mentions(a + found + b, lowercase(found)),
{
    let whole = a + found + b;
    let at = a.len() as int;
    assert forall|i: int| 0 <= i < lowercase(found).len() implies lowercase(whole)[at + i]
        == #[trigger] lowercase(found)[i] by {
        assert(whole[at + i] == found[i]);
    }
    assert(stands_at(lowercase(whole), lowercase(found), at));
}

/// A session is found by any part of its id, its first prompt, its model or its directory, and by
/// nothing else but an empty query.
pub proof fn law_sessions_are_found(session: SessionSummary, query: Seq<char>)
    ensures
        query.len() == 0 ==> session.is_match(query),
        mentions(session.session_id@, query) ==> session.is_match(query),
        mentions(session.preview@, query) ==> session.is_match(query),
        mentions(session.model@, query) ==> session.is_match(query),
        mentions(session.workspace@, query) ==> session.is_match(query),
        session.is_match(query) && query.len() > session.session_id@.len() && query.len()
            > session.preview@.len() && query.len() > session.model@.len() ==> query.len()
            <= session.workspace@.len(),
{
}

/// A letter in capitals and the letter itself are one to the search, and no two other letters are.
pub proof fn law_letters_are_folded(c: char)
    ensures
        lower(lower(c)) == lower(c),
        lower(c) != c ==> 'A' <= c <= 'Z' && lower(c) as u32 == c as u32 + 32,
        'a' <= c <= 'z' ==> lower(c) == c,
        'A' <= c <= 'Z' ==> 'a' <= lower(c) <= 'z',
{
}

/// A query finds every text that holds it, and an empty one every text.
pub proof fn law_exact_matches_are_found(a: Seq<char>, query: Seq<char>, b: Seq<char>)
    ensures
        contains_folded(a + query + b, query),
        contains_folded(a, Seq::empty()),
{
    let whole = a + query + b;
    lemma_byte_len_concat(a, query);
    lemma_byte_len_concat(a + query, b);
    let at = encode_utf8(a).len() as int;
    assert forall|i: int| 0 <= i < encode_utf8(query).len() implies fold(
        encode_utf8(whole)[at + i],
    ) == fold(#[trigger] encode_utf8(query)[i]) by {
        assert(encode_utf8(whole)[at + i] == encode_utf8(query)[i]);
    }
    assert(matches_at(encode_utf8(whole), encode_utf8(query), at));
    assert(encode_utf8(Seq::<char>::empty()).len() == 0);
    assert(matches_at(encode_utf8(a), encode_utf8(Seq::<char>::empty()), 0));
}

/// Control characters are left out of a query and all others are kept.
pub proof fn law_control_characters_are_left_out(s: Seq<char>, n: int)
    requires
        0 <= n <= s.len(),
    ensures
        forall|i: int|
            0 <= i < printable(s, n).len() ==> !is_control(#[trigger] printable(s, n)[i]),
        (forall|i: int| 0 <= i < n ==> !is_control(#[trigger] s[i])) ==> printable(s, n) == s.take(
            n,
        ),
        forall|i: int|
            0 <= i < n && !is_control(#[trigger] s[i]) ==> printable(s, n).contains(s[i]),
    decreases n,
{
    if n > 0 {
        law_control_characters_are_left_out(s, n - 1);
        let rest = printable(s, n - 1);
        assert(s.take(n) =~= s.take(n - 1).push(s[n - 1]));
        assert forall|i: int| 0 <= i < n && !is_control(#[trigger] s[i]) implies printable(
            s,
            n,
        ).contains(s[i]) by {
            if i < n - 1 {
                let k = choose|k: int| 0 <= k < rest.len() && rest[k] == s[i];
                assert(printable(s, n)[k] == s[i]);
            } else {
                assert(printable(s, n)[rest.len() as int] == s[i]);
            }
        }
    } else {
        assert(s.take(0) =~= Seq::empty());
    }
}

/// The focus goes from the search to the list and back.
pub proof fn law_the_focus_alternates(focus: Focus)
    ensures
        focus.other() != focus,
        focus.other().other() == focus,
{
}

/// The sessions of a list that are found are those that match, in their order.
pub proof fn law_found_sessions_match(
    sessions: Seq<SessionSummary>,
    query: Seq<char>,
    n: int,
    i: int,
)
    requires
        0 <= n <= sessions.len(),
    ensures
        found_sessions(sessions, query, n).contains(i) <==> 0 <= i < n && sessions[i].is_match(
            lowercase(query),
        ),
        forall|j: int, k: int|
            0 <= j < k < found_sessions(sessions, query, n).len() ==> #[trigger] found_sessions(
                sessions,
                query,
                n,
            )[j] < #[trigger] found_sessions(sessions, query, n)[k],
        forall|j: int|
            0 <= j < found_sessions(sessions, query, n).len() ==> 0 <= #[trigger] found_sessions(
                sessions,
                query,
                n,
            )[j] < n,
    decreases n,
{
    if n > 0 {
        law_found_sessions_match(sessions, query, n - 1, i);
        let rest = found_sessions(sessions, query, n - 1);
        let all = found_sessions(sessions, query, n);
        if rest.contains(i) {
            let k = choose|k: int| 0 <= k < rest.len() && rest[k] == i;
            assert(all[k] == i);
        }
        if sessions[n - 1].is_match(lowercase(query)) {
            assert(all[rest.len() as int] == n - 1);
            if all.contains(i) {
                let k = choose|k: int| 0 <= k < all.len() && all[k] == i;
                if k < rest.len() {
                    assert(rest[k] == i);
                }
            }
        }
    }
}

/// A character that is typed into the search ends the query, and the sessions that match it are
/// listed, the first one selected.
pub proof fn law_typing_searches(picker: PickerModel, key: KeyEvent, c: char)
    requires
        key.down(),
        key.code == KeyCode::Char(c),
        !key.modifiers.control,
        !key.modifiers.alt,
    ensures
        ({
            let step = picker.on_event(SessionPickerEvent::Terminal(Event::Key(key)));
            &&& picker.focus == Focus::Search ==> step.picker.query == picker.query + seq![c]
                && step.picker.wf() && step.picker.selected == 0 && step.effect is None
            &&& picker.focus == Focus::List ==> step.picker == picker && step.effect is None
        }),
{
    assert(picker.query.push(c) =~= picker.query + seq![c]);
}

/// The arrow keys move the selection by one in the list, and stay in it.
pub proof fn law_sessions_are_selected_in_turn(picker: PickerModel, up: KeyEvent, down: KeyEvent)
    requires
        picker.wf(),
        picker.focus == Focus::List,
        up.down(),
        up.code == KeyCode::Up,
        down.down(),
        down.code == KeyCode::Down,
    ensures
        ({
            let below = picker.on_event(SessionPickerEvent::Terminal(Event::Key(down))).picker;
            let above = picker.on_event(SessionPickerEvent::Terminal(Event::Key(up))).picker;
            &&& below.wf() && above.wf()
            &&& picker.selected + 1 < picker.matches.len() ==> below.selected == picker.selected + 1
            &&& picker.selected + 1 >= picker.matches.len() ==> below == picker
            &&& picker.selected > 0 ==> above.selected == picker.selected - 1
            &&& picker.selected == 0 ==> above == picker
        }),
{
}

/// The enter key resumes the selected session, or the only one that was found; the escape key
/// resumes none.
pub proof fn law_the_selected_session_is_resumed(
    picker: PickerModel,
    enter: KeyEvent,
    escape: KeyEvent,
)
    requires
        picker.wf(),
        enter.down(),
        enter.code == KeyCode::Enter,
        escape.down(),
        escape.code == KeyCode::Esc,
    ensures
        ({
            let step = picker.on_event(SessionPickerEvent::Terminal(Event::Key(enter)));
            let chosen = picker.sessions[picker.matches[picker.selected]];
            &&& picker.matches.len() > 0 && (picker.focus == Focus::List || picker.matches.len()
                == 1) ==> step.effect == Some(PickerRequest::Resume(chosen.session_id@))
                && chosen.is_match(lowercase(picker.query))
            &&& picker.matches.len() == 0 ==> step.effect is None
            &&& picker.focus == Focus::Search && picker.matches.len() > 1 ==> step.effect is None
                && step.picker.focus == Focus::List
        }),
        picker.on_event(SessionPickerEvent::Terminal(Event::Key(escape))).effect == Some(
            PickerRequest::Dismiss,
        ),
{
    if picker.matches.len() > 0 {
        let i = picker.matches[picker.selected];
        law_found_sessions_match(
            picker.sessions,
            picker.query,
            picker.sessions.len() as int,
            i,
        );
    }
}

/// The last character of a query in plain letters is removed by the backspace key; an empty query is
/// left for good.
pub proof fn law_queries_are_shortened(picker: PickerModel, key: KeyEvent)
    requires
        picker.focus == Focus::Search,
        is_plain(picker.query),
        key.down(),
        key.code == KeyCode::Backspace,
    ensures
        picker.query.len() > 0 ==> picker.on_event(
            SessionPickerEvent::Terminal(Event::Key(key)),
        ).picker.query == picker.query.drop_last(),
        picker.query.len() == 0 ==> picker.on_event(
            SessionPickerEvent::Terminal(Event::Key(key)),
        ).effect == Some(PickerRequest::Dismiss),
{
    let s = picker.query;
    if s.len() > 0 {
        let n = s.len() - 1;
        lemma_plain(s);
        lemma_singles(s, n);
        assert(singles(s).drop_last() =~= singles(s).take(n));
        assert(s.drop_last() =~= s.take(n));
    }
}

/// In the scope of all sessions every prompt is listed; in that of the current one, its own, each
/// in their order.
pub proof fn law_prompts_are_listed_by_scope(
    prompts: Seq<RecentPrompt>,
    current: Seq<char>,
    scope: RecentPromptScope,
    n: int,
    i: int,
)
    requires
        0 <= n <= prompts.len(),
    ensures
        listed(prompts, current, scope, n).contains(i) <==> 0 <= i < n && (scope
            == RecentPromptScope::CurrentSession ==> prompts[i].session_id@ == current),
        forall|j: int, k: int|
            0 <= j < k < listed(prompts, current, scope, n).len() ==> #[trigger] listed(
                prompts,
                current,
                scope,
                n,
            )[j] < #[trigger] listed(prompts, current, scope, n)[k],
        forall|j: int|
            0 <= j < listed(prompts, current, scope, n).len() ==> 0 <= #[trigger] listed(
                prompts,
                current,
                scope,
                n,
            )[j] < n,
    decreases n,
{
    if n > 0 {
        law_prompts_are_listed_by_scope(prompts, current, scope, n - 1, i);
        let rest = listed(prompts, current, scope, n - 1);
        let all = listed(prompts, current, scope, n);
        if rest.contains(i) {
            let k = choose|k: int| 0 <= k < rest.len() && rest[k] == i;
            assert(all[k] == i);
        }
        if all.len() > rest.len() {
            assert(all[rest.len() as int] == n - 1);
            if all.contains(i) {
                let k = choose|k: int| 0 <= k < all.len() && all[k] == i;
                if k < rest.len() {
                    assert(rest[k] == i);
                }
            }
        }
    }
}

/// The enter and the tab key insert the text of the selected prompt, which is one of the scope; the
/// arrow keys move the selection by one and show its preview from the start; the escape key inserts
/// nothing.
pub proof fn law_recent_prompts_are_inserted(picker: RecentModel, key: KeyEvent)
    requires
        picker.wf(),
        key.down(),
    ensures
        ({
            let step = picker.on_event(RecentPromptPickerEvent::Terminal(Event::Key(key)));
            let i = picker.visible[picker.selected];
            &&& (key.code == KeyCode::Enter || key.code == KeyCode::Tab) && picker.visible.len() > 0
                ==> step.effect == Some(RecentRequest::Insert(picker.prompts[i].text@)) && (
            picker.scope == RecentPromptScope::CurrentSession ==> picker.prompts[i].session_id@
                == picker.current)
            &&& picker.visible.len() == 0 ==> !(step.effect matches Some(RecentRequest::Insert(_)))
            &&& key.code == KeyCode::Esc ==> step.effect == Some(RecentRequest::Dismiss)
            &&& key.code == KeyCode::Down ==> step.picker.scroll == 0 && step.picker.wf()
                && step.picker.selected == if picker.selected + 1 < picker.visible.len() {
                picker.selected + 1
            } else {
                picker.selected
            }
            &&& key.code == KeyCode::Up ==> step.picker.scroll == 0 && step.picker.wf()
                && step.picker.selected == if picker.selected > 0 {
                picker.selected - 1
            } else {
                0
            }
            &&& key.code == KeyCode::PageDown && picker.scroll < u16::MAX ==> step.picker.scroll
                == picker.scroll + 1
            &&& key.code == KeyCode::PageUp && picker.scroll > 0 ==> step.picker.scroll
                == picker.scroll - 1
            &&& key.code == KeyCode::Char('f') && key.modifiers.empty() ==> step.picker.scope
                != picker.scope && step.picker.selected == 0
        }),
{
    if picker.visible.len() > 0 {
        law_prompts_are_listed_by_scope(
            picker.prompts,
            picker.current,
            picker.scope,
            picker.prompts.len() as int,
            picker.visible[picker.selected],
        );
    }
}

/// Backspace takes the last character of a plain query away; an empty query stays.
pub proof fn law_backspace_shortens_the_query(s: Seq<char>)
    requires
        crate::text::is_plain(s),
    ensures
        s.len() > 0 ==> crate::search::without_last_cluster(s) == s.drop_last(),
        s.len() == 0 ==> crate::search::without_last_cluster(s) == s,
{
    reveal(crate::text::clusters);
    if s.len() > 0 {
        crate::layout_laws::lemma_singles(s, s.len() - 1);
        assert(crate::text::singles(s).drop_last() =~= crate::text::singles(s).take(s.len() - 1));
        assert(s.take(s.len() - 1) =~= s.drop_last());
    }
}

/// Only a range that is there is reviewed.
pub proof fn law_no_range_is_made_up(selected: int, count: int)
    ensures
        selected >= count ==> request_of(KeyCode::Enter, selected, count).len() == 0,
        crate::review_range::redraws(KeyCode::Enter, selected, count) <==> request_of(
            KeyCode::Enter,
            selected,
            count,
        ).len() > 0,
        crate::review_range::redraws(KeyCode::Up, selected, count)
            && crate::review_range::redraws(KeyCode::Down, selected, count)
            && crate::review_range::redraws(KeyCode::Esc, selected, count),
{
}

} // verus!
