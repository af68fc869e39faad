//! What holds of the menu of actions and of the files that are offered.

use crate::actions::{
    action_at, enabled_count, first_enabled, found, Action, ActionAvailability, ActionsEffect,
    ActionsEvent, MenuModel, ACTION_COUNT,
};
use crate::event::{Event, KeyCode, KeyEvent};
use crate::file_finder::{
    clean_paths, gain, is_clean, is_skipped, next_place, score, score_at, score_from,
    FileFinderEvent, FinderModel, FinderRequest,
};
use crate::input::{commands, edits_mention, navigates_files, pastes_image, toggles_focus, types};
use crate::search::{lowercase, Focus};
use vstd::prelude::*;

verus! {

/// The place of an action in the menu.
pub open spec fn place_of(action: Action) -> int {
    match action {
        Action::Effort => 0,
        Action::Theme => 1,
        Action::NewSession => 2,
        Action::ResumeSession => 3,
        Action::Fork => 4,
        Action::Keybindings => 5,
        Action::ReloadConfig => 6,
        Action::EditConfig => 7,
        Action::Subagents => 8,
        Action::FastMode => 9,
    }
}

/// Every action stands in the menu once, at its own place.
pub proof fn law_every_action_is_in_the_menu(action: Action, i: int)
    ensures
        0 <= place_of(action) < ACTION_COUNT,
        action_at(place_of(action)) == action,
        0 <= i < ACTION_COUNT ==> place_of(action_at(i)) == i,
{
}

/// An action has a name of its own, which says what it does; another name is given beside it.
pub proof fn law_actions_have_names()
    ensures
        Action::Subagents.name() == "Subagents"@,
        Action::Effort.name() == "Change effort"@,
        Action::Theme.name() == "Select theme"@,
        Action::NewSession.name() == "New session"@,
        Action::ResumeSession.name() == "Resume session"@,
        Action::Fork.name() == "Fork session"@,
        Action::Keybindings.name() == "Keyboard shortcuts"@,
        Action::ReloadConfig.name() == "Reload config"@,
        Action::EditConfig.name() == "Edit config"@,
        Action::FastMode.name() == "Fast mode"@,
        Action::Fork.other_name() == Some("btw"@),
        Action::NewSession.other_name() == Some("clear"@),
        Action::ResumeSession.other_name() == Some("restore"@),
        Action::Effort.other_name() == Some("thinking"@),
        Action::Theme.other_name() == Some("appearance"@),
        Action::ReloadConfig.other_name() == Some("refresh"@),
        Action::FastMode.other_name() == Some("priority"@),
        Action::Subagents.other_name() == Some("agents"@),
{
}

/// While work goes on no session is begun or resumed; while there is a fork none is made; all other
/// actions can always be taken. An action that can be taken is shown by its name.
pub proof fn law_actions_wait_for_work(availability: ActionAvailability, action: Action)
    ensures
        !availability.enables(action) ==> action == Action::NewSession || action
            == Action::ResumeSession || action == Action::Fork,
        availability.enables(Action::NewSession) == availability.new_session,
        availability.enables(Action::ResumeSession) == availability.new_session,
        availability.enables(Action::Fork) == availability.fork,
        availability.enables(action) ==> availability.text(action) == action.name(),
        !availability.enables(action) ==> availability.text(action).len() > action.name().len()
            && availability.text(action).take(action.name().len() as int) == action.name(),
{
    reveal_strlit("New session");
    reveal_strlit("Resume session");
    reveal_strlit("Fork session");
    reveal_strlit("New session · finish active work first");
    reveal_strlit("Resume session · finish active work first");
    reveal_strlit("Fork session · one fork at a time");
    assert("New session · finish active work first"@.take(11) =~= "New session"@);
    assert("Resume session · finish active work first"@.take(14) =~= "Resume session"@);
    assert("Fork session · one fork at a time"@.take(12) =~= "Fork session"@);
}

/// The actions that are found are those that match, in the order of the menu.
pub proof fn law_found_actions_match(query: Seq<char>, n: int, i: int)
    requires
        0 <= n,
    ensures
        found(query, n).contains(i) <==> 0 <= i < n && action_at(i).is_match(query),
        forall|j: int, k: int|
            0 <= j < k < found(query, n).len() ==> #[trigger] found(query, n)[j] < #[trigger] found(
                query,
                n,
            )[k],
        forall|j: int| 0 <= j < found(query, n).len() ==> 0 <= #[trigger] found(query, n)[j] < n,
    decreases n,
{
    if n > 0 {
        law_found_actions_match(query, n - 1, i);
        let rest = found(query, n - 1);
        let all = found(query, n);
        if rest.contains(i) {
            let k = choose|k: int| 0 <= k < rest.len() && rest[k] == i;
            assert(all[k] == i);
        }
        if action_at(n - 1).is_match(query) {
            assert(all[rest.len() as int] == n - 1);
            if all.contains(i) {
                let k = choose|k: int| 0 <= k < all.len() && all[k] == i;
                if k < rest.len() {
                    assert(rest[k] == i);
                }
            }
        }
    }
}

proof fn lemma_first_enabled(list: Seq<int>, availability: ActionAvailability, from: int)
    requires
        0 <= from < list.len(),
        exists|k: int|
            from <= k < list.len() && availability.enables(action_at(#[trigger] list[k])),
    ensures
        availability.enables(first_enabled(list, availability, from)),
        exists|k: int|
            from <= k < list.len() && first_enabled(list, availability, from) == action_at(
                #[trigger] list[k],
            ),
    decreases list.len() - from,
{
    if from >= list.len() - 1 || availability.enables(action_at(list[from])) {
        assert(first_enabled(list, availability, from) == action_at(list[from]));
    } else {
        lemma_first_enabled(list, availability, from + 1);
    }
}

proof fn lemma_enabled_count(list: Seq<int>, availability: ActionAvailability, n: int)
    requires
        0 <= n <= list.len(),
    ensures
        0 <= enabled_count(list, availability, n) <= n,
        enabled_count(list, availability, n) > 0 ==> exists|k: int|
            0 <= k < n && availability.enables(action_at(#[trigger] list[k])),
    decreases n,
{
    if n > 0 {
        lemma_enabled_count(list, availability, n - 1);
        if availability.enables(action_at(list[n - 1])) {
            assert(0 <= n - 1 < n && availability.enables(action_at(list[n - 1])));
        }
    }
}

/// Whatever key is pressed, only an action is taken that can be taken and that the query finds; in
/// the list, the selected one.
pub proof fn law_only_possible_actions_are_taken(menu: MenuModel, key: KeyEvent, action: Action)
    requires
        menu.wf(),
        menu.on_event(ActionsEvent::Terminal(Event::Key(key))).effect == Some(
            ActionsEffect::Trigger(action),
        ),
    ensures
        menu.availability.enables(action),
        action.is_match(menu.query),
        key.code == KeyCode::Enter,
        menu.focus == Focus::List ==> action == action_at(menu.matches[menu.selected]),
{
    let list = menu.matches;
    lemma_enabled_count(list, menu.availability, list.len() as int);
    if menu.focus == Focus::List {
        law_found_actions_match(menu.query, ACTION_COUNT as int, list[menu.selected]);
    } else {
        lemma_first_enabled(list, menu.availability, 0);
        let k = choose|k: int|
            0 <= k < list.len() && first_enabled(list, menu.availability, 0) == action_at(
                #[trigger] list[k],
            );
        law_found_actions_match(menu.query, ACTION_COUNT as int, list[k]);
    }
}

/// In the list the arrow keys move the selection by one, the tab key changes the focus, and a
/// character that is typed into the search ends the query.
pub proof fn law_the_menu_is_searched(menu: MenuModel, key: KeyEvent)
    requires
        menu.wf(),
        key.down(),
    ensures
        ({
            let step = menu.on_event(ActionsEvent::Terminal(Event::Key(key)));
            &&& key.code == KeyCode::Down && menu.focus == Focus::List ==> step.menu.selected == (
            if menu.selected + 1 < menu.matches.len() {
                menu.selected + 1
            } else {
                menu.selected
            }) && step.menu.matches == menu.matches
            &&& key.code == KeyCode::Up && menu.focus == Focus::List ==> step.menu.selected == (
            if menu.selected > 0 {
                menu.selected - 1
            } else {
                0
            }) && step.menu.matches == menu.matches
            &&& key.code == KeyCode::Tab || key.code == KeyCode::BackTab ==> step.menu.focus
                != menu.focus && step.menu.selected == menu.selected
            &&& key.code == KeyCode::Esc ==> step.effect == Some(ActionsEffect::Dismiss)
            &&& key.code matches KeyCode::Char(c) ==> !key.modifiers.control && !key.modifiers.alt
                && menu.focus == Focus::Search ==> step.menu.query == menu.query + seq![c]
                && step.menu.selected == 0
            &&& step.menu.wf()
        }),
{
    if let KeyCode::Char(c) = key.code {
        assert(menu.query.push(c) =~= menu.query + seq![c]);
    }
}

/// The characters of a query from `j` on stand in a path in their order, from `from` on.
pub open spec fn follows_in(path: Seq<char>, query: Seq<char>, from: int, j: int) -> bool
    decreases query.len() - j,
{
    j >= query.len() || exists|at: int|
        from <= at < path.len() && #[trigger] path[at] == query[j] && follows_in(
            path,
            query,
            at + 1,
            j + 1,
        )
}

proof fn lemma_follows_earlier(path: Seq<char>, query: Seq<char>, a: int, b: int, j: int)
    requires
        0 <= j,
        a <= b,
        follows_in(path, query, b, j),
    ensures
        follows_in(path, query, a, j),
{
    if j < query.len() {
        let at = choose|at: int|
            b <= at < path.len() && #[trigger] path[at] == query[j] && follows_in(
                path,
                query,
                at + 1,
                j + 1,
            );
        assert(a <= at < path.len() && path[at] == query[j]);
    }
}

proof fn lemma_next_place(path: Seq<char>, c: char, from: int)
    requires
        0 <= from,
    ensures
        from >= path.len() ==> next_place(path, c, from) == path.len(),
        from <= path.len() ==> from <= next_place(path, c, from) <= path.len(),
        next_place(path, c, from) < path.len() ==> path[next_place(path, c, from)] == c,
        forall|k: int|
            from <= k < path.len() && k < next_place(path, c, from) ==> #[trigger] path[k] != c,
    decreases path.len() - from,
{
    if from < path.len() && path[from] != c {
        lemma_next_place(path, c, from + 1);
    }
}

proof fn lemma_score(path: Seq<char>, query: Seq<char>, j: int, previous: int, sum: int)
    requires
        0 <= j <= query.len(),
        -1 <= previous < path.len(),
    ensures
        score_from(path, query, j, previous, sum) is Some <==> follows_in(
            path,
            query,
            previous + 1,
            j,
        ),
    decreases query.len() - j,
{
    if j < query.len() {
        let from = previous + 1;
        let at = next_place(path, query[j], from);
        lemma_next_place(path, query[j], from);
        if at < path.len() {
            let next = crate::geometry::least(
                sum + gain(path, at, previous),
                usize::MAX as int,
            );
            lemma_score(path, query, j + 1, at, next);
            if follows_in(path, query, from, j) {
                let k = choose|k: int|
                    from <= k < path.len() && #[trigger] path[k] == query[j] && follows_in(
                        path,
                        query,
                        k + 1,
                        j + 1,
                    );
                lemma_follows_earlier(path, query, at + 1, k + 1, j + 1);
            }
        } else if follows_in(path, query, from, j) {
            let k = choose|k: int|
                from <= k < path.len() && #[trigger] path[k] == query[j] && follows_in(
                    path,
                    query,
                    k + 1,
                    j + 1,
                );
            assert(path[k] != query[j]);
        }
    }
}

/// A file is found exactly if the characters of the query stand in its path in their order, in
/// capitals or not.
pub proof fn law_files_are_found_by_their_letters(path: Seq<char>, query: Seq<char>)
    ensures
        score(path, query) is Some <==> follows_in(lowercase(path), query, 0, 0),
        score(path, Seq::empty()) is Some,
{
    if query.len() > 0 {
        lemma_score(lowercase(path), query, 0, -1, 0);
    }
}

/// A letter counts for more behind the letter before it than apart from it, and for more at the
/// start of a name than inside of it.
pub proof fn law_close_letters_count_for_more(path: Seq<char>, at: int, previous: int, other: int)
    requires
        0 <= previous < at < path.len(),
        0 <= other,
    ensures
        previous + 1 == at && other + 1 != at ==> gain(path, at, previous) > gain(path, at, other),
        gain(path, 0, -1) > gain(path, at, previous) || previous + 1 == at || path[at - 1] == '/',
        path[at - 1] == '/' && other + 1 == at && previous + 1 == at ==> gain(path, at, previous)
            > 10 + 15,
{
}

/// No path with a control character is offered, and all others are.
pub proof fn law_only_clean_paths_are_offered(paths: Seq<Seq<char>>, n: int, path: Seq<char>)
    requires
        0 <= n <= paths.len(),
    ensures
        clean_paths(paths, n).contains(path) <==> is_clean(path) && exists|i: int|
            0 <= i < n && #[trigger] paths[i] == path,
    decreases n,
{
    if n > 0 {
        law_only_clean_paths_are_offered(paths, n - 1, path);
        let rest = clean_paths(paths, n - 1);
        let all = clean_paths(paths, n);
        if rest.contains(path) {
            let k = choose|k: int| 0 <= k < rest.len() && rest[k] == path;
            assert(all[k] == path);
        }
        if is_clean(paths[n - 1]) {
            assert(all[rest.len() as int] == paths[n - 1]);
            if all.contains(path) {
                let k = choose|k: int| 0 <= k < all.len() && all[k] == path;
                if k < rest.len() {
                    assert(rest[k] == path);
                } else {
                    assert(paths[n - 1] == path);
                }
            }
        }
    }
}

/// The directories of version control, of installed packages and of build results are skipped.
pub proof fn law_directories_that_are_skipped(name: Seq<char>)
    ensures
        is_skipped(".git"@),
        is_skipped(".jj"@),
        is_skipped("node_modules"@),
        is_skipped("target"@),
        is_skipped(name) ==> name.len() == 3 || name.len() == 4 || name.len() == 6 || name.len()
            == 12,
{
    reveal_strlit(".git");
    reveal_strlit(".jj");
    reveal_strlit("node_modules");
    reveal_strlit("target");
}

/// The enter key inserts the selected file, or the only one that was found, and it is one that the
/// query finds; the arrow keys move the selection by one.
pub proof fn law_the_selected_file_is_inserted(finder: FinderModel, key: KeyEvent)
    requires
        finder.wf(),
        key.down(),
    ensures
        ({
            let step = finder.on_event(FileFinderEvent::Terminal(Event::Key(key)));
            let i = finder.matches[finder.selected];
            &&& key.code == KeyCode::Enter && finder.matches.len() > 0 && (finder.focus
                == Focus::List || finder.matches.len() == 1) ==> step.effect == Some(
                FinderRequest::Insert(finder.files[i]),
            ) && 0 <= i < finder.files.len() && score_at(finder.files, finder.query, i) is Some
            &&& key.code == KeyCode::Enter && finder.matches.len() > 1 && finder.focus
                == Focus::Search ==> step.effect is None && step.focus == Focus::List
            &&& key.code == KeyCode::Esc ==> step.effect == Some(FinderRequest::Dismiss)
            &&& key.code == KeyCode::Down && finder.focus == Focus::List ==> step.selected == (
            if finder.selected + 1 < finder.matches.len() {
                finder.selected + 1
            } else {
                finder.selected
            })
            &&& key.code == KeyCode::Up && finder.focus == Focus::List ==> step.selected == (
            if finder.selected > 0 {
                finder.selected - 1
            } else {
                0
            })
            &&& key.code matches KeyCode::Char(c) ==> !key.modifiers.control && !key.modifiers.alt
                && finder.focus == Focus::Search ==> step.query == finder.query + seq![c]
                && step.selected == 0
        }),
{
    if let KeyCode::Char(c) = key.code {
        assert(finder.query.push(c) =~= finder.query + seq![c]);
    }
}

/// A key that is released asks for nothing, and a character is typed only without the control key.
pub proof fn law_released_keys_ask_for_nothing(key: KeyEvent, c: char)
    ensures
        ({
            let event = Event::Key(key);
            &&& !key.down() ==> !types(event, c) && !commands(event, c) && !navigates_files(event)
                && !edits_mention(event) && !toggles_focus(event) && !pastes_image(event)
            &&& types(event, c) ==> !commands(event, c)
            &&& types(event, c) || commands(event, c) ==> key.code == KeyCode::Char(c)
            &&& pastes_image(event) ==> key.modifiers.control || key.modifiers.super_key
        }),
{
}

/// A mention goes on with letters and digits and with what stands in the names of files; a text that
/// is pasted goes on with it exactly if each of its characters would.
pub proof fn law_mentions_go_on(key: KeyEvent, text: String)
    ensures
        crate::input::in_file_query('/') && crate::input::in_file_query('.')
            && crate::input::in_file_query('_') && crate::input::in_file_query('-'),
        crate::input::continues_query(
            Event::Key(KeyEvent { code: KeyCode::Backspace, ..key }),
        ),
        !crate::input::continues_query(Event::Key(KeyEvent { code: KeyCode::Enter, ..key })),
        !crate::input::continues_query(Event::Key(KeyEvent { code: KeyCode::Left, ..key })),
        crate::input::continues_query(Event::Paste(text)) <==> forall|i: int|
            0 <= i < text@.len() ==> crate::input::continues_query(
                Event::Key(KeyEvent { code: KeyCode::Char(#[trigger] text@[i]), ..key }),
            ),
{
    if forall|i: int|
        0 <= i < text@.len() ==> crate::input::continues_query(
            Event::Key(KeyEvent { code: KeyCode::Char(#[trigger] text@[i]), ..key }),
        ) {
        assert forall|i: int| 0 <= i < text@.len() implies crate::input::in_file_query(
            #[trigger] text@[i],
        ) by {
            assert(crate::input::continues_query(
                Event::Key(KeyEvent { code: KeyCode::Char(text@[i]), ..key }),
            ));
        }
    }
}

/// Only a press of the left button clicks, and only on the cells of the area.
pub proof fn law_clicks_are_in_their_area(
    mouse: crate::event::MouseEvent,
    key: KeyEvent,
    area: crate::geometry::Rect,
)
    ensures
        !crate::input::clicks_in(Event::Key(key), area),
        crate::input::clicks_in(Event::Mouse(mouse), area) ==> area.x <= mouse.column
            && mouse.column < area.x + area.width && area.y <= mouse.row && mouse.row < area.y
            + area.height && mouse.kind is Down,
        !(mouse.kind is Down) ==> !crate::input::clicks_in(Event::Mouse(mouse), area),
{
}

/// The selection among the files goes down and up by one and stays among them.
pub proof fn law_files_are_selected_in_turn(finder: FinderModel)
    requires
        0 <= finder.selected < finder.matches.len(),
    ensures
        ({
            let down = FinderModel { selected: finder.below(), ..finder };
            let up = FinderModel { selected: finder.above(), ..finder };
            &&& 0 <= down.selected < finder.matches.len() && 0 <= up.selected < finder.matches.len()
            &&& finder.selected + 1 < finder.matches.len() ==> down.selected == finder.selected + 1
                && down.above() == finder.selected
            &&& finder.selected > 0 ==> up.selected == finder.selected - 1 && up.below()
                == finder.selected
            &&& finder.selected == 0 ==> up.selected == 0
        }),
{
}

} // verus!
