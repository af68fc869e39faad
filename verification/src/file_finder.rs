//! A searchable picker of workspace files.

use crate::actions::indices;
use crate::draw::{
    bold_colored, colored, items, lines, paint, say, strokes, words, Look, Paint, Stroke, Tone, Word,
    Words,
};
use crate::event::{Event, KeyCode, KeyEvent};
use crate::floating::{popup, Floating};
use crate::geometry::{least, minus, Rect};
use crate::node::{ComponentUpdate, RenderRequest};
use crate::order::{
    at_most, in_order, insert_sorted, is_sorted, lemma_antisymmetric, lemma_total,
    lemma_transitive, texts,
};
use crate::search::{
    control, first_row, is_control, lower_characters, lowercase, other_rows, pop_cluster,
    printable, push_printable, render_search, search_strokes, split_first_row,
    without_last_cluster, Focus,
};
use crate::text::{characters, same};
use vstd::prelude::*;

verus! {

/// The first place from `from` on where a character stands; the length if there is none.
pub open spec fn next_place(path: Seq<char>, c: char, from: int) -> int
    decreases path.len() - from,
{
    if from >= path.len() {
        path.len() as int
    } else if path[from] == c {
        from
    } else {
        next_place(path, c, from + 1)
    }
}

/// What a match at `at` is worth when the match before it is at `previous`: more where it follows
/// directly, and more at the start of a path segment.
pub open spec fn gain(path: Seq<char>, at: int, previous: int) -> int {
    10 + (if 0 <= previous && previous + 1 == at {
        15int
    } else {
        0
    }) + (if at == 0 || path[at - 1] == '/' {
        8int
    } else {
        0
    })
}

/// The score of the query from its character `j` on, each matched at the first place behind the
/// one before. Matches that come late cost as much as their distance from the start.
pub open spec fn score_from(
    path: Seq<char>,
    query: Seq<char>,
    j: int,
    previous: int,
    score: int,
) -> Option<int>
    decreases query.len() - j,
{
    if j >= query.len() {
        Some(minus(score, previous))
    } else {
        let at = next_place(path, query[j], previous + 1);
        if at >= path.len() {
            None
        } else {
            score_from(
                path,
                query,
                j + 1,
                at,
                least(score + gain(path, at, previous), usize::MAX as int),
            )
        }
    }
}

/// The score of a path for a query, `None` where the query's characters do not stand in the path
/// in their order. Capitals of the path count as small letters.
pub open spec fn score(path: Seq<char>, query: Seq<char>) -> Option<int> {
    if query.len() == 0 {
        Some(0)
    } else {
        score_from(lowercase(path), query, 0, -1, 0)
    }
}

/// The score of a path for a query.
pub fn fuzzy_score(path: &str, query: &str) -> (result: Option<usize>)
    ensures
        result is Some == score(path@, query@) is Some,
        result matches Some(n) ==> n == score(path@, query@)->0,
{
    let wanted = characters(query);
    if wanted.len() == 0 {
        return Some(0);
    }
    let chars = lower_characters(path);
    let ghost text = lowercase(path@);
    let mut total: usize = 0;
    let mut j: usize = 0;
    let mut from: usize = 0;
    let mut matched: bool = false;
    let ghost mut previous: int = -1;
    while j < wanted.len()
        invariant
            text == lowercase(path@),
            chars@ == text,
            wanted@ == query@,
            j <= wanted@.len(),
            from == previous + 1,
            from <= text.len(),
            matched == (previous >= 0),
            previous >= -1,
            j == 0 ==> previous == -1,
            j > 0 ==> previous >= 0,
            score_from(text, query@, 0, -1, 0) == score_from(
                text,
                query@,
                j as int,
                previous,
                total as int,
            ),
        decreases wanted@.len() - j,
    {
        let mut at: usize = from;
        while at < chars.len() && chars[at] != wanted[j]
            invariant
                text == lowercase(path@),
            chars@ == text,
                wanted@ == query@,
                j < wanted@.len(),
                from <= at <= chars@.len(),
                next_place(text, query@[j as int], from as int) == next_place(
                    text,
                    query@[j as int],
                    at as int,
                ),
            decreases chars@.len() - at,
        {
            at = at + 1;
        }
        if at >= chars.len() {
            return None;
        }
        let mut worth: usize = 10;
        if matched && at == from {
            worth = worth + 15;
        }
        if at == 0 || chars[at - 1] == '/' {
            worth = worth + 8;
        }
        assert(worth == gain(text, at as int, previous));
        total = total.saturating_add(worth);
        proof {
            previous = at as int;
        }
        matched = true;
        from = at + 1;
        j = j + 1;
    }
    Some(total.saturating_sub(from - 1))
}

/// Whether a directory is left out of the search.
pub open spec fn is_skipped(name: Seq<char>) -> bool {
    name == ".git"@ || name == ".jj"@ || name == "node_modules"@ || name == "target"@
}

/// Whether the directory of this name is left out of the search.
pub fn is_skipped_directory(name: &str) -> (yes: bool)
    ensures
        yes == is_skipped(name@),
{
    same(name, ".git") || same(name, ".jj") || same(name, "node_modules") || same(name, "target")
}

/// A path without control characters.
pub open spec fn is_clean(path: Seq<char>) -> bool {
    forall|i: int| 0 <= i < path.len() ==> !is_control(#[trigger] path[i])
}

fn clean(path: &str) -> (yes: bool)
    ensures
        yes == is_clean(path@),
{
    let chars = characters(path);
    let mut i: usize = 0;
    while i < chars.len()
        invariant
            chars@ == path@,
            i <= chars.len(),
            forall|k: int| 0 <= k < i ==> !is_control(#[trigger] path@[k]),
        decreases chars.len() - i,
    {
        if control(chars[i]) {
            return false;
        }
        i = i + 1;
    }
    true
}

/// The clean paths among the first `n`.
pub open spec fn clean_paths(paths: Seq<Seq<char>>, n: int) -> Seq<Seq<char>>
    decreases n,
{
    if n <= 0 {
        Seq::empty()
    } else if is_clean(paths[n - 1]) {
        clean_paths(paths, n - 1).push(paths[n - 1])
    } else {
        clean_paths(paths, n - 1)
    }
}

/// The paths of a workspace that the picker offers: those without control characters, sorted.
pub fn discover_files(paths: Vec<String>) -> (files: Vec<String>)
    ensures
        is_sorted(texts(files@)),
        texts(files@).to_multiset() == clean_paths(
            texts(paths@),
            paths@.len() as int,
        ).to_multiset(),
{
    let mut files: Vec<String> = Vec::new();
    let mut i: usize = 0;
    proof {
        assert(texts(files@) =~= clean_paths(texts(paths@), 0));
    }
    while i < paths.len()
        invariant
            i <= paths@.len(),
            is_sorted(texts(files@)),
            texts(files@).to_multiset() == clean_paths(texts(paths@), i as int).to_multiset(),
        decreases paths@.len() - i,
    {
        assert(texts(paths@)[i as int] == paths@[i as int]@);
        if clean(paths[i].as_str()) {
            insert_sorted(&mut files, paths[i].clone());
            proof {
                vstd::seq_lib::to_multiset_build(
                    clean_paths(texts(paths@), i as int),
                    paths@[i as int]@,
                );
            }
        }
        i = i + 1;
    }
    files
}

/// What the picker asks of its owner.
#[derive(Debug)]
pub enum FileFinderEffect {
    Dismiss,
    Insert(String),
}

/// A request as mathematical values.
pub enum FinderRequest {
    Dismiss,
    Insert(Seq<char>),
}

impl View for FileFinderEffect {
    type V = FinderRequest;

    open spec fn view(&self) -> FinderRequest {
        match self {
            FileFinderEffect::Dismiss => FinderRequest::Dismiss,
            FileFinderEffect::Insert(path) => FinderRequest::Insert(path@),
        }
    }
}

/// What happens to the picker.
#[derive(Debug)]
pub enum FileFinderEvent {
    Terminal(Event),
    Query(String),
}

/// The picker: paths, a query, the paths that it finds in the order of their scores, and the
/// selected one.
#[derive(Debug)]
pub struct FileFinder {
    pub files: Vec<String>,
    pub query: String,
    pub focus: Focus,
    pub selected: usize,
    pub matches: Vec<usize>,
}

/// A picker as mathematical values.
pub struct FinderModel {
    pub files: Seq<Seq<char>>,
    pub query: Seq<char>,
    pub focus: Focus,
    pub selected: int,
    pub matches: Seq<int>,
}

impl View for FileFinder {
    type V = FinderModel;

    open spec fn view(&self) -> FinderModel {
        FinderModel {
            files: texts(self.files@),
            query: self.query@,
            focus: self.focus,
            selected: self.selected as int,
            matches: indices(self.matches@),
        }
    }
}

/// The score of the path at an index.
pub open spec fn score_at(files: Seq<Seq<char>>, query: Seq<char>, i: int) -> Option<int> {
    score(files[i], lowercase(query))
}

/// The path at index `i` stands in front of the one at index `j`: its score is higher, or equal
/// and the path comes first in the order of strings, or both are equal and its index is lower.
pub open spec fn outranks(files: Seq<Seq<char>>, query: Seq<char>, i: int, j: int) -> bool {
    let a = score_at(files, query, i)->0;
    let b = score_at(files, query, j)->0;
    a > b || a == b && (if files[i] == files[j] {
        i < j
    } else {
        at_most(files[i], files[j])
    })
}

/// The indices of the paths that have a score, each once, in their rank.
pub open spec fn is_ranking(files: Seq<Seq<char>>, query: Seq<char>, list: Seq<int>) -> bool {
    &&& forall|k: int|
        0 <= k < list.len() ==> 0 <= #[trigger] list[k] < files.len() && score_at(
            files,
            query,
            list[k],
        ) is Some
    &&& forall|k: int, l: int|
        #![trigger list[k], list[l]]
        0 <= k < l < list.len() ==> outranks(files, query, list[k], list[l])
    &&& forall|i: int|
        0 <= i < files.len() && (#[trigger] score_at(files, query, i)) is Some ==> list.contains(i)
}

proof fn lemma_outranks(files: Seq<Seq<char>>, query: Seq<char>, i: int, j: int, k: int)
    ensures
        outranks(files, query, i, j) && outranks(files, query, j, k) ==> outranks(
            files,
            query,
            i,
            k,
        ),
        i < j ==> outranks(files, query, i, j) || outranks(files, query, j, i),
{
    if outranks(files, query, i, j) && outranks(files, query, j, k) {
        if at_most(files[i], files[j]) && at_most(files[j], files[k]) {
            lemma_transitive(files[i], files[j], files[k]);
            if files[i] == files[k] && files[i] != files[j] {
                lemma_antisymmetric(files[i], files[j]);
            }
        }
        lemma_total(files[i], files[j]);
        lemma_total(files[j], files[k]);
    }
    lemma_total(files[i], files[j]);
}

/// The picker's answer, and the picker after it up to the matches, which follow from the rest.
pub struct FinderStep {
    pub query: Seq<char>,
    pub focus: Focus,
    pub selected: int,
    pub effect: Option<FinderRequest>,
    pub render: RenderRequest,
}

impl FinderModel {
    /// The matches are those of the query in their rank, and one of them is selected if there is
    /// any.
    pub open spec fn wf(self) -> bool {
        &&& is_ranking(self.files, self.query, self.matches)
        &&& self.selected == 0 || 0 <= self.selected < self.matches.len()
    }

    pub open spec fn idle(self) -> FinderStep {
        FinderStep {
            query: self.query,
            focus: self.focus,
            selected: self.selected,
            effect: None,
            render: RenderRequest::Idle,
        }
    }

    pub open spec fn shown(self) -> FinderStep {
        FinderStep { render: RenderRequest::Immediate, ..self.idle() }
    }

    pub open spec fn asking(self, effect: FinderRequest) -> FinderStep {
        FinderStep { effect: Some(effect), ..self.shown() }
    }

    pub open spec fn searching(self, query: Seq<char>) -> FinderStep {
        FinderStep { query, selected: 0, ..self.shown() }
    }

    pub open spec fn turned(self) -> FinderStep {
        FinderStep { focus: self.focus.other(), ..self.shown() }
    }

    /// A search that finds one path inserts it; otherwise the list gets the focus. In the list the
    /// selected path is inserted.
    pub open spec fn entered(self) -> FinderStep {
        if self.focus == Focus::Search && self.matches.len() != 1 {
            self.turned()
        } else if self.matches.len() == 0 {
            self.idle()
        } else {
            self.asking(FinderRequest::Insert(self.files[self.matches[self.selected]]))
        }
    }

    pub open spec fn above(self) -> int {
        if self.selected > 0 {
            self.selected - 1
        } else {
            0
        }
    }

    pub open spec fn below(self) -> int {
        if self.selected + 1 < self.matches.len() {
            self.selected + 1
        } else {
            self.selected
        }
    }

    pub open spec fn on_key(self, key: KeyEvent) -> FinderStep {
        if !key.down() {
            self.idle()
        } else {
            match key.code {
                KeyCode::Esc => self.asking(FinderRequest::Dismiss),
                KeyCode::Backspace => if self.focus == Focus::Search && self.query.len() > 0 {
                    self.searching(without_last_cluster(self.query))
                } else {
                    self.asking(FinderRequest::Dismiss)
                },
                KeyCode::Enter => self.entered(),
                KeyCode::Tab | KeyCode::BackTab => self.turned(),
                KeyCode::Up => if self.focus == Focus::List {
                    FinderStep { selected: self.above(), ..self.shown() }
                } else {
                    self.idle()
                },
                KeyCode::Down => if self.focus == Focus::List {
                    FinderStep { selected: self.below(), ..self.shown() }
                } else {
                    self.idle()
                },
                KeyCode::Char(c) => if self.focus == Focus::Search && !key.modifiers.control
                    && !key.modifiers.alt {
                    self.searching(self.query.push(c))
                } else {
                    self.idle()
                },
                _ => self.idle(),
            }
        }
    }

    pub open spec fn pasted(self, text: Seq<char>) -> FinderStep {
        if self.focus == Focus::Search {
            self.searching(self.query + printable(text, text.len() as int))
        } else {
            self.idle()
        }
    }

    pub open spec fn on_event(self, event: FileFinderEvent) -> FinderStep {
        match event {
            FileFinderEvent::Terminal(Event::Key(key)) => self.on_key(key),
            FileFinderEvent::Terminal(Event::Paste(text)) => self.pasted(text@),
            FileFinderEvent::Terminal(_) => self.idle(),
            FileFinderEvent::Query(query) => self.searching(query@),
        }
    }

    /// The picker after a step that keeps the paths and the matches.
    pub open spec fn becomes(self, next: FinderModel, step: FinderStep) -> bool {
        &&& next.files == self.files
        &&& next.query == step.query
        &&& next.focus == step.focus
        &&& next.selected == step.selected
        &&& next.wf()
        &&& next.matches == self.matches
    }

    /// The picker after a step that may have changed the query.
    pub open spec fn becomes_or_refreshed(self, next: FinderModel, step: FinderStep) -> bool {
        &&& next.files == self.files
        &&& next.query == step.query
        &&& next.focus == step.focus
        &&& next.selected == step.selected
        &&& next.wf()
    }
}

/// The answer of a step.
pub open spec fn gives(update: ComponentUpdate<FileFinderEffect>, step: FinderStep) -> bool {
    &&& update.render == step.render
    &&& match step.effect {
        Some(effect) => update.effects@.len() == 1 && update.effects@[0]@ == effect,
        None => update.effects@.len() == 0,
    }
}

/// The paths that a query finds, in their rank.
pub open spec fn ranking(files: Seq<Seq<char>>, query: Seq<char>) -> Seq<int> {
    choose|list: Seq<int>| is_ranking(files, query, list)
}

/// The paths that the picker offers of a workspace: those without control characters, sorted.
pub open spec fn offered(paths: Seq<Seq<char>>) -> Seq<Seq<char>> {
    choose|files: Seq<Seq<char>>|
        is_sorted(files) && files.to_multiset() == clean_paths(
            paths,
            paths.len() as int,
        ).to_multiset()
}

impl FinderModel {
    /// The picker after a step.
    pub open spec fn after(self, step: FinderStep) -> FinderModel {
        FinderModel {
            files: self.files,
            query: step.query,
            focus: step.focus,
            selected: step.selected,
            matches: ranking(self.files, step.query),
        }
    }

    /// The picker for the paths of a workspace, with an empty query.
    pub open spec fn opened(paths: Seq<Seq<char>>) -> FinderModel {
        FinderModel {
            files: offered(paths),
            query: Seq::empty(),
            focus: Focus::Search,
            selected: 0,
            matches: ranking(offered(paths), Seq::empty()),
        }
    }
}

/// A step determines the picker after it.
pub proof fn lemma_after(finder: FinderModel, next: FinderModel, step: FinderStep)
    requires
        finder.becomes_or_refreshed(next, step),
    ensures
        next == finder.after(step),
{
    law_ranking_is_determined(
        next.files,
        next.query,
        next.matches,
        ranking(next.files, next.query),
    );
}

/// The paths of a workspace determine the picker that opens.
pub proof fn lemma_opened(finder: FinderModel, paths: Seq<Seq<char>>)
    requires
        finder.wf(),
        is_sorted(finder.files),
        finder.files.to_multiset() == clean_paths(paths, paths.len() as int).to_multiset(),
        finder.query == Seq::<char>::empty(),
        finder.focus == Focus::Search,
        finder.selected == 0,
    ensures
        finder == FinderModel::opened(paths),
{
    let files = offered(paths);
    assert(is_sorted(files) && files.to_multiset() == finder.files.to_multiset());
    law_sorting_is_determined(finder.files, files);
    law_ranking_is_determined(files, finder.query, finder.matches, ranking(files, finder.query));
}

/// There is only one way to sort paths.
pub proof fn law_sorting_is_determined(a: Seq<Seq<char>>, b: Seq<Seq<char>>)
    requires
        is_sorted(a),
        is_sorted(b),
        a.to_multiset() == b.to_multiset(),
    ensures
        a == b,
{
    let leq = |x: Seq<char>, y: Seq<char>| at_most(x, y);
    assert(vstd::relations::sorted_by(a, leq));
    assert(vstd::relations::sorted_by(b, leq));
    assert forall|x: Seq<char>| #[trigger] leq(x, x) by {
        lemma_total(x, x);
    }
    assert forall|x: Seq<char>, y: Seq<char>|
        #[trigger] leq(x, y) && #[trigger] leq(y, x) implies x == y by {
        lemma_antisymmetric(x, y);
    }
    assert forall|x: Seq<char>, y: Seq<char>, z: Seq<char>|
        #[trigger] leq(x, y) && #[trigger] leq(y, z) implies leq(x, z) by {
        lemma_transitive(x, y, z);
    }
    assert forall|x: Seq<char>, y: Seq<char>|
        #[trigger] leq(x, y) || #[trigger] leq(y, x) by {
        lemma_total(x, y);
    }
    assert(vstd::relations::total_ordering(leq));
    vstd::seq_lib::lemma_sorted_unique(a, b, leq);
}

/// There is only one ranking.
pub proof fn law_ranking_is_determined(
    files: Seq<Seq<char>>,
    query: Seq<char>,
    a: Seq<int>,
    b: Seq<int>,
)
    requires
        is_ranking(files, query, a),
        is_ranking(files, query, b),
    ensures
        a == b,
    decreases a.len(),
{
    lemma_same_prefix(files, query, a, b, a.len() as int);
    lemma_same_prefix(files, query, b, a, b.len() as int);
    if a.len() < b.len() {
        assert(a.take(a.len() as int) =~= a);
        let extra = b[a.len() as int];
        assert(score_at(files, query, extra) is Some);
        assert(a.contains(extra));
        let k = choose|k: int| 0 <= k < a.len() && a[k] == extra;
        assert(b[k] == a[k]);
        assert(outranks(files, query, b[k], b[a.len() as int]));
    } else if b.len() < a.len() {
        let extra = a[b.len() as int];
        assert(score_at(files, query, extra) is Some);
        assert(b.contains(extra));
        let k = choose|k: int| 0 <= k < b.len() && b[k] == extra;
        assert(a[k] == b[k]);
        assert(outranks(files, query, a[k], a[b.len() as int]));
    }
    assert(a =~= b);
}

proof fn lemma_same_prefix(
    files: Seq<Seq<char>>,
    query: Seq<char>,
    a: Seq<int>,
    b: Seq<int>,
    n: int,
)
    requires
        is_ranking(files, query, a),
        is_ranking(files, query, b),
        0 <= n <= a.len(),
    ensures
        forall|k: int| 0 <= k < n && k < b.len() ==> a[k] == b[k],
    decreases n,
{
    if n > 0 {
        lemma_same_prefix(files, query, a, b, n - 1);
        let m = n - 1;
        if m < b.len() && a[m] != b[m] {
            assert(score_at(files, query, a[m]) is Some && score_at(files, query, b[m]) is Some);
            assert(b.contains(a[m]) && a.contains(b[m]));
            let p = choose|p: int| 0 <= p < b.len() && b[p] == a[m];
            let q = choose|q: int| 0 <= q < a.len() && a[q] == b[m];
            if p < m {
                assert(a[p] == b[p]);
                assert(outranks(files, query, a[p], a[m]));
            } else if q < m {
                assert(a[q] == b[q]);
                assert(outranks(files, query, b[q], b[m]));
            } else {
                assert(outranks(files, query, b[m], b[p]));
                assert(outranks(files, query, a[m], a[q]));
                lemma_outranks(files, query, a[m], b[m], a[m]);
            }
        }
    }
}

impl FileFinder {
    /// The picker for the paths of a workspace, with an empty query.
    pub fn new(paths: Vec<String>) -> (finder: Self)
        ensures
            finder@.wf(),
            is_sorted(finder@.files),
            finder@.files.to_multiset() == clean_paths(
                texts(paths@),
                paths@.len() as int,
            ).to_multiset(),
            finder@.query == Seq::<char>::empty(),
            finder@.focus == Focus::Search,
            finder@.selected == 0,
            finder@.matches == Seq::new(finder@.files.len(), |i: int| i),
    {
        let files = discover_files(paths);
        let mut matches: Vec<usize> = Vec::new();
        let mut i: usize = 0;
        while i < files.len()
            invariant
                i <= files@.len(),
                indices(matches@) == Seq::new(i as nat, |k: int| k),
            decreases files@.len() - i,
        {
            let ghost sofar = indices(matches@);
            matches.push(i);
            assert(indices(matches@) =~= sofar.push(i as int));
            i = i + 1;
            assert(indices(matches@) =~= Seq::new(i as nat, |k: int| k));
        }
        let finder = FileFinder {
            files,
            query: String::new(),
            focus: Focus::Search,
            selected: 0,
            matches,
        };
        proof {
            let f = finder@;
            assert(f.query =~= Seq::<char>::empty());
            assert(lowercase(f.query) =~= Seq::<char>::empty());
            assert forall|i: int|
                0 <= i < f.files.len() && (#[trigger] score_at(
                    f.files,
                    f.query,
                    i,
                )) is Some implies f.matches.contains(i) by {
                assert(f.matches[i] == i);
            }
        }
        finder
    }

    /// Finds the paths again and selects the first one.
    pub fn refresh_matches(&mut self)
        ensures
            final(self)@.files == old(self)@.files,
            final(self)@.query == old(self)@.query,
            final(self)@.focus == old(self)@.focus,
            final(self)@.selected == 0,
            final(self)@.wf(),
    {
        let ghost files = self@.files;
        let ghost query = self@.query;
        let lowered = lower_characters(self.query.as_str());
        let wanted: String = collect(&lowered);
        let mut ranked: Vec<usize> = Vec::new();
        let mut scores: Vec<usize> = Vec::new();
        let mut i: usize = 0;
        while i < self.files.len()
            invariant
                files == texts(self.files@),
                wanted@ == lowercase(query),
                i <= self.files@.len(),
                ranked@.len() == scores@.len(),
                forall|k: int|
                    0 <= k < ranked@.len() ==> 0 <= #[trigger] ranked@[k] < i && score_at(
                        files,
                        query,
                        ranked@[k] as int,
                    ) == Some(scores@[k] as int),
                forall|k: int, l: int|
                    #![trigger ranked@[k], ranked@[l]]
                    0 <= k < l < ranked@.len() ==> outranks(
                        files,
                        query,
                        ranked@[k] as int,
                        ranked@[l] as int,
                    ),
                forall|j: int|
                    0 <= j < i && (#[trigger] score_at(files, query, j)) is Some
                        ==> indices(ranked@).contains(j),
            decreases self.files@.len() - i,
        {
            assert(files[i as int] == self.files@[i as int]@);
            let ghost earlier = ranked@;
            match fuzzy_score(self.files[i].as_str(), wanted.as_str()) {
                Some(worth) => {
                    let mut at: usize = ranked.len();
                    while at > 0 && self.before(worth, i, scores[at - 1], ranked[at - 1])
                        invariant
                            at <= ranked@.len(),
                            ranked@ == earlier,
                            files == texts(self.files@),
                            i < self.files@.len(),
                            ranked@.len() == scores@.len(),
                            score_at(files, query, i as int) == Some(worth as int),
                            forall|k: int|
                                0 <= k < ranked@.len() ==> 0 <= #[trigger] ranked@[k] < i
                                    && score_at(files, query, ranked@[k] as int) == Some(
                                    scores@[k] as int,
                                ),
                            forall|k: int|
                                at <= k < ranked@.len() ==> outranks(
                                    files,
                                    query,
                                    i as int,
                                    #[trigger] ranked@[k] as int,
                                ),
                        decreases at,
                    {
                        at = at - 1;
                    }
                    proof {
                        if at > 0 {
                            lemma_outranks(
                                files,
                                query,
                                ranked@[at - 1] as int,
                                i as int,
                                i as int,
                            );
                        }
                    }
                    ranked.insert(at, i);
                    scores.insert(at, worth);
                    proof {
                        lemma_inserted(files, query, earlier, ranked@, at as int, i);
                    }
                },
                None => {},
            }
            i = i + 1;
        }
        self.matches = ranked;
        self.selected = 0;
        proof {
            let list = indices(self.matches@);
            assert forall|k: int| 0 <= k < list.len() implies 0 <= #[trigger] list[k] < files.len()
                && score_at(files, query, list[k]) is Some by {
                assert(list[k] == self.matches@[k]);
            }
            assert forall|k: int, l: int|
                #![trigger list[k], list[l]]
                0 <= k < l < list.len() implies outranks(files, query, list[k], list[l]) by {
                assert(list[k] == self.matches@[k] && list[l] == self.matches@[l]);
            }
        }
    }

    /// Whether a path with a score stands in front of an earlier path with its score.
    fn before(&self, worth: usize, i: usize, other_worth: usize, j: usize) -> (yes: bool)
        requires
            i < self.files@.len(),
            j < i,
        ensures
            yes == (worth > other_worth || worth == other_worth && self@.files[i as int]
                != self@.files[j as int] && at_most(
                self@.files[i as int],
                self@.files[j as int],
            )),
    {
        assert(self@.files[i as int] == self.files@[i as int]@);
        assert(self@.files[j as int] == self.files@[j as int]@);
        worth > other_worth || (worth == other_worth && !same(
            self.files[i].as_str(),
            self.files[j].as_str(),
        ) && in_order(self.files[i].as_str(), self.files[j].as_str()))
    }
}

proof fn lemma_inserted(
    files: Seq<Seq<char>>,
    query: Seq<char>,
    earlier: Seq<usize>,
    list: Seq<usize>,
    at: int,
    i: usize,
)
    requires
        0 <= at <= earlier.len(),
        list == earlier.insert(at, i),
        forall|k: int, l: int|
            #![trigger earlier[k], earlier[l]]
            0 <= k < l < earlier.len() ==> outranks(
                files,
                query,
                earlier[k] as int,
                earlier[l] as int,
            ),
        forall|k: int|
            at <= k < earlier.len() ==> outranks(
                files,
                query,
                i as int,
                #[trigger] earlier[k] as int,
            ),
        at > 0 ==> outranks(files, query, earlier[at - 1] as int, i as int),
    ensures
        forall|k: int, l: int|
            #![trigger list[k], list[l]]
            0 <= k < l < list.len() ==> outranks(files, query, list[k] as int, list[l] as int),
        forall|j: int| indices(earlier).contains(j) ==> #[trigger] indices(list).contains(j),
        indices(list).contains(i as int),
{
    assert forall|k: int, l: int|
        #![trigger list[k], list[l]]
        0 <= k < l < list.len() implies outranks(
        files,
        query,
        list[k] as int,
        list[l] as int,
    ) by {
        if k == at {
            assert(list[l] == earlier[l - 1]);
        } else if l == at {
            assert(list[k] == earlier[k]);
            if k < at - 1 {
                assert(outranks(files, query, earlier[k] as int, earlier[at - 1] as int));
                lemma_outranks(
                    files,
                    query,
                    earlier[k] as int,
                    earlier[at - 1] as int,
                    i as int,
                );
            }
        } else {
            let a = if k < at {
                k
            } else {
                k - 1
            };
            let b = if l < at {
                l
            } else {
                l - 1
            };
            assert(list[k] == earlier[a] && list[l] == earlier[b]);
        }
    }
    assert forall|j: int| indices(earlier).contains(j) implies #[trigger] indices(list).contains(
        j,
    ) by {
        let k = choose|k: int| 0 <= k < indices(earlier).len() && indices(earlier)[k] == j;
        if k < at {
            assert(indices(list)[k] == j);
        } else {
            assert(indices(list)[k + 1] == j);
        }
    }
    assert(indices(list)[at] == i);
}

/// The characters of a vector as a string.
fn collect(chars: &Vec<char>) -> (text: String)
    ensures
        text@ == chars@,
{
    let mut text = String::new();
    let mut i: usize = 0;
    while i < chars.len()
        invariant
            i <= chars@.len(),
            text@ == chars@.take(i as int),
        decreases chars@.len() - i,
    {
        text.push(chars[i]);
        i = i + 1;
        assert(text@ =~= chars@.take(i as int));
    }
    assert(text@ =~= chars@);
    text
}

/// The keys that the footer names, which depend on what the enter key would do.
pub open spec fn finder_keys(focus: Focus, count: int) -> Seq<&'static str> {
    if focus == Focus::Search && count == 0 {
        seq!["tab focus", "esc close"]
    } else if focus == Focus::Search && count > 1 {
        seq!["tab focus", "↑↓ move", "enter focus results", "esc close"]
    } else if count == 0 {
        seq!["tab focus", "↑↓ move", "esc close"]
    } else {
        seq!["tab focus", "↑↓ move", "enter insert", "esc close"]
    }
}

impl FinderModel {
    /// The list of paths.
    pub open spec fn list_strokes(self, area: Rect) -> Seq<Stroke> {
        if area.empty() {
            Seq::empty()
        } else {
            seq![
                Stroke::List {
                    area,
                    items: Seq::new(
                        self.matches.len(),
                        |i: int|
                            seq![
                                seq![
                                    Word {
                                        text: self.files[self.matches[i]],
                                        look: colored(Tone::Text),
                                    },
                                ],
                            ],
                    ),
                    selected: if self.matches.len() == 0 {
                        None
                    } else {
                        Some(self.selected)
                    },
                    marker: self.focus == Focus::List,
                    highlight: Some(bold_colored(Tone::Accent)),
                    cursor: self.focus == Focus::List && self.matches.len() > 0,
                },
            ]
        }
    }

    /// What the picker draws over an area.
    pub open spec fn picture(self, area: Rect) -> Seq<Stroke> {
        let frame = popup(
            "Files"@,
            72,
            14,
            finder_keys(self.focus, self.matches.len() as int),
        );
        let body = frame.body(area);
        if area.empty() {
            Seq::empty()
        } else if body.empty() {
            frame.picture(area)
        } else {
            frame.picture(area) + search_strokes(
                self.query,
                self.focus == Focus::Search,
                first_row(body),
            ) + self.list_strokes(other_rows(body))
        }
    }
}

impl FileFinder {
    /// Closes the picker.
    pub fn dismiss() -> (update: ComponentUpdate<FileFinderEffect>)
        ensures
            update.effects@ == seq![FileFinderEffect::Dismiss],
            update.render == RenderRequest::Immediate,
    {
        ComponentUpdate::one(FileFinderEffect::Dismiss, RenderRequest::Immediate)
    }

    /// Gives the focus to the other part.
    pub fn toggle_focus(&mut self)
        ensures
            final(self)@ == (FinderModel { focus: old(self)@.focus.other(), ..old(self)@ }),
    {
        self.focus = self.focus.toggled();
    }

    /// Removes the last cluster of the query. Where the query is empty, nothing happens.
    pub fn remove_last_grapheme(&mut self)
        ensures
            old(self)@.query.len() == 0 ==> final(self)@ == old(self)@,
            old(self)@.query.len() > 0 ==> {
                &&& final(self)@.files == old(self)@.files
                &&& final(self)@.query == without_last_cluster(old(self)@.query)
                &&& final(self)@.focus == old(self)@.focus
                &&& final(self)@.selected == 0
                &&& final(self)@.wf()
            },
    {
        if self.query.as_str().is_empty() {
            return ;
        }
        pop_cluster(&mut self.query);
        self.refresh_matches();
    }

    /// Selects the path above.
    pub fn select_previous(&mut self)
        requires
            old(self)@.wf(),
        ensures
            final(self)@ == (FinderModel { selected: old(self)@.above(), ..old(self)@ }),
            final(self)@.wf(),
    {
        self.selected = self.selected.saturating_sub(1);
    }

    /// Selects the path below.
    pub fn select_next(&mut self)
        requires
            old(self)@.wf(),
        ensures
            final(self)@ == (FinderModel { selected: old(self)@.below(), ..old(self)@ }),
            final(self)@.wf(),
    {
        if self.matches.len() > 0 && self.selected < self.matches.len() - 1 {
            self.selected = self.selected + 1;
        }
    }

    /// Pastes text into the query.
    pub fn insert_paste(&mut self, text: &str) -> (update: ComponentUpdate<FileFinderEffect>)
        requires
            old(self)@.wf(),
        ensures
            old(self)@.becomes_or_refreshed(final(self)@, old(self)@.pasted(text@)),
            gives(update, old(self)@.pasted(text@)),
    {
        if self.focus != Focus::Search {
            return ComponentUpdate::none();
        }
        push_printable(&mut self.query, text);
        self.refresh_matches();
        ComponentUpdate::render(RenderRequest::Immediate)
    }

    /// Handles the enter key.
    pub fn handle_enter(&mut self) -> (update: ComponentUpdate<FileFinderEffect>)
        requires
            old(self)@.wf(),
        ensures
            old(self)@.becomes(final(self)@, old(self)@.entered()),
            gives(update, old(self)@.entered()),
    {
        if self.focus == Focus::Search && self.matches.len() != 1 {
            self.toggle_focus();
            return ComponentUpdate::render(RenderRequest::Immediate);
        }
        if self.matches.len() == 0 {
            return ComponentUpdate::none();
        }
        assert(self@.matches[self@.selected] == self.matches@[self.selected as int]);
        let index: usize = self.matches[self.selected];
        assert(self@.files[index as int] == self.files@[index as int]@);
        ComponentUpdate::one(
            FileFinderEffect::Insert(self.files[index].clone()),
            RenderRequest::Immediate,
        )
    }

    /// The keys that the footer names.
    pub fn key_bindings(&self) -> (keys: Vec<&'static str>)
        ensures
            keys@ == finder_keys(self@.focus, self@.matches.len() as int),
    {
        let mut keys: Vec<&'static str> = Vec::new();
        keys.push("tab focus");
        let count: usize = self.matches.len();
        if !(self.focus == Focus::Search && count == 0) {
            keys.push("↑↓ move");
            if self.focus == Focus::Search && count > 1 {
                keys.push("enter focus results");
            } else if count > 0 {
                keys.push("enter insert");
            }
        }
        keys.push("esc close");
        assert(keys@ =~= finder_keys(self@.focus, count as int));
        keys
    }

    /// Handles a key.
    pub fn update_key(&mut self, key: KeyEvent) -> (update: ComponentUpdate<FileFinderEffect>)
        requires
            old(self)@.wf(),
        ensures
            old(self)@.becomes_or_refreshed(final(self)@, old(self)@.on_key(key)),
            gives(update, old(self)@.on_key(key)),
    {
        if !key.is_down() {
            return ComponentUpdate::none();
        }
        match key.code {
            KeyCode::Esc => Self::dismiss(),
            KeyCode::Backspace => {
                if self.focus == Focus::Search && !self.query.as_str().is_empty() {
                    self.remove_last_grapheme();
                    ComponentUpdate::render(RenderRequest::Immediate)
                } else {
                    Self::dismiss()
                }
            },
            KeyCode::Enter => self.handle_enter(),
            KeyCode::Tab | KeyCode::BackTab => {
                self.toggle_focus();
                ComponentUpdate::render(RenderRequest::Immediate)
            },
            KeyCode::Up => {
                if self.focus != Focus::List {
                    return ComponentUpdate::none();
                }
                self.select_previous();
                ComponentUpdate::render(RenderRequest::Immediate)
            },
            KeyCode::Down => {
                if self.focus != Focus::List {
                    return ComponentUpdate::none();
                }
                self.select_next();
                ComponentUpdate::render(RenderRequest::Immediate)
            },
            KeyCode::Char(character) => {
                if self.focus != Focus::Search || key.modifiers.control || key.modifiers.alt {
                    return ComponentUpdate::none();
                }
                self.query.push(character);
                self.refresh_matches();
                ComponentUpdate::render(RenderRequest::Immediate)
            },
            _ => ComponentUpdate::none(),
        }
    }

    /// Handles an event.
    pub fn update(&mut self, event: FileFinderEvent) -> (update: ComponentUpdate<FileFinderEffect>)
        requires
            old(self)@.wf(),
        ensures
            old(self)@.becomes_or_refreshed(final(self)@, old(self)@.on_event(event)),
            gives(update, old(self)@.on_event(event)),
    {
        match event {
            FileFinderEvent::Terminal(Event::Key(key)) => self.update_key(key),
            FileFinderEvent::Terminal(Event::Paste(text)) => self.insert_paste(text.as_str()),
            FileFinderEvent::Terminal(_) => ComponentUpdate::none(),
            FileFinderEvent::Query(query) => {
                self.query = query;
                self.refresh_matches();
                ComponentUpdate::render(RenderRequest::Immediate)
            },
        }
    }

    /// Draws the list of paths.
    pub fn render_files(&self, area: Rect, paints: &mut Vec<Paint>)
        requires
            self@.wf(),
        ensures
            strokes(final(paints)@) == strokes(old(paints)@) + self@.list_strokes(area),
    {
        let ghost start = strokes(paints@);
        if area.is_empty() {
            assert(strokes(paints@) =~= start + self@.list_strokes(area));
            return ;
        }
        let ghost expected = Seq::new(
            self@.matches.len(),
            |i: int|
                seq![
                    seq![
                        Word { text: self@.files[self@.matches[i]], look: colored(Tone::Text) },
                    ],
                ],
        );
        let mut list: Vec<Vec<Vec<Words>>> = Vec::new();
        let mut row: usize = 0;
        while row < self.matches.len()
            invariant
                row <= self.matches@.len(),
                self@.wf(),
                expected == Seq::new(
                    self@.matches.len(),
                    |i: int|
                        seq![
                            seq![
                                Word {
                                    text: self@.files[self@.matches[i]],
                                    look: colored(Tone::Text),
                                },
                            ],
                        ],
                ),
                items(list@) == expected.take(row as int),
            decreases self.matches@.len() - row,
        {
            let ghost sofar = items(list@);
            assert(self@.matches[row as int] == self.matches@[row as int]);
            let index: usize = self.matches[row];
            assert(self@.files[index as int] == self.files@[index as int]@);
            let mut line: Vec<Words> = Vec::new();
            say(&mut line, self.files[index].clone(), Look::plain(Tone::Text));
            let ghost word = words(line@);
            let mut item: Vec<Vec<Words>> = Vec::new();
            item.push(line);
            list.push(item);
            proof {
                assert(word =~= seq![
                    Word { text: self@.files[index as int], look: colored(Tone::Text) },
                ]);
                assert(lines(item@) =~= seq![word]);
                assert(items(list@) =~= sofar.push(lines(item@)));
                assert(items(list@) =~= expected.take(row + 1));
            }
            row = row + 1;
        }
        assert(items(list@) =~= expected);
        let some: bool = self.matches.len() > 0;
        let focused: bool = self.focus == Focus::List;
        let selected: Option<usize> = if some {
            Some(self.selected)
        } else {
            None
        };
        paint(
            paints,
            Paint::List {
                area,
                items: list,
                selected,
                marker: focused,
                highlight: Some(Look::bold(Tone::Accent)),
                cursor: focused && some,
            },
        );
        assert(strokes(paints@) =~= start + self@.list_strokes(area));
    }

    /// Draws the picker over an area.
    pub fn render(&self, area: Rect) -> (paints: Vec<Paint>)
        requires
            self@.wf(),
            area.fits(),
        ensures
            strokes(paints@) == self@.picture(area),
    {
        let mut paints: Vec<Paint> = Vec::new();
        assert(strokes(paints@) =~= Seq::<Stroke>::empty());
        if area.is_empty() {
            return paints;
        }
        let keys = self.key_bindings();
        let frame = Floating::new("Files", 72, 14, &keys);
        let body: Rect = frame.render(area, &mut paints);
        assert(strokes(paints@) =~= frame@.picture(area));
        if body.is_empty() {
            return paints;
        }
        let (search, rest) = split_first_row(body);
        render_search(self.query.as_str(), self.focus == Focus::Search, search, &mut paints);
        self.render_files(rest, &mut paints);
        assert(strokes(paints@) =~= self@.picture(area));
        paints
    }
}

} // verus!
