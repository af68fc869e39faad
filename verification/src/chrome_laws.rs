//! What holds of the frame around the draft, of popups and of links.

use crate::chrome::{scrolled, Labels};
use crate::composer::{percent_of_window, ComposerModel};
use crate::geometry::{inside, middle, top_middle, Position, Rect};
use crate::numeral::decimal;
use crate::paths::{digits_of, is_web, joined_path, last_mark, link_file, value_of};
use crate::text::{begins, display_width};
use vstd::prelude::*;

verus! {

/// The share of the window is given in whole percent, rounded to the nearest one.
pub proof fn law_the_share_is_rounded(tokens: int, percent: int)
    requires
        0 <= tokens,
        tokens * 100 + 136_000 <= u64::MAX,
        2 * percent * 2_720 - 2_720 <= 2 * tokens < 2 * percent * 2_720 + 2_720,
    ensures
        percent_of_window(tokens) == percent,
{
}

/// The more tokens are used, the larger the share, and it is a hundred percent where the window is
/// full.
pub proof fn law_the_share_grows(a: int, b: int)
    requires
        0 <= a <= b,
    ensures
        percent_of_window(a) <= percent_of_window(b),
        percent_of_window(0) == 0,
        percent_of_window(272_000) == 100,
        percent_of_window(136_000) == 50,
{
}

/// The rows that are shown move no further than the cursor makes them, and never beyond the last
/// row.
pub proof fn law_rows_stay_unless_they_must_move(
    scroll: int,
    cursor_row: int,
    visible: int,
    lines: int,
)
    requires
        0 <= scroll,
        0 <= cursor_row < lines,
        0 < visible,
    ensures
        ({
            let next = scrolled(scroll, cursor_row, visible, lines);
            &&& 0 <= next
            &&& lines <= visible ==> next == 0
            &&& lines > visible ==> next + visible <= lines
            &&& scroll <= cursor_row < scroll + visible <= lines ==> next == scroll
            &&& cursor_row < scroll && scroll + visible <= lines ==> next == cursor_row
            &&& cursor_row >= scroll + visible ==> next + visible == cursor_row + 1
        }),
{
}

/// The labels on the right end in front of the right corner where they have room, one behind the
/// other: the model, the effort, and the shell.
pub proof fn law_the_right_labels_end_at_the_corner(labels: Labels, area: Rect)
    requires
        area.fits(),
        area.width >= 4,
        labels.right_columns() <= area.width - 4,
    ensures
        labels.right_start(area) + labels.right_columns() == labels.content_end(area),
        area.x + 2 <= labels.right_start(area),
        labels.effort_start(area) - labels.right_start(area) == display_width(
            labels.model_label(),
        ),
        labels.shell_start(area) - labels.effort_start(area) == display_width(
            labels.effort_label(),
        ),
        labels.shell ==> labels.shell_start(area) + display_width(" shell "@)
            == labels.content_end(area),
        !labels.shell ==> labels.shell_start(area) == labels.content_end(area),
{
}

/// A click on the effort hits its label and nothing else: the area is one row high, on the upper
/// border, from the label's first cell to its last.
pub proof fn law_the_effort_is_where_it_is_drawn(labels: Labels, area: Rect)
    requires
        area.fits(),
        area.width >= 4,
        labels.right_columns() <= area.width - 4,
        display_width(labels.effort_label()) > 0,
    ensures
        labels.effort_area(area) matches Some(hit) && hit.x == labels.effort_start(area) && hit.y
            == area.y && hit.height == 1 && hit.width == display_width(labels.effort_label()),
{
}

/// The label of the subagents can be clicked on only where there are any; it stands on the upper
/// border, behind the use of the window and in front of the labels on the right.
pub proof fn law_subagents_are_where_they_are_drawn(labels: Labels, area: Rect)
    requires
        area.fits(),
    ensures
        labels.subagents <= 0 ==> labels.subagent_area(area) is None,
        labels.subagent_area(area) matches Some(hit) ==> labels.subagents > 0 && hit.y == area.y
            && hit.height == 1 && hit.x + hit.width <= labels.right_start(area) && hit.x >= area.x
            + 2,
{
}

/// The draft has room for three rows at least and for six at most, and as many as it needs between,
/// besides its frame.
pub proof fn law_the_draft_grows_with_its_rows(model: ComposerModel, width: int)
    requires
        width >= 2,
    ensures
        ({
            let rows = model.edit.visual_rows(width - 2).len();
            &&& rows <= 3 ==> model.height_in(width) == 5
            &&& 3 <= rows <= 6 ==> model.height_in(width) == rows + 2
            &&& rows >= 6 ==> model.height_in(width) == 8
        }),
{
}

/// A popup stands in the middle: the margins on two opposite sides are equal, or the far one is one
/// cell larger. It has the size that was asked for where there is room.
pub proof fn law_popups_are_centred(area: Rect, width: int, height: int)
    requires
        area.fits(),
        0 <= width,
        0 <= height,
    ensures
        ({
            let part = middle(area, width, height);
            let left = part.x - area.x;
            let right = area.x + area.width - part.x - part.width;
            let top = part.y - area.y;
            let bottom = area.y + area.height - part.y - part.height;
            &&& 0 <= left <= right <= left + 1
            &&& 0 <= top <= bottom <= top + 1
            &&& width <= area.width ==> part.width == width
            &&& width > area.width ==> part.width == area.width
            &&& height <= area.height ==> part.height == height
            &&& height > area.height ==> part.height == area.height
        }),
        ({
            let part = top_middle(area, width, height);
            let left = part.x - area.x;
            let right = area.x + area.width - part.x - part.width;
            &&& part.y == area.y
            &&& 0 <= left <= right <= left + 1
            &&& part.width == middle(area, width, height).width
            &&& part.height == middle(area, width, height).height
        }),
{
}

/// The inside of a frame is the area without its outermost cells.
pub proof fn law_frames_take_one_cell(area: Rect, p: Position)
    requires
        area.fits(),
        area.width >= 2,
        area.height >= 2,
    ensures
        inside(area).covers(p) <==> area.covers(p) && p.x != area.x && p.y != area.y && p.x
            != area.x + area.width - 1 && p.y != area.y + area.height - 1,
{
}

/// A relative path stands behind its base and a slash; an absolute one stands alone.
pub proof fn law_paths_are_joined(base: Seq<char>, path: Seq<char>)
    ensures
        path.len() > 0 && path[0] == '/' ==> joined_path(base, path) == path,
        (path.len() == 0 || path[0] != '/') && base.len() > 0 && base.last() != '/' ==> joined_path(
            base,
            path,
        ) == base + seq!['/'] + path,
        (path.len() == 0 || path[0] != '/') && base.len() > 0 && base.last() == '/' ==> joined_path(
            base,
            path,
        ) == base + path,
{
    assert(base.push('/') =~= base + seq!['/']);
}

/// Links to the web begin with one of the two schemes; a path does not.
pub proof fn law_web_links_have_a_scheme(rest: Seq<char>)
    ensures
        is_web("https://"@ + rest),
        is_web("http://"@ + rest),
        rest.len() > 0 && rest[0] != 'h' ==> !is_web(rest),
        !is_web("file://"@ + rest),
{
    reveal_strlit("https://");
    reveal_strlit("http://");
    reveal_strlit("file://");
    assert(("https://"@ + rest).take(8) =~= "https://"@);
    assert(("http://"@ + rest).take(7) =~= "http://"@);
    let other = "file://"@ + rest;
    assert(other[0] == 'f');
    assert(other.take(7)[0] == 'f');
    assert(other.len() >= 8 ==> other.take(8)[0] == 'f');
    if rest.len() > 0 && rest[0] != 'h' {
        assert(rest.len() >= 7 ==> rest.take(7)[0] == rest[0]);
        assert(rest.len() >= 8 ==> rest.take(8)[0] == rest[0]);
    }
}

proof fn lemma_digits(n: int)
    requires
        n >= 0,
    ensures
        decimal(n).len() > 0,
        forall|i: int| 0 <= i < decimal(n).len() ==> '0' <= #[trigger] decimal(n)[i] <= '9',
        value_of(decimal(n), decimal(n).len() as int) == n,
    decreases n,
{
    if n >= 10 {
        lemma_digits(n / 10);
        let head = decimal(n / 10);
        lemma_value(head, decimal(n), head.len() as int);
    } else {
        reveal_with_fuel(value_of, 2);
    }
}

proof fn lemma_value(a: Seq<char>, b: Seq<char>, n: int)
    requires
        0 <= n <= a.len(),
        n <= b.len(),
        forall|i: int| 0 <= i < n ==> #[trigger] a[i] == b[i],
    ensures
        value_of(a, n) == value_of(b, n),
    decreases n,
{
    if n > 0 {
        lemma_value(a, b, n - 1);
        assert(a[n - 1] == b[n - 1]);
    }
}

proof fn lemma_last_mark(text: Seq<char>, mark: Seq<char>, at: int, n: int)
    requires
        0 <= at < n <= text.len(),
        mark.len() > 0,
        begins(text.skip(at), mark),
        forall|i: int| at < i < text.len() ==> #[trigger] text[i] != mark[0],
    ensures
        last_mark(text, mark, n) == at,
    decreases n,
{
    if n - 1 > at {
        let tail = text.skip(n - 1);
        assert(tail[0] == text[n - 1]);
        if begins(tail, mark) {
            assert(tail.take(mark.len() as int)[0] == tail[0]);
        }
        lemma_last_mark(text, mark, at, n - 1);
    }
}

proof fn lemma_no_mark(text: Seq<char>, mark: Seq<char>, n: int)
    requires
        0 <= n <= text.len(),
        mark.len() > 0,
        forall|i: int| 0 <= i < text.len() ==> #[trigger] text[i] != mark[0],
    ensures
        last_mark(text, mark, n) == -1,
    decreases n,
{
    if n > 0 {
        let tail = text.skip(n - 1);
        assert(tail[0] == text[n - 1]);
        if begins(tail, mark) {
            assert(tail.take(mark.len() as int)[0] == tail[0]);
        }
        lemma_no_mark(text, mark, n - 1);
    }
}

/// The number of a line behind a file's name is no part of the name: a link leads to the file. The
/// scheme of a file is no part of it either.
pub proof fn law_line_numbers_are_left_out(path: Seq<char>, line: int, workspace: Seq<char>)
    requires
        path.len() > 0,
        path[0] == '/',
        forall|i: int| 0 <= i < path.len() ==> #[trigger] path[i] != '#' && path[i] != ':',
        0 <= line <= u32::MAX,
    ensures
        link_file(path, workspace) == path,
        link_file(path + ":"@ + decimal(line), workspace) == path,
        link_file(path + "#L"@ + decimal(line), workspace) == path,
        link_file("file://"@ + path, workspace) == path,
{
    reveal_strlit(":");
    reveal_strlit("#L");
    reveal_strlit("file://");
    let number = decimal(line);
    lemma_digits(line);
    assert(digits_of(number) == number) by {
        assert('0' <= number[0] <= '9');
    }
    let k = path.len() as int;
    assert(!begins(path, "file://"@)) by {
        if begins(path, "file://"@) {
            assert(path.take(7)[0] == path[0]);
        }
    }
    lemma_no_mark(path, "#L"@, k);
    lemma_no_mark(path, ":"@, k);
    let first = path + ":"@ + number;
    assert(first[0] == '/');
    assert(!begins(first, "file://"@)) by {
        if begins(first, "file://"@) {
            assert(first.take(7)[0] == first[0]);
        }
    }
    assert forall|i: int| 0 <= i < first.len() implies #[trigger] first[i] != '#' by {
        if i > k {
            assert(first[i] == number[i - k - 1]);
            assert('0' <= number[i - k - 1] <= '9');
        } else if i < k {
            assert(first[i] == path[i]);
        }
    }
    lemma_no_mark(first, "#L"@, first.len() as int);
    assert forall|i: int| k < i < first.len() implies #[trigger] first[i] != ':' by {
        assert(first[i] == number[i - k - 1]);
        assert('0' <= number[i - k - 1] <= '9');
    }
    assert(first.skip(k).take(1) =~= ":"@);
    lemma_last_mark(first, ":"@, k, first.len() as int);
    assert(first.skip(k + 1) =~= number);
    assert(first.take(k) =~= path);
    let second = path + "#L"@ + number;
    assert(second[0] == '/');
    assert(!begins(second, "file://"@)) by {
        if begins(second, "file://"@) {
            assert(second.take(7)[0] == second[0]);
        }
    }
    assert forall|i: int| k < i < second.len() implies #[trigger] second[i] != '#' by {
        if i > k + 1 {
            assert(second[i] == number[i - k - 2]);
            assert('0' <= number[i - k - 2] <= '9');
        }
    }
    assert(second.skip(k).take(2) =~= "#L"@);
    lemma_last_mark(second, "#L"@, k, second.len() as int);
    assert(second.skip(k + 2) =~= number);
    assert(second.take(k) =~= path);
    let third = "file://"@ + path;
    assert(third.take(7) =~= "file://"@);
    assert(third.skip(7) =~= path);
}

proof fn lemma_name_behind(path: Seq<char>, start: int, at: int, n: int)
    requires
        0 <= start < at <= n <= path.len(),
        path[at - 1] == '/',
        forall|i: int| at <= i < n ==> #[trigger] path[i] != '/',
    ensures
        crate::paths::name_start(path, start, n) == at,
    decreases n - at,
{
    if n > at {
        assert(path[n - 1] != '/');
        lemma_name_behind(path, start, at, n - 1);
    }
}

/// A file lies in the directory that it was named below.
pub proof fn law_files_lie_in_their_directory(directory: Seq<char>, name: Seq<char>)
    requires
        directory.len() > 0,
        directory.last() != '/' && directory.last() != '.',
        name.len() > 0,
        name != seq!['.'],
        !name.contains('/'),
    ensures
        crate::paths::parent_path(crate::paths::joined_path(directory, name)) == Some(directory),
        crate::paths::database_of(crate::paths::joined_path(directory, name))
            == directory + "/sessions/v2.sqlite3"@,
{
    let path = crate::paths::joined_path(directory, name);
    let d = directory.len() as int;
    assert(name.contains(name[0]));
    assert(path =~= directory + seq!['/'] + name);
    assert(path[0] == directory[0]);
    assert(path[d] == '/');
    assert forall|i: int| d + 1 <= i < path.len() implies #[trigger] path[i] != '/' by {
        assert(path[i] == name[i - d - 1]);
        assert(name.contains(name[i - d - 1]));
    }
    if d > 1 {
        assert(path[1] == directory[1]);
    }
    let start = crate::paths::body_start(path);
    assert(path[d - 1] == directory.last());
    assert(start < d) by {
        if d == 1 {
            assert(directory.last() == directory[0]);
        }
    }
    lemma_name_behind(path, start, d + 1, path.len() as int);
    if path.len() == d + 2 {
        assert(path[d + 1] == name[0]);
        if name[0] == '.' {
            assert(name =~= seq!['.']);
        }
    }
    assert(!crate::paths::is_idle_name(path, start, path.len() as int));
    assert(crate::paths::name_cut(path, start, path.len() as int) == d);
    crate::paths::lemma_name_start(path, start, d - 1);
    assert(crate::paths::name_start(path, start, d) == crate::paths::name_start(
        path,
        start,
        d - 1,
    ));
    assert(!crate::paths::is_idle_name(path, start, d));
    assert(path.take(d) =~= directory);
    reveal_strlit("sessions/v2.sqlite3");
    reveal_strlit("/sessions/v2.sqlite3");
    assert(directory.push('/') + "sessions/v2.sqlite3"@ =~= directory + "/sessions/v2.sqlite3"@);
}

} // verus!
