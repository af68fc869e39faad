//! Paths and links as text. Directories are separated by `/`.

use crate::text::{begins, characters, concat, has_prefix, stands};
use vstd::prelude::*;

verus! {

/// The path starts at the root directory.
pub open spec fn has_root(path: Seq<char>) -> bool {
    path.len() > 0 && path[0] == '/'
}

/// A path below a directory; an absolute path stays as it is.
pub open spec fn joined_path(base: Seq<char>, path: Seq<char>) -> Seq<char> {
    if has_root(path) {
        path
    } else if base.len() == 0 || base.last() == '/' {
        base + path
    } else {
        base.push('/') + path
    }
}

/// Where the part of a path begins that names directories: behind the root directory, or behind a
/// leading `.`.
pub open spec fn body_start(path: Seq<char>) -> int {
    if has_root(path) || (path.len() > 0 && path[0] == '.' && (path.len() == 1 || path[1]
        == '/')) {
        1
    } else {
        0
    }
}

/// Where the last name of the first `n` characters begins.
pub open spec fn name_start(path: Seq<char>, start: int, n: int) -> int
    decreases n - start,
{
    if n <= start {
        start
    } else if path[n - 1] == '/' {
        n
    } else {
        name_start(path, start, n - 1)
    }
}

/// What is left of the first `n` characters without their last name.
pub open spec fn name_cut(path: Seq<char>, start: int, n: int) -> int {
    let at = name_start(path, start, n);
    if at > start {
        at - 1
    } else {
        start
    }
}

/// The last name of the first `n` characters says nothing: it is empty or `.`.
pub open spec fn is_idle_name(path: Seq<char>, start: int, n: int) -> bool {
    let at = name_start(path, start, n);
    at == n || (at + 1 == n && path[at] == '.')
}

/// A name begins within the part that it was looked for in.
pub proof fn lemma_name_start(path: Seq<char>, start: int, n: int)
    ensures
        n > start ==> start <= name_start(path, start, n) <= n,
        n <= start ==> name_start(path, start, n) == start,
    decreases n - start,
{
    if n > start && path[n - 1] != '/' {
        lemma_name_start(path, start, n - 1);
    }
}

/// The first `n` characters without the names at their end that say nothing.
pub open spec fn without_idle_names(path: Seq<char>, start: int, n: int) -> int
    decreases n - start,
{
    if n <= start || !is_idle_name(path, start, n) {
        n
    } else {
        proof {
            lemma_name_start(path, start, n);
        }
        without_idle_names(path, start, name_cut(path, start, n))
    }
}

/// The directory that a path lies in. The root directory and the empty path lie in none.
pub open spec fn parent_path(path: Seq<char>) -> Option<Seq<char>> {
    let start = body_start(path);
    let end = without_idle_names(path, start, path.len() as int);
    if end > start {
        Some(path.take(without_idle_names(path, start, name_cut(path, start, end))))
    } else if start == 1 && !has_root(path) {
        Some(Seq::empty())
    } else {
        None
    }
}

/// Where the sessions are stored: beside the configuration.
pub open spec fn database_of(config: Seq<char>) -> Seq<char> {
    joined_path(
        match parent_path(config) {
            Some(directory) => directory,
            None => "."@,
        },
        "sessions/v2.sqlite3"@,
    )
}

fn collect(chars: &Vec<char>, end: usize) -> (text: String)
    requires
        end <= chars@.len(),
    ensures
        text@ == chars@.take(end as int),
{
    let mut text = String::new();
    let mut i: usize = 0;
    assert(text@ =~= chars@.take(0));
    while i < end
        invariant
            i <= end <= chars@.len(),
            text@ == chars@.take(i as int),
        decreases end - i,
    {
        text.push(chars[i]);
        i = i + 1;
        assert(text@ =~= chars@.take(i as int));
    }
    text
}

fn find_name(chars: &Vec<char>, start: usize, end: usize) -> (at: usize)
    requires
        start <= end <= chars@.len(),
    ensures
        at == name_start(chars@, start as int, end as int),
        start <= at <= end,
{
    let mut n: usize = end;
    while n > start && chars[n - 1] != '/'
        invariant
            start <= n <= end <= chars@.len(),
            name_start(chars@, start as int, n as int) == name_start(
                chars@,
                start as int,
                end as int,
            ),
        decreases n,
    {
        n = n - 1;
    }
    n
}

fn drop_idle_names(chars: &Vec<char>, start: usize, end: usize) -> (left: usize)
    requires
        start <= end <= chars@.len(),
    ensures
        left == without_idle_names(chars@, start as int, end as int),
        start <= left <= end,
{
    let mut n: usize = end;
    while n > start
        invariant
            start <= n <= end <= chars@.len(),
            without_idle_names(chars@, start as int, n as int) == without_idle_names(
                chars@,
                start as int,
                end as int,
            ),
        decreases n,
    {
        let at: usize = find_name(chars, start, n);
        let idle: bool = at == n || (at + 1 == n && chars[at] == '.');
        if !idle {
            return n;
        }
        n = if at > start {
            at - 1
        } else {
            start
        };
    }
    n
}

/// The directory that a path lies in.
pub fn parent(path: &str) -> (directory: Option<String>)
    ensures
        crate::composer::option_view(directory) == parent_path(path@),
{
    let chars = characters(path);
    let rooted: bool = chars.len() > 0 && chars[0] == '/';
    let dotted: bool = chars.len() > 0 && chars[0] == '.' && (chars.len() == 1 || chars[1] == '/');
    let start: usize = if rooted || dotted {
        1
    } else {
        0
    };
    let end: usize = drop_idle_names(&chars, start, chars.len());
    if end > start {
        let at: usize = find_name(&chars, start, end);
        let cut: usize = if at > start {
            at - 1
        } else {
            start
        };
        let left: usize = drop_idle_names(&chars, start, cut);
        Some(collect(&chars, left))
    } else if dotted {
        Some(String::new())
    } else {
        None
    }
}

/// A path below a directory; an absolute path stays as it is.
pub fn join(base: &str, path: &str) -> (joined: String)
    ensures
        joined@ == joined_path(base@, path@),
{
    let tail = characters(path);
    if tail.len() > 0 && tail[0] == '/' {
        return path.to_owned();
    }
    let head = characters(base);
    if head.len() == 0 || head[head.len() - 1] == '/' {
        return concat(base, path);
    }
    let mut joined: String = base.to_owned();
    joined.push('/');
    joined.push_str(path);
    joined
}

/// Where the sessions are stored.
pub fn database_path(config_path: &str) -> (path: String)
    ensures
        path@ == database_of(config_path@),
{
    match parent(config_path) {
        Some(directory) => join(directory.as_str(), "sessions/v2.sqlite3"),
        None => join(".", "sessions/v2.sqlite3"),
    }
}

/// The link leads to the web.
pub open spec fn is_web(destination: Seq<char>) -> bool {
    begins(destination, "https://"@) || begins(destination, "http://"@)
}

/// Whether a link leads to the web.
pub fn is_web_link(destination: &str) -> (yes: bool)
    ensures
        yes == is_web(destination@),
{
    has_prefix(destination, "https://") || has_prefix(destination, "http://")
}

/// The number that the first `n` digits name.
pub open spec fn value_of(digits: Seq<char>, n: int) -> int
    decreases n,
{
    if n <= 0 {
        0
    } else {
        value_of(digits, n - 1) * 10 + (digits[n - 1] as int - '0' as int)
    }
}

/// The digits of a number, which may begin with a plus sign.
pub open spec fn digits_of(text: Seq<char>) -> Seq<char> {
    if text.len() > 0 && text[0] == '+' {
        text.skip(1)
    } else {
        text
    }
}

/// The text is a number of 32 bits.
pub open spec fn is_line_number(text: Seq<char>) -> bool {
    let digits = digits_of(text);
    &&& digits.len() > 0
    &&& forall|i: int| 0 <= i < digits.len() ==> '0' <= #[trigger] digits[i] <= '9'
    &&& value_of(digits, digits.len() as int) <= u32::MAX
}

proof fn lemma_value_grows(digits: Seq<char>, m: int, n: int)
    requires
        0 <= m <= n <= digits.len(),
        forall|i: int| 0 <= i < n ==> '0' <= #[trigger] digits[i] <= '9',
    ensures
        0 <= value_of(digits, m) <= value_of(digits, n),
    decreases n,
{
    if m < n {
        lemma_value_grows(digits, m, n - 1);
        assert('0' <= digits[n - 1] <= '9');
    } else if n > 0 {
        lemma_value_grows(digits, n - 1, n - 1);
        assert('0' <= digits[n - 1] <= '9');
    }
}

fn line_number(chars: &Vec<char>, from: usize) -> (yes: bool)
    requires
        from <= chars@.len(),
    ensures
        yes == is_line_number(chars@.skip(from as int)),
{
    let ghost text = chars@.skip(from as int);
    let ghost digits = digits_of(text);
    let start: usize = if from < chars.len() && chars[from] == '+' {
        from + 1
    } else {
        from
    };
    assert(digits =~= chars@.skip(start as int));
    if start == chars.len() {
        return false;
    }
    let mut value: u64 = 0;
    let mut i: usize = start;
    while i < chars.len()
        invariant
            text == chars@.skip(from as int),
            digits == digits_of(text),
            digits == chars@.skip(start as int),
            start <= i <= chars@.len(),
            value <= u32::MAX,
            value == value_of(digits, i - start),
            forall|k: int| 0 <= k < i - start ==> '0' <= #[trigger] digits[k] <= '9',
        decreases chars@.len() - i,
    {
        let c: char = chars[i];
        assert(digits[i - start] == c);
        if c < '0' || c > '9' {
            return false;
        }
        let digit: u64 = (c as u32 - '0' as u32) as u64;
        value = value * 10 + digit;
        i = i + 1;
        assert(value == value_of(digits, i - start));
        if value > u32::MAX as u64 {
            proof {
                if is_line_number(text) {
                    lemma_value_grows(digits, i - start, digits.len() as int);
                }
            }
            return false;
        }
    }
    true
}

/// The last place before `n` where a mark stands; -1 if there is none.
pub open spec fn last_mark(text: Seq<char>, mark: Seq<char>, n: int) -> int
    decreases n,
{
    if n <= 0 {
        -1
    } else if begins(text.skip(n - 1), mark) {
        n - 1
    } else {
        last_mark(text, mark, n - 1)
    }
}

/// A path without the line that stands behind its last mark.
pub open spec fn without_line(text: Seq<char>, mark: Seq<char>) -> Seq<char> {
    let at = last_mark(text, mark, text.len() as int);
    if at >= 0 && is_line_number(text.skip(at + mark.len())) {
        text.take(at)
    } else {
        text
    }
}

fn drop_line(text: &str, mark: &str) -> (path: String)
    requires
        mark@.len() > 0,
    ensures
        path@ == without_line(text@, mark@),
{
    let chars = characters(text);
    let wanted = characters(mark);
    let total: usize = chars.len();
    let mut n: usize = total;
    while n > 0
        invariant
            chars@ == text@,
            total == chars@.len(),
            wanted@ == mark@,
            mark@.len() > 0,
            n <= chars@.len(),
            last_mark(text@, mark@, n as int) == last_mark(text@, mark@, text@.len() as int),
        decreases n,
    {
        if stands(&chars, n - 1, &wanted) {
            let at: usize = n - 1;
            assert(at + wanted@.len() <= total);
            if line_number(&chars, at + wanted.len()) {
                return collect(&chars, at);
            }
            return text.to_owned();
        }
        n = n - 1;
    }
    text.to_owned()
}

/// The file that a link leads to: without the scheme and without a line, below the workspace
/// unless it is absolute.
pub open spec fn link_file(destination: Seq<char>, workspace: Seq<char>) -> Seq<char> {
    let path = if begins(destination, "file://"@) {
        destination.skip("file://"@.len() as int)
    } else {
        destination
    };
    joined_path(workspace, without_line(without_line(path, "#L"@), ":"@))
}

/// The file that a link leads to.
pub fn local_link_path(destination: &str, workspace: &str) -> (path: String)
    ensures
        path@ == link_file(destination@, workspace@),
{
    proof {
        reveal_strlit("file://");
        reveal_strlit("#L");
        reveal_strlit(":");
    }
    let path: String = if has_prefix(destination, "file://") {
        without_first(destination, 7)
    } else {
        destination.to_owned()
    };
    let path: String = drop_line(path.as_str(), "#L");
    let path: String = drop_line(path.as_str(), ":");
    join(workspace, path.as_str())
}

fn without_first(text: &str, count: usize) -> (rest: String)
    requires
        count <= text@.len(),
    ensures
        rest@ == text@.skip(count as int),
{
    let chars = characters(text);
    let mut rest = String::new();
    let mut i: usize = count;
    assert(rest@ =~= text@.subrange(count as int, count as int));
    while i < chars.len()
        invariant
            chars@ == text@,
            count <= i <= chars@.len(),
            rest@ == text@.subrange(count as int, i as int),
        decreases chars@.len() - i,
    {
        rest.push(chars[i]);
        i = i + 1;
        assert(rest@ =~= text@.subrange(count as int, i as int));
    }
    assert(text@.skip(count as int) =~= text@.subrange(count as int, text@.len() as int));
    rest
}

/// With an absolute workspace, every link leads to an absolute path.
pub proof fn law_links_are_absolute(destination: Seq<char>, workspace: Seq<char>)
    requires
        has_root(workspace),
    ensures
        has_root(link_file(destination, workspace)),
{
}

} // verus!
