//! The text under edit: a cursor, and image tokens that are edited as a whole.

use crate::geometry::least;
use crate::layout::{
    at_least_one, byte_at_column, cursor_column, cursor_row, is_row, offset_at_column, rows,
    text_rows, Row, VisualLayout, VisualLine,
};
use crate::numeral::{decimal, decimal_text};
use crate::prompt::{placed, tokens, PastedImage, Token};
use crate::text::{
    after, before, byte_len, bytes_in, clusters, concat, cut, graphemes, is_offset, joined,
    lemma_byte_len_bounds, lemma_byte_len_concat, lemma_char_index, lemma_joined_first,
    lemma_offset, lemma_spliced, lemma_split, offset_at, spliced, views,
};
use vstd::prelude::*;

verus! {

/// Text with a cursor, image tokens and the column that vertical movement aims at.
#[derive(Debug)]
pub struct Draft {
    pub text: String,
    pub cursor: usize,
    pub images: Vec<PastedImage>,
    pub next_image: u64,
    pub preferred_column: Option<usize>,
}

/// A draft as mathematical values.
pub struct Editing {
    pub text: Seq<char>,
    pub cursor: int,
    pub images: Seq<Token>,
    pub next_image: int,
    pub preferred: Option<int>,
}

impl View for Draft {
    type V = Editing;

    open spec fn view(&self) -> Editing {
        Editing {
            text: self.text@,
            cursor: self.cursor as int,
            images: tokens(self.images@),
            next_image: self.next_image as int,
            preferred: match self.preferred_column {
                Some(column) => Some(column as int),
                None => None,
            },
        }
    }
}

/// The first token from index `from` on that begins at `low` at the latest and ends at `high` at
/// the earliest; the number of tokens if there is none.
pub open spec fn token_over(images: Seq<Token>, low: int, high: int, from: int) -> int
    decreases images.len() - from,
{
    if from >= images.len() {
        images.len() as int
    } else if images[from].start <= low && high <= images[from].end {
        from
    } else {
        token_over(images, low, high, from + 1)
    }
}

/// The first token from index `from` on that begins at `at` or behind it.
pub open spec fn beginning_at(images: Seq<Token>, at: int, from: int) -> int
    decreases images.len() - from,
{
    if from >= images.len() {
        images.len() as int
    } else if images[from].start >= at {
        from
    } else {
        beginning_at(images, at, from + 1)
    }
}

/// A token moved by a number of bytes.
pub open spec fn moved(token: Token, by: int) -> Token {
    Token { start: token.start + by, end: token.end + by, data_url: token.data_url }
}

/// Tokens of which those from index `from` on are moved by a number of bytes.
pub open spec fn moved_from(images: Seq<Token>, from: int, by: int) -> Seq<Token> {
    Seq::new(images.len(), |i: int| if i < from { images[i] } else { moved(images[i], by) })
}

/// Where an offset lies after the text between two others was removed.
pub open spec fn fallen(at: int, from: int, to: int) -> int {
    if at <= from {
        at
    } else if at < to {
        from
    } else {
        at - (to - from)
    }
}

/// What is left of a token after the text between two offsets was removed.
pub open spec fn cut_token(token: Token, from: int, to: int) -> Token {
    Token {
        start: fallen(token.start, from, to),
        end: fallen(token.end, from, to),
        data_url: token.data_url,
    }
}

/// What is left of the first `n` tokens after the text between two offsets was removed.
pub open spec fn cut_tokens(images: Seq<Token>, from: int, to: int, n: int) -> Seq<Token>
    decreases n,
{
    if n <= 0 {
        Seq::empty()
    } else {
        let rest = cut_tokens(images, from, to, n - 1);
        let token = cut_token(images[n - 1], from, to);
        if token.start < token.end {
            rest.push(token)
        } else {
            rest
        }
    }
}

/// A token after the text between two offsets was removed: it moves if it stands behind that text.
pub open spec fn slid(token: Token, from: int, to: int) -> Token {
    if token.start >= to {
        moved(token, from - to)
    } else {
        token
    }
}

/// Tokens after the text between two offsets was removed.
pub open spec fn slid_tokens(images: Seq<Token>, from: int, to: int) -> Seq<Token> {
    images.map_values(|token: Token| slid(token, from, to))
}

/// The token text of an image.
pub open spec fn marker(number: int) -> Seq<char> {
    "[Image #"@ + decimal(number) + "]"@
}

impl Editing {
    /// The cursor and the tokens lie at offsets of the text.
    pub open spec fn wf(self) -> bool {
        is_offset(self.text, self.cursor) && placed(self.text, self.images)
    }

    /// A draft that holds only text, with the cursor at its end.
    pub open spec fn replaced(text: Seq<char>) -> Editing {
        Editing {
            text,
            cursor: byte_len(text) as int,
            images: Seq::empty(),
            next_image: 1,
            preferred: None,
        }
    }

    /// The cursor, but the end of a token where the cursor stands inside it.
    pub open spec fn insertion_point(self) -> int {
        let i = token_over(self.images, self.cursor - 1, self.cursor + 1, 0);
        if i < self.images.len() {
            self.images[i].end
        } else {
            self.cursor
        }
    }

    /// The draft after text was inserted at the cursor.
    pub open spec fn inserted(self, added: Seq<char>) -> Editing {
        let at = self.insertion_point();
        let n = byte_len(added) as int;
        Editing {
            text: spliced(self.text, at, at, added),
            cursor: at + n,
            images: moved_from(self.images, beginning_at(self.images, at, 0), n),
            next_image: self.next_image,
            preferred: None,
        }
    }

    /// The draft after an image was inserted at the cursor.
    pub open spec fn with_image(self, data_url: Seq<char>) -> Editing {
        let at = self.insertion_point();
        let text = marker(self.next_image);
        let next = self.inserted(text);
        let token = Token { start: at, end: at + byte_len(text), data_url };
        Editing {
            images: next.images.insert(beginning_at(self.images, at, 0), token),
            next_image: least(self.next_image + 1, u64::MAX as int),
            ..next
        }
    }

    /// The draft with the text between two offsets cut out. Tokens that this cuts into keep the rest
    /// of their text, and those of which nothing is left are gone.
    pub open spec fn cut_out(self, from: int, to: int) -> Editing {
        Editing {
            text: spliced(self.text, from, to, Seq::empty()),
            cursor: from,
            images: cut_tokens(self.images, from, to, self.images.len() as int),
            next_image: self.next_image,
            preferred: None,
        }
    }

    /// The draft without the text between two offsets. Tokens behind it move; the others stay where
    /// they are, also those that it reaches into. Only where such a token would no longer lie in the
    /// text, tokens are cut back.
    pub open spec fn erased(self, from: int, to: int) -> Editing {
        let next = self.cut_out(from, to);
        let images = slid_tokens(self.images, from, to);
        if placed(next.text, images) {
            Editing { images, ..next }
        } else {
            next
        }
    }

    /// The draft without an image's token: its text stays.
    pub open spec fn detached(self, i: int) -> Editing {
        Editing { images: self.images.remove(i), ..self }
    }

    /// The draft with the cursor moved and nothing to aim at.
    pub open spec fn at(self, cursor: int) -> Editing {
        Editing { cursor, preferred: None, ..self }
    }

    /// The cluster in front of the cursor.
    pub open spec fn previous_cluster(self) -> Option<Seq<char>> {
        let parts = clusters(before(self.text, self.cursor));
        if parts.len() > 0 {
            Some(parts.last())
        } else {
            None
        }
    }

    /// The cluster behind the cursor.
    pub open spec fn next_cluster(self) -> Option<Seq<char>> {
        let parts = clusters(after(self.text, self.cursor));
        if parts.len() > 0 {
            Some(parts[0])
        } else {
            None
        }
    }

    /// The draft one cluster to the left; from the end of a token, in front of the token.
    pub open spec fn left(self) -> Option<Editing> {
        match self.previous_cluster() {
            None => None,
            Some(cluster) => {
                let previous = self.cursor - byte_len(cluster);
                let i = token_over(self.images, previous, previous + 1, 0);
                Some(
                    self.at(
                        if i < self.images.len() {
                            self.images[i].start
                        } else {
                            previous
                        },
                    ),
                )
            },
        }
    }

    /// The draft one cluster to the right; from the start of a token, behind the token.
    pub open spec fn right(self) -> Option<Editing> {
        match self.next_cluster() {
            None => None,
            Some(cluster) => {
                let target = self.cursor + byte_len(cluster);
                let i = token_over(self.images, target - 1, target + 1, 0);
                Some(
                    self.at(
                        if i < self.images.len() {
                            self.images[i].end
                        } else {
                            target
                        },
                    ),
                )
            },
        }
    }

    /// The draft without the token or the cluster in front of the cursor.
    pub open spec fn without_previous(self) -> Option<Editing> {
        let i = token_over(self.images, self.cursor - 1, self.cursor, 0);
        if i < self.images.len() {
            Some(self.detached(i).erased(self.images[i].start, self.images[i].end))
        } else {
            match self.previous_cluster() {
                None => None,
                Some(cluster) => Some(self.erased(self.cursor - byte_len(cluster), self.cursor)),
            }
        }
    }

    /// The draft without the token or the cluster behind the cursor.
    pub open spec fn without_next(self) -> Option<Editing> {
        let i = token_over(self.images, self.cursor, self.cursor + 1, 0);
        if i < self.images.len() {
            Some(self.detached(i).erased(self.images[i].start, self.images[i].end))
        } else {
            match self.next_cluster() {
                None => None,
                Some(cluster) => Some(self.erased(self.cursor, self.cursor + byte_len(cluster))),
            }
        }
    }

    /// The rows of the draft in a number of columns.
    pub open spec fn visual_rows(self, width: int) -> Seq<Row> {
        text_rows(self.text, at_least_one(width))
    }

    /// The row of the cursor.
    pub open spec fn visual_row(self, width: int) -> int {
        cursor_row(self.visual_rows(width), self.cursor, 0)
    }

    /// The column that vertical movement aims at.
    pub open spec fn aim(self, width: int) -> int {
        match self.preferred {
            Some(column) => column,
            None => cursor_column(
                self.text,
                self.visual_rows(width)[self.visual_row(width)],
                self.cursor,
            ),
        }
    }

    /// The draft with the cursor in another row, at the column that movement aims at.
    pub open spec fn in_row(self, row: int, width: int) -> Editing {
        Editing {
            cursor: offset_at_column(self.text, self.visual_rows(width)[row], self.aim(width)),
            preferred: Some(self.aim(width)),
            ..self
        }
    }

    /// The draft with the cursor one row further up.
    pub open spec fn up(self, width: int) -> Option<Editing> {
        let row = self.visual_row(width);
        if row <= 0 {
            None
        } else {
            Some(self.in_row(row - 1, width))
        }
    }

    /// The draft with the cursor one row further down.
    pub open spec fn down(self, width: int) -> Option<Editing> {
        let row = self.visual_row(width);
        if row + 1 >= self.visual_rows(width).len() {
            None
        } else {
            Some(self.in_row(row + 1, width))
        }
    }

    /// The draft with the cursor at the start or the end of its row.
    pub open spec fn at_edge(self, end: bool, width: int) -> Option<Editing> {
        let row = self.visual_rows(width)[self.visual_row(width)];
        let target = if end {
            row.end
        } else {
            row.start
        };
        if target == self.cursor {
            None
        } else {
            Some(self.at(target))
        }
    }
}

/// Whether a movement or a removal took place, and the draft after it.
pub open spec fn stepped(changed: bool, old_draft: Editing, new_draft: Editing, step: Option<Editing>) -> bool {
    match step {
        Some(next) => changed && new_draft == next,
        None => !changed && new_draft == old_draft,
    }
}

pub proof fn lemma_token_over(images: Seq<Token>, low: int, high: int, from: int)
    requires
        0 <= from <= images.len(),
    ensures
        from <= token_over(images, low, high, from) <= images.len(),
        token_over(images, low, high, from) < images.len() ==> {
            let t = images[token_over(images, low, high, from)];
            t.start <= low && high <= t.end
        },
        forall|j: int|
            from <= j < token_over(images, low, high, from) ==> !(images[j].start <= low && high
                <= images[j].end),
    decreases images.len() - from,
{
    if from < images.len() && !(images[from].start <= low && high <= images[from].end) {
        lemma_token_over(images, low, high, from + 1);
    }
}

pub proof fn lemma_beginning_at(images: Seq<Token>, at: int, from: int)
    requires
        0 <= from <= images.len(),
    ensures
        from <= beginning_at(images, at, from) <= images.len(),
        beginning_at(images, at, from) < images.len() ==> images[beginning_at(
            images,
            at,
            from,
        )].start >= at,
        forall|j: int| from <= j < beginning_at(images, at, from) ==> images[j].start < at,
    decreases images.len() - from,
{
    if from < images.len() && images[from].start < at {
        lemma_beginning_at(images, at, from + 1);
    }
}

/// The index of the first token that covers a place, `None` if there is none. A strict side wants
/// the token to reach beyond the place.
fn find_token(images: &Vec<PastedImage>, at: usize, strict_start: bool, strict_end: bool) -> (found:
    Option<usize>)
    ensures
        ({
            let low = if strict_start {
                at - 1
            } else {
                at as int
            };
            let high = if strict_end {
                at + 1
            } else {
                at as int
            };
            let i = token_over(tokens(images@), low, high, 0);
            match found {
                Some(index) => index == i && i < images@.len(),
                None => i == images@.len(),
            }
        }),
{
    let ghost low = if strict_start {
        at - 1
    } else {
        at as int
    };
    let ghost high = if strict_end {
        at + 1
    } else {
        at as int
    };
    let mut i: usize = 0;
    while i < images.len()
        invariant
            i <= images.len(),
            low == if strict_start {
                at - 1
            } else {
                at as int
            },
            high == if strict_end {
                at + 1
            } else {
                at as int
            },
            token_over(tokens(images@), low, high, 0) == token_over(
                tokens(images@),
                low,
                high,
                i as int,
            ),
        decreases images.len() - i,
    {
        let starts: bool = if strict_start {
            images[i].start < at
        } else {
            images[i].start <= at
        };
        let ends: bool = if strict_end {
            at < images[i].end
        } else {
            at <= images[i].end
        };
        assert(tokens(images@)[i as int] == images@[i as int]@);
        if starts && ends {
            return Some(i);
        }
        i = i + 1;
    }
    None
}

/// The index of the first token that begins at a place or behind it.
fn first_beginning(images: &Vec<PastedImage>, at: usize, from: usize) -> (index: usize)
    requires
        from <= images@.len(),
    ensures
        index == beginning_at(tokens(images@), at as int, from as int),
        from <= index <= images@.len(),
{
    let mut i: usize = from;
    while i < images.len() && images[i].start < at
        invariant
            from <= i <= images.len(),
            beginning_at(tokens(images@), at as int, from as int) == beginning_at(
                tokens(images@),
                at as int,
                i as int,
            ),
        decreases images.len() - i,
    {
        assert(tokens(images@)[i as int] == images@[i as int]@);
        i = i + 1;
    }
    proof {
        if i < images@.len() {
            assert(tokens(images@)[i as int] == images@[i as int]@);
        }
    }
    i
}

/// The index of the first token that ends behind a place.
pub proof fn lemma_insertion_point(draft: Editing)
    requires
        draft.wf(),
    ensures
        is_offset(draft.text, draft.insertion_point()),
        draft.cursor <= draft.insertion_point(),
        forall|i: int|
            #![trigger draft.images[i]]
            0 <= i < draft.images.len() ==> draft.images[i].end <= draft.insertion_point()
                || draft.insertion_point() <= draft.images[i].start,
{
    let c = draft.cursor;
    lemma_token_over(draft.images, c - 1, c + 1, 0);
    let k = token_over(draft.images, c - 1, c + 1, 0);
    let at = draft.insertion_point();
    if k < draft.images.len() {
        assert(is_offset(draft.text, draft.images[k].end));
    }
    assert forall|i: int|
        #![trigger draft.images[i]]
        0 <= i < draft.images.len() implies draft.images[i].end <= at || at <= draft.images[i].start by {
        if k < draft.images.len() {
            let t = draft.images[k];
            if i < k {
                assert(draft.images[i].end <= draft.images[k].start);
            } else if k < i {
                assert(draft.images[k].end <= draft.images[i].start);
            }
        }
    }
}

proof fn lemma_inserted(draft: Editing, added: Seq<char>)
    requires
        draft.wf(),
    ensures
        draft.inserted(added).wf(),
        byte_len(draft.inserted(added).text) == byte_len(draft.text) + byte_len(added),
{
    let at = draft.insertion_point();
    let n = byte_len(added) as int;
    let next = draft.inserted(added);
    let k = beginning_at(draft.images, at, 0);
    lemma_insertion_point(draft);
    lemma_beginning_at(draft.images, at, 0);
    lemma_spliced(draft.text, at, at, added);
    assert forall|i: int| #![trigger next.images[i]] 0 <= i < next.images.len() implies is_offset(
        next.text,
        next.images[i].start,
    ) && is_offset(next.text, next.images[i].end) && next.images[i].start < next.images[i].end by {
        let t = draft.images[i];
        assert(is_offset(draft.text, t.start) && is_offset(draft.text, t.end));
        if i >= k && i > k {
            assert(draft.images[k].end <= draft.images[i].start);
        }
    }
    assert forall|i: int, j: int|
        #![trigger next.images[i], next.images[j]]
        0 <= i < j < next.images.len() implies next.images[i].end <= next.images[j].start by {
        assert(draft.images[i].end <= draft.images[j].start);
        if i >= k && i > k {
            assert(draft.images[k].end <= draft.images[i].start);
        }
    }
}

proof fn lemma_marker(number: int)
    ensures
        byte_len(marker(number)) > 0,
{
    reveal_strlit("[Image #");
    lemma_byte_len_bounds(marker(number));
}

proof fn lemma_with_image(draft: Editing, data_url: Seq<char>)
    requires
        draft.wf(),
    ensures
        draft.with_image(data_url).wf(),
{
    let at = draft.insertion_point();
    let text = marker(draft.next_image);
    let mid = draft.inserted(text);
    let next = draft.with_image(data_url);
    let k = beginning_at(draft.images, at, 0);
    let n = byte_len(text) as int;
    lemma_marker(draft.next_image);
    lemma_inserted(draft, text);
    lemma_insertion_point(draft);
    lemma_beginning_at(draft.images, at, 0);
    lemma_spliced(draft.text, at, at, text);
    let token = Token { start: at, end: at + n, data_url };
    assert(next.images == mid.images.insert(k, token));
    assert forall|i: int| #![trigger next.images[i]] 0 <= i < next.images.len() implies is_offset(
        next.text,
        next.images[i].start,
    ) && is_offset(next.text, next.images[i].end) && next.images[i].start < next.images[i].end by {
        if i < k {
            assert(next.images[i] == mid.images[i]);
        } else if i > k {
            assert(next.images[i] == mid.images[i - 1]);
        }
    }
    assert forall|i: int, j: int|
        #![trigger next.images[i], next.images[j]]
        0 <= i < j < next.images.len() implies next.images[i].end <= next.images[j].start by {
        if j < k {
            assert(mid.images[i].end <= mid.images[j].start);
        } else if j == k {
            assert(next.images[i] == draft.images[i]);
            assert(draft.images[i].end <= at || at <= draft.images[i].start);
        } else if i < k {
            assert(mid.images[i].end <= mid.images[j - 1].start);
        } else if i == k {
            assert(next.images[j] == moved(draft.images[j - 1], n));
            if j - 1 > k {
                assert(draft.images[k].end <= draft.images[j - 1].start);
            }
        } else {
            assert(mid.images[i - 1].end <= mid.images[j - 1].start);
        }
    }
}

proof fn lemma_cut_tokens(draft: Editing, from: int, to: int, n: int)
    requires
        draft.wf(),
        is_offset(draft.text, from),
        is_offset(draft.text, to),
        from <= to,
        0 <= n <= draft.images.len(),
    ensures
        placed(
            spliced(draft.text, from, to, Seq::empty()),
            cut_tokens(draft.images, from, to, n),
        ),
        forall|i: int|
            0 <= i < cut_tokens(draft.images, from, to, n).len() && n > 0 ==> (#[trigger] cut_tokens(
                draft.images,
                from,
                to,
                n,
            )[i]).end <= fallen(draft.images[n - 1].end, from, to),
    decreases n,
{
    let text = spliced(draft.text, from, to, Seq::empty());
    lemma_spliced(draft.text, from, to, Seq::empty());
    lemma_byte_len_bounds(Seq::empty());
    if n > 0 {
        lemma_cut_tokens(draft, from, to, n - 1);
        let rest = cut_tokens(draft.images, from, to, n - 1);
        let token = draft.images[n - 1];
        let left = cut_token(token, from, to);
        assert(is_offset(draft.text, token.start) && is_offset(draft.text, token.end));
        if n > 1 {
            assert(draft.images[n - 2].end <= draft.images[n - 1].start);
        }
        assert(is_offset(text, left.start) && is_offset(text, left.end));
        assert forall|i: int| 0 <= i < rest.len() implies (#[trigger] rest[i]).end <= left.start by {
            assert(n > 1);
        }
    }
}

proof fn lemma_cut_out(draft: Editing, from: int, to: int)
    requires
        draft.wf(),
        is_offset(draft.text, from),
        is_offset(draft.text, to),
        from <= to,
    ensures
        draft.cut_out(from, to).wf(),
        draft.erased(from, to).wf(),
{
    lemma_cut_tokens(draft, from, to, draft.images.len() as int);
    lemma_spliced(draft.text, from, to, Seq::empty());
}

proof fn lemma_detached(draft: Editing, i: int)
    requires
        draft.wf(),
        0 <= i < draft.images.len(),
    ensures
        draft.detached(i).wf(),
{
    let rest = draft.images.remove(i);
    assert forall|j: int| 0 <= j < rest.len() implies #[trigger] rest[j] == draft.images[if j < i {
        j
    } else {
        j + 1
    }] by {}
}

impl Draft {
    /// The draft without text.
    pub fn new() -> (draft: Self)
        ensures
            draft@ == Editing::replaced(Seq::empty()),
            draft@.wf(),
    {
        let draft = Draft {
            text: String::new(),
            cursor: 0,
            images: Vec::new(),
            next_image: 1,
            preferred_column: None,
        };
        proof {
            assert(draft@.text =~= Seq::<char>::empty());
            assert(draft@.images =~= Seq::<Token>::empty());
            lemma_byte_len_bounds(draft@.text);
            lemma_char_index(draft@.text, 0);
            assert(draft@.text.take(0) =~= Seq::<char>::empty());
        }
        draft
    }

    /// Puts a text in place of the draft, with the cursor at its end.
    pub fn replace_draft(&mut self, text: String)
        ensures
            final(self)@ == Editing::replaced(text@),
            final(self)@.wf(),
    {
        let end: usize = bytes_in(text.as_str());
        self.text = text;
        self.images = Vec::new();
        self.next_image = 1;
        self.cursor = end;
        self.preferred_column = None;
        proof {
            assert(self@.images =~= Seq::<Token>::empty());
            lemma_char_index(text@, text@.len() as int);
            assert(text@.take(text@.len() as int) =~= text@);
        }
    }

    /// Moves the cursor to the end of the token that it stands in.
    pub fn move_cursor_out_of_image(&mut self)
        requires
            old(self)@.wf(),
        ensures
            final(self)@ == (Editing {
                cursor: old(self)@.insertion_point(),
                ..old(self)@
            }),
            final(self)@.wf(),
    {
        proof {
            lemma_insertion_point(self@);
        }
        match find_token(&self.images, self.cursor, true, true) {
            Some(index) => {
                assert(tokens(self.images@)[index as int] == self.images@[index as int]@);
                self.cursor = self.images[index].end;
            },
            None => {},
        }
    }

    /// Inserts text at the cursor.
    pub fn insert(&mut self, added: &str)
        requires
            old(self)@.wf(),
        ensures
            final(self)@ == old(self)@.inserted(added@),
            final(self)@.wf(),
    {
        let ghost start = self@;
        proof {
            lemma_insertion_point(start);
            lemma_inserted(start, added@);
        }
        self.move_cursor_out_of_image();
        let at: usize = self.cursor;
        let n: usize = bytes_in(added);
        let (head, tail) = cut(self.text.as_str(), at);
        let mut text: String = concat(head, added);
        text.push_str(tail);
        let total: usize = bytes_in(text.as_str());
        let first: usize = first_beginning(&self.images, at, 0);
        let ghost k = first as int;
        assert(text@ == start.inserted(added@).text);
        let mut i: usize = first;
        while i < self.images.len()
            invariant
                start.wf(),
                start.images.len() == self.images@.len(),
                k == beginning_at(start.images, at as int, 0),
                k <= i <= self.images@.len(),
                self.cursor == at,
                self.text@ == start.text,
                self.next_image == start.next_image,
                total == byte_len(start.text) + n,
                forall|j: int|
                    #![trigger self.images@[j]]
                    0 <= j < self.images@.len() ==> self.images@[j]@ == if k <= j < i {
                        moved(start.images[j], n as int)
                    } else {
                        start.images[j]
                    },
            decreases self.images.len() - i,
        {
            proof {
                let t = start.images[i as int];
                assert(self.images@[i as int]@ == t);
                assert(is_offset(start.text, t.end) && is_offset(start.text, t.start));
                lemma_offset(start.text, t.end);
                lemma_offset(start.text, t.start);
            }
            self.images[i].start = self.images[i].start + n;
            self.images[i].end = self.images[i].end + n;
            i = i + 1;
        }
        self.text = text;
        proof {
            lemma_insertion_point(start);
            lemma_offset(start.text, at as int);
        }
        self.cursor = at + n;
        self.preferred_column = None;
        assert(tokens(self.images@) =~= start.inserted(added@).images);
    }

    /// Inserts a numbered image token at the cursor.
    pub fn insert_image(&mut self, data_url: String)
        requires
            old(self)@.wf(),
        ensures
            final(self)@ == old(self)@.with_image(data_url@),
            final(self)@.wf(),
    {
        let ghost before_insert = self@;
        proof {
            lemma_with_image(before_insert, data_url@);
            lemma_insertion_point(before_insert);
        }
        let mut label: String = concat("[Image #", decimal_text(self.next_image).as_str());
        label.push_str("]");
        assert(label@ =~= marker(before_insert.next_image));
        self.move_cursor_out_of_image();
        let start: usize = self.cursor;
        let index: usize = first_beginning(&self.images, start, 0);
        proof {
            lemma_token_over(self@.images, start - 1, start + 1, 0);
            let i = token_over(self@.images, start - 1, start + 1, 0);
            if i < self@.images.len() {
                assert(self@.images[i] == before_insert.images[i]);
            }
            assert(self@.insertion_point() == start);
        }
        self.insert(label.as_str());
        let ghost inserted = self@;
        let end: usize = self.cursor;
        let image = PastedImage { start, end, data_url };
        self.images.insert(index, image);
        assert(tokens(self.images@) =~= inserted.images.insert(index as int, image@));
        self.next_image = self.next_image.saturating_add(1);
    }

    /// Cuts out the text between two offsets. Tokens that this cuts into keep the rest of their text.
    pub fn cut_range(&mut self, from: usize, to: usize)
        requires
            old(self)@.wf(),
            is_offset(old(self)@.text, from as int),
            is_offset(old(self)@.text, to as int),
            from <= to,
        ensures
            final(self)@ == old(self)@.cut_out(from as int, to as int),
            final(self)@.wf(),
    {
        let ghost before_removal = self@;
        proof {
            lemma_cut_out(before_removal, from as int, to as int);
            lemma_spliced(before_removal.text, from as int, to as int, Seq::empty());
        }
        let (head, _) = cut(self.text.as_str(), from);
        let (_, tail) = cut(self.text.as_str(), to);
        let text: String = concat(head, tail);
        let mut images: Vec<PastedImage> = Vec::new();
        let mut i: usize = 0;
        assert(tokens(images@) =~= Seq::<Token>::empty());
        while i < self.images.len()
            invariant
                from <= to,
                i <= self.images@.len(),
                tokens(images@) == cut_tokens(
                    tokens(self.images@),
                    from as int,
                    to as int,
                    i as int,
                ),
            decreases self.images.len() - i,
        {
            assert(tokens(self.images@)[i as int] == self.images@[i as int]@);
            let ghost sofar = tokens(images@);
            let image = &self.images[i];
            let start: usize = offset_after(image.start, from, to);
            let end: usize = offset_after(image.end, from, to);
            if start < end {
                let kept = PastedImage { start, end, data_url: image.data_url.clone() };
                images.push(kept);
                assert(tokens(images@) =~= sofar.push(kept@));
            }
            i = i + 1;
        }
        assert(text@ =~= spliced(before_removal.text, from as int, to as int, Seq::empty()));
        self.text = text;
        self.images = images;
        self.cursor = from;
        self.preferred_column = None;
    }

    /// Removes the text between two offsets. Tokens behind it move, and the others stay where they
    /// are as long as they lie in the text.
    pub fn remove_range(&mut self, from: usize, to: usize)
        requires
            old(self)@.wf(),
            is_offset(old(self)@.text, from as int),
            is_offset(old(self)@.text, to as int),
            from <= to,
        ensures
            final(self)@ == old(self)@.erased(from as int, to as int),
            final(self)@.wf(),
    {
        let ghost start = self@;
        proof {
            lemma_cut_out(start, from as int, to as int);
        }
        assert forall|i: int| 0 <= i < self.images@.len() implies (#[trigger] self.images@[i]).start
            <= self.images@[i].end by {
            assert(start.images[i] == self.images@[i]@);
        }
        let images: Vec<PastedImage> = slide(&self.images, from, to);
        self.cut_range(from, to);
        if lie_in(&images, self.text.as_str()) {
            self.images = images;
        }
    }
}

fn slide(images: &Vec<PastedImage>, from: usize, to: usize) -> (list: Vec<PastedImage>)
    requires
        from <= to,
        forall|i: int|
            0 <= i < images@.len() ==> (#[trigger] images@[i]).start <= images@[i].end,
    ensures
        tokens(list@) == slid_tokens(tokens(images@), from as int, to as int),
{
    let mut list: Vec<PastedImage> = Vec::new();
    let mut i: usize = 0;
    let ghost wanted = slid_tokens(tokens(images@), from as int, to as int);
    assert(tokens(list@) =~= wanted.take(0));
    while i < images.len()
        invariant
            from <= to,
            i <= images@.len(),
            wanted == slid_tokens(tokens(images@), from as int, to as int),
            wanted.len() == images@.len(),
            tokens(list@) == wanted.take(i as int),
            forall|k: int|
                0 <= k < images@.len() ==> (#[trigger] images@[k]).start <= images@[k].end,
        decreases images@.len() - i,
    {
        let ghost sofar = tokens(list@);
        let image = &images[i];
        assert(tokens(images@)[i as int] == images@[i as int]@);
        let kept = if image.start >= to {
            PastedImage {
                start: image.start - (to - from),
                end: image.end - (to - from),
                data_url: image.data_url.clone(),
            }
        } else {
            PastedImage { start: image.start, end: image.end, data_url: image.data_url.clone() }
        };
        list.push(kept);
        i = i + 1;
        assert(tokens(list@) =~= sofar.push(kept@));
        assert(wanted.take(i as int) =~= sofar.push(wanted[i - 1]));
    }
    assert(wanted.take(images@.len() as int) =~= wanted);
    list
}

fn lie_in(images: &Vec<PastedImage>, text: &str) -> (yes: bool)
    ensures
        yes == placed(text@, tokens(images@)),
{
    let ghost list = tokens(images@);
    let mut i: usize = 0;
    while i < images.len()
        invariant
            list == tokens(images@),
            i <= images@.len(),
            forall|k: int|
                #![trigger list[k]]
                0 <= k < i ==> is_offset(text@, list[k].start) && is_offset(text@, list[k].end)
                    && list[k].start < list[k].end,
            forall|j: int, k: int|
                #![trigger list[j], list[k]]
                0 <= j < k < i ==> list[j].end <= list[k].start,
        decreases images@.len() - i,
    {
        assert(list[i as int] == images@[i as int]@);
        if !(images[i].start < images[i].end && offset_at(text, images[i].start) && offset_at(
            text,
            images[i].end,
        )) {
            return false;
        }
        if i > 0 {
            assert(list[i - 1] == images@[i - 1]@);
            if images[i - 1].end > images[i].start {
                return false;
            }
            assert forall|j: int| 0 <= j < i implies (#[trigger] list[j]).end
                <= list[i as int].start by {
                if j < i - 1 {
                    assert(list[j].end <= list[i - 1].start);
                }
            }
        }
        i = i + 1;
    }
    true
}

/// Where an offset lies after the text between two others was removed.
fn offset_after(at: usize, from: usize, to: usize) -> (moved: usize)
    requires
        from <= to,
    ensures
        moved == fallen(at as int, from as int, to as int),
{
    if at <= from {
        at
    } else if at < to {
        from
    } else {
        at - (to - from)
    }
}

/// The cluster at the end of a text: the offset of its start.
fn last_cluster(text: &str) -> (found: Option<usize>)
    ensures
        found is None <==> clusters(text@).len() == 0,
        found matches Some(at) ==> {
            &&& at == byte_len(text@) - byte_len(clusters(text@).last())
            &&& is_offset(text@, at as int)
        },
{
    let parts = graphemes(text);
    let ghost pieces = views(parts@);
    if parts.len() == 0 {
        return None;
    }
    let last: &str = parts[parts.len() - 1];
    proof {
        lemma_byte_len_concat(joined(pieces.drop_last()), pieces.last());
        lemma_split(text@, joined(pieces.drop_last()), pieces.last());
    }
    Some(bytes_in(text) - bytes_in(last))
}

/// The cluster at the start of a text: the offset of its end.
fn first_cluster(text: &str) -> (found: Option<usize>)
    ensures
        found is None <==> clusters(text@).len() == 0,
        found matches Some(at) ==> {
            &&& at == byte_len(clusters(text@)[0])
            &&& is_offset(text@, at as int)
        },
{
    let parts = graphemes(text);
    let ghost pieces = views(parts@);
    if parts.len() == 0 {
        return None;
    }
    proof {
        lemma_joined_first(pieces);
        lemma_split(text@, pieces[0], joined(pieces.drop_first()));
    }
    Some(bytes_in(parts[0]))
}

/// An offset of the text in front of another offset is an offset of the whole text.
proof fn lemma_offset_before(s: Seq<char>, at: int, p: int)
    requires
        is_offset(s, at),
        is_offset(before(s, at), p),
    ensures
        is_offset(s, p),
        p <= at,
{
    lemma_offset(s, at);
    let head = before(s, at);
    lemma_offset(head, p);
    let k = crate::text::char_index(head, p);
    assert(s.take(k) =~= head.take(k));
    lemma_char_index(s, k);
}

/// An offset of the text behind another offset, counted from the start.
proof fn lemma_offset_after(s: Seq<char>, at: int, p: int)
    requires
        is_offset(s, at),
        is_offset(after(s, at), p),
    ensures
        is_offset(s, at + p),
        at <= at + p <= byte_len(s),
{
    lemma_offset(s, at);
    let tail = after(s, at);
    lemma_offset(tail, p);
    let head = before(s, at) + before(tail, p);
    lemma_byte_len_concat(before(s, at), before(tail, p));
    assert(s =~= head + after(tail, p));
    lemma_split(s, head, after(tail, p));
}

impl Draft {
    /// Moves the cursor one cluster to the left, over a token as a whole.
    pub fn move_left(&mut self) -> (changed: bool)
        requires
            old(self)@.wf(),
        ensures
            stepped(changed, old(self)@, final(self)@, old(self)@.left()),
            final(self)@.wf(),
    {
        let (head, _) = cut(self.text.as_str(), self.cursor);
        let previous: usize = match last_cluster(head) {
            Some(at) => at,
            None => return false,
        };
        proof {
            lemma_offset_before(self@.text, self@.cursor, previous as int);
        }
        match find_token(&self.images, previous, false, true) {
            Some(index) => {
                assert(tokens(self.images@)[index as int] == self.images@[index as int]@);
                self.cursor = self.images[index].start;
            },
            None => {
                self.cursor = previous;
            },
        }
        self.preferred_column = None;
        true
    }

    /// Moves the cursor one cluster to the right, over a token as a whole.
    pub fn move_right(&mut self) -> (changed: bool)
        requires
            old(self)@.wf(),
        ensures
            stepped(changed, old(self)@, final(self)@, old(self)@.right()),
            final(self)@.wf(),
    {
        let total: usize = bytes_in(self.text.as_str());
        let (_, tail) = cut(self.text.as_str(), self.cursor);
        let length: usize = match first_cluster(tail) {
            Some(at) => at,
            None => return false,
        };
        proof {
            lemma_offset_after(self@.text, self@.cursor, length as int);
        }
        let target: usize = self.cursor + length;
        match find_token(&self.images, target, true, true) {
            Some(index) => {
                assert(tokens(self.images@)[index as int] == self.images@[index as int]@);
                self.cursor = self.images[index].end;
            },
            None => {
                self.cursor = target;
            },
        }
        self.preferred_column = None;
        true
    }

    fn detach(&mut self, index: usize)
        requires
            old(self)@.wf(),
            index < old(self)@.images.len(),
        ensures
            final(self)@ == old(self)@.detached(index as int),
            final(self)@.wf(),
    {
        proof {
            lemma_detached(self@, index as int);
        }
        let ghost all = self.images@;
        let _ = self.images.remove(index);
        assert(tokens(self.images@) =~= tokens(all).remove(index as int));
    }

    /// Removes the token or the cluster in front of the cursor.
    pub fn backspace(&mut self) -> (changed: bool)
        requires
            old(self)@.wf(),
        ensures
            stepped(changed, old(self)@, final(self)@, old(self)@.without_previous()),
            final(self)@.wf(),
    {
        match find_token(&self.images, self.cursor, true, false) {
            Some(index) => {
                assert(tokens(self.images@)[index as int] == self.images@[index as int]@);
                let from: usize = self.images[index].start;
                let to: usize = self.images[index].end;
                self.detach(index);
                self.remove_range(from, to);
                return true;
            },
            None => {},
        }
        let (head, _) = cut(self.text.as_str(), self.cursor);
        let previous: usize = match last_cluster(head) {
            Some(at) => at,
            None => return false,
        };
        proof {
            lemma_offset_before(self@.text, self@.cursor, previous as int);
        }
        self.remove_range(previous, self.cursor);
        true
    }

    /// Removes the token or the cluster behind the cursor.
    pub fn delete(&mut self) -> (changed: bool)
        requires
            old(self)@.wf(),
        ensures
            stepped(changed, old(self)@, final(self)@, old(self)@.without_next()),
            final(self)@.wf(),
    {
        match find_token(&self.images, self.cursor, false, true) {
            Some(index) => {
                assert(tokens(self.images@)[index as int] == self.images@[index as int]@);
                let from: usize = self.images[index].start;
                let to: usize = self.images[index].end;
                self.detach(index);
                self.remove_range(from, to);
                return true;
            },
            None => {},
        }
        let total: usize = bytes_in(self.text.as_str());
        let (_, tail) = cut(self.text.as_str(), self.cursor);
        let length: usize = match first_cluster(tail) {
            Some(at) => at,
            None => return false,
        };
        proof {
            lemma_offset_after(self@.text, self@.cursor, length as int);
        }
        self.remove_range(self.cursor, self.cursor + length);
        true
    }

    /// Moves the cursor to the row above or below, at the column that movement aims at.
    pub fn move_vertical(&mut self, up: bool, width: usize) -> (changed: bool)
        requires
            old(self)@.wf(),
        ensures
            stepped(
                changed,
                old(self)@,
                final(self)@,
                if up {
                    old(self)@.up(width as int)
                } else {
                    old(self)@.down(width as int)
                },
            ),
            final(self)@.wf(),
    {
        let layout = VisualLayout::new(self.text.as_str(), self.cursor, width);
        let ghost list = rows(layout.lines@);
        let row: usize = layout.cursor_row;
        if up && row == 0 {
            return false;
        }
        let count: usize = layout.lines.len();
        assert(list.len() == count);
        assert(row < count);
        if !up && row >= count - 1 {
            return false;
        }
        let target: usize = if up {
            row - 1
        } else {
            row + 1
        };
        let desired: usize = match self.preferred_column {
            Some(column) => column,
            None => layout.cursor_column,
        };
        assert(is_row(self@.text, list[target as int]));
        assert(list[target as int] == layout.lines@[target as int]@);
        self.preferred_column = Some(desired);
        self.cursor = byte_at_column(self.text.as_str(), &layout.lines[target], desired);
        true
    }

    /// Moves the cursor to the start or the end of its row.
    pub fn move_to_visual_edge(&mut self, end: bool, width: usize) -> (changed: bool)
        requires
            old(self)@.wf(),
        ensures
            stepped(
                changed,
                old(self)@,
                final(self)@,
                old(self)@.at_edge(end, width as int),
            ),
            final(self)@.wf(),
    {
        let layout = VisualLayout::new(self.text.as_str(), self.cursor, width);
        let line: VisualLine = layout.lines[layout.cursor_row];
        assert(line@ == rows(layout.lines@)[layout.cursor_row as int]);
        assert(is_row(self@.text, line@));
        let target: usize = if end {
            line.end
        } else {
            line.start
        };
        if target == self.cursor {
            return false;
        }
        self.cursor = target;
        self.preferred_column = None;
        true
    }

    /// Puts text in place of the text between two offsets.
    pub fn replace_range(&mut self, from: usize, to: usize, text: &str)
        requires
            old(self)@.wf(),
            is_offset(old(self)@.text, from as int),
            is_offset(old(self)@.text, to as int),
            from <= to,
        ensures
            final(self)@ == old(self)@.cut_out(from as int, to as int).inserted(text@),
            final(self)@.wf(),
    {
        self.cut_range(from, to);
        self.insert(text);
    }
}

/// Text that is inserted and removed again leaves the text and the tokens as they were.
pub proof fn law_insertion_is_undone_by_removal(draft: Editing, added: Seq<char>)
    requires
        draft.wf(),
        byte_len(added) > 0,
    ensures
        ({
            let at = draft.insertion_point();
            let next = draft.inserted(added).erased(at, at + byte_len(added));
            next.text == draft.text && next.images == draft.images && next.cursor == at
        }),
{
    let at = draft.insertion_point();
    let n = byte_len(added) as int;
    let mid = draft.inserted(added);
    lemma_inserted(draft, added);
    lemma_insertion_point(draft);
    lemma_spliced(draft.text, at, at, added);
    lemma_beginning_at(draft.images, at, 0);
    let k = beginning_at(draft.images, at, 0);
    assert forall|i: int| 0 <= i < mid.images.len() implies slid(
        #[trigger] mid.images[i],
        at,
        at + n,
    ) == draft.images[i] by {
        if i < k {
            assert(draft.images[i].end <= at || at <= draft.images[i].start);
        } else if i > k {
            assert(draft.images[k].end <= draft.images[i].start);
            assert(draft.images[k].start < draft.images[k].end);
        }
    }
    assert(slid_tokens(mid.images, at, at + n) =~= draft.images);
    let next = mid.erased(at, at + n);
    let head = before(draft.text, at);
    let tail = after(draft.text, at);
    lemma_offset(draft.text, at);
    lemma_byte_len_concat(head, added);
    assert(mid.text =~= (head + added) + tail);
    lemma_split(mid.text, head + added, tail);
    assert(mid.text =~= head + (added + tail));
    lemma_split(mid.text, head, added + tail);
    assert(next.text =~= head + tail);
    assert(next.images =~= draft.images);
}

/// An image token disappears as a whole, with its attachment, where the cursor stands behind it.
#[verifier::spinoff_prover]
#[verifier::rlimit(60)]
pub proof fn law_backspace_removes_the_pasted_image(draft: Editing, data_url: Seq<char>)
    requires
        draft.wf(),
    ensures
        ({
            let next = draft.with_image(data_url);
            &&& next.without_previous() is Some
            &&& next.without_previous()->0.text == draft.text
            &&& next.without_previous()->0.images == draft.images
        }),
{
    let at = draft.insertion_point();
    let text = marker(draft.next_image);
    let n = byte_len(text) as int;
    let mid = draft.inserted(text);
    let next = draft.with_image(data_url);
    let k = beginning_at(draft.images, at, 0);
    lemma_marker(draft.next_image);
    lemma_with_image(draft, data_url);
    lemma_inserted(draft, text);
    lemma_insertion_point(draft);
    lemma_beginning_at(draft.images, at, 0);
    lemma_spliced(draft.text, at, at, text);
    let token = Token { start: at, end: at + n, data_url };
    assert(next.images[k] == token);
    let i = token_over(next.images, next.cursor - 1, next.cursor, 0);
    lemma_token_over(next.images, next.cursor - 1, next.cursor, 0);
    if i < k {
        assert(next.images[i].end <= next.images[k].start);
    }
    assert(i == k) by {
        if k < i {
            assert(next.images[k].start <= next.cursor - 1 && next.cursor <= next.images[k].end);
        }
    }
    let rest = next.detached(k);
    assert forall|j: int| 0 <= j < rest.images.len() implies slid(
        #[trigger] rest.images[j],
        at,
        at + n,
    ) == draft.images[j] by {
        if j < k {
            assert(rest.images[j] == next.images[j]);
            assert(next.images[j] == draft.images[j]);
            assert(next.images[j].start < next.images[j].end);
            assert(next.images[j].end <= next.images[k].start);
        } else {
            assert(rest.images[j] == next.images[j + 1]);
            assert(next.images[j + 1] == moved(draft.images[j], n));
            assert(next.images[k].end <= next.images[j + 1].start);
        }
    }
    assert(slid_tokens(rest.images, at, at + n) =~= draft.images);
    let gone = rest.erased(at, at + n);
    let head = before(draft.text, at);
    let tail = after(draft.text, at);
    lemma_offset(draft.text, at);
    lemma_byte_len_concat(head, text);
    assert(mid.text =~= (head + text) + tail);
    lemma_split(mid.text, head + text, tail);
    assert(mid.text =~= head + (text + tail));
    lemma_split(mid.text, head, text + tail);
    assert(gone.text =~= head + tail);
    assert(gone.images =~= draft.images);
}

} // verus!
