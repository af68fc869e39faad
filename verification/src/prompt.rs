//! Prompts with the images that were pasted into them.

use crate::geometry::least;
use crate::text::{
    between, byte_len, bytes_in, is_offset, joined_with, lemma_byte_len_bounds, lemma_char_index,
    lemma_offset, slice,
};
use vstd::prelude::*;

verus! {

/// An image and the byte range of its token in the prompt's text.
#[derive(Debug)]
pub struct PastedImage {
    pub start: usize,
    pub end: usize,
    pub data_url: String,
}

/// An image token as mathematical values.
pub struct Token {
    pub start: int,
    pub end: int,
    pub data_url: Seq<char>,
}

impl View for PastedImage {
    type V = Token;

    open spec fn view(&self) -> Token {
        Token { start: self.start as int, end: self.end as int, data_url: self.data_url@ }
    }
}

/// The tokens of a list of images.
pub open spec fn tokens(images: Seq<PastedImage>) -> Seq<Token> {
    images.map_values(|image: PastedImage| image@)
}

/// Tokens lie at offsets of the text, hold something, and follow each other without overlap.
pub open spec fn placed(text: Seq<char>, images: Seq<Token>) -> bool {
    &&& forall|i: int|
        #![trigger images[i]]
        0 <= i < images.len() ==> is_offset(text, images[i].start) && is_offset(text, images[i].end)
            && images[i].start < images[i].end
    &&& forall|i: int, j: int|
        #![trigger images[i], images[j]]
        0 <= i < j < images.len() ==> images[i].end <= images[j].start
}

/// A prompt as it is handed to the agent.
#[derive(Debug)]
pub struct Submission {
    pub text: String,
    pub images: Vec<PastedImage>,
}

/// A prompt as mathematical values.
pub struct PromptModel {
    pub text: Seq<char>,
    pub images: Seq<Token>,
}

impl View for Submission {
    type V = PromptModel;

    open spec fn view(&self) -> PromptModel {
        PromptModel { text: self.text@, images: tokens(self.images@) }
    }
}

/// A prompt without images.
pub open spec fn plain(text: Seq<char>) -> PromptModel {
    PromptModel { text, images: Seq::empty() }
}

impl Submission {
    /// A prompt without images.
    pub fn plain_text(text: String) -> (prompt: Self)
        ensures
            prompt@ == plain(text@),
    {
        let prompt = Submission { text, images: Vec::new() };
        assert(prompt@.images =~= Seq::<Token>::empty());
        prompt
    }

    /// A prompt with images.
    pub fn multimodal(text: String, images: Vec<PastedImage>) -> (prompt: Self)
        ensures
            prompt@ == (PromptModel { text: text@, images: tokens(images@) }),
    {
        Submission { text, images }
    }

    /// The text that the transcript shows.
    pub fn display_text(&self) -> (text: &str)
        ensures
            text@ == self@.text,
    {
        self.text.as_str()
    }
}

/// A token behind text of `by` bytes. Offsets that no text has are the largest one.
pub open spec fn shifted(token: Token, by: int) -> Token {
    Token {
        start: least(token.start + by, usize::MAX as int),
        end: least(token.end + by, usize::MAX as int),
        data_url: token.data_url,
    }
}

/// Two prompts as one: an empty line stands between them.
pub open spec fn appended(a: PromptModel, b: PromptModel) -> PromptModel {
    let by = byte_len(a.text + "\n\n"@) as int;
    PromptModel {
        text: a.text + "\n\n"@ + b.text,
        images: a.images + b.images.map_values(|token: Token| shifted(token, by)),
    }
}

/// Prompts as one.
pub open spec fn joined_prompts(prompts: Seq<PromptModel>) -> PromptModel
    decreases prompts.len(),
{
    if prompts.len() == 0 {
        plain(Seq::empty())
    } else if prompts.len() == 1 {
        prompts[0]
    } else {
        appended(joined_prompts(prompts.drop_last()), prompts.last())
    }
}

pub open spec fn prompts_view(list: Seq<Submission>) -> Seq<PromptModel> {
    list.map_values(|prompt: Submission| prompt@)
}

impl Submission {
    /// A copy of the prompt.
    pub fn copy(&self) -> (prompt: Submission)
        ensures
            prompt@ == self@,
    {
        let mut images: Vec<PastedImage> = Vec::new();
        let mut i: usize = 0;
        assert(tokens(images@) =~= tokens(self.images@).take(0));
        while i < self.images.len()
            invariant
                i <= self.images@.len(),
                tokens(images@) == tokens(self.images@).take(i as int),
            decreases self.images@.len() - i,
        {
            let ghost sofar = tokens(images@);
            let image = PastedImage {
                start: self.images[i].start,
                end: self.images[i].end,
                data_url: self.images[i].data_url.clone(),
            };
            images.push(image);
            i = i + 1;
            assert(tokens(images@) =~= sofar.push(image@));
            assert(tokens(images@) =~= tokens(self.images@).take(i as int));
        }
        assert(tokens(images@) =~= tokens(self.images@));
        Submission { text: self.text.clone(), images }
    }

    /// Appends another prompt behind an empty line.
    pub fn append(&mut self, next: Submission)
        ensures
            final(self)@ == appended(old(self)@, next@),
    {
        let ghost a = self@;
        let ghost b = next@;
        self.text.push_str("\n\n");
        let by: usize = bytes_in(self.text.as_str());
        self.text.push_str(next.text.as_str());
        let mut i: usize = 0;
        let ghost expected = appended(a, b).images;
        let ghost count = a.images.len() as int;
        assert(tokens(self.images@) =~= expected.take(count));
        while i < next.images.len()
            invariant
                b == next@,
                count == a.images.len(),
                by == byte_len(a.text + "\n\n"@),
                expected == appended(a, b).images,
                self.text@ == a.text + "\n\n"@ + b.text,
                i <= next.images@.len(),
                tokens(self.images@) == expected.take(count + i),
            decreases next.images@.len() - i,
        {
            let ghost sofar = tokens(self.images@);
            let image = PastedImage {
                start: next.images[i].start.saturating_add(by),
                end: next.images[i].end.saturating_add(by),
                data_url: next.images[i].data_url.clone(),
            };
            assert(b.images[i as int] == next.images@[i as int]@);
            assert(image@ == shifted(b.images[i as int], by as int));
            self.images.push(image);
            i = i + 1;
            assert(tokens(self.images@) =~= sofar.push(image@));
            assert(tokens(self.images@) =~= expected.take(count + i));
        }
        assert(tokens(self.images@) =~= expected);
    }

    /// Prompts as one: an empty line stands between them.
    pub fn join(prompts: Vec<Submission>) -> (prompt: Submission)
        ensures
            prompt@ == joined_prompts(prompts_view(prompts@)),
    {
        let ghost all = prompts_view(prompts@);
        let total: usize = prompts.len();
        let mut rest: Vec<Submission> = prompts;
        if rest.len() == 0 {
            return Submission::plain_text(String::new());
        }
        let mut prompt: Submission = rest.remove(0);
        let mut n: usize = 1;
        assert(all.take(1).len() == 1 && all.take(1)[0] == prompt@);
        assert(rest@ =~= prompts@.skip(1));
        while rest.len() > 0
            invariant
                all == prompts_view(prompts@),
                total == prompts@.len(),
                1 <= n,
                n + rest@.len() == total,
                rest@ == prompts@.skip(n as int),
                prompt@ == joined_prompts(all.take(n as int)),
            decreases rest@.len(),
        {
            let next: Submission = rest.remove(0);
            assert(next@ == all[n as int]);
            prompt.append(next);
            assert(all.take(n + 1).drop_last() =~= all.take(n as int));
            n = n + 1;
            assert(rest@ =~= prompts@.skip(n as int));
        }
        assert(all.take(n as int) =~= all);
        prompt
    }
}

/// The text of joined prompts is that of the prompts with an empty line between them.
pub proof fn law_joined_text(prompts: Seq<PromptModel>)
    ensures
        joined_prompts(prompts).text == joined_with(
            prompts.map_values(|prompt: PromptModel| prompt.text),
            "\n\n"@,
        ),
    decreases prompts.len(),
{
    let texts = prompts.map_values(|prompt: PromptModel| prompt.text);
    if prompts.len() > 1 {
        law_joined_text(prompts.drop_last());
        assert(texts.drop_last() =~= prompts.drop_last().map_values(
            |prompt: PromptModel| prompt.text,
        ));
    }
}

impl Submission {
    /// The prompt with a text before it, and an empty line between them.
    pub fn prepend_text(self, text: String) -> (prompt: Submission)
        ensures
            prompt@ == appended(plain(text@), self@),
    {
        let mut prompt = Submission::plain_text(text);
        prompt.append(self);
        prompt
    }
}

/// A piece of a prompt as the agent takes it: text, or an image by its data URL.
#[derive(Debug)]
pub enum InputPart {
    Text(String),
    Image(String),
}

/// A piece of a prompt as mathematical values.
pub enum Part {
    Text(Seq<char>),
    Image(Seq<char>),
}

impl View for InputPart {
    type V = Part;

    open spec fn view(&self) -> Part {
        match self {
            InputPart::Text(text) => Part::Text(text@),
            InputPart::Image(data_url) => Part::Image(data_url@),
        }
    }
}

/// The pieces of a list.
pub open spec fn parts_view(list: Seq<InputPart>) -> Seq<Part> {
    list.map_values(|part: InputPart| part@)
}

/// Pieces with a text behind them. An empty text is no piece.
pub open spec fn with_text(parts: Seq<Part>, text: Seq<char>) -> Seq<Part> {
    if text.len() == 0 {
        parts
    } else {
        parts.push(Part::Text(text))
    }
}

impl PromptModel {
    /// Where the text behind the first `k` images starts.
    pub open spec fn text_start(self, k: int) -> int {
        if k <= 0 {
            0
        } else {
            self.images[k - 1].end
        }
    }

    /// The pieces up to the image before index `k`: each image stands where its token was.
    pub open spec fn parts_until(self, k: int) -> Seq<Part>
        decreases k,
    {
        if k <= 0 {
            Seq::empty()
        } else {
            with_text(
                self.parts_until(k - 1),
                between(self.text, self.text_start(k - 1), self.images[k - 1].start),
            ).push(Part::Image(self.images[k - 1].data_url))
        }
    }

    /// The pieces of the prompt.
    pub open spec fn parts(self) -> Seq<Part> {
        let n = self.images.len() as int;
        with_text(
            self.parts_until(n),
            between(self.text, self.text_start(n), byte_len(self.text) as int),
        )
    }
}

/// Appends a text to pieces.
fn push_text(parts: &mut Vec<InputPart>, text: &str)
    ensures
        parts_view(final(parts)@) == with_text(parts_view(old(parts)@), text@),
{
    let ghost sofar = parts_view(parts@);
    if bytes_in(text) > 0 {
        proof {
            lemma_byte_len_bounds(text@);
        }
        let part = InputPart::Text(text.to_owned());
        parts.push(part);
        assert(parts_view(parts@) =~= sofar.push(part@));
    } else {
        proof {
            lemma_byte_len_bounds(text@);
        }
    }
}

impl Submission {
    /// The pieces of the prompt: the images in the places of their tokens, and the text between
    /// them.
    pub fn agent_prompt(&self) -> (parts: Vec<InputPart>)
        requires
            placed(self@.text, self@.images),
        ensures
            parts_view(parts@) == self@.parts(),
    {
        let text: &str = self.text.as_str();
        let mut parts: Vec<InputPart> = Vec::new();
        let mut from: usize = 0;
        let mut i: usize = 0;
        assert(parts_view(parts@) =~= self@.parts_until(0));
        proof {
            lemma_char_index(text@, 0);
            lemma_byte_len_bounds(text@.take(0));
        }
        while i < self.images.len()
            invariant
                text@ == self@.text,
                placed(self@.text, self@.images),
                i <= self.images@.len(),
                from == self@.text_start(i as int),
                is_offset(text@, from as int),
                parts_view(parts@) == self@.parts_until(i as int),
            decreases self.images@.len() - i,
        {
            assert(self@.images[i as int] == self.images@[i as int]@);
            proof {
                if i == 0 {
                    lemma_offset(text@, self@.images[0].start);
                } else {
                    assert(self@.images[i - 1].end <= self@.images[i as int].start);
                }
            }
            push_text(&mut parts, slice(text, from, self.images[i].start));
            let ghost sofar = parts_view(parts@);
            let image = InputPart::Image(self.images[i].data_url.clone());
            parts.push(image);
            assert(parts_view(parts@) =~= sofar.push(image@));
            from = self.images[i].end;
            i = i + 1;
        }
        let end: usize = bytes_in(text);
        proof {
            lemma_char_index(text@, text@.len() as int);
            assert(text@.take(text@.len() as int) =~= text@);
            lemma_offset(text@, from as int);
        }
        push_text(&mut parts, slice(text, from, end));
        parts
    }
}

/// A prompt without images is one piece of text, and nothing where it is empty.
pub proof fn law_plain_prompts_are_one_part(text: Seq<char>)
    ensures
        plain(text).parts() == with_text(Seq::empty(), text),
{
    lemma_char_index(text, 0);
    lemma_byte_len_bounds(text.take(0));
    lemma_char_index(text, text.len() as int);
    assert(text.take(text.len() as int) =~= text);
    assert(between(text, 0, byte_len(text) as int) =~= text);
}

} // verus!
