//! What holds of what is typed and sent.

use crate::composer::{tokens_between, ComposerEvent, ComposerModel, Request};
use crate::draft_laws::{is_simple, law_typed_text_stands_at_the_cursor};
use crate::event::{Event, KeyCode, KeyEvent};
use crate::prompt::{placed, with_text, Part, PromptModel, Token};
use crate::selection_laws::law_blank_ends_are_cut;
use crate::text::{
    between, blank_prefix, byte_len, is_offset, is_white_space, lemma_blank_end,
    lemma_blank_prefix, lemma_offset, trimmed, without_leading,
};
use vstd::prelude::*;

verus! {

proof fn lemma_blank_start(s: Seq<char>)
    ensures
        0 <= blank_prefix(s) <= s.len(),
        forall|i: int| 0 <= i < blank_prefix(s) ==> is_white_space(#[trigger] s[i]),
        blank_prefix(s) < s.len() ==> !is_white_space(s[blank_prefix(s)]),
    decreases s.len(),
{
    if s.len() > 0 && is_white_space(s[0]) {
        let rest = s.drop_first();
        lemma_blank_start(rest);
        assert forall|i: int| 0 <= i < blank_prefix(s) implies is_white_space(#[trigger] s[i]) by {
            if i > 0 {
                assert(rest[i - 1] == s[i]);
            }
        }
    }
}

/// White space at the start and at the end is left out, and nothing else: what is left stands
/// between two blank parts, and neither begins nor ends with white space.
pub proof fn law_blank_sides_are_cut(s: Seq<char>)
    ensures
        ({
            let part = trimmed(s);
            let from = blank_prefix(s);
            &&& 0 <= from <= from + part.len() <= s.len()
            &&& part == s.subrange(from, from + part.len())
            &&& part.len() > 0 ==> !is_white_space(part[0]) && !is_white_space(part.last())
            &&& forall|i: int|
                0 <= i < s.len() && !is_white_space(#[trigger] s[i]) ==> from <= i < from
                    + part.len()
        }),
{
    let from = blank_prefix(s);
    let rest = s.skip(from);
    let part = trimmed(s);
    lemma_blank_start(s);
    law_blank_ends_are_cut(rest);
    assert(part =~= s.subrange(from, from + part.len()));
    if part.len() > 0 {
        assert(part[0] == s[from]);
    }
    assert forall|i: int| 0 <= i < s.len() && !is_white_space(#[trigger] s[i]) implies from <= i
        < from + part.len() by {
        if i >= from + part.len() {
            assert(rest[i - from] == s[i]);
        }
    }
}

/// A text without white space at its ends is what is left of it.
proof fn lemma_trimmed_already(s: Seq<char>)
    requires
        s.len() > 0,
        !is_white_space(s[0]),
        !is_white_space(s.last()),
    ensures
        trimmed(s) == s,
        blank_prefix(s) == 0,
{
    lemma_blank_prefix(s, 0);
    assert(s.skip(0) =~= s);
    lemma_blank_end(s, s.len() as int);
    assert(s.take(s.len() as int) =~= s);
}

/// A blank draft is not sent and stays as it is.
pub proof fn law_blank_drafts_are_not_sent(model: ComposerModel)
    requires
        forall|i: int|
            0 <= i < model.edit.text.len() ==> is_white_space(#[trigger] model.edit.text[i]),
    ensures
        model.submitted().effect is None,
        model.submitted().model == model,
        !model.submitted().changed,
{
    law_blank_sides_are_cut(model.edit.text);
    let part = trimmed(model.edit.text);
    if part.len() > 0 {
        assert(part[0] == model.edit.text[blank_prefix(model.edit.text)]);
    }
}

/// A draft that does not begin with an exclamation mark is sent as a prompt, without the white space
/// around it; the draft is empty then, and the prompt is the last one of the history.
pub proof fn law_prompts_are_submitted(model: ComposerModel)
    requires
        trimmed(model.edit.text).len() > 0,
        model.edit.images.len() > 0 || model.edit.text[0] != '!',
    ensures
        ({
            let reaction = model.submitted();
            &&& reaction.changed
            &&& reaction.effect matches Some(Request::Submit(prompt)) && prompt.text == trimmed(
                model.edit.text,
            )
            &&& reaction.model.edit.text.len() == 0
            &&& reaction.model.edit.cursor == 0
            &&& reaction.model.edit.images.len() == 0
            &&& reaction.model.history.entries == model.history.entries.push(
                trimmed(model.edit.text),
            )
            &&& reaction.model.history.position is None
            &&& reaction.model.effort == model.effort && reaction.model.tokens == model.tokens
        }),
{
}

/// A draft that begins with an exclamation mark is run as a command, without the mark; the history
/// keeps it with the mark.
pub proof fn law_commands_are_run(model: ComposerModel, command: Seq<char>)
    requires
        model.edit.images.len() == 0,
        command.len() > 0,
        !is_white_space(command[0]),
        !is_white_space(command.last()),
        command[0] != '!',
        model.edit.text == "!"@ + command,
    ensures
        model.submitted().effect == Some(Request::RunShell(command)),
        model.submitted().model.edit.text.len() == 0,
        model.submitted().model.history.entries == model.history.entries.push(model.edit.text),
{
    reveal_strlit("!");
    let text = model.edit.text;
    assert(text[0] == '!');
    assert(!is_white_space('!')) by {
        reveal(is_white_space);
    }
    assert(text.last() == command.last());
    lemma_trimmed_already(text);
    assert(text.drop_first() =~= command);
    reveal_with_fuel(without_leading, 2);
    assert(without_leading(text, '!') == command);
    lemma_trimmed_already(command);
}

/// Only the enter key without shift sends a draft; with shift, and the control key with j, it breaks
/// the line.
pub proof fn law_enter_sends(model: ComposerModel, key: KeyEvent)
    requires
        key.down(),
    ensures
        ({
            let reaction = model.on_event(ComposerEvent::Terminal(Event::Key(key)));
            let breaks = (key.code == KeyCode::Enter && key.modifiers.shift
                && !key.modifiers.control) || (key.code == KeyCode::Char('j')
                && key.modifiers.control);
            &&& reaction.effect is Some ==> key.code == KeyCode::Enter && !key.modifiers.shift
                && !key.modifiers.control || key.code == KeyCode::Char('g')
                && key.modifiers.control && reaction.model == model
            &&& key.code == KeyCode::Enter && !key.modifiers.shift && !key.modifiers.control
                ==> reaction == model.submitted()
            &&& breaks ==> reaction.changed && reaction.effect is None && reaction.model.edit
                == model.edit.inserted("\n"@)
            &&& key.modifiers.control && !breaks ==> reaction.model == model
        }),
{
}

/// A character that is typed stands at the cursor, and the cursor behind it; text that is pasted
/// likewise.
pub proof fn law_characters_are_typed(model: ComposerModel, key: KeyEvent, c: char, pasted: String)
    requires
        key.down(),
        key.code == KeyCode::Char(c),
        !key.modifiers.control,
        is_simple(model.edit),
        model.edit.images.len() == 0,
    ensures
        ({
            let edit = model.edit;
            let typed = model.on_event(ComposerEvent::Terminal(Event::Key(key)));
            let added = model.on_event(ComposerEvent::Terminal(Event::Paste(pasted)));
            &&& typed.changed && typed.effect is None
            &&& typed.model.edit.text == edit.text.take(edit.cursor) + seq![c] + edit.text.skip(
                edit.cursor,
            )
            &&& added.changed && added.effect is None
            &&& added.model.edit.text == edit.text.take(edit.cursor) + pasted@ + edit.text.skip(
                edit.cursor,
            )
            &&& typed.model.history.position is None
        }),
{
    law_typed_text_stands_at_the_cursor(model.edit, seq![c]);
    law_typed_text_stands_at_the_cursor(model.edit, pasted@);
}

/// The keys that move the cursor or remove text do what they say: each does what the movement or
/// removal of its name does, and where there is none the text stays.
pub proof fn law_keys_edit(model: ComposerModel, key: KeyEvent)
    requires
        key.down(),
        !key.modifiers.control,
        key.code == KeyCode::Left || key.code == KeyCode::Right || key.code == KeyCode::Home
            || key.code == KeyCode::End,
    ensures
        ({
            let next = model.on_event(ComposerEvent::Terminal(Event::Key(key))).model.edit;
            &&& next.text == model.edit.text && next.images == model.edit.images
            &&& key.code == KeyCode::Left && model.edit.left() is Some ==> next
                == model.edit.left()->0
            &&& key.code == KeyCode::Right && model.edit.right() is Some ==> next
                == model.edit.right()->0
            &&& key.code == KeyCode::Home && model.edit.at_edge(false, model.width) is Some ==> next
                == model.edit.at_edge(false, model.width)->0
            &&& key.code == KeyCode::End && model.edit.at_edge(true, model.width) is Some ==> next
                == model.edit.at_edge(true, model.width)->0
        }),
{
}

/// In the first row the up key recalls the prompt before, and the down key then brings the draft
/// back.
pub proof fn law_the_history_is_at_the_edge(model: ComposerModel, up: KeyEvent, down: KeyEvent)
    requires
        up.down(),
        up.code == KeyCode::Up,
        !up.modifiers.control,
        down.down(),
        down.code == KeyCode::Down,
        !down.modifiers.control,
        model.edit.up(model.width) is None,
        model.history.position is None,
        model.history.entries.len() > 0,
    ensures
        ({
            let recalled = model.on_event(ComposerEvent::Terminal(Event::Key(up)));
            let back = recalled.model.on_event(ComposerEvent::Terminal(Event::Key(down)));
            &&& recalled.changed && recalled.effect is None
            &&& recalled.model.edit.text == model.history.entries.last()
            &&& recalled.model.edit.cursor == byte_len(model.history.entries.last())
            &&& back.model.edit.text == model.edit.text
            &&& back.model.history.position is None
            &&& back.model.history.entries == model.history.entries
        }),
{
}

/// The settings that are shown are those that were set last; what is shown already is not drawn
/// again.
pub proof fn law_settings_are_shown(model: ComposerModel, event: ComposerEvent)
    ensures
        ({
            let reaction = model.on_event(event);
            &&& event matches ComposerEvent::SetEffort(effort) ==> reaction.model.effort == effort
                && reaction.changed == (model.effort != effort)
            &&& event matches ComposerEvent::SetFastMode(fast) ==> reaction.model.fast == fast
                && reaction.changed == (model.fast != fast)
            &&& event matches ComposerEvent::ContextTokens(tokens) ==> reaction.model.tokens
                == tokens && reaction.changed == (model.tokens != tokens)
            &&& event matches ComposerEvent::ActiveSubagents { count } ==> reaction.model.subagents
                == count && reaction.changed == (model.subagents != count)
            &&& event matches ComposerEvent::Activity { active, status } ==> (!active
                ==> reaction.model.status is None) && (reaction.changed <==> reaction.model.status
                != model.status)
            &&& !(event is Terminal) ==> reaction.effect is None
        }),
{
}

/// Where nothing is cut off a text, its images are sent with it as they are.
pub proof fn law_images_are_sent(images: Seq<Token>, end: int, n: int)
    requires
        0 <= n <= images.len(),
        forall|i: int|
            0 <= i < images.len() ==> 0 <= (#[trigger] images[i]).start && images[i].end <= end,
    ensures
        tokens_between(images, n, 0, end) == images.take(n),
    decreases n,
{
    if n > 0 {
        law_images_are_sent(images, end, n - 1);
        assert(images.take(n) =~= images.take(n - 1).push(images[n - 1]));
    } else {
        assert(images.take(0) =~= Seq::empty());
    }
}

/// An image that lies in what is sent is sent with it, moved by what is cut off in front; others are
/// not sent.
pub proof fn law_images_move_with_their_text(
    images: Seq<Token>,
    n: int,
    start: int,
    end: int,
    token: Token,
)
    requires
        0 <= n <= images.len(),
    ensures
        tokens_between(images, n, start, end).contains(token) <==> exists|i: int|
            0 <= i < n && start <= (#[trigger] images[i]).start && images[i].end <= end
                && token.start == images[i].start - start && token.end == images[i].end - start
                && token.data_url == images[i].data_url,
    decreases n,
{
    if n > 0 {
        law_images_move_with_their_text(images, n - 1, start, end, token);
        let rest = tokens_between(images, n - 1, start, end);
        let all = tokens_between(images, n, start, end);
        let t = images[n - 1];
        if start <= t.start && t.end <= end {
            let moved = Token { start: t.start - start, end: t.end - start, data_url: t.data_url };
            assert(all[rest.len() as int] == moved);
            if rest.contains(token) {
                let k = choose|k: int| 0 <= k < rest.len() && rest[k] == token;
                assert(all[k] == token);
            }
            if all.contains(token) {
                let k = choose|k: int| 0 <= k < all.len() && all[k] == token;
                if k < rest.len() {
                    assert(rest[k] == token);
                } else {
                    assert(images[n - 1].start == token.start + start);
                }
            }
        }
    }
}

/// A status is shown while something goes on, and only then; one that stays the same is not drawn
/// again.
pub proof fn law_the_status_is_shown_while_busy(model: ComposerModel, status: Option<Seq<char>>)
    ensures
        model.busy(true, status).model.status == status,
        model.busy(false, status).model.status is None,
        model.busy(true, status).changed <==> model.status != status,
        model.busy(false, status).changed <==> model.status is Some,
        model.busy(true, status).model.edit == model.edit,
        model.busy(true, status).effect is None,
{
}

/// The images among the parts of a prompt, in their order.
pub open spec fn pictures(parts: Seq<Part>) -> Seq<Seq<char>>
    decreases parts.len(),
{
    if parts.len() == 0 {
        Seq::empty()
    } else {
        match parts.last() {
            Part::Image(data_url) => pictures(parts.drop_last()).push(data_url),
            Part::Text(_) => pictures(parts.drop_last()),
        }
    }
}

/// The texts among the parts of a prompt, one after the other.
pub open spec fn sayings(parts: Seq<Part>) -> Seq<char>
    decreases parts.len(),
{
    if parts.len() == 0 {
        Seq::empty()
    } else {
        match parts.last() {
            Part::Image(_) => sayings(parts.drop_last()),
            Part::Text(text) => sayings(parts.drop_last()) + text,
        }
    }
}

proof fn lemma_with_text(parts: Seq<Part>, text: Seq<char>)
    ensures
        pictures(with_text(parts, text)) == pictures(parts),
        sayings(with_text(parts, text)) == sayings(parts) + text,
{
    if text.len() == 0 {
        assert(sayings(parts) + text =~= sayings(parts));
    } else {
        assert(parts.push(Part::Text(text)).drop_last() =~= parts);
    }
}

proof fn lemma_parts(prompt: PromptModel, k: int)
    requires
        placed(prompt.text, prompt.images),
        0 <= k <= prompt.images.len(),
    ensures
        pictures(prompt.parts_until(k)) == prompt.images.take(k).map_values(
            |token: Token| token.data_url,
        ),
        byte_len(sayings(prompt.parts_until(k))) + token_bytes(prompt.images, k)
            == prompt.text_start(k),
        is_offset(prompt.text, prompt.text_start(k)),
    decreases k,
{
    if k <= 0 {
        assert(prompt.images.take(0).map_values(|token: Token| token.data_url)
            =~= Seq::<Seq<char>>::empty());
        crate::text::lemma_char_index(prompt.text, 0);
        assert(prompt.text.take(0) =~= Seq::<char>::empty());
    } else {
        lemma_parts(prompt, k - 1);
        let rest = prompt.parts_until(k - 1);
        let image = prompt.images[k - 1];
        let start = prompt.text_start(k - 1);
        let text = between(prompt.text, start, image.start);
        assert(start <= image.start) by {
            if k - 1 > 0 {
                assert(prompt.images[k - 2].end <= prompt.images[k - 1].start);
            } else {
                crate::text::lemma_offset(prompt.text, image.start);
            }
        }
        crate::text::lemma_offset_order(prompt.text, start, image.start);
        lemma_with_text(rest, text);
        crate::text::lemma_byte_len_concat(sayings(rest), text);
        let parts = with_text(rest, text);
        assert(parts.push(Part::Image(image.data_url)).drop_last() =~= parts);
        assert(prompt.images.take(k).map_values(|token: Token| token.data_url)
            =~= prompt.images.take(k - 1).map_values(|token: Token| token.data_url).push(
            image.data_url,
        ));
    }
}

/// The bytes that the first `k` images stand for in a text.
pub open spec fn token_bytes(images: Seq<Token>, k: int) -> int
    decreases k,
{
    if k <= 0 {
        0
    } else {
        token_bytes(images, k - 1) + images[k - 1].end - images[k - 1].start
    }
}

/// A prompt is sent as its images, all of them and in their order, and as all of its text but for
/// what stands for the images. A prompt without images is its text.
pub proof fn law_all_parts_are_sent(prompt: PromptModel)
    requires
        placed(prompt.text, prompt.images),
    ensures
        pictures(prompt.parts()) == prompt.images.map_values(|token: Token| token.data_url),
        byte_len(sayings(prompt.parts())) + token_bytes(
            prompt.images,
            prompt.images.len() as int,
        ) == byte_len(prompt.text),
        prompt.images.len() == 0 ==> sayings(prompt.parts()) == prompt.text,
{
    let n = prompt.images.len() as int;
    lemma_parts(prompt, n);
    let rest = prompt.parts_until(n);
    let start = prompt.text_start(n);
    let end = byte_len(prompt.text) as int;
    let text = between(prompt.text, start, end);
    crate::text::lemma_char_index(prompt.text, prompt.text.len() as int);
    assert(prompt.text.take(prompt.text.len() as int) =~= prompt.text);
    crate::text::lemma_offset(prompt.text, start);
    crate::text::lemma_offset_order(prompt.text, start, end);
    lemma_with_text(rest, text);
    crate::text::lemma_byte_len_concat(sayings(rest), text);
    assert(prompt.images.take(n) =~= prompt.images);
    if n == 0 {
        assert(text =~= prompt.text);
        assert(Seq::<char>::empty() + text =~= text);
    }
}

} // verus!
