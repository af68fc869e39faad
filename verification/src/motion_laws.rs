//! What holds of animations, frames and what is remembered between them.

use crate::cache::Kept;
use crate::empty::{canvas_of, frame_at, EmptyLogo, FRAME_COUNT, FRAME_INTERVAL_MS};
use crate::entry::TranscriptEntry;
use crate::geometry::Rect;
use crate::history::Recall;
use crate::node::RenderRequest;
use crate::root_view::earlier;
use crate::scheduler::RenderScheduler;
use crate::settings::ThemeMode;
use crate::spinner::{due, Spinner, SPINNER_INTERVAL_MS};
use crate::theme::{ColorScheme, Theme};
use vstd::prelude::*;

verus! {

/// A spinner turns by one of its ten marks once its time has come, and not before; the next mark
/// comes an interval later.
pub proof fn law_the_spinner_turns(spinner: Spinner, now: u64)
    requires
        spinner.frame < 10,
        now + SPINNER_INTERVAL_MS <= u64::MAX,
    ensures
        now < spinner.next_frame ==> spinner.at(now as int) == spinner,
        now >= spinner.next_frame ==> spinner.at(now as int).frame == (spinner.frame + 1) % 10
            && spinner.at(now as int).next_frame == now + SPINNER_INTERVAL_MS,
        spinner.at(now as int).frame < 10,
        spinner.at(now as int).at(now as int) == spinner.at(now as int),
{
}

/// Every one of the ten frames of a spinner has a mark of its own, one cell wide.
pub proof fn law_marks_differ(a: Spinner, b: Spinner)
    requires
        a.frame < 10,
        b.frame < 10,
    ensures
        a.mark() == b.mark() <==> a.frame == b.frame,
        a.mark().len() == 1,
{
    reveal_strlit("⠋");
    reveal_strlit("⠙");
    reveal_strlit("⠹");
    reveal_strlit("⠸");
    reveal_strlit("⠼");
    reveal_strlit("⠴");
    reveal_strlit("⠦");
    reveal_strlit("⠧");
    reveal_strlit("⠇");
    reveal_strlit("⠏");
    assert(a.mark()[0] == b.mark()[0] <==> a.frame == b.frame);
}

/// The picture of an empty session shows one frame for each interval since it began, over and over.
pub proof fn law_the_logo_goes_round(started_at: int, k: int, extra: int)
    requires
        started_at >= 0,
        k >= 0,
        0 <= extra < FRAME_INTERVAL_MS,
    ensures
        frame_at(started_at, started_at + k * FRAME_INTERVAL_MS + extra) == k % (FRAME_COUNT as int),
        0 <= frame_at(started_at, started_at + k * FRAME_INTERVAL_MS + extra) < FRAME_COUNT,
{
}

/// A logo that is not due stays; one that is due shows the frame of the time, and is due again an
/// interval later.
pub proof fn law_the_logo_waits(logo: EmptyLogo, now: u64)
    requires
        now + FRAME_INTERVAL_MS <= u64::MAX,
        logo.started_at <= now,
    ensures
        now < logo.next_frame ==> logo.at(now as int) == logo,
        now >= logo.next_frame ==> logo.at(now as int).frame == frame_at(
            logo.started_at as int,
            now as int,
        ) && logo.at(now as int).next_frame == now + FRAME_INTERVAL_MS,
        logo.at(now as int).started_at == logo.started_at,
{
}

/// The picture lies in the middle of its area, inside of it, and is no larger than 35 by 17 cells.
pub proof fn law_the_logo_is_centred(area: Rect)
    requires
        area.fits(),
    ensures
        canvas_of(area) is None <==> area.width == 0 || area.height == 0,
        canvas_of(area) matches Some(canvas) ==> {
            let left = canvas.x - area.x;
            let right = area.x + area.width - (canvas.x + canvas.width);
            let top = canvas.y - area.y;
            let bottom = area.y + area.height - (canvas.y + canvas.height);
            &&& 1 <= canvas.width <= 35 && 1 <= canvas.height <= 17
            &&& 0 <= left <= right <= left + 1
            &&& 0 <= top <= bottom <= top + 1
            &&& area.width >= 37 ==> canvas.width == 35
            &&& area.height >= 18 ==> canvas.height == 17
        },
{
}

/// The earlier of two times is one of them and no later than the other; no time is later than all.
pub proof fn law_the_earlier_time(a: Option<u64>, b: Option<u64>)
    ensures
        earlier(a, b) == earlier(b, a),
        earlier(a, None) == a,
        earlier(a, b) == a || earlier(a, b) == b,
        a matches Some(x) ==> earlier(a, b) is Some && earlier(a, b)->0 <= x,
{
}

/// A request for a frame never delays one that was asked for before, an idle one asks for nothing,
/// and a streaming one waits until the interval since the last frame is over.
pub proof fn law_frames_are_not_delayed(
    scheduler: RenderScheduler,
    request: RenderRequest,
    now: u64,
    before: u64,
)
    ensures
        ({
            let next = scheduler.asked(request, now);
            &&& next.last_frame == scheduler.last_frame
            &&& next.interval == scheduler.interval
            &&& request == RenderRequest::Idle ==> next == scheduler
            &&& scheduler.deadline == Some(before) ==> next.deadline is Some && next.deadline->0
                <= before
            &&& request == RenderRequest::Streaming && scheduler.deadline is None
                && scheduler.last_frame == Some(before) && before + scheduler.interval <= u64::MAX
                ==> next.deadline is Some && next.deadline->0 >= before + scheduler.interval
                && next.deadline->0 >= now
            &&& request == RenderRequest::Immediate && scheduler.deadline is None
                ==> next.deadline == Some(now)
        }),
{
}

/// The more urgent of two requests for a frame wins.
pub proof fn law_the_more_urgent_request_wins(a: RenderRequest, b: RenderRequest)
    ensures
        a.or(b) == b.or(a),
        a.or(RenderRequest::Idle) == a,
        a.or(RenderRequest::Immediate) == RenderRequest::Immediate,
        a.or(b) == RenderRequest::Idle <==> a == RenderRequest::Idle && b == RenderRequest::Idle,
{
}

/// An entry that is folded or unfolded by the user leaves the others as they are. Its rows are laid
/// out anew.
pub proof fn law_folding_touches_one_entry(
    kept: Kept,
    entry: TranscriptEntry,
    other: TranscriptEntry,
    width: u16,
)
    requires
        entry.id != other.id,
    ensures
        kept.toggled(entry).unfolds(other) == kept.unfolds(other),
        kept.toggled(entry).fresh(other, width) == kept.fresh(other, width),
        !kept.toggled(entry).fresh(entry, width),
        !kept.all_toggled().fresh(entry, width),
{
}

/// Unfolding all entries and folding them again leaves every one folded.
pub proof fn law_all_entries_are_folded_again(kept: Kept, entry: TranscriptEntry)
    requires
        kept.expand_all is None || kept.expand_all == Some(false),
    ensures
        kept.all_toggled().unfolds(entry),
        !kept.all_toggled().all_toggled().unfolds(entry),
        kept.overrides.contains_key(entry.id) ==> kept.unfolds(entry) == kept.overrides[entry.id],
{
}

/// A prompt that is recorded is the first one that is recalled, and the draft is kept for the way
/// back.
pub proof fn law_the_last_prompt_is_recalled_first(
    history: Recall,
    prompt: Seq<char>,
    draft: Seq<char>,
)
    ensures
        ({
            let recorded = history.recorded(prompt);
            &&& recorded.has_previous()
            &&& recorded.position is None
            &&& recorded.back(draft).shown() == prompt
            &&& recorded.back(draft).draft == draft
            &&& recorded.back(draft).forward().position is None
            &&& recorded.entries.drop_last() == history.entries
        }),
{
    assert(history.recorded(prompt).entries.drop_last() =~= history.entries);
}

/// One step back and one on again show what was shown; at the first prompt there is no way back.
pub proof fn law_back_and_forward(history: Recall, draft: Seq<char>)
    requires
        history.wf(),
    ensures
        history.has_previous() <==> history.entries.len() > 0 && history.position != Some(0int),
        history.position is Some && history.has_previous() ==> history.back(draft).forward()
            == history && history.back(draft).wf(),
        history.position is None && history.has_previous() ==> history.back(draft).wf()
            && history.back(draft).shown() == history.entries.last(),
{
}

/// A light or a dark theme is shown as such; the automatic one follows the system.
pub proof fn law_themes_are_shown(system: ColorScheme)
    ensures
        (Theme { mode: ThemeMode::Light, system }).shown() == ColorScheme::Light,
        (Theme { mode: ThemeMode::Dark, system }).shown() == ColorScheme::Dark,
        (Theme { mode: ThemeMode::Auto, system }).shown() == system,
{
}

/// Rows that were laid out for an entry are used again exactly while the entry, the width and whether
/// it is unfolded stay the same; folding an entry makes its rows useless.
pub proof fn law_rows_are_used_again(
    kept: crate::cache::Kept,
    entry: crate::entry::TranscriptEntry,
    width: u16,
    other: u16,
)
    ensures
        kept.fresh(entry, width) && width != other ==> !kept.fresh(entry, other),
        kept.fresh(entry, width) ==> kept.entries[entry.id].expanded == kept.unfolds(entry)
            && kept.entries[entry.id].revision == entry.revision,
        kept.fresh(entry, width) ==> !kept.toggled(entry).fresh(entry, width),
{
}

} // verus!
