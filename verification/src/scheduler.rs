//! When the next frame is drawn. Times are in milliseconds.

use crate::node::{ComponentUpdate, RenderRequest};
use crate::spinner::due;
use vstd::prelude::*;

verus! {

/// The least time between two frames of a stream.
pub const STREAM_FRAME_INTERVAL_MS: u64 = 33;

/// When the last frame was drawn, and when the next one is wanted.
#[derive(Clone, Copy, Debug, PartialEq, Eq, Structural)]
pub struct RenderScheduler {
    pub interval: u64,
    pub last_frame: Option<u64>,
    pub deadline: Option<u64>,
}

impl RenderScheduler {
    /// The first time at which a stream may draw.
    pub open spec fn stream_time(self, now: u64) -> u64 {
        match self.last_frame {
            Some(last) => {
                let next = due(last as int, self.interval as int);
                if next > now {
                    next
                } else {
                    now
                }
            },
            None => now,
        }
    }

    /// The scheduler after a frame was asked for.
    pub open spec fn asked(self, request: RenderRequest, now: u64) -> RenderScheduler {
        let wanted = match request {
            RenderRequest::Idle => None,
            RenderRequest::Streaming => Some(self.stream_time(now)),
            RenderRequest::Immediate => Some(now),
        };
        RenderScheduler { deadline: crate::root_view::earlier(self.deadline, wanted), ..self }
    }

    /// A scheduler that wants a first frame now.
    pub fn new(interval: u64, now: u64) -> (scheduler: Self)
        ensures
            scheduler == (RenderScheduler { interval, last_frame: None, deadline: Some(now) }),
    {
        RenderScheduler { interval, last_frame: None, deadline: Some(now) }
    }

    /// Whether a frame is to be drawn.
    pub fn is_due(&self, now: u64) -> (yes: bool)
        ensures
            yes == (self.deadline matches Some(deadline) && deadline <= now),
    {
        match self.deadline {
            Some(deadline) => deadline <= now,
            None => false,
        }
    }

    /// A frame was drawn.
    pub fn presented(&mut self, now: u64)
        ensures
            *final(self) == (RenderScheduler {
                last_frame: Some(now),
                deadline: None,
                ..*old(self)
            }),
    {
        self.last_frame = Some(now);
        self.deadline = None;
    }
}

/// Asks for a frame.
pub fn request_render(request: RenderRequest, scheduler: &mut RenderScheduler, now: u64)
    ensures
        *final(scheduler) == old(scheduler).asked(request, now),
{
    let wanted: Option<u64> = match request {
        RenderRequest::Idle => None,
        RenderRequest::Streaming => match scheduler.last_frame {
            Some(last) => {
                let next: u64 = last.saturating_add(scheduler.interval);
                if next > now {
                    Some(next)
                } else {
                    Some(now)
                }
            },
            None => Some(now),
        },
        RenderRequest::Immediate => Some(now),
    };
    scheduler.deadline = crate::root_view::earlier_of(scheduler.deadline, wanted);
}

/// Asks for the frame of an update that asks for nothing else.
pub fn schedule<E>(update: ComponentUpdate<E>, scheduler: &mut RenderScheduler, now: u64)
    requires
        update.effects@.len() == 0,
    ensures
        *final(scheduler) == old(scheduler).asked(update.render, now),
{
    request_render(update.render, scheduler, now);
}

/// A frame that was asked for is drawn in time: at once if it is urgent, and otherwise no later than
/// the interval after the last frame.
pub proof fn law_frames_come_in_time(scheduler: RenderScheduler, request: RenderRequest, now: u64)
    requires
        request != RenderRequest::Idle,
        scheduler.last_frame matches Some(last) ==> last <= now,
    ensures
        scheduler.asked(request, now).deadline matches Some(deadline) && deadline <= due(
            now as int,
            scheduler.interval as int,
        ) && (request == RenderRequest::Immediate ==> deadline <= now),
{
}

} // verus!
