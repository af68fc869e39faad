//! What a component answers to an event.

use vstd::prelude::*;

verus! {

/// How soon the next frame is wanted.
#[derive(Clone, Copy, Debug, PartialEq, Eq, Structural)]
pub enum RenderRequest {
    Idle,
    Streaming,
    Immediate,
}

impl RenderRequest {
    /// The urgency of a request.
    pub open spec fn rank(self) -> int {
        match self {
            RenderRequest::Idle => 0,
            RenderRequest::Streaming => 1,
            RenderRequest::Immediate => 2,
        }
    }

    /// The more urgent of two requests.
    pub open spec fn or(self, other: RenderRequest) -> RenderRequest {
        if self.rank() >= other.rank() {
            self
        } else {
            other
        }
    }

    /// The more urgent of two requests.
    pub fn max(self, other: RenderRequest) -> (request: RenderRequest)
        ensures
            request == self.or(other),
    {
        match (self, other) {
            (RenderRequest::Immediate, _) => self,
            (_, RenderRequest::Immediate) => other,
            (RenderRequest::Streaming, _) => self,
            (_, RenderRequest::Streaming) => other,
            (RenderRequest::Idle, RenderRequest::Idle) => self,
        }
    }
}

/// Effects for the owner of a component, and the frame that the component wants.
#[derive(Debug)]
pub struct ComponentUpdate<E> {
    pub effects: Vec<E>,
    pub render: RenderRequest,
}

impl<E> ComponentUpdate<E> {
    /// No effect and a frame of the given urgency.
    pub open spec fn only(self, render: RenderRequest) -> bool {
        self.effects@ == Seq::<E>::empty() && self.render == render
    }

    /// Nothing happened.
    pub fn none() -> (update: Self)
        ensures
            update.only(RenderRequest::Idle),
    {
        ComponentUpdate { effects: Vec::new(), render: RenderRequest::Idle }
    }

    /// Only a frame.
    pub fn render(render: RenderRequest) -> (update: Self)
        ensures
            update.only(render),
    {
        ComponentUpdate { effects: Vec::new(), render }
    }

    /// One effect and a frame.
    pub fn one(effect: E, render: RenderRequest) -> (update: Self)
        ensures
            update.effects@ == seq![effect],
            update.render == render,
    {
        let mut effects: Vec<E> = Vec::new();
        effects.push(effect);
        ComponentUpdate { effects, render }
    }
}

} // verus!
