//! A turning symbol for work that goes on.

use vstd::prelude::*;

verus! {

/// The milliseconds between two frames.
pub const SPINNER_INTERVAL_MS: u64 = 80;

/// A spinner: the frame that is shown, and when the next one is due. Times are in milliseconds.
#[derive(Clone, Copy, Debug, PartialEq, Eq, Structural)]
pub struct Spinner {
    pub frame: u8,
    pub next_frame: u64,
}

/// The time of the frame after one.
pub open spec fn due(now: int, interval: int) -> u64 {
    if now + interval > u64::MAX {
        u64::MAX
    } else {
        (now + interval) as u64
    }
}

impl Spinner {
    /// A spinner that starts now.
    pub fn new(now: u64) -> (spinner: Self)
        ensures
            spinner.frame == 0,
            spinner.next_frame == due(now as int, SPINNER_INTERVAL_MS as int),
    {
        Spinner { frame: 0, next_frame: now.saturating_add(SPINNER_INTERVAL_MS) }
    }

    /// When the next frame is due.
    pub fn deadline(&self) -> (time: u64)
        ensures
            time == self.next_frame,
    {
        self.next_frame
    }

    /// The spinner at a time.
    pub open spec fn at(self, now: int) -> Spinner {
        if now < self.next_frame {
            self
        } else {
            Spinner {
                frame: (if self.frame >= 9 {
                    0
                } else {
                    self.frame + 1
                }) as u8,
                next_frame: due(now, SPINNER_INTERVAL_MS as int),
            }
        }
    }

    /// Shows the next frame if it is due.
    pub fn advance(&mut self, now: u64) -> (changed: bool)
        ensures
            *final(self) == old(self).at(now as int),
            changed == (now >= old(self).next_frame),
    {
        if now < self.next_frame {
            return false;
        }
        self.frame = if self.frame >= 9 {
            0
        } else {
            self.frame + 1
        };
        self.next_frame = now.saturating_add(SPINNER_INTERVAL_MS);
        true
    }

    pub open spec fn mark(self) -> Seq<char> {
        match self.frame {
            0 => "⠋"@,
            1 => "⠙"@,
            2 => "⠹"@,
            3 => "⠸"@,
            4 => "⠼"@,
            5 => "⠴"@,
            6 => "⠦"@,
            7 => "⠧"@,
            8 => "⠇"@,
            _ => "⠏"@,
        }
    }

    /// The symbol of the frame.
    pub fn symbol(&self) -> (symbol: &'static str)
        ensures
            symbol@ == self.mark(),
    {
        match self.frame {
            0 => "⠋",
            1 => "⠙",
            2 => "⠹",
            3 => "⠸",
            4 => "⠼",
            5 => "⠴",
            6 => "⠦",
            7 => "⠧",
            8 => "⠇",
            _ => "⠏",
        }
    }
}

} // verus!
