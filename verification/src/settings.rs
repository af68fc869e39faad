//! Settings that the interface shows and changes.

use crate::text::same;
use vstd::prelude::*;

verus! {

/// How much the model thinks.
#[derive(Clone, Copy, Debug, PartialEq, Eq, Structural)]
pub enum ReasoningEffort {
    Low,
    Medium,
    High,
    XHigh,
    Max,
}

impl ReasoningEffort {
    pub open spec fn name(self) -> Seq<char> {
        match self {
            ReasoningEffort::Low => "low"@,
            ReasoningEffort::Medium => "medium"@,
            ReasoningEffort::High => "high"@,
            ReasoningEffort::XHigh => "xhigh"@,
            ReasoningEffort::Max => "max"@,
        }
    }

    pub open spec fn title(self) -> Seq<char> {
        match self {
            ReasoningEffort::Low => "Low"@,
            ReasoningEffort::Medium => "Medium"@,
            ReasoningEffort::High => "High"@,
            ReasoningEffort::XHigh => "XHigh"@,
            ReasoningEffort::Max => "Max"@,
        }
    }

    /// The name of the level with a capital.
    pub fn as_title(self) -> (name: &'static str)
        ensures
            name@ == self.title(),
    {
        match self {
            ReasoningEffort::Low => "Low",
            ReasoningEffort::Medium => "Medium",
            ReasoningEffort::High => "High",
            ReasoningEffort::XHigh => "XHigh",
            ReasoningEffort::Max => "Max",
        }
    }

    /// The name of the level.
    pub fn as_str(self) -> (name: &'static str)
        ensures
            name@ == self.name(),
    {
        match self {
            ReasoningEffort::Low => "low",
            ReasoningEffort::Medium => "medium",
            ReasoningEffort::High => "high",
            ReasoningEffort::XHigh => "xhigh",
            ReasoningEffort::Max => "max",
        }
    }

    /// The level of that name.
    pub open spec fn named(text: Seq<char>) -> Option<ReasoningEffort> {
        if text == "low"@ {
            Some(ReasoningEffort::Low)
        } else if text == "medium"@ {
            Some(ReasoningEffort::Medium)
        } else if text == "high"@ {
            Some(ReasoningEffort::High)
        } else if text == "xhigh"@ {
            Some(ReasoningEffort::XHigh)
        } else if text == "max"@ {
            Some(ReasoningEffort::Max)
        } else {
            None
        }
    }

    /// The level of that name.
    pub fn parse(text: &str) -> (effort: Option<ReasoningEffort>)
        ensures
            effort == Self::named(text@),
    {
        if same(text, "low") {
            Some(ReasoningEffort::Low)
        } else if same(text, "medium") {
            Some(ReasoningEffort::Medium)
        } else if same(text, "high") {
            Some(ReasoningEffort::High)
        } else if same(text, "xhigh") {
            Some(ReasoningEffort::XHigh)
        } else if same(text, "max") {
            Some(ReasoningEffort::Max)
        } else {
            None
        }
    }
}

/// A level is found again by its name.
pub proof fn law_efforts_have_names(effort: ReasoningEffort)
    ensures
        ReasoningEffort::named(effort.name()) == Some(effort),
{
    reveal_strlit("low");
    reveal_strlit("medium");
    reveal_strlit("high");
    reveal_strlit("xhigh");
    reveal_strlit("max");
    assert("low"@[0] == 'l' && "medium"@[0] == 'm' && "high"@[0] == 'h' && "xhigh"@[0] == 'x');
    assert("max"@.len() == 3 && "medium"@.len() == 6);
}

/// A model, by the body that stands for it.
#[derive(Clone, Copy, Debug, PartialEq, Eq, Structural)]
pub enum Model {
    Luna,
    Terra,
    Sol,
}

/// The kind of reasoning of a session.
#[derive(Clone, Copy, Debug, PartialEq, Eq, Structural)]
pub enum ReasoningMode {
    Standard,
    Pro,
}

impl ReasoningMode {
    pub open spec fn name(self) -> Seq<char> {
        match self {
            ReasoningMode::Standard => "standard"@,
            ReasoningMode::Pro => "pro"@,
        }
    }

    /// The name of the kind.
    pub fn as_str(self) -> (name: &'static str)
        ensures
            name@ == self.name(),
    {
        match self {
            ReasoningMode::Standard => "standard",
            ReasoningMode::Pro => "pro",
        }
    }

    /// The kind of that name.
    pub open spec fn named(text: Seq<char>) -> Option<ReasoningMode> {
        if text == "standard"@ {
            Some(ReasoningMode::Standard)
        } else if text == "pro"@ {
            Some(ReasoningMode::Pro)
        } else {
            None
        }
    }

    /// The kind of that name.
    pub fn parse(text: &str) -> (mode: Option<ReasoningMode>)
        ensures
            mode == Self::named(text@),
    {
        if same(text, "standard") {
            Some(ReasoningMode::Standard)
        } else if same(text, "pro") {
            Some(ReasoningMode::Pro)
        } else {
            None
        }
    }
}

/// Which palette is used.
#[derive(Clone, Copy, Debug, PartialEq, Eq, Structural)]
pub enum ThemeMode {
    Auto,
    Light,
    Dark,
}

/// The primary session or one of its forks.
#[derive(Clone, Copy, Debug, PartialEq, Eq, Structural)]
pub enum PaneId {
    Main,
    Fork(u64),
}

} // verus!
