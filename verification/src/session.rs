//! Stored sessions and prompts, and how their age is shown.

use crate::geometry::minus;
use crate::numeral::{decimal, decimal_text};
use crate::search::{contains, lower_characters, lowercase, occurs};
use crate::settings::{ReasoningEffort, ReasoningMode};
use vstd::prelude::*;

verus! {

/// A session that can be resumed.
#[derive(Debug)]
pub struct SessionSummary {
    pub session_id: String,
    pub started_at_unix_ms: u64,
    pub model: String,
    pub effort: ReasoningEffort,
    pub reasoning_mode: ReasoningMode,
    pub workspace: String,
    pub preview: String,
}

/// A prompt of this or another session.
#[derive(Debug)]
pub struct RecentPrompt {
    pub text: String,
    pub recorded_at_unix_ms: u64,
    pub session_id: String,
    pub workspace: String,
}

/// A text holds a query if the text's capitals count as small letters.
pub open spec fn mentions(text: Seq<char>, query: Seq<char>) -> bool {
    occurs(lowercase(text), query)
}

fn mention(text: &str, query: &Vec<char>) -> (yes: bool)
    ensures
        yes == mentions(text@, query@),
{
    let lowered = lower_characters(text);
    contains(&lowered, query)
}

impl SessionSummary {
    /// The session's identifier, preview, model or directory holds the query.
    pub open spec fn is_match(self, query: Seq<char>) -> bool {
        ||| query.len() == 0
        ||| mentions(self.session_id@, query)
        ||| mentions(self.preview@, query)
        ||| mentions(self.model@, query)
        ||| mentions(self.workspace@, query)
    }

    /// Whether a query finds the session.
    pub fn matches(&self, query: &Vec<char>) -> (yes: bool)
        ensures
            yes == self.is_match(query@),
    {
        query.len() == 0 || mention(self.session_id.as_str(), query) || mention(
            self.preview.as_str(),
            query,
        ) || mention(self.model.as_str(), query) || mention(self.workspace.as_str(), query)
    }
}

/// A span of seconds in its largest unit.
pub open spec fn age_text(seconds: int) -> Seq<char> {
    if seconds < 60 {
        "now"@
    } else if seconds < 3_600 {
        decimal(seconds / 60) + "m"@
    } else if seconds < 86_400 {
        decimal(seconds / 3_600) + "h"@
    } else {
        decimal(seconds / 86_400) + "d"@
    }
}

/// How long ago something began.
pub fn format_age(now_unix_ms: u64, started_at_unix_ms: u64) -> (age: String)
    ensures
        age@ == age_text(minus(now_unix_ms as int, started_at_unix_ms as int) / 1_000),
{
    let seconds: u64 = now_unix_ms.saturating_sub(started_at_unix_ms) / 1_000;
    if seconds < 60 {
        "now".to_owned()
    } else if seconds < 3_600 {
        let mut text = decimal_text(seconds / 60);
        text.push_str("m");
        text
    } else if seconds < 86_400 {
        let mut text = decimal_text(seconds / 3_600);
        text.push_str("h");
        text
    } else {
        let mut text = decimal_text(seconds / 86_400);
        text.push_str("d");
        text
    }
}

} // verus!
