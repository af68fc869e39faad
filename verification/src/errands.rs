//! What follows the errands that leave the program, to a browser, to the configuration or to the
//! clipboard, and how the program ends.

use crate::composer::option_view;
use crate::prompt::{PromptModel, Submission};
use crate::runtime::{acts, one, Action, Loop, Notice, Runtime};
use crate::settings::PaneId;
use crate::text::concat;
use vstd::prelude::*;

verus! {

/// A session is told of a failure.
pub open spec fn failure_told(pane: PaneId, error: Seq<char>) -> Action<Seq<char>, PromptModel> {
    Action::Tell { notice: Notice::NotifyError { pane, error }, apply: false }
}

/// A session is told of a success.
pub open spec fn success_told(pane: PaneId, message: Seq<char>) -> Action<Seq<char>, PromptModel> {
    Action::Tell { notice: Notice::NotifySuccess { pane, message }, apply: false }
}

fn tell_failure(pane: PaneId, error: String) -> (actions: Vec<Action<String, Submission>>)
    ensures
        acts(actions@) == seq![failure_told(pane, error@)],
{
    one(Action::Tell { notice: Notice::NotifyError { pane, error }, apply: false })
}

fn tell_success(pane: PaneId, message: &str) -> (actions: Vec<Action<String, Submission>>)
    ensures
        acts(actions@) == seq![success_told(pane, message@)],
{
    let message: String = message.to_owned();
    one(Action::Tell { notice: Notice::NotifySuccess { pane, message }, apply: false })
}

/// The browser did not open a link.
pub fn link_failed(pane: PaneId, error: &str) -> (actions: Vec<Action<String, Submission>>)
    ensures
        acts(actions@) == seq![failure_told(pane, "Could not open link: "@ + error@)],
{
    tell_failure(pane, concat("Could not open link: ", error))
}

/// What a session is told once the configuration was read again.
pub open spec fn reloaded_text(workspace_changed: bool) -> Seq<char> {
    "Reloaded config · theme applied · agent/auth settings apply to new sessions"@ + if workspace_changed {
        " · workspace requires restart"@
    } else {
        ""@
    }
}

/// What a session is told once the configuration was read again.
pub fn reload_message(workspace_changed: bool) -> (message: String)
    ensures
        message@ == reloaded_text(workspace_changed),
{
    concat(
        "Reloaded config · theme applied · agent/auth settings apply to new sessions",
        if workspace_changed {
            " · workspace requires restart"
        } else {
            ""
        },
    )
}

/// What a session is told if the configuration could not be read again.
pub fn reload_failure(error: &str) -> (message: String)
    ensures
        message@ == "Could not reload config: "@ + error@,
{
    concat("Could not reload config: ", error)
}

/// What follows once the system's clipboard took a selection or refused it. Where the terminal has a
/// clipboard of its own, that is tried next.
pub open spec fn after_native_copy(
    pane: PaneId,
    text: Seq<char>,
    failure: Option<Seq<char>>,
    fallback: bool,
) -> Action<Seq<char>, PromptModel> {
    match failure {
        None => success_told(pane, "Copied selection to clipboard."@),
        Some(error) => if fallback {
            Action::CopyToTerminal { pane, text, error }
        } else {
            failure_told(pane, "Could not copy selection: "@ + error)
        },
    }
}

/// What follows once the system's clipboard took a selection or refused it.
pub fn native_copy_finished(
    pane: PaneId,
    text: String,
    failure: Option<String>,
    fallback: bool,
) -> (actions: Vec<Action<String, Submission>>)
    ensures
        acts(actions@) == seq![after_native_copy(pane, text@, option_view(failure), fallback)],
{
    match failure {
        None => tell_success(pane, "Copied selection to clipboard."),
        Some(error) => if fallback {
            one(Action::CopyToTerminal { pane, text, error })
        } else {
            tell_failure(pane, concat("Could not copy selection: ", error.as_str()))
        },
    }
}

/// What follows once the terminal took a selection or refused it. `native` is why the system's
/// clipboard had refused it.
pub open spec fn after_terminal_copy(
    pane: PaneId,
    native: Seq<char>,
    failure: Option<Seq<char>>,
) -> Action<Seq<char>, PromptModel> {
    match failure {
        None => success_told(pane, "Sent selection to the terminal clipboard."@),
        Some(error) => failure_told(
            pane,
            "Could not copy selection: "@ + native + "; terminal fallback failed: "@ + error,
        ),
    }
}

/// What follows once the terminal took a selection or refused it.
pub fn terminal_copy_finished(pane: PaneId, native: &str, failure: Option<String>) -> (actions: Vec<
    Action<String, Submission>,
>)
    ensures
        acts(actions@) == seq![after_terminal_copy(pane, native@, option_view(failure))],
{
    match failure {
        None => tell_success(pane, "Sent selection to the terminal clipboard."),
        Some(error) => {
            let mut text: String = concat("Could not copy selection: ", native);
            text.push_str("; terminal fallback failed: ");
            text.push_str(error.as_str());
            tell_failure(pane, text)
        },
    }
}

/// The texts of a result.
pub open spec fn ending_view(ending: Result<String, String>) -> Result<Seq<char>, Seq<char>> {
    match ending {
        Ok(session) => Ok(session@),
        Err(error) => Err(error@),
    }
}

impl Loop {
    /// How the program ends: with the failure of a writer, else with that of the worker, else with
    /// the session of the main pane. `first` is the session that it began with.
    pub open spec fn ending(self, failure: Option<Seq<char>>, first: Seq<char>) -> Result<
        Seq<char>,
        Seq<char>,
    > {
        match (failure, self.worker_error) {
            (Some(error), _) => Err(error),
            (None, Some(error)) => Err(error),
            (None, None) => Ok(
                if self.has(PaneId::Main) {
                    self.pane(PaneId::Main).session_id
                } else {
                    first
                },
            ),
        }
    }
}

impl Runtime {
    /// How the program ends.
    pub fn ending(&self, failure: Option<String>, first: String) -> (ending: Result<String, String>)
        ensures
            ending_view(ending) == self@.ending(option_view(failure), first@),
    {
        match failure {
            Some(error) => return Err(error),
            None => {},
        }
        match &self.worker_error {
            Some(error) => return Err(error.clone()),
            None => {},
        }
        let i: usize = self.index_of(PaneId::Main);
        if i < self.panes.len() {
            assert(self@.panes[i as int] == self.panes@[i as int]@);
            Ok(self.panes[i].session_id.clone())
        } else {
            Ok(first)
        }
    }
}

} // verus!
