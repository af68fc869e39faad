//! Earlier prompts, recalled with the arrow keys.

use vstd::prelude::*;

verus! {

/// Prompts in the order of their submission, and the place of the reader among them.
#[derive(Debug)]
pub struct PromptHistory {
    pub entries: Vec<String>,
    pub position: Option<usize>,
    pub draft: String,
}

/// The prompts, the index of the recalled one, and the draft that waits meanwhile.
pub struct Recall {
    pub entries: Seq<Seq<char>>,
    pub position: Option<int>,
    pub draft: Seq<char>,
}

impl View for PromptHistory {
    type V = Recall;

    open spec fn view(&self) -> Recall {
        Recall {
            entries: self.entries@.map_values(|entry: String| entry@),
            position: match self.position {
                Some(at) => Some(at as int),
                None => None,
            },
            draft: self.draft@,
        }
    }
}

impl Recall {
    /// The recalled prompt is one of the prompts.
    pub open spec fn wf(self) -> bool {
        self.position matches Some(at) ==> 0 <= at < self.entries.len()
    }

    /// The history after its reader left it.
    pub open spec fn detached(self) -> Recall {
        Recall { entries: self.entries, position: None, draft: Seq::empty() }
    }

    /// The history with one prompt more, and nothing recalled.
    pub open spec fn recorded(self, prompt: Seq<char>) -> Recall {
        Recall { entries: self.entries.push(prompt), position: None, draft: Seq::empty() }
    }

    /// There is a prompt in front of the recalled one, or in front of the draft.
    pub open spec fn has_previous(self) -> bool {
        match self.position {
            Some(at) => at > 0,
            None => self.entries.len() > 0,
        }
    }

    /// The history one prompt further back; the draft is kept where nothing was recalled.
    pub open spec fn back(self, draft: Seq<char>) -> Recall {
        match self.position {
            Some(at) => Recall {
                entries: self.entries,
                position: Some(at - 1),
                draft: self.draft,
            },
            None => Recall {
                entries: self.entries,
                position: Some(self.entries.len() - 1),
                draft,
            },
        }
    }

    /// The history one prompt further on; behind the last prompt nothing is recalled.
    pub open spec fn forward(self) -> Recall {
        match self.position {
            Some(at) if at + 1 < self.entries.len() => Recall {
                entries: self.entries,
                position: Some(at + 1),
                draft: self.draft,
            },
            _ => self.detached(),
        }
    }

    /// The text that the reader sees.
    pub open spec fn shown(self) -> Seq<char> {
        match self.position {
            Some(at) => self.entries[at],
            None => self.draft,
        }
    }
}

impl PromptHistory {
    /// The history without a prompt.
    pub fn new() -> (history: Self)
        ensures
            history@.wf(),
            history@.entries.len() == 0,
            history@.position is None,
            history@.draft.len() == 0,
    {
        PromptHistory { entries: Vec::new(), position: None, draft: String::new() }
    }

    /// Leaves the history.
    pub fn detach(&mut self)
        requires
            old(self)@.wf(),
        ensures
            final(self)@ == old(self)@.detached(),
            final(self)@.wf(),
    {
        self.position = None;
        self.draft = String::new();
        assert(self@.draft =~= Seq::<char>::empty());
        assert(self@ == old(self)@.detached());
    }

    /// Appends a prompt and leaves the history.
    pub fn record(&mut self, prompt: String)
        requires
            old(self)@.wf(),
        ensures
            final(self)@ == old(self)@.recorded(prompt@),
            final(self)@.wf(),
    {
        self.entries.push(prompt);
        self.position = None;
        self.draft = String::new();
        proof {
            assert(self@.entries =~= old(self)@.entries.push(prompt@));
            assert(self@.draft =~= Seq::<char>::empty());
        }
    }

    /// Whether an earlier prompt is recalled.
    pub fn is_browsing(&self) -> (yes: bool)
        ensures
            yes == self@.position is Some,
    {
        self.position.is_some()
    }

    /// Recalls the prompt in front of the current one.
    pub fn previous(&mut self, draft: &str) -> (prompt: Option<String>)
        requires
            old(self)@.wf(),
        ensures
            final(self)@.wf(),
            prompt is Some == old(self)@.has_previous(),
            prompt is None ==> final(self)@ == old(self)@,
            prompt matches Some(text) ==> final(self)@ == old(self)@.back(draft@) && text@
                == final(self)@.shown(),
    {
        let at: usize = match self.position {
            Some(at) => {
                if at == 0 {
                    return None;
                }
                at - 1
            },
            None => {
                if self.entries.len() == 0 {
                    return None;
                }
                self.draft = draft.to_owned();
                self.entries.len() - 1
            },
        };
        self.position = Some(at);
        assert(self@.entries =~= old(self)@.entries);
        Some(self.entries[at].clone())
    }

    /// Goes on to the next prompt, and from the last one back to the draft.
    pub fn next(&mut self) -> (prompt: Option<String>)
        requires
            old(self)@.wf(),
        ensures
            final(self)@.wf(),
            prompt is Some == old(self)@.position is Some,
            prompt is None ==> final(self)@ == old(self)@,
            prompt matches Some(text) ==> final(self)@ == old(self)@.forward() && text@ == (
            if final(self)@.position is Some {
                final(self)@.shown()
            } else {
                old(self)@.draft
            }),
    {
        let at: usize = match self.position {
            Some(at) => at,
            None => return None,
        };
        if at < self.entries.len() - 1 {
            self.position = Some(at + 1);
            return Some(self.entries[at + 1].clone());
        }
        let draft = self.draft.clone();
        self.position = None;
        self.draft = String::new();
        assert(self@.draft =~= Seq::<char>::empty());
        Some(draft)
    }
}

impl Recall {
    /// The history `n` prompts further back.
    pub open spec fn back_by(self, draft: Seq<char>, n: int) -> Recall
        decreases n,
    {
        if n <= 0 {
            self
        } else {
            self.back_by(draft, n - 1).back(draft)
        }
    }

    /// The history `n` prompts further on.
    pub open spec fn forward_by(self, n: int) -> Recall
        decreases n,
    {
        if n <= 0 {
            self
        } else {
            self.forward_by(n - 1).forward()
        }
    }
}

proof fn lemma_back_by(history: Recall, draft: Seq<char>, n: int)
    requires
        history.position is None,
        1 <= n <= history.entries.len(),
    ensures
        history.back_by(draft, n) == (Recall {
            entries: history.entries,
            position: Some(history.entries.len() - n),
            draft,
        }),
    decreases n,
{
    if n > 1 {
        lemma_back_by(history, draft, n - 1);
    } else {
        reveal_with_fuel(Recall::back_by, 2);
    }
}

proof fn lemma_forward_by(history: Recall, at: int, n: int)
    requires
        history.position == Some(at),
        0 <= n,
        0 <= at,
        at + n < history.entries.len(),
    ensures
        history.forward_by(n) == (Recall { position: Some(at + n), ..history }),
    decreases n,
{
    if n > 0 {
        lemma_forward_by(history, at, n - 1);
    }
}

/// Going back by some prompts shows an earlier one each time. Going on as often shows them again, and
/// at last the draft that was left, which waits meanwhile.
pub proof fn law_draft_survives_recall(history: Recall, draft: Seq<char>, n: int, k: int)
    requires
        history.position is None,
        1 <= n <= history.entries.len(),
        0 <= k < n,
    ensures
        ({
            let past = history.back_by(draft, n);
            let len = history.entries.len();
            &&& past.shown() == history.entries[len - n]
            &&& past.forward_by(k).shown() == history.entries[len - n + k]
            &&& past.forward_by(k).draft == draft
            &&& past.forward_by(n).position is None
            &&& past.forward_by(n).entries == history.entries
        }),
{
    let past = history.back_by(draft, n);
    let at = history.entries.len() - n;
    lemma_back_by(history, draft, n);
    lemma_forward_by(past, at, k);
    lemma_forward_by(past, at, n - 1);
}

} // verus!
