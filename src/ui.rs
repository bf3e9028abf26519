//! Conflict resolution policy: what happens when a planned write meets an
//! existing path.

use vstd::prelude::*;

verus! {

/// How conflicts are resolved for a whole run.
#[derive(Debug, Clone, Copy, PartialEq, Eq, Structural)]
pub enum OverwriteMode {
    /// Always replace the existing file.
    Overwrite,
    /// Always keep the existing file.
    Skip,
    /// Always place the new file under a fresh `_copy<N>` name.
    Rename,
    /// Ask the decision source each time.
    Ask,
}

/// The decision taken for one conflict.
#[derive(Debug, Clone, Copy, PartialEq, Eq, Structural)]
pub enum OverwriteAction {
    Overwrite,
    Skip,
    Rename,
}

/// An answer of the decision source to one conflict.
#[derive(Debug, Clone, Copy, PartialEq, Eq, Structural)]
pub struct Answer {
    pub action: OverwriteAction,
    /// Apply the same action to every remaining conflict of the run.
    pub apply_to_all: bool,
}

/// The per-run state of the conflict policy.
#[derive(Debug, Clone, Copy, PartialEq, Eq, Structural)]
pub struct ConflictResolver {
    pub mode: OverwriteMode,
    /// An action chosen for all remaining conflicts, once the decision
    /// source has asked for that.
    pub sticky: Option<OverwriteAction>,
}

impl ConflictResolver {
    /// The decision for the next conflict, when the policy settles it
    /// without asking.
    pub open spec fn settled(self) -> Option<OverwriteAction> {
        match self.mode {
            OverwriteMode::Overwrite => Some(OverwriteAction::Overwrite),
            OverwriteMode::Skip => Some(OverwriteAction::Skip),
            OverwriteMode::Rename => Some(OverwriteAction::Rename),
            OverwriteMode::Ask => self.sticky,
        }
    }

    pub fn new(mode: OverwriteMode) -> (r: ConflictResolver)
        ensures
            r.mode == mode,
            r.sticky is None,
    {
        ConflictResolver { mode, sticky: None }
    }

    /// The decision for the next conflict, or `None` when the decision
    /// source must be asked.
    pub fn decide(&self) -> (r: Option<OverwriteAction>)
        ensures
            r == self.settled(),
    {
        match self.mode {
            OverwriteMode::Overwrite => Some(OverwriteAction::Overwrite),
            OverwriteMode::Skip => Some(OverwriteAction::Skip),
            OverwriteMode::Rename => Some(OverwriteAction::Rename),
            OverwriteMode::Ask => self.sticky,
        }
    }

    /// Takes the decision source's answer; an "apply to all" answer settles
    /// every later conflict of the run.
    pub fn record_answer(&mut self, answer: Answer) -> (r: OverwriteAction)
        ensures
            r == answer.action,
            final(self).mode == old(self).mode,
            final(self).sticky == if answer.apply_to_all {
                Some(answer.action)
            } else {
                old(self).sticky
            },
    {
        if answer.apply_to_all {
            self.sticky = Some(answer.action);
        }
        answer.action
    }
}

/// The buttons of the conflict dialog of an interactive front end.
#[derive(Debug, Clone, Copy, PartialEq, Eq, Structural)]
pub enum DialogChoice {
    /// Replace this file.
    Yes,
    /// Replace this and every later conflicting file.
    YesToAll,
    /// Keep this file.
    No,
    /// Keep this and every later conflicting file.
    NoToAll,
    /// Rename this and every later conflicting file.
    RenameAll,
    /// Stop the run; this file is kept.
    Cancel,
    /// The dialog was closed without a choice; this file is kept.
    Closed,
}

/// The answer a dialog choice gives, and whether it cancels the run.
pub fn answer_for(choice: DialogChoice) -> (r: (Answer, bool))
    ensures
        r.1 == (choice == DialogChoice::Cancel),
        r.0.apply_to_all == (choice == DialogChoice::YesToAll || choice == DialogChoice::NoToAll
            || choice == DialogChoice::RenameAll),
        r.0.action == match choice {
            DialogChoice::Yes | DialogChoice::YesToAll => OverwriteAction::Overwrite,
            DialogChoice::RenameAll => OverwriteAction::Rename,
            _ => OverwriteAction::Skip,
        },
{
    match choice {
        DialogChoice::Yes => (Answer { action: OverwriteAction::Overwrite, apply_to_all: false }, false),
        DialogChoice::YesToAll => (Answer { action: OverwriteAction::Overwrite, apply_to_all: true }, false),
        DialogChoice::No => (Answer { action: OverwriteAction::Skip, apply_to_all: false }, false),
        DialogChoice::NoToAll => (Answer { action: OverwriteAction::Skip, apply_to_all: true }, false),
        DialogChoice::RenameAll => (Answer { action: OverwriteAction::Rename, apply_to_all: true }, false),
        DialogChoice::Cancel => (Answer { action: OverwriteAction::Skip, apply_to_all: false }, true),
        DialogChoice::Closed => (Answer { action: OverwriteAction::Skip, apply_to_all: false }, false),
    }
}

} // verus!
