//! The editor's linear flow: each step hands over to the next until the form
//! is submitted; a reset returns to the start.

use vstd::prelude::*;

verus! {

/// Where the response editor stands.
#[derive(Debug, Clone, Copy, PartialEq, Eq, Structural)]
pub enum ResponseEditorStates {
    NoDataToEdit,
    EditingListener,
    EditingConditions,
    EditingActions,
    EditingCollaborators,
    PreSubmitConfirmation,
    Submitted,
}

impl ResponseEditorStates {
    /// The state the editor moves to next.
    pub open spec fn spec_next(self) -> ResponseEditorStates {
        match self {
            ResponseEditorStates::NoDataToEdit => ResponseEditorStates::EditingListener,
            ResponseEditorStates::EditingListener => ResponseEditorStates::EditingConditions,
            ResponseEditorStates::EditingConditions => ResponseEditorStates::EditingActions,
            ResponseEditorStates::EditingActions => ResponseEditorStates::EditingCollaborators,
            ResponseEditorStates::EditingCollaborators => (
            ResponseEditorStates::PreSubmitConfirmation),
            ResponseEditorStates::PreSubmitConfirmation => ResponseEditorStates::Submitted,
            ResponseEditorStates::Submitted => ResponseEditorStates::Submitted,
        }
    }

    /// Advances one step; `Submitted` is terminal.
    pub fn next_state(&self) -> (r: ResponseEditorStates)
        ensures
            r == self.spec_next(),
    {
        match self {
            ResponseEditorStates::NoDataToEdit => ResponseEditorStates::EditingListener,
            ResponseEditorStates::EditingListener => ResponseEditorStates::EditingConditions,
            ResponseEditorStates::EditingConditions => ResponseEditorStates::EditingActions,
            ResponseEditorStates::EditingActions => ResponseEditorStates::EditingCollaborators,
            ResponseEditorStates::EditingCollaborators => (
            ResponseEditorStates::PreSubmitConfirmation),
            ResponseEditorStates::PreSubmitConfirmation => ResponseEditorStates::Submitted,
            ResponseEditorStates::Submitted => ResponseEditorStates::Submitted,
        }
    }

    /// Returns to the start of the flow.
    pub fn reset(&self) -> (r: ResponseEditorStates)
        ensures
            r == ResponseEditorStates::NoDataToEdit,
    {
        ResponseEditorStates::NoDataToEdit
    }
}

} // verus!
