//! Error taxonomy: user-fixable validation findings are collected per field
//! and never persisted; every other kind aborts the current request only.

use vstd::prelude::*;

verus! {

/// One user-fixable problem, addressed to the UI block it came from.
#[derive(Debug, PartialEq, Eq)]
pub struct SlackBlockValidationError {
    pub block_id: String,
    pub error_message: String,
}

impl Clone for SlackBlockValidationError {
    fn clone(&self) -> (r: Self)
        ensures
            r == *self,
    {
        SlackBlockValidationError {
            block_id: self.block_id.clone(),
            error_message: self.error_message.clone(),
        }
    }
}

/// The spec-level value of a validation finding.
pub ghost struct ValidationErrorView {
    pub block_id: Seq<char>,
    pub error_message: Seq<char>,
}

impl View for SlackBlockValidationError {
    type V = ValidationErrorView;

    open spec fn view(&self) -> ValidationErrorView {
        ValidationErrorView { block_id: self.block_id@, error_message: self.error_message@ }
    }
}

/// Every failure the library itself can report.
#[derive(Debug, Clone, Copy, PartialEq, Eq, Structural)]
pub enum ReceptionistError {
    /// A lookup found no record.
    NotFound,
    /// A create hit an id that already exists.
    Conflict,
    /// More than one primary record shares an id: an invariant violation,
    /// surfaced loudly and never silently repaired.
    InconsistentState,
    /// The backing store could not be reached; safe to retry at the caller.
    BackendUnavailable,
    /// A field identifier matched no known route: a protocol bug.
    RouteNotFound,
    /// A list index pointed past the end of the conditions or actions.
    IndexError,
    /// A kind selector carried a string that names no variant.
    UnknownKind,
    /// A field event targeted an action of a different kind.
    ActionKindMismatch,
    /// A form value had a different shape than its field expects.
    BlockStateMismatch,
}

/// A view of a sequence of findings, for contracts that collect them.
pub open spec fn views_of_errors(v: Seq<SlackBlockValidationError>) -> Seq<ValidationErrorView> {
    Seq::new(v.len(), |i: int| v[i]@)
}

/// The shape handed back to the form caller when validation fails: one
/// `(block id, message)` pair per finding, in the order they were found.
#[derive(Debug, PartialEq, Eq)]
pub enum SlackResponseAction {
    Errors { errors: Vec<(String, String)> },
}

impl SlackResponseAction {
    /// Addresses each finding to its block id, keeping order.
    pub fn from_validation_errors(errors: Vec<SlackBlockValidationError>) -> (r: Self)
        ensures
            match r {
                SlackResponseAction::Errors { errors: pairs } => {
                    &&& pairs@.len() == errors@.len()
                    &&& forall|i: int|
                        0 <= i < errors@.len() ==> (#[trigger] pairs@[i]).0@ == errors@[i].block_id@
                            && pairs@[i].1@ == errors@[i].error_message@
                },
            },
    {
        let mut pairs: Vec<(String, String)> = Vec::new();
        let mut i: usize = 0;
        while i < errors.len()
            invariant
                i <= errors.len(),
                pairs@.len() == i,
                forall|j: int|
                    0 <= j < i ==> (#[trigger] pairs@[j]).0@ == errors@[j].block_id@
                        && pairs@[j].1@ == errors@[j].error_message@,
            decreases errors.len() - i,
        {
            let e = &errors[i];
            pairs.push((e.block_id.clone(), e.error_message.clone()));
            i = i + 1;
        }
        SlackResponseAction::Errors { errors: pairs }
    }
}

} // verus!
