//! The values a submitted form carries, one per block, already reduced to
//! plain data: the transport layer parses the platform payload and hands
//! these in under their action identifiers.

use vstd::prelude::*;
use crate::errors::ReceptionistError;

verus! {

/// The selected option of a static select: its display text and its value.
#[derive(Debug, PartialEq, Eq)]
pub struct StaticSelectSelectedOptionValueState {
    pub value: String,
}

/// One block's submitted state.
#[derive(Debug, PartialEq, Eq)]
pub enum ViewBlockStateType {
    ConversationsSelect { selected_conversation: Option<String> },
    StaticSelect { selected_option: StaticSelectSelectedOptionValueState },
    PlainTextInput { value: String },
    MultiUsersSelect { selected_users: Vec<String> },
}

/// The spec-level value of one block's state.
pub ghost enum StateView {
    ConversationsSelect(Option<Seq<char>>),
    StaticSelect(Seq<char>),
    PlainTextInput(Seq<char>),
    MultiUsersSelect(Seq<Seq<char>>),
}

impl View for ViewBlockStateType {
    type V = StateView;

    open spec fn view(&self) -> StateView {
        match self {
            ViewBlockStateType::ConversationsSelect { selected_conversation } => (
            StateView::ConversationsSelect(
                match selected_conversation {
                    Some(ref c) => Some(c@),
                    None => None,
                },
            )),
            ViewBlockStateType::StaticSelect { selected_option } => (StateView::StaticSelect(
                selected_option.value@,
            )),
            ViewBlockStateType::PlainTextInput { value } => StateView::PlainTextInput(value@),
            ViewBlockStateType::MultiUsersSelect { selected_users } => (
            StateView::MultiUsersSelect(crate::response::views_of_strings(selected_users@))),
        }
    }
}

impl ViewBlockStateType {
    /// The chosen value of a static select; an error on any other block.
    pub fn get_value_from_static_select(&self) -> (r: Result<String, ReceptionistError>)
        ensures
            match r {
                Ok(s) => self matches ViewBlockStateType::StaticSelect { selected_option } && s@
                    == selected_option.value@,
                Err(e) => e == ReceptionistError::BlockStateMismatch && !(
                self matches ViewBlockStateType::StaticSelect { .. }),
            },
    {
        match self {
            ViewBlockStateType::StaticSelect { selected_option } => Ok(
                selected_option.value.clone(),
            ),
            _ => Err(ReceptionistError::BlockStateMismatch),
        }
    }

    /// The chosen conversation, if one was chosen; an error on any other
    /// block.
    pub fn get_conversation_select_value(&self) -> (r: Result<Option<String>, ReceptionistError>)
        ensures
            match r {
                Ok(o) => self matches ViewBlockStateType::ConversationsSelect {
                    selected_conversation,
                } && (match (o, selected_conversation) {
                    (Some(a), Some(b)) => a@ == b@,
                    (None, None) => true,
                    _ => false,
                }),
                Err(e) => e == ReceptionistError::BlockStateMismatch && !(
                self matches ViewBlockStateType::ConversationsSelect { .. }),
            },
    {
        match self {
            ViewBlockStateType::ConversationsSelect { selected_conversation } => {
                match selected_conversation {
                    Some(c) => Ok(Some(c.clone())),
                    None => Ok(None),
                }
            },
            _ => Err(ReceptionistError::BlockStateMismatch),
        }
    }

    /// The typed text of a plain text input; an error on any other block.
    pub fn get_plain_text_value(&self) -> (r: Result<String, ReceptionistError>)
        ensures
            match r {
                Ok(s) => self matches ViewBlockStateType::PlainTextInput { value } && s@ == value@,
                Err(e) => e == ReceptionistError::BlockStateMismatch && !(
                self matches ViewBlockStateType::PlainTextInput { .. }),
            },
    {
        match self {
            ViewBlockStateType::PlainTextInput { value } => Ok(value.clone()),
            _ => Err(ReceptionistError::BlockStateMismatch),
        }
    }

    /// The chosen users of a multi-user select; an error on any other block.
    pub fn get_multi_users_select_value(&self) -> (r: Result<Vec<String>, ReceptionistError>)
        ensures
            match r {
                Ok(users) => self matches ViewBlockStateType::MultiUsersSelect { selected_users }
                    && crate::response::views_of_strings(users@) == crate::response::views_of_strings(
                    selected_users@,
                ),
                Err(e) => e == ReceptionistError::BlockStateMismatch && !(
                self matches ViewBlockStateType::MultiUsersSelect { .. }),
            },
    {
        match self {
            ViewBlockStateType::MultiUsersSelect { selected_users } => {
                let mut users: Vec<String> = Vec::new();
                let mut i: usize = 0;
                while i < selected_users.len()
                    invariant
                        i <= selected_users@.len(),
                        users@.len() == i,
                        forall|j: int| 0 <= j < i ==> (#[trigger] users@[j])@ == selected_users@[
                            j]@,
                    decreases selected_users@.len() - i,
                {
                    users.push(selected_users[i].clone());
                    i = i + 1;
                }
                proof {
                    assert(crate::response::views_of_strings(users@)
                        =~= crate::response::views_of_strings(selected_users@));
                }
                Ok(users)
            },
            _ => Err(ReceptionistError::BlockStateMismatch),
        }
    }
}

} // verus!
