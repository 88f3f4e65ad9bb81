//! The event source a rule reacts to. One kind exists: a message posted in a
//! chat channel. The channel id is the rule's identity component: two rules
//! with the same listener both match on events from that channel.

use vstd::prelude::*;
use crate::errors::{SlackBlockValidationError, ValidationErrorView};
use crate::router::BlockSectionRouter;
use crate::strutil::str_eq;

verus! {

/// The spec-level value of a listener.
pub ghost enum ListenerEventView {
    SlackChannelMessage { channel_id: Seq<char> },
}

impl ListenerEventView {
    pub open spec fn channel_id(self) -> Seq<char> {
        match self {
            ListenerEventView::SlackChannelMessage { channel_id } => channel_id,
        }
    }

    /// A listener is valid once its channel id is non-empty.
    pub open spec fn valid(self) -> bool {
        self.channel_id().len() > 0
    }

    /// The validation finding for this listener, if any.
    pub open spec fn error_of(self) -> Option<ValidationErrorView> {
        if self.valid() {
            None
        } else {
            Some(
                ValidationErrorView {
                    block_id: BlockSectionRouter::ListenerChannelSelected.spec_block_id(0),
                    error_message: "No channel selected"@,
                },
            )
        }
    }
}

/// The event source a rule listens on.
#[derive(Debug, PartialEq, Eq)]
pub enum ListenerEvent {
    SlackChannelMessage { channel_id: String },
}

impl Clone for ListenerEvent {
    fn clone(&self) -> (r: Self)
        ensures
            r == *self,
    {
        match self {
            ListenerEvent::SlackChannelMessage { channel_id } => (
            ListenerEvent::SlackChannelMessage { channel_id: channel_id.clone() }),
        }
    }
}

impl View for ListenerEvent {
    type V = ListenerEventView;

    open spec fn view(&self) -> ListenerEventView {
        match self {
            ListenerEvent::SlackChannelMessage { channel_id } => (
            ListenerEventView::SlackChannelMessage { channel_id: channel_id@ }),
        }
    }
}

/// The kind of a listener, without its payload.
#[derive(Debug, Clone, Copy, PartialEq, Eq, Structural)]
pub enum ListenerEventDiscriminants {
    SlackChannelMessage,
}

impl Default for ListenerEvent {
    /// A channel listener with no channel chosen yet.
    fn default() -> (r: Self)
        ensures
            r@ == (ListenerEventView::SlackChannelMessage { channel_id: Seq::<char>::empty() }),
    {
        ListenerEvent::SlackChannelMessage { channel_id: String::new() }
    }
}

impl ListenerEvent {
    /// The kind of this listener.
    pub fn discriminant(&self) -> (r: ListenerEventDiscriminants)
        ensures
            r == ListenerEventDiscriminants::SlackChannelMessage,
    {
        match self {
            ListenerEvent::SlackChannelMessage { .. } => (
            ListenerEventDiscriminants::SlackChannelMessage),
        }
    }

    /// Whether this listener watches the given channel.
    pub fn matches_slack_channel_id(&self, incoming_channel: &str) -> (r: bool)
        ensures
            r == (self@.channel_id() == incoming_channel@),
    {
        match self {
            ListenerEvent::SlackChannelMessage { channel_id } => {
                str_eq(channel_id.as_str(), incoming_channel)
            },
        }
    }

    /// One finding when no channel is selected; nothing otherwise.
    pub fn validate(&self) -> (r: Option<SlackBlockValidationError>)
        ensures
            match r {
                Some(e) => self@.error_of() == Some(e@),
                None => self@.error_of() is None,
            },
    {
        match self {
            ListenerEvent::SlackChannelMessage { channel_id } => {
                if channel_id.as_str().unicode_len() == 0 {
                    Some(
                        SlackBlockValidationError {
                            block_id: BlockSectionRouter::ListenerChannelSelected.to_block_id(None),
                            error_message: "No channel selected".to_owned(),
                        },
                    )
                } else {
                    None
                }
            },
        }
    }
}

} // verus!
