//! Executable side effects of a rule. When any condition of a rule fires,
//! all of its actions run as a batch. Switching an action's kind in the
//! editor carries the typed message text over; a field with no counterpart
//! in the new kind (an escalation policy id, a target channel) resets.

use vstd::prelude::*;
use crate::errors::{ReceptionistError, SlackBlockValidationError, ValidationErrorView};
use crate::listeners::ListenerEventDiscriminants;
use crate::router::BlockSectionRouter;
use crate::strutil::str_eq;

verus! {

/// The spec-level value of an action.
pub ghost enum ActionView {
    AttachEmoji(Seq<char>),
    ThreadedMessage(Seq<char>),
    ChannelMessage(Seq<char>),
    MsgOncallInThread { escalation_policy_id: Seq<char>, message: Seq<char> },
    ForwardMessageToChannel { channel: Seq<char>, msg_context: Seq<char> },
}

impl ActionView {
    pub open spec fn kind(self) -> ActionKind {
        match self {
            ActionView::AttachEmoji(_) => ActionKind::AttachEmoji,
            ActionView::ThreadedMessage(_) => ActionKind::ThreadedMessage,
            ActionView::ChannelMessage(_) => ActionKind::ChannelMessage,
            ActionView::MsgOncallInThread { .. } => ActionKind::MsgOncallInThread,
            ActionView::ForwardMessageToChannel { .. } => ActionKind::ForwardMessageToChannel,
        }
    }

    /// The free-text payload that survives a kind switch: the message body,
    /// or the forwarding context.
    pub open spec fn text(self) -> Seq<char> {
        match self {
            ActionView::AttachEmoji(s) => s,
            ActionView::ThreadedMessage(s) => s,
            ActionView::ChannelMessage(s) => s,
            ActionView::MsgOncallInThread { message, .. } => message,
            ActionView::ForwardMessageToChannel { msg_context, .. } => msg_context,
        }
    }

    /// A default instance of `kind` carrying payload `t`; fields with no
    /// counterpart start empty.
    pub open spec fn of_kind(kind: ActionKind, t: Seq<char>) -> ActionView {
        match kind {
            ActionKind::AttachEmoji => ActionView::AttachEmoji(t),
            ActionKind::ThreadedMessage => ActionView::ThreadedMessage(t),
            ActionKind::ChannelMessage => ActionView::ChannelMessage(t),
            ActionKind::MsgOncallInThread => ActionView::MsgOncallInThread {
                escalation_policy_id: Seq::<char>::empty(),
                message: t,
            },
            ActionKind::ForwardMessageToChannel => ActionView::ForwardMessageToChannel {
                channel: Seq::<char>::empty(),
                msg_context: t,
            },
        }
    }

    /// Edit-time validity: every required string field is non-empty.
    pub open spec fn valid(self) -> bool {
        match self {
            ActionView::AttachEmoji(s) => s.len() > 0,
            ActionView::ThreadedMessage(s) => s.len() > 0,
            ActionView::ChannelMessage(s) => s.len() > 0,
            ActionView::MsgOncallInThread { escalation_policy_id, message } => {
                escalation_policy_id.len() > 0 && message.len() > 0
            },
            ActionView::ForwardMessageToChannel { channel, msg_context } => {
                channel.len() > 0 && msg_context.len() > 0
            },
        }
    }

    /// The validation finding of this action at list position `index`,
    /// addressed to the field that is missing.
    pub open spec fn error_of(self, index: nat) -> Option<ValidationErrorView> {
        match self {
            ActionView::AttachEmoji(s) => {
                if s.len() == 0 {
                    Some(
                        ValidationErrorView {
                            block_id: BlockSectionRouter::AttachEmojiInput.spec_block_id(index),
                            error_message: "message is empty"@,
                        },
                    )
                } else {
                    None
                }
            },
            ActionView::ThreadedMessage(s) => {
                if s.len() == 0 {
                    Some(
                        ValidationErrorView {
                            block_id: BlockSectionRouter::ReplyThreadedMsgInput.spec_block_id(
                                index,
                            ),
                            error_message: "message is empty"@,
                        },
                    )
                } else {
                    None
                }
            },
            ActionView::ChannelMessage(s) => {
                if s.len() == 0 {
                    Some(
                        ValidationErrorView {
                            block_id: BlockSectionRouter::PostChannelMsgInput.spec_block_id(index),
                            error_message: "message is empty"@,
                        },
                    )
                } else {
                    None
                }
            },
            ActionView::MsgOncallInThread { escalation_policy_id, message } => {
                if message.len() == 0 {
                    Some(
                        ValidationErrorView {
                            block_id: BlockSectionRouter::PDThreadedMsgInput.spec_block_id(index),
                            error_message: "message is empty"@,
                        },
                    )
                } else if escalation_policy_id.len() == 0 {
                    Some(
                        ValidationErrorView {
                            block_id: BlockSectionRouter::PDEscalationPolicyInput.spec_block_id(
                                index,
                            ),
                            error_message: "no escalation policy provided"@,
                        },
                    )
                } else {
                    None
                }
            },
            ActionView::ForwardMessageToChannel { channel, msg_context } => {
                if channel.len() == 0 {
                    Some(
                        ValidationErrorView {
                            block_id: BlockSectionRouter::FwdMsgToChanChannelInput.spec_block_id(
                                index,
                            ),
                            error_message: "Select a channel"@,
                        },
                    )
                } else if msg_context.len() == 0 {
                    Some(
                        ValidationErrorView {
                            block_id:
                                BlockSectionRouter::FwdMsgToChanMsgContextInput.spec_block_id(
                                index,
                            ),
                            error_message: "Provide some context"@,
                        },
                    )
                } else {
                    None
                }
            },
        }
    }
}

/// An executable side effect of a triggered rule.
#[derive(Debug, PartialEq, Eq)]
pub enum Action {
    AttachEmoji(String),
    /// Post a message in the thread of the triggering message.
    ThreadedMessage(String),
    /// Send a message to the channel that the triggering message hit.
    ChannelMessage(String),
    /// Look up who is on call for the policy and tag them in a thread.
    MsgOncallInThread { escalation_policy_id: String, message: String },
    /// Forward the triggering message to a different channel.
    ForwardMessageToChannel { channel: String, msg_context: String },
}

impl Clone for Action {
    fn clone(&self) -> (r: Self)
        ensures
            r == *self,
    {
        match self {
            Action::AttachEmoji(s) => Action::AttachEmoji(s.clone()),
            Action::ThreadedMessage(s) => Action::ThreadedMessage(s.clone()),
            Action::ChannelMessage(s) => Action::ChannelMessage(s.clone()),
            Action::MsgOncallInThread { escalation_policy_id, message } => (
            Action::MsgOncallInThread {
                escalation_policy_id: escalation_policy_id.clone(),
                message: message.clone(),
            }),
            Action::ForwardMessageToChannel { channel, msg_context } => (
            Action::ForwardMessageToChannel {
                channel: channel.clone(),
                msg_context: msg_context.clone(),
            }),
        }
    }
}

impl View for Action {
    type V = ActionView;

    open spec fn view(&self) -> ActionView {
        match self {
            Action::AttachEmoji(s) => ActionView::AttachEmoji(s@),
            Action::ThreadedMessage(s) => ActionView::ThreadedMessage(s@),
            Action::ChannelMessage(s) => ActionView::ChannelMessage(s@),
            Action::MsgOncallInThread { escalation_policy_id, message } => (
            ActionView::MsgOncallInThread {
                escalation_policy_id: escalation_policy_id@,
                message: message@,
            }),
            Action::ForwardMessageToChannel { channel, msg_context } => (
            ActionView::ForwardMessageToChannel { channel: channel@, msg_context: msg_context@ }),
        }
    }
}

/// The kind of an action, without its payload.
#[derive(Debug, Clone, Copy, PartialEq, Eq, Structural)]
pub enum ActionKind {
    AttachEmoji,
    ThreadedMessage,
    ChannelMessage,
    MsgOncallInThread,
    ForwardMessageToChannel,
}

impl ActionKind {
    /// The stable selector name of this kind.
    pub open spec fn spec_kind_str(self) -> Seq<char> {
        match self {
            ActionKind::AttachEmoji => "attach-emoji"@,
            ActionKind::ThreadedMessage => "threaded-message"@,
            ActionKind::ChannelMessage => "channel-message"@,
            ActionKind::MsgOncallInThread => "msg-oncall-in-thread"@,
            ActionKind::ForwardMessageToChannel => "forward-message-to-channel"@,
        }
    }

    /// The exec mirror of `spec_kind_str`.
    pub fn kind_str(&self) -> (r: &'static str)
        ensures
            r@ == self.spec_kind_str(),
    {
        match self {
            ActionKind::AttachEmoji => "attach-emoji",
            ActionKind::ThreadedMessage => "threaded-message",
            ActionKind::ChannelMessage => "channel-message",
            ActionKind::MsgOncallInThread => "msg-oncall-in-thread",
            ActionKind::ForwardMessageToChannel => "forward-message-to-channel",
        }
    }

    /// The kind named by a selector string, if any.
    pub open spec fn spec_from_str(s: Seq<char>) -> Option<ActionKind> {
        if s == "attach-emoji"@ {
            Some(ActionKind::AttachEmoji)
        } else if s == "threaded-message"@ {
            Some(ActionKind::ThreadedMessage)
        } else if s == "channel-message"@ {
            Some(ActionKind::ChannelMessage)
        } else if s == "msg-oncall-in-thread"@ {
            Some(ActionKind::MsgOncallInThread)
        } else if s == "forward-message-to-channel"@ {
            Some(ActionKind::ForwardMessageToChannel)
        } else {
            None
        }
    }

    /// Parses a selector string back into a kind.
    pub fn from_str(s: &str) -> (r: Option<ActionKind>)
        ensures
            r == Self::spec_from_str(s@),
    {
        if str_eq(s, "attach-emoji") {
            Some(ActionKind::AttachEmoji)
        } else if str_eq(s, "threaded-message") {
            Some(ActionKind::ThreadedMessage)
        } else if str_eq(s, "channel-message") {
            Some(ActionKind::ChannelMessage)
        } else if str_eq(s, "msg-oncall-in-thread") {
            Some(ActionKind::MsgOncallInThread)
        } else if str_eq(s, "forward-message-to-channel") {
            Some(ActionKind::ForwardMessageToChannel)
        } else {
            None
        }
    }
}

impl Action {
    /// The kind of this action.
    pub fn kind(&self) -> (r: ActionKind)
        ensures
            r == self@.kind(),
    {
        match self {
            Action::AttachEmoji(_) => ActionKind::AttachEmoji,
            Action::ThreadedMessage(_) => ActionKind::ThreadedMessage,
            Action::ChannelMessage(_) => ActionKind::ChannelMessage,
            Action::MsgOncallInThread { .. } => ActionKind::MsgOncallInThread,
            Action::ForwardMessageToChannel { .. } => ActionKind::ForwardMessageToChannel,
        }
    }

    /// The listener kinds this action can react to.
    pub fn listeners(&self) -> (r: Vec<ListenerEventDiscriminants>)
        ensures
            r@ =~= seq![ListenerEventDiscriminants::SlackChannelMessage],
    {
        let mut kinds: Vec<ListenerEventDiscriminants> = Vec::new();
        kinds.push(ListenerEventDiscriminants::SlackChannelMessage);
        kinds
    }

    /// The default action for a listener kind: an empty emoji attachment.
    pub fn default_from_listener(listener: &ListenerEventDiscriminants) -> (r: Action)
        ensures
            r@ == ActionView::AttachEmoji(Seq::<char>::empty()),
    {
        match listener {
            ListenerEventDiscriminants::SlackChannelMessage => Action::AttachEmoji(String::new()),
        }
    }

    /// A short human-readable name of this action's kind.
    pub fn to_description(&self) -> (r: &'static str)
        ensures
            self@ is AttachEmoji ==> r@ == "Attach Emoji to Message"@,
            self@ is ThreadedMessage ==> r@ == "Reply with Threaded Message"@,
            self@ is ChannelMessage ==> r@ == "Post Message to Same Channel"@,
            self@ is MsgOncallInThread ==> r@ == "Tag OnCall User in Thread"@,
            self@ is ForwardMessageToChannel ==> r@
                == "Forward detected message to a different channel"@,
    {
        match self {
            Action::AttachEmoji(_) => "Attach Emoji to Message",
            Action::ThreadedMessage(_) => "Reply with Threaded Message",
            Action::ChannelMessage(_) => "Post Message to Same Channel",
            Action::MsgOncallInThread { .. } => "Tag OnCall User in Thread",
            Action::ForwardMessageToChannel { .. } => (
            "Forward detected message to a different channel"),
        }
    }

    /// Replaces this action with a default of the selected kind, keeping the
    /// typed message text so the user need not retype it. A no-op when the
    /// selected kind equals the current one.
    pub fn change_selection(&mut self, type_str: &str) -> (r: Result<(), ReceptionistError>)
        ensures
            match r {
                Ok(()) => ActionKind::spec_from_str(type_str@) is Some && {
                    let kind = ActionKind::spec_from_str(type_str@)->Some_0;
                    if kind == old(self)@.kind() {
                        final(self)@ == old(self)@
                    } else {
                        final(self)@ == ActionView::of_kind(kind, old(self)@.text())
                    }
                },
                Err(e) => e == ReceptionistError::UnknownKind && ActionKind::spec_from_str(
                    type_str@,
                ) is None && final(self)@ == old(self)@,
            },
    {
        match ActionKind::from_str(type_str) {
            Some(kind) => {
                if kind == self.kind() {
                    return Ok(());
                }
                let text = match self {
                    Action::AttachEmoji(s) => s.clone(),
                    Action::ThreadedMessage(s) => s.clone(),
                    Action::ChannelMessage(s) => s.clone(),
                    Action::MsgOncallInThread { message, .. } => message.clone(),
                    Action::ForwardMessageToChannel { msg_context, .. } => msg_context.clone(),
                };
                *self = match kind {
                    ActionKind::AttachEmoji => Action::AttachEmoji(text),
                    ActionKind::ThreadedMessage => Action::ThreadedMessage(text),
                    ActionKind::ChannelMessage => Action::ChannelMessage(text),
                    ActionKind::MsgOncallInThread => Action::MsgOncallInThread {
                        escalation_policy_id: String::new(),
                        message: text,
                    },
                    ActionKind::ForwardMessageToChannel => Action::ForwardMessageToChannel {
                        channel: String::new(),
                        msg_context: text,
                    },
                };
                Ok(())
            },
            None => Err(ReceptionistError::UnknownKind),
        }
    }

    /// The validation finding of this action at its list position.
    pub fn validate(&self, index: Option<usize>) -> (r: Option<SlackBlockValidationError>)
        ensures
            match r {
                Some(e) => self@.error_of(crate::conditions::spec_index_or_zero(index)) == Some(
                    e@,
                ),
                None => self@.error_of(crate::conditions::spec_index_or_zero(index)) is None,
            },
    {
        match self {
            Action::AttachEmoji(s) => {
                if s.as_str().unicode_len() == 0 {
                    Some(
                        SlackBlockValidationError {
                            block_id: BlockSectionRouter::AttachEmojiInput.to_block_id(index),
                            error_message: "message is empty".to_owned(),
                        },
                    )
                } else {
                    None
                }
            },
            Action::ThreadedMessage(s) => {
                if s.as_str().unicode_len() == 0 {
                    Some(
                        SlackBlockValidationError {
                            block_id: BlockSectionRouter::ReplyThreadedMsgInput.to_block_id(index),
                            error_message: "message is empty".to_owned(),
                        },
                    )
                } else {
                    None
                }
            },
            Action::ChannelMessage(s) => {
                if s.as_str().unicode_len() == 0 {
                    Some(
                        SlackBlockValidationError {
                            block_id: BlockSectionRouter::PostChannelMsgInput.to_block_id(index),
                            error_message: "message is empty".to_owned(),
                        },
                    )
                } else {
                    None
                }
            },
            Action::MsgOncallInThread { escalation_policy_id, message } => {
                if message.as_str().unicode_len() == 0 {
                    Some(
                        SlackBlockValidationError {
                            block_id: BlockSectionRouter::PDThreadedMsgInput.to_block_id(index),
                            error_message: "message is empty".to_owned(),
                        },
                    )
                } else if escalation_policy_id.as_str().unicode_len() == 0 {
                    Some(
                        SlackBlockValidationError {
                            block_id: BlockSectionRouter::PDEscalationPolicyInput.to_block_id(
                                index,
                            ),
                            error_message: "no escalation policy provided".to_owned(),
                        },
                    )
                } else {
                    None
                }
            },
            Action::ForwardMessageToChannel { channel, msg_context } => {
                if channel.as_str().unicode_len() == 0 {
                    Some(
                        SlackBlockValidationError {
                            block_id: BlockSectionRouter::FwdMsgToChanChannelInput.to_block_id(
                                index,
                            ),
                            error_message: "Select a channel".to_owned(),
                        },
                    )
                } else if msg_context.as_str().unicode_len() == 0 {
                    Some(
                        SlackBlockValidationError {
                            block_id: BlockSectionRouter::FwdMsgToChanMsgContextInput.to_block_id(
                                index,
                            ),
                            error_message: "Provide some context".to_owned(),
                        },
                    )
                } else {
                    None
                }
            },
        }
    }
}

} // verus!
