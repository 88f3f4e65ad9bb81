//! The abstract form blocks the editor emits: selectors, text inputs,
//! dividers and notes, one ordered list per field. Rendering them into
//! platform UI is the transport layer's job; this core only decides what
//! stands in the form, under which identifiers, and with which prefilled
//! values.

use vstd::prelude::*;
use vstd::string::*;
use crate::actions::{Action, ActionKind, ActionView};
use crate::conditions::{Condition, ConditionKind, ConditionView};
use crate::listeners::{ListenerEvent, ListenerEventView};
use crate::router::BlockSectionRouter;
use crate::token::ManagerViewMode;

verus! {

/// One entry of a selection menu: display text and submitted value.
#[derive(Debug, PartialEq, Eq)]
pub struct ChoiceItem {
    pub text: String,
    pub value: String,
}

/// The spec-level value of a choice item.
pub ghost struct ChoiceItemView {
    pub text: Seq<char>,
    pub value: Seq<char>,
}

impl View for ChoiceItem {
    type V = ChoiceItemView;

    open spec fn view(&self) -> ChoiceItemView {
        ChoiceItemView { text: self.text@, value: self.value@ }
    }
}

impl Clone for ChoiceItem {
    fn clone(&self) -> (r: Self)
        ensures
            r == *self,
    {
        ChoiceItem { text: self.text.clone(), value: self.value.clone() }
    }
}

/// One abstract form block.
#[derive(Debug, PartialEq, Eq)]
pub enum EditorBlock {
    /// A section with a static-select accessory.
    StaticSelectSection {
        text: String,
        action_id: String,
        placeholder: String,
        options: Vec<ChoiceItem>,
        initial: Option<ChoiceItem>,
        block_id: String,
    },
    /// An input row holding a static select that dispatches on change.
    StaticSelectInput {
        label: String,
        action_id: String,
        placeholder: String,
        options: Vec<ChoiceItem>,
        initial: Option<ChoiceItem>,
        block_id: String,
    },
    /// A section with a conversation-select accessory.
    ConversationsSelectSection {
        text: String,
        action_id: String,
        placeholder: String,
        initial_conversation: Option<String>,
        block_id: String,
    },
    /// A section with a multi-user select accessory.
    MultiUsersSelectSection { text: String, action_id: String, placeholder: String, block_id: String },
    /// A free-text input row.
    TextInput {
        label: String,
        action_id: String,
        placeholder: String,
        initial_value: Option<String>,
        block_id: String,
    },
    /// A dimmed context note.
    Context { text: String },
    /// A plain text section.
    Text { text: String },
    Divider,
}

/// The spec-level value of a form block.
pub ghost enum EditorBlockView {
    StaticSelectSection {
        text: Seq<char>,
        action_id: Seq<char>,
        placeholder: Seq<char>,
        options: Seq<ChoiceItemView>,
        initial: Option<ChoiceItemView>,
        block_id: Seq<char>,
    },
    StaticSelectInput {
        label: Seq<char>,
        action_id: Seq<char>,
        placeholder: Seq<char>,
        options: Seq<ChoiceItemView>,
        initial: Option<ChoiceItemView>,
        block_id: Seq<char>,
    },
    ConversationsSelectSection {
        text: Seq<char>,
        action_id: Seq<char>,
        placeholder: Seq<char>,
        initial_conversation: Option<Seq<char>>,
        block_id: Seq<char>,
    },
    MultiUsersSelectSection {
        text: Seq<char>,
        action_id: Seq<char>,
        placeholder: Seq<char>,
        block_id: Seq<char>,
    },
    TextInput {
        label: Seq<char>,
        action_id: Seq<char>,
        placeholder: Seq<char>,
        initial_value: Option<Seq<char>>,
        block_id: Seq<char>,
    },
    Context { text: Seq<char> },
    Text { text: Seq<char> },
    Divider,
}

/// A sequence of choice items, viewed.
pub open spec fn views_of_choices(v: Seq<ChoiceItem>) -> Seq<ChoiceItemView> {
    Seq::new(v.len(), |i: int| v[i]@)
}

impl View for EditorBlock {
    type V = EditorBlockView;

    open spec fn view(&self) -> EditorBlockView {
        match self {
            EditorBlock::StaticSelectSection {
                text,
                action_id,
                placeholder,
                options,
                initial,
                block_id,
            } => (EditorBlockView::StaticSelectSection {
                text: text@,
                action_id: action_id@,
                placeholder: placeholder@,
                options: views_of_choices(options@),
                initial: match initial {
                    Some(ref c) => Some(c@),
                    None => None,
                },
                block_id: block_id@,
            }),
            EditorBlock::StaticSelectInput {
                label,
                action_id,
                placeholder,
                options,
                initial,
                block_id,
            } => (EditorBlockView::StaticSelectInput {
                label: label@,
                action_id: action_id@,
                placeholder: placeholder@,
                options: views_of_choices(options@),
                initial: match initial {
                    Some(ref c) => Some(c@),
                    None => None,
                },
                block_id: block_id@,
            }),
            EditorBlock::ConversationsSelectSection {
                text,
                action_id,
                placeholder,
                initial_conversation,
                block_id,
            } => (EditorBlockView::ConversationsSelectSection {
                text: text@,
                action_id: action_id@,
                placeholder: placeholder@,
                initial_conversation: match initial_conversation {
                    Some(ref c) => Some(c@),
                    None => None,
                },
                block_id: block_id@,
            }),
            EditorBlock::MultiUsersSelectSection { text, action_id, placeholder, block_id } => (
            EditorBlockView::MultiUsersSelectSection {
                text: text@,
                action_id: action_id@,
                placeholder: placeholder@,
                block_id: block_id@,
            }),
            EditorBlock::TextInput { label, action_id, placeholder, initial_value, block_id } => (
            EditorBlockView::TextInput {
                label: label@,
                action_id: action_id@,
                placeholder: placeholder@,
                initial_value: match initial_value {
                    Some(ref v) => Some(v@),
                    None => None,
                },
                block_id: block_id@,
            }),
            EditorBlock::Context { text } => EditorBlockView::Context { text: text@ },
            EditorBlock::Text { text } => EditorBlockView::Text { text: text@ },
            EditorBlock::Divider => EditorBlockView::Divider,
        }
    }
}

/// A sequence of blocks, viewed.
pub open spec fn views_of_blocks(v: Seq<EditorBlock>) -> Seq<EditorBlockView> {
    Seq::new(v.len(), |i: int| v[i]@)
}

/// The free-text input block of one field: prefilled with the existing value
/// unless it is empty.
pub open spec fn spec_text_input_block(
    route: BlockSectionRouter,
    index: nat,
    existing_value: Seq<char>,
    placeholder: Seq<char>,
    label: Seq<char>,
) -> EditorBlockView {
    EditorBlockView::TextInput {
        label,
        action_id: route.spec_with_index(index),
        placeholder,
        initial_value: if existing_value.len() == 0 {
            None
        } else {
            Some(existing_value)
        },
        block_id: route.spec_block_id(index),
    }
}

/// Builds the free-text input block of one field.
pub fn slack_plain_text_input_block_for_view(
    router_variant: BlockSectionRouter,
    index: Option<usize>,
    existing_value: String,
    placeholder: &str,
    label: &str,
) -> (r: Vec<EditorBlock>)
    ensures
        views_of_blocks(r@) =~= seq![
            spec_text_input_block(
                router_variant,
                crate::conditions::spec_index_or_zero(index),
                existing_value@,
                placeholder@,
                label@,
            ),
        ],
{
    let action_id = router_variant.to_action_id(index);
    let block_id = router_variant.to_block_id(index);
    let initial_value = if existing_value.as_str().unicode_len() == 0 {
        None
    } else {
        Some(existing_value)
    };
    let mut blocks: Vec<EditorBlock> = Vec::new();
    blocks.push(
        EditorBlock::TextInput {
            label: label.to_owned(),
            action_id,
            placeholder: placeholder.to_owned(),
            initial_value,
            block_id,
        },
    );
    blocks
}

impl ConditionKind {
    /// The selector entry of this kind.
    pub open spec fn spec_choice(self) -> ChoiceItemView {
        ChoiceItemView {
            text: match self {
                ConditionKind::MatchPhrase => "Phrase Match"@,
                ConditionKind::MatchRegex => "Regex Match"@,
            },
            value: self.spec_kind_str(),
        }
    }
}

impl ActionKind {
    /// The selector entry of this kind.
    pub open spec fn spec_choice(self) -> ChoiceItemView {
        ChoiceItemView {
            text: match self {
                ActionKind::AttachEmoji => "Attach Emoji to Message"@,
                ActionKind::ThreadedMessage => "Reply with Threaded Message"@,
                ActionKind::ChannelMessage => "Post Message to Same Channel"@,
                ActionKind::MsgOncallInThread => "Tag OnCall User in Thread"@,
                ActionKind::ForwardMessageToChannel => (
                "Forward detected message to a different channel"@),
            },
            value: self.spec_kind_str(),
        }
    }
}

impl Condition {
    /// The selector entry of this condition's kind.
    pub fn to_choice_item(&self) -> (r: ChoiceItem)
        ensures
            r@ == self@.kind().spec_choice(),
    {
        ChoiceItem {
            text: self.to_description().to_owned(),
            value: self.kind().kind_str().to_owned(),
        }
    }

    /// The kind-selector block of this condition at its list position.
    pub fn to_type_selector_blocks(&self, index: Option<usize>) -> (r: Vec<EditorBlock>)
        ensures
            views_of_blocks(r@) =~= seq![
                EditorBlockView::StaticSelectSection {
                    text: ":clipboard: Select a match condition type"@,
                    action_id: BlockSectionRouter::ConditionTypeSelected.spec_with_index(
                        crate::conditions::spec_index_or_zero(index),
                    ),
                    placeholder: "select matching Type"@,
                    options: seq![
                        ConditionKind::MatchPhrase.spec_choice(),
                        ConditionKind::MatchRegex.spec_choice(),
                    ],
                    initial: Some(self@.kind().spec_choice()),
                    block_id: BlockSectionRouter::ConditionTypeSelected.spec_block_id(
                        crate::conditions::spec_index_or_zero(index),
                    ),
                },
            ],
    {
        let mut options: Vec<ChoiceItem> = Vec::new();
        options.push(Condition::MatchPhrase(String::new()).to_choice_item());
        options.push(Condition::MatchRegex(String::new()).to_choice_item());
        proof {
            assert(views_of_choices(options@) =~= seq![
                ConditionKind::MatchPhrase.spec_choice(),
                ConditionKind::MatchRegex.spec_choice(),
            ]);
        }
        let mut blocks: Vec<EditorBlock> = Vec::new();
        blocks.push(
            EditorBlock::StaticSelectSection {
                text: ":clipboard: Select a match condition type".to_owned(),
                action_id: BlockSectionRouter::ConditionTypeSelected.to_action_id(index),
                placeholder: "select matching Type".to_owned(),
                options,
                initial: Some(self.to_choice_item()),
                block_id: BlockSectionRouter::ConditionTypeSelected.to_block_id(index),
            },
        );
        blocks
    }

    /// The value-input blocks of this condition: the payload input, plus a
    /// syntax tip for regex patterns.
    pub fn to_value_input_blocks(&self, index: Option<usize>) -> (r: Vec<EditorBlock>)
        ensures
            views_of_blocks(r@) =~= spec_condition_value_blocks(
                self@,
                crate::conditions::spec_index_or_zero(index),
            ),
    {
        match self {
            Condition::MatchPhrase(phrase) => {
                let blocks = slack_plain_text_input_block_for_view(
                    BlockSectionRouter::MessageConditionValueInput,
                    index,
                    phrase.clone(),
                    "Phrase to match against",
                    "Message contains this phrase:",
                );
                proof {
                    assert(views_of_blocks(blocks@) =~= spec_condition_value_blocks(
                        self@,
                        crate::conditions::spec_index_or_zero(index),
                    ));
                }
                blocks
            },
            Condition::MatchRegex(pattern) => {
                let mut blocks = slack_plain_text_input_block_for_view(
                    BlockSectionRouter::MessageConditionValueInput,
                    index,
                    pattern.clone(),
                    "Regex pattern to match against",
                    "Message contains a match to this Regex pattern:",
                );
                let ghost idx = crate::conditions::spec_index_or_zero(index);
                proof {
                    assert(views_of_blocks(blocks@)[0] == spec_text_input_block(
                        BlockSectionRouter::MessageConditionValueInput,
                        idx,
                        pattern@,
                        "Regex pattern to match against"@,
                        "Message contains a match to this Regex pattern:"@,
                    ));
                }
                let ghost first = blocks@[0];
                blocks.push(
                    EditorBlock::Context {
                        text:
                            "_Tip:_ Use regex101.com to validate your syntax first :writing_hand:".to_owned(),
                    },
                );
                proof {
                    assert(blocks@[0] == first);
                    assert(views_of_blocks(blocks@)[0] == first@);
                    assert(views_of_blocks(blocks@)[1] == (EditorBlockView::Context {
                        text:
                            "_Tip:_ Use regex101.com to validate your syntax first :writing_hand:"@,
                    }));
                    assert(views_of_blocks(blocks@) =~= spec_condition_value_blocks(self@, idx));
                }
                blocks
            },
        }
    }

    /// Both parts of this condition's editor: kind selector, value inputs,
    /// and a closing divider.
    pub fn to_editor_blocks(&self, index: Option<usize>) -> (r: Vec<EditorBlock>)
        ensures
            views_of_blocks(r@) =~= spec_condition_editor_blocks(
                self@,
                crate::conditions::spec_index_or_zero(index),
            ),
    {
        let mut blocks = self.to_type_selector_blocks(index);
        let mut values = self.to_value_input_blocks(index);
        blocks.append(&mut values);
        blocks.push(EditorBlock::Divider);
        proof {
            assert(views_of_blocks(blocks@) =~= spec_condition_editor_blocks(
                self@,
                crate::conditions::spec_index_or_zero(index),
            ));
        }
        blocks
    }
}

/// The value-input blocks of one condition.
pub open spec fn spec_condition_value_blocks(c: ConditionView, index: nat) -> Seq<
    EditorBlockView,
> {
    match c {
        ConditionView::MatchPhrase(phrase) => seq![
            spec_text_input_block(
                BlockSectionRouter::MessageConditionValueInput,
                index,
                phrase,
                "Phrase to match against"@,
                "Message contains this phrase:"@,
            ),
        ],
        ConditionView::MatchRegex(pattern) => seq![
            spec_text_input_block(
                BlockSectionRouter::MessageConditionValueInput,
                index,
                pattern,
                "Regex pattern to match against"@,
                "Message contains a match to this Regex pattern:"@,
            ),
            EditorBlockView::Context {
                text: "_Tip:_ Use regex101.com to validate your syntax first :writing_hand:"@,
            },
        ],
    }
}

/// The whole editor of one condition.
pub open spec fn spec_condition_editor_blocks(c: ConditionView, index: nat) -> Seq<
    EditorBlockView,
> {
    seq![
        EditorBlockView::StaticSelectSection {
            text: ":clipboard: Select a match condition type"@,
            action_id: BlockSectionRouter::ConditionTypeSelected.spec_with_index(index),
            placeholder: "select matching Type"@,
            options: seq![
                ConditionKind::MatchPhrase.spec_choice(),
                ConditionKind::MatchRegex.spec_choice(),
            ],
            initial: Some(c.kind().spec_choice()),
            block_id: BlockSectionRouter::ConditionTypeSelected.spec_block_id(index),
        },
    ] + spec_condition_value_blocks(c, index) + seq![EditorBlockView::Divider]
}

} // verus!

verus! {

/// The value-input blocks of one action.
pub open spec fn spec_action_value_blocks(a: ActionView, index: nat) -> Seq<EditorBlockView> {
    match a {
        ActionView::AttachEmoji(emoji) => seq![
            spec_text_input_block(
                BlockSectionRouter::AttachEmojiInput,
                index,
                emoji,
                "my-emoji"@,
                "Choose an emoji (can also trigger Slack Workflows)"@,
            ),
        ],
        ActionView::ThreadedMessage(msg) => seq![
            spec_text_input_block(
                BlockSectionRouter::ReplyThreadedMsgInput,
                index,
                msg,
                "It looks like you're looking for.."@,
                "Enter a message to post in thread"@,
            ),
        ],
        ActionView::ChannelMessage(msg) => seq![
            spec_text_input_block(
                BlockSectionRouter::PostChannelMsgInput,
                index,
                msg,
                "Hey Channel.."@,
                "Enter Message to Post in Channel (not thread)"@,
            ),
        ],
        ActionView::MsgOncallInThread { escalation_policy_id, message } => seq![
            spec_text_input_block(
                BlockSectionRouter::PDEscalationPolicyInput,
                index,
                escalation_policy_id,
                "Pxxxxxx"@,
                "Enter the escalation policy to query"@,
            ),
            spec_text_input_block(
                BlockSectionRouter::PDThreadedMsgInput,
                index,
                message,
                "is oncall and will handle this."@,
                "Enter the message to provide in thread with the tagged user"@,
            ),
        ],
        ActionView::ForwardMessageToChannel { channel, msg_context } => seq![
            EditorBlockView::ConversationsSelectSection {
                text: ":envelope_with_arrow: Select a Channel to forward this message to"@,
                action_id: BlockSectionRouter::FwdMsgToChanChannelInput.spec_with_index(index),
                placeholder: "#my-channel"@,
                initial_conversation: if channel.len() == 0 {
                    None
                } else {
                    Some(channel)
                },
                block_id: BlockSectionRouter::FwdMsgToChanChannelInput.spec_block_id(index),
            },
            EditorBlockView::Divider,
            spec_text_input_block(
                BlockSectionRouter::FwdMsgToChanMsgContextInput,
                index,
                msg_context,
                "Context about what this message is"@,
                "Add some context for why this message is being forwarded"@,
            ),
        ],
    }
}

/// The options every action kind selector offers.
pub open spec fn spec_action_options() -> Seq<ChoiceItemView> {
    seq![
        ActionKind::AttachEmoji.spec_choice(),
        ActionKind::ThreadedMessage.spec_choice(),
        ActionKind::ChannelMessage.spec_choice(),
        ActionKind::MsgOncallInThread.spec_choice(),
        ActionKind::ForwardMessageToChannel.spec_choice(),
    ]
}

/// The whole editor of one action.
pub open spec fn spec_action_editor_blocks(a: ActionView, index: nat) -> Seq<EditorBlockView> {
    seq![
        EditorBlockView::StaticSelectSection {
            text: ":building_construction: Select an Action to do if conditions are met"@,
            action_id: BlockSectionRouter::ActionTypeSelected.spec_with_index(index),
            placeholder: "select action Type"@,
            options: spec_action_options(),
            initial: Some(a.kind().spec_choice()),
            block_id: BlockSectionRouter::ActionTypeSelected.spec_block_id(index),
        },
    ] + spec_action_value_blocks(a, index) + seq![EditorBlockView::Divider]
}

impl Action {
    /// The selector entry of this action's kind.
    pub fn to_choice_item(&self) -> (r: ChoiceItem)
        ensures
            r@ == self@.kind().spec_choice(),
    {
        ChoiceItem {
            text: self.to_description().to_owned(),
            value: self.kind().kind_str().to_owned(),
        }
    }

    /// The kind-selector block of this action at its list position.
    pub fn to_type_selector_blocks(&self, index: Option<usize>) -> (r: Vec<EditorBlock>)
        ensures
            views_of_blocks(r@) =~= seq![
                EditorBlockView::StaticSelectSection {
                    text: ":building_construction: Select an Action to do if conditions are met"@,
                    action_id: BlockSectionRouter::ActionTypeSelected.spec_with_index(
                        crate::conditions::spec_index_or_zero(index),
                    ),
                    placeholder: "select action Type"@,
                    options: spec_action_options(),
                    initial: Some(self@.kind().spec_choice()),
                    block_id: BlockSectionRouter::ActionTypeSelected.spec_block_id(
                        crate::conditions::spec_index_or_zero(index),
                    ),
                },
            ],
    {
        let mut options: Vec<ChoiceItem> = Vec::new();
        options.push(Action::AttachEmoji(String::new()).to_choice_item());
        options.push(Action::ThreadedMessage(String::new()).to_choice_item());
        options.push(Action::ChannelMessage(String::new()).to_choice_item());
        options.push(
            Action::MsgOncallInThread {
                escalation_policy_id: String::new(),
                message: String::new(),
            }.to_choice_item(),
        );
        options.push(
            Action::ForwardMessageToChannel {
                channel: String::new(),
                msg_context: String::new(),
            }.to_choice_item(),
        );
        proof {
            assert(views_of_choices(options@) =~= spec_action_options());
        }
        let mut blocks: Vec<EditorBlock> = Vec::new();
        blocks.push(
            EditorBlock::StaticSelectSection {
                text: ":building_construction: Select an Action to do if conditions are met".to_owned(),
                action_id: BlockSectionRouter::ActionTypeSelected.to_action_id(index),
                placeholder: "select action Type".to_owned(),
                options,
                initial: Some(self.to_choice_item()),
                block_id: BlockSectionRouter::ActionTypeSelected.to_block_id(index),
            },
        );
        blocks
    }

    /// The value-input blocks of this action, one per required field.
    pub fn to_value_input_blocks(&self, index: Option<usize>) -> (r: Vec<EditorBlock>)
        ensures
            views_of_blocks(r@) =~= spec_action_value_blocks(
                self@,
                crate::conditions::spec_index_or_zero(index),
            ),
    {
        let ghost idx = crate::conditions::spec_index_or_zero(index);
        match self {
            Action::AttachEmoji(emoji) => {
                let blocks = slack_plain_text_input_block_for_view(
                    BlockSectionRouter::AttachEmojiInput,
                    index,
                    emoji.clone(),
                    "my-emoji",
                    "Choose an emoji (can also trigger Slack Workflows)",
                );
                proof {
                    assert(views_of_blocks(blocks@) =~= spec_action_value_blocks(self@, idx));
                }
                blocks
            },
            Action::ThreadedMessage(msg) => {
                let blocks = slack_plain_text_input_block_for_view(
                    BlockSectionRouter::ReplyThreadedMsgInput,
                    index,
                    msg.clone(),
                    "It looks like you're looking for..",
                    "Enter a message to post in thread",
                );
                proof {
                    assert(views_of_blocks(blocks@) =~= spec_action_value_blocks(self@, idx));
                }
                blocks
            },
            Action::ChannelMessage(msg) => {
                let blocks = slack_plain_text_input_block_for_view(
                    BlockSectionRouter::PostChannelMsgInput,
                    index,
                    msg.clone(),
                    "Hey Channel..",
                    "Enter Message to Post in Channel (not thread)",
                );
                proof {
                    assert(views_of_blocks(blocks@) =~= spec_action_value_blocks(self@, idx));
                }
                blocks
            },
            Action::MsgOncallInThread { escalation_policy_id, message } => {
                let mut blocks = slack_plain_text_input_block_for_view(
                    BlockSectionRouter::PDEscalationPolicyInput,
                    index,
                    escalation_policy_id.clone(),
                    "Pxxxxxx",
                    "Enter the escalation policy to query",
                );
                let ghost v1 = views_of_blocks(blocks@);
                let mut more = slack_plain_text_input_block_for_view(
                    BlockSectionRouter::PDThreadedMsgInput,
                    index,
                    message.clone(),
                    "is oncall and will handle this.",
                    "Enter the message to provide in thread with the tagged user",
                );
                let ghost v2 = views_of_blocks(more@);
                blocks.append(&mut more);
                proof {
                    assert(views_of_blocks(blocks@)[0] == v1[0]);
                    assert(views_of_blocks(blocks@)[1] == v2[0]);
                    assert(views_of_blocks(blocks@) =~= spec_action_value_blocks(self@, idx));
                }
                blocks
            },
            Action::ForwardMessageToChannel { channel, msg_context } => {
                let initial_conversation = if channel.as_str().unicode_len() == 0 {
                    None
                } else {
                    Some(channel.clone())
                };
                let mut blocks: Vec<EditorBlock> = Vec::new();
                blocks.push(
                    EditorBlock::ConversationsSelectSection {
                        text:
                            ":envelope_with_arrow: Select a Channel to forward this message to".to_owned(),
                        action_id: BlockSectionRouter::FwdMsgToChanChannelInput.to_action_id(
                            index,
                        ),
                        placeholder: "#my-channel".to_owned(),
                        initial_conversation,
                        block_id: BlockSectionRouter::FwdMsgToChanChannelInput.to_block_id(index),
                    },
                );
                blocks.push(EditorBlock::Divider);
                let ghost v1 = views_of_blocks(blocks@);
                let mut more = slack_plain_text_input_block_for_view(
                    BlockSectionRouter::FwdMsgToChanMsgContextInput,
                    index,
                    msg_context.clone(),
                    "Context about what this message is",
                    "Add some context for why this message is being forwarded",
                );
                let ghost v2 = views_of_blocks(more@);
                blocks.append(&mut more);
                proof {
                    assert(views_of_blocks(blocks@)[0] == v1[0]);
                    assert(views_of_blocks(blocks@)[1] == v1[1]);
                    assert(views_of_blocks(blocks@)[2] == v2[0]);
                    assert(views_of_blocks(blocks@) =~= spec_action_value_blocks(self@, idx));
                }
                blocks
            },
        }
    }

    /// Both parts of this action's editor: kind selector, value inputs, and a
    /// closing divider.
    pub fn to_editor_blocks(&self, index: Option<usize>) -> (r: Vec<EditorBlock>)
        ensures
            views_of_blocks(r@) =~= spec_action_editor_blocks(
                self@,
                crate::conditions::spec_index_or_zero(index),
            ),
    {
        let mut blocks = self.to_type_selector_blocks(index);
        let mut values = self.to_value_input_blocks(index);
        blocks.append(&mut values);
        blocks.push(EditorBlock::Divider);
        proof {
            assert(views_of_blocks(blocks@) =~= spec_action_editor_blocks(
                self@,
                crate::conditions::spec_index_or_zero(index),
            ));
        }
        blocks
    }
}

/// The editor blocks of a listener: a channel selector prefilled with the
/// watched channel, and a divider.
pub open spec fn spec_listener_editor_blocks(l: ListenerEventView) -> Seq<EditorBlockView> {
    seq![
        EditorBlockView::ConversationsSelectSection {
            text: ":slack: Select a Channel                   :point_right:"@,
            action_id: BlockSectionRouter::ListenerChannelSelected.spec_with_index(0),
            placeholder: "#my-channel"@,
            initial_conversation: if l.channel_id().len() == 0 {
                None
            } else {
                Some(l.channel_id())
            },
            block_id: BlockSectionRouter::ListenerChannelSelected.spec_block_id(0),
        },
        EditorBlockView::Divider,
    ]
}

impl ListenerEvent {
    /// The channel selector for a fresh form, with nothing chosen yet.
    pub fn default_blocks() -> (r: Vec<EditorBlock>)
        ensures
            views_of_blocks(r@) =~= seq![
                EditorBlockView::ConversationsSelectSection {
                    text: ":slack: Select a Channel"@,
                    action_id: BlockSectionRouter::ListenerChannelSelected.spec_with_index(0),
                    placeholder: "#my-channel"@,
                    initial_conversation: None,
                    block_id: BlockSectionRouter::ListenerChannelSelected.spec_block_id(0),
                },
                EditorBlockView::Divider,
            ],
    {
        let mut blocks: Vec<EditorBlock> = Vec::new();
        blocks.push(
            EditorBlock::ConversationsSelectSection {
                text: ":slack: Select a Channel".to_owned(),
                action_id: BlockSectionRouter::ListenerChannelSelected.to_action_id(None),
                placeholder: "#my-channel".to_owned(),
                initial_conversation: None,
                block_id: BlockSectionRouter::ListenerChannelSelected.to_block_id(None),
            },
        );
        blocks.push(EditorBlock::Divider);
        blocks
    }

    /// The channel selector of this listener, prefilled.
    pub fn to_editor_blocks(&self) -> (r: Vec<EditorBlock>)
        ensures
            views_of_blocks(r@) =~= spec_listener_editor_blocks(self@),
    {
        match self {
            ListenerEvent::SlackChannelMessage { channel_id } => {
                let initial_conversation = if channel_id.as_str().unicode_len() == 0 {
                    None
                } else {
                    Some(channel_id.clone())
                };
                let mut blocks: Vec<EditorBlock> = Vec::new();
                blocks.push(
                    EditorBlock::ConversationsSelectSection {
                        text: ":slack: Select a Channel                   :point_right:".to_owned(),
                        action_id: BlockSectionRouter::ListenerChannelSelected.to_action_id(None),
                        placeholder: "#my-channel".to_owned(),
                        initial_conversation,
                        block_id: BlockSectionRouter::ListenerChannelSelected.to_block_id(None),
                    },
                );
                blocks.push(EditorBlock::Divider);
                blocks
            },
        }
    }
}

} // verus!

verus! {

/// Splitting a block list splits its views.
proof fn lemma_views_of_blocks_concat(a: Seq<EditorBlock>, b: Seq<EditorBlock>)
    ensures
        views_of_blocks(a + b) == views_of_blocks(a) + views_of_blocks(b),
{
    assert(views_of_blocks(a + b) =~= views_of_blocks(a) + views_of_blocks(b));
}

impl ManagerViewMode {
    /// The selector entry of this mode.
    pub open spec fn spec_choice(self) -> ChoiceItemView {
        ChoiceItemView {
            text: match self {
                ManagerViewMode::Home => "Management Home"@,
                ManagerViewMode::CreateResponse => "Create a Receptionist Response"@,
                ManagerViewMode::EditResponse => "Edit an existing Response"@,
                ManagerViewMode::DeleteResponse => "Delete an existing Response"@,
            },
            value: self.spec_kind_str(),
        }
    }

    /// The exec mirror of `spec_choice`.
    pub fn to_choice_item(&self) -> (r: ChoiceItem)
        ensures
            r@ == self.spec_choice(),
    {
        let text = match self {
            ManagerViewMode::Home => "Management Home",
            ManagerViewMode::CreateResponse => "Create a Receptionist Response",
            ManagerViewMode::EditResponse => "Edit an existing Response",
            ManagerViewMode::DeleteResponse => "Delete an existing Response",
        };
        ChoiceItem { text: text.to_owned(), value: self.kind_str().to_owned() }
    }

    /// The mode selector at the top of the manager form.
    pub fn to_editor_blocks(&self) -> (r: Vec<EditorBlock>)
        ensures
            views_of_blocks(r@) =~= spec_mode_editor_blocks(*self),
    {
        let mut options: Vec<ChoiceItem> = Vec::new();
        options.push(ManagerViewMode::Home.to_choice_item());
        options.push(ManagerViewMode::CreateResponse.to_choice_item());
        options.push(ManagerViewMode::EditResponse.to_choice_item());
        options.push(ManagerViewMode::DeleteResponse.to_choice_item());
        proof {
            assert(views_of_choices(options@) =~= spec_mode_options());
        }
        let mut blocks: Vec<EditorBlock> = Vec::new();
        blocks.push(
            EditorBlock::StaticSelectInput {
                label: "What would you like to do?".to_owned(),
                action_id: BlockSectionRouter::ManagerModeSelection.to_action_id(None),
                placeholder: "Select a function".to_owned(),
                options,
                initial: Some(self.to_choice_item()),
                block_id: BlockSectionRouter::ManagerModeSelection.to_block_id(None),
            },
        );
        blocks.push(EditorBlock::Divider);
        blocks
    }
}

/// The options the mode selector offers.
pub open spec fn spec_mode_options() -> Seq<ChoiceItemView> {
    seq![
        ManagerViewMode::Home.spec_choice(),
        ManagerViewMode::CreateResponse.spec_choice(),
        ManagerViewMode::EditResponse.spec_choice(),
        ManagerViewMode::DeleteResponse.spec_choice(),
    ]
}

/// The mode selector blocks.
pub open spec fn spec_mode_editor_blocks(m: ManagerViewMode) -> Seq<EditorBlockView> {
    seq![
        EditorBlockView::StaticSelectInput {
            label: "What would you like to do?"@,
            action_id: BlockSectionRouter::ManagerModeSelection.spec_with_index(0),
            placeholder: "Select a function"@,
            options: spec_mode_options(),
            initial: Some(m.spec_choice()),
            block_id: BlockSectionRouter::ManagerModeSelection.spec_block_id(0),
        },
        EditorBlockView::Divider,
    ]
}

/// The collaborator multi-select blocks.
pub open spec fn spec_collaborators_blocks() -> Seq<EditorBlockView> {
    seq![
        EditorBlockView::MultiUsersSelectSection {
            text: ":busts_in_silhouette: Users that can edit this Response"@,
            action_id: BlockSectionRouter::CollaboratorSelection.spec_with_index(0),
            placeholder: "Select Collaborators"@,
            block_id: BlockSectionRouter::CollaboratorSelection.spec_block_id(0),
        },
        EditorBlockView::Divider,
    ]
}

/// The editors of the first `k` conditions, in list order.
pub open spec fn cond_blocks_upto(cs: Seq<ConditionView>, k: int) -> Seq<EditorBlockView>
    decreases k,
{
    if k <= 0 {
        Seq::empty()
    } else {
        cond_blocks_upto(cs, k - 1) + spec_condition_editor_blocks(cs[k - 1], (k - 1) as nat)
    }
}

/// The editors of the first `k` actions, in list order.
pub open spec fn action_blocks_upto(acts: Seq<ActionView>, k: int) -> Seq<EditorBlockView>
    decreases k,
{
    if k <= 0 {
        Seq::empty()
    } else {
        action_blocks_upto(acts, k - 1) + spec_action_editor_blocks(acts[k - 1], (k - 1) as nat)
    }
}

/// The full rule editor: collaborators, listener, then every condition and
/// every action, each under its list index.
pub open spec fn spec_response_editor_blocks(rv: crate::response::ResponseView) -> Seq<
    EditorBlockView,
> {
    spec_collaborators_blocks() + spec_listener_editor_blocks(rv.listener) + cond_blocks_upto(
        rv.conditions,
        rv.conditions.len() as int,
    ) + action_blocks_upto(rv.actions, rv.actions.len() as int)
}

impl crate::response::ReceptionistResponse {
    /// The collaborator multi-select of the rule editor.
    pub fn build_collaborators_editor_blocks(&self) -> (r: Vec<EditorBlock>)
        ensures
            views_of_blocks(r@) =~= spec_collaborators_blocks(),
    {
        let mut blocks: Vec<EditorBlock> = Vec::new();
        blocks.push(
            EditorBlock::MultiUsersSelectSection {
                text: ":busts_in_silhouette: Users that can edit this Response".to_owned(),
                action_id: BlockSectionRouter::CollaboratorSelection.to_action_id(None),
                placeholder: "Select Collaborators".to_owned(),
                block_id: BlockSectionRouter::CollaboratorSelection.to_block_id(None),
            },
        );
        blocks.push(EditorBlock::Divider);
        blocks
    }

    /// The whole editor of this rule.
    pub fn to_editor_blocks(&self) -> (r: Vec<EditorBlock>)
        ensures
            views_of_blocks(r@) =~= spec_response_editor_blocks(self@),
    {
        let mut blocks = self.build_collaborators_editor_blocks();
        let mut listener_blocks = self.listener.to_editor_blocks();
        proof {
            lemma_views_of_blocks_concat(blocks@, listener_blocks@);
        }
        blocks.append(&mut listener_blocks);
        let ghost head = spec_collaborators_blocks() + spec_listener_editor_blocks(
            self@.listener,
        );
        proof {
            assert(views_of_blocks(blocks@) =~= head);
        }
        let mut i: usize = 0;
        while i < self.conditions.len()
            invariant
                i <= self.conditions@.len(),
                head == spec_collaborators_blocks() + spec_listener_editor_blocks(self@.listener),
                views_of_blocks(blocks@) == head + cond_blocks_upto(self@.conditions, i as int),
            decreases self.conditions@.len() - i,
        {
            let mut item_blocks = self.conditions[i].to_editor_blocks(Some(i));
            proof {
                lemma_views_of_blocks_concat(blocks@, item_blocks@);
            }
            blocks.append(&mut item_blocks);
            i = i + 1;
            proof {
                assert(views_of_blocks(blocks@) =~= head + cond_blocks_upto(
                    self@.conditions,
                    i as int,
                ));
            }
        }
        let ghost mid = head + cond_blocks_upto(self@.conditions, self@.conditions.len() as int);
        let mut j: usize = 0;
        while j < self.actions.len()
            invariant
                j <= self.actions@.len(),
                mid == head + cond_blocks_upto(self@.conditions, self@.conditions.len() as int),
                views_of_blocks(blocks@) == mid + action_blocks_upto(self@.actions, j as int),
            decreases self.actions@.len() - j,
        {
            let mut item_blocks = self.actions[j].to_editor_blocks(Some(j));
            proof {
                lemma_views_of_blocks_concat(blocks@, item_blocks@);
            }
            blocks.append(&mut item_blocks);
            j = j + 1;
            proof {
                assert(views_of_blocks(blocks@) =~= mid + action_blocks_upto(
                    self@.actions,
                    j as int,
                ));
            }
        }
        blocks
    }
}

} // verus!

verus! {

/// The first ten characters of a text, for one-line summaries.
pub open spec fn take10(s: Seq<char>) -> Seq<char> {
    s.subrange(
        0,
        if s.len() < 10 {
            s.len() as int
        } else {
            10
        },
    )
}

/// Copies the first ten characters.
fn take10_prefix(s: &str) -> (r: String)
    ensures
        r@ == take10(s@),
{
    let v = crate::strutil::chars_of(s);
    let n = if v.len() < 10 {
        v.len()
    } else {
        10
    };
    let mut out: Vec<char> = Vec::new();
    let mut i: usize = 0;
    while i < n
        invariant
            n <= v@.len(),
            i <= n,
            out@ == v@.subrange(0, i as int),
        decreases n - i,
    {
        out.push(v[i]);
        i = i + 1;
        proof {
            assert(out@ =~= v@.subrange(0, i as int));
        }
    }
    proof {
        assert(out@ =~= take10(s@));
    }
    crate::strutil::string_of(&out)
}

/// The one-line summary of an action for the rule dropdown.
pub open spec fn spec_action_summary(a: ActionView) -> Seq<char> {
    match a {
        ActionView::AttachEmoji(emoji) => crate::utils::spec_add_colons(emoji),
        ActionView::ThreadedMessage(msg) => msg,
        ActionView::ChannelMessage(msg) => msg,
        ActionView::MsgOncallInThread { escalation_policy_id, message } => {
            "Tag Oncall: "@ + escalation_policy_id + " - "@ + take10(message) + ".."@
        },
        ActionView::ForwardMessageToChannel { channel, msg_context } => {
            "Fwd Message: "@ + channel + " - "@ + take10(msg_context) + ".."@
        },
    }
}

/// Summarizes one action.
fn action_summary(a: &Action) -> (r: String)
    ensures
        r@ == spec_action_summary(a@),
{
    match a {
        Action::AttachEmoji(emoji) => crate::utils::add_emoji_colons(emoji.as_str()),
        Action::ThreadedMessage(msg) => msg.clone(),
        Action::ChannelMessage(msg) => msg.clone(),
        Action::MsgOncallInThread { escalation_policy_id, message } => {
            let mut s: String = "Tag Oncall: ".to_owned();
            s.append(escalation_policy_id.as_str());
            s.append(" - ");
            let prefix = take10_prefix(message.as_str());
            s.append(prefix.as_str());
            s.append("..");
            proof {
                assert(s@ =~= spec_action_summary(a@));
            }
            s
        },
        Action::ForwardMessageToChannel { channel, msg_context } => {
            let mut s: String = "Fwd Message: ".to_owned();
            s.append(channel.as_str());
            s.append(" - ");
            let prefix = take10_prefix(msg_context.as_str());
            s.append(prefix.as_str());
            s.append("..");
            proof {
                assert(s@ =~= spec_action_summary(a@));
            }
            s
        },
    }
}

/// The summaries of the first `k` actions, run together.
pub open spec fn summaries_upto(acts: Seq<ActionView>, k: int) -> Seq<char>
    decreases k,
{
    if k <= 0 {
        Seq::empty()
    } else {
        summaries_upto(acts, k - 1) + spec_action_summary(acts[k - 1])
    }
}

/// The one-line text describing a whole rule: its channel, then its actions.
pub open spec fn spec_choice_text(rv: crate::response::ResponseView) -> Seq<char> {
    "#<#"@ + rv.listener.channel_id() + ">"@ + " | "@ + summaries_upto(
        rv.actions,
        rv.actions.len() as int,
    )
}

impl crate::response::ReceptionistResponse {
    /// Describes this whole rule on a single dropdown line; the choice value
    /// is the rule id, so selecting the line selects the rule.
    pub fn to_response_choice_item(&self) -> (r: ChoiceItem)
        ensures
            r@.text == spec_choice_text(self@),
            r@.value == self@.id,
    {
        let mut text: String = "#<#".to_owned();
        match &self.listener {
            ListenerEvent::SlackChannelMessage { channel_id } => {
                text.append(channel_id.as_str());
            },
        }
        text.append(">");
        text.append(" | ");
        let ghost head = "#<#"@ + self@.listener.channel_id() + ">"@ + " | "@;
        proof {
            assert(text@ =~= head + summaries_upto(self@.actions, 0));
        }
        let mut i: usize = 0;
        while i < self.actions.len()
            invariant
                i <= self.actions@.len(),
                head == "#<#"@ + self@.listener.channel_id() + ">"@ + " | "@,
                text@ == head + summaries_upto(self@.actions, i as int),
            decreases self.actions@.len() - i,
        {
            let summary = action_summary(&self.actions[i]);
            text.append(summary.as_str());
            i = i + 1;
            proof {
                assert(text@ =~= head + summaries_upto(self@.actions, i as int));
            }
        }
        proof {
            assert(text@ =~= spec_choice_text(self@));
        }
        ChoiceItem { text, value: self.id.clone() }
    }
}

/// The dropdown entries of the first `k` rules.
pub open spec fn response_choices_upto(rs: Seq<crate::response::ResponseView>, k: int) -> Seq<
    ChoiceItemView,
>
    decreases k,
{
    if k <= 0 {
        Seq::empty()
    } else {
        response_choices_upto(rs, k - 1) + seq![
            ChoiceItemView { text: spec_choice_text(rs[k - 1]), value: rs[k - 1].id },
        ]
    }
}

/// The rule selector of the edit and delete modes: a dropdown over the
/// collaborator's rules, or a plain note when there are none.
pub open spec fn spec_selector_blocks(rs: Seq<crate::response::ResponseView>) -> Seq<
    EditorBlockView,
> {
    if rs.len() == 0 {
        seq![
            EditorBlockView::Text {
                text:
                    "You are not collaborator on any responses, please create a new response or ask another user to add you to an existing response."@,
            },
        ]
    } else {
        seq![
            EditorBlockView::StaticSelectInput {
                label: "Select one of your existing Responses"@,
                action_id: BlockSectionRouter::ResponseSelection.spec_with_index(0),
                placeholder: "Select one of your existing Responses"@,
                options: response_choices_upto(rs, rs.len() as int),
                initial: None,
                block_id: BlockSectionRouter::ResponseSelection.spec_block_id(0),
            },
            EditorBlockView::Divider,
        ]
    }
}

/// Builds the rule selector over the given rules.
pub fn response_selector_blocks(responses: &Vec<crate::response::ReceptionistResponse>) -> (r: Vec<
    EditorBlock,
>)
    ensures
        views_of_blocks(r@) =~= spec_selector_blocks(crate::events::views_of_rules(responses@)),
{
    let ghost rs = crate::events::views_of_rules(responses@);
    if responses.len() == 0 {
        let mut blocks: Vec<EditorBlock> = Vec::new();
        blocks.push(
            EditorBlock::Text {
                text:
                    "You are not collaborator on any responses, please create a new response or ask another user to add you to an existing response.".to_owned(),
            },
        );
        return blocks;
    }
    let mut options: Vec<ChoiceItem> = Vec::new();
    let mut i: usize = 0;
    while i < responses.len()
        invariant
            i <= responses@.len(),
            rs == crate::events::views_of_rules(responses@),
            views_of_choices(options@) == response_choices_upto(rs, i as int),
        decreases responses@.len() - i,
    {
        options.push(responses[i].to_response_choice_item());
        i = i + 1;
        proof {
            assert(views_of_choices(options@) =~= response_choices_upto(rs, i as int));
        }
    }
    let mut blocks: Vec<EditorBlock> = Vec::new();
    blocks.push(
        EditorBlock::StaticSelectInput {
            label: "Select one of your existing Responses".to_owned(),
            action_id: BlockSectionRouter::ResponseSelection.to_action_id(None),
            placeholder: "Select one of your existing Responses".to_owned(),
            options,
            initial: None,
            block_id: BlockSectionRouter::ResponseSelection.to_block_id(None),
        },
    );
    blocks.push(EditorBlock::Divider);
    blocks
}

} // verus!

verus! {

/// What the rendered manager form holds beneath the mode selector.
pub open spec fn spec_manager_extra_blocks(
    meta: crate::token::MetaView,
    db_items: Seq<crate::database::TableItemView>,
) -> Result<Seq<EditorBlockView>, crate::errors::ReceptionistError> {
    let collab_rules = crate::database::fetch_refs_upto(
        db_items,
        crate::database::collab_refs(db_items, meta.user_id),
        crate::database::collab_refs(db_items, meta.user_id).len() as int,
    );
    match meta.current_mode {
        ManagerViewMode::Home => Ok(Seq::empty()),
        ManagerViewMode::CreateResponse => Ok(
            spec_response_editor_blocks(
                crate::submission::default_response_view(Seq::empty()),
            ),
        ),
        ManagerViewMode::EditResponse => {
            match meta.existing_response_id {
                None => Ok(spec_selector_blocks(collab_rules)),
                Some(id) => {
                    let found = crate::database::rules_with_id(db_items, id);
                    if found.len() == 1 {
                        Ok(spec_selector_blocks(collab_rules) + spec_response_editor_blocks(
                            found[0],
                        ))
                    } else if found.len() == 0 {
                        Err(crate::errors::ReceptionistError::NotFound)
                    } else {
                        Err(crate::errors::ReceptionistError::InconsistentState)
                    }
                },
            }
        },
        ManagerViewMode::DeleteResponse => Ok(spec_selector_blocks(collab_rules)),
    }
}

/// Renders the whole manager form for one session: the mode selector, the
/// mode's own blocks, and the session serialized into its opaque token for
/// the client to echo back.
pub fn new_manager_view(
    meta: &crate::token::MetaForManagerView,
    db: &crate::database::ReceptionistDatabase,
) -> (r: Result<(Vec<EditorBlock>, String), crate::errors::ReceptionistError>)
    requires
        db.wf(),
    ensures
        match r {
            Ok((blocks, token)) => {
                &&& token@ == crate::token::enc_meta(meta@)
                &&& match spec_manager_extra_blocks(meta@, db@) {
                    Ok(extra) => views_of_blocks(blocks@) == spec_mode_editor_blocks(
                        meta@.current_mode,
                    ) + extra,
                    Err(_) => false,
                }
            },
            Err(e) => spec_manager_extra_blocks(meta@, db@) == Err::<
                Seq<EditorBlockView>,
                crate::errors::ReceptionistError,
            >(e),
        },
{
    let mut blocks = meta.current_mode.to_editor_blocks();
    let ghost mode_part = spec_mode_editor_blocks(meta@.current_mode);
    match meta.current_mode {
        ManagerViewMode::Home => {
            proof {
                assert(views_of_blocks(blocks@) =~= mode_part + Seq::<EditorBlockView>::empty());
            }
        },
        ManagerViewMode::CreateResponse => {
            let fresh = crate::response::ReceptionistResponse::default();
            let mut extra = fresh.to_editor_blocks();
            proof {
                lemma_views_of_blocks_concat(blocks@, extra@);
                assert(spec_response_editor_blocks(fresh@) == spec_response_editor_blocks(
                    crate::submission::default_response_view(Seq::empty()),
                ));
            }
            blocks.append(&mut extra);
        },
        ManagerViewMode::EditResponse => {
            let collab_rules = match db.get_responses_for_collaborator(meta.user_id.as_str()) {
                Ok(v) => v,
                Err(e) => {
                    return Err(e);
                },
            };
            let mut selector = response_selector_blocks(&collab_rules);
            proof {
                lemma_views_of_blocks_concat(blocks@, selector@);
            }
            blocks.append(&mut selector);
            match &meta.existing_response_id {
                None => {
                    proof {
                        assert(views_of_blocks(blocks@) =~= mode_part + spec_selector_blocks(
                            crate::events::views_of_rules(collab_rules@),
                        ));
                    }
                },
                Some(response_id) => {
                    let response_to_edit = match db.get_response_by_id(response_id.as_str()) {
                        Ok(resp) => resp,
                        Err(e) => {
                            return Err(e);
                        },
                    };
                    let mut editor = response_to_edit.to_editor_blocks();
                    proof {
                        lemma_views_of_blocks_concat(blocks@, editor@);
                    }
                    blocks.append(&mut editor);
                },
            }
        },
        ManagerViewMode::DeleteResponse => {
            let collab_rules = match db.get_responses_for_collaborator(meta.user_id.as_str()) {
                Ok(v) => v,
                Err(e) => {
                    return Err(e);
                },
            };
            let mut selector = response_selector_blocks(&collab_rules);
            proof {
                lemma_views_of_blocks_concat(blocks@, selector@);
            }
            blocks.append(&mut selector);
        },
    }
    let token = meta.to_token();
    Ok((blocks, token))
}

} // verus!
