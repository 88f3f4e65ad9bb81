//! Routing of form events to the working rule. Every submitted block value
//! arrives under a composite field identifier; each one is dispatched to the
//! mutator of the sub-entity it names. On final submission the assembled rule
//! is validated and, only when clean, persisted; validation findings go back
//! to the caller and nothing is written.

use vstd::prelude::*;
use crate::actions::{Action, ActionKind, ActionView};
use crate::conditions::{ConditionKind, ConditionView};
use crate::database::{
    has_response_id,
    keys_of_items,
    put_seq,
    remove_seq,
    rules_with_id,
    spec_table_items,
    ReceptionistDatabase,
};
use crate::errors::{ReceptionistError, SlackResponseAction};
use crate::listeners::ListenerEventView;
use crate::response::{ReceptionistResponse, ResponseView};
use crate::router::{spec_first_delim, suffix_after_delim, BlockSectionRouter};
use crate::state_values::{StateView, ViewBlockStateType};
use crate::strutil::{all_digits, dec_value};
use crate::token::{ManagerViewMode, MetaForManagerView, MetaView};

verus! {

// --- field-level mutators on the working rule ---

/// The list index an identifier carries, when it parses and fits.
pub open spec fn spec_index_ok(action_id: Seq<char>) -> Option<nat> {
    match spec_first_delim(action_id) {
        None => None,
        Some(i) => {
            let suffix = suffix_after_delim(action_id, i);
            if suffix.len() > 0 && all_digits(suffix) && dec_value(suffix) <= usize::MAX {
                Some(dec_value(suffix))
            } else {
                None
            }
        },
    }
}

/// Replacing the payload of the action at `idx`, when it has the given kind.
pub open spec fn spec_upd_action_text(
    rv: ResponseView,
    idx: nat,
    kind: ActionKind,
    value: Seq<char>,
) -> Result<ResponseView, ReceptionistError> {
    if idx >= rv.actions.len() {
        Err(ReceptionistError::IndexError)
    } else if rv.actions[idx as int].kind() != kind {
        Err(ReceptionistError::ActionKindMismatch)
    } else {
        let prior = rv.actions[idx as int];
        let updated = match kind {
            ActionKind::AttachEmoji => ActionView::AttachEmoji(value),
            ActionKind::ThreadedMessage => ActionView::ThreadedMessage(value),
            ActionKind::ChannelMessage => ActionView::ChannelMessage(value),
            ActionKind::MsgOncallInThread => ActionView::MsgOncallInThread {
                escalation_policy_id: value,
                message: prior->MsgOncallInThread_message,
            },
            ActionKind::ForwardMessageToChannel => ActionView::ForwardMessageToChannel {
                channel: value,
                msg_context: prior->ForwardMessageToChannel_msg_context,
            },
        };
        Ok(ResponseView { actions: rv.actions.update(idx as int, updated), ..rv })
    }
}

/// Replacing the second text of a two-field action at `idx`.
pub open spec fn spec_upd_action_second_text(
    rv: ResponseView,
    idx: nat,
    kind: ActionKind,
    value: Seq<char>,
) -> Result<ResponseView, ReceptionistError> {
    if idx >= rv.actions.len() {
        Err(ReceptionistError::IndexError)
    } else if rv.actions[idx as int].kind() != kind {
        Err(ReceptionistError::ActionKindMismatch)
    } else {
        let prior = rv.actions[idx as int];
        let updated = match kind {
            ActionKind::MsgOncallInThread => ActionView::MsgOncallInThread {
                escalation_policy_id: prior->MsgOncallInThread_escalation_policy_id,
                message: value,
            },
            ActionKind::ForwardMessageToChannel => ActionView::ForwardMessageToChannel {
                channel: prior->ForwardMessageToChannel_channel,
                msg_context: value,
            },
            _ => prior,
        };
        Ok(ResponseView { actions: rv.actions.update(idx as int, updated), ..rv })
    }
}

impl ReceptionistResponse {
    /// Sets the emoji of the `AttachEmoji` action at `index`.
    pub fn update_attach_emoji(&mut self, value: String, index: usize) -> (r: Result<
        (),
        ReceptionistError,
    >)
        ensures
            match r {
                Ok(()) => spec_upd_action_text(
                    old(self)@,
                    index as nat,
                    ActionKind::AttachEmoji,
                    value@,
                ) == Ok::<ResponseView, ReceptionistError>(final(self)@),
                Err(e) => spec_upd_action_text(
                    old(self)@,
                    index as nat,
                    ActionKind::AttachEmoji,
                    value@,
                ) == Err::<ResponseView, ReceptionistError>(e) && final(self)@ == old(self)@,
            },
    {
        if index >= self.actions.len() {
            return Err(ReceptionistError::IndexError);
        }
        match &self.actions[index] {
            Action::AttachEmoji(_) => {
                self.actions[index] = Action::AttachEmoji(value);
                proof {
                    assert(self@.actions =~= old(self)@.actions.update(
                        index as int,
                        self.actions@[index as int]@,
                    ));
                }
                Ok(())
            },
            _ => Err(ReceptionistError::ActionKindMismatch),
        }
    }

    /// Sets the message of the `ThreadedMessage` action at `index`.
    pub fn update_threaded_message(&mut self, value: String, index: usize) -> (r: Result<
        (),
        ReceptionistError,
    >)
        ensures
            match r {
                Ok(()) => spec_upd_action_text(
                    old(self)@,
                    index as nat,
                    ActionKind::ThreadedMessage,
                    value@,
                ) == Ok::<ResponseView, ReceptionistError>(final(self)@),
                Err(e) => spec_upd_action_text(
                    old(self)@,
                    index as nat,
                    ActionKind::ThreadedMessage,
                    value@,
                ) == Err::<ResponseView, ReceptionistError>(e) && final(self)@ == old(self)@,
            },
    {
        if index >= self.actions.len() {
            return Err(ReceptionistError::IndexError);
        }
        match &self.actions[index] {
            Action::ThreadedMessage(_) => {
                self.actions[index] = Action::ThreadedMessage(value);
                proof {
                    assert(self@.actions =~= old(self)@.actions.update(
                        index as int,
                        self.actions@[index as int]@,
                    ));
                }
                Ok(())
            },
            _ => Err(ReceptionistError::ActionKindMismatch),
        }
    }

    /// Sets the message of the `ChannelMessage` action at `index`.
    pub fn update_channel_message(&mut self, value: String, index: usize) -> (r: Result<
        (),
        ReceptionistError,
    >)
        ensures
            match r {
                Ok(()) => spec_upd_action_text(
                    old(self)@,
                    index as nat,
                    ActionKind::ChannelMessage,
                    value@,
                ) == Ok::<ResponseView, ReceptionistError>(final(self)@),
                Err(e) => spec_upd_action_text(
                    old(self)@,
                    index as nat,
                    ActionKind::ChannelMessage,
                    value@,
                ) == Err::<ResponseView, ReceptionistError>(e) && final(self)@ == old(self)@,
            },
    {
        if index >= self.actions.len() {
            return Err(ReceptionistError::IndexError);
        }
        match &self.actions[index] {
            Action::ChannelMessage(_) => {
                self.actions[index] = Action::ChannelMessage(value);
                proof {
                    assert(self@.actions =~= old(self)@.actions.update(
                        index as int,
                        self.actions@[index as int]@,
                    ));
                }
                Ok(())
            },
            _ => Err(ReceptionistError::ActionKindMismatch),
        }
    }

    /// Sets the escalation policy of the `MsgOncallInThread` action at
    /// `index`, keeping its message.
    pub fn update_escalation_policy(&mut self, value: String, index: usize) -> (r: Result<
        (),
        ReceptionistError,
    >)
        ensures
            match r {
                Ok(()) => spec_upd_action_text(
                    old(self)@,
                    index as nat,
                    ActionKind::MsgOncallInThread,
                    value@,
                ) == Ok::<ResponseView, ReceptionistError>(final(self)@),
                Err(e) => spec_upd_action_text(
                    old(self)@,
                    index as nat,
                    ActionKind::MsgOncallInThread,
                    value@,
                ) == Err::<ResponseView, ReceptionistError>(e) && final(self)@ == old(self)@,
            },
    {
        if index >= self.actions.len() {
            return Err(ReceptionistError::IndexError);
        }
        match &self.actions[index] {
            Action::MsgOncallInThread { message, .. } => {
                let message = message.clone();
                self.actions[index] = Action::MsgOncallInThread {
                    escalation_policy_id: value,
                    message,
                };
                proof {
                    assert(self@.actions =~= old(self)@.actions.update(
                        index as int,
                        self.actions@[index as int]@,
                    ));
                }
                Ok(())
            },
            _ => Err(ReceptionistError::ActionKindMismatch),
        }
    }

    /// Sets the message of the `MsgOncallInThread` action at `index`,
    /// keeping its escalation policy.
    pub fn update_oncall_message(&mut self, value: String, index: usize) -> (r: Result<
        (),
        ReceptionistError,
    >)
        ensures
            match r {
                Ok(()) => spec_upd_action_second_text(
                    old(self)@,
                    index as nat,
                    ActionKind::MsgOncallInThread,
                    value@,
                ) == Ok::<ResponseView, ReceptionistError>(final(self)@),
                Err(e) => spec_upd_action_second_text(
                    old(self)@,
                    index as nat,
                    ActionKind::MsgOncallInThread,
                    value@,
                ) == Err::<ResponseView, ReceptionistError>(e) && final(self)@ == old(self)@,
            },
    {
        if index >= self.actions.len() {
            return Err(ReceptionistError::IndexError);
        }
        match &self.actions[index] {
            Action::MsgOncallInThread { escalation_policy_id, .. } => {
                let escalation_policy_id = escalation_policy_id.clone();
                self.actions[index] = Action::MsgOncallInThread {
                    escalation_policy_id,
                    message: value,
                };
                proof {
                    assert(self@.actions =~= old(self)@.actions.update(
                        index as int,
                        self.actions@[index as int]@,
                    ));
                }
                Ok(())
            },
            _ => Err(ReceptionistError::ActionKindMismatch),
        }
    }

    /// Sets the target channel of the `ForwardMessageToChannel` action at
    /// `index`, keeping its context.
    pub fn update_forward_channel(&mut self, value: String, index: usize) -> (r: Result<
        (),
        ReceptionistError,
    >)
        ensures
            match r {
                Ok(()) => spec_upd_action_text(
                    old(self)@,
                    index as nat,
                    ActionKind::ForwardMessageToChannel,
                    value@,
                ) == Ok::<ResponseView, ReceptionistError>(final(self)@),
                Err(e) => spec_upd_action_text(
                    old(self)@,
                    index as nat,
                    ActionKind::ForwardMessageToChannel,
                    value@,
                ) == Err::<ResponseView, ReceptionistError>(e) && final(self)@ == old(self)@,
            },
    {
        if index >= self.actions.len() {
            return Err(ReceptionistError::IndexError);
        }
        match &self.actions[index] {
            Action::ForwardMessageToChannel { msg_context, .. } => {
                let msg_context = msg_context.clone();
                self.actions[index] = Action::ForwardMessageToChannel {
                    channel: value,
                    msg_context,
                };
                proof {
                    assert(self@.actions =~= old(self)@.actions.update(
                        index as int,
                        self.actions@[index as int]@,
                    ));
                }
                Ok(())
            },
            _ => Err(ReceptionistError::ActionKindMismatch),
        }
    }

    /// Sets the context of the `ForwardMessageToChannel` action at `index`,
    /// keeping its channel.
    pub fn update_forward_context(&mut self, value: String, index: usize) -> (r: Result<
        (),
        ReceptionistError,
    >)
        ensures
            match r {
                Ok(()) => spec_upd_action_second_text(
                    old(self)@,
                    index as nat,
                    ActionKind::ForwardMessageToChannel,
                    value@,
                ) == Ok::<ResponseView, ReceptionistError>(final(self)@),
                Err(e) => spec_upd_action_second_text(
                    old(self)@,
                    index as nat,
                    ActionKind::ForwardMessageToChannel,
                    value@,
                ) == Err::<ResponseView, ReceptionistError>(e) && final(self)@ == old(self)@,
            },
    {
        if index >= self.actions.len() {
            return Err(ReceptionistError::IndexError);
        }
        match &self.actions[index] {
            Action::ForwardMessageToChannel { channel, .. } => {
                let channel = channel.clone();
                self.actions[index] = Action::ForwardMessageToChannel {
                    channel,
                    msg_context: value,
                };
                proof {
                    assert(self@.actions =~= old(self)@.actions.update(
                        index as int,
                        self.actions@[index as int]@,
                    ));
                }
                Ok(())
            },
            _ => Err(ReceptionistError::ActionKindMismatch),
        }
    }
}

} // verus!

verus! {

// --- rule-level spec mirrors of the routed mutations ---

/// Replacing the condition at `idx` with a default of the named kind,
/// carrying the payload over.
pub open spec fn spec_upd_condition_type(rv: ResponseView, kind_str: Seq<char>, idx: nat) -> Result<
    ResponseView,
    ReceptionistError,
> {
    if idx >= rv.conditions.len() {
        Err(ReceptionistError::IndexError)
    } else {
        match ConditionKind::spec_from_str(kind_str) {
            None => Err(ReceptionistError::UnknownKind),
            Some(k) => Ok(
                ResponseView {
                    conditions: rv.conditions.update(
                        idx as int,
                        ConditionView::of_kind(k, rv.conditions[idx as int].text()),
                    ),
                    ..rv
                },
            ),
        }
    }
}

/// Replacing the action at `idx` with a default of the named kind, keeping
/// the message text; a no-op on the same kind.
pub open spec fn spec_upd_action_type(rv: ResponseView, kind_str: Seq<char>, idx: nat) -> Result<
    ResponseView,
    ReceptionistError,
> {
    if idx >= rv.actions.len() {
        Err(ReceptionistError::IndexError)
    } else {
        match ActionKind::spec_from_str(kind_str) {
            None => Err(ReceptionistError::UnknownKind),
            Some(k) => {
                let prior = rv.actions[idx as int];
                Ok(
                    ResponseView {
                        actions: rv.actions.update(
                            idx as int,
                            if k == prior.kind() {
                                prior
                            } else {
                                ActionView::of_kind(k, prior.text())
                            },
                        ),
                        ..rv
                    },
                )
            },
        }
    }
}

/// Replacing the payload of the condition at `idx`.
pub open spec fn spec_upd_message_condition(rv: ResponseView, value: Seq<char>, idx: nat) -> Result<
    ResponseView,
    ReceptionistError,
> {
    if idx >= rv.conditions.len() {
        Err(ReceptionistError::IndexError)
    } else {
        Ok(
            ResponseView {
                conditions: rv.conditions.update(
                    idx as int,
                    rv.conditions[idx as int].with_text(value),
                ),
                ..rv
            },
        )
    }
}

/// Pointing the listener at another channel.
pub open spec fn spec_upd_slack_channel(rv: ResponseView, channel: Seq<char>) -> ResponseView {
    ResponseView { listener: ListenerEventView::SlackChannelMessage { channel_id: channel }, ..rv }
}

// --- the parsed submission and the per-field dispatch ---

/// The spec-level value of a parsed submission.
pub ghost struct ParsedView {
    pub mode: ManagerViewMode,
    pub selected_response_id: Option<Seq<char>>,
    pub response: ResponseView,
}

/// What a submitted form boils down to: the mode, an optionally selected
/// existing rule id, and the assembled working rule.
#[derive(Debug, PartialEq, Eq)]
pub struct ParsedManagerViewSubmission {
    pub mode: ManagerViewMode,
    pub selected_response_id: Option<String>,
    pub response: ReceptionistResponse,
}

impl View for ParsedManagerViewSubmission {
    type V = ParsedView;

    open spec fn view(&self) -> ParsedView {
        ParsedView {
            mode: self.mode,
            selected_response_id: match self.selected_response_id {
                Some(ref s) => Some(s@),
                None => None,
            },
            response: self.response@,
        }
    }
}

/// Routing one submitted block value into the parsed submission: the
/// identifier names the field kind and list position, the value's shape must
/// fit the field, and the named sub-entity is updated.
pub open spec fn spec_apply_block_state(
    p: ParsedView,
    action_id: Seq<char>,
    st: StateView,
) -> Result<ParsedView, ReceptionistError> {
    match BlockSectionRouter::spec_find_route(action_id) {
        None => Err(ReceptionistError::RouteNotFound),
        Some(route) => match route {
            BlockSectionRouter::ManagerModeSelection => match st {
                StateView::StaticSelect(v) => match ManagerViewMode::spec_from_str(v) {
                    Some(m) => Ok(ParsedView { mode: m, ..p }),
                    None => Err(ReceptionistError::UnknownKind),
                },
                _ => Err(ReceptionistError::BlockStateMismatch),
            },
            BlockSectionRouter::ResponseSelection => match st {
                StateView::StaticSelect(v) => Ok(
                    ParsedView { response: ResponseView { id: v, ..p.response }, ..p },
                ),
                _ => Err(ReceptionistError::BlockStateMismatch),
            },
            BlockSectionRouter::CollaboratorSelection => match st {
                StateView::MultiUsersSelect(users) => Ok(
                    ParsedView { response: ResponseView { collaborators: users, ..p.response }, ..p },
                ),
                _ => Err(ReceptionistError::BlockStateMismatch),
            },
            BlockSectionRouter::ListenerChannelSelected => match st {
                StateView::ConversationsSelect(o) => match o {
                    Some(c) => Ok(
                        ParsedView { response: spec_upd_slack_channel(p.response, c), ..p },
                    ),
                    None => Ok(p),
                },
                _ => Err(ReceptionistError::BlockStateMismatch),
            },
            BlockSectionRouter::ConditionTypeSelected => match st {
                StateView::StaticSelect(v) => match crate::router::spec_index_ok(action_id) {
                    None => Err(ReceptionistError::IndexError),
                    Some(i) => lift_response(p, spec_upd_condition_type(p.response, v, i)),
                },
                _ => Err(ReceptionistError::BlockStateMismatch),
            },
            BlockSectionRouter::ActionTypeSelected => match st {
                StateView::StaticSelect(v) => match crate::router::spec_index_ok(action_id) {
                    None => Err(ReceptionistError::IndexError),
                    Some(i) => lift_response(p, spec_upd_action_type(p.response, v, i)),
                },
                _ => Err(ReceptionistError::BlockStateMismatch),
            },
            BlockSectionRouter::MessageConditionValueInput => match st {
                StateView::PlainTextInput(v) => match crate::router::spec_index_ok(action_id) {
                    None => Err(ReceptionistError::IndexError),
                    Some(i) => lift_response(p, spec_upd_message_condition(p.response, v, i)),
                },
                _ => Err(ReceptionistError::BlockStateMismatch),
            },
            BlockSectionRouter::AttachEmojiInput => match st {
                StateView::PlainTextInput(v) => match crate::router::spec_index_ok(action_id) {
                    None => Err(ReceptionistError::IndexError),
                    Some(i) => lift_response(
                        p,
                        spec_upd_action_text(p.response, i, ActionKind::AttachEmoji, v),
                    ),
                },
                _ => Err(ReceptionistError::BlockStateMismatch),
            },
            BlockSectionRouter::ReplyThreadedMsgInput => match st {
                StateView::PlainTextInput(v) => match crate::router::spec_index_ok(action_id) {
                    None => Err(ReceptionistError::IndexError),
                    Some(i) => lift_response(
                        p,
                        spec_upd_action_text(p.response, i, ActionKind::ThreadedMessage, v),
                    ),
                },
                _ => Err(ReceptionistError::BlockStateMismatch),
            },
            BlockSectionRouter::PostChannelMsgInput => match st {
                StateView::PlainTextInput(v) => match crate::router::spec_index_ok(action_id) {
                    None => Err(ReceptionistError::IndexError),
                    Some(i) => lift_response(
                        p,
                        spec_upd_action_text(p.response, i, ActionKind::ChannelMessage, v),
                    ),
                },
                _ => Err(ReceptionistError::BlockStateMismatch),
            },
            BlockSectionRouter::PDEscalationPolicyInput => match st {
                StateView::PlainTextInput(v) => match crate::router::spec_index_ok(action_id) {
                    None => Err(ReceptionistError::IndexError),
                    Some(i) => lift_response(
                        p,
                        spec_upd_action_text(p.response, i, ActionKind::MsgOncallInThread, v),
                    ),
                },
                _ => Err(ReceptionistError::BlockStateMismatch),
            },
            BlockSectionRouter::PDThreadedMsgInput => match st {
                StateView::PlainTextInput(v) => match crate::router::spec_index_ok(action_id) {
                    None => Err(ReceptionistError::IndexError),
                    Some(i) => lift_response(
                        p,
                        spec_upd_action_second_text(
                            p.response,
                            i,
                            ActionKind::MsgOncallInThread,
                            v,
                        ),
                    ),
                },
                _ => Err(ReceptionistError::BlockStateMismatch),
            },
            BlockSectionRouter::FwdMsgToChanChannelInput => match st {
                StateView::ConversationsSelect(o) => match o {
                    Some(c) => match crate::router::spec_index_ok(action_id) {
                        None => Err(ReceptionistError::IndexError),
                        Some(i) => lift_response(
                            p,
                            spec_upd_action_text(
                                p.response,
                                i,
                                ActionKind::ForwardMessageToChannel,
                                c,
                            ),
                        ),
                    },
                    None => Err(ReceptionistError::BlockStateMismatch),
                },
                _ => Err(ReceptionistError::BlockStateMismatch),
            },
            BlockSectionRouter::FwdMsgToChanMsgContextInput => match st {
                StateView::PlainTextInput(v) => match crate::router::spec_index_ok(action_id) {
                    None => Err(ReceptionistError::IndexError),
                    Some(i) => lift_response(
                        p,
                        spec_upd_action_second_text(
                            p.response,
                            i,
                            ActionKind::ForwardMessageToChannel,
                            v,
                        ),
                    ),
                },
                _ => Err(ReceptionistError::BlockStateMismatch),
            },
        },
    }
}

/// Carries a rule-level result into the parsed submission.
pub open spec fn lift_response(p: ParsedView, r: Result<ResponseView, ReceptionistError>) -> Result<
    ParsedView,
    ReceptionistError,
> {
    match r {
        Ok(rv) => Ok(ParsedView { response: rv, ..p }),
        Err(e) => Err(e),
    }
}

/// Routes one submitted block value; on an error the submission is left as
/// it was.
pub fn apply_block_state(
    parsed: &mut ParsedManagerViewSubmission,
    action_id: &str,
    st: &ViewBlockStateType,
) -> (r: Result<(), ReceptionistError>)
    ensures
        match r {
            Ok(()) => spec_apply_block_state(old(parsed)@, action_id@, st@) == Ok::<
                ParsedView,
                ReceptionistError,
            >(final(parsed)@),
            Err(e) => spec_apply_block_state(old(parsed)@, action_id@, st@) == Err::<
                ParsedView,
                ReceptionistError,
            >(e) && final(parsed)@ == old(parsed)@,
        },
{
    let route_and_index = BlockSectionRouter::from_string_with_index(action_id);
    let (route, index_result) = match route_and_index {
        None => {
            return Err(ReceptionistError::RouteNotFound);
        },
        Some(x) => x,
    };
    proof {
        crate::router::lemma_index_result_to_spec(action_id@, index_result);
    }
    match route {
        BlockSectionRouter::ManagerModeSelection => apply_mode_selection(parsed, st, Ghost(
            action_id@,
        )),
        BlockSectionRouter::ResponseSelection => apply_response_selection(parsed, st, Ghost(
            action_id@,
        )),
        BlockSectionRouter::CollaboratorSelection => apply_collaborator_selection(parsed, st, Ghost(
            action_id@,
        )),
        BlockSectionRouter::ListenerChannelSelected => apply_listener_channel(parsed, st, Ghost(
            action_id@,
        )),
        _ => apply_indexed_route(parsed, route, index_result, st, Ghost(action_id@)),
    }
}

/// Routes a manager-mode selection.
fn apply_mode_selection(
    parsed: &mut ParsedManagerViewSubmission,
    st: &ViewBlockStateType,
    Ghost(aid): Ghost<Seq<char>>,
) -> (r: Result<(), ReceptionistError>)
    requires
        BlockSectionRouter::spec_find_route(aid) == Some(BlockSectionRouter::ManagerModeSelection),
    ensures
        match r {
            Ok(()) => spec_apply_block_state(old(parsed)@, aid, st@) == Ok::<
                ParsedView,
                ReceptionistError,
            >(final(parsed)@),
            Err(e) => spec_apply_block_state(old(parsed)@, aid, st@) == Err::<
                ParsedView,
                ReceptionistError,
            >(e) && final(parsed)@ == old(parsed)@,
        },
{
    let v = match st.get_value_from_static_select() {
        Err(e) => {
            return Err(e);
        },
        Ok(v) => v,
    };
    match ManagerViewMode::from_str(v.as_str()) {
        Some(m) => {
            parsed.mode = m;
            Ok(())
        },
        None => Err(ReceptionistError::UnknownKind),
    }
}

/// Routes an existing-rule selection: the chosen id lands on the working
/// rule.
fn apply_response_selection(
    parsed: &mut ParsedManagerViewSubmission,
    st: &ViewBlockStateType,
    Ghost(aid): Ghost<Seq<char>>,
) -> (r: Result<(), ReceptionistError>)
    requires
        BlockSectionRouter::spec_find_route(aid) == Some(BlockSectionRouter::ResponseSelection),
    ensures
        match r {
            Ok(()) => spec_apply_block_state(old(parsed)@, aid, st@) == Ok::<
                ParsedView,
                ReceptionistError,
            >(final(parsed)@),
            Err(e) => spec_apply_block_state(old(parsed)@, aid, st@) == Err::<
                ParsedView,
                ReceptionistError,
            >(e) && final(parsed)@ == old(parsed)@,
        },
{
    let v = match st.get_value_from_static_select() {
        Err(e) => {
            return Err(e);
        },
        Ok(v) => v,
    };
    parsed.response.id = v;
    Ok(())
}

/// Routes the collaborator multi-select: the chosen users replace the set.
fn apply_collaborator_selection(
    parsed: &mut ParsedManagerViewSubmission,
    st: &ViewBlockStateType,
    Ghost(aid): Ghost<Seq<char>>,
) -> (r: Result<(), ReceptionistError>)
    requires
        BlockSectionRouter::spec_find_route(aid) == Some(BlockSectionRouter::CollaboratorSelection),
    ensures
        match r {
            Ok(()) => spec_apply_block_state(old(parsed)@, aid, st@) == Ok::<
                ParsedView,
                ReceptionistError,
            >(final(parsed)@),
            Err(e) => spec_apply_block_state(old(parsed)@, aid, st@) == Err::<
                ParsedView,
                ReceptionistError,
            >(e) && final(parsed)@ == old(parsed)@,
        },
{
    let users = match st.get_multi_users_select_value() {
        Err(e) => {
            return Err(e);
        },
        Ok(u) => u,
    };
    parsed.response.collaborators = users;
    Ok(())
}

/// Routes the listener channel selection; an empty selection changes nothing.
fn apply_listener_channel(
    parsed: &mut ParsedManagerViewSubmission,
    st: &ViewBlockStateType,
    Ghost(aid): Ghost<Seq<char>>,
) -> (r: Result<(), ReceptionistError>)
    requires
        BlockSectionRouter::spec_find_route(aid) == Some(
            BlockSectionRouter::ListenerChannelSelected,
        ),
    ensures
        match r {
            Ok(()) => spec_apply_block_state(old(parsed)@, aid, st@) == Ok::<
                ParsedView,
                ReceptionistError,
            >(final(parsed)@),
            Err(e) => spec_apply_block_state(old(parsed)@, aid, st@) == Err::<
                ParsedView,
                ReceptionistError,
            >(e) && final(parsed)@ == old(parsed)@,
        },
{
    let o = match st.get_conversation_select_value() {
        Err(e) => {
            return Err(e);
        },
        Ok(o) => o,
    };
    match o {
        Some(c) => {
            parsed.response.update_slack_channel(c);
            Ok(())
        },
        None => Ok(()),
    }
}

/// Routes the indexed field kinds: list-position fields of conditions and
/// actions.
#[verifier::rlimit(100)]
fn apply_indexed_route(
    parsed: &mut ParsedManagerViewSubmission,
    route: BlockSectionRouter,
    index_result: Result<usize, ReceptionistError>,
    st: &ViewBlockStateType,
    Ghost(aid): Ghost<Seq<char>>,
) -> (r: Result<(), ReceptionistError>)
    requires
        BlockSectionRouter::spec_find_route(aid) == Some(route),
        !(route == BlockSectionRouter::ManagerModeSelection || route
            == BlockSectionRouter::ResponseSelection || route
            == BlockSectionRouter::CollaboratorSelection || route
            == BlockSectionRouter::ListenerChannelSelected),
        match index_result {
            Ok(n) => crate::router::spec_index_ok(aid) == Some(n as nat),
            Err(e) => crate::router::spec_index_ok(aid) is None && e
                == ReceptionistError::IndexError,
        },
    ensures
        match r {
            Ok(()) => spec_apply_block_state(old(parsed)@, aid, st@) == Ok::<
                ParsedView,
                ReceptionistError,
            >(final(parsed)@),
            Err(e) => spec_apply_block_state(old(parsed)@, aid, st@) == Err::<
                ParsedView,
                ReceptionistError,
            >(e) && final(parsed)@ == old(parsed)@,
        },
{
    match route {
        BlockSectionRouter::ConditionTypeSelected => {
            let v = match st.get_value_from_static_select() {
                Err(e) => {
                    return Err(e);
                },
                Ok(v) => v,
            };
            let i = match index_result {
                Err(e) => {
                    return Err(e);
                },
                Ok(i) => i,
            };
            parsed.response.update_condition_type(v.as_str(), i)
        },
        BlockSectionRouter::ActionTypeSelected => {
            let v = match st.get_value_from_static_select() {
                Err(e) => {
                    return Err(e);
                },
                Ok(v) => v,
            };
            let i = match index_result {
                Err(e) => {
                    return Err(e);
                },
                Ok(i) => i,
            };
            parsed.response.update_action_type(v.as_str(), i)
        },
        BlockSectionRouter::MessageConditionValueInput => {
            let v = match st.get_plain_text_value() {
                Err(e) => {
                    return Err(e);
                },
                Ok(v) => v,
            };
            let i = match index_result {
                Err(e) => {
                    return Err(e);
                },
                Ok(i) => i,
            };
            parsed.response.update_message_condition_string(v, i)
        },
        BlockSectionRouter::AttachEmojiInput => {
            let v = match st.get_plain_text_value() {
                Err(e) => {
                    return Err(e);
                },
                Ok(v) => v,
            };
            let i = match index_result {
                Err(e) => {
                    return Err(e);
                },
                Ok(i) => i,
            };
            parsed.response.update_attach_emoji(v, i)
        },
        BlockSectionRouter::ReplyThreadedMsgInput => {
            let v = match st.get_plain_text_value() {
                Err(e) => {
                    return Err(e);
                },
                Ok(v) => v,
            };
            let i = match index_result {
                Err(e) => {
                    return Err(e);
                },
                Ok(i) => i,
            };
            parsed.response.update_threaded_message(v, i)
        },
        BlockSectionRouter::PostChannelMsgInput => {
            let v = match st.get_plain_text_value() {
                Err(e) => {
                    return Err(e);
                },
                Ok(v) => v,
            };
            let i = match index_result {
                Err(e) => {
                    return Err(e);
                },
                Ok(i) => i,
            };
            parsed.response.update_channel_message(v, i)
        },
        BlockSectionRouter::PDEscalationPolicyInput => {
            let v = match st.get_plain_text_value() {
                Err(e) => {
                    return Err(e);
                },
                Ok(v) => v,
            };
            let i = match index_result {
                Err(e) => {
                    return Err(e);
                },
                Ok(i) => i,
            };
            parsed.response.update_escalation_policy(v, i)
        },
        BlockSectionRouter::PDThreadedMsgInput => {
            let v = match st.get_plain_text_value() {
                Err(e) => {
                    return Err(e);
                },
                Ok(v) => v,
            };
            let i = match index_result {
                Err(e) => {
                    return Err(e);
                },
                Ok(i) => i,
            };
            parsed.response.update_oncall_message(v, i)
        },
        BlockSectionRouter::FwdMsgToChanChannelInput => {
            let o = match st.get_conversation_select_value() {
                Err(e) => {
                    return Err(e);
                },
                Ok(o) => o,
            };
            let c = match o {
                Some(c) => c,
                None => {
                    return Err(ReceptionistError::BlockStateMismatch);
                },
            };
            let i = match index_result {
                Err(e) => {
                    return Err(e);
                },
                Ok(i) => i,
            };
            parsed.response.update_forward_channel(c, i)
        },
        BlockSectionRouter::FwdMsgToChanMsgContextInput => {
            let v = match st.get_plain_text_value() {
                Err(e) => {
                    return Err(e);
                },
                Ok(v) => v,
            };
            let i = match index_result {
                Err(e) => {
                    return Err(e);
                },
                Ok(i) => i,
            };
            parsed.response.update_forward_context(v, i)
        },
        _ => {
            proof {
                assert(false);
            }
            Err(ReceptionistError::RouteNotFound)
        },
    }
}

} // verus!

verus! {

// --- assembling a whole submission ---

/// A sequence of submitted block values, viewed.
pub open spec fn views_of_states(v: Seq<(String, ViewBlockStateType)>) -> Seq<
    (Seq<char>, StateView),
> {
    Seq::new(v.len(), |i: int| (v[i].0@, v[i].1@))
}

/// Routing a whole submission: each block value in order, stopping at the
/// first error.
pub open spec fn spec_parse_fold(p: ParsedView, states: Seq<(Seq<char>, StateView)>) -> Result<
    ParsedView,
    ReceptionistError,
>
    decreases states.len(),
{
    if states.len() == 0 {
        Ok(p)
    } else {
        match spec_apply_block_state(p, states[0].0, states[0].1) {
            Err(e) => Err(e),
            Ok(p2) => spec_parse_fold(p2, states.drop_first()),
        }
    }
}

/// `rv` with `u` appended to the collaborators unless already present.
pub open spec fn with_collaborator(rv: ResponseView, u: Seq<char>) -> ResponseView {
    if rv.has_collaborator(u) {
        rv
    } else {
        ResponseView { collaborators: rv.collaborators.push(u), ..rv }
    }
}

/// The working rule a fresh session starts from, under the given id.
pub open spec fn default_response_view(id: Seq<char>) -> ResponseView {
    ResponseView {
        id,
        listener: ListenerEventView::SlackChannelMessage { channel_id: Seq::empty() },
        conditions: seq![ConditionView::MatchPhrase(Seq::empty())],
        actions: seq![crate::actions::ActionView::AttachEmoji(Seq::empty())],
        collaborators: Seq::empty(),
    }
}

/// What parsing a whole submission yields, starting from `init_response`: a
/// home-mode submission routes nothing; otherwise every block value is
/// routed, and the acting user always ends among the collaborators.
pub open spec fn spec_parse_outcome(
    init_response: ResponseView,
    meta: MetaView,
    states: Seq<(Seq<char>, StateView)>,
    user: Seq<char>,
) -> Result<ParsedView, ReceptionistError> {
    let p0 = ParsedView {
        mode: meta.current_mode,
        selected_response_id: None,
        response: init_response,
    };
    if meta.current_mode == ManagerViewMode::Home {
        Ok(p0)
    } else {
        match spec_parse_fold(p0, states) {
            Err(e) => Err(e),
            Ok(p) => Ok(ParsedView { response: with_collaborator(p.response, user), ..p }),
        }
    }
}

/// One exec parse result agrees with the spec outcome from `rv0`.
pub open spec fn parse_result_matches(
    r: Result<ParsedManagerViewSubmission, ReceptionistError>,
    rv0: ResponseView,
    meta: MetaView,
    states: Seq<(Seq<char>, StateView)>,
    user: Seq<char>,
) -> bool {
    match r {
        Ok(p) => spec_parse_outcome(rv0, meta, states, user) == Ok::<
            ParsedView,
            ReceptionistError,
        >(p@),
        Err(e) => spec_parse_outcome(rv0, meta, states, user) == Err::<
            ParsedView,
            ReceptionistError,
        >(e),
    }
}

/// Resolves a submitted form against the session's working rule: routes every
/// block value to its field, then appends the acting user to the
/// collaborators. A session without a working rule starts from a fresh
/// default rule under a new id.
pub fn parse_manager_block_states(
    block_id_map: &Vec<(String, ViewBlockStateType)>,
    private_metadata: &MetaForManagerView,
    user_id: &str,
) -> (r: Result<ParsedManagerViewSubmission, ReceptionistError>)
    ensures
        match private_metadata@.response {
            Some(rv0) => parse_result_matches(
                r,
                rv0,
                private_metadata@,
                views_of_states(block_id_map@),
                user_id@,
            ),
            None => exists|id: Seq<char>|
                id.len() == 21 && parse_result_matches(
                    r,
                    #[trigger] default_response_view(id),
                    private_metadata@,
                    views_of_states(block_id_map@),
                    user_id@,
                ),
        },
{
    let ghost meta_v = private_metadata@;
    let ghost states = views_of_states(block_id_map@);
    let base_response = match &private_metadata.response {
        Some(resp) => resp.clone(),
        None => ReceptionistResponse::default(),
    };
    let ghost rv0 = base_response@;
    proof {
        if meta_v.response is None {
            assert(rv0 =~= default_response_view(rv0.id));
        }
    }
    let mut parsed = ParsedManagerViewSubmission {
        mode: private_metadata.current_mode,
        selected_response_id: None,
        response: base_response,
    };
    let ghost p0 = parsed@;
    proof {
        assert(p0 == (ParsedView {
            mode: meta_v.current_mode,
            selected_response_id: None,
            response: rv0,
        }));
    }
    if parsed.mode == ManagerViewMode::Home {
        proof {
            assert(parse_result_matches(
                Ok::<ParsedManagerViewSubmission, ReceptionistError>(parsed),
                rv0,
                meta_v,
                states,
                user_id@,
            ));
        }
        return Ok(parsed);
    }
    proof {
        assert(states.subrange(0, states.len() as int) =~= states);
    }
    let mut i: usize = 0;
    while i < block_id_map.len()
        invariant
            i <= block_id_map@.len(),
            meta_v == private_metadata@,
            states == views_of_states(block_id_map@),
            meta_v.current_mode != ManagerViewMode::Home,
            p0 == (ParsedView {
                mode: meta_v.current_mode,
                selected_response_id: None,
                response: rv0,
            }),
            meta_v.response is Some ==> rv0 == meta_v.response->Some_0,
            meta_v.response is None ==> rv0 == default_response_view(rv0.id) && rv0.id.len()
                == 21,
            spec_parse_fold(p0, states) == spec_parse_fold(
                parsed@,
                states.subrange(i as int, states.len() as int),
            ),
        decreases block_id_map@.len() - i,
    {
        let ghost before = parsed@;
        let ghost suffix = states.subrange(i as int, states.len() as int);
        proof {
            assert(suffix[0] == (block_id_map@[i as int].0@, block_id_map@[i as int].1@));
            assert(suffix.drop_first() =~= states.subrange(i as int + 1, states.len() as int));
        }
        match apply_block_state(&mut parsed, block_id_map[i].0.as_str(), &block_id_map[i].1) {
            Ok(()) => {},
            Err(e) => {
                proof {
                    assert(spec_parse_fold(p0, states) == Err::<ParsedView, ReceptionistError>(e));
                    assert(spec_parse_outcome(rv0, meta_v, states, user_id@) == Err::<
                        ParsedView,
                        ReceptionistError,
                    >(e));
                    match meta_v.response {
                        Some(orig) => {
                            assert(orig == rv0);
                            assert(spec_parse_outcome(orig, meta_v, states, user_id@) == Err::<
                                ParsedView,
                                ReceptionistError,
                            >(e));
                            assert(parse_result_matches(
                                Err::<ParsedManagerViewSubmission, ReceptionistError>(e),
                                orig,
                                meta_v,
                                states,
                                user_id@,
                            ));
                        },
                        None => {
                            assert(rv0 == default_response_view(rv0.id));
                            assert(parse_result_matches(
                                Err::<ParsedManagerViewSubmission, ReceptionistError>(e),
                                default_response_view(rv0.id),
                                meta_v,
                                states,
                                user_id@,
                            ));
                        },
                    }
                }
                return Err(e);
            },
        }
        i = i + 1;
    }
    proof {
        assert(states.subrange(states.len() as int, states.len() as int) =~= Seq::<
            (Seq<char>, StateView),
        >::empty());
        assert(spec_parse_fold(p0, states) == Ok::<ParsedView, ReceptionistError>(parsed@));
    }
    parsed.response.add_collaborator_if_absent(user_id);
    proof {
        let folded = spec_parse_fold(p0, states)->Ok_0;
        assert(parsed@.response == with_collaborator(folded.response, user_id@));
        assert(parsed@ == (ParsedView {
            response: with_collaborator(folded.response, user_id@),
            ..folded
        }));
        assert(spec_parse_outcome(rv0, meta_v, states, user_id@) == Ok::<
            ParsedView,
            ReceptionistError,
        >(parsed@));
        if meta_v.response is None {
            assert(rv0 == default_response_view(rv0.id));
        }
    }
    Ok(parsed)
}

/// A validation failure handed back to the caller matches the findings, one
/// addressed pair per finding, in order.
pub open spec fn errors_action_matches(
    a: SlackResponseAction,
    errs: Seq<crate::errors::ValidationErrorView>,
) -> bool {
    match a {
        SlackResponseAction::Errors { errors: pairs } => {
            &&& pairs@.len() == errs.len()
            &&& forall|i: int|
                0 <= i < errs.len() ==> (#[trigger] pairs@[i]).0@ == errs[i].block_id
                    && pairs@[i].1@ == errs[i].error_message
        },
    }
}

/// What a final submission does to the store and reports back, given the
/// parse outcome from `rv0`.
pub open spec fn submission_outcome_matches(
    r: Result<Option<SlackResponseAction>, ReceptionistError>,
    rv0: ResponseView,
    meta: MetaView,
    states: Seq<(Seq<char>, StateView)>,
    user: Seq<char>,
    old_db: Seq<crate::database::TableItemView>,
    new_db: Seq<crate::database::TableItemView>,
) -> bool {
    match spec_parse_outcome(rv0, meta, states, user) {
        Err(e) => r == Err::<Option<SlackResponseAction>, ReceptionistError>(e) && new_db == old_db,
        Ok(p) => match meta.current_mode {
            ManagerViewMode::Home => r == Ok::<Option<SlackResponseAction>, ReceptionistError>(
                None,
            ) && new_db == old_db,
            ManagerViewMode::CreateResponse => {
                if p.response.all_errors().len() > 0 {
                    &&& new_db == old_db
                    &&& match r {
                        Ok(Some(a)) => errors_action_matches(a, p.response.all_errors()),
                        _ => false,
                    }
                } else if has_response_id(old_db, p.response.id) {
                    r == Err::<Option<SlackResponseAction>, ReceptionistError>(
                        ReceptionistError::Conflict,
                    ) && new_db == old_db
                } else {
                    r == Ok::<Option<SlackResponseAction>, ReceptionistError>(None) && new_db
                        == put_seq(old_db, spec_table_items(p.response))
                }
            },
            ManagerViewMode::EditResponse => {
                if p.response.all_errors().len() > 0 {
                    &&& new_db == old_db
                    &&& match r {
                        Ok(Some(a)) => errors_action_matches(a, p.response.all_errors()),
                        _ => false,
                    }
                } else {
                    r == Ok::<Option<SlackResponseAction>, ReceptionistError>(None) && new_db
                        == put_seq(old_db, spec_table_items(p.response))
                }
            },
            ManagerViewMode::DeleteResponse => {
                r == Ok::<Option<SlackResponseAction>, ReceptionistError>(None) && new_db
                    == remove_seq(old_db, keys_of_items(spec_table_items(p.response)))
            },
        },
    }
}

/// Handles a final form submission: resolve the submitted values against the
/// session, validate, and only then create, update or delete. A validation
/// failure reports every finding at once and persists nothing.
pub fn process_submission_event(
    private_metadata: &MetaForManagerView,
    block_id_map: &Vec<(String, ViewBlockStateType)>,
    user_id: &str,
    db: &mut ReceptionistDatabase,
) -> (r: Result<Option<SlackResponseAction>, ReceptionistError>)
    requires
        old(db).wf(),
    ensures
        final(db).wf(),
        match private_metadata@.response {
            Some(rv0) => submission_outcome_matches(
                r,
                rv0,
                private_metadata@,
                views_of_states(block_id_map@),
                user_id@,
                old(db)@,
                final(db)@,
            ),
            None => exists|id: Seq<char>|
                id.len() == 21 && submission_outcome_matches(
                    r,
                    #[trigger] default_response_view(id),
                    private_metadata@,
                    views_of_states(block_id_map@),
                    user_id@,
                    old(db)@,
                    final(db)@,
                ),
        },
{
    let ghost meta_v = private_metadata@;
    let mode = private_metadata.current_mode;
    let parsed = match parse_manager_block_states(block_id_map, private_metadata, user_id) {
        Err(e) => {
            return Err(e);
        },
        Ok(p) => p,
    };
    match mode {
        ManagerViewMode::Home => Ok(None),
        ManagerViewMode::CreateResponse => {
            match parsed.response.validate() {
                Some(validation_errors) => Ok(
                    Some(SlackResponseAction::from_validation_errors(validation_errors)),
                ),
                None => {
                    match db.create_response(&parsed.response) {
                        Ok(()) => Ok(None),
                        Err(e) => Err(e),
                    }
                },
            }
        },
        ManagerViewMode::EditResponse => {
            match parsed.response.validate() {
                Some(validation_errors) => Ok(
                    Some(SlackResponseAction::from_validation_errors(validation_errors)),
                ),
                None => {
                    match db.update_response(&parsed.response) {
                        Ok(()) => Ok(None),
                        Err(e) => Err(e),
                    }
                },
            }
        },
        ManagerViewMode::DeleteResponse => {
            match db.delete_response(&parsed.response) {
                Ok(()) => Ok(None),
                Err(e) => Err(e),
            }
        },
    }
}

} // verus!

verus! {

/// Handles one pre-submission field-change event: the identifier is routed,
/// the session's working rule is updated, and the refreshed session is handed
/// back for re-rendering. Field kinds that need no re-render leave the
/// session as it is.
pub fn process_action_event(
    private_metadata: &MetaForManagerView,
    db: &ReceptionistDatabase,
    action_id: &str,
    selected_value: &str,
) -> (r: Result<MetaForManagerView, ReceptionistError>)
    ensures
        match BlockSectionRouter::spec_find_route(action_id@) {
            None => r == Err::<MetaForManagerView, ReceptionistError>(
                ReceptionistError::RouteNotFound,
            ),
            Some(route) => match route {
                BlockSectionRouter::ManagerModeSelection => match ManagerViewMode::spec_from_str(
                    selected_value@,
                ) {
                    Some(m) => (match r {
                        Ok(m2) => m2@ == (MetaView {
                            current_mode: m,
                            user_id: private_metadata@.user_id,
                            existing_response_id: None,
                            response: None,
                        }),
                        Err(_) => false,
                    }),
                    None => r == Err::<MetaForManagerView, ReceptionistError>(
                        ReceptionistError::UnknownKind,
                    ),
                },
                BlockSectionRouter::ResponseSelection => {
                    let found = rules_with_id(db@, selected_value@);
                    if found.len() == 1 {
                        match r {
                            Ok(m2) => m2@ == (MetaView {
                                response: Some(found[0]),
                                ..private_metadata@
                            }),
                            Err(_) => false,
                        }
                    } else if found.len() == 0 {
                        r == Err::<MetaForManagerView, ReceptionistError>(
                            ReceptionistError::NotFound,
                        )
                    } else {
                        r == Err::<MetaForManagerView, ReceptionistError>(
                            ReceptionistError::InconsistentState,
                        )
                    }
                },
                BlockSectionRouter::ConditionTypeSelected => match private_metadata@.response {
                    None => r == Err::<MetaForManagerView, ReceptionistError>(
                        ReceptionistError::NotFound,
                    ),
                    Some(rv) => match crate::router::spec_index_ok(action_id@) {
                        None => r == Err::<MetaForManagerView, ReceptionistError>(
                            ReceptionistError::IndexError,
                        ),
                        Some(i) => match spec_upd_condition_type(rv, selected_value@, i) {
                            Ok(rv2) => (match r {
                                Ok(m2) => m2@ == (MetaView {
                                    response: Some(rv2),
                                    ..private_metadata@
                                }),
                                Err(_) => false,
                            }),
                            Err(e) => r == Err::<MetaForManagerView, ReceptionistError>(e),
                        },
                    },
                },
                BlockSectionRouter::ActionTypeSelected => match private_metadata@.response {
                    None => r == Err::<MetaForManagerView, ReceptionistError>(
                        ReceptionistError::NotFound,
                    ),
                    Some(rv) => match crate::router::spec_index_ok(action_id@) {
                        None => r == Err::<MetaForManagerView, ReceptionistError>(
                            ReceptionistError::IndexError,
                        ),
                        Some(i) => match spec_upd_action_type(rv, selected_value@, i) {
                            Ok(rv2) => (match r {
                                Ok(m2) => m2@ == (MetaView {
                                    response: Some(rv2),
                                    ..private_metadata@
                                }),
                                Err(_) => false,
                            }),
                            Err(e) => r == Err::<MetaForManagerView, ReceptionistError>(e),
                        },
                    },
                },
                _ => (match r {
                    Ok(m2) => m2@ == private_metadata@,
                    Err(_) => false,
                }),
            },
        },
{
    let route = match BlockSectionRouter::find_route(action_id) {
        None => {
            return Err(ReceptionistError::RouteNotFound);
        },
        Some(route) => route,
    };
    match route {
        BlockSectionRouter::ManagerModeSelection => crate::token::select_mode(
            selected_value,
            private_metadata,
        ),
        BlockSectionRouter::ResponseSelection => {
            match db.get_response_by_id(selected_value) {
                Ok(resp) => {
                    let mut m = private_metadata.clone();
                    m.response = Some(resp);
                    Ok(m)
                },
                Err(e) => Err(e),
            }
        },
        BlockSectionRouter::ConditionTypeSelected => {
            let index_result = BlockSectionRouter::get_index_from_action_id_str(action_id);
            proof {
                crate::router::lemma_index_result_to_spec(action_id@, index_result);
            }
            match &private_metadata.response {
                None => Err(ReceptionistError::NotFound),
                Some(resp) => {
                    let i = match index_result {
                        Err(e) => {
                            return Err(e);
                        },
                        Ok(i) => i,
                    };
                    let mut resp2 = resp.clone();
                    match resp2.update_condition_type(selected_value, i) {
                        Ok(()) => {
                            let mut m = private_metadata.clone();
                            m.response = Some(resp2);
                            Ok(m)
                        },
                        Err(e) => Err(e),
                    }
                },
            }
        },
        BlockSectionRouter::ActionTypeSelected => {
            let index_result = BlockSectionRouter::get_index_from_action_id_str(action_id);
            proof {
                crate::router::lemma_index_result_to_spec(action_id@, index_result);
            }
            match &private_metadata.response {
                None => Err(ReceptionistError::NotFound),
                Some(resp) => {
                    let i = match index_result {
                        Err(e) => {
                            return Err(e);
                        },
                        Ok(i) => i,
                    };
                    let mut resp2 = resp.clone();
                    match resp2.update_action_type(selected_value, i) {
                        Ok(()) => {
                            let mut m = private_metadata.clone();
                            m.response = Some(resp2);
                            Ok(m)
                        },
                        Err(e) => Err(e),
                    }
                },
            }
        },
        _ => Ok(private_metadata.clone()),
    }
}

} // verus!
