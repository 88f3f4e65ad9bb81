use receptionist::actions::Action;
use receptionist::conditions::Condition;
use receptionist::errors::ReceptionistError;
use receptionist::listeners::ListenerEvent;
use receptionist::response::ReceptionistResponse;

fn valid_rule() -> ReceptionistResponse {
    ReceptionistResponse::new(
        vec!["U1".to_string()],
        ListenerEvent::SlackChannelMessage { channel_id: "C1".to_string() },
        vec![Action::AttachEmoji("tada".to_string())],
        vec![Condition::MatchPhrase("hello".to_string())],
    )
}

#[test]
fn changing_condition_kind_preserves_free_text() {
    let mut c = Condition::MatchPhrase("x".to_string());
    c.change_selection("match-regex").unwrap();
    assert_eq!(c, Condition::MatchRegex("x".to_string()));
    c.change_selection("match-phrase").unwrap();
    assert_eq!(c, Condition::MatchPhrase("x".to_string()));
}

#[test]
fn changing_condition_kind_rejects_unknown_names() {
    let mut c = Condition::MatchPhrase("x".to_string());
    assert_eq!(c.change_selection("match-anything"), Err(ReceptionistError::UnknownKind));
    assert_eq!(c, Condition::MatchPhrase("x".to_string()));
}

#[test]
fn changing_action_kind_carries_message_text() {
    let mut a = Action::AttachEmoji("hello there".to_string());
    a.change_selection("threaded-message").unwrap();
    assert_eq!(a, Action::ThreadedMessage("hello there".to_string()));
    // a field with no counterpart in the new kind starts empty
    a.change_selection("msg-oncall-in-thread").unwrap();
    assert_eq!(
        a,
        Action::MsgOncallInThread {
            escalation_policy_id: "".to_string(),
            message: "hello there".to_string(),
        }
    );
    // the message body maps to the other variant's message body
    a.change_selection("forward-message-to-channel").unwrap();
    assert_eq!(
        a,
        Action::ForwardMessageToChannel {
            channel: "".to_string(),
            msg_context: "hello there".to_string(),
        }
    );
}

#[test]
fn changing_action_kind_to_same_kind_is_a_no_op() {
    let mut a = Action::MsgOncallInThread {
        escalation_policy_id: "P1".to_string(),
        message: "m".to_string(),
    };
    a.change_selection("msg-oncall-in-thread").unwrap();
    assert_eq!(
        a,
        Action::MsgOncallInThread { escalation_policy_id: "P1".to_string(), message: "m".to_string() }
    );
}

#[test]
fn update_string_keeps_the_variant() {
    let mut c = Condition::MatchRegex("old".to_string());
    c.update_string("new".to_string());
    assert_eq!(c, Condition::MatchRegex("new".to_string()));
}

#[test]
fn empty_regex_pattern_yields_exactly_one_error_at_its_index() {
    let rule = ReceptionistResponse::new(
        vec!["U1".to_string()],
        ListenerEvent::SlackChannelMessage { channel_id: "C1".to_string() },
        vec![Action::AttachEmoji("tada".to_string())],
        vec![
            Condition::MatchPhrase("fine".to_string()),
            Condition::MatchRegex("".to_string()),
        ],
    );
    let errors = rule.validate().unwrap();
    assert_eq!(errors.len(), 1);
    assert_eq!(errors[0].block_id, "BLOCK-message-condition-value-input_IDX_1".to_string());
    assert_eq!(errors[0].error_message, "input field is empty".to_string());
}

#[test]
fn non_compiling_regex_pattern_is_a_validation_error() {
    let rule = ReceptionistResponse::new(
        vec!["U1".to_string()],
        ListenerEvent::SlackChannelMessage { channel_id: "C1".to_string() },
        vec![Action::AttachEmoji("tada".to_string())],
        vec![Condition::MatchRegex("(unclosed".to_string())],
    );
    let errors = rule.validate().unwrap();
    assert_eq!(errors.len(), 1);
    assert_eq!(errors[0].block_id, "BLOCK-message-condition-value-input_IDX_0".to_string());
    assert_eq!(errors[0].error_message, "invalid regex pattern".to_string());
}

#[test]
fn validation_collects_all_findings_at_once() {
    let rule = ReceptionistResponse::new(
        vec!["U1".to_string()],
        ListenerEvent::SlackChannelMessage { channel_id: "".to_string() },
        vec![Action::AttachEmoji("".to_string())],
        vec![Condition::MatchPhrase("".to_string())],
    );
    let errors = rule.validate().unwrap();
    assert_eq!(errors.len(), 3);
    assert_eq!(errors[0].block_id, "BLOCK-listener-channel-selected_IDX_0".to_string());
    assert_eq!(errors[1].block_id, "BLOCK-message-condition-value-input_IDX_0".to_string());
    assert_eq!(errors[2].block_id, "BLOCK-attach-emoji-input_IDX_0".to_string());
}

#[test]
fn oncall_action_errors_address_the_missing_field() {
    let rule = ReceptionistResponse::new(
        vec!["U1".to_string()],
        ListenerEvent::SlackChannelMessage { channel_id: "C1".to_string() },
        vec![Action::MsgOncallInThread {
            escalation_policy_id: "".to_string(),
            message: "tagging".to_string(),
        }],
        vec![Condition::MatchPhrase("page".to_string())],
    );
    let errors = rule.validate().unwrap();
    assert_eq!(errors.len(), 1);
    assert_eq!(errors[0].block_id, "BLOCK-pd-escalation-policy-input_IDX_0".to_string());
    assert_eq!(errors[0].error_message, "no escalation policy provided".to_string());
}

#[test]
fn a_valid_rule_has_no_findings() {
    assert!(valid_rule().validate().is_none());
}

#[test]
fn default_rule_shape() {
    let rule = ReceptionistResponse::default();
    assert_eq!(rule.id.len(), 21);
    assert_eq!(rule.listener, ListenerEvent::SlackChannelMessage { channel_id: "".to_string() });
    assert_eq!(rule.conditions, vec![Condition::MatchPhrase("".to_string())]);
    assert_eq!(rule.actions, vec![Action::AttachEmoji("".to_string())]);
    assert!(rule.collaborators.is_empty());
}

#[test]
fn rule_ids_are_fresh_per_rule() {
    let a = ReceptionistResponse::default();
    let b = ReceptionistResponse::default();
    assert_eq!(a.id.len(), 21);
    assert_ne!(a.id, b.id);
}

#[test]
fn indexed_updates_reject_out_of_range_positions() {
    let mut rule = valid_rule();
    assert_eq!(
        rule.update_condition_type("match-regex", 5),
        Err(ReceptionistError::IndexError)
    );
    assert_eq!(rule.update_action_type("channel-message", 1), Err(ReceptionistError::IndexError));
    assert_eq!(
        rule.update_message_condition_string("x".to_string(), 9),
        Err(ReceptionistError::IndexError)
    );
}

#[test]
fn indexed_updates_hit_the_named_position() {
    let mut rule = valid_rule();
    rule.update_condition_type("match-regex", 0).unwrap();
    assert_eq!(rule.conditions[0], Condition::MatchRegex("hello".to_string()));
    rule.update_message_condition_string("h.*o".to_string(), 0).unwrap();
    assert_eq!(rule.conditions[0], Condition::MatchRegex("h.*o".to_string()));
    rule.update_action_type("channel-message", 0).unwrap();
    assert_eq!(rule.actions[0], Action::ChannelMessage("tada".to_string()));
}

#[test]
fn payload_updates_check_the_action_kind() {
    let mut rule = valid_rule();
    assert_eq!(
        rule.update_threaded_message("hi".to_string(), 0),
        Err(ReceptionistError::ActionKindMismatch)
    );
    rule.update_attach_emoji("wave".to_string(), 0).unwrap();
    assert_eq!(rule.actions[0], Action::AttachEmoji("wave".to_string()));
}

#[test]
fn editing_user_always_becomes_collaborator() {
    let mut rule = valid_rule();
    rule.add_collaborator_if_absent("U2");
    assert_eq!(rule.collaborators, vec!["U1".to_string(), "U2".to_string()]);
    // already present: insertion order is preserved, nothing is added twice
    rule.add_collaborator_if_absent("U1");
    assert_eq!(rule.collaborators, vec!["U1".to_string(), "U2".to_string()]);
}

#[test]
fn descriptions_and_kind_names() {
    assert_eq!(Condition::MatchPhrase("".to_string()).to_description(), "Phrase Match");
    assert_eq!(Condition::MatchRegex("".to_string()).to_description(), "Regex Match");
    assert_eq!(
        Action::ForwardMessageToChannel { channel: "".to_string(), msg_context: "".to_string() }
            .to_description(),
        "Forward detected message to a different channel"
    );
    assert_eq!(Action::AttachEmoji("".to_string()).kind().kind_str(), "attach-emoji");
    assert_eq!(Condition::MatchRegex("".to_string()).kind().kind_str(), "match-regex");
}
