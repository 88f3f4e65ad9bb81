use receptionist::actions::Action;
use receptionist::blocks::{
    new_manager_view,
    response_selector_blocks,
    slack_plain_text_input_block_for_view,
    ChoiceItem,
    EditorBlock,
};
use receptionist::conditions::Condition;
use receptionist::database::ReceptionistDatabase;
use receptionist::errors::ReceptionistError;
use receptionist::listeners::ListenerEvent;
use receptionist::response::ReceptionistResponse;
use receptionist::router::BlockSectionRouter;
use receptionist::token::{ManagerViewMode, MetaForManagerView};

fn channel(id: &str) -> ListenerEvent {
    ListenerEvent::SlackChannelMessage { channel_id: id.to_string() }
}

#[test]
fn text_input_blocks_carry_identifier_and_prefill() {
    let blocks = slack_plain_text_input_block_for_view(
        BlockSectionRouter::AttachEmojiInput,
        Some(3),
        "tada".to_string(),
        "my-emoji",
        "Choose an emoji (can also trigger Slack Workflows)",
    );
    assert_eq!(
        blocks,
        vec![EditorBlock::TextInput {
            label: "Choose an emoji (can also trigger Slack Workflows)".to_string(),
            action_id: "attach-emoji-input_IDX_3".to_string(),
            placeholder: "my-emoji".to_string(),
            initial_value: Some("tada".to_string()),
            block_id: "BLOCK-attach-emoji-input_IDX_3".to_string(),
        }]
    );
    // an empty existing value leaves the input unprefilled
    let blocks = slack_plain_text_input_block_for_view(
        BlockSectionRouter::AttachEmojiInput,
        None,
        "".to_string(),
        "my-emoji",
        "label",
    );
    match &blocks[0] {
        EditorBlock::TextInput { initial_value, action_id, .. } => {
            assert!(initial_value.is_none());
            assert_eq!(action_id, "attach-emoji-input_IDX_0");
        }
        other => panic!("unexpected block: {other:?}"),
    }
}

#[test]
fn condition_editor_offers_both_kinds_and_marks_the_current_one() {
    let c = Condition::MatchRegex("a+".to_string());
    let blocks = c.to_editor_blocks(Some(1));
    // kind selector, value input, regex tip, divider
    assert_eq!(blocks.len(), 4);
    match &blocks[0] {
        EditorBlock::StaticSelectSection { options, initial, action_id, .. } => {
            assert_eq!(action_id, "condition-type-selected_IDX_1");
            assert_eq!(
                options,
                &vec![
                    ChoiceItem {
                        text: "Phrase Match".to_string(),
                        value: "match-phrase".to_string()
                    },
                    ChoiceItem {
                        text: "Regex Match".to_string(),
                        value: "match-regex".to_string()
                    },
                ]
            );
            assert_eq!(
                initial,
                &Some(ChoiceItem {
                    text: "Regex Match".to_string(),
                    value: "match-regex".to_string()
                })
            );
        }
        other => panic!("unexpected block: {other:?}"),
    }
    assert!(matches!(&blocks[1], EditorBlock::TextInput { .. }));
    assert!(matches!(&blocks[2], EditorBlock::Context { .. }));
    assert!(matches!(&blocks[3], EditorBlock::Divider));
}

#[test]
fn forward_action_editor_has_channel_select_and_context_input() {
    let a = Action::ForwardMessageToChannel {
        channel: "C5".to_string(),
        msg_context: "".to_string(),
    };
    let blocks = a.to_value_input_blocks(Some(0));
    assert_eq!(blocks.len(), 3);
    match &blocks[0] {
        EditorBlock::ConversationsSelectSection { initial_conversation, action_id, .. } => {
            assert_eq!(initial_conversation, &Some("C5".to_string()));
            assert_eq!(action_id, "fwd-msg-to-chan-channel-input_IDX_0");
        }
        other => panic!("unexpected block: {other:?}"),
    }
    match &blocks[2] {
        EditorBlock::TextInput { action_id, initial_value, .. } => {
            assert_eq!(action_id, "fwd-msg-to-chan-msg-context-input_IDX_0");
            assert!(initial_value.is_none());
        }
        other => panic!("unexpected block: {other:?}"),
    }
}

#[test]
fn rule_dropdown_line_summarizes_listener_and_actions() {
    let rule = ReceptionistResponse::new(
        vec!["U1".to_string()],
        channel("C1"),
        vec![
            Action::AttachEmoji("rust".to_string()),
            Action::MsgOncallInThread {
                escalation_policy_id: "P123".to_string(),
                message: "a very long message".to_string(),
            },
        ],
        vec![Condition::MatchPhrase("x".to_string())],
    );
    let choice = rule.to_response_choice_item();
    assert_eq!(choice.text, "#<#C1> | :rust:Tag Oncall: P123 - a very lon..".to_string());
    assert_eq!(choice.value, rule.id);
}

#[test]
fn selector_over_no_rules_is_a_plain_note() {
    let blocks = response_selector_blocks(&vec![]);
    assert_eq!(blocks.len(), 1);
    assert!(matches!(&blocks[0], EditorBlock::Text { .. }));
}

#[test]
fn manager_view_home_renders_mode_selector_and_token() {
    let db = ReceptionistDatabase::new();
    let meta = MetaForManagerView::new(ManagerViewMode::Home, "U1".to_string());
    let (blocks, token) = new_manager_view(&meta, &db).unwrap();
    assert_eq!(blocks.len(), 2);
    match &blocks[0] {
        EditorBlock::StaticSelectInput { options, action_id, .. } => {
            assert_eq!(options.len(), 4);
            assert_eq!(action_id, "manager-mode-selection_IDX_0");
        }
        other => panic!("unexpected block: {other:?}"),
    }
    // the session rides along as the token
    assert_eq!(MetaForManagerView::from_token(&token).unwrap(), meta);
}

#[test]
fn manager_view_edit_mode_loads_the_selected_rule() {
    let mut db = ReceptionistDatabase::new();
    let rule = ReceptionistResponse::new(
        vec!["U1".to_string()],
        channel("C1"),
        vec![Action::AttachEmoji("tada".to_string())],
        vec![Condition::MatchPhrase("x".to_string())],
    );
    db.create_response(&rule).unwrap();

    let meta = MetaForManagerView {
        current_mode: ManagerViewMode::EditResponse,
        user_id: "U1".to_string(),
        existing_response_id: Some(rule.id.clone()),
        response: None,
    };
    let (blocks, _token) = new_manager_view(&meta, &db).unwrap();
    // mode selector, rule selector, and the selected rule's editor follow
    assert!(blocks.len() > 4);

    let missing = MetaForManagerView {
        existing_response_id: Some("no-such-id".to_string()),
        ..meta
    };
    assert_eq!(new_manager_view(&missing, &db), Err(ReceptionistError::NotFound));
}
