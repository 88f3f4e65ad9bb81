use receptionist::actions::Action;
use receptionist::conditions::Condition;
use receptionist::database::ReceptionistDatabase;
use receptionist::errors::{ReceptionistError, SlackResponseAction};
use receptionist::listeners::ListenerEvent;
use receptionist::response::{mock_receptionist_response, ReceptionistResponse};
use receptionist::router::BlockSectionRouter;
use receptionist::state_machine::ResponseEditorStates;
use receptionist::state_values::{
    StaticSelectSelectedOptionValueState,
    ViewBlockStateType,
};
use receptionist::submission::{
    parse_manager_block_states,
    process_action_event,
    process_submission_event,
};
use receptionist::token::{select_mode, ManagerViewMode, MetaForManagerView};

fn channel(id: &str) -> ListenerEvent {
    ListenerEvent::SlackChannelMessage { channel_id: id.to_string() }
}

fn static_select(value: &str) -> ViewBlockStateType {
    ViewBlockStateType::StaticSelect {
        selected_option: StaticSelectSelectedOptionValueState { value: value.to_string() },
    }
}

fn text_input(value: &str) -> ViewBlockStateType {
    ViewBlockStateType::PlainTextInput { value: value.to_string() }
}

fn conversation(value: &str) -> ViewBlockStateType {
    ViewBlockStateType::ConversationsSelect { selected_conversation: Some(value.to_string()) }
}

#[test]
fn test_serde_enums() {
    let action_with_enum = mock_receptionist_response();

    let meta = MetaForManagerView {
        current_mode: ManagerViewMode::EditResponse,
        user_id: "U1".to_string(),
        existing_response_id: Some(action_with_enum.id.clone()),
        response: Some(action_with_enum),
    };

    let as_string = meta.to_token();

    let deserialized = MetaForManagerView::from_token(&as_string);
    assert!(deserialized.is_some());
    let deserialized = deserialized.unwrap();

    assert_eq!(&meta, &deserialized);

    let back_to_string = deserialized.to_token();
    assert_eq!(back_to_string, as_string);
}

#[test]
fn token_round_trip_with_everything_absent() {
    let meta = MetaForManagerView::new(ManagerViewMode::Home, "".to_string());
    let token = meta.to_token();
    assert_eq!(MetaForManagerView::from_token(&token).unwrap(), meta);
}

#[test]
fn token_round_trip_survives_hostile_payloads() {
    // payloads that collide with the wire format: digits, colons, markers
    let rule = ReceptionistResponse::new(
        vec!["12:34".to_string(), "".to_string()],
        channel("1:"),
        vec![
            Action::MsgOncallInThread {
                escalation_policy_id: "0:p".to_string(),
                message: "o5:".to_string(),
            },
            Action::ForwardMessageToChannel {
                channel: ":".to_string(),
                msg_context: "10:ten".to_string(),
            },
        ],
        vec![
            Condition::MatchRegex("^\\d+:".to_string()),
            Condition::MatchPhrase("1p2r3".to_string()),
        ],
    );
    let meta = MetaForManagerView {
        current_mode: ManagerViewMode::CreateResponse,
        user_id: "7:u".to_string(),
        existing_response_id: None,
        response: Some(rule),
    };
    let token = meta.to_token();
    assert_eq!(MetaForManagerView::from_token(&token).unwrap(), meta);
}

#[test]
fn foreign_tokens_are_rejected() {
    assert!(MetaForManagerView::from_token("").is_none());
    assert!(MetaForManagerView::from_token("x").is_none());
    assert!(MetaForManagerView::from_token("h9:U100").is_none());
    assert!(MetaForManagerView::from_token("h2:U12").is_none());
    // a truncated token decodes to nothing rather than to a wrong session
    let meta = MetaForManagerView::new(ManagerViewMode::CreateResponse, "U1".to_string());
    let token = meta.to_token();
    let truncated: String = token.chars().take(token.chars().count() - 1).collect();
    assert!(MetaForManagerView::from_token(&truncated).is_none());
    // trailing garbage is rejected too
    let mut extended = token.clone();
    extended.push('!');
    assert!(MetaForManagerView::from_token(&extended).is_none());
}

#[test]
fn action_ids_carry_their_index() {
    let id = BlockSectionRouter::ConditionTypeSelected.to_action_id(Some(2));
    assert_eq!(id, "condition-type-selected_IDX_2".to_string());
    assert_eq!(
        BlockSectionRouter::find_route(&id),
        Some(BlockSectionRouter::ConditionTypeSelected)
    );
    assert_eq!(BlockSectionRouter::get_index_from_action_id_str(&id), Ok(2));

    let (route, index) = BlockSectionRouter::from_string_with_index(&id).unwrap();
    assert_eq!(route, BlockSectionRouter::ConditionTypeSelected);
    assert_eq!(index, Ok(2));

    assert_eq!(
        BlockSectionRouter::AttachEmojiInput.to_block_id(None),
        "BLOCK-attach-emoji-input_IDX_0".to_string()
    );
}

#[test]
fn prefix_lookup_succeeds_without_an_index() {
    // a single-instance field routes on the bare prefix
    assert_eq!(
        BlockSectionRouter::find_route("manager-mode-selection"),
        Some(BlockSectionRouter::ManagerModeSelection)
    );
    // but an identifier without the delimiter has no index
    assert_eq!(
        BlockSectionRouter::get_index_from_action_id_str("manager-mode-selection"),
        Err(ReceptionistError::IndexError)
    );
    assert_eq!(BlockSectionRouter::find_route("no-such-route_IDX_0"), None);
}

#[test]
fn submitting_an_empty_phrase_persists_nothing_and_reports_the_field() {
    let mut db = ReceptionistDatabase::new();
    let meta = MetaForManagerView::new(ManagerViewMode::CreateResponse, "U9".to_string());
    // the user picked a channel and an emoji but left the phrase field empty
    let block_id_map = vec![
        ("listener-channel-selected_IDX_0".to_string(), conversation("C1")),
        ("attach-emoji-input_IDX_0".to_string(), text_input("wave")),
        ("message-condition-value-input_IDX_0".to_string(), text_input("")),
    ];

    let outcome = process_submission_event(&meta, &block_id_map, "U9", &mut db).unwrap();
    let action = outcome.unwrap();
    let SlackResponseAction::Errors { errors } = action;
    assert_eq!(
        errors,
        vec![(
            "BLOCK-message-condition-value-input_IDX_0".to_string(),
            "input field is empty".to_string(),
        )]
    );
    // zero persistence calls: the store still holds nothing
    assert!(db.get_responses_for_listener(&channel("C1")).unwrap().is_empty());
    assert!(db.get_responses_for_collaborator("U9").unwrap().is_empty());
}

#[test]
fn submitting_a_complete_form_creates_the_rule() {
    let mut db = ReceptionistDatabase::new();
    let meta = MetaForManagerView::new(ManagerViewMode::CreateResponse, "U9".to_string());
    let block_id_map = vec![
        ("listener-channel-selected_IDX_0".to_string(), conversation("C1")),
        ("message-condition-value-input_IDX_0".to_string(), text_input("help")),
        ("attach-emoji-input_IDX_0".to_string(), text_input("wave")),
    ];

    let outcome = process_submission_event(&meta, &block_id_map, "U9", &mut db).unwrap();
    assert!(outcome.is_none());

    let stored = db.get_responses_for_listener(&channel("C1")).unwrap();
    assert_eq!(stored.len(), 1);
    assert_eq!(stored[0].conditions, vec![Condition::MatchPhrase("help".to_string())]);
    assert_eq!(stored[0].actions, vec![Action::AttachEmoji("wave".to_string())]);
    // the acting user became a collaborator on submission
    assert_eq!(stored[0].collaborators, vec!["U9".to_string()]);
    assert_eq!(db.get_responses_for_collaborator("U9").unwrap(), stored);
}

#[test]
fn submitting_a_delete_removes_the_selected_rule() {
    let mut db = ReceptionistDatabase::new();
    let rule = ReceptionistResponse::new(
        vec!["U9".to_string()],
        channel("C1"),
        vec![Action::AttachEmoji("tada".to_string())],
        vec![Condition::MatchPhrase("bye".to_string())],
    );
    db.create_response(&rule).unwrap();

    let meta = MetaForManagerView {
        current_mode: ManagerViewMode::DeleteResponse,
        user_id: "U9".to_string(),
        existing_response_id: Some(rule.id.clone()),
        response: Some(rule.clone()),
    };
    let outcome = process_submission_event(&meta, &vec![], "U9", &mut db).unwrap();
    assert!(outcome.is_none());
    assert!(db.get_responses_for_listener(&channel("C1")).unwrap().is_empty());
}

#[test]
fn home_submissions_do_nothing() {
    let mut db = ReceptionistDatabase::new();
    let meta = MetaForManagerView::new(ManagerViewMode::Home, "U9".to_string());
    let outcome = process_submission_event(&meta, &vec![], "U9", &mut db).unwrap();
    assert!(outcome.is_none());
}

#[test]
fn unknown_field_identifiers_are_a_hard_error() {
    let mut db = ReceptionistDatabase::new();
    let meta = MetaForManagerView::new(ManagerViewMode::CreateResponse, "U9".to_string());
    let block_id_map = vec![("mystery-field_IDX_0".to_string(), text_input("x"))];
    assert_eq!(
        process_submission_event(&meta, &block_id_map, "U9", &mut db),
        Err(ReceptionistError::RouteNotFound)
    );
}

#[test]
fn parse_resolves_fields_against_the_working_rule() {
    let rule = ReceptionistResponse::new(
        vec![],
        channel("C1"),
        vec![Action::AttachEmoji("old".to_string())],
        vec![Condition::MatchPhrase("old".to_string())],
    );
    let meta = MetaForManagerView {
        current_mode: ManagerViewMode::EditResponse,
        user_id: "U2".to_string(),
        existing_response_id: Some(rule.id.clone()),
        response: Some(rule.clone()),
    };
    let block_id_map = vec![
        ("condition-type-selected_IDX_0".to_string(), static_select("match-regex")),
        ("attach-emoji-input_IDX_0".to_string(), text_input("new")),
    ];
    let parsed = parse_manager_block_states(&block_id_map, &meta, "U2").unwrap();
    // the kind switch kept the typed payload
    assert_eq!(parsed.response.conditions, vec![Condition::MatchRegex("old".to_string())]);
    assert_eq!(parsed.response.actions, vec![Action::AttachEmoji("new".to_string())]);
    assert_eq!(parsed.response.id, rule.id);
    assert_eq!(parsed.response.collaborators, vec!["U2".to_string()]);
}

#[test]
fn action_events_route_to_the_right_mutator() {
    let db = ReceptionistDatabase::new();
    let rule = ReceptionistResponse::new(
        vec!["U1".to_string()],
        channel("C1"),
        vec![Action::AttachEmoji("tada".to_string())],
        vec![Condition::MatchPhrase("x".to_string())],
    );
    let meta = MetaForManagerView {
        current_mode: ManagerViewMode::CreateResponse,
        user_id: "U1".to_string(),
        existing_response_id: None,
        response: Some(rule),
    };

    let updated =
        process_action_event(&meta, &db, "condition-type-selected_IDX_0", "match-regex").unwrap();
    assert_eq!(
        updated.response.unwrap().conditions,
        vec![Condition::MatchRegex("x".to_string())]
    );

    let updated =
        process_action_event(&meta, &db, "action-type-selected_IDX_0", "threaded-message")
            .unwrap();
    assert_eq!(
        updated.response.unwrap().actions,
        vec![Action::ThreadedMessage("tada".to_string())]
    );

    assert_eq!(
        process_action_event(&meta, &db, "bogus", "x"),
        Err(ReceptionistError::RouteNotFound)
    );
}

#[test]
fn selecting_a_rule_loads_it_from_the_store() {
    let mut db = ReceptionistDatabase::new();
    let rule = ReceptionistResponse::new(
        vec!["U1".to_string()],
        channel("C1"),
        vec![Action::AttachEmoji("tada".to_string())],
        vec![Condition::MatchPhrase("x".to_string())],
    );
    db.create_response(&rule).unwrap();
    let meta = MetaForManagerView::new(ManagerViewMode::EditResponse, "U1".to_string());

    let loaded = process_action_event(&meta, &db, "response-selection_IDX_0", &rule.id).unwrap();
    assert_eq!(loaded.response, Some(rule));

    assert_eq!(
        process_action_event(&meta, &db, "response-selection_IDX_0", "missing-id"),
        Err(ReceptionistError::NotFound)
    );
}

#[test]
fn selecting_a_mode_discards_the_working_rule() {
    let meta = MetaForManagerView {
        current_mode: ManagerViewMode::EditResponse,
        user_id: "U5".to_string(),
        existing_response_id: Some("some-id".to_string()),
        response: Some(ReceptionistResponse::default()),
    };
    let fresh = select_mode("create-response", &meta).unwrap();
    assert_eq!(fresh.current_mode, ManagerViewMode::CreateResponse);
    assert_eq!(fresh.user_id, "U5".to_string());
    assert!(fresh.existing_response_id.is_none());
    assert!(fresh.response.is_none());
    assert_eq!(select_mode("no-such-mode", &meta), Err(ReceptionistError::UnknownKind));
}

#[test]
fn editor_flow_walks_to_submitted_and_stays() {
    let mut state = ResponseEditorStates::NoDataToEdit;
    let expected = [
        ResponseEditorStates::EditingListener,
        ResponseEditorStates::EditingConditions,
        ResponseEditorStates::EditingActions,
        ResponseEditorStates::EditingCollaborators,
        ResponseEditorStates::PreSubmitConfirmation,
        ResponseEditorStates::Submitted,
        ResponseEditorStates::Submitted,
    ];
    for want in expected {
        state = state.next_state();
        assert_eq!(state, want);
    }
    assert_eq!(state.reset(), ResponseEditorStates::NoDataToEdit);
}
