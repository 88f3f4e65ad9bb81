use receptionist::actions::Action;
use receptionist::conditions::Condition;
use receptionist::database::{
    convert_response_to_table_items,
    listener_key,
    try_listener_from_key,
    ReceptionistDatabase,
    ReceptionistTableItem,
};
use receptionist::errors::ReceptionistError;
use receptionist::listeners::ListenerEvent;
use receptionist::response::{mock_receptionist_response, ReceptionistResponse};

fn channel(id: &str) -> ListenerEvent {
    ListenerEvent::SlackChannelMessage { channel_id: id.to_string() }
}

fn sample_rule() -> ReceptionistResponse {
    ReceptionistResponse::new(
        vec!["U1".to_string()],
        channel("C1"),
        vec![Action::AttachEmoji("thumbsup".to_string())],
        vec![Condition::MatchPhrase("rust".to_string())],
    )
}

#[test]
fn created_rule_is_found_by_listener_and_by_collaborator() {
    let mut db = ReceptionistDatabase::new();
    let rule = sample_rule();
    db.create_response(&rule).unwrap();

    let by_listener = db.get_responses_for_listener(&channel("C1")).unwrap();
    assert_eq!(by_listener, vec![rule.clone()]);

    let by_collaborator = db.get_responses_for_collaborator("U1").unwrap();
    assert_eq!(by_collaborator, vec![rule.clone()]);

    let by_id = db.get_response_by_id(&rule.id).unwrap();
    assert_eq!(by_id, rule);

    // other keys see nothing
    assert!(db.get_responses_for_listener(&channel("C2")).unwrap().is_empty());
    assert!(db.get_responses_for_collaborator("U2").unwrap().is_empty());
}

#[test]
fn deleted_rule_disappears_from_every_lookup() {
    let mut db = ReceptionistDatabase::new();
    let rule = sample_rule();
    db.create_response(&rule).unwrap();
    db.delete_response(&rule).unwrap();

    assert!(db.get_responses_for_listener(&channel("C1")).unwrap().is_empty());
    assert!(db.get_responses_for_collaborator("U1").unwrap().is_empty());
    assert_eq!(db.get_response_by_id(&rule.id), Err(ReceptionistError::NotFound));
}

#[test]
fn create_conflicts_on_an_existing_id() {
    let mut db = ReceptionistDatabase::new();
    let rule = sample_rule();
    db.create_response(&rule).unwrap();
    assert_eq!(db.create_response(&rule), Err(ReceptionistError::Conflict));
    // the store is untouched: still exactly one rule under the listener
    assert_eq!(db.get_responses_for_listener(&channel("C1")).unwrap().len(), 1);
}

#[test]
fn update_overwrites_the_full_record_set() {
    let mut db = ReceptionistDatabase::new();
    let mut rule = sample_rule();
    db.create_response(&rule).unwrap();

    rule.update_message_condition_string("tokio".to_string(), 0).unwrap();
    db.update_response(&rule).unwrap();

    let stored = db.get_response_by_id(&rule.id).unwrap();
    assert_eq!(stored.conditions, vec![Condition::MatchPhrase("tokio".to_string())]);
    assert_eq!(db.get_responses_for_listener(&channel("C1")).unwrap().len(), 1);
}

#[test]
fn update_under_a_new_listener_leaves_two_primary_records() {
    // the documented looseness: an update never prunes the old record set, so
    // moving a rule to another channel duplicates its id, and the id lookup
    // surfaces that loudly instead of silently picking one
    let mut db = ReceptionistDatabase::new();
    let mut rule = sample_rule();
    db.create_response(&rule).unwrap();

    rule.update_slack_channel("C2".to_string());
    db.update_response(&rule).unwrap();

    assert_eq!(db.get_response_by_id(&rule.id), Err(ReceptionistError::InconsistentState));
}

#[test]
fn update_does_not_prune_stale_collaborator_records() {
    let mut db = ReceptionistDatabase::new();
    let rule = sample_rule();
    db.create_response(&rule).unwrap();

    let mut edited = rule.clone();
    edited.collaborators = vec!["U2".to_string()];
    db.update_response(&edited).unwrap();

    // the replaced set serves the new collaborator, and the stale inverted
    // record still points the old collaborator at the rule
    assert_eq!(db.get_responses_for_collaborator("U2").unwrap(), vec![edited.clone()]);
    assert_eq!(db.get_responses_for_collaborator("U1").unwrap(), vec![edited]);
}

#[test]
fn collaborator_lookup_spans_listeners() {
    let mut db = ReceptionistDatabase::new();
    let first = sample_rule();
    let second = ReceptionistResponse::new(
        vec!["U1".to_string(), "U3".to_string()],
        channel("C7"),
        vec![Action::ChannelMessage("hello".to_string())],
        vec![Condition::MatchPhrase("deploy".to_string())],
    );
    db.create_response(&first).unwrap();
    db.create_response(&second).unwrap();

    let mine = db.get_responses_for_collaborator("U1").unwrap();
    assert_eq!(mine, vec![first, second.clone()]);
    assert_eq!(db.get_responses_for_collaborator("U3").unwrap(), vec![second]);
}

#[test]
fn test_build_table_items() {
    let test_resp = mock_receptionist_response();

    let _as_items = convert_response_to_table_items(test_resp).unwrap();
}

#[test]
fn table_items_hold_one_primary_and_one_record_per_collaborator() {
    let rule = ReceptionistResponse::new(
        vec!["U1".to_string(), "U2".to_string()],
        channel("C1"),
        vec![Action::AttachEmoji("tada".to_string())],
        vec![Condition::MatchPhrase("hi".to_string())],
    );
    let items = convert_response_to_table_items(rule.clone()).unwrap();
    assert_eq!(items.len(), 3);
    assert_eq!(
        items[0],
        ReceptionistTableItem::Response {
            pk: "slack-channel-message/C1".to_string(),
            sk: rule.id.clone(),
            response: rule.clone(),
        }
    );
    assert_eq!(
        items[1],
        ReceptionistTableItem::Collaborator {
            pk: "U1".to_string(),
            sk: rule.id.clone(),
            listener_pk: "slack-channel-message/C1".to_string(),
        }
    );
    assert_eq!(
        items[2],
        ReceptionistTableItem::Collaborator {
            pk: "U2".to_string(),
            sk: rule.id.clone(),
            listener_pk: "slack-channel-message/C1".to_string(),
        }
    );
}

#[test]
fn listener_key_encodes_and_decodes() {
    let l = channel("C42");
    let key = listener_key(&l);
    assert_eq!(key, "slack-channel-message/C42".to_string());
    assert_eq!(try_listener_from_key(&key).unwrap(), l);
    assert_eq!(try_listener_from_key("garbage"), Err(ReceptionistError::NotFound));
}
