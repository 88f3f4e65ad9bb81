use receptionist::actions::Action;
use receptionist::conditions::Condition;
use receptionist::events::{actions_to_fire, actions_to_fire_checked, should_process_message};
use receptionist::listeners::ListenerEvent;
use receptionist::response::ReceptionistResponse;

fn rule_with(conditions: Vec<Condition>, actions: Vec<Action>) -> ReceptionistResponse {
    ReceptionistResponse::new(
        vec!["U1".to_string()],
        ListenerEvent::SlackChannelMessage { channel_id: "C1".to_string() },
        actions,
        conditions,
    )
}

#[test]
fn phrase_match_is_word_bounded() {
    let c = Condition::MatchPhrase("cat".to_string());
    assert!(c.should_trigger("the cat sat"));
    assert!(!c.should_trigger("category"));
    assert!(!c.should_trigger("concat"));
    assert!(c.should_trigger("cat"));
    assert!(c.should_trigger("a cat, yes"));
    assert!(!c.should_trigger("cats"));
}

#[test]
fn phrase_match_multi_word() {
    let c = Condition::MatchPhrase("on call".to_string());
    assert!(c.should_trigger("who is on call today"));
    assert!(!c.should_trigger("who is on callback"));
}

#[test]
fn evaluate_is_or_across_conditions() {
    let rule = rule_with(
        vec![
            Condition::MatchPhrase("alpha".to_string()),
            Condition::MatchPhrase("beta".to_string()),
        ],
        vec![Action::AttachEmoji("tada".to_string())],
    );
    // one condition matching is enough; it need not be the first
    assert!(rule.check_for_any_match("only beta here"));
    assert!(rule.check_for_any_match("alpha only"));
    assert!(rule.check_for_any_match("alpha and beta"));
    // no condition matching means no match: never a conjunction
    assert!(!rule.check_for_any_match("gamma"));
}

#[test]
fn rule_with_no_conditions_never_matches() {
    let rule = rule_with(vec![], vec![Action::AttachEmoji("tada".to_string())]);
    assert!(!rule.check_for_any_match("anything at all"));
    assert!(!rule.check_for_any_match(""));
}

#[test]
fn regex_condition_matches_anywhere() {
    let c = Condition::MatchRegex("ca+t".to_string());
    assert_eq!(c.should_trigger_checked("scaaats"), Some(true));
    assert_eq!(c.should_trigger_checked("cot"), Some(false));
    // an unanchored pattern also matches inside longer words
    assert_eq!(c.should_trigger_checked("concatenate"), Some(true));
}

#[test]
fn invalid_regex_is_reported_not_evaluated() {
    let c = Condition::MatchRegex("(unclosed".to_string());
    assert_eq!(c.should_trigger_checked("anything"), None);
    assert!(!c.is_valid());
    assert!(!c.is_match_ready());
}

#[test]
fn matching_rule_fires_all_its_actions() {
    let hit = rule_with(
        vec![Condition::MatchPhrase("rust".to_string())],
        vec![
            Action::AttachEmoji("thumbsup".to_string()),
            Action::ThreadedMessage("nice".to_string()),
        ],
    );
    let miss = rule_with(
        vec![Condition::MatchPhrase("java".to_string())],
        vec![Action::ChannelMessage("other".to_string())],
    );
    let responses = vec![hit, miss];
    let fired = actions_to_fire(&responses, "I like rust a lot");
    assert_eq!(
        fired,
        vec![
            Action::AttachEmoji("thumbsup".to_string()),
            Action::ThreadedMessage("nice".to_string()),
        ]
    );
    let none = actions_to_fire(&responses, "plain message");
    assert!(none.is_empty());
}

#[test]
fn checked_firing_rejects_bad_patterns() {
    let bad = rule_with(
        vec![Condition::MatchRegex("(".to_string())],
        vec![Action::AttachEmoji("x".to_string())],
    );
    assert_eq!(actions_to_fire_checked(&vec![bad], "msg"), None);
    let good = rule_with(
        vec![Condition::MatchRegex("^hi".to_string())],
        vec![Action::AttachEmoji("wave".to_string())],
    );
    let fired = actions_to_fire_checked(&vec![good], "hi there").unwrap();
    assert_eq!(fired, vec![Action::AttachEmoji("wave".to_string())]);
}

#[test]
fn bot_hidden_and_threaded_messages_are_skipped() {
    assert!(should_process_message(false, false, false));
    assert!(!should_process_message(true, false, false));
    assert!(!should_process_message(false, true, false));
    assert!(!should_process_message(false, false, true));
}
