use receptionist::pagerduty::{OncallInstance, OncallList, User};
use receptionist::strutil::{parse_dec_str, usize_to_dec_string};
use receptionist::utils::{
    add_emoji_colons,
    format_forwarded_message,
    get_sender,
    remove_emoji_colons,
    render_channel_id,
    render_url_with_text,
    render_user_id,
};

#[test]
fn test_remove_emoji_colons() {
    assert_eq!("rust", remove_emoji_colons(":rust:"));
    assert_eq!("rust", remove_emoji_colons("rust"))
}

#[test]
fn test_add_emoji_colons() {
    assert_eq!(":rust:", add_emoji_colons(":rust:"));
    assert_eq!(":rust:", add_emoji_colons(":rust"));
    assert_eq!(":rust:", add_emoji_colons("rust:"));
    assert_eq!(":rust:", add_emoji_colons("rust"));
}

#[test]
fn chat_markup_rendering() {
    assert_eq!(render_channel_id("C1"), "<#C1>".to_string());
    assert_eq!(render_user_id("U1"), "<@U1>".to_string());
    assert_eq!(
        render_url_with_text("this message", "https://chat.example/p/1"),
        "<https://chat.example/p/1|this message>".to_string()
    );
}

#[test]
fn forwarded_message_text() {
    let text = format_forwarded_message("C9", "U1", "https://chat.example/p/1", "looks urgent");
    assert_eq!(
        text,
        "<@U1> just sent <https://chat.example/p/1|this message> to <#C9>. \n _Context_: looks urgent"
            .to_string()
    );
}

#[test]
fn sender_precedence() {
    let user = Some("U1".to_string());
    let bot = Some("B1".to_string());
    let name = Some("pat".to_string());
    assert_eq!(get_sender(&user, &bot, &name), "U1".to_string());
    assert_eq!(get_sender(&None, &bot, &name), "B1".to_string());
    assert_eq!(get_sender(&None, &None, &name), "pat".to_string());
    assert_eq!(get_sender(&None, &None, &None), "unknown user".to_string());
}

fn oncall(id: &str, level: u8) -> OncallInstance {
    OncallInstance {
        user: User {
            name: id.to_string(),
            email: format!("{id}@example.com"),
            id: id.to_string(),
            user_type: "user".to_string(),
        },
        escalation_level: level,
    }
}

#[test]
fn escalation_consumes_the_first_lowest_level_entry() {
    let list = OncallList {
        oncalls: vec![oncall("first-l2", 2), oncall("first-l1", 1), oncall("second-l1", 1)],
    };
    let chosen = list.first_oncall().unwrap();
    assert_eq!(chosen.user.id, "first-l1".to_string());
    assert_eq!(chosen.escalation_level, 1);

    let empty = OncallList { oncalls: vec![] };
    assert!(empty.first_oncall().is_none());
}

#[test]
fn decimal_codec() {
    assert_eq!(usize_to_dec_string(0), "0".to_string());
    assert_eq!(usize_to_dec_string(12345), "12345".to_string());
    assert_eq!(parse_dec_str("12345"), Some(12345));
    assert_eq!(parse_dec_str("0042"), Some(42));
    assert_eq!(parse_dec_str(""), None);
    assert_eq!(parse_dec_str("9x"), None);
    assert_eq!(parse_dec_str("999999999999999999999999999999"), None);
}
