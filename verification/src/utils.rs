//! Small text helpers around chat formatting: emoji names with and without
//! their colons, mention and link markup, and the forwarded-message text.

use vstd::prelude::*;
use vstd::string::*;
use crate::strutil::{chars_of, push_char, string_of};

verus! {

/// `s` with every colon removed.
pub open spec fn spec_remove_colons(s: Seq<char>) -> Seq<char>
    decreases s.len(),
{
    if s.len() == 0 {
        Seq::empty()
    } else {
        spec_remove_colons(s.drop_last()) + (if s.last() == ':' {
            Seq::<char>::empty()
        } else {
            seq![s.last()]
        })
    }
}

/// Strips colons from an emoji name: `:tada:` and `tada` both give `tada`.
pub fn remove_emoji_colons(emoji_name: &str) -> (r: String)
    ensures
        r@ == spec_remove_colons(emoji_name@),
{
    let v = chars_of(emoji_name);
    let mut out: Vec<char> = Vec::new();
    let mut i: usize = 0;
    while i < v.len()
        invariant
            i <= v@.len(),
            out@ == spec_remove_colons(v@.subrange(0, i as int)),
        decreases v@.len() - i,
    {
        let c = v[i];
        if c != ':' {
            out.push(c);
        }
        i = i + 1;
        proof {
            let prefix = v@.subrange(0, i as int);
            assert(prefix.drop_last() =~= v@.subrange(0, i as int - 1));
            assert(prefix.last() == v@[i as int - 1]);
            if c != ':' {
                assert(out@ =~= spec_remove_colons(prefix.drop_last()) + seq![prefix.last()]);
            }
        }
    }
    proof {
        assert(v@.subrange(0, v@.len() as int) =~= v@);
    }
    string_of(&out)
}

/// `s` wrapped in colons where it lacks them.
pub open spec fn spec_add_colons(s: Seq<char>) -> Seq<char> {
    if s.len() >= 2 && s[0] == ':' && s.last() == ':' {
        s
    } else if s.len() >= 1 && s[0] == ':' {
        s + seq![':']
    } else if s.len() >= 1 && s.last() == ':' {
        seq![':'] + s
    } else {
        seq![':'] + s + seq![':']
    }
}

/// Completes an emoji name's colons: `tada`, `:tada`, `tada:` and `:tada:`
/// all give `:tada:`.
pub fn add_emoji_colons(emoji_name: &str) -> (r: String)
    ensures
        r@ == spec_add_colons(emoji_name@),
{
    let n = emoji_name.unicode_len();
    let has_left = n >= 1 && emoji_name.get_char(0) == ':';
    let has_right = n >= 1 && emoji_name.get_char(n - 1) == ':';
    if n >= 2 && has_left && has_right {
        emoji_name.to_owned()
    } else if has_left {
        let mut s = emoji_name.to_owned();
        push_char(&mut s, ':');
        proof {
            assert(s@ =~= emoji_name@ + seq![':']);
        }
        s
    } else if has_right {
        let mut s: String = String::new();
        push_char(&mut s, ':');
        s.append(emoji_name);
        proof {
            assert(s@ =~= seq![':'] + emoji_name@);
        }
        s
    } else {
        let mut s: String = String::new();
        push_char(&mut s, ':');
        s.append(emoji_name);
        push_char(&mut s, ':');
        proof {
            assert(s@ =~= seq![':'] + emoji_name@ + seq![':']);
        }
        s
    }
}

/// The chat markup for a channel mention.
pub fn render_channel_id(channel_id: &str) -> (r: String)
    ensures
        r@ == "<#"@ + channel_id@ + ">"@,
{
    let mut s: String = "<#".to_owned();
    s.append(channel_id);
    s.append(">");
    s
}

/// The chat markup for a user mention.
pub fn render_user_id(user_id: &str) -> (r: String)
    ensures
        r@ == "<@"@ + user_id@ + ">"@,
{
    let mut s: String = "<@".to_owned();
    s.append(user_id);
    s.append(">");
    s
}

/// The chat markup for a link with display text.
pub fn render_url_with_text(link_text: &str, url: &str) -> (r: String)
    ensures
        r@ == "<"@ + url@ + "|"@ + link_text@ + ">"@,
{
    let mut s: String = "<".to_owned();
    s.append(url);
    s.append("|");
    s.append(link_text);
    s.append(">");
    s
}

/// The text posted when a message is forwarded to another channel.
pub open spec fn spec_forwarded_message(
    origin_channel_id: Seq<char>,
    origin_user_id: Seq<char>,
    msg_permalink: Seq<char>,
    additional_msg_context: Seq<char>,
) -> Seq<char> {
    "<@"@ + origin_user_id + ">"@ + " just sent "@ + "<"@ + msg_permalink + "|"@ + "this message"@
        + ">"@ + " to "@ + "<#"@ + origin_channel_id + ">"@ + ". \n _Context_: "@
        + additional_msg_context
}

/// Renders the forwarded-message text: who sent it, a link to it, where it
/// came from, and the configured context.
pub fn format_forwarded_message(
    origin_channel_id: &str,
    origin_user_id: &str,
    msg_permalink: &str,
    additional_msg_context: &str,
) -> (r: String)
    ensures
        r@ == spec_forwarded_message(
            origin_channel_id@,
            origin_user_id@,
            msg_permalink@,
            additional_msg_context@,
        ),
{
    let user = render_user_id(origin_user_id);
    let origin = render_channel_id(origin_channel_id);
    let msg_link = render_url_with_text("this message", msg_permalink);
    let mut s = user;
    s.append(" just sent ");
    s.append(msg_link.as_str());
    s.append(" to ");
    s.append(origin.as_str());
    s.append(". \n _Context_: ");
    s.append(additional_msg_context);
    proof {
        assert(s@ =~= spec_forwarded_message(
            origin_channel_id@,
            origin_user_id@,
            msg_permalink@,
            additional_msg_context@,
        ));
    }
    s
}

/// Who sent a message: the user if known, else the sending bot, else the
/// plain username, else a placeholder.
pub fn get_sender(
    user: &Option<String>,
    bot_id: &Option<String>,
    username: &Option<String>,
) -> (r: String)
    ensures
        match user {
            Some(u) => r@ == u@,
            None => match bot_id {
                Some(b) => r@ == b@,
                None => match username {
                    Some(n) => r@ == n@,
                    None => r@ == "unknown user"@,
                },
            },
        },
{
    match user {
        Some(u) => u.clone(),
        None => match bot_id {
            Some(b) => b.clone(),
            None => match username {
                Some(n) => n.clone(),
                None => "unknown user".to_owned(),
            },
        },
    }
}

} // verus!
