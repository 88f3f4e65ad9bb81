//! The opaque session token. An editing session keeps no server-side state:
//! the whole in-progress rule plus the UI mode is serialized into a token the
//! client echoes back on every round trip. The format is length-prefixed so
//! any free text survives: a string is written as `<len>:<chars>`, a list as
//! `<count>:` followed by its elements, a variant as one marker character.

use vstd::prelude::*;
use vstd::string::*;
use crate::actions::{Action, ActionView};
use crate::conditions::{Condition, ConditionView};
use crate::errors::ReceptionistError;
use crate::listeners::{ListenerEvent, ListenerEventView};
use crate::response::{ReceptionistResponse, ResponseView};
use crate::strutil::{
    all_digits,
    char_to_digit,
    chars_of,
    dec_digits,
    dec_value,
    is_digit_char,
    lemma_dec_round_trip,
    parse_dec_chars,
    push_char,
    string_of,
    usize_to_dec_string,
};

verus! {

/// What the manager form is doing this session.
#[derive(Debug, Clone, Copy, PartialEq, Eq, Structural)]
pub enum ManagerViewMode {
    Home,
    CreateResponse,
    EditResponse,
    DeleteResponse,
}

impl Default for ManagerViewMode {
    fn default() -> (r: Self)
        ensures
            r == ManagerViewMode::Home,
    {
        ManagerViewMode::Home
    }
}

impl ManagerViewMode {
    /// The stable selector name of this mode.
    pub open spec fn spec_kind_str(self) -> Seq<char> {
        match self {
            ManagerViewMode::Home => "home"@,
            ManagerViewMode::CreateResponse => "create-response"@,
            ManagerViewMode::EditResponse => "edit-response"@,
            ManagerViewMode::DeleteResponse => "delete-response"@,
        }
    }

    /// The exec mirror of `spec_kind_str`.
    pub fn kind_str(&self) -> (r: &'static str)
        ensures
            r@ == self.spec_kind_str(),
    {
        match self {
            ManagerViewMode::Home => "home",
            ManagerViewMode::CreateResponse => "create-response",
            ManagerViewMode::EditResponse => "edit-response",
            ManagerViewMode::DeleteResponse => "delete-response",
        }
    }

    /// The mode named by a selector string, if any.
    pub open spec fn spec_from_str(s: Seq<char>) -> Option<ManagerViewMode> {
        if s == "home"@ {
            Some(ManagerViewMode::Home)
        } else if s == "create-response"@ {
            Some(ManagerViewMode::CreateResponse)
        } else if s == "edit-response"@ {
            Some(ManagerViewMode::EditResponse)
        } else if s == "delete-response"@ {
            Some(ManagerViewMode::DeleteResponse)
        } else {
            None
        }
    }

    /// Parses a selector string back into a mode.
    pub fn from_str(s: &str) -> (r: Option<ManagerViewMode>)
        ensures
            r == Self::spec_from_str(s@),
    {
        if crate::strutil::str_eq(s, "home") {
            Some(ManagerViewMode::Home)
        } else if crate::strutil::str_eq(s, "create-response") {
            Some(ManagerViewMode::CreateResponse)
        } else if crate::strutil::str_eq(s, "edit-response") {
            Some(ManagerViewMode::EditResponse)
        } else if crate::strutil::str_eq(s, "delete-response") {
            Some(ManagerViewMode::DeleteResponse)
        } else {
            None
        }
    }

    /// The token marker of this mode.
    pub open spec fn marker(self) -> char {
        match self {
            ManagerViewMode::Home => 'h',
            ManagerViewMode::CreateResponse => 'c',
            ManagerViewMode::EditResponse => 'e',
            ManagerViewMode::DeleteResponse => 'd',
        }
    }
}

/// The spec-level value of a session.
pub ghost struct MetaView {
    pub current_mode: ManagerViewMode,
    pub user_id: Seq<char>,
    pub existing_response_id: Option<Seq<char>>,
    pub response: Option<ResponseView>,
}

/// The in-progress editing session: the UI mode, the acting user, a selected
/// existing rule id once chosen, and the working rule.
#[derive(Debug, PartialEq, Eq)]
pub struct MetaForManagerView {
    pub current_mode: ManagerViewMode,
    pub user_id: String,
    pub existing_response_id: Option<String>,
    pub response: Option<ReceptionistResponse>,
}

impl View for MetaForManagerView {
    type V = MetaView;

    open spec fn view(&self) -> MetaView {
        MetaView {
            current_mode: self.current_mode,
            user_id: self.user_id@,
            existing_response_id: match self.existing_response_id {
                Some(ref s) => Some(s@),
                None => None,
            },
            response: match self.response {
                Some(ref r) => Some(r@),
                None => None,
            },
        }
    }
}

impl Default for MetaForManagerView {
    /// A home-screen session for no user, with nothing selected.
    fn default() -> (r: Self)
        ensures
            r@ == (MetaView {
                current_mode: ManagerViewMode::Home,
                user_id: Seq::<char>::empty(),
                existing_response_id: None,
                response: None,
            }),
    {
        MetaForManagerView {
            current_mode: ManagerViewMode::Home,
            user_id: String::new(),
            existing_response_id: None,
            response: None,
        }
    }
}

impl Clone for MetaForManagerView {
    fn clone(&self) -> (r: Self)
        ensures
            r@ == self@,
    {
        MetaForManagerView {
            current_mode: self.current_mode,
            user_id: self.user_id.clone(),
            existing_response_id: match &self.existing_response_id {
                Some(s) => Some(s.clone()),
                None => None,
            },
            response: match &self.response {
                Some(x) => Some(x.clone()),
                None => None,
            },
        }
    }
}

impl MetaForManagerView {
    /// A fresh session for `user_id` in `current_mode`, with no rule yet.
    pub fn new(current_mode: ManagerViewMode, user_id: String) -> (r: Self)
        ensures
            r@ == (MetaView {
                current_mode,
                user_id: user_id@,
                existing_response_id: None,
                response: None,
            }),
    {
        MetaForManagerView { current_mode, user_id, existing_response_id: None, response: None }
    }
}

/// A fresh session in the selected mode, keeping only the acting user:
/// switching modes discards any prior working rule.
pub fn select_mode(mode_str_value: &str, metadata: &MetaForManagerView) -> (r: Result<
    MetaForManagerView,
    ReceptionistError,
>)
    ensures
        match r {
            Ok(m) => ManagerViewMode::spec_from_str(mode_str_value@) is Some && m@ == (MetaView {
                current_mode: ManagerViewMode::spec_from_str(mode_str_value@)->Some_0,
                user_id: metadata@.user_id,
                existing_response_id: None,
                response: None,
            }),
            Err(e) => e == ReceptionistError::UnknownKind && ManagerViewMode::spec_from_str(
                mode_str_value@,
            ) is None,
        },
{
    match ManagerViewMode::from_str(mode_str_value) {
        Some(mode) => Ok(MetaForManagerView::new(mode, metadata.user_id.clone())),
        None => Err(ReceptionistError::UnknownKind),
    }
}

// --- the encoding, spec side ---

/// A length or count: its decimal digits and a colon.
pub open spec fn enc_len(n: nat) -> Seq<char> {
    dec_digits(n) + seq![':']
}

/// A string: its length, then exactly that many characters.
pub open spec fn enc_str(s: Seq<char>) -> Seq<char> {
    enc_len(s.len()) + s
}

/// An optional string: `0` for absent, `1` and the string for present.
pub open spec fn enc_opt_str(o: Option<Seq<char>>) -> Seq<char> {
    match o {
        None => seq!['0'],
        Some(s) => seq!['1'] + enc_str(s),
    }
}

/// A condition: a kind marker and its payload.
pub open spec fn enc_condition(c: ConditionView) -> Seq<char> {
    match c {
        ConditionView::MatchPhrase(s) => seq!['p'] + enc_str(s),
        ConditionView::MatchRegex(s) => seq!['r'] + enc_str(s),
    }
}

/// An action: a kind marker and its payload fields.
pub open spec fn enc_action(a: ActionView) -> Seq<char> {
    match a {
        ActionView::AttachEmoji(s) => seq!['e'] + enc_str(s),
        ActionView::ThreadedMessage(s) => seq!['t'] + enc_str(s),
        ActionView::ChannelMessage(s) => seq!['c'] + enc_str(s),
        ActionView::MsgOncallInThread { escalation_policy_id, message } => seq!['o'] + enc_str(
            escalation_policy_id,
        ) + enc_str(message),
        ActionView::ForwardMessageToChannel { channel, msg_context } => seq!['f'] + enc_str(
            channel,
        ) + enc_str(msg_context),
    }
}

/// A condition list body, first element first.
pub open spec fn enc_conditions(cs: Seq<ConditionView>) -> Seq<char>
    decreases cs.len(),
{
    if cs.len() == 0 {
        Seq::empty()
    } else {
        enc_condition(cs[0]) + enc_conditions(cs.drop_first())
    }
}

/// An action list body, first element first.
pub open spec fn enc_actions(acts: Seq<ActionView>) -> Seq<char>
    decreases acts.len(),
{
    if acts.len() == 0 {
        Seq::empty()
    } else {
        enc_action(acts[0]) + enc_actions(acts.drop_first())
    }
}

/// A string list body, first element first.
pub open spec fn enc_strs(ss: Seq<Seq<char>>) -> Seq<char>
    decreases ss.len(),
{
    if ss.len() == 0 {
        Seq::empty()
    } else {
        enc_str(ss[0]) + enc_strs(ss.drop_first())
    }
}

/// A whole rule: id, channel, then the three counted lists.
pub open spec fn enc_response(rv: ResponseView) -> Seq<char> {
    enc_str(rv.id) + enc_str(rv.listener.channel_id()) + enc_len(rv.conditions.len())
        + enc_conditions(rv.conditions) + enc_len(rv.actions.len()) + enc_actions(rv.actions)
        + enc_len(rv.collaborators.len()) + enc_strs(rv.collaborators)
}

/// A whole session: mode marker, user, selected id, working rule.
pub open spec fn enc_meta(mv: MetaView) -> Seq<char> {
    seq![mv.current_mode.marker()] + enc_str(mv.user_id) + enc_opt_str(mv.existing_response_id)
        + (match mv.response {
        None => seq!['0'],
        Some(rv) => seq!['1'] + enc_response(rv),
    })
}

// --- the decoding, spec side ---

/// Splits a string into its leading digits and the rest.
pub open spec fn split_digits(s: Seq<char>) -> (Seq<char>, Seq<char>)
    decreases s.len(),
{
    if s.len() == 0 || !is_digit_char(s[0]) {
        (Seq::empty(), s)
    } else {
        let (d, r) = split_digits(s.drop_first());
        (seq![s[0]] + d, r)
    }
}

/// Reads a `<digits>:` length prefix.
pub open spec fn dec_len(s: Seq<char>) -> Option<(nat, Seq<char>)> {
    let (digits, rest) = split_digits(s);
    if digits.len() == 0 || rest.len() == 0 || rest[0] != ':' {
        None
    } else {
        Some((dec_value(digits), rest.subrange(1, rest.len() as int)))
    }
}

/// Reads a length-prefixed string.
pub open spec fn dec_str(s: Seq<char>) -> Option<(Seq<char>, Seq<char>)> {
    match dec_len(s) {
        None => None,
        Some((n, rest)) => {
            if n > rest.len() {
                None
            } else {
                Some((rest.subrange(0, n as int), rest.subrange(n as int, rest.len() as int)))
            }
        },
    }
}

/// Reads an optional string behind its `0`/`1` marker.
pub open spec fn dec_opt_str(s: Seq<char>) -> Option<(Option<Seq<char>>, Seq<char>)> {
    if s.len() == 0 {
        None
    } else if s[0] == '0' {
        Some((None, s.drop_first()))
    } else if s[0] == '1' {
        match dec_str(s.drop_first()) {
            None => None,
            Some((v, rest)) => Some((Some(v), rest)),
        }
    } else {
        None
    }
}

/// Reads one condition behind its kind marker.
pub open spec fn dec_condition(s: Seq<char>) -> Option<(ConditionView, Seq<char>)> {
    if s.len() == 0 {
        None
    } else if s[0] == 'p' {
        match dec_str(s.drop_first()) {
            None => None,
            Some((v, rest)) => Some((ConditionView::MatchPhrase(v), rest)),
        }
    } else if s[0] == 'r' {
        match dec_str(s.drop_first()) {
            None => None,
            Some((v, rest)) => Some((ConditionView::MatchRegex(v), rest)),
        }
    } else {
        None
    }
}

/// Reads one action behind its kind marker.
pub open spec fn dec_action(s: Seq<char>) -> Option<(ActionView, Seq<char>)> {
    if s.len() == 0 {
        None
    } else if s[0] == 'e' {
        match dec_str(s.drop_first()) {
            None => None,
            Some((v, rest)) => Some((ActionView::AttachEmoji(v), rest)),
        }
    } else if s[0] == 't' {
        match dec_str(s.drop_first()) {
            None => None,
            Some((v, rest)) => Some((ActionView::ThreadedMessage(v), rest)),
        }
    } else if s[0] == 'c' {
        match dec_str(s.drop_first()) {
            None => None,
            Some((v, rest)) => Some((ActionView::ChannelMessage(v), rest)),
        }
    } else if s[0] == 'o' {
        match dec_str(s.drop_first()) {
            None => None,
            Some((policy, rest1)) => match dec_str(rest1) {
                None => None,
                Some((message, rest2)) => Some(
                    (
                        ActionView::MsgOncallInThread {
                            escalation_policy_id: policy,
                            message: message,
                        },
                        rest2,
                    ),
                ),
            },
        }
    } else if s[0] == 'f' {
        match dec_str(s.drop_first()) {
            None => None,
            Some((channel, rest1)) => match dec_str(rest1) {
                None => None,
                Some((ctx, rest2)) => Some(
                    (ActionView::ForwardMessageToChannel { channel, msg_context: ctx }, rest2),
                ),
            },
        }
    } else {
        None
    }
}

/// Reads `n` conditions in order.
pub open spec fn dec_conditions(s: Seq<char>, n: nat) -> Option<(Seq<ConditionView>, Seq<char>)>
    decreases n,
{
    if n == 0 {
        Some((Seq::empty(), s))
    } else {
        match dec_condition(s) {
            None => None,
            Some((c, rest)) => match dec_conditions(rest, (n - 1) as nat) {
                None => None,
                Some((cs, rest2)) => Some((seq![c] + cs, rest2)),
            },
        }
    }
}

/// Reads `n` actions in order.
pub open spec fn dec_actions(s: Seq<char>, n: nat) -> Option<(Seq<ActionView>, Seq<char>)>
    decreases n,
{
    if n == 0 {
        Some((Seq::empty(), s))
    } else {
        match dec_action(s) {
            None => None,
            Some((a, rest)) => match dec_actions(rest, (n - 1) as nat) {
                None => None,
                Some((acts, rest2)) => Some((seq![a] + acts, rest2)),
            },
        }
    }
}

/// Reads `n` strings in order.
pub open spec fn dec_strs(s: Seq<char>, n: nat) -> Option<(Seq<Seq<char>>, Seq<char>)>
    decreases n,
{
    if n == 0 {
        Some((Seq::empty(), s))
    } else {
        match dec_str(s) {
            None => None,
            Some((v, rest)) => match dec_strs(rest, (n - 1) as nat) {
                None => None,
                Some((vs, rest2)) => Some((seq![v] + vs, rest2)),
            },
        }
    }
}

/// Reads a whole rule.
pub open spec fn dec_response(s: Seq<char>) -> Option<(ResponseView, Seq<char>)> {
    match dec_str(s) {
        None => None,
        Some((id, s1)) => match dec_str(s1) {
            None => None,
            Some((channel, s2)) => match dec_len(s2) {
                None => None,
                Some((nc, s3)) => match dec_conditions(s3, nc) {
                    None => None,
                    Some((cs, s4)) => match dec_len(s4) {
                        None => None,
                        Some((na, s5)) => match dec_actions(s5, na) {
                            None => None,
                            Some((acts, s6)) => match dec_len(s6) {
                                None => None,
                                Some((nu, s7)) => match dec_strs(s7, nu) {
                                    None => None,
                                    Some((users, s8)) => Some(
                                        (
                                            ResponseView {
                                                id,
                                                listener:
                                                    ListenerEventView::SlackChannelMessage {
                                                    channel_id: channel,
                                                },
                                                conditions: cs,
                                                actions: acts,
                                                collaborators: users,
                                            },
                                            s8,
                                        ),
                                    ),
                                },
                            },
                        },
                    },
                },
            },
        },
    }
}

/// Reads the mode marker.
pub open spec fn dec_mode(s: Seq<char>) -> Option<(ManagerViewMode, Seq<char>)> {
    if s.len() == 0 {
        None
    } else if s[0] == 'h' {
        Some((ManagerViewMode::Home, s.drop_first()))
    } else if s[0] == 'c' {
        Some((ManagerViewMode::CreateResponse, s.drop_first()))
    } else if s[0] == 'e' {
        Some((ManagerViewMode::EditResponse, s.drop_first()))
    } else if s[0] == 'd' {
        Some((ManagerViewMode::DeleteResponse, s.drop_first()))
    } else {
        None
    }
}

/// Reads a whole session token; the token must hold nothing else.
pub open spec fn dec_meta(s: Seq<char>) -> Option<MetaView> {
    match dec_mode(s) {
        None => None,
        Some((mode, s1)) => match dec_str(s1) {
            None => None,
            Some((user, s2)) => match dec_opt_str(s2) {
                None => None,
                Some((existing, s3)) => {
                    if s3.len() == 0 {
                        None
                    } else if s3[0] == '0' {
                        if s3.drop_first().len() == 0 {
                            Some(
                                MetaView {
                                    current_mode: mode,
                                    user_id: user,
                                    existing_response_id: existing,
                                    response: None,
                                },
                            )
                        } else {
                            None
                        }
                    } else if s3[0] == '1' {
                        match dec_response(s3.drop_first()) {
                            None => None,
                            Some((rv, s4)) => {
                                if s4.len() == 0 {
                                    Some(
                                        MetaView {
                                            current_mode: mode,
                                            user_id: user,
                                            existing_response_id: existing,
                                            response: Some(rv),
                                        },
                                    )
                                } else {
                                    None
                                }
                            },
                        }
                    } else {
                        None
                    }
                },
            },
        },
    }
}

// --- the round trip, spec side ---

/// Splitting digits off `d + r` finds exactly `d` when `d` is all digits and
/// `r` does not start with one.
proof fn lemma_split_digits_of(d: Seq<char>, r: Seq<char>)
    requires
        all_digits(d),
        r.len() == 0 || !is_digit_char(r[0]),
    ensures
        split_digits(d + r) == (d, r),
    decreases d.len(),
{
    let s = d + r;
    if d.len() == 0 {
        assert(s =~= r);
        if s.len() != 0 {
            assert(!is_digit_char(s[0]));
        }
    } else {
        assert(s[0] == d[0]);
        assert(is_digit_char(s[0]));
        assert(s.drop_first() =~= d.drop_first() + r);
        assert(all_digits(d.drop_first()));
        lemma_split_digits_of(d.drop_first(), r);
        let (d2, r2) = split_digits(s.drop_first());
        assert(d2 == d.drop_first() && r2 == r);
        assert(seq![s[0]] + d.drop_first() =~= d);
    }
}

/// Reading an encoded length gives the length back.
proof fn lemma_dec_len_of_enc(n: nat, rest: Seq<char>)
    ensures
        dec_len(enc_len(n) + rest) == Some((n, rest)),
{
    lemma_dec_round_trip(n);
    let tail = seq![':'] + rest;
    assert(enc_len(n) + rest =~= dec_digits(n) + tail);
    assert(tail[0] == ':');
    assert(!is_digit_char(':'));
    lemma_split_digits_of(dec_digits(n), tail);
    assert(tail.subrange(1, tail.len() as int) =~= rest);
}

/// Reading an encoded string gives the string back.
proof fn lemma_dec_str_of_enc(s: Seq<char>, rest: Seq<char>)
    ensures
        dec_str(enc_str(s) + rest) == Some((s, rest)),
{
    let body = s + rest;
    assert(enc_str(s) + rest =~= enc_len(s.len()) + body);
    lemma_dec_len_of_enc(s.len(), body);
    assert(body.subrange(0, s.len() as int) =~= s);
    assert(body.subrange(s.len() as int, body.len() as int) =~= rest);
}

/// Reading an encoded optional string gives it back.
proof fn lemma_dec_opt_str_of_enc(o: Option<Seq<char>>, rest: Seq<char>)
    ensures
        dec_opt_str(enc_opt_str(o) + rest) == Some((o, rest)),
{
    match o {
        None => {
            let s = enc_opt_str(o) + rest;
            assert(s[0] == '0');
            assert(s.drop_first() =~= rest);
        },
        Some(v) => {
            let s = enc_opt_str(o) + rest;
            assert(s[0] == '1');
            assert(s.drop_first() =~= enc_str(v) + rest);
            lemma_dec_str_of_enc(v, rest);
        },
    }
}

/// Reading an encoded condition gives it back.
proof fn lemma_dec_condition_of_enc(c: ConditionView, rest: Seq<char>)
    ensures
        dec_condition(enc_condition(c) + rest) == Some((c, rest)),
{
    let s = enc_condition(c) + rest;
    match c {
        ConditionView::MatchPhrase(v) => {
            assert(s[0] == 'p');
            assert(s.drop_first() =~= enc_str(v) + rest);
            lemma_dec_str_of_enc(v, rest);
        },
        ConditionView::MatchRegex(v) => {
            assert(s[0] == 'r');
            assert(s.drop_first() =~= enc_str(v) + rest);
            lemma_dec_str_of_enc(v, rest);
        },
    }
}

/// Reading an encoded action gives it back.
proof fn lemma_dec_action_of_enc(a: ActionView, rest: Seq<char>)
    ensures
        dec_action(enc_action(a) + rest) == Some((a, rest)),
{
    let s = enc_action(a) + rest;
    match a {
        ActionView::AttachEmoji(v) => {
            assert(s[0] == 'e');
            assert(s.drop_first() =~= enc_str(v) + rest);
            lemma_dec_str_of_enc(v, rest);
        },
        ActionView::ThreadedMessage(v) => {
            assert(s[0] == 't');
            assert(s.drop_first() =~= enc_str(v) + rest);
            lemma_dec_str_of_enc(v, rest);
        },
        ActionView::ChannelMessage(v) => {
            assert(s[0] == 'c');
            assert(s.drop_first() =~= enc_str(v) + rest);
            lemma_dec_str_of_enc(v, rest);
        },
        ActionView::MsgOncallInThread { escalation_policy_id, message } => {
            assert(s[0] == 'o');
            assert(s.drop_first() =~= enc_str(escalation_policy_id) + (enc_str(message) + rest));
            lemma_dec_str_of_enc(escalation_policy_id, enc_str(message) + rest);
            lemma_dec_str_of_enc(message, rest);
        },
        ActionView::ForwardMessageToChannel { channel, msg_context } => {
            assert(s[0] == 'f');
            assert(s.drop_first() =~= enc_str(channel) + (enc_str(msg_context) + rest));
            lemma_dec_str_of_enc(channel, enc_str(msg_context) + rest);
            lemma_dec_str_of_enc(msg_context, rest);
        },
    }
}

/// Reading an encoded condition list gives it back.
proof fn lemma_dec_conditions_of_enc(cs: Seq<ConditionView>, rest: Seq<char>)
    ensures
        dec_conditions(enc_conditions(cs) + rest, cs.len()) == Some((cs, rest)),
    decreases cs.len(),
{
    if cs.len() == 0 {
        assert(enc_conditions(cs) + rest =~= rest);
    } else {
        let s = enc_conditions(cs) + rest;
        assert(s =~= enc_condition(cs[0]) + (enc_conditions(cs.drop_first()) + rest));
        lemma_dec_condition_of_enc(cs[0], enc_conditions(cs.drop_first()) + rest);
        lemma_dec_conditions_of_enc(cs.drop_first(), rest);
        assert(seq![cs[0]] + cs.drop_first() =~= cs);
    }
}

/// Reading an encoded action list gives it back.
proof fn lemma_dec_actions_of_enc(acts: Seq<ActionView>, rest: Seq<char>)
    ensures
        dec_actions(enc_actions(acts) + rest, acts.len()) == Some((acts, rest)),
    decreases acts.len(),
{
    if acts.len() == 0 {
        assert(enc_actions(acts) + rest =~= rest);
    } else {
        let s = enc_actions(acts) + rest;
        assert(s =~= enc_action(acts[0]) + (enc_actions(acts.drop_first()) + rest));
        lemma_dec_action_of_enc(acts[0], enc_actions(acts.drop_first()) + rest);
        lemma_dec_actions_of_enc(acts.drop_first(), rest);
        assert(seq![acts[0]] + acts.drop_first() =~= acts);
    }
}

/// Reading an encoded string list gives it back.
proof fn lemma_dec_strs_of_enc(ss: Seq<Seq<char>>, rest: Seq<char>)
    ensures
        dec_strs(enc_strs(ss) + rest, ss.len()) == Some((ss, rest)),
    decreases ss.len(),
{
    if ss.len() == 0 {
        assert(enc_strs(ss) + rest =~= rest);
    } else {
        let s = enc_strs(ss) + rest;
        assert(s =~= enc_str(ss[0]) + (enc_strs(ss.drop_first()) + rest));
        lemma_dec_str_of_enc(ss[0], enc_strs(ss.drop_first()) + rest);
        lemma_dec_strs_of_enc(ss.drop_first(), rest);
        assert(seq![ss[0]] + ss.drop_first() =~= ss);
    }
}

/// Reading an encoded rule gives the rule back.
#[verifier::rlimit(100)]
proof fn lemma_dec_response_of_enc(rv: ResponseView, rest: Seq<char>)
    ensures
        dec_response(enc_response(rv) + rest) == Some((rv, rest)),
{
    let p1 = enc_str(rv.listener.channel_id()) + (enc_len(rv.conditions.len()) + (enc_conditions(
        rv.conditions,
    ) + (enc_len(rv.actions.len()) + (enc_actions(rv.actions) + (enc_len(rv.collaborators.len())
        + (enc_strs(rv.collaborators) + rest))))));
    assert(enc_response(rv) + rest =~= enc_str(rv.id) + p1);
    lemma_dec_str_of_enc(rv.id, p1);
    let p2 = enc_len(rv.conditions.len()) + (enc_conditions(rv.conditions) + (enc_len(
        rv.actions.len(),
    ) + (enc_actions(rv.actions) + (enc_len(rv.collaborators.len()) + (enc_strs(rv.collaborators)
        + rest)))));
    assert(p1 =~= enc_str(rv.listener.channel_id()) + p2);
    lemma_dec_str_of_enc(rv.listener.channel_id(), p2);
    let p3 = enc_conditions(rv.conditions) + (enc_len(rv.actions.len()) + (enc_actions(rv.actions)
        + (enc_len(rv.collaborators.len()) + (enc_strs(rv.collaborators) + rest))));
    assert(p2 =~= enc_len(rv.conditions.len()) + p3);
    lemma_dec_len_of_enc(rv.conditions.len(), p3);
    let p4 = enc_len(rv.actions.len()) + (enc_actions(rv.actions) + (enc_len(
        rv.collaborators.len(),
    ) + (enc_strs(rv.collaborators) + rest)));
    assert(p3 =~= enc_conditions(rv.conditions) + p4);
    lemma_dec_conditions_of_enc(rv.conditions, p4);
    let p5 = enc_actions(rv.actions) + (enc_len(rv.collaborators.len()) + (enc_strs(
        rv.collaborators,
    ) + rest));
    assert(p4 =~= enc_len(rv.actions.len()) + p5);
    lemma_dec_len_of_enc(rv.actions.len(), p5);
    let p6 = enc_len(rv.collaborators.len()) + (enc_strs(rv.collaborators) + rest);
    assert(p5 =~= enc_actions(rv.actions) + p6);
    lemma_dec_actions_of_enc(rv.actions, p6);
    let p7 = enc_strs(rv.collaborators) + rest;
    assert(p6 =~= enc_len(rv.collaborators.len()) + p7);
    lemma_dec_len_of_enc(rv.collaborators.len(), p7);
    lemma_dec_strs_of_enc(rv.collaborators, rest);
    assert(rv == (ResponseView {
        id: rv.id,
        listener: ListenerEventView::SlackChannelMessage { channel_id: rv.listener.channel_id() },
        conditions: rv.conditions,
        actions: rv.actions,
        collaborators: rv.collaborators,
    }));
}

/// Decoding an encoded session gives the session back: the round trip of the
/// opaque token is the identity on every session value.
pub proof fn lemma_token_round_trip(mv: MetaView)
    ensures
        dec_meta(enc_meta(mv)) == Some(mv),
{
    let s = enc_meta(mv);
    let p1 = enc_str(mv.user_id) + (enc_opt_str(mv.existing_response_id) + (match mv.response {
        None => seq!['0'],
        Some(rv) => seq!['1'] + enc_response(rv),
    }));
    assert(s =~= seq![mv.current_mode.marker()] + p1);
    assert(s[0] == mv.current_mode.marker());
    assert(s.drop_first() =~= p1);
    let p2 = enc_opt_str(mv.existing_response_id) + (match mv.response {
        None => seq!['0'],
        Some(rv) => seq!['1'] + enc_response(rv),
    });
    assert(p1 =~= enc_str(mv.user_id) + p2);
    lemma_dec_str_of_enc(mv.user_id, p2);
    let p3: Seq<char> = match mv.response {
        None => seq!['0'],
        Some(rv) => seq!['1'] + enc_response(rv),
    };
    assert(p2 =~= enc_opt_str(mv.existing_response_id) + p3);
    lemma_dec_opt_str_of_enc(mv.existing_response_id, p3);
    match mv.response {
        None => {
            assert(p3[0] == '0');
            assert(p3.drop_first() =~= Seq::<char>::empty());
        },
        Some(rv) => {
            assert(p3[0] == '1');
            assert(p3.drop_first() =~= enc_response(rv) + Seq::<char>::empty());
            lemma_dec_response_of_enc(rv, Seq::empty());
        },
    }
}

} // verus!

verus! {

// --- sizes, for rejecting counts that cannot fit ---

proof fn lemma_split_digits_len(s: Seq<char>)
    ensures
        split_digits(s).0.len() + split_digits(s).1.len() == s.len(),
    decreases s.len(),
{
    if s.len() == 0 || !is_digit_char(s[0]) {
    } else {
        lemma_split_digits_len(s.drop_first());
    }
}

/// A decoded string leaves strictly less input behind.
proof fn lemma_dec_str_shrinks(s: Seq<char>)
    ensures
        dec_str(s) is Some ==> dec_str(s)->Some_0.1.len() < s.len(),
{
    lemma_split_digits_len(s);
}

/// A decoded condition leaves strictly less input behind.
proof fn lemma_dec_condition_shrinks(s: Seq<char>)
    ensures
        dec_condition(s) is Some ==> dec_condition(s)->Some_0.1.len() < s.len(),
{
    if s.len() > 0 {
        lemma_dec_str_shrinks(s.drop_first());
    }
}

/// A decoded action leaves strictly less input behind.
proof fn lemma_dec_action_shrinks(s: Seq<char>)
    ensures
        dec_action(s) is Some ==> dec_action(s)->Some_0.1.len() < s.len(),
{
    if s.len() > 0 {
        let t = s.drop_first();
        lemma_dec_str_shrinks(t);
        if dec_str(t) is Some {
            lemma_dec_str_shrinks(dec_str(t)->Some_0.1);
        }
    }
}

/// More conditions than characters can never decode.
proof fn lemma_dec_conditions_bound(s: Seq<char>, n: nat)
    ensures
        dec_conditions(s, n) is Some ==> n <= s.len(),
    decreases n,
{
    if n > 0 {
        lemma_dec_condition_shrinks(s);
        if dec_condition(s) is Some {
            lemma_dec_conditions_bound(dec_condition(s)->Some_0.1, (n - 1) as nat);
        }
    }
}

/// More actions than characters can never decode.
proof fn lemma_dec_actions_bound(s: Seq<char>, n: nat)
    ensures
        dec_actions(s, n) is Some ==> n <= s.len(),
    decreases n,
{
    if n > 0 {
        lemma_dec_action_shrinks(s);
        if dec_action(s) is Some {
            lemma_dec_actions_bound(dec_action(s)->Some_0.1, (n - 1) as nat);
        }
    }
}

/// More strings than characters can never decode.
proof fn lemma_dec_strs_bound(s: Seq<char>, n: nat)
    ensures
        dec_strs(s, n) is Some ==> n <= s.len(),
    decreases n,
{
    if n > 0 {
        lemma_dec_str_shrinks(s);
        if dec_str(s) is Some {
            lemma_dec_strs_bound(dec_str(s)->Some_0.1, (n - 1) as nat);
        }
    }
}

// --- the encoder ---

/// Appending one more element extends a condition list body at its end.
proof fn lemma_enc_conditions_snoc(cs: Seq<ConditionView>, c: ConditionView)
    ensures
        enc_conditions(cs.push(c)) == enc_conditions(cs) + enc_condition(c),
    decreases cs.len(),
{
    if cs.len() == 0 {
        assert(cs.push(c)[0] == c);
        assert(cs.push(c).drop_first() =~= Seq::<ConditionView>::empty());
        assert(enc_conditions(Seq::<ConditionView>::empty()) =~= Seq::<char>::empty());
        assert(enc_conditions(cs.push(c)) =~= enc_condition(c));
        assert(enc_conditions(cs) + enc_condition(c) =~= enc_condition(c));
    } else {
        assert(cs.push(c)[0] == cs[0]);
        assert(cs.push(c).drop_first() =~= cs.drop_first().push(c));
        lemma_enc_conditions_snoc(cs.drop_first(), c);
        assert(enc_conditions(cs.push(c)) =~= enc_conditions(cs) + enc_condition(c));
    }
}

/// Appending one more element extends an action list body at its end.
proof fn lemma_enc_actions_snoc(acts: Seq<ActionView>, a: ActionView)
    ensures
        enc_actions(acts.push(a)) == enc_actions(acts) + enc_action(a),
    decreases acts.len(),
{
    if acts.len() == 0 {
        assert(acts.push(a)[0] == a);
        assert(acts.push(a).drop_first() =~= Seq::<ActionView>::empty());
        assert(enc_actions(Seq::<ActionView>::empty()) =~= Seq::<char>::empty());
        assert(enc_actions(acts.push(a)) =~= enc_action(a));
        assert(enc_actions(acts) + enc_action(a) =~= enc_action(a));
    } else {
        assert(acts.push(a)[0] == acts[0]);
        assert(acts.push(a).drop_first() =~= acts.drop_first().push(a));
        lemma_enc_actions_snoc(acts.drop_first(), a);
        assert(enc_actions(acts.push(a)) =~= enc_actions(acts) + enc_action(a));
    }
}

/// Appending one more element extends a string list body at its end.
proof fn lemma_enc_strs_snoc(ss: Seq<Seq<char>>, x: Seq<char>)
    ensures
        enc_strs(ss.push(x)) == enc_strs(ss) + enc_str(x),
    decreases ss.len(),
{
    if ss.len() == 0 {
        assert(ss.push(x)[0] == x);
        assert(ss.push(x).drop_first() =~= Seq::<Seq<char>>::empty());
        assert(enc_strs(Seq::<Seq<char>>::empty()) =~= Seq::<char>::empty());
        assert(enc_strs(ss.push(x)) =~= enc_str(x));
        assert(enc_strs(ss) + enc_str(x) =~= enc_str(x));
    } else {
        assert(ss.push(x)[0] == ss[0]);
        assert(ss.push(x).drop_first() =~= ss.drop_first().push(x));
        lemma_enc_strs_snoc(ss.drop_first(), x);
        assert(enc_strs(ss.push(x)) =~= enc_strs(ss) + enc_str(x));
    }
}

/// Appends `<n>:` to the token being built.
fn push_len(out: &mut String, n: usize)
    ensures
        final(out)@ == old(out)@ + enc_len(n as nat),
{
    let digits = usize_to_dec_string(n);
    out.append(digits.as_str());
    push_char(out, ':');
    proof {
        assert(out@ =~= old(out)@ + enc_len(n as nat));
    }
}

/// Appends `<len>:<chars>` to the token being built.
fn push_enc_str(out: &mut String, s: &str)
    ensures
        final(out)@ == old(out)@ + enc_str(s@),
{
    let n = s.unicode_len();
    push_len(out, n);
    out.append(s);
    proof {
        assert(out@ =~= old(out)@ + enc_str(s@));
    }
}

/// Appends one encoded condition.
fn push_enc_condition(out: &mut String, c: &Condition)
    ensures
        final(out)@ == old(out)@ + enc_condition(c@),
{
    match c {
        Condition::MatchPhrase(s) => {
            push_char(out, 'p');
            push_enc_str(out, s.as_str());
        },
        Condition::MatchRegex(s) => {
            push_char(out, 'r');
            push_enc_str(out, s.as_str());
        },
    }
    proof {
        assert(out@ =~= old(out)@ + enc_condition(c@));
    }
}

/// Appends one encoded action.
fn push_enc_action(out: &mut String, a: &Action)
    ensures
        final(out)@ == old(out)@ + enc_action(a@),
{
    match a {
        Action::AttachEmoji(s) => {
            push_char(out, 'e');
            push_enc_str(out, s.as_str());
        },
        Action::ThreadedMessage(s) => {
            push_char(out, 't');
            push_enc_str(out, s.as_str());
        },
        Action::ChannelMessage(s) => {
            push_char(out, 'c');
            push_enc_str(out, s.as_str());
        },
        Action::MsgOncallInThread { escalation_policy_id, message } => {
            push_char(out, 'o');
            push_enc_str(out, escalation_policy_id.as_str());
            push_enc_str(out, message.as_str());
        },
        Action::ForwardMessageToChannel { channel, msg_context } => {
            push_char(out, 'f');
            push_enc_str(out, channel.as_str());
            push_enc_str(out, msg_context.as_str());
        },
    }
    proof {
        assert(out@ =~= old(out)@ + enc_action(a@));
    }
}

/// Appends one encoded rule.
fn push_enc_response(out: &mut String, r: &ReceptionistResponse)
    ensures
        final(out)@ == old(out)@ + enc_response(r@),
{
    push_enc_str(out, r.id.as_str());
    match &r.listener {
        ListenerEvent::SlackChannelMessage { channel_id } => {
            push_enc_str(out, channel_id.as_str());
        },
    }
    push_len(out, r.conditions.len());
    let ghost base = out@;
    let mut i: usize = 0;
    while i < r.conditions.len()
        invariant
            i <= r.conditions@.len(),
            out@ == base + enc_conditions(r@.conditions.subrange(0, i as int)),
        decreases r.conditions@.len() - i,
    {
        push_enc_condition(out, &r.conditions[i]);
        i = i + 1;
        proof {
            lemma_enc_conditions_snoc(
                r@.conditions.subrange(0, i as int - 1),
                r@.conditions[i as int - 1],
            );
            assert(r@.conditions.subrange(0, i as int - 1).push(r@.conditions[i as int - 1])
                =~= r@.conditions.subrange(0, i as int));
            assert(out@ =~= base + enc_conditions(r@.conditions.subrange(0, i as int)));
        }
    }
    proof {
        assert(r@.conditions.subrange(0, r@.conditions.len() as int) =~= r@.conditions);
    }
    push_len(out, r.actions.len());
    let ghost base2 = out@;
    let mut j: usize = 0;
    while j < r.actions.len()
        invariant
            j <= r.actions@.len(),
            out@ == base2 + enc_actions(r@.actions.subrange(0, j as int)),
        decreases r.actions@.len() - j,
    {
        push_enc_action(out, &r.actions[j]);
        j = j + 1;
        proof {
            lemma_enc_actions_snoc(
                r@.actions.subrange(0, j as int - 1),
                r@.actions[j as int - 1],
            );
            assert(r@.actions.subrange(0, j as int - 1).push(r@.actions[j as int - 1])
                =~= r@.actions.subrange(0, j as int));
            assert(out@ =~= base2 + enc_actions(r@.actions.subrange(0, j as int)));
        }
    }
    proof {
        assert(r@.actions.subrange(0, r@.actions.len() as int) =~= r@.actions);
    }
    push_len(out, r.collaborators.len());
    let ghost base3 = out@;
    let mut k: usize = 0;
    while k < r.collaborators.len()
        invariant
            k <= r.collaborators@.len(),
            out@ == base3 + enc_strs(r@.collaborators.subrange(0, k as int)),
        decreases r.collaborators@.len() - k,
    {
        push_enc_str(out, r.collaborators[k].as_str());
        k = k + 1;
        proof {
            lemma_enc_strs_snoc(
                r@.collaborators.subrange(0, k as int - 1),
                r@.collaborators[k as int - 1],
            );
            assert(r@.collaborators.subrange(0, k as int - 1).push(
                r@.collaborators[k as int - 1],
            ) =~= r@.collaborators.subrange(0, k as int));
            assert(out@ =~= base3 + enc_strs(r@.collaborators.subrange(0, k as int)));
        }
    }
    proof {
        assert(r@.collaborators.subrange(0, r@.collaborators.len() as int) =~= r@.collaborators);
        assert(out@ =~= old(out)@ + enc_response(r@));
    }
}

impl MetaForManagerView {
    /// Serializes this session into its opaque token.
    pub fn to_token(&self) -> (r: String)
        ensures
            r@ == enc_meta(self@),
    {
        let mut out = String::new();
        match self.current_mode {
            ManagerViewMode::Home => push_char(&mut out, 'h'),
            ManagerViewMode::CreateResponse => push_char(&mut out, 'c'),
            ManagerViewMode::EditResponse => push_char(&mut out, 'e'),
            ManagerViewMode::DeleteResponse => push_char(&mut out, 'd'),
        }
        push_enc_str(&mut out, self.user_id.as_str());
        match &self.existing_response_id {
            None => push_char(&mut out, '0'),
            Some(s) => {
                push_char(&mut out, '1');
                push_enc_str(&mut out, s.as_str());
            },
        }
        match &self.response {
            None => push_char(&mut out, '0'),
            Some(r) => {
                push_char(&mut out, '1');
                push_enc_response(&mut out, r);
            },
        }
        proof {
            assert(out@ =~= enc_meta(self@));
        }
        out
    }
}

} // verus!

verus! {

/// The input left from position `pos` on.
pub open spec fn tail_of(v: Seq<char>, pos: int) -> Seq<char> {
    v.subrange(pos, v.len() as int)
}

/// The first position at or after `pos` holding no digit.
fn scan_digits(v: &Vec<char>, pos: usize) -> (j: usize)
    requires
        pos <= v@.len(),
    ensures
        pos <= j <= v@.len(),
        forall|i: int| pos <= i < j ==> is_digit_char(v@[i]),
        j == v@.len() || !is_digit_char(v@[j as int]),
{
    let n = v.len();
    let mut j: usize = pos;
    while j < n
        invariant
            pos <= j <= n,
            n == v@.len(),
            forall|i: int| pos <= i < j ==> is_digit_char(v@[i]),
        decreases n - j,
    {
        if char_to_digit(v[j]) >= 10 {
            return j;
        }
        j = j + 1;
    }
    j
}

/// Splitting digits finds exactly the leading digit run.
proof fn lemma_split_digits_shape(s: Seq<char>, j: int)
    requires
        0 <= j <= s.len(),
        forall|i: int| 0 <= i < j ==> is_digit_char(s[i]),
        j == s.len() || !is_digit_char(s[j]),
    ensures
        split_digits(s) == (s.subrange(0, j), s.subrange(j, s.len() as int)),
    decreases j,
{
    if j == 0 {
        assert(s.subrange(0, 0) =~= Seq::<char>::empty());
        assert(s.subrange(0, s.len() as int) =~= s);
    } else {
        assert(is_digit_char(s[0]));
        let t = s.drop_first();
        assert forall|i: int| 0 <= i < j - 1 implies is_digit_char(t[i]) by {
            assert(t[i] == s[i + 1]);
        }
        lemma_split_digits_shape(t, j - 1);
        assert(seq![s[0]] + t.subrange(0, j - 1) =~= s.subrange(0, j));
        assert(t.subrange(j - 1, t.len() as int) =~= s.subrange(j, s.len() as int));
    }
}

/// Reads a `<digits>:` length prefix from `pos`; `None` also covers a count
/// too large for the machine, which no well-formed input can reach.
fn p_count(v: &Vec<char>, pos: usize) -> (r: Option<(usize, usize)>)
    requires
        pos <= v@.len(),
    ensures
        match r {
            Some((cnt, p2)) => pos <= p2 <= v@.len() && dec_len(tail_of(v@, pos as int)) == Some(
                (cnt as nat, tail_of(v@, p2 as int)),
            ),
            None => dec_len(tail_of(v@, pos as int)) is None || dec_len(
                tail_of(v@, pos as int),
            )->Some_0.0 > usize::MAX,
        },
{
    let n = v.len();
    let j = scan_digits(v, pos);
    let ghost t = tail_of(v@, pos as int);
    proof {
        assert forall|i: int| 0 <= i < j - pos implies is_digit_char(t[i]) by {
            assert(t[i] == v@[pos + i]);
        }
        if j - pos < t.len() {
            assert(t[j - pos] == v@[j as int]);
        }
        lemma_split_digits_shape(t, j as int - pos as int);
        assert(split_digits(t).0 =~= v@.subrange(pos as int, j as int));
        assert(split_digits(t).1 =~= tail_of(v@, j as int));
    }
    if j == pos {
        return None;
    }
    if j == n {
        return None;
    }
    if v[j] != ':' {
        proof {
            assert(tail_of(v@, j as int)[0] == v@[j as int]);
        }
        return None;
    }
    let mut digits: Vec<char> = Vec::new();
    let mut i: usize = pos;
    while i < j
        invariant
            pos <= i <= j <= v@.len(),
            digits@ == v@.subrange(pos as int, i as int),
        decreases j - i,
    {
        digits.push(v[i]);
        i = i + 1;
        proof {
            assert(digits@ =~= v@.subrange(pos as int, i as int));
        }
    }
    proof {
        assert(digits@ =~= v@.subrange(pos as int, j as int));
        assert(tail_of(v@, j as int)[0] == ':');
        assert(tail_of(v@, j as int).subrange(1, tail_of(v@, j as int).len() as int) =~= tail_of(
            v@,
            j as int + 1,
        ));
    }
    match parse_dec_chars(&digits) {
        Some(cnt) => Some((cnt, j + 1)),
        None => {
            proof {
                assert(all_digits(digits@));
                assert(digits@.len() > 0);
                assert(dec_value(digits@) > usize::MAX);
            }
            None
        },
    }
}

/// Reads a `<len>:<chars>` string from `pos`.
fn p_str(v: &Vec<char>, pos: usize) -> (r: Option<(String, usize)>)
    requires
        pos <= v@.len(),
    ensures
        match r {
            Some((s, p2)) => pos <= p2 <= v@.len() && dec_str(tail_of(v@, pos as int)) == Some(
                (s@, tail_of(v@, p2 as int)),
            ),
            None => dec_str(tail_of(v@, pos as int)) is None,
        },
{
    let n = v.len();
    match p_count(v, pos) {
        None => {
            proof {
                let t = tail_of(v@, pos as int);
                lemma_split_digits_len(t);
                if dec_len(t) is Some {
                    let (cnt, rest) = dec_len(t)->Some_0;
                    assert(cnt > usize::MAX);
                    assert(rest.len() <= v@.len());
                    assert(cnt > rest.len());
                }
            }
            None
        },
        Some((cnt, p1)) => {
            if cnt > n - p1 {
                proof {
                    assert(tail_of(v@, p1 as int).len() == n - p1);
                }
                None
            } else {
                let mut body: Vec<char> = Vec::new();
                let mut i: usize = p1;
                while i < p1 + cnt
                    invariant
                        p1 <= i <= p1 + cnt,
                        p1 + cnt <= n,
                        n == v@.len(),
                        body@ == v@.subrange(p1 as int, i as int),
                    decreases p1 + cnt - i,
                {
                    body.push(v[i]);
                    i = i + 1;
                    proof {
                        assert(body@ =~= v@.subrange(p1 as int, i as int));
                    }
                }
                let s = string_of(&body);
                proof {
                    let t1 = tail_of(v@, p1 as int);
                    assert(t1.subrange(0, cnt as int) =~= v@.subrange(
                        p1 as int,
                        p1 as int + cnt as int,
                    ));
                    assert(s@ =~= t1.subrange(0, cnt as int));
                    assert(t1.subrange(cnt as int, t1.len() as int) =~= tail_of(
                        v@,
                        p1 as int + cnt as int,
                    ));
                }
                Some((s, p1 + cnt))
            }
        },
    }
}

/// Reads an optional string behind its `0`/`1` marker.
fn p_opt_str(v: &Vec<char>, pos: usize) -> (r: Option<(Option<String>, usize)>)
    requires
        pos <= v@.len(),
    ensures
        match r {
            Some((o, p2)) => pos <= p2 <= v@.len() && dec_opt_str(tail_of(v@, pos as int)) == Some(
                (
                    match o {
                        Some(ref s) => Some(s@),
                        None => None,
                    },
                    tail_of(v@, p2 as int),
                ),
            ),
            None => dec_opt_str(tail_of(v@, pos as int)) is None,
        },
{
    let n = v.len();
    if pos == n {
        return None;
    }
    let c = v[pos];
    proof {
        assert(tail_of(v@, pos as int)[0] == v@[pos as int]);
        assert(tail_of(v@, pos as int).drop_first() =~= tail_of(v@, pos as int + 1));
    }
    if c == '0' {
        Some((None, pos + 1))
    } else if c == '1' {
        match p_str(v, pos + 1) {
            None => None,
            Some((s, p2)) => Some((Some(s), p2)),
        }
    } else {
        None
    }
}

/// Reads one condition behind its kind marker.
fn p_condition(v: &Vec<char>, pos: usize) -> (r: Option<(Condition, usize)>)
    requires
        pos <= v@.len(),
    ensures
        match r {
            Some((c, p2)) => pos <= p2 <= v@.len() && dec_condition(tail_of(v@, pos as int))
                == Some((c@, tail_of(v@, p2 as int))),
            None => dec_condition(tail_of(v@, pos as int)) is None,
        },
{
    let n = v.len();
    if pos == n {
        return None;
    }
    let c = v[pos];
    proof {
        assert(tail_of(v@, pos as int)[0] == v@[pos as int]);
        assert(tail_of(v@, pos as int).drop_first() =~= tail_of(v@, pos as int + 1));
    }
    if c == 'p' {
        match p_str(v, pos + 1) {
            None => None,
            Some((s, p2)) => Some((Condition::MatchPhrase(s), p2)),
        }
    } else if c == 'r' {
        match p_str(v, pos + 1) {
            None => None,
            Some((s, p2)) => Some((Condition::MatchRegex(s), p2)),
        }
    } else {
        None
    }
}

/// Reads one action behind its kind marker.
fn p_action(v: &Vec<char>, pos: usize) -> (r: Option<(Action, usize)>)
    requires
        pos <= v@.len(),
    ensures
        match r {
            Some((a, p2)) => pos <= p2 <= v@.len() && dec_action(tail_of(v@, pos as int)) == Some(
                (a@, tail_of(v@, p2 as int)),
            ),
            None => dec_action(tail_of(v@, pos as int)) is None,
        },
{
    let n = v.len();
    if pos == n {
        return None;
    }
    let c = v[pos];
    proof {
        assert(tail_of(v@, pos as int)[0] == v@[pos as int]);
        assert(tail_of(v@, pos as int).drop_first() =~= tail_of(v@, pos as int + 1));
    }
    if c == 'e' {
        match p_str(v, pos + 1) {
            None => None,
            Some((s, p2)) => Some((Action::AttachEmoji(s), p2)),
        }
    } else if c == 't' {
        match p_str(v, pos + 1) {
            None => None,
            Some((s, p2)) => Some((Action::ThreadedMessage(s), p2)),
        }
    } else if c == 'c' {
        match p_str(v, pos + 1) {
            None => None,
            Some((s, p2)) => Some((Action::ChannelMessage(s), p2)),
        }
    } else if c == 'o' {
        match p_str(v, pos + 1) {
            None => None,
            Some((policy, p2)) => match p_str(v, p2) {
                None => None,
                Some((message, p3)) => Some(
                    (Action::MsgOncallInThread { escalation_policy_id: policy, message }, p3),
                ),
            },
        }
    } else if c == 'f' {
        match p_str(v, pos + 1) {
            None => None,
            Some((channel, p2)) => match p_str(v, p2) {
                None => None,
                Some((ctx, p3)) => Some(
                    (Action::ForwardMessageToChannel { channel, msg_context: ctx }, p3),
                ),
            },
        }
    } else {
        None
    }
}

/// Reads `n` conditions in order.
fn p_conditions(v: &Vec<char>, pos: usize, n: usize) -> (r: Option<(Vec<Condition>, usize)>)
    requires
        pos <= v@.len(),
    ensures
        match r {
            Some((cs, p2)) => pos <= p2 <= v@.len() && dec_conditions(
                tail_of(v@, pos as int),
                n as nat,
            ) == Some((crate::response::views_of_conditions(cs@), tail_of(v@, p2 as int))),
            None => dec_conditions(tail_of(v@, pos as int), n as nat) is None,
        },
    decreases n,
{
    if n == 0 {
        let cs: Vec<Condition> = Vec::new();
        proof {
            assert(crate::response::views_of_conditions(cs@) =~= Seq::<ConditionView>::empty());
        }
        return Some((cs, pos));
    }
    match p_condition(v, pos) {
        None => None,
        Some((c, p1)) => match p_conditions(v, p1, n - 1) {
            None => None,
            Some((mut cs, p2)) => {
                let ghost prior = crate::response::views_of_conditions(cs@);
                cs.insert(0, c);
                proof {
                    assert(crate::response::views_of_conditions(cs@) =~= seq![c@] + prior);
                }
                Some((cs, p2))
            },
        },
    }
}

/// Reads `n` actions in order.
fn p_actions(v: &Vec<char>, pos: usize, n: usize) -> (r: Option<(Vec<Action>, usize)>)
    requires
        pos <= v@.len(),
    ensures
        match r {
            Some((acts, p2)) => pos <= p2 <= v@.len() && dec_actions(
                tail_of(v@, pos as int),
                n as nat,
            ) == Some((crate::response::views_of_actions(acts@), tail_of(v@, p2 as int))),
            None => dec_actions(tail_of(v@, pos as int), n as nat) is None,
        },
    decreases n,
{
    if n == 0 {
        let acts: Vec<Action> = Vec::new();
        proof {
            assert(crate::response::views_of_actions(acts@) =~= Seq::<ActionView>::empty());
        }
        return Some((acts, pos));
    }
    match p_action(v, pos) {
        None => None,
        Some((a, p1)) => match p_actions(v, p1, n - 1) {
            None => None,
            Some((mut acts, p2)) => {
                let ghost prior = crate::response::views_of_actions(acts@);
                acts.insert(0, a);
                proof {
                    assert(crate::response::views_of_actions(acts@) =~= seq![a@] + prior);
                }
                Some((acts, p2))
            },
        },
    }
}

/// Reads `n` strings in order.
fn p_strs(v: &Vec<char>, pos: usize, n: usize) -> (r: Option<(Vec<String>, usize)>)
    requires
        pos <= v@.len(),
    ensures
        match r {
            Some((ss, p2)) => pos <= p2 <= v@.len() && dec_strs(tail_of(v@, pos as int), n as nat)
                == Some((crate::response::views_of_strings(ss@), tail_of(v@, p2 as int))),
            None => dec_strs(tail_of(v@, pos as int), n as nat) is None,
        },
    decreases n,
{
    if n == 0 {
        let ss: Vec<String> = Vec::new();
        proof {
            assert(crate::response::views_of_strings(ss@) =~= Seq::<Seq<char>>::empty());
        }
        return Some((ss, pos));
    }
    match p_str(v, pos) {
        None => None,
        Some((s, p1)) => match p_strs(v, p1, n - 1) {
            None => None,
            Some((mut ss, p2)) => {
                let ghost prior = crate::response::views_of_strings(ss@);
                ss.insert(0, s);
                proof {
                    assert(crate::response::views_of_strings(ss@) =~= seq![s@] + prior);
                }
                Some((ss, p2))
            },
        },
    }
}

/// Reads a whole rule.
fn p_response(v: &Vec<char>, pos: usize) -> (r: Option<(ReceptionistResponse, usize)>)
    requires
        pos <= v@.len(),
    ensures
        match r {
            Some((resp, p2)) => pos <= p2 <= v@.len() && dec_response(tail_of(v@, pos as int))
                == Some((resp@, tail_of(v@, p2 as int))),
            None => dec_response(tail_of(v@, pos as int)) is None,
        },
{
    let n = v.len();
    let (id, p1) = match p_str(v, pos) {
        None => {
            return None;
        },
        Some(x) => x,
    };
    let (channel, p2) = match p_str(v, p1) {
        None => {
            return None;
        },
        Some(x) => x,
    };
    let (nc, p3) = match p_count(v, p2) {
        None => {
            proof {
                let t = tail_of(v@, p2 as int);
                lemma_split_digits_len(t);
                if dec_len(t) is Some {
                    let (cnt, rest) = dec_len(t)->Some_0;
                    lemma_dec_conditions_bound(rest, cnt);
                    assert(rest.len() <= v@.len());
                }
            }
            return None;
        },
        Some(x) => x,
    };
    let (conditions, p4) = match p_conditions(v, p3, nc) {
        None => {
            return None;
        },
        Some(x) => x,
    };
    let (na, p5) = match p_count(v, p4) {
        None => {
            proof {
                let t = tail_of(v@, p4 as int);
                lemma_split_digits_len(t);
                if dec_len(t) is Some {
                    let (cnt, rest) = dec_len(t)->Some_0;
                    lemma_dec_actions_bound(rest, cnt);
                    assert(rest.len() <= v@.len());
                }
            }
            return None;
        },
        Some(x) => x,
    };
    let (actions, p6) = match p_actions(v, p5, na) {
        None => {
            return None;
        },
        Some(x) => x,
    };
    let (nu, p7) = match p_count(v, p6) {
        None => {
            proof {
                let t = tail_of(v@, p6 as int);
                lemma_split_digits_len(t);
                if dec_len(t) is Some {
                    let (cnt, rest) = dec_len(t)->Some_0;
                    lemma_dec_strs_bound(rest, cnt);
                    assert(rest.len() <= v@.len());
                }
            }
            return None;
        },
        Some(x) => x,
    };
    let (collaborators, p8) = match p_strs(v, p7, nu) {
        None => {
            return None;
        },
        Some(x) => x,
    };
    let resp = ReceptionistResponse {
        id,
        listener: ListenerEvent::SlackChannelMessage { channel_id: channel },
        conditions,
        actions,
        collaborators,
    };
    Some((resp, p8))
}

impl MetaForManagerView {
    /// Deserializes a session from its opaque token; `None` on any token this
    /// library did not produce.
    pub fn from_token(token: &str) -> (r: Option<MetaForManagerView>)
        ensures
            match r {
                Some(m) => dec_meta(token@) == Some(m@),
                None => dec_meta(token@) is None,
            },
    {
        let v = chars_of(token);
        let n = v.len();
        proof {
            assert(tail_of(v@, 0) =~= token@);
        }
        if n == 0 {
            return None;
        }
        let m = v[0];
        proof {
            assert(token@[0] == v@[0]);
            assert(token@.drop_first() =~= tail_of(v@, 1));
        }
        let mode = if m == 'h' {
            ManagerViewMode::Home
        } else if m == 'c' {
            ManagerViewMode::CreateResponse
        } else if m == 'e' {
            ManagerViewMode::EditResponse
        } else if m == 'd' {
            ManagerViewMode::DeleteResponse
        } else {
            return None;
        };
        let (user_id, p1) = match p_str(&v, 1) {
            None => {
                return None;
            },
            Some(x) => x,
        };
        let (existing_response_id, p2) = match p_opt_str(&v, p1) {
            None => {
                return None;
            },
            Some(x) => x,
        };
        if p2 == n {
            return None;
        }
        let marker = v[p2];
        proof {
            assert(tail_of(v@, p2 as int)[0] == v@[p2 as int]);
            assert(tail_of(v@, p2 as int).drop_first() =~= tail_of(v@, p2 as int + 1));
        }
        if marker == '0' {
            if p2 + 1 == n {
                Some(
                    MetaForManagerView {
                        current_mode: mode,
                        user_id,
                        existing_response_id,
                        response: None,
                    },
                )
            } else {
                None
            }
        } else if marker == '1' {
            match p_response(&v, p2 + 1) {
                None => None,
                Some((resp, p3)) => {
                    if p3 == n {
                        Some(
                            MetaForManagerView {
                                current_mode: mode,
                                user_id,
                                existing_response_id,
                                response: Some(resp),
                            },
                        )
                    } else {
                        None
                    }
                },
            }
        } else {
            None
        }
    }
}

} // verus!
