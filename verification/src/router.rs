//! The composite field-identifier scheme: every editable form field carries
//! an action id `"<field-kind>_IDX_<index>"` (index 0 when the field is not
//! part of a list), and a block id that prefixes the same string with
//! `"BLOCK-"`. Routing an inbound event means finding the variant whose name
//! prefixes the incoming identifier, then reading the index after the
//! delimiter.

use vstd::prelude::*;
use vstd::string::*;
use crate::errors::ReceptionistError;
use crate::strutil::{
    all_digits,
    chars_of,
    dec_digits,
    dec_value,
    is_prefix_of,
    parse_dec_chars,
    starts_with,
    usize_to_dec_string,
};

verus! {

/// Routes a nested action identifier to its handler.
#[derive(Debug, Clone, Copy, PartialEq, Eq, Structural)]
pub enum BlockSectionRouter {
    ManagerModeSelection,
    ResponseSelection,
    CollaboratorSelection,
    ListenerChannelSelected,
    ConditionTypeSelected,
    MessageConditionValueInput,
    ActionTypeSelected,
    AttachEmojiInput,
    ReplyThreadedMsgInput,
    PostChannelMsgInput,
    PDEscalationPolicyInput,
    PDThreadedMsgInput,
    FwdMsgToChanChannelInput,
    FwdMsgToChanMsgContextInput,
}

impl BlockSectionRouter {
    /// The stable name of this field kind.
    pub open spec fn route_name(self) -> Seq<char> {
        match self {
            BlockSectionRouter::ManagerModeSelection => "manager-mode-selection"@,
            BlockSectionRouter::ResponseSelection => "response-selection"@,
            BlockSectionRouter::CollaboratorSelection => "collaborator-selection"@,
            BlockSectionRouter::ListenerChannelSelected => "listener-channel-selected"@,
            BlockSectionRouter::ConditionTypeSelected => "condition-type-selected"@,
            BlockSectionRouter::MessageConditionValueInput => "message-condition-value-input"@,
            BlockSectionRouter::ActionTypeSelected => "action-type-selected"@,
            BlockSectionRouter::AttachEmojiInput => "attach-emoji-input"@,
            BlockSectionRouter::ReplyThreadedMsgInput => "reply-threaded-msg-input"@,
            BlockSectionRouter::PostChannelMsgInput => "post-channel-msg-input"@,
            BlockSectionRouter::PDEscalationPolicyInput => "pd-escalation-policy-input"@,
            BlockSectionRouter::PDThreadedMsgInput => "pd-threaded-msg-input"@,
            BlockSectionRouter::FwdMsgToChanChannelInput => "fwd-msg-to-chan-channel-input"@,
            BlockSectionRouter::FwdMsgToChanMsgContextInput => (
            "fwd-msg-to-chan-msg-context-input"@),
        }
    }

    /// The exec mirror of `route_name`.
    pub fn as_str(&self) -> (r: &'static str)
        ensures
            r@ == self.route_name(),
    {
        match self {
            BlockSectionRouter::ManagerModeSelection => "manager-mode-selection",
            BlockSectionRouter::ResponseSelection => "response-selection",
            BlockSectionRouter::CollaboratorSelection => "collaborator-selection",
            BlockSectionRouter::ListenerChannelSelected => "listener-channel-selected",
            BlockSectionRouter::ConditionTypeSelected => "condition-type-selected",
            BlockSectionRouter::MessageConditionValueInput => "message-condition-value-input",
            BlockSectionRouter::ActionTypeSelected => "action-type-selected",
            BlockSectionRouter::AttachEmojiInput => "attach-emoji-input",
            BlockSectionRouter::ReplyThreadedMsgInput => "reply-threaded-msg-input",
            BlockSectionRouter::PostChannelMsgInput => "post-channel-msg-input",
            BlockSectionRouter::PDEscalationPolicyInput => "pd-escalation-policy-input",
            BlockSectionRouter::PDThreadedMsgInput => "pd-threaded-msg-input",
            BlockSectionRouter::FwdMsgToChanChannelInput => "fwd-msg-to-chan-channel-input",
            BlockSectionRouter::FwdMsgToChanMsgContextInput => "fwd-msg-to-chan-msg-context-input",
        }
    }

    /// The delimiter between the field kind and the list index.
    pub fn index_delimiter() -> (r: &'static str)
        ensures
            r@ == "_IDX_"@,
    {
        "_IDX_"
    }

    /// The identifier for this field kind at `index` (0 when absent).
    pub open spec fn spec_with_index(self, index: nat) -> Seq<char> {
        self.route_name() + "_IDX_"@ + dec_digits(index)
    }

    /// The block identifier for this field kind at `index`.
    pub open spec fn spec_block_id(self, index: nat) -> Seq<char> {
        "BLOCK-"@ + self.spec_with_index(index)
    }

    pub fn to_string_with_index(&self, index: Option<usize>) -> (r: String)
        ensures
            r@ == self.spec_with_index(
                match index {
                    Some(i) => i as nat,
                    None => 0,
                },
            ),
    {
        let idx: usize = match index {
            Some(i) => i,
            None => 0,
        };
        let mut s: String = self.as_str().to_owned();
        s.append(Self::index_delimiter());
        let digits = usize_to_dec_string(idx);
        s.append(digits.as_str());
        s
    }

    /// The action id of this field: the composite identifier itself.
    pub fn to_action_id(&self, index: Option<usize>) -> (r: String)
        ensures
            r@ == self.spec_with_index(
                match index {
                    Some(i) => i as nat,
                    None => 0,
                },
            ),
    {
        self.to_string_with_index(index)
    }

    /// The block id of this field: the identifier behind a `BLOCK-` prefix.
    pub fn to_block_id(&self, index: Option<usize>) -> (r: String)
        ensures
            r@ == self.spec_block_id(
                match index {
                    Some(i) => i as nat,
                    None => 0,
                },
            ),
    {
        let mut s: String = "BLOCK-".to_owned();
        let rest = self.to_string_with_index(index);
        s.append(rest.as_str());
        s
    }

    /// The first route whose name prefixes `s`, if any.
    pub open spec fn spec_find_route(s: Seq<char>) -> Option<BlockSectionRouter> {
        if is_prefix_of("manager-mode-selection"@, s) {
            Some(BlockSectionRouter::ManagerModeSelection)
        } else if is_prefix_of("response-selection"@, s) {
            Some(BlockSectionRouter::ResponseSelection)
        } else if is_prefix_of("collaborator-selection"@, s) {
            Some(BlockSectionRouter::CollaboratorSelection)
        } else if is_prefix_of("listener-channel-selected"@, s) {
            Some(BlockSectionRouter::ListenerChannelSelected)
        } else if is_prefix_of("condition-type-selected"@, s) {
            Some(BlockSectionRouter::ConditionTypeSelected)
        } else if is_prefix_of("message-condition-value-input"@, s) {
            Some(BlockSectionRouter::MessageConditionValueInput)
        } else if is_prefix_of("action-type-selected"@, s) {
            Some(BlockSectionRouter::ActionTypeSelected)
        } else if is_prefix_of("attach-emoji-input"@, s) {
            Some(BlockSectionRouter::AttachEmojiInput)
        } else if is_prefix_of("reply-threaded-msg-input"@, s) {
            Some(BlockSectionRouter::ReplyThreadedMsgInput)
        } else if is_prefix_of("post-channel-msg-input"@, s) {
            Some(BlockSectionRouter::PostChannelMsgInput)
        } else if is_prefix_of("pd-escalation-policy-input"@, s) {
            Some(BlockSectionRouter::PDEscalationPolicyInput)
        } else if is_prefix_of("pd-threaded-msg-input"@, s) {
            Some(BlockSectionRouter::PDThreadedMsgInput)
        } else if is_prefix_of("fwd-msg-to-chan-channel-input"@, s) {
            Some(BlockSectionRouter::FwdMsgToChanChannelInput)
        } else if is_prefix_of("fwd-msg-to-chan-msg-context-input"@, s) {
            Some(BlockSectionRouter::FwdMsgToChanMsgContextInput)
        } else {
            None
        }
    }

    /// Routes an identifier by prefix; a partial-prefix match succeeds even
    /// without an index suffix.
    pub fn find_route(action_id: &str) -> (r: Option<BlockSectionRouter>)
        ensures
            r == Self::spec_find_route(action_id@),
    {
        if starts_with(action_id, "manager-mode-selection") {
            Some(BlockSectionRouter::ManagerModeSelection)
        } else if starts_with(action_id, "response-selection") {
            Some(BlockSectionRouter::ResponseSelection)
        } else if starts_with(action_id, "collaborator-selection") {
            Some(BlockSectionRouter::CollaboratorSelection)
        } else if starts_with(action_id, "listener-channel-selected") {
            Some(BlockSectionRouter::ListenerChannelSelected)
        } else if starts_with(action_id, "condition-type-selected") {
            Some(BlockSectionRouter::ConditionTypeSelected)
        } else if starts_with(action_id, "message-condition-value-input") {
            Some(BlockSectionRouter::MessageConditionValueInput)
        } else if starts_with(action_id, "action-type-selected") {
            Some(BlockSectionRouter::ActionTypeSelected)
        } else if starts_with(action_id, "attach-emoji-input") {
            Some(BlockSectionRouter::AttachEmojiInput)
        } else if starts_with(action_id, "reply-threaded-msg-input") {
            Some(BlockSectionRouter::ReplyThreadedMsgInput)
        } else if starts_with(action_id, "post-channel-msg-input") {
            Some(BlockSectionRouter::PostChannelMsgInput)
        } else if starts_with(action_id, "pd-escalation-policy-input") {
            Some(BlockSectionRouter::PDEscalationPolicyInput)
        } else if starts_with(action_id, "pd-threaded-msg-input") {
            Some(BlockSectionRouter::PDThreadedMsgInput)
        } else if starts_with(action_id, "fwd-msg-to-chan-channel-input") {
            Some(BlockSectionRouter::FwdMsgToChanChannelInput)
        } else if starts_with(action_id, "fwd-msg-to-chan-msg-context-input") {
            Some(BlockSectionRouter::FwdMsgToChanMsgContextInput)
        } else {
            None
        }
    }

    /// Routes an action identifier by prefix.
    pub fn from_action_id(action_id: &str) -> (r: Option<BlockSectionRouter>)
        ensures
            r == Self::spec_find_route(action_id@),
    {
        Self::find_route(action_id)
    }

    /// Routes an action identifier and also reads its index suffix.
    pub fn from_action_id_with_index(action_id: &str) -> (r: Option<
        (BlockSectionRouter, Result<usize, ReceptionistError>),
    >)
        ensures
            match r {
                Some((route, index_result)) => {
                    &&& Self::spec_find_route(action_id@) == Some(route)
                    &&& index_result_matches(action_id@, index_result)
                },
                None => Self::spec_find_route(action_id@) is None,
            },
    {
        Self::from_string_with_index(action_id)
    }

    /// Routes an identifier and also reads its index suffix.
    pub fn from_string_with_index(action_id_str: &str) -> (r: Option<
        (BlockSectionRouter, Result<usize, ReceptionistError>),
    >)
        ensures
            match r {
                Some((route, index_result)) => {
                    &&& Self::spec_find_route(action_id_str@) == Some(route)
                    &&& index_result_matches(action_id_str@, index_result)
                },
                None => Self::spec_find_route(action_id_str@) is None,
            },
    {
        match Self::find_route(action_id_str) {
            Some(route) => Some((route, Self::get_index_from_action_id_str(action_id_str))),
            None => None,
        }
    }

    /// Reads the list index after the first `_IDX_` delimiter.
    pub fn get_index_from_action_id_str(action_id: &str) -> (r: Result<usize, ReceptionistError>)
        ensures
            index_result_matches(action_id@, r),
    {
        let v = chars_of(action_id);
        match find_first_delim(&v) {
            Some(pos) => {
                let n = v.len();
                let mut suffix: Vec<char> = Vec::new();
                let mut i: usize = pos + 5;
                while i < v.len()
                    invariant
                        pos + 5 <= i <= v.len(),
                        suffix@ == v@.subrange(pos + 5, i as int),
                    decreases v.len() - i,
                {
                    suffix.push(v[i]);
                    i = i + 1;
                    proof {
                        assert(suffix@ =~= v@.subrange(pos + 5, i as int));
                    }
                }
                proof {
                    assert(suffix@ =~= v@.subrange(pos + 5, v@.len() as int));
                    if exists|i: int| first_delim_at(v@, i) {
                        let i0 = choose|i: int| first_delim_at(v@, i);
                        lemma_first_delim_unique(v@, i0, pos as int);
                    }
                }
                match parse_dec_chars(&suffix) {
                    Some(n) => Ok(n),
                    None => Err(ReceptionistError::IndexError),
                }
            },
            None => {
                proof {
                    assert forall|i: int| !first_delim_at(v@, i) by {
                        assert(!delim_at(v@, i));
                    }
                }
                Err(ReceptionistError::IndexError)
            },
        }
    }
}

/// The list index an identifier carries, when it parses and fits the
/// machine.
pub open spec fn spec_index_ok(action_id: Seq<char>) -> Option<nat> {
    match spec_first_delim(action_id) {
        None => None,
        Some(i) => {
            let suffix = suffix_after_delim(action_id, i);
            if suffix.len() > 0 && all_digits(suffix) && dec_value(suffix) <= usize::MAX {
                Some(dec_value(suffix))
            } else {
                None
            }
        },
    }
}

/// What index extraction returns is exactly `spec_index_ok`.
pub proof fn lemma_index_result_to_spec(s: Seq<char>, r: Result<usize, ReceptionistError>)
    requires
        index_result_matches(s, r),
    ensures
        match r {
            Ok(n) => spec_index_ok(s) == Some(n as nat),
            Err(e) => spec_index_ok(s) is None && e == ReceptionistError::IndexError,
        },
{
    match r {
        Ok(n) => {
            let i = choose|i: int|
                #[trigger] first_delim_at(s, i) && {
                    let suffix = suffix_after_delim(s, i);
                    suffix.len() > 0 && all_digits(suffix) && n as nat == dec_value(suffix)
                };
            assert(first_delim_at(s, i));
            let i0 = choose|j: int| first_delim_at(s, j);
            lemma_first_delim_unique(s, i, i0);
        },
        Err(_) => {},
    }
}

/// There is only one first delimiter position.
pub proof fn lemma_first_delim_unique(s: Seq<char>, i: int, j: int)
    requires
        first_delim_at(s, i),
        first_delim_at(s, j),
    ensures
        i == j,
{
    if i < j {
        assert(!delim_at(s, i));
    } else if j < i {
        assert(!delim_at(s, j));
    }
}

/// `"_IDX_"` stands at position `i` of `s`.
pub open spec fn delim_at(s: Seq<char>, i: int) -> bool {
    0 <= i && i + 5 <= s.len() && s.subrange(i, i + 5) == "_IDX_"@
}

/// `i` is the position of the first delimiter in `s`.
pub open spec fn first_delim_at(s: Seq<char>, i: int) -> bool {
    delim_at(s, i) && forall|j: int| 0 <= j < i ==> !delim_at(s, j)
}

/// What follows the first delimiter of `s`.
pub open spec fn suffix_after_delim(s: Seq<char>, i: int) -> Seq<char> {
    s.subrange(i + 5, s.len() as int)
}

/// The contract of index extraction: `Ok(n)` exactly when a delimiter exists
/// and a decimal number that fits follows the first one.
pub open spec fn index_result_matches(s: Seq<char>, r: Result<usize, ReceptionistError>) -> bool {
    match r {
        Ok(n) => exists|i: int|
            #[trigger] first_delim_at(s, i) && {
                let suffix = suffix_after_delim(s, i);
                suffix.len() > 0 && all_digits(suffix) && n as nat == dec_value(suffix)
            },
        Err(e) => e == ReceptionistError::IndexError && (match spec_first_delim(s) {
            Some(i) => {
                let suffix = suffix_after_delim(s, i);
                suffix.len() == 0 || !all_digits(suffix) || dec_value(suffix) > usize::MAX
            },
            None => true,
        }),
    }
}

/// The position of the first delimiter, if one exists.
pub open spec fn spec_first_delim(s: Seq<char>) -> Option<int> {
    if exists|i: int| first_delim_at(s, i) {
        Some(choose|i: int| first_delim_at(s, i))
    } else {
        None
    }
}

/// Finds the leftmost delimiter occurrence.
fn find_first_delim(v: &Vec<char>) -> (r: Option<usize>)
    ensures
        match r {
            Some(i) => first_delim_at(v@, i as int),
            None => forall|j: int| !delim_at(v@, j),
        },
{
    let n = v.len();
    if n < 5 {
        proof {
            assert(forall|j: int| !delim_at(v@, j));
        }
        return None;
    }
    let mut i: usize = 0;
    while i <= n - 5
        invariant
            n == v@.len(),
            5 <= n,
            i <= n - 5 + 1,
            forall|j: int| 0 <= j < i ==> !delim_at(v@, j),
        decreases n - 5 - i + 1,
    {
        if delim_at_exec(v, i) {
            return Some(i);
        }
        i = i + 1;
    }
    proof {
        assert forall|j: int| !delim_at(v@, j) by {
            if j > n - 5 {
                assert(!delim_at(v@, j));
            }
        }
    }
    None
}

/// Whether the delimiter stands at position `i`.
fn delim_at_exec(v: &Vec<char>, i: usize) -> (r: bool)
    requires
        i + 5 <= v@.len(),
    ensures
        r == delim_at(v@, i as int),
{
    proof {
        reveal_strlit("_IDX_");
    }
    let n = v.len();
    let r = v[i] == '_' && v[i + 1] == 'I' && v[i + 2] == 'D' && v[i + 3] == 'X' && v[i + 4] == '_';
    proof {
        let sub = v@.subrange(i as int, i as int + 5);
        if r {
            assert(sub =~= "_IDX_"@);
        } else {
            if sub == "_IDX_"@ {
                assert(sub[0] == '_' && sub[1] == 'I' && sub[2] == 'D' && sub[3] == 'X' && sub[4]
                    == '_');
                assert(false);
            }
        }
    }
    r
}

} // verus!

verus! {

/// A generated identifier routes back to the field kind it was made for, and
/// its index reads back exactly: the composite encoding round-trips.
pub proof fn lemma_field_identifier_round_trip(route: BlockSectionRouter, index: nat)
    requires
        index <= usize::MAX,
    ensures
        BlockSectionRouter::spec_find_route(route.spec_with_index(index)) == Some(route),
        spec_index_ok(route.spec_with_index(index)) == Some(index),
{
    reveal_strlit("manager-mode-selection");
    reveal_strlit("response-selection");
    reveal_strlit("collaborator-selection");
    reveal_strlit("listener-channel-selected");
    reveal_strlit("condition-type-selected");
    reveal_strlit("message-condition-value-input");
    reveal_strlit("action-type-selected");
    reveal_strlit("attach-emoji-input");
    reveal_strlit("reply-threaded-msg-input");
    reveal_strlit("post-channel-msg-input");
    reveal_strlit("pd-escalation-policy-input");
    reveal_strlit("pd-threaded-msg-input");
    reveal_strlit("fwd-msg-to-chan-channel-input");
    reveal_strlit("fwd-msg-to-chan-msg-context-input");
    reveal_strlit("_IDX_");
    lemma_route_prefixes_distinct(route, index);
    let name = route.route_name();
    let digits = dec_digits(index);
    let s = route.spec_with_index(index);
    crate::strutil::lemma_dec_round_trip(index);
    assert(s =~= name + "_IDX_"@ + digits);
    assert(s.subrange(0, name.len() as int) =~= name);
    assert(is_prefix_of(name, s));
    // the delimiter stands right after the name, and nowhere earlier: route
    // names hold no underscore
    assert(s.subrange(name.len() as int, name.len() as int + 5) =~= "_IDX_"@);
    assert(delim_at(s, name.len() as int));
    assert forall|j: int| 0 <= j < name.len() as int implies !delim_at(s, j) by {
        if delim_at(s, j) {
            assert(s.subrange(j, j + 5)[0] == '_');
            assert(s[j] == '_');
            if j < name.len() {
                assert(name[j] == '_');
            }
        }
    }
    assert(first_delim_at(s, name.len() as int));
    let i0 = choose|i: int| first_delim_at(s, i);
    lemma_first_delim_unique(s, i0, name.len() as int);
    assert(suffix_after_delim(s, name.len() as int) =~= digits);
    assert(spec_index_ok(s) == Some(index));
}

} // verus!

verus! {

/// A string differing from `n` inside `n`'s extent is not prefixed by `n`.
proof fn lemma_not_prefix_at(n: Seq<char>, s: Seq<char>, d: int)
    requires
        0 <= d < n.len(),
        d < s.len(),
        s[d] != n[d],
    ensures
        !is_prefix_of(n, s),
{
    if is_prefix_of(n, s) {
        assert(s.subrange(0, n.len() as int)[d] == n[d]);
    }
}

/// No route name prefixes another route's generated identifier, so prefix
/// routing is unambiguous.
#[verifier::rlimit(100)]
proof fn lemma_route_prefixes_distinct(route: BlockSectionRouter, index: nat)
    ensures
        BlockSectionRouter::spec_find_route(route.spec_with_index(index)) == Some(route),
{
    reveal_strlit("manager-mode-selection");
    reveal_strlit("response-selection");
    reveal_strlit("collaborator-selection");
    reveal_strlit("listener-channel-selected");
    reveal_strlit("condition-type-selected");
    reveal_strlit("message-condition-value-input");
    reveal_strlit("action-type-selected");
    reveal_strlit("attach-emoji-input");
    reveal_strlit("reply-threaded-msg-input");
    reveal_strlit("post-channel-msg-input");
    reveal_strlit("pd-escalation-policy-input");
    reveal_strlit("pd-threaded-msg-input");
    reveal_strlit("fwd-msg-to-chan-channel-input");
    reveal_strlit("fwd-msg-to-chan-msg-context-input");
    let name = route.route_name();
    let s = route.spec_with_index(index);
    crate::strutil::lemma_dec_round_trip(index);
    assert(s =~= name + ("_IDX_"@ + dec_digits(index)));
    assert(s.subrange(0, name.len() as int) =~= name);
    assert(is_prefix_of(name, s));
    match route {
        BlockSectionRouter::ManagerModeSelection => {
        },
        BlockSectionRouter::ResponseSelection => {
            lemma_not_prefix_at("manager-mode-selection"@, s, 0);
        },
        BlockSectionRouter::CollaboratorSelection => {
            lemma_not_prefix_at("manager-mode-selection"@, s, 0);
            lemma_not_prefix_at("response-selection"@, s, 0);
        },
        BlockSectionRouter::ListenerChannelSelected => {
            lemma_not_prefix_at("manager-mode-selection"@, s, 0);
            lemma_not_prefix_at("response-selection"@, s, 0);
            lemma_not_prefix_at("collaborator-selection"@, s, 0);
        },
        BlockSectionRouter::ConditionTypeSelected => {
            lemma_not_prefix_at("manager-mode-selection"@, s, 0);
            lemma_not_prefix_at("response-selection"@, s, 0);
            lemma_not_prefix_at("collaborator-selection"@, s, 2);
            lemma_not_prefix_at("listener-channel-selected"@, s, 0);
        },
        BlockSectionRouter::MessageConditionValueInput => {
            lemma_not_prefix_at("manager-mode-selection"@, s, 1);
            lemma_not_prefix_at("response-selection"@, s, 0);
            lemma_not_prefix_at("collaborator-selection"@, s, 0);
            lemma_not_prefix_at("listener-channel-selected"@, s, 0);
            lemma_not_prefix_at("condition-type-selected"@, s, 0);
        },
        BlockSectionRouter::ActionTypeSelected => {
            lemma_not_prefix_at("manager-mode-selection"@, s, 0);
            lemma_not_prefix_at("response-selection"@, s, 0);
            lemma_not_prefix_at("collaborator-selection"@, s, 0);
            lemma_not_prefix_at("listener-channel-selected"@, s, 0);
            lemma_not_prefix_at("condition-type-selected"@, s, 0);
            lemma_not_prefix_at("message-condition-value-input"@, s, 0);
        },
        BlockSectionRouter::AttachEmojiInput => {
            lemma_not_prefix_at("manager-mode-selection"@, s, 0);
            lemma_not_prefix_at("response-selection"@, s, 0);
            lemma_not_prefix_at("collaborator-selection"@, s, 0);
            lemma_not_prefix_at("listener-channel-selected"@, s, 0);
            lemma_not_prefix_at("condition-type-selected"@, s, 0);
            lemma_not_prefix_at("message-condition-value-input"@, s, 0);
            lemma_not_prefix_at("action-type-selected"@, s, 1);
        },
        BlockSectionRouter::ReplyThreadedMsgInput => {
            lemma_not_prefix_at("manager-mode-selection"@, s, 0);
            lemma_not_prefix_at("response-selection"@, s, 2);
            lemma_not_prefix_at("collaborator-selection"@, s, 0);
            lemma_not_prefix_at("listener-channel-selected"@, s, 0);
            lemma_not_prefix_at("condition-type-selected"@, s, 0);
            lemma_not_prefix_at("message-condition-value-input"@, s, 0);
            lemma_not_prefix_at("action-type-selected"@, s, 0);
            lemma_not_prefix_at("attach-emoji-input"@, s, 0);
        },
        BlockSectionRouter::PostChannelMsgInput => {
            lemma_not_prefix_at("manager-mode-selection"@, s, 0);
            lemma_not_prefix_at("response-selection"@, s, 0);
            lemma_not_prefix_at("collaborator-selection"@, s, 0);
            lemma_not_prefix_at("listener-channel-selected"@, s, 0);
            lemma_not_prefix_at("condition-type-selected"@, s, 0);
            lemma_not_prefix_at("message-condition-value-input"@, s, 0);
            lemma_not_prefix_at("action-type-selected"@, s, 0);
            lemma_not_prefix_at("attach-emoji-input"@, s, 0);
            lemma_not_prefix_at("reply-threaded-msg-input"@, s, 0);
        },
        BlockSectionRouter::PDEscalationPolicyInput => {
            lemma_not_prefix_at("manager-mode-selection"@, s, 0);
            lemma_not_prefix_at("response-selection"@, s, 0);
            lemma_not_prefix_at("collaborator-selection"@, s, 0);
            lemma_not_prefix_at("listener-channel-selected"@, s, 0);
            lemma_not_prefix_at("condition-type-selected"@, s, 0);
            lemma_not_prefix_at("message-condition-value-input"@, s, 0);
            lemma_not_prefix_at("action-type-selected"@, s, 0);
            lemma_not_prefix_at("attach-emoji-input"@, s, 0);
            lemma_not_prefix_at("reply-threaded-msg-input"@, s, 0);
            lemma_not_prefix_at("post-channel-msg-input"@, s, 1);
        },
        BlockSectionRouter::PDThreadedMsgInput => {
            lemma_not_prefix_at("manager-mode-selection"@, s, 0);
            lemma_not_prefix_at("response-selection"@, s, 0);
            lemma_not_prefix_at("collaborator-selection"@, s, 0);
            lemma_not_prefix_at("listener-channel-selected"@, s, 0);
            lemma_not_prefix_at("condition-type-selected"@, s, 0);
            lemma_not_prefix_at("message-condition-value-input"@, s, 0);
            lemma_not_prefix_at("action-type-selected"@, s, 0);
            lemma_not_prefix_at("attach-emoji-input"@, s, 0);
            lemma_not_prefix_at("reply-threaded-msg-input"@, s, 0);
            lemma_not_prefix_at("post-channel-msg-input"@, s, 1);
            lemma_not_prefix_at("pd-escalation-policy-input"@, s, 3);
        },
        BlockSectionRouter::FwdMsgToChanChannelInput => {
            lemma_not_prefix_at("manager-mode-selection"@, s, 0);
            lemma_not_prefix_at("response-selection"@, s, 0);
            lemma_not_prefix_at("collaborator-selection"@, s, 0);
            lemma_not_prefix_at("listener-channel-selected"@, s, 0);
            lemma_not_prefix_at("condition-type-selected"@, s, 0);
            lemma_not_prefix_at("message-condition-value-input"@, s, 0);
            lemma_not_prefix_at("action-type-selected"@, s, 0);
            lemma_not_prefix_at("attach-emoji-input"@, s, 0);
            lemma_not_prefix_at("reply-threaded-msg-input"@, s, 0);
            lemma_not_prefix_at("post-channel-msg-input"@, s, 0);
            lemma_not_prefix_at("pd-escalation-policy-input"@, s, 0);
            lemma_not_prefix_at("pd-threaded-msg-input"@, s, 0);
        },
        BlockSectionRouter::FwdMsgToChanMsgContextInput => {
            lemma_not_prefix_at("manager-mode-selection"@, s, 0);
            lemma_not_prefix_at("response-selection"@, s, 0);
            lemma_not_prefix_at("collaborator-selection"@, s, 0);
            lemma_not_prefix_at("listener-channel-selected"@, s, 0);
            lemma_not_prefix_at("condition-type-selected"@, s, 0);
            lemma_not_prefix_at("message-condition-value-input"@, s, 0);
            lemma_not_prefix_at("action-type-selected"@, s, 0);
            lemma_not_prefix_at("attach-emoji-input"@, s, 0);
            lemma_not_prefix_at("reply-threaded-msg-input"@, s, 0);
            lemma_not_prefix_at("post-channel-msg-input"@, s, 0);
            lemma_not_prefix_at("pd-escalation-policy-input"@, s, 0);
            lemma_not_prefix_at("pd-threaded-msg-input"@, s, 0);
            lemma_not_prefix_at("fwd-msg-to-chan-channel-input"@, s, 16);
        },
    }
}

} // verus!
