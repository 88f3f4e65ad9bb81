//! Trigger conditions: a whole-word phrase match or a user-supplied regex.
//! Pattern validity is checked at edit time; the matching path may therefore
//! require it and never fails.

use vstd::prelude::*;
use crate::errors::{ReceptionistError, SlackBlockValidationError, ValidationErrorView};
use crate::listeners::ListenerEventDiscriminants;
use crate::matching::{phrase_match, phrase_triggers};
use crate::regexes::{regex_compiles, regex_is_match, regex_matches, regex_pattern_compiles};
use crate::router::BlockSectionRouter;
use crate::strutil::str_eq;

verus! {

/// The spec-level value of a condition.
pub ghost enum ConditionView {
    MatchPhrase(Seq<char>),
    MatchRegex(Seq<char>),
}

impl ConditionView {
    /// The free-text payload of this condition.
    pub open spec fn text(self) -> Seq<char> {
        match self {
            ConditionView::MatchPhrase(s) => s,
            ConditionView::MatchRegex(s) => s,
        }
    }

    /// The same variant, with another payload.
    pub open spec fn with_text(self, t: Seq<char>) -> ConditionView {
        match self {
            ConditionView::MatchPhrase(_) => ConditionView::MatchPhrase(t),
            ConditionView::MatchRegex(_) => ConditionView::MatchRegex(t),
        }
    }

    pub open spec fn kind(self) -> ConditionKind {
        match self {
            ConditionView::MatchPhrase(_) => ConditionKind::MatchPhrase,
            ConditionView::MatchRegex(_) => ConditionKind::MatchRegex,
        }
    }

    /// A default instance of `kind` carrying payload `t`.
    pub open spec fn of_kind(kind: ConditionKind, t: Seq<char>) -> ConditionView {
        match kind {
            ConditionKind::MatchPhrase => ConditionView::MatchPhrase(t),
            ConditionKind::MatchRegex => ConditionView::MatchRegex(t),
        }
    }

    /// Whether evaluation may run this condition: a regex pattern must have
    /// compiled; a failure here is a configuration fault, caught at edit time.
    pub open spec fn match_ready(self) -> bool {
        match self {
            ConditionView::MatchPhrase(_) => true,
            ConditionView::MatchRegex(p) => regex_compiles(p),
        }
    }

    /// Whether an inbound message triggers this condition: a phrase matches
    /// on word boundaries, a regex matches anywhere in the message.
    pub open spec fn triggers(self, message: Seq<char>) -> bool {
        match self {
            ConditionView::MatchPhrase(p) => phrase_triggers(p, message),
            ConditionView::MatchRegex(p) => regex_matches(p, message),
        }
    }

    /// Edit-time validity: a non-empty phrase, or a non-empty pattern that
    /// compiles.
    pub open spec fn valid(self) -> bool {
        match self {
            ConditionView::MatchPhrase(p) => p.len() > 0,
            ConditionView::MatchRegex(p) => p.len() > 0 && regex_compiles(p),
        }
    }

    /// The validation finding of this condition at list position `index`.
    pub open spec fn error_of(self, index: nat) -> Option<ValidationErrorView> {
        match self {
            ConditionView::MatchPhrase(p) => {
                if p.len() == 0 {
                    Some(
                        ValidationErrorView {
                            block_id: BlockSectionRouter::MessageConditionValueInput.spec_block_id(
                                index,
                            ),
                            error_message: "input field is empty"@,
                        },
                    )
                } else {
                    None
                }
            },
            ConditionView::MatchRegex(p) => {
                if p.len() == 0 {
                    Some(
                        ValidationErrorView {
                            block_id: BlockSectionRouter::MessageConditionValueInput.spec_block_id(
                                index,
                            ),
                            error_message: "input field is empty"@,
                        },
                    )
                } else if !regex_compiles(p) {
                    Some(
                        ValidationErrorView {
                            block_id: BlockSectionRouter::MessageConditionValueInput.spec_block_id(
                                index,
                            ),
                            error_message: "invalid regex pattern"@,
                        },
                    )
                } else {
                    None
                }
            },
        }
    }
}

/// Every valid condition is ready for matching.
pub proof fn lemma_condition_valid_match_ready(c: ConditionView)
    requires
        c.valid(),
    ensures
        c.match_ready(),
{
}

/// A trigger condition evaluated against inbound messages.
#[derive(Debug, PartialEq, Eq)]
pub enum Condition {
    MatchPhrase(String),
    MatchRegex(String),
}

impl Clone for Condition {
    fn clone(&self) -> (r: Self)
        ensures
            r == *self,
    {
        match self {
            Condition::MatchPhrase(s) => Condition::MatchPhrase(s.clone()),
            Condition::MatchRegex(s) => Condition::MatchRegex(s.clone()),
        }
    }
}

impl View for Condition {
    type V = ConditionView;

    open spec fn view(&self) -> ConditionView {
        match self {
            Condition::MatchPhrase(s) => ConditionView::MatchPhrase(s@),
            Condition::MatchRegex(s) => ConditionView::MatchRegex(s@),
        }
    }
}

/// The kind of a condition, without its payload.
#[derive(Debug, Clone, Copy, PartialEq, Eq, Structural)]
pub enum ConditionKind {
    MatchPhrase,
    MatchRegex,
}

impl ConditionKind {
    /// The stable selector name of this kind.
    pub open spec fn spec_kind_str(self) -> Seq<char> {
        match self {
            ConditionKind::MatchPhrase => "match-phrase"@,
            ConditionKind::MatchRegex => "match-regex"@,
        }
    }

    /// The exec mirror of `spec_kind_str`.
    pub fn kind_str(&self) -> (r: &'static str)
        ensures
            r@ == self.spec_kind_str(),
    {
        match self {
            ConditionKind::MatchPhrase => "match-phrase",
            ConditionKind::MatchRegex => "match-regex",
        }
    }

    /// The kind named by a selector string, if any.
    pub open spec fn spec_from_str(s: Seq<char>) -> Option<ConditionKind> {
        if s == "match-phrase"@ {
            Some(ConditionKind::MatchPhrase)
        } else if s == "match-regex"@ {
            Some(ConditionKind::MatchRegex)
        } else {
            None
        }
    }

    /// Parses a selector string back into a kind.
    pub fn from_str(s: &str) -> (r: Option<ConditionKind>)
        ensures
            r == Self::spec_from_str(s@),
    {
        if str_eq(s, "match-phrase") {
            Some(ConditionKind::MatchPhrase)
        } else if str_eq(s, "match-regex") {
            Some(ConditionKind::MatchRegex)
        } else {
            None
        }
    }
}

impl Condition {
    /// Replaces the payload, keeping the variant.
    pub fn update_string(&mut self, new_string: String)
        ensures
            final(self)@ == old(self)@.with_text(new_string@),
    {
        *self = match self {
            Condition::MatchPhrase(_current) => Condition::MatchPhrase(new_string),
            Condition::MatchRegex(_current) => Condition::MatchRegex(new_string),
        };
    }

    /// The kind of this condition.
    pub fn kind(&self) -> (r: ConditionKind)
        ensures
            r == self@.kind(),
    {
        match self {
            Condition::MatchPhrase(_) => ConditionKind::MatchPhrase,
            Condition::MatchRegex(_) => ConditionKind::MatchRegex,
        }
    }

    /// Edit-time validity of this condition.
    pub fn is_valid(&self) -> (r: bool)
        ensures
            r == self@.valid(),
    {
        match self {
            Condition::MatchPhrase(s) => s.as_str().unicode_len() > 0,
            Condition::MatchRegex(s) => s.as_str().unicode_len() > 0 && regex_pattern_compiles(
                s.as_str(),
            ),
        }
    }

    /// Whether this condition may be evaluated: its regex pattern, if it has
    /// one, compiles.
    pub fn is_match_ready(&self) -> (r: bool)
        ensures
            r == self@.match_ready(),
    {
        match self {
            Condition::MatchPhrase(_) => true,
            Condition::MatchRegex(p) => regex_pattern_compiles(p.as_str()),
        }
    }

    /// Whether the message triggers this condition. Callers must have
    /// validated regex patterns at edit time.
    pub fn should_trigger(&self, message: &str) -> (r: bool)
        requires
            self@.match_ready(),
        ensures
            r == self@.triggers(message@),
    {
        match self {
            Condition::MatchPhrase(phrase) => phrase_match(phrase.as_str(), message),
            Condition::MatchRegex(pattern) => regex_is_match(pattern.as_str(), message),
        }
    }

    /// Like `should_trigger`, but first checks that the condition is ready
    /// for matching; `None` reports a pattern that does not compile.
    pub fn should_trigger_checked(&self, message: &str) -> (r: Option<bool>)
        ensures
            match r {
                Some(b) => self@.match_ready() && b == self@.triggers(message@),
                None => !self@.match_ready(),
            },
    {
        match self {
            Condition::MatchPhrase(phrase) => Some(phrase_match(phrase.as_str(), message)),
            Condition::MatchRegex(pattern) => {
                if regex_pattern_compiles(pattern.as_str()) {
                    Some(regex_is_match(pattern.as_str(), message))
                } else {
                    None
                }
            },
        }
    }

    /// The listener kinds this condition can react to.
    pub fn listeners(&self) -> (r: Vec<ListenerEventDiscriminants>)
        ensures
            r@ =~= seq![ListenerEventDiscriminants::SlackChannelMessage],
    {
        let mut kinds: Vec<ListenerEventDiscriminants> = Vec::new();
        kinds.push(ListenerEventDiscriminants::SlackChannelMessage);
        kinds
    }

    /// The default condition for a listener kind: an empty phrase match.
    pub fn default_from_listener(listener: &ListenerEventDiscriminants) -> (r: Condition)
        ensures
            r@ == ConditionView::MatchPhrase(Seq::<char>::empty()),
    {
        match listener {
            ListenerEventDiscriminants::SlackChannelMessage => Condition::MatchPhrase(
                String::new(),
            ),
        }
    }

    /// A short human-readable name of this condition's kind.
    pub fn to_description(&self) -> (r: &'static str)
        ensures
            self@ is MatchPhrase ==> r@ == "Phrase Match"@,
            self@ is MatchRegex ==> r@ == "Regex Match"@,
    {
        match self {
            Condition::MatchPhrase(_) => "Phrase Match",
            Condition::MatchRegex(_) => "Regex Match",
        }
    }

    /// Replaces this condition with a default of the selected kind, carrying
    /// the typed payload over so the user's input survives a type switch.
    pub fn change_selection(&mut self, type_str: &str) -> (r: Result<(), ReceptionistError>)
        ensures
            match r {
                Ok(()) => ConditionKind::spec_from_str(type_str@) is Some && final(self)@
                    == ConditionView::of_kind(
                    ConditionKind::spec_from_str(type_str@)->Some_0,
                    old(self)@.text(),
                ),
                Err(e) => e == ReceptionistError::UnknownKind && ConditionKind::spec_from_str(
                    type_str@,
                ) is None && final(self)@ == old(self)@,
            },
    {
        match ConditionKind::from_str(type_str) {
            Some(kind) => {
                let text = match self {
                    Condition::MatchPhrase(s) => s.clone(),
                    Condition::MatchRegex(s) => s.clone(),
                };
                *self = match kind {
                    ConditionKind::MatchPhrase => Condition::MatchPhrase(text),
                    ConditionKind::MatchRegex => Condition::MatchRegex(text),
                };
                Ok(())
            },
            None => Err(ReceptionistError::UnknownKind),
        }
    }

    /// The validation finding of this condition at its list position.
    pub fn validate(&self, index: Option<usize>) -> (r: Option<SlackBlockValidationError>)
        ensures
            match r {
                Some(e) => self@.error_of(spec_index_or_zero(index)) == Some(e@),
                None => self@.error_of(spec_index_or_zero(index)) is None,
            },
    {
        match self {
            Condition::MatchPhrase(phrase) => {
                if phrase.as_str().unicode_len() == 0 {
                    Some(
                        SlackBlockValidationError {
                            block_id: BlockSectionRouter::MessageConditionValueInput.to_block_id(
                                index,
                            ),
                            error_message: "input field is empty".to_owned(),
                        },
                    )
                } else {
                    None
                }
            },
            Condition::MatchRegex(pattern) => {
                if pattern.as_str().unicode_len() == 0 {
                    Some(
                        SlackBlockValidationError {
                            block_id: BlockSectionRouter::MessageConditionValueInput.to_block_id(
                                index,
                            ),
                            error_message: "input field is empty".to_owned(),
                        },
                    )
                } else if !regex_pattern_compiles(pattern.as_str()) {
                    Some(
                        SlackBlockValidationError {
                            block_id: BlockSectionRouter::MessageConditionValueInput.to_block_id(
                                index,
                            ),
                            error_message: "invalid regex pattern".to_owned(),
                        },
                    )
                } else {
                    None
                }
            },
        }
    }
}

/// The index of an optional list position, 0 when absent.
pub open spec fn spec_index_or_zero(index: Option<usize>) -> nat {
    match index {
        Some(i) => i as nat,
        None => 0,
    }
}

} // verus!
