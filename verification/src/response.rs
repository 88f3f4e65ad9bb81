//! The aggregate root: a rule binds a listener to an ordered list of
//! conditions and actions plus the set of collaborators allowed to edit it.
//! Any condition firing schedules all actions; a rule with zero conditions
//! never matches.

use vstd::prelude::*;
use crate::actions::{Action, ActionKind, ActionView};
use crate::conditions::{Condition, ConditionKind, ConditionView};
use crate::errors::{
    views_of_errors,
    ReceptionistError,
    SlackBlockValidationError,
    ValidationErrorView,
};
use crate::idgen::new_id;
use crate::listeners::{ListenerEvent, ListenerEventView};
use crate::strutil::str_eq;

verus! {

/// A sequence of strings, viewed as character sequences.
pub open spec fn views_of_strings(v: Seq<String>) -> Seq<Seq<char>> {
    Seq::new(v.len(), |i: int| v[i]@)
}

/// A sequence of conditions, viewed.
pub open spec fn views_of_conditions(v: Seq<Condition>) -> Seq<ConditionView> {
    Seq::new(v.len(), |i: int| v[i]@)
}

/// A sequence of actions, viewed.
pub open spec fn views_of_actions(v: Seq<Action>) -> Seq<ActionView> {
    Seq::new(v.len(), |i: int| v[i]@)
}

/// `Some(e)` as a one-element sequence, `None` as the empty one.
pub open spec fn opt_err_seq(o: Option<ValidationErrorView>) -> Seq<ValidationErrorView> {
    match o {
        Some(e) => seq![e],
        None => Seq::empty(),
    }
}

/// The findings of the first `k` conditions, in list order.
pub open spec fn cond_errors_upto(cs: Seq<ConditionView>, k: int) -> Seq<ValidationErrorView>
    decreases k,
{
    if k <= 0 {
        Seq::empty()
    } else {
        cond_errors_upto(cs, k - 1) + opt_err_seq(cs[k - 1].error_of((k - 1) as nat))
    }
}

/// The findings of the first `k` actions, in list order.
pub open spec fn action_errors_upto(acts: Seq<ActionView>, k: int) -> Seq<ValidationErrorView>
    decreases k,
{
    if k <= 0 {
        Seq::empty()
    } else {
        action_errors_upto(acts, k - 1) + opt_err_seq(acts[k - 1].error_of((k - 1) as nat))
    }
}

/// The spec-level value of a rule.
pub ghost struct ResponseView {
    pub id: Seq<char>,
    pub listener: ListenerEventView,
    pub conditions: Seq<ConditionView>,
    pub actions: Seq<ActionView>,
    pub collaborators: Seq<Seq<char>>,
}

impl ResponseView {
    /// A message triggers a rule exactly when at least one of its conditions
    /// triggers: disjunction across conditions, never conjunction.
    pub open spec fn triggers_any(self, message: Seq<char>) -> bool {
        exists|i: int| 0 <= i < self.conditions.len() && self.conditions[i].triggers(message)
    }

    /// Every condition may be evaluated.
    pub open spec fn match_ready(self) -> bool {
        forall|i: int|
            0 <= i < self.conditions.len() ==> (#[trigger] self.conditions[i]).match_ready()
    }

    /// Edit-time validity of the whole rule.
    pub open spec fn valid(self) -> bool {
        &&& self.listener.valid()
        &&& forall|i: int|
            0 <= i < self.conditions.len() ==> (#[trigger] self.conditions[i]).valid()
        &&& forall|i: int| 0 <= i < self.actions.len() ==> (#[trigger] self.actions[i]).valid()
    }

    /// All validation findings: listener first, then conditions, then
    /// actions, each in list order.
    pub open spec fn all_errors(self) -> Seq<ValidationErrorView> {
        opt_err_seq(self.listener.error_of()) + cond_errors_upto(
            self.conditions,
            self.conditions.len() as int,
        ) + action_errors_upto(self.actions, self.actions.len() as int)
    }

    /// Whether `user` already collaborates on this rule.
    pub open spec fn has_collaborator(self, user: Seq<char>) -> bool {
        exists|i: int| 0 <= i < self.collaborators.len() && self.collaborators[i] == user
    }
}

/// A rule with no findings is valid, and the other way round.
pub proof fn lemma_valid_iff_no_errors(rv: ResponseView)
    ensures
        rv.valid() <==> rv.all_errors().len() == 0,
{
    lemma_cond_errors_upto_empty(rv.conditions, rv.conditions.len() as int);
    lemma_action_errors_upto_empty(rv.actions, rv.actions.len() as int);
}

proof fn lemma_cond_errors_upto_empty(cs: Seq<ConditionView>, k: int)
    requires
        k <= cs.len(),
    ensures
        (cond_errors_upto(cs, k).len() == 0) <==> (forall|i: int|
            0 <= i < k ==> (#[trigger] cs[i]).valid()),
    decreases k,
{
    if k > 0 {
        lemma_cond_errors_upto_empty(cs, k - 1);
    }
}

proof fn lemma_action_errors_upto_empty(acts: Seq<ActionView>, k: int)
    requires
        k <= acts.len(),
    ensures
        (action_errors_upto(acts, k).len() == 0) <==> (forall|i: int|
            0 <= i < k ==> (#[trigger] acts[i]).valid()),
    decreases k,
{
    if k > 0 {
        lemma_action_errors_upto_empty(acts, k - 1);
    }
}

/// A valid rule is ready for matching: pattern validity is part of edit-time
/// validation, so evaluation never meets a pattern that does not compile.
pub proof fn lemma_valid_implies_match_ready(rv: ResponseView)
    requires
        rv.valid(),
    ensures
        rv.match_ready(),
{
}

/// A rule: the unit of creation, editing, persistence and matching.
#[derive(Debug, PartialEq, Eq)]
pub struct ReceptionistResponse {
    pub id: String,
    pub listener: ListenerEvent,
    pub conditions: Vec<Condition>,
    pub actions: Vec<Action>,
    pub collaborators: Vec<String>,
}

impl View for ReceptionistResponse {
    type V = ResponseView;

    open spec fn view(&self) -> ResponseView {
        ResponseView {
            id: self.id@,
            listener: self.listener@,
            conditions: views_of_conditions(self.conditions@),
            actions: views_of_actions(self.actions@),
            collaborators: views_of_strings(self.collaborators@),
        }
    }
}

impl Clone for ReceptionistResponse {
    fn clone(&self) -> (r: Self)
        ensures
            r@ == self@,
    {
        let mut conditions: Vec<Condition> = Vec::new();
        let mut i: usize = 0;
        while i < self.conditions.len()
            invariant
                i <= self.conditions@.len(),
                conditions@ =~= self.conditions@.subrange(0, i as int),
            decreases self.conditions@.len() - i,
        {
            conditions.push(self.conditions[i].clone());
            i = i + 1;
        }
        let mut actions: Vec<Action> = Vec::new();
        let mut j: usize = 0;
        while j < self.actions.len()
            invariant
                j <= self.actions@.len(),
                actions@ =~= self.actions@.subrange(0, j as int),
            decreases self.actions@.len() - j,
        {
            actions.push(self.actions[j].clone());
            j = j + 1;
        }
        let mut collaborators: Vec<String> = Vec::new();
        let mut k: usize = 0;
        while k < self.collaborators.len()
            invariant
                k <= self.collaborators@.len(),
                collaborators@ =~= self.collaborators@.subrange(0, k as int),
            decreases self.collaborators@.len() - k,
        {
            collaborators.push(self.collaborators[k].clone());
            k = k + 1;
        }
        proof {
            assert(conditions@ =~= self.conditions@);
            assert(actions@ =~= self.actions@);
            assert(collaborators@ =~= self.collaborators@);
        }
        let r = ReceptionistResponse {
            id: self.id.clone(),
            listener: self.listener.clone(),
            conditions,
            actions,
            collaborators,
        };
        proof {
            assert(r@.conditions =~= self@.conditions);
            assert(r@.actions =~= self@.actions);
            assert(r@.collaborators =~= self@.collaborators);
        }
        r
    }
}

impl ReceptionistResponse {
    /// A rule over the given parts, under a freshly generated id.
    pub fn new(
        collaborators: Vec<String>,
        listener: ListenerEvent,
        actions: Vec<Action>,
        conditions: Vec<Condition>,
    ) -> (r: Self)
        ensures
            r@.id.len() == 21,
            r@.listener == listener@,
            r@.conditions == views_of_conditions(conditions@),
            r@.actions == views_of_actions(actions@),
            r@.collaborators == views_of_strings(collaborators@),
    {
        ReceptionistResponse { id: new_id(), listener, conditions, actions, collaborators }
    }

    /// Whether any condition of this rule triggers on the message; all the
    /// rule's actions are then scheduled, independent of which condition
    /// fired. Callers must have validated regex patterns at edit time.
    pub fn check_for_any_match(&self, message: &str) -> (r: bool)
        requires
            self@.match_ready(),
        ensures
            r == self@.triggers_any(message@),
    {
        let mut i: usize = 0;
        while i < self.conditions.len()
            invariant
                i <= self.conditions@.len(),
                self@.match_ready(),
                forall|j: int| 0 <= j < i ==> !self@.conditions[j].triggers(message@),
            decreases self.conditions@.len() - i,
        {
            proof {
                assert(self@.conditions[i as int].match_ready());
            }
            if self.conditions[i].should_trigger(message) {
                proof {
                    assert(self@.conditions[i as int].triggers(message@));
                }
                return true;
            }
            i = i + 1;
        }
        false
    }

    /// Like `check_for_any_match`, but first checks every condition is ready
    /// for matching; `None` reports a pattern that does not compile.
    pub fn check_for_any_match_checked(&self, message: &str) -> (r: Option<bool>)
        ensures
            match r {
                Some(b) => self@.match_ready() && b == self@.triggers_any(message@),
                None => !self@.match_ready(),
            },
    {
        let mut i: usize = 0;
        while i < self.conditions.len()
            invariant
                i <= self.conditions@.len(),
                forall|j: int| 0 <= j < i ==> (#[trigger] self@.conditions[j]).match_ready(),
            decreases self.conditions@.len() - i,
        {
            if !self.conditions[i].is_match_ready() {
                proof {
                    assert(!self@.conditions[i as int].match_ready());
                }
                return None;
            }
            i = i + 1;
        }
        Some(self.check_for_any_match(message))
    }

    /// The action at `index`, if the list is that long.
    pub fn get_action(&self, index: usize) -> (r: Option<&Action>)
        ensures
            match r {
                Some(a) => index < self@.actions.len() && *a == self.actions@[index as int],
                None => index >= self@.actions.len(),
            },
    {
        if index < self.actions.len() {
            Some(&self.actions[index])
        } else {
            None
        }
    }

    /// Replaces the condition at `index` with a default of the selected
    /// kind, carrying the typed payload over.
    pub fn update_condition_type(&mut self, type_str: &str, index: usize) -> (r: Result<
        (),
        ReceptionistError,
    >)
        ensures
            unchanged_but_conditions(old(self)@, final(self)@),
            match r {
                Ok(()) => {
                    &&& index < old(self)@.conditions.len()
                    &&& ConditionKind::spec_from_str(type_str@) is Some
                    &&& final(self)@.conditions == old(self)@.conditions.update(
                        index as int,
                        ConditionView::of_kind(
                            ConditionKind::spec_from_str(type_str@)->Some_0,
                            old(self)@.conditions[index as int].text(),
                        ),
                    )
                },
                Err(e) => {
                    &&& final(self)@ == old(self)@
                    &&& (e == ReceptionistError::IndexError && index >= old(
                        self,
                    )@.conditions.len()) || (e == ReceptionistError::UnknownKind && index < old(
                        self,
                    )@.conditions.len() && ConditionKind::spec_from_str(type_str@) is None)
                },
            },
    {
        if index >= self.conditions.len() {
            return Err(ReceptionistError::IndexError);
        }
        let res = self.conditions[index].change_selection(type_str);
        proof {
            assert(self@.conditions =~= old(self)@.conditions.update(
                index as int,
                self.conditions@[index as int]@,
            ));
            if res is Err {
                assert(self@.conditions =~= old(self)@.conditions);
            }
        }
        res
    }

    /// Replaces the action at `index` with a default of the selected kind,
    /// keeping the typed message text; a no-op on the same kind.
    pub fn update_action_type(&mut self, type_str: &str, index: usize) -> (r: Result<
        (),
        ReceptionistError,
    >)
        ensures
            unchanged_but_actions(old(self)@, final(self)@),
            match r {
                Ok(()) => {
                    &&& index < old(self)@.actions.len()
                    &&& ActionKind::spec_from_str(type_str@) is Some
                    &&& {
                        let kind = ActionKind::spec_from_str(type_str@)->Some_0;
                        let prior = old(self)@.actions[index as int];
                        final(self)@.actions == old(self)@.actions.update(
                            index as int,
                            if kind == prior.kind() {
                                prior
                            } else {
                                ActionView::of_kind(kind, prior.text())
                            },
                        )
                    }
                },
                Err(e) => {
                    &&& final(self)@ == old(self)@
                    &&& (e == ReceptionistError::IndexError && index >= old(
                        self,
                    )@.actions.len()) || (e == ReceptionistError::UnknownKind && index < old(
                        self,
                    )@.actions.len() && ActionKind::spec_from_str(type_str@) is None)
                },
            },
    {
        if index >= self.actions.len() {
            return Err(ReceptionistError::IndexError);
        }
        let res = self.actions[index].change_selection(type_str);
        proof {
            assert(self@.actions =~= old(self)@.actions.update(
                index as int,
                self.actions@[index as int]@,
            ));
            if res is Err {
                assert(self@.actions =~= old(self)@.actions);
            }
        }
        res
    }

    /// Points the listener at another channel.
    pub fn update_slack_channel(&mut self, conversation_id: String)
        ensures
            unchanged_but_listener(old(self)@, final(self)@),
            final(self)@.listener == (ListenerEventView::SlackChannelMessage {
                channel_id: conversation_id@,
            }),
    {
        match &self.listener {
            ListenerEvent::SlackChannelMessage { .. } => {
                self.listener = ListenerEvent::SlackChannelMessage { channel_id: conversation_id };
            },
        }
    }

    /// Replaces the payload of the condition at `index`, keeping its kind.
    pub fn update_message_condition_string(&mut self, new_str: String, index: usize) -> (r: Result<
        (),
        ReceptionistError,
    >)
        ensures
            unchanged_but_conditions(old(self)@, final(self)@),
            match r {
                Ok(()) => index < old(self)@.conditions.len() && final(self)@.conditions == old(
                    self,
                )@.conditions.update(
                    index as int,
                    old(self)@.conditions[index as int].with_text(new_str@),
                ),
                Err(e) => e == ReceptionistError::IndexError && index >= old(
                    self,
                )@.conditions.len() && final(self)@ == old(self)@,
            },
    {
        if index >= self.conditions.len() {
            return Err(ReceptionistError::IndexError);
        }
        self.conditions[index].update_string(new_str);
        proof {
            assert(self@.conditions =~= old(self)@.conditions.update(
                index as int,
                self.conditions@[index as int]@,
            ));
        }
        Ok(())
    }

    /// Appends `user_id` to the collaborators unless already present: whoever
    /// edits a rule becomes, or stays, a collaborator on it.
    pub fn add_collaborator_if_absent(&mut self, user_id: &str)
        ensures
            unchanged_but_collaborators(old(self)@, final(self)@),
            final(self)@.has_collaborator(user_id@),
            old(self)@.has_collaborator(user_id@) ==> final(self)@.collaborators == old(
                self,
            )@.collaborators,
            !old(self)@.has_collaborator(user_id@) ==> final(self)@.collaborators == old(
                self,
            )@.collaborators.push(user_id@),
    {
        let mut i: usize = 0;
        while i < self.collaborators.len()
            invariant
                i <= self.collaborators@.len(),
                forall|j: int| 0 <= j < i ==> views_of_strings(self.collaborators@)[j] != user_id@,
            decreases self.collaborators@.len() - i,
        {
            if str_eq(self.collaborators[i].as_str(), user_id) {
                proof {
                    assert(self@.collaborators[i as int] == user_id@);
                    assert(self@.has_collaborator(user_id@));
                }
                return ;
            }
            i = i + 1;
        }
        self.collaborators.push(user_id.to_owned());
        proof {
            assert(self@.collaborators =~= old(self)@.collaborators.push(user_id@));
            assert(self@.collaborators.last() == user_id@);
        }
    }

    /// Collects every validation finding: listener first, then conditions,
    /// then actions, each in list order and addressed to its field. `None`
    /// means the rule is valid.
    pub fn validate(&self) -> (r: Option<Vec<SlackBlockValidationError>>)
        ensures
            match r {
                Some(errs) => errs@.len() > 0 && views_of_errors(errs@) == self@.all_errors(),
                None => self@.all_errors().len() == 0 && self@.valid(),
            },
    {
        let mut errs: Vec<SlackBlockValidationError> = Vec::new();
        match self.listener.validate() {
            Some(e) => {
                errs.push(e);
            },
            None => {},
        }
        proof {
            assert(views_of_errors(errs@) =~= opt_err_seq(self@.listener.error_of()));
        }
        let ghost base = opt_err_seq(self@.listener.error_of());
        let mut i: usize = 0;
        while i < self.conditions.len()
            invariant
                i <= self.conditions@.len(),
                views_of_errors(errs@) == base + cond_errors_upto(self@.conditions, i as int),
                base == opt_err_seq(self@.listener.error_of()),
            decreases self.conditions@.len() - i,
        {
            let ghost before = views_of_errors(errs@);
            match self.conditions[i].validate(Some(i)) {
                Some(e) => {
                    errs.push(e);
                    proof {
                        assert(views_of_errors(errs@) =~= before + opt_err_seq(
                            self@.conditions[i as int].error_of(i as nat),
                        ));
                    }
                },
                None => {
                    proof {
                        assert(views_of_errors(errs@) =~= before + opt_err_seq(
                            self@.conditions[i as int].error_of(i as nat),
                        ));
                    }
                },
            }
            i = i + 1;
        }
        let ghost cond_part = base + cond_errors_upto(
            self@.conditions,
            self@.conditions.len() as int,
        );
        let mut j: usize = 0;
        while j < self.actions.len()
            invariant
                j <= self.actions@.len(),
                views_of_errors(errs@) == cond_part + action_errors_upto(self@.actions, j as int),
                cond_part == base + cond_errors_upto(
                    self@.conditions,
                    self@.conditions.len() as int,
                ),
                base == opt_err_seq(self@.listener.error_of()),
            decreases self.actions@.len() - j,
        {
            let ghost before = views_of_errors(errs@);
            match self.actions[j].validate(Some(j)) {
                Some(e) => {
                    errs.push(e);
                    proof {
                        assert(views_of_errors(errs@) =~= before + opt_err_seq(
                            self@.actions[j as int].error_of(j as nat),
                        ));
                    }
                },
                None => {
                    proof {
                        assert(views_of_errors(errs@) =~= before + opt_err_seq(
                            self@.actions[j as int].error_of(j as nat),
                        ));
                    }
                },
            }
            j = j + 1;
        }
        proof {
            assert(views_of_errors(errs@) == self@.all_errors());
        }
        if errs.len() == 0 {
            proof {
                lemma_valid_iff_no_errors(self@);
            }
            None
        } else {
            Some(errs)
        }
    }
}

/// All fields but the conditions agree.
pub open spec fn unchanged_but_conditions(a: ResponseView, b: ResponseView) -> bool {
    a.id == b.id && a.listener == b.listener && a.actions == b.actions && a.collaborators
        == b.collaborators
}

/// All fields but the actions agree.
pub open spec fn unchanged_but_actions(a: ResponseView, b: ResponseView) -> bool {
    a.id == b.id && a.listener == b.listener && a.conditions == b.conditions && a.collaborators
        == b.collaborators
}

/// All fields but the listener agree.
pub open spec fn unchanged_but_listener(a: ResponseView, b: ResponseView) -> bool {
    a.id == b.id && a.conditions == b.conditions && a.actions == b.actions && a.collaborators
        == b.collaborators
}

/// All fields but the collaborators agree.
pub open spec fn unchanged_but_collaborators(a: ResponseView, b: ResponseView) -> bool {
    a.id == b.id && a.listener == b.listener && a.conditions == b.conditions && a.actions
        == b.actions
}

impl Default for ReceptionistResponse {
    /// A fresh rule: a channel listener with no channel chosen, one default
    /// condition and one default action derived from the listener kind, and
    /// no collaborators yet.
    fn default() -> (r: Self)
        ensures
            r@.id.len() == 21,
            r@.listener == (ListenerEventView::SlackChannelMessage {
                channel_id: Seq::<char>::empty(),
            }),
            r@.conditions =~= seq![ConditionView::MatchPhrase(Seq::<char>::empty())],
            r@.actions =~= seq![ActionView::AttachEmoji(Seq::<char>::empty())],
            r@.collaborators =~= Seq::<Seq<char>>::empty(),
    {
        let listener = ListenerEvent::default();
        let listener_discrim = listener.discriminant();
        let mut conditions: Vec<Condition> = Vec::new();
        conditions.push(Condition::default_from_listener(&listener_discrim));
        let mut actions: Vec<Action> = Vec::new();
        actions.push(Action::default_from_listener(&listener_discrim));
        ReceptionistResponse {
            id: new_id(),
            listener,
            conditions,
            actions,
            collaborators: Vec::new(),
        }
    }
}

/// A ready-made example rule: reacts to the word "rust" in a test channel by
/// attaching a thumbs-up emoji, with one collaborator.
pub fn mock_receptionist_response() -> (r: ReceptionistResponse)
    ensures
        r@.id.len() == 21,
        r@.listener == (ListenerEventView::SlackChannelMessage {
            channel_id: "<no_test_channel_set>"@,
        }),
        r@.conditions =~= seq![ConditionView::MatchPhrase("rust"@)],
        r@.actions =~= seq![ActionView::AttachEmoji("thumbsup"@)],
        r@.collaborators =~= seq!["some_slack_id"@],
{
    let mut collaborators: Vec<String> = Vec::new();
    collaborators.push("some_slack_id".to_owned());
    let mut conditions: Vec<Condition> = Vec::new();
    conditions.push(Condition::MatchPhrase("rust".to_owned()));
    let mut actions: Vec<Action> = Vec::new();
    actions.push(Action::AttachEmoji("thumbsup".to_owned()));
    ReceptionistResponse::new(
        collaborators,
        ListenerEvent::SlackChannelMessage { channel_id: "<no_test_channel_set>".to_owned() },
        actions,
        conditions,
    )
}

} // verus!
