//! On-call lookup results. The escalation action consumes exactly one entry:
//! the first one at the lowest escalation level, matching a stable ascending
//! sort followed by taking the head.

use vstd::prelude::*;

verus! {

/// One person that can be tagged.
#[derive(Debug, PartialEq, Eq)]
pub struct User {
    pub name: String,
    pub email: String,
    pub id: String,
    pub user_type: String,
}

impl Clone for User {
    fn clone(&self) -> (r: Self)
        ensures
            r == *self,
    {
        User {
            name: self.name.clone(),
            email: self.email.clone(),
            id: self.id.clone(),
            user_type: self.user_type.clone(),
        }
    }
}

/// One on-call assignment: who, and at which escalation level.
#[derive(Debug, PartialEq, Eq)]
pub struct OncallInstance {
    pub user: User,
    pub escalation_level: u8,
}

impl Clone for OncallInstance {
    fn clone(&self) -> (r: Self)
        ensures
            r == *self,
    {
        OncallInstance { user: self.user.clone(), escalation_level: self.escalation_level }
    }
}

/// What an on-call query returns.
#[derive(Debug, PartialEq, Eq)]
pub struct OncallList {
    pub oncalls: Vec<OncallInstance>,
}

impl OncallList {
    /// The entry the escalation action tags: the earliest one with the lowest
    /// escalation level, exactly what a stable ascending sort puts first.
    /// `None` only on an empty list.
    pub fn first_oncall(&self) -> (r: Option<&OncallInstance>)
        ensures
            match r {
                Some(first) => {
                    exists|i: int|
                        0 <= i < self.oncalls@.len() && *first == self.oncalls@[i] && (forall|
                            j: int,
                        |
                            0 <= j < self.oncalls@.len() ==> first.escalation_level <= (
                            #[trigger] self.oncalls@[j]).escalation_level) && (forall|j: int|
                            0 <= j < i ==> (#[trigger] self.oncalls@[j]).escalation_level
                                > first.escalation_level)
                },
                None => self.oncalls@.len() == 0,
            },
    {
        if self.oncalls.len() == 0 {
            return None;
        }
        let mut best: usize = 0;
        let mut i: usize = 1;
        while i < self.oncalls.len()
            invariant
                self.oncalls@.len() > 0,
                best < i <= self.oncalls@.len(),
                forall|j: int|
                    0 <= j < i ==> self.oncalls@[best as int].escalation_level <= (
                    #[trigger] self.oncalls@[j]).escalation_level,
                forall|j: int|
                    0 <= j < best ==> (#[trigger] self.oncalls@[j]).escalation_level
                        > self.oncalls@[best as int].escalation_level,
            decreases self.oncalls@.len() - i,
        {
            if self.oncalls[i].escalation_level < self.oncalls[best].escalation_level {
                best = i;
            }
            i = i + 1;
        }
        Some(&self.oncalls[best])
    }
}

} // verus!
