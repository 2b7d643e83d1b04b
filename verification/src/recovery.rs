//! Recovery plans and probation.
//!
//! A recovery plan gives a low-scoring user a target score and per-subject
//! milestones with a deadline; creating a new plan supersedes the old one.
//! Probation is a time-boxed set of capability restrictions: reading the
//! flag never checks expiry by itself, and only the explicit cleanup sweep
//! deactivates probations whose end date has passed.

use vstd::prelude::*;
use crate::state::ContributorReputation;
use crate::state::probation_deactivated;
use crate::state::same_analytics;
use crate::state::same_counters;
use crate::state::same_credentials;
use crate::state::same_disputes;
use crate::state::same_identity;
use crate::state::same_probation;
use crate::state::same_recovery;
use crate::state::same_reputation;
use crate::strmap::StrMap;
use crate::types::EntityKind;
use crate::types::Error;
use crate::types::ProbationStatus;
use crate::types::RecoveryPlan;

verus! {

/// What creating a recovery plan returns.
pub open spec fn spec_create_recovery_plan_outcome(
    s: ContributorReputation,
    attested: bool,
    user_id: u64,
) -> Result<(), Error> {
    if !attested {
        Err(Error::Unauthorized)
    } else if !s.users@.dom().contains(user_id) {
        Err(Error::NotFound(EntityKind::User))
    } else {
        Ok(())
    }
}

/// `post` is `pre` with a fresh plan stored for the user — superseding any
/// older one — created at `now`, due `duration_days` days later, with empty
/// progress and `completed` still false; nothing else changed.
pub open spec fn create_recovery_plan_applied(
    pre: ContributorReputation,
    post: ContributorReputation,
    user_id: u64,
    target_score: u32,
    milestones: Map<Seq<char>, u32>,
    duration_days: u32,
    now: u64,
) -> bool {
    let p = post.recovery_plans@[user_id];
    &&& post.recovery_plans@.dom() == pre.recovery_plans@.dom().insert(user_id)
    &&& p.user_id == user_id
    &&& p.target_score == target_score
    &&& p.milestones@ == milestones
    &&& p.created_at == now
    &&& p.deadline == now + duration_days * 86400
    &&& p.progress@ == Map::<Seq<char>, u32>::empty()
    &&& !p.completed
    &&& forall|k: u64|
        k != user_id && pre.recovery_plans@.dom().contains(k) ==> post.recovery_plans@[k]
            == pre.recovery_plans@[k]
    &&& same_counters(pre, post)
    &&& same_identity(pre, post)
    &&& same_reputation(pre, post)
    &&& same_credentials(pre, post)
    &&& same_disputes(pre, post)
    &&& same_probation(pre, post)
    &&& same_analytics(pre, post)
}

/// What setting a probation returns.
pub open spec fn spec_set_probation_outcome(
    s: ContributorReputation,
    attested: bool,
    user_id: u64,
) -> Result<(), Error> {
    if !attested {
        Err(Error::Unauthorized)
    } else if !s.users@.dom().contains(user_id) {
        Err(Error::NotFound(EntityKind::User))
    } else {
        Ok(())
    }
}

/// `post` is `pre` with an active probation stored for the user, running
/// from `now` for `duration_days` days; nothing else changed.
pub open spec fn set_probation_applied(
    pre: ContributorReputation,
    post: ContributorReputation,
    user_id: u64,
    duration_days: u32,
    reason: Seq<char>,
    restrictions: Map<Seq<char>, bool>,
    now: u64,
) -> bool {
    let p = post.probations@[user_id];
    &&& post.probations@.dom() == pre.probations@.dom().insert(user_id)
    &&& p.user_id == user_id
    &&& p.active
    &&& p.start_date == now
    &&& p.end_date == now + duration_days * 86400
    &&& p.reason@ == reason
    &&& p.restrictions@ == restrictions
    &&& forall|k: u64|
        k != user_id && pre.probations@.dom().contains(k) ==> post.probations@[k]
            == pre.probations@[k]
    &&& same_counters(pre, post)
    &&& same_identity(pre, post)
    &&& same_reputation(pre, post)
    &&& same_credentials(pre, post)
    &&& same_disputes(pre, post)
    &&& same_recovery(pre, post)
    &&& same_analytics(pre, post)
}

/// The stored `active` flag, as is: `false` when no record exists. Expiry
/// is not checked here.
pub open spec fn spec_is_on_probation(s: ContributorReputation, user_id: u64) -> bool {
    s.probations@.dom().contains(user_id) && s.probations@[user_id].active
}

/// `true` when the cleanup sweep owes `user_id` a deactivation: the id is
/// in the enumerable range, a user record exists, and an active probation
/// is stored whose end date is at or before `now`.
pub open spec fn probation_due(s: ContributorReputation, user_id: u64, now: u64) -> bool {
    &&& 1 <= user_id < s.next_user_id
    &&& s.users@.dom().contains(user_id)
    &&& s.probations@.dom().contains(user_id)
    &&& s.probations@[user_id].active
    &&& s.probations@[user_id].end_date <= now
}

/// `post` is `pre` with every due probation deactivated — and only those:
/// any other stored probation is untouched, and nothing else changed.
pub open spec fn cleanup_applied(
    pre: ContributorReputation,
    post: ContributorReputation,
    now: u64,
) -> bool {
    &&& post.probations@.dom() == pre.probations@.dom()
    &&& forall|id: u64| #[trigger]
        pre.probations@.dom().contains(id) ==> if probation_due(pre, id, now) {
            probation_deactivated(pre.probations@[id], post.probations@[id])
        } else {
            post.probations@[id] == pre.probations@[id]
        }
    &&& same_counters(pre, post)
    &&& same_identity(pre, post)
    &&& same_reputation(pre, post)
    &&& same_credentials(pre, post)
    &&& same_disputes(pre, post)
    &&& same_recovery(pre, post)
    &&& same_analytics(pre, post)
}

/// Every milestone subject has a recorded progress value at or above its
/// target.
pub open spec fn spec_milestones_met(m: Map<Seq<char>, u32>, p: Map<Seq<char>, u32>) -> bool {
    forall|k: Seq<char>| #[trigger] m.dom().contains(k) ==> p.dom().contains(k) && p[k] >= m[k]
}

/// What recording progress returns: the user must hold a plan.
pub open spec fn spec_record_progress_outcome(
    s: ContributorReputation,
    attested: bool,
    user_id: u64,
) -> Result<(), Error> {
    if !attested {
        Err(Error::Unauthorized)
    } else if !s.recovery_plans@.dom().contains(user_id) {
        Err(Error::NotFound(EntityKind::RecoveryPlan))
    } else {
        Ok(())
    }
}

/// `post` is `pre` with the user's plan carrying the new progress value for
/// the subject; `completed` flips to true exactly when every milestone is
/// now met, and never flips back. Nothing else changed.
pub open spec fn record_progress_applied(
    pre: ContributorReputation,
    post: ContributorReputation,
    user_id: u64,
    subject: Seq<char>,
    value: u32,
) -> bool {
    let p0 = pre.recovery_plans@[user_id];
    let p1 = post.recovery_plans@[user_id];
    &&& post.recovery_plans@.dom() == pre.recovery_plans@.dom()
    &&& p1.user_id == p0.user_id
    &&& p1.target_score == p0.target_score
    &&& p1.milestones@ == p0.milestones@
    &&& p1.created_at == p0.created_at
    &&& p1.deadline == p0.deadline
    &&& p1.progress@ == p0.progress@.insert(subject, value)
    &&& p1.completed == (p0.completed || spec_milestones_met(
        p0.milestones@,
        p0.progress@.insert(subject, value),
    ))
    &&& forall|k: u64|
        k != user_id && pre.recovery_plans@.dom().contains(k) ==> post.recovery_plans@[k]
            == pre.recovery_plans@[k]
    &&& same_counters(pre, post)
    &&& same_identity(pre, post)
    &&& same_reputation(pre, post)
    &&& same_credentials(pre, post)
    &&& same_disputes(pre, post)
    &&& same_probation(pre, post)
    &&& same_analytics(pre, post)
}

/// Whether every milestone in `milestones` is met by `progress`.
fn milestones_met(milestones: &StrMap<u32>, progress: &StrMap<u32>) -> (r: bool)
    ensures
        r == spec_milestones_met(milestones@, progress@),
{
    let n = milestones.len();
    let mut i: usize = 0;
    while i < n
        invariant
            i <= n,
            n == milestones.entries_seq().len(),
            forall|j: int|
                0 <= j < i ==> progress@.dom().contains(
                    (#[trigger] milestones.entries_seq()[j]).0@,
                ) && progress@[milestones.entries_seq()[j].0@] >= milestones.entries_seq()[j].1,
        decreases n - i,
    {
        let e = milestones.entry_at(i);
        let met_here = match progress.get(&e.0) {
            Some(v) => *v >= e.1,
            None => false,
        };
        if !met_here {
            proof {
                use_type_invariant(&*milestones);
                crate::strmap::lemma_str_map_dom(milestones.entries_seq());
                crate::strmap::lemma_str_map_index(milestones.entries_seq());
                let s = milestones.entries_seq();
                assert(milestones@.dom().contains(s[i as int].0@));
                assert(milestones@[s[i as int].0@] == s[i as int].1);
            }
            return false;
        }
        i += 1;
    }
    proof {
        use_type_invariant(&*milestones);
        crate::strmap::lemma_str_map_dom(milestones.entries_seq());
        crate::strmap::lemma_str_map_index(milestones.entries_seq());
        let s = milestones.entries_seq();
        assert forall|k: Seq<char>| #[trigger]
            milestones@.dom().contains(k) implies progress@.dom().contains(k) && progress@[k]
            >= milestones@[k] by {
            let j = choose|j: int| 0 <= j < s.len() && (#[trigger] s[j]).0@ == k;
            assert(milestones@[s[j].0@] == s[j].1);
        }
    }
    true
}

impl ContributorReputation {
    /// Stores a recovery plan for the user with deadline
    /// `now + duration_days` days, superseding any existing plan.
    pub fn create_recovery_plan(
        &mut self,
        attested: bool,
        user_id: u64,
        target_score: u32,
        milestones: StrMap<u32>,
        duration_days: u32,
        now: u64,
    ) -> (r: Result<(), Error>)
        requires
            now + duration_days * 86400 <= u64::MAX,
        ensures
            r == spec_create_recovery_plan_outcome(*old(self), attested, user_id),
            r is Ok ==> create_recovery_plan_applied(
                *old(self),
                *final(self),
                user_id,
                target_score,
                milestones@,
                duration_days,
                now,
            ),
            r is Err ==> *final(self) == *old(self),
    {
        if !attested {
            return Err(Error::Unauthorized);
        }
        if !self.user_exists(user_id) {
            return Err(Error::NotFound(EntityKind::User));
        }
        let deadline: u64 = now + (duration_days as u64) * 86400;
        let plan = RecoveryPlan {
            user_id,
            target_score,
            milestones,
            created_at: now,
            deadline,
            progress: StrMap::new(),
            completed: false,
        };
        self.store_recovery_plan(plan);
        proof {
            assert(final(self).recovery_plans@.dom() =~= old(self).recovery_plans@.dom().insert(
                user_id,
            ));
        }
        Ok(())
    }

    /// Records an achieved value for one milestone subject of the user's
    /// plan. When every milestone is met by the recorded progress, the
    /// plan's `completed` flag flips to true; once set it never clears.
    pub fn record_recovery_progress(
        &mut self,
        attested: bool,
        user_id: u64,
        subject: String,
        value: u32,
    ) -> (r: Result<(), Error>)
        ensures
            r == spec_record_progress_outcome(*old(self), attested, user_id),
            r is Ok ==> record_progress_applied(*old(self), *final(self), user_id, subject@, value),
            r is Err ==> *final(self) == *old(self),
    {
        if !attested {
            return Err(Error::Unauthorized);
        }
        let plan = match self.get_recovery_plan(user_id) {
            Ok(p) => p,
            Err(e) => { return Err(e) },
        };
        let plan_user_id = plan.user_id;
        let target_score = plan.target_score;
        let created_at = plan.created_at;
        let deadline = plan.deadline;
        let was_completed = plan.completed;
        let milestones = plan.milestones.duplicate();
        let mut progress = plan.progress.duplicate();
        progress.set(subject, value);
        let completed = was_completed || milestones_met(&milestones, &progress);
        let updated = RecoveryPlan {
            user_id: plan_user_id,
            target_score,
            milestones,
            created_at,
            deadline,
            progress,
            completed,
        };
        self.recovery_plans.set(user_id, updated);
        proof {
            assert(final(self).recovery_plans@.dom() =~= old(self).recovery_plans@.dom());
        }
        Ok(())
    }

    /// Stores an active probation for the user, running from `now` for
    /// `duration_days` days, overwriting any earlier record.
    pub fn set_probation(
        &mut self,
        attested: bool,
        user_id: u64,
        duration_days: u32,
        reason: String,
        restrictions: StrMap<bool>,
        now: u64,
    ) -> (r: Result<(), Error>)
        requires
            now + duration_days * 86400 <= u64::MAX,
        ensures
            r == spec_set_probation_outcome(*old(self), attested, user_id),
            r is Ok ==> set_probation_applied(
                *old(self),
                *final(self),
                user_id,
                duration_days,
                reason@,
                restrictions@,
                now,
            ),
            r is Err ==> *final(self) == *old(self),
    {
        if !attested {
            return Err(Error::Unauthorized);
        }
        if !self.user_exists(user_id) {
            return Err(Error::NotFound(EntityKind::User));
        }
        let end_date: u64 = now + (duration_days as u64) * 86400;
        let probation = ProbationStatus {
            user_id,
            active: true,
            start_date: now,
            end_date,
            reason,
            restrictions,
        };
        self.store_probation_status(probation);
        proof {
            assert(final(self).probations@.dom() =~= old(self).probations@.dom().insert(user_id));
        }
        Ok(())
    }

    /// The stored probation flag for the user, as is: `false` when no
    /// record exists. A passed end date alone does not clear it; only the
    /// cleanup sweep does.
    pub fn is_on_probation(&self, user_id: u64) -> (r: bool)
        ensures
            r == spec_is_on_probation(*self, user_id),
    {
        match self.probations.get(user_id) {
            Some(p) => p.active,
            None => false,
        }
    }

    /// Walks every enumerable user id and deactivates each active probation
    /// whose end date is at or before `now`; every other record is left
    /// untouched. Safe to run with no users and no probations, and a second
    /// run right after changes nothing more.
    pub fn cleanup_expired_probations(&mut self, now: u64)
        ensures
            cleanup_applied(*old(self), *final(self), now),
    {
        let ghost pre = *self;
        let mut i: u64 = 1;
        while i < self.next_user_id
            invariant
                1 <= i,
                i <= self.next_user_id || i == 1,
                same_counters(pre, *self),
                same_identity(pre, *self),
                same_reputation(pre, *self),
                same_credentials(pre, *self),
                same_disputes(pre, *self),
                same_recovery(pre, *self),
                same_analytics(pre, *self),
                self.probations@.dom() == pre.probations@.dom(),
                forall|id: u64| #[trigger]
                    pre.probations@.dom().contains(id) ==> if id < i && probation_due(
                        pre,
                        id,
                        now,
                    ) {
                        probation_deactivated(pre.probations@[id], self.probations@[id])
                    } else {
                        self.probations@[id] == pre.probations@[id]
                    },
            decreases self.next_user_id - i,
        {
            if self.user_exists(i) {
                let rebuilt = match self.probations.get(i) {
                    Some(p) => {
                        if p.active && p.end_date <= now {
                            Some(
                                ProbationStatus {
                                    user_id: p.user_id,
                                    active: false,
                                    start_date: p.start_date,
                                    end_date: p.end_date,
                                    reason: p.reason.clone(),
                                    restrictions: p.restrictions.duplicate(),
                                },
                            )
                        } else {
                            None
                        }
                    },
                    None => None,
                };
                match rebuilt {
                    Some(q) => {
                        let ghost before = self.probations@;
                        self.probations.set(i, q);
                        proof {
                            assert(self.probations@.dom() =~= before.dom());
                        }
                    },
                    None => {},
                }
            }
            i = i + 1;
        }
    }
}

} // verus!
