//! Dispute resolution.
//!
//! A dispute records a contested score change: it captures the user's
//! current score for the subject at filing time, starts `Pending`, and is
//! resolved exactly once to `Approved` or `Rejected`, stamping the resolver
//! and the resolution time together with the transition. Resolution is a
//! record-keeping decision: it does not itself adjust the underlying
//! reputation score.

use vstd::prelude::*;
use crate::state::ContributorReputation;
use crate::state::same_analytics;
use crate::state::same_credentials;
use crate::state::same_identity;
use crate::state::same_probation;
use crate::state::same_recovery;
use crate::state::same_reputation;
use crate::state::stored_dispute_ids;
use crate::types::Dispute;
use crate::types::DisputeStatus;
use crate::types::EntityKind;
use crate::types::Error;

verus! {

/// The user's current score for `subject`, or zero when no record exists;
/// what a new dispute captures as the original score.
pub open spec fn spec_current_score_or_zero(
    s: ContributorReputation,
    user_id: u64,
    subject: Seq<char>,
) -> u32 {
    if s.reputations@.dom().contains((user_id, subject)) {
        s.reputations@[(user_id, subject)]
    } else {
        0
    }
}

/// What filing a dispute returns: the allocated dispute id, or the error
/// naming the failed gate.
pub open spec fn spec_submit_dispute_outcome(
    s: ContributorReputation,
    attested: bool,
    user_id: u64,
) -> Result<u64, Error> {
    if !attested {
        Err(Error::Unauthorized)
    } else if !s.users@.dom().contains(user_id) {
        Err(Error::NotFound(EntityKind::User))
    } else {
        Ok(s.next_dispute_id)
    }
}

/// `post` is `pre` after filing a dispute: the allocated id carries a
/// `Pending` record capturing the current score, the id was appended to the
/// user's dispute list, the dispute counter moved one up, and nothing else
/// changed.
pub open spec fn submit_dispute_applied(
    pre: ContributorReputation,
    post: ContributorReputation,
    user_id: u64,
    subject: Seq<char>,
    disputed_score: u32,
    evidence: Seq<char>,
    now: u64,
) -> bool {
    let id = pre.next_dispute_id;
    let d = post.disputes@[id];
    &&& post.next_dispute_id == pre.next_dispute_id + 1
    &&& post.next_user_id == pre.next_user_id
    &&& post.next_token_id == pre.next_token_id
    &&& post.disputes@.dom() == pre.disputes@.dom().insert(id)
    &&& d.id == id
    &&& d.user_id == user_id
    &&& d.subject@ == subject
    &&& d.original_score == spec_current_score_or_zero(pre, user_id, subject)
    &&& d.disputed_score == disputed_score
    &&& d.evidence@ == evidence
    &&& d.status == DisputeStatus::Pending
    &&& d.created_at == now
    &&& d.resolved_at is None
    &&& d.resolver is None
    &&& forall|k: u64|
        k != id && pre.disputes@.dom().contains(k) ==> post.disputes@[k] == pre.disputes@[k]
    &&& post.user_disputes@.dom() == pre.user_disputes@.dom().insert(user_id)
    &&& post.user_disputes@[user_id]@ == stored_dispute_ids(pre, user_id).push(id)
    &&& forall|u: u64|
        u != user_id && pre.user_disputes@.dom().contains(u) ==> post.user_disputes@[u]
            == pre.user_disputes@[u]
    &&& same_identity(pre, post)
    &&& same_reputation(pre, post)
    &&& same_credentials(pre, post)
    &&& same_recovery(pre, post)
    &&& same_probation(pre, post)
    &&& same_analytics(pre, post)
}

/// What resolving returns: the dispute must exist and still be `Pending`;
/// a second resolution fails.
pub open spec fn spec_resolve_dispute_outcome(
    s: ContributorReputation,
    attested: bool,
    dispute_id: u64,
) -> Result<(), Error> {
    if !attested {
        Err(Error::Unauthorized)
    } else if !s.disputes@.dom().contains(dispute_id) {
        Err(Error::NotFound(EntityKind::Dispute))
    } else if !(s.disputes@[dispute_id].status is Pending) {
        Err(Error::PreconditionNotMet)
    } else {
        Ok(())
    }
}

/// `post` is `pre` with the dispute moved out of `Pending` exactly once:
/// its status follows `approved`, the resolution time and resolver are set
/// atomically with the transition, every captured field is kept, and
/// nothing else changed.
pub open spec fn resolve_dispute_applied(
    pre: ContributorReputation,
    post: ContributorReputation,
    dispute_id: u64,
    approved: bool,
    resolver: Seq<char>,
    now: u64,
) -> bool {
    let d0 = pre.disputes@[dispute_id];
    let d1 = post.disputes@[dispute_id];
    &&& post.disputes@.dom() == pre.disputes@.dom()
    &&& d1.id == d0.id
    &&& d1.user_id == d0.user_id
    &&& d1.subject@ == d0.subject@
    &&& d1.original_score == d0.original_score
    &&& d1.disputed_score == d0.disputed_score
    &&& d1.evidence@ == d0.evidence@
    &&& d1.status == if approved {
        DisputeStatus::Approved
    } else {
        DisputeStatus::Rejected
    }
    &&& d1.created_at == d0.created_at
    &&& d1.resolved_at == Some(now)
    &&& match d1.resolver {
        Some(x) => x@ == resolver,
        None => false,
    }
    &&& forall|k: u64|
        k != dispute_id && pre.disputes@.dom().contains(k) ==> post.disputes@[k]
            == pre.disputes@[k]
    &&& post.user_disputes@ == pre.user_disputes@
    &&& same_identity(pre, post)
    &&& same_reputation(pre, post)
    &&& same_credentials(pre, post)
    &&& same_recovery(pre, post)
    &&& same_probation(pre, post)
    &&& same_analytics(pre, post)
    &&& post.next_user_id == pre.next_user_id
    &&& post.next_token_id == pre.next_token_id
    &&& post.next_dispute_id == pre.next_dispute_id
}

impl ContributorReputation {
    /// Files a dispute for `user_id` over `subject`: allocates the next
    /// dispute id, captures the user's current score as the original score
    /// (zero when none is stored), and records the dispute as `Pending`.
    pub fn submit_dispute(
        &mut self,
        attested: bool,
        user_id: u64,
        subject: String,
        disputed_score: u32,
        evidence: String,
        now: u64,
    ) -> (r: Result<u64, Error>)
        requires
            old(self).next_dispute_id < u64::MAX,
        ensures
            r == spec_submit_dispute_outcome(*old(self), attested, user_id),
            r is Ok ==> submit_dispute_applied(
                *old(self),
                *final(self),
                user_id,
                subject@,
                disputed_score,
                evidence@,
                now,
            ),
            r is Err ==> *final(self) == *old(self),
    {
        if !attested {
            return Err(Error::Unauthorized);
        }
        if !self.user_exists(user_id) {
            return Err(Error::NotFound(EntityKind::User));
        }
        let original_score = match self.reputations.get(user_id, &subject) {
            Some(v) => *v,
            None => 0,
        };
        let dispute_id = self.increment_dispute_id();
        let dispute = Dispute {
            id: dispute_id,
            user_id,
            subject,
            original_score,
            disputed_score,
            evidence,
            status: DisputeStatus::Pending,
            created_at: now,
            resolved_at: None,
            resolver: None,
        };
        self.store_dispute(dispute);
        let mut ids = self.get_user_disputes(user_id);
        ids.push(dispute_id);
        self.store_user_disputes(user_id, ids);
        proof {
            assert(final(self).disputes@.dom() =~= old(self).disputes@.dom().insert(dispute_id));
            assert(final(self).user_disputes@.dom() =~= old(self).user_disputes@.dom().insert(
                user_id,
            ));
        }
        Ok(dispute_id)
    }

    /// Resolves a `Pending` dispute to `Approved` or `Rejected` per
    /// `approved`, stamping `resolved_at` and the resolver with the
    /// transition. A dispute is resolved exactly once, and the transition
    /// is never reversed.
    pub fn resolve_dispute(
        &mut self,
        attested: bool,
        dispute_id: u64,
        approved: bool,
        resolver: String,
        now: u64,
    ) -> (r: Result<(), Error>)
        ensures
            r == spec_resolve_dispute_outcome(*old(self), attested, dispute_id),
            r is Ok ==> resolve_dispute_applied(
                *old(self),
                *final(self),
                dispute_id,
                approved,
                resolver@,
                now,
            ),
            r is Err ==> *final(self) == *old(self),
    {
        if !attested {
            return Err(Error::Unauthorized);
        }
        let d = match self.get_dispute(dispute_id) {
            Ok(d) => d,
            Err(e) => { return Err(e) },
        };
        match d.status {
            DisputeStatus::Pending => {},
            _ => { return Err(Error::PreconditionNotMet) },
        }
        let updated = Dispute {
            id: d.id,
            user_id: d.user_id,
            subject: d.subject.clone(),
            original_score: d.original_score,
            disputed_score: d.disputed_score,
            evidence: d.evidence.clone(),
            status: if approved {
                DisputeStatus::Approved
            } else {
                DisputeStatus::Rejected
            },
            created_at: d.created_at,
            resolved_at: Some(now),
            resolver: Some(resolver),
        };
        self.disputes.set(dispute_id, updated);
        proof {
            assert(final(self).disputes@.dom() =~= old(self).disputes@.dom());
        }
        Ok(())
    }
}

} // verus!
