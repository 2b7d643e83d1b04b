//! The persistent record store and its raw operations.
//!
//! The hosting environment gives the ledger a durable key-value store with
//! read-after-write consistency and one action running at a time. This module
//! models that store as one value: every record table and the three singleton
//! id counters. The raw operations here read and write single records; the
//! entry points of the other modules build the platform's rules on top of
//! them.

use vstd::prelude::*;
use crate::idmap::IdMap;
use crate::pairmap::PairMap;
use crate::strmap::StrMap;
use crate::types::Analytics;
use crate::types::CredentialToken;
use crate::types::Dispute;
use crate::types::EntityKind;
use crate::types::Error;
use crate::types::HistoryEntry;
use crate::types::ProbationStatus;
use crate::types::RecoveryPlan;
use crate::types::Reputation;
use crate::types::User;

verus! {

/// The whole record store of the reputation ledger.
pub struct ContributorReputation {
    /// The next user id to allocate; starts at 1 and never goes back.
    pub next_user_id: u64,
    /// The next credential token id to allocate.
    pub next_token_id: u64,
    /// The next dispute id to allocate.
    pub next_dispute_id: u64,
    /// User records, keyed by user id.
    pub users: IdMap<User>,
    /// Current score per (user, subject) pair.
    pub reputations: PairMap<u32>,
    /// Append-only score history per user, oldest first.
    pub histories: IdMap<Vec<HistoryEntry>>,
    /// Credential tokens, keyed by token id.
    pub credentials: IdMap<CredentialToken>,
    /// Dispute records, keyed by dispute id.
    pub disputes: IdMap<Dispute>,
    /// The dispute ids filed for each user, oldest first.
    pub user_disputes: IdMap<Vec<u64>>,
    /// Recovery plans, keyed by user id; a new plan overwrites the old one.
    pub recovery_plans: IdMap<RecoveryPlan>,
    /// Probation records, keyed by user id.
    pub probations: IdMap<ProbationStatus>,
    /// Cached analytics, keyed by the caller-chosen key.
    pub analytics: StrMap<Analytics>,
}

/// The identity records of `a` and `b` agree.
pub open spec fn same_identity(a: ContributorReputation, b: ContributorReputation) -> bool {
    a.users@ == b.users@
}

/// The reputation records and histories of `a` and `b` agree.
pub open spec fn same_reputation(a: ContributorReputation, b: ContributorReputation) -> bool {
    a.reputations@ == b.reputations@ && a.histories@ == b.histories@
}

/// The credential records of `a` and `b` agree.
pub open spec fn same_credentials(a: ContributorReputation, b: ContributorReputation) -> bool {
    a.credentials@ == b.credentials@
}

/// The dispute records of `a` and `b` agree.
pub open spec fn same_disputes(a: ContributorReputation, b: ContributorReputation) -> bool {
    a.disputes@ == b.disputes@ && a.user_disputes@ == b.user_disputes@
}

/// The recovery plans of `a` and `b` agree.
pub open spec fn same_recovery(a: ContributorReputation, b: ContributorReputation) -> bool {
    a.recovery_plans@ == b.recovery_plans@
}

/// The probation records of `a` and `b` agree.
pub open spec fn same_probation(a: ContributorReputation, b: ContributorReputation) -> bool {
    a.probations@ == b.probations@
}

/// The cached analytics of `a` and `b` agree.
pub open spec fn same_analytics(a: ContributorReputation, b: ContributorReputation) -> bool {
    a.analytics@ == b.analytics@
}

/// The three id counters of `a` and `b` agree.
pub open spec fn same_counters(a: ContributorReputation, b: ContributorReputation) -> bool {
    a.next_user_id == b.next_user_id && a.next_token_id == b.next_token_id && a.next_dispute_id
        == b.next_dispute_id
}

/// The dispute ids stored for `user_id`, or none when no list is stored.
pub open spec fn stored_dispute_ids(s: ContributorReputation, user_id: u64) -> Seq<u64> {
    if s.user_disputes@.dom().contains(user_id) {
        s.user_disputes@[user_id]@
    } else {
        Seq::<u64>::empty()
    }
}

/// The history entries stored for `user_id`, or none when no history exists.
pub open spec fn stored_history(s: ContributorReputation, user_id: u64) -> Seq<HistoryEntry> {
    if s.histories@.dom().contains(user_id) {
        s.histories@[user_id]@
    } else {
        Seq::<HistoryEntry>::empty()
    }
}

/// `q` holds the same probation as `p`, field for field.
pub open spec fn probation_matches(p: ProbationStatus, q: ProbationStatus) -> bool {
    q.user_id == p.user_id && q.active == p.active && q.start_date == p.start_date && q.end_date
        == p.end_date && q.reason@ == p.reason@ && q.restrictions@ == p.restrictions@
}

/// `q` is `p` with its `active` flag cleared and every other field kept.
pub open spec fn probation_deactivated(p: ProbationStatus, q: ProbationStatus) -> bool {
    q.user_id == p.user_id && !q.active && q.start_date == p.start_date && q.end_date == p.end_date
        && q.reason@ == p.reason@ && q.restrictions@ == p.restrictions@
}

/// The default record for a user with no stored probation: inactive, with
/// empty reason and restrictions.
pub open spec fn default_probation(user_id: u64, p: ProbationStatus) -> bool {
    p.user_id == user_id && !p.active && p.start_date == 0 && p.end_date == 0 && p.reason@
        == Seq::<char>::empty() && p.restrictions@ == Map::<Seq<char>, bool>::empty()
}

/// The ids below `n` (and at least 1) that `m` holds a record for, in
/// ascending order.
pub open spec fn present_ids<V>(m: Map<u64, V>, n: int) -> Seq<u64>
    decreases n,
{
    if n <= 1 {
        Seq::<u64>::empty()
    } else {
        present_ids(m, n - 1) + if m.dom().contains((n - 1) as u64) {
            seq![(n - 1) as u64]
        } else {
            Seq::<u64>::empty()
        }
    }
}

/// An id stands in `present_ids(m, n)` exactly when it lies in `1 .. n` and
/// `m` holds a record for it.
pub proof fn lemma_present_ids_contains<V>(m: Map<u64, V>, n: int)
    requires
        n <= u64::MAX + 1,
    ensures
        forall|k: u64| #[trigger]
            present_ids(m, n).contains(k) <==> 1 <= k < n && m.dom().contains(k),
    decreases n,
{
    if n <= 1 {
        assert forall|k: u64| !(#[trigger] present_ids(m, n).contains(k)) by {
            assert(present_ids(m, n).len() == 0);
        }
    } else {
        lemma_present_ids_contains(m, n - 1);
        let p = present_ids(m, n - 1);
        let s = present_ids(m, n);
        let last = (n - 1) as u64;
        assert forall|k: u64| #[trigger] s.contains(k) implies 1 <= k < n && m.dom().contains(
            k,
        ) by {
            let i = choose|i: int| 0 <= i < s.len() && s[i] == k;
            if i < p.len() {
                assert(s[i] == p[i]);
                assert(p.contains(k));
            } else {
                assert(m.dom().contains(last));
                assert(s[i] == k && k == last);
            }
        }
        assert forall|k: u64| 1 <= k < n && m.dom().contains(k) implies #[trigger] s.contains(
            k,
        ) by {
            if k < n - 1 {
                assert(p.contains(k));
                let i = choose|i: int| 0 <= i < p.len() && p[i] == k;
                assert(s[i] == k);
            } else {
                assert(s[p.len() as int] == last);
            }
        }
    }
}

/// `present_ids` is strictly ascending.
pub proof fn lemma_present_ids_sorted<V>(m: Map<u64, V>, n: int)
    requires
        n <= u64::MAX + 1,
    ensures
        forall|i: int, j: int|
            0 <= i < j < present_ids(m, n).len() ==> present_ids(m, n)[i] < present_ids(m, n)[j],
    decreases n,
{
    if n <= 1 {
    } else {
        lemma_present_ids_sorted(m, n - 1);
        lemma_present_ids_contains(m, n - 1);
        let p = present_ids(m, n - 1);
        let s = present_ids(m, n);
        assert forall|i: int, j: int| 0 <= i < j < s.len() implies s[i] < s[j] by {
            if j < p.len() {
                assert(s[i] == p[i] && s[j] == p[j]);
            } else {
                assert(s.len() == p.len() + 1 && j == p.len());
                assert(s[j] == (n - 1) as u64);
                assert(s[i] == p[i]);
                assert(p.contains(p[i]));
            }
        }
    }
}

impl ContributorReputation {
    /// A fresh ledger: no records, every counter at 1.
    pub fn new() -> (r: Self)
        ensures
            r.next_user_id == 1,
            r.next_token_id == 1,
            r.next_dispute_id == 1,
            r.users@ == Map::<u64, User>::empty(),
            r.reputations@ == Map::<(u64, Seq<char>), u32>::empty(),
            r.histories@ == Map::<u64, Vec<HistoryEntry>>::empty(),
            r.credentials@ == Map::<u64, CredentialToken>::empty(),
            r.disputes@ == Map::<u64, Dispute>::empty(),
            r.user_disputes@ == Map::<u64, Vec<u64>>::empty(),
            r.recovery_plans@ == Map::<u64, RecoveryPlan>::empty(),
            r.probations@ == Map::<u64, ProbationStatus>::empty(),
            r.analytics@ == Map::<Seq<char>, Analytics>::empty(),
    {
        ContributorReputation {
            next_user_id: 1,
            next_token_id: 1,
            next_dispute_id: 1,
            users: IdMap::new(),
            reputations: PairMap::new(),
            histories: IdMap::new(),
            credentials: IdMap::new(),
            disputes: IdMap::new(),
            user_disputes: IdMap::new(),
            recovery_plans: IdMap::new(),
            probations: IdMap::new(),
            analytics: StrMap::new(),
        }
    }

    /// Returns the next user id and advances the counter; ids are handed out
    /// in order and never reused.
    pub fn increment_user_id(&mut self) -> (r: u64)
        requires
            old(self).next_user_id < u64::MAX,
        ensures
            r == old(self).next_user_id,
            final(self).next_user_id == old(self).next_user_id + 1,
            final(self).next_token_id == old(self).next_token_id,
            final(self).next_dispute_id == old(self).next_dispute_id,
            same_identity(*old(self), *final(self)),
            same_reputation(*old(self), *final(self)),
            same_credentials(*old(self), *final(self)),
            same_disputes(*old(self), *final(self)),
            same_recovery(*old(self), *final(self)),
            same_probation(*old(self), *final(self)),
            same_analytics(*old(self), *final(self)),
    {
        let r = self.next_user_id;
        self.next_user_id = self.next_user_id + 1;
        r
    }

    /// The token id the next credentialing call will be given.
    pub fn get_next_token_id(&self) -> (r: u64)
        ensures
            r == self.next_token_id,
    {
        self.next_token_id
    }

    /// Returns the next token id and advances the counter.
    pub fn increment_token_id(&mut self) -> (r: u64)
        requires
            old(self).next_token_id < u64::MAX,
        ensures
            r == old(self).next_token_id,
            final(self).next_token_id == old(self).next_token_id + 1,
            final(self).next_user_id == old(self).next_user_id,
            final(self).next_dispute_id == old(self).next_dispute_id,
            same_identity(*old(self), *final(self)),
            same_reputation(*old(self), *final(self)),
            same_credentials(*old(self), *final(self)),
            same_disputes(*old(self), *final(self)),
            same_recovery(*old(self), *final(self)),
            same_probation(*old(self), *final(self)),
            same_analytics(*old(self), *final(self)),
    {
        let r = self.next_token_id;
        self.next_token_id = self.next_token_id + 1;
        r
    }

    /// Returns the next dispute id and advances the counter.
    pub fn increment_dispute_id(&mut self) -> (r: u64)
        requires
            old(self).next_dispute_id < u64::MAX,
        ensures
            r == old(self).next_dispute_id,
            final(self).next_dispute_id == old(self).next_dispute_id + 1,
            final(self).next_user_id == old(self).next_user_id,
            final(self).next_token_id == old(self).next_token_id,
            same_identity(*old(self), *final(self)),
            same_reputation(*old(self), *final(self)),
            same_credentials(*old(self), *final(self)),
            same_disputes(*old(self), *final(self)),
            same_recovery(*old(self), *final(self)),
            same_probation(*old(self), *final(self)),
            same_analytics(*old(self), *final(self)),
    {
        let r = self.next_dispute_id;
        self.next_dispute_id = self.next_dispute_id + 1;
        r
    }

    /// Sets the user id counter directly, as a host environment restoring
    /// state would.
    pub fn set_next_user_id(&mut self, v: u64)
        ensures
            final(self).next_user_id == v,
            final(self).next_token_id == old(self).next_token_id,
            final(self).next_dispute_id == old(self).next_dispute_id,
            same_identity(*old(self), *final(self)),
            same_reputation(*old(self), *final(self)),
            same_credentials(*old(self), *final(self)),
            same_disputes(*old(self), *final(self)),
            same_recovery(*old(self), *final(self)),
            same_probation(*old(self), *final(self)),
            same_analytics(*old(self), *final(self)),
    {
        self.next_user_id = v;
    }

    /// Sets the dispute id counter directly.
    pub fn set_next_dispute_id(&mut self, v: u64)
        ensures
            final(self).next_dispute_id == v,
            final(self).next_user_id == old(self).next_user_id,
            final(self).next_token_id == old(self).next_token_id,
            same_identity(*old(self), *final(self)),
            same_reputation(*old(self), *final(self)),
            same_credentials(*old(self), *final(self)),
            same_disputes(*old(self), *final(self)),
            same_recovery(*old(self), *final(self)),
            same_probation(*old(self), *final(self)),
            same_analytics(*old(self), *final(self)),
    {
        self.next_dispute_id = v;
    }

    /// Stores a user record under its id, replacing any earlier one.
    pub fn store_user(&mut self, user: User)
        ensures
            final(self).users@ == old(self).users@.insert(user.id, user),
            same_counters(*old(self), *final(self)),
            same_reputation(*old(self), *final(self)),
            same_credentials(*old(self), *final(self)),
            same_disputes(*old(self), *final(self)),
            same_recovery(*old(self), *final(self)),
            same_probation(*old(self), *final(self)),
            same_analytics(*old(self), *final(self)),
    {
        let id = user.id;
        self.users.set(id, user);
    }

    /// Whether a user record exists for `user_id`.
    pub fn user_exists(&self, user_id: u64) -> (r: bool)
        ensures
            r == self.users@.dom().contains(user_id),
    {
        self.users.contains(user_id)
    }

    /// The user record for `user_id`, or `NotFound(User)`.
    pub fn get_user(&self, user_id: u64) -> (r: Result<&User, Error>)
        ensures
            match r {
                Ok(u) => self.users@.dom().contains(user_id) && *u == self.users@[user_id],
                Err(e) => !self.users@.dom().contains(user_id) && e == Error::NotFound(
                    EntityKind::User,
                ),
            },
    {
        match self.users.get(user_id) {
            Some(u) => Ok(u),
            None => Err(Error::NotFound(EntityKind::User)),
        }
    }

    /// Stores the current score carried by a reputation record, replacing
    /// any earlier score for the same (user, subject) pair.
    pub fn store_reputation(&mut self, rep: Reputation)
        ensures
            final(self).reputations@ == old(self).reputations@.insert(
                (rep.user_id, rep.subject@),
                rep.score,
            ),
            final(self).histories@ == old(self).histories@,
            same_counters(*old(self), *final(self)),
            same_identity(*old(self), *final(self)),
            same_credentials(*old(self), *final(self)),
            same_disputes(*old(self), *final(self)),
            same_recovery(*old(self), *final(self)),
            same_probation(*old(self), *final(self)),
            same_analytics(*old(self), *final(self)),
    {
        let user_id = rep.user_id;
        let score = rep.score;
        self.reputations.set(user_id, rep.subject, score);
    }

    /// Whether a current score is stored for `(user_id, subject)`.
    pub fn reputation_exists(&self, user_id: u64, subject: &String) -> (r: bool)
        ensures
            r == self.reputations@.dom().contains((user_id, subject@)),
    {
        self.reputations.contains(user_id, subject)
    }

    /// Stores a credential token under its token id.
    pub fn store_credential(&mut self, credential: CredentialToken)
        ensures
            final(self).credentials@ == old(self).credentials@.insert(
                credential.token_id,
                credential,
            ),
            same_counters(*old(self), *final(self)),
            same_identity(*old(self), *final(self)),
            same_reputation(*old(self), *final(self)),
            same_disputes(*old(self), *final(self)),
            same_recovery(*old(self), *final(self)),
            same_probation(*old(self), *final(self)),
            same_analytics(*old(self), *final(self)),
    {
        let id = credential.token_id;
        self.credentials.set(id, credential);
    }

    /// The credential stored under `token_id`, or `NotFound(Credential)`.
    pub fn get_credential(&self, token_id: u64) -> (r: Result<&CredentialToken, Error>)
        ensures
            match r {
                Ok(c) => self.credentials@.dom().contains(token_id) && *c
                    == self.credentials@[token_id],
                Err(e) => !self.credentials@.dom().contains(token_id) && e == Error::NotFound(
                    EntityKind::Credential,
                ),
            },
    {
        match self.credentials.get(token_id) {
            Some(c) => Ok(c),
            None => Err(Error::NotFound(EntityKind::Credential)),
        }
    }

    /// Stores a dispute record under its id.
    pub fn store_dispute(&mut self, dispute: Dispute)
        ensures
            final(self).disputes@ == old(self).disputes@.insert(dispute.id, dispute),
            final(self).user_disputes@ == old(self).user_disputes@,
            same_counters(*old(self), *final(self)),
            same_identity(*old(self), *final(self)),
            same_reputation(*old(self), *final(self)),
            same_credentials(*old(self), *final(self)),
            same_recovery(*old(self), *final(self)),
            same_probation(*old(self), *final(self)),
            same_analytics(*old(self), *final(self)),
    {
        let id = dispute.id;
        self.disputes.set(id, dispute);
    }

    /// The dispute stored under `dispute_id`, or `NotFound(Dispute)`.
    pub fn get_dispute(&self, dispute_id: u64) -> (r: Result<&Dispute, Error>)
        ensures
            match r {
                Ok(d) => self.disputes@.dom().contains(dispute_id) && *d
                    == self.disputes@[dispute_id],
                Err(e) => !self.disputes@.dom().contains(dispute_id) && e == Error::NotFound(
                    EntityKind::Dispute,
                ),
            },
    {
        match self.disputes.get(dispute_id) {
            Some(d) => Ok(d),
            None => Err(Error::NotFound(EntityKind::Dispute)),
        }
    }

    /// Whether a dispute record exists for `dispute_id`.
    pub fn dispute_exists(&self, dispute_id: u64) -> (r: bool)
        ensures
            r == self.disputes@.dom().contains(dispute_id),
    {
        self.disputes.contains(dispute_id)
    }

    /// Stores the list of dispute ids filed for a user.
    pub fn store_user_disputes(&mut self, user_id: u64, dispute_ids: Vec<u64>)
        ensures
            final(self).user_disputes@ == old(self).user_disputes@.insert(user_id, dispute_ids),
            final(self).disputes@ == old(self).disputes@,
            same_counters(*old(self), *final(self)),
            same_identity(*old(self), *final(self)),
            same_reputation(*old(self), *final(self)),
            same_credentials(*old(self), *final(self)),
            same_recovery(*old(self), *final(self)),
            same_probation(*old(self), *final(self)),
            same_analytics(*old(self), *final(self)),
    {
        self.user_disputes.set(user_id, dispute_ids);
    }

    /// The dispute ids filed for a user, oldest first; empty when none were.
    pub fn get_user_disputes(&self, user_id: u64) -> (r: Vec<u64>)
        ensures
            r@ == stored_dispute_ids(*self, user_id),
    {
        let mut r: Vec<u64> = Vec::new();
        match self.user_disputes.get(user_id) {
            Some(v) => {
                let n = v.len();
                let mut i: usize = 0;
                while i < n
                    invariant
                        i <= n,
                        n == v@.len(),
                        r@.len() == i,
                        forall|j: int| 0 <= j < i ==> r@[j] == v@[j],
                    decreases n - i,
                {
                    r.push(v[i]);
                    i += 1;
                }
                proof {
                    assert(r@ =~= v@);
                }
            },
            None => {},
        }
        r
    }

    /// Stores a recovery plan under its user id, superseding any older plan.
    pub fn store_recovery_plan(&mut self, plan: RecoveryPlan)
        ensures
            final(self).recovery_plans@ == old(self).recovery_plans@.insert(plan.user_id, plan),
            same_counters(*old(self), *final(self)),
            same_identity(*old(self), *final(self)),
            same_reputation(*old(self), *final(self)),
            same_credentials(*old(self), *final(self)),
            same_disputes(*old(self), *final(self)),
            same_probation(*old(self), *final(self)),
            same_analytics(*old(self), *final(self)),
    {
        let id = plan.user_id;
        self.recovery_plans.set(id, plan);
    }

    /// The recovery plan stored for `user_id`, or `NotFound(RecoveryPlan)`.
    pub fn get_recovery_plan(&self, user_id: u64) -> (r: Result<&RecoveryPlan, Error>)
        ensures
            match r {
                Ok(p) => self.recovery_plans@.dom().contains(user_id) && *p
                    == self.recovery_plans@[user_id],
                Err(e) => !self.recovery_plans@.dom().contains(user_id) && e == Error::NotFound(
                    EntityKind::RecoveryPlan,
                ),
            },
    {
        match self.recovery_plans.get(user_id) {
            Some(p) => Ok(p),
            None => Err(Error::NotFound(EntityKind::RecoveryPlan)),
        }
    }

    /// Stores a probation record under its user id.
    pub fn store_probation_status(&mut self, probation: ProbationStatus)
        ensures
            final(self).probations@ == old(self).probations@.insert(probation.user_id, probation),
            same_counters(*old(self), *final(self)),
            same_identity(*old(self), *final(self)),
            same_reputation(*old(self), *final(self)),
            same_credentials(*old(self), *final(self)),
            same_disputes(*old(self), *final(self)),
            same_recovery(*old(self), *final(self)),
            same_analytics(*old(self), *final(self)),
    {
        let id = probation.user_id;
        self.probations.set(id, probation);
    }

    /// The probation record for `user_id`; a user with none stored is on the
    /// default record: inactive, with empty reason and restrictions.
    pub fn get_probation_status(&self, user_id: u64) -> (r: ProbationStatus)
        ensures
            if self.probations@.dom().contains(user_id) {
                probation_matches(self.probations@[user_id], r)
            } else {
                default_probation(user_id, r)
            },
    {
        match self.probations.get(user_id) {
            Some(p) => ProbationStatus {
                user_id: p.user_id,
                active: p.active,
                start_date: p.start_date,
                end_date: p.end_date,
                reason: p.reason.clone(),
                restrictions: p.restrictions.duplicate(),
            },
            None => ProbationStatus {
                user_id,
                active: false,
                start_date: 0,
                end_date: 0,
                reason: String::new(),
                restrictions: StrMap::new(),
            },
        }
    }

    /// Caches an analytics record under its key.
    pub fn store_analytics(&mut self, analytics: Analytics)
        ensures
            final(self).analytics@ == old(self).analytics@.insert(analytics.key@, analytics),
            same_counters(*old(self), *final(self)),
            same_identity(*old(self), *final(self)),
            same_reputation(*old(self), *final(self)),
            same_credentials(*old(self), *final(self)),
            same_disputes(*old(self), *final(self)),
            same_recovery(*old(self), *final(self)),
            same_probation(*old(self), *final(self)),
    {
        let key = analytics.key.clone();
        self.analytics.set(key, analytics);
    }

    /// The cached analytics stored under `key`, if any.
    pub fn get_analytics(&self, key: &String) -> (r: Option<&Analytics>)
        ensures
            match r {
                Some(a) => self.analytics@.dom().contains(key@) && *a == self.analytics@[key@],
                None => !self.analytics@.dom().contains(key@),
            },
    {
        self.analytics.get(key)
    }

    /// Every user id with a record, found by scanning `1 .. next_user_id`
    /// and testing existence per id; gaps from failed operations are simply
    /// skipped. Linear in the allocated range by design.
    pub fn get_all_user_ids(&self) -> (r: Vec<u64>)
        ensures
            r@ == present_ids(self.users@, self.next_user_id as int),
    {
        let mut r: Vec<u64> = Vec::new();
        let mut i: u64 = 1;
        while i < self.next_user_id
            invariant
                1 <= i,
                i <= self.next_user_id || i == 1,
                r@ == present_ids(self.users@, i as int),
            decreases self.next_user_id - i,
        {
            if self.users.contains(i) {
                r.push(i);
            }
            proof {
                assert(r@ =~= present_ids(self.users@, i + 1));
            }
            i = i + 1;
        }
        proof {
            if self.next_user_id <= 1 {
                assert(r@ =~= present_ids(self.users@, self.next_user_id as int));
            }
        }
        r
    }

    /// Every dispute id with a record, by the same scan over
    /// `1 .. next_dispute_id`.
    pub fn get_all_dispute_ids(&self) -> (r: Vec<u64>)
        ensures
            r@ == present_ids(self.disputes@, self.next_dispute_id as int),
    {
        let mut r: Vec<u64> = Vec::new();
        let mut i: u64 = 1;
        while i < self.next_dispute_id
            invariant
                1 <= i,
                i <= self.next_dispute_id || i == 1,
                r@ == present_ids(self.disputes@, i as int),
            decreases self.next_dispute_id - i,
        {
            if self.disputes.contains(i) {
                r.push(i);
            }
            proof {
                assert(r@ =~= present_ids(self.disputes@, i + 1));
            }
            i = i + 1;
        }
        proof {
            if self.next_dispute_id <= 1 {
                assert(r@ =~= present_ids(self.disputes@, self.next_dispute_id as int));
            }
        }
        r
    }
}

} // verus!
