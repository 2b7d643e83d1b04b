//! The reputation ledger.
//!
//! Scores are upserted per (user, subject) pair; every successful update
//! also appends one immutable entry to the user's history, stamped with the
//! ledger time. The history backs the derived queries: the signed change
//! over a lookback window, the trend points within a day window, and a
//! linear projection of the score.

use vstd::prelude::*;
use crate::state::ContributorReputation;
use crate::state::same_analytics;
use crate::state::same_counters;
use crate::state::same_credentials;
use crate::state::same_disputes;
use crate::state::same_identity;
use crate::state::same_probation;
use crate::state::same_recovery;
use crate::state::stored_history;
use crate::identity::spec_has_credential;
use crate::types::EntityKind;
use crate::types::Error;
use crate::types::HistoryEntry;
use crate::types::ReputationHistory;
use crate::types::Reputation;

verus! {

/// The entries of `h` whose subject is `subject`, in stored order.
pub open spec fn subject_entries(h: Seq<HistoryEntry>, subject: Seq<char>) -> Seq<HistoryEntry>
    decreases h.len(),
{
    if h.len() == 0 {
        Seq::<HistoryEntry>::empty()
    } else {
        let p = subject_entries(h.drop_last(), subject);
        if h.last().subject@ == subject {
            p.push(h.last())
        } else {
            p
        }
    }
}

/// The entries of `h` whose subject is `subject` and whose timestamp is at
/// least `cutoff`, in stored order.
pub open spec fn window_entries(h: Seq<HistoryEntry>, subject: Seq<char>, cutoff: int) -> Seq<
    HistoryEntry,
>
    decreases h.len(),
{
    if h.len() == 0 {
        Seq::<HistoryEntry>::empty()
    } else {
        let p = window_entries(h.drop_last(), subject, cutoff);
        if h.last().subject@ == subject && h.last().timestamp >= cutoff {
            p.push(h.last())
        } else {
            p
        }
    }
}

/// Where a window of `days` days reaching back from `now` starts; never
/// before time zero.
pub open spec fn spec_window_start(now: u64, days: u32) -> int {
    if now >= days * 86400 {
        now - days * 86400
    } else {
        0
    }
}

/// What an update returns: the user must exist, be verified and hold a
/// credential; nothing else is checked.
pub open spec fn spec_update_reputation_outcome(
    s: ContributorReputation,
    attested: bool,
    user_id: u64,
) -> Result<(), Error> {
    if !attested {
        Err(Error::Unauthorized)
    } else if !s.users@.dom().contains(user_id) {
        Err(Error::NotFound(EntityKind::User))
    } else if !(s.users@[user_id].verified && spec_has_credential(s, user_id)) {
        Err(Error::PreconditionNotMet)
    } else {
        Ok(())
    }
}

/// `post` is `pre` after a successful update: the current score for the
/// pair is `score`, one history entry carrying the subject, the score and
/// `now` is appended to the user's history — never overwriting or
/// reordering what was there — and nothing else changed.
pub open spec fn update_reputation_applied(
    pre: ContributorReputation,
    post: ContributorReputation,
    user_id: u64,
    subject: Seq<char>,
    score: u32,
    now: u64,
) -> bool {
    let h0 = stored_history(pre, user_id);
    let h1 = post.histories@[user_id]@;
    &&& post.reputations@ == pre.reputations@.insert((user_id, subject), score)
    &&& post.histories@.dom() == pre.histories@.dom().insert(user_id)
    &&& h1.len() == h0.len() + 1
    &&& forall|j: int| 0 <= j < h0.len() ==> h1[j] == h0[j]
    &&& h1.last().subject@ == subject
    &&& h1.last().score == score
    &&& h1.last().timestamp == now
    &&& forall|u: u64|
        u != user_id && pre.histories@.dom().contains(u) ==> post.histories@[u]
            == pre.histories@[u]
    &&& same_counters(pre, post)
    &&& same_identity(pre, post)
    &&& same_credentials(pre, post)
    &&& same_disputes(pre, post)
    &&& same_recovery(pre, post)
    &&& same_probation(pre, post)
    &&& same_analytics(pre, post)
}

/// What a score lookup returns: the stored score, or
/// `NotFound(Reputation)` when no record exists for the pair.
pub open spec fn spec_get_reputation(
    s: ContributorReputation,
    user_id: u64,
    subject: Seq<char>,
) -> Result<u32, Error> {
    if s.reputations@.dom().contains((user_id, subject)) {
        Ok(s.reputations@[(user_id, subject)])
    } else {
        Err(Error::NotFound(EntityKind::Reputation))
    }
}

/// The signed difference between the most recent score of `h` and the score
/// `lookback` entries back (the lookback is clamped to the oldest entry);
/// zero when fewer than two entries exist.
pub open spec fn spec_reputation_change(h: Seq<HistoryEntry>, lookback: u32) -> int {
    if h.len() < 2 {
        0
    } else {
        let lb = if lookback > h.len() - 1 {
            h.len() - 1
        } else {
            lookback as int
        };
        h.last().score - h[h.len() - 1 - lb].score
    }
}

/// The score projected `horizon_days` forward from the first and last trend
/// points, linearly per day and clamped to the `u32` range.
pub open spec fn spec_projected_score(
    first: u32,
    last: u32,
    span_days: int,
    horizon_days: u32,
) -> int
    recommends
        span_days > 0,
{
    if last >= first {
        let p = last + (last - first) * horizon_days / span_days;
        if p > u32::MAX {
            u32::MAX as int
        } else {
            p
        }
    } else {
        let d = (first - last) * horizon_days / span_days;
        if d > last {
            0
        } else {
            last - d
        }
    }
}

/// What a prediction returns. The trend window reaches `horizon_days` back
/// from `now`: with two or more points in it the score is projected forward
/// along their first-to-last slope; with fewer, the last known score is
/// returned; with no history for the subject at all, `NotFound(Reputation)`.
/// A window narrower than one day, or one whose points run backward in
/// time, projects nothing and yields the last point's score.
pub open spec fn spec_predict_outcome(
    s: ContributorReputation,
    user_id: u64,
    subject: Seq<char>,
    horizon_days: u32,
    now: u64,
) -> Result<u32, Error> {
    let pts = window_entries(
        stored_history(s, user_id),
        subject,
        spec_window_start(now, horizon_days),
    );
    if pts.len() >= 2 {
        let first = pts[0];
        let last = pts.last();
        if last.timestamp < first.timestamp {
            Ok(last.score)
        } else {
            let span_days = (last.timestamp - first.timestamp) / 86400;
            if span_days == 0 {
                Ok(last.score)
            } else {
                Ok(spec_projected_score(first.score, last.score, span_days, horizon_days) as u32)
            }
        }
    } else if pts.len() == 1 {
        Ok(pts[0].score)
    } else {
        let all = subject_entries(stored_history(s, user_id), subject);
        if all.len() > 0 {
            Ok(all.last().score)
        } else {
            Err(Error::NotFound(EntityKind::Reputation))
        }
    }
}

/// A fresh entry equal to `e`.
fn copy_entry(e: &HistoryEntry) -> (r: HistoryEntry)
    ensures
        r == *e,
{
    HistoryEntry { subject: e.subject.clone(), score: e.score, timestamp: e.timestamp }
}

/// A fresh history equal to `v`.
fn copy_history(v: &Vec<HistoryEntry>) -> (r: Vec<HistoryEntry>)
    ensures
        r@ == v@,
{
    let mut r: Vec<HistoryEntry> = Vec::new();
    let n = v.len();
    let mut i: usize = 0;
    while i < n
        invariant
            i <= n,
            n == v@.len(),
            r@.len() == i,
            forall|j: int| 0 <= j < i ==> r@[j] == v@[j],
        decreases n - i,
    {
        r.push(copy_entry(&v[i]));
        i += 1;
    }
    proof {
        assert(r@ =~= v@);
    }
    r
}

impl ContributorReputation {
    /// The user's history entries for `subject`, oldest first.
    fn subject_history(&self, user_id: u64, subject: &String) -> (r: Vec<HistoryEntry>)
        ensures
            r@ == subject_entries(stored_history(*self, user_id), subject@),
    {
        let mut r: Vec<HistoryEntry> = Vec::new();
        match self.histories.get(user_id) {
            Some(h) => {
                let ghost hs = h@;
                let n = h.len();
                let mut i: usize = 0;
                while i < n
                    invariant
                        i <= n,
                        n == hs.len(),
                        hs == h@,
                        r@ == subject_entries(hs.take(i as int), subject@),
                    decreases n - i,
                {
                    let e = &h[i];
                    if e.subject == *subject {
                        r.push(copy_entry(e));
                    }
                    proof {
                        assert(hs.take(i + 1).drop_last() =~= hs.take(i as int));
                        assert(hs.take(i + 1).last() == hs[i as int]);
                    }
                    i += 1;
                }
                proof {
                    assert(hs.take(n as int) =~= hs);
                }
            },
            None => {},
        }
        r
    }

    /// The user's history entries for `subject` stamped at or after
    /// `cutoff`, oldest first.
    fn window_history(&self, user_id: u64, subject: &String, cutoff: u64) -> (r: Vec<HistoryEntry>)
        ensures
            r@ == window_entries(stored_history(*self, user_id), subject@, cutoff as int),
    {
        let mut r: Vec<HistoryEntry> = Vec::new();
        match self.histories.get(user_id) {
            Some(h) => {
                let ghost hs = h@;
                let n = h.len();
                let mut i: usize = 0;
                while i < n
                    invariant
                        i <= n,
                        n == hs.len(),
                        hs == h@,
                        r@ == window_entries(hs.take(i as int), subject@, cutoff as int),
                    decreases n - i,
                {
                    let e = &h[i];
                    if e.subject == *subject && e.timestamp >= cutoff {
                        r.push(copy_entry(e));
                    }
                    proof {
                        assert(hs.take(i + 1).drop_last() =~= hs.take(i as int));
                        assert(hs.take(i + 1).last() == hs[i as int]);
                    }
                    i += 1;
                }
                proof {
                    assert(hs.take(n as int) =~= hs);
                }
            },
            None => {},
        }
        r
    }

    /// Upserts the current score for `(user_id, subject)` and appends a
    /// history entry stamped with `now`. Only a verified user holding a
    /// credential can have a score recorded.
    pub fn update_reputation(
        &mut self,
        attested: bool,
        user_id: u64,
        subject: String,
        score: u32,
        now: u64,
    ) -> (r: Result<(), Error>)
        ensures
            r == spec_update_reputation_outcome(*old(self), attested, user_id),
            r is Ok ==> update_reputation_applied(
                *old(self),
                *final(self),
                user_id,
                subject@,
                score,
                now,
            ),
            r is Err ==> *final(self) == *old(self),
    {
        if !attested {
            return Err(Error::Unauthorized);
        }
        let verified = match self.get_user(user_id) {
            Ok(u) => u.verified,
            Err(e) => { return Err(e) },
        };
        if !(verified && self.has_credential(user_id)) {
            return Err(Error::PreconditionNotMet);
        }
        let subject_for_entry = subject.clone();
        let mut entries: Vec<HistoryEntry> = match self.histories.get(user_id) {
            Some(h) => copy_history(h),
            None => Vec::new(),
        };
        entries.push(HistoryEntry { subject: subject_for_entry, score, timestamp: now });
        self.histories.set(user_id, entries);
        self.store_reputation(Reputation { user_id, subject, score });
        proof {
            assert(final(self).histories@.dom() =~= old(self).histories@.dom().insert(user_id));
        }
        Ok(())
    }

    /// The current score for `(user_id, subject)`, or
    /// `NotFound(Reputation)` when no record exists for the pair.
    pub fn get_reputation(&self, user_id: u64, subject: &String) -> (r: Result<u32, Error>)
        ensures
            r == spec_get_reputation(*self, user_id, subject@),
    {
        match self.reputations.get(user_id, subject) {
            Some(v) => Ok(*v),
            None => Err(Error::NotFound(EntityKind::Reputation)),
        }
    }

    /// The current score together with the full ordered history for the
    /// pair; `NotFound(Reputation)` when no current record exists.
    pub fn get_reputation_with_history(&self, user_id: u64, subject: &String) -> (r: Result<
        (u32, ReputationHistory),
        Error,
    >)
        ensures
            match r {
                Ok(p) => self.reputations@.dom().contains((user_id, subject@)) && p.0
                    == self.reputations@[(user_id, subject@)] && p.1.user_id == user_id
                    && p.1.subject@ == subject@ && p.1.entries@ == subject_entries(
                    stored_history(*self, user_id),
                    subject@,
                ),
                Err(e) => !self.reputations@.dom().contains((user_id, subject@)) && e
                    == Error::NotFound(EntityKind::Reputation),
            },
    {
        let score = match self.reputations.get(user_id, subject) {
            Some(v) => *v,
            None => { return Err(Error::NotFound(EntityKind::Reputation)) },
        };
        let entries = self.subject_history(user_id, subject);
        let history = ReputationHistory { user_id, subject: subject.clone(), entries };
        Ok((score, history))
    }

    /// The signed difference between the user's most recent score for
    /// `subject` and the score `lookback_count` history entries back; zero
    /// when fewer than two entries exist. No history is no error.
    pub fn calculate_reputation_change(
        &self,
        user_id: u64,
        subject: &String,
        lookback_count: u32,
    ) -> (r: Result<i64, Error>)
        ensures
            match r {
                Ok(v) => v == spec_reputation_change(
                    subject_entries(stored_history(*self, user_id), subject@),
                    lookback_count,
                ),
                Err(_) => false,
            },
    {
        let h = self.subject_history(user_id, subject);
        let n = h.len();
        if n < 2 {
            return Ok(0);
        }
        let lb: usize = if lookback_count as usize > n - 1 {
            n - 1
        } else {
            lookback_count as usize
        };
        let newest = h[n - 1].score;
        let oldest = h[n - 1 - lb].score;
        Ok(newest as i64 - oldest as i64)
    }

    /// The user's history entries for `subject` stamped within
    /// `window_days` days of `now`, in stored (chronological) order.
    pub fn get_reputation_trends(
        &self,
        user_id: u64,
        subject: &String,
        window_days: u32,
        now: u64,
    ) -> (r: Vec<HistoryEntry>)
        ensures
            r@ == window_entries(
                stored_history(*self, user_id),
                subject@,
                spec_window_start(now, window_days),
            ),
    {
        let span: u64 = (window_days as u64) * 86400;
        let cutoff: u64 = if now >= span {
            now - span
        } else {
            0
        };
        self.window_history(user_id, subject, cutoff)
    }

    /// A linear projection of the user's score for `subject`,
    /// `horizon_days` forward from the trend window that reaches the same
    /// number of days back from `now`; the last known score when fewer than
    /// two points lie in the window, and `NotFound(Reputation)` when the
    /// user has no history for the subject at all.
    pub fn predict_reputation_development(
        &self,
        user_id: u64,
        subject: &String,
        horizon_days: u32,
        now: u64,
    ) -> (r: Result<u32, Error>)
        ensures
            r == spec_predict_outcome(*self, user_id, subject@, horizon_days, now),
    {
        let span: u64 = (horizon_days as u64) * 86400;
        let cutoff: u64 = if now >= span {
            now - span
        } else {
            0
        };
        let pts = self.window_history(user_id, subject, cutoff);
        let n = pts.len();
        if n >= 2 {
            let first_ts = pts[0].timestamp;
            let first_score = pts[0].score;
            let last_ts = pts[n - 1].timestamp;
            let last_score = pts[n - 1].score;
            if last_ts < first_ts {
                return Ok(last_score);
            }
            let span_days: u64 = (last_ts - first_ts) / 86400;
            if span_days == 0 {
                return Ok(last_score);
            }
            if last_score >= first_score {
                proof {
                    vstd::arithmetic::mul::lemma_mul_upper_bound(
                        (last_score - first_score) as int,
                        u32::MAX as int,
                        horizon_days as int,
                        u32::MAX as int,
                    );
                    vstd::arithmetic::div_mod::lemma_div_nonincreasing(
                        ((last_score - first_score) as int) * (horizon_days as int),
                        span_days as int,
                    );
                }
                let rise: u128 = (last_score - first_score) as u128 * horizon_days as u128
                    / span_days as u128;
                let p: u128 = last_score as u128 + rise;
                if p > u32::MAX as u128 {
                    Ok(u32::MAX)
                } else {
                    Ok(p as u32)
                }
            } else {
                proof {
                    vstd::arithmetic::mul::lemma_mul_upper_bound(
                        (first_score - last_score) as int,
                        u32::MAX as int,
                        horizon_days as int,
                        u32::MAX as int,
                    );
                }
                let drop: u128 = (first_score - last_score) as u128 * horizon_days as u128
                    / span_days as u128;
                if drop > last_score as u128 {
                    Ok(0)
                } else {
                    Ok(last_score - drop as u32)
                }
            }
        } else if n == 1 {
            Ok(pts[0].score)
        } else {
            let all = self.subject_history(user_id, subject);
            let m = all.len();
            if m > 0 {
                Ok(all[m - 1].score)
            } else {
                Err(Error::NotFound(EntityKind::Reputation))
            }
        }
    }
}

} // verus!
