//! The laws of the ledger: properties that hold across calls, proved from
//! the contracts of the operations.
//!
//! Each law is stated over the spec functions that the operations' own
//! contracts use, so it applies to any sequence of calls whose effects those
//! contracts describe.

use vstd::prelude::*;
use crate::state::ContributorReputation;
use crate::state::lemma_present_ids_contains;
use crate::state::lemma_present_ids_sorted;
use crate::state::present_ids;
use crate::state::probation_deactivated;
use crate::state::stored_history;
use crate::identity::spec_has_credential;
use crate::identity::spec_verify_user_outcome;
use crate::identity::verify_user_applied;
use crate::dispute::resolve_dispute_applied;
use crate::dispute::spec_resolve_dispute_outcome;
use crate::recovery::cleanup_applied;
use crate::recovery::probation_due;
use crate::recovery::spec_is_on_probation;
use crate::reputation::spec_get_reputation;
use crate::reputation::spec_reputation_change;
use crate::reputation::spec_update_reputation_outcome;
use crate::reputation::subject_entries;
use crate::reputation::update_reputation_applied;
use crate::reputation::window_entries;
use crate::types::Error;
use crate::types::HistoryEntry;

verus! {

/// One allocation step of the user id counter: the id handed out is the
/// counter's value, and the counter moves one up. `increment_user_id`
/// ensures exactly this of its caller-visible state.
pub open spec fn user_id_allocation(
    pre: ContributorReputation,
    post: ContributorReputation,
    id: u64,
) -> bool {
    id == pre.next_user_id && post.next_user_id == pre.next_user_id + 1
}

/// In any chain of allocation steps the ids come out strictly increasing,
/// by exactly one per step, with no repeats.
pub proof fn lemma_allocated_ids_strictly_increase(
    states: Seq<ContributorReputation>,
    ids: Seq<u64>,
)
    requires
        states.len() == ids.len() + 1,
        forall|i: int|
            0 <= i < ids.len() ==> user_id_allocation(states[i], states[i + 1], #[trigger] ids[i]),
    ensures
        forall|i: int, j: int|
            0 <= i < j < ids.len() ==> ids[i] < ids[j] && ids[j] - ids[i] == j - i,
{
    assert forall|i: int, j: int|
        0 <= i < j < ids.len() implies ids[i] < ids[j] && ids[j] - ids[i] == j - i by {
        lemma_alloc_chain_offset(states, ids, i);
        lemma_alloc_chain_offset(states, ids, j);
    }
}

/// Each allocated id is the first one plus the number of steps before it.
proof fn lemma_alloc_chain_offset(states: Seq<ContributorReputation>, ids: Seq<u64>, k: int)
    requires
        states.len() == ids.len() + 1,
        forall|i: int|
            0 <= i < ids.len() ==> user_id_allocation(states[i], states[i + 1], #[trigger] ids[i]),
        0 <= k < ids.len(),
    ensures
        ids[k] == ids[0] + k,
    decreases k,
{
    if k > 0 {
        lemma_alloc_chain_offset(states, ids, k - 1);
        assert(user_id_allocation(states[k - 1], states[k], ids[k - 1]));
        assert(user_id_allocation(states[k], states[k + 1], ids[k]));
    }
}

/// `update_reputation` always fails with `PreconditionNotMet` for an
/// unverified or uncredentialed user, and always succeeds for a verified
/// user holding a credential.
pub proof fn lemma_update_reputation_gate(s: ContributorReputation, user_id: u64)
    ensures
        s.users@.dom().contains(user_id) && !(s.users@[user_id].verified && spec_has_credential(
            s,
            user_id,
        )) ==> spec_update_reputation_outcome(s, true, user_id) == Err::<(), Error>(
            Error::PreconditionNotMet,
        ),
        s.users@.dom().contains(user_id) && s.users@[user_id].verified && spec_has_credential(
            s,
            user_id,
        ) ==> spec_update_reputation_outcome(s, true, user_id) == Ok::<(), Error>(()),
{
}

/// A successful update is visible immediately: reading the pair back gives
/// exactly the written score.
pub proof fn lemma_update_visible(
    pre: ContributorReputation,
    post: ContributorReputation,
    user_id: u64,
    subject: Seq<char>,
    score: u32,
    now: u64,
)
    requires
        update_reputation_applied(pre, post, user_id, subject, score, now),
    ensures
        spec_get_reputation(post, user_id, subject) == Ok::<u32, Error>(score),
{
}

/// Verifying the same user twice fails: after one successful verification,
/// a second attempt gives `AlreadyVerified`, whatever details it carries.
pub proof fn lemma_reverify_fails(
    pre: ContributorReputation,
    post: ContributorReputation,
    user_id: u64,
    details: Seq<char>,
)
    requires
        pre.users@.dom().contains(user_id),
        verify_user_applied(pre, post, user_id),
    ensures
        spec_verify_user_outcome(post, true, user_id, details) == Err::<(), Error>(
            Error::AlreadyVerified,
        ),
{
}

/// When every stored user id lies in the allocated range `1 ..
/// next_user_id`, the id scan returns exactly the ids with a user record —
/// whatever gaps the range has — in strictly ascending order.
pub proof fn lemma_all_user_ids_exact(s: ContributorReputation)
    requires
        forall|id: u64| #[trigger]
            s.users@.dom().contains(id) ==> 1 <= id < s.next_user_id,
    ensures
        forall|id: u64| #[trigger]
            present_ids(s.users@, s.next_user_id as int).contains(id) <==> s.users@.dom().contains(
                id,
            ),
        forall|i: int, j: int|
            0 <= i < j < present_ids(s.users@, s.next_user_id as int).len() ==> present_ids(
                s.users@,
                s.next_user_id as int,
            )[i] < present_ids(s.users@, s.next_user_id as int)[j],
{
    lemma_present_ids_contains(s.users@, s.next_user_id as int);
    lemma_present_ids_sorted(s.users@, s.next_user_id as int);
}

/// The cleanup sweep deactivates every due probation, leaves every other
/// record untouched, and is a no-op when nothing is due — in particular
/// with no users or no active probations. A passed end date alone never
/// clears the flag; only the sweep does.
pub proof fn lemma_cleanup_exact(
    pre: ContributorReputation,
    post: ContributorReputation,
    now: u64,
)
    requires
        cleanup_applied(pre, post, now),
    ensures
        forall|id: u64| #[trigger] probation_due(pre, id, now) ==> !spec_is_on_probation(post, id),
        forall|id: u64|
            !(#[trigger] probation_due(pre, id, now)) ==> spec_is_on_probation(post, id)
                == spec_is_on_probation(pre, id),
        forall|id: u64|
            pre.probations@.dom().contains(id) && !(#[trigger] probation_due(pre, id, now))
                ==> post.probations@[id] == pre.probations@[id],
        (forall|id: u64| !(#[trigger] probation_due(pre, id, now))) ==> post.probations@
            == pre.probations@,
{
    assert forall|id: u64| #[trigger] probation_due(pre, id, now) implies !spec_is_on_probation(
        post,
        id,
    ) by {
        assert(probation_deactivated(pre.probations@[id], post.probations@[id]));
    }
    if forall|id: u64| !(#[trigger] probation_due(pre, id, now)) {
        assert forall|id: u64| #[trigger]
            post.probations@.dom().contains(id) implies post.probations@[id]
            == pre.probations@[id] by {
            assert(!probation_due(pre, id, now));
        }
        assert(post.probations@ =~= pre.probations@);
    }
}

/// A dispute's status transition is exactly-once: after a resolution, any
/// further attempt to resolve the same dispute fails, so the status is
/// never reversed.
pub proof fn lemma_no_reresolution(
    pre: ContributorReputation,
    post: ContributorReputation,
    dispute_id: u64,
    approved: bool,
    resolver: Seq<char>,
    now: u64,
)
    requires
        pre.disputes@.dom().contains(dispute_id),
        resolve_dispute_applied(pre, post, dispute_id, approved, resolver, now),
    ensures
        spec_resolve_dispute_outcome(post, true, dispute_id) == Err::<(), Error>(
            Error::PreconditionNotMet,
        ),
{
}

/// The reputation change is zero with fewer than two history entries, and
/// with a lookback of one it is the signed delta between the last two.
pub proof fn lemma_reputation_change_basics(h: Seq<HistoryEntry>, lookback: u32)
    ensures
        h.len() < 2 ==> spec_reputation_change(h, lookback) == 0,
        h.len() >= 2 && lookback == 1 ==> spec_reputation_change(h, lookback) == h.last().score
            - h[h.len() - 2].score,
{
}

/// A current score is stored for a (user, subject) pair exactly when the
/// user's history holds at least one entry for that subject.
pub open spec fn rep_history_consistent(s: ContributorReputation) -> bool {
    forall|u: u64, subj: Seq<char>| #[trigger]
        s.reputations@.dom().contains((u, subj)) <==> subject_entries(
            stored_history(s, u),
            subj,
        ).len() > 0
}

/// A fresh ledger is consistent, and every successful update keeps it so:
/// the upserted current record and the appended history entry arrive
/// together.
pub proof fn lemma_update_keeps_consistency(
    pre: ContributorReputation,
    post: ContributorReputation,
    user_id: u64,
    subject: Seq<char>,
    score: u32,
    now: u64,
)
    requires
        rep_history_consistent(pre),
        update_reputation_applied(pre, post, user_id, subject, score, now),
    ensures
        rep_history_consistent(post),
{
    let h0 = stored_history(pre, user_id);
    let h1 = post.histories@[user_id]@;
    assert(h1.drop_last() =~= h0);
    assert forall|u: u64, subj: Seq<char>| #[trigger]
        post.reputations@.dom().contains((u, subj)) <==> subject_entries(
            stored_history(post, u),
            subj,
        ).len() > 0 by {
        if u == user_id {
            assert(stored_history(post, u) == h1);
            if subj == subject {
                assert(post.reputations@.dom().contains((u, subj)));
                assert(h1.last().subject@ == subj);
                assert(subject_entries(h1, subj).len() > 0);
            } else {
                assert(subject_entries(h1, subj) == subject_entries(h0, subj));
                assert(post.reputations@.dom().contains((u, subj)) == pre.reputations@.dom(
                ).contains((u, subj)));
                assert(pre.reputations@.dom().contains((u, subj)) <==> subject_entries(
                    h0,
                    subj,
                ).len() > 0);
            }
        } else {
            assert(stored_history(post, u) == stored_history(pre, u));
            assert(post.reputations@.dom().contains((u, subj)) == pre.reputations@.dom().contains(
                (u, subj),
            ));
            assert(pre.reputations@.dom().contains((u, subj)) <==> subject_entries(
                stored_history(pre, u),
                subj,
            ).len() > 0);
        }
    }
}

/// Timestamps never decrease along `h`.
pub open spec fn times_sorted(h: Seq<HistoryEntry>) -> bool {
    forall|i: int, j: int| 0 <= i <= j < h.len() ==> h[i].timestamp <= h[j].timestamp
}

/// Every windowed entry is one of the history's entries.
proof fn lemma_window_entries_members(h: Seq<HistoryEntry>, subject: Seq<char>, cutoff: int)
    ensures
        forall|i: int|
            0 <= i < window_entries(h, subject, cutoff).len() ==> exists|j: int|
                0 <= j < h.len() && #[trigger] window_entries(h, subject, cutoff)[i] == h[j],
    decreases h.len(),
{
    if h.len() == 0 {
    } else {
        let h0 = h.drop_last();
        lemma_window_entries_members(h0, subject, cutoff);
        let w = window_entries(h, subject, cutoff);
        let w0 = window_entries(h0, subject, cutoff);
        assert forall|i: int| 0 <= i < w.len() implies exists|j: int|
            0 <= j < h.len() && #[trigger] w[i] == h[j] by {
            if i < w0.len() {
                assert(w[i] == w0[i]);
                let j = choose|j: int| 0 <= j < h0.len() && #[trigger] w0[i] == h0[j];
                assert(w[i] == h[j]);
            } else {
                assert(w[i] == h[h.len() - 1]);
            }
        }
    }
}

/// Filtering a history whose timestamps never decrease keeps them so: the
/// trend points come out in chronological order.
pub proof fn lemma_trends_chronological(h: Seq<HistoryEntry>, subject: Seq<char>, cutoff: int)
    requires
        times_sorted(h),
    ensures
        times_sorted(window_entries(h, subject, cutoff)),
    decreases h.len(),
{
    if h.len() == 0 {
    } else {
        let h0 = h.drop_last();
        assert(times_sorted(h0)) by {
            assert forall|i: int, j: int|
                0 <= i <= j < h0.len() implies h0[i].timestamp <= h0[j].timestamp by {
                assert(h0[i] == h[i]);
                assert(h0[j] == h[j]);
            }
        }
        lemma_trends_chronological(h0, subject, cutoff);
        lemma_window_entries_members(h0, subject, cutoff);
        let w = window_entries(h, subject, cutoff);
        let w0 = window_entries(h0, subject, cutoff);
        assert forall|i: int, j: int|
            0 <= i <= j < w.len() implies w[i].timestamp <= w[j].timestamp by {
            if j < w0.len() {
                assert(w[i] == w0[i]);
                assert(w[j] == w0[j]);
            } else if i < w0.len() {
                assert(w[i] == w0[i]);
                assert(w[j] == h.last());
                let k = choose|k: int| 0 <= k < h0.len() && #[trigger] w0[i] == h0[k];
                assert(h0[k] == h[k]);
                assert(h[k].timestamp <= h[h.len() - 1].timestamp);
            }
        }
    }
}

/// Appending an entry stamped at or after everything already in the
/// history keeps the timestamps non-decreasing: under a non-decreasing
/// clock, histories stay chronological.
pub proof fn lemma_append_keeps_order(
    pre: ContributorReputation,
    post: ContributorReputation,
    user_id: u64,
    subject: Seq<char>,
    score: u32,
    now: u64,
)
    requires
        update_reputation_applied(pre, post, user_id, subject, score, now),
        times_sorted(stored_history(pre, user_id)),
        forall|j: int|
            0 <= j < stored_history(pre, user_id).len() ==> stored_history(pre, user_id)[
                j
            ].timestamp <= now,
    ensures
        times_sorted(post.histories@[user_id]@),
{
    let h0 = stored_history(pre, user_id);
    let h1 = post.histories@[user_id]@;
    assert forall|i: int, j: int|
        0 <= i <= j < h1.len() implies h1[i].timestamp <= h1[j].timestamp by {
        if j < h1.len() - 1 {
            assert(h1[i] == h0[i]);
            assert(h1[j] == h0[j]);
        } else if i < h1.len() - 1 {
            assert(h1[i] == h0[i]);
            assert(h1[j].timestamp == now);
        }
    }
}

} // verus!
