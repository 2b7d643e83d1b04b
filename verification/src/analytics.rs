//! The analytics engine.
//!
//! Pure derived computations: nothing here mutates a source entity. Each
//! generator aggregates reputation records or histories into an `Analytics`
//! value stamped with the current time; callers may cache the result under
//! its key with `store_analytics`, and every figure is recomputable from
//! the source data at any time. Sums saturate at the `u64` ceiling.

use vstd::prelude::*;
use crate::state::ContributorReputation;
use crate::state::present_ids;
use crate::state::stored_history;
use crate::reputation::spec_window_start;
use crate::strmap::StrMap;
use crate::types::Analytics;
use crate::types::DomainExpertise;
use crate::types::EntityKind;
use crate::types::Error;
use crate::types::HistoryEntry;
use crate::types::PeerBenchmark;

verus! {

/// The decimal digit `d` as a character.
pub open spec fn spec_digit_char(d: int) -> char {
    if d == 0 {
        '0'
    } else if d == 1 {
        '1'
    } else if d == 2 {
        '2'
    } else if d == 3 {
        '3'
    } else if d == 4 {
        '4'
    } else if d == 5 {
        '5'
    } else if d == 6 {
        '6'
    } else if d == 7 {
        '7'
    } else if d == 8 {
        '8'
    } else {
        '9'
    }
}

/// The decimal digits of `n`, most significant first.
pub open spec fn spec_dec_digits(n: int) -> Seq<char>
    recommends
        n >= 0,
    decreases n,
{
    if n < 10 {
        seq![spec_digit_char(n)]
    } else {
        spec_dec_digits(n / 10).push(spec_digit_char(n % 10))
    }
}

/// The key a user's analytics record is cached under.
pub open spec fn spec_user_key(user_id: u64) -> Seq<char> {
    "user_"@ + spec_dec_digits(user_id as int)
}

/// `a + b`, stopped at the `u64` ceiling.
pub open spec fn sat_add_u64(a: int, b: int) -> int {
    if a + b > u64::MAX {
        u64::MAX as int
    } else {
        a + b
    }
}

/// The entries of `h` stamped at or after `cutoff`, any subject, in order.
pub open spec fn window_all(h: Seq<HistoryEntry>, cutoff: int) -> Seq<HistoryEntry>
    decreases h.len(),
{
    if h.len() == 0 {
        Seq::<HistoryEntry>::empty()
    } else {
        let p = window_all(h.drop_last(), cutoff);
        if h.last().timestamp >= cutoff {
            p.push(h.last())
        } else {
            p
        }
    }
}

/// The scores of `s` summed with saturation.
pub open spec fn seq_sum_sat(s: Seq<HistoryEntry>) -> int
    decreases s.len(),
{
    if s.len() == 0 {
        0
    } else {
        sat_add_u64(seq_sum_sat(s.drop_last()), s.last().score as int)
    }
}

/// `sum / count`, or zero for an empty window.
pub open spec fn spec_average(sum: int, count: int) -> int {
    if count > 0 {
        sum / count
    } else {
        0
    }
}

/// The last windowed score minus the first; zero with fewer than two points.
pub open spec fn spec_slope(s: Seq<HistoryEntry>) -> int {
    if s.len() >= 2 {
        s.last().score - s[0].score
    } else {
        0
    }
}

/// How many history entries the users with ids below `n` hold in all,
/// saturated at the `u64` ceiling.
pub open spec fn platform_entry_count(s: ContributorReputation, n: int) -> int
    decreases n,
{
    if n <= 1 {
        0
    } else {
        let p = platform_entry_count(s, n - 1);
        if s.users@.dom().contains((n - 1) as u64) {
            sat_add_u64(p, stored_history(s, (n - 1) as u64).len() as int)
        } else {
            p
        }
    }
}

/// The scores in all history entries of the users with ids below `n`,
/// summed with saturation.
pub open spec fn platform_score_sum(s: ContributorReputation, n: int) -> int
    decreases n,
{
    if n <= 1 {
        0
    } else {
        let p = platform_score_sum(s, n - 1);
        if s.users@.dom().contains((n - 1) as u64) {
            sat_add_u64(p, seq_sum_sat(stored_history(s, (n - 1) as u64)))
        } else {
            p
        }
    }
}

/// How many ids below `n` hold a current score for `subject`.
pub open spec fn domain_count(s: ContributorReputation, subject: Seq<char>, n: int) -> int
    decreases n,
{
    if n <= 1 {
        0
    } else {
        let p = domain_count(s, subject, n - 1);
        if s.reputations@.dom().contains((((n - 1) as u64), subject)) {
            p + 1
        } else {
            p
        }
    }
}

/// The current scores for `subject` of the ids below `n`, summed with
/// saturation.
pub open spec fn domain_sum(s: ContributorReputation, subject: Seq<char>, n: int) -> int
    decreases n,
{
    if n <= 1 {
        0
    } else {
        let p = domain_sum(s, subject, n - 1);
        if s.reputations@.dom().contains((((n - 1) as u64), subject)) {
            sat_add_u64(p, s.reputations@[(((n - 1) as u64), subject)] as int)
        } else {
            p
        }
    }
}

/// How many ids below `n` rank ahead of a holder of `my_score` with id
/// `my_id` in `subject`: a higher score ranks ahead, and an equal score
/// ranks ahead only with a smaller id.
pub open spec fn ahead_count(
    s: ContributorReputation,
    subject: Seq<char>,
    n: int,
    my_score: u32,
    my_id: u64,
) -> int
    decreases n,
{
    if n <= 1 {
        0
    } else {
        let id = (n - 1) as u64;
        let p = ahead_count(s, subject, n - 1, my_score, my_id);
        if id != my_id && s.reputations@.dom().contains((id, subject)) && (s.reputations@[(
            id,
            subject,
        )] > my_score || (s.reputations@[(id, subject)] == my_score && id < my_id)) {
            p + 1
        } else {
            p
        }
    }
}

/// The analytics record derived for a user: the windowed update count, the
/// average windowed score, and the first-to-last score trend, keyed under
/// the user's key and stamped with `now`.
pub open spec fn user_analytics_matches(
    s: ContributorReputation,
    user_id: u64,
    window_days: u32,
    now: u64,
    a: Analytics,
) -> bool {
    let w = window_all(stored_history(s, user_id), spec_window_start(now, window_days));
    &&& a.key@ == spec_user_key(user_id)
    &&& a.last_updated == now
    &&& a.data@ == Map::<Seq<char>, u64>::empty().insert("total_updates"@, w.len() as u64).insert(
        "average_score"@,
        spec_average(seq_sum_sat(w), w.len() as int) as u64,
    )
    &&& a.trends@ == Map::<Seq<char>, i64>::empty().insert(
        "score_trend"@,
        spec_slope(w) as i64,
    )
}

/// The analytics record derived for the whole platform: how many users the
/// id scan finds, how many history entries they hold, and the average score
/// across all their entries.
pub open spec fn platform_analytics_matches(
    s: ContributorReputation,
    now: u64,
    a: Analytics,
) -> bool {
    let n = s.next_user_id as int;
    let users = present_ids(s.users@, n).len() as int;
    let count = platform_entry_count(s, n);
    let sum = platform_score_sum(s, n);
    &&& a.key@ == "platform"@
    &&& a.last_updated == now
    &&& a.data@ == Map::<Seq<char>, u64>::empty().insert("total_users"@, users as u64).insert(
        "total_updates"@,
        count as u64,
    ).insert("average_score"@, spec_average(sum, count) as u64)
    &&& a.trends@ == Map::<Seq<char>, i64>::empty()
}

/// The decimal digit `d` as a string slice.
fn digit_str(d: u64) -> (r: &'static str)
    requires
        d < 10,
    ensures
        r@ == seq![spec_digit_char(d as int)],
{
    proof {
        reveal_strlit("0");
        reveal_strlit("1");
        reveal_strlit("2");
        reveal_strlit("3");
        reveal_strlit("4");
        reveal_strlit("5");
        reveal_strlit("6");
        reveal_strlit("7");
        reveal_strlit("8");
        reveal_strlit("9");
    }
    match d {
        0 => {
            let r = "0";
            proof {
                assert(r@ =~= seq![spec_digit_char(d as int)]);
            }
            r
        },
        1 => {
            let r = "1";
            proof {
                assert(r@ =~= seq![spec_digit_char(d as int)]);
            }
            r
        },
        2 => {
            let r = "2";
            proof {
                assert(r@ =~= seq![spec_digit_char(d as int)]);
            }
            r
        },
        3 => {
            let r = "3";
            proof {
                assert(r@ =~= seq![spec_digit_char(d as int)]);
            }
            r
        },
        4 => {
            let r = "4";
            proof {
                assert(r@ =~= seq![spec_digit_char(d as int)]);
            }
            r
        },
        5 => {
            let r = "5";
            proof {
                assert(r@ =~= seq![spec_digit_char(d as int)]);
            }
            r
        },
        6 => {
            let r = "6";
            proof {
                assert(r@ =~= seq![spec_digit_char(d as int)]);
            }
            r
        },
        7 => {
            let r = "7";
            proof {
                assert(r@ =~= seq![spec_digit_char(d as int)]);
            }
            r
        },
        8 => {
            let r = "8";
            proof {
                assert(r@ =~= seq![spec_digit_char(d as int)]);
            }
            r
        },
        _ => {
            let r = "9";
            proof {
                assert(r@ =~= seq![spec_digit_char(d as int)]);
            }
            r
        },
    }
}

/// The decimal digits of `n`, most significant first.
fn u64_to_dec(n: u64) -> (r: String)
    ensures
        r@ == spec_dec_digits(n as int),
    decreases n,
{
    if n < 10 {
        digit_str(n).to_owned()
    } else {
        let mut s = u64_to_dec(n / 10);
        s.append(digit_str(n % 10));
        proof {
            assert(s@ =~= spec_dec_digits(n as int));
        }
        s
    }
}

/// `a + b`, stopped at the `u64` ceiling.
fn sat_add(a: u64, b: u64) -> (r: u64)
    ensures
        r == sat_add_u64(a as int, b as int),
{
    if a > u64::MAX - b {
        u64::MAX
    } else {
        a + b
    }
}

impl ContributorReputation {
    /// The user's history entries stamped at or after `cutoff`, any
    /// subject, oldest first.
    fn window_all_history(&self, user_id: u64, cutoff: u64) -> (r: Vec<HistoryEntry>)
        ensures
            r@ == window_all(stored_history(*self, user_id), cutoff as int),
    {
        let mut r: Vec<HistoryEntry> = Vec::new();
        match self.histories.get(user_id) {
            Some(h) => {
                let ghost hs = h@;
                let n = h.len();
                let mut i: usize = 0;
                while i < n
                    invariant
                        i <= n,
                        n == hs.len(),
                        hs == h@,
                        r@ == window_all(hs.take(i as int), cutoff as int),
                    decreases n - i,
                {
                    let e = &h[i];
                    if e.timestamp >= cutoff {
                        r.push(
                            HistoryEntry {
                                subject: e.subject.clone(),
                                score: e.score,
                                timestamp: e.timestamp,
                            },
                        );
                    }
                    proof {
                        assert(hs.take(i + 1).drop_last() =~= hs.take(i as int));
                        assert(hs.take(i + 1).last() == hs[i as int]);
                    }
                    i += 1;
                }
                proof {
                    assert(hs.take(n as int) =~= hs);
                }
            },
            None => {},
        }
        r
    }

    /// The saturated sum of the scores in `v`.
    fn sum_scores(v: &Vec<HistoryEntry>) -> (r: u64)
        ensures
            r == seq_sum_sat(v@),
    {
        let n = v.len();
        let mut acc: u64 = 0;
        let mut i: usize = 0;
        while i < n
            invariant
                i <= n,
                n == v@.len(),
                acc == seq_sum_sat(v@.take(i as int)),
            decreases n - i,
        {
            acc = sat_add(acc, v[i].score as u64);
            proof {
                assert(v@.take(i + 1).drop_last() =~= v@.take(i as int));
                assert(v@.take(i + 1).last() == v@[i as int]);
            }
            i += 1;
        }
        proof {
            assert(v@.take(n as int) =~= v@);
        }
        acc
    }

    /// Aggregates the user's windowed reputation history into a metric
    /// mapping and a trend mapping, stamped with `now`; `NotFound(User)`
    /// for an unknown id.
    pub fn generate_user_analytics(&self, user_id: u64, window_days: u32, now: u64) -> (r: Result<
        Analytics,
        Error,
    >)
        ensures
            match r {
                Ok(a) => self.users@.dom().contains(user_id) && user_analytics_matches(
                    *self,
                    user_id,
                    window_days,
                    now,
                    a,
                ),
                Err(e) => !self.users@.dom().contains(user_id) && e == Error::NotFound(
                    EntityKind::User,
                ),
            },
    {
        if !self.user_exists(user_id) {
            return Err(Error::NotFound(EntityKind::User));
        }
        let span: u64 = (window_days as u64) * 86400;
        let cutoff: u64 = if now >= span {
            now - span
        } else {
            0
        };
        let w = self.window_all_history(user_id, cutoff);
        let count = w.len();
        let sum = Self::sum_scores(&w);
        let average: u64 = if count > 0 {
            sum / (count as u64)
        } else {
            0
        };
        let slope: i64 = if count >= 2 {
            w[count - 1].score as i64 - w[0].score as i64
        } else {
            0
        };
        let digits = u64_to_dec(user_id);
        let mut key = "user_".to_owned();
        key.append(digits.as_str());
        let mut data: StrMap<u64> = StrMap::new();
        data.set("total_updates".to_owned(), count as u64);
        data.set("average_score".to_owned(), average);
        let mut trends: StrMap<i64> = StrMap::new();
        trends.set("score_trend".to_owned(), slope);
        Ok(Analytics { key, data, trends, last_updated: now })
    }

    /// Aggregates across all enumerable users: how many exist, how many
    /// history entries they hold, and the average score over all of them.
    pub fn calculate_platform_analytics(&self, now: u64) -> (r: Analytics)
        ensures
            platform_analytics_matches(*self, now, r),
    {
        let mut users: u64 = 0;
        let mut count: u64 = 0;
        let mut sum: u64 = 0;
        let mut i: u64 = 1;
        while i < self.next_user_id
            invariant
                1 <= i,
                i <= self.next_user_id || i == 1,
                users == present_ids(self.users@, i as int).len(),
                users < i,
                count == platform_entry_count(*self, i as int),
                sum == platform_score_sum(*self, i as int),
            decreases self.next_user_id - i,
        {
            if self.user_exists(i) {
                users = users + 1;
                match self.histories.get(i) {
                    Some(h) => {
                        count = sat_add(count, h.len() as u64);
                        let user_sum = Self::sum_scores(h);
                        sum = sat_add(sum, user_sum);
                    },
                    None => {
                        proof {
                            assert(stored_history(*self, i).len() == 0);
                            assert(seq_sum_sat(stored_history(*self, i)) == 0);
                        }
                    },
                }
            }
            proof {
                assert(present_ids(self.users@, i + 1).len() == present_ids(
                    self.users@,
                    i as int,
                ).len() + if self.users@.dom().contains(i) {
                    1int
                } else {
                    0int
                });
            }
            i = i + 1;
        }
        proof {
            if self.next_user_id <= 1 {
                assert(present_ids(self.users@, self.next_user_id as int) =~= Seq::<u64>::empty());
                assert(present_ids(self.users@, 1int) =~= Seq::<u64>::empty());
            }
        }
        let average: u64 = if count > 0 {
            sum / count
        } else {
            0
        };
        let mut data: StrMap<u64> = StrMap::new();
        data.set("total_users".to_owned(), users);
        data.set("total_updates".to_owned(), count);
        data.set("average_score".to_owned(), average);
        Analytics {
            key: "platform".to_owned(),
            data,
            trends: StrMap::new(),
            last_updated: now,
        }
    }

    /// How many enumerable users hold a current score for `subject`, and
    /// their average score.
    pub fn generate_domain_expertise(&self, subject: &String) -> (r: DomainExpertise)
        ensures
            r.subject@ == subject@,
            r.total_contributors == domain_count(*self, subject@, self.next_user_id as int),
            r.average_score == spec_average(
                domain_sum(*self, subject@, self.next_user_id as int),
                domain_count(*self, subject@, self.next_user_id as int),
            ),
    {
        let mut contributors: u64 = 0;
        let mut sum: u64 = 0;
        let mut i: u64 = 1;
        while i < self.next_user_id
            invariant
                1 <= i,
                i <= self.next_user_id || i == 1,
                contributors == domain_count(*self, subject@, i as int),
                sum == domain_sum(*self, subject@, i as int),
                contributors < i,
            decreases self.next_user_id - i,
        {
            match self.reputations.get(i, subject) {
                Some(score) => {
                    contributors = contributors + 1;
                    sum = sat_add(sum, *score as u64);
                },
                None => {},
            }
            i = i + 1;
        }
        let average: u64 = if contributors > 0 {
            sum / contributors
        } else {
            0
        };
        DomainExpertise {
            subject: subject.clone(),
            total_contributors: contributors,
            average_score: average,
        }
    }

    /// Ranks the user's current score for `subject` against every other
    /// enumerable holder of a score in the same subject, ties broken by
    /// ascending user id; `NotFound(Reputation)` when the user holds no
    /// score for the subject.
    pub fn generate_peer_benchmark(&self, user_id: u64, subject: &String) -> (r: Result<
        PeerBenchmark,
        Error,
    >)
        ensures
            match r {
                Ok(b) => {
                    &&& self.reputations@.dom().contains((user_id, subject@))
                    &&& b.user_id == user_id
                    &&& b.subject@ == subject@
                    &&& b.score == self.reputations@[(user_id, subject@)]
                    &&& b.rank == ahead_count(
                        *self,
                        subject@,
                        self.next_user_id as int,
                        self.reputations@[(user_id, subject@)],
                        user_id,
                    ) + 1
                    &&& b.total_peers == domain_count(*self, subject@, self.next_user_id as int)
                },
                Err(e) => !self.reputations@.dom().contains((user_id, subject@)) && e
                    == Error::NotFound(EntityKind::Reputation),
            },
    {
        let my_score = match self.reputations.get(user_id, subject) {
            Some(v) => *v,
            None => { return Err(Error::NotFound(EntityKind::Reputation)) },
        };
        let mut ahead: u64 = 0;
        let mut peers: u64 = 0;
        let mut i: u64 = 1;
        while i < self.next_user_id
            invariant
                1 <= i,
                i <= self.next_user_id || i == 1,
                ahead == ahead_count(*self, subject@, i as int, my_score, user_id),
                peers == domain_count(*self, subject@, i as int),
                ahead < i,
                peers < i,
                my_score == self.reputations@[(user_id, subject@)],
            decreases self.next_user_id - i,
        {
            match self.reputations.get(i, subject) {
                Some(score) => {
                    peers = peers + 1;
                    if i != user_id && (*score > my_score || (*score == my_score && i < user_id)) {
                        ahead = ahead + 1;
                    }
                },
                None => {},
            }
            i = i + 1;
        }
        Ok(
            PeerBenchmark {
                user_id,
                subject: subject.clone(),
                score: my_score,
                rank: ahead + 1,
                total_peers: peers,
            },
        )
    }
}

} // verus!
