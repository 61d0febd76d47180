use vstd::prelude::*;

use crate::errors::ApiError;
use crate::seqs::{lemma_filter_all_false, lemma_filter_all_true, lemma_filter_len_le,
    lemma_filter_push};
use crate::strings::str_eq;

verus! {

/// One hour, in seconds: the window of the per-session transaction limit.
pub const HOUR_SECONDS: u64 = 3600;

/// One day, in seconds: the window of the per-session episode-creation limit.
pub const DAY_SECONDS: u64 = 86400;

/// How long an idle session record is retained before garbage collection.
pub const SESSION_RETENTION_SECONDS: u64 = 604800;

/// The per-session quotas the admission controller enforces.
#[derive(Debug, Clone, Copy, PartialEq, Eq, Structural)]
pub struct SessionLimits {
    pub transactions_per_hour: u32,
    pub episodes_per_day: u32,
    pub max_total_transactions: u32,
}

/// The default quotas.
pub open spec fn spec_default_limits() -> SessionLimits {
    SessionLimits { transactions_per_hour: 20, episodes_per_day: 5, max_total_transactions: 100 }
}

impl Default for SessionLimits {
    fn default() -> (r: Self)
        ensures
            r == spec_default_limits(),
    {
        SessionLimits { transactions_per_hour: 20, episodes_per_day: 5, max_total_transactions: 100 }
    }
}

/// Per-session usage counters: raw timestamps of recent operations, so the
/// windowed counts are recomputed exactly on every check.
#[derive(Debug)]
pub struct SessionUsage {
    pub transactions_this_hour: Vec<u64>,
    pub episodes_today: Vec<u64>,
    pub total_transactions: u32,
    pub first_seen: u64,
}

/// Mathematical image of a `SessionUsage`.
#[verifier::ext_equal]
pub struct UsageView {
    pub txs: Seq<u64>,
    pub eps: Seq<u64>,
    pub total: u32,
    pub first_seen: u64,
}

impl View for SessionUsage {
    type V = UsageView;

    open spec fn view(&self) -> UsageView {
        UsageView {
            txs: self.transactions_this_hour@,
            eps: self.episodes_today@,
            total: self.total_transactions,
            first_seen: self.first_seen,
        }
    }
}

impl SessionUsage {
    /// A record for a session first seen at `now`, with no activity yet.
    pub fn new(now: u64) -> (r: Self)
        ensures
            r@ == fresh_usage(now),
    {
        let r = SessionUsage {
            transactions_this_hour: Vec::new(),
            episodes_today: Vec::new(),
            total_transactions: 0,
            first_seen: now,
        };
        proof {
            assert(r@ =~~= fresh_usage(now));
        }
        r
    }
}

/// The retention test a garbage-collection pass at time `now` applies to a
/// session record.
pub open spec fn retention_pred(now: u64) -> spec_fn((Seq<char>, UsageView)) -> bool {
    |r: (Seq<char>, UsageView)| in_window(r.1.first_seen, now, SESSION_RETENTION_SECONDS)
}

/// The usage attributed to a session that has no record yet.
pub open spec fn fresh_usage(now: u64) -> UsageView {
    UsageView { txs: Seq::empty(), eps: Seq::empty(), total: 0, first_seen: now }
}

/// Whether a timestamp `t` still lies inside a sliding window of length
/// `window` that ends at `now`. A timestamp from the future counts as inside.
pub open spec fn in_window(t: u64, now: u64, window: u64) -> bool {
    now <= t || now - t < window
}

/// The timestamps of `s` still inside the window, in order.
pub open spec fn recent(s: Seq<u64>, now: u64, window: u64) -> Seq<u64> {
    s.filter(|t: u64| in_window(t, now, window))
}

/// The admission step for one state-changing operation: stale window entries
/// are discarded, then the call is denied — with the counters not consumed —
/// when the hourly window is full or the lifetime cap is reached, and
/// otherwise the operation is recorded.
pub open spec fn check_op_spec(u: UsageView, limits: SessionLimits, now: u64) -> (UsageView, bool) {
    let txs = recent(u.txs, now, HOUR_SECONDS);
    let eps = recent(u.eps, now, DAY_SECONDS);
    if txs.len() >= limits.transactions_per_hour as int || u.total
        >= limits.max_total_transactions {
        (UsageView { txs, eps, total: u.total, first_seen: u.first_seen }, false)
    } else {
        (
            UsageView {
                txs: txs.push(now),
                eps,
                total: (u.total + 1) as u32,
                first_seen: u.first_seen,
            },
            true,
        )
    }
}

/// The admission step for one episode creation: stale daily entries are
/// discarded, then the call is denied when the daily window is full, and
/// otherwise the creation is recorded.
pub open spec fn check_episode_spec(u: UsageView, limits: SessionLimits, now: u64) -> (
    UsageView,
    bool,
) {
    let eps = recent(u.eps, now, DAY_SECONDS);
    if eps.len() >= limits.episodes_per_day as int {
        (UsageView { txs: u.txs, eps, total: u.total, first_seen: u.first_seen }, false)
    } else {
        (UsageView { txs: u.txs, eps: eps.push(now), total: u.total, first_seen: u.first_seen }, true)
    }
}

struct SessionEntry {
    id: String,
    usage: SessionUsage,
}

/// The admission controller: per-session sliding-window quotas on
/// state-changing operations and on episode creation.
pub struct RateLimiter {
    limits: SessionLimits,
    sessions: Vec<SessionEntry>,
}

impl RateLimiter {
    /// The quotas this controller enforces.
    pub closed spec fn limits(&self) -> SessionLimits {
        self.limits
    }

    /// Every session record, as a key/usage pair in insertion order.
    pub closed spec fn records(&self) -> Seq<(Seq<char>, UsageView)> {
        Seq::new(self.sessions@.len(), |i: int| (self.sessions@[i].id@, self.sessions@[i].usage@))
    }

    /// The session keys, in record order.
    pub open spec fn keys(&self) -> Seq<Seq<char>> {
        Seq::new(self.records().len(), |i: int| self.records()[i].0)
    }

    /// The usage views, in record order.
    pub open spec fn usages(&self) -> Seq<UsageView> {
        Seq::new(self.records().len(), |i: int| self.records()[i].1)
    }

    /// Whether a record exists for the session `id`.
    pub open spec fn has_session(&self, id: Seq<char>) -> bool {
        exists|i: int| 0 <= i < self.keys().len() && self.keys()[i] == id
    }

    /// The usage recorded for the session `id` (meaningful only when
    /// `has_session(id)`).
    pub open spec fn usage(&self, id: Seq<char>) -> UsageView {
        let i = choose|i: int| 0 <= i < self.keys().len() && self.keys()[i] == id;
        self.usages()[i]
    }

    /// The usage a check starts from: the session's record, or a fresh one
    /// first seen `now`.
    pub open spec fn effective_usage(&self, id: Seq<char>, now: u64) -> UsageView {
        if self.has_session(id) {
            self.usage(id)
        } else {
            fresh_usage(now)
        }
    }

    /// Invariant: one record per session, and window lengths bounded by the
    /// quotas, so windowed counts fit `u32`.
    pub open spec fn wf(&self) -> bool {
        &&& forall|i: int, j: int|
            0 <= i < j < self.keys().len() ==> self.keys()[i] != self.keys()[j]
        &&& forall|i: int|
            0 <= i < self.usages().len() ==> (#[trigger] self.usages()[i]).txs.len()
                <= self.limits().transactions_per_hour
        &&& forall|i: int|
            0 <= i < self.usages().len() ==> (#[trigger] self.usages()[i]).eps.len()
                <= self.limits().episodes_per_day
    }

    /// A controller with the default quotas and no records.
    pub fn new() -> (r: Self)
        ensures
            r.wf(),
            r.limits() == spec_default_limits(),
            forall|id: Seq<char>| !r.has_session(id),
    {
        RateLimiter { limits: SessionLimits::default(), sessions: Vec::new() }
    }

    /// A controller with the given quotas and no records.
    pub fn with_limits(limits: SessionLimits) -> (r: Self)
        ensures
            r.wf(),
            r.limits() == limits,
            forall|id: Seq<char>| !r.has_session(id),
    {
        RateLimiter { limits, sessions: Vec::new() }
    }

    /// The index of the record for `session_id`, when one exists.
    fn find_session(&self, session_id: &str) -> (r: Option<usize>)
        ensures
            match r {
                Some(i) => 0 <= i < self.keys().len() && self.keys()[i as int] == session_id@,
                None => !self.has_session(session_id@),
            },
    {
        let mut i: usize = 0;
        while i < self.sessions.len()
            invariant
                i <= self.keys().len(),
                self.keys().len() == self.sessions@.len(),
                forall|k: int| 0 <= k < i ==> self.keys()[k] != session_id@,
            decreases self.sessions@.len() - i,
        {
            proof {
                assert(self.keys()[i as int] == self.sessions@[i as int].id@);
            }
            if str_eq(self.sessions[i].id.as_str(), session_id) {
                return Some(i);
            }
            i = i + 1;
        }
        None
    }

    /// With one record per session, the record at a matching index is the
    /// session's record.
    proof fn lemma_usage_at(&self, i: int)
        requires
            self.wf(),
            0 <= i < self.keys().len(),
        ensures
            self.has_session(self.keys()[i]),
            self.usage(self.keys()[i]) == self.usages()[i],
    {
        let id = self.keys()[i];
        assert(self.has_session(id));
        let j = choose|j: int| 0 <= j < self.keys().len() && self.keys()[j] == id;
        if i != j {
            assert(self.keys()[i] != self.keys()[j]);
        }
    }

    /// Replacing the usage at one record index rewrites that session's usage
    /// and nothing else.
    proof fn lemma_update_entry(pre: Self, post: Self, i: int, v: UsageView)
        requires
            forall|a: int, b: int| 0 <= a < b < pre.keys().len() ==> pre.keys()[a] != pre.keys()[b],
            0 <= i < pre.keys().len(),
            post.keys() == pre.keys(),
            post.usages() == pre.usages().update(i, v),
        ensures
            forall|id: Seq<char>| post.has_session(id) == pre.has_session(id),
            post.usage(pre.keys()[i]) == v,
            forall|id: Seq<char>|
                id != pre.keys()[i] && pre.has_session(id) ==> post.usage(id) == pre.usage(id),
    {
        assert forall|id: Seq<char>| post.has_session(id) == pre.has_session(id) by {
            if pre.has_session(id) {
                let k = choose|k: int| 0 <= k < pre.keys().len() && pre.keys()[k] == id;
                assert(post.keys()[k] == id);
            }
            if post.has_session(id) {
                let k = choose|k: int| 0 <= k < post.keys().len() && post.keys()[k] == id;
                assert(pre.keys()[k] == id);
            }
        }
        assert(post.has_session(pre.keys()[i]));
        let j = choose|j: int| 0 <= j < post.keys().len() && post.keys()[j] == pre.keys()[i];
        if j != i {
            assert(pre.keys()[j] != pre.keys()[i]);
        }
        assert(post.usage(pre.keys()[i]) == post.usages()[i]);
        assert forall|id: Seq<char>|
            id != pre.keys()[i] && pre.has_session(id) implies post.usage(id) == pre.usage(id) by {
            let a = choose|a: int| 0 <= a < pre.keys().len() && pre.keys()[a] == id;
            let b = choose|b: int| 0 <= b < post.keys().len() && post.keys()[b] == id;
            if a != b {
                assert(pre.keys()[a] != pre.keys()[b]);
            }
            assert(a != i);
            assert(post.usages()[a] == pre.usages()[a]);
        }
    }

    /// Appending a record for an unknown session adds that session and
    /// nothing else.
    proof fn lemma_push_entry(pre: Self, post: Self, id: Seq<char>, v: UsageView)
        requires
            forall|a: int, b: int| 0 <= a < b < pre.keys().len() ==> pre.keys()[a] != pre.keys()[b],
            !pre.has_session(id),
            post.keys() == pre.keys().push(id),
            post.usages() == pre.usages().push(v),
        ensures
            post.has_session(id),
            post.usage(id) == v,
            forall|other: Seq<char>|
                other != id ==> post.has_session(other) == pre.has_session(other),
            forall|other: Seq<char>|
                other != id && pre.has_session(other) ==> post.usage(other) == pre.usage(other),
            forall|a: int, b: int|
                0 <= a < b < post.keys().len() ==> post.keys()[a] != post.keys()[b],
    {
        let n = pre.keys().len();
        assert(post.keys()[n as int] == id);
        assert(post.has_session(id));
        let j = choose|j: int| 0 <= j < post.keys().len() && post.keys()[j] == id;
        if j < n {
            assert(pre.keys()[j] == id);
            assert(pre.has_session(id));
        }
        assert(post.usage(id) == post.usages()[n as int]);
        assert forall|other: Seq<char>|
            other != id implies post.has_session(other) == pre.has_session(other) by {
            if pre.has_session(other) {
                let k = choose|k: int| 0 <= k < pre.keys().len() && pre.keys()[k] == other;
                assert(post.keys()[k] == other);
            }
            if post.has_session(other) {
                let k = choose|k: int| 0 <= k < post.keys().len() && post.keys()[k] == other;
                assert(k != n);
                assert(pre.keys()[k] == other);
            }
        }
        assert forall|other: Seq<char>|
            other != id && pre.has_session(other) implies post.usage(other) == pre.usage(
            other,
        ) by {
            let a = choose|a: int| 0 <= a < pre.keys().len() && pre.keys()[a] == other;
            let b = choose|b: int| 0 <= b < post.keys().len() && post.keys()[b] == other;
            assert(b != n);
            assert(pre.keys()[b] == other);
            if a != b {
                assert(pre.keys()[a] != pre.keys()[b]);
            }
            assert(post.usages()[b] == pre.usages()[b]);
        }
        assert forall|a: int, b: int|
            0 <= a < b < post.keys().len() implies post.keys()[a] != post.keys()[b] by {
            if b == n {
                if post.keys()[a] == id {
                    assert(pre.keys()[a] == id);
                    assert(pre.has_session(id));
                }
            } else {
                assert(pre.keys()[a] != pre.keys()[b]);
            }
        }
    }

    /// Makes sure a record exists for `session_id`, first seen `now` when
    /// fresh, and returns its index.
    fn ensure_session(&mut self, session_id: &str, now: u64) -> (i: usize)
        requires
            old(self).wf(),
        ensures
            final(self).wf(),
            final(self).limits() == old(self).limits(),
            0 <= i < final(self).keys().len(),
            final(self).keys()[i as int] == session_id@,
            final(self).has_session(session_id@),
            final(self).usage(session_id@) == old(self).effective_usage(session_id@, now),
            forall|id: Seq<char>|
                id != session_id@ ==> final(self).has_session(id) == old(self).has_session(id),
            forall|id: Seq<char>|
                id != session_id@ && old(self).has_session(id) ==> final(self).usage(id) == old(
                    self,
                ).usage(id),
    {
        match self.find_session(session_id) {
            Some(i) => {
                proof {
                    self.lemma_usage_at(i as int);
                }
                i
            },
            None => {
                let ghost pre = *self;
                let entry = SessionEntry { id: session_id.to_owned(), usage: SessionUsage::new(now) };
                self.sessions.push(entry);
                proof {
                    assert(self.keys() =~= pre.keys().push(session_id@));
                    assert(self.usages() =~= pre.usages().push(fresh_usage(now)));
                    Self::lemma_push_entry(pre, *self, session_id@, fresh_usage(now));
                    assert(self.keys()[pre.keys().len() as int] == session_id@);
                }
                self.sessions.len() - 1
            },
        }
    }

    /// Admission check for one state-changing operation by `session_id` at
    /// time `now`: prunes the session's stale window entries, then either
    /// records the operation or denies it without consuming any quota.
    /// Denial reports `RateLimited`.
    pub fn check_and_update(&mut self, session_id: &str, now: u64) -> (r: Result<(), ApiError>)
        requires
            old(self).wf(),
        ensures
            final(self).wf(),
            final(self).limits() == old(self).limits(),
            ({
                let step = check_op_spec(
                    old(self).effective_usage(session_id@, now),
                    old(self).limits(),
                    now,
                );
                &&& (r is Ok <==> step.1)
                &&& final(self).has_session(session_id@)
                &&& final(self).usage(session_id@) == step.0
            }),
            r is Err ==> r == Err::<(), ApiError>(ApiError::RateLimited),
            forall|id: Seq<char>|
                id != session_id@ ==> final(self).has_session(id) == old(self).has_session(id),
            forall|id: Seq<char>|
                id != session_id@ && old(self).has_session(id) ==> final(self).usage(id) == old(
                    self,
                ).usage(id),
    {
        let ghost u0 = old(self).effective_usage(session_id@, now);
        let i = self.ensure_session(session_id, now);
        let ghost mid = *self;
        let pruned_txs = prune_window(&self.sessions[i].usage.transactions_this_hour, now, HOUR_SECONDS);
        let pruned_eps = prune_window(&self.sessions[i].usage.episodes_today, now, DAY_SECONDS);
        let total = self.sessions[i].usage.total_transactions;
        let first_seen = self.sessions[i].usage.first_seen;
        proof {
            assert(mid.records()[i as int] == (mid.keys()[i as int], mid.usages()[i as int]));
            assert(mid.usages()[i as int] == u0);
            lemma_filter_len_le(u0.txs, |t: u64| in_window(t, now, HOUR_SECONDS));
            lemma_filter_len_le(u0.eps, |t: u64| in_window(t, now, DAY_SECONDS));
        }
        let denied = pruned_txs.len() >= (self.limits.transactions_per_hour as usize) || total
            >= self.limits.max_total_transactions;
        let result: Result<(), ApiError>;
        let new_usage: SessionUsage;
        if denied {
            new_usage = SessionUsage {
                transactions_this_hour: pruned_txs,
                episodes_today: pruned_eps,
                total_transactions: total,
                first_seen,
            };
            result = Err(ApiError::RateLimited);
        } else {
            let mut txs = pruned_txs;
            txs.push(now);
            new_usage = SessionUsage {
                transactions_this_hour: txs,
                episodes_today: pruned_eps,
                total_transactions: total + 1,
                first_seen,
            };
            result = Ok(());
        }
        let ghost nv = new_usage@;
        proof {
            assert(nv =~~= check_op_spec(u0, mid.limits(), now).0);
        }
        self.sessions[i].usage = new_usage;
        proof {
            assert(self.keys() =~= mid.keys());
            assert(self.usages() =~= mid.usages().update(i as int, nv));
            Self::lemma_update_entry(mid, *self, i as int, nv);
        }
        result
    }

    /// Admission check for one episode creation by `session_id` at time
    /// `now`: prunes the session's stale daily entries, then either records
    /// the creation or denies it without consuming any quota. Denial reports
    /// `RateLimited`.
    pub fn check_episode_creation(&mut self, session_id: &str, now: u64) -> (r: Result<
        (),
        ApiError,
    >)
        requires
            old(self).wf(),
        ensures
            final(self).wf(),
            final(self).limits() == old(self).limits(),
            ({
                let step = check_episode_spec(
                    old(self).effective_usage(session_id@, now),
                    old(self).limits(),
                    now,
                );
                &&& (r is Ok <==> step.1)
                &&& final(self).has_session(session_id@)
                &&& final(self).usage(session_id@) == step.0
            }),
            r is Err ==> r == Err::<(), ApiError>(ApiError::RateLimited),
            forall|id: Seq<char>|
                id != session_id@ ==> final(self).has_session(id) == old(self).has_session(id),
            forall|id: Seq<char>|
                id != session_id@ && old(self).has_session(id) ==> final(self).usage(id) == old(
                    self,
                ).usage(id),
    {
        let ghost u0 = old(self).effective_usage(session_id@, now);
        let i = self.ensure_session(session_id, now);
        let ghost mid = *self;
        let pruned_eps = prune_window(&self.sessions[i].usage.episodes_today, now, DAY_SECONDS);
        let total = self.sessions[i].usage.total_transactions;
        let first_seen = self.sessions[i].usage.first_seen;
        proof {
            assert(mid.records()[i as int] == (mid.keys()[i as int], mid.usages()[i as int]));
            assert(mid.usages()[i as int] == u0);
            lemma_filter_len_le(u0.eps, |t: u64| in_window(t, now, DAY_SECONDS));
        }
        let denied = pruned_eps.len() >= (self.limits.episodes_per_day as usize);
        let result: Result<(), ApiError>;
        let new_eps: Vec<u64>;
        if denied {
            new_eps = pruned_eps;
            result = Err(ApiError::RateLimited);
        } else {
            let mut eps = pruned_eps;
            eps.push(now);
            new_eps = eps;
            result = Ok(());
        }
        let old_txs = take_vec(&mut self.sessions[i].usage.transactions_this_hour);
        let new_usage = SessionUsage {
            transactions_this_hour: old_txs,
            episodes_today: new_eps,
            total_transactions: total,
            first_seen,
        };
        let ghost nv = new_usage@;
        proof {
            assert(nv =~~= check_episode_spec(u0, mid.limits(), now).0);
        }
        self.sessions[i].usage = new_usage;
        proof {
            assert(self.keys() =~= mid.keys());
            assert(self.usages() =~= mid.usages().update(i as int, nv));
            Self::lemma_update_entry(mid, *self, i as int, nv);
        }
        result
    }

    /// The session's windowed counts and lifetime total at time `now`:
    /// recent operations, recent episode creations, lifetime operations.
    /// `None` when the session has no record.
    pub fn get_usage(&self, session_id: &str, now: u64) -> (r: Option<(u32, u32, u32)>)
        requires
            self.wf(),
        ensures
            r is Some <==> self.has_session(session_id@),
            r is Some ==> ({
                let u = self.usage(session_id@);
                r == Some::<(u32, u32, u32)>(
                    (
                        recent(u.txs, now, HOUR_SECONDS).len() as u32,
                        recent(u.eps, now, DAY_SECONDS).len() as u32,
                        u.total,
                    ),
                )
            }),
    {
        match self.find_session(session_id) {
            None => None,
            Some(i) => {
                proof {
                    self.lemma_usage_at(i as int);
                    assert(self.records()[i as int] == (
                        self.keys()[i as int],
                        self.usages()[i as int],
                    ));
                    lemma_filter_len_le(
                        self.usages()[i as int].txs,
                        |t: u64| in_window(t, now, HOUR_SECONDS),
                    );
                    lemma_filter_len_le(
                        self.usages()[i as int].eps,
                        |t: u64| in_window(t, now, DAY_SECONDS),
                    );
                }
                let recent_txs = prune_window(
                    &self.sessions[i].usage.transactions_this_hour,
                    now,
                    HOUR_SECONDS,
                );
                let recent_eps = prune_window(&self.sessions[i].usage.episodes_today, now, DAY_SECONDS);
                let total = self.sessions[i].usage.total_transactions;
                Some((recent_txs.len() as u32, recent_eps.len() as u32, total))
            },
        }
    }
    /// Drops every session record whose `first_seen` lies outside the
    /// retention window ending at `now`; the kept records are untouched.
    pub fn cleanup_old_sessions(&mut self, now: u64)
        requires
            old(self).wf(),
        ensures
            final(self).wf(),
            final(self).limits() == old(self).limits(),
            final(self).records() == old(self).records().filter(retention_pred(now)),
    {
        let ghost orig = self.records();
        let ghost lims = self.limits();
        let ghost mut j: int = 0;
        let mut i: usize = 0;
        while i < self.sessions.len()
            invariant
                self.limits() == lims,
                0 <= i as int <= j <= orig.len(),
                self.records() =~= orig.take(j).filter(retention_pred(now)) + orig.subrange(j, orig.len() as int),
                i as int == orig.take(j).filter(retention_pred(now)).len(),
            decreases orig.len() - j,
        {
            proof {
                assert(self.records().len() == self.sessions@.len());
                assert(self.records().len() == orig.take(j).filter(retention_pred(now)).len() + (orig.len() - j));
                assert(j < orig.len());
                assert(self.records()[i as int] == orig.subrange(j, orig.len() as int)[0]);
                assert(self.records()[i as int] == orig[j]);
                assert(self.records()[i as int] == (
                    self.sessions@[i as int].id@,
                    self.sessions@[i as int].usage@,
                ));
                assert(orig.take(j + 1) =~= orig.take(j).push(orig[j]));
                lemma_filter_push(orig.take(j), orig[j], retention_pred(now));
            }
            let fs = self.sessions[i].usage.first_seen;
            proof {
                assert(fs == orig[j].1.first_seen);
                assert(retention_pred(now)(orig[j]) == in_window(
                    fs,
                    now,
                    SESSION_RETENTION_SECONDS,
                ));
            }
            if now <= fs || now - fs < SESSION_RETENTION_SECONDS {
                proof {
                    assert(retention_pred(now)(orig[j]));
                }
                i = i + 1;
                proof {
                    j = j + 1;
                    assert(self.records() =~= orig.take(j).filter(retention_pred(now)) + orig.subrange(
                        j,
                        orig.len() as int,
                    ));
                }
            } else {
                proof {
                    assert(!retention_pred(now)(orig[j]));
                }
                let ghost before = self.records();
                self.sessions.remove(i);
                proof {
                    j = j + 1;
                    assert(self.records() =~= before.remove(i as int));
                    assert(self.records() =~= orig.take(j).filter(retention_pred(now)) + orig.subrange(
                        j,
                        orig.len() as int,
                    ));
                }
            }
        }
        proof {
            assert(j == orig.len());
            assert(orig.take(orig.len() as int) =~= orig);
            assert(self.records() =~= orig.filter(retention_pred(now)));
            let key = |r: (Seq<char>, UsageView)| r.0;
            assert forall|a: int, b: int|
                0 <= a < b < orig.len() implies key(#[trigger] orig[a]) != key(
                #[trigger] orig[b],
            ) by {
                assert(old(self).keys()[a] == orig[a].0);
                assert(old(self).keys()[b] == orig[b].0);
                assert(old(self).keys()[a] != old(self).keys()[b]);
            }
            crate::seqs::lemma_filter_unique_by(orig, retention_pred(now), key);
            assert forall|a: int, b: int|
                0 <= a < b < self.keys().len() implies self.keys()[a] != self.keys()[b] by {
                assert(self.records()[a] == orig.filter(retention_pred(now))[a]);
                assert(self.records()[b] == orig.filter(retention_pred(now))[b]);
            }
            assert forall|a: int|
                0 <= a < self.usages().len() implies (#[trigger] self.usages()[a]).txs.len()
                <= self.limits().transactions_per_hour && self.usages()[a].eps.len()
                <= self.limits().episodes_per_day by {
                let f = orig.filter(retention_pred(now));
                assert(f.contains(f[a]));
                crate::seqs::lemma_filter_subset_contains(orig, retention_pred(now), f[a]);
                let k = choose|k: int| 0 <= k < orig.len() && orig[k] == f[a];
                assert(old(self).usages()[k] == orig[k].1);
                assert(self.usages()[a] == f[a].1);
            }
        }
    }
}

/// The usage after `k` successive operation checks at time `now`, each
/// applied whether it succeeded or not.
pub open spec fn consume_ops(u: UsageView, limits: SessionLimits, now: u64, k: nat) -> UsageView
    decreases k,
{
    if k == 0 {
        u
    } else {
        check_op_spec(consume_ops(u, limits, now, (k - 1) as nat), limits, now).0
    }
}

/// Rate-limiter window correctness. Starting from a fresh session, each of
/// the first `N` operation checks made within the same hour succeeds, where
/// `N` is the hourly quota; after those, the check state holds exactly `N`
/// timestamps; the `N+1`-th check at the same time is denied; and a check
/// made a full hour later succeeds again. The lifetime cap must be out of
/// reach, or it, not the window, denies.
pub proof fn lemma_rate_limiter_window(limits: SessionLimits, start: u64, k: nat)
    requires
        1 <= limits.transactions_per_hour < limits.max_total_transactions,
        k <= limits.transactions_per_hour,
        start + HOUR_SECONDS <= u64::MAX,
    ensures
        consume_ops(fresh_usage(start), limits, start, k).txs =~= Seq::new(k, |i: int| start),
        consume_ops(fresh_usage(start), limits, start, k).total == k,
        k < limits.transactions_per_hour ==> check_op_spec(
            consume_ops(fresh_usage(start), limits, start, k),
            limits,
            start,
        ).1,
        k == limits.transactions_per_hour ==> !check_op_spec(
            consume_ops(fresh_usage(start), limits, start, k),
            limits,
            start,
        ).1,
        k == limits.transactions_per_hour ==> check_op_spec(
            consume_ops(fresh_usage(start), limits, start, k),
            limits,
            (start + HOUR_SECONDS) as u64,
        ).1,
    decreases k,
{
    let u = consume_ops(fresh_usage(start), limits, start, k);
    if k == 0 {
        assert(u.txs =~= Seq::<u64>::empty());
        lemma_filter_all_true(u.txs, |t: u64| in_window(t, start, HOUR_SECONDS));
    } else {
        lemma_rate_limiter_window(limits, start, (k - 1) as nat);
        let prev = consume_ops(fresh_usage(start), limits, start, (k - 1) as nat);
        assert(forall|i: int| 0 <= i < prev.txs.len() ==> prev.txs[i] == start);
        assert(forall|i: int|
            0 <= i < prev.txs.len() ==> in_window(#[trigger] prev.txs[i], start, HOUR_SECONDS));
        lemma_filter_all_true(prev.txs, |t: u64| in_window(t, start, HOUR_SECONDS));
        assert(recent(prev.txs, start, HOUR_SECONDS) == prev.txs);
        assert(prev.txs.len() == k - 1 < limits.transactions_per_hour);
        assert(prev.total == k - 1 < limits.max_total_transactions);
        assert(check_op_spec(prev, limits, start).1);
        assert(u.txs =~= prev.txs.push(start));
        assert(u.txs =~= Seq::new(k, |i: int| start));
    }
    // from the state after k calls, decide the k+1-st call
    assert(forall|i: int| 0 <= i < u.txs.len() ==> u.txs[i] == start);
    assert(forall|i: int|
        0 <= i < u.txs.len() ==> in_window(#[trigger] u.txs[i], start, HOUR_SECONDS));
    lemma_filter_all_true(u.txs, |t: u64| in_window(t, start, HOUR_SECONDS));
    assert(recent(u.txs, start, HOUR_SECONDS) == u.txs);
    if k == limits.transactions_per_hour {
        assert(!check_op_spec(u, limits, start).1);
        let later = (start + HOUR_SECONDS) as u64;
        assert(forall|i: int|
            0 <= i < u.txs.len() ==> !in_window(#[trigger] u.txs[i], later, HOUR_SECONDS));
        lemma_filter_all_false(u.txs, |t: u64| in_window(t, later, HOUR_SECONDS));
        assert(recent(u.txs, later, HOUR_SECONDS) == Seq::<u64>::empty());
        assert(check_op_spec(u, limits, later).1);
    }
}

/// The entries of `v` still inside the window ending at `now`, in order.
fn prune_window(v: &Vec<u64>, now: u64, window: u64) -> (r: Vec<u64>)
    ensures
        r@ == recent(v@, now, window),
{
    let mut out: Vec<u64> = Vec::new();
    let mut i: usize = 0;
    while i < v.len()
        invariant
            i <= v@.len(),
            out@ =~= recent(v@.take(i as int), now, window),
        decreases v@.len() - i,
    {
        proof {
            assert(v@.take(i + 1) =~= v@.take(i as int).push(v@[i as int]));
            lemma_filter_push(v@.take(i as int), v@[i as int], |t: u64| in_window(t, now, window));
        }
        let t = v[i];
        if now <= t || now - t < window {
            out.push(t);
        }
        i = i + 1;
    }
    proof {
        assert(v@.take(v@.len() as int) =~= v@);
    }
    out
}

/// Moves a vector out of place, leaving an empty one behind.
fn take_vec(v: &mut Vec<u64>) -> (r: Vec<u64>)
    ensures
        r@ == old(v)@,
        final(v)@ == Seq::<u64>::empty(),
{
    let mut swap: Vec<u64> = Vec::new();
    core::mem::swap(v, &mut swap);
    swap
}

} // verus!
