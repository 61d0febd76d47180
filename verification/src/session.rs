use vstd::prelude::*;

use crate::errors::ApiError;
use crate::strings::str_eq;

verus! {

/// How long a web session lives: one day.
pub const SESSION_TTL_SECONDS: u64 = 86400;

/// The claims a session token would carry.
#[derive(Debug)]
pub struct Claims {
    pub sub: String,
    pub exp: i64,
    pub iat: i64,
}

/// A bearer token for a session; the proof-of-concept token carries nothing.
#[derive(Debug)]
pub struct SessionToken {}

impl SessionToken {
    /// A token for the given session; the bearer token itself carries
    /// nothing yet, so creation never fails.
    pub fn create(session_id: &str, expires_at: u64) -> (r: Result<SessionToken, ApiError>)
        ensures
            r is Ok,
    {
        let _ = session_id;
        let _ = expires_at;
        Ok(SessionToken {  })
    }
}

/// One web session: who it is, which episodes it opened, and when it lapses.
#[derive(Debug)]
pub struct Session {
    pub id: String,
    pub user_id: Option<String>,
    pub episode_ids: Vec<String>,
    pub created_at: u64,
    pub expires_at: u64,
}

/// Mathematical image of a `Session`.
#[verifier::ext_equal]
pub struct SessionView {
    pub id: Seq<char>,
    pub user_id: Option<Seq<char>>,
    pub episode_ids: Seq<Seq<char>>,
    pub created_at: u64,
    pub expires_at: u64,
}

impl View for Session {
    type V = SessionView;

    open spec fn view(&self) -> SessionView {
        SessionView {
            id: self.id@,
            user_id: match &self.user_id {
                Some(u) => Some(u@),
                None => None,
            },
            episode_ids: Seq::new(self.episode_ids@.len(), |i: int| self.episode_ids@[i]@),
            created_at: self.created_at,
            expires_at: self.expires_at,
        }
    }
}

/// The session a creation at time `now` registers under `id`.
pub open spec fn fresh_session(id: Seq<char>, now: u64) -> SessionView {
    SessionView {
        id,
        user_id: None,
        episode_ids: Seq::empty(),
        created_at: now,
        expires_at: (now + SESSION_TTL_SECONDS) as u64,
    }
}

/// Relies on `uuid::Uuid::new_v4` and the `Display` of `Uuid`: a fresh
/// random version-4 UUID renders in the hyphenated form, which is 36
/// characters long. Nothing more is assumed of a random identifier.
#[verifier::external_body]
fn new_session_id() -> (r: String)
    ensures
        r@.len() == 36,
{
    uuid::Uuid::new_v4().to_string()
}

/// Manages the active web sessions.
pub struct Manager {
    sessions: Vec<Session>,
}

impl Manager {
    /// Every session, keyed by its id, in insertion order.
    pub closed spec fn records(&self) -> Seq<SessionView> {
        Seq::new(self.sessions@.len(), |i: int| self.sessions@[i]@)
    }

    /// Whether a session with this id is registered.
    pub open spec fn has_session(&self, id: Seq<char>) -> bool {
        exists|i: int| 0 <= i < self.records().len() && (#[trigger] self.records()[i]).id == id
    }

    /// The session registered under `id` (meaningful only when present).
    pub open spec fn session_of(&self, id: Seq<char>) -> SessionView {
        let i = choose|i: int|
            0 <= i < self.records().len() && (#[trigger] self.records()[i]).id == id;
        self.records()[i]
    }

    /// Invariant: one record per session id.
    pub open spec fn wf(&self) -> bool {
        forall|i: int, j: int|
            0 <= i < j < self.records().len() ==> (#[trigger] self.records()[i]).id != (
            #[trigger] self.records()[j]).id
    }

    pub fn new() -> (r: Self)
        ensures
            r.wf(),
            forall|id: Seq<char>| !r.has_session(id),
    {
        Manager { sessions: Vec::new() }
    }

    /// The index of the session `id`, when one exists.
    fn find_session(&self, id: &str) -> (r: Option<usize>)
        ensures
            match r {
                Some(i) => 0 <= i < self.records().len() && self.records()[i as int].id == id@,
                None => !self.has_session(id@),
            },
    {
        let mut i: usize = 0;
        while i < self.sessions.len()
            invariant
                i <= self.records().len(),
                self.records().len() == self.sessions@.len(),
                forall|k: int| 0 <= k < i ==> (#[trigger] self.records()[k]).id != id@,
            decreases self.sessions@.len() - i,
        {
            proof {
                assert(self.records()[i as int] == self.sessions@[i as int]@);
            }
            if str_eq(self.sessions[i].id.as_str(), id) {
                return Some(i);
            }
            i = i + 1;
        }
        None
    }

    /// Opens a fresh session under a random identifier, expiring one day
    /// later, and hands back its token. The identifier is random, so the
    /// contract promises only its shape; a collision with a live session
    /// replaces that session.
    pub fn create_session(&mut self, now: u64) -> (r: Result<SessionToken, ApiError>)
        requires
            old(self).wf(),
            now + SESSION_TTL_SECONDS <= u64::MAX,
        ensures
            final(self).wf(),
            r is Ok,
            exists|id: Seq<char>|
                {
                    &&& id.len() == 36
                    &&& final(self).has_session(id)
                    &&& final(self).session_of(id) == fresh_session(id, now)
                    &&& forall|o: Seq<char>|
                        o != id ==> final(self).has_session(o) == old(self).has_session(o)
                    &&& forall|o: Seq<char>|
                        o != id && old(self).has_session(o) ==> final(self).session_of(o) == old(
                            self,
                        ).session_of(o)
                },
    {
        let session_id = new_session_id();
        let ghost idv = session_id@;
        let id_copy = session_id.clone();
        let session = Session {
            id: session_id,
            user_id: None,
            episode_ids: Vec::new(),
            created_at: now,
            expires_at: now + SESSION_TTL_SECONDS,
        };
        proof {
            assert(session@ =~~= fresh_session(idv, now));
        }
        self.upsert(session);
        SessionToken::create(id_copy.as_str(), now + SESSION_TTL_SECONDS)
    }

    /// Installs a session under its id, replacing any session already there.
    fn upsert(&mut self, session: Session)
        requires
            old(self).wf(),
        ensures
            final(self).wf(),
            final(self).has_session(session@.id),
            final(self).session_of(session@.id) == session@,
            forall|o: Seq<char>|
                o != session@.id ==> final(self).has_session(o) == old(self).has_session(o),
            forall|o: Seq<char>|
                o != session@.id && old(self).has_session(o) ==> final(self).session_of(o) == old(
                    self,
                ).session_of(o),
    {
        let ghost pre = *self;
        let ghost sv = session@;
        match self.find_session(session.id.as_str()) {
            Some(i) => {
                let mut rest = session;
                core::mem::swap(&mut self.sessions[i].episode_ids, &mut rest.episode_ids);
                core::mem::swap(&mut self.sessions[i].user_id, &mut rest.user_id);
                core::mem::swap(&mut self.sessions[i].id, &mut rest.id);
                self.sessions[i].created_at = rest.created_at;
                self.sessions[i].expires_at = rest.expires_at;
                proof {
                    assert(self.records() =~~= pre.records().update(i as int, sv));
                    lemma_session_update(pre, *self, i as int, sv);
                }
            },
            None => {
                self.sessions.push(session);
                proof {
                    assert(self.records() =~~= pre.records().push(sv));
                    lemma_session_push(pre, *self, sv);
                }
            },
        }
    }

    /// A copy of the session registered under `id`, when one exists.
    pub fn get_session(&self, session_id: &str) -> (r: Option<Session>)
        requires
            self.wf(),
        ensures
            r is Some <==> self.has_session(session_id@),
            r is Some ==> r->0@ == self.session_of(session_id@),
    {
        match self.find_session(session_id) {
            None => None,
            Some(i) => {
                proof {
                    self.lemma_session_at(i as int);
                }
                let s = &self.sessions[i];
                let mut episode_ids: Vec<String> = Vec::new();
                let mut k: usize = 0;
                while k < s.episode_ids.len()
                    invariant
                        k <= s.episode_ids@.len(),
                        episode_ids@.len() == k,
                        forall|m: int|
                            0 <= m < k ==> (#[trigger] episode_ids@[m])@ == s.episode_ids@[m]@,
                    decreases s.episode_ids@.len() - k,
                {
                    episode_ids.push(s.episode_ids[k].clone());
                    k = k + 1;
                }
                let copy = Session {
                    id: s.id.clone(),
                    user_id: match &s.user_id {
                        Some(u) => Some(u.clone()),
                        None => None,
                    },
                    episode_ids,
                    created_at: s.created_at,
                    expires_at: s.expires_at,
                };
                proof {
                    assert(copy@ =~~= self.records()[i as int]);
                }
                Some(copy)
            },
        }
    }

    /// Appends an episode to the session's list; an unknown session is
    /// refused.
    pub fn add_episode_to_session(&mut self, session_id: &str, episode_id: String) -> (r: Result<
        (),
        ApiError,
    >)
        requires
            old(self).wf(),
        ensures
            final(self).wf(),
            r is Ok <==> old(self).has_session(session_id@),
            r is Err ==> r == Err::<(), ApiError>(ApiError::NotFound) && final(self).records()
                == old(self).records(),
            r is Ok ==> ({
                let pre = old(self).session_of(session_id@);
                &&& final(self).has_session(session_id@)
                &&& final(self).session_of(session_id@) == (SessionView {
                    episode_ids: pre.episode_ids.push(episode_id@),
                    ..pre
                })
                &&& forall|o: Seq<char>|
                    o != session_id@ ==> final(self).has_session(o) == old(self).has_session(o)
                &&& forall|o: Seq<char>|
                    o != session_id@ && old(self).has_session(o) ==> final(self).session_of(o)
                        == old(self).session_of(o)
            }),
    {
        let ghost pre = *self;
        match self.find_session(session_id) {
            None => Err(ApiError::NotFound),
            Some(i) => {
                proof {
                    pre.lemma_session_at(i as int);
                }
                let ghost target = SessionView {
                    episode_ids: pre.records()[i as int].episode_ids.push(episode_id@),
                    ..pre.records()[i as int]
                };
                self.sessions[i].episode_ids.push(episode_id);
                proof {
                    assert(self.records()[i as int] =~~= target);
                    assert(self.records() =~~= pre.records().update(i as int, target));
                    lemma_session_update(pre, *self, i as int, target);
                }
                Ok(())
            },
        }
    }

    /// Drops every session past its expiry at time `now`; the kept sessions
    /// are untouched.
    #[verifier::loop_isolation(false)]
    pub fn cleanup_expired(&mut self, now: u64)
        requires
            old(self).wf(),
        ensures
            final(self).wf(),
            final(self).records() == old(self).records().filter(session_live_pred(now)),
    {
        let ghost orig = self.records();
        let ghost n = orig.len();
        let ghost mut j: int = 0;
        let mut i: usize = 0;
        while i < self.sessions.len()
            invariant
                0 <= i as int <= j <= n,
                self.records() =~= orig.take(j).filter(session_live_pred(now)) + orig.subrange(
                    j,
                    n as int,
                ),
                i as int == orig.take(j).filter(session_live_pred(now)).len(),
            decreases n - j,
        {
            proof {
                assert(self.records().len() == self.sessions@.len());
                assert(self.records().len() == orig.take(j).filter(session_live_pred(now)).len() + (
                n - j));
                assert(j < n);
                assert(self.records()[i as int] == orig.subrange(j, n as int)[0]);
                assert(self.records()[i as int] == orig[j]);
                assert(self.records()[i as int] == self.sessions@[i as int]@);
                assert(orig.take(j + 1) =~= orig.take(j).push(orig[j]));
                crate::seqs::lemma_filter_push(orig.take(j), orig[j], session_live_pred(now));
            }
            if self.sessions[i].expires_at > now {
                proof {
                    assert(session_live_pred(now)(orig[j]));
                }
                i = i + 1;
                proof {
                    j = j + 1;
                    assert(self.records() =~= orig.take(j).filter(session_live_pred(now))
                        + orig.subrange(j, n as int));
                }
            } else {
                proof {
                    assert(!session_live_pred(now)(orig[j]));
                }
                let ghost before = self.records();
                self.sessions.remove(i);
                proof {
                    j = j + 1;
                    assert(self.records() =~= before.remove(i as int));
                    assert(self.records() =~= orig.take(j).filter(session_live_pred(now))
                        + orig.subrange(j, n as int));
                }
            }
        }
        proof {
            assert(j == n);
            assert(orig.take(n as int) =~= orig);
            assert(self.records() =~= orig.filter(session_live_pred(now)));
            crate::seqs::lemma_filter_unique_by(
                orig,
                session_live_pred(now),
                |r: SessionView| r.id,
            );
            let key = |r: SessionView| r.id;
            assert forall|a: int, b: int|
                0 <= a < b < self.records().len() implies (#[trigger] self.records()[a]).id != (
            #[trigger] self.records()[b]).id by {
                assert(self.records()[a] == orig.filter(session_live_pred(now))[a]);
                assert(self.records()[b] == orig.filter(session_live_pred(now))[b]);
                assert(key(orig.filter(session_live_pred(now))[a]) != key(
                    orig.filter(session_live_pred(now))[b],
                ));
            }
        }
    }

    /// With unique ids, the record at a matching index is the id's record.
    proof fn lemma_session_at(&self, i: int)
        requires
            self.wf(),
            0 <= i < self.records().len(),
        ensures
            self.has_session(self.records()[i].id),
            self.session_of(self.records()[i].id) == self.records()[i],
    {
        let id = self.records()[i].id;
        assert(self.has_session(id));
        let j = choose|j: int|
            0 <= j < self.records().len() && (#[trigger] self.records()[j]).id == id;
        if i != j {
            assert(self.records()[i].id != self.records()[j].id);
        }
    }
}

/// The liveness test a cleanup pass at time `now` applies to a session.
pub open spec fn session_live_pred(now: u64) -> spec_fn(SessionView) -> bool {
    |r: SessionView| r.expires_at > now
}

/// Replacing the record at one index (same id) rewrites that session and
/// nothing else.
proof fn lemma_session_update(pre: Manager, post: Manager, i: int, v: SessionView)
    requires
        pre.wf(),
        0 <= i < pre.records().len(),
        v.id == pre.records()[i].id,
        post.records() == pre.records().update(i, v),
    ensures
        post.wf(),
        forall|id: Seq<char>| post.has_session(id) == pre.has_session(id),
        post.session_of(pre.records()[i].id) == v,
        forall|id: Seq<char>|
            id != pre.records()[i].id && pre.has_session(id) ==> post.session_of(id)
                == pre.session_of(id),
{
    assert forall|id: Seq<char>| post.has_session(id) == pre.has_session(id) by {
        if pre.has_session(id) {
            let k = choose|k: int|
                0 <= k < pre.records().len() && (#[trigger] pre.records()[k]).id == id;
            assert(post.records()[k].id == id);
        }
        if post.has_session(id) {
            let k = choose|k: int|
                0 <= k < post.records().len() && (#[trigger] post.records()[k]).id == id;
            assert(pre.records()[k].id == id);
        }
    }
    assert forall|a: int, b: int|
        0 <= a < b < post.records().len() implies (#[trigger] post.records()[a]).id != (
    #[trigger] post.records()[b]).id by {
        assert(post.records()[a].id == pre.records()[a].id);
        assert(post.records()[b].id == pre.records()[b].id);
    }
    assert(post.has_session(pre.records()[i].id));
    let j = choose|j: int|
        0 <= j < post.records().len() && (#[trigger] post.records()[j]).id == pre.records()[i].id;
    if j != i {
        assert(pre.records()[j].id != pre.records()[i].id);
    }
    assert forall|id: Seq<char>|
        id != pre.records()[i].id && pre.has_session(id) implies post.session_of(id)
        == pre.session_of(id) by {
        let a = choose|a: int|
            0 <= a < pre.records().len() && (#[trigger] pre.records()[a]).id == id;
        let b = choose|b: int|
            0 <= b < post.records().len() && (#[trigger] post.records()[b]).id == id;
        if a != b {
            assert(pre.records()[a].id != pre.records()[b].id);
        }
        assert(a != i);
        assert(post.records()[a] == pre.records()[a]);
    }
}

/// Appending a record with an unknown id adds that session and nothing else.
proof fn lemma_session_push(pre: Manager, post: Manager, v: SessionView)
    requires
        pre.wf(),
        !pre.has_session(v.id),
        post.records() == pre.records().push(v),
    ensures
        post.wf(),
        post.has_session(v.id),
        post.session_of(v.id) == v,
        forall|o: Seq<char>| o != v.id ==> post.has_session(o) == pre.has_session(o),
        forall|o: Seq<char>|
            o != v.id && pre.has_session(o) ==> post.session_of(o) == pre.session_of(o),
{
    let n = pre.records().len();
    assert(post.records()[n as int] == v);
    assert(post.has_session(v.id));
    let j = choose|j: int|
        0 <= j < post.records().len() && (#[trigger] post.records()[j]).id == v.id;
    if j < n {
        assert(pre.records()[j].id == v.id);
        assert(pre.has_session(v.id));
    }
    assert forall|o: Seq<char>| o != v.id implies post.has_session(o) == pre.has_session(o) by {
        if pre.has_session(o) {
            let k = choose|k: int|
                0 <= k < pre.records().len() && (#[trigger] pre.records()[k]).id == o;
            assert(post.records()[k].id == o);
        }
        if post.has_session(o) {
            let k = choose|k: int|
                0 <= k < post.records().len() && (#[trigger] post.records()[k]).id == o;
            assert(k != n);
            assert(pre.records()[k].id == o);
        }
    }
    assert forall|o: Seq<char>|
        o != v.id && pre.has_session(o) implies post.session_of(o) == pre.session_of(o) by {
        let a = choose|a: int|
            0 <= a < pre.records().len() && (#[trigger] pre.records()[a]).id == o;
        let b = choose|b: int|
            0 <= b < post.records().len() && (#[trigger] post.records()[b]).id == o;
        assert(b != n);
        if a != b {
            assert(pre.records()[a].id != pre.records()[b].id);
        }
    }
    assert forall|a: int, b: int|
        0 <= a < b < post.records().len() implies (#[trigger] post.records()[a]).id != (
    #[trigger] post.records()[b]).id by {
        if b == n {
            if post.records()[a].id == v.id {
                assert(pre.records()[a].id == v.id);
                assert(pre.has_session(v.id));
            }
        } else {
            assert(pre.records()[a].id != pre.records()[b].id);
        }
    }
}

} // verus!
