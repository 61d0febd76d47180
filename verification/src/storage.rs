use vstd::prelude::*;

use crate::bytes::copy_bytes;
use crate::errors::ApiError;
use crate::strings::str_eq;

verus! {

/// The persistence capability for episode state.
///
/// The ephemeral in-memory backend is the default; a durable backend is a
/// drop-in replacement satisfying the same four operations: a save
/// acknowledged as successful is never silently lost.
pub trait EpisodeStorage: Sized {
    /// Whether a state is stored under `id`.
    spec fn has_state(&self, id: Seq<char>) -> bool;

    /// The state stored under `id` (meaningful only when `has_state(id)`).
    spec fn state_of(&self, id: Seq<char>) -> Seq<u8>;

    /// The backend's own well-formedness.
    spec fn inv(&self) -> bool;

    /// Stores `state` under `id`, replacing any previous state.
    fn save_state(&mut self, id: &str, state: &[u8]) -> (r: Result<(), ApiError>)
        requires
            old(self).inv(),
        ensures
            final(self).inv(),
            r is Ok ==> final(self).has_state(id@) && final(self).state_of(id@) == state@,
            r is Err ==> r == Err::<(), ApiError>(ApiError::StorageFailure),
            forall|other: Seq<char>|
                other != id@ ==> final(self).has_state(other) == old(self).has_state(other),
            forall|other: Seq<char>|
                other != id@ && old(self).has_state(other) ==> final(self).state_of(other) == old(
                    self,
                ).state_of(other),
    ;

    /// The state stored under `id`, or `None` when there is none.
    fn load_state(&self, id: &str) -> (r: Result<Option<Vec<u8>>, ApiError>)
        requires
            self.inv(),
        ensures
            r is Ok ==> ({
                &&& (r->Ok_0 is Some <==> self.has_state(id@))
                &&& r->Ok_0 is Some ==> r->Ok_0->0@ == self.state_of(id@)
            }),
            r is Err ==> r == Err::<Option<Vec<u8>>, ApiError>(ApiError::StorageFailure),
    ;

    /// Drops any state stored under `id`; deleting an absent id is no error.
    fn delete_state(&mut self, id: &str) -> (r: Result<(), ApiError>)
        requires
            old(self).inv(),
        ensures
            final(self).inv(),
            r is Ok ==> !final(self).has_state(id@),
            r is Err ==> r == Err::<(), ApiError>(ApiError::StorageFailure),
            forall|other: Seq<char>|
                other != id@ ==> final(self).has_state(other) == old(self).has_state(other),
            forall|other: Seq<char>|
                other != id@ && old(self).has_state(other) ==> final(self).state_of(other) == old(
                    self,
                ).state_of(other),
    ;

    /// Every id a state is stored under, each exactly once.
    fn list_episodes(&self) -> (r: Result<Vec<String>, ApiError>)
        requires
            self.inv(),
        ensures
            r is Ok ==> ({
                &&& forall|i: int|
                    0 <= i < r->Ok_0@.len() ==> self.has_state(#[trigger] r->Ok_0@[i]@)
                &&& forall|id: Seq<char>|
                    self.has_state(id) ==> exists|i: int|
                        #![auto]
                        0 <= i < r->Ok_0@.len() && r->Ok_0@[i]@ == id
                &&& forall|i: int, j: int|
                    0 <= i < j < r->Ok_0@.len() ==> (#[trigger] r->Ok_0@[i])@ != (
                    #[trigger] r->Ok_0@[j])@
            }),
            r is Err ==> r == Err::<Vec<String>, ApiError>(ApiError::StorageFailure),
    ;
}

struct StateEntry {
    id: String,
    state: Vec<u8>,
}

/// The ephemeral, in-memory persistence backend.
pub struct EphemeralStorage {
    entries: Vec<StateEntry>,
}

impl EphemeralStorage {
    /// Every stored record, as an id/state pair in insertion order.
    pub closed spec fn records(&self) -> Seq<(Seq<char>, Seq<u8>)> {
        Seq::new(self.entries@.len(), |i: int| (self.entries@[i].id@, self.entries@[i].state@))
    }

    pub fn new() -> (r: Self)
        ensures
            r.inv(),
            forall|id: Seq<char>| !r.has_state(id),
    {
        EphemeralStorage { entries: Vec::new() }
    }

    /// The index of the record stored under `id`, when one exists.
    fn find(&self, id: &str) -> (r: Option<usize>)
        ensures
            match r {
                Some(i) => 0 <= i < self.records().len() && self.records()[i as int].0 == id@,
                None => !self.has_state(id@),
            },
    {
        let mut i: usize = 0;
        while i < self.entries.len()
            invariant
                i <= self.records().len(),
                self.records().len() == self.entries@.len(),
                forall|k: int| 0 <= k < i ==> (#[trigger] self.records()[k]).0 != id@,
            decreases self.entries@.len() - i,
        {
            proof {
                assert(self.records()[i as int].0 == self.entries@[i as int].id@);
            }
            if str_eq(self.entries[i].id.as_str(), id) {
                return Some(i);
            }
            i = i + 1;
        }
        None
    }

    /// With one record per id, the record at a matching index is the id's
    /// record.
    proof fn lemma_state_at(&self, i: int)
        requires
            self.inv(),
            0 <= i < self.records().len(),
        ensures
            self.has_state(self.records()[i].0),
            self.state_of(self.records()[i].0) == self.records()[i].1,
    {
        let id = self.records()[i].0;
        assert(self.has_state(id));
        let j = choose|j: int|
            0 <= j < self.records().len() && (#[trigger] self.records()[j]).0 == id;
        if i != j {
            assert(self.records()[i].0 != self.records()[j].0);
        }
    }
}

impl EphemeralStorage {
    /// Stores `state` under `id`, replacing any previous state; the in-memory
    /// backend never fails.
    pub fn put_state(&mut self, id: &str, state: &[u8])
        requires
            old(self).inv(),
        ensures
            final(self).inv(),
            final(self).has_state(id@),
            final(self).state_of(id@) == state@,
            forall|other: Seq<char>|
                other != id@ ==> final(self).has_state(other) == old(self).has_state(other),
            forall|other: Seq<char>|
                other != id@ && old(self).has_state(other) ==> final(self).state_of(other) == old(
                    self,
                ).state_of(other),
    {
        let ghost pre = *self;
        let mut buf: Vec<u8> = Vec::new();
        buf.extend_from_slice(state);
        proof {
            assert(buf@ =~= state@);
        }
        match self.find(id) {
            Some(i) => {
                proof {
                    pre.lemma_state_at(i as int);
                }
                self.entries[i].state = buf;
                proof {
                    let pr = pre.records();
                    assert(self.records() =~~= pr.update(i as int, (pr[i as int].0, state@)));
                    assert forall|a: int, b: int|
                        0 <= a < b < self.records().len() implies (
                    #[trigger] self.records()[a]).0 != (#[trigger] self.records()[b]).0 by {
                        assert(pr[a].0 == self.records()[a].0);
                        assert(pr[b].0 == self.records()[b].0);
                    }
                    assert(self.records()[i as int].0 == id@);
                    assert(self.has_state(id@));
                    let j = choose|j: int|
                        0 <= j < self.records().len() && (#[trigger] self.records()[j]).0 == id@;
                    if j != i {
                        assert(pre.records()[j].0 != pre.records()[i as int].0);
                    }
                    assert(self.state_of(id@) == state@);
                    assert forall|other: Seq<char>|
                        other != id@ implies final(self).has_state(other) == pre.has_state(
                        other,
                    ) by {
                        if pre.has_state(other) {
                            let k = choose|k: int|
                                0 <= k < pr.len() && (#[trigger] pr[k]).0 == other;
                            assert(self.records()[k].0 == other);
                        }
                        if self.has_state(other) {
                            let k = choose|k: int|
                                0 <= k < self.records().len() && (#[trigger] self.records()[k]).0
                                    == other;
                            assert(pr[k].0 == other);
                        }
                    }
                    assert forall|other: Seq<char>|
                        other != id@ && pre.has_state(other) implies final(self).state_of(other)
                        == pre.state_of(other) by {
                        let a = choose|a: int| 0 <= a < pr.len() && (#[trigger] pr[a]).0 == other;
                        let b = choose|b: int|
                            0 <= b < self.records().len() && (#[trigger] self.records()[b]).0
                                == other;
                        if a != b {
                            assert(pr[a].0 != pr[b].0);
                        }
                        assert(b != i);
                    }
                }
            },
            None => {
                self.entries.push(StateEntry { id: id.to_owned(), state: buf });
                proof {
                    let pr = pre.records();
                    assert(self.records() =~~= pr.push((id@, state@)));
                    let n = pr.len();
                    assert forall|a: int, b: int|
                        0 <= a < b < self.records().len() implies (
                    #[trigger] self.records()[a]).0 != (#[trigger] self.records()[b]).0 by {
                        if b == n {
                            if self.records()[a].0 == id@ {
                                assert(pr[a].0 == id@);
                                assert(pre.has_state(id@));
                            }
                        } else {
                            assert(pr[a].0 != pr[b].0);
                        }
                    }
                    assert(self.records()[n as int].0 == id@);
                    assert(self.has_state(id@));
                    let j = choose|j: int|
                        0 <= j < self.records().len() && (#[trigger] self.records()[j]).0 == id@;
                    if j < n {
                        assert(pr[j].0 == id@);
                        assert(pre.has_state(id@));
                    }
                    assert(self.state_of(id@) == state@);
                    assert forall|other: Seq<char>|
                        other != id@ implies final(self).has_state(other) == pre.has_state(
                        other,
                    ) by {
                        if pre.has_state(other) {
                            let k = choose|k: int|
                                0 <= k < pr.len() && (#[trigger] pr[k]).0 == other;
                            assert(self.records()[k].0 == other);
                        }
                        if self.has_state(other) {
                            let k = choose|k: int|
                                0 <= k < self.records().len() && (#[trigger] self.records()[k]).0
                                    == other;
                            assert(k != n);
                            assert(pr[k].0 == other);
                        }
                    }
                    assert forall|other: Seq<char>|
                        other != id@ && pre.has_state(other) implies final(self).state_of(other)
                        == pre.state_of(other) by {
                        let a = choose|a: int| 0 <= a < pr.len() && (#[trigger] pr[a]).0 == other;
                        let b = choose|b: int|
                            0 <= b < self.records().len() && (#[trigger] self.records()[b]).0
                                == other;
                        assert(b != n);
                        if a != b {
                            assert(pr[a].0 != pr[b].0);
                        }
                    }
                }
            },
        }
    }

    /// The state stored under `id`, or `None`; the in-memory backend never
    /// fails.
    pub fn peek_state(&self, id: &str) -> (r: Option<Vec<u8>>)
        requires
            self.inv(),
        ensures
            r is Some <==> self.has_state(id@),
            r is Some ==> r->0@ == self.state_of(id@),
    {
        match self.find(id) {
            Some(i) => {
                proof {
                    self.lemma_state_at(i as int);
                    assert(self.records()[i as int].1 == self.entries@[i as int].state@);
                }
                Some(copy_bytes(&self.entries[i].state))
            },
            None => None,
        }
    }

    /// Every stored id, one per record and in record order; the in-memory
    /// backend never fails.
    pub fn list_ids(&self) -> (r: Vec<String>)
        requires
            self.inv(),
        ensures
            r@.len() == self.records().len(),
            forall|i: int| 0 <= i < r@.len() ==> (#[trigger] r@[i])@ == self.records()[i].0,
    {
        let mut out: Vec<String> = Vec::new();
        let mut i: usize = 0;
        while i < self.entries.len()
            invariant
                self.inv(),
                i <= self.records().len(),
                self.records().len() == self.entries@.len(),
                out@.len() == i,
                forall|k: int| 0 <= k < i ==> (#[trigger] out@[k])@ == self.records()[k].0,
            decreases self.entries@.len() - i,
        {
            proof {
                assert(self.records()[i as int].0 == self.entries@[i as int].id@);
            }
            out.push(self.entries[i].id.clone());
            i = i + 1;
        }
        out
    }

    /// Drops any state stored under `id`; the in-memory backend never fails.
    pub fn drop_state(&mut self, id: &str)
        requires
            old(self).inv(),
        ensures
            final(self).inv(),
            !final(self).has_state(id@),
            forall|other: Seq<char>|
                other != id@ ==> final(self).has_state(other) == old(self).has_state(other),
            forall|other: Seq<char>|
                other != id@ && old(self).has_state(other) ==> final(self).state_of(other) == old(
                    self,
                ).state_of(other),
    {
        let ghost pre = *self;
        match self.find(id) {
            Some(i) => {
                self.entries.remove(i);
                proof {
                    let pr = pre.records();
                    assert(self.records() =~~= pr.remove(i as int));
                    assert forall|a: int, b: int|
                        0 <= a < b < self.records().len() implies (
                    #[trigger] self.records()[a]).0 != (#[trigger] self.records()[b]).0 by {
                        let pa: int = if a < i { a } else { a + 1 };
                        let pb: int = if b < i { b } else { b + 1 };
                        assert(self.records()[a] == pr[pa]);
                        assert(self.records()[b] == pr[pb]);
                        assert(pr[pa].0 != pr[pb].0);
                    }
                    assert forall|k: int|
                        0 <= k < self.records().len() implies (#[trigger] self.records()[k]).0
                        != id@ by {
                        let pk: int = if k < i { k } else { k + 1 };
                        assert(self.records()[k] == pr[pk]);
                        if pk != i {
                            assert(pr[pk].0 != pr[i as int].0);
                        }
                    }
                    assert(!self.has_state(id@));
                    assert forall|other: Seq<char>|
                        other != id@ implies final(self).has_state(other) == pre.has_state(
                        other,
                    ) by {
                        if pre.has_state(other) {
                            let k = choose|k: int|
                                0 <= k < pr.len() && (#[trigger] pr[k]).0 == other;
                            assert(k != i);
                            let nk: int = if k < i { k } else { k - 1 };
                            assert(self.records()[nk] == pr[k]);
                        }
                        if self.has_state(other) {
                            let k = choose|k: int|
                                0 <= k < self.records().len() && (#[trigger] self.records()[k]).0
                                    == other;
                            let pk: int = if k < i { k } else { k + 1 };
                            assert(pr[pk].0 == other);
                        }
                    }
                    assert forall|other: Seq<char>|
                        other != id@ && pre.has_state(other) implies final(self).state_of(other)
                        == pre.state_of(other) by {
                        let a = choose|a: int| 0 <= a < pr.len() && (#[trigger] pr[a]).0 == other;
                        assert(a != i);
                        let na: int = if a < i { a } else { a - 1 };
                        assert(self.records()[na] == pr[a]);
                        let b = choose|b: int|
                            0 <= b < self.records().len() && (#[trigger] self.records()[b]).0
                                == other;
                        let pb: int = if b < i { b } else { b + 1 };
                        assert(pr[pb].0 == other);
                        if a != pb {
                            assert(pr[a].0 != pr[pb].0);
                        }
                    }
                }
            },
            None => {
            },
        }
    }
}

impl EpisodeStorage for EphemeralStorage {
    open spec fn has_state(&self, id: Seq<char>) -> bool {
        exists|i: int| 0 <= i < self.records().len() && (#[trigger] self.records()[i]).0 == id
    }

    open spec fn state_of(&self, id: Seq<char>) -> Seq<u8> {
        let i = choose|i: int|
            0 <= i < self.records().len() && (#[trigger] self.records()[i]).0 == id;
        self.records()[i].1
    }

    open spec fn inv(&self) -> bool {
        forall|i: int, j: int|
            0 <= i < j < self.records().len() ==> (#[trigger] self.records()[i]).0 != (
            #[trigger] self.records()[j]).0
    }

    fn save_state(&mut self, id: &str, state: &[u8]) -> (r: Result<(), ApiError>) {
        self.put_state(id, state);
        Ok(())
    }

    fn load_state(&self, id: &str) -> (r: Result<Option<Vec<u8>>, ApiError>) {
        Ok(self.peek_state(id))
    }

    fn delete_state(&mut self, id: &str) -> (r: Result<(), ApiError>) {
        self.drop_state(id);
        Ok(())
    }

    fn list_episodes(&self) -> (r: Result<Vec<String>, ApiError>) {
        let out = self.list_ids();
        let r: Result<Vec<String>, ApiError> = Ok(out);
        proof {
            assert forall|k: int| 0 <= k < r->Ok_0@.len() implies self.has_state(
                #[trigger] r->Ok_0@[k]@,
            ) by {
                self.lemma_state_at(k);
            }
            assert forall|id: Seq<char>| self.has_state(id) implies exists|k: int|
                #![auto]
                0 <= k < r->Ok_0@.len() && r->Ok_0@[k]@ == id by {
                let j = choose|j: int|
                    0 <= j < self.records().len() && (#[trigger] self.records()[j]).0 == id;
                assert(r->Ok_0@[j]@ == self.records()[j].0);
                assert(0 <= j < r->Ok_0@.len() && r->Ok_0@[j]@ == id);
            }
            assert forall|a: int, b: int|
                0 <= a < b < r->Ok_0@.len() implies (#[trigger] r->Ok_0@[a])@ != (
            #[trigger] r->Ok_0@[b])@ by {
                assert(r->Ok_0@[a]@ == self.records()[a].0);
                assert(r->Ok_0@[b]@ == self.records()[b].0);
            }
        }
        r
    }
}

/// The future durable persistence backend, rooted at a filesystem path;
/// only the configuration is kept so far.
pub struct PersistentStorage {
    path: String,
}

impl PersistentStorage {
    /// The filesystem path the backend was configured with.
    pub closed spec fn spec_path(&self) -> Seq<char> {
        self.path@
    }

    pub fn new(path: &str) -> (r: Self)
        ensures
            r.spec_path() == path@,
    {
        PersistentStorage { path: path.to_owned() }
    }
}

} // verus!
