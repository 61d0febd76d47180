use vstd::prelude::*;

use crate::bytes::copy_bytes;
use crate::episode::{fresh_metadata, spec_expired, EpisodeMetadata, MetadataView,
    EPISODE_TTL_SECONDS};
use crate::errors::ApiError;
use crate::storage::EpisodeStorage;
use crate::strings::str_eq;

verus! {

/// How many pending events the registry queues before refusing new ones; a
/// full queue drops the event rather than ever blocking a producer.
pub const EVENT_QUEUE_CAPACITY: usize = 1000;

/// Events emitted by episodes.
#[derive(Debug)]
pub enum EpisodeEvent {
    StateUpdate { episode_id: String, state: Vec<u8> },
    ParticipantJoined { episode_id: String, participant_id: String },
    ParticipantLeft { episode_id: String, participant_id: String },
    Error { episode_id: String, error: String },
    Completed { episode_id: String },
}

/// Mathematical image of an `EpisodeEvent`.
#[verifier::ext_equal]
pub enum EventView {
    StateUpdate { episode_id: Seq<char>, state: Seq<u8> },
    ParticipantJoined { episode_id: Seq<char>, participant_id: Seq<char> },
    ParticipantLeft { episode_id: Seq<char>, participant_id: Seq<char> },
    Error { episode_id: Seq<char>, error: Seq<char> },
    Completed { episode_id: Seq<char> },
}

impl View for EpisodeEvent {
    type V = EventView;

    open spec fn view(&self) -> EventView {
        match self {
            EpisodeEvent::StateUpdate { episode_id, state } => EventView::StateUpdate {
                episode_id: episode_id@,
                state: state@,
            },
            EpisodeEvent::ParticipantJoined { episode_id, participant_id } => EventView::ParticipantJoined {
                episode_id: episode_id@,
                participant_id: participant_id@,
            },
            EpisodeEvent::ParticipantLeft { episode_id, participant_id } => EventView::ParticipantLeft {
                episode_id: episode_id@,
                participant_id: participant_id@,
            },
            EpisodeEvent::Error { episode_id, error } => EventView::Error {
                episode_id: episode_id@,
                error: error@,
            },
            EpisodeEvent::Completed { episode_id } => EventView::Completed {
                episode_id: episode_id@,
            },
        }
    }
}

/// One live episode: its metadata and its serialized application state.
#[derive(Debug)]
pub struct RunningEpisode {
    pub metadata: EpisodeMetadata,
    pub state: Vec<u8>,
}

/// Mathematical image of a `RunningEpisode`.
#[verifier::ext_equal]
pub struct EpisodeRecord {
    pub meta: MetadataView,
    pub state: Seq<u8>,
}

impl View for RunningEpisode {
    type V = EpisodeRecord;

    open spec fn view(&self) -> EpisodeRecord {
        EpisodeRecord { meta: self.metadata@, state: self.state@ }
    }
}

/// Executes commands against an episode's opaque serialized state.
///
/// The runtime's execution capability: it applies a command to a state and
/// produces the new state. This executor models application semantics by
/// appending the command bytes to the state; it accepts every command.
pub struct EpisodeExecutor {}

impl EpisodeExecutor {
    pub fn new() -> (r: Self) {
        EpisodeExecutor {  }
    }

    /// Applies `command` to `state`, yielding the successor state.
    pub fn execute_command(&self, episode_id: &str, command: &Vec<u8>, state: &Vec<u8>) -> (r:
        Result<Vec<u8>, ApiError>)
        ensures
            r is Ok,
            r->Ok_0@ == state@ + command@,
    {
        let mut next = copy_bytes(state);
        let mut i: usize = 0;
        while i < command.len()
            invariant
                i <= command@.len(),
                next@ =~= state@ + command@.take(i as int),
            decreases command@.len() - i,
        {
            next.push(command[i]);
            proof {
                assert(next@ =~= state@ + command@.take(i + 1));
            }
            i = i + 1;
        }
        proof {
            assert(command@.take(command@.len() as int) =~= command@);
        }
        Ok(next)
    }

    /// A new running episode of the given type: fresh metadata and an empty
    /// state.
    pub fn create_episode(
        &self,
        episode_type: &str,
        episode_id: String,
        creator_session: String,
        now: u64,
    ) -> (r: Result<RunningEpisode, ApiError>)
        requires
            now + EPISODE_TTL_SECONDS <= u64::MAX,
        ensures
            r is Ok,
            r->Ok_0@ == (EpisodeRecord {
                meta: fresh_metadata(episode_id@, episode_type@, creator_session@, now),
                state: Seq::<u8>::empty(),
            }),
    {
        let ghost id_view = episode_id@;
        let metadata = EpisodeMetadata::new(episode_id, episode_type.to_owned(), creator_session, now);
        let r = RunningEpisode { metadata, state: Vec::new() };
        proof {
            assert(r@ =~~= EpisodeRecord {
                meta: fresh_metadata(id_view, episode_type@, creator_session@, now),
                state: Seq::<u8>::empty(),
            });
        }
        Ok(r)
    }
}

/// The liveness test an expiry sweep at time `now` applies to an episode.
pub open spec fn live_pred(now: u64) -> spec_fn(EpisodeRecord) -> bool {
    |r: EpisodeRecord| !spec_expired(r.meta, now)
}

/// The episode registry: owns the set of live episodes, their metadata and
/// serialized state, persists state through the storage collaborator, and
/// queues state-change events for the fan-out.
///
/// When persisting fails after an in-memory mutation has been applied, the
/// mutation is kept and the failure surfaced: an accepted command is never
/// silently dropped, at the price of a cache/store inconsistency the caller
/// hears about.
pub struct EpisodeManager<S: EpisodeStorage> {
    executor: EpisodeExecutor,
    storage: S,
    episodes: Vec<RunningEpisode>,
    events: Vec<EpisodeEvent>,
}

impl<S: EpisodeStorage> EpisodeManager<S> {
    /// Every live episode, in creation order.
    pub closed spec fn records(&self) -> Seq<EpisodeRecord> {
        Seq::new(self.episodes@.len(), |i: int| self.episodes@[i]@)
    }

    /// The pending events, oldest first.
    pub closed spec fn events(&self) -> Seq<EventView> {
        Seq::new(self.events@.len(), |i: int| self.events@[i]@)
    }

    /// The persistence collaborator's current state.
    pub closed spec fn store(&self) -> S {
        self.storage
    }

    /// Whether a live episode carries the id.
    pub open spec fn has_episode(&self, id: Seq<char>) -> bool {
        exists|i: int| 0 <= i < self.records().len() && (#[trigger] self.records()[i]).meta.id == id
    }

    /// The record of the episode `id` (meaningful only when
    /// `has_episode(id)`).
    pub open spec fn record_of(&self, id: Seq<char>) -> EpisodeRecord {
        let i = choose|i: int|
            0 <= i < self.records().len() && (#[trigger] self.records()[i]).meta.id == id;
        self.records()[i]
    }

    /// Invariant: episode ids are unique, the storage collaborator is
    /// well-formed, and the event queue respects its bound.
    pub open spec fn wf(&self) -> bool {
        &&& forall|i: int, j: int|
            0 <= i < j < self.records().len() ==> (#[trigger] self.records()[i]).meta.id != (
            #[trigger] self.records()[j]).meta.id
        &&& self.store().inv()
        &&& self.events().len() <= EVENT_QUEUE_CAPACITY
    }

    /// A registry over the given persistence backend, with no episodes and
    /// no pending events.
    pub fn with_storage(storage: S) -> (r: Self)
        requires
            storage.inv(),
        ensures
            r.wf(),
            r.records() =~= Seq::<EpisodeRecord>::empty(),
            r.events() =~= Seq::<EventView>::empty(),
            r.store() == storage,
    {
        EpisodeManager {
            executor: EpisodeExecutor::new(),
            storage,
            episodes: Vec::new(),
            events: Vec::new(),
        }
    }

    /// The index of the episode carrying `id`, when one exists.
    fn find_episode(&self, id: &str) -> (r: Option<usize>)
        ensures
            match r {
                Some(i) => 0 <= i < self.records().len() && self.records()[i as int].meta.id
                    == id@,
                None => !self.has_episode(id@),
            },
    {
        let mut i: usize = 0;
        while i < self.episodes.len()
            invariant
                i <= self.records().len(),
                self.records().len() == self.episodes@.len(),
                forall|k: int| 0 <= k < i ==> (#[trigger] self.records()[k]).meta.id != id@,
            decreases self.episodes@.len() - i,
        {
            proof {
                assert(self.records()[i as int] == self.episodes@[i as int]@);
            }
            if str_eq(self.episodes[i].metadata.id.as_str(), id) {
                return Some(i);
            }
            i = i + 1;
        }
        None
    }

    /// With unique ids, the record at a matching index is the id's record.
    proof fn lemma_record_at(&self, i: int)
        requires
            self.wf(),
            0 <= i < self.records().len(),
        ensures
            self.has_episode(self.records()[i].meta.id),
            self.record_of(self.records()[i].meta.id) == self.records()[i],
    {
        let id = self.records()[i].meta.id;
        assert(self.has_episode(id));
        let j = choose|j: int|
            0 <= j < self.records().len() && (#[trigger] self.records()[j]).meta.id == id;
        if i != j {
            assert(self.records()[i].meta.id != self.records()[j].meta.id);
        }
    }

    /// Queues an event for the fan-out; a full queue refuses the event, it
    /// never blocks.
    fn push_event(&mut self, event: EpisodeEvent)
        ensures
            final(self).events() == if old(self).events().len() < EVENT_QUEUE_CAPACITY {
                old(self).events().push(event@)
            } else {
                old(self).events()
            },
            final(self).records() == old(self).records(),
            final(self).store() == old(self).store(),
    {
        if self.events.len() < EVENT_QUEUE_CAPACITY {
            let ghost pre = self.events();
            self.events.push(event);
            proof {
                assert(self.events() =~~= pre.push(self.events@.last()@));
            }
        }
    }

    /// Replacing the record at one index (same id) rewrites that episode and
    /// nothing else.
    proof fn lemma_update_record(pre: Self, post: Self, i: int, v: EpisodeRecord)
        requires
            forall|a: int, b: int|
                0 <= a < b < pre.records().len() ==> (#[trigger] pre.records()[a]).meta.id != (
                #[trigger] pre.records()[b]).meta.id,
            0 <= i < pre.records().len(),
            v.meta.id == pre.records()[i].meta.id,
            post.records() == pre.records().update(i, v),
        ensures
            forall|id: Seq<char>| post.has_episode(id) == pre.has_episode(id),
            post.record_of(pre.records()[i].meta.id) == v,
            forall|id: Seq<char>|
                id != pre.records()[i].meta.id && pre.has_episode(id) ==> post.record_of(id)
                    == pre.record_of(id),
            forall|a: int, b: int|
                0 <= a < b < post.records().len() ==> (#[trigger] post.records()[a]).meta.id != (
                #[trigger] post.records()[b]).meta.id,
    {
        assert forall|id: Seq<char>| post.has_episode(id) == pre.has_episode(id) by {
            if pre.has_episode(id) {
                let k = choose|k: int|
                    0 <= k < pre.records().len() && (#[trigger] pre.records()[k]).meta.id == id;
                assert(post.records()[k].meta.id == id);
            }
            if post.has_episode(id) {
                let k = choose|k: int|
                    0 <= k < post.records().len() && (#[trigger] post.records()[k]).meta.id == id;
                assert(pre.records()[k].meta.id == id);
            }
        }
        assert(post.has_episode(pre.records()[i].meta.id));
        let j = choose|j: int|
            0 <= j < post.records().len() && (#[trigger] post.records()[j]).meta.id
                == pre.records()[i].meta.id;
        if j != i {
            assert(pre.records()[j].meta.id != pre.records()[i].meta.id);
        }
        assert forall|id: Seq<char>|
            id != pre.records()[i].meta.id && pre.has_episode(id) implies post.record_of(id)
            == pre.record_of(id) by {
            let a = choose|a: int|
                0 <= a < pre.records().len() && (#[trigger] pre.records()[a]).meta.id == id;
            let b = choose|b: int|
                0 <= b < post.records().len() && (#[trigger] post.records()[b]).meta.id == id;
            if a != b {
                assert(pre.records()[a].meta.id != pre.records()[b].meta.id);
            }
            assert(a != i);
            assert(post.records()[a] == pre.records()[a]);
        }
        assert forall|a: int, b: int|
            0 <= a < b < post.records().len() implies (#[trigger] post.records()[a]).meta.id != (
        #[trigger] post.records()[b]).meta.id by {
            assert(post.records()[a].meta.id == pre.records()[a].meta.id);
            assert(post.records()[b].meta.id == pre.records()[b].meta.id);
        }
    }

    /// Appending a record with an unknown id adds that episode and nothing
    /// else.
    proof fn lemma_push_record(pre: Self, post: Self, v: EpisodeRecord)
        requires
            forall|a: int, b: int|
                0 <= a < b < pre.records().len() ==> (#[trigger] pre.records()[a]).meta.id != (
                #[trigger] pre.records()[b]).meta.id,
            !pre.has_episode(v.meta.id),
            post.records() == pre.records().push(v),
        ensures
            post.has_episode(v.meta.id),
            post.record_of(v.meta.id) == v,
            forall|other: Seq<char>|
                other != v.meta.id ==> post.has_episode(other) == pre.has_episode(other),
            forall|other: Seq<char>|
                other != v.meta.id && pre.has_episode(other) ==> post.record_of(other)
                    == pre.record_of(other),
            forall|a: int, b: int|
                0 <= a < b < post.records().len() ==> (#[trigger] post.records()[a]).meta.id != (
                #[trigger] post.records()[b]).meta.id,
    {
        let n = pre.records().len();
        assert(post.records()[n as int] == v);
        assert(post.has_episode(v.meta.id));
        let j = choose|j: int|
            0 <= j < post.records().len() && (#[trigger] post.records()[j]).meta.id == v.meta.id;
        if j < n {
            assert(pre.records()[j].meta.id == v.meta.id);
            assert(pre.has_episode(v.meta.id));
        }
        assert forall|other: Seq<char>|
            other != v.meta.id implies post.has_episode(other) == pre.has_episode(other) by {
            if pre.has_episode(other) {
                let k = choose|k: int|
                    0 <= k < pre.records().len() && (#[trigger] pre.records()[k]).meta.id == other;
                assert(post.records()[k].meta.id == other);
            }
            if post.has_episode(other) {
                let k = choose|k: int|
                    0 <= k < post.records().len() && (#[trigger] post.records()[k]).meta.id
                        == other;
                assert(k != n);
                assert(pre.records()[k].meta.id == other);
            }
        }
        assert forall|other: Seq<char>|
            other != v.meta.id && pre.has_episode(other) implies post.record_of(other)
            == pre.record_of(other) by {
            let a = choose|a: int|
                0 <= a < pre.records().len() && (#[trigger] pre.records()[a]).meta.id == other;
            let b = choose|b: int|
                0 <= b < post.records().len() && (#[trigger] post.records()[b]).meta.id == other;
            assert(b != n);
            if a != b {
                assert(pre.records()[a].meta.id != pre.records()[b].meta.id);
            }
        }
        assert forall|a: int, b: int|
            0 <= a < b < post.records().len() implies (#[trigger] post.records()[a]).meta.id != (
        #[trigger] post.records()[b]).meta.id by {
            if b == n {
                if post.records()[a].meta.id == v.meta.id {
                    assert(pre.records()[a].meta.id == v.meta.id);
                    assert(pre.has_episode(v.meta.id));
                }
            } else {
                assert(pre.records()[a].meta.id != pre.records()[b].meta.id);
            }
        }
    }

    /// Creates and registers a new episode under `episode_id`, persisting an
    /// initial empty state. A taken id is refused; when persisting fails the
    /// episode is kept in memory and the failure surfaced.
    pub fn create_episode(
        &mut self,
        episode_type: &str,
        episode_id: String,
        creator_session: String,
        now: u64,
    ) -> (r: Result<EpisodeMetadata, ApiError>)
        requires
            old(self).wf(),
            now + EPISODE_TTL_SECONDS <= u64::MAX,
        ensures
            final(self).wf(),
            final(self).events() == old(self).events(),
            old(self).has_episode(episode_id@) ==> r == Err::<EpisodeMetadata, ApiError>(
                ApiError::CreationDenied,
            ) && final(self).records() == old(self).records() && final(self).store() == old(self).store(),
            !old(self).has_episode(episode_id@) ==> ({
                let meta = fresh_metadata(episode_id@, episode_type@, creator_session@, now);
                let rec = EpisodeRecord { meta, state: Seq::<u8>::empty() };
                &&& final(self).records() == old(self).records().push(rec)
                &&& final(self).has_episode(episode_id@)
                &&& final(self).record_of(episode_id@) == rec
                &&& (r matches Ok(m) ==> m@ == meta && final(self).store().has_state(episode_id@)
                    && final(self).store().state_of(episode_id@) == Seq::<u8>::empty())
                &&& (r is Err ==> r == Err::<EpisodeMetadata, ApiError>(ApiError::StorageFailure))
                &&& forall|other: Seq<char>|
                    other != episode_id@ ==> final(self).store().has_state(other) == old(self).store().has_state(other)
                &&& forall|other: Seq<char>|
                    other != episode_id@ && old(self).store().has_state(other) ==> final(self).store().state_of(other) == old(self).store().state_of(other)
            }),
    {
        let ghost pre = *self;
        match self.find_episode(episode_id.as_str()) {
            Some(_) => Err(ApiError::CreationDenied),
            None => {
                let ghost idv = episode_id@;
                let id_for_storage = episode_id.clone();
                match self.executor.create_episode(episode_type, episode_id, creator_session, now) {
                    Err(e) => Err(e),
                    Ok(running) => {
                        let meta_copy = running.metadata.duplicate();
                        let ghost rec = running@;
                        self.episodes.push(running);
                        proof {
                            assert(self.records() =~= pre.records().push(rec));
                            Self::lemma_push_record(pre, *self, rec);
                        }
                        let ghost mid = *self;
                        let empty: Vec<u8> = Vec::new();
                        let saved = self.storage.save_state(id_for_storage.as_str(), empty.as_slice());
                        proof {
                            assert(self.records() =~= mid.records());
                            assert(self.events() =~= mid.events());
                            assert forall|id: Seq<char>| self.has_episode(id) == mid.has_episode(
                                id,
                            ) by {}
                            assert forall|id: Seq<char>| mid.has_episode(id) implies self.record_of(
                                id,
                            ) == mid.record_of(id) by {}
                        }
                        match saved {
                            Ok(_) => Ok(meta_copy),
                            Err(_) => Err(ApiError::StorageFailure),
                        }
                    },
                }
            },
        }
    }

    /// Sequences the outcome the execution capability produced for a command
    /// against the episode `episode_id`.
    ///
    /// A rejected execution (`outcome` is an error) reports `ExecutionFailed`
    /// and leaves every episode, the pending events and the persisted states
    /// exactly as they were: no partial mutation survives. An accepted
    /// execution installs the new state, queues a state-update event and
    /// persists the state.
    pub fn apply_execution_outcome(
        &mut self,
        episode_id: &str,
        outcome: Result<Vec<u8>, ApiError>,
    ) -> (r: Result<(), ApiError>)
        requires
            old(self).wf(),
        ensures
            final(self).wf(),
            outcome is Err ==> r == Err::<(), ApiError>(ApiError::ExecutionFailed) && final(self).records() == old(self).records() && final(self).events() == old(self).events()
                && final(self).store() == old(self).store(),
            outcome is Ok && !old(self).has_episode(episode_id@) ==> r == Err::<(), ApiError>(
                ApiError::NotFound,
            ) && final(self).records() == old(self).records() && final(self).events() == old(self).events() && final(self).store() == old(self).store(),
            outcome is Ok && old(self).has_episode(episode_id@) ==> ({
                let ns = outcome->Ok_0@;
                &&& forall|id: Seq<char>|
                    final(self).has_episode(id) == old(self).has_episode(id)
                &&& final(self).record_of(episode_id@) == (EpisodeRecord {
                    meta: old(self).record_of(episode_id@).meta,
                    state: ns,
                })
                &&& forall|id: Seq<char>|
                    id != episode_id@ && old(self).has_episode(id) ==> final(self).record_of(id)
                        == old(self).record_of(id)
                &&& final(self).events() == if old(self).events().len() < EVENT_QUEUE_CAPACITY {
                    old(self).events().push(
                        EventView::StateUpdate { episode_id: episode_id@, state: ns },
                    )
                } else {
                    old(self).events()
                }
                &&& (r is Ok ==> final(self).store().has_state(episode_id@) && final(self).store().state_of(episode_id@) == ns)
                &&& (r is Err ==> r == Err::<(), ApiError>(ApiError::StorageFailure))
                &&& forall|other: Seq<char>|
                    other != episode_id@ ==> final(self).store().has_state(other) == old(self).store().has_state(other)
                &&& forall|other: Seq<char>|
                    other != episode_id@ && old(self).store().has_state(other) ==> final(self).store().state_of(other) == old(self).store().state_of(other)
            }),
    {
        let ghost pre = *self;
        match outcome {
            Err(_) => Err(ApiError::ExecutionFailed),
            Ok(new_state) => {
                match self.find_episode(episode_id) {
                    None => Err(ApiError::NotFound),
                    Some(i) => {
                        proof {
                            pre.lemma_record_at(i as int);
                        }
                        let ghost ns = new_state@;
                        self.episodes[i].state = new_state;
                        let ghost upd = EpisodeRecord {
                            meta: pre.records()[i as int].meta,
                            state: ns,
                        };
                        proof {
                            assert(self.records() =~~= pre.records().update(i as int, upd));
                            Self::lemma_update_record(pre, *self, i as int, upd);
                        }
                        let ghost mid1 = *self;
                        let event_state = copy_bytes(&self.episodes[i].state);
                        self.push_event(
                            EpisodeEvent::StateUpdate {
                                episode_id: episode_id.to_owned(),
                                state: event_state,
                            },
                        );
                        proof {
                            assert forall|id: Seq<char>| self.has_episode(id) == mid1.has_episode(
                                id,
                            ) by {}
                            assert forall|id: Seq<char>| mid1.has_episode(id) implies self
                                .record_of(id) == mid1.record_of(id) by {}
                        }
                        let ghost mid2 = *self;
                        let saved = self.storage.save_state(episode_id, self.episodes[i].state.as_slice());
                        proof {
                            assert(self.records() =~= mid2.records());
                            assert(self.events() =~= mid2.events());
                            assert forall|id: Seq<char>| self.has_episode(id) == mid2.has_episode(
                                id,
                            ) by {}
                            assert forall|id: Seq<char>| mid2.has_episode(id) implies self
                                .record_of(id) == mid2.record_of(id) by {}
                        }
                        match saved {
                            Ok(_) => Ok(()),
                            Err(_) => Err(ApiError::StorageFailure),
                        }
                    },
                }
            },
        }
    }

    /// Looks up the episode, refuses an unknown (`NotFound`) or expired
    /// (`Expired`) one untouched, and otherwise hands the command to the
    /// execution capability and sequences its outcome: the new state is the
    /// old with the command appended, a state-update event is queued, and the
    /// state is persisted.
    pub fn execute_command(&mut self, episode_id: &str, command: Vec<u8>, now: u64) -> (r: Result<
        (),
        ApiError,
    >)
        requires
            old(self).wf(),
        ensures
            final(self).wf(),
            !old(self).has_episode(episode_id@) ==> r == Err::<(), ApiError>(ApiError::NotFound)
                && final(self).records() == old(self).records() && final(self).events() == old(self).events() && final(self).store() == old(self).store(),
            old(self).has_episode(episode_id@) && spec_expired(
                old(self).record_of(episode_id@).meta,
                now,
            ) ==> r == Err::<(), ApiError>(ApiError::Expired) && final(self).records() == old(self).records() && final(self).events() == old(self).events() && final(self).store()
                == old(self).store(),
            old(self).has_episode(episode_id@) && !spec_expired(
                old(self).record_of(episode_id@).meta,
                now,
            ) ==> ({
                let ns = old(self).record_of(episode_id@).state + command@;
                &&& forall|id: Seq<char>|
                    final(self).has_episode(id) == old(self).has_episode(id)
                &&& final(self).record_of(episode_id@) == (EpisodeRecord {
                    meta: old(self).record_of(episode_id@).meta,
                    state: ns,
                })
                &&& forall|id: Seq<char>|
                    id != episode_id@ && old(self).has_episode(id) ==> final(self).record_of(id)
                        == old(self).record_of(id)
                &&& final(self).events() == if old(self).events().len() < EVENT_QUEUE_CAPACITY {
                    old(self).events().push(
                        EventView::StateUpdate { episode_id: episode_id@, state: ns },
                    )
                } else {
                    old(self).events()
                }
                &&& (r is Ok ==> final(self).store().has_state(episode_id@) && final(self).store().state_of(episode_id@) == ns)
                &&& (r is Err ==> r == Err::<(), ApiError>(ApiError::StorageFailure))
            }),
    {
        let ghost pre = *self;
        match self.find_episode(episode_id) {
            None => Err(ApiError::NotFound),
            Some(i) => {
                proof {
                    pre.lemma_record_at(i as int);
                }
                if self.episodes[i].metadata.is_expired(now) {
                    Err(ApiError::Expired)
                } else {
                    let outcome = self.executor.execute_command(
                        episode_id,
                        &command,
                        &self.episodes[i].state,
                    );
                    self.apply_execution_outcome(episode_id, outcome)
                }
            },
        }
    }

    /// A copy of the episode's metadata, or `None` for an unknown id.
    pub fn get_episode(&self, episode_id: &str) -> (r: Result<Option<EpisodeMetadata>, ApiError>)
        requires
            self.wf(),
        ensures
            r is Ok,
            r->Ok_0 is Some <==> self.has_episode(episode_id@),
            r->Ok_0 is Some ==> r->Ok_0->0@ == self.record_of(episode_id@).meta,
    {
        match self.find_episode(episode_id) {
            None => Ok(None),
            Some(i) => {
                proof {
                    self.lemma_record_at(i as int);
                    assert(self.records()[i as int].meta == self.episodes@[i as int].metadata@);
                }
                Ok(Some(self.episodes[i].metadata.duplicate()))
            },
        }
    }

    /// A snapshot of every live episode's metadata, in creation order.
    pub fn list_episodes(&self) -> (r: Result<Vec<EpisodeMetadata>, ApiError>)
        requires
            self.wf(),
        ensures
            r is Ok,
            r->Ok_0@.len() == self.records().len(),
            forall|i: int|
                0 <= i < self.records().len() ==> (#[trigger] r->Ok_0@[i])@ == self.records()[i].meta,
    {
        let mut out: Vec<EpisodeMetadata> = Vec::new();
        let mut i: usize = 0;
        while i < self.episodes.len()
            invariant
                i <= self.records().len(),
                self.records().len() == self.episodes@.len(),
                out@.len() == i,
                forall|k: int| 0 <= k < i ==> (#[trigger] out@[k])@ == self.records()[k].meta,
            decreases self.episodes@.len() - i,
        {
            proof {
                assert(self.records()[i as int].meta == self.episodes@[i as int].metadata@);
            }
            out.push(self.episodes[i].metadata.duplicate());
            i = i + 1;
        }
        Ok(out)
    }

    /// A sweep that stopped at position `j` of the old record sequence: the
    /// expired episode there could not have its state deleted. Everything
    /// before `j` was swept — the expired records removed and their states
    /// deleted — and everything from `j` on is untouched but for the removal
    /// of the record at `j` itself, whose stored state is in doubt.
    pub open spec fn swept_up_to(pre: &Self, post: &Self, now: u64, j: int) -> bool {
        &&& 0 <= j < pre.records().len()
        &&& spec_expired(pre.records()[j].meta, now)
        &&& post.records() == pre.records().take(j).filter(live_pred(now)) + pre.records().skip(
            j + 1,
        )
        &&& (forall|k: int|
            0 <= k < j && spec_expired((#[trigger] pre.records()[k]).meta, now)
                ==> !post.store().has_state(pre.records()[k].meta.id))
        &&& (forall|id: Seq<char>|
            !(exists|k: int|
                0 <= k <= j && (#[trigger] pre.records()[k]).meta.id == id && spec_expired(
                    pre.records()[k].meta,
                    now,
                )) ==> post.store().has_state(id) == pre.store().has_state(id) && (
            pre.store().has_state(id) ==> post.store().state_of(id) == pre.store().state_of(id)))
    }

    /// Removes every episode past its lifetime at time `now` — exactly those —
    /// deletes their persisted state, and reports how many were removed.
    /// With no expired episode there is nothing to delete and the sweep is
    /// owed success. Should a deletion fail, the sweep stops with
    /// `StorageFailure`: the episodes swept before the failure stay removed,
    /// their states deleted, and the rest untouched.
    #[verifier::loop_isolation(false)]
    pub fn cleanup_expired(&mut self, now: u64) -> (r: Result<usize, ApiError>)
        requires
            old(self).wf(),
        ensures
            final(self).wf(),
            final(self).events() == old(self).events(),
            (forall|k: int|
                0 <= k < old(self).records().len() ==> !spec_expired(
                    (#[trigger] old(self).records()[k]).meta,
                    now,
                )) ==> r is Ok,
            r is Err ==> r == Err::<usize, ApiError>(ApiError::StorageFailure) && exists|j: int|
                #[trigger] Self::swept_up_to(old(self), final(self), now, j),
            r is Ok ==> ({
                let kept = old(self).records().filter(live_pred(now));
                &&& final(self).records() == kept
                &&& r == Ok::<usize, ApiError>((old(self).records().len() - kept.len()) as usize)
                &&& forall|k: int|
                    0 <= k < old(self).records().len() && spec_expired(
                        (#[trigger] old(self).records()[k]).meta,
                        now,
                    ) ==> !final(self).store().has_state(old(self).records()[k].meta.id)
                &&& forall|id: Seq<char>|
                    !(exists|k: int|
                        0 <= k < old(self).records().len() && (#[trigger] old(self).records()[k]).meta.id
                            == id && spec_expired(old(self).records()[k].meta, now)) ==> final(self).store().has_state(id) == old(self).store().has_state(id) && (old(self).store().has_state(id) ==> final(self).store().state_of(id) == old(self).store().state_of(id))
            }),
    {
        let ghost orig = self.records();
        let ghost n = orig.len();
        let initial_len = self.episodes.len();
        let ghost mut j: int = 0;
        let mut i: usize = 0;
        while i < self.episodes.len()
            invariant
                self.events() == old(self).events(),
                self.store().inv(),
                0 <= i as int <= j <= n,
                initial_len == n,
                self.records() =~= orig.take(j).filter(live_pred(now)) + orig.subrange(
                    j,
                    n as int,
                ),
                i as int == orig.take(j).filter(live_pred(now)).len(),
                forall|a: int, b: int|
                    0 <= a < b < self.records().len() ==> (#[trigger] self.records()[a]).meta.id
                        != (#[trigger] self.records()[b]).meta.id,
                forall|k: int|
                    0 <= k < j && spec_expired((#[trigger] orig[k]).meta, now) ==> !self
                        .store().has_state(orig[k].meta.id),
                forall|id: Seq<char>|
                    !(exists|k: int|
                        0 <= k < j && (#[trigger] orig[k]).meta.id == id && spec_expired(
                            orig[k].meta,
                            now,
                        )) ==> self.store().has_state(id) == old(self).store().has_state(id) && (
                    old(self).store().has_state(id) ==> self.store().state_of(id) == old(self).store().state_of(id)),
            decreases n - j,
        {
            proof {
                assert(self.records().len() == self.episodes@.len());
                assert(self.records().len() == orig.take(j).filter(live_pred(now)).len() + (n
                    - j));
                assert(j < n);
                assert(self.records()[i as int] == orig.subrange(j, n as int)[0]);
                assert(self.records()[i as int] == orig[j]);
                assert(self.records()[i as int] == self.episodes@[i as int]@);
                assert(orig.take(j + 1) =~= orig.take(j).push(orig[j]));
                crate::seqs::lemma_filter_push(orig.take(j), orig[j], live_pred(now));
            }
            if self.episodes[i].metadata.is_expired(now) {
                proof {
                    assert(!live_pred(now)(orig[j]));
                }
                let ghost before_records = self.records();
                let removed_episode = self.episodes.remove(i);
                let ghost before_store = self.store();
                proof {
                    assert(self.records() =~= before_records.remove(i as int));
                    assert forall|a: int, b: int|
                        0 <= a < b < self.records().len() implies (
                    #[trigger] self.records()[a]).meta.id != (
                    #[trigger] self.records()[b]).meta.id by {
                        let pa: int = if a < i { a } else { a + 1 };
                        let pb: int = if b < i { b } else { b + 1 };
                        assert(self.records()[a] == before_records[pa]);
                        assert(self.records()[b] == before_records[pb]);
                    }
                }
                let ghost before_store = self.store();
                let deleted = self.storage.delete_state(removed_episode.metadata.id.as_str());
                proof {
                    assert(removed_episode.metadata.id@ == orig[j].meta.id);
                }
                if deleted.is_err() {
                    proof {
                        assert(spec_expired(orig[j].meta, now));
                        assert(self.records() =~= orig.take(j).filter(live_pred(now))
                            + orig.skip(j + 1));
                        assert forall|k: int|
                            0 <= k < j && spec_expired(
                                (#[trigger] orig[k]).meta,
                                now,
                            ) implies !self.store().has_state(orig[k].meta.id) by {
                            assert(orig[k].meta.id != orig[j].meta.id);
                            assert(!before_store.has_state(orig[k].meta.id));
                        }
                        assert forall|id: Seq<char>|
                            !(exists|k: int|
                                0 <= k <= j && (#[trigger] orig[k]).meta.id == id && spec_expired(
                                    orig[k].meta,
                                    now,
                                )) implies self.store().has_state(id) == old(self).store().has_state(
                            id,
                        ) && (old(self).store().has_state(id) ==> self.store().state_of(id) == old(
                            self,
                        ).store().state_of(id)) by {
                            assert(orig[j].meta.id != id);
                            assert(before_store.has_state(id) == old(self).store().has_state(id));
                        }
                        assert(Self::swept_up_to(old(self), &*self, now, j));
                    }
                    return Err(ApiError::StorageFailure);
                }
                proof {
                    j = j + 1;
                    assert(self.records() =~= before_records.remove(i as int));
                    assert(before_records.remove(i as int) =~= orig.take(j - 1).filter(
                        live_pred(now),
                    ) + orig.subrange(j, n as int));
                    assert(orig.take(j).filter(live_pred(now)) =~= orig.take(j - 1).filter(
                        live_pred(now),
                    ));
                    assert(self.records() =~= orig.take(j).filter(live_pred(now)) + orig.subrange(
                        j,
                        n as int,
                    ));
                    assert forall|k: int|
                        0 <= k < j && spec_expired((#[trigger] orig[k]).meta, now) implies !self
                        .store().has_state(orig[k].meta.id) by {
                        if k < j - 1 {
                            if orig[k].meta.id == orig[j - 1].meta.id {
                            } else {
                                assert(before_store.has_state(orig[k].meta.id) == self
                                    .store().has_state(orig[k].meta.id));
                            }
                        }
                    }
                }
            } else {
                proof {
                    assert(live_pred(now)(orig[j]));
                }
                i = i + 1;
                proof {
                    j = j + 1;
                    assert(self.records() =~= orig.take(j).filter(live_pred(now)) + orig.subrange(
                        j,
                        n as int,
                    ));
                }
            }
        }
        proof {
            assert(j == n);
            assert(orig.take(n as int) =~= orig);
            assert(self.records() =~= orig.filter(live_pred(now)));
            crate::seqs::lemma_filter_unique_by(
                orig,
                live_pred(now),
                |r: EpisodeRecord| r.meta.id,
            );
            let key = |r: EpisodeRecord| r.meta.id;
            assert forall|a: int, b: int|
                0 <= a < b < self.records().len() implies (#[trigger] self.records()[a]).meta.id
                != (#[trigger] self.records()[b]).meta.id by {
                assert(self.records()[a] == orig.filter(live_pred(now))[a]);
                assert(self.records()[b] == orig.filter(live_pred(now))[b]);
                assert(key(orig.filter(live_pred(now))[a]) != key(orig.filter(live_pred(now))[b]));
            }
            crate::seqs::lemma_filter_len_le(orig, live_pred(now));
            assert(self.episodes@.len() == orig.filter(live_pred(now)).len());
        }
        let removed = initial_len - self.episodes.len();
        Ok(removed)
    }

    /// Hands over the pending events, leaving the queue empty; the registry's
    /// episodes and persisted states are untouched.
    pub fn take_events(&mut self) -> (r: Vec<EpisodeEvent>)
        requires
            old(self).wf(),
        ensures
            final(self).wf(),
            Seq::new(r@.len(), |i: int| r@[i]@) == old(self).events(),
            final(self).events() == Seq::<EventView>::empty(),
            final(self).records() == old(self).records(),
            final(self).store() == old(self).store(),
    {
        let ghost pre = *self;
        let mut swap: Vec<EpisodeEvent> = Vec::new();
        core::mem::swap(&mut self.events, &mut swap);
        proof {
            assert(Seq::new(swap@.len(), |i: int| swap@[i]@) =~~= pre.events());
            assert(self.events() =~= Seq::<EventView>::empty());
            assert(self.records() =~= pre.records());
        }
        swap
    }
}

} // verus!
