use vstd::prelude::*;

use crate::bytes::copy_bytes;
use crate::storage::{EphemeralStorage, EpisodeStorage};

verus! {

/// Events the fan-out distributes to subscribers.
#[derive(Debug)]
pub enum EpisodeEvent {
    StateUpdate { episode_id: String, state: Vec<u8> },
    GameOver { episode_id: String, winner: Option<String> },
}

/// Mathematical image of a fan-out event.
#[verifier::ext_equal]
pub enum HubEventView {
    StateUpdate { episode_id: Seq<char>, state: Seq<u8> },
    GameOver { episode_id: Seq<char>, winner: Option<Seq<char>> },
}

impl View for EpisodeEvent {
    type V = HubEventView;

    open spec fn view(&self) -> HubEventView {
        match self {
            EpisodeEvent::StateUpdate { episode_id, state } => HubEventView::StateUpdate {
                episode_id: episode_id@,
                state: state@,
            },
            EpisodeEvent::GameOver { episode_id, winner } => HubEventView::GameOver {
                episode_id: episode_id@,
                winner: match winner {
                    Some(w) => Some(w@),
                    None => None,
                },
            },
        }
    }
}

impl EpisodeEvent {
    /// A field-for-field copy with its contents pinned down.
    pub fn duplicate(&self) -> (r: Self)
        ensures
            r@ == self@,
    {
        match self {
            EpisodeEvent::StateUpdate { episode_id, state } => EpisodeEvent::StateUpdate {
                episode_id: episode_id.clone(),
                state: copy_bytes(state),
            },
            EpisodeEvent::GameOver { episode_id, winner } => EpisodeEvent::GameOver {
                episode_id: episode_id.clone(),
                winner: match winner {
                    Some(w) => Some(w.clone()),
                    None => None,
                },
            },
        }
    }
}

/// What one delivery queue holds after an event is offered to it: the event
/// is appended, displacing the oldest entry when the queue is full. A slow
/// subscriber loses its oldest event; it never blocks the publisher.
pub open spec fn push_drop(q: Seq<HubEventView>, e: HubEventView, cap: int) -> Seq<HubEventView> {
    if q.len() < cap {
        q.push(e)
    } else {
        q.skip(1).push(e)
    }
}

/// The subscriber table after an event is published: every queue is offered
/// the event independently.
pub open spec fn publish_spec(subs: Seq<(u64, Seq<HubEventView>)>, e: HubEventView, cap: int) -> Seq<
    (u64, Seq<HubEventView>),
> {
    Seq::new(subs.len(), |i: int| (subs[i].0, push_drop(subs[i].1, e, cap)))
}

/// Fan-out isolation: a publish reaches every subscriber's queue — with two
/// independent subscribers both end up holding the event last; removing one
/// subscriber does not affect delivery to the other, which still receives
/// the next event under its own handle; and a publish with no subscribers is
/// simply a no-op, neither an error nor a wait.
pub proof fn lemma_fanout_isolation(
    subs: Seq<(u64, Seq<HubEventView>)>,
    a: int,
    b: int,
    e1: HubEventView,
    e2: HubEventView,
    cap: int,
)
    requires
        cap >= 1,
        0 <= a < subs.len(),
        0 <= b < subs.len(),
        a != b,
    ensures
        ({
            let once = publish_spec(subs, e1, cap);
            let b2: int = if b < a {
                b
            } else {
                b - 1
            };
            let twice = publish_spec(once.remove(a), e2, cap);
            &&& once[a].1.len() > 0 && once[a].1.last() == e1
            &&& once[b].1.len() > 0 && once[b].1.last() == e1
            &&& once[a].0 == subs[a].0 && once[b].0 == subs[b].0
            &&& twice[b2].0 == subs[b].0
            &&& twice[b2].1.len() > 0 && twice[b2].1.last() == e2
        }),
        publish_spec(Seq::<(u64, Seq<HubEventView>)>::empty(), e2, cap) == Seq::<
            (u64, Seq<HubEventView>),
        >::empty(),
{
    let once = publish_spec(subs, e1, cap);
    let removed = once.remove(a);
    let b2: int = if b < a {
        b
    } else {
        b - 1
    };
    assert(removed[b2] == once[b]);
    let twice = publish_spec(removed, e2, cap);
    assert(twice[b2].0 == removed[b2].0);
    assert(publish_spec(Seq::<(u64, Seq<HubEventView>)>::empty(), e2, cap) =~= Seq::<
        (u64, Seq<HubEventView>),
    >::empty());
}

struct Subscriber {
    handle: u64,
    queue: Vec<EpisodeEvent>,
}

/// The event fan-out: one broadcast hub per running instance. Each
/// subscriber owns an independent bounded delivery queue; a publish is
/// fire-and-forget, never blocking on a slow or absent subscriber. A side
/// cache keeps each episode's last published state so a newly-connecting
/// subscriber can be served immediately.
pub struct EventHub {
    subscribers: Vec<Subscriber>,
    next_handle: u64,
    capacity: usize,
    episode_states: EphemeralStorage,
}

impl EventHub {
    /// Every subscriber: its handle and its pending queue, oldest first.
    pub closed spec fn subs(&self) -> Seq<(u64, Seq<HubEventView>)> {
        Seq::new(
            self.subscribers@.len(),
            |i: int|
                (
                    self.subscribers@[i].handle,
                    Seq::new(
                        self.subscribers@[i].queue@.len(),
                        |k: int| self.subscribers@[i].queue@[k]@,
                    ),
                ),
        )
    }

    /// The bound every delivery queue respects.
    pub closed spec fn cap(&self) -> int {
        self.capacity as int
    }

    /// The handle the next subscriber will receive.
    pub closed spec fn next(&self) -> u64 {
        self.next_handle
    }

    /// The state cache, one last-known serialized state per episode.
    pub closed spec fn cache(&self) -> EphemeralStorage {
        self.episode_states
    }

    /// Whether `handle` names a live subscriber.
    pub open spec fn has_subscriber(&self, handle: u64) -> bool {
        exists|i: int| 0 <= i < self.subs().len() && (#[trigger] self.subs()[i]).0 == handle
    }

    /// The queue of subscriber `handle` (meaningful only when it is live).
    pub open spec fn queue_of(&self, handle: u64) -> Seq<HubEventView> {
        let i = choose|i: int| 0 <= i < self.subs().len() && (#[trigger] self.subs()[i]).0 == handle;
        self.subs()[i].1
    }

    /// Invariant: handles are unique and below the next fresh one, queues
    /// respect the bound, and the cache is well-formed.
    pub open spec fn wf(&self) -> bool {
        &&& forall|i: int, j: int|
            0 <= i < j < self.subs().len() ==> (#[trigger] self.subs()[i]).0 != (
            #[trigger] self.subs()[j]).0
        &&& forall|i: int| 0 <= i < self.subs().len() ==> (#[trigger] self.subs()[i]).0 < self.next()
        &&& forall|i: int| 0 <= i < self.subs().len() ==> (#[trigger] self.subs()[i]).1.len() <= self.cap()
        &&& self.cap() >= 1
        &&& self.cache().inv()
    }

    /// A hub with no subscribers, no cached states, and the given queue
    /// bound.
    pub fn new(capacity: usize) -> (r: Self)
        requires
            capacity >= 1,
        ensures
            r.wf(),
            r.subs() =~= Seq::<(u64, Seq<HubEventView>)>::empty(),
            r.cap() == capacity,
            r.next() == 0,
            forall|id: Seq<char>| !r.cache().has_state(id),
    {
        EventHub {
            subscribers: Vec::new(),
            next_handle: 0,
            capacity,
            episode_states: EphemeralStorage::new(),
        }
    }

    /// The index of the subscriber holding `handle`, when one exists.
    fn find_subscriber(&self, handle: u64) -> (r: Option<usize>)
        ensures
            match r {
                Some(i) => 0 <= i < self.subs().len() && self.subs()[i as int].0 == handle,
                None => !self.has_subscriber(handle),
            },
    {
        let mut i: usize = 0;
        while i < self.subscribers.len()
            invariant
                i <= self.subs().len(),
                self.subs().len() == self.subscribers@.len(),
                forall|k: int| 0 <= k < i ==> (#[trigger] self.subs()[k]).0 != handle,
            decreases self.subscribers@.len() - i,
        {
            proof {
                assert(self.subs()[i as int].0 == self.subscribers@[i as int].handle);
            }
            if self.subscribers[i].handle == handle {
                return Some(i);
            }
            i = i + 1;
        }
        None
    }

    /// With unique handles, the entry at a matching index is the handle's.
    proof fn lemma_queue_at(&self, i: int)
        requires
            self.wf(),
            0 <= i < self.subs().len(),
        ensures
            self.has_subscriber(self.subs()[i].0),
            self.queue_of(self.subs()[i].0) == self.subs()[i].1,
    {
        let h = self.subs()[i].0;
        assert(self.has_subscriber(h));
        let j = choose|j: int| 0 <= j < self.subs().len() && (#[trigger] self.subs()[j]).0 == h;
        if i != j {
            assert(self.subs()[i].0 != self.subs()[j].0);
        }
    }

    /// Registers a new subscriber and hands back its receive handle; its
    /// queue starts empty (no replay of history). Handles staying below the
    /// `u64` range is a machine limit.
    pub fn subscribe(&mut self) -> (h: u64)
        requires
            old(self).wf(),
            old(self).next() < u64::MAX,
        ensures
            final(self).wf(),
            !old(self).has_subscriber(h),
            final(self).has_subscriber(h),
            final(self).subs() == old(self).subs().push((h, Seq::<HubEventView>::empty())),
            final(self).queue_of(h) == Seq::<HubEventView>::empty(),
            h == old(self).next(),
            final(self).next() == old(self).next() + 1,
            forall|o: u64| o != h ==> final(self).has_subscriber(o) == old(self).has_subscriber(o),
            forall|o: u64|
                o != h && old(self).has_subscriber(o) ==> final(self).queue_of(o) == old(self).queue_of(o),
            final(self).cache() == old(self).cache(),
            final(self).cap() == old(self).cap(),
    {
        let ghost pre = *self;
        let h = self.next_handle;
        self.subscribers.push(Subscriber { handle: h, queue: Vec::new() });
        self.next_handle = self.next_handle + 1;
        proof {
            let n = pre.subs().len();
            assert(self.subs() =~~= pre.subs().push((h, Seq::<HubEventView>::empty())));
            assert(self.subs()[n as int].0 == h);
            assert(self.has_subscriber(h));
            if pre.has_subscriber(h) {
                let k = choose|k: int|
                    0 <= k < pre.subs().len() && (#[trigger] pre.subs()[k]).0 == h;
                assert(pre.subs()[k].0 < pre.next());
            }
            let j = choose|j: int|
                0 <= j < self.subs().len() && (#[trigger] self.subs()[j]).0 == h;
            if j < n {
                assert(pre.subs()[j].0 == h && pre.subs()[j].0 < pre.next());
            }
            assert(self.queue_of(h) == Seq::<HubEventView>::empty());
            assert forall|o: u64| o != h implies self.has_subscriber(o) == pre.has_subscriber(
                o,
            ) by {
                if pre.has_subscriber(o) {
                    let k = choose|k: int|
                        0 <= k < pre.subs().len() && (#[trigger] pre.subs()[k]).0 == o;
                    assert(self.subs()[k].0 == o);
                }
                if self.has_subscriber(o) {
                    let k = choose|k: int|
                        0 <= k < self.subs().len() && (#[trigger] self.subs()[k]).0 == o;
                    assert(k != n);
                    assert(pre.subs()[k].0 == o);
                }
            }
            assert forall|o: u64| o != h && pre.has_subscriber(o) implies self.queue_of(o)
                == pre.queue_of(o) by {
                let a = choose|a: int|
                    0 <= a < pre.subs().len() && (#[trigger] pre.subs()[a]).0 == o;
                let b = choose|b: int|
                    0 <= b < self.subs().len() && (#[trigger] self.subs()[b]).0 == o;
                assert(b != n);
                if a != b {
                    assert(pre.subs()[a].0 != pre.subs()[b].0);
                }
            }
            assert forall|a: int, b: int|
                0 <= a < b < self.subs().len() implies (#[trigger] self.subs()[a]).0 != (
            #[trigger] self.subs()[b]).0 by {
                if b == n {
                    assert(pre.subs()[a].0 < pre.next());
                } else {
                    assert(pre.subs()[a].0 != pre.subs()[b].0);
                }
            }
        }
        h
    }

    /// Closes a subscriber: its handle and queue are discarded; every other
    /// subscriber's delivery is unaffected. Closing an unknown handle is a
    /// no-op.
    pub fn unsubscribe(&mut self, handle: u64)
        requires
            old(self).wf(),
        ensures
            final(self).wf(),
            !final(self).has_subscriber(handle),
            forall|o: u64|
                o != handle ==> final(self).has_subscriber(o) == old(self).has_subscriber(o),
            forall|o: u64|
                o != handle && old(self).has_subscriber(o) ==> final(self).queue_of(o) == old(self).queue_of(o),
            final(self).cache() == old(self).cache(),
            final(self).cap() == old(self).cap(),
            final(self).next() == old(self).next(),
    {
        let ghost pre = *self;
        match self.find_subscriber(handle) {
            None => {
            },
            Some(i) => {
                self.subscribers.remove(i);
                proof {
                    assert(self.subs() =~~= pre.subs().remove(i as int));
                    assert forall|a: int, b: int|
                        0 <= a < b < self.subs().len() implies (#[trigger] self.subs()[a]).0 != (
                    #[trigger] self.subs()[b]).0 by {
                        let pa: int = if a < i { a } else { a + 1 };
                        let pb: int = if b < i { b } else { b + 1 };
                        assert(self.subs()[a] == pre.subs()[pa]);
                        assert(self.subs()[b] == pre.subs()[pb]);
                        assert(pre.subs()[pa].0 != pre.subs()[pb].0);
                    }
                    assert forall|k: int|
                        0 <= k < self.subs().len() implies (#[trigger] self.subs()[k]).0
                        != handle by {
                        let pk: int = if k < i { k } else { k + 1 };
                        assert(self.subs()[k] == pre.subs()[pk]);
                        if pk != i {
                            assert(pre.subs()[pk].0 != pre.subs()[i as int].0);
                        }
                    }
                    assert(!self.has_subscriber(handle));
                    assert forall|o: u64| o != handle implies self.has_subscriber(o)
                        == pre.has_subscriber(o) by {
                        if pre.has_subscriber(o) {
                            let k = choose|k: int|
                                0 <= k < pre.subs().len() && (#[trigger] pre.subs()[k]).0 == o;
                            assert(k != i);
                            let nk: int = if k < i { k } else { k - 1 };
                            assert(self.subs()[nk] == pre.subs()[k]);
                        }
                        if self.has_subscriber(o) {
                            let k = choose|k: int|
                                0 <= k < self.subs().len() && (#[trigger] self.subs()[k]).0 == o;
                            let pk: int = if k < i { k } else { k + 1 };
                            assert(pre.subs()[pk].0 == o);
                        }
                    }
                    assert forall|o: u64| o != handle && pre.has_subscriber(o) implies self
                        .queue_of(o) == pre.queue_of(o) by {
                        let a = choose|a: int|
                            0 <= a < pre.subs().len() && (#[trigger] pre.subs()[a]).0 == o;
                        assert(a != i);
                        let na: int = if a < i { a } else { a - 1 };
                        assert(self.subs()[na] == pre.subs()[a]);
                        let b = choose|b: int|
                            0 <= b < self.subs().len() && (#[trigger] self.subs()[b]).0 == o;
                        let pb: int = if b < i { b } else { b + 1 };
                        assert(pre.subs()[pb].0 == o);
                        if a != pb {
                            assert(pre.subs()[a].0 != pre.subs()[pb].0);
                        }
                    }
                }
            },
        }
    }

    /// Publishes an event: every live subscriber's queue is offered an
    /// independent copy, a full queue losing its oldest entry first. A
    /// publish with no subscribers is not an error; no subscriber ever
    /// blocks the publisher.
    pub fn publish(&mut self, event: EpisodeEvent)
        requires
            old(self).wf(),
        ensures
            final(self).wf(),
            final(self).subs() == publish_spec(old(self).subs(), event@, old(self).cap()),
            forall|o: u64| final(self).has_subscriber(o) == old(self).has_subscriber(o),
            forall|o: u64|
                old(self).has_subscriber(o) ==> final(self).queue_of(o) == push_drop(
                    old(self).queue_of(o),
                    event@,
                    old(self).cap(),
                ),
            final(self).cache() == old(self).cache(),
            final(self).cap() == old(self).cap(),
            final(self).next() == old(self).next(),
    {
        let ghost pre = *self;
        let ghost ev = event@;
        let mut i: usize = 0;
        while i < self.subscribers.len()
            invariant
                pre.wf(),
                self.subscribers@.len() == pre.subs().len(),
                i <= pre.subs().len(),
                self.cap() == pre.cap(),
                self.next() == pre.next(),
                self.cache() == pre.cache(),
                ev == event@,
                forall|k: int|
                    0 <= k < i ==> #[trigger] self.subs()[k] == (
                        pre.subs()[k].0,
                        push_drop(pre.subs()[k].1, ev, pre.cap()),
                    ),
                forall|k: int| i <= k < pre.subs().len() ==> #[trigger] self.subs()[k] == pre.subs()[k],
            decreases pre.subs().len() - i,
        {
            let ghost before = self.subs();
            proof {
                assert(before[i as int] == pre.subs()[i as int]);
                assert(before[i as int].1.len() == self.subscribers@[i as int].queue@.len());
                assert(pre.subs()[i as int].1.len() <= pre.cap());
            }
            if self.subscribers[i].queue.len() >= self.capacity {
                self.subscribers[i].queue.remove(0);
                self.subscribers[i].queue.push(event.duplicate());
                proof {
                    assert(self.subs()[i as int].1 =~~= pre.subs()[i as int].1.skip(1).push(ev));
                    assert(self.subs()[i as int] == (
                        pre.subs()[i as int].0,
                        push_drop(pre.subs()[i as int].1, ev, pre.cap()),
                    ));
                }
            } else {
                self.subscribers[i].queue.push(event.duplicate());
                proof {
                    assert(self.subs()[i as int].1 =~~= pre.subs()[i as int].1.push(ev));
                    assert(self.subs()[i as int] == (
                        pre.subs()[i as int].0,
                        push_drop(pre.subs()[i as int].1, ev, pre.cap()),
                    ));
                }
            }
            proof {
                assert forall|k: int|
                    0 <= k < i + 1 implies #[trigger] self.subs()[k] == (
                    pre.subs()[k].0,
                    push_drop(pre.subs()[k].1, ev, pre.cap()),
                ) by {
                    if k < i {
                        assert(self.subs()[k] == before[k]);
                    }
                }
                assert forall|k: int|
                    i + 1 <= k < pre.subs().len() implies #[trigger] self.subs()[k] == pre.subs()[k] by {
                    assert(self.subs()[k] == before[k]);
                }
            }
            i = i + 1;
        }
        proof {
            assert(self.subs() =~~= publish_spec(pre.subs(), ev, pre.cap()));
            assert forall|o: u64| self.has_subscriber(o) == pre.has_subscriber(o) by {
                if pre.has_subscriber(o) {
                    let k = choose|k: int|
                        0 <= k < pre.subs().len() && (#[trigger] pre.subs()[k]).0 == o;
                    assert(self.subs()[k].0 == o);
                }
                if self.has_subscriber(o) {
                    let k = choose|k: int|
                        0 <= k < self.subs().len() && (#[trigger] self.subs()[k]).0 == o;
                    assert(pre.subs()[k].0 == o);
                }
            }
            assert forall|o: u64| pre.has_subscriber(o) implies self.queue_of(o) == push_drop(
                pre.queue_of(o),
                ev,
                pre.cap(),
            ) by {
                let a = choose|a: int|
                    0 <= a < pre.subs().len() && (#[trigger] pre.subs()[a]).0 == o;
                let b = choose|b: int|
                    0 <= b < self.subs().len() && (#[trigger] self.subs()[b]).0 == o;
                if a != b {
                    assert(pre.subs()[a].0 != pre.subs()[b].0);
                }
            }
        }
    }

    /// Takes the oldest pending event of subscriber `handle`, or `None` when
    /// its queue is empty or the handle is unknown.
    pub fn recv(&mut self, handle: u64) -> (r: Option<EpisodeEvent>)
        requires
            old(self).wf(),
        ensures
            final(self).wf(),
            !old(self).has_subscriber(handle) ==> r is None && final(self).subs() == old(self).subs(),
            old(self).has_subscriber(handle) && old(self).queue_of(handle).len() == 0 ==> r is None
                && final(self).subs() == old(self).subs(),
            old(self).has_subscriber(handle) && old(self).queue_of(handle).len() > 0 ==> ({
                &&& r is Some
                &&& r->0@ == old(self).queue_of(handle)[0]
                &&& final(self).queue_of(handle) == old(self).queue_of(handle).skip(1)
                &&& forall|o: u64|
                    final(self).has_subscriber(o) == old(self).has_subscriber(o)
                &&& forall|o: u64|
                    o != handle && old(self).has_subscriber(o) ==> final(self).queue_of(o) == old(self).queue_of(o)
            }),
            final(self).cache() == old(self).cache(),
            final(self).cap() == old(self).cap(),
            final(self).next() == old(self).next(),
    {
        let ghost pre = *self;
        match self.find_subscriber(handle) {
            None => None,
            Some(i) => {
                proof {
                    pre.lemma_queue_at(i as int);
                }
                if self.subscribers[i].queue.len() == 0 {
                    None
                } else {
                    let ev = self.subscribers[i].queue.remove(0);
                    proof {
                        let upd = (pre.subs()[i as int].0, pre.subs()[i as int].1.skip(1));
                        assert(self.subs()[i as int].1 =~~= pre.subs()[i as int].1.skip(1));
                        assert(self.subs() =~~= pre.subs().update(i as int, upd));
                        assert(ev@ == pre.subs()[i as int].1[0]);
                        assert forall|o: u64| self.has_subscriber(o) == pre.has_subscriber(o) by {
                            if pre.has_subscriber(o) {
                                let k = choose|k: int|
                                    0 <= k < pre.subs().len() && (#[trigger] pre.subs()[k]).0 == o;
                                assert(self.subs()[k].0 == o);
                            }
                            if self.has_subscriber(o) {
                                let k = choose|k: int|
                                    0 <= k < self.subs().len() && (#[trigger] self.subs()[k]).0
                                        == o;
                                assert(pre.subs()[k].0 == o);
                            }
                        }
                        assert(self.has_subscriber(handle));
                        let j = choose|j: int|
                            0 <= j < self.subs().len() && (#[trigger] self.subs()[j]).0 == handle;
                        if j != i {
                            assert(pre.subs()[j].0 != pre.subs()[i as int].0);
                        }
                        assert(self.queue_of(handle) == pre.queue_of(handle).skip(1));
                        assert forall|o: u64| o != handle && pre.has_subscriber(o) implies self
                            .queue_of(o) == pre.queue_of(o) by {
                            let a = choose|a: int|
                                0 <= a < pre.subs().len() && (#[trigger] pre.subs()[a]).0 == o;
                            let b = choose|b: int|
                                0 <= b < self.subs().len() && (#[trigger] self.subs()[b]).0 == o;
                            if a != b {
                                assert(pre.subs()[a].0 != pre.subs()[b].0);
                            }
                            assert(a != i);
                        }
                    }
                    Some(ev)
                }
            },
        }
    }

    /// Publishes a state update for an episode and refreshes the side cache,
    /// so a later subscriber can be handed the current state at once.
    pub fn publish_state(&mut self, episode_id: &str, state: Vec<u8>)
        requires
            old(self).wf(),
        ensures
            final(self).wf(),
            final(self).subs() == publish_spec(
                old(self).subs(),
                HubEventView::StateUpdate { episode_id: episode_id@, state: state@ },
                old(self).cap(),
            ),
            final(self).cache().has_state(episode_id@),
            final(self).cache().state_of(episode_id@) == state@,
            forall|o: Seq<char>|
                o != episode_id@ ==> final(self).cache().has_state(o) == old(self).cache().has_state(o),
            forall|o: Seq<char>|
                o != episode_id@ && old(self).cache().has_state(o) ==> final(self).cache().state_of(o) == old(self).cache().state_of(o),
            final(self).cap() == old(self).cap(),
            final(self).next() == old(self).next(),
    {
        let ghost pre = *self;
        self.episode_states.put_state(episode_id, state.as_slice());
        proof {
            assert(self.subs() =~~= pre.subs());
        }
        let ghost mid = *self;
        self.publish(
            EpisodeEvent::StateUpdate { episode_id: episode_id.to_owned(), state },
        );
        proof {
            assert(self.cache() == mid.cache());
        }
    }

    /// The last published state of an episode, from the side cache.
    pub fn get_episode_state(&self, episode_id: &str) -> (r: Option<Vec<u8>>)
        requires
            self.wf(),
        ensures
            r is Some <==> self.cache().has_state(episode_id@),
            r is Some ==> r->0@ == self.cache().state_of(episode_id@),
    {
        self.episode_states.peek_state(episode_id)
    }
}

} // verus!
