//! The broadcast hub: a set of subscribers, each with a bounded queue of
//! pending frames. Publishing never waits: a frame meant for a full queue is
//! dropped for that subscriber alone.
use vstd::prelude::*;
use crate::messages::{frame_text, BroadcastLog, WsMessage};

verus! {

/// How many undelivered frames one subscriber's queue holds.
pub const CHANNEL_CAPACITY: usize = 16;

/// The pending frames of one subscriber after a publish of frame `f`: `f` is
/// queued if there is room, and lost otherwise.
pub open spec fn deliver(q: Seq<Seq<char>>, f: Seq<char>) -> Seq<Seq<char>> {
    if q.len() < CHANNEL_CAPACITY {
        q.push(f)
    } else {
        q
    }
}

/// The whole subscriber map after a publish of frame `f`.
pub open spec fn deliver_all(m: Map<u64, Seq<Seq<char>>>, f: Seq<char>) -> Map<
    u64,
    Seq<Seq<char>>,
> {
    Map::new(|id: u64| m.contains_key(id), |id: u64| deliver(m[id], f))
}

/// What a subscriber's outbound side gets when it asks for its next frame.
pub enum Received {
    /// The subscriber is no longer registered: its outbound side stops.
    Gone,
    /// Nothing is pending yet.
    Empty,
    /// The oldest pending frame.
    Frame(WsMessage),
}

struct Subscriber {
    id: u64,
    queue: Vec<String>,
}

spec fn texts(q: Seq<String>) -> Seq<Seq<char>> {
    q.map_values(|s: String| s@)
}

impl Subscriber {
    spec fn pending(&self) -> Seq<Seq<char>> {
        texts(self.queue@)
    }
}

/// The hub. Its view maps each subscribed id to the frames that wait in that
/// subscriber's queue, oldest first.
pub struct Broadcaster {
    subscribers: Vec<Subscriber>,
}

impl Broadcaster {
    spec fn id_at(&self, i: int) -> u64 {
        self.subscribers@[i].id
    }

    spec fn has(&self, id: u64) -> bool {
        exists|i: int| 0 <= i < self.subscribers@.len() && #[trigger] self.id_at(i) == id
    }

    spec fn index_of(&self, id: u64) -> int {
        choose|i: int| 0 <= i < self.subscribers@.len() && #[trigger] self.id_at(i) == id
    }

    /// Ids are unique and no queue holds more than its capacity.
    pub closed spec fn wf(&self) -> bool {
        &&& forall|i: int, j: int|
            0 <= i < self.subscribers@.len() && 0 <= j < self.subscribers@.len() && i != j
                ==> #[trigger] self.id_at(i) != #[trigger] self.id_at(j)
        &&& forall|i: int|
            0 <= i < self.subscribers@.len() ==> (#[trigger] self.subscribers@[i]).queue@.len()
                <= CHANNEL_CAPACITY
    }

    pub closed spec fn view(&self) -> Map<u64, Seq<Seq<char>>> {
        Map::new(
            |id: u64| self.has(id),
            |id: u64| self.subscribers@[self.index_of(id)].pending(),
        )
    }

    proof fn lemma_view_at(&self, i: int)
        requires
            self.wf(),
            0 <= i < self.subscribers@.len(),
        ensures
            self@.contains_key(self.id_at(i)),
            self@[self.id_at(i)] == self.subscribers@[i].pending(),
    {
        let id = self.id_at(i);
        assert(self.has(id));
        let k = self.index_of(id);
        assert(self.id_at(k) == id);
    }

    proof fn lemma_absent(&self, id: u64)
        requires
            forall|i: int| 0 <= i < self.subscribers@.len() ==> #[trigger] self.id_at(i) != id,
        ensures
            !self@.contains_key(id),
    {
    }

    /// Every queue of a well-formed hub is within its capacity.
    pub proof fn lemma_bounded(&self)
        requires
            self.wf(),
        ensures
            forall|id: u64| #[trigger]
                self@.contains_key(id) ==> self@[id].len() <= CHANNEL_CAPACITY,
    {
        assert forall|id: u64| #[trigger] self@.contains_key(id) implies self@[id].len()
            <= CHANNEL_CAPACITY by {
            let k = self.index_of(id);
            self.lemma_view_at(k);
        }
    }

    /// A hub with no subscribers.
    pub fn new() -> (r: Broadcaster)
        ensures
            r.wf(),
            r@ == Map::<u64, Seq<Seq<char>>>::empty(),
    {
        let r = Broadcaster { subscribers: Vec::new() };
        assert(r@ =~= Map::<u64, Seq<Seq<char>>>::empty());
        r
    }

    fn find(&self, id: u64) -> (r: Option<usize>)
        ensures
            match r {
                Some(i) => i < self.subscribers@.len() && self.id_at(i as int) == id,
                None => forall|i: int|
                    0 <= i < self.subscribers@.len() ==> #[trigger] self.id_at(i) != id,
            },
    {
        let mut i: usize = 0;
        while i < self.subscribers.len()
            invariant
                i <= self.subscribers@.len(),
                forall|j: int| 0 <= j < i ==> #[trigger] self.id_at(j) != id,
            decreases self.subscribers@.len() - i,
        {
            if self.subscribers[i].id == id {
                return Some(i);
            }
            i = i + 1;
        }
        None
    }

    /// Registers `id` with an empty queue. An id that is already subscribed
    /// gets a fresh, empty queue in place of its old one.
    pub fn connect(&mut self, id: u64)
        requires
            old(self).wf(),
        ensures
            final(self).wf(),
            final(self)@ == old(self)@.insert(id, Seq::empty()),
    {
        let fresh = Subscriber { id, queue: Vec::new() };
        assert(fresh.pending() =~= Seq::<Seq<char>>::empty());
        match self.find(id) {
            Some(i) => {
                self.subscribers.set(i, fresh);
                proof {
                    let o = *old(self);
                    assert forall|j: int| 0 <= j < self.subscribers@.len() implies #[trigger] self.id_at(j) == o.id_at(j) by {}
                    assert(self.wf());
                    assert forall|k: u64| #[trigger] self@.contains_key(k) <==> o@.insert(id, Seq::empty()).contains_key(k) by {
                        if o@.contains_key(k) {
                            let j = o.index_of(k);
                            assert(self.id_at(j) == k);
                        }
                        if self@.contains_key(k) {
                            let j = self.index_of(k);
                            assert(o.id_at(j) == k);
                        }
                    }
                    assert forall|k: u64| #[trigger] self@.contains_key(k) implies self@[k] == o@.insert(id, Seq::empty())[k] by {
                        let j = self.index_of(k);
                        self.lemma_view_at(j);
                        if j != i {
                            o.lemma_view_at(j);
                        }
                    }
                    assert(self@ =~= o@.insert(id, Seq::empty()));
                }
            },
            None => {
                self.subscribers.push(fresh);
                proof {
                    let o = *old(self);
                    let n = o.subscribers@.len() as int;
                    assert(self.id_at(n) == id);
                    assert forall|j: int| 0 <= j < n implies #[trigger] self.id_at(j) == o.id_at(j) by {}
                    assert(self.wf());
                    assert forall|k: u64| #[trigger] self@.contains_key(k) <==> o@.insert(id, Seq::empty()).contains_key(k) by {
                        if o@.contains_key(k) {
                            let j = o.index_of(k);
                            assert(self.id_at(j) == k);
                        }
                        if self@.contains_key(k) && k != id {
                            let j = self.index_of(k);
                            assert(o.id_at(j) == k);
                        }
                    }
                    assert forall|k: u64| #[trigger] self@.contains_key(k) implies self@[k] == o@.insert(id, Seq::empty())[k] by {
                        let j = self.index_of(k);
                        self.lemma_view_at(j);
                        if j != n {
                            o.lemma_view_at(j);
                        }
                    }
                    assert(self@ =~= o@.insert(id, Seq::empty()));
                }
            },
        }
    }

    /// Removes `id` and its queue. Removing an id that is not subscribed
    /// changes nothing.
    pub fn disconnect(&mut self, id: u64)
        requires
            old(self).wf(),
        ensures
            final(self).wf(),
            final(self)@ == old(self)@.remove(id),
    {
        match self.find(id) {
            Some(i) => {
                let _gone = self.subscribers.remove(i);
                proof {
                    let o = *old(self);
                    assert forall|j: int| 0 <= j < self.subscribers@.len() implies #[trigger] self.id_at(j) == o.id_at(if j < i { j } else { j + 1 }) by {}
                    assert forall|k: u64| #[trigger] self@.contains_key(k) <==> o@.remove(id).contains_key(k) by {
                        if o@.contains_key(k) && k != id {
                            let j = o.index_of(k);
                            assert(j != i);
                            if j < i {
                                assert(self.id_at(j) == k);
                            } else {
                                assert(self.id_at(j - 1) == k);
                            }
                        }
                        if self@.contains_key(k) {
                            let j = self.index_of(k);
                            let m = if j < i { j } else { j + 1 };
                            assert(o.id_at(m) == k);
                        }
                    }
                    assert forall|k: u64| #[trigger] self@.contains_key(k) implies self@[k] == o@.remove(id)[k] by {
                        let j = self.index_of(k);
                        let m = if j < i { j } else { j + 1 };
                        self.lemma_view_at(j);
                        o.lemma_view_at(m);
                    }
                    assert(self@ =~= o@.remove(id));
                }
            },
            None => {
                proof {
                    self.lemma_absent(id);
                    assert(self@ =~= self@.remove(id));
                }
            },
        }
    }

    /// Offers the frame of `msg` to every subscriber. Each queue with room
    /// takes it at its back; a full queue keeps what it had and this frame is
    /// lost for that subscriber. Never waits and never fails.
    pub fn broadcast(&mut self, msg: &BroadcastLog)
        requires
            old(self).wf(),
        ensures
            final(self).wf(),
            final(self)@ == deliver_all(old(self)@, frame_text(msg.message@, msg.is_error)),
    {
        let frame = msg.frame();
        let text = frame.0;
        let ghost f = text@;
        let ghost o = *old(self);
        let n = self.subscribers.len();
        let mut i: usize = 0;
        while i < n
            invariant
                i <= n == self.subscribers@.len() == o.subscribers@.len(),
                o.wf(),
                f == frame_text(msg.message@, msg.is_error),
                text@ == f,
                forall|j: int| 0 <= j < n ==> #[trigger] self.id_at(j) == o.id_at(j),
                forall|j: int| 0 <= j < n ==> (#[trigger] self.subscribers@[j]).queue@.len() <= CHANNEL_CAPACITY,
                forall|j: int| 0 <= j < i ==> #[trigger] self.subscribers@[j].pending() == deliver(o.subscribers@[j].pending(), f),
                forall|j: int| i <= j < n ==> #[trigger] self.subscribers@[j] == o.subscribers@[j],
            decreases n - i,
        {
            let ghost pre = self.subscribers@;
            let ghost ps = *self;
            let mut sub = self.subscribers.remove(i);
            let ghost before = sub.pending();
            if sub.queue.len() < CHANNEL_CAPACITY {
                let copy = text.clone();
                assert(copy@ == f);
                sub.queue.push(copy);
                assert(sub.pending() =~= before.push(f));
            }
            let ghost id = sub.id;
            assert(id == pre[i as int].id);
            self.subscribers.insert(i, sub);
            assert(self.subscribers@ =~= pre.update(i as int, self.subscribers@[i as int]));
            assert(self.id_at(i as int) == o.id_at(i as int));
            assert forall|j: int| 0 <= j < n implies #[trigger] self.id_at(j) == o.id_at(j) by {
                if j != i {
                    assert(ps.id_at(j) == o.id_at(j));
                }
            }
            i = i + 1;
        }
        proof {
            assert(self.wf());
            let target = deliver_all(o@, f);
            assert forall|k: u64| #[trigger] self@.contains_key(k) <==> target.contains_key(k) by {
                if o@.contains_key(k) {
                    let j = o.index_of(k);
                    assert(self.id_at(j) == k);
                }
                if self@.contains_key(k) {
                    let j = self.index_of(k);
                    assert(o.id_at(j) == k);
                }
            }
            assert forall|k: u64| #[trigger] self@.contains_key(k) implies self@[k] == target[k] by {
                let j = self.index_of(k);
                self.lemma_view_at(j);
                o.lemma_view_at(j);
            }
            assert(self@ =~= target);
        }
    }

    /// Hands the oldest pending frame of `id` to its outbound side.
    pub fn receive(&mut self, id: u64) -> (r: Received)
        requires
            old(self).wf(),
        ensures
            final(self).wf(),
            !old(self)@.contains_key(id) ==> r is Gone && final(self)@ == old(self)@,
            old(self)@.contains_key(id) && old(self)@[id].len() == 0 ==> r is Empty && final(self)@
                == old(self)@,
            old(self)@.contains_key(id) && old(self)@[id].len() > 0 ==> r is Frame && r->Frame_0.0@
                == old(self)@[id][0] && final(self)@ == old(self)@.insert(id, old(self)@[id].drop_first()),
    {
        match self.find(id) {
            None => {
                proof {
                    self.lemma_absent(id);
                }
                Received::Gone
            },
            Some(i) => {
                proof {
                    self.lemma_view_at(i as int);
                }
                if self.subscribers[i].queue.len() == 0 {
                    return Received::Empty;
                }
                let ghost o = *old(self);
                let mut sub = self.subscribers.remove(i);
                let ghost before = sub.pending();
                let ghost pre = self.subscribers@;
                let first = sub.queue.remove(0);
                assert(sub.pending() =~= before.drop_first());
                self.subscribers.insert(i, sub);
                assert(self.subscribers@ =~= o.subscribers@.update(i as int, self.subscribers@[i as int]));
                proof {
                    let target = o@.insert(id, before.drop_first());
                    assert forall|j: int| 0 <= j < self.subscribers@.len() implies #[trigger] self.id_at(j) == o.id_at(j) by {}
                    assert(self.wf());
                    assert forall|k: u64| #[trigger] self@.contains_key(k) <==> target.contains_key(k) by {
                        if o@.contains_key(k) {
                            let j = o.index_of(k);
                            assert(self.id_at(j) == k);
                        }
                        if self@.contains_key(k) {
                            let j = self.index_of(k);
                            assert(o.id_at(j) == k);
                        }
                    }
                    assert forall|k: u64| #[trigger] self@.contains_key(k) implies self@[k] == target[k] by {
                        let j = self.index_of(k);
                        self.lemma_view_at(j);
                        o.lemma_view_at(j);
                    }
                    assert(self@ =~= target);
                }
                Received::Frame(WsMessage(first))
            },
        }
    }

    spec fn ids(&self) -> Seq<u64> {
        self.subscribers@.map_values(|s: Subscriber| s.id)
    }

    proof fn lemma_count(&self)
        requires
            self.wf(),
        ensures
            self@.dom().len() == self.subscribers@.len(),
    {
        let ids = self.ids();
        assert(ids.no_duplicates()) by {
            assert forall|i: int, j: int| 0 <= i < ids.len() && 0 <= j < ids.len() && i != j implies ids[i] != ids[j] by {
                assert(self.id_at(i) != self.id_at(j));
            }
        }
        ids.unique_seq_to_set();
        assert forall|k: u64| #[trigger] self@.dom().contains(k) <==> ids.to_set().contains(k) by {
            if self@.contains_key(k) {
                let j = self.index_of(k);
                assert(ids[j] == k);
            }
            if ids.to_set().contains(k) {
                let j = choose|j: int| 0 <= j < ids.len() && ids[j] == k;
                assert(self.id_at(j) == k);
            }
        }
        assert(self@.dom() =~= ids.to_set());
    }

    /// How many subscribers there are.
    pub fn subscriber_count(&self) -> (r: usize)
        requires
            self.wf(),
        ensures
            r == self@.dom().len(),
    {
        proof {
            self.lemma_count();
        }
        self.subscribers.len()
    }

    /// Whether `id` is subscribed.
    pub fn is_subscribed(&self, id: u64) -> (r: bool)
        requires
            self.wf(),
        ensures
            r == self@.contains_key(id),
    {
        match self.find(id) {
            Some(i) => {
                proof {
                    self.lemma_view_at(i as int);
                }
                true
            },
            None => false,
        }
    }
}

/// One membership call on the hub.
pub enum Membership {
    Subscribe(u64),
    Unsubscribe(u64),
}

/// The subscriber map after the calls, made one at a time in order, starting
/// from `m`, as `connect` and `disconnect` state them.
pub open spec fn replay(m: Map<u64, Seq<Seq<char>>>, calls: Seq<Membership>) -> Map<
    u64,
    Seq<Seq<char>>,
>
    decreases calls.len(),
{
    if calls.len() == 0 {
        m
    } else {
        let before = replay(m, calls.drop_last());
        match calls.last() {
            Membership::Subscribe(id) => before.insert(id, Seq::empty()),
            Membership::Unsubscribe(id) => before.remove(id),
        }
    }
}

/// Whether the calls leave `id` subscribed: its last call is a Subscribe.
pub open spec fn ends_subscribed(calls: Seq<Membership>, id: u64) -> bool
    decreases calls.len(),
{
    if calls.len() == 0 {
        false
    } else {
        match calls.last() {
            Membership::Subscribe(k) => k == id || ends_subscribed(calls.drop_last(), id),
            Membership::Unsubscribe(k) => k != id && ends_subscribed(calls.drop_last(), id),
        }
    }
}

/// After any sequence of Subscribe and Unsubscribe calls on an empty hub,
/// exactly the ids whose last call was a Subscribe are subscribed, each with
/// an empty queue; repeated or unmatched Unsubscribe calls count for nothing.
pub proof fn lemma_replay_membership(calls: Seq<Membership>, id: u64)
    ensures
        replay(Map::empty(), calls).contains_key(id) == ends_subscribed(calls, id),
        replay(Map::empty(), calls).contains_key(id) ==> replay(Map::empty(), calls)[id]
            == Seq::<Seq<char>>::empty(),
    decreases calls.len(),
{
    if calls.len() > 0 {
        lemma_replay_membership(calls.drop_last(), id);
    }
}

/// Unsubscribing an id that is not subscribed, whether never subscribed or
/// already removed, changes nothing; removing an id leaves every other
/// subscriber and its queue as it was.
pub proof fn lemma_unsubscribe_isolated(m: Map<u64, Seq<Seq<char>>>, id: u64)
    ensures
        !m.contains_key(id) ==> m.remove(id) == m,
        m.remove(id).remove(id) == m.remove(id),
        forall|k: u64| k != id ==> (#[trigger] m.remove(id).contains_key(k) == m.contains_key(k)),
        forall|k: u64| k != id && m.contains_key(k) ==> #[trigger] m.remove(id)[k] == m[k],
{
    assert(!m.contains_key(id) ==> m.remove(id) =~= m);
    assert(m.remove(id).remove(id) =~= m.remove(id));
}

/// Where no queue is full, a publish delivers the frame exactly once to
/// every subscriber, at the back of its queue, and to no one else.
pub proof fn lemma_publish_with_room(m: Map<u64, Seq<Seq<char>>>, f: Seq<char>)
    requires
        forall|id: u64| #[trigger] m.contains_key(id) ==> m[id].len() < CHANNEL_CAPACITY,
    ensures
        deliver_all(m, f).dom() == m.dom(),
        forall|id: u64| #[trigger] m.contains_key(id) ==> deliver_all(m, f)[id] == m[id].push(f),
{
    assert(deliver_all(m, f).dom() =~= m.dom());
}

/// A publish to a subscriber whose queue is full leaves that queue as it
/// was: the frame is lost for it, and draining the queue later cannot bring
/// it back. The others still get it where they have room.
pub proof fn lemma_publish_full(m: Map<u64, Seq<Seq<char>>>, f: Seq<char>, id: u64)
    requires
        m.contains_key(id),
        m[id].len() == CHANNEL_CAPACITY,
    ensures
        deliver_all(m, f).contains_key(id),
        deliver_all(m, f)[id] == m[id],
        forall|k: u64| #[trigger] m.contains_key(k) && m[k].len() < CHANNEL_CAPACITY ==> deliver_all(m, f)[k] == m[k].push(f),
{
}

/// The subscriber map after publishing the frames `fs` one after another.
pub open spec fn publish_all(m: Map<u64, Seq<Seq<char>>>, fs: Seq<Seq<char>>) -> Map<
    u64,
    Seq<Seq<char>>,
>
    decreases fs.len(),
{
    if fs.len() == 0 {
        m
    } else {
        deliver_all(publish_all(m, fs.drop_last()), fs.last())
    }
}

/// Frames published one after another reach a subscriber with room for them
/// in the order they were published, after what it already had pending.
pub proof fn lemma_publish_order(m: Map<u64, Seq<Seq<char>>>, fs: Seq<Seq<char>>, id: u64)
    requires
        m.contains_key(id),
        m[id].len() + fs.len() <= CHANNEL_CAPACITY,
    ensures
        publish_all(m, fs).contains_key(id),
        publish_all(m, fs)[id] == m[id] + fs,
    decreases fs.len(),
{
    if fs.len() == 0 {
        assert(m[id] + fs =~= m[id]);
    } else {
        lemma_publish_order(m, fs.drop_last(), id);
        assert(m[id] + fs.drop_last() + seq![fs.last()] =~= m[id] + fs);
        assert((m[id] + fs.drop_last()).push(fs.last()) =~= m[id] + fs);
    }
}

} // verus!
