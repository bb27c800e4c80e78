//! The broadcast hub: the registry of connected peers, keyed by address,
//! each with the queue of messages waiting to be sent to it.
use vstd::prelude::*;
use crate::message::{UserMessage, UserMessageView};
use crate::text::same_text;

verus! {

/// How many messages may wait for one peer. A message published while a
/// peer's queue is full is dropped for that peer.
pub const QUEUE_CAPACITY: usize = 1024;

struct Peer {
    addr: String,
    outbox: Vec<UserMessage>,
}

/// One registry entry: a peer's address and the messages waiting for it,
/// oldest first.
pub ghost struct PeerView {
    pub addr: Seq<char>,
    pub outbox: Seq<UserMessageView>,
}

impl View for Peer {
    type V = PeerView;

    closed spec fn view(&self) -> PeerView {
        PeerView { addr: self.addr@, outbox: self.outbox@.map_values(|m: UserMessage| m@) }
    }
}

/// The registry of live connections and their pending messages.
pub struct Hub {
    peers: Vec<Peer>,
}

/// Whether `addr` has an entry in `h`.
pub open spec fn registered(h: Seq<PeerView>, addr: Seq<char>) -> bool {
    exists|i: int| 0 <= i < h.len() && #[trigger] h[i].addr == addr
}

/// At most one entry per address, and no queue over capacity.
pub open spec fn hub_wf(h: Seq<PeerView>) -> bool {
    &&& forall|i: int, j: int| 0 <= i < h.len() && 0 <= j < h.len() && i != j ==> #[trigger] h[i].addr != #[trigger] h[j].addr
    &&& forall|i: int| 0 <= i < h.len() ==> #[trigger] h[i].outbox.len() <= QUEUE_CAPACITY
}

/// One peer's entry after `m` was published by `origin`: the message joins
/// the queue of every peer but the origin, unless that queue is full.
pub open spec fn deliver(p: PeerView, origin: Seq<char>, m: UserMessageView) -> PeerView {
    if p.addr == origin || p.outbox.len() >= QUEUE_CAPACITY {
        p
    } else {
        PeerView { addr: p.addr, outbox: p.outbox.push(m) }
    }
}

/// The registry after `m` was published by `origin`.
pub open spec fn published(h: Seq<PeerView>, origin: Seq<char>, m: UserMessageView) -> Seq<PeerView> {
    h.map_values(|p: PeerView| deliver(p, origin, m))
}

/// How many peers other than `origin` had no room for a new message.
pub open spec fn count_full(h: Seq<PeerView>, origin: Seq<char>) -> nat
    decreases h.len(),
{
    if h.len() == 0 {
        0
    } else {
        count_full(h.drop_last(), origin) + if h.last().addr != origin && h.last().outbox.len()
            >= QUEUE_CAPACITY {
            1nat
        } else {
            0nat
        }
    }
}

proof fn lemma_count_full_bound(h: Seq<PeerView>, origin: Seq<char>)
    ensures
        count_full(h, origin) <= h.len(),
    decreases h.len(),
{
    if h.len() > 0 {
        lemma_count_full_bound(h.drop_last(), origin);
    }
}

/// The position of the entry for `addr`, when there is one.
pub open spec fn index_of(h: Seq<PeerView>, addr: Seq<char>) -> int {
    choose|i: int| 0 <= i < h.len() && h[i].addr == addr
}

/// The messages waiting for `addr`; none when it is not registered.
pub open spec fn pending(h: Seq<PeerView>, addr: Seq<char>) -> Seq<UserMessageView> {
    if registered(h, addr) {
        h[index_of(h, addr)].outbox
    } else {
        Seq::empty()
    }
}

/// In a well-formed registry, the entry found for `addr` is the one at `i`.
pub proof fn lemma_index_of(h: Seq<PeerView>, addr: Seq<char>, i: int)
    requires
        hub_wf(h),
        0 <= i < h.len(),
        h[i].addr == addr,
    ensures
        registered(h, addr),
        index_of(h, addr) == i,
        pending(h, addr) == h[i].outbox,
{
    assert(registered(h, addr));
}

proof fn lemma_published_wf(h: Seq<PeerView>, origin: Seq<char>, m: UserMessageView)
    requires
        hub_wf(h),
    ensures
        hub_wf(published(h, origin, m)),
        published(h, origin, m).len() == h.len(),
        forall|i: int| 0 <= i < h.len() ==> #[trigger] published(h, origin, m)[i].addr == h[i].addr,
        forall|a: Seq<char>| registered(published(h, origin, m), a) == #[trigger] registered(h, a),
{
    let p = published(h, origin, m);
    assert forall|a: Seq<char>| registered(p, a) == #[trigger] registered(h, a) by {
        if registered(h, a) {
            let i = choose|i: int| 0 <= i < h.len() && h[i].addr == a;
            assert(p[i].addr == a);
        }
        if registered(p, a) {
            let i = choose|i: int| 0 <= i < p.len() && p[i].addr == a;
            assert(h[i].addr == a);
        }
    }
}

/// No echo: publishing a message never adds it to the queue of the peer that
/// published it.
pub proof fn lemma_no_echo(h: Seq<PeerView>, origin: Seq<char>, m: UserMessageView)
    requires
        hub_wf(h),
    ensures
        pending(published(h, origin, m), origin) == pending(h, origin),
{
    lemma_published_wf(h, origin, m);
    if registered(h, origin) {
        let i = index_of(h, origin);
        lemma_index_of(h, origin, i);
        lemma_index_of(published(h, origin, m), origin, i);
    }
}

/// Fan-out: every registered peer other than the publisher whose queue has
/// room receives the published message exactly once, after what was
/// already waiting for it.
pub proof fn lemma_fan_out(h: Seq<PeerView>, origin: Seq<char>, m: UserMessageView, peer: Seq<char>)
    requires
        hub_wf(h),
        registered(h, peer),
        peer != origin,
        pending(h, peer).len() < QUEUE_CAPACITY,
    ensures
        registered(published(h, origin, m), peer),
        pending(published(h, origin, m), peer) == pending(h, peer).push(m),
{
    lemma_published_wf(h, origin, m);
    let i = index_of(h, peer);
    lemma_index_of(h, peer, i);
    lemma_index_of(published(h, origin, m), peer, i);
}

/// Order per source: two messages published by the same peer reach every
/// other peer with room for both in the order they were published.
pub proof fn lemma_fifo_per_source(
    h: Seq<PeerView>,
    origin: Seq<char>,
    m1: UserMessageView,
    m2: UserMessageView,
    peer: Seq<char>,
)
    requires
        hub_wf(h),
        registered(h, peer),
        peer != origin,
        pending(h, peer).len() + 2 <= QUEUE_CAPACITY,
    ensures
        pending(published(published(h, origin, m1), origin, m2), peer) == pending(h, peer).push(m1).push(
            m2,
        ),
{
    lemma_fan_out(h, origin, m1, peer);
    lemma_published_wf(h, origin, m1);
    lemma_fan_out(published(h, origin, m1), origin, m2, peer);
}

/// Disconnection cleanup: once a peer's entry is removed it is no longer
/// registered, and no message published afterwards waits for it.
pub proof fn lemma_removed_gets_nothing(
    h: Seq<PeerView>,
    addr: Seq<char>,
    origin: Seq<char>,
    m: UserMessageView,
)
    requires
        hub_wf(h),
        registered(h, addr),
    ensures
        !registered(h.remove(index_of(h, addr)), addr),
        pending(published(h.remove(index_of(h, addr)), origin, m), addr) == Seq::<UserMessageView>::empty(),
{
    let i = index_of(h, addr);
    lemma_index_of(h, addr, i);
    let r = h.remove(i);
    assert forall|j: int| 0 <= j < r.len() implies #[trigger] r[j].addr != addr by {
        if j < i {
            assert(r[j] == h[j]);
        } else {
            assert(r[j] == h[j + 1]);
        }
    }
    assert(hub_wf(r)) by {
        assert forall|a: int, b: int| 0 <= a < r.len() && 0 <= b < r.len() && a != b implies #[trigger] r[a].addr != #[trigger] r[b].addr by {
            let a2 = if a < i { a } else { a + 1 };
            let b2 = if b < i { b } else { b + 1 };
            assert(r[a] == h[a2]);
            assert(r[b] == h[b2]);
        }
        assert forall|a: int| 0 <= a < r.len() implies #[trigger] r[a].outbox.len() <= QUEUE_CAPACITY by {
            let a2 = if a < i { a } else { a + 1 };
            assert(r[a] == h[a2]);
        }
    }
    lemma_published_wf(r, origin, m);
}

impl View for Hub {
    type V = Seq<PeerView>;

    closed spec fn view(&self) -> Seq<PeerView> {
        self.peers@.map_values(|p: Peer| p@)
    }
}

impl Hub {
    /// Every `Hub` is well formed: `new` makes one and each method keeps it
    /// so, and the fields are private.
    pub open spec fn wf(&self) -> bool {
        hub_wf(self@)
    }

    /// An empty registry.
    pub fn new() -> (r: Hub)
        ensures
            r@ == Seq::<PeerView>::empty(),
            r.wf(),
    {
        let r = Hub { peers: Vec::new() };
        assert(r@ =~= Seq::<PeerView>::empty());
        r
    }

    /// The number of registered peers.
    pub fn len(&self) -> (r: usize)
        ensures
            r == self@.len(),
    {
        self.peers.len()
    }

    fn find(&self, addr: &str) -> (r: Option<usize>)
        ensures
            r matches Some(i) ==> i < self@.len() && self@[i as int].addr == addr@,
            r is None ==> !registered(self@, addr@),
    {
        let mut i: usize = 0;
        while i < self.peers.len()
            invariant
                i <= self.peers@.len(),
                forall|j: int| 0 <= j < i ==> self@[j].addr != addr@,
            decreases self.peers@.len() - i,
        {
            if same_text(self.peers[i].addr.as_str(), addr) {
                return Some(i);
            }
            i = i + 1;
        }
        None
    }

    /// Adds a peer with an empty queue. An address that is already
    /// registered is refused: the result is then `false` and nothing changes.
    pub fn register(&mut self, addr: String) -> (r: bool)
        requires
            old(self).wf(),
        ensures
            final(self).wf(),
            r == !registered(old(self)@, addr@),
            r ==> final(self)@ == old(self)@.push(PeerView { addr: addr@, outbox: Seq::empty() }),
            !r ==> final(self)@ == old(self)@,
    {
        match self.find(addr.as_str()) {
            Some(i) => {
                proof { lemma_index_of(self@, addr@, i as int); }
                false
            },
            None => {
                let ghost before = self@;
                let p = Peer { addr, outbox: Vec::new() };
                assert(p@.outbox =~= Seq::<UserMessageView>::empty());
                self.peers.push(p);
                assert(self@ =~= before.push(PeerView { addr: p@.addr, outbox: Seq::empty() }));
                true
            },
        }
    }

    /// Removes the entry for `addr`, with whatever was still waiting for it.
    /// The result says whether there was one.
    pub fn unregister(&mut self, addr: &str) -> (r: bool)
        requires
            old(self).wf(),
        ensures
            final(self).wf(),
            r == registered(old(self)@, addr@),
            r ==> final(self)@ == old(self)@.remove(index_of(old(self)@, addr@)),
            !r ==> final(self)@ == old(self)@,
            !registered(final(self)@, addr@),
    {
        match self.find(addr) {
            Some(i) => {
                let ghost before = self@;
                proof { lemma_index_of(before, addr@, i as int); }
                self.peers.remove(i);
                assert(self@ =~= before.remove(i as int));
                assert forall|j: int| 0 <= j < self@.len() implies #[trigger] self@[j].addr != addr@ by {
                    if j < i {
                        assert(self@[j] == before[j]);
                    } else {
                        assert(self@[j] == before[j + 1]);
                    }
                }
                true
            },
            None => false,
        }
    }

    /// Hands `m`, published by the peer at `origin`, to every other peer:
    /// it joins each of their queues that has room (see `published`). The
    /// origin's own queue is left as it was. The result is how many peers
    /// missed the message because their queue was full.
    pub fn publish(&mut self, origin: &str, m: &UserMessage) -> (dropped: usize)
        requires
            old(self).wf(),
        ensures
            final(self).wf(),
            final(self)@ == published(old(self)@, origin@, m@),
            dropped == count_full(old(self)@, origin@),
    {
        let ghost before = self@;
        let mut dropped: usize = 0;
        let mut i: usize = 0;
        while i < self.peers.len()
            invariant
                i <= self@.len(),
                self@.len() == before.len(),
                hub_wf(before),
                forall|j: int| 0 <= j < i ==> #[trigger] self@[j] == deliver(before[j], origin@, m@),
                forall|j: int| i <= j < self@.len() ==> #[trigger] self@[j] == before[j],
                dropped == count_full(before.subrange(0, i as int), origin@),
            decreases self@.len() - i,
        {
            proof {
                assert(before.subrange(0, i + 1).drop_last() =~= before.subrange(0, i as int));
                lemma_count_full_bound(before.subrange(0, i as int), origin@);
            }
            let ghost cur = self@;
            if !same_text(self.peers[i].addr.as_str(), origin) {
                if self.peers[i].outbox.len() < QUEUE_CAPACITY {
                    let c = m.copy();
                    self.peers[i].outbox.push(c);
                    assert(self@[i as int].outbox =~= cur[i as int].outbox.push(m@));
                    assert(self@[i as int] =~= deliver(before[i as int], origin@, m@));
                } else {
                    dropped = dropped + 1;
                }
            }
            assert(forall|j: int| 0 <= j < self@.len() && j != i ==> self@[j] == cur[j]);
            assert(self@[i as int] == deliver(before[i as int], origin@, m@));
            assert forall|j: int| 0 <= j <= i implies #[trigger] self@[j] == deliver(before[j], origin@, m@) by {
                if j < i {
                    assert(cur[j] == deliver(before[j], origin@, m@));
                }
            }
            assert forall|j: int| i < j < self@.len() implies #[trigger] self@[j] == before[j] by {
                assert(cur[j] == before[j]);
            }
            i = i + 1;
        }
        assert(before.subrange(0, before.len() as int) =~= before);
        assert(self@ =~= published(before, origin@, m@));
        proof {
            assert forall|a: int, b: int| 0 <= a < self@.len() && 0 <= b < self@.len() && a != b implies #[trigger] self@[a].addr != #[trigger] self@[b].addr by {
                assert(self@[a].addr == before[a].addr);
                assert(self@[b].addr == before[b].addr);
            }
        }
        dropped
    }

    /// Takes the oldest message waiting for `addr`, if any.
    pub fn next_for(&mut self, addr: &str) -> (r: Option<UserMessage>)
        requires
            old(self).wf(),
        ensures
            final(self).wf(),
            pending(old(self)@, addr@).len() == 0 ==> r is None && final(self)@ == old(self)@,
            pending(old(self)@, addr@).len() > 0 ==> (r matches Some(m) && m@ == pending(old(self)@, addr@)[0]),
            pending(old(self)@, addr@).len() > 0 ==> final(self)@ == old(self)@.update(
                index_of(old(self)@, addr@),
                PeerView { addr: addr@, outbox: pending(old(self)@, addr@).drop_first() },
            ),
    {
        match self.find(addr) {
            None => None,
            Some(i) => {
                let ghost before = self@;
                proof { lemma_index_of(before, addr@, i as int); }
                if self.peers[i].outbox.len() == 0 {
                    return None;
                }
                let m = self.peers[i].outbox.remove(0);
                assert(self@[i as int].outbox =~= before[i as int].outbox.drop_first());
                assert(self@ =~= before.update(i as int, PeerView { addr: addr@, outbox: before[i as int].outbox.drop_first() }));
                Some(m)
            },
        }
    }

    /// Whether a peer with address `addr` is registered.
    pub fn is_registered(&self, addr: &str) -> (r: bool)
        ensures
            r == registered(self@, addr@),
    {
        self.find(addr).is_some()
    }
}

} // verus!
