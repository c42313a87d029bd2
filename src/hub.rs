use vstd::prelude::*;

verus! {

/// Why a message could not be published.
#[derive(Debug, Clone, Copy, PartialEq, Eq, Structural)]
pub enum BroadcastError {
    /// The channel was shut down.
    Closed,
}

/// What a subscription yields when it is read.
#[derive(Debug)]
pub enum RecvOutcome {
    /// The next message in publication order.
    Message(String),
    /// The subscription fell behind: this many of the oldest messages were
    /// dropped for it, and its cursor now stands at the oldest one retained.
    Lagged(u64),
    /// Nothing new has been published.
    Empty,
    /// The channel was shut down, or the subscription was released.
    Closed,
}

/// The shared fan-out channel: a bounded ring of the latest messages and one
/// read cursor per subscription. A cursor is the sequence number of the next
/// message its subscription will read; sequence numbers count publications
/// from zero.
pub struct ConnectionHub {
    capacity: usize,
    buffer: Vec<String>,
    first_seq: u64,
    cursors: Vec<Option<u64>>,
    closed: bool,
}

impl ConnectionHub {
    /// How many messages the channel retains.
    pub closed spec fn capacity(&self) -> nat {
        self.capacity as nat
    }

    /// The retained messages, oldest first.
    pub closed spec fn items(&self) -> Seq<Seq<char>> {
        self.buffer@.map_values(|s: String| s@)
    }

    /// The sequence number of the oldest retained message.
    pub closed spec fn first_seq(&self) -> nat {
        self.first_seq as nat
    }

    /// How many subscriptions were ever opened; they are numbered from zero.
    pub closed spec fn subscriptions(&self) -> nat {
        self.cursors@.len()
    }

    /// The cursor of subscription `id`, or `None` once it was released.
    pub closed spec fn cursor(&self, id: int) -> Option<nat> {
        match self.cursors@[id] {
            Some(c) => Some(c as nat),
            None => None,
        }
    }

    /// Whether the channel was shut down.
    pub closed spec fn is_closed(&self) -> bool {
        self.closed
    }

    /// The sequence number that the next published message will get.
    pub open spec fn next_seq(&self) -> nat {
        self.first_seq() + self.items().len()
    }

    /// Whether subscription `id` has fallen behind the retained messages.
    pub open spec fn lagged(&self, id: int) -> bool {
        self.cursor(id) is Some && self.cursor(id)->0 < self.first_seq()
    }

    /// The messages that subscription `id` has yet to read, in order: all
    /// that are retained from its cursor on, or all that are retained where
    /// it has fallen behind.
    pub open spec fn pending(&self, id: int) -> Seq<Seq<char>> {
        if self.lagged(id) {
            self.items()
        } else {
            self.items().subrange(
                self.cursor(id)->0 - self.first_seq(),
                self.items().len() as int,
            )
        }
    }

    /// The channel's invariant.
    pub closed spec fn wf(&self) -> bool {
        &&& self.capacity > 0
        &&& self.buffer@.len() <= self.capacity
        &&& self.first_seq + self.buffer@.len() <= u64::MAX
        &&& forall|i: int|
            0 <= i < self.cursors@.len() ==> match #[trigger] self.cursors@[i] {
                Some(c) => c <= self.first_seq + self.buffer@.len(),
                None => true,
            }
    }

    /// Everything but the cursor of subscription `id` is as in `old`.
    pub open spec fn unchanged_but(&self, old: &ConnectionHub, id: int) -> bool {
        &&& self.capacity() == old.capacity()
        &&& self.items() == old.items()
        &&& self.first_seq() == old.first_seq()
        &&& self.is_closed() == old.is_closed()
        &&& self.subscriptions() == old.subscriptions()
        &&& forall|j: int|
            0 <= j < old.subscriptions() && j != id ==> #[trigger] self.cursor(j) == old.cursor(j)
    }

    /// `self` is `old` after `m` was published on the open channel `old`:
    /// `m` is appended, and the oldest message is dropped where `old` was
    /// full; the subscriptions are as they were.
    pub open spec fn published(&self, old: &ConnectionHub, m: Seq<char>) -> bool {
        let full = old.items().len() >= old.capacity();
        &&& self.items() == (if full {
            old.items().push(m).drop_first()
        } else {
            old.items().push(m)
        })
        &&& self.first_seq() == (if full {
            old.first_seq() + 1
        } else {
            old.first_seq()
        })
        &&& self.capacity() == old.capacity()
        &&& self.is_closed() == old.is_closed()
        &&& self.subscriptions() == old.subscriptions()
        &&& forall|j: int|
            0 <= j < old.subscriptions() ==> #[trigger] self.cursor(j) == old.cursor(j)
    }

    /// `self` is `old` after a read of subscription `id` yielded `r`, as
    /// far as the read order goes: a lagged subscription learns of its lag
    /// and goes on from the oldest retained message; a subscription with
    /// messages pending gets the first of them.
    pub open spec fn received(&self, old: &ConnectionHub, id: int, r: RecvOutcome) -> bool {
        &&& old.lagged(id) ==> r is Lagged && !self.lagged(id) && self.pending(id) == old.pending(id)
        &&& old.cursor(id) is Some && !old.lagged(id) && old.pending(id).len() > 0 ==> r is Message
            && r->Message_0@ == old.pending(id)[0] && self.pending(id) == old.pending(id).drop_first()
            && self.cursor(id) is Some && !self.lagged(id)
    }

    /// A channel that retains the latest `capacity` messages, with no
    /// subscription yet.
    pub fn new(capacity: usize) -> (r: ConnectionHub)
        requires
            capacity > 0,
        ensures
            r.wf(),
            r.capacity() == capacity,
            r.items().len() == 0,
            r.first_seq() == 0,
            r.subscriptions() == 0,
            !r.is_closed(),
    {
        let r = ConnectionHub {
            capacity,
            buffer: Vec::new(),
            first_seq: 0,
            cursors: Vec::new(),
            closed: false,
        };
        assert(r.items() =~= Seq::<Seq<char>>::empty());
        r
    }

    /// How many subscriptions were ever opened.
    pub fn subscription_count(&self) -> (n: usize)
        ensures
            n == self.subscriptions(),
    {
        self.cursors.len()
    }

    /// The sequence number that the next published message will get.
    pub fn next_sequence(&self) -> (n: u64)
        requires
            self.wf(),
        ensures
            n == self.next_seq(),
    {
        self.first_seq + self.buffer.len() as u64
    }

    /// Opens a subscription; it will read every message published from now
    /// on.
    pub fn open(&mut self) -> (id: usize)
        requires
            old(self).wf(),
            old(self).subscriptions() < usize::MAX,
        ensures
            final(self).wf(),
            id == old(self).subscriptions(),
            final(self).subscriptions() == old(self).subscriptions() + 1,
            final(self).cursor(id as int) == Some(old(self).next_seq()),
            final(self).pending(id as int).len() == 0,
            final(self).capacity() == old(self).capacity(),
            final(self).items() == old(self).items(),
            final(self).first_seq() == old(self).first_seq(),
            final(self).is_closed() == old(self).is_closed(),
            forall|j: int|
                0 <= j < old(self).subscriptions() ==> #[trigger] final(self).cursor(j) == old(
                    self,
                ).cursor(j),
    {
        let id = self.cursors.len();
        let next = self.first_seq + self.buffer.len() as u64;
        self.cursors.push(Some(next));
        assert forall|j: int| 0 <= j < old(self).subscriptions() implies #[trigger] self.cursor(j)
            == old(self).cursor(j) by {
            assert(self.cursors@[j] == old(self).cursors@[j]);
        }
        assert forall|i: int| 0 <= i < self.cursors@.len() implies match #[trigger] self.cursors@[i] {
            Some(c) => c <= self.first_seq + self.buffer@.len(),
            None => true,
        } by {
            if i < id {
                assert(self.cursors@[i] == old(self).cursors@[i]);
            }
        }
        id
    }

    /// Appends `msg` for every subscription. Where the channel is full the
    /// oldest message is dropped. Fails only once the channel is shut down;
    /// with no subscription the message is simply retained for nobody.
    pub fn publish(&mut self, msg: String) -> (r: Result<(), BroadcastError>)
        requires
            old(self).wf(),
            old(self).next_seq() < u64::MAX,
        ensures
            final(self).wf(),
            old(self).is_closed() ==> r == Err::<(), BroadcastError>(BroadcastError::Closed)
                && final(self).items() == old(self).items() && final(self).first_seq() == old(
                self,
            ).first_seq(),
            !old(self).is_closed() ==> r is Ok && final(self).published(old(self), msg@),
            final(self).next_seq() == (if old(self).is_closed() {
                old(self).next_seq()
            } else {
                old(self).next_seq() + 1
            }),
            final(self).capacity() == old(self).capacity(),
            final(self).is_closed() == old(self).is_closed(),
            final(self).subscriptions() == old(self).subscriptions(),
            forall|j: int|
                0 <= j < old(self).subscriptions() ==> #[trigger] final(self).cursor(j) == old(
                    self,
                ).cursor(j),
    {
        if self.closed {
            return Err(BroadcastError::Closed);
        }
        let ghost old_self = *self;
        let ghost old_items = self.items();
        self.buffer.push(msg);
        assert(self.items() =~= old_items.push(msg@));
        if self.buffer.len() > self.capacity {
            self.buffer.remove(0);
            self.first_seq = self.first_seq + 1;
            assert(self.items() =~= old_items.push(msg@).drop_first());
        }
        assert forall|i: int| 0 <= i < self.cursors@.len() implies match #[trigger] self.cursors@[i] {
            Some(c) => c <= self.first_seq + self.buffer@.len(),
            None => true,
        } by {
            assert(self.cursors@[i] == old(self).cursors@[i]);
        }
        assert forall|j: int| 0 <= j < old_self.subscriptions() implies #[trigger] self.cursor(j)
            == old_self.cursor(j) by {
            assert(self.cursors@[j] == old_self.cursors@[j]);
        }
        Ok(())
    }

    /// Reads subscription `id`: the next message it has not seen, or how
    /// many it lost by falling behind, after which it goes on from the oldest
    /// message retained.
    pub fn recv(&mut self, id: usize) -> (r: RecvOutcome)
        requires
            old(self).wf(),
            id < old(self).subscriptions(),
        ensures
            final(self).wf(),
            final(self).unchanged_but(old(self), id as int),
            match old(self).cursor(id as int) {
                None => r is Closed && final(self).cursor(id as int) is None,
                Some(c) => if c < old(self).first_seq() {
                    r == RecvOutcome::Lagged((old(self).first_seq() - c) as u64)
                        && final(self).cursor(id as int) == Some(old(self).first_seq())
                } else if c < old(self).next_seq() {
                    &&& r is Message
                    &&& r->Message_0@ == old(self).items()[c - old(self).first_seq()]
                    &&& final(self).cursor(id as int) == Some((c + 1) as nat)
                } else {
                    &&& (if old(self).is_closed() {
                        r is Closed
                    } else {
                        r is Empty
                    })
                    &&& final(self).cursor(id as int) == Some(c)
                },
            },
            final(self).received(old(self), id as int, r),
    {
        let ghost old_self = *self;
        match self.cursors[id] {
            None => RecvOutcome::Closed,
            Some(c) => {
                let next = self.first_seq + self.buffer.len() as u64;
                if c < self.first_seq {
                    let skipped = self.first_seq - c;
                    self.cursors[id] = Some(self.first_seq);
                    proof {
                        self.lemma_cursor_update(old_self, id as int);
                        assert(self.pending(id as int) =~= old_self.pending(id as int));
                    }
                    RecvOutcome::Lagged(skipped)
                } else if c < next {
                    let m = self.buffer[(c - self.first_seq) as usize].clone();
                    self.cursors[id] = Some(c + 1);
                    proof {
                        self.lemma_cursor_update(old_self, id as int);
                        assert(self.pending(id as int) =~= old_self.pending(id as int).drop_first());
                    }
                    RecvOutcome::Message(m)
                } else if self.closed {
                    RecvOutcome::Closed
                } else {
                    RecvOutcome::Empty
                }
            },
        }
    }

    /// Releases subscription `id`; no other subscription is touched.
    pub fn unsubscribe(&mut self, id: usize)
        requires
            old(self).wf(),
            id < old(self).subscriptions(),
        ensures
            final(self).wf(),
            final(self).unchanged_but(old(self), id as int),
            final(self).cursor(id as int) is None,
    {
        let ghost old_self = *self;
        self.cursors[id] = None;
        proof { self.lemma_cursor_update(old_self, id as int); }
    }

    /// Shuts the channel down: publishing fails from now on, and each
    /// subscription reads what is left and then `Closed`.
    pub fn close(&mut self)
        requires
            old(self).wf(),
        ensures
            final(self).wf(),
            final(self).is_closed(),
            final(self).capacity() == old(self).capacity(),
            final(self).items() == old(self).items(),
            final(self).first_seq() == old(self).first_seq(),
            final(self).subscriptions() == old(self).subscriptions(),
            forall|j: int|
                0 <= j < old(self).subscriptions() ==> #[trigger] final(self).cursor(j) == old(
                    self,
                ).cursor(j),
    {
        self.closed = true;
    }

    /// After one cursor was set within bounds, the invariant still holds and
    /// every other cursor is as it was.
    proof fn lemma_cursor_update(&self, old: ConnectionHub, id: int)
        requires
            old.wf(),
            0 <= id < old.cursors@.len(),
            self.cursors@ == old.cursors@.update(id, self.cursors@[id]),
            self.capacity == old.capacity,
            self.buffer@ == old.buffer@,
            self.first_seq == old.first_seq,
            self.closed == old.closed,
            match self.cursors@[id] {
                Some(c) => c <= self.first_seq + self.buffer@.len(),
                None => true,
            },
        ensures
            self.wf(),
            self.unchanged_but(&old, id),
    {
        assert forall|i: int| 0 <= i < self.cursors@.len() implies match #[trigger] self.cursors@[i] {
            Some(c) => c <= self.first_seq + self.buffer@.len(),
            None => true,
        } by {
            if i != id {
                assert(self.cursors@[i] == old.cursors@[i]);
            }
        }
        assert forall|j: int| 0 <= j < old.subscriptions() && j != id implies #[trigger] self.cursor(j)
            == old.cursor(j) by {
            assert(self.cursors@[j] == old.cursors@[j]);
        }
    }
}

/// Fan-out: a message published on an open channel joins, at the end, what
/// every live subscription that has not fallen behind has yet to read. So
/// each such subscription reads the messages of one publisher in the order
/// they were published.
pub proof fn lemma_publish_reaches_every_subscriber(
    before: ConnectionHub,
    after: ConnectionHub,
    m: Seq<char>,
    id: int,
)
    requires
        before.wf(),
        after.published(&before, m),
        0 <= id < before.subscriptions(),
        after.cursor(id) is Some,
        !after.lagged(id),
    ensures
        !before.lagged(id),
        after.pending(id) == before.pending(id).push(m),
{
    assert(after.cursor(id) == before.cursor(id));
    let c = before.cursor(id)->0;
    let f = before.first_seq();
    let n = before.items().len() as int;
    if n >= before.capacity() {
        assert(after.pending(id) =~= before.items().push(m).subrange(c - f, n + 1));
    }
    assert(after.pending(id) =~= before.pending(id).push(m));
}

/// Order per publisher: two messages published one after the other join a
/// live subscription that has not fallen behind in that order.
pub proof fn lemma_two_publications_keep_order(
    h0: ConnectionHub,
    h1: ConnectionHub,
    h2: ConnectionHub,
    m1: Seq<char>,
    m2: Seq<char>,
    id: int,
)
    requires
        h0.wf(),
        h1.wf(),
        h1.published(&h0, m1),
        h2.published(&h1, m2),
        0 <= id < h0.subscriptions(),
        h2.cursor(id) is Some,
        !h2.lagged(id),
    ensures
        h2.pending(id) == h0.pending(id).push(m1).push(m2),
{
    lemma_publish_reaches_every_subscriber(h1, h2, m2, id);
    lemma_publish_reaches_every_subscriber(h0, h1, m1, id);
}

} // verus!
