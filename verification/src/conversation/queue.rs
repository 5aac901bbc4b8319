//! First-in, first-out queues.

use std::collections::VecDeque;
use vstd::prelude::*;

verus! {

/// Items that wait to be taken in the order in which they came.
pub struct AcceptQueue<T> {
    items: VecDeque<T>,
}

impl<T> View for AcceptQueue<T> {
    type V = Seq<T>;

    closed spec fn view(&self) -> Seq<T> {
        self.items@
    }
}

impl<T> AcceptQueue<T> {
    pub fn new() -> (queue: Self)
        ensures
            queue@ == Seq::<T>::empty(),
    {
        AcceptQueue { items: VecDeque::new() }
    }

    pub fn add(&mut self, item: T)
        ensures
            final(self)@ == old(self)@.push(item),
    {
        self.items.push_back(item);
    }

    /// Takes the item that has waited longest.
    pub fn next(&mut self) -> (item: Option<T>)
        ensures
            match item {
                Some(first) => old(self)@.len() > 0 && first == old(self)@[0] && final(self)@
                    == old(self)@.skip(1),
                None => old(self)@.len() == 0 && final(self)@ == old(self)@,
            },
    {
        let item: Option<T> = self.items.pop_front();
        proof {
            if item is Some {
                assert(self@ =~= old(self)@.skip(1));
            }
        }
        item
    }
}

/// The datagrams that wait on a channel, at most as many as the queue has room for.
pub struct DatagramQueue {
    datagrams: VecDeque<Vec<u8>>,
    capacity: usize,
}

/// The mathematical counterpart of [`DatagramQueue`].
pub struct DatagramQueueView {
    pub datagrams: Seq<Seq<u8>>,
    pub capacity: nat,
}

impl View for DatagramQueue {
    type V = DatagramQueueView;

    closed spec fn view(&self) -> DatagramQueueView {
        DatagramQueueView {
            datagrams: self.datagrams@.map_values(|datagram: Vec<u8>| datagram@),
            capacity: self.capacity as nat,
        }
    }
}

impl DatagramQueueView {
    pub open spec fn empty(capacity: nat) -> DatagramQueueView {
        DatagramQueueView { datagrams: Seq::empty(), capacity }
    }

    /// The queue never holds more than it has room for.
    pub open spec fn wf(self) -> bool {
        self.datagrams.len() <= self.capacity
    }

    pub open spec fn has_room(self) -> bool {
        self.datagrams.len() < self.capacity
    }

    /// The queue with a datagram added, where there is room for it.
    pub open spec fn added(self, datagram: Seq<u8>) -> DatagramQueueView {
        if self.has_room() {
            DatagramQueueView { datagrams: self.datagrams.push(datagram), ..self }
        } else {
            self
        }
    }

    /// The queue without the datagram that has waited longest.
    pub open spec fn advanced(self) -> DatagramQueueView {
        DatagramQueueView { datagrams: self.datagrams.skip(1), ..self }
    }
}

impl DatagramQueue {
    #[verifier::type_invariant]
    closed spec fn within_capacity(self) -> bool {
        self.datagrams@.len() <= self.capacity
    }

    /// An empty queue with room for `capacity` datagrams.
    pub fn new(capacity: usize) -> (queue: Self)
        ensures
            queue@ == DatagramQueueView::empty(capacity as nat),
            queue@.wf(),
    {
        let queue = DatagramQueue { datagrams: VecDeque::new(), capacity };
        proof {
            assert(queue@.datagrams =~= Seq::<Seq<u8>>::empty());
        }
        queue
    }

    /// Whether another datagram can be added.
    pub fn has_room(&self) -> (room: bool)
        ensures
            room == self@.has_room(),
            self@.wf(),
    {
        proof {
            use_type_invariant(self);
        }
        self.datagrams.len() < self.capacity
    }

    /// Adds a datagram, or drops it where there is no room.
    pub fn add(&mut self, datagram: Vec<u8>) -> (added: bool)
        ensures
            added == old(self)@.has_room(),
            final(self)@ == old(self)@.added(datagram@),
            final(self)@.wf(),
    {
        proof {
            use_type_invariant(&*self);
        }
        if self.datagrams.len() >= self.capacity {
            return false;
        }
        let mut datagrams: VecDeque<Vec<u8>> = VecDeque::new();
        std::mem::swap(&mut datagrams, &mut self.datagrams);
        datagrams.push_back(datagram);
        self.datagrams = datagrams;
        proof {
            assert(self@.datagrams =~= old(self)@.datagrams.push(datagram@));
        }
        true
    }

    /// Takes the datagram that has waited longest.
    pub fn next(&mut self) -> (datagram: Option<Vec<u8>>)
        ensures
            match datagram {
                Some(first) => old(self)@.datagrams.len() > 0 && first@ == old(self)@.datagrams[0]
                    && final(self)@ == old(self)@.advanced(),
                None => old(self)@.datagrams.len() == 0 && final(self)@ == old(self)@,
            },
            final(self)@.wf(),
    {
        proof {
            use_type_invariant(&*self);
        }
        let mut datagrams: VecDeque<Vec<u8>> = VecDeque::new();
        std::mem::swap(&mut datagrams, &mut self.datagrams);
        let first: Option<Vec<u8>> = datagrams.pop_front();
        self.datagrams = datagrams;
        proof {
            if first is Some {
                assert(self@.datagrams =~= old(self)@.datagrams.skip(1));
            }
        }
        first
    }
}

/// Datagrams leave in the order in which they came: adding behind a datagram that waits does not
/// change which one is taken next.
pub proof fn datagrams_keep_their_order(queue: DatagramQueueView, datagram: Seq<u8>)
    requires
        queue.wf(),
        queue.datagrams.len() > 0,
    ensures
        queue.added(datagram).datagrams[0] == queue.datagrams[0],
        queue.has_room() ==> queue.added(datagram).advanced() == queue.advanced().added(datagram),
        queue.added(datagram).wf(),
        queue.advanced().wf(),
        queue.advanced().has_room(),
{
    if queue.has_room() {
        assert(queue.added(datagram).advanced().datagrams =~= queue.advanced().added(
            datagram,
        ).datagrams);
    }
}

/// A datagram is kept, behind those that came before it, exactly where there is room, and a queue
/// that gave out its last datagram is empty again.
pub proof fn datagram_is_kept_where_there_is_room(queue: DatagramQueueView, datagram: Seq<u8>)
    ensures
        queue.datagrams.len() < queue.capacity ==> queue.added(datagram).datagrams
            == queue.datagrams.push(datagram),
        queue.datagrams.len() >= queue.capacity ==> queue.added(datagram) == queue,
        queue.added(datagram).capacity == queue.capacity,
        queue.advanced().capacity == queue.capacity,
        queue.has_room() <==> queue.datagrams.len() < queue.capacity,
        queue.datagrams.len() == 0 && queue.capacity > 0 ==> queue.added(
            datagram,
        ).datagrams[0] == datagram && queue.added(datagram).advanced().datagrams.len() == 0,
{
}

} // verus!
