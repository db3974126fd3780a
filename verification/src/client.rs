//! Sizes that the client is built with, and the queues through which the
//! module's events reach their subscribers.

use vstd::prelude::*;
use crate::command::Urc;

verus! {

/// The bytes that the ingestion buffer holds if nothing else is asked for.
pub const INGRESS_BUF_SIZE: usize = 1024;

/// The events that wait for one subscriber if nothing else is asked for.
pub const URC_CAPACITY: usize = 128;

/// The subscribers that can listen for events if nothing else is asked for.
pub const URC_SUBSCRIBERS: usize = 3;

/// What a client is built with.
#[derive(Clone, Copy, Debug, PartialEq, Eq, Structural)]
pub struct Config {
    /// The most bytes of a received line, its carriage return included.
    pub ingress_capacity: usize,
    /// The most events that wait for one subscriber; when one more comes, the
    /// oldest is dropped.
    pub urc_capacity: usize,
    /// The most subscribers.
    pub urc_subscribers: usize,
}

impl Config {
    pub fn new() -> (out: Config)
        ensures
            out == (Config {
                ingress_capacity: INGRESS_BUF_SIZE,
                urc_capacity: URC_CAPACITY,
                urc_subscribers: URC_SUBSCRIBERS,
            }),
    {
        Config {
            ingress_capacity: INGRESS_BUF_SIZE,
            urc_capacity: URC_CAPACITY,
            urc_subscribers: URC_SUBSCRIBERS,
        }
    }
}

/// The queues of events as plain values: one for each subscriber, oldest
/// event first.
pub struct ChannelModel {
    pub queues: Seq<Seq<Urc>>,
    pub capacity: nat,
    pub subscribers: nat,
}

/// A queue after one more event: the event stands last, and the oldest has
/// left where the queue was full. A queue without room for any event stays
/// empty.
pub open spec fn enqueued(queue: Seq<Urc>, capacity: nat, urc: Urc) -> Seq<Urc> {
    if capacity == 0 {
        queue
    } else if queue.len() >= capacity {
        queue.skip(1).push(urc)
    } else {
        queue.push(urc)
    }
}

/// The channel after an event was handed to every subscriber.
pub open spec fn published(channel: ChannelModel, urc: Urc) -> ChannelModel {
    ChannelModel {
        queues: Seq::new(
            channel.queues.len(),
            |i: int| enqueued(channel.queues[i], channel.capacity, urc),
        ),
        ..channel
    }
}

/// No queue holds more than the capacity, and there are no more queues than
/// subscribers allowed.
pub open spec fn bounded(channel: ChannelModel) -> bool {
    &&& channel.queues.len() <= channel.subscribers
    &&& forall|i: int|
        0 <= i < channel.queues.len() ==> (#[trigger] channel.queues[i]).len() <= channel.capacity
}

/// The queues through which events reach their subscribers.
#[derive(Debug)]
pub struct UrcChannel {
    queues: Vec<Vec<Urc>>,
    capacity: usize,
    subscribers: usize,
}

impl View for UrcChannel {
    type V = ChannelModel;

    closed spec fn view(&self) -> ChannelModel {
        ChannelModel {
            queues: Seq::new(self.queues@.len(), |i: int| self.queues@[i]@),
            capacity: self.capacity as nat,
            subscribers: self.subscribers as nat,
        }
    }
}

impl UrcChannel {
    /// A channel without subscribers.
    pub fn new(capacity: usize, subscribers: usize) -> (out: UrcChannel)
        ensures
            out@ == (ChannelModel {
                queues: Seq::empty(),
                capacity: capacity as nat,
                subscribers: subscribers as nat,
            }),
    {
        let out = UrcChannel { queues: Vec::new(), capacity, subscribers };
        assert(out@.queues =~= Seq::empty());
        out
    }

    /// Adds a subscriber with an empty queue and gives its number, or `None`
    /// where the channel has all the subscribers it allows.
    pub fn subscribe(&mut self) -> (out: Option<usize>)
        ensures
            old(self)@.queues.len() < old(self)@.subscribers ==> out == Some(
                old(self)@.queues.len() as usize,
            ) && final(self)@ == (ChannelModel {
                queues: old(self)@.queues.push(Seq::empty()),
                ..old(self)@
            }),
            old(self)@.queues.len() >= old(self)@.subscribers ==> out is None && final(self)@
                == old(self)@,
    {
        if self.queues.len() < self.subscribers {
            let id = self.queues.len();
            self.queues.push(Vec::new());
            assert(self@.queues =~= old(self)@.queues.push(Seq::empty()));
            Some(id)
        } else {
            None
        }
    }

    /// Hands an event to every subscriber. Never waits: a full queue drops
    /// its oldest event.
    pub fn publish(&mut self, urc: Urc)
        ensures
            final(self)@ == published(old(self)@, urc),
    {
        let n = self.queues.len();
        let capacity = self.capacity;
        if capacity == 0 {
            assert(self@.queues =~= published(old(self)@, urc).queues);
            return ;
        }
        let mut i: usize = 0;
        while i < n
            invariant
                0 <= i <= n,
                n == self.queues.len(),
                n == old(self).queues.len(),
                capacity == self.capacity,
                capacity > 0,
                self.capacity == old(self).capacity,
                self.subscribers == old(self).subscribers,
                forall|j: int|
                    0 <= j < i ==> (#[trigger] self.queues@[j])@ == enqueued(
                        old(self).queues@[j]@,
                        capacity as nat,
                        urc,
                    ),
                forall|j: int| i <= j < n ==> (#[trigger] self.queues@[j]) == old(self).queues@[j],
            decreases n - i,
        {
            let queue = &mut self.queues[i];
            if queue.len() >= capacity {
                queue.remove(0);
            }
            queue.push(urc);
            i = i + 1;
        }
        assert(self@.queues =~= published(old(self)@, urc).queues);
    }

    /// Takes the oldest event that waits for `subscriber`, if there is one.
    pub fn next(&mut self, subscriber: usize) -> (out: Option<Urc>)
        ensures
            subscriber < old(self)@.queues.len() && old(self)@.queues[subscriber as int].len() > 0
                ==> out == Some(old(self)@.queues[subscriber as int][0]) && final(self)@ == (
            ChannelModel {
                queues: old(self)@.queues.update(
                    subscriber as int,
                    old(self)@.queues[subscriber as int].skip(1),
                ),
                ..old(self)@
            }),
            !(subscriber < old(self)@.queues.len() && old(self)@.queues[subscriber as int].len()
                > 0) ==> out is None && final(self)@ == old(self)@,
    {
        if subscriber < self.queues.len() && self.queues[subscriber].len() > 0 {
            let queue = &mut self.queues[subscriber];
            let urc = queue.remove(0);
            assert(self@.queues =~= old(self)@.queues.update(
                subscriber as int,
                old(self)@.queues[subscriber as int].skip(1),
            ));
            Some(urc)
        } else {
            assert(self@.queues =~= old(self)@.queues);
            None
        }
    }

    /// The number of events that wait for `subscriber`.
    pub fn waiting(&self, subscriber: usize) -> (out: usize)
        ensures
            out == if subscriber < self@.queues.len() {
                self@.queues[subscriber as int].len()
            } else {
                0
            },
    {
        if subscriber < self.queues.len() {
            self.queues[subscriber].len()
        } else {
            0
        }
    }
}

/// Publishing keeps every queue within the capacity.
pub proof fn lemma_published_bounded(channel: ChannelModel, urc: Urc)
    requires
        bounded(channel),
    ensures
        bounded(published(channel, urc)),
{
    let after = published(channel, urc);
    assert forall|i: int| 0 <= i < after.queues.len() implies (#[trigger] after.queues[i]).len()
        <= after.capacity by {
        assert(channel.queues[i].len() <= channel.capacity);
    }
}

} // verus!
