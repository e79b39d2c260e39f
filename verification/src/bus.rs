//! The broadcast bus: a fan-out channel with a bounded queue per
//! subscriber.
//!
//! Publishing appends an item to the shared log and never blocks or
//! fails, whatever the number of subscribers.  Each subscription reads
//! the log at its own pace through a cursor.  A subscriber that falls
//! more than the bus capacity behind has its oldest unread items dropped:
//! the next receive reports `Lagged` (how many were missed) and resumes
//! at the oldest retained item, so a slow consumer never blocks a
//! publisher or another subscription.

use vstd::prelude::*;

use crate::traits::Duplicable;

verus! {

/// The outcome of one receive on a subscription.
#[derive(Debug)]
pub enum BusRecv<T> {
    /// The next item for this subscriber.
    Item(T),
    /// This many items were dropped because the subscriber lagged;
    /// not a termination signal.
    Lagged(usize),
    /// Nothing published yet beyond this subscriber's cursor; a live
    /// bus would make the caller wait here.
    Empty,
    /// The bus was torn down; a termination signal.
    Closed,
}

/// One connection's registered inbound queue on the bus: a cursor into
/// the bus log.
pub struct Subscription {
    pos: usize,
}

impl Subscription {
    /// The index into the bus log of the next item this subscriber reads.
    pub closed spec fn pos(&self) -> nat {
        self.pos as nat
    }
}

/// The broadcast bus.  The log of all published items is kept abstract
/// as `log()`; a real deployment retains only the last `cap()` of them,
/// which is all a (possibly lagging) subscriber can still reach.
pub struct Bus<T> {
    history: Vec<T>,
    capacity: usize,
    closed: bool,
    subscribers: usize,
}

impl<T: View> Bus<T> {
    /// Every item ever published, in publish order, by abstract value.
    pub closed spec fn log(&self) -> Seq<T::V> {
        self.history@.map_values(|t: T| t@)
    }

    /// The queue capacity of each subscription.
    pub closed spec fn cap(&self) -> nat {
        self.capacity as nat
    }

    /// Whether the bus has been torn down.
    pub closed spec fn is_closed(&self) -> bool {
        self.closed
    }

    /// How many subscriptions are active.
    pub closed spec fn subscriber_count(&self) -> nat {
        self.subscribers as nat
    }

    /// How many subscriptions are active, as a count a caller can read.
    pub fn subscribers(&self) -> (r: usize)
        ensures
            r == self.subscriber_count(),
    {
        self.subscribers
    }

    /// A fresh bus with the given per-subscriber queue capacity.
    pub fn new(capacity: usize) -> (r: Self)
        requires
            capacity >= 1,
        ensures
            r.log() == Seq::<T::V>::empty(),
            r.cap() == capacity,
            !r.is_closed(),
            r.subscriber_count() == 0,
    {
        let r = Bus { history: Vec::new(), capacity, closed: false, subscribers: 0 };
        proof {
            assert(r.log() =~= Seq::<T::V>::empty());
        }
        r
    }

    /// Delivers a copy of `item` to every active subscription's queue,
    /// the publisher's own included.  Never blocks and never fails,
    /// even with zero subscribers.
    pub fn publish(&mut self, item: T)
        ensures
            final (self).log() == old(self).log().push(item@),
            final (self).cap() == old(self).cap(),
            final (self).is_closed() == old(self).is_closed(),
            final (self).subscriber_count() == old(self).subscriber_count(),
    {
        let ghost prev = self.log();
        let ghost itemv = item@;
        self.history.push(item);
        proof {
            assert(self.log() =~= prev.push(itemv));
        }
    }

    /// Registers a new queue.  It sees exactly the items published after
    /// this call; items published before are never visible to it.
    pub fn subscribe(&mut self) -> (s: Subscription)
        requires
            old(self).subscriber_count() < usize::MAX,
        ensures
            s.pos() == final (self).log().len(),
            final (self).log() == old(self).log(),
            final (self).cap() == old(self).cap(),
            final (self).is_closed() == old(self).is_closed(),
            final (self).subscriber_count() == old(self).subscriber_count() + 1,
    {
        self.subscribers = self.subscribers + 1;
        Subscription { pos: self.history.len() }
    }

    /// Releases a subscription.
    pub fn unsubscribe(&mut self, sub: Subscription)
        requires
            old(self).subscriber_count() >= 1,
        ensures
            final (self).log() == old(self).log(),
            final (self).cap() == old(self).cap(),
            final (self).is_closed() == old(self).is_closed(),
            final (self).subscriber_count() == old(self).subscriber_count() - 1,
    {
        let _ = sub;
        self.subscribers = self.subscribers - 1;
    }

    /// Tears the bus down: every relay sees `Closed` once it has drained
    /// what was already published.
    pub fn close(&mut self)
        ensures
            final (self).log() == old(self).log(),
            final (self).cap() == old(self).cap(),
            final (self).is_closed(),
            final (self).subscriber_count() == old(self).subscriber_count(),
    {
        self.closed = true;
    }
}

impl<T: Duplicable> Bus<T> {
    /// One receive on a subscription.
    ///
    /// If the subscriber is no more than `cap()` behind, it gets the next
    /// item of the log, in publish order.  If it fell further behind, it
    /// gets `Lagged` with the number of dropped items and its cursor
    /// jumps to the oldest retained item — the lag is reported once and
    /// is not fatal.  A subscriber that has read everything sees `Closed`
    /// if the bus was torn down, and would otherwise wait (`Empty`).
    pub fn recv(&self, sub: &mut Subscription) -> (r: BusRecv<T>)
        requires
            old(sub).pos() <= self.log().len(),
        ensures
            final (sub).pos() <= self.log().len(),
            old(sub).pos() < self.log().len() && self.log().len() - old(sub).pos()
                <= self.cap() ==> {
                &&& r matches BusRecv::Item(m) && m@ == self.log()[old(sub).pos() as int]
                &&& final (sub).pos() == old(sub).pos() + 1
            },
            self.log().len() - old(sub).pos() > self.cap() ==> {
                &&& r matches BusRecv::Lagged(k) && k == self.log().len() - self.cap() - old(
                    sub,
                ).pos()
                &&& final (sub).pos() == self.log().len() - self.cap()
            },
            old(sub).pos() == self.log().len() ==> {
                &&& final (sub).pos() == old(sub).pos()
                &&& if self.is_closed() {
                    r is Closed
                } else {
                    r is Empty
                }
            },
    {
        let len = self.history.len();
        if sub.pos < len {
            if len - sub.pos <= self.capacity {
                let item = self.history[sub.pos].dup();
                sub.pos = sub.pos + 1;
                BusRecv::Item(item)
            } else {
                let skipped = len - self.capacity - sub.pos;
                sub.pos = len - self.capacity;
                BusRecv::Lagged(skipped)
            }
        } else {
            if self.closed {
                BusRecv::Closed
            } else {
                BusRecv::Empty
            }
        }
    }

    /// Receives until the subscription would wait or the bus reports
    /// closure, and returns the items obtained, in order.
    ///
    /// A subscriber that was not lagging gets every item published since
    /// its cursor, with no loss.  One that was lagging gets exactly the
    /// most recent `cap()` items, not the oldest.
    pub fn collect_available(&self, sub: &mut Subscription) -> (items: Vec<T>)
        requires
            old(sub).pos() <= self.log().len(),
        ensures
            final (sub).pos() == self.log().len(),
            self.log().len() - old(sub).pos() <= self.cap() ==> items@.map_values(|t: T| t@)
                == self.log().skip(old(sub).pos() as int),
            self.log().len() - old(sub).pos() > self.cap() ==> items@.map_values(|t: T| t@)
                == self.log().skip(self.log().len() - self.cap()),
    {
        let ghost lo: int = if self.log().len() - old(sub).pos() <= self.cap() {
            old(sub).pos() as int
        } else {
            self.log().len() - self.cap()
        };
        let mut items: Vec<T> = Vec::new();
        if self.history.len() - sub.pos > self.capacity {
            let r = self.recv(sub);
            proof {
                assert(r is Lagged);
            }
        }
        proof {
            assert(items@.map_values(|t: T| t@) =~= self.log().subrange(lo, sub.pos() as int));
        }
        while sub.pos < self.history.len()
            invariant
                0 <= lo <= sub.pos() <= self.log().len(),
                self.log().len() - sub.pos() <= self.cap(),
                items@.map_values(|t: T| t@) == self.log().subrange(lo, sub.pos() as int),
            decreases self.log().len() - sub.pos(),
        {
            let ghost prev = items@.map_values(|t: T| t@);
            let ghost p = sub.pos() as int;
            proof {
                assert(self.log().len() == self.history@.len());
                assert(prev =~= self.log().subrange(lo, p));
            }
            match self.recv(sub) {
                BusRecv::Item(m) => {
                    proof {
                        assert(m@ == self.log()[p]);
                    }
                    items.push(m);
                    proof {
                        assert(items@.map_values(|t: T| t@) =~= prev.push(m@));
                        let s2 = self.log().subrange(lo, p + 1);
                        assert forall|i: int| 0 <= i < s2.len() implies prev.push(m@)[i]
                            == s2[i] by {
                            assert(s2[i] == self.log()[lo + i]);
                            if i < p - lo {
                                assert(prev[i] == self.log().subrange(lo, p)[i]);
                            }
                        }
                        assert(prev.push(m@) =~= s2);
                    }
                },
                BusRecv::Lagged(_) => {
                    proof {
                        assert(false);
                    }
                },
                BusRecv::Empty => {
                    proof {
                        assert(false);
                    }
                },
                BusRecv::Closed => {
                    proof {
                        assert(false);
                    }
                },
            }
        }
        proof {
            assert(self.log().subrange(lo, self.log().len() as int) =~= self.log().skip(lo));
        }
        items
    }
}

} // verus!
