//! Fan-out of events to subscribers. Every subscriber has a `tokio`
//! broadcast channel of its own, so a slow one loses its own oldest events
//! and holds nobody else up.

use vstd::prelude::*;

verus! {

/// Events that a subscriber's queue holds before the oldest are dropped.
pub const SUBSCRIBER_QUEUE: usize = 100;

/// One event as it travels to subscribers: its kind, the name of the
/// service that it is about, which is empty where it is about none, and its
/// JSON payload.
#[derive(Clone, Debug, PartialEq, Eq)]
pub struct SseEvent {
    pub event_type: String,
    pub service_name: String,
    pub data: String,
}

/// The sending end of a `tokio` broadcast channel, `tokio::sync::broadcast::Sender`.
/// Nothing is known of what is inside.
#[verifier::external_type_specification]
#[verifier::external_body]
#[verifier::reject_recursive_types(T)]
pub struct ExBroadcastSender<T>(tokio::sync::broadcast::Sender<T>);

/// The receiving end of a `tokio` broadcast channel, `tokio::sync::broadcast::Receiver`.
/// Nothing is known of what is inside.
#[verifier::external_type_specification]
#[verifier::external_body]
#[verifier::reject_recursive_types(T)]
pub struct ExBroadcastReceiver<T>(tokio::sync::broadcast::Receiver<T>);

/// Hands `event` to `tokio::sync::broadcast::Sender::send`, which queues it
/// for every receiver of the channel and never waits. The call fails exactly
/// when the channel has no receiver left; the result tells whether it
/// succeeded, which depends on the receivers alone.
#[verifier::external_body]
fn offer(sender: &tokio::sync::broadcast::Sender<SseEvent>, event: SseEvent) -> (delivered: bool) {
    sender.send(event).is_ok()
}

/// Opens a channel with `tokio::sync::broadcast::channel`, which panics for
/// a capacity of zero or above half of `usize::MAX`.
#[verifier::external_body]
fn open_channel(capacity: usize) -> (ends: (
    tokio::sync::broadcast::Sender<SseEvent>,
    tokio::sync::broadcast::Receiver<SseEvent>,
))
    requires
        0 < capacity <= usize::MAX / 2,
{
    tokio::sync::broadcast::channel(capacity)
}

/// The number of flags that are set.
pub open spec fn count_of(flags: Seq<bool>) -> nat
    decreases flags.len(),
{
    if flags.len() == 0 {
        0
    } else {
        count_of(flags.drop_first()) + if flags[0] {
            1nat
        } else {
            0nat
        }
    }
}

/// No more flags are set than there are.
pub proof fn lemma_count_of_bound(flags: Seq<bool>)
    ensures
        count_of(flags) <= flags.len(),
    decreases flags.len(),
{
    if flags.len() > 0 {
        lemma_count_of_bound(flags.drop_first());
    }
}

/// The items whose flag is set, in their order.
pub open spec fn kept<T>(items: Seq<T>, flags: Seq<bool>) -> Seq<T>
    decreases items.len(),
{
    if items.len() == 0 || flags.len() == 0 {
        Seq::empty()
    } else if flags[0] {
        seq![items[0]] + kept(items.drop_first(), flags.drop_first())
    } else {
        kept(items.drop_first(), flags.drop_first())
    }
}

/// As many items are kept as flags are set.
pub proof fn lemma_kept_len<T>(items: Seq<T>, flags: Seq<bool>)
    requires
        items.len() == flags.len(),
    ensures
        kept(items, flags).len() == count_of(flags),
    decreases items.len(),
{
    if items.len() > 0 {
        lemma_kept_len(items.drop_first(), flags.drop_first());
    }
}

/// The senders through which events reach the subscribers.
pub struct EventBus {
    senders: Vec<tokio::sync::broadcast::Sender<SseEvent>>,
}

impl EventBus {
    /// The sending ends of the subscribers that the bus serves, in the order
    /// in which they came.
    pub closed spec fn senders(&self) -> Seq<tokio::sync::broadcast::Sender<SseEvent>> {
        self.senders@
    }

    /// The number of subscribers that the bus serves.
    pub open spec fn subscribers(&self) -> nat {
        self.senders().len()
    }

    pub fn new() -> (bus: EventBus)
        ensures
            bus.senders() == Seq::<tokio::sync::broadcast::Sender<SseEvent>>::empty(),
    {
        EventBus { senders: Vec::new() }
    }

    /// The number of subscribers that the bus serves.
    pub fn subscriber_count(&self) -> (n: usize)
        ensures
            n == self.subscribers(),
    {
        self.senders.len()
    }

    /// Takes a subscriber on: events go to `sender` from now on, after all
    /// subscribers that were there.
    pub fn add_event_sender(&mut self, sender: tokio::sync::broadcast::Sender<SseEvent>)
        ensures
            final(self).senders() == old(self).senders().push(sender),
    {
        self.senders.push(sender);
    }

    /// Opens a queue for a new subscriber, puts `head` into it as its first
    /// event and takes the subscriber on, after all that were there. Returns
    /// the end to read from.
    pub fn subscribe(&mut self, head: SseEvent) -> (receiver: tokio::sync::broadcast::Receiver<
        SseEvent,
    >)
        ensures
            final(self).senders().len() == old(self).senders().len() + 1,
            final(self).senders().drop_last() == old(self).senders(),
    {
        let (sender, receiver) = open_channel(SUBSCRIBER_QUEUE);
        let _ = offer(&sender, head);
        let ghost before = self.senders@;
        self.senders.push(sender);
        assert(self.senders@.drop_last() =~= before);
        receiver
    }

    /// Offers `event` to every subscriber, in the order in which they came,
    /// without waiting for any of them. Tells for each whether it took the
    /// event, which it does unless its receiving end is closed.
    pub fn offer_all(&self, event: &SseEvent) -> (taken: Vec<bool>)
        ensures
            taken@.len() == self.subscribers(),
    {
        let mut taken: Vec<bool> = Vec::new();
        let mut i: usize = 0;
        while i < self.senders.len()
            invariant
                i <= self.senders.len(),
                taken@.len() == i,
            decreases self.senders.len() - i,
        {
            let copy = SseEvent {
                event_type: event.event_type.clone(),
                service_name: event.service_name.clone(),
                data: event.data.clone(),
            };
            taken.push(offer(&self.senders[i], copy));
            i += 1;
        }
        taken
    }

    /// Drops the subscribers that did not take an event: `taken` tells for
    /// each subscriber, in order, whether it did. Those that took it stay,
    /// in their order, and no other. Returns their number.
    pub fn drop_closed(&mut self, taken: &Vec<bool>) -> (stay: usize)
        requires
            taken@.len() == old(self).subscribers(),
        ensures
            final(self).senders() == kept(old(self).senders(), taken@),
            stay == count_of(taken@),
            stay == final(self).subscribers(),
    {
        let ghost all = self.senders@;
        let mut i: usize = taken.len();
        assert(all.skip(i as int) =~= Seq::<tokio::sync::broadcast::Sender<SseEvent>>::empty());
        assert(self.senders@ =~= all.take(i as int) + kept(all.skip(i as int), taken@.skip(i as int)));
        while i > 0
            invariant
                i <= taken@.len(),
                taken@.len() == all.len(),
                self.senders@ == all.take(i as int) + kept(
                    all.skip(i as int),
                    taken@.skip(i as int),
                ),
            decreases i,
        {
            i -= 1;
            let ghost before = self.senders@;
            let ghost tail = kept(all.skip(i + 1), taken@.skip(i + 1));
            proof {
                assert(all.skip(i as int).drop_first() =~= all.skip(i + 1));
                assert(taken@.skip(i as int).drop_first() =~= taken@.skip(i + 1));
                assert(all.take(i + 1) =~= all.take(i as int).push(all[i as int]));
            }
            if !taken[i] {
                let _ = self.senders.remove(i);
                assert(self.senders@ =~= all.take(i as int) + tail);
            } else {
                assert(before =~= all.take(i as int) + (seq![all[i as int]] + tail));
            }
        }
        proof {
            assert(all.skip(0) =~= all);
            assert(taken@.skip(0) =~= taken@);
            assert(all.take(0) + kept(all, taken@) =~= kept(all, taken@));
            lemma_kept_len(all, taken@);
        }
        self.senders.len()
    }

    /// Sends `event` to every subscriber without waiting for any of them.
    /// A subscriber whose receiving end is closed is dropped from the bus;
    /// the others stay, in their order. Returns the number of subscribers
    /// that took the event, which are the ones that the bus serves from now on.
    pub fn broadcast_event(&mut self, event: &SseEvent) -> (delivered: usize)
        ensures
            delivered <= old(self).subscribers(),
            delivered == final(self).subscribers(),
            exists|taken: Seq<bool>|
                {
                    &&& taken.len() == old(self).subscribers()
                    &&& final(self).senders() == #[trigger] kept(old(self).senders(), taken)
                    &&& delivered == count_of(taken)
                },
    {
        let taken = self.offer_all(event);
        proof {
            lemma_count_of_bound(taken@);
        }
        let stay = self.drop_closed(&taken);
        assert(final(self).senders() == kept(old(self).senders(), taken@));
        stay
    }
}

impl Default for EventBus {
    /// A bus without subscribers.
    fn default() -> (bus: EventBus)
        ensures
            bus.senders() == Seq::<tokio::sync::broadcast::Sender<SseEvent>>::empty(),
    {
        EventBus::new()
    }
}

} // verus!
