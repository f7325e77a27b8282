//! Typed runtime events: one broadcast channel per event type, made when the type is first
//! published or subscribed to.
use vstd::prelude::*;

use std::any::TypeId;
use tokio::sync::broadcast;

use crate::service::{type_id_eq, RuntimeService};

verus! {

/// `tokio::sync::broadcast::Sender`, the sending half of a broadcast channel.
#[verifier::external_type_specification]
#[verifier::external_body]
#[verifier::reject_recursive_types(T)]
pub struct ExBroadcastSender<T>(broadcast::Sender<T>);

/// `tokio::sync::broadcast::Receiver`, one subscription to a broadcast channel.
#[verifier::external_type_specification]
#[verifier::external_body]
#[verifier::reject_recursive_types(T)]
pub struct ExBroadcastReceiver<T>(broadcast::Receiver<T>);

/// An event that can travel on the bus; its topic names it in error messages.
pub trait RuntimeEvent: Clone + Send + Sync + 'static {
    fn topic() -> &'static str;
}

/// The sending half of one topic's channel, with its event type erased. Verus does not take
/// `Box<dyn Any + Send + Sync>` (a trait object of several traits), so it is opaque here.
#[verifier::external_body]
pub struct TopicChannel {
    sender: Box<dyn std::any::Any + Send + Sync>,
}

/// Opens a broadcast channel for `E` with `broadcast::channel(capacity)` and keeps its
/// sender (the first receiver is dropped). `tokio` panics on a capacity of zero or above
/// `usize::MAX / 2`, which `requires` leaves out.
#[verifier::external_body]
fn open_channel<E: RuntimeEvent>(capacity: usize) -> TopicChannel
    requires
        0 < capacity <= usize::MAX / 2,
{
    let (sender, _receiver) = broadcast::channel::<E>(capacity);
    TopicChannel { sender: Box::new(sender) }
}

/// A clone of the channel's sender, where the channel carries `E` (`downcast_ref`, then
/// `Sender::clone`); which type it carries is not stated.
#[verifier::external_body]
fn channel_sender<E: RuntimeEvent>(channel: &TopicChannel) -> Option<broadcast::Sender<E>> {
    channel.sender.downcast_ref::<broadcast::Sender<E>>().cloned()
}

/// `Sender::receiver_count`: how many receivers are subscribed now (a fact of the moment,
/// so nothing is stated of it).
#[verifier::external_body]
fn receiver_count<E>(sender: &broadcast::Sender<E>) -> usize {
    sender.receiver_count()
}

/// `Sender::send`, with the error's text (`"channel closed"`). As its source shows, it fails
/// exactly when no receiver is subscribed and otherwise returns how many were, so a
/// success counts at least one.
#[verifier::external_body]
fn send_event<E>(sender: &broadcast::Sender<E>, event: E) -> (r: Result<usize, String>)
    ensures
        r matches Ok(n) ==> n >= 1,
{
    sender.send(event).map_err(|err| err.to_string())
}

/// `Sender::subscribe`: a receiver of the values sent from now on. (`tokio` panics when a
/// channel already has its maximum number of receivers, a count that nothing here sees.)
#[verifier::external_body]
fn subscribe_to<E>(sender: &broadcast::Sender<E>) -> broadcast::Receiver<E> {
    sender.subscribe()
}

/// The error for a topic whose channel does not carry the requested type.
pub open spec fn mismatch_message(topic: Seq<char>) -> Seq<char> {
    "runtime event `"@ + topic + "` sender type mismatch"@
}

/// The error for a publication that the channel refused.
pub open spec fn publish_failed_message(topic: Seq<char>, error: Seq<char>) -> Seq<char> {
    "runtime event `"@ + topic + "` publish failed: "@ + error
}

struct EventTopic {
    type_id: TypeId,
    topic: String,
    channel: TopicChannel,
}

/// The channels of one runtime, at most one per event type.
pub struct RuntimeEventBus {
    capacity: usize,
    topics: Vec<EventTopic>,
}

/// No event type has two topics.
pub open spec fn distinct_type_ids(ids: Seq<TypeId>) -> bool {
    forall|a: int, b: int| 0 <= a < b < ids.len() ==> #[trigger] ids[a] != #[trigger] ids[b]
}

/// `after` is `before`, or `before` with one event type added that it did not have.
pub open spec fn grows_by_at_most_one(before: Seq<TypeId>, after: Seq<TypeId>) -> bool {
    ||| after == before
    ||| (after.len() == before.len() + 1 && after.drop_last() == before && !before.contains(
        after.last(),
    ))
}

impl RuntimeEventBus {
    /// The event types that have a channel, in the order their channels were opened.
    pub closed spec fn spec_type_ids(&self) -> Seq<TypeId> {
        self.topics@.map_values(|t: EventTopic| t.type_id)
    }

    /// The capacity of each channel.
    pub closed spec fn spec_capacity(&self) -> nat {
        self.capacity as nat
    }

    #[verifier::type_invariant]
    closed spec fn wf(&self) -> bool {
        &&& 0 < self.capacity <= usize::MAX / 2
        &&& distinct_type_ids(self.spec_type_ids())
    }

    /// A bus whose channels hold `capacity` events each (at least one).
    pub fn new(capacity: usize) -> (r: Self)
        requires
            capacity <= usize::MAX / 2,
        ensures
            r.spec_capacity() == if capacity == 0 {
                1
            } else {
                capacity as nat
            },
            r.spec_type_ids().len() == 0,
            distinct_type_ids(r.spec_type_ids()),
    {
        let capacity = if capacity == 0 {
            1
        } else {
            capacity
        };
        let r = RuntimeEventBus { capacity, topics: Vec::new() };
        assert(r.spec_type_ids() =~= Seq::<TypeId>::empty());
        r
    }

    /// The capacity of each channel.
    pub fn capacity(&self) -> (r: usize)
        ensures
            r == self.spec_capacity(),
            r >= 1,
    {
        proof {
            use_type_invariant(self);
        }
        self.capacity
    }

    /// How many event types have a channel.
    pub fn topic_count(&self) -> (r: usize)
        ensures
            r == self.spec_type_ids().len(),
    {
        self.topics.len()
    }

    fn index_of(&self, id: TypeId) -> (r: Option<usize>)
        ensures
            r matches Some(i) ==> i < self.spec_type_ids().len() && self.spec_type_ids()[i as int]
                == id,
            r is None <==> !self.spec_type_ids().contains(id),
    {
        let mut i: usize = 0;
        while i < self.topics.len()
            invariant
                i <= self.topics@.len(),
                forall|j: int| 0 <= j < i ==> #[trigger] self.spec_type_ids()[j] != id,
            decreases self.topics.len() - i,
        {
            assert(self.spec_type_ids()[i as int] == self.topics@[i as int].type_id);
            if type_id_eq(self.topics[i].type_id, id) {
                return Some(i);
            }
            i = i + 1;
        }
        proof {
            if self.spec_type_ids().contains(id) {
                let k = choose|k: int| 0 <= k < self.spec_type_ids().len() && self.spec_type_ids()[k] == id;
                assert(self.spec_type_ids()[k] != id);
            }
        }
        None
    }

    /// The position of `E`'s topic, opening its channel first where it has none.
    fn topic_index<E: RuntimeEvent>(&mut self) -> (r: usize)
        ensures
            r < final(self).spec_type_ids().len(),
            grows_by_at_most_one(old(self).spec_type_ids(), final(self).spec_type_ids()),
            distinct_type_ids(final(self).spec_type_ids()),
            final(self).spec_capacity() == old(self).spec_capacity(),
    {
        proof {
            use_type_invariant(&*self);
        }
        let id = TypeId::of::<E>();
        match self.index_of(id) {
            Some(i) => i,
            None => {
                let ghost before = self.spec_type_ids();
                let channel = open_channel::<E>(self.capacity);
                let topic = EventTopic { type_id: id, topic: E::topic().to_string(), channel };
                let mut topics: Vec<EventTopic> = Vec::new();
                std::mem::swap(&mut topics, &mut self.topics);
                assert(topics@.map_values(|t: EventTopic| t.type_id) == before);
                topics.push(topic);
                proof {
                    let after = topics@.map_values(|t: EventTopic| t.type_id);
                    assert(after =~= before.push(id));
                    assert(after.drop_last() =~= before);
                    assert forall|a: int, b: int| 0 <= a < b < after.len() implies #[trigger] after[a]
                        != #[trigger] after[b] by {
                        if b == before.len() {
                            assert(before[a] == after[a]);
                        } else {
                            assert(before[a] == after[a] && before[b] == after[b]);
                        }
                    }
                }
                let n = topics.len();
                self.topics = topics;
                n - 1
            },
        }
    }

    /// The sender of `E`'s channel, opening the channel first where it has none.
    fn sender<E: RuntimeEvent>(&mut self) -> (r: Result<broadcast::Sender<E>, String>)
        ensures
            grows_by_at_most_one(old(self).spec_type_ids(), final(self).spec_type_ids()),
            distinct_type_ids(final(self).spec_type_ids()),
            final(self).spec_capacity() == old(self).spec_capacity(),
            r matches Err(e) ==> exists|t: Seq<char>| e@ == mismatch_message(t),
    {
        let i = self.topic_index::<E>();
        assert(self.spec_type_ids().len() == self.topics@.len());
        let topic = &self.topics[i];
        match channel_sender::<E>(&topic.channel) {
            Some(sender) => Ok(sender),
            None => {
                let mut message = String::new();
                message.push_str("runtime event `");
                message.push_str(topic.topic.as_str());
                message.push_str("` sender type mismatch");
                assert(message@ == mismatch_message(topic.topic@));
                Err(message)
            },
        }
    }

    /// Sends `event` to the current subscribers of its type; how many there were (zero
    /// where none is subscribed, which is no error).
    pub fn publish<E: RuntimeEvent>(&mut self, event: E) -> (r: Result<usize, String>)
        ensures
            grows_by_at_most_one(old(self).spec_type_ids(), final(self).spec_type_ids()),
            distinct_type_ids(final(self).spec_type_ids()),
            final(self).spec_capacity() == old(self).spec_capacity(),
            r matches Err(e) ==> (exists|t: Seq<char>| e@ == mismatch_message(t)) || (exists|
                t: Seq<char>,
                m: Seq<char>,
            | e@ == publish_failed_message(t, m)),
    {
        let sender = match self.sender::<E>() {
            Ok(sender) => sender,
            Err(e) => return Err(e),
        };
        if receiver_count(&sender) == 0 {
            return Ok(0);
        }
        match send_event(&sender, event) {
            Ok(n) => Ok(n),
            Err(err) => {
                let mut message = String::new();
                message.push_str("runtime event `");
                let name = E::topic();
                message.push_str(name);
                message.push_str("` publish failed: ");
                message.push_str(err.as_str());
                assert(message@ == publish_failed_message(name@, err@));
                Err(message)
            },
        }
    }

    /// A receiver of the events of type `E` published from now on.
    pub fn subscribe<E: RuntimeEvent>(&mut self) -> (r: Result<broadcast::Receiver<E>, String>)
        ensures
            grows_by_at_most_one(old(self).spec_type_ids(), final(self).spec_type_ids()),
            distinct_type_ids(final(self).spec_type_ids()),
            final(self).spec_capacity() == old(self).spec_capacity(),
            r matches Err(e) ==> exists|t: Seq<char>| e@ == mismatch_message(t),
    {
        match self.sender::<E>() {
            Ok(sender) => Ok(subscribe_to(&sender)),
            Err(e) => Err(e),
        }
    }
}

impl RuntimeService for RuntimeEventBus {
    fn name(&self) -> &'static str {
        "runtime-event-bus"
    }
}

} // verus!
