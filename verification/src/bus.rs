//! The bus: everything that is published reaches everyone who listens.

use tokio::sync::broadcast::{Receiver, Sender as Broadcaster};
use vstd::prelude::*;
use crate::common::{Envelope, Event, Sender, Timestamp, Topic, UnicError};
use crate::conversation::{hex8, ConversationId};

verus! {

/// `tokio::sync::broadcast::Sender`: the sending half of a channel, carried as it is.
#[verifier::external_type_specification]
#[verifier::external_body]
#[verifier::reject_recursive_types(T)]
pub struct ExBroadcastSender<T>(Broadcaster<T>);

/// `tokio::sync::broadcast::Receiver`: a receiving half of a channel, carried as it is.
#[verifier::external_type_specification]
#[verifier::external_body]
#[verifier::reject_recursive_types(T)]
pub struct ExBroadcastReceiver<T>(Receiver<T>);

/// Whether `id` carries the marks of a version 7 UUID: the number of the version, and the
/// usual variant.
pub open spec fn version7(id: u128) -> bool {
    (id / 0x1000_0000_0000_0000_0000) % 16 == 7 && (id / 0x4000_0000_0000_0000) % 4 == 2
}

/// `uuid::Uuid::now_v7`, as a number. The identifier depends on the clock and on
/// chance; it always carries the marks of version 7.
#[verifier::external_body]
pub(crate) fn fresh_id() -> (r: u128)
    ensures
        version7(r),
{
    uuid::Uuid::now_v7().as_u128()
}

/// `chrono::Utc::now`, as seconds and nanoseconds. It counts from 1970 on, knows no leap
/// second, and has a date.
#[verifier::external_body]
pub(crate) fn clock() -> (r: Timestamp)
    ensures
        r.secs >= 0,
        r.nanos < 1_000_000_000,
        r.datable(),
{
    let now = chrono::Utc::now();
    Timestamp { secs: now.timestamp(), nanos: now.timestamp_subsec_nanos() }
}

/// The capacity that the channel behind `tx` was made with.
pub uninterp spec fn room(tx: Broadcaster<Envelope<Event>>) -> nat;

/// Whether what is sent through `tx` reaches `rx`.
pub uninterp spec fn reaches(tx: Broadcaster<Envelope<Event>>, rx: Receiver<Envelope<Event>>) -> bool;

/// `tokio::sync::broadcast::channel`: its sending half, for a channel of this capacity. It
/// panics on a capacity of zero, and where the slots for its events, each of more than a
/// hundred bytes, cannot be laid out in memory: above the bound there is no room for them.
#[verifier::external_body]
fn open_channel(capacity: usize) -> (r: Broadcaster<Envelope<Event>>)
    requires
        0 < capacity <= usize::MAX / 512,
    ensures
        room(r) == capacity,
{
    tokio::sync::broadcast::channel(capacity).0
}

/// `tokio::sync::broadcast::Sender::subscribe`: a receiver of the same channel, for what is
/// sent from now on.
#[verifier::external_body]
fn listen(tx: &Broadcaster<Envelope<Event>>) -> (r: Receiver<Envelope<Event>>)
    ensures
        reaches(*tx, r),
{
    tx.subscribe()
}

/// That `envelope` was handed to the channel behind `tx`, which took it, or gave it back where
/// not `taken`. The one does not rule the other out: an envelope that was given back may be
/// taken later, when someone listens.
pub uninterp spec fn handed(
    tx: Broadcaster<Envelope<Event>>,
    envelope: Envelope<Event>,
    taken: bool,
) -> bool;

/// `tokio::sync::broadcast::Sender::send` of this very envelope on this very channel. It tells
/// how many receivers there are; where there is none, it gives the value back unsent. Who
/// listens is not known here, so neither outcome is promised.
#[verifier::external_body]
fn broadcast(
    tx: &Broadcaster<Envelope<Event>>,
    envelope: Envelope<Event>,
) -> (r: Result<usize, Envelope<Event>>)
    ensures
        match r {
            Ok(n) => n > 0,
            Err(back) => back == envelope,
        },
        handed(*tx, envelope, r is Ok),
{
    tx.send(envelope).map_err(|e| e.0)
}

/// What is to be published, before it has an identifier and a date.
#[derive(Debug)]
pub struct Draft {
    pub topic: Topic,
    pub sender: Sender,
    pub conversation_id: ConversationId,
    pub payload: Event,
}

impl Draft {
    /// Whether this is a word of the system on the system topic, outside any conversation.
    pub open spec fn announces(self, payload: Event) -> bool {
        &&& self.topic@ == "#system"@
        &&& self.sender == Sender::System
        &&& self.conversation_id@ == hex8(0)
        &&& self.payload == payload
    }

    /// A word of the system on the system topic, outside any conversation.
    pub fn announcement(payload: Event) -> (r: Draft)
        ensures
            r.announces(payload),
    {
        proof {
            reveal_strlit("system");
            reveal_strlit("#system");
            assert(crate::common::hashed("system"@) =~= "#system"@);
        }
        Draft {
            topic: Topic::new("system"),
            sender: Sender::System,
            conversation_id: ConversationId::default(),
            payload,
        }
    }

    /// Whether `envelope` holds this draft.
    pub open spec fn sealed_in(self, envelope: Envelope<Event>) -> bool {
        &&& envelope.topic == self.topic
        &&& envelope.sender == self.sender
        &&& envelope.conversation_id == self.conversation_id
        &&& envelope.payload == self.payload
    }

    /// The envelope with this draft in it.
    pub fn seal(self, id: u128, ts: Timestamp) -> (r: Envelope<Event>)
        ensures
            r.id == id,
            r.ts == ts,
            self.sealed_in(r),
    {
        Envelope {
            id,
            ts,
            topic: self.topic,
            sender: self.sender,
            conversation_id: self.conversation_id,
            payload: self.payload,
        }
    }
}

/// What publishing comes to, by what became of the sending.
pub fn published(sent: Result<usize, Envelope<Event>>) -> (r: Result<(), UnicError>)
    ensures
        sent is Ok ==> r == Ok::<(), UnicError>(()),
        sent is Err ==> r == Err::<(), UnicError>(UnicError::BusSend),
{
    match sent {
        Ok(_) => Ok(()),
        Err(_) => Err(UnicError::BusSend),
    }
}

/// `Clone::clone` of `tokio::sync::broadcast::Sender`: another handle to the same channel,
/// which nothing tells from the first.
#[verifier::external_body]
fn another_handle(tx: &Broadcaster<Envelope<Event>>) -> (r: Broadcaster<Envelope<Event>>)
    ensures
        r == *tx,
{
    tx.clone()
}

/// The bus.
pub struct Bus {
    tx: Broadcaster<Envelope<Event>>,
}

impl Clone for Bus {
    fn clone(&self) -> (r: Bus)
        ensures
            r == *self,
    {
        Bus { tx: another_handle(&self.tx) }
    }
}

impl Bus {
    /// How many events a listener may fall behind at least.
    pub closed spec fn capacity(&self) -> nat {
        room(self.tx)
    }

    /// Whether what is published on the bus reaches `rx`.
    pub closed spec fn reaches(&self, rx: Receiver<Envelope<Event>>) -> bool {
        reaches(self.tx, rx)
    }

    /// That `envelope` was handed to the bus, which took it, or gave it back where not `taken`.
    pub closed spec fn was_handed(&self, envelope: Envelope<Event>, taken: bool) -> bool {
        handed(self.tx, envelope, taken)
    }

    /// A bus on which a listener may fall behind by at least `capacity` events.
    pub fn new(capacity: usize) -> (r: Bus)
        requires
            0 < capacity <= usize::MAX / 512,
        ensures
            r.capacity() == capacity,
    {
        Bus { tx: open_channel(capacity) }
    }

    /// Listens to what is published from now on.
    pub fn subscribe(&self) -> (r: Receiver<Envelope<Event>>)
        ensures
            self.reaches(r),
    {
        listen(&self.tx)
    }

    /// Hands `envelope` to everyone who listens. It fails only for want of listeners.
    pub fn publish(&self, envelope: Envelope<Event>) -> (r: Result<(), UnicError>)
        ensures
            self.was_handed(envelope, r is Ok),
            match r {
                Ok(_) => true,
                Err(e) => e == UnicError::BusSend,
            },
    {
        published(broadcast(&self.tx, envelope))
    }

    /// An envelope for an event outside any conversation.
    pub fn envelope(&self, topic: Topic, sender: Sender, payload: Event) -> (r: Envelope<Event>)
        ensures
            version7(r.id),
            r.ts.secs >= 0,
            r.ts.nanos < 1_000_000_000,
            r.ts.datable(),
            r.topic == topic,
            r.sender == sender,
            r.conversation_id@ == hex8(0),
            r.payload == payload,
    {
        self.envelope_with_conversation(topic, sender, ConversationId::default(), payload)
    }

    /// An envelope for an event of a conversation.
    pub fn envelope_with_conversation(
        &self,
        topic: Topic,
        sender: Sender,
        conversation_id: ConversationId,
        payload: Event,
    ) -> (r: Envelope<Event>)
        ensures
            version7(r.id),
            r.ts.secs >= 0,
            r.ts.nanos < 1_000_000_000,
            r.ts.datable(),
            r.topic == topic,
            r.sender == sender,
            r.conversation_id == conversation_id,
            r.payload == payload,
    {
        let draft = Draft { topic, sender, conversation_id, payload };
        draft.seal(fresh_id(), clock())
    }

    /// Publishes `draft`, with a new identifier and the date of now.
    pub fn publish_draft(&self, draft: Draft) -> (r: Result<(), UnicError>)
        ensures
            exists|envelope: Envelope<Event>| #[trigger]
                self.was_handed(envelope, r is Ok) && {
                    &&& draft.sealed_in(envelope)
                    &&& version7(envelope.id)
                    &&& envelope.ts.secs >= 0
                    &&& envelope.ts.nanos < 1_000_000_000
                    &&& envelope.ts.datable()
                },
            match r {
                Ok(_) => true,
                Err(e) => e == UnicError::BusSend,
            },
    {
        let envelope = draft.seal(fresh_id(), clock());
        let ghost sealed = envelope;
        let r = self.publish(envelope);
        assert(self.was_handed(sealed, r is Ok));
        r
    }
}

/// A word of the system goes to the system topic, in the name of the system and outside any
/// conversation, and sealing it changes nothing of that.
pub proof fn law_the_system_speaks_on_its_topic(
    payload: Event,
    draft: Draft,
    id: u128,
    ts: Timestamp,
    envelope: Envelope<Event>,
)
    requires
        call_ensures(Draft::announcement, (payload,), draft),
        call_ensures(Draft::seal, (draft, id, ts), envelope),
    ensures
        envelope.id == id,
        envelope.ts == ts,
        envelope.topic@ == "#system"@,
        envelope.sender == Sender::System,
        envelope.conversation_id@ == "00000000"@,
        envelope.payload == payload,
{
    reveal_strlit("00000000");
    assert(hex8(0) =~= "00000000"@);
}

/// An envelope holds what is put into it, unchanged, and outside any conversation where none is
/// named. Publishing succeeds just where the envelope was sent.
pub proof fn law_an_envelope_holds_what_is_put_into_it(
    bus: Bus,
    topic: Topic,
    sender: Sender,
    conversation_id: ConversationId,
    payload: Event,
    plain: Envelope<Event>,
    named: Envelope<Event>,
    sent: Result<usize, Envelope<Event>>,
    r: Result<(), UnicError>,
)
    requires
        call_ensures(Bus::envelope, (&bus, topic, sender, payload), plain),
        call_ensures(
            Bus::envelope_with_conversation,
            (&bus, topic, sender, conversation_id, payload),
            named,
        ),
        call_ensures(published, (sent,), r),
    ensures
        plain.topic == topic && named.topic == topic,
        plain.sender == sender && named.sender == sender,
        plain.payload == payload && named.payload == payload,
        named.conversation_id == conversation_id,
        plain.conversation_id@ == "00000000"@,
        plain.ts.datable() && named.ts.datable(),
        r is Ok <==> sent is Ok,
        r is Err ==> r == Err::<(), UnicError>(UnicError::BusSend),
{
    reveal_strlit("00000000");
    assert(hex8(0) =~= "00000000"@);
}

} // verus!
