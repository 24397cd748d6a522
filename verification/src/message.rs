//! Chat messages, their envelopes, and the event name a message carries.
use crate::json::{event_of, JsonValue};
use crate::session::Session;
use crate::time::{kafka_created_nanos, Created, KafkaTimestamp};
use vstd::prelude::*;

verus! {

/// The text of an optional string slice.
pub open spec fn opt_text(o: Option<&str>) -> Option<Seq<char>> {
    match o {
        Some(s) => Some(s@),
        None => None,
    }
}

/// Something that carries an event name and a creation time.
pub trait Event<C>: Sized {
    /// The event name carried, if any.
    spec fn event_name(&self) -> Option<Seq<char>>;

    /// The creation time recorded, if any.
    spec fn created_time(&self) -> Option<C>;

    /// The event name carried, if any.
    fn event(&self) -> (r: Option<&str>)
        ensures
            opt_text(r) == self.event_name(),
    ;

    /// Records the creation time; the event name stays as it was.
    fn set_time(&mut self, time: C)
        ensures
            final(self).created_time() == Some(time),
            final(self).event_name() == old(self).event_name(),
    ;
}

/// The event named by a message body: the string under `event` when the body
/// is an object.
pub fn get_value_event(v: &JsonValue) -> (r: Option<&str>)
    ensures
        opt_text(r) == event_of(*v),
{
    let key = "event".to_owned();
    match v.get(&key) {
        Some(JsonValue::Str(s)) => Some(s.as_str()),
        _ => None,
    }
}

/// Stamps a message taken from the queue with the creation time the queue
/// recorded for it.
pub fn stamp_from_queue<T: Event<Created>>(msg: &mut T, ts: KafkaTimestamp)
    ensures
        final(msg).created_time() matches Some(c) && c.wf() && c.nanos() == kafka_created_nanos(ts),
        final(msg).event_name() == old(msg).event_name(),
{
    msg.set_time(Created::from_kafka_timestamp(ts));
}

/// A message with its sender, its creation time and its JSON body.
#[derive(Debug, PartialEq, Eq)]
pub struct ChatMessage<C> {
    pub sender: Session,
    pub created: Option<C>,
    pub content: JsonValue,
}

impl<C: Default> ChatMessage<C> {
    /// The message that `sender` sent with body `content`, stamped with `C`'s
    /// default time.
    pub fn from_parts(sender: Session, content: JsonValue) -> (m: ChatMessage<C>)
        ensures
            m.sender == sender,
            m.content == content,
            m.created matches Some(c) && call_ensures(C::default, (), c),
    {
        ChatMessage { sender, created: Some(C::default()), content }
    }
}

impl<C> Event<C> for ChatMessage<C> {
    open spec fn event_name(&self) -> Option<Seq<char>> {
        event_of(self.content)
    }

    open spec fn created_time(&self) -> Option<C> {
        self.created
    }

    fn event(&self) -> (r: Option<&str>) {
        get_value_event(&self.content)
    }

    fn set_time(&mut self, time: C) {
        self.created = Some(time);
    }
}

/// A message together with the sessions it is addressed to.
#[derive(Debug, PartialEq, Eq)]
pub struct Envelope<C> {
    pub receiver: Vec<Session>,
    pub message: ChatMessage<C>,
}

impl<C> Event<C> for Envelope<C> {
    open spec fn event_name(&self) -> Option<Seq<char>> {
        self.message.event_name()
    }

    open spec fn created_time(&self) -> Option<C> {
        self.message.created_time()
    }

    fn event(&self) -> (r: Option<&str>) {
        self.message.event()
    }

    fn set_time(&mut self, time: C) {
        self.message.set_time(time);
    }
}

} // verus!
