//! A named broadcast channel: many writers, one forwarding hub, many readers.
//!
//! Writers hand messages to a single-consumer queue. The hub's `update`
//! moves what has arrived onto a bounded broadcast ring, from which every
//! reader drains its own copy without blocking. The queue and the ring are
//! `std::sync::mpsc` and the `bus` crate; what they do between threads is
//! theirs, and each call into them is one of the small trusted functions
//! below. What this module proves is how each outcome of those calls is
//! turned into a result.

use crate::error::TracerError;
use bus::{Bus, BusReader};
use std::sync::mpsc::{Receiver, Sender};
use vstd::prelude::*;
use vstd::string::StringExecFns;

verus! {

/// The sending end of a `std::sync::mpsc` queue, carried through as it is.
#[verifier::external_type_specification]
#[verifier::external_body]
#[verifier::reject_recursive_types(T)]
pub struct ExSender<T>(Sender<T>);

/// The receiving end of a `std::sync::mpsc` queue, carried through as it is.
#[verifier::external_type_specification]
#[verifier::external_body]
#[verifier::reject_recursive_types(T)]
pub struct ExReceiver<T>(Receiver<T>);

/// The broadcast ring of the `bus` crate, carried through as it is.
#[verifier::external_type_specification]
#[verifier::external_body]
#[verifier::reject_recursive_types(T)]
pub struct ExBus<T>(Bus<T>);

/// A reader of the broadcast ring of the `bus` crate, carried through as it
/// is.
#[verifier::external_type_specification]
#[verifier::external_body]
#[verifier::reject_recursive_types(T)]
pub struct ExBusReader<T>(BusReader<T>);

/// How many messages the broadcast ring holds for its slowest reader.
pub const BUS_CAPACITY: usize = 1024;

/// What one non-blocking look at a queue found.
pub enum Polled<T> {
    /// The oldest waiting message, now taken from the queue.
    Message(T),
    /// Nothing is waiting; the other side is still there.
    Empty,
    /// Nothing is waiting and nothing will come: the other side is gone.
    /// Holds the queue's own words for it.
    Closed(String),
}

/// `std::sync::mpsc::channel`: a fresh queue, as its two ends. Nothing is
/// claimed of them.
#[verifier::external_body]
fn open_queue<T>() -> (ends: (Sender<T>, Receiver<T>)) {
    std::sync::mpsc::channel()
}

/// `Sender::clone`: one more handle on the same queue. Nothing is claimed.
#[verifier::external_body]
fn share_sender<T>(sender: &Sender<T>) -> (copy: Sender<T>) {
    sender.clone()
}

/// `Sender::send`: puts `value` on the queue. `Err` holds the queue's own
/// words when the receiving end is gone. Which of the two comes back depends
/// on the other end, so nothing is claimed of it.
#[verifier::external_body]
fn queue_send<T>(sender: &Sender<T>, value: T) -> (sent: Result<(), String>) {
    sender.send(value).map_err(|e| e.to_string())
}

/// `Receiver::recv_timeout` with a zero wait: takes the oldest message if one
/// is there. What is found depends on the writers, so nothing is claimed.
#[verifier::external_body]
fn queue_poll<T>(receiver: &Receiver<T>) -> (found: Polled<T>) {
    match receiver.recv_timeout(std::time::Duration::from_millis(0)) {
        Ok(value) => Polled::Message(value),
        Err(std::sync::mpsc::RecvTimeoutError::Timeout) => Polled::Empty,
        Err(e) => Polled::Closed(e.to_string()),
    }
}

/// `Bus::new`: a broadcast ring with room for `capacity` messages.
#[verifier::external_body]
fn ring_new<T>(capacity: usize) -> (ring: Bus<T>)
    requires
        capacity < usize::MAX,
{
    Bus::new(capacity)
}

/// `Bus::try_broadcast`: offers `value` to every reader without blocking.
/// `false` means the ring was full and the value was dropped. Whether there
/// is room depends on the readers, so nothing is claimed.
#[verifier::external_body]
fn ring_offer<T>(ring: &mut Bus<T>, value: T) -> (taken: bool) {
    ring.try_broadcast(value).is_ok()
}

/// `Bus::add_rx`: a new reader, which sees the broadcasts made from now on.
#[verifier::external_body]
fn ring_subscribe<T>(ring: &mut Bus<T>) -> (reader: BusReader<T>) {
    ring.add_rx()
}

/// `BusReader::recv_timeout` with a zero wait: takes this reader's oldest
/// unread broadcast if there is one. What is found depends on the hub, so
/// nothing is claimed.
#[verifier::external_body]
fn ring_poll<T: Clone + Sync>(reader: &mut BusReader<T>) -> (found: Polled<T>) {
    match reader.recv_timeout(std::time::Duration::from_millis(0)) {
        Ok(value) => Polled::Message(value),
        Err(std::sync::mpsc::RecvTimeoutError::Timeout) => Polled::Empty,
        Err(e) => Polled::Closed(e.to_string()),
    }
}

/// The writing end of a channel. Cheap to copy; every copy feeds the same hub.
#[verifier::reject_recursive_types(T)]
pub struct DataWriter<T> {
    channel_name: String,
    sender: Sender<T>,
}

impl<T> DataWriter<T> {
    fn new(channel_name: String, sender: Sender<T>) -> (writer: Self)
        ensures
            writer.name() == channel_name@,
    {
        Self { channel_name, sender }
    }

    /// The name of the channel this writer feeds.
    pub closed spec fn name(&self) -> Seq<char> {
        self.channel_name@
    }

    /// What a write reports for each answer of the queue: success as it is,
    /// a refusal as a write failure that names the channel and carries the
    /// queue's words.
    pub fn written(channel_name: &String, sent: Result<(), String>) -> (res: Result<
        (),
        TracerError,
    >)
        ensures
            sent is Ok ==> res is Ok,
            sent matches Err(text) ==> (res matches Err(TracerError::BusWriteError(name, words))
                && name@ == channel_name@ && words@ == text@),
    {
        match sent {
            Ok(()) => Ok(()),
            Err(text) => Err(TracerError::BusWriteError(channel_name.clone(), text)),
        }
    }

    /// Enqueues `action` for the hub. Fails only with a write failure that
    /// names this channel, which the queue decides: it refuses once the hub
    /// is gone.
    pub fn write(&self, action: T) -> (res: Result<(), TracerError>)
        ensures
            res matches Err(e) ==> (e matches TracerError::BusWriteError(name, _) && name@
                == self.name()),
    {
        Self::written(&self.channel_name, queue_send(&self.sender, action))
    }
}

impl<T> Clone for DataWriter<T> {
    fn clone(&self) -> (copy: Self)
        ensures
            copy.name() == self.name(),
    {
        Self { channel_name: self.channel_name.clone(), sender: share_sender(&self.sender) }
    }
}

/// How a drain of a queue ended.
pub enum DrainEnd {
    /// The queue ran empty.
    Empty,
    /// The other side is gone; holds the queue's words for it.
    Closed(String),
}

/// One reader's end of a channel: an independent, first-in first-out view of
/// what the hub broadcast after this reader was made.
#[verifier::reject_recursive_types(T)]
pub struct DataReader<T: Clone + Sync> {
    channel_name: String,
    reader: BusReader<T>,
}

impl<T: Clone + Sync> DataReader<T> {
    fn new(channel_name: String, reader: BusReader<T>) -> (r: Self)
        ensures
            r.name() == channel_name@,
    {
        Self { channel_name, reader }
    }

    /// The name of the channel this reader listens to.
    pub closed spec fn name(&self) -> Seq<char> {
        self.channel_name@
    }

    /// What a drain reports for each way it can end: the collected messages,
    /// untouched and in order, when the ring ran empty; a read failure that
    /// names the channel when the hub is gone.
    pub fn drained(channel_name: &String, collected: Vec<T>, end: DrainEnd) -> (res: Result<
        Vec<T>,
        TracerError,
    >)
        ensures
            end is Empty ==> res == Ok::<Vec<T>, TracerError>(collected),
            end matches DrainEnd::Closed(text) ==> (res matches Err(
                TracerError::BusReadError(name, words),
            ) && name@ == channel_name@ && words@ == text@),
    {
        match end {
            DrainEnd::Empty => Ok(collected),
            DrainEnd::Closed(text) => Err(TracerError::BusReadError(channel_name.clone(), text)),
        }
    }

    /// Takes every message that is waiting for this reader, oldest first,
    /// without blocking. Fails only with a read failure that names this
    /// channel, which the ring decides: it reports the hub gone once the hub
    /// was dropped and everything it broadcast has been read.
    pub fn get_messages(&mut self) -> (res: Result<Vec<T>, TracerError>)
        ensures
            final(self).name() == old(self).name(),
            res matches Err(e) ==> (e matches TracerError::BusReadError(name, _) && name@
                == old(self).name()),
    {
        let mut buf: Vec<T> = Vec::new();
        loop
            invariant
                self.name() == old(self).name(),
            decreases usize::MAX - buf.len(),
        {
            match ring_poll(&mut self.reader) {
                Polled::Message(action) => {
                    buf.push(action);
                },
                Polled::Empty => {
                    return Self::drained(&self.channel_name, buf, DrainEnd::Empty);
                },
                Polled::Closed(text) => {
                    return Self::drained(&self.channel_name, buf, DrainEnd::Closed(text));
                },
            }
        }
    }
}

/// How one run of the hub's forwarding ended.
pub enum ForwardEnd {
    /// The writers' queue ran empty: everything that had arrived is on the ring.
    Empty,
    /// The ring had no room for a message: some reader is a full ring behind.
    Full,
    /// Every writing end is gone; holds the queue's words for it.
    Closed(String),
}

/// The text of a failed update of a hub that blames `blamed`: the name of
/// the channel whose ring was full, or the queue's words for writers that
/// are gone.
pub open spec fn update_failure(blamed: Seq<char>) -> Seq<char> {
    "Failed to update databus \""@ + blamed + "\""@
}

/// The hub of a channel. It owns the writers' queue and the broadcast ring,
/// hands out writers and readers, and moves messages from the one to the
/// other when asked.
#[verifier::reject_recursive_types(T)]
pub struct DataBus<T: Clone + Sync> {
    channel_name: String,
    receiver: Receiver<T>,
    bus: Bus<T>,
    data_writer: Sender<T>,
}

impl<T: Clone + Sync> DataBus<T> {
    /// A fresh channel called `channel_name`, with no readers yet.
    pub fn new(channel_name: &str) -> (hub: Self)
        ensures
            hub.name() == channel_name@,
    {
        let (sender, receiver) = open_queue();
        Self {
            channel_name: String::from_str(channel_name),
            receiver,
            data_writer: sender,
            bus: ring_new(BUS_CAPACITY),
        }
    }

    /// The name of this channel.
    pub closed spec fn name(&self) -> Seq<char> {
        self.channel_name@
    }

    /// What an update reports for each way the forwarding can end. An empty
    /// queue is success. A full ring is a failure, never a silent drop; so is
    /// a queue whose writers are all gone. Both are reported as a receive
    /// failure whose text is that of an update failure, blaming the channel
    /// by name in the first case and quoting the queue in the second.
    pub fn forwarded(channel_name: &String, end: ForwardEnd) -> (res: Result<(), TracerError>)
        ensures
            end is Empty ==> res is Ok,
            end is Full ==> (res matches Err(TracerError::RecieveError(text)) && text@
                == update_failure(channel_name@)),
            end matches ForwardEnd::Closed(words) ==> (res matches Err(
                TracerError::RecieveError(text),
            ) && text@ == update_failure(words@)),
    {
        match end {
            ForwardEnd::Empty => Ok(()),
            ForwardEnd::Full => {
                let cause = TracerError::BusUpdateError(channel_name.clone());
                Err(TracerError::RecieveError(cause.message()))
            },
            ForwardEnd::Closed(words) => {
                let cause = TracerError::BusUpdateError(words);
                Err(TracerError::RecieveError(cause.message()))
            },
        }
    }

    /// Moves every message that the writers have enqueued onto the ring, in
    /// the order in which the queue hands them out, and stops at the first
    /// of: the queue is empty (success), the ring is full (failure), the
    /// writers are gone (failure). Every failure is a receive failure whose
    /// text is that of a failed update: see [`update_failure`]. One call
    /// moves `usize::MAX` messages at most and leaves the rest to the next.
    pub fn update(&mut self) -> (res: Result<(), TracerError>)
        ensures
            final(self).name() == old(self).name(),
            res matches Err(e) ==> (e matches TracerError::RecieveError(text) && exists|
                blamed: Seq<char>,
            | text@ == #[trigger] update_failure(blamed)),
    {
        let mut moved: usize = 0;
        while moved < usize::MAX
            invariant
                self.name() == old(self).name(),
            decreases usize::MAX - moved,
        {
            match queue_poll(&self.receiver) {
                Polled::Message(action) => {
                    if !ring_offer(&mut self.bus, action) {
                        let res = Self::forwarded(&self.channel_name, ForwardEnd::Full);
                        assert(res matches Err(TracerError::RecieveError(text)) && text@
                            == update_failure(self.channel_name@));
                        return res;
                    }
                },
                Polled::Empty => {
                    return Self::forwarded(&self.channel_name, ForwardEnd::Empty);
                },
                Polled::Closed(words) => {
                    let ghost quoted = words@;
                    let res = Self::forwarded(&self.channel_name, ForwardEnd::Closed(words));
                    assert(res matches Err(TracerError::RecieveError(text)) && text@
                        == update_failure(quoted));
                    return res;
                },
            }
            moved = moved + 1;
        }
        Ok(())
    }

    /// A new reader. It sees what is broadcast from now on, nothing older.
    pub fn get_reader(&mut self) -> (reader: DataReader<T>)
        ensures
            reader.name() == old(self).name(),
            final(self).name() == old(self).name(),
    {
        DataReader::new(self.channel_name.clone(), ring_subscribe(&mut self.bus))
    }

    /// A new writer for this channel.
    pub fn get_writer(&self) -> (writer: DataWriter<T>)
        ensures
            writer.name() == self.name(),
    {
        DataWriter::new(self.channel_name.clone(), share_sender(&self.data_writer))
    }
}

} // verus!
