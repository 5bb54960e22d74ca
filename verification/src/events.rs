//! The event queue of an actor: a mailbox that other actors fill through
//! channels.
//!
//! The owner holds the receiving ends of three `flume` channels and a
//! `Mailbox`. Anybody who holds an `EventSender` may enqueue, from any
//! thread. What the channels hold at a given moment depends on what other
//! threads have done, so nothing is claimed of what comes out of them; what is
//! proved is what the queue does with whatever came out.
use vstd::prelude::*;
use crate::mailbox::{Arrivals, Lanes, Mailbox, Next, Scheduled};
use flume::{Receiver, Sender};

verus! {

/// `flume::Sender`, the sending end of a channel. Opaque here.
#[verifier::external_type_specification]
#[verifier::external_body]
#[verifier::reject_recursive_types(T)]
pub struct ExSender<T>(flume::Sender<T>);

/// `flume::Receiver`, the receiving end of a channel. Opaque here.
#[verifier::external_type_specification]
#[verifier::external_body]
#[verifier::reject_recursive_types(T)]
pub struct ExReceiver<T>(flume::Receiver<T>);

/// `flume::unbounded`: the two ends of a new channel without a capacity.
#[verifier::external_body]
fn channel<T>() -> (ends: (Sender<T>, Receiver<T>)) {
    flume::unbounded()
}

/// `Sender::send`: enqueues the message, or hands it back where every
/// receiver is gone. On a channel without a capacity it does not block.
#[verifier::external_body]
fn channel_send<T>(tx: &Sender<T>, msg: T) -> (refused: Option<T>) {
    match tx.send(msg) {
        Ok(()) => None,
        Err(flume::SendError(msg)) => Some(msg),
    }
}

/// `Sender::clone`: another handle to the same channel.
#[verifier::external_body]
fn channel_handle<T>(tx: &Sender<T>) -> (handle: Sender<T>) {
    tx.clone()
}

/// `Receiver::len`: how many messages the channel holds at this moment.
#[verifier::external_body]
fn channel_len<T>(rx: &Receiver<T>) -> (len: usize) {
    rx.len()
}

/// `Receiver::try_recv`: the message at the head of the channel, if there is
/// one at this moment. It does not block.
#[verifier::external_body]
fn channel_try_recv<T>(rx: &Receiver<T>) -> (msg: Option<T>) {
    rx.try_recv().ok()
}

/// Takes out of a channel what it holds, up to the number of messages that
/// it held when asked.
fn drain<T>(rx: &Receiver<T>) -> (batch: Vec<T>) {
    let waiting = channel_len(rx);
    let mut batch: Vec<T> = Vec::new();
    let mut i: usize = 0;
    while i < waiting
        invariant
            i <= waiting,
        decreases waiting - i,
    {
        match channel_try_recv(rx) {
            Some(msg) => {
                batch.push(msg);
                i += 1;
            },
            None => {
                i = waiting;
            },
        }
    }
    batch
}

/// A handle by which any actor enqueues events into one event queue.
#[derive(Debug)]
#[verifier::reject_recursive_types(E)]
pub struct EventSender<E> {
    tx: Sender<E>,
    tx_urgent: Sender<E>,
    tx_timer: Sender<Scheduled<E>>,
}

impl<E> EventSender<E> {
    fn new(tx: Sender<E>, tx_urgent: Sender<E>, tx_timer: Sender<Scheduled<E>>) -> (handle: Self)
        ensures
            handle.tx == tx,
            handle.tx_urgent == tx_urgent,
            handle.tx_timer == tx_timer,
    {
        Self { tx, tx_urgent, tx_timer }
    }

    /// Enqueues `event` on the normal lane. Where the queue is gone the event
    /// is dropped.
    pub fn send(&self, event: E) {
        let _ = channel_send(&self.tx, event);
    }

    /// Enqueues `event` on the urgent lane. Where the queue is gone the event
    /// is dropped.
    pub fn send_with_urgency(&self, event: E) {
        let _ = channel_send(&self.tx_urgent, event);
    }

    /// Schedules `event` for `after` ticks from `now`. Where the queue is
    /// gone the event is dropped.
    pub fn send_with_delay(&self, event: E, after: u64, now: u64)
        requires
            now + after <= u64::MAX,
    {
        let _ = channel_send(&self.tx_timer, Scheduled { deadline: now + after, payload: event });
    }
}

impl<E> Clone for EventSender<E> {
    fn clone(&self) -> (handle: Self) {
        EventSender::new(
            channel_handle(&self.tx),
            channel_handle(&self.tx_urgent),
            channel_handle(&self.tx_timer),
        )
    }
}

/// The event queue of one actor.
#[derive(Debug)]
#[verifier::reject_recursive_types(E)]
pub struct EventQueue<E> {
    sender: EventSender<E>,
    recv: Receiver<E>,
    urgent_recv: Receiver<E>,
    timer_recv: Receiver<Scheduled<E>>,
    mailbox: Mailbox<E>,
}

impl<E> Default for EventQueue<E> {
    /// A new event queue, with nothing in it.
    fn default() -> (queue: Self)
        ensures
            queue.lanes() == Lanes::<E>::empty(),
            queue.wf(),
    {
        let (sender, recv) = channel();
        let (immediate_sender, urgent_recv) = channel();
        let (timer_sender, timer_recv) = channel();
        let sender = EventSender::new(sender, immediate_sender, timer_sender);
        Self { recv, sender, urgent_recv, timer_recv, mailbox: Mailbox::new() }
    }
}

impl<E> EventQueue<E> {
    /// What the owner has taken out of the channels and not yet handled.
    pub closed spec fn lanes(&self) -> Lanes<E> {
        self.mailbox@
    }

    pub open spec fn wf(&self) -> bool {
        self.lanes().wf()
    }

    /// The queue's own handle for enqueueing.
    pub closed spec fn handle(&self) -> EventSender<E> {
        self.sender
    }

    /// The receiving end of the queue's normal lane.
    pub closed spec fn normal_end(&self) -> Receiver<E> {
        self.recv
    }

    /// The receiving end of the queue's urgent lane.
    pub closed spec fn urgent_end(&self) -> Receiver<E> {
        self.urgent_recv
    }

    /// The receiving end of the queue's lane of scheduled events.
    pub closed spec fn timer_end(&self) -> Receiver<Scheduled<E>> {
        self.timer_recv
    }

    /// Whether `self` and `other` have the same handle and the same
    /// receiving ends. A queue keeps them for life.
    pub open spec fn same_ends(&self, other: &Self) -> bool {
        &&& self.handle() == other.handle()
        &&& self.normal_end() == other.normal_end()
        &&& self.urgent_end() == other.urgent_end()
        &&& self.timer_end() == other.timer_end()
    }

    /// The handle to clone and give to those who are to enqueue.
    pub fn sender(&self) -> (handle: &EventSender<E>)
        ensures
            *handle == self.handle(),
    {
        &self.sender
    }

    /// The channel of the normal lane, for the owner to wait on.
    pub fn normal_channel(&self) -> (rx: &Receiver<E>)
        ensures
            *rx == self.normal_end(),
    {
        &self.recv
    }

    /// The channel of the urgent lane, for the owner to wait on.
    pub fn urgent_channel(&self) -> (rx: &Receiver<E>)
        ensures
            *rx == self.urgent_end(),
    {
        &self.urgent_recv
    }

    /// The channel of the scheduled events, for the owner to wait on.
    pub fn timer_channel(&self) -> (rx: &Receiver<Scheduled<E>>)
        ensures
            *rx == self.timer_end(),
    {
        &self.timer_recv
    }

    /// Takes out of the three channels what they hold at this moment.
    pub fn collect(&self) -> (arrivals: Arrivals<E>) {
        let urgent = drain(&self.urgent_recv);
        let delayed = drain(&self.timer_recv);
        let normal = drain(&self.recv);
        Arrivals { urgent, delayed, normal }
    }

    /// Takes in what the owner received while it waited.
    pub fn accept(&mut self, arrivals: Arrivals<E>)
        requires
            old(self).wf(),
        ensures
            final(self).wf(),
            final(self).same_ends(old(self)),
            final(self).lanes() == old(self).lanes().arrive(
                arrivals.urgent@,
                arrivals.delayed@,
                arrivals.normal@,
            ),
    {
        self.mailbox.accept(arrivals);
    }

    /// Serves what has been taken in, at the time `now`.
    pub fn next(&mut self, now: u64) -> (step: Next<E>)
        requires
            old(self).wf(),
        ensures
            final(self).wf(),
            final(self).same_ends(old(self)),
            step == old(self).lanes().next(now),
            final(self).lanes() == old(self).lanes().after_next(now),
    {
        self.mailbox.next(now)
    }

    /// Takes in what the channels hold and serves the queue at the time
    /// `now`. Whatever has arrived, it is taken in lane by lane in the order
    /// of arrival, and the step and what is left are those of the lanes so
    /// filled.
    pub fn poll(&mut self, now: u64) -> (step: Next<E>)
        requires
            old(self).wf(),
        ensures
            final(self).wf(),
            final(self).same_ends(old(self)),
            exists|urgent: Seq<E>, delayed: Seq<Scheduled<E>>, normal: Seq<E>|
                {
                    let arrived = #[trigger] old(self).lanes().arrive(urgent, delayed, normal);
                    step == arrived.next(now) && final(self).lanes() == arrived.after_next(now)
                },
    {
        let arrivals = self.collect();
        let ghost urgent = arrivals.urgent@;
        let ghost delayed = arrivals.delayed@;
        let ghost normal = arrivals.normal@;
        self.accept(arrivals);
        let step = self.next(now);
        proof {
            let arrived = old(self).lanes().arrive(urgent, delayed, normal);
            assert(step == arrived.next(now) && self.lanes() == arrived.after_next(now));
        }
        step
    }
}

} // verus!
