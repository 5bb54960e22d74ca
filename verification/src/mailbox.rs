//! The three lanes of a mailbox and the order in which they are served.
//!
//! Urgent events come first, in the order in which they arrived. Then come
//! the scheduled events whose deadline has passed, earliest deadline first
//! and, among equal deadlines, in the order in which they were scheduled.
//! Then come the normal events, in the order in which they arrived. Where
//! nothing can be served the owner is told how long to wait.
//!
//! Time is a count of ticks of the owner's clock.
use vstd::prelude::*;

verus! {

/// An event with the time from which it may be served.
#[derive(Debug, PartialEq, Eq)]
pub struct Scheduled<E> {
    pub deadline: u64,
    pub payload: E,
}

/// What the owner of a mailbox does next.
#[derive(Debug, PartialEq, Eq)]
pub enum Next<E> {
    /// Handle this event.
    Event(E),
    /// Nothing can be served: wait for an arrival or, where a deadline is
    /// given, until it has passed.
    Wait(Option<u64>),
}

/// What a mailbox holds: each lane from the entry served first to the one
/// served last.
pub struct Lanes<E> {
    pub urgent: Seq<E>,
    pub normal: Seq<E>,
    pub delayed: Seq<Scheduled<E>>,
}

/// Deadlines never fall along the list.
pub open spec fn in_deadline_order<E>(delayed: Seq<Scheduled<E>>) -> bool {
    forall|i: int, j: int|
        0 <= i < j < delayed.len() ==> delayed[i].deadline <= delayed[j].deadline
}

/// The place of a new entry with `deadline`: behind every entry that is due
/// no later, before every entry that is due later.
pub open spec fn slot<E>(delayed: Seq<Scheduled<E>>, deadline: u64) -> int
    decreases delayed.len(),
{
    if delayed.len() == 0 {
        0
    } else if delayed.last().deadline <= deadline {
        delayed.len() as int
    } else {
        slot(delayed.drop_last(), deadline)
    }
}

impl<E> Lanes<E> {
    /// No lane holds anything.
    pub open spec fn empty() -> Self {
        Lanes { urgent: Seq::empty(), normal: Seq::empty(), delayed: Seq::empty() }
    }

    pub open spec fn wf(self) -> bool {
        in_deadline_order(self.delayed)
    }

    /// After `event` has arrived on the normal lane.
    pub open spec fn send(self, event: E) -> Self {
        Lanes { normal: self.normal.push(event), ..self }
    }

    /// After `event` has arrived on the urgent lane.
    pub open spec fn send_with_urgency(self, event: E) -> Self {
        Lanes { urgent: self.urgent.push(event), ..self }
    }

    /// After `event` has been scheduled for `deadline`.
    pub open spec fn schedule(self, event: E, deadline: u64) -> Self {
        Lanes {
            delayed: self.delayed.insert(
                slot(self.delayed, deadline),
                Scheduled { deadline, payload: event },
            ),
            ..self
        }
    }

    /// After each of `items` has been scheduled, first to last.
    pub open spec fn schedule_all(self, items: Seq<Scheduled<E>>) -> Self
        decreases items.len(),
    {
        if items.len() == 0 {
            self
        } else {
            self.schedule_all(items.drop_last()).schedule(
                items.last().payload,
                items.last().deadline,
            )
        }
    }

    /// After a batch has arrived on each lane.
    pub open spec fn arrive(
        self,
        urgent: Seq<E>,
        delayed: Seq<Scheduled<E>>,
        normal: Seq<E>,
    ) -> Self {
        Lanes {
            urgent: self.urgent + urgent,
            normal: self.normal + normal,
            delayed: self.schedule_all(delayed).delayed,
        }
    }

    /// Whether the first scheduled event may be served at `now`.
    pub open spec fn timer_due(self, now: u64) -> bool {
        self.delayed.len() > 0 && self.delayed[0].deadline < now
    }

    /// What is served at `now`.
    pub open spec fn next(self, now: u64) -> Next<E> {
        if self.urgent.len() > 0 {
            Next::Event(self.urgent[0])
        } else if self.timer_due(now) {
            Next::Event(self.delayed[0].payload)
        } else if self.normal.len() > 0 {
            Next::Event(self.normal[0])
        } else if self.delayed.len() > 0 {
            Next::Wait(Some(self.delayed[0].deadline))
        } else {
            Next::Wait(None)
        }
    }

    /// What is left once `next` has been served at `now`.
    pub open spec fn after_next(self, now: u64) -> Self {
        if self.urgent.len() > 0 {
            Lanes { urgent: self.urgent.remove(0), ..self }
        } else if self.timer_due(now) {
            Lanes { delayed: self.delayed.remove(0), ..self }
        } else if self.normal.len() > 0 {
            Lanes { normal: self.normal.remove(0), ..self }
        } else {
            self
        }
    }
}

/// What `slot` finds in an ordered list: entries before it are due no later
/// than `deadline`, entries from it on are due later.
pub proof fn lemma_slot<E>(delayed: Seq<Scheduled<E>>, deadline: u64)
    requires
        in_deadline_order(delayed),
    ensures
        0 <= slot(delayed, deadline) <= delayed.len(),
        forall|i: int| 0 <= i < slot(delayed, deadline) ==> delayed[i].deadline <= deadline,
        forall|i: int|
            slot(delayed, deadline) <= i < delayed.len() ==> delayed[i].deadline > deadline,
    decreases delayed.len(),
{
    if delayed.len() > 0 {
        let front = delayed.drop_last();
        assert forall|i: int, j: int| 0 <= i < j < front.len() implies front[i].deadline
            <= front[j].deadline by {
            assert(delayed[i].deadline <= delayed[j].deadline);
        }
        lemma_slot(front, deadline);
        if delayed.last().deadline <= deadline {
            assert forall|i: int| 0 <= i < delayed.len() implies delayed[i].deadline
                <= deadline by {
                if i < delayed.len() - 1 {
                    assert(delayed[i].deadline <= delayed[delayed.len() - 1].deadline);
                }
            }
        } else {
            assert forall|i: int|
                slot(delayed, deadline) <= i < delayed.len() implies delayed[i].deadline
                > deadline by {
                if i < delayed.len() - 1 {
                    assert(front[i].deadline > deadline);
                }
            }
            assert forall|i: int| 0 <= i < slot(delayed, deadline) implies delayed[i].deadline
                <= deadline by {
                assert(front[i].deadline <= deadline);
            }
        }
    }
}

/// Scheduling keeps the deadlines in order.
pub proof fn lemma_schedule_keeps_order<E>(lanes: Lanes<E>, event: E, deadline: u64)
    requires
        lanes.wf(),
    ensures
        lanes.schedule(event, deadline).wf(),
{
    lemma_slot(lanes.delayed, deadline);
    let k = slot(lanes.delayed, deadline);
    let after = lanes.schedule(event, deadline).delayed;
    assert forall|i: int, j: int| 0 <= i < j < after.len() implies after[i].deadline
        <= after[j].deadline by {
        if j < k {
            assert(lanes.delayed[i].deadline <= lanes.delayed[j].deadline);
        } else if j == k {
            assert(lanes.delayed[i].deadline <= deadline);
        } else if i == k {
            assert(lanes.delayed[j - 1].deadline > deadline);
        } else if i < k {
            assert(lanes.delayed[i].deadline <= lanes.delayed[j - 1].deadline);
        } else {
            assert(lanes.delayed[i - 1].deadline <= lanes.delayed[j - 1].deadline);
        }
    }
}

/// Scheduling reads and changes the delayed lane alone.
pub proof fn lemma_schedule_all_lanes<E>(a: Lanes<E>, b: Lanes<E>, items: Seq<Scheduled<E>>)
    requires
        a.delayed == b.delayed,
    ensures
        a.schedule_all(items).delayed == b.schedule_all(items).delayed,
        a.schedule_all(items).urgent == a.urgent,
        a.schedule_all(items).normal == a.normal,
    decreases items.len(),
{
    if items.len() > 0 {
        lemma_schedule_all_lanes(a, b, items.drop_last());
    }
}

/// Serving keeps the deadlines in order.
pub proof fn lemma_next_keeps_order<E>(lanes: Lanes<E>, now: u64)
    requires
        lanes.wf(),
    ensures
        lanes.after_next(now).wf(),
{
    let after = lanes.after_next(now).delayed;
    assert forall|i: int, j: int| 0 <= i < j < after.len() implies after[i].deadline
        <= after[j].deadline by {
        if lanes.urgent.len() == 0 && lanes.timer_due(now) {
            assert(lanes.delayed[i + 1].deadline <= lanes.delayed[j + 1].deadline);
        } else {
            assert(lanes.delayed[i].deadline <= lanes.delayed[j].deadline);
        }
    }
}

/// An urgent event is served before a normal one, in whichever order the two
/// arrived: both orders leave the same mailbox, and what is served next is
/// the head of the urgent lane, which is the urgent event itself where no
/// other was waiting.
pub proof fn lemma_urgent_first<E>(lanes: Lanes<E>, urgent: E, normal: E, now: u64)
    ensures
        lanes.send(normal).send_with_urgency(urgent) == lanes.send_with_urgency(urgent).send(
            normal,
        ),
        lanes.send(normal).send_with_urgency(urgent).next(now) == Next::Event(
            lanes.urgent.push(urgent)[0],
        ),
        lanes.urgent.len() == 0 ==> lanes.send(normal).send_with_urgency(urgent).next(now)
            == Next::Event(urgent),
        lanes.urgent.len() == 0 ==> lanes.send(normal).send_with_urgency(urgent).after_next(
            now,
        ) == lanes.send(normal),
{
    let both = lanes.send(normal).send_with_urgency(urgent);
    if lanes.urgent.len() == 0 {
        assert(both.after_next(now).urgent =~= lanes.urgent);
    }
}

/// A scheduled event is not served before its deadline has passed: as long
/// as `now` is no later than the deadline, serving leaves every entry with
/// that deadline, or a later one, where it is.
pub proof fn lemma_not_before_deadline<E>(lanes: Lanes<E>, now: u64, i: int)
    requires
        lanes.wf(),
        0 <= i < lanes.delayed.len(),
        now <= lanes.delayed[i].deadline,
    ensures
        lanes.after_next(now).delayed == lanes.delayed || (lanes.after_next(now).delayed
            == lanes.delayed.remove(0) && i > 0 && lanes.delayed[0].deadline < now),
{
    if lanes.urgent.len() == 0 && lanes.timer_due(now) {
        if i == 0 {
            assert(false);
        }
    }
}

/// Once its deadline has passed, a scheduled event is served at the next
/// call, ahead of the normal events that arrived after it was scheduled,
/// unless an urgent event or an event that was due no later is waiting.
pub proof fn lemma_due_before_normal<E>(
    lanes: Lanes<E>,
    event: E,
    deadline: u64,
    normal: E,
    now: u64,
)
    requires
        lanes.wf(),
        lanes.urgent.len() == 0,
        forall|i: int| 0 <= i < lanes.delayed.len() ==> lanes.delayed[i].deadline > deadline,
        deadline < now,
    ensures
        lanes.schedule(event, deadline).send(normal).next(now) == Next::Event(event),
        lanes.schedule(event, deadline).send(normal).after_next(now) == lanes.send(normal),
{
    lemma_slot(lanes.delayed, deadline);
    let k = slot(lanes.delayed, deadline);
    if k > 0 {
        assert(lanes.delayed[0].deadline <= deadline);
    }
    let after = lanes.schedule(event, deadline).send(normal);
    assert(after.after_next(now).delayed =~= lanes.delayed);
}

/// What has arrived for a mailbox since it was last served, lane by lane.
#[derive(Debug, PartialEq, Eq)]
pub struct Arrivals<E> {
    pub urgent: Vec<E>,
    pub delayed: Vec<Scheduled<E>>,
    pub normal: Vec<E>,
}

/// A mailbox: three lanes of events of type `E`.
#[derive(Debug, PartialEq, Eq)]
pub struct Mailbox<E> {
    urgent: Vec<E>,
    normal: Vec<E>,
    delayed: Vec<Scheduled<E>>,
}

impl<E> View for Mailbox<E> {
    type V = Lanes<E>;

    closed spec fn view(&self) -> Lanes<E> {
        Lanes { urgent: self.urgent@, normal: self.normal@, delayed: self.delayed@ }
    }
}

impl<E> Mailbox<E> {
    /// An empty mailbox.
    pub fn new() -> (mailbox: Self)
        ensures
            mailbox@ == Lanes::<E>::empty(),
            mailbox@.wf(),
    {
        Mailbox { urgent: Vec::new(), normal: Vec::new(), delayed: Vec::new() }
    }

    /// Puts `event` at the end of the normal lane.
    pub fn send(&mut self, event: E)
        ensures
            final(self)@ == old(self)@.send(event),
    {
        self.normal.push(event);
    }

    /// Puts `event` at the end of the urgent lane.
    pub fn send_with_urgency(&mut self, event: E)
        ensures
            final(self)@ == old(self)@.send_with_urgency(event),
    {
        self.urgent.push(event);
    }

    /// Schedules `event` for the time `deadline`.
    pub fn send_at(&mut self, event: E, deadline: u64)
        requires
            old(self)@.wf(),
        ensures
            final(self)@ == old(self)@.schedule(event, deadline),
            final(self)@.wf(),
    {
        let mut k: usize = self.delayed.len();
        assert(self.delayed@.take(k as int) == self.delayed@);
        while k > 0 && self.delayed[k - 1].deadline > deadline
            invariant
                k <= self.delayed.len(),
                slot(self.delayed@, deadline) == slot(self.delayed@.take(k as int), deadline),
            decreases k,
        {
            proof {
                assert(self.delayed@.take(k as int).drop_last() == self.delayed@.take(k - 1));
            }
            k -= 1;
        }
        proof {
            lemma_schedule_keeps_order(self@, event, deadline);
        }
        self.delayed.insert(k, Scheduled { deadline, payload: event });
    }

    /// Schedules `event` for the time `after` ticks from `now`.
    pub fn send_with_delay(&mut self, event: E, after: u64, now: u64)
        requires
            old(self)@.wf(),
            now + after <= u64::MAX,
        ensures
            final(self)@ == old(self)@.schedule(event, (now + after) as u64),
            final(self)@.wf(),
    {
        self.send_at(event, now + after)
    }

    /// Takes in a batch of arrivals: each lane's arrivals go behind what the
    /// lane holds, the scheduled ones each to the place of its deadline.
    pub fn accept(&mut self, arrivals: Arrivals<E>)
        requires
            old(self)@.wf(),
        ensures
            final(self)@ == old(self)@.arrive(
                arrivals.urgent@,
                arrivals.delayed@,
                arrivals.normal@,
            ),
            final(self)@.wf(),
    {
        let Arrivals { mut urgent, mut delayed, mut normal } = arrivals;
        self.urgent.append(&mut urgent);
        self.normal.append(&mut normal);
        let ghost staged = self@;
        let ghost items = delayed@;
        let ghost mut taken: int = 0;
        while delayed.len() > 0
            invariant
                0 <= taken <= items.len(),
                delayed@ == items.skip(taken),
                self@.wf(),
                self@ == staged.schedule_all(items.take(taken)),
            decreases delayed.len(),
        {
            let item = delayed.remove(0);
            proof {
                assert(items.take(taken + 1).drop_last() == items.take(taken));
                assert(items.take(taken + 1).last() == item);
                assert(items.skip(taken).remove(0) == items.skip(taken + 1));
                taken = taken + 1;
            }
            self.send_at(item.payload, item.deadline);
        }
        proof {
            assert(items.take(taken) == items);
            lemma_schedule_all_lanes(staged, old(self)@, items);
        }
    }

    /// The deadline of the scheduled event that is due first.
    pub fn next_instant(&self) -> (deadline: Option<u64>)
        ensures
            deadline == (if self@.delayed.len() > 0 {
                Some(self@.delayed[0].deadline)
            } else {
                None
            }),
    {
        if self.delayed.len() > 0 {
            Some(self.delayed[0].deadline)
        } else {
            None
        }
    }

    /// Takes the scheduled event that is due first, if its deadline has
    /// passed at `now`.
    pub fn next_timed_event(&mut self, now: u64) -> (event: Option<E>)
        requires
            old(self)@.wf(),
        ensures
            final(self)@.wf(),
            old(self)@.timer_due(now) ==> event == Some(old(self)@.delayed[0].payload)
                && final(self)@ == (Lanes {
                delayed: old(self)@.delayed.remove(0),
                ..old(self)@
            }),
            !old(self)@.timer_due(now) ==> event is None && final(self)@ == old(self)@,
    {
        if self.delayed.len() > 0 && self.delayed[0].deadline < now {
            proof {
                lemma_next_keeps_order(
                    Lanes { urgent: Seq::empty(), normal: self@.normal, delayed: self@.delayed },
                    now,
                );
            }
            let first = self.delayed.remove(0);
            Some(first.payload)
        } else {
            None
        }
    }

    /// Serves the mailbox at the time `now`: takes out and returns the event
    /// to handle next, or says how long to wait and takes nothing.
    pub fn next(&mut self, now: u64) -> (step: Next<E>)
        requires
            old(self)@.wf(),
        ensures
            step == old(self)@.next(now),
            final(self)@ == old(self)@.after_next(now),
            final(self)@.wf(),
    {
        proof {
            lemma_next_keeps_order(self@, now);
        }
        if self.urgent.len() > 0 {
            return Next::Event(self.urgent.remove(0));
        }
        if let Some(event) = self.next_timed_event(now) {
            return Next::Event(event);
        }
        if self.normal.len() > 0 {
            return Next::Event(self.normal.remove(0));
        }
        Next::Wait(self.next_instant())
    }
}

} // verus!
