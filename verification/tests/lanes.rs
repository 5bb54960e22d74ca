use ball_game::events::EventQueue;
use ball_game::mailbox::{Arrivals, Mailbox, Next, Scheduled};

#[test]
fn empty_mailbox_waits_without_deadline() {
    let mut m: Mailbox<u32> = Mailbox::new();
    assert_eq!(m.next(0), Next::Wait(None));
    assert_eq!(m.next_instant(), None);
}

#[test]
fn urgent_comes_first_when_normal_arrived_first() {
    let mut m: Mailbox<&str> = Mailbox::new();
    m.send("normal");
    m.send_with_urgency("urgent");
    assert_eq!(m.next(0), Next::Event("urgent"));
    assert_eq!(m.next(0), Next::Event("normal"));
    assert_eq!(m.next(0), Next::Wait(None));
}

#[test]
fn urgent_comes_first_when_urgent_arrived_first() {
    let mut m: Mailbox<&str> = Mailbox::new();
    m.send_with_urgency("urgent");
    m.send("normal");
    assert_eq!(m.next(0), Next::Event("urgent"));
    assert_eq!(m.next(0), Next::Event("normal"));
}

#[test]
fn lanes_are_first_in_first_out() {
    let mut m: Mailbox<u8> = Mailbox::new();
    m.send(1);
    m.send(2);
    m.send_with_urgency(10);
    m.send_with_urgency(11);
    assert_eq!(m.next(0), Next::Event(10));
    assert_eq!(m.next(0), Next::Event(11));
    assert_eq!(m.next(0), Next::Event(1));
    assert_eq!(m.next(0), Next::Event(2));
}

#[test]
fn delayed_event_is_not_served_before_its_deadline() {
    let mut m: Mailbox<&str> = Mailbox::new();
    m.send_with_delay("check", 50, 100);
    assert_eq!(m.next_instant(), Some(150));
    assert_eq!(m.next(100), Next::Wait(Some(150)));
    assert_eq!(m.next(149), Next::Wait(Some(150)));
    assert_eq!(m.next(150), Next::Wait(Some(150)));
    assert_eq!(m.next(151), Next::Event("check"));
    assert_eq!(m.next(151), Next::Wait(None));
}

#[test]
fn due_event_comes_before_normal_events() {
    let mut m: Mailbox<&str> = Mailbox::new();
    m.send_with_delay("timer", 10, 0);
    m.send("normal");
    assert_eq!(m.next(5), Next::Event("normal"));
    m.send("later");
    assert_eq!(m.next(11), Next::Event("timer"));
    assert_eq!(m.next(11), Next::Event("later"));
}

#[test]
fn urgent_comes_before_due_event() {
    let mut m: Mailbox<&str> = Mailbox::new();
    m.send_with_delay("timer", 1, 0);
    m.send_with_urgency("urgent");
    assert_eq!(m.next(100), Next::Event("urgent"));
    assert_eq!(m.next(100), Next::Event("timer"));
}

#[test]
fn due_events_come_by_deadline_and_then_by_arrival() {
    let mut m: Mailbox<&str> = Mailbox::new();
    m.send_with_delay("c", 30, 0);
    m.send_with_delay("a", 10, 0);
    m.send_with_delay("b1", 20, 0);
    m.send_with_delay("b2", 20, 0);
    assert_eq!(m.next_instant(), Some(10));
    assert_eq!(m.next(25), Next::Event("a"));
    assert_eq!(m.next(25), Next::Event("b1"));
    assert_eq!(m.next(25), Next::Event("b2"));
    assert_eq!(m.next(25), Next::Wait(Some(30)));
    assert_eq!(m.next(31), Next::Event("c"));
}

#[test]
fn next_timed_event_takes_only_what_is_due() {
    let mut m: Mailbox<u8> = Mailbox::new();
    m.send_at(1, 7);
    assert_eq!(m.next_timed_event(7), None);
    assert_eq!(m.next_timed_event(8), Some(1));
    assert_eq!(m.next_timed_event(8), None);
}

#[test]
fn accept_files_each_arrival_in_its_lane() {
    let mut m: Mailbox<u8> = Mailbox::new();
    m.send(1);
    m.send_at(9, 50);
    m.accept(Arrivals {
        urgent: vec![100, 101],
        delayed: vec![
            Scheduled { deadline: 60, payload: 8 },
            Scheduled { deadline: 40, payload: 7 },
        ],
        normal: vec![2],
    });
    assert_eq!(m.next(0), Next::Event(100));
    assert_eq!(m.next(0), Next::Event(101));
    assert_eq!(m.next(100), Next::Event(7));
    assert_eq!(m.next(100), Next::Event(9));
    assert_eq!(m.next(100), Next::Event(8));
    assert_eq!(m.next(100), Next::Event(1));
    assert_eq!(m.next(100), Next::Event(2));
    assert_eq!(m.next(100), Next::Wait(None));
}

#[test]
fn queue_serves_what_its_senders_enqueued() {
    let mut q: EventQueue<&str> = EventQueue::default();
    let tx = q.sender().clone();
    tx.send("normal");
    q.sender().send_with_urgency("urgent");
    tx.send_with_delay("timer", 10, 0);
    assert_eq!(q.poll(5), Next::Event("urgent"));
    assert_eq!(q.poll(5), Next::Event("normal"));
    assert_eq!(q.poll(5), Next::Wait(Some(10)));
    assert_eq!(q.poll(10), Next::Wait(Some(10)));
    tx.send("late");
    assert_eq!(q.poll(11), Next::Event("timer"));
    assert_eq!(q.poll(11), Next::Event("late"));
    assert_eq!(q.poll(11), Next::Wait(None));
}

#[test]
fn queue_collects_then_accepts() {
    let mut q: EventQueue<u8> = EventQueue::default();
    q.sender().send(1);
    q.sender().send(2);
    q.sender().send_with_urgency(3);
    let arrivals = q.collect();
    assert_eq!(arrivals.urgent, vec![3]);
    assert_eq!(arrivals.normal, vec![1, 2]);
    assert_eq!(arrivals.delayed.len(), 0);
    assert_eq!(q.next(0), Next::Wait(None));
    q.accept(arrivals);
    assert_eq!(q.next(0), Next::Event(3));
    assert_eq!(q.next(0), Next::Event(1));
    assert_eq!(q.next(0), Next::Event(2));
    assert_eq!(q.urgent_channel().len(), 0);
    assert_eq!(q.normal_channel().len(), 0);
    assert_eq!(q.timer_channel().len(), 0);
}

#[test]
fn sending_to_a_queue_that_is_gone_is_no_error() {
    let q: EventQueue<u8> = EventQueue::default();
    let tx = q.sender().clone();
    drop(q);
    tx.send(1);
    tx.send_with_urgency(2);
    tx.send_with_delay(3, 1, 1);
}
