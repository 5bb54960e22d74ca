//! The protocol of one connection, as a state machine.
//!
//! A session greets its peer, is active until something ends it, owes the
//! peer a last notice or not, and closes by telling the coordinator. The
//! owner reads the transport, the session's mailbox and the clock, hands each
//! thing that happened to `handle`, and carries out the actions it gets back.
//!
//! Time is a count of ticks of the owner's clock.
use vstd::prelude::*;
use crate::game::Player;
use crate::mailbox::{Lanes, Next};
use crate::message::{GameState, GameStateView, ToClient, ToClientView, ToServer};
use crate::server::Event;

verus! {

/// Seconds without a heartbeat after which a peer is taken for gone.
pub const HEARTBEAT_TIMEOUT_SECS: u64 = crate::message::HEARTBEAT_INTERVAL_SECS;

/// Where a session stands.
#[derive(Clone, Copy, Debug, PartialEq, Eq, Structural)]
pub enum Phase {
    Greeting,
    Active,
    Terminating,
    Closed,
}

/// Why a session ends.
#[derive(Clone, Copy, Debug, PartialEq, Eq, Structural)]
pub enum Cause {
    /// No heartbeat arrived within the timeout.
    HeartbeatFailed,
    /// The transport failed, or a frame could not be read.
    ConnectionError,
    /// The peer said that it leaves.
    PeerLeft,
    /// The coordinator said so.
    Directed,
}

/// What happened.
#[derive(Debug, PartialEq, Eq)]
pub enum Input {
    /// The scheduled heartbeat check is due.
    HeartbeatCheck,
    /// The coordinator has a message for the peer.
    FromServer(ToClient),
    /// The peer sent a message.
    FromClient(ToServer),
    /// The inbound stream failed or ended, or a frame could not be read.
    InboundFailed,
    /// A message could not be written to the peer.
    OutboundFailed,
}

/// What the owner is to do.
#[derive(Debug, PartialEq, Eq)]
pub enum Action {
    /// Write this message to the peer.
    Send(ToClient),
    /// Schedule a heartbeat check for this many ticks from now.
    ScheduleHeartbeatCheck(u64),
    /// Enqueue this event on the coordinator's normal lane.
    Notify(Event),
}

/// What an `Input` holds.
pub enum InputView {
    HeartbeatCheck,
    FromServer(ToClientView),
    FromClient(ToServer),
    InboundFailed,
    OutboundFailed,
}

/// What an `Action` holds.
pub enum ActionView {
    Send(ToClientView),
    ScheduleHeartbeatCheck(u64),
    Notify(Event),
}

impl View for Input {
    type V = InputView;

    open spec fn view(&self) -> InputView {
        match *self {
            Input::HeartbeatCheck => InputView::HeartbeatCheck,
            Input::FromServer(msg) => InputView::FromServer(msg@),
            Input::FromClient(msg) => InputView::FromClient(msg),
            Input::InboundFailed => InputView::InboundFailed,
            Input::OutboundFailed => InputView::OutboundFailed,
        }
    }
}

impl View for Action {
    type V = ActionView;

    open spec fn view(&self) -> ActionView {
        match *self {
            Action::Send(msg) => ActionView::Send(msg@),
            Action::ScheduleHeartbeatCheck(after) => ActionView::ScheduleHeartbeatCheck(after),
            Action::Notify(event) => ActionView::Notify(event),
        }
    }
}

/// The contents of a list of actions.
pub open spec fn actions(list: Seq<Action>) -> Seq<ActionView> {
    list.map_values(|a: Action| a@)
}

/// The ticks from `since` to `now`; none where `now` is not later.
pub open spec fn elapsed(now: u64, since: u64) -> int {
    if now >= since {
        now - since
    } else {
        0
    }
}

/// What a session holds.
pub struct SessionView {
    pub player: Player,
    pub phase: Phase,
    /// When the peer was last heard of.
    pub last_heartbeat: u64,
    /// The longest silence that is borne, in ticks.
    pub timeout: u64,
    /// Why the session ends, once it does.
    pub cause: Option<Cause>,
    /// The last notice that the peer is owed, if any.
    pub notice: Option<Seq<char>>,
}

impl SessionView {
    /// The session once it ends for `cause`, owing `notice`.
    pub open spec fn ended(self, cause: Cause, notice: Option<Seq<char>>) -> Self {
        SessionView { phase: Phase::Terminating, cause: Some(cause), notice, ..self }
    }

    /// Whether the peer has been silent for longer than the timeout at `now`.
    pub open spec fn timed_out(self, now: u64) -> bool {
        elapsed(now, self.last_heartbeat) > self.timeout
    }

    /// The session after the greeting at `now`.
    pub open spec fn started(self, now: u64) -> Self {
        if self.phase == Phase::Greeting {
            SessionView { phase: Phase::Active, last_heartbeat: now, ..self }
        } else {
            self
        }
    }

    /// What the greeting asks for: the peer gets its identity and the
    /// snapshot, and the first heartbeat check is scheduled.
    pub open spec fn greeting(self, initial_state: GameStateView) -> Seq<ActionView> {
        if self.phase == Phase::Greeting {
            seq![
                ActionView::Send(ToClientView::InitialState(self.player, initial_state)),
                ActionView::ScheduleHeartbeatCheck(self.timeout),
            ]
        } else {
            Seq::empty()
        }
    }

    /// The session after `input` at the time `now`.
    pub open spec fn after(self, input: InputView, now: u64) -> Self {
        if self.phase != Phase::Active {
            self
        } else {
            match input {
                InputView::HeartbeatCheck => if self.timed_out(now) {
                    self.ended(Cause::HeartbeatFailed, Some("heartbeat failed"@))
                } else {
                    self
                },
                InputView::FromServer(ToClientView::Disconnect(reason)) => self.ended(
                    Cause::Directed,
                    Some(reason),
                ),
                InputView::FromServer(_) => self,
                InputView::FromClient(ToServer::Heartbeat) => SessionView {
                    last_heartbeat: now,
                    ..self
                },
                InputView::FromClient(ToServer::Leave) => self.ended(Cause::PeerLeft, None),
                InputView::FromClient(ToServer::PassBall(_)) => self,
                InputView::InboundFailed => self.ended(Cause::ConnectionError, None),
                InputView::OutboundFailed => self.ended(Cause::ConnectionError, None),
            }
        }
    }

    /// What `input` asks of the owner.
    pub open spec fn reaction(self, input: InputView) -> Seq<ActionView> {
        if self.phase != Phase::Active {
            Seq::empty()
        } else {
            match input {
                InputView::FromServer(ToClientView::Disconnect(_)) => Seq::empty(),
                InputView::FromServer(msg) => seq![ActionView::Send(msg)],
                InputView::FromClient(ToServer::Heartbeat) => seq![
                    ActionView::ScheduleHeartbeatCheck(self.timeout),
                ],
                InputView::FromClient(ToServer::PassBall(receiver)) => seq![
                    ActionView::Notify(Event::PassBall(self.player, receiver)),
                ],
                _ => Seq::empty(),
            }
        }
    }

    /// The session once it has closed.
    pub open spec fn closed(self) -> Self {
        if self.phase == Phase::Terminating {
            SessionView { phase: Phase::Closed, notice: None, ..self }
        } else {
            self
        }
    }

    /// What closing asks of the owner: the notice, where one is owed, and
    /// the word to the coordinator that the player has left.
    pub open spec fn farewell(self) -> Seq<ActionView> {
        if self.phase != Phase::Terminating {
            Seq::empty()
        } else {
            match self.notice {
                Some(reason) => seq![
                    ActionView::Send(ToClientView::Disconnect(reason)),
                    ActionView::Notify(Event::PlayerLeft(self.player)),
                ],
                None => seq![ActionView::Notify(Event::PlayerLeft(self.player))],
            }
        }
    }
}

/// A heartbeat check ends the session exactly when the peer has been silent
/// for longer than the timeout, and then for the reason "heartbeat failed";
/// a check that comes sooner changes nothing.
pub proof fn lemma_heartbeat_check(session: SessionView, now: u64)
    requires
        session.phase == Phase::Active,
    ensures
        session.timed_out(now) ==> session.after(InputView::HeartbeatCheck, now)
            == session.ended(Cause::HeartbeatFailed, Some("heartbeat failed"@)),
        !session.timed_out(now) ==> session.after(InputView::HeartbeatCheck, now) == session,
        now <= session.last_heartbeat + session.timeout ==> session.after(
            InputView::HeartbeatCheck,
            now,
        ).phase == Phase::Active,
{
}

/// A peer that falls silent is found out by the check that its last
/// heartbeat scheduled: the heartbeat at `at` asks for a check `timeout`
/// ticks later, and that check, served at any time after its deadline with no
/// heartbeat in between, ends the session.
pub proof fn lemma_silence_is_found_out(session: SessionView, at: u64, now: u64)
    requires
        session.phase == Phase::Active,
        at + session.timeout < now,
    ensures
        session.reaction(InputView::FromClient(ToServer::Heartbeat)) == seq![
            ActionView::ScheduleHeartbeatCheck(session.timeout),
        ],
        session.after(InputView::FromClient(ToServer::Heartbeat), at).after(
            InputView::HeartbeatCheck,
            now,
        ).phase == Phase::Terminating,
        session.after(InputView::FromClient(ToServer::Heartbeat), at).after(
            InputView::HeartbeatCheck,
            now,
        ).cause == Some(Cause::HeartbeatFailed),
{
}

/// The heartbeat timeout from end to end. A heartbeat at `at` schedules a
/// check for `at + timeout`. In a mailbox with no urgent event and no earlier
/// check waiting, that check is not served while `now` is no later than its
/// deadline, and it is served by the first call after the deadline. Served
/// then, with no heartbeat in between, it ends the session for the reason
/// "heartbeat failed".
pub proof fn lemma_timeout_end_to_end(
    session: SessionView,
    mailbox: Lanes<InputView>,
    at: u64,
    now: u64,
)
    requires
        session.phase == Phase::Active,
        at + session.timeout <= u64::MAX,
        mailbox.urgent.len() == 0,
        mailbox.delayed.len() == 0,
    ensures
        ({
            let deadline = (at + session.timeout) as u64;
            let beating = session.after(InputView::FromClient(ToServer::Heartbeat), at);
            let armed = mailbox.schedule(InputView::HeartbeatCheck, deadline);
            &&& now <= deadline ==> armed.after_next(now).delayed == armed.delayed
            &&& now <= deadline ==> beating.after(InputView::HeartbeatCheck, now).phase
                == Phase::Active
            &&& now > deadline ==> armed.next(now) == Next::Event(InputView::HeartbeatCheck)
            &&& now > deadline ==> beating.after(InputView::HeartbeatCheck, now)
                == beating.ended(Cause::HeartbeatFailed, Some("heartbeat failed"@))
        }),
{
    let deadline = (at + session.timeout) as u64;
    let armed = mailbox.schedule(InputView::HeartbeatCheck, deadline);
    assert(armed.delayed.len() == 1);
    assert(armed.delayed[0].deadline == deadline);
}

/// The coordinator is told of a departure once: closing a session that has
/// closed asks for nothing.
pub proof fn lemma_closes_once(session: SessionView)
    ensures
        session.closed().farewell() == Seq::<ActionView>::empty(),
        session.closed().closed() == session.closed(),
{
}

/// The session of one connected player.
#[derive(Debug, PartialEq, Eq)]
pub struct ClientSession {
    player: Player,
    phase: Phase,
    last_heartbeat: u64,
    timeout: u64,
    cause: Option<Cause>,
    notice: Option<String>,
}

impl View for ClientSession {
    type V = SessionView;

    closed spec fn view(&self) -> SessionView {
        SessionView {
            player: self.player,
            phase: self.phase,
            last_heartbeat: self.last_heartbeat,
            timeout: self.timeout,
            cause: self.cause,
            notice: match self.notice {
                Some(reason) => Some(reason@),
                None => None,
            },
        }
    }
}

impl ClientSession {
    /// A session for the player `id`, which bears a silence of `timeout`
    /// ticks.
    pub fn new(id: Player, timeout: u64) -> (session: Self)
        ensures
            session@ == (SessionView {
                player: id,
                phase: Phase::Greeting,
                last_heartbeat: 0,
                timeout,
                cause: None,
                notice: None,
            }),
    {
        Self {
            player: id,
            phase: Phase::Greeting,
            last_heartbeat: 0,
            timeout,
            cause: None,
            notice: None,
        }
    }

    pub fn player(&self) -> (player: Player)
        ensures
            player == self@.player,
    {
        self.player
    }

    pub fn phase(&self) -> (phase: Phase)
        ensures
            phase == self@.phase,
    {
        self.phase
    }

    /// Why the session ends, once it does.
    pub fn cause(&self) -> (cause: Option<Cause>)
        ensures
            cause == self@.cause,
    {
        self.cause
    }

    /// Greets the peer at the time `now`.
    pub fn start(&mut self, initial_state: GameState, now: u64) -> (list: Vec<Action>)
        ensures
            final(self)@ == old(self)@.started(now),
            actions(list@) == old(self)@.greeting(initial_state@),
    {
        let mut list: Vec<Action> = Vec::new();
        if self.phase == Phase::Greeting {
            list.push(Action::Send(ToClient::InitialState(self.player, initial_state)));
            list.push(Action::ScheduleHeartbeatCheck(self.timeout));
            self.phase = Phase::Active;
            self.last_heartbeat = now;
        }
        assert(actions(list@) =~= old(self)@.greeting(initial_state@));
        list
    }

    fn end(&mut self, cause: Cause, notice: Option<String>)
        ensures
            final(self)@ == old(self)@.ended(
                cause,
                match notice {
                    Some(reason) => Some(reason@),
                    None => None,
                },
            ),
    {
        self.phase = Phase::Terminating;
        self.cause = Some(cause);
        self.notice = notice;
    }

    /// Handles one thing that happened, at the time `now`.
    pub fn handle(&mut self, input: Input, now: u64) -> (list: Vec<Action>)
        ensures
            final(self)@ == old(self)@.after(input@, now),
            actions(list@) == old(self)@.reaction(input@),
    {
        let mut list: Vec<Action> = Vec::new();
        if self.phase == Phase::Active {
            match input {
                Input::HeartbeatCheck => {
                    if now >= self.last_heartbeat && now - self.last_heartbeat > self.timeout {
                        self.end(Cause::HeartbeatFailed, Some("heartbeat failed".to_owned()));
                    }
                },
                Input::FromServer(msg) => {
                    match msg {
                        ToClient::Disconnect(reason) => {
                            self.end(Cause::Directed, Some(reason));
                        },
                        other => {
                            list.push(Action::Send(other));
                        },
                    }
                },
                Input::FromClient(msg) => {
                    match msg {
                        ToServer::Heartbeat => {
                            self.last_heartbeat = now;
                            list.push(Action::ScheduleHeartbeatCheck(self.timeout));
                        },
                        ToServer::Leave => {
                            self.end(Cause::PeerLeft, None);
                        },
                        ToServer::PassBall(receiver) => {
                            list.push(Action::Notify(Event::PassBall(self.player, receiver)));
                        },
                    }
                },
                Input::InboundFailed => {
                    self.end(Cause::ConnectionError, None);
                },
                Input::OutboundFailed => {
                    self.end(Cause::ConnectionError, None);
                },
            }
        }
        assert(actions(list@) =~= old(self)@.reaction(input@));
        list
    }

    /// Closes a session that has ended.
    pub fn close(&mut self) -> (list: Vec<Action>)
        ensures
            final(self)@ == old(self)@.closed(),
            actions(list@) == old(self)@.farewell(),
    {
        let mut list: Vec<Action> = Vec::new();
        if self.phase == Phase::Terminating {
            if let Some(reason) = self.notice.take() {
                list.push(Action::Send(ToClient::Disconnect(reason)));
            }
            list.push(Action::Notify(Event::PlayerLeft(self.player)));
            self.phase = Phase::Closed;
        }
        assert(actions(list@) =~= old(self)@.farewell());
        list
    }
}

} // verus!
