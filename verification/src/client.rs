//! The decisions of the terminal client: what a line of input asks for, what
//! a message of the server changes in the client's picture of the game, and
//! what the loop that keeps the connection does with each thing that happens.
//!
//! The owner reads the terminal and the transport, hands each event in, and
//! carries out what it gets back: it prints notices and enqueues messages.
use vstd::prelude::*;
use vstd::utf8::encode_utf8;
use crate::game::{GameInfo, Player};
use crate::message::{GameState, GameStateView, ToClient, ToClientView, ToServer, WhoPassed};
use crate::server::{remove_player, without};

verus! {

/// Seconds between two heartbeats of the client.
pub const HEARTBEAT_PERIOD_SECS: u64 = 2;

/// The options of the client's command line.
#[derive(Debug, Default)]
pub struct CliOpts {
    /// Address of the server to connect to.
    pub server_addr: String,
}

/// What the client application is told.
#[derive(Debug, PartialEq, Eq)]
pub enum Event {
    /// A line that the user typed.
    Input(String),
    ServerMessage(ToClient),
    ConnectionDropped,
    CtrlC,
}

/// Something to show to the user.
#[derive(Debug, PartialEq, Eq)]
pub enum Notice {
    Joined(Player),
    Left(Player),
    /// The token went to the second player; the first held it before, as
    /// far as the client knew.
    Passed(Option<Player>, Player, WhoPassed),
    Disconnected(String),
    InvalidInput,
    ConnectionDropped,
}

/// What the owner is to do.
#[derive(Debug, PartialEq, Eq)]
pub enum Effect {
    Show(Notice),
    /// Enqueue on the normal lane of the connection.
    Send(ToServer),
    /// Enqueue on the urgent lane of the connection.
    SendUrgent(ToServer),
}

/// What handling one event asks of the owner.
#[derive(Debug, PartialEq, Eq)]
pub struct Reaction {
    pub effect: Option<Effect>,
    /// Whether the application ends.
    pub stop: bool,
}

/// What an `Event` holds.
pub enum EventView {
    Input(Seq<char>),
    ServerMessage(ToClientView),
    ConnectionDropped,
    CtrlC,
}

/// What a `Notice` holds.
pub enum NoticeView {
    Joined(Player),
    Left(Player),
    Passed(Option<Player>, Player, WhoPassed),
    Disconnected(Seq<char>),
    InvalidInput,
    ConnectionDropped,
}

/// What an `Effect` holds.
pub enum EffectView {
    Show(NoticeView),
    Send(ToServer),
    SendUrgent(ToServer),
}

impl View for Event {
    type V = EventView;

    open spec fn view(&self) -> EventView {
        match *self {
            Event::Input(line) => EventView::Input(line@),
            Event::ServerMessage(msg) => EventView::ServerMessage(msg@),
            Event::ConnectionDropped => EventView::ConnectionDropped,
            Event::CtrlC => EventView::CtrlC,
        }
    }
}

impl View for Notice {
    type V = NoticeView;

    open spec fn view(&self) -> NoticeView {
        match *self {
            Notice::Joined(player) => NoticeView::Joined(player),
            Notice::Left(player) => NoticeView::Left(player),
            Notice::Passed(from, to, who) => NoticeView::Passed(from, to, who),
            Notice::Disconnected(reason) => NoticeView::Disconnected(reason@),
            Notice::InvalidInput => NoticeView::InvalidInput,
            Notice::ConnectionDropped => NoticeView::ConnectionDropped,
        }
    }
}

impl View for Effect {
    type V = EffectView;

    open spec fn view(&self) -> EffectView {
        match *self {
            Effect::Show(notice) => EffectView::Show(notice@),
            Effect::Send(msg) => EffectView::Send(msg),
            Effect::SendUrgent(msg) => EffectView::SendUrgent(msg),
        }
    }
}

/// The contents of an effect, if there is one.
pub open spec fn effect_view(effect: Option<Effect>) -> Option<EffectView> {
    match effect {
        Some(effect) => Some(effect@),
        None => None,
    }
}

pub open spec fn is_digit(byte: u8) -> bool {
    48 <= byte <= 57
}

pub open spec fn all_digits(text: Seq<u8>) -> bool {
    forall|i: int| 0 <= i < text.len() ==> is_digit(#[trigger] text[i])
}

/// The number that a run of decimal digits stands for.
pub open spec fn digits_value(text: Seq<u8>) -> nat
    decreases text.len(),
{
    if text.len() == 0 {
        0
    } else {
        digits_value(text.drop_last()) * 10 + (text.last() - 48) as nat
    }
}

/// The identity that `text` stands for: decimal digits, at least one, after
/// an optional plus sign, with a value that fits the machine word.
pub open spec fn number(text: Seq<u8>) -> Option<usize> {
    let digits = if text.len() > 0 && text[0] == 43 {
        text.skip(1)
    } else {
        text
    };
    if digits.len() > 0 && all_digits(digits) && digits_value(digits) <= usize::MAX {
        Some(digits_value(digits) as usize)
    } else {
        None
    }
}

/// Whether `end` is where the word that starts at `start` ends: at the first
/// space from `start` on, or at the end of the line.
pub open spec fn word_ends(line: Seq<u8>, start: int, end: int) -> bool {
    &&& start <= end <= line.len()
    &&& forall|i: int| start <= i < end ==> #[trigger] line[i] != 32
    &&& end < line.len() ==> line[end] == 32
}

/// Whether the line's first word is `pass` and a space follows it.
pub open spec fn is_pass(line: Seq<u8>) -> bool {
    line.len() >= 5 && line[0] == 112 && line[1] == 97 && line[2] == 115 && line[3] == 115
        && line[4] == 32
}

/// The player that a line of input names as the receiver: the line's first
/// word is `pass`, one space follows, and the second word is a number.
pub open spec fn command(line: Seq<u8>) -> Option<Player> {
    if is_pass(line) {
        let end = choose|end: int| word_ends(line, 5, end);
        match number(line.subrange(5, end)) {
            Some(id) => Some(Player(id)),
            None => None,
        }
    } else {
        None
    }
}

/// A word ends in one place only.
pub proof fn lemma_word_end_unique(line: Seq<u8>, start: int, a: int, b: int)
    requires
        word_ends(line, start, a),
        word_ends(line, start, b),
    ensures
        a == b,
{
    if a < b {
        assert(line[a] != 32);
    }
    if b < a {
        assert(line[b] != 32);
    }
}

/// More digits never stand for less.
pub proof fn lemma_digits_grow(text: Seq<u8>, k: int)
    requires
        0 <= k <= text.len(),
        all_digits(text),
    ensures
        digits_value(text.take(k)) <= digits_value(text),
    decreases text.len() - k,
{
    if k < text.len() {
        assert(text.take(k + 1).drop_last() == text.take(k));
        lemma_digits_grow(text, k + 1);
    } else {
        assert(text.take(k) == text);
    }
}

/// Reads a line of input. The result is the player to pass to, or `None`
/// where the line is no such command.
pub fn parse_command(line: &str) -> (receiver: Option<Player>)
    ensures
        receiver == command(encode_utf8(line@)),
{
    let bytes = line.as_bytes();
    let n = bytes.len();
    if n < 5 || bytes[0] != 112 || bytes[1] != 97 || bytes[2] != 115 || bytes[3] != 115
        || bytes[4] != 32 {
        return None;
    }
    let mut end: usize = 5;
    while end < n && bytes[end] != 32
        invariant
            5 <= end <= n,
            n == bytes@.len(),
            forall|i: int| 5 <= i < end ==> #[trigger] bytes@[i] != 32,
        decreases n - end,
    {
        end += 1;
    }
    proof {
        assert(word_ends(bytes@, 5, end as int));
        let chosen = choose|e: int| word_ends(bytes@, 5, e);
        lemma_word_end_unique(bytes@, 5, end as int, chosen);
    }
    let ghost word = bytes@.subrange(5, end as int);
    let start: usize = if end > 5 && bytes[5] == 43 {
        6
    } else {
        5
    };
    let ghost digits = bytes@.subrange(start as int, end as int);
    assert(digits == if word.len() > 0 && word[0] == 43 {
        word.skip(1)
    } else {
        word
    });
    if start == end {
        return None;
    }
    let ghost wanted = command(encode_utf8(line@));
    assert(wanted == (if all_digits(digits) && digits_value(digits) <= usize::MAX {
        Some(Player(digits_value(digits) as usize))
    } else {
        None
    }));
    let mut value: usize = 0;
    let mut k: usize = start;
    while k < end
        invariant
            start <= k <= end,
            wanted == command(encode_utf8(line@)),
            wanted == (if all_digits(digits) && digits_value(digits) <= usize::MAX {
                Some(Player(digits_value(digits) as usize))
            } else {
                None
            }),
            end <= n,
            n == bytes@.len(),
            digits == bytes@.subrange(start as int, end as int),
            forall|i: int| 0 <= i < k - start ==> is_digit(#[trigger] digits[i]),
            value == digits_value(digits.take(k - start)),
        decreases end - k,
    {
        let byte = bytes[k];
        assert(digits[k - start] == byte);
        if byte < 48 || byte > 57 {
            assert(!is_digit(digits[k - start]));
            return None;
        }
        let digit: usize = (byte - 48) as usize;
        proof {
            assert(digits.take(k - start + 1).drop_last() == digits.take(k - start));
            assert(digits.take(k - start + 1).last() == byte);
        }
        if value > (usize::MAX - digit) / 10 {
            proof {
                assert(digits_value(digits.take(k - start + 1)) > usize::MAX);
                if all_digits(digits) {
                    lemma_digits_grow(digits, k - start + 1);
                }
            }
            return None;
        }
        value = value * 10 + digit;
        k += 1;
    }
    assert(digits.take(end - start) == digits);
    Some(Player(value))
}

/// The client's picture of the game: who it is, and the state as far as the
/// server has told.
#[derive(Debug, PartialEq, Eq)]
struct Game {
    myself: Player,
    state: GameState,
}

/// What the client application knows.
pub struct ClientView {
    pub game: Option<(Player, GameStateView)>,
}

impl ClientView {
    /// The picture after `event`.
    pub open spec fn after(self, event: EventView) -> Self {
        match (event, self.game) {
            (EventView::ServerMessage(ToClientView::InitialState(myself, state)), _) => ClientView {
                game: Some((myself, state)),
            },
            (
                EventView::ServerMessage(ToClientView::PlayerJoin(player)),
                Some((myself, state)),
            ) => ClientView {
                game: Some(
                    (myself, GameStateView { players: state.players.push(player), ..state }),
                ),
            },
            (
                EventView::ServerMessage(ToClientView::PlayerLeave(player)),
                Some((myself, state)),
            ) => ClientView {
                game: Some(
                    (myself, GameStateView { players: without(state.players, player), ..state }),
                ),
            },
            (
                EventView::ServerMessage(ToClientView::PassBall(to, _)),
                Some((myself, state)),
            ) => ClientView { game: Some((myself, GameStateView { holder: Some(to), ..state })) },
            _ => self,
        }
    }

    /// What `event` asks of the owner.
    pub open spec fn effect(self, event: EventView) -> Option<EffectView> {
        match event {
            EventView::Input(line) => match command(encode_utf8(line)) {
                Some(receiver) => Some(EffectView::Send(ToServer::PassBall(receiver))),
                None => Some(EffectView::Show(NoticeView::InvalidInput)),
            },
            EventView::ServerMessage(ToClientView::InitialState(_, _)) => None,
            EventView::ServerMessage(ToClientView::PlayerJoin(player)) => if self.game is Some {
                Some(EffectView::Show(NoticeView::Joined(player)))
            } else {
                None
            },
            EventView::ServerMessage(ToClientView::PlayerLeave(player)) => if self.game is Some {
                Some(EffectView::Show(NoticeView::Left(player)))
            } else {
                None
            },
            EventView::ServerMessage(ToClientView::PassBall(to, who)) => match self.game {
                Some((_, state)) => Some(
                    EffectView::Show(NoticeView::Passed(state.holder, to, who)),
                ),
                None => None,
            },
            EventView::ServerMessage(ToClientView::Disconnect(reason)) => Some(
                EffectView::Show(NoticeView::Disconnected(reason)),
            ),
            EventView::ConnectionDropped => Some(EffectView::Show(NoticeView::ConnectionDropped)),
            EventView::CtrlC => Some(EffectView::SendUrgent(ToServer::Leave)),
        }
    }
}

/// Whether the application ends with `event`.
pub open spec fn ends_application(event: EventView) -> bool {
    event is ConnectionDropped || event is CtrlC
}

/// The client application's state.
#[derive(Debug, PartialEq, Eq)]
pub struct ClientApp {
    game: Option<Game>,
}

impl View for ClientApp {
    type V = ClientView;

    closed spec fn view(&self) -> ClientView {
        ClientView {
            game: match self.game {
                Some(game) => Some((game.myself, game.state@)),
                None => None,
            },
        }
    }
}

impl ClientApp {
    /// An application that has not heard of the server yet.
    pub fn new() -> (app: Self)
        ensures
            app@.game is None,
    {
        ClientApp { game: None }
    }

    /// Who the client is, once the server has said so.
    pub fn myself(&self) -> (player: Option<Player>)
        ensures
            player == (match self@.game {
                Some((myself, _)) => Some(myself),
                None => None,
            }),
    {
        match &self.game {
            Some(game) => Some(game.myself),
            None => None,
        }
    }

    /// The state of the game as far as the client knows it.
    pub fn state(&self) -> (state: Option<GameState>)
        ensures
            match (state, self@.game) {
                (Some(copy), Some((_, known))) => copy@ == known,
                (None, None) => true,
                _ => false,
            },
    {
        match &self.game {
            Some(game) => Some(game.state.duplicate()),
            None => None,
        }
    }

    /// Handles one event.
    pub fn handle(&mut self, event: Event) -> (reaction: Reaction)
        ensures
            final(self)@ == old(self)@.after(event@),
            effect_view(reaction.effect) == old(self)@.effect(event@),
            reaction.stop == ends_application(event@),
    {
        match event {
            Event::ServerMessage(server_msg) => {
                let effect = match server_msg {
                    ToClient::InitialState(player, state) => {
                        self.game = Some(Game { myself: player, state });
                        None
                    },
                    ToClient::PlayerJoin(pl) => {
                        match self.game.take() {
                            Some(game) => {
                                let Game { myself, state } = game;
                                let GameState { info, mut players } = state;
                                players.push(pl);
                                self.game = Some(Game { myself, state: GameState { info, players } });
                                Some(Effect::Show(Notice::Joined(pl)))
                            },
                            None => None,
                        }
                    },
                    ToClient::PlayerLeave(pl) => {
                        match self.game.take() {
                            Some(game) => {
                                let Game { myself, state } = game;
                                let players = remove_player(&state.players, pl);
                                self.game = Some(
                                    Game { myself, state: GameState { info: state.info, players } },
                                );
                                Some(Effect::Show(Notice::Left(pl)))
                            },
                            None => None,
                        }
                    },
                    ToClient::PassBall(to, who) => {
                        match self.game.take() {
                            Some(game) => {
                                let Game { myself, state } = game;
                                let from = state.info.player_with_ball;
                                self.game = Some(
                                    Game {
                                        myself,
                                        state: GameState {
                                            info: GameInfo { player_with_ball: Some(to) },
                                            players: state.players,
                                        },
                                    },
                                );
                                Some(Effect::Show(Notice::Passed(from, to, who)))
                            },
                            None => None,
                        }
                    },
                    ToClient::Disconnect(reason) => Some(
                        Effect::Show(Notice::Disconnected(reason)),
                    ),
                };
                Reaction { effect, stop: false }
            },
            Event::Input(input) => {
                let effect = match parse_command(input.as_str()) {
                    Some(receiver) => Effect::Send(ToServer::PassBall(receiver)),
                    None => Effect::Show(Notice::InvalidInput),
                };
                Reaction { effect: Some(effect), stop: false }
            },
            Event::ConnectionDropped => Reaction {
                effect: Some(Effect::Show(Notice::ConnectionDropped)),
                stop: true,
            },
            Event::CtrlC => Reaction {
                effect: Some(Effect::SendUrgent(ToServer::Leave)),
                stop: true,
            },
        }
    }
}

/// What happened on the connection to the server.
#[derive(Debug, PartialEq, Eq)]
pub enum LinkInput {
    /// It is time for a heartbeat.
    Tick,
    /// The application has a message for the server.
    Outbound(ToServer),
    /// A message could not be written.
    OutboundFailed,
    /// The server sent a message.
    Inbound(ToClient),
    /// The inbound stream failed or ended, or a frame could not be read.
    InboundFailed,
}

/// What the connection loop is to do.
#[derive(Debug, PartialEq, Eq)]
pub enum LinkAction {
    /// Enqueue this message on the connection's own normal lane.
    Enqueue(ToServer),
    /// Write this message to the server.
    Write(ToServer),
    /// Hand this message to the application.
    Forward(ToClient),
}

/// What one step of the connection loop asks for.
#[derive(Debug, PartialEq, Eq)]
pub struct LinkStep {
    pub action: Option<LinkAction>,
    /// Whether the loop ends; the application is then told, urgently, that
    /// the connection has dropped.
    pub stop: bool,
}

/// What a `LinkInput` holds.
pub enum LinkInputView {
    Tick,
    Outbound(ToServer),
    OutboundFailed,
    Inbound(ToClientView),
    InboundFailed,
}

/// What a `LinkAction` holds.
pub enum LinkActionView {
    Enqueue(ToServer),
    Write(ToServer),
    Forward(ToClientView),
}

impl View for LinkInput {
    type V = LinkInputView;

    open spec fn view(&self) -> LinkInputView {
        match *self {
            LinkInput::Tick => LinkInputView::Tick,
            LinkInput::Outbound(msg) => LinkInputView::Outbound(msg),
            LinkInput::OutboundFailed => LinkInputView::OutboundFailed,
            LinkInput::Inbound(msg) => LinkInputView::Inbound(msg@),
            LinkInput::InboundFailed => LinkInputView::InboundFailed,
        }
    }
}

impl View for LinkAction {
    type V = LinkActionView;

    open spec fn view(&self) -> LinkActionView {
        match *self {
            LinkAction::Enqueue(msg) => LinkActionView::Enqueue(msg),
            LinkAction::Write(msg) => LinkActionView::Write(msg),
            LinkAction::Forward(msg) => LinkActionView::Forward(msg@),
        }
    }
}

/// What the connection loop does on `input`: a tick enqueues a heartbeat;
/// a message of the application is written; a message of the server is
/// handed on.
pub open spec fn link_action(input: LinkInputView) -> Option<LinkActionView> {
    match input {
        LinkInputView::Tick => Some(LinkActionView::Enqueue(ToServer::Heartbeat)),
        LinkInputView::Outbound(msg) => Some(LinkActionView::Write(msg)),
        LinkInputView::Inbound(msg) => Some(LinkActionView::Forward(msg)),
        _ => None,
    }
}

/// Whether the connection loop ends with `input`: after the client's leave
/// has been written, after the server's disconnect has been handed on, and
/// on any failure.
pub open spec fn link_ends(input: LinkInputView) -> bool {
    match input {
        LinkInputView::Tick => false,
        LinkInputView::Outbound(msg) => msg is Leave,
        LinkInputView::Inbound(msg) => msg is Disconnect,
        _ => true,
    }
}

/// One step of the loop that keeps the connection to the server.
pub fn connection_step(input: LinkInput) -> (step: LinkStep)
    ensures
        (match step.action {
            Some(action) => Some(action@),
            None => None,
        }) == link_action(input@),
        step.stop == link_ends(input@),
{
    match input {
        LinkInput::Tick => LinkStep {
            action: Some(LinkAction::Enqueue(ToServer::Heartbeat)),
            stop: false,
        },
        LinkInput::Outbound(msg) => {
            let stop = match msg {
                ToServer::Leave => true,
                _ => false,
            };
            LinkStep { action: Some(LinkAction::Write(msg)), stop }
        },
        LinkInput::OutboundFailed => LinkStep { action: None, stop: true },
        LinkInput::Inbound(msg) => {
            let stop = match &msg {
                ToClient::Disconnect(_) => true,
                _ => false,
            };
            LinkStep { action: Some(LinkAction::Forward(msg)), stop }
        },
        LinkInput::InboundFailed => LinkStep { action: None, stop: true },
    }
}

} // verus!
