//! The messages of the wire protocol, one closed type per direction.
use vstd::prelude::*;
use crate::game::{GameInfo, Player};

verus! {

/// Seconds within which a client must be heard of. A client sends its
/// heartbeats more often than that.
pub const HEARTBEAT_INTERVAL_SECS: u64 = 5;

/// Client -> Server
#[derive(Clone, Copy, Debug, PartialEq, Eq, Structural)]
pub enum ToServer {
    Heartbeat,
    PassBall(Player),
    Leave,
}

/// Why the token moved.
#[derive(Clone, Copy, Debug, PartialEq, Eq, Structural)]
pub enum WhoPassed {
    /// The holder passed it on.
    Player,
    /// The holder departed and the coordinator reassigned it.
    PlayerWithBallLeft,
    /// Nobody held it and a joining player received it.
    PlayerStumbledUponBall,
}

/// The registry and the token as one snapshot.
#[derive(Clone, Debug, PartialEq, Eq)]
pub struct GameState {
    pub info: GameInfo,
    pub players: Vec<Player>,
}

/// Server -> Client
#[derive(Clone, Debug, PartialEq, Eq)]
pub enum ToClient {
    InitialState(Player, GameState),
    PlayerJoin(Player),
    PlayerLeave(Player),
    PassBall(Player, WhoPassed),
    Disconnect(String),
}

/// What a `GameState` holds.
pub struct GameStateView {
    pub holder: Option<Player>,
    pub players: Seq<Player>,
}

/// What a `ToClient` holds.
pub enum ToClientView {
    InitialState(Player, GameStateView),
    PlayerJoin(Player),
    PlayerLeave(Player),
    PassBall(Player, WhoPassed),
    Disconnect(Seq<char>),
}

impl View for GameState {
    type V = GameStateView;

    open spec fn view(&self) -> GameStateView {
        GameStateView { holder: self.info.player_with_ball, players: self.players@ }
    }
}

impl View for ToClient {
    type V = ToClientView;

    open spec fn view(&self) -> ToClientView {
        match *self {
            ToClient::InitialState(player, state) => ToClientView::InitialState(player, state@),
            ToClient::PlayerJoin(player) => ToClientView::PlayerJoin(player),
            ToClient::PlayerLeave(player) => ToClientView::PlayerLeave(player),
            ToClient::PassBall(player, who) => ToClientView::PassBall(player, who),
            ToClient::Disconnect(reason) => ToClientView::Disconnect(reason@),
        }
    }
}

/// A copy of a list of players.
pub fn copy_players(players: &Vec<Player>) -> (copy: Vec<Player>)
    ensures
        copy@ == players@,
{
    let mut copy: Vec<Player> = Vec::new();
    let mut i: usize = 0;
    while i < players.len()
        invariant
            i <= players.len(),
            copy@ == players@.take(i as int),
        decreases players.len() - i,
    {
        copy.push(players[i]);
        i += 1;
        assert(players@.take(i as int) == players@.take(i - 1).push(players@[i - 1]));
    }
    assert(players@.take(players@.len() as int) == players@);
    copy
}

impl GameState {
    /// A copy with the same holder and the same players.
    pub fn duplicate(&self) -> (copy: Self)
        ensures
            copy@ == self@,
    {
        GameState {
            info: GameInfo { player_with_ball: self.info.player_with_ball },
            players: copy_players(&self.players),
        }
    }
}

impl ToClient {
    /// A copy that holds the same message.
    pub fn duplicate(&self) -> (copy: Self)
        ensures
            copy@ == self@,
    {
        match self {
            ToClient::InitialState(player, state) => ToClient::InitialState(
                *player,
                state.duplicate(),
            ),
            ToClient::PlayerJoin(player) => ToClient::PlayerJoin(*player),
            ToClient::PlayerLeave(player) => ToClient::PlayerLeave(*player),
            ToClient::PassBall(player, who) => ToClient::PassBall(*player, *who),
            ToClient::Disconnect(reason) => ToClient::Disconnect(reason.clone()),
        }
    }
}

} // verus!
