//! The coordinator: the registry of connected players and the rules by which
//! the token moves between them.
//!
//! The coordinator handles one event at a time. Each handler changes the
//! registry and the token and returns the messages to hand to the players'
//! mailboxes, in the order in which they are to be enqueued.
use vstd::prelude::*;
use crate::game::{GameInfo, Player};
use crate::message::{GameState, GameStateView, ToClient, ToClientView, WhoPassed};

verus! {

/// The port on which the server listens where none is given.
pub const DEFAULT_PORT: u16 = 4565;

/// The options of the server's command line.
#[derive(Debug)]
pub struct CliOpts {
    /// Port for the server to run on.
    pub port: u16,
}

/// What the coordinator is told.
#[derive(Clone, Copy, Debug, PartialEq, Eq, Structural)]
pub enum Event {
    /// The process was asked to stop.
    CtrlC,
    /// A session has ended.
    PlayerLeft(Player),
    /// The first player asks that the token go to the second.
    PassBall(Player, Player),
}

/// One message for one player's mailbox.
#[derive(Debug, PartialEq, Eq)]
pub struct Delivery {
    pub to: Player,
    pub message: ToClient,
    /// Whether it goes to the urgent lane.
    pub urgent: bool,
}

/// What a `Delivery` holds.
pub struct DeliveryView {
    pub to: Player,
    pub message: ToClientView,
    pub urgent: bool,
}

impl View for Delivery {
    type V = DeliveryView;

    open spec fn view(&self) -> DeliveryView {
        DeliveryView { to: self.to, message: self.message@, urgent: self.urgent }
    }
}

/// What a newly accepted player is given, and what the others are told.
#[derive(Debug, PartialEq, Eq)]
pub struct Admission {
    pub player: Player,
    /// The registry and the token as they were before the player joined.
    pub initial_state: GameState,
    pub deliveries: Vec<Delivery>,
}

/// What handling one event asks of the caller.
#[derive(Debug, PartialEq, Eq)]
pub struct Outcome {
    pub deliveries: Vec<Delivery>,
    /// Whether the coordinator is to stop accepting connections and end.
    pub stop: bool,
}

/// The contents of a list of deliveries.
pub open spec fn deliveries(list: Seq<Delivery>) -> Seq<DeliveryView> {
    list.map_values(|d: Delivery| d@)
}

/// One copy of `message` for each of `players`, in their order.
pub open spec fn fan_out(players: Seq<Player>, message: ToClientView, urgent: bool) -> Seq<
    DeliveryView,
> {
    Seq::new(players.len(), |i: int| DeliveryView { to: players[i], message, urgent })
}

/// `players` with every occurrence of `leaving` taken out.
pub open spec fn without(players: Seq<Player>, leaving: Player) -> Seq<Player>
    decreases players.len(),
{
    if players.len() == 0 {
        players
    } else if players.last() == leaving {
        without(players.drop_last(), leaving)
    } else {
        without(players.drop_last(), leaving).push(players.last())
    }
}

/// Identities grow strictly along the list.
pub open spec fn ascending(players: Seq<Player>) -> bool {
    forall|i: int, j: int| 0 <= i < j < players.len() ==> players[i].0 < players[j].0
}

/// The tag of a pass, by the state in which it is made: an ordinary pass
/// where the holder is registered, a reassignment where the holder has gone,
/// a first assignment where nobody holds the token.
pub open spec fn pass_tag(registry: Seq<Player>, token: Option<Player>) -> WhoPassed {
    match token {
        Some(holder) => if registry.contains(holder) {
            WhoPassed::Player
        } else {
            WhoPassed::PlayerWithBallLeft
        },
        None => WhoPassed::PlayerStumbledUponBall,
    }
}

/// The holder after `leaving` has departed: unchanged where another player
/// holds the token or `leaving` was not registered, else the first of those
/// who remain, or nobody.
pub open spec fn token_after_departure(
    registry: Seq<Player>,
    token: Option<Player>,
    leaving: Player,
) -> Option<Player> {
    let rest = without(registry, leaving);
    if registry.contains(leaving) && token == Some(leaving) {
        if rest.len() > 0 {
            Some(rest[0])
        } else {
            None
        }
    } else {
        token
    }
}

/// What is sent when `leaving` departs: nothing where it was not registered;
/// else the departure to all who remain and, where it held the token and
/// somebody remains, the reassignment to all who remain.
pub open spec fn departure_deliveries(
    registry: Seq<Player>,
    token: Option<Player>,
    leaving: Player,
) -> Seq<DeliveryView> {
    let rest = without(registry, leaving);
    if !registry.contains(leaving) {
        Seq::empty()
    } else if token == Some(leaving) && rest.len() > 0 {
        fan_out(rest, ToClientView::PlayerLeave(leaving), false) + fan_out(
            rest,
            ToClientView::PassBall(rest[0], WhoPassed::PlayerWithBallLeft),
            false,
        )
    } else {
        fan_out(rest, ToClientView::PlayerLeave(leaving), false)
    }
}

/// What is sent when a player joins a game with the registry `before`: the
/// join to those who were there and, where nobody held the token, the first
/// assignment to everybody, the new player included.
pub open spec fn admission_deliveries(
    before: Seq<Player>,
    token: Option<Player>,
    player: Player,
) -> Seq<DeliveryView> {
    if token is None {
        fan_out(before, ToClientView::PlayerJoin(player), false) + fan_out(
            before.push(player),
            ToClientView::PassBall(player, WhoPassed::PlayerStumbledUponBall),
            false,
        )
    } else {
        fan_out(before, ToClientView::PlayerJoin(player), false)
    }
}

/// Taking a player out keeps exactly the others, keeps their order, and
/// changes nothing where the player was not in the list.
pub proof fn lemma_without(players: Seq<Player>, leaving: Player)
    ensures
        forall|p: Player| #[trigger]
            without(players, leaving).contains(p) <==> (players.contains(p) && p != leaving),
        ascending(players) ==> ascending(without(players, leaving)),
        !players.contains(leaving) ==> without(players, leaving) == players,
        without(players, leaving).len() <= players.len(),
    decreases players.len(),
{
    if players.len() > 0 {
        let front = players.drop_last();
        let last = players.last();
        let kept = without(front, leaving);
        let all = without(players, leaving);
        lemma_without(front, leaving);
        assert forall|p: Player| #[trigger]
            all.contains(p) <==> (players.contains(p) && p != leaving) by {
            if all.contains(p) {
                let k = choose|k: int| 0 <= k < all.len() && all[k] == p;
                if last != leaving && k == kept.len() {
                    assert(players[players.len() - 1] == p);
                } else {
                    assert(kept[k] == p);
                    assert(kept.contains(p));
                    let m = choose|m: int| 0 <= m < front.len() && front[m] == p;
                    assert(players[m] == p);
                }
            }
            if players.contains(p) && p != leaving {
                let m = choose|m: int| 0 <= m < players.len() && players[m] == p;
                if m == players.len() - 1 {
                    assert(all[kept.len() as int] == p);
                } else {
                    assert(front[m] == p);
                    assert(front.contains(p));
                    assert(kept.contains(p));
                    let k = choose|k: int| 0 <= k < kept.len() && kept[k] == p;
                    assert(all[k] == p);
                }
            }
        }
        if ascending(players) {
            assert(ascending(front)) by {
                assert forall|i: int, j: int| 0 <= i < j < front.len() implies front[i].0
                    < front[j].0 by {
                    assert(players[i].0 < players[j].0);
                }
            }
            assert forall|i: int, j: int| 0 <= i < j < all.len() implies all[i].0
                < all[j].0 by {
                if j < kept.len() {
                    assert(kept[i].0 < kept[j].0);
                } else {
                    assert(kept.contains(kept[i]));
                    let m = choose|m: int| 0 <= m < front.len() && front[m] == kept[i];
                    assert(players[m].0 < players[players.len() - 1].0);
                }
            }
        }
        if !players.contains(leaving) {
            assert(players[players.len() - 1] == last);
            assert(!front.contains(leaving)) by {
                if front.contains(leaving) {
                    let m = choose|m: int| 0 <= m < front.len() && front[m] == leaving;
                    assert(players[m] == leaving);
                }
            }
            assert(front.push(last) =~= players);
        }
    }
}

/// The token never dangles after a departure: nobody holds it, or one of
/// those who remain does.
pub proof fn lemma_departure_keeps_token_live(
    registry: Seq<Player>,
    token: Option<Player>,
    leaving: Player,
)
    requires
        token matches Some(holder) ==> registry.contains(holder),
    ensures
        token_after_departure(registry, token, leaving) matches Some(holder) ==> without(
            registry,
            leaving,
        ).contains(holder),
{
    lemma_without(registry, leaving);
    let rest = without(registry, leaving);
    if registry.contains(leaving) && token == Some(leaving) {
        if rest.len() > 0 {
            assert(rest.contains(rest[0]));
        }
    }
}

/// The first player to join is told, alone and on the normal lane, that the
/// token is theirs by first assignment.
pub proof fn lemma_first_join(player: Player)
    ensures
        admission_deliveries(Seq::empty(), None, player) == seq![
            DeliveryView {
                to: player,
                message: ToClientView::PassBall(player, WhoPassed::PlayerStumbledUponBall),
                urgent: false,
            },
        ],
{
    let told = admission_deliveries(Seq::empty(), None, player);
    assert(Seq::<Player>::empty().push(player)[0] == player);
    assert(told =~= seq![
        DeliveryView {
            to: player,
            message: ToClientView::PassBall(player, WhoPassed::PlayerStumbledUponBall),
            urgent: false,
        },
    ]);
}

/// The players of `players` other than `leaving`, in their order.
pub fn remove_player(players: &Vec<Player>, leaving: Player) -> (rest: Vec<Player>)
    ensures
        rest@ == without(players@, leaving),
{
    let mut rest: Vec<Player> = Vec::new();
    let mut i: usize = 0;
    while i < players.len()
        invariant
            i <= players.len(),
            rest@ == without(players@.take(i as int), leaving),
        decreases players.len() - i,
    {
        let player = players[i];
        proof {
            let next = players@.take(i + 1);
            assert(next.drop_last() == players@.take(i as int));
            assert(next.last() == player);
        }
        if player != leaving {
            rest.push(player);
        }
        i += 1;
    }
    assert(players@.take(players@.len() as int) == players@);
    rest
}

/// One copy of `message` for each of `players`.
pub fn address_to(players: &Vec<Player>, message: &ToClient, urgent: bool) -> (list: Vec<
    Delivery,
>)
    ensures
        deliveries(list@) == fan_out(players@, message@, urgent),
{
    let mut list: Vec<Delivery> = Vec::new();
    let mut i: usize = 0;
    while i < players.len()
        invariant
            i <= players.len(),
            list@.len() == i,
            forall|k: int|
                0 <= k < i ==> (#[trigger] list@[k])@ == (DeliveryView {
                    to: players@[k],
                    message: message@,
                    urgent,
                }),
        decreases players.len() - i,
    {
        list.push(Delivery { to: players[i], message: message.duplicate(), urgent });
        i += 1;
    }
    assert(deliveries(list@) =~= fan_out(players@, message@, urgent));
    list
}

/// The coordinator's state.
#[derive(Debug, PartialEq, Eq)]
pub struct GameServer {
    connected_players: Vec<Player>,
    id_counter: usize,
    game: GameInfo,
}

impl Default for GameServer {
    fn default() -> (server: Self)
        ensures
            server.wf(),
            server.registry().len() == 0,
            server.token() is None,
            server.issued() == 0,
    {
        GameServer {
            connected_players: Vec::new(),
            id_counter: 0,
            game: GameInfo { player_with_ball: None },
        }
    }
}

impl GameServer {
    /// The registered players, in the order in which they joined.
    pub closed spec fn registry(&self) -> Seq<Player> {
        self.connected_players@
    }

    /// The player who holds the token.
    pub closed spec fn token(&self) -> Option<Player> {
        self.game.player_with_ball
    }

    /// The greatest identity given out so far.
    pub closed spec fn issued(&self) -> nat {
        self.id_counter as nat
    }

    /// The registry lists each player once, by growing identity, and no
    /// identity that was not given out.
    pub open spec fn registry_wf(&self) -> bool {
        &&& ascending(self.registry())
        &&& forall|i: int|
            0 <= i < self.registry().len() ==> (#[trigger] self.registry()[i]).0 <= self.issued()
    }

    /// The token is held by a registered player, or by nobody.
    pub open spec fn token_live(&self) -> bool {
        match self.token() {
            Some(holder) => self.registry().contains(holder),
            None => true,
        }
    }

    /// The state as it is between two events.
    pub open spec fn wf(&self) -> bool {
        self.registry_wf() && self.token_live()
    }

    /// The registered players.
    pub fn players(&self) -> (list: Vec<Player>)
        ensures
            list@ == self.registry(),
    {
        crate::message::copy_players(&self.connected_players)
    }

    /// The player who holds the token.
    pub fn player_with_ball(&self) -> (holder: Option<Player>)
        ensures
            holder == self.token(),
    {
        self.game.player_with_ball
    }

    /// The greatest identity given out so far.
    pub fn id_counter(&self) -> (count: usize)
        ensures
            count == self.issued(),
    {
        self.id_counter
    }

    /// Whether `player` is registered.
    pub fn is_connected(&self, player: Player) -> (found: bool)
        ensures
            found == self.registry().contains(player),
    {
        let mut i: usize = 0;
        while i < self.connected_players.len()
            invariant
                i <= self.connected_players.len(),
                forall|k: int| 0 <= k < i ==> self.connected_players@[k] != player,
            decreases self.connected_players.len() - i,
        {
            if self.connected_players[i] == player {
                return true;
            }
            i += 1;
        }
        false
    }

    /// Gives out the next identity.
    fn gen_unique_id(&mut self) -> (player: Player)
        requires
            old(self).issued() < usize::MAX,
        ensures
            player.0 == old(self).issued() + 1,
            final(self).issued() == old(self).issued() + 1,
            final(self).registry() == old(self).registry(),
            final(self).token() == old(self).token(),
    {
        self.id_counter += 1;
        Player(self.id_counter)
    }

    /// `msg` for the normal lane of every registered player.
    pub fn broadcast(&self, msg: &ToClient) -> (list: Vec<Delivery>)
        ensures
            deliveries(list@) == fan_out(self.registry(), msg@, false),
    {
        address_to(&self.connected_players, msg, false)
    }

    /// Moves the token to `receiving` if that player is registered, and tells
    /// everybody; else changes and sends nothing. The holder need not be
    /// registered: that is the state right after the holder's departure.
    pub fn pass_ball(&mut self, receiving: Player) -> (list: Vec<Delivery>)
        ensures
            final(self).registry() == old(self).registry(),
            final(self).issued() == old(self).issued(),
            old(self).registry().contains(receiving) ==> final(self).token() == Some(receiving)
                && deliveries(list@) == fan_out(
                old(self).registry(),
                ToClientView::PassBall(
                    receiving,
                    pass_tag(old(self).registry(), old(self).token()),
                ),
                false,
            ),
            !old(self).registry().contains(receiving) ==> final(self).token() == old(
                self,
            ).token() && list@.len() == 0,
    {
        let who = match self.game.player_with_ball {
            Some(who_passed) => {
                if self.is_connected(who_passed) {
                    WhoPassed::Player
                } else {
                    WhoPassed::PlayerWithBallLeft
                }
            },
            None => WhoPassed::PlayerStumbledUponBall,
        };
        if self.is_connected(receiving) {
            self.game.player_with_ball = Some(receiving);
            self.broadcast(&ToClient::PassBall(receiving, who))
        } else {
            Vec::new()
        }
    }

    /// A request of `sender` to pass the token to `receiving`. It is honored
    /// exactly when `sender` holds the token and `receiving` is registered;
    /// then the token moves and everybody is told of an ordinary pass. Else
    /// nothing changes and nothing is sent: so too where nobody holds the
    /// token, which only a joining player is given.
    pub fn on_ball_pass(&mut self, sender: Player, receiving: Player) -> (list: Vec<Delivery>)
        requires
            old(self).wf(),
        ensures
            final(self).wf(),
            final(self).registry() == old(self).registry(),
            final(self).issued() == old(self).issued(),
            (old(self).token() == Some(sender) && old(self).registry().contains(receiving))
                ==> final(self).token() == Some(receiving) && deliveries(list@) == fan_out(
                old(self).registry(),
                ToClientView::PassBall(receiving, WhoPassed::Player),
                false,
            ),
            !(old(self).token() == Some(sender) && old(self).registry().contains(receiving))
                ==> final(self).token() == old(self).token() && list@.len() == 0,
    {
        match self.game.player_with_ball {
            Some(player_with_ball) => {
                if player_with_ball != sender {
                    return Vec::new();
                }
            },
            None => {
                return Vec::new();
            },
        }
        self.pass_ball(receiving)
    }

    /// A session of `player_leaving` has ended. Where the player was
    /// registered it leaves the registry and those who remain are told; where
    /// it held the token, the token goes to the first of those who remain and
    /// they are told of the reassignment, or to nobody where nobody remains.
    pub fn on_client_disconnect(&mut self, player_leaving: Player) -> (list: Vec<Delivery>)
        requires
            old(self).wf(),
        ensures
            final(self).wf(),
            final(self).issued() == old(self).issued(),
            final(self).registry() == without(old(self).registry(), player_leaving),
            final(self).token() == token_after_departure(
                old(self).registry(),
                old(self).token(),
                player_leaving,
            ),
            deliveries(list@) == departure_deliveries(
                old(self).registry(),
                old(self).token(),
                player_leaving,
            ),
    {
        proof {
            lemma_without(self.registry(), player_leaving);
        }
        if !self.is_connected(player_leaving) {
            let list: Vec<Delivery> = Vec::new();
            assert(deliveries(list@) =~= Seq::empty());
            return list;
        }
        let rest = remove_player(&self.connected_players, player_leaving);
        self.connected_players = rest;
        proof {
            assert forall|i: int| 0 <= i < self.registry().len() implies (
            #[trigger] self.registry()[i]).0 <= self.issued() by {
                let p = self.registry()[i];
                assert(self.registry().contains(p));
                let m = choose|m: int|
                    0 <= m < old(self).registry().len() && old(self).registry()[m] == p;
                assert(old(self).registry()[m].0 <= old(self).issued());
            }
            if let Some(holder) = self.token() {
                if holder != player_leaving {
                    assert(self.registry().contains(holder));
                }
            }
        }
        let mut list = self.broadcast(&ToClient::PlayerLeave(player_leaving));
        let held = match self.game.player_with_ball {
            Some(holder) => holder == player_leaving,
            None => false,
        };
        if held {
            if self.connected_players.len() > 0 {
                let next_player = self.connected_players[0];
                assert(self.registry().contains(next_player));
                let ghost first = list@;
                let mut passes = self.pass_ball(next_player);
                let ghost second = passes@;
                list.append(&mut passes);
                assert(deliveries(first + second) =~= deliveries(first) + deliveries(second));
            } else {
                self.game.player_with_ball = None;
            }
        }
        list
    }

    /// A connection was accepted. The new player gets the next identity and a
    /// snapshot of the game as it was, joins the registry, and those who were
    /// there are told. Where nobody held the token it goes to the new player,
    /// and everybody is told of a first assignment.
    pub fn on_client_connect(&mut self) -> (admission: Admission)
        requires
            old(self).wf(),
            old(self).issued() < usize::MAX,
        ensures
            final(self).wf(),
            admission.player.0 == old(self).issued() + 1,
            final(self).issued() == old(self).issued() + 1,
            final(self).registry() == old(self).registry().push(admission.player),
            !old(self).registry().contains(admission.player),
            final(self).token() == (if old(self).token() is None {
                Some(admission.player)
            } else {
                old(self).token()
            }),
            final(self).token() is Some,
            admission.initial_state@ == (GameStateView {
                holder: old(self).token(),
                players: old(self).registry(),
            }),
            deliveries(admission.deliveries@) == admission_deliveries(
                old(self).registry(),
                old(self).token(),
                admission.player,
            ),
    {
        let player = self.gen_unique_id();
        let initial_state = GameState {
            players: self.players(),
            info: GameInfo { player_with_ball: self.game.player_with_ball },
        };
        let mut list = self.broadcast(&ToClient::PlayerJoin(player));
        self.connected_players.push(player);
        assert(self.registry()[old(self).registry().len() as int] == player);
        assert(self.registry().contains(player));
        assert forall|p: Player| old(self).registry().contains(p) implies #[trigger]
            self.registry().contains(p) by {
            let m = choose|m: int| 0 <= m < old(self).registry().len() && old(self).registry()[m] == p;
            assert(self.registry()[m] == p);
        }
        if self.game.player_with_ball.is_none() {
            let ghost first = list@;
            let mut passes = self.pass_ball(player);
            let ghost second = passes@;
            list.append(&mut passes);
            assert(deliveries(first + second) =~= deliveries(first) + deliveries(second));
        }
        Admission { player, initial_state, deliveries: list }
    }

    /// Accepts a connection unless every identity has been given out; then
    /// nothing changes and nobody is admitted.
    pub fn try_client_connect(&mut self) -> (admission: Option<Admission>)
        requires
            old(self).wf(),
        ensures
            final(self).wf(),
            admission is Some <==> old(self).issued() < usize::MAX,
            admission is None ==> {
                &&& final(self).registry() == old(self).registry()
                &&& final(self).token() == old(self).token()
                &&& final(self).issued() == old(self).issued()
            },
            admission matches Some(admitted) ==> {
                &&& admitted.player.0 == old(self).issued() + 1
                &&& final(self).issued() == old(self).issued() + 1
                &&& final(self).registry() == old(self).registry().push(admitted.player)
                &&& !old(self).registry().contains(admitted.player)
                &&& final(self).token() == (if old(self).token() is None {
                    Some(admitted.player)
                } else {
                    old(self).token()
                })
                &&& final(self).token() is Some
                &&& admitted.initial_state@ == (GameStateView {
                    holder: old(self).token(),
                    players: old(self).registry(),
                })
                &&& deliveries(admitted.deliveries@) == admission_deliveries(
                    old(self).registry(),
                    old(self).token(),
                    admitted.player,
                )
            },
    {
        if self.id_counter == usize::MAX {
            None
        } else {
            Some(self.on_client_connect())
        }
    }

    /// The coordinator ends: every registered player gets a disconnect
    /// directive on its urgent lane, and the registry and the token are
    /// cleared.
    pub fn shutdown(&mut self) -> (list: Vec<Delivery>)
        ensures
            final(self).registry().len() == 0,
            final(self).token() is None,
            final(self).issued() == old(self).issued(),
            final(self).wf(),
            deliveries(list@) == fan_out(
                old(self).registry(),
                ToClientView::Disconnect("Server Shutdown"@),
                true,
            ),
    {
        let notice = ToClient::Disconnect("Server Shutdown".to_owned());
        let list = address_to(&self.connected_players, &notice, true);
        self.connected_players = Vec::new();
        self.game.player_with_ball = None;
        list
    }

    /// Handles one event: a shutdown, a departure or a request to pass.
    pub fn handle_event(&mut self, event: Event) -> (outcome: Outcome)
        requires
            old(self).wf(),
        ensures
            final(self).wf(),
            final(self).issued() == old(self).issued(),
            outcome.stop == (event is CtrlC),
            event is CtrlC ==> final(self).registry().len() == 0 && final(self).token() is None
                && deliveries(outcome.deliveries@) == fan_out(
                old(self).registry(),
                ToClientView::Disconnect("Server Shutdown"@),
                true,
            ),
            event matches Event::PlayerLeft(leaving) ==> final(self).registry() == without(
                old(self).registry(),
                leaving,
            ) && final(self).token() == token_after_departure(
                old(self).registry(),
                old(self).token(),
                leaving,
            ) && deliveries(outcome.deliveries@) == departure_deliveries(
                old(self).registry(),
                old(self).token(),
                leaving,
            ),
            event matches Event::PassBall(sender, receiving) ==> final(self).registry() == old(
                self,
            ).registry() && (if old(self).token() == Some(sender) && old(
                self,
            ).registry().contains(receiving) {
                final(self).token() == Some(receiving) && deliveries(outcome.deliveries@)
                    == fan_out(
                    old(self).registry(),
                    ToClientView::PassBall(receiving, WhoPassed::Player),
                    false,
                )
            } else {
                final(self).token() == old(self).token() && outcome.deliveries@.len() == 0
            }),
    {
        match event {
            Event::CtrlC => Outcome { deliveries: self.shutdown(), stop: true },
            Event::PlayerLeft(player) => Outcome {
                deliveries: self.on_client_disconnect(player),
                stop: false,
            },
            Event::PassBall(sender, receiving) => Outcome {
                deliveries: self.on_ball_pass(sender, receiving),
                stop: false,
            },
        }
    }
}

} // verus!
