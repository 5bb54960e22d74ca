use ball_game::client::{
    connection_step, parse_command, ClientApp, Effect, Event as AppEvent, LinkAction, LinkInput,
    Notice,
};
use ball_game::game::{GameInfo, Player};
use ball_game::message::{GameState, ToClient, ToServer, WhoPassed};
use ball_game::server::Event;
use ball_game::session::{Action, Cause, ClientSession, Input, Phase};

fn snapshot() -> GameState {
    GameState { info: GameInfo { player_with_ball: Some(Player(1)) }, players: vec![Player(1)] }
}

fn active(timeout: u64, now: u64) -> ClientSession {
    let mut s = ClientSession::new(Player(2), timeout);
    s.start(snapshot(), now);
    s
}

#[test]
fn session_greets_then_is_active() {
    let mut s = ClientSession::new(Player(2), 5000);
    assert_eq!(s.phase(), Phase::Greeting);
    assert_eq!(s.player(), Player(2));
    let actions = s.start(snapshot(), 100);
    assert_eq!(
        actions,
        vec![
            Action::Send(ToClient::InitialState(Player(2), snapshot())),
            Action::ScheduleHeartbeatCheck(5000),
        ]
    );
    assert_eq!(s.phase(), Phase::Active);
    assert_eq!(s.start(snapshot(), 200), vec![]);
}

#[test]
fn inputs_before_the_greeting_are_ignored() {
    let mut s = ClientSession::new(Player(2), 5000);
    assert_eq!(s.handle(Input::FromClient(ToServer::Heartbeat), 1), vec![]);
    assert_eq!(s.handle(Input::HeartbeatCheck, 100000), vec![]);
    assert_eq!(s.phase(), Phase::Greeting);
    assert_eq!(s.close(), vec![]);
}

#[test]
fn heartbeat_rearms_the_check() {
    let mut s = active(5000, 0);
    let actions = s.handle(Input::FromClient(ToServer::Heartbeat), 2000);
    assert_eq!(actions, vec![Action::ScheduleHeartbeatCheck(5000)]);
    assert_eq!(s.handle(Input::HeartbeatCheck, 5001), vec![]);
    assert_eq!(s.phase(), Phase::Active);
    assert_eq!(s.handle(Input::HeartbeatCheck, 7000), vec![]);
    assert_eq!(s.phase(), Phase::Active);
    assert_eq!(s.handle(Input::HeartbeatCheck, 7001), vec![]);
    assert_eq!(s.phase(), Phase::Terminating);
    assert_eq!(s.cause(), Some(Cause::HeartbeatFailed));
}

#[test]
fn silent_peer_is_disconnected_after_the_timeout() {
    let mut s = active(5000, 100);
    assert_eq!(s.handle(Input::HeartbeatCheck, 5100), vec![]);
    assert_eq!(s.phase(), Phase::Active);
    assert_eq!(s.handle(Input::HeartbeatCheck, 5101), vec![]);
    assert_eq!(s.phase(), Phase::Terminating);
    assert_eq!(
        s.close(),
        vec![
            Action::Send(ToClient::Disconnect("heartbeat failed".to_string())),
            Action::Notify(Event::PlayerLeft(Player(2))),
        ]
    );
    assert_eq!(s.phase(), Phase::Closed);
    assert_eq!(s.close(), vec![]);
}

#[test]
fn leave_ends_the_session_without_a_notice() {
    let mut s = active(5000, 0);
    assert_eq!(s.handle(Input::FromClient(ToServer::Leave), 10), vec![]);
    assert_eq!(s.phase(), Phase::Terminating);
    assert_eq!(s.cause(), Some(Cause::PeerLeft));
    assert_eq!(s.close(), vec![Action::Notify(Event::PlayerLeft(Player(2)))]);
    assert_eq!(s.handle(Input::FromClient(ToServer::Heartbeat), 20), vec![]);
    assert_eq!(s.phase(), Phase::Closed);
}

#[test]
fn disconnect_directive_is_passed_on_as_the_last_notice() {
    let mut s = active(5000, 0);
    let actions = s.handle(Input::FromServer(ToClient::Disconnect("Server Shutdown".to_string())), 1);
    assert_eq!(actions, vec![]);
    assert_eq!(s.cause(), Some(Cause::Directed));
    assert_eq!(
        s.close(),
        vec![
            Action::Send(ToClient::Disconnect("Server Shutdown".to_string())),
            Action::Notify(Event::PlayerLeft(Player(2))),
        ]
    );
}

#[test]
fn broadcasts_are_relayed_to_the_peer() {
    let mut s = active(5000, 0);
    let actions = s.handle(Input::FromServer(ToClient::PlayerJoin(Player(3))), 1);
    assert_eq!(actions, vec![Action::Send(ToClient::PlayerJoin(Player(3)))]);
    assert_eq!(s.phase(), Phase::Active);
}

#[test]
fn pass_request_is_relayed_to_the_coordinator() {
    let mut s = active(5000, 0);
    let actions = s.handle(Input::FromClient(ToServer::PassBall(Player(1))), 1);
    assert_eq!(actions, vec![Action::Notify(Event::PassBall(Player(2), Player(1)))]);
}

#[test]
fn failures_end_the_session_with_a_connection_error() {
    let mut s = active(5000, 0);
    assert_eq!(s.handle(Input::InboundFailed, 1), vec![]);
    assert_eq!(s.cause(), Some(Cause::ConnectionError));
    assert_eq!(s.close(), vec![Action::Notify(Event::PlayerLeft(Player(2)))]);
    let mut t = active(5000, 0);
    assert_eq!(t.handle(Input::OutboundFailed, 1), vec![]);
    assert_eq!(t.phase(), Phase::Terminating);
    assert_eq!(t.cause(), Some(Cause::ConnectionError));
}

#[test]
fn commands_are_read_as_the_terminal_gives_them() {
    assert_eq!(parse_command("pass 3"), Some(Player(3)));
    assert_eq!(parse_command("pass +42"), Some(Player(42)));
    assert_eq!(parse_command("pass 007 and more"), Some(Player(7)));
    assert_eq!(parse_command("pass 0"), Some(Player(0)));
    assert_eq!(parse_command("pass"), None);
    assert_eq!(parse_command("pass "), None);
    assert_eq!(parse_command("pass  3"), None);
    assert_eq!(parse_command("pass +"), None);
    assert_eq!(parse_command("pass -1"), None);
    assert_eq!(parse_command("pass 3x"), None);
    assert_eq!(parse_command("passes 3"), None);
    assert_eq!(parse_command(" pass 3"), None);
    assert_eq!(parse_command("PASS 3"), None);
    assert_eq!(parse_command(""), None);
    assert_eq!(parse_command("pass 18446744073709551615"), Some(Player(usize::MAX)));
    assert_eq!(parse_command("pass 18446744073709551616"), None);
    assert_eq!(parse_command("pass 99999999999999999999999"), None);
}

#[test]
fn client_keeps_its_picture_of_the_game() {
    let mut app = ClientApp::new();
    assert_eq!(app.myself(), None);
    let r = app.handle(AppEvent::ServerMessage(ToClient::PlayerJoin(Player(9))));
    assert_eq!(r.effect, None);
    assert_eq!(app.state(), None);
    let r = app.handle(AppEvent::ServerMessage(ToClient::InitialState(Player(2), snapshot())));
    assert_eq!(r.effect, None);
    assert!(!r.stop);
    assert_eq!(app.myself(), Some(Player(2)));
    let r = app.handle(AppEvent::ServerMessage(ToClient::PlayerJoin(Player(2))));
    assert_eq!(r.effect, Some(Effect::Show(Notice::Joined(Player(2)))));
    let r = app.handle(AppEvent::ServerMessage(ToClient::PassBall(Player(2), WhoPassed::Player)));
    assert_eq!(
        r.effect,
        Some(Effect::Show(Notice::Passed(Some(Player(1)), Player(2), WhoPassed::Player)))
    );
    let r = app.handle(AppEvent::ServerMessage(ToClient::PlayerLeave(Player(1))));
    assert_eq!(r.effect, Some(Effect::Show(Notice::Left(Player(1)))));
    assert_eq!(
        app.state(),
        Some(GameState {
            info: GameInfo { player_with_ball: Some(Player(2)) },
            players: vec![Player(2)],
        })
    );
}

#[test]
fn client_turns_input_into_messages() {
    let mut app = ClientApp::new();
    let r = app.handle(AppEvent::Input("pass 4".to_string()));
    assert_eq!(r.effect, Some(Effect::Send(ToServer::PassBall(Player(4)))));
    assert!(!r.stop);
    let r = app.handle(AppEvent::Input("hello".to_string()));
    assert_eq!(r.effect, Some(Effect::Show(Notice::InvalidInput)));
    let r = app.handle(AppEvent::ServerMessage(ToClient::Disconnect("bye".to_string())));
    assert_eq!(r.effect, Some(Effect::Show(Notice::Disconnected("bye".to_string()))));
    assert!(!r.stop);
    let r = app.handle(AppEvent::CtrlC);
    assert_eq!(r.effect, Some(Effect::SendUrgent(ToServer::Leave)));
    assert!(r.stop);
    let r = app.handle(AppEvent::ConnectionDropped);
    assert_eq!(r.effect, Some(Effect::Show(Notice::ConnectionDropped)));
    assert!(r.stop);
}

#[test]
fn connection_loop_steps() {
    let s = connection_step(LinkInput::Tick);
    assert_eq!(s.action, Some(LinkAction::Enqueue(ToServer::Heartbeat)));
    assert!(!s.stop);
    let s = connection_step(LinkInput::Outbound(ToServer::PassBall(Player(1))));
    assert_eq!(s.action, Some(LinkAction::Write(ToServer::PassBall(Player(1)))));
    assert!(!s.stop);
    let s = connection_step(LinkInput::Outbound(ToServer::Leave));
    assert_eq!(s.action, Some(LinkAction::Write(ToServer::Leave)));
    assert!(s.stop);
    let s = connection_step(LinkInput::Inbound(ToClient::PlayerJoin(Player(1))));
    assert_eq!(s.action, Some(LinkAction::Forward(ToClient::PlayerJoin(Player(1)))));
    assert!(!s.stop);
    let s = connection_step(LinkInput::Inbound(ToClient::Disconnect("x".to_string())));
    assert_eq!(s.action, Some(LinkAction::Forward(ToClient::Disconnect("x".to_string()))));
    assert!(s.stop);
    let s = connection_step(LinkInput::OutboundFailed);
    assert_eq!(s.action, None);
    assert!(s.stop);
    let s = connection_step(LinkInput::InboundFailed);
    assert_eq!(s.action, None);
    assert!(s.stop);
}
