use td::game::card_gen::Catalog;
use td::server::dispatch::{apply, dispatch, send, Audience, Outgoing};
use td::server::service::{MessageType, ResponseType, ServerMessage, ServerResponse};
use td::server::state::{ServerError, State};
use td::server::user::UserStatus;
use tokio::sync::mpsc::{unbounded_channel, UnboundedReceiver};

fn event(from: u128, msg: MessageType<'static>) -> ServerMessage<'static> {
    ServerMessage::new(from, msg)
}

fn join(state: &mut State<'static>, id: u128) -> UnboundedReceiver<ServerResponse<'static>> {
    let (socket, rx) = unbounded_channel();
    assert!(apply(state, event(id, MessageType::ConnectWs(socket))).is_empty());
    rx
}

fn outgoing(audience: Audience, response: ResponseType<'static>) -> Outgoing<'static> {
    Outgoing { audience, response: ServerResponse::new(response) }
}

fn received(rx: &mut UnboundedReceiver<ServerResponse<'static>>) -> Vec<ResponseType<'static>> {
    let mut all = Vec::new();
    while let Ok(response) = rx.try_recv() {
        all.push(response.message().clone());
    }
    all
}

#[test]
fn a_connection_joins_the_lobby() {
    let mut state = State::default();
    let _a = join(&mut state, 7);
    assert_eq!(state.user_ids(), vec![7]);
    assert_eq!(state.status_of(7), Some(UserStatus::Lobby));
    assert_eq!(state.get_name(7), None);
    assert_eq!(state.hand_of(7), None);
    assert_eq!(state.broadcast(ServerResponse::new(ResponseType::Win(1))), Ok(()));
}

#[test]
fn a_name_is_announced_to_everyone() {
    let mut state = State::default();
    let _a = join(&mut state, 1);
    let out = apply(&mut state, event(1, MessageType::ConnectReq("ann".to_string())));
    assert_eq!(out, vec![outgoing(Audience::Everyone, ResponseType::UserJoin("ann".to_string()))]);
    assert_eq!(state.get_name(1), Some(&"ann".to_string()));
}

#[test]
fn chat_carries_the_name_of_the_sender() {
    let mut state = State::default();
    let _a = join(&mut state, 1);
    let out = apply(&mut state, event(1, MessageType::Text("hello".to_string())));
    assert_eq!(
        out,
        vec![outgoing(
            Audience::Everyone,
            ResponseType::Chat(String::new(), "hello".to_string())
        )]
    );
    apply(&mut state, event(1, MessageType::ConnectReq("ann".to_string())));
    let out = apply(&mut state, event(1, MessageType::Text("hello".to_string())));
    assert_eq!(
        out,
        vec![outgoing(
            Audience::Everyone,
            ResponseType::Chat("ann".to_string(), "hello".to_string())
        )]
    );
    let out = apply(&mut state, event(9, MessageType::Text("who".to_string())));
    assert_eq!(
        out,
        vec![outgoing(Audience::Everyone, ResponseType::Chat(String::new(), "who".to_string()))]
    );
}

#[test]
fn begin_game_alone_is_refused_in_words() {
    let mut state = State::default();
    let _a = join(&mut state, 1);
    let out = apply(&mut state, event(1, MessageType::BeginGame));
    assert_eq!(
        out,
        vec![outgoing(
            Audience::Only(1),
            ResponseType::Refused("Not enough users in lobby to start a battle".to_string())
        )]
    );
    assert_eq!(state.status_of(1), Some(UserStatus::Lobby));
}

#[test]
fn begin_game_in_a_battle_is_refused_in_words() {
    let mut state = State::default();
    let _a = join(&mut state, 1);
    let _b = join(&mut state, 2);
    let _c = join(&mut state, 3);
    assert_eq!(apply(&mut state, event(1, MessageType::BeginGame)).len(), 4);
    let in_battle = if state.is_in_lobby(2) { 3 } else { 2 };
    let _d = join(&mut state, 4);
    let out = apply(&mut state, event(in_battle, MessageType::BeginGame));
    assert_eq!(
        out,
        vec![outgoing(
            Audience::Only(in_battle),
            ResponseType::Refused(
                "Attempted to start a battle where at least one user is not in the lobby"
                    .to_string()
            )
        )]
    );
}

#[test]
fn begin_game_over_a_small_catalog_is_refused_in_words() {
    let mut state = State::with_catalog(Catalog::new(vec![]).expect("valid"));
    let _a = join(&mut state, 1);
    let _b = join(&mut state, 2);
    let out = apply(&mut state, event(1, MessageType::BeginGame));
    assert_eq!(
        out,
        vec![outgoing(
            Audience::Only(1),
            ResponseType::Refused(ServerError::NoHandYetError.describe())
        )]
    );
}

#[test]
fn begin_game_starts_a_battle_and_tells_both() {
    let mut state = State::default();
    let _a = join(&mut state, 1);
    let _b = join(&mut state, 2);
    apply(&mut state, event(1, MessageType::ConnectReq("ann".to_string())));
    apply(&mut state, event(2, MessageType::ConnectReq("bob".to_string())));
    let out = apply(&mut state, event(1, MessageType::BeginGame));
    let hand_a = state.hand_of(1).expect("a hand");
    let hand_b = state.hand_of(2).expect("a hand");
    assert_eq!(
        out,
        vec![
            outgoing(Audience::Only(2), ResponseType::StartGame("ann".to_string())),
            outgoing(Audience::Only(1), ResponseType::StartGame("bob".to_string())),
            outgoing(Audience::Only(2), ResponseType::DrawnHand(Box::new(hand_b))),
            outgoing(Audience::Only(1), ResponseType::DrawnHand(Box::new(hand_a))),
        ]
    );
    assert_eq!(state.get_opponent(1), Some(2));
    assert_eq!(state.get_opponent(2), Some(1));
    assert!(matches!(state.status_of(1), Some(UserStatus::InGame(_))));
    assert_eq!(state.status_of(1), state.status_of(2));
}

#[test]
fn begin_game_without_names_uses_empty_names() {
    let mut state = State::default();
    let _a = join(&mut state, 1);
    let _b = join(&mut state, 2);
    let out = apply(&mut state, event(2, MessageType::BeginGame));
    assert_eq!(out.len(), 4);
    assert_eq!(out[0], outgoing(Audience::Only(1), ResponseType::StartGame(String::new())));
    assert_eq!(out[1], outgoing(Audience::Only(2), ResponseType::StartGame(String::new())));
}

#[test]
fn play_unit_tells_both_participants() {
    let mut state = State::default();
    let _a = join(&mut state, 1);
    let _b = join(&mut state, 2);
    assert!(apply(&mut state, event(1, MessageType::PlayUnit("Golem".to_string()))).is_empty());
    apply(&mut state, event(1, MessageType::BeginGame));
    let golem = Catalog::builtin().find("Golem").expect("shipped");
    let out = apply(&mut state, event(2, MessageType::PlayUnit("Golem".to_string())));
    assert_eq!(
        out,
        vec![
            outgoing(Audience::Only(2), ResponseType::UnitSpawned(true, Box::new(golem))),
            outgoing(Audience::Only(1), ResponseType::UnitSpawned(false, Box::new(golem))),
        ]
    );
    assert!(apply(&mut state, event(2, MessageType::PlayUnit("Dragon".to_string()))).is_empty());
    assert!(apply(&mut state, event(9, MessageType::PlayUnit("Golem".to_string()))).is_empty());
}

#[test]
fn damage_is_reported_until_the_tower_falls() {
    let mut state = State::default();
    let _a = join(&mut state, 1);
    let _b = join(&mut state, 2);
    assert!(apply(&mut state, event(1, MessageType::DmgPing(5))).is_empty());
    apply(&mut state, event(1, MessageType::BeginGame));
    let out = apply(&mut state, event(1, MessageType::DmgPing(1499)));
    assert_eq!(
        out,
        vec![
            outgoing(Audience::Only(1), ResponseType::NewTowerHealth(false, 1)),
            outgoing(Audience::Only(2), ResponseType::NewTowerHealth(true, 1)),
        ]
    );
    let out = apply(&mut state, event(2, MessageType::DmgPing(500)));
    assert_eq!(
        out,
        vec![
            outgoing(Audience::Only(2), ResponseType::NewTowerHealth(false, 1000)),
            outgoing(Audience::Only(1), ResponseType::NewTowerHealth(true, 1000)),
        ]
    );
    let out = apply(&mut state, event(1, MessageType::DmgPing(1)));
    assert_eq!(
        out,
        vec![
            outgoing(Audience::Only(1), ResponseType::Win(1)),
            outgoing(Audience::Only(2), ResponseType::Lose(2)),
        ]
    );
    assert!(apply(&mut state, event(9, MessageType::DmgPing(1))).is_empty());
}

#[test]
fn a_disconnect_tells_the_opponent_and_the_others() {
    let mut state = State::default();
    let _a = join(&mut state, 1);
    let _b = join(&mut state, 2);
    let _c = join(&mut state, 3);
    apply(&mut state, event(3, MessageType::ConnectReq("cy".to_string())));
    assert!(state.new_battle(1, 2).is_ok());

    let out = apply(&mut state, event(3, MessageType::Disconnect));
    assert_eq!(out, vec![outgoing(Audience::AllBut(3), ResponseType::UserLeave("cy".to_string()))]);
    assert_eq!(state.status_of(3), None);

    let out = apply(&mut state, event(1, MessageType::Disconnect));
    assert_eq!(out, vec![outgoing(Audience::Only(2), ResponseType::WinByDisconnect(1))]);
    assert_eq!(state.user_ids(), vec![2]);

    apply(&mut state, event(2, MessageType::ConnectReq("bob".to_string())));
    let out = apply(&mut state, event(2, MessageType::Disconnect));
    assert_eq!(
        out,
        vec![
            outgoing(Audience::Only(1), ResponseType::WinByDisconnect(2)),
            outgoing(Audience::AllBut(2), ResponseType::UserLeave("bob".to_string())),
        ]
    );
    assert!(state.user_ids().is_empty());
    assert!(apply(&mut state, event(2, MessageType::Disconnect)).is_empty());
}

#[test]
fn send_reaches_the_audience() {
    let mut state = State::default();
    let mut a = join(&mut state, 1);
    let mut b = join(&mut state, 2);
    let mut c = join(&mut state, 3);
    assert_eq!(send(&state, &outgoing(Audience::Everyone, ResponseType::Win(1))), Ok(()));
    assert_eq!(send(&state, &outgoing(Audience::AllBut(2), ResponseType::Win(2))), Ok(()));
    assert_eq!(send(&state, &outgoing(Audience::Only(3), ResponseType::Win(3))), Ok(()));
    assert_eq!(send(&state, &outgoing(Audience::Only(9), ResponseType::Win(9))), Ok(()));
    assert_eq!(received(&mut a), vec![ResponseType::Win(1), ResponseType::Win(2)]);
    assert_eq!(received(&mut b), vec![ResponseType::Win(1)]);
    assert_eq!(
        received(&mut c),
        vec![ResponseType::Win(1), ResponseType::Win(2), ResponseType::Win(3)]
    );
    drop(b);
    assert_eq!(
        send(&state, &outgoing(Audience::Everyone, ResponseType::Lose(1))),
        Err(ServerError::DeliveryFailedError)
    );
    assert_eq!(received(&mut a), vec![ResponseType::Lose(1)]);
    assert_eq!(received(&mut c), vec![ResponseType::Lose(1)]);
}

#[test]
fn dispatch_applies_and_sends() {
    let mut state = State::default();
    let (socket, mut a) = unbounded_channel();
    let (out, results) = dispatch(&mut state, event(1, MessageType::ConnectWs(socket)));
    assert!(out.is_empty() && results.is_empty());
    let mut b = join(&mut state, 2);

    let (out, results) = dispatch(&mut state, event(1, MessageType::ConnectReq("ann".to_string())));
    assert_eq!(out, vec![outgoing(Audience::Everyone, ResponseType::UserJoin("ann".to_string()))]);
    assert_eq!(results, vec![Ok(())]);
    assert_eq!(received(&mut a), vec![ResponseType::UserJoin("ann".to_string())]);
    assert_eq!(received(&mut b), vec![ResponseType::UserJoin("ann".to_string())]);

    let (out, results) = dispatch(&mut state, event(2, MessageType::BeginGame));
    assert_eq!(results, vec![Ok(()); 4]);
    assert_eq!(out.len(), 4);
    let hand_a = state.hand_of(1).expect("a hand");
    let hand_b = state.hand_of(2).expect("a hand");
    assert_eq!(
        received(&mut a),
        vec![ResponseType::StartGame(String::new()), ResponseType::DrawnHand(Box::new(hand_a))]
    );
    assert_eq!(
        received(&mut b),
        vec![ResponseType::StartGame("ann".to_string()), ResponseType::DrawnHand(Box::new(hand_b))]
    );

    drop(b);
    let (out, results) = dispatch(&mut state, event(1, MessageType::DmgPing(2000)));
    assert_eq!(
        out,
        vec![
            outgoing(Audience::Only(1), ResponseType::Win(1)),
            outgoing(Audience::Only(2), ResponseType::Lose(2)),
        ]
    );
    assert_eq!(results, vec![Ok(()), Err(ServerError::DeliveryFailedError)]);
    assert_eq!(received(&mut a), vec![ResponseType::Win(1)]);

    let (out, results) = dispatch(&mut state, event(2, MessageType::Disconnect));
    assert_eq!(out, vec![outgoing(Audience::Only(1), ResponseType::WinByDisconnect(2))]);
    assert_eq!(results, vec![Ok(())]);
    assert_eq!(received(&mut a), vec![ResponseType::WinByDisconnect(2)]);
}
