use td::game::entity::{AttackType, Unit};
use td::server::service::{
    react, ClientMessage, Inbound, MessageType, Reaction, ResponseType, ServerMessage,
    ServerResponse, ServerService,
};
use tokio::sync::mpsc::unbounded_channel;

fn frame(kind: &str, data: Option<&str>) -> ClientMessage {
    ClientMessage { kind: kind.to_string(), data: data.map(|text| text.to_string()) }
}

#[test]
fn frames_become_events() {
    assert!(matches!(
        frame("SetName", Some("ann")).decode(),
        Some(MessageType::ConnectReq(name)) if name == "ann"
    ));
    assert!(matches!(
        frame("Chat", Some("hello there")).decode(),
        Some(MessageType::Text(text)) if text == "hello there"
    ));
    assert!(matches!(frame("BeginGame", None).decode(), Some(MessageType::BeginGame)));
    assert!(matches!(frame("BeginGame", Some("x")).decode(), Some(MessageType::BeginGame)));
    assert!(matches!(
        frame("PlayUnit", Some("Golem")).decode(),
        Some(MessageType::PlayUnit(name)) if name == "Golem"
    ));
    assert!(matches!(
        frame("DamageTick", Some("250")).decode(),
        Some(MessageType::DmgPing(250))
    ));
    assert!(matches!(frame("DamageTick", Some("+3")).decode(), Some(MessageType::DmgPing(3))));
    assert!(matches!(
        frame("Chat", Some("")).decode(),
        Some(MessageType::Text(text)) if text.is_empty()
    ));
}

#[test]
fn malformed_frames_are_dropped() {
    assert!(frame("SetName", None).decode().is_none());
    assert!(frame("Chat", None).decode().is_none());
    assert!(frame("PlayUnit", None).decode().is_none());
    assert!(frame("DamageTick", None).decode().is_none());
    assert!(frame("DamageTick", Some("")).decode().is_none());
    assert!(frame("DamageTick", Some("-5")).decode().is_none());
    assert!(frame("DamageTick", Some("five")).decode().is_none());
    assert!(frame("DamageTick", Some("99999999999999999999999999")).decode().is_none());
    assert!(frame("", Some("x")).decode().is_none());
    assert!(frame("setname", Some("x")).decode().is_none());
    assert!(frame("SetName ", Some("x")).decode().is_none());
    assert!(frame("Disconnect", None).decode().is_none());
    assert!(frame("ConnectWs", None).decode().is_none());
    assert!(frame("Text", Some("x")).decode().is_none());
    assert!(frame("DmgPing", Some("1")).decode().is_none());
}

#[test]
fn a_connection_reports_events_and_drops_the_rest() {
    assert!(matches!(
        react(Inbound::Frame(frame("DamageTick", Some("40")))),
        Reaction::Emit(MessageType::DmgPing(40))
    ));
    assert!(matches!(
        react(Inbound::Frame(frame("BeginGame", None))),
        Reaction::Emit(MessageType::BeginGame)
    ));
    assert!(matches!(react(Inbound::Frame(frame("DamageTick", Some("x")))), Reaction::Ignore));
    assert!(matches!(react(Inbound::Frame(frame("Dance", None))), Reaction::Ignore));
    assert!(matches!(react(Inbound::Unreadable), Reaction::Ignore));
    assert!(matches!(react(Inbound::Closed), Reaction::Finish));
}

#[test]
fn a_duplicate_says_the_same() {
    let unit = Unit::new("a", 'x', 1, 2, 3, 4, 5, AttackType::Area);
    let other = Unit::new("b", 'y', 5, 4, 3, 2, 1, AttackType::Single);
    let responses = vec![
        ResponseType::Chat("ann".to_string(), "hi".to_string()),
        ResponseType::UserJoin("ann".to_string()),
        ResponseType::UserLeave("bob".to_string()),
        ResponseType::StartGame("cy".to_string()),
        ResponseType::DrawnHand(Box::new([unit, other, unit, other, unit])),
        ResponseType::UnitSpawned(true, Box::new(unit)),
        ResponseType::UnitSpawned(false, Box::new(other)),
        ResponseType::NewTowerHealth(true, 17),
        ResponseType::Win(1),
        ResponseType::WinByDisconnect(2),
        ResponseType::Lose(3),
        ResponseType::Refused("no".to_string()),
    ];
    for response in responses {
        let wrapped = ServerResponse::new(response.clone());
        let copy = wrapped.duplicate();
        assert_eq!(copy, wrapped);
        assert_eq!(*copy.message(), response);
    }
}

#[test]
fn responses_wrap_what_they_say() {
    let unit = Unit::new("a", 'x', 1, 2, 3, 4, 5, AttackType::Area);
    let response = ServerResponse::new(ResponseType::UnitSpawned(true, Box::new(unit)));
    assert_eq!(*response.message(), ResponseType::UnitSpawned(true, Box::new(unit)));
    assert_eq!(response.clone(), response);
    assert_ne!(response, ServerResponse::new(ResponseType::Win(1)));
}

#[test]
fn events_carry_their_origin() {
    let event = ServerMessage::new(7, MessageType::BeginGame);
    assert_eq!(event.from, 7);
    assert!(matches!(event.msg, MessageType::BeginGame));
    let event = ServerMessage::text(8, "hi");
    assert_eq!(event.from, 8);
    assert!(matches!(event.msg, MessageType::Text(text) if text == "hi"));
}

#[test]
fn service_hands_events_to_the_dispatcher() {
    let (tx, mut rx) = unbounded_channel();
    let mut service = ServerService::new(tx);
    assert!(service.send_msg(ServerMessage::new(1, MessageType::Disconnect)).is_ok());
    assert!(service.chat(2, "hello").is_ok());
    let (socket, _responses) = unbounded_channel();
    assert!(service.websocket(3, socket).is_ok());

    let first = rx.try_recv().expect("first event");
    assert_eq!(first.from, 1);
    assert!(matches!(first.msg, MessageType::Disconnect));
    let second = rx.try_recv().expect("second event");
    assert_eq!(second.from, 2);
    assert!(matches!(second.msg, MessageType::Text(text) if text == "hello"));
    let third = rx.try_recv().expect("third event");
    assert_eq!(third.from, 3);
    assert!(matches!(third.msg, MessageType::ConnectWs(_)));
    assert!(rx.try_recv().is_err());
}

#[test]
fn service_gets_the_event_back_when_the_dispatcher_is_gone() {
    let (tx, rx) = unbounded_channel();
    drop(rx);
    let mut service = ServerService::new(tx);
    let back = service.send_msg(ServerMessage::new(4, MessageType::DmgPing(12))).unwrap_err();
    assert_eq!(back.from, 4);
    assert!(matches!(back.msg, MessageType::DmgPing(12)));
    let back = service.chat(5, "lost").unwrap_err();
    assert_eq!(back.from, 5);
    assert!(matches!(back.msg, MessageType::Text(text) if text == "lost"));
    let (socket, _responses) = unbounded_channel();
    let back = service.websocket(6, socket).unwrap_err();
    assert_eq!(back.from, 6);
    assert!(matches!(back.msg, MessageType::ConnectWs(_)));
}
