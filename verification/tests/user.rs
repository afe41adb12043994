use td::game::entity::{AttackType, Unit};
use td::server::service::{ResponseType, ServerResponse};
use td::server::state::ServerError;
use td::server::user::{delivery_result, User, UserStatus};
use tokio::sync::mpsc::unbounded_channel;

fn hand(prefix: char) -> [Unit<'static>; 5] {
    let names: [&'static str; 5] = match prefix {
        'a' => ["a1", "a2", "a3", "a4", "a5"],
        _ => ["b1", "b2", "b3", "b4", "b5"],
    };
    names.map(|name| Unit::new(name, 'x', 1, 2, 3, 4, 5, AttackType::Single))
}

#[test]
fn a_new_user_waits_in_the_lobby() {
    let user = User::default();
    assert_eq!(*user.id(), 0);
    assert_eq!(user.name(), None);
    assert_eq!(*user.status(), UserStatus::Lobby);
    assert_eq!(user.get_hand(), None);
    assert!(!user.is_connected());
    assert_eq!(UserStatus::default(), UserStatus::Lobby);
}

#[test]
fn setters_change_one_thing() {
    let mut user = User::default();
    user.set_id(77);
    assert_eq!(*user.id(), 77);
    assert_eq!(user.name(), None);
    user.set_name("ann".to_string());
    assert_eq!(user.name(), Some(&"ann".to_string()));
    assert_eq!(*user.id(), 77);
    assert_eq!(*user.status(), UserStatus::Lobby);
    let (socket, _rx) = unbounded_channel();
    user.set_socket(socket);
    assert!(user.is_connected());
    assert_eq!(user.name(), Some(&"ann".to_string()));
    assert_eq!(user.get_hand(), None);
}

#[test]
fn a_hand_is_held_exactly_while_in_a_battle() {
    let mut user = User::default();
    user.set_hand(hand('a'));
    assert_eq!(user.get_hand(), None);
    assert_eq!(*user.status(), UserStatus::Lobby);

    user.enter_game(5, hand('a'));
    assert_eq!(*user.status(), UserStatus::InGame(5));
    assert_eq!(user.get_hand(), Some(hand('a')));

    user.set_hand(hand('b'));
    assert_eq!(*user.status(), UserStatus::InGame(5));
    assert_eq!(user.get_hand(), Some(hand('b')));

    user.leave_game();
    assert_eq!(*user.status(), UserStatus::Lobby);
    assert_eq!(user.get_hand(), None);
}

#[test]
fn a_new_handle_takes_the_place_of_the_old_one() {
    let (first, mut first_rx) = unbounded_channel();
    let (second, mut second_rx) = unbounded_channel();
    let mut user = User::default();
    user.set_socket(first);
    user.set_socket(second);
    user.set_name("ann".to_string());
    user.leave_game();
    let response = ServerResponse::new(ResponseType::Win(1));
    assert_eq!(user.message(&response), Ok(()));
    assert!(first_rx.try_recv().is_err());
    assert_eq!(second_rx.try_recv().ok(), Some(response));
}

#[test]
fn message_without_a_connection_fails() {
    let user = User::default();
    let response = ServerResponse::new(ResponseType::Win(1));
    assert_eq!(user.message(&response), Err(ServerError::SocketDisconnectedError));
}

#[test]
fn message_reaches_the_connection() {
    let (socket, mut rx) = unbounded_channel();
    let mut user = User::default();
    user.set_socket(socket);
    let response = ServerResponse::new(ResponseType::Chat("ann".to_string(), "hi".to_string()));
    assert_eq!(user.message(&response), Ok(()));
    assert_eq!(user.message(&ServerResponse::new(ResponseType::Lose(3))), Ok(()));
    assert_eq!(rx.try_recv().ok(), Some(response));
    assert_eq!(rx.try_recv().ok(), Some(ServerResponse::new(ResponseType::Lose(3))));
    assert!(rx.try_recv().is_err());
}

#[test]
fn message_to_a_closed_connection_fails() {
    let (socket, rx) = unbounded_channel();
    drop(rx);
    let mut user = User::default();
    user.set_socket(socket);
    let response = ServerResponse::new(ResponseType::Win(1));
    assert_eq!(user.message(&response), Err(ServerError::DeliveryFailedError));
}

#[test]
fn delivery_results() {
    assert_eq!(delivery_result(Ok(())), Ok(()));
    let back = ServerResponse::new(ResponseType::Win(1));
    assert_eq!(delivery_result(Err(back)), Err(ServerError::DeliveryFailedError));
}
