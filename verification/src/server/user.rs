//! One connected user.

use vstd::prelude::*;

use super::service::{send_through, Outbox, ServerResponse};
use super::state::{ServerError, ServerResult, GAME_HAND_SIZE};
use crate::game::entity::Unit;

verus! {

/// Where a user stands: waiting in the lobby, or fighting the battle of the
/// given id.
#[derive(Clone, Copy, Debug, PartialEq, Eq, Structural)]
pub enum UserStatus {
    Lobby,
    InGame(u128),
}

impl Default for UserStatus {
    fn default() -> (status: Self)
        ensures
            status == UserStatus::Lobby,
    {
        UserStatus::Lobby
    }
}

/// A user as contracts speak of it.
pub struct UserView<'a> {
    pub id: u128,
    pub name: Option<Seq<char>>,
    pub status: UserStatus,
    pub hand: Option<Seq<Unit<'a>>>,
    /// The handle for outbound delivery, once one is attached.
    pub handle: Option<Outbox<'a>>,
}

impl<'a> UserView<'a> {
    /// A user holds a hand exactly while it is in a battle.
    pub open spec fn wf(self) -> bool {
        &&& self.hand is Some <==> self.status is InGame
        &&& self.hand matches Some(hand) ==> hand.len() == GAME_HAND_SIZE
    }

    /// Whether a handle for outbound delivery is attached.
    pub open spec fn connected(self) -> bool {
        self.handle is Some
    }

    /// The user once it has entered the battle `battle` with the hand
    /// `hand`.
    pub open spec fn entered(self, battle: u128, hand: Seq<Unit<'a>>) -> Self {
        UserView { status: UserStatus::InGame(battle), hand: Some(hand), ..self }
    }

    /// The user that has just been created: in the lobby, without a name, a
    /// hand or a connection, under the id zero.
    pub open spec fn fresh() -> Self {
        UserView { id: 0, name: None, status: UserStatus::Lobby, hand: None, handle: None }
    }
}

/// A connected user: its identity and name, where it stands, the hand it
/// plays from, and the handle that takes responses for it.
pub struct User<'a> {
    id: u128,
    name: Option<String>,
    status: UserStatus,
    spawn_hand: Option<[Unit<'a>; GAME_HAND_SIZE]>,
    socket: Option<Outbox<'a>>,
}

impl<'a> View for User<'a> {
    type V = UserView<'a>;

    closed spec fn view(&self) -> UserView<'a> {
        UserView {
            id: self.id,
            name: match self.name {
                Some(name) => Some(name@),
                None => None,
            },
            status: self.status,
            hand: match self.spawn_hand {
                Some(hand) => Some(hand@),
                None => None,
            },
            handle: self.socket,
        }
    }
}

/// What sending through an attached handle amounts to: success when the
/// response was taken, a failed delivery when it came back.
pub fn delivery_result<'a>(refused: Result<(), ServerResponse<'a>>) -> (result: ServerResult<()>)
    ensures
        result == (if refused is Ok {
            Ok::<(), ServerError>(())
        } else {
            Err::<(), ServerError>(ServerError::DeliveryFailedError)
        }),
{
    match refused {
        Ok(()) => Ok(()),
        Err(_) => Err(ServerError::DeliveryFailedError),
    }
}

impl<'a> User<'a> {
    pub fn name(&self) -> (name: Option<&String>)
        ensures
            match name {
                Some(name) => self@.name == Some(name@),
                None => self@.name is None,
            },
    {
        self.name.as_ref()
    }

    /// Attaches the handle that takes this user's responses, in place of
    /// the one it had, if it had one.
    pub fn set_socket(&mut self, socket: Outbox<'a>)
        ensures
            final(self)@ == (UserView { handle: Some(socket), ..old(self)@ }),
    {
        self.socket = Some(socket)
    }

    pub fn id(&self) -> (id: &u128)
        ensures
            *id == self@.id,
    {
        &self.id
    }

    pub fn set_name(&mut self, name: String)
        ensures
            final(self)@ == (UserView { name: Some(name@), ..old(self)@ }),
    {
        self.name = Some(name)
    }

    pub fn set_id(&mut self, id: u128)
        ensures
            final(self)@ == (UserView { id, ..old(self)@ }),
    {
        self.id = id
    }

    pub fn get_hand(&self) -> (hand: Option<[Unit<'a>; GAME_HAND_SIZE]>)
        ensures
            match hand {
                Some(hand) => self@.hand == Some(hand@),
                None => self@.hand is None,
            },
    {
        self.spawn_hand
    }

    pub fn status(&self) -> (status: &UserStatus)
        ensures
            *status == self@.status,
    {
        &self.status
    }

    /// Whether a handle for outbound delivery is attached.
    pub fn is_connected(&self) -> (connected: bool)
        ensures
            connected == self@.connected(),
    {
        self.socket.is_some()
    }

    /// Puts the user into the battle of the given id, with the hand drawn
    /// for it.
    pub fn enter_game(&mut self, battle: u128, hand: [Unit<'a>; GAME_HAND_SIZE])
        ensures
            final(self)@ == old(self)@.entered(battle, hand@),
            final(self)@.wf(),
    {
        self.status = UserStatus::InGame(battle);
        self.spawn_hand = Some(hand);
    }

    /// Returns the user to the lobby. Its hand goes with the battle.
    pub fn leave_game(&mut self)
        ensures
            final(self)@ == (UserView { status: UserStatus::Lobby, hand: None, ..old(self)@ }),
            final(self)@.wf(),
    {
        self.status = UserStatus::Lobby;
        self.spawn_hand = None;
    }

    /// Replaces the hand of a user that is in a battle. A user in the lobby
    /// holds no hand and is left as it is.
    pub fn set_hand(&mut self, hand: [Unit<'a>; GAME_HAND_SIZE])
        ensures
            old(self)@.status is InGame ==> final(self)@ == (UserView {
                hand: Some(hand@),
                ..old(self)@
            }),
            !(old(self)@.status is InGame) ==> final(self)@ == old(self)@,
            old(self)@.wf() ==> final(self)@.wf(),
    {
        match self.status {
            UserStatus::InGame(_) => {
                self.spawn_hand = Some(hand);
            },
            UserStatus::Lobby => {},
        }
    }

    /// Sends a response to this user. Fails with `SocketDisconnectedError`
    /// when no handle is attached; through an attached handle the response
    /// is either taken or the delivery fails.
    pub fn message(&self, message: &ServerResponse<'a>) -> (result: ServerResult<()>)
        ensures
            !self@.connected() ==> result == Err::<(), ServerError>(
                ServerError::SocketDisconnectedError,
            ),
            self@.connected() ==> result is Ok || result == Err::<(), ServerError>(
                ServerError::DeliveryFailedError,
            ),
    {
        match &self.socket {
            Some(socket) => delivery_result(send_through(socket, message.duplicate())),
            None => Err(ServerError::SocketDisconnectedError),
        }
    }
}

impl<'a> Default for User<'a> {
    fn default() -> (user: Self)
        ensures
            user@ == UserView::fresh(),
            user@.wf(),
    {
        User { id: 0, name: None, status: UserStatus::Lobby, spawn_hand: None, socket: None }
    }
}

} // verus!
