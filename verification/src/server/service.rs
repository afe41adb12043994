//! What travels between the connections and the registry: the frames that
//! clients send, the events they become, and the responses sent back.

use tokio::sync::mpsc::UnboundedSender;
use vstd::prelude::*;

use super::state::GAME_HAND_SIZE;
use crate::game::entity::Unit;
use crate::text::{amount_of, parse_amount, same_text};

verus! {

/// Trusted: tokio's `UnboundedSender`, the sending half of an unbounded
/// channel. Nothing is known of what is inside one.
#[verifier::external_type_specification]
#[verifier::external_body]
#[verifier::reject_recursive_types(T)]
pub struct ExUnboundedSender<T>(UnboundedSender<T>);

/// Trusted: tokio's `UnboundedSender::send`. Whether the item is taken
/// depends on the receiving half of the channel: it is refused once that
/// half has been closed or dropped. When it is refused, tokio hands the
/// very item back inside its error, and so does this function.
#[verifier::external_body]
pub(crate) fn send_through<T>(sender: &UnboundedSender<T>, item: T) -> (refused: Result<(), T>)
    ensures
        refused matches Err(back) ==> back == item,
{
    match sender.send(item) {
        Ok(()) => Ok(()),
        Err(error) => Err(error.0),
    }
}

/// The handle through which responses reach one connection.
pub type Outbox<'a> = UnboundedSender<ServerResponse<'a>>;

/// A response as contracts speak of it: text by its characters, a hand by
/// its units.
pub enum ResponseView<'a> {
    Chat(Seq<char>, Seq<char>),
    UserJoin(Seq<char>),
    UserLeave(Seq<char>),
    StartGame(Seq<char>),
    DrawnHand(Seq<Unit<'a>>),
    UnitSpawned(bool, Unit<'a>),
    NewTowerHealth(bool, usize),
    Win(u128),
    WinByDisconnect(u128),
    Lose(u128),
    Refused(Seq<char>),
}

/// What the server tells a client.
#[derive(Clone, Debug, PartialEq)]
pub enum ResponseType<'a> {
    /// A chat line: the sender's name, then the text.
    Chat(String, String),
    /// A user has taken the given name.
    UserJoin(String),
    /// The user of the given name has left.
    UserLeave(String),
    /// A battle has started against the opponent of the given name.
    StartGame(String),
    /// The hand drawn for the receiver.
    DrawnHand(Box<[Unit<'a>; GAME_HAND_SIZE]>),
    /// A unit was played: `true` when the receiver played it itself.
    UnitSpawned(bool, Box<Unit<'a>>),
    /// A tower's health after a hit: `true` in the copy for the participant
    /// whose tower was hit, `false` in the copy for the one who dealt it.
    NewTowerHealth(bool, usize),
    /// The named participant has won.
    Win(u128),
    /// The named participant has left its battle, which the receiver wins.
    WinByDisconnect(u128),
    /// The named participant has lost.
    Lose(u128),
    /// A request could not be served, with the reason in words.
    Refused(String),
}

impl<'a> View for ResponseType<'a> {
    type V = ResponseView<'a>;

    open spec fn view(&self) -> ResponseView<'a> {
        match *self {
            ResponseType::Chat(name, text) => ResponseView::Chat(name@, text@),
            ResponseType::UserJoin(name) => ResponseView::UserJoin(name@),
            ResponseType::UserLeave(name) => ResponseView::UserLeave(name@),
            ResponseType::StartGame(name) => ResponseView::StartGame(name@),
            ResponseType::DrawnHand(hand) => ResponseView::DrawnHand(hand@),
            ResponseType::UnitSpawned(local, unit) => ResponseView::UnitSpawned(local, *unit),
            ResponseType::NewTowerHealth(hit, health) => ResponseView::NewTowerHealth(hit, health),
            ResponseType::Win(id) => ResponseView::Win(id),
            ResponseType::WinByDisconnect(id) => ResponseView::WinByDisconnect(id),
            ResponseType::Lose(id) => ResponseView::Lose(id),
            ResponseType::Refused(reason) => ResponseView::Refused(reason@),
        }
    }
}

/// One response on its way to a client.
#[derive(Clone, Debug, PartialEq)]
pub struct ServerResponse<'a> {
    message: ResponseType<'a>,
}

impl<'a> View for ServerResponse<'a> {
    type V = ResponseView<'a>;

    closed spec fn view(&self) -> ResponseView<'a> {
        self.message@
    }
}

impl<'a> ServerResponse<'a> {
    pub fn new(response: ResponseType<'a>) -> (wrapped: Self)
        ensures
            wrapped@ == response@,
    {
        Self { message: response }
    }

    /// A second response that says the same.
    pub fn duplicate(&self) -> (copy: Self)
        ensures
            copy@ == self@,
    {
        let message = match &self.message {
            ResponseType::Chat(name, text) => ResponseType::Chat(name.clone(), text.clone()),
            ResponseType::UserJoin(name) => ResponseType::UserJoin(name.clone()),
            ResponseType::UserLeave(name) => ResponseType::UserLeave(name.clone()),
            ResponseType::StartGame(name) => ResponseType::StartGame(name.clone()),
            ResponseType::DrawnHand(hand) => ResponseType::DrawnHand(Box::new(**hand)),
            ResponseType::UnitSpawned(local, unit) => ResponseType::UnitSpawned(
                *local,
                Box::new(**unit),
            ),
            ResponseType::NewTowerHealth(hit, health) => ResponseType::NewTowerHealth(
                *hit,
                *health,
            ),
            ResponseType::Win(id) => ResponseType::Win(*id),
            ResponseType::WinByDisconnect(id) => ResponseType::WinByDisconnect(*id),
            ResponseType::Lose(id) => ResponseType::Lose(*id),
            ResponseType::Refused(reason) => ResponseType::Refused(reason.clone()),
        };
        Self { message }
    }

    /// What the response says.
    pub fn message(&self) -> (message: &ResponseType<'a>)
        ensures
            message@ == self@,
    {
        &self.message
    }
}

/// An event as contracts speak of it.
pub enum EventView<'a> {
    ConnectReq(Seq<char>),
    Text(Seq<char>),
    ConnectWs(Outbox<'a>),
    PlayUnit(Seq<char>),
    DmgPing(usize),
    BeginGame,
    Disconnect,
}

/// What a connection reports to the dispatcher.
#[derive(Debug)]
pub enum MessageType<'a> {
    /// The user asks to go by the given name.
    ConnectReq(String),
    /// The user says the given line in the chat.
    Text(String),
    /// The connection is up; responses for the user go through the handle.
    ConnectWs(Outbox<'a>),
    /// The user plays the unit of the given name.
    PlayUnit(String),
    /// The user claims the given damage on its opponent's tower.
    DmgPing(usize),
    /// The user asks for a battle.
    BeginGame,
    /// The connection is gone.
    Disconnect,
}

impl<'a> View for MessageType<'a> {
    type V = EventView<'a>;

    open spec fn view(&self) -> EventView<'a> {
        match *self {
            MessageType::ConnectReq(name) => EventView::ConnectReq(name@),
            MessageType::Text(text) => EventView::Text(text@),
            MessageType::ConnectWs(socket) => EventView::ConnectWs(socket),
            MessageType::PlayUnit(name) => EventView::PlayUnit(name@),
            MessageType::DmgPing(amount) => EventView::DmgPing(amount),
            MessageType::BeginGame => EventView::BeginGame,
            MessageType::Disconnect => EventView::Disconnect,
        }
    }
}

/// An event together with the connection it comes from.
#[derive(Debug)]
pub struct ServerMessage<'a> {
    pub from: u128,
    pub msg: MessageType<'a>,
}

impl<'a> ServerMessage<'a> {
    pub fn new(from: u128, msg: MessageType<'a>) -> (event: Self)
        ensures
            event.from == from,
            event.msg == msg,
    {
        Self { from, msg }
    }

    /// The event of `from` saying `msg` in the chat.
    pub fn text(from: u128, msg: &str) -> (event: Self)
        ensures
            event.from == from,
            event.msg@ == EventView::Text(msg@),
    {
        Self::new(from, MessageType::Text(msg.to_owned()))
    }
}

/// A frame as a client sends it: the tag of a command, and the text that
/// goes with it, if any.
#[derive(Clone, Debug, PartialEq, Eq)]
pub struct ClientMessage {
    pub kind: String,
    pub data: Option<String>,
}

/// The characters of an optional text.
pub open spec fn text_view(text: Option<String>) -> Option<Seq<char>> {
    match text {
        Some(text) => Some(text@),
        None => None,
    }
}

/// The event that a frame stands for. The commands are `SetName` with a
/// name, `Chat` with a line of text, `BeginGame`, `PlayUnit` with a unit's
/// name and `DamageTick` with a decimal amount. A frame with another tag,
/// without the text its command needs, or with an amount that is no number
/// stands for nothing.
pub open spec fn decoded<'a>(kind: Seq<char>, data: Option<Seq<char>>) -> Option<EventView<'a>> {
    if kind == "SetName"@ {
        match data {
            Some(name) => Some(EventView::ConnectReq(name)),
            None => None,
        }
    } else if kind == "Chat"@ {
        match data {
            Some(text) => Some(EventView::Text(text)),
            None => None,
        }
    } else if kind == "BeginGame"@ {
        Some(EventView::BeginGame)
    } else if kind == "PlayUnit"@ {
        match data {
            Some(name) => Some(EventView::PlayUnit(name)),
            None => None,
        }
    } else if kind == "DamageTick"@ {
        match data {
            Some(text) => match amount_of(text) {
                Some(amount) => Some(EventView::DmgPing(amount)),
                None => None,
            },
            None => None,
        }
    } else {
        None
    }
}

impl ClientMessage {
    /// Turns the frame into the event it stands for, or into `None` when
    /// it stands for nothing and is to be dropped.
    pub fn decode<'a>(self) -> (event: Option<MessageType<'a>>)
        ensures
            match event {
                Some(event) => decoded(self.kind@, text_view(self.data)) == Some(event@),
                None => decoded(self.kind@, text_view(self.data)) is None,
            },
    {
        let kind = self.kind.as_str();
        if same_text(kind, "SetName") {
            match self.data {
                Some(name) => Some(MessageType::ConnectReq(name)),
                None => None,
            }
        } else if same_text(kind, "Chat") {
            match self.data {
                Some(text) => Some(MessageType::Text(text)),
                None => None,
            }
        } else if same_text(kind, "BeginGame") {
            Some(MessageType::BeginGame)
        } else if same_text(kind, "PlayUnit") {
            match self.data {
                Some(name) => Some(MessageType::PlayUnit(name)),
                None => None,
            }
        } else if same_text(kind, "DamageTick") {
            match self.data {
                Some(text) => match parse_amount(text.as_str()) {
                    Some(amount) => Some(MessageType::DmgPing(amount)),
                    None => None,
                },
                None => None,
            }
        } else {
            None
        }
    }
}

/// What the reading side of a connection comes up with.
#[derive(Clone, Debug, PartialEq, Eq)]
pub enum Inbound {
    /// A frame.
    Frame(ClientMessage),
    /// Something that is no frame.
    Unreadable,
    /// The connection was closed, or reading from it failed for good.
    Closed,
}

/// What a connection does about what it has read.
#[derive(Debug)]
pub enum Reaction<'a> {
    /// Report the event and go on reading.
    Emit(MessageType<'a>),
    /// Drop what was read and go on reading.
    Ignore,
    /// Report the disconnect and stop reading.
    Finish,
}

/// Decides what a connection does about what it has read: a frame that
/// stands for an event is reported, anything else that was read is
/// dropped, and the end of the connection ends the reading.
pub fn react<'a>(inbound: Inbound) -> (reaction: Reaction<'a>)
    ensures
        match inbound {
            Inbound::Frame(frame) => match decoded(frame.kind@, text_view(frame.data)) {
                Some(event) => reaction matches Reaction::Emit(emitted) && emitted@ == event,
                None => reaction is Ignore,
            },
            Inbound::Unreadable => reaction is Ignore,
            Inbound::Closed => reaction is Finish,
        },
{
    match inbound {
        Inbound::Frame(frame) => match frame.decode() {
            Some(event) => Reaction::Emit(event),
            None => Reaction::Ignore,
        },
        Inbound::Unreadable => Reaction::Ignore,
        Inbound::Closed => Reaction::Finish,
    }
}

/// The end of the event channel that a connection holds.
pub struct ServerService<'a> {
    pub sender: UnboundedSender<ServerMessage<'a>>,
}

impl<'a> ServerService<'a> {
    pub fn new(tx: UnboundedSender<ServerMessage<'a>>) -> (service: Self)
        ensures
            service.sender == tx,
    {
        Self { sender: tx }
    }

    /// Hands an event to the dispatcher. When the dispatcher is gone the
    /// event comes back as the error.
    pub fn send_msg(&mut self, msg: ServerMessage<'a>) -> (refused: Result<(), ServerMessage<'a>>)
        ensures
            *final(self) == *old(self),
            refused matches Err(back) ==> back == msg,
    {
        send_through(&self.sender, msg)
    }

    /// Reports that `from` said `msg` in the chat.
    pub fn chat(&mut self, from: u128, msg: &str) -> (refused: Result<(), ServerMessage<'a>>)
        ensures
            *final(self) == *old(self),
            refused matches Err(back) ==> back.from == from && back.msg@ == EventView::Text(msg@),
    {
        let message = ServerMessage::text(from, msg);
        send_through(&self.sender, message)
    }

    /// Reports that the connection `id` is up and takes responses through
    /// `socket`.
    pub fn websocket(&mut self, id: u128, socket: Outbox<'a>) -> (refused: Result<
        (),
        ServerMessage<'a>,
    >)
        ensures
            *final(self) == *old(self),
            refused matches Err(back) ==> back.from == id && back.msg == MessageType::ConnectWs(
                socket,
            ),
    {
        let message = ServerMessage::new(id, MessageType::ConnectWs(socket));
        send_through(&self.sender, message)
    }
}

} // verus!
