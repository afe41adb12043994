//! The dispatcher: what each event does to the registry, what is sent in
//! answer, and to whom.

use vstd::prelude::*;

use super::service::{
    EventView, MessageType, ResponseType, ResponseView, ServerMessage, ServerResponse,
};
use super::state::{first_failure, ServerResult, State, StateView};
use super::user::{User, UserStatus, UserView};
use crate::game::card_gen::unit_named;

verus! {

/// Who a response is meant for.
#[derive(Clone, Copy, Debug, PartialEq, Eq, Structural)]
pub enum Audience {
    /// Every connected user.
    Everyone,
    /// Every connected user but the given one.
    AllBut(u128),
    /// The given user alone, if it is connected.
    Only(u128),
}

impl Audience {
    /// The connected users that the audience covers.
    pub open spec fn members(self, state: StateView<'_>) -> Set<u128> {
        match self {
            Audience::Everyone => state.users.dom(),
            Audience::AllBut(id) => state.users.dom().remove(id),
            Audience::Only(id) => if state.users.contains_key(id) {
                set![id]
            } else {
                Set::empty()
            },
        }
    }
}

/// A response and the audience it is meant for, as contracts speak of it.
pub struct OutgoingView<'a> {
    pub audience: Audience,
    pub response: ResponseView<'a>,
}

/// A response and the audience it is meant for.
#[derive(Clone, Debug, PartialEq)]
pub struct Outgoing<'a> {
    pub audience: Audience,
    pub response: ServerResponse<'a>,
}

impl<'a> View for Outgoing<'a> {
    type V = OutgoingView<'a>;

    open spec fn view(&self) -> OutgoingView<'a> {
        OutgoingView { audience: self.audience, response: self.response@ }
    }
}

/// A list of outgoing responses as contracts speak of it.
pub open spec fn views<'a>(outgoing: Seq<Outgoing<'a>>) -> Seq<OutgoingView<'a>> {
    outgoing.map_values(|one: Outgoing<'a>| one@)
}

/// The name that `id` goes by, and the empty name where it has none.
pub open spec fn name_or_empty(state: StateView<'_>, id: u128) -> Seq<char> {
    if state.users.contains_key(id) {
        match state.users[id].name {
            Some(name) => name,
            None => Seq::empty(),
        }
    } else {
        Seq::empty()
    }
}

/// The response `response` for the one user `id`.
pub open spec fn only<'a>(id: u128, response: ResponseView<'a>) -> OutgoingView<'a> {
    OutgoingView { audience: Audience::Only(id), response }
}

/// What is sent when `from` disconnects: its opponent, if it has one,
/// learns that it wins; and if `from` went by a name, everyone else learns
/// that it left.
pub open spec fn farewell<'a>(before: StateView<'a>, from: u128) -> Seq<OutgoingView<'a>> {
    let to_opponent = match before.opponent_of(from) {
        Some(enemy) => seq![only(enemy, ResponseView::WinByDisconnect(from))],
        None => Seq::empty(),
    };
    let to_others = if before.users.contains_key(from) && before.users[from].name is Some {
        seq![
            OutgoingView {
                audience: Audience::AllBut(from),
                response: ResponseView::UserLeave(before.users[from].name->0),
            },
        ]
    } else {
        Seq::empty()
    };
    to_opponent + to_others
}

/// What is sent when `from` plays the unit called `name`: both
/// participants learn of the unit, `from` as its own. Nothing is sent when
/// the catalog has no such unit or `from` is in no battle.
pub open spec fn spawn_notice<'a>(before: StateView<'a>, from: u128, name: Seq<char>) -> Seq<
    OutgoingView<'a>,
> {
    match (unit_named(before.catalog, name), before.opponent_of(from)) {
        (Some(unit), Some(opponent)) => seq![
            only(from, ResponseView::UnitSpawned(true, unit)),
            only(opponent, ResponseView::UnitSpawned(false, unit)),
        ],
        _ => Seq::empty(),
    }
}

/// What is sent when `from` claims `dmg` points of damage: both
/// participants learn the health that is left of the opponent's tower, or,
/// when nothing is left or the opponent is in no battle any more, that
/// `from` has won and the opponent has lost. Nothing is sent when `from` is
/// in no battle.
pub open spec fn damage_notice<'a>(before: StateView<'a>, from: u128, dmg: usize) -> Seq<
    OutgoingView<'a>,
> {
    match before.opponent_of(from) {
        Some(opponent) => match before.damage_report(opponent, dmg) {
            Some(health) => seq![
                only(from, ResponseView::NewTowerHealth(false, health)),
                only(opponent, ResponseView::NewTowerHealth(true, health)),
            ],
            None => seq![
                only(from, ResponseView::Win(from)),
                only(opponent, ResponseView::Lose(opponent)),
            ],
        },
        None => Seq::empty(),
    }
}

/// The registry after `from` claimed `dmg` points of damage on its
/// opponent's tower.
pub open spec fn after_damage_claim<'a>(before: StateView<'a>, from: u128, dmg: usize) -> StateView<
    'a,
> {
    match before.opponent_of(from) {
        Some(opponent) => before.damaged(opponent, dmg),
        None => before,
    }
}

/// Whether `after` and `out` are a match made for `from`: an available
/// opponent and `from` have entered a battle, and each learns the other's
/// name and then its own hand, the opponent first.
pub open spec fn match_made<'a>(
    before: StateView<'a>,
    after: StateView<'a>,
    from: u128,
    out: Seq<OutgoingView<'a>>,
) -> bool {
    &&& out.len() == 4
    &&& out[0].audience matches Audience::Only(opponent)
    &&& before.available(from).contains(opponent)
    &&& after.users.contains_key(from)
    &&& after.users[from].status matches UserStatus::InGame(battle)
    &&& before.battle_started(after, from, opponent, battle)
    &&& out == seq![
        only(opponent, ResponseView::StartGame(name_or_empty(before, from))),
        only(from, ResponseView::StartGame(name_or_empty(before, opponent))),
        only(opponent, ResponseView::DrawnHand(after.users[opponent].hand->0)),
        only(from, ResponseView::DrawnHand(after.users[from].hand->0)),
    ]
}

/// Whether `after` and `out` are what matchmaking for `from` amounts to.
/// Where it is refused, nothing changes and `from` is told the reason in
/// words. Otherwise a match is made.
pub open spec fn matchmaking<'a>(
    before: StateView<'a>,
    after: StateView<'a>,
    from: u128,
    out: Seq<OutgoingView<'a>>,
) -> bool {
    match before.matchmaking_refusal(from) {
        Some(error) => after == before && out == seq![
            only(from, ResponseView::Refused(error.text())),
        ],
        None => match_made(before, after, from, out),
    }
}

/// Whether the event `event` of `from` turns the registry `before` into
/// `after` and calls for the responses `out`, in that order.
pub open spec fn handled<'a>(
    before: StateView<'a>,
    after: StateView<'a>,
    from: u128,
    event: EventView<'a>,
    out: Seq<OutgoingView<'a>>,
) -> bool {
    match event {
        EventView::Text(text) => after == before && out == seq![
            OutgoingView {
                audience: Audience::Everyone,
                response: ResponseView::Chat(name_or_empty(before, from), text),
            },
        ],
        EventView::ConnectWs(socket) => after == before.connected(
            from,
            UserView { handle: Some(socket), ..UserView::fresh() },
        ) && out == Seq::<OutgoingView<'a>>::empty(),
        EventView::ConnectReq(name) => after == before.renamed(from, name) && out == seq![
            OutgoingView { audience: Audience::Everyone, response: ResponseView::UserJoin(name) },
        ],
        EventView::Disconnect => after == before.disconnected(from) && out == farewell(
            before,
            from,
        ),
        EventView::BeginGame => matchmaking(before, after, from, out),
        EventView::PlayUnit(name) => after == before && out == spawn_notice(before, from, name),
        EventView::DmgPing(dmg) => after == after_damage_claim(before, from, dmg) && out
            == damage_notice(before, from, dmg),
    }
}

/// A response for one user.
fn to_one<'a>(id: u128, response: ResponseType<'a>) -> (outgoing: Outgoing<'a>)
    ensures
        outgoing@ == only(id, response@),
{
    Outgoing { audience: Audience::Only(id), response: ServerResponse::new(response) }
}

/// A copy of the name that `id` goes by, and the empty name where it has
/// none.
fn name_of<'a>(state: &State<'a>, id: u128) -> (name: String)
    ensures
        name@ == name_or_empty(state@, id),
{
    match state.get_name(id) {
        Some(name) => name.clone(),
        None => String::new(),
    }
}

/// Applies one event to the registry and returns the responses it calls
/// for, each with its audience, in the order in which they are to be sent.
pub fn apply<'a>(state: &mut State<'a>, event: ServerMessage<'a>) -> (out: Vec<Outgoing<'a>>)
    ensures
        handled(old(state)@, final(state)@, event.from, event.msg@, views(out@)),
        old(state).wf() ==> final(state).wf(),
{
    let from = event.from;
    let mut out: Vec<Outgoing<'a>> = Vec::new();
    match event.msg {
        MessageType::Text(text) => {
            let name = name_of(state, from);
            out.push(
                Outgoing {
                    audience: Audience::Everyone,
                    response: ServerResponse::new(ResponseType::Chat(name, text)),
                },
            );
            assert(views(out@) =~= seq![out@[0]@]);
        },
        MessageType::ConnectWs(socket) => {
            let mut user = User::default();
            user.set_id(from);
            user.set_socket(socket);
            state.connect(from, user);
            assert(views(out@) =~= Seq::<OutgoingView<'a>>::empty());
        },
        MessageType::ConnectReq(name) => {
            let announced = name.clone();
            state.set_name(from, name);
            out.push(
                Outgoing {
                    audience: Audience::Everyone,
                    response: ServerResponse::new(ResponseType::UserJoin(announced)),
                },
            );
            assert(views(out@) =~= seq![out@[0]@]);
        },
        MessageType::Disconnect => {
            let ghost before = state@;
            match state.get_opponent(from) {
                Some(enemy) => {
                    out.push(to_one(enemy, ResponseType::WinByDisconnect(from)));
                },
                None => {},
            }
            let ghost to_opponent = views(out@);
            assert(to_opponent =~= match before.opponent_of(from) {
                Some(enemy) => seq![only(enemy, ResponseView::WinByDisconnect(from))],
                None => Seq::<OutgoingView<'a>>::empty(),
            });
            match state.get_name(from) {
                Some(name) => {
                    out.push(
                        Outgoing {
                            audience: Audience::AllBut(from),
                            response: ServerResponse::new(ResponseType::UserLeave(name.clone())),
                        },
                    );
                    assert(views(out@) =~= to_opponent + seq![out@[out@.len() - 1]@]);
                },
                None => {
                    assert(views(out@) =~= to_opponent + Seq::<OutgoingView<'a>>::empty());
                },
            }
            state.disconnect(from);
        },
        MessageType::BeginGame => {
            match state.new_random(from) {
                Ok((_battle_id, against)) => {
                    let own_name = name_of(state, from);
                    let other_name = name_of(state, against);
                    out.push(to_one(against, ResponseType::StartGame(own_name)));
                    out.push(to_one(from, ResponseType::StartGame(other_name)));
                    match state.hand_of(against) {
                        Some(hand) => {
                            out.push(to_one(against, ResponseType::DrawnHand(Box::new(hand))));
                        },
                        None => {},
                    }
                    match state.hand_of(from) {
                        Some(hand) => {
                            out.push(to_one(from, ResponseType::DrawnHand(Box::new(hand))));
                        },
                        None => {},
                    }
                    proof {
                        assert(views(out@) =~= seq![out@[0]@, out@[1]@, out@[2]@, out@[3]@]);
                        assert(name_or_empty(state@, from) == name_or_empty(old(state)@, from));
                        assert(name_or_empty(state@, against) == name_or_empty(
                            old(state)@,
                            against,
                        ));
                    }
                },
                Err(error) => {
                    out.push(to_one(from, ResponseType::Refused(error.describe())));
                    assert(views(out@) =~= seq![out@[0]@]);
                },
            }
        },
        MessageType::PlayUnit(card_name) => {
            match (state.find_unit(card_name.as_str()), state.get_opponent(from)) {
                (Some(unit), Some(opponent)) => {
                    out.push(to_one(from, ResponseType::UnitSpawned(true, Box::new(unit))));
                    out.push(to_one(opponent, ResponseType::UnitSpawned(false, Box::new(unit))));
                    assert(views(out@) =~= seq![out@[0]@, out@[1]@]);
                },
                _ => {
                    assert(views(out@) =~= Seq::<OutgoingView<'a>>::empty());
                },
            }
        },
        MessageType::DmgPing(dmg) => {
            match state.get_opponent(from) {
                Some(opponent) => {
                    match state.damage(opponent, dmg) {
                        Some(remaining_hp) => {
                            out.push(
                                to_one(from, ResponseType::NewTowerHealth(false, remaining_hp)),
                            );
                            out.push(
                                to_one(opponent, ResponseType::NewTowerHealth(true, remaining_hp)),
                            );
                        },
                        None => {
                            out.push(to_one(from, ResponseType::Win(from)));
                            out.push(to_one(opponent, ResponseType::Lose(opponent)));
                        },
                    }
                    assert(views(out@) =~= seq![out@[0]@, out@[1]@]);
                },
                None => {
                    assert(views(out@) =~= Seq::<OutgoingView<'a>>::empty());
                },
            }
        },
    }
    out
}

/// Sends one response to its audience. Every member is tried, also after a
/// failure. Returns the first failure, if there was any.
pub fn send<'a>(state: &State<'a>, outgoing: &Outgoing<'a>) -> (result: ServerResult<()>)
    ensures
        state@.sums_up(outgoing.audience.members(state@), result),
{
    let none: [u128; 0] = [];
    let recipients = match outgoing.audience {
        Audience::Everyone => {
            let recipients = state.recipients_except(none.as_slice());
            assert(state@.selected(false, none@, false) =~= Audience::Everyone.members(state@));
            recipients
        },
        Audience::AllBut(id) => {
            let one = [id];
            let recipients = state.recipients_except(one.as_slice());
            proof {
                assert(one@[0] == id);
                assert(state@.selected(false, one@, false) =~= outgoing.audience.members(state@));
            }
            recipients
        },
        Audience::Only(id) => {
            let one = [id];
            let recipients = state.recipients_among(one.as_slice());
            proof {
                assert(one@[0] == id);
                assert(state@.selected(false, one@, true) =~= outgoing.audience.members(state@));
            }
            recipients
        },
    };
    let report = state.deliver(&outgoing.response, &recipients);
    let result = first_failure(&report);
    proof {
        state@.lemma_report_sums_up(recipients@, report@);
    }
    result
}

/// Applies one event to the registry, sends the responses it calls for and
/// returns them, each with the result of sending it. A response that could
/// not be delivered to someone does not keep the others back.
pub fn dispatch<'a>(state: &mut State<'a>, event: ServerMessage<'a>) -> (sent: (
    Vec<Outgoing<'a>>,
    Vec<ServerResult<()>>,
))
    ensures
        handled(old(state)@, final(state)@, event.from, event.msg@, views(sent.0@)),
        old(state).wf() ==> final(state).wf(),
        sent.1@.len() == sent.0@.len(),
        forall|i: int|
            0 <= i < sent.0@.len() ==> final(state)@.sums_up(
                (#[trigger] sent.0@[i]).audience.members(final(state)@),
                sent.1@[i],
            ),
{
    let out = apply(state, event);
    let mut results: Vec<ServerResult<()>> = Vec::new();
    let mut i: usize = 0;
    while i < out.len()
        invariant
            i <= out.len(),
            results@.len() == i,
            forall|k: int|
                0 <= k < i ==> state@.sums_up(
                    (#[trigger] out@[k]).audience.members(state@),
                    results@[k],
                ),
        decreases out.len() - i,
    {
        let result = send(state, &out[i]);
        results.push(result);
        i += 1;
    }
    (out, results)
}

} // verus!
