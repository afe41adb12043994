//! The registry of connected users and running battles.

use rand::Rng;
use std::collections::HashMap;
use vstd::prelude::*;
use vstd::std_specs::iter::IteratorSpec;
use vstd::string::*;

use super::service::{ResponseType, ServerResponse};
use super::user::{User, UserStatus, UserView};
use crate::game::battle::Battle;
use crate::game::card_gen::{builtin_units, unit_named, valid_catalog, Catalog};
use crate::game::entity::{draw_hand_from, is_hand_of, Unit};
use crate::lists::{
    lemma_ids_below, lemma_not_in_earlier_part, lemma_push_contains, lemma_push_no_duplicates,
    list_contains,
};

verus! {

/// How many units a hand holds.
pub const GAME_HAND_SIZE: usize = 5;

/// What can go wrong in the registry and on the way to a client.
#[derive(Clone, Copy, Debug, PartialEq, Eq, Structural)]
pub enum ServerError {
    /// Matchmaking is unavailable: nobody else waits in the lobby.
    NotEnoughInLobbyToStartError,
    /// An invalid state transition: a battle was to start with a
    /// participant that is not in the lobby.
    AttemptedStartWhenNotInLobbyError,
    /// No active connection: the user has no handle attached to send
    /// through.
    SocketDisconnectedError,
    /// Delivery failed: the user's connection is closed and takes no more
    /// responses.
    DeliveryFailedError,
    /// No hand available: the user holds none, or the catalog is too small
    /// to draw one.
    NoHandYetError,
    /// Unknown user: nobody is connected under that id.
    InvalidUserIdError,
}

impl ServerError {
    /// The error in words.
    pub open spec fn text(self) -> Seq<char> {
        match self {
            ServerError::NotEnoughInLobbyToStartError => {
                "Not enough users in lobby to start a battle"@
            },
            ServerError::AttemptedStartWhenNotInLobbyError => {
                "Attempted to start a battle where at least one user is not in the lobby"@
            },
            ServerError::SocketDisconnectedError => "No websocket attached to user"@,
            ServerError::DeliveryFailedError => "Connection closed before the response was sent"@,
            ServerError::NoHandYetError => "Requested hand when it did not exist"@,
            ServerError::InvalidUserIdError => "User does not exist"@,
        }
    }

    /// The error in words.
    pub fn describe(&self) -> (text: String)
        ensures
            text@ == self.text(),
    {
        match self {
            ServerError::NotEnoughInLobbyToStartError => String::from_str(
                "Not enough users in lobby to start a battle",
            ),
            ServerError::AttemptedStartWhenNotInLobbyError => String::from_str(
                "Attempted to start a battle where at least one user is not in the lobby",
            ),
            ServerError::SocketDisconnectedError => String::from_str(
                "No websocket attached to user",
            ),
            ServerError::DeliveryFailedError => String::from_str(
                "Connection closed before the response was sent",
            ),
            ServerError::NoHandYetError => String::from_str("Requested hand when it did not exist"),
            ServerError::InvalidUserIdError => String::from_str("User does not exist"),
        }
    }
}

pub type ServerResult<T> = Result<T, ServerError>;

/// How the attempt to reach one recipient ended.
#[derive(Clone, Copy, Debug, PartialEq, Eq)]
pub struct Delivery {
    pub to: u128,
    pub outcome: ServerResult<()>,
}

/// The first failure in `report`, or success when it holds none.
pub open spec fn first_failure_of(report: Seq<Delivery>) -> ServerResult<()>
    decreases report.len(),
{
    if report.len() == 0 {
        Ok(())
    } else if report[0].outcome is Err {
        report[0].outcome
    } else {
        first_failure_of(report.drop_first())
    }
}

/// Whether `id` carries the version and variant marks of a random UUID.
pub open spec fn is_random_uuid(id: u128) -> bool {
    id & 0x0000_0000_0000_f000_c000_0000_0000_0000 == 0x0000_0000_0000_4000_8000_0000_0000_0000
}

/// Trusted: uuid's `Uuid::new_v4`, read as a number with `Uuid::as_u128`.
/// The id is random; all that is known of it is that `new_v4` sets the
/// version and variant bits of a random UUID. It panics if the operating
/// system has no randomness to give.
#[verifier::external_body]
fn fresh_battle_id() -> (id: u128)
    ensures
        is_random_uuid(id),
{
    uuid::Uuid::new_v4().as_u128()
}

/// Trusted: rand's `Rng::gen_range` over `0..len`, driven by
/// `rand::thread_rng()`. It panics on an empty range, which `requires`
/// leaves out, and returns a number of the range, which one is left open.
/// The generator panics if the operating system has no randomness to seed
/// it with.
#[verifier::external_body]
fn random_index(len: usize) -> (index: usize)
    requires
        len > 0,
    ensures
        index < len,
{
    rand::thread_rng().gen_range(0..len)
}

/// The registry as contracts speak of it: the users by id, the battles by
/// id, and the catalog that hands are drawn from.
pub struct StateView<'a> {
    pub users: Map<u128, UserView<'a>>,
    pub battles: Map<u128, Battle>,
    pub catalog: Seq<Unit<'a>>,
}

impl<'a> StateView<'a> {
    /// What holds of every registry between two operations: the catalog is
    /// valid; the two participants of every battle on record differ; every
    /// user is filed under its own id, holds a hand exactly while it is in a
    /// battle, that hand is drawn from the catalog, and the battle it is in
    /// is on record with the user as one of its participants.
    pub open spec fn wf(self) -> bool {
        &&& valid_catalog(self.catalog)
        &&& forall|battle: u128| #[trigger]
            self.battles.contains_key(battle) ==> self.battles[battle].wf()
        &&& forall|id: u128| #[trigger]
            self.users.contains_key(id) ==> {
                &&& self.users[id].wf()
                &&& self.users[id].id == id
                &&& (self.users[id].status matches UserStatus::InGame(battle)
                    ==> self.battles.contains_key(battle)
                    && self.battles[battle].has_participant(id))
                &&& (self.users[id].hand matches Some(hand) ==> is_hand_of(hand, self.catalog))
            }
    }

    /// Whether `id` is connected and waits in the lobby.
    pub open spec fn in_lobby(self, id: u128) -> bool {
        self.users.contains_key(id) && self.users[id].status == UserStatus::Lobby
    }

    /// The users that `exclude` can be matched with: everyone in the lobby
    /// but `exclude` itself.
    pub open spec fn available(self, exclude: u128) -> Set<u128> {
        Set::new(|id: u128| self.in_lobby(id) && id != exclude)
    }

    /// The connected users picked by a selection: those in the lobby only,
    /// where `lobby_only` says so; and those that occur in `listed`, or
    /// those that do not, as `keep_listed` says.
    pub open spec fn selected(self, lobby_only: bool, listed: Seq<u128>, keep_listed: bool) -> Set<
        u128,
    > {
        Set::new(
            |id: u128|
                {
                    &&& self.users.contains_key(id)
                    &&& lobby_only ==> self.users[id].status == UserStatus::Lobby
                    &&& listed.contains(id) == keep_listed
                },
        )
    }

    /// Whether the battle `battle` is on record with two different
    /// participants, each of them a connected user that stands in it. A
    /// battle is intact when matchmaking starts it; it stays on record when
    /// a participant disconnects, and is then no longer intact.
    pub open spec fn battle_intact(self, battle: u128) -> bool {
        &&& self.battles.contains_key(battle)
        &&& self.battles[battle].wf()
        &&& self.users.contains_key(self.battles[battle].team_a.0)
        &&& self.users.contains_key(self.battles[battle].team_b.0)
        &&& self.users[self.battles[battle].team_a.0].status == UserStatus::InGame(battle)
        &&& self.users[self.battles[battle].team_b.0].status == UserStatus::InGame(battle)
    }

    /// The id of the battle on record that `id` is in, if there is one.
    pub open spec fn battle_of(self, id: u128) -> Option<u128> {
        if self.users.contains_key(id) {
            match self.users[id].status {
                UserStatus::InGame(battle) => if self.battles.contains_key(battle) {
                    Some(battle)
                } else {
                    None
                },
                UserStatus::Lobby => None,
            }
        } else {
            None
        }
    }

    /// Whom `id` fights against, if it is in a battle.
    pub open spec fn opponent_of(self, id: u128) -> Option<u128> {
        match self.battle_of(id) {
            Some(battle) => Some(self.battles[battle].enemy_of(id)),
            None => None,
        }
    }

    /// The card at position `card` of the hand of `id`.
    pub open spec fn card_of(self, id: u128, card: usize) -> ServerResult<Unit<'a>> {
        if !self.users.contains_key(id) {
            Err(ServerError::InvalidUserIdError)
        } else {
            match self.users[id].hand {
                Some(hand) => if card < hand.len() {
                    Ok(hand[card as int])
                } else {
                    Err(ServerError::NoHandYetError)
                },
                None => Err(ServerError::NoHandYetError),
            }
        }
    }

    /// The registry after `user` has connected under `id`: it is filed
    /// under that id, in the lobby and without a hand.
    pub open spec fn connected(self, id: u128, user: UserView<'a>) -> Self {
        StateView {
            users: self.users.insert(
                id,
                UserView { id, status: UserStatus::Lobby, hand: None, ..user },
            ),
            ..self
        }
    }

    /// The registry after a battle of id `battle` has started between `a`
    /// and `b`, first `a` and then `b` entering it with its hand.
    pub open spec fn with_battle(
        self,
        a: u128,
        b: u128,
        battle: u128,
        hand_a: Seq<Unit<'a>>,
        hand_b: Seq<Unit<'a>>,
    ) -> Self {
        let first = self.users.insert(a, self.users[a].entered(battle, hand_a));
        StateView {
            users: first.insert(b, first[b].entered(battle, hand_b)),
            battles: self.battles.insert(battle, Battle::started(a, b)),
            ..self
        }
    }

    /// Whether `a` and `b` can enter a battle against each other: they are
    /// two different users, both connected and in the lobby.
    pub open spec fn can_fight(self, a: u128, b: u128) -> bool {
        self.in_lobby(a) && self.in_lobby(b) && a != b
    }

    /// Whether `id` is the smallest id under which no battle is on record.
    pub open spec fn least_unused(self, id: u128) -> bool {
        &&& !self.battles.contains_key(id)
        &&& forall|lower: u128| lower < id ==> #[trigger] self.battles.contains_key(lower)
    }

    /// Whether `id` is the id that a new battle is filed under when `drawn`
    /// was drawn for it: `drawn` itself, unless a battle is on record under
    /// it already, and then the smallest id that is not in use.
    pub open spec fn files_under(self, drawn: u128, id: u128) -> bool {
        if self.battles.contains_key(drawn) {
            self.least_unused(id)
        } else {
            id == drawn
        }
    }

    /// Why no battle can start between `a` and `b`, if none can: because
    /// they are one and the same user or one of them is not connected or
    /// not in the lobby, or else because the catalog is too small for a
    /// hand.
    pub open spec fn battle_refusal(self, a: u128, b: u128) -> Option<ServerError> {
        if !self.can_fight(a, b) {
            Some(ServerError::AttemptedStartWhenNotInLobbyError)
        } else if self.catalog.len() < GAME_HAND_SIZE {
            Some(ServerError::NoHandYetError)
        } else {
            None
        }
    }

    /// Why `id` cannot be matched, if it cannot: because nobody is
    /// available to it, or else for the reason that keeps it from starting
    /// a battle with anyone in the lobby.
    pub open spec fn matchmaking_refusal(self, id: u128) -> Option<ServerError> {
        if self.available(id) =~= Set::<u128>::empty() {
            Some(ServerError::NotEnoughInLobbyToStartError)
        } else if !self.in_lobby(id) {
            Some(ServerError::AttemptedStartWhenNotInLobbyError)
        } else if self.catalog.len() < GAME_HAND_SIZE {
            Some(ServerError::NoHandYetError)
        } else {
            None
        }
    }

    /// Whether `after` is this registry once `a` and `b` have entered the
    /// battle `battle`: the id was not in use before and is a random one,
    /// or, where the random one was taken, the smallest that was not; and
    /// each of the two holds a full hand drawn from the catalog.
    pub open spec fn battle_started(self, after: Self, a: u128, b: u128, battle: u128) -> bool {
        &&& !self.battles.contains_key(battle)
        &&& is_random_uuid(battle) || self.least_unused(battle)
        &&& after.users.contains_key(a)
        &&& after.users.contains_key(b)
        &&& after.users[a].hand matches Some(hand_a)
        &&& after.users[b].hand matches Some(hand_b)
        &&& hand_a.len() == GAME_HAND_SIZE
        &&& hand_b.len() == GAME_HAND_SIZE
        &&& is_hand_of(hand_a, self.catalog)
        &&& is_hand_of(hand_b, self.catalog)
        &&& after == self.with_battle(a, b, battle, hand_a, hand_b)
    }

    /// Whether a delivery report fits the recipient it names: no handle
    /// attached gives `SocketDisconnectedError`, an attached handle gives
    /// success or `DeliveryFailedError`, and an id that is not connected
    /// gives `InvalidUserIdError`.
    pub open spec fn delivery_fits(self, delivery: Delivery) -> bool {
        if !self.users.contains_key(delivery.to) {
            delivery.outcome == Err::<(), ServerError>(ServerError::InvalidUserIdError)
        } else if !self.users[delivery.to].connected() {
            delivery.outcome == Err::<(), ServerError>(ServerError::SocketDisconnectedError)
        } else {
            delivery.outcome is Ok || delivery.outcome == Err::<(), ServerError>(
                ServerError::DeliveryFailedError,
            )
        }
    }

    /// Whether `result` sums up an attempt to reach every user in
    /// `recipients`: success means that each of them has a handle attached;
    /// an error is one that the attempt for some recipient gave.
    pub open spec fn sums_up(self, recipients: Set<u128>, result: ServerResult<()>) -> bool {
        match result {
            Ok(()) => forall|id: u128| #[trigger]
                recipients.contains(id) ==> self.users.contains_key(id)
                    && self.users[id].connected(),
            Err(ServerError::SocketDisconnectedError) => exists|id: u128| #[trigger]
                recipients.contains(id) && self.users.contains_key(id)
                    && !self.users[id].connected(),
            Err(ServerError::DeliveryFailedError) => exists|id: u128| #[trigger]
                recipients.contains(id) && self.users.contains_key(id)
                    && self.users[id].connected(),
            Err(ServerError::InvalidUserIdError) => exists|id: u128| #[trigger]
                recipients.contains(id) && !self.users.contains_key(id),
            Err(_) => false,
        }
    }

    /// The registry after `id` has disconnected.
    pub open spec fn disconnected(self, id: u128) -> Self {
        StateView { users: self.users.remove(id), ..self }
    }

    /// The registry after `id` has taken the name `name`. Nothing changes
    /// when `id` is not connected.
    pub open spec fn renamed(self, id: u128, name: Seq<char>) -> Self {
        if self.users.contains_key(id) {
            StateView {
                users: self.users.insert(id, UserView { name: Some(name), ..self.users[id] }),
                ..self
            }
        } else {
            self
        }
    }

    /// The registry after the tower of `to` took `dmg` points of damage.
    /// Nothing changes when `to` is in no battle.
    pub open spec fn damaged(self, to: u128, dmg: usize) -> Self {
        match self.battle_of(to) {
            Some(battle) => StateView {
                battles: self.battles.insert(battle, self.battles[battle].after_damage(to, dmg)),
                ..self
            },
            None => self,
        }
    }

    /// What damaging the tower of `to` reports: `None` when `to` is in no
    /// battle or its tower is destroyed, the remaining health otherwise.
    pub open spec fn damage_report(self, to: u128, dmg: usize) -> Option<usize> {
        match self.battle_of(to) {
            Some(battle) => self.battles[battle].damage_report(to, dmg),
            None => None,
        }
    }
}

/// The registry: who is connected, and which battles are on record.
pub struct State<'a> {
    users: HashMap<u128, User<'a>>,
    battles: HashMap<u128, Battle>,
    catalog: Catalog<'a>,
}

impl<'a> View for State<'a> {
    type V = StateView<'a>;

    closed spec fn view(&self) -> StateView<'a> {
        StateView {
            users: self.users@.map_values(|user: User<'a>| user@),
            battles: self.battles@,
            catalog: self.catalog@,
        }
    }
}

impl<'a> Default for State<'a> {
    /// An empty registry over the entries that ship with the game.
    fn default() -> (state: Self)
        ensures
            state@.users == Map::<u128, UserView<'a>>::empty(),
            state@.battles == Map::<u128, Battle>::empty(),
            state@.catalog == builtin_units(),
            state.wf(),
    {
        broadcast use vstd::std_specs::hash::group_hash_axioms;

        let state = State {
            users: HashMap::new(),
            battles: HashMap::new(),
            catalog: Catalog::builtin(),
        };
        assert(state@.users =~= Map::<u128, UserView<'a>>::empty());
        state
    }
}

impl<'a> State<'a> {
    /// Every operation of the registry keeps it well formed.
    pub open spec fn wf(&self) -> bool {
        self@.wf()
    }

    /// An empty registry over the given catalog.
    pub fn with_catalog(catalog: Catalog<'a>) -> (state: Self)
        ensures
            state@.users == Map::<u128, UserView<'a>>::empty(),
            state@.battles == Map::<u128, Battle>::empty(),
            state@.catalog == catalog@,
            state.wf(),
    {
        broadcast use vstd::std_specs::hash::group_hash_axioms;

        proof {
            use_type_invariant(&catalog);
        }
        let state = State { users: HashMap::new(), battles: HashMap::new(), catalog };
        assert(state@.users =~= Map::<u128, UserView<'a>>::empty());
        state
    }

    /// The ids of all connected users, each once, in no particular order.
    pub fn user_ids(&self) -> (ids: Vec<u128>)
        ensures
            ids@.no_duplicates(),
            ids@.to_set() == self@.users.dom(),
    {
        broadcast use vstd::std_specs::hash::group_hash_axioms;

        let mut ids: Vec<u128> = Vec::new();
        let ghost keys = self.users.keys().remaining().unref();
        for id in it: self.users.keys()
            invariant
                it.seq().unref() == keys,
                ids@ == keys.subrange(0, it.index()),
        {
            ids.push(*id);
            assert(ids@ =~= keys.subrange(0, it.index() + 1));
        }
        proof {
            assert(ids@ =~= keys);
            assert(self@.users.dom() =~= self.users@.dom());
        }
        ids
    }

    /// Files `user` under `id`, in the lobby and without a hand, and
    /// returns the id. A user already filed under `id` is replaced.
    pub fn connect(&mut self, id: u128, user: User<'a>) -> (assigned: u128)
        ensures
            assigned == id,
            final(self)@ == old(self)@.connected(id, user@),
            old(self).wf() ==> final(self).wf(),
    {
        broadcast use vstd::std_specs::hash::group_hash_axioms;

        let mut user = user;
        user.set_id(id);
        user.leave_game();
        self.users.insert(id, user);
        assert(self@.users =~= old(self)@.connected(id, user@).users);
        id
    }

    /// Removes the user `id`. Nothing happens when it is not connected.
    pub fn disconnect(&mut self, id: u128)
        ensures
            final(self)@ == old(self)@.disconnected(id),
            old(self).wf() ==> final(self).wf(),
    {
        broadcast use vstd::std_specs::hash::group_hash_axioms;

        self.users.remove(&id);
        assert(self@.users =~= old(self)@.users.remove(id));
    }

    /// Takes `dmg` points off the tower of `to`. Returns the health that is
    /// left, and `None` when the tower is destroyed or `to` is in no battle.
    pub fn damage(&mut self, to: u128, dmg: usize) -> (remaining: Option<usize>)
        ensures
            final(self)@ == old(self)@.damaged(to, dmg),
            remaining == old(self)@.damage_report(to, dmg),
            old(self).wf() ==> final(self).wf(),
    {
        broadcast use vstd::std_specs::hash::group_hash_axioms;

        let status = match self.users.get(&to) {
            Some(user) => *user.status(),
            None => {
                return None;
            },
        };
        match status {
            UserStatus::InGame(battle_id) => {
                let mut battle = match self.battles.get(&battle_id) {
                    Some(battle) => *battle,
                    None => {
                        return None;
                    },
                };
                let remaining = battle.damage_tick(to, dmg);
                self.battles.insert(battle_id, battle);
                assert(self@.users =~= old(self)@.users);
                remaining
            },
            UserStatus::Lobby => None,
        }
    }

    /// Whom `id` fights against, or `None` when it is in no battle.
    pub fn get_opponent(&self, id: u128) -> (opponent: Option<u128>)
        ensures
            opponent == self@.opponent_of(id),
    {
        broadcast use vstd::std_specs::hash::group_hash_axioms;

        let status = match self.users.get(&id) {
            Some(user) => *user.status(),
            None => {
                return None;
            },
        };
        match status {
            UserStatus::InGame(battle_id) => match self.battles.get(&battle_id) {
                Some(battle) => Some(battle.get_enemy(id)),
                None => None,
            },
            UserStatus::Lobby => None,
        }
    }

    /// The card at position `card` of the hand of `id`. Fails with
    /// `InvalidUserIdError` when `id` is not connected, and with
    /// `NoHandYetError` when it holds no hand or the hand has no such
    /// position.
    pub fn get_card_from_user(&self, id: u128, card: usize) -> (unit: ServerResult<Unit<'a>>)
        ensures
            unit == self@.card_of(id, card),
    {
        broadcast use vstd::std_specs::hash::group_hash_axioms;

        let user = match self.users.get(&id) {
            Some(user) => user,
            None => {
                return Err(ServerError::InvalidUserIdError);
            },
        };
        match user.get_hand() {
            Some(hand) => if card < GAME_HAND_SIZE {
                Ok(hand[card])
            } else {
                Err(ServerError::NoHandYetError)
            },
            None => Err(ServerError::NoHandYetError),
        }
    }

    /// Gives the user `id` the name `name`. Nothing happens when it is not
    /// connected.
    pub fn set_name(&mut self, id: u128, name: String)
        ensures
            final(self)@ == old(self)@.renamed(id, name@),
            old(self).wf() ==> final(self).wf(),
    {
        broadcast use vstd::std_specs::hash::group_hash_axioms;

        match self.users.remove(&id) {
            Some(user) => {
                let mut user = user;
                user.set_name(name);
                self.users.insert(id, user);
                assert(self@.users =~= old(self)@.renamed(id, name@).users);
            },
            None => {
                assert(self@.users =~= old(self)@.users);
            },
        }
    }

    /// The users picked by a selection, each once, in no particular order.
    fn select(&self, lobby_only: bool, listed: &[u128], keep_listed: bool) -> (ids: Vec<u128>)
        ensures
            ids@.no_duplicates(),
            ids@.to_set() == self@.selected(lobby_only, listed@, keep_listed),
    {
        broadcast use vstd::std_specs::hash::group_hash_axioms;

        let all = self.user_ids();
        let ghost chosen = self@.selected(lobby_only, listed@, keep_listed);
        let mut ids: Vec<u128> = Vec::new();
        let mut i: usize = 0;
        while i < all.len()
            invariant
                i <= all.len(),
                all@.no_duplicates(),
                all@.to_set() == self@.users.dom(),
                chosen == self@.selected(lobby_only, listed@, keep_listed),
                ids@.no_duplicates(),
                forall|id: u128|
                    #![trigger ids@.contains(id)]
                    ids@.contains(id) <==> all@.subrange(0, i as int).contains(id)
                        && chosen.contains(id),
            decreases all.len() - i,
        {
            let id = all[i];
            let in_lobby = match self.users.get(&id) {
                Some(user) => *user.status() == UserStatus::Lobby,
                None => false,
            };
            let in_list = list_contains(listed, id);
            let ghost before = all@.subrange(0, i as int);
            let ghost earlier = ids@;
            proof {
                assert(all@.to_set().contains(id));
                lemma_not_in_earlier_part(all@, i as int);
                assert(!earlier.contains(id));
            }
            if (!lobby_only || in_lobby) && in_list == keep_listed {
                ids.push(id);
                proof {
                    lemma_push_no_duplicates(earlier, id);
                }
            }
            i += 1;
            proof {
                assert forall|other: u128|
                    #![trigger ids@.contains(other)]
                    ids@.contains(other) <==> all@.subrange(0, i as int).contains(other)
                        && chosen.contains(other) by {
                    lemma_push_contains(before, id, other);
                    lemma_push_contains(earlier, id, other);
                    assert(earlier.contains(other) <==> before.contains(other) && chosen.contains(
                        other,
                    ));
                }
            }
        }
        proof {
            assert(all@.subrange(0, all@.len() as int) =~= all@);
            assert forall|id: u128| ids@.to_set().contains(id) <==> chosen.contains(id) by {
                if chosen.contains(id) {
                    assert(all@.to_set().contains(id));
                }
            }
            assert(ids@.to_set() =~= chosen);
        }
        ids
    }

    /// The users that `exclude` can be matched with, each once, in no
    /// particular order.
    pub fn available_users(&self, exclude: u128) -> (ids: Vec<u128>)
        ensures
            ids@.no_duplicates(),
            ids@.to_set() == self@.available(exclude),
    {
        let excluded = [exclude];
        let ids = self.select(true, excluded.as_slice(), false);
        proof {
            assert forall|id: u128| excluded@.contains(id) <==> id == exclude by {
                if id == exclude {
                    assert(excluded@[0] == id);
                }
            }
            assert(self@.selected(true, excluded@, false) =~= self@.available(exclude));
        }
        ids
    }

    /// The id to file a new battle under when `drawn` was drawn for it:
    /// `drawn` itself, unless a battle is on record under it already, and
    /// then the smallest id that is not in use.
    pub fn unused_battle_id(&self, drawn: u128) -> (id: u128)
        ensures
            self@.files_under(drawn, id),
            !self@.battles.contains_key(id),
    {
        broadcast use vstd::std_specs::hash::group_hash_axioms;

        if !self.battles.contains_key(&drawn) {
            return drawn;
        }
        let count = self.battles.len();
        let mut candidate: u128 = 0;
        while self.battles.contains_key(&candidate)
            invariant
                count == self.battles@.dom().len(),
                self.battles@.dom().finite(),
                candidate <= count,
                forall|lower: u128|
                    lower < candidate ==> #[trigger] self.battles@.contains_key(lower),
            decreases count - candidate,
        {
            proof {
                lemma_ids_below(self.battles@.dom(), (candidate + 1) as nat);
            }
            candidate = candidate + 1;
        }
        candidate
    }

    /// Starts a battle between `a` and `b`, with the id and the hands drawn
    /// for it. The battle is filed under the drawn id, or, where that one is
    /// in use, under the smallest id that is not. Fails with
    /// `AttemptedStartWhenNotInLobbyError`, and changes nothing, unless
    /// `a` and `b` are two different users, both connected and in the
    /// lobby.
    pub fn new_battle_with(
        &mut self,
        a: u128,
        b: u128,
        battle_id: u128,
        hand_a: [Unit<'a>; GAME_HAND_SIZE],
        hand_b: [Unit<'a>; GAME_HAND_SIZE],
    ) -> (started: ServerResult<(u128, u128)>)
        ensures
            old(self)@.can_fight(a, b) ==> {
                &&& started matches Ok((battle, opponent))
                &&& opponent == b
                &&& old(self)@.files_under(battle_id, battle)
                &&& !old(self)@.battles.contains_key(battle)
                &&& final(self)@ == old(self)@.with_battle(a, b, battle, hand_a@, hand_b@)
            },
            !old(self)@.can_fight(a, b) ==> {
                &&& started == Err::<(u128, u128), ServerError>(
                    ServerError::AttemptedStartWhenNotInLobbyError,
                )
                &&& final(self)@ == old(self)@
            },
            old(self).wf() && is_hand_of(hand_a@, old(self)@.catalog) && is_hand_of(
                hand_b@,
                old(self)@.catalog,
            ) ==> final(self).wf(),
    {
        broadcast use vstd::std_specs::hash::group_hash_axioms;

        if a == b || !self.is_in_lobby(a) || !self.is_in_lobby(b) {
            return Err(ServerError::AttemptedStartWhenNotInLobbyError);
        }
        let battle_id = self.unused_battle_id(battle_id);
        self.battles.insert(battle_id, Battle::start_battle(a, b));
        match self.users.remove(&a) {
            Some(user) => {
                let mut user = user;
                user.enter_game(battle_id, hand_a);
                self.users.insert(a, user);
            },
            None => {},
        }
        match self.users.remove(&b) {
            Some(user) => {
                let mut user = user;
                user.enter_game(battle_id, hand_b);
                self.users.insert(b, user);
            },
            None => {},
        }
        assert(self@.users =~= old(self)@.with_battle(a, b, battle_id, hand_a@, hand_b@).users);
        Ok((battle_id, b))
    }

    /// Whether `id` is connected and waits in the lobby.
    pub fn is_in_lobby(&self, id: u128) -> (waiting: bool)
        ensures
            waiting == self@.in_lobby(id),
    {
        broadcast use vstd::std_specs::hash::group_hash_axioms;

        match self.users.get(&id) {
            Some(user) => *user.status() == UserStatus::Lobby,
            None => false,
        }
    }

    /// Starts a battle between `a` and `b` under an id that was not in use,
    /// each with a hand drawn from the catalog, and returns the id and `b`.
    /// Fails with `AttemptedStartWhenNotInLobbyError` unless they are two
    /// different users, both connected and in the lobby, and with
    /// `NoHandYetError` when the catalog is too small for a hand. A failure
    /// changes nothing.
    pub fn new_battle(&mut self, user_a_id: u128, user_b_id: u128) -> (started: ServerResult<
        (u128, u128),
    >)
        ensures
            match old(self)@.battle_refusal(user_a_id, user_b_id) {
                Some(error) => started == Err::<(u128, u128), ServerError>(error) && final(self)@
                    == old(self)@,
                None => {
                    &&& started matches Ok((battle, opponent))
                    &&& opponent == user_b_id
                    &&& old(self)@.battle_started(final(self)@, user_a_id, user_b_id, battle)
                },
            },
            old(self).wf() ==> final(self).wf(),
    {
        if user_a_id == user_b_id || !self.is_in_lobby(user_a_id) || !self.is_in_lobby(user_b_id)
        {
            return Err(ServerError::AttemptedStartWhenNotInLobbyError);
        }
        let battle_id = fresh_battle_id();
        let hand_a = match draw_hand_from::<GAME_HAND_SIZE>(&self.catalog) {
            Some(hand) => hand,
            None => {
                return Err(ServerError::NoHandYetError);
            },
        };
        let hand_b = match draw_hand_from::<GAME_HAND_SIZE>(&self.catalog) {
            Some(hand) => hand,
            None => {
                return Err(ServerError::NoHandYetError);
            },
        };
        self.new_battle_with(user_a_id, user_b_id, battle_id, hand_a, hand_b)
    }

    /// Matches `id` with a user picked at random among those available to
    /// it, and starts their battle as `new_battle` does. Fails with
    /// `NotEnoughInLobbyToStartError` exactly when nobody is available, and
    /// otherwise where `new_battle` fails.
    pub fn new_random(&mut self, id: u128) -> (started: ServerResult<(u128, u128)>)
        ensures
            match old(self)@.matchmaking_refusal(id) {
                Some(error) => started == Err::<(u128, u128), ServerError>(error) && final(self)@
                    == old(self)@,
                None => {
                    &&& started matches Ok((battle, opponent))
                    &&& old(self)@.available(id).contains(opponent)
                    &&& old(self)@.battle_started(final(self)@, id, opponent, battle)
                },
            },
            old(self).wf() ==> final(self).wf(),
    {
        let users = self.available_users(id);
        if users.len() == 0 {
            assert(self@.available(id) =~= Set::<u128>::empty());
            return Err(ServerError::NotEnoughInLobbyToStartError);
        }
        let opponent = users[random_index(users.len())];
        assert(users@.to_set().contains(opponent));
        self.new_battle(id, opponent)
    }

    /// The connected users among `to`, each once, in no particular order.
    pub fn recipients_among(&self, to: &[u128]) -> (ids: Vec<u128>)
        ensures
            ids@.no_duplicates(),
            ids@.to_set() == self@.selected(false, to@, true),
    {
        self.select(false, to, true)
    }

    /// The connected users that are not in `exclude`, each once, in no
    /// particular order.
    pub fn recipients_except(&self, exclude: &[u128]) -> (ids: Vec<u128>)
        ensures
            ids@.no_duplicates(),
            ids@.to_set() == self@.selected(false, exclude@, false),
    {
        self.select(false, exclude, false)
    }

    /// Tries to send `msg` to each of `recipients` in turn, whatever
    /// happened to the ones before, and reports how each attempt ended.
    pub fn deliver(&self, msg: &ServerResponse<'a>, recipients: &Vec<u128>) -> (report: Vec<
        Delivery,
    >)
        ensures
            report@.len() == recipients@.len(),
            forall|i: int|
                0 <= i < report@.len() ==> (#[trigger] report@[i]).to == recipients@[i]
                    && self@.delivery_fits(report@[i]),
    {
        broadcast use vstd::std_specs::hash::group_hash_axioms;

        let mut report: Vec<Delivery> = Vec::new();
        let mut i: usize = 0;
        while i < recipients.len()
            invariant
                i <= recipients.len(),
                report@.len() == i,
                forall|k: int|
                    0 <= k < i ==> (#[trigger] report@[k]).to == recipients@[k]
                        && self@.delivery_fits(report@[k]),
            decreases recipients.len() - i,
        {
            let to = recipients[i];
            let outcome = match self.users.get(&to) {
                Some(user) => user.message(msg),
                None => Err(ServerError::InvalidUserIdError),
            };
            report.push(Delivery { to, outcome });
            i += 1;
        }
        report
    }

    /// Sends `msg` to every connected user. See `broadcast_to_all_but`.
    pub fn broadcast(&self, msg: ServerResponse<'a>) -> (result: ServerResult<()>)
        ensures
            self@.sums_up(self@.users.dom(), result),
    {
        let nobody: [u128; 0] = [];
        let result = self.broadcast_to_all_but(msg, nobody.as_slice());
        proof {
            assert(self@.selected(false, nobody@, false) =~= self@.users.dom());
        }
        result
    }

    /// Sends `msg` to every connected user that is not in `exclude`. Every
    /// recipient is tried, also after a failure. Returns the first failure,
    /// if there was any.
    pub fn broadcast_to_all_but(&self, msg: ServerResponse<'a>, exclude: &[u128]) -> (result:
        ServerResult<()>)
        ensures
            self@.sums_up(self@.selected(false, exclude@, false), result),
    {
        let recipients = self.recipients_except(exclude);
        let report = self.deliver(&msg, &recipients);
        let result = first_failure(&report);
        proof {
            self@.lemma_report_sums_up(recipients@, report@);
        }
        result
    }

    /// Sends `msg` to every connected user in `to`. Every recipient is
    /// tried, also after a failure. Returns the first failure, if there was
    /// any.
    pub fn broadcast_to(&self, msg: ServerResponse<'a>, to: &[u128]) -> (result: ServerResult<()>)
        ensures
            self@.sums_up(self@.selected(false, to@, true), result),
    {
        let recipients = self.recipients_among(to);
        let report = self.deliver(&msg, &recipients);
        let result = first_failure(&report);
        proof {
            self@.lemma_report_sums_up(recipients@, report@);
        }
        result
    }

    /// Sends the user `id` the hand it holds. Fails with
    /// `InvalidUserIdError` when `id` is not connected and with
    /// `NoHandYetError` when it holds no hand; otherwise the result is that
    /// of the delivery.
    pub fn broadcast_users_hand(&self, id: u128) -> (result: ServerResult<()>)
        ensures
            !self@.users.contains_key(id) ==> result == Err::<(), ServerError>(
                ServerError::InvalidUserIdError,
            ),
            self@.users.contains_key(id) && self@.users[id].hand is None ==> result == Err::<
                (),
                ServerError,
            >(ServerError::NoHandYetError),
            self@.users.contains_key(id) && self@.users[id].hand is Some ==> self@.delivery_fits(
                Delivery { to: id, outcome: result },
            ),
    {
        broadcast use vstd::std_specs::hash::group_hash_axioms;

        let user = match self.users.get(&id) {
            Some(user) => user,
            None => {
                return Err(ServerError::InvalidUserIdError);
            },
        };
        let hand = match user.get_hand() {
            Some(hand) => hand,
            None => {
                return Err(ServerError::NoHandYetError);
            },
        };
        let response = ServerResponse::new(ResponseType::DrawnHand(Box::new(hand)));
        user.message(&response)
    }

    /// Where the user `id` stands, if it is connected.
    pub fn status_of(&self, id: u128) -> (status: Option<UserStatus>)
        ensures
            match status {
                Some(status) => self@.users.contains_key(id) && self@.users[id].status == status,
                None => !self@.users.contains_key(id),
            },
    {
        broadcast use vstd::std_specs::hash::group_hash_axioms;

        match self.users.get(&id) {
            Some(user) => Some(*user.status()),
            None => None,
        }
    }

    /// The battle on record under `id`, if there is one.
    pub fn battle(&self, id: u128) -> (battle: Option<Battle>)
        ensures
            match battle {
                Some(battle) => self@.battles.contains_key(id) && self@.battles[id] == battle,
                None => !self@.battles.contains_key(id),
            },
    {
        broadcast use vstd::std_specs::hash::group_hash_axioms;

        match self.battles.get(&id) {
            Some(battle) => Some(*battle),
            None => None,
        }
    }

    /// The hand that the user `id` holds, if it is connected and holds one.
    pub fn hand_of(&self, id: u128) -> (hand: Option<[Unit<'a>; GAME_HAND_SIZE]>)
        ensures
            match hand {
                Some(hand) => self@.users.contains_key(id) && self@.users[id].hand == Some(hand@),
                None => !self@.users.contains_key(id) || self@.users[id].hand is None,
            },
    {
        broadcast use vstd::std_specs::hash::group_hash_axioms;

        match self.users.get(&id) {
            Some(user) => user.get_hand(),
            None => None,
        }
    }

    /// The unit that the catalog lists under `name`, if there is one.
    pub fn find_unit(&self, name: &str) -> (found: Option<Unit<'a>>)
        ensures
            found == unit_named(self@.catalog, name@),
    {
        self.catalog.find(name)
    }

    /// The name that the user `id` goes by, if it is connected and has one.
    pub fn get_name(&self, id: u128) -> (name: Option<&String>)
        ensures
            match name {
                Some(name) => self@.users.contains_key(id) && self@.users[id].name == Some(name@),
                None => !self@.users.contains_key(id) || self@.users[id].name is None,
            },
    {
        broadcast use vstd::std_specs::hash::group_hash_axioms;

        match self.users.get(&id) {
            Some(user) => user.name(),
            None => None,
        }
    }
}

/// The first failure in a delivery report, or success when every attempt
/// succeeded.
pub fn first_failure(report: &Vec<Delivery>) -> (result: ServerResult<()>)
    ensures
        result == first_failure_of(report@),
{
    let mut i: usize = 0;
    assert(report@.subrange(0, report@.len() as int) =~= report@);
    while i < report.len()
        invariant
            i <= report.len(),
            first_failure_of(report@) == first_failure_of(
                report@.subrange(i as int, report@.len() as int),
            ),
        decreases report.len() - i,
    {
        let ghost rest = report@.subrange(i as int, report@.len() as int);
        assert(rest[0] == report@[i as int]);
        assert(rest.drop_first() =~= report@.subrange(i + 1, report@.len() as int));
        match report[i].outcome {
            Err(error) => {
                return Err(error);
            },
            Ok(()) => {},
        }
        i += 1;
    }
    Ok(())
}

/// A report without failures has only successes; the first failure of any
/// other report is the outcome of one of its entries.
pub proof fn lemma_first_failure(report: Seq<Delivery>)
    ensures
        first_failure_of(report) is Ok ==> forall|i: int|
            0 <= i < report.len() ==> (#[trigger] report[i]).outcome is Ok,
        first_failure_of(report) is Err ==> exists|i: int|
            0 <= i < report.len() && (#[trigger] report[i]).outcome == first_failure_of(report),
    decreases report.len(),
{
    if report.len() > 0 {
        let rest = report.drop_first();
        lemma_first_failure(rest);
        if report[0].outcome is Ok {
            if first_failure_of(report) is Ok {
                assert forall|i: int| 0 <= i < report.len() implies (#[trigger] report[i]).outcome
                    is Ok by {
                    if i > 0 {
                        assert(report[i] == rest[i - 1]);
                    }
                }
            } else {
                let k = choose|k: int|
                    0 <= k < rest.len() && (#[trigger] rest[k]).outcome == first_failure_of(rest);
                assert(report[k + 1] == rest[k]);
            }
        } else {
            assert(report[0].outcome == first_failure_of(report));
        }
    }
}

impl<'a> StateView<'a> {
    /// The first failure of a fitting report on `recipients` sums the
    /// attempt up.
    pub proof fn lemma_report_sums_up(self, recipients: Seq<u128>, report: Seq<Delivery>)
        requires
            report.len() == recipients.len(),
            forall|i: int|
                0 <= i < report.len() ==> (#[trigger] report[i]).to == recipients[i]
                    && self.delivery_fits(report[i]),
        ensures
            self.sums_up(recipients.to_set(), first_failure_of(report)),
    {
        lemma_first_failure(report);
        let result = first_failure_of(report);
        if result is Ok {
            assert forall|id: u128| #[trigger]
                recipients.to_set().contains(id) implies self.users.contains_key(id)
                && self.users[id].connected() by {
                let k = choose|k: int| 0 <= k < recipients.len() && recipients[k] == id;
                assert(self.delivery_fits(report[k]));
            }
        } else {
            let k = choose|k: int|
                0 <= k < report.len() && (#[trigger] report[k]).outcome == result;
            assert(self.delivery_fits(report[k]));
            assert(recipients.to_set().contains(recipients[k]));
        }
    }

    /// Once a battle has started between two connected users, both stand in
    /// that battle and hold the hands drawn for them, neither waits in the
    /// lobby any more, and each has the other as opponent. Nobody else is
    /// touched.
    pub proof fn lemma_with_battle(
        self,
        a: u128,
        b: u128,
        battle: u128,
        hand_a: Seq<Unit<'a>>,
        hand_b: Seq<Unit<'a>>,
    )
        requires
            self.users.contains_key(a),
            self.users.contains_key(b),
        ensures
            ({
                let after = self.with_battle(a, b, battle, hand_a, hand_b);
                &&& after.users.dom() == self.users.dom()
                &&& after.users[a].status == UserStatus::InGame(battle)
                &&& after.users[b].status == UserStatus::InGame(battle)
                &&& after.users[b].hand == Some(hand_b)
                &&& a != b ==> after.users[a].hand == Some(hand_a)
                &&& !after.in_lobby(a)
                &&& !after.in_lobby(b)
                &&& after.battles[battle] == Battle::started(a, b)
                &&& after.opponent_of(a) == Some(b)
                &&& after.opponent_of(b) == Some(a)
                &&& forall|id: u128|
                    id != a && id != b && self.users.contains_key(id) ==> #[trigger] after.users[id]
                        == self.users[id]
            }),
    {
        let after = self.with_battle(a, b, battle, hand_a, hand_b);
        assert(after.users.dom() =~= self.users.dom());
    }

    /// A battle started between two different connected users is intact:
    /// it is on record, its participants differ, and each of them is a
    /// connected user that stands in this very battle.
    pub proof fn lemma_new_battle_is_intact(
        self,
        a: u128,
        b: u128,
        battle: u128,
        hand_a: Seq<Unit<'a>>,
        hand_b: Seq<Unit<'a>>,
    )
        requires
            self.users.contains_key(a),
            self.users.contains_key(b),
            a != b,
        ensures
            self.with_battle(a, b, battle, hand_a, hand_b).battle_intact(battle),
    {
        self.lemma_with_battle(a, b, battle, hand_a, hand_b);
    }

    /// A battle is refused with `AttemptedStartWhenNotInLobbyError` unless
    /// both are in the lobby, and also where the two are one and the same
    /// user. Once it has started, it is on record, intact, under an id that
    /// was not in use; both stand in that same battle, each with a full
    /// hand and with the name and the handle it had; and a second start
    /// between them is refused.
    pub proof fn lemma_battle_start(self, after: Self, a: u128, b: u128, battle: u128)
        ensures
            !(self.in_lobby(a) && self.in_lobby(b)) ==> self.battle_refusal(a, b) == Some(
                ServerError::AttemptedStartWhenNotInLobbyError,
            ),
            self.battle_refusal(a, b) == Some(ServerError::AttemptedStartWhenNotInLobbyError)
                <==> !(self.in_lobby(a) && self.in_lobby(b)) || a == b,
            self.battle_refusal(a, b) is None && self.battle_started(after, a, b, battle) ==> {
                &&& a != b
                &&& !self.battles.contains_key(battle)
                &&& after.battles == self.battles.insert(battle, Battle::started(a, b))
                &&& after.battle_intact(battle)
                &&& after.users[a].status == UserStatus::InGame(battle)
                &&& after.users[b].status == UserStatus::InGame(battle)
                &&& after.users[a].hand matches Some(hand_a) && hand_a.len() == GAME_HAND_SIZE
                &&& after.users[b].hand matches Some(hand_b) && hand_b.len() == GAME_HAND_SIZE
                &&& after.users[a].name == self.users[a].name
                &&& after.users[b].name == self.users[b].name
                &&& after.users[a].handle == self.users[a].handle
                &&& after.users[b].handle == self.users[b].handle
                &&& after.battle_refusal(a, b) == Some(
                    ServerError::AttemptedStartWhenNotInLobbyError,
                )
            },
    {
        if self.battle_refusal(a, b) is None && self.battle_started(after, a, b, battle) {
            self.lemma_with_battle(
                a,
                b,
                battle,
                after.users[a].hand->0,
                after.users[b].hand->0,
            );
        }
    }

    /// No two ids are the smallest unused one, so the id that a battle is
    /// filed under is fixed by the id drawn for it.
    pub proof fn lemma_files_under_one_id(self, drawn: u128, first: u128, second: u128)
        requires
            self.files_under(drawn, first),
            self.files_under(drawn, second),
        ensures
            first == second,
    {
        if self.battles.contains_key(drawn) {
            if first < second {
                assert(self.battles.contains_key(first));
            }
            if second < first {
                assert(self.battles.contains_key(second));
            }
        }
    }

    /// In a well-formed registry a user that stands in a battle is one of
    /// its two participants, and its opponent is the other one: someone
    /// else, whose opponent on that record is the user.
    pub proof fn lemma_opponent_is_the_other(self, id: u128)
        requires
            self.wf(),
            self.opponent_of(id) is Some,
        ensures
            self.battles[self.battle_of(id)->0].has_participant(id),
            self.battles[self.battle_of(id)->0].has_participant(self.opponent_of(id)->0),
            self.opponent_of(id)->0 != id,
            self.battles[self.battle_of(id)->0].enemy_of(self.opponent_of(id)->0) == id,
    {
        assert(self.users.contains_key(id));
        assert(self.battles.contains_key(self.battle_of(id)->0));
    }

    /// Matchmaking is refused with `NotEnoughInLobbyToStartError` exactly
    /// when nobody is available. For a user in the lobby over a catalog that
    /// holds a hand it is refused for no other reason, and whoever it is
    /// matched with is one of the available users.
    pub proof fn lemma_matchmaking(self, id: u128)
        ensures
            self.matchmaking_refusal(id) == Some(ServerError::NotEnoughInLobbyToStartError)
                <==> self.available(id) == Set::<u128>::empty(),
            self.in_lobby(id) && self.catalog.len() >= GAME_HAND_SIZE && self.available(id)
                != Set::<u128>::empty() ==> self.matchmaking_refusal(id) is None,
            forall|opponent: u128| #[trigger]
                self.available(id).contains(opponent) ==> self.battle_refusal(id, opponent)
                    == self.matchmaking_refusal(id),
    {
        assert forall|opponent: u128| #[trigger] self.available(id).contains(opponent) implies
            self.battle_refusal(id, opponent) == self.matchmaking_refusal(id) by {
            assert(self.available(id) != Set::<u128>::empty());
        }
    }

    /// Damage changes no user, takes no battle off the record, changes no
    /// participant and raises no tower's health.
    pub proof fn lemma_damaged_only_lowers(self, to: u128, dmg: usize)
        ensures
            self.damaged(to, dmg).users == self.users,
            self.damaged(to, dmg).catalog == self.catalog,
            self.damaged(to, dmg).battles.dom() == self.battles.dom(),
            forall|battle: u128| #[trigger]
                self.battles.contains_key(battle) ==> {
                    let before = self.battles[battle];
                    let after = self.damaged(to, dmg).battles[battle];
                    &&& after.team_a.0 == before.team_a.0
                    &&& after.team_b.0 == before.team_b.0
                    &&& after.team_a.1.health <= before.team_a.1.health
                    &&& after.team_b.1.health <= before.team_b.1.health
                },
    {
        assert(self.damaged(to, dmg).battles.dom() =~= self.battles.dom());
    }

    /// Whoever is matched with `id` is someone else, is connected and waits
    /// in the lobby.
    pub proof fn lemma_available(self, id: u128, opponent: u128)
        requires
            self.available(id).contains(opponent),
        ensures
            opponent != id,
            self.in_lobby(opponent),
    {
    }

    /// In a well-formed registry every user that stands in a battle has an
    /// opponent, and no user in the lobby has one.
    pub proof fn lemma_opponent_iff_in_game(self, id: u128)
        requires
            self.wf(),
            self.users.contains_key(id),
        ensures
            self.opponent_of(id) is Some <==> self.users[id].status is InGame,
            self.users[id].hand is Some <==> self.users[id].status is InGame,
    {
    }
}

} // verus!
