//! A battle between two participants, each defending one tower.

use vstd::prelude::*;

verus! {

/// Health of every tower when its battle starts.
pub const TOWER_START_HEALTH: usize = 1500;

/// A participant's pool of health. It never grows, and once it is empty the
/// participant has lost.
#[derive(Clone, Copy, Debug, PartialEq, Eq)]
pub struct Tower {
    pub health: usize,
}

impl Tower {
    /// The tower after `dmg` points of damage: emptied when the damage
    /// reaches its health, lowered by `dmg` otherwise.
    pub open spec fn struck(self, dmg: usize) -> Tower {
        if dmg >= self.health {
            Tower { health: 0 }
        } else {
            Tower { health: (self.health - dmg) as usize }
        }
    }

    /// Whether the tower has been destroyed.
    pub open spec fn destroyed(self) -> bool {
        self.health == 0
    }
}

impl Default for Tower {
    fn default() -> (tower: Self)
        ensures
            tower.health == TOWER_START_HEALTH,
    {
        Self { health: TOWER_START_HEALTH }
    }
}

/// Two teams, each a participant's id together with that participant's tower.
#[derive(Clone, Copy, Debug, PartialEq, Eq)]
pub struct Battle {
    pub team_a: (u128, Tower),
    pub team_b: (u128, Tower),
}

impl Battle {
    /// The battle as it stands when `user_a` meets `user_b`.
    pub open spec fn started(user_a: u128, user_b: u128) -> Battle {
        Battle {
            team_a: (user_a, Tower { health: TOWER_START_HEALTH }),
            team_b: (user_b, Tower { health: TOWER_START_HEALTH }),
        }
    }

    /// A battle is well formed when its two participants differ.
    pub open spec fn wf(self) -> bool {
        self.team_a.0 != self.team_b.0
    }

    /// Whether `id` is one of the two participants.
    pub open spec fn has_participant(self, id: u128) -> bool {
        self.team_a.0 == id || self.team_b.0 == id
    }

    /// Whether `id` is looked up on team A. Every id that is not team A's
    /// participant is looked up on team B.
    pub open spec fn on_team_a(self, id: u128) -> bool {
        self.team_a.0 == id
    }

    /// The participant that `id` fights against.
    pub open spec fn enemy_of(self, id: u128) -> u128 {
        if self.on_team_a(id) {
            self.team_b.0
        } else {
            self.team_a.0
        }
    }

    /// The tower that `id` defends.
    pub open spec fn tower_of(self, id: u128) -> Tower {
        if self.on_team_a(id) {
            self.team_a.1
        } else {
            self.team_b.1
        }
    }

    /// The battle after the tower of `attack_on` took `dmg` points of damage.
    pub open spec fn after_damage(self, attack_on: u128, dmg: usize) -> Battle {
        if self.on_team_a(attack_on) {
            Battle { team_a: (self.team_a.0, self.team_a.1.struck(dmg)), team_b: self.team_b }
        } else {
            Battle { team_a: self.team_a, team_b: (self.team_b.0, self.team_b.1.struck(dmg)) }
        }
    }

    /// What a damage report says: `None` once the tower is destroyed, the
    /// health that is left otherwise.
    pub open spec fn damage_report(self, attack_on: u128, dmg: usize) -> Option<usize> {
        if dmg >= self.tower_of(attack_on).health {
            None
        } else {
            Some((self.tower_of(attack_on).health - dmg) as usize)
        }
    }

    /// Starts a battle between two participants, both towers at full
    /// health. The battle is well formed when the two differ.
    pub fn start_battle(user_a: u128, user_b: u128) -> (battle: Self)
        ensures
            battle == Battle::started(user_a, user_b),
            battle.wf() <==> user_a != user_b,
    {
        Self { team_a: (user_a, Tower::default()), team_b: (user_b, Tower::default()) }
    }

    /// The id of the participant on the other team.
    pub fn get_enemy(&self, id: u128) -> (enemy: u128)
        ensures
            enemy == self.enemy_of(id),
    {
        if self.team_a.0 == id {
            self.team_b.0
        } else {
            self.team_a.0
        }
    }

    /// Takes `dmg` points off the tower that `attack_on` defends. Returns
    /// `None` when that destroys the tower, which then stands at zero, and
    /// the remaining health otherwise.
    pub fn damage_tick(&mut self, attack_on: u128, dmg: usize) -> (remaining: Option<usize>)
        ensures
            *final(self) == old(self).after_damage(attack_on, dmg),
            remaining == old(self).damage_report(attack_on, dmg),
            old(self).wf() ==> final(self).wf(),
    {
        if self.team_a.0 == attack_on {
            if dmg >= self.team_a.1.health {
                self.team_a.1.health = 0;
                None
            } else {
                self.team_a.1.health = self.team_a.1.health - dmg;
                Some(self.team_a.1.health)
            }
        } else {
            if dmg >= self.team_b.1.health {
                self.team_b.1.health = 0;
                None
            } else {
                self.team_b.1.health = self.team_b.1.health - dmg;
                Some(self.team_b.1.health)
            }
        }
    }
}

impl Default for Battle {
    fn default() -> (battle: Self)
        ensures
            battle == Battle::started(0, 0),
    {
        Battle::start_battle(0, 0)
    }
}

/// Damage at least as large as the tower's health destroys it and leaves its
/// health at exactly zero; smaller damage leaves the difference.
pub proof fn lemma_damage_report(battle: Battle, attack_on: u128, dmg: usize)
    ensures
        dmg >= battle.tower_of(attack_on).health ==> {
            &&& battle.damage_report(attack_on, dmg) is None
            &&& battle.after_damage(attack_on, dmg).tower_of(attack_on).health == 0
        },
        dmg < battle.tower_of(attack_on).health ==> {
            &&& battle.damage_report(attack_on, dmg) == Some(
                (battle.tower_of(attack_on).health - dmg) as usize,
            )
            &&& battle.after_damage(attack_on, dmg).tower_of(attack_on).health
                == battle.tower_of(attack_on).health - dmg
        },
{
}

/// Damage never raises a tower's health, never touches the other tower and
/// never changes who takes part.
pub proof fn lemma_damage_only_lowers(battle: Battle, attack_on: u128, dmg: usize)
    ensures
        battle.after_damage(attack_on, dmg).wf() == battle.wf(),
        battle.after_damage(attack_on, dmg).team_a.0 == battle.team_a.0,
        battle.after_damage(attack_on, dmg).team_b.0 == battle.team_b.0,
        battle.after_damage(attack_on, dmg).team_a.1.health <= battle.team_a.1.health,
        battle.after_damage(attack_on, dmg).team_b.1.health <= battle.team_b.1.health,
        battle.on_team_a(attack_on) ==> battle.after_damage(attack_on, dmg).team_b
            == battle.team_b,
        !battle.on_team_a(attack_on) ==> battle.after_damage(attack_on, dmg).team_a
            == battle.team_a,
{
}

/// A destroyed tower stays destroyed: whatever damage follows, its health
/// remains zero and the report remains `None`.
pub proof fn lemma_destroyed_is_terminal(battle: Battle, attack_on: u128, dmg: usize)
    requires
        battle.tower_of(attack_on).destroyed(),
    ensures
        battle.damage_report(attack_on, dmg) is None,
        battle.after_damage(attack_on, dmg).tower_of(attack_on).destroyed(),
        battle.after_damage(attack_on, dmg) == battle,
{
}

/// Each of the two participants of a battle has the other one as enemy.
pub proof fn lemma_enemies_are_mutual(battle: Battle)
    ensures
        battle.enemy_of(battle.team_a.0) == battle.team_b.0,
        battle.enemy_of(battle.team_b.0) == battle.team_a.0,
{
}

/// In a battle started between `user_a` and `user_b`, both take part and
/// the enemy of each is the other.
pub proof fn lemma_started_enemies(user_a: u128, user_b: u128)
    ensures
        Battle::started(user_a, user_b).enemy_of(user_a) == user_b,
        Battle::started(user_a, user_b).enemy_of(user_b) == user_a,
        Battle::started(user_a, user_b).has_participant(user_a),
        Battle::started(user_a, user_b).has_participant(user_b),
{
}

} // verus!
