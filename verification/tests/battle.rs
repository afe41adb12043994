use td::game::battle::{Battle, Tower, TOWER_START_HEALTH};

#[test]
fn towers_start_at_1500() {
    assert_eq!(TOWER_START_HEALTH, 1500);
    assert_eq!(Tower::default().health, 1500);
    let battle = Battle::start_battle(1, 2);
    assert_eq!(battle.team_a, (1, Tower { health: 1500 }));
    assert_eq!(battle.team_b, (2, Tower { health: 1500 }));
    assert_eq!(Battle::default(), Battle::start_battle(0, 0));
}

#[test]
fn damage_of_the_whole_health_destroys() {
    let mut battle = Battle::start_battle(1, 2);
    assert_eq!(battle.damage_tick(2, 1500), None);
    assert_eq!(battle.team_b.1.health, 0);
    assert_eq!(battle.team_a.1.health, 1500);
}

#[test]
fn damage_short_of_the_health_leaves_the_rest() {
    let mut battle = Battle::start_battle(1, 2);
    assert_eq!(battle.damage_tick(2, 1499), Some(1));
    assert_eq!(battle.team_b.1.health, 1);
    assert_eq!(battle.damage_tick(1, 500), Some(1000));
    assert_eq!(battle.team_a.1.health, 1000);
    assert_eq!(battle.damage_tick(1, 0), Some(1000));
    assert_eq!(battle.damage_tick(2, 1), None);
    assert_eq!(battle.team_b.1.health, 0);
}

#[test]
fn damage_beyond_the_health_stops_at_zero() {
    let mut battle = Battle::start_battle(1, 2);
    assert_eq!(battle.damage_tick(1, usize::MAX), None);
    assert_eq!(battle.team_a.1.health, 0);
}

#[test]
fn a_destroyed_tower_stays_destroyed() {
    let mut battle = Battle::start_battle(1, 2);
    assert_eq!(battle.damage_tick(1, 2000), None);
    let destroyed = battle;
    assert_eq!(battle.damage_tick(1, 0), None);
    assert_eq!(battle.damage_tick(1, 7), None);
    assert_eq!(battle, destroyed);
}

#[test]
fn enemies_are_mutual() {
    let battle = Battle::start_battle(10, 20);
    assert_eq!(battle.get_enemy(10), 20);
    assert_eq!(battle.get_enemy(20), 10);
}

#[test]
fn a_stranger_is_looked_up_on_team_b() {
    let mut battle = Battle::start_battle(10, 20);
    assert_eq!(battle.get_enemy(99), 10);
    assert_eq!(battle.damage_tick(99, 100), Some(1400));
    assert_eq!(battle.team_b.1.health, 1400);
    assert_eq!(battle.team_a.1.health, 1500);
}
