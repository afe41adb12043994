use td::game::card_gen::Catalog;
use td::game::entity::{draw_hand, draw_hand_from, take_hand, AttackType, Unit};

const LARGE_NUMBER: usize = 9999;

fn unit(name: &'static str) -> Unit<'static> {
    Unit::new(name, 'x', 1, 2, 3, 1000, 1000, AttackType::Single)
}

fn all_distinct(hand: &[Unit]) -> bool {
    for i in 0..hand.len() {
        for j in 0..i {
            if hand[i] == hand[j] {
                return false;
            }
        }
    }
    true
}

#[test]
fn draw_hand_greater_than_cards_len_is_none() {
    let attempted_draw = draw_hand::<LARGE_NUMBER>();

    assert!(attempted_draw.is_none())
}

#[test]
fn draw_hand_less_than_cards_len_is_some_and_valid() {
    let valid_draw = draw_hand::<2>();

    assert!(valid_draw.is_some_and(|hand| hand.len() == 2))
}

#[test]
fn draw_hand_actually_draws_uniquely_and_not_default_units() {
    let valid_draw: [Unit; 5] = draw_hand().expect("Draw a hand of 5 units");
    for unit in valid_draw {
        assert_ne!(unit, Unit::default())
    }
}

#[test]
fn builtin_catalog_has_27_named_units() {
    let catalog = Catalog::builtin();
    assert_eq!(catalog.len(), 27);
    let units = catalog.units();
    assert_eq!(units.len(), 27);
    assert!(all_distinct(&units));
    for unit in &units {
        assert!(!unit.get_name().is_empty());
        assert_ne!(*unit, Unit::default());
    }
    assert_eq!(units[0].get_name(), "Spooked");
    assert_eq!(units[0].emoji, '\u{1F631}');
    assert_eq!(units[0].cost, 100);
    assert_eq!(units[0].health, 100);
    assert_eq!(units[0].power, 30);
    assert_eq!(units[0].size_milli, 1000);
    assert_eq!(units[0].speed_milli, 1200);
    assert_eq!(units[0].attack_type, AttackType::Single);
    assert_eq!(units[3].get_name(), "EXPLOSIVE");
    assert_eq!(units[3].power, 9999);
    assert_eq!(units[3].speed_milli, 10000);
    assert_eq!(units[3].attack_type, AttackType::Area);
    assert_eq!(units[18].get_name(), "Melted");
    assert_eq!(units[18].speed_milli, 875);
    assert_eq!(units[26].get_name(), "Alien");
    assert_eq!(units[26].size_milli, 700);
}

#[test]
fn draw_five_from_the_27_is_always_five_unique_catalog_units() {
    let catalog = Catalog::builtin().units();
    for _ in 0..200 {
        let hand = draw_hand::<5>().expect("five of 27");
        assert_eq!(hand.len(), 5);
        assert!(all_distinct(&hand));
        for unit in hand {
            assert_ne!(unit, Unit::default());
            assert!(catalog.contains(&unit));
        }
    }
    assert!(draw_hand::<9999>().is_none());
}

#[test]
fn draw_at_the_catalog_size_and_one_beyond() {
    let whole = draw_hand::<27>().expect("the whole catalog");
    assert!(all_distinct(&whole));
    let catalog = Catalog::builtin().units();
    for unit in catalog {
        assert!(whole.contains(&unit));
    }
    assert!(draw_hand::<28>().is_none());
    assert_eq!(draw_hand::<0>(), Some([]));
}

#[test]
fn draws_come_in_changing_order() {
    let catalog = Catalog::builtin().units();
    let mut moved = false;
    for _ in 0..20 {
        let hand = draw_hand::<5>().expect("five of 27");
        if hand[..] != catalog[..5] {
            moved = true;
        }
    }
    assert!(moved);
}

#[test]
fn draw_leaves_the_catalog_as_it_is() {
    let catalog = Catalog::new(vec![unit("a"), unit("b"), unit("c")]).expect("valid");
    let before = catalog.units();
    let hand = draw_hand_from::<2>(&catalog).expect("two of three");
    assert!(all_distinct(&hand));
    assert!(before.contains(&hand[0]));
    assert!(before.contains(&hand[1]));
    assert_eq!(catalog.units(), before);
    assert!(draw_hand_from::<3>(&catalog).is_some());
    assert!(draw_hand_from::<4>(&catalog).is_none());
}

#[test]
fn take_hand_takes_the_first_units_in_order() {
    let units = vec![unit("a"), unit("b"), unit("c")];
    assert_eq!(take_hand::<2>(&units), Some([unit("a"), unit("b")]));
    assert_eq!(take_hand::<3>(&units), Some([unit("a"), unit("b"), unit("c")]));
    assert_eq!(take_hand::<0>(&units), Some([]));
    assert_eq!(take_hand::<4>(&units), None);
}

#[test]
fn catalog_refuses_unnamed_and_repeated_units() {
    assert!(Catalog::new(vec![]).is_some());
    assert!(Catalog::new(vec![unit("a"), unit("b")]).is_some());
    assert!(Catalog::new(vec![unit("a"), unit("")]).is_none());
    assert!(Catalog::new(vec![Unit::default()]).is_none());
    assert!(Catalog::new(vec![unit("a"), unit("b"), unit("a")]).is_none());
    let same_name = Unit::new("a", 'y', 9, 9, 9, 1, 1, AttackType::Area);
    assert!(Catalog::new(vec![unit("a"), same_name]).is_none());
}

#[test]
fn catalog_finds_units_by_name() {
    let catalog = Catalog::builtin();
    let golem = catalog.find("Golem").expect("shipped");
    assert_eq!(golem.get_name(), "Golem");
    assert_eq!(golem.cost, 2500);
    assert_eq!(golem.health, 1500);
    assert_eq!(golem.size_milli, 2500);
    assert_eq!(golem.speed_milli, 200);
    assert_eq!(catalog.find("Super Hero").map(|unit| unit.power), Some(60));
    assert_eq!(catalog.find("golem"), None);
    assert_eq!(catalog.find(""), None);
    assert_eq!(catalog.find("Gole"), None);
}

#[test]
fn default_unit_is_blank() {
    let blank = Unit::default();
    assert_eq!(blank.get_name(), "");
    assert_eq!(blank.emoji, '\0');
    assert_eq!(blank.cost, 0);
    assert_eq!(blank.health, 0);
    assert_eq!(blank.power, 0);
    assert_eq!(blank.size_milli, 0);
    assert_eq!(blank.speed_milli, 0);
    assert_eq!(blank.attack_type, AttackType::Single);
    assert_eq!(AttackType::default(), AttackType::Single);
}
