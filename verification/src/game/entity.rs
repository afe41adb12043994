//! Units and their attack types.

use rand::seq::SliceRandom;
use vstd::prelude::*;

use super::card_gen::{builtin_units, lemma_valid_catalog_distinct, valid_catalog, Catalog};

verus! {

/// How a unit's attack lands.
#[derive(Clone, Copy, Debug, PartialEq, Eq, Structural)]
pub enum AttackType {
    Area,
    Single,
}

impl Default for AttackType {
    fn default() -> (attack: Self)
        ensures
            attack == AttackType::Single,
    {
        AttackType::Single
    }
}

/// One playable unit. Size and speed are kept in thousandths.
#[derive(Clone, Copy, Debug, PartialEq, Eq)]
pub struct Unit<'a> {
    pub name: &'a str,
    pub emoji: char,
    pub cost: usize,
    pub health: usize,
    pub power: usize,
    pub size_milli: u32,
    pub speed_milli: u32,
    pub attack_type: AttackType,
}

impl<'a> Unit<'a> {
    /// The unit with the given fields.
    pub open spec fn of(
        name: &'a str,
        emoji: char,
        cost: usize,
        health: usize,
        power: usize,
        size_milli: u32,
        speed_milli: u32,
        attack_type: AttackType,
    ) -> Unit<'a> {
        Unit { name, emoji, cost, health, power, size_milli, speed_milli, attack_type }
    }

    /// Whether the unit has a name.
    pub open spec fn is_named(self) -> bool {
        self.name@.len() > 0
    }

    /// Whether every field holds its zero value, as in the default unit.
    pub open spec fn is_blank(self) -> bool {
        &&& self.name@.len() == 0
        &&& self.emoji == '\0'
        &&& self.cost == 0
        &&& self.health == 0
        &&& self.power == 0
        &&& self.size_milli == 0
        &&& self.speed_milli == 0
        &&& self.attack_type == AttackType::Single
    }

    pub fn new(
        name: &'a str,
        emoji: char,
        cost: usize,
        health: usize,
        power: usize,
        size_milli: u32,
        speed_milli: u32,
        attack_type: AttackType,
    ) -> (unit: Self)
        ensures
            unit == Unit::of(
                name,
                emoji,
                cost,
                health,
                power,
                size_milli,
                speed_milli,
                attack_type,
            ),
    {
        Unit { name, emoji, cost, health, power, size_milli, speed_milli, attack_type }
    }

    pub fn get_name(&self) -> (name: &str)
        ensures
            name@ == self.name@,
    {
        self.name
    }
}

impl<'a> Default for Unit<'a> {
    fn default() -> (unit: Self)
        ensures
            unit.is_blank(),
    {
        proof {
            reveal_strlit("");
        }
        Unit {
            name: "",
            emoji: '\0',
            cost: 0,
            health: 0,
            power: 0,
            size_milli: 0,
            speed_milli: 0,
            attack_type: AttackType::Single,
        }
    }
}

/// Whether `hand` can be drawn from `catalog`: its units are catalog
/// entries, none of them blank and none of them drawn twice.
pub open spec fn is_hand_of(hand: Seq<Unit<'_>>, catalog: Seq<Unit<'_>>) -> bool {
    &&& hand.no_duplicates()
    &&& forall|i: int| 0 <= i < hand.len() ==> catalog.contains(#[trigger] hand[i])
    &&& forall|i: int| 0 <= i < hand.len() ==> !(#[trigger] hand[i]).is_blank()
}

/// Trusted: rand's `SliceRandom::shuffle`, driven by `rand::thread_rng()`.
/// The shuffle only swaps elements of the slice, so afterwards the vector
/// holds the same units as before, each as often as before. Their order is
/// left open. The generator panics if the operating system has no
/// randomness to seed it with.
#[verifier::external_body]
fn shuffle_units<'a>(units: &mut Vec<Unit<'a>>)
    ensures
        final(units)@.to_multiset() == old(units)@.to_multiset(),
{
    units.shuffle(&mut rand::thread_rng());
}

/// Any reordering of a well-formed catalog yields hands: each of its
/// prefixes can be drawn from the catalog.
pub proof fn lemma_prefix_of_shuffle_is_hand(
    shuffled: Seq<Unit<'_>>,
    catalog: Seq<Unit<'_>>,
    count: int,
)
    requires
        valid_catalog(catalog),
        shuffled.to_multiset() == catalog.to_multiset(),
        0 <= count <= shuffled.len(),
    ensures
        is_hand_of(shuffled.subrange(0, count), catalog),
{
    broadcast use vstd::seq_lib::group_to_multiset_ensures;

    lemma_valid_catalog_distinct(catalog);
    catalog.lemma_multiset_has_no_duplicates();
    shuffled.lemma_multiset_has_no_duplicates_conv();
    let hand = shuffled.subrange(0, count);
    assert forall|i: int| 0 <= i < hand.len() implies catalog.contains(#[trigger] hand[i])
        && !hand[i].is_blank() by {
        assert(shuffled.contains(shuffled[i]));
        assert(catalog.to_multiset().count(hand[i]) > 0);
        let k = choose|k: int| 0 <= k < catalog.len() && catalog[k] == hand[i];
        assert(!catalog[k].is_blank());
    }
}

/// The first `NUM` units of `units` as a hand, or `None` when there are
/// fewer than `NUM`.
pub fn take_hand<'a, const NUM: usize>(units: &Vec<Unit<'a>>) -> (hand: Option<[Unit<'a>; NUM]>)
    ensures
        hand is Some <==> NUM <= units@.len(),
        hand matches Some(h) ==> h@ == units@.subrange(0, NUM as int),
{
    if NUM > units.len() {
        return None;
    }
    let mut hand: [Unit<'a>; NUM] = [Unit::default(); NUM];
    let mut i: usize = 0;
    while i < NUM
        invariant
            i <= NUM <= units@.len(),
            hand@.len() == NUM,
            forall|k: int| 0 <= k < i ==> hand@[k] == units@[k],
        decreases NUM - i,
    {
        hand[i] = units[i];
        i += 1;
    }
    assert(hand@ =~= units@.subrange(0, NUM as int));
    Some(hand)
}

/// Draws `NUM` units from `catalog` without replacement: shuffles a copy
/// of the catalog and takes its first `NUM` units. `None` exactly when the
/// catalog holds fewer than `NUM` units. The catalog itself stays as it is.
pub fn draw_hand_from<'a, const NUM: usize>(catalog: &Catalog<'a>) -> (hand: Option<
    [Unit<'a>; NUM],
>)
    ensures
        hand is Some <==> NUM <= catalog@.len(),
        hand matches Some(h) ==> h@.len() == NUM && is_hand_of(h@, catalog@),
{
    if NUM > catalog.len() {
        return None;
    }
    let mut pool = catalog.units();
    shuffle_units(&mut pool);
    proof {
        use_type_invariant(catalog);
        pool@.to_multiset_ensures();
        catalog@.to_multiset_ensures();
        lemma_prefix_of_shuffle_is_hand(pool@, catalog@, NUM as int);
    }
    take_hand::<NUM>(&pool)
}

/// Draws `NUM` units from the entries that ship with the game. `None`
/// exactly when `NUM` exceeds their number.
pub fn draw_hand<'a, const NUM: usize>() -> (hand: Option<[Unit<'a>; NUM]>)
    ensures
        hand is Some <==> NUM <= builtin_units().len(),
        hand matches Some(h) ==> h@.len() == NUM && is_hand_of(h@, builtin_units()),
{
    let catalog = Catalog::builtin();
    draw_hand_from::<NUM>(&catalog)
}

} // verus!
