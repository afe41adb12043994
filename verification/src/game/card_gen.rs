//! The units that can be played: the catalog they are kept in, the entries
//! that ship with the game, and lookup by name.

use vstd::prelude::*;

use super::entity::{AttackType, Unit};
use crate::text::same_text;

verus! {

/// Whether a list of units can serve as a catalog: every unit has a name,
/// and no two units share one.
pub open spec fn valid_catalog(units: Seq<Unit<'_>>) -> bool {
    &&& forall|i: int| 0 <= i < units.len() ==> (#[trigger] units[i]).is_named()
    &&& forall|i: int, j: int|
        0 <= i < j < units.len() ==> (#[trigger] units[i]).name@ != (#[trigger] units[j]).name@
}

/// The first unit in `units` that goes by `name`, if there is one.
pub open spec fn unit_named<'a>(units: Seq<Unit<'a>>, name: Seq<char>) -> Option<Unit<'a>>
    decreases units.len(),
{
    if units.len() == 0 {
        None
    } else if units[0].name@ == name {
        Some(units[0])
    } else {
        unit_named(units.drop_first(), name)
    }
}

/// The second and the fourth character of a name. Among the shipped entries
/// no two names agree on both.
pub open spec fn name_mark(name: Seq<char>) -> (char, char) {
    (name[1], name[3])
}

/// The entries that ship with the game.
pub open spec fn builtin_units() -> Seq<Unit<'static>> {
    seq![
        Unit::of("Spooked", '\u{1F631}', 100, 100, 30, 1000, 1200, AttackType::Single),
        Unit::of("Silly", '\u{1F917}', 165, 90, 20, 1000, 1000, AttackType::Single),
        Unit::of("Ninja", '\u{1F977}', 200, 100, 20, 1000, 1400, AttackType::Single),
        Unit::of("EXPLOSIVE", '\u{1F9E8}', 1000, 1, 9999, 1200, 10000, AttackType::Area),
        Unit::of("Hippo", '\u{1F99B}', 500, 750, 10, 1600, 600, AttackType::Single),
        Unit::of("Star", '\u{2B50}', 35, 1, 10, 1000, 5000, AttackType::Single),
        Unit::of("Golem", '\u{1F5FF}', 2500, 1500, 55, 2500, 200, AttackType::Area),
        Unit::of("Snowman", '\u{26C4}', 340, 175, 30, 1000, 850, AttackType::Single),
        Unit::of("Sneaker", '\u{1FAE5}', 75, 40, 25, 990, 1500, AttackType::Single),
        Unit::of("Cowboy", '\u{1F920}', 150, 85, 35, 1100, 900, AttackType::Single),
        Unit::of("Super Hero", '\u{1F9B8}', 2555, 1000, 60, 1000, 1250, AttackType::Area),
        Unit::of("Lil Bugger", '\u{1F47E}', 300, 250, 20, 750, 1200, AttackType::Single),
        Unit::of("T-Rex", '\u{1F996}', 1750, 1200, 60, 3000, 500, AttackType::Area),
        Unit::of("Boar", '\u{1F417}', 400, 120, 40, 1200, 1200, AttackType::Single),
        Unit::of("Nerd", '\u{1F913}', 314, 200, 15, 880, 670, AttackType::Single),
        Unit::of("Gatto", '\u{1F63B}', 150, 150, 5, 1000, 1500, AttackType::Single),
        Unit::of("Moon", '\u{1F31D}', 3000, 2000, 15, 10000, 300, AttackType::Area),
        Unit::of("Hamster", '\u{1F439}', 75, 45, 10, 300, 1000, AttackType::Single),
        Unit::of("Melted", '\u{1FAE0}', 350, 120, 20, 1000, 875, AttackType::Area),
        Unit::of("Robot", '\u{1F916}', 200, 125, 12, 1100, 900, AttackType::Area),
        Unit::of("Snail", '\u{1F40C}', 60, 100, 10, 300, 100, AttackType::Area),
        Unit::of("ANGRY", '\u{1F621}', 150, 50, 50, 1100, 1500, AttackType::Single),
        Unit::of("Demon", '\u{1F479}', 666, 666, 16, 2100, 750, AttackType::Area),
        Unit::of("Skeleton", '\u{1F480}', 120, 85, 12, 1000, 1000, AttackType::Single),
        Unit::of("Smiley", '\u{1F642}', 75, 75, 15, 1000, 1000, AttackType::Single),
        Unit::of("Boomer", '\u{1F92F}', 550, 1, 150, 1000, 2500, AttackType::Area),
        Unit::of("Alien", '\u{1F47D}', 500, 135, 22, 700, 1800, AttackType::Area),
    ]
}

/// A position among 27 is one of the numbers from 0 to 26. Spelled out,
/// this lets a proof go through the shipped entries one by one.
proof fn lemma_one_of_27(i: int)
    requires
        0 <= i < 27,
    ensures
        i == 0 || i == 1 || i == 2 || i == 3 || i == 4 || i == 5 || i == 6 || i == 7 ||
            i == 8 || i == 9 || i == 10 || i == 11 || i == 12 || i == 13 || i == 14 ||
            i == 15 || i == 16 || i == 17 || i == 18 || i == 19 || i == 20 || i == 21 ||
            i == 22 || i == 23 || i == 24 || i == 25 || i == 26,
{
}

/// The shipped entries are 27 units with pairwise different names.
pub proof fn lemma_builtin_units_valid()
    ensures
        builtin_units().len() == 27,
        valid_catalog(builtin_units()),
{
    reveal_strlit("Spooked");
    reveal_strlit("Silly");
    reveal_strlit("Ninja");
    reveal_strlit("EXPLOSIVE");
    reveal_strlit("Hippo");
    reveal_strlit("Star");
    reveal_strlit("Golem");
    reveal_strlit("Snowman");
    reveal_strlit("Sneaker");
    reveal_strlit("Cowboy");
    reveal_strlit("Super Hero");
    reveal_strlit("Lil Bugger");
    reveal_strlit("T-Rex");
    reveal_strlit("Boar");
    reveal_strlit("Nerd");
    reveal_strlit("Gatto");
    reveal_strlit("Moon");
    reveal_strlit("Hamster");
    reveal_strlit("Melted");
    reveal_strlit("Robot");
    reveal_strlit("Snail");
    reveal_strlit("ANGRY");
    reveal_strlit("Demon");
    reveal_strlit("Skeleton");
    reveal_strlit("Smiley");
    reveal_strlit("Boomer");
    reveal_strlit("Alien");
    let units = builtin_units();
    assert(units[0].is_named() && name_mark(units[0].name@) == ('p', 'o'));
    assert(units[1].is_named() && name_mark(units[1].name@) == ('i', 'l'));
    assert(units[2].is_named() && name_mark(units[2].name@) == ('i', 'j'));
    assert(units[3].is_named() && name_mark(units[3].name@) == ('X', 'L'));
    assert(units[4].is_named() && name_mark(units[4].name@) == ('i', 'p'));
    assert(units[5].is_named() && name_mark(units[5].name@) == ('t', 'r'));
    assert(units[6].is_named() && name_mark(units[6].name@) == ('o', 'e'));
    assert(units[7].is_named() && name_mark(units[7].name@) == ('n', 'w'));
    assert(units[8].is_named() && name_mark(units[8].name@) == ('n', 'a'));
    assert(units[9].is_named() && name_mark(units[9].name@) == ('o', 'b'));
    assert(units[10].is_named() && name_mark(units[10].name@) == ('u', 'e'));
    assert(units[11].is_named() && name_mark(units[11].name@) == ('i', ' '));
    assert(units[12].is_named() && name_mark(units[12].name@) == ('-', 'e'));
    assert(units[13].is_named() && name_mark(units[13].name@) == ('o', 'r'));
    assert(units[14].is_named() && name_mark(units[14].name@) == ('e', 'd'));
    assert(units[15].is_named() && name_mark(units[15].name@) == ('a', 't'));
    assert(units[16].is_named() && name_mark(units[16].name@) == ('o', 'n'));
    assert(units[17].is_named() && name_mark(units[17].name@) == ('a', 's'));
    assert(units[18].is_named() && name_mark(units[18].name@) == ('e', 't'));
    assert(units[19].is_named() && name_mark(units[19].name@) == ('o', 'o'));
    assert(units[20].is_named() && name_mark(units[20].name@) == ('n', 'i'));
    assert(units[21].is_named() && name_mark(units[21].name@) == ('N', 'R'));
    assert(units[22].is_named() && name_mark(units[22].name@) == ('e', 'o'));
    assert(units[23].is_named() && name_mark(units[23].name@) == ('k', 'l'));
    assert(units[24].is_named() && name_mark(units[24].name@) == ('m', 'l'));
    assert(units[25].is_named() && name_mark(units[25].name@) == ('o', 'm'));
    assert(units[26].is_named() && name_mark(units[26].name@) == ('l', 'e'));
    assert forall|i: int| 0 <= i < units.len() implies (#[trigger] units[i]).is_named() by {
        lemma_one_of_27(i);
    }
    assert forall|i: int, j: int| 0 <= i < j < units.len() implies (#[trigger] units[i]).name@
        != (#[trigger] units[j]).name@ by {
        assert(name_mark(units[i].name@) != name_mark(units[j].name@)) by {
            lemma_one_of_27(i);
            lemma_one_of_27(j);
        }
    }
}

/// A validated, immutable list of units: every unit is named and no name
/// occurs twice.
pub struct Catalog<'a> {
    units: Vec<Unit<'a>>,
}

impl<'a> View for Catalog<'a> {
    type V = Seq<Unit<'a>>;

    closed spec fn view(&self) -> Seq<Unit<'a>> {
        self.units@
    }
}

impl<'a> Catalog<'a> {
    /// Holds of every catalog: `new` and `builtin` are the only ways to make
    /// one, and a catalog never changes.
    #[verifier::type_invariant]
    pub open spec fn wf(self) -> bool {
        valid_catalog(self@)
    }

    /// Whether the first `end` entries of `units` are named, each
    /// differently.
    pub open spec fn prefix_valid(units: Seq<Unit<'a>>, end: int) -> bool {
        &&& forall|i: int| 0 <= i < end ==> (#[trigger] units[i]).is_named()
        &&& forall|i: int, j: int|
            0 <= i < j < end ==> (#[trigger] units[i]).name@ != (#[trigger] units[j]).name@
    }

    /// Validates `units` and keeps them, in their order, as a catalog.
    /// Fails exactly when a unit has no name or two units share one.
    pub fn new(units: Vec<Unit<'a>>) -> (catalog: Option<Self>)
        ensures
            catalog is Some <==> valid_catalog(units@),
            catalog matches Some(c) ==> c@ == units@ && c.wf(),
    {
        let mut i: usize = 0;
        while i < units.len()
            invariant
                i <= units.len(),
                Self::prefix_valid(units@, i as int),
            decreases units.len() - i,
        {
            if units[i].name.is_empty() {
                assert(!units@[i as int].is_named());
                return None;
            }
            let mut j: usize = 0;
            while j < i
                invariant
                    j <= i < units.len(),
                    forall|k: int|
                        0 <= k < j ==> (#[trigger] units@[k]).name@ != units@[i as int].name@,
                decreases i - j,
            {
                if same_text(units[j].name, units[i].name) {
                    return None;
                }
                j += 1;
            }
            i += 1;
        }
        Some(Catalog { units })
    }

    /// The catalog of the entries that ship with the game.
    pub fn builtin() -> (catalog: Catalog<'static>)
        ensures
            catalog@ == builtin_units(),
            catalog.wf(),
    {
        let mut units: Vec<Unit<'static>> = Vec::new();
        units.push(Unit::new("Spooked", '\u{1F631}', 100, 100, 30, 1000, 1200, AttackType::Single));
        units.push(Unit::new("Silly", '\u{1F917}', 165, 90, 20, 1000, 1000, AttackType::Single));
        units.push(Unit::new("Ninja", '\u{1F977}', 200, 100, 20, 1000, 1400, AttackType::Single));
        units.push(
            Unit::new("EXPLOSIVE", '\u{1F9E8}', 1000, 1, 9999, 1200, 10000, AttackType::Area),
        );
        units.push(Unit::new("Hippo", '\u{1F99B}', 500, 750, 10, 1600, 600, AttackType::Single));
        units.push(Unit::new("Star", '\u{2B50}', 35, 1, 10, 1000, 5000, AttackType::Single));
        units.push(Unit::new("Golem", '\u{1F5FF}', 2500, 1500, 55, 2500, 200, AttackType::Area));
        units.push(Unit::new("Snowman", '\u{26C4}', 340, 175, 30, 1000, 850, AttackType::Single));
        units.push(Unit::new("Sneaker", '\u{1FAE5}', 75, 40, 25, 990, 1500, AttackType::Single));
        units.push(Unit::new("Cowboy", '\u{1F920}', 150, 85, 35, 1100, 900, AttackType::Single));
        units.push(
            Unit::new("Super Hero", '\u{1F9B8}', 2555, 1000, 60, 1000, 1250, AttackType::Area),
        );
        units.push(
            Unit::new("Lil Bugger", '\u{1F47E}', 300, 250, 20, 750, 1200, AttackType::Single),
        );
        units.push(Unit::new("T-Rex", '\u{1F996}', 1750, 1200, 60, 3000, 500, AttackType::Area));
        units.push(Unit::new("Boar", '\u{1F417}', 400, 120, 40, 1200, 1200, AttackType::Single));
        units.push(Unit::new("Nerd", '\u{1F913}', 314, 200, 15, 880, 670, AttackType::Single));
        units.push(Unit::new("Gatto", '\u{1F63B}', 150, 150, 5, 1000, 1500, AttackType::Single));
        units.push(Unit::new("Moon", '\u{1F31D}', 3000, 2000, 15, 10000, 300, AttackType::Area));
        units.push(Unit::new("Hamster", '\u{1F439}', 75, 45, 10, 300, 1000, AttackType::Single));
        units.push(Unit::new("Melted", '\u{1FAE0}', 350, 120, 20, 1000, 875, AttackType::Area));
        units.push(Unit::new("Robot", '\u{1F916}', 200, 125, 12, 1100, 900, AttackType::Area));
        units.push(Unit::new("Snail", '\u{1F40C}', 60, 100, 10, 300, 100, AttackType::Area));
        units.push(Unit::new("ANGRY", '\u{1F621}', 150, 50, 50, 1100, 1500, AttackType::Single));
        units.push(Unit::new("Demon", '\u{1F479}', 666, 666, 16, 2100, 750, AttackType::Area));
        units.push(Unit::new("Skeleton", '\u{1F480}', 120, 85, 12, 1000, 1000, AttackType::Single));
        units.push(Unit::new("Smiley", '\u{1F642}', 75, 75, 15, 1000, 1000, AttackType::Single));
        units.push(Unit::new("Boomer", '\u{1F92F}', 550, 1, 150, 1000, 2500, AttackType::Area));
        units.push(Unit::new("Alien", '\u{1F47D}', 500, 135, 22, 700, 1800, AttackType::Area));
        proof {
            lemma_builtin_units_valid();
            assert(units@ =~= builtin_units());
        }
        Catalog { units }
    }

    /// How many units the catalog holds.
    pub fn len(&self) -> (count: usize)
        ensures
            count == self@.len(),
    {
        self.units.len()
    }

    /// A copy of the units, in catalog order.
    pub fn units(&self) -> (units: Vec<Unit<'a>>)
        ensures
            units@ == self@,
    {
        let mut units: Vec<Unit<'a>> = Vec::new();
        let mut i: usize = 0;
        while i < self.units.len()
            invariant
                i <= self.units.len(),
                units@ == self.units@.subrange(0, i as int),
            decreases self.units.len() - i,
        {
            units.push(self.units[i]);
            assert(units@ =~= self.units@.subrange(0, i + 1));
            i += 1;
        }
        assert(units@ =~= self.units@);
        units
    }

    /// Looks a unit up by its name: the first unit of that name, or `None`
    /// when the catalog has none.
    pub fn find(&self, name: &str) -> (found: Option<Unit<'a>>)
        ensures
            found == unit_named(self@, name@),
    {
        let mut i: usize = 0;
        assert(self.units@.subrange(0, self.units@.len() as int) =~= self.units@);
        while i < self.units.len()
            invariant
                i <= self.units.len(),
                unit_named(self.units@, name@) == unit_named(
                    self.units@.subrange(i as int, self.units@.len() as int),
                    name@,
                ),
            decreases self.units.len() - i,
        {
            let ghost rest = self.units@.subrange(i as int, self.units@.len() as int);
            assert(rest[0] == self.units@[i as int]);
            assert(rest.drop_first() =~= self.units@.subrange(i + 1, self.units@.len() as int));
            if same_text(self.units[i].name, name) {
                return Some(self.units[i]);
            }
            i += 1;
        }
        None
    }
}

/// What a lookup by name finds: the unit of that name, or nothing where no
/// unit in `units` has it.
pub proof fn lemma_unit_named(units: Seq<Unit<'_>>, name: Seq<char>)
    ensures
        match unit_named(units, name) {
            Some(unit) => units.contains(unit) && unit.name@ == name,
            None => forall|i: int| 0 <= i < units.len() ==> (#[trigger] units[i]).name@ != name,
        },
    decreases units.len(),
{
    if units.len() > 0 {
        let rest = units.drop_first();
        lemma_unit_named(rest, name);
        if units[0].name@ == name {
            assert(units.contains(units[0]));
        } else {
            match unit_named(rest, name) {
                Some(unit) => {
                    let k = choose|k: int| 0 <= k < rest.len() && rest[k] == unit;
                    assert(units[k + 1] == unit);
                },
                None => {
                    assert forall|i: int| 0 <= i < units.len() implies (#[trigger] units[i]).name@
                        != name by {
                        if i > 0 {
                            assert(units[i] == rest[i - 1]);
                        }
                    }
                },
            }
        }
    }
}

/// In a well-formed catalog no unit occurs twice and none is blank.
pub proof fn lemma_valid_catalog_distinct(units: Seq<Unit<'_>>)
    requires
        valid_catalog(units),
    ensures
        units.no_duplicates(),
        forall|i: int| 0 <= i < units.len() ==> !(#[trigger] units[i]).is_blank(),
{
}

} // verus!

