//! From the drinks that wait on a square to the drinks of a turn.
//!
//! A turn that ends on a square owes the drinks of that square, each times
//! the multiplier of the throw. A drink that is served only once is left out
//! where a team has been on the square before.

use vstd::prelude::*;
use vstd::string::StringExecFns;
use crate::errors::AppError;
use crate::types::{PlaceDrink, PlaceDrinks, TurnDrink, TurnDrinks};

verus! {

/// The factor by which a throw multiplies the drinks: 2 for a double, and 2
/// again while the team's drinks are doubled by the side area.
pub open spec fn spec_multiplier(double: bool, area_double: bool) -> int {
    (if double {
        2int
    } else {
        1int
    }) * (if area_double {
        2int
    } else {
        1int
    })
}

/// The factor by which a throw multiplies the drinks: 1, 2 or 4.
pub fn drink_multiplier(double: bool, area_double: bool) -> (r: i32)
    ensures
        r == spec_multiplier(double, area_double),
        r == 1 || r == 2 || r == 4,
{
    let by_dice: i32 = if double {
        2
    } else {
        1
    };
    let by_area: i32 = if area_double {
        2
    } else {
        1
    };
    by_dice * by_area
}

/// A plain throw leaves the drinks as they are, a double doubles them, the
/// doubling by the side area doubles them, and both together make them four
/// times as many.
pub proof fn lemma_multiplier_values()
    ensures
        spec_multiplier(false, false) == 1,
        spec_multiplier(true, false) == 2,
        spec_multiplier(false, true) == 2,
        spec_multiplier(true, true) == 4,
{
}

impl PlaceDrink {
    /// Whether the drink is served to a team that ends on the square: always
    /// if it is refilled, else only on the first visit.
    pub open spec fn served(self, visited: bool) -> bool {
        self.refill || !visited
    }

    /// Whether the number of portions times `multiplier` is a number that the
    /// turn's drink can hold.
    pub open spec fn fits(self, multiplier: i32) -> bool {
        i32::MIN <= self.n * multiplier <= i32::MAX
    }

    /// The turn's drink for one serving of this drink: `n` times
    /// `multiplier` portions, of which, if the drink stands on the table, as
    /// many are on the table as one plain serving holds (or all of them, if
    /// that is less).
    pub open spec fn spec_turn_drink(self, multiplier: i32) -> TurnDrink {
        let n = self.n * multiplier;
        TurnDrink {
            drink: self.drink,
            n: n as i32,
            on_table: if self.on_table {
                if n <= self.n {
                    n as i32
                } else {
                    self.n
                }
            } else {
                0
            },
            optional: self.optional,
        }
    }

    /// The turn's drink for one serving of this drink.
    pub fn to_turn_drink(&self, multiplier: i32) -> (r: TurnDrink)
        requires
            self.fits(multiplier),
        ensures
            r == self.spec_turn_drink(multiplier),
            r.n == self.n * multiplier,
    {
        let n: i32 = self.n * multiplier;
        let on_table: i32 = if self.on_table {
            if n <= self.n {
                n
            } else {
                self.n
            }
        } else {
            0
        };
        TurnDrink { drink: self.drink.clone(), n, on_table, optional: self.optional }
    }
}

/// The drinks that a turn owes for ending on a square with the drinks
/// `slots`: one for each drink that is served, in the order of the square.
pub open spec fn derive_drinks(slots: Seq<PlaceDrink>, visited: bool, multiplier: i32) -> Seq<
    TurnDrink,
> {
    slots.filter(|slot: PlaceDrink| slot.served(visited)).map_values(
        |slot: PlaceDrink| slot.spec_turn_drink(multiplier),
    )
}

/// Whether every drink in `slots` that is served fits when multiplied.
pub open spec fn drinks_fit(slots: Seq<PlaceDrink>, visited: bool, multiplier: i32) -> bool {
    forall|i: int|
        0 <= i < slots.len() && (#[trigger] slots[i]).served(visited) ==> slots[i].fits(multiplier)
}

impl PlaceDrinks {
    /// The drinks that a turn owes for ending on the square. `visited` says
    /// whether a team has been on the square before in this game.
    pub fn to_turn_drinks(&self, visited: bool, multiplier: i32) -> (r: TurnDrinks)
        requires
            drinks_fit(self@, visited, multiplier),
        ensures
            r@ == derive_drinks(self@, visited, multiplier),
    {
        let ghost served = |slot: PlaceDrink| slot.served(visited);
        let ghost turned = |slot: PlaceDrink| slot.spec_turn_drink(multiplier);
        let mut drinks: Vec<TurnDrink> = Vec::new();
        let mut i: usize = 0;
        proof {
            reveal(Seq::filter);
            assert(self.drinks@.take(0) =~= Seq::<PlaceDrink>::empty());
            assert(self.drinks@.take(0).filter(served).map_values(turned) =~= drinks@);
        }
        while i < self.drinks.len()
            invariant
                0 <= i <= self.drinks.len(),
                drinks_fit(self@, visited, multiplier),
                served == |slot: PlaceDrink| slot.served(visited),
                turned == |slot: PlaceDrink| slot.spec_turn_drink(multiplier),
                drinks@ == self.drinks@.take(i as int).filter(served).map_values(turned),
            decreases self.drinks.len() - i,
        {
            let slot = &self.drinks[i];
            proof {
                reveal(Seq::filter);
                let before = self.drinks@.take(i as int);
                let upto = self.drinks@.take(i + 1);
                assert(upto.drop_last() =~= before);
                assert(upto.last() == *slot);
                if slot.served(visited) {
                    assert(upto.filter(served) =~= before.filter(served).push(*slot));
                    assert(upto.filter(served).map_values(turned) =~= before.filter(
                        served,
                    ).map_values(turned).push(slot.spec_turn_drink(multiplier)));
                } else {
                    assert(upto.filter(served) =~= before.filter(served));
                }
            }
            if slot.refill || !visited {
                drinks.push(slot.to_turn_drink(multiplier));
            }
            i += 1;
        }
        assert(self.drinks@.take(i as int) =~= self.drinks@);
        TurnDrinks { drinks }
    }
}

/// A drink that is refilled is served whether the square was visited before
/// or not: the turn owes its portions times the multiplier.
pub proof fn lemma_refill_is_always_served(slot: PlaceDrink, visited: bool, multiplier: i32)
    requires
        slot.refill,
        slot.fits(multiplier),
    ensures
        derive_drinks(seq![slot], visited, multiplier) == seq![slot.spec_turn_drink(multiplier)],
        slot.spec_turn_drink(multiplier).n == slot.n * multiplier,
{
    lemma_derive_one(slot, visited, multiplier);
}

/// A drink that is not refilled is served on the first visit, with its
/// portions times the multiplier, and not at all on a square that was
/// visited before.
pub proof fn lemma_first_visit_only(slot: PlaceDrink, visited: bool, multiplier: i32)
    requires
        !slot.refill,
        slot.fits(multiplier),
    ensures
        visited ==> derive_drinks(seq![slot], visited, multiplier) == Seq::<TurnDrink>::empty(),
        !visited ==> derive_drinks(seq![slot], visited, multiplier) == seq![
            slot.spec_turn_drink(multiplier),
        ],
        slot.spec_turn_drink(multiplier).n == slot.n * multiplier,
{
    lemma_derive_one(slot, visited, multiplier);
}

/// The drinks of a square with a single drink.
pub proof fn lemma_derive_one(slot: PlaceDrink, visited: bool, multiplier: i32)
    ensures
        derive_drinks(seq![slot], visited, multiplier) == if slot.served(visited) {
            seq![slot.spec_turn_drink(multiplier)]
        } else {
            Seq::<TurnDrink>::empty()
        },
{
    reveal_with_fuel(Seq::filter, 2);
    let served = |s: PlaceDrink| s.served(visited);
    let one = seq![slot];
    assert(one.drop_last() =~= Seq::<PlaceDrink>::empty());
    assert(one.last() == slot);
    if slot.served(visited) {
        assert(one.filter(served) =~= seq![slot]);
        assert(derive_drinks(one, visited, multiplier) =~= seq![slot.spec_turn_drink(multiplier)]);
    } else {
        assert(one.filter(served) =~= Seq::<PlaceDrink>::empty());
        assert(derive_drinks(one, visited, multiplier) =~= Seq::<TurnDrink>::empty());
    }
}

/// Every drink that the turn owes comes from a drink of the square that is
/// served, and every such drink of the square gives one: no drink is
/// invented and none is lost.
pub proof fn lemma_derived_drinks_are_the_served(
    slots: Seq<PlaceDrink>,
    visited: bool,
    multiplier: i32,
)
    ensures
        forall|d: TurnDrink| #[trigger]
            derive_drinks(slots, visited, multiplier).contains(d) <==> exists|i: int|
                0 <= i < slots.len() && (#[trigger] slots[i]).served(visited)
                    && slots[i].spec_turn_drink(multiplier) == d,
{
    let served = |s: PlaceDrink| s.served(visited);
    let turned = |s: PlaceDrink| s.spec_turn_drink(multiplier);
    let kept = slots.filter(served);
    let out = derive_drinks(slots, visited, multiplier);
    assert(out == kept.map_values(turned));
    assert forall|d: TurnDrink| #[trigger] out.contains(d) implies exists|i: int|
        0 <= i < slots.len() && (#[trigger] slots[i]).served(visited) && slots[i].spec_turn_drink(
            multiplier,
        ) == d by {
        let k = choose|k: int| 0 <= k < out.len() && out[k] == d;
        assert(kept.contains(kept[k]));
        slots.lemma_filter_pred(served, k);
        slots.lemma_filter_contains_rev(served, kept[k]);
        let i = choose|i: int| 0 <= i < slots.len() && slots[i] == kept[k];
        assert(served(kept[k]));
        assert(slots[i].served(visited));
    }
    assert forall|d: TurnDrink|
        (exists|i: int|
            0 <= i < slots.len() && (#[trigger] slots[i]).served(visited)
                && slots[i].spec_turn_drink(multiplier) == d) implies #[trigger] out.contains(
        d,
    ) by {
        let i = choose|i: int|
            0 <= i < slots.len() && (#[trigger] slots[i]).served(visited)
                && slots[i].spec_turn_drink(multiplier) == d;
        assert(served(slots[i]));
        slots.lemma_filter_contains(served, i);
        let k = choose|k: int| 0 <= k < kept.len() && kept[k] == slots[i];
        assert(out[k] == d);
    }
}

/// The largest multiplier that a throw can have.
pub const MAX_MULTIPLIER: i32 = 4;

impl PlaceDrinks {
    /// Whether every drink fits with every multiplier that a throw can have.
    pub open spec fn counts_fit(&self) -> bool {
        forall|i: int| 0 <= i < self@.len() ==> (#[trigger] self@[i]).fits(MAX_MULTIPLIER)
    }

    /// Checks that the drinks of a square can be counted for every throw:
    /// that each number of portions, times four, is a number that a turn's
    /// drink can hold.
    pub fn check_counts(&self) -> (r: bool)
        ensures
            r == self.counts_fit(),
    {
        let mut i: usize = 0;
        while i < self.drinks.len()
            invariant
                0 <= i <= self.drinks.len(),
                forall|j: int| 0 <= j < i ==> (#[trigger] self@[j]).fits(MAX_MULTIPLIER),
            decreases self.drinks.len() - i,
        {
            let n = self.drinks[i].n;
            if n > i32::MAX / MAX_MULTIPLIER || n < i32::MIN / MAX_MULTIPLIER {
                assert(!self@[i as int].fits(MAX_MULTIPLIER));
                return false;
            }
            i += 1;
        }
        true
    }
}

/// Drinks that fit with the largest multiplier fit with every multiplier of
/// a throw, whether the square was visited or not.
pub proof fn lemma_counts_fit(slots: PlaceDrinks, visited: bool, double: bool, area_double: bool)
    requires
        slots.counts_fit(),
    ensures
        drinks_fit(slots@, visited, spec_multiplier(double, area_double) as i32),
{
    let m = spec_multiplier(double, area_double) as i32;
    assert(m == 1 || m == 2 || m == 4);
    assert forall|i: int| 0 <= i < slots@.len() implies (#[trigger] slots@[i]).fits(m) by {
        assert(slots@[i].fits(MAX_MULTIPLIER));
    }
}

/// The message of the error for drinks that do not all wait on one square.
pub open spec fn mixed_places_message() -> Seq<char> {
    "All drinks must belong to the same place and board"@
}

impl PlaceDrinks {
    /// Whether all the drinks wait on one square of one board.
    pub open spec fn same_place(&self) -> bool {
        forall|i: int|
            0 <= i < self@.len() ==> (#[trigger] self@[i]).place_number == self@[0].place_number
                && self@[i].board_id == self@[0].board_id
    }

    /// Checks, before the drinks of a square are replaced by these, that
    /// they all wait on one square of one board. No drinks at all pass.
    pub fn check_same_place(&self) -> (r: Result<(), AppError>)
        ensures
            self.same_place() ==> r is Ok,
            !self.same_place() ==> r is Err && r->Err_0 is Validation && r->Err_0.message()
                == mixed_places_message(),
    {
        let mut i: usize = 0;
        while i < self.drinks.len()
            invariant
                0 <= i <= self.drinks.len(),
                forall|j: int|
                    0 <= j < i ==> (#[trigger] self@[j]).place_number == self@[0].place_number
                        && self@[j].board_id == self@[0].board_id,
            decreases self.drinks.len() - i,
        {
            if self.drinks[i].place_number != self.drinks[0].place_number || self.drinks[i].board_id
                != self.drinks[0].board_id {
                assert(!(self@[i as int].place_number == self@[0].place_number && self@[i as int].board_id
                    == self@[0].board_id));
                return Err(
                    AppError::Validation(
                        String::from_str("All drinks must belong to the same place and board"),
                    ),
                );
            }
            i += 1;
        }
        Ok(())
    }
}

} // verus!
