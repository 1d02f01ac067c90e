//! Putting records together from the flat lists that storage holds: the
//! squares of a board with their edges and drinks, the turns of a game with
//! their drinks.

use vstd::prelude::*;
use crate::ids::{BoardId, TurnId};
use crate::types::{
    Board, BoardPlace, BoardPlaces, Connection, Connections, PlaceDrink, PlaceDrinks, Turn,
    TurnDrink, TurnDrinks, TurnView,
};

verus! {

/// The edges among `all` that leave the square `place_number` of the board
/// `board_id`, in their order.
pub open spec fn edges_of(all: Seq<Connection>, board_id: BoardId, place_number: i32) -> Seq<
    Connection,
> {
    all.filter(|c: Connection| c.board_id == board_id && c.origin == place_number)
}

/// Picks the edges that leave one square from all the edges of a board.
pub fn get_board_place_connections(all: &Vec<Connection>, board_id: BoardId, place_number: i32)
    -> (r: Connections)
    ensures
        r@ == edges_of(all@, board_id, place_number),
{
    let ghost leaves = |c: Connection| c.board_id == board_id && c.origin == place_number;
    let mut out: Vec<Connection> = Vec::new();
    let mut i: usize = 0;
    proof {
        reveal(Seq::filter);
        assert(all@.take(0) =~= Seq::<Connection>::empty());
    }
    while i < all.len()
        invariant
            0 <= i <= all.len(),
            leaves == |c: Connection| c.board_id == board_id && c.origin == place_number,
            out@ == all@.take(i as int).filter(leaves),
        decreases all.len() - i,
    {
        proof {
            reveal(Seq::filter);
            assert(all@.take(i + 1).drop_last() =~= all@.take(i as int));
            assert(all@.take(i + 1).last() == all@[i as int]);
        }
        if all[i].board_id == board_id && all[i].origin == place_number {
            out.push(all[i]);
        }
        i += 1;
    }
    assert(all@.take(i as int) =~= all@);
    Connections { connections: out }
}

/// The drinks among `all` that wait on the square `place_number` of the
/// board `board_id`, in their order.
pub open spec fn drinks_of(all: Seq<PlaceDrink>, board_id: BoardId, place_number: i32) -> Seq<
    PlaceDrink,
> {
    all.filter(|d: PlaceDrink| d.board_id == board_id && d.place_number == place_number)
}

/// Picks the drinks that wait on one square from all the drinks of a board.
pub fn get_place_drinks(all: &Vec<PlaceDrink>, place_number: i32, board_id: BoardId) -> (r:
    PlaceDrinks)
    ensures
        r@ == drinks_of(all@, board_id, place_number),
{
    let ghost waits = |d: PlaceDrink| d.board_id == board_id && d.place_number == place_number;
    let mut out: Vec<PlaceDrink> = Vec::new();
    let mut i: usize = 0;
    proof {
        reveal(Seq::filter);
        assert(all@.take(0) =~= Seq::<PlaceDrink>::empty());
    }
    while i < all.len()
        invariant
            0 <= i <= all.len(),
            waits == |d: PlaceDrink| d.board_id == board_id && d.place_number == place_number,
            out@ == all@.take(i as int).filter(waits),
        decreases all.len() - i,
    {
        proof {
            reveal(Seq::filter);
            assert(all@.take(i + 1).drop_last() =~= all@.take(i as int));
            assert(all@.take(i + 1).last() == all@[i as int]);
        }
        if all[i].board_id == board_id && all[i].place_number == place_number {
            out.push(all[i].clone());
        }
        i += 1;
    }
    assert(all@.take(i as int) =~= all@);
    PlaceDrinks { drinks: out }
}

/// Whether `built` is the square `bare` with the edges and drinks that
/// belong to it among all those of the board.
pub open spec fn is_built_square(
    built: BoardPlace,
    bare: BoardPlace,
    connections: Seq<Connection>,
    drinks: Seq<PlaceDrink>,
) -> bool {
    &&& built.board_id == bare.board_id
    &&& built.place == bare.place
    &&& built.place_number == bare.place_number
    &&& built.start == bare.start
    &&& built.area == bare.area
    &&& built.end == bare.end
    &&& built.connections@ == edges_of(connections, bare.board_id, bare.place_number)
    &&& built.drinks@ == drinks_of(drinks, bare.board_id, bare.place_number)
}

/// Builds a board from its squares and from all its edges and drinks: each
/// square, in the order given, gets the edges that leave it and the drinks
/// that wait on it. What a square held of either before is replaced.
pub fn get_board_places(
    board: Board,
    squares: Vec<BoardPlace>,
    connections: &Vec<Connection>,
    drinks: &Vec<PlaceDrink>,
) -> (r: BoardPlaces)
    ensures
        r.board == board,
        r.places@.len() == squares@.len(),
        forall|i: int|
            0 <= i < squares@.len() ==> is_built_square(
                #[trigger] r.places@[i],
                squares@[i],
                connections@,
                drinks@,
            ),
{
    let ghost bare = squares@;
    let mut places = squares;
    let mut i: usize = 0;
    while i < places.len()
        invariant
            0 <= i <= places.len(),
            places@.len() == bare.len(),
            forall|j: int| i <= j < places@.len() ==> (#[trigger] places@[j]) == bare[j],
            forall|j: int|
                0 <= j < i ==> is_built_square(#[trigger] places@[j], bare[j], connections@, drinks@),
        decreases places.len() - i,
    {
        let number = places[i].place_number;
        let board_id = places[i].board_id;
        let edges = get_board_place_connections(connections, board_id, number);
        let waiting = get_place_drinks(drinks, number, board_id);
        places[i].connections = edges;
        places[i].drinks = waiting;
        i += 1;
    }
    BoardPlaces { board, places }
}

/// One drink of one turn, as storage holds it.
#[derive(Clone, Debug)]
pub struct TurnDrinkRow {
    pub turn_id: TurnId,
    pub drink: TurnDrink,
}

/// The drinks of the turn `turn_id` among `rows`, in their order.
pub open spec fn drinks_of_turn(rows: Seq<TurnDrinkRow>, turn_id: TurnId) -> Seq<TurnDrink> {
    rows.filter(|row: TurnDrinkRow| row.turn_id == turn_id).map_values(
        |row: TurnDrinkRow| row.drink,
    )
}

/// Picks the drinks of one turn from the drinks of all turns.
pub fn get_turn_drinks(rows: &Vec<TurnDrinkRow>, turn_id: TurnId) -> (r: TurnDrinks)
    ensures
        r@ == drinks_of_turn(rows@, turn_id),
{
    let ghost of_turn = |row: TurnDrinkRow| row.turn_id == turn_id;
    let ghost drink = |row: TurnDrinkRow| row.drink;
    let mut out: Vec<TurnDrink> = Vec::new();
    let mut i: usize = 0;
    proof {
        reveal(Seq::filter);
        assert(rows@.take(0) =~= Seq::<TurnDrinkRow>::empty());
        assert(out@ =~= rows@.take(0).filter(of_turn).map_values(drink));
    }
    while i < rows.len()
        invariant
            0 <= i <= rows.len(),
            of_turn == |row: TurnDrinkRow| row.turn_id == turn_id,
            drink == |row: TurnDrinkRow| row.drink,
            out@ == rows@.take(i as int).filter(of_turn).map_values(drink),
        decreases rows.len() - i,
    {
        proof {
            reveal(Seq::filter);
            assert(rows@.take(i + 1).drop_last() =~= rows@.take(i as int));
            assert(rows@.take(i + 1).last() == rows@[i as int]);
        }
        if rows[i].turn_id == turn_id {
            out.push(rows[i].drink.clone());
            assert(out@ =~= rows@.take(i + 1).filter(of_turn).map_values(drink));
        }
        i += 1;
    }
    assert(rows@.take(i as int) =~= rows@);
    TurnDrinks { drinks: out }
}

/// The turn `t` with the drinks `drinks` in place of its own.
pub open spec fn with_drinks(t: TurnView, drinks: Seq<TurnDrink>) -> TurnView {
    TurnView { drinks, ..t }
}

/// Gives every turn its drinks from the drinks of all turns. What a turn
/// held before is replaced; nothing else of a turn changes.
pub fn attach_turn_drinks(turns: &mut Vec<Turn>, rows: &Vec<TurnDrinkRow>)
    ensures
        final(turns)@.len() == old(turns)@.len(),
        forall|i: int|
            0 <= i < old(turns)@.len() ==> (#[trigger] final(turns)@[i])@ == with_drinks(
                old(turns)@[i]@,
                drinks_of_turn(rows@, old(turns)@[i].turn_id),
            ),
{
    let mut i: usize = 0;
    while i < turns.len()
        invariant
            0 <= i <= turns.len(),
            turns@.len() == old(turns)@.len(),
            forall|j: int| i <= j < turns@.len() ==> (#[trigger] turns@[j]) == old(turns)@[j],
            forall|j: int|
                0 <= j < i ==> (#[trigger] turns@[j])@ == with_drinks(
                    old(turns)@[j]@,
                    drinks_of_turn(rows@, old(turns)@[j].turn_id),
                ),
        decreases turns.len() - i,
    {
        let drinks = get_turn_drinks(rows, turns[i].turn_id);
        turns[i].drinks = drinks;
        i += 1;
    }
}

} // verus!
