//! Moving over the board.
//!
//! A board is a graph: squares, and for each square the edges that leave it.
//! A move starts on a square and takes a number of steps. What it does at each
//! square depends on the kinds of edge that leave the square, tried in one
//! fixed order of preference. The functions of this module compute where a
//! move ends; the spec functions beside them say what that is, one step at a
//! time.

use vstd::prelude::*;
use vstd::string::StringExecFns;
use crate::errors::AppError;
use crate::text::same_text;
use crate::types::{BoardPlace, BoardPlaces, Connection};

verus! {

/// The four kinds of edge that the two flags of a connection give.
#[derive(Clone, Copy, Debug, PartialEq, Eq, Structural)]
pub enum EdgeKind {
    /// An ordinary step forwards.
    Step,
    /// A forward edge that a move takes by itself where it comes to rest.
    Detour,
    /// A step backwards.
    Back,
    /// The first step of a move that starts backwards.
    BackEntry,
}

impl Connection {
    /// The kind of the edge.
    pub open spec fn kind(self) -> EdgeKind {
        if self.backwards {
            if self.on_land {
                EdgeKind::BackEntry
            } else {
                EdgeKind::Back
            }
        } else {
            if self.on_land {
                EdgeKind::Detour
            } else {
                EdgeKind::Step
            }
        }
    }

    /// The kind of the edge.
    pub fn edge_kind(&self) -> (r: EdgeKind)
        ensures
            r == self.kind(),
    {
        if self.backwards {
            if self.on_land {
                EdgeKind::BackEntry
            } else {
                EdgeKind::Back
            }
        } else {
            if self.on_land {
                EdgeKind::Detour
            } else {
                EdgeKind::Step
            }
        }
    }
}

/// The first edge of the given kind among `conns`, if there is one.
pub open spec fn first_of_kind(conns: Seq<Connection>, kind: EdgeKind) -> Option<Connection>
    decreases conns.len(),
{
    if conns.len() == 0 {
        None
    } else if conns[0].kind() == kind {
        Some(conns[0])
    } else {
        first_of_kind(conns.drop_first(), kind)
    }
}

/// `first_of_kind` finds an edge exactly when one of that kind is there, and
/// then it is the one with the least index.
pub proof fn lemma_first_of_kind(conns: Seq<Connection>, kind: EdgeKind)
    ensures
        first_of_kind(conns, kind) is None <==> forall|i: int|
            0 <= i < conns.len() ==> (#[trigger] conns[i]).kind() != kind,
        first_of_kind(conns, kind) matches Some(c) ==> exists|i: int|
            0 <= i < conns.len() && #[trigger] conns[i] == c && c.kind() == kind && forall|j: int|
                0 <= j < i ==> (#[trigger] conns[j]).kind() != kind,
    decreases conns.len(),
{
    if conns.len() == 0 {
    } else if conns[0].kind() == kind {
        assert(conns[0] == conns[0]);
    } else {
        let rest = conns.drop_first();
        lemma_first_of_kind(rest, kind);
        assert forall|i: int| 0 <= i < rest.len() implies rest[i] == conns[i + 1] by {}
        if first_of_kind(rest, kind) is None {
            assert forall|i: int| 0 <= i < conns.len() implies (#[trigger] conns[i]).kind()
                != kind by {
                if i > 0 {
                    assert(rest[i - 1] == conns[i]);
                }
            }
        } else {
            let c = first_of_kind(rest, kind)->Some_0;
            let i = choose|i: int|
                0 <= i < rest.len() && #[trigger] rest[i] == c && c.kind() == kind && forall|j: int|
                    0 <= j < i ==> (#[trigger] rest[j]).kind() != kind;
            assert(conns[i + 1] == c);
            assert forall|j: int| 0 <= j < i + 1 implies (#[trigger] conns[j]).kind() != kind by {
                if j > 0 {
                    assert(rest[j - 1] == conns[j]);
                }
            }
        }
    }
}

/// The first of the squares with the given number, if there is one.
pub open spec fn find_in(places: Seq<BoardPlace>, place_number: i32) -> Option<BoardPlace>
    decreases places.len(),
{
    if places.len() == 0 {
        None
    } else if places[0].place_number == place_number {
        Some(places[0])
    } else {
        find_in(places.drop_first(), place_number)
    }
}

/// `find_in` finds a square exactly when one has the number, and then it is
/// the one with the least index.
pub proof fn lemma_find_in(places: Seq<BoardPlace>, place_number: i32)
    ensures
        find_in(places, place_number) is None <==> forall|i: int|
            0 <= i < places.len() ==> (#[trigger] places[i]).place_number != place_number,
        find_in(places, place_number) matches Some(p) ==> exists|i: int|
            0 <= i < places.len() && #[trigger] places[i] == p && p.place_number == place_number
                && forall|j: int| 0 <= j < i ==> (#[trigger] places[j]).place_number != place_number,
    decreases places.len(),
{
    if places.len() == 0 {
    } else if places[0].place_number == place_number {
        assert(places[0] == places[0]);
    } else {
        let rest = places.drop_first();
        lemma_find_in(rest, place_number);
        if find_in(rest, place_number) is None {
            assert forall|i: int| 0 <= i < places.len() implies (#[trigger] places[i]).place_number
                != place_number by {
                if i > 0 {
                    assert(rest[i - 1] == places[i]);
                }
            }
        } else {
            let p = find_in(rest, place_number)->Some_0;
            let i = choose|i: int|
                0 <= i < rest.len() && #[trigger] rest[i] == p && p.place_number == place_number
                    && forall|j: int|
                    0 <= j < i ==> (#[trigger] rest[j]).place_number != place_number;
            assert(places[i + 1] == p);
            assert forall|j: int| 0 <= j < i + 1 implies (#[trigger] places[j]).place_number
                != place_number by {
                if j > 0 {
                    assert(rest[j - 1] == places[j]);
                }
            }
        }
    }
}

impl BoardPlaces {
    /// The square with the given number, if the board has one.
    pub open spec fn spec_find_place(&self, place_number: i32) -> Option<BoardPlace> {
        find_in(self.places@, place_number)
    }

    /// The square that an edge to `target` leads to from `from`: the square
    /// with that number, or `from` itself where the board has none.
    pub open spec fn arrival(&self, from: BoardPlace, target: i32) -> BoardPlace {
        match self.spec_find_place(target) {
            Some(p) => p,
            None => from,
        }
    }

    /// Looks up a square by its number.
    pub fn find_place(&self, place_number: i32) -> (r: Option<&BoardPlace>)
        ensures
            match r {
                Some(p) => self.spec_find_place(place_number) == Some(*p),
                None => self.spec_find_place(place_number) is None,
            },
    {
        let mut i: usize = 0;
        assert(self.places@.skip(0) =~= self.places@);
        while i < self.places.len()
            invariant
                0 <= i <= self.places.len(),
                find_in(self.places@, place_number) == find_in(
                    self.places@.skip(i as int),
                    place_number,
                ),
            decreases self.places.len() - i,
        {
            if self.places[i].place_number == place_number {
                return Some(&self.places[i]);
            }
            assert(self.places@.skip(i as int).drop_first() =~= self.places@.skip(i + 1));
            i += 1;
        }
        None
    }

    fn arrive<'a>(&'a self, from: &'a BoardPlace, target: i32) -> (r: &'a BoardPlace)
        ensures
            *r == self.arrival(*from, target),
    {
        match self.find_place(target) {
            Some(p) => p,
            None => from,
        }
    }
}

impl BoardPlace {
    /// The edges that leave the square.
    pub open spec fn edges(&self) -> Seq<Connection> {
        self.connections.connections@
    }

    /// Whether the square sends the team backwards by a die of its own.
    pub open spec fn sends_back(&self) -> bool {
        self.place.special matches Some(tag) && tag@ == "-D1"@
    }

    fn first_edge(&self, kind: EdgeKind) -> (r: Option<Connection>)
        ensures
            r == first_of_kind(self.edges(), kind),
    {
        let conns = &self.connections.connections;
        let mut i: usize = 0;
        assert(conns@.skip(0) =~= conns@);
        while i < conns.len()
            invariant
                0 <= i <= conns.len(),
                conns == &self.connections.connections,
                first_of_kind(conns@, kind) == first_of_kind(conns@.skip(i as int), kind),
            decreases conns.len() - i,
        {
            if conns[i].edge_kind() == kind {
                return Some(conns[i]);
            }
            assert(conns@.skip(i as int).drop_first() =~= conns@.skip(i + 1));
            i += 1;
        }
        None
    }

    fn is_sends_back(&self) -> (r: bool)
        ensures
            r == self.sends_back(),
    {
        match &self.place.special {
            Some(tag) => same_text(tag, "-D1"),
            None => false,
        }
    }
}

/// What a forward move does on a square.
pub enum Hop {
    /// Take this ordinary step.
    Advance(Connection),
    /// Only a detour leads on: the move rests here, and the detour is taken
    /// afterwards.
    Rest,
    /// No way leads forwards, but one leads back: the rest of the move runs
    /// backwards.
    Reverse,
    /// No edge can be taken: the move ends here.
    Stuck,
}

/// What a forward move does on the square `place`: an ordinary forward step
/// if there is one; else it rests where any other edge leads forwards; else
/// it turns round where a plain backward step exists; else it is stuck. The
/// first step of a backward move is never taken by a move on its way
/// forwards.
pub open spec fn forward_hop(place: BoardPlace) -> Hop {
    match first_of_kind(place.edges(), EdgeKind::Step) {
        Some(c) => Hop::Advance(c),
        None => if first_of_kind(place.edges(), EdgeKind::Detour) is Some {
            Hop::Rest
        } else if first_of_kind(place.edges(), EdgeKind::Back) is Some {
            Hop::Reverse
        } else {
            Hop::Stuck
        },
    }
}

/// The edge that a backward move takes from `place`. Its first step takes the
/// entry edge of a backward move where the square has one (`entry`); every
/// other step, and the first where there is no such edge, takes a plain
/// backward step.
pub open spec fn backward_edge(place: BoardPlace, entry: bool) -> Option<Connection> {
    if entry && first_of_kind(place.edges(), EdgeKind::BackEntry) is Some {
        first_of_kind(place.edges(), EdgeKind::BackEntry)
    } else {
        first_of_kind(place.edges(), EdgeKind::Back)
    }
}

/// Where `steps` steps backwards from `from` end, or `None` where a square on
/// the way has no edge to go back by. `entry` says whether the first step may
/// take the entry edge of a backward move.
pub open spec fn backward_walk(board: BoardPlaces, from: BoardPlace, steps: int, entry: bool)
    -> Option<BoardPlace>
    decreases steps,
{
    if steps <= 0 {
        Some(from)
    } else {
        match backward_edge(from, entry) {
            None => None,
            Some(c) => backward_walk(board, board.arrival(from, c.target), steps - 1, false),
        }
    }
}

/// Where a move of `steps` steps backwards from `from` ends.
pub open spec fn spec_move_backwards(board: BoardPlaces, from: BoardPlace, steps: int) -> Option<
    BoardPlace,
> {
    backward_walk(board, from, steps, true)
}

/// The square on which a forward move of `steps` steps from `from` comes to
/// rest, before any detour is taken; `None` where the move had to turn round
/// and ran out of backward steps.
pub open spec fn forward_rest(board: BoardPlaces, from: BoardPlace, steps: int) -> Option<
    BoardPlace,
>
    decreases steps,
{
    if steps <= 0 {
        Some(from)
    } else {
        match forward_hop(from) {
            Hop::Advance(c) => forward_rest(board, board.arrival(from, c.target), steps - 1),
            Hop::Rest => Some(from),
            Hop::Reverse => backward_walk(board, from, steps, false),
            Hop::Stuck => Some(from),
        }
    }
}

/// What a move does once it has come to rest on `rest`: from a square that
/// sends the team backwards, with a die for it, the move goes back by that
/// die; else a detour that leaves the square is taken; else the move ends
/// where it rests. The result is the final square and, where the move went
/// on, the square it rested on; `None` where the way back runs out.
pub open spec fn after_rest(board: BoardPlaces, rest: BoardPlace, backward_throw: Option<i8>)
    -> Option<(BoardPlace, Option<BoardPlace>)> {
    if rest.sends_back() && backward_throw is Some {
        match spec_move_backwards(board, rest, backward_throw->Some_0 as int) {
            Some(dest) => Some((dest, Some(rest))),
            None => None,
        }
    } else {
        match first_of_kind(rest.edges(), EdgeKind::Detour) {
            Some(c) => Some((board.arrival(rest, c.target), Some(rest))),
            None => Some((rest, None)),
        }
    }
}

/// Where a forward move of `steps` steps from `from` ends, and the square it
/// passed through on a detour, if any; `None` where the board gives out on a
/// way back.
pub open spec fn spec_move_forwards(
    board: BoardPlaces,
    from: BoardPlace,
    steps: int,
    backward_throw: Option<i8>,
) -> Option<(BoardPlace, Option<BoardPlace>)> {
    match forward_rest(board, from, steps) {
        Some(rest) => after_rest(board, rest, backward_throw),
        None => None,
    }
}

/// The message of the error for a board that gives out on a way back.
pub open spec fn no_way_back_message() -> Seq<char> {
    "Not enough backwards connections found"@
}

fn no_way_back() -> (e: AppError)
    ensures
        e is NotFound,
        e.message() == no_way_back_message(),
{
    AppError::NotFound(String::from_str("Not enough backwards connections found"))
}

fn walk_backwards<'a>(
    start: &'a BoardPlace,
    board_places: &'a BoardPlaces,
    steps: i8,
    entry: bool,
) -> (r: Result<&'a BoardPlace, AppError>)
    ensures
        match backward_walk(*board_places, *start, steps as int, entry) {
            Some(p) => r is Ok && *r->Ok_0 == p,
            None => r is Err && r->Err_0 is NotFound && r->Err_0.message()
                == no_way_back_message(),
        },
{
    let mut current = start;
    let mut first = entry;
    let mut done: i8 = 0;
    while done < steps
        invariant
            0 <= done,
            done <= steps || steps < 0,
            backward_walk(*board_places, *start, steps as int, entry) == backward_walk(
                *board_places,
                *current,
                steps - done,
                first,
            ),
        decreases steps - done,
    {
        let entry_edge = if first {
            current.first_edge(EdgeKind::BackEntry)
        } else {
            None
        };
        let edge = match entry_edge {
            Some(c) => Some(c),
            None => current.first_edge(EdgeKind::Back),
        };
        match edge {
            None => {
                return Err(no_way_back());
            },
            Some(c) => {
                current = board_places.arrive(current, c.target);
            },
        }
        first = false;
        done += 1;
    }
    Ok(current)
}

/// Moves a team backwards by `throw` steps.
///
/// The first step takes the entry edge of a backward move where the square
/// has one, every other step a plain backward step. An edge whose target the
/// board does not hold leaves the team where it is. The move fails where a
/// square on the way has no edge to go back by: the board has a gap.
pub fn move_backwards<'a>(
    current_place: &'a BoardPlace,
    board_places: &'a BoardPlaces,
    throw: i8,
) -> (r: Result<&'a BoardPlace, AppError>)
    ensures
        match spec_move_backwards(*board_places, *current_place, throw as int) {
            Some(p) => r is Ok && *r->Ok_0 == p,
            None => r is Err && r->Err_0 is NotFound && r->Err_0.message()
                == no_way_back_message(),
        },
{
    walk_backwards(current_place, board_places, throw, true)
}

/// Moves a team forwards by `throw` steps and returns the square it ends on
/// and, where the move went on from the square it came to rest on, that
/// square.
///
/// On each square the move takes the first ordinary forward step. Where
/// there is none but another edge leads forwards, it rests. Where nothing
/// leads forwards but a plain backward step exists, the rest of the move runs
/// backwards (the end of the board). Where no edge can be taken, the move
/// ends on the spot. From the square it rests on, the move then goes back by
/// `backward_throw` if the square sends the team backwards and the die is
/// given; else it takes the first detour that leaves the square.
pub fn move_forwards<'a>(
    current_place: &'a BoardPlace,
    board_places: &'a BoardPlaces,
    throw: i8,
    backward_throw: Option<i8>,
) -> (r: Result<(&'a BoardPlace, Option<&'a BoardPlace>), AppError>)
    ensures
        match spec_move_forwards(*board_places, *current_place, throw as int, backward_throw) {
            Some((dest, via)) => r is Ok && *(r->Ok_0.0) == dest && match via {
                Some(v) => r->Ok_0.1 is Some && *(r->Ok_0.1->Some_0) == v,
                None => r->Ok_0.1 is None,
            },
            None => r is Err && r->Err_0 is NotFound && r->Err_0.message()
                == no_way_back_message(),
        },
{
    let mut current = current_place;
    let mut step: i8 = 0;
    while step < throw
        invariant_except_break
            0 <= step,
            forward_rest(*board_places, *current_place, throw as int) == forward_rest(
                *board_places,
                *current,
                throw - step,
            ),
        ensures
            forward_rest(*board_places, *current_place, throw as int) == Some(*current),
        decreases throw - step,
    {
        match current.first_edge(EdgeKind::Step) {
            Some(c) => {
                current = board_places.arrive(current, c.target);
                step += 1;
            },
            None => {
                if current.first_edge(EdgeKind::Detour).is_some() {
                    break ;
                } else if current.first_edge(EdgeKind::Back).is_some() {
                    match walk_backwards(current, board_places, throw - step, false) {
                        Ok(p) => {
                            current = p;
                        },
                        Err(e) => {
                            return Err(e);
                        },
                    }
                    break ;
                } else {
                    break ;
                }
            },
        }
    }
    if current.is_sends_back() {
        if let Some(bt) = backward_throw {
            return match move_backwards(current, board_places, bt) {
                Ok(dest) => Ok((dest, Some(current))),
                Err(e) => Err(e),
            };
        }
    }
    match current.first_edge(EdgeKind::Detour) {
        Some(c) => Ok((board_places.arrive(current, c.target), Some(current))),
        None => Ok((current, None)),
    }
}

/// A move along a chain of squares, each of which has a single edge, an
/// ordinary step to the next, ends on the last square of the chain when it
/// takes as many steps as the chain has edges, provided that nothing carries
/// the move on from there: no detour leaves the last square, and it does not
/// send the team backwards by a die that was thrown.
pub proof fn lemma_chain_is_walked(
    board: BoardPlaces,
    chain: Seq<BoardPlace>,
    backward_throw: Option<i8>,
)
    requires
        chain.len() >= 1,
        forall|i: int|
            0 <= i < chain.len() - 1 ==> {
                &&& (#[trigger] chain[i]).edges().len() == 1
                &&& chain[i].edges()[0].kind() == EdgeKind::Step
                &&& board.spec_find_place(chain[i].edges()[0].target) == Some(chain[i + 1])
            },
        first_of_kind(chain.last().edges(), EdgeKind::Detour) is None,
        !(chain.last().sends_back() && backward_throw is Some),
    ensures
        spec_move_forwards(board, chain[0], chain.len() - 1, backward_throw) == Some(
            (chain.last(), None::<BoardPlace>),
        ),
{
    lemma_chain_rest(board, chain, 0);
}

proof fn lemma_chain_rest(board: BoardPlaces, chain: Seq<BoardPlace>, k: int)
    requires
        0 <= k < chain.len(),
        forall|i: int|
            0 <= i < chain.len() - 1 ==> {
                &&& (#[trigger] chain[i]).edges().len() == 1
                &&& chain[i].edges()[0].kind() == EdgeKind::Step
                &&& board.spec_find_place(chain[i].edges()[0].target) == Some(chain[i + 1])
            },
    ensures
        forward_rest(board, chain[k], chain.len() - 1 - k) == Some(chain.last()),
    decreases chain.len() - k,
{
    if k < chain.len() - 1 {
        lemma_chain_rest(board, chain, k + 1);
        let edges = chain[k].edges();
        assert(first_of_kind(edges, EdgeKind::Step) == Some(edges[0]));
        assert(board.arrival(chain[k], edges[0].target) == chain[k + 1]);
    }
}

/// A move that comes to rest on a square goes on by the first detour that
/// leaves the square, and reports the square as the one it passed through,
/// unless the square sends the team backwards by a die that was thrown.
pub proof fn lemma_detour_is_followed(
    board: BoardPlaces,
    from: BoardPlace,
    steps: int,
    backward_throw: Option<i8>,
    rest: BoardPlace,
)
    requires
        forward_rest(board, from, steps) == Some(rest),
        first_of_kind(rest.edges(), EdgeKind::Detour) is Some,
        !(rest.sends_back() && backward_throw is Some),
    ensures
        spec_move_forwards(board, from, steps, backward_throw) == Some(
            (
                board.arrival(rest, first_of_kind(rest.edges(), EdgeKind::Detour)->Some_0.target),
                Some(rest),
            ),
        ),
{
}

/// A move rests on a square whose only edge is a detour, however many steps
/// it has left, and then takes the detour.
pub proof fn lemma_sole_detour_ends_the_move(
    board: BoardPlaces,
    place: BoardPlace,
    steps: int,
    backward_throw: Option<i8>,
)
    requires
        place.edges().len() == 1,
        place.edges()[0].kind() == EdgeKind::Detour,
        !(place.sends_back() && backward_throw is Some),
    ensures
        forward_rest(board, place, steps) == Some(place),
        spec_move_forwards(board, place, steps, backward_throw) == Some(
            (board.arrival(place, place.edges()[0].target), Some(place)),
        ),
{
    let edges = place.edges();
    assert(edges.drop_first().len() == 0);
    assert(first_of_kind(edges, EdgeKind::Detour) == Some(edges[0]));
    assert(first_of_kind(edges.drop_first(), EdgeKind::Step) is None);
    assert(first_of_kind(edges, EdgeKind::Step) is None);
}

/// A move that enters, with its last step or earlier, a square whose only
/// edge is a detour is carried on by that detour: it ends where the detour
/// leads and reports the square as the one it passed through.
pub proof fn lemma_entered_detour_is_followed(
    board: BoardPlaces,
    from: BoardPlace,
    steps: int,
    backward_throw: Option<i8>,
    entered: BoardPlace,
)
    requires
        steps >= 1,
        first_of_kind(from.edges(), EdgeKind::Step) matches Some(c) && board.spec_find_place(
            c.target,
        ) == Some(entered),
        entered.edges().len() == 1,
        entered.edges()[0].kind() == EdgeKind::Detour,
        !(entered.sends_back() && backward_throw is Some),
    ensures
        spec_move_forwards(board, from, steps, backward_throw) == Some(
            (board.arrival(entered, entered.edges()[0].target), Some(entered)),
        ),
{
    lemma_sole_detour_ends_the_move(board, entered, steps - 1, backward_throw);
}

/// A forward move never takes the entry edge of a backward move: a square
/// from which no other edge leads ends the move on the spot.
pub proof fn lemma_back_entry_is_not_taken_forwards(
    board: BoardPlaces,
    place: BoardPlace,
    steps: int,
)
    requires
        forall|i: int|
            0 <= i < place.edges().len() ==> (#[trigger] place.edges()[i]).kind()
                == EdgeKind::BackEntry,
    ensures
        forward_rest(board, place, steps) == Some(place),
{
    lemma_first_of_kind(place.edges(), EdgeKind::Step);
    lemma_first_of_kind(place.edges(), EdgeKind::Detour);
    lemma_first_of_kind(place.edges(), EdgeKind::Back);
}

/// Whether `place` is the square `origin` or one of the squares of the board.
pub open spec fn origin_or_on_board(board: BoardPlaces, origin: BoardPlace, place: BoardPlace)
    -> bool {
    place == origin || board.places@.contains(place)
}

proof fn lemma_arrival_known(board: BoardPlaces, origin: BoardPlace, from: BoardPlace, target: i32)
    requires
        origin_or_on_board(board, origin, from),
    ensures
        origin_or_on_board(board, origin, board.arrival(from, target)),
{
    lemma_find_in(board.places@, target);
}

proof fn lemma_backward_walk_known(
    board: BoardPlaces,
    origin: BoardPlace,
    from: BoardPlace,
    steps: int,
    entry: bool,
)
    requires
        origin_or_on_board(board, origin, from),
    ensures
        backward_walk(board, from, steps, entry) matches Some(p) ==> origin_or_on_board(
            board,
            origin,
            p,
        ),
    decreases steps,
{
    if steps > 0 {
        match backward_edge(from, entry) {
            None => {},
            Some(c) => {
                lemma_arrival_known(board, origin, from, c.target);
                lemma_backward_walk_known(
                    board,
                    origin,
                    board.arrival(from, c.target),
                    steps - 1,
                    false,
                );
            },
        }
    }
}

proof fn lemma_forward_rest_known(
    board: BoardPlaces,
    origin: BoardPlace,
    from: BoardPlace,
    steps: int,
)
    requires
        origin_or_on_board(board, origin, from),
    ensures
        forward_rest(board, from, steps) matches Some(p) ==> origin_or_on_board(board, origin, p),
    decreases steps,
{
    if steps > 0 {
        match forward_hop(from) {
            Hop::Advance(c) => {
                lemma_arrival_known(board, origin, from, c.target);
                lemma_forward_rest_known(board, origin, board.arrival(from, c.target), steps - 1);
            },
            Hop::Rest => {},
            Hop::Reverse => {
                lemma_backward_walk_known(board, origin, from, steps, false);
            },
            Hop::Stuck => {},
        }
    }
}

/// A move ends, and rests, on the square it started from or on a square of
/// the board: it never leaves the board.
pub proof fn lemma_move_stays_on_board(
    board: BoardPlaces,
    from: BoardPlace,
    steps: int,
    backward_throw: Option<i8>,
)
    ensures
        spec_move_forwards(board, from, steps, backward_throw) matches Some((dest, via)) ==> {
            &&& origin_or_on_board(board, from, dest)
            &&& via matches Some(v) ==> origin_or_on_board(board, from, v)
        },
        spec_move_backwards(board, from, steps) matches Some(dest) ==> origin_or_on_board(
            board,
            from,
            dest,
        ),
{
    lemma_backward_walk_known(board, from, from, steps, true);
    lemma_forward_rest_known(board, from, from, steps);
    match forward_rest(board, from, steps) {
        Some(rest) => {
            if rest.sends_back() && backward_throw is Some {
                lemma_backward_walk_known(board, from, rest, backward_throw->Some_0 as int, true);
            } else {
                match first_of_kind(rest.edges(), EdgeKind::Detour) {
                    Some(c) => {
                        lemma_arrival_known(board, from, rest, c.target);
                    },
                    None => {},
                }
            }
        },
        None => {},
    }
}

impl BoardPlace {
    /// Whether a move can go on from the square in the direction in which
    /// moves leave it: by an edge forwards, or, from a square that turns the
    /// team round, by the first step of a backward move.
    pub open spec fn has_way_on(&self) -> bool {
        ||| first_of_kind(self.edges(), EdgeKind::Step) is Some
        ||| first_of_kind(self.edges(), EdgeKind::Detour) is Some
        ||| first_of_kind(self.edges(), EdgeKind::BackEntry) is Some
    }

    fn check_way_on(&self) -> (r: bool)
        ensures
            r == self.has_way_on(),
    {
        self.first_edge(EdgeKind::Step).is_some() || self.first_edge(EdgeKind::Detour).is_some()
            || self.first_edge(EdgeKind::BackEntry).is_some()
    }
}

impl BoardPlaces {
    /// Whether no two squares of the board have the same number.
    pub open spec fn numbers_differ(&self) -> bool {
        forall|i: int, j: int|
            0 <= i < j < self.places@.len() ==> (#[trigger] self.places@[i]).place_number != (
            #[trigger] self.places@[j]).place_number
    }

    /// How many squares of the board are marked as the start.
    pub open spec fn starts(&self) -> nat {
        self.places@.filter(|p: BoardPlace| p.start).len()
    }

    /// Whether a move can go on from every square but the last.
    pub open spec fn ways_lead_on(&self) -> bool {
        forall|i: int|
            0 <= i < self.places@.len() && !(#[trigger] self.places@[i]).end
                ==> self.places@[i].has_way_on()
    }

    /// Whether the board is sound: no two squares have the same number,
    /// exactly one square is the start, and a move can go on from every
    /// square that is not an end.
    pub open spec fn well_formed(&self) -> bool {
        &&& self.numbers_differ()
        &&& self.starts() == 1
        &&& self.ways_lead_on()
    }

    fn check_numbers(&self) -> (r: bool)
        ensures
            r == self.numbers_differ(),
    {
        let mut j: usize = 0;
        while j < self.places.len()
            invariant
                0 <= j <= self.places.len(),
                forall|a: int, b: int|
                    0 <= a < b < j ==> (#[trigger] self.places@[a]).place_number != (
                    #[trigger] self.places@[b]).place_number,
            decreases self.places.len() - j,
        {
            let mut i: usize = 0;
            while i < j
                invariant
                    0 <= i <= j < self.places.len(),
                    forall|a: int|
                        0 <= a < i ==> (#[trigger] self.places@[a]).place_number
                            != self.places@[j as int].place_number,
                decreases j - i,
            {
                if self.places[i].place_number == self.places[j].place_number {
                    return false;
                }
                i += 1;
            }
            j += 1;
        }
        true
    }

    fn count_starts(&self) -> (r: usize)
        ensures
            r == self.starts(),
    {
        let ghost is_start = |p: BoardPlace| p.start;
        let mut count: usize = 0;
        let mut i: usize = 0;
        proof {
            reveal(Seq::filter);
            assert(self.places@.take(0) =~= Seq::<BoardPlace>::empty());
        }
        while i < self.places.len()
            invariant
                0 <= i <= self.places.len(),
                is_start == |p: BoardPlace| p.start,
                count == self.places@.take(i as int).filter(is_start).len(),
                count <= i,
            decreases self.places.len() - i,
        {
            proof {
                reveal(Seq::filter);
                assert(self.places@.take(i + 1).drop_last() =~= self.places@.take(i as int));
                assert(self.places@.take(i + 1).last() == self.places@[i as int]);
            }
            if self.places[i].start {
                count += 1;
            }
            i += 1;
        }
        assert(self.places@.take(i as int) =~= self.places@);
        count
    }

    fn check_ways(&self) -> (r: bool)
        ensures
            r == self.ways_lead_on(),
    {
        let mut i: usize = 0;
        while i < self.places.len()
            invariant
                0 <= i <= self.places.len(),
                forall|k: int|
                    0 <= k < i && !(#[trigger] self.places@[k]).end ==> self.places@[k].has_way_on(),
            decreases self.places.len() - i,
        {
            if !self.places[i].end && !self.places[i].check_way_on() {
                return false;
            }
            i += 1;
        }
        true
    }

    /// Checks that the board is sound.
    pub fn check_board(&self) -> (r: bool)
        ensures
            r == self.well_formed(),
    {
        self.check_numbers() && self.count_starts() == 1 && self.check_ways()
    }
}

/// On a board where no two squares have the same number, looking up the
/// number of a square of the board finds that square.
pub proof fn lemma_find_on_sound_board(board: BoardPlaces, i: int)
    requires
        board.numbers_differ(),
        0 <= i < board.places@.len(),
    ensures
        board.spec_find_place(board.places@[i].place_number) == Some(board.places@[i]),
{
    let n = board.places@[i].place_number;
    lemma_find_in(board.places@, n);
    let found = find_in(board.places@, n);
    assert(found is Some);
    let k = choose|k: int|
        0 <= k < board.places@.len() && #[trigger] board.places@[k] == found->Some_0
            && found->Some_0.place_number == n;
    if k < i {
        assert(board.places@[k].place_number != board.places@[i].place_number);
    } else if i < k {
        assert(board.places@[i].place_number != board.places@[k].place_number);
    }
}

/// The first of the squares that is marked as the start, if there is one.
pub open spec fn first_start(places: Seq<BoardPlace>) -> Option<BoardPlace>
    decreases places.len(),
{
    if places.len() == 0 {
        None
    } else if places[0].start {
        Some(places[0])
    } else {
        first_start(places.drop_first())
    }
}

impl BoardPlaces {
    /// The square on which every team starts: the first that is marked as
    /// the start. A sound board has exactly one.
    pub fn get_first_place(&self) -> (r: Option<&BoardPlace>)
        ensures
            match r {
                Some(p) => first_start(self.places@) == Some(*p) && p.start,
                None => first_start(self.places@) is None && forall|i: int|
                    0 <= i < self.places@.len() ==> !(#[trigger] self.places@[i]).start,
            },
    {
        let mut i: usize = 0;
        assert(self.places@.skip(0) =~= self.places@);
        while i < self.places.len()
            invariant
                0 <= i <= self.places.len(),
                first_start(self.places@) == first_start(self.places@.skip(i as int)),
                forall|j: int| 0 <= j < i ==> !(#[trigger] self.places@[j]).start,
            decreases self.places.len() - i,
        {
            if self.places[i].start {
                return Some(&self.places[i]);
            }
            assert(self.places@.skip(i as int).drop_first() =~= self.places@.skip(i + 1));
            i += 1;
        }
        None
    }
}

} // verus!
