//! The life of a turn: started, thrown, confirmed, mixed, delivered, ended.
//!
//! Every operation is a function of the records it is given. It reads no
//! clock and no storage: the caller loads the board, the team and the turns,
//! hands in the time, and stores what comes back. An operation that fails
//! leaves every record as it was.

use vstd::prelude::*;
use vstd::string::StringExecFns;
use crate::board::{lemma_move_stays_on_board, move_forwards, no_way_back_message, spec_move_forwards};
use crate::dice::{check_dice, check_opt_dice, dice_message, opt_die, throw_steps, throw_steps_spec, valid_die};
use crate::drinks::{derive_drinks, drink_multiplier, drinks_fit, lemma_counts_fit, spec_multiplier};
use crate::errors::AppError;
use crate::game::Game;
use crate::ids::{GameId, TeamId, TurnId};
use crate::text::{append_decimal, decimal, same_text};
use crate::types::{
    BoardPlace, BoardPlaces, ChangeDiceBody, DrinkPrepStatus, PostStartTurn, Team,
    TeamLatestTurn, Turn, TurnDrink, TurnDrinks, TurnView,
};

verus! {

/// Whether the turn is a confirmed visit of the square `place_number` in the
/// game `game_id`.
pub open spec fn is_visit(turn: Turn, game_id: GameId, place_number: i32) -> bool {
    turn.game_id == game_id && turn.location == Some(place_number) && turn.confirmed_at is Some
}

/// How many of the turns are confirmed visits of the square, whichever team
/// made them.
pub open spec fn spec_count_place_visits(turns: Seq<Turn>, game_id: GameId, place_number: i32)
    -> nat {
    turns.filter(|t: Turn| is_visit(t, game_id, place_number)).len()
}

/// Whether a team has ended a confirmed turn on the square in this game.
pub open spec fn spec_place_visited(turns: Seq<Turn>, game_id: GameId, place_number: i32)
    -> bool {
    spec_count_place_visits(turns, game_id, place_number) > 0
}

/// A square counts as visited exactly when one of the turns is a confirmed
/// visit of it.
pub proof fn lemma_place_visited(turns: Seq<Turn>, game_id: GameId, place_number: i32)
    ensures
        spec_place_visited(turns, game_id, place_number) <==> exists|i: int|
            0 <= i < turns.len() && is_visit(#[trigger] turns[i], game_id, place_number),
{
    let pred = |t: Turn| is_visit(t, game_id, place_number);
    let kept = turns.filter(pred);
    if kept.len() > 0 {
        turns.lemma_filter_pred(pred, 0);
        assert(kept.contains(kept[0]));
        turns.lemma_filter_contains_rev(pred, kept[0]);
        let i = choose|i: int| 0 <= i < turns.len() && turns[i] == kept[0];
        assert(is_visit(turns[i], game_id, place_number));
    }
    if exists|i: int| 0 <= i < turns.len() && is_visit(#[trigger] turns[i], game_id, place_number) {
        let i = choose|i: int|
            0 <= i < turns.len() && is_visit(#[trigger] turns[i], game_id, place_number);
        assert(pred(turns[i]));
        turns.lemma_filter_contains(pred, i);
    }
}

/// Counts the confirmed turns of the game that ended on the square.
pub fn count_place_visits(turns: &Vec<Turn>, game_id: GameId, place_number: i32) -> (r: usize)
    ensures
        r == spec_count_place_visits(turns@, game_id, place_number),
{
    let ghost pred = |t: Turn| is_visit(t, game_id, place_number);
    let mut count: usize = 0;
    let mut i: usize = 0;
    proof {
        reveal(Seq::filter);
        assert(turns@.take(0) =~= Seq::<Turn>::empty());
    }
    while i < turns.len()
        invariant
            0 <= i <= turns.len(),
            pred == |t: Turn| is_visit(t, game_id, place_number),
            count == turns@.take(i as int).filter(pred).len(),
            count <= i,
        decreases turns.len() - i,
    {
        let t = &turns[i];
        proof {
            reveal(Seq::filter);
            assert(turns@.take(i + 1).drop_last() =~= turns@.take(i as int));
            assert(turns@.take(i + 1).last() == *t);
        }
        let here = match t.location {
            Some(n) => n == place_number,
            None => false,
        };
        if t.game_id == game_id && here && t.confirmed_at.is_some() {
            count += 1;
        }
        i += 1;
    }
    assert(turns@.take(i as int) =~= turns@);
    count
}

/// Whether a team has ended a confirmed turn on the square in this game.
pub fn place_visited(turns: &Vec<Turn>, game_id: GameId, place_number: i32) -> (r: bool)
    ensures
        r == spec_place_visited(turns@, game_id, place_number),
{
    count_place_visits(turns, game_id, place_number) > 0
}

/// The first die of a throw that is not a legal value, if there is one: the
/// two dice of the move in their order, then the die for the way back, which
/// counts only where it is given and not zero.
pub open spec fn refused_die(dice1: i32, dice2: i32, dice_ayy: Option<i32>) -> Option<i32> {
    if !valid_die(dice1 as int) {
        Some(dice1)
    } else if !valid_die(dice2 as int) {
        Some(dice2)
    } else {
        match opt_die(dice_ayy) {
            Some(d) => if valid_die(d as int) {
                None
            } else {
                Some(d)
            },
            None => None,
        }
    }
}

/// The steps of the way back that the optional die stands for.
pub open spec fn backward_steps(dice_ayy: Option<i32>) -> Option<i8> {
    match opt_die(dice_ayy) {
        Some(d) => Some(d as i8),
        None => None,
    }
}

/// The message of the error for a team that stands nowhere.
pub open spec fn no_location_message(team_id: TeamId) -> Seq<char> {
    "Team "@ + decimal(team_id.0 as int) + " has no current location - cannot compute movement"@
}

/// What a throw comes to.
pub enum ThrowOutcome {
    /// A die is not a legal value.
    Refused(i32),
    /// The team stands nowhere.
    NoLocation,
    /// The board gives out on a way back.
    NoWayBack,
    /// The team moves to `place_after`, by way of `via` where the move was
    /// carried on, and owes `drinks`.
    Moved { place_after: BoardPlace, via: Option<BoardPlace>, drinks: Seq<TurnDrink> },
}

/// The multiplier of a throw for a team.
pub open spec fn throw_multiplier(team: Team, dice1: i32, dice2: i32) -> int {
    spec_multiplier(dice1 == dice2, team.double_tampere)
}

/// What the throw `dice1`, `dice2` comes to for a team that stands on
/// `team.location`: the dice are checked, the team moves forwards from its
/// square by the smaller of the two dice, and it owes the drinks of the
/// square it ends on, times the multiplier of the throw. `turns` are the
/// turns of the game so far: they say whether the square was visited before.
pub open spec fn spec_turn_result(
    board: BoardPlaces,
    team: TeamLatestTurn,
    turns: Seq<Turn>,
    game_id: GameId,
    dice1: i32,
    dice2: i32,
    dice_ayy: Option<i32>,
) -> ThrowOutcome {
    match refused_die(dice1, dice2, dice_ayy) {
        Some(d) => ThrowOutcome::Refused(d),
        None => match team.location {
            None => ThrowOutcome::NoLocation,
            Some(from) => match spec_move_forwards(
                board,
                *from,
                throw_steps_spec(dice1 as int, dice2 as int),
                backward_steps(dice_ayy),
            ) {
                None => ThrowOutcome::NoWayBack,
                Some((place_after, via)) => ThrowOutcome::Moved {
                    place_after,
                    via,
                    drinks: derive_drinks(
                        place_after.drinks@,
                        spec_place_visited(turns, game_id, place_after.place_number),
                        throw_multiplier(team.team, dice1, dice2) as i32,
                    ),
                },
            },
        },
    }
}

/// Whether the drinks that the throw comes to can be counted: each number of
/// portions, times the multiplier, is a number that a turn's drink can hold.
pub open spec fn throw_fits(
    board: BoardPlaces,
    team: TeamLatestTurn,
    turns: Seq<Turn>,
    game_id: GameId,
    dice1: i32,
    dice2: i32,
    dice_ayy: Option<i32>,
) -> bool {
    refused_die(dice1, dice2, dice_ayy) is None && team.location is Some ==> match spec_move_forwards(
        board,
        *team.location->Some_0,
        throw_steps_spec(dice1 as int, dice2 as int),
        backward_steps(dice_ayy),
    ) {
        None => true,
        Some((place_after, via)) => drinks_fit(
            place_after.drinks@,
            spec_place_visited(turns, game_id, place_after.place_number),
            throw_multiplier(team.team, dice1, dice2) as i32,
        ),
    }
}

/// The square that a throw moves the team to, the square it passed through on
/// a detour, and the drinks that the team owes for it.
pub struct TurnComputeResult<'a> {
    pub place_after: &'a BoardPlace,
    pub via: Option<&'a BoardPlace>,
    pub turn_drinks: TurnDrinks,
}

impl<'a> TurnComputeResult<'a> {
    /// Whether this is the result that the outcome `o` describes.
    pub open spec fn is_outcome(self, o: ThrowOutcome) -> bool {
        &&& o is Moved
        &&& *self.place_after == o->place_after
        &&& match o->via {
            Some(v) => self.via is Some && *self.via->Some_0 == v,
            None => self.via is None,
        }
        &&& self.turn_drinks@ == o->drinks
    }
}

/// Whether `e` is the error that the outcome `o` of a throw calls for.
pub open spec fn is_refusal(e: AppError, o: ThrowOutcome, team_id: TeamId) -> bool {
    match o {
        ThrowOutcome::Refused(d) => e is Validation && e.message() == dice_message(d as int),
        ThrowOutcome::NoLocation => e is NotFound && e.message() == no_location_message(team_id),
        ThrowOutcome::NoWayBack => e is NotFound && e.message() == no_way_back_message(),
        ThrowOutcome::Moved { .. } => false,
    }
}

fn no_location(team_id: TeamId) -> (e: AppError)
    ensures
        e is NotFound,
        e.message() == no_location_message(team_id),
{
    let mut m = String::from_str("Team ");
    append_decimal(&mut m, team_id.0);
    m.append(" has no current location - cannot compute movement");
    AppError::NotFound(m)
}

/// Computes where a throw takes a team and which drinks it owes there. It
/// changes nothing: what the throw comes to is stored with the turn, and
/// takes effect when the turn is confirmed.
///
/// The dice are refused unless each is a value from one to six (the die for
/// the way back may be missing or zero). The team has to stand on a square.
/// It moves by the smaller of the two dice. A double doubles the drinks, and
/// so does the team's doubling by the side area.
pub fn compute_turn_result<'a>(
    board: &'a BoardPlaces,
    turns: &Vec<Turn>,
    game_id: GameId,
    team: &TeamLatestTurn<'a>,
    dice1: i32,
    dice2: i32,
    dice_ayy: Option<i32>,
) -> (r: Result<TurnComputeResult<'a>, AppError>)
    requires
        throw_fits(*board, *team, turns@, game_id, dice1, dice2, dice_ayy),
    ensures
        match r {
            Ok(res) => res.is_outcome(
                spec_turn_result(*board, *team, turns@, game_id, dice1, dice2, dice_ayy),
            ),
            Err(e) => is_refusal(
                e,
                spec_turn_result(*board, *team, turns@, game_id, dice1, dice2, dice_ayy),
                team.team.team_id,
            ),
        },
{
    let d1 = match check_dice(dice1) {
        Ok(d) => d,
        Err(e) => {
            return Err(e);
        },
    };
    let d2 = match check_dice(dice2) {
        Ok(d) => d,
        Err(e) => {
            return Err(e);
        },
    };
    let back = match check_opt_dice(dice_ayy) {
        Ok(Some(d)) => Some(d as i8),
        Ok(None) => None,
        Err(e) => {
            return Err(e);
        },
    };
    let multiplier = drink_multiplier(d1 == d2, team.team.double_tampere);
    let current_place = match team.location {
        Some(p) => p,
        None => {
            return Err(no_location(team.team.team_id));
        },
    };
    let (place_after, via) = match move_forwards(current_place, board, throw_steps(d1, d2), back) {
        Ok(moved) => moved,
        Err(e) => {
            return Err(e);
        },
    };
    let visited = place_visited(turns, game_id, place_after.place_number);
    let turn_drinks = place_after.drinks.to_turn_drinks(visited, multiplier);
    Ok(TurnComputeResult { place_after, via, turn_drinks })
}

/// The number of the square, where there is one.
pub open spec fn number_of(place: Option<BoardPlace>) -> Option<i32> {
    match place {
        Some(p) => Some(p.place_number),
        None => None,
    }
}

/// The time stamp that is kept where one is set, and `now` where none is.
pub open spec fn kept_or(stamp: Option<i64>, now: i64) -> Option<i64> {
    match stamp {
        Some(t) => Some(t),
        None => Some(now),
    }
}

fn keep_or(stamp: Option<i64>, now: i64) -> (r: Option<i64>)
    ensures
        r == kept_or(stamp, now),
{
    match stamp {
        Some(t) => Some(t),
        None => Some(now),
    }
}

/// A turn as it is when it starts: nothing thrown, nothing owed.
pub open spec fn new_turn(data: PostStartTurn, turn_id: TurnId, now: i64) -> TurnView {
    TurnView {
        turn_id,
        team_id: data.team_id,
        game_id: data.game_id,
        start_time: now,
        thrown_at: None,
        confirmed_at: None,
        mixing_at: None,
        mixed_at: None,
        delivered_at: None,
        end_time: None,
        dice1: data.dice1,
        dice2: data.dice2,
        dice_ayy: opt_die(data.dice_ayy),
        location: None,
        via: None,
        penalty: data.penalty,
        drinks: Seq::empty(),
    }
}

/// The turn `t` with a throw and what the throw comes to. The time of the
/// throw is set where the turn has none; square, detour and drinks are
/// replaced.
pub open spec fn with_throw(
    t: TurnView,
    dice1: i32,
    dice2: i32,
    dice_ayy: Option<i32>,
    outcome: ThrowOutcome,
    now: i64,
) -> TurnView
    recommends
        outcome is Moved,
{
    TurnView {
        thrown_at: kept_or(t.thrown_at, now),
        dice1: Some(dice1),
        dice2: Some(dice2),
        dice_ayy: opt_die(dice_ayy),
        location: Some(outcome->place_after.place_number),
        via: number_of(outcome->via),
        drinks: outcome->drinks,
        ..t
    }
}

/// The first of the dice of a request to start a turn that is given and is
/// not a legal value.
pub open spec fn refused_start_die(data: PostStartTurn) -> Option<i32> {
    if data.dice1 is Some && !valid_die(data.dice1->Some_0 as int) {
        data.dice1
    } else if data.dice2 is Some && !valid_die(data.dice2->Some_0 as int) {
        data.dice2
    } else {
        match opt_die(data.dice_ayy) {
            Some(d) => if valid_die(d as int) {
                None
            } else {
                Some(d)
            },
            None => None,
        }
    }
}

/// Whether the request to start a turn brings a throw: both dice.
pub open spec fn has_throw(data: PostStartTurn) -> bool {
    data.dice1 is Some && data.dice2 is Some
}

/// What starting a turn comes to: the throw's outcome where the request
/// brings a throw, and else only the checks that every start makes.
pub open spec fn start_outcome(
    board: BoardPlaces,
    team: TeamLatestTurn,
    turns: Seq<Turn>,
    data: PostStartTurn,
) -> Option<ThrowOutcome> {
    match refused_start_die(data) {
        Some(d) => Some(ThrowOutcome::Refused(d)),
        None => if team.location is None {
            Some(ThrowOutcome::NoLocation)
        } else if has_throw(data) {
            Some(
                spec_turn_result(
                    board,
                    team,
                    turns,
                    data.game_id,
                    data.dice1->Some_0,
                    data.dice2->Some_0,
                    data.dice_ayy,
                ),
            )
        } else {
            None
        },
    }
}

/// Starts a turn for a team, with or without a throw.
///
/// Each die that is given has to be a legal value, and the team has to stand
/// on a square. With both dice the turn holds the throw and what it comes
/// to: the square, the detour and the drinks, as a proposal that only the
/// confirmation puts into effect. Nothing else changes: not the team, not
/// the game.
pub fn process_start_turn(
    board: &BoardPlaces,
    turns: &Vec<Turn>,
    team: &TeamLatestTurn,
    turn_start_data: PostStartTurn,
    turn_id: TurnId,
    now: i64,
) -> (r: Result<Turn, AppError>)
    requires
        has_throw(turn_start_data) ==> throw_fits(
            *board,
            *team,
            turns@,
            turn_start_data.game_id,
            turn_start_data.dice1->Some_0,
            turn_start_data.dice2->Some_0,
            turn_start_data.dice_ayy,
        ),
    ensures
        match start_outcome(*board, *team, turns@, turn_start_data) {
            None => r is Ok && r->Ok_0@ == new_turn(turn_start_data, turn_id, now),
            Some(o) => if o is Moved {
                r is Ok && r->Ok_0@ == with_throw(
                    new_turn(turn_start_data, turn_id, now),
                    turn_start_data.dice1->Some_0,
                    turn_start_data.dice2->Some_0,
                    turn_start_data.dice_ayy,
                    o,
                    now,
                )
            } else {
                r is Err && is_refusal(r->Err_0, o, team.team.team_id)
            },
        },
{
    if let Some(d) = turn_start_data.dice1 {
        if let Err(e) = check_dice(d) {
            return Err(e);
        }
    }
    if let Some(d) = turn_start_data.dice2 {
        if let Err(e) = check_dice(d) {
            return Err(e);
        }
    }
    let dice_ayy = match check_opt_dice(turn_start_data.dice_ayy) {
        Ok(d) => d,
        Err(e) => {
            return Err(e);
        },
    };
    if team.location.is_none() {
        return Err(no_location(team.team.team_id));
    }
    let mut turn = Turn {
        turn_id,
        team_id: turn_start_data.team_id,
        game_id: turn_start_data.game_id,
        start_time: now,
        thrown_at: None,
        confirmed_at: None,
        mixing_at: None,
        mixed_at: None,
        delivered_at: None,
        end_time: None,
        dice1: turn_start_data.dice1,
        dice2: turn_start_data.dice2,
        dice_ayy,
        location: None,
        via: None,
        penalty: turn_start_data.penalty,
        drinks: TurnDrinks { drinks: Vec::new() },
    };
    if let (Some(dice1), Some(dice2)) = (turn_start_data.dice1, turn_start_data.dice2) {
        let result = match compute_turn_result(
            board,
            turns,
            turn_start_data.game_id,
            team,
            dice1,
            dice2,
            turn_start_data.dice_ayy,
        ) {
            Ok(res) => res,
            Err(e) => {
                return Err(e);
            },
        };
        turn.thrown_at = Some(now);
        turn.location = Some(result.place_after.place_number);
        turn.via = match result.via {
            Some(v) => Some(v.place_number),
            None => None,
        };
        turn.drinks = result.turn_drinks;
    }
    Ok(turn)
}

/// The message of the error for a throw on a turn that is confirmed.
pub open spec fn confirmed_dice_message() -> Seq<char> {
    "Cannot change the dice of a confirmed turn"@
}

/// Replaces the throw of a turn that is not confirmed yet.
///
/// The new throw is worked out from the square that the team stands on, not
/// from what the turn held before, and square, detour and drinks of the turn
/// are replaced by what it comes to. A turn that is confirmed is refused, and
/// so is a die that is not a legal value. A refused request leaves the turn
/// as it was.
pub fn process_change_dice(
    board: &BoardPlaces,
    turns: &Vec<Turn>,
    team: &TeamLatestTurn,
    turn: &mut Turn,
    dice: ChangeDiceBody,
    now: i64,
) -> (r: Result<(), AppError>)
    requires
        old(turn).confirmed_at is None ==> throw_fits(
            *board,
            *team,
            turns@,
            old(turn).game_id,
            dice.dice1,
            dice.dice2,
            dice.dice_ayy,
        ),
    ensures
        old(turn).confirmed_at is Some ==> r is Err && r->Err_0 is Validation
            && r->Err_0.message() == confirmed_dice_message(),
        old(turn).confirmed_at is None ==> ({
            let o = spec_turn_result(
                *board,
                *team,
                turns@,
                old(turn).game_id,
                dice.dice1,
                dice.dice2,
                dice.dice_ayy,
            );
            if o is Moved {
                r is Ok && final(turn)@ == with_throw(
                    old(turn)@,
                    dice.dice1,
                    dice.dice2,
                    dice.dice_ayy,
                    o,
                    now,
                )
            } else {
                r is Err && is_refusal(r->Err_0, o, team.team.team_id)
            }
        }),
        r is Err ==> *final(turn) == *old(turn),
{
    if turn.confirmed_at.is_some() {
        return Err(
            AppError::Validation(String::from_str("Cannot change the dice of a confirmed turn")),
        );
    }
    let result = match compute_turn_result(
        board,
        turns,
        turn.game_id,
        team,
        dice.dice1,
        dice.dice2,
        dice.dice_ayy,
    ) {
        Ok(res) => res,
        Err(e) => {
            return Err(e);
        },
    };
    let dice_ayy = match dice.dice_ayy {
        Some(d) => if d == 0 {
            None
        } else {
            Some(d)
        },
        None => None,
    };
    turn.dice1 = Some(dice.dice1);
    turn.dice2 = Some(dice.dice2);
    turn.dice_ayy = dice_ayy;
    turn.thrown_at = keep_or(turn.thrown_at, now);
    turn.location = Some(result.place_after.place_number);
    turn.via = match result.via {
        Some(v) => Some(v.place_number),
        None => None,
    };
    turn.drinks = result.turn_drinks;
    Ok(())
}

/// Changing the dice twice to the same throw is the same as changing them
/// once, whatever the time of the second change.
pub proof fn lemma_change_dice_is_idempotent(
    t: TurnView,
    dice1: i32,
    dice2: i32,
    dice_ayy: Option<i32>,
    outcome: ThrowOutcome,
    first: i64,
    second: i64,
)
    requires
        outcome is Moved,
    ensures
        with_throw(
            with_throw(t, dice1, dice2, dice_ayy, outcome, first),
            dice1,
            dice2,
            dice_ayy,
            outcome,
            second,
        ) == with_throw(t, dice1, dice2, dice_ayy, outcome, first),
{
}

/// Whether the bar has to mix the drink: it is not handed out as it is, and
/// more portions are owed than stand on the table.
pub open spec fn needs_mixing(drink: TurnDrink) -> bool {
    !drink.drink.no_mix_required && drink.on_table < drink.n
}

/// Whether the bar has to mix any of the drinks.
pub open spec fn any_needs_mixing(drinks: Seq<TurnDrink>) -> bool {
    exists|i: int| 0 <= i < drinks.len() && needs_mixing(#[trigger] drinks[i])
}

/// Whether the bar has to mix any of the drinks.
pub fn requires_mixing(drinks: &TurnDrinks) -> (r: bool)
    ensures
        r == any_needs_mixing(drinks@),
{
    let mut i: usize = 0;
    while i < drinks.drinks.len()
        invariant
            0 <= i <= drinks.drinks.len(),
            forall|j: int| 0 <= j < i ==> !needs_mixing(#[trigger] drinks@[j]),
        decreases drinks.drinks.len() - i,
    {
        let d = &drinks.drinks[i];
        if !d.drink.no_mix_required && d.on_table < d.n {
            assert(needs_mixing(drinks@[i as int]));
            return true;
        }
        i += 1;
    }
    false
}

/// The turn `t` confirmed at `now` with the drinks that the referee settled
/// on. The drinks replace those of the turn. The time of the throw is set
/// where the turn has none. Where no drink has to be mixed, the turn counts
/// as mixed at once.
pub open spec fn confirmed(t: TurnView, drinks: Seq<TurnDrink>, now: i64) -> TurnView {
    TurnView {
        thrown_at: kept_or(t.thrown_at, now),
        confirmed_at: Some(now),
        mixing_at: if any_needs_mixing(drinks) {
            t.mixing_at
        } else {
            Some(now)
        },
        mixed_at: if any_needs_mixing(drinks) {
            t.mixed_at
        } else {
            Some(now)
        },
        drinks,
        ..t
    }
}

/// The turn `t` ended at `now`.
pub open spec fn ended(t: TurnView, now: i64) -> TurnView {
    TurnView { end_time: Some(now), ..t }
}

/// Whether the team's drinks are doubled by the side area after a confirmed
/// move: a double that takes the team from the area `normal` into the area
/// `tampere` switches the doubling on; else a move that ends in the area
/// `normal` switches it off; any other move leaves it as it is.
pub open spec fn area_double_after(
    active: bool,
    area_before: Seq<char>,
    area_after: Seq<char>,
    double: bool,
) -> bool {
    if area_before == "normal"@ && area_after == "tampere"@ && double {
        true
    } else if area_after == "normal"@ && active {
        false
    } else {
        active
    }
}

/// A double from the area `normal` into the area `tampere` switches the
/// doubling on, whatever it was.
pub proof fn lemma_double_into_side_area(active: bool)
    ensures
        area_double_after(active, "normal"@, "tampere"@, true),
{
}

/// A move that ends in the area `normal` switches the doubling off, wherever
/// it started and whatever the dice were.
pub proof fn lemma_back_to_normal(active: bool, area_before: Seq<char>, double: bool)
    ensures
        !area_double_after(active, area_before, "normal"@, double),
{
    reveal_strlit("normal");
    reveal_strlit("tampere");
    assert("normal"@.len() != "tampere"@.len());
}

/// The doubling that a double into the side area switched on is switched off
/// by the next confirmed move that ends in the area `normal`, whatever its
/// dice.
pub proof fn lemma_area_double_round_trip(active: bool, area_between: Seq<char>, double: bool)
    ensures
        !area_double_after(
            area_double_after(active, "normal"@, "tampere"@, true),
            area_between,
            "normal"@,
            double,
        ),
{
    lemma_back_to_normal(true, area_between, double);
}

/// What a confirmation did beyond the turn and the team.
#[derive(Clone, Copy, Debug)]
pub struct ConfirmEffects {
    /// The turn ended on the last square: the game is over.
    pub game_ended: bool,
    /// The turn owes no drink and was ended at once: what else the team has
    /// open is to be ended with it.
    pub turn_ended: bool,
}

/// Why a turn cannot be confirmed, if it cannot.
pub enum ConfirmRefusal {
    /// The turn has no throw or no square yet.
    NotThrown,
    /// The team stands nowhere.
    NoPlaceBefore,
    /// The board has no square with the number that the turn ends on.
    NoPlaceAfter,
}

/// Why the turn cannot be confirmed, if it cannot: the checks in the order in
/// which they are made.
pub open spec fn confirm_refusal(
    board: BoardPlaces,
    place_before: Option<BoardPlace>,
    t: TurnView,
) -> Option<ConfirmRefusal> {
    if t.location is None || t.dice1 is None || t.dice2 is None {
        Some(ConfirmRefusal::NotThrown)
    } else if place_before is None {
        Some(ConfirmRefusal::NoPlaceBefore)
    } else if board.spec_find_place(t.location->Some_0) is None {
        Some(ConfirmRefusal::NoPlaceAfter)
    } else {
        None
    }
}

/// The message of the error for each reason not to confirm a turn.
pub open spec fn confirm_refusal_message(why: ConfirmRefusal) -> Seq<char> {
    match why {
        ConfirmRefusal::NotThrown => "Turn must have location and dice to be confirmed"@,
        ConfirmRefusal::NoPlaceBefore => "Team must have a location before confirming turn"@,
        ConfirmRefusal::NoPlaceAfter => "Turn location is not a place of the board"@,
    }
}

/// Whether `e` is the error for the reason `why` not to confirm a turn: a
/// turn without a throw and a team without a square are the caller's
/// mistake, a square that the board lacks is a gap in the board.
pub open spec fn is_confirm_refusal(e: AppError, why: ConfirmRefusal) -> bool {
    &&& e.message() == confirm_refusal_message(why)
    &&& match why {
        ConfirmRefusal::NotThrown => e is Validation,
        ConfirmRefusal::NoPlaceBefore => e is Validation,
        ConfirmRefusal::NoPlaceAfter => e is NotFound,
    }
}

/// Whether confirming a turn that ends on `place_after` with `drinks` ends
/// the turn at once: it owes no drink, and the game goes on.
pub open spec fn ends_at_once(place_after: BoardPlace, drinks: Seq<TurnDrink>) -> bool {
    drinks.len() == 0 && !place_after.end
}

/// Confirms a turn with the drinks that the referee settled on.
///
/// The turn needs both dice and the square it ends on, the team the square
/// it stood on (`place_before`), and the board the square that the turn ends
/// on. A turn that is refused changes nothing. Else:
/// - the turn is confirmed at `now`, and `drinks` replace its drinks;
/// - where no drink has to be mixed, the turn counts as mixed at once;
/// - the team's doubling by the side area is switched as
///   `area_double_after` says;
/// - where the square is the last of the board, the game is finished, and
///   the turn is not ended;
/// - else, where the turn owes no drink, it is ended at once.
pub fn process_confirm_turn(
    board: &BoardPlaces,
    game: &mut Game,
    team: &mut Team,
    place_before: Option<&BoardPlace>,
    turn: &mut Turn,
    drinks: TurnDrinks,
    now: i64,
) -> (r: Result<ConfirmEffects, AppError>)
    ensures
        match confirm_refusal(
            *board,
            match place_before {
                Some(p) => Some(*p),
                None => None,
            },
            old(turn)@,
        ) {
            Some(why) => {
                &&& r is Err
                &&& is_confirm_refusal(r->Err_0, why)
                &&& *final(turn) == *old(turn)
                &&& *final(team) == *old(team)
                &&& *final(game) == *old(game)
            },
            None => {
                let place_after = board.spec_find_place(old(turn).location->Some_0)->Some_0;
                let at_once = ends_at_once(place_after, drinks@);
                &&& r is Ok
                &&& r->Ok_0.game_ended == place_after.end
                &&& r->Ok_0.turn_ended == at_once
                &&& *final(game) == (Game {
                    finished: old(game).finished || place_after.end,
                    ..*old(game)
                })
                &&& final(turn)@ == if at_once {
                    ended(confirmed(old(turn)@, drinks@, now), now)
                } else {
                    confirmed(old(turn)@, drinks@, now)
                }
                &&& *final(team) == (Team {
                    double_tampere: area_double_after(
                        old(team).double_tampere,
                        place_before->Some_0.area@,
                        place_after.area@,
                        old(turn).dice1 == old(turn).dice2,
                    ),
                    ..*old(team)
                })
            },
        },
{
    let (location, dice1, dice2) = match (turn.location, turn.dice1, turn.dice2) {
        (Some(location), Some(dice1), Some(dice2)) => (location, dice1, dice2),
        _ => {
            return Err(
                AppError::Validation(
                    String::from_str("Turn must have location and dice to be confirmed"),
                ),
            );
        },
    };
    let place_before = match place_before {
        Some(p) => p,
        None => {
            return Err(
                AppError::Validation(
                    String::from_str("Team must have a location before confirming turn"),
                ),
            );
        },
    };
    let place_after = match board.find_place(location) {
        Some(p) => p,
        None => {
            return Err(
                AppError::NotFound(String::from_str("Turn location is not a place of the board")),
            );
        },
    };
    let mixing = requires_mixing(&drinks);
    let empty = drinks.drinks.len() == 0;
    turn.thrown_at = keep_or(turn.thrown_at, now);
    turn.confirmed_at = Some(now);
    turn.drinks = drinks;
    if !mixing {
        turn.mixing_at = Some(now);
        turn.mixed_at = Some(now);
    }
    let is_double = dice1 == dice2;
    if same_text(&place_before.area, "normal") && same_text(&place_after.area, "tampere")
        && is_double {
        team.double_tampere = true;
    } else if same_text(&place_after.area, "normal") && team.double_tampere {
        team.double_tampere = false;
    }
    if place_after.end {
        game.finished = true;
    }
    let turn_ended = empty && !place_after.end;
    if turn_ended {
        turn.end_time = Some(now);
    }
    Ok(ConfirmEffects { game_ended: place_after.end, turn_ended })
}

/// Why a penalty cannot be confirmed, if it cannot: the turn is no penalty,
/// or no drink is handed out.
pub open spec fn penalty_refusal_message(t: TurnView, drinks: Seq<TurnDrink>) -> Option<
    Seq<char>,
> {
    if !t.penalty {
        Some("Turn is not a penalty turn"@)
    } else if drinks.len() == 0 {
        Some("Penalty turn must have drinks assigned"@)
    } else {
        None
    }
}

/// Confirms a penalty: a turn that moves nobody and only hands out drinks.
///
/// The turn has to be a penalty and `drinks` must not be empty; a request
/// that is refused changes nothing. The turn is confirmed at `now`, which is
/// also the time of its throw if it has none, `drinks` replace its drinks,
/// and where none has to be mixed the turn counts as mixed at once. Neither
/// the team nor the game changes.
pub fn process_confirm_penalty(turn: &mut Turn, drinks: TurnDrinks, now: i64) -> (r: Result<
    (),
    AppError,
>)
    ensures
        match penalty_refusal_message(old(turn)@, drinks@) {
            Some(m) => {
                &&& r is Err
                &&& r->Err_0 is Validation
                &&& r->Err_0.message() == m
                &&& *final(turn) == *old(turn)
            },
            None => r is Ok && final(turn)@ == confirmed(old(turn)@, drinks@, now),
        },
{
    if !turn.penalty {
        return Err(AppError::Validation(String::from_str("Turn is not a penalty turn")));
    }
    if drinks.drinks.len() == 0 {
        return Err(
            AppError::Validation(String::from_str("Penalty turn must have drinks assigned")),
        );
    }
    let mixing = requires_mixing(&drinks);
    turn.thrown_at = keep_or(turn.thrown_at, now);
    turn.confirmed_at = Some(now);
    turn.drinks = drinks;
    if !mixing {
        turn.mixing_at = Some(now);
        turn.mixed_at = Some(now);
    }
    Ok(())
}

/// The turn `t` after the bar reported `status` at `now`. `Queued` clears the
/// three time stamps of the bar. Each other status sets its own time stamp
/// and fills in those of the steps before it where they are missing.
pub open spec fn with_prep_status(t: TurnView, status: DrinkPrepStatus, now: i64) -> TurnView {
    match status {
        DrinkPrepStatus::Queued => TurnView {
            mixing_at: None,
            mixed_at: None,
            delivered_at: None,
            ..t
        },
        DrinkPrepStatus::Mixing => TurnView { mixing_at: Some(now), ..t },
        DrinkPrepStatus::Mixed => TurnView {
            mixing_at: kept_or(t.mixing_at, now),
            mixed_at: Some(now),
            ..t
        },
        DrinkPrepStatus::Delivered => TurnView {
            mixing_at: kept_or(t.mixing_at, now),
            mixed_at: kept_or(t.mixed_at, now),
            delivered_at: Some(now),
            ..t
        },
    }
}

/// Whether the time stamps of the turn are filled in their order: a turn
/// that is confirmed was thrown, a turn that is mixed was being mixed, and a
/// turn that is delivered is mixed.
pub open spec fn stamps_in_order(t: TurnView) -> bool {
    &&& t.confirmed_at is Some ==> t.thrown_at is Some
    &&& t.mixed_at is Some ==> t.mixing_at is Some
    &&& t.delivered_at is Some ==> t.mixed_at is Some
}

/// Records how far the bar is with the drinks of a turn.
pub fn set_drink_prep_status(turn: &mut Turn, status: DrinkPrepStatus, now: i64)
    ensures
        final(turn)@ == with_prep_status(old(turn)@, status, now),
        stamps_in_order(old(turn)@) ==> stamps_in_order(final(turn)@),
{
    match status {
        DrinkPrepStatus::Queued => {
            turn.mixing_at = None;
            turn.mixed_at = None;
            turn.delivered_at = None;
        },
        DrinkPrepStatus::Mixing => {
            turn.mixing_at = Some(now);
        },
        DrinkPrepStatus::Mixed => {
            turn.mixing_at = keep_or(turn.mixing_at, now);
            turn.mixed_at = Some(now);
        },
        DrinkPrepStatus::Delivered => {
            turn.mixing_at = keep_or(turn.mixing_at, now);
            turn.mixed_at = keep_or(turn.mixed_at, now);
            turn.delivered_at = Some(now);
        },
    }
}

/// A turn starts with its time stamps in order, and every operation on a
/// turn keeps them so.
pub proof fn lemma_stamps_stay_in_order(
    t: TurnView,
    data: PostStartTurn,
    turn_id: TurnId,
    dice1: i32,
    dice2: i32,
    dice_ayy: Option<i32>,
    outcome: ThrowOutcome,
    drinks: Seq<TurnDrink>,
    status: DrinkPrepStatus,
    now: i64,
)
    requires
        stamps_in_order(t),
    ensures
        stamps_in_order(new_turn(data, turn_id, now)),
        stamps_in_order(with_throw(t, dice1, dice2, dice_ayy, outcome, now)),
        stamps_in_order(confirmed(t, drinks, now)),
        stamps_in_order(ended(t, now)),
        stamps_in_order(with_prep_status(t, status, now)),
{
}

/// Whether `i` is the place of the first turn with the id `turn_id`.
pub open spec fn is_first_with_id(turns: Seq<Turn>, turn_id: TurnId, i: int) -> bool {
    &&& 0 <= i < turns.len()
    &&& turns[i].turn_id == turn_id
    &&& forall|j: int| 0 <= j < i ==> (#[trigger] turns[j]).turn_id != turn_id
}

/// Whether one of the turns has the id `turn_id`.
pub open spec fn has_turn(turns: Seq<Turn>, turn_id: TurnId) -> bool {
    exists|i: int| 0 <= i < turns.len() && (#[trigger] turns[i]).turn_id == turn_id
}

/// The message of the error for a turn that is not there.
pub open spec fn no_turn_message() -> Seq<char> {
    "Turn not found"@
}

/// The message of the error for cancelling a turn that is confirmed.
pub open spec fn cancel_confirmed_message() -> Seq<char> {
    "Cannot cancel a confirmed turn"@
}

/// Cancels a turn: takes it out of `turns` for good, and returns it.
///
/// Only a turn that is not confirmed can be cancelled: a confirmed turn is
/// history. A request that is refused, for a confirmed turn or for one that
/// is not among `turns`, leaves `turns` as they were.
pub fn cancel_turn(turns: &mut Vec<Turn>, turn_id: TurnId) -> (r: Result<Turn, AppError>)
    ensures
        !has_turn(old(turns)@, turn_id) ==> {
            &&& r is Err
            &&& r->Err_0 is NotFound
            &&& r->Err_0.message() == no_turn_message()
        },
        has_turn(old(turns)@, turn_id) ==> exists|i: int| is_first_with_id(old(turns)@, turn_id, i),
        forall|i: int| #[trigger]
            is_first_with_id(old(turns)@, turn_id, i) ==> if old(turns)@[i].confirmed_at is Some {
                &&& r is Err
                &&& r->Err_0 is Validation
                &&& r->Err_0.message() == cancel_confirmed_message()
            } else {
                &&& r is Ok
                &&& r->Ok_0 == old(turns)@[i]
                &&& final(turns)@ == old(turns)@.remove(i)
            },
        r is Err ==> *final(turns) == *old(turns),
{
    let mut i: usize = 0;
    while i < turns.len()
        invariant
            0 <= i <= turns.len(),
            *turns == *old(turns),
            forall|j: int| 0 <= j < i ==> (#[trigger] turns@[j]).turn_id != turn_id,
        decreases turns.len() - i,
    {
        if turns[i].turn_id == turn_id {
            assert(is_first_with_id(turns@, turn_id, i as int));
            assert forall|k: int| #[trigger] is_first_with_id(turns@, turn_id, k) implies k
                == i by {}
            if turns[i].confirmed_at.is_some() {
                return Err(AppError::Validation(String::from_str("Cannot cancel a confirmed turn")));
            }
            let removed = turns.remove(i);
            return Ok(removed);
        }
        i += 1;
    }
    assert forall|k: int| !#[trigger] is_first_with_id(turns@, turn_id, k) by {}
    Err(AppError::NotFound(String::from_str("Turn not found")))
}

/// Whether the turn is a turn of the team in the game that has not ended.
pub open spec fn is_open_turn(turn: Turn, team_id: TeamId, game_id: GameId) -> bool {
    turn.team_id == team_id && turn.game_id == game_id && turn.end_time is None
}

/// Whether the team has a turn in the game that has not ended.
pub open spec fn has_open_turn(turns: Seq<Turn>, team_id: TeamId, game_id: GameId) -> bool {
    exists|i: int| 0 <= i < turns.len() && is_open_turn(#[trigger] turns[i], team_id, game_id)
}

/// The message of the error for ending the turn of a team that has none.
pub open spec fn no_open_turn_message() -> Seq<char> {
    "No active turn found for the team"@
}

/// Ends the turns of a team that are still open: the players raised their
/// hands. Each open turn of the team in the game gets `now` as the time of
/// its end, and nothing else changes. The request fails, and changes
/// nothing, where the team has no open turn. Returns how many turns ended.
pub fn end_turn(turns: &mut Vec<Turn>, team_id: TeamId, game_id: GameId, now: i64) -> (r: Result<
    usize,
    AppError,
>)
    ensures
        !has_open_turn(old(turns)@, team_id, game_id) ==> {
            &&& r is Err
            &&& r->Err_0 is NotFound
            &&& r->Err_0.message() == no_open_turn_message()
            &&& *final(turns) == *old(turns)
        },
        has_open_turn(old(turns)@, team_id, game_id) ==> {
            &&& r is Ok
            &&& r->Ok_0 == old(turns)@.filter(|t: Turn| is_open_turn(t, team_id, game_id)).len()
            &&& final(turns)@.len() == old(turns)@.len()
            &&& forall|i: int|
                0 <= i < old(turns)@.len() ==> (#[trigger] final(turns)@[i])@ == if is_open_turn(
                    old(turns)@[i],
                    team_id,
                    game_id,
                ) {
                    ended(old(turns)@[i]@, now)
                } else {
                    old(turns)@[i]@
                }
        },
{
    let ghost open = |t: Turn| is_open_turn(t, team_id, game_id);
    let mut count: usize = 0;
    let mut i: usize = 0;
    proof {
        reveal(Seq::filter);
        assert(turns@.take(0) =~= Seq::<Turn>::empty());
    }
    while i < turns.len()
        invariant
            0 <= i <= turns.len(),
            turns@.len() == old(turns)@.len(),
            open == |t: Turn| is_open_turn(t, team_id, game_id),
            count == old(turns)@.take(i as int).filter(open).len(),
            count <= i,
            count == 0 ==> *turns == *old(turns),
            count == 0 <==> forall|j: int|
                0 <= j < i ==> !is_open_turn(#[trigger] old(turns)@[j], team_id, game_id),
            forall|j: int| i <= j < turns.len() ==> (#[trigger] turns@[j]) == old(turns)@[j],
            forall|j: int|
                0 <= j < i ==> (#[trigger] turns@[j])@ == if is_open_turn(
                    old(turns)@[j],
                    team_id,
                    game_id,
                ) {
                    ended(old(turns)@[j]@, now)
                } else {
                    old(turns)@[j]@
                },
        decreases turns.len() - i,
    {
        proof {
            reveal(Seq::filter);
            assert(old(turns)@.take(i + 1).drop_last() =~= old(turns)@.take(i as int));
            assert(old(turns)@.take(i + 1).last() == old(turns)@[i as int]);
        }
        if turns[i].team_id == team_id && turns[i].game_id == game_id && turns[i].end_time.is_none() {
            turns[i].end_time = Some(now);
            count += 1;
        }
        i += 1;
    }
    assert(old(turns)@.take(i as int) =~= old(turns)@);
    if count == 0 {
        Err(AppError::NotFound(String::from_str("No active turn found for the team")))
    } else {
        Ok(count)
    }
}

impl BoardPlaces {
    /// Whether the drinks of every square fit with every multiplier that a
    /// throw can have.
    pub open spec fn counts_fit(&self) -> bool {
        forall|i: int| 0 <= i < self.places@.len() ==> (#[trigger] self.places@[i]).drinks.counts_fit()
    }

    /// Checks that the drinks of every square can be counted for every
    /// throw.
    pub fn check_counts(&self) -> (r: bool)
        ensures
            r == self.counts_fit(),
    {
        let mut i: usize = 0;
        while i < self.places.len()
            invariant
                0 <= i <= self.places.len(),
                forall|j: int| 0 <= j < i ==> (#[trigger] self.places@[j]).drinks.counts_fit(),
            decreases self.places.len() - i,
        {
            if !self.places[i].drinks.check_counts() {
                return false;
            }
            i += 1;
        }
        true
    }
}

/// On a board whose drinks all fit, for a team whose square's drinks fit,
/// the drinks of every throw can be counted.
pub proof fn lemma_throw_fits(
    board: BoardPlaces,
    team: TeamLatestTurn,
    turns: Seq<Turn>,
    game_id: GameId,
    dice1: i32,
    dice2: i32,
    dice_ayy: Option<i32>,
)
    requires
        board.counts_fit(),
        team.location matches Some(place) ==> place.drinks.counts_fit(),
    ensures
        throw_fits(board, team, turns, game_id, dice1, dice2, dice_ayy),
{
    if team.location is Some {
        let from = *team.location->Some_0;
        let steps = throw_steps_spec(dice1 as int, dice2 as int);
        lemma_move_stays_on_board(board, from, steps, backward_steps(dice_ayy));
        match spec_move_forwards(board, from, steps, backward_steps(dice_ayy)) {
            Some((place_after, via)) => {
                if place_after != from {
                    let i = choose|i: int|
                        0 <= i < board.places@.len() && board.places@[i] == place_after;
                    assert(board.places@[i].drinks.counts_fit());
                }
                lemma_counts_fit(
                    place_after.drinks,
                    spec_place_visited(turns, game_id, place_after.place_number),
                    dice1 == dice2,
                    team.team.double_tampere,
                );
            },
            None => {},
        }
    }
}

/// Whether the turn is a confirmed turn of the team in the game that ended
/// on a square: a turn that says where the team stands.
pub open spec fn is_located(turn: Turn, team_id: TeamId, game_id: GameId) -> bool {
    &&& turn.team_id == team_id
    &&& turn.game_id == game_id
    &&& turn.confirmed_at is Some
    &&& turn.location is Some
}

/// Whether `i` is the place of the team's latest turn that says where it
/// stands: the one with the greatest id, and of several with that id the
/// first.
pub open spec fn is_latest_located(turns: Seq<Turn>, team_id: TeamId, game_id: GameId, i: int)
    -> bool {
    &&& 0 <= i < turns.len()
    &&& is_located(turns[i], team_id, game_id)
    &&& forall|j: int|
        0 <= j < turns.len() && is_located(#[trigger] turns[j], team_id, game_id)
            ==> turns[j].turn_id.0 <= turns[i].turn_id.0
    &&& forall|j: int|
        0 <= j < i && is_located(#[trigger] turns[j], team_id, game_id) ==> turns[j].turn_id.0
            < turns[i].turn_id.0
}

/// Whether the team has a turn that says where it stands.
pub open spec fn has_located(turns: Seq<Turn>, team_id: TeamId, game_id: GameId) -> bool {
    exists|i: int| 0 <= i < turns.len() && is_located(#[trigger] turns[i], team_id, game_id)
}

/// Finds where a team stands: its latest confirmed turn that ended on a
/// square, and that square on the board.
///
/// The latest turn is the one with the greatest id among the confirmed turns
/// of the team in its game that have a square. The team stands nowhere if
/// it has no such turn, or if the board has no square with that number.
pub fn get_team_latest_turn<'a>(board: &'a BoardPlaces, turns: &'a Vec<Turn>, team: Team) -> (r:
    TeamLatestTurn<'a>)
    ensures
        r.team == team,
        !has_located(turns@, team.team_id, team.game_id) ==> r.latest_turn is None && r.location
            is None,
        has_located(turns@, team.team_id, team.game_id) ==> exists|i: int|
            is_latest_located(turns@, team.team_id, team.game_id, i),
        forall|i: int| #[trigger]
            is_latest_located(turns@, team.team_id, team.game_id, i) ==> {
                &&& r.latest_turn is Some
                &&& *r.latest_turn->Some_0 == turns@[i]
                &&& match board.spec_find_place(turns@[i].location->Some_0) {
                    Some(p) => r.location is Some && *r.location->Some_0 == p,
                    None => r.location is None,
                }
            },
{
    let mut best: Option<usize> = None;
    let mut i: usize = 0;
    while i < turns.len()
        invariant
            0 <= i <= turns.len(),
            best is None ==> forall|j: int|
                0 <= j < i ==> !is_located(#[trigger] turns@[j], team.team_id, team.game_id),
            best matches Some(b) ==> {
                &&& b < i
                &&& is_located(turns@[b as int], team.team_id, team.game_id)
                &&& forall|j: int|
                    0 <= j < i && is_located(#[trigger] turns@[j], team.team_id, team.game_id)
                        ==> turns@[j].turn_id.0 <= turns@[b as int].turn_id.0
                &&& forall|j: int|
                    0 <= j < b && is_located(#[trigger] turns@[j], team.team_id, team.game_id)
                        ==> turns@[j].turn_id.0 < turns@[b as int].turn_id.0
            },
        decreases turns.len() - i,
    {
        let t = &turns[i];
        if t.team_id == team.team_id && t.game_id == team.game_id && t.confirmed_at.is_some()
            && t.location.is_some() {
            let later = match best {
                Some(b) => turns[b].turn_id.0 < t.turn_id.0,
                None => true,
            };
            if later {
                best = Some(i);
            }
        }
        i += 1;
    }
    match best {
        None => {
            assert forall|k: int| !#[trigger] is_latest_located(
                turns@,
                team.team_id,
                team.game_id,
                k,
            ) by {}
            TeamLatestTurn { team, latest_turn: None, location: None }
        },
        Some(b) => {
            assert(is_latest_located(turns@, team.team_id, team.game_id, b as int));
            assert forall|k: int| #[trigger]
                is_latest_located(turns@, team.team_id, team.game_id, k) implies k == b by {
                if k < b {
                    assert(is_located(turns@[k], team.team_id, team.game_id));
                } else if k > b {
                    assert(is_located(turns@[b as int], team.team_id, team.game_id));
                }
            }
            let latest = &turns[b];
            let location = match latest.location {
                Some(n) => board.find_place(n),
                None => None,
            };
            TeamLatestTurn { team, latest_turn: Some(latest), location }
        },
    }
}

/// A turn that puts a team on a square at once: thrown, confirmed, mixed,
/// delivered and ended at `now`, without dice and without drinks.
pub open spec fn teleported(
    team_id: TeamId,
    game_id: GameId,
    turn_id: TurnId,
    location: i32,
    now: i64,
) -> TurnView {
    TurnView {
        turn_id,
        team_id,
        game_id,
        start_time: now,
        thrown_at: Some(now),
        confirmed_at: Some(now),
        mixing_at: Some(now),
        mixed_at: Some(now),
        delivered_at: Some(now),
        end_time: Some(now),
        dice1: None,
        dice2: None,
        dice_ayy: None,
        location: Some(location),
        via: None,
        penalty: false,
        drinks: Seq::empty(),
    }
}

/// Puts a team on a square without a throw: the turn that does so is
/// confirmed, delivered and ended as it is made, and owes no drinks. From
/// then on the team stands on that square.
pub fn teleport_team(team_id: TeamId, game_id: GameId, turn_id: TurnId, location: i32, now: i64)
    -> (r: Turn)
    ensures
        r@ == teleported(team_id, game_id, turn_id, location, now),
        stamps_in_order(r@),
        is_located(r, team_id, game_id),
{
    Turn {
        turn_id,
        team_id,
        game_id,
        start_time: now,
        thrown_at: Some(now),
        confirmed_at: Some(now),
        mixing_at: Some(now),
        mixed_at: Some(now),
        delivered_at: Some(now),
        end_time: Some(now),
        dice1: None,
        dice2: None,
        dice_ayy: None,
        location: Some(location),
        via: None,
        penalty: false,
        drinks: TurnDrinks { drinks: Vec::new() },
    }
}

/// A turn without a throw or without a square is never confirmed.
pub proof fn lemma_unthrown_turn_is_refused(
    board: BoardPlaces,
    place_before: Option<BoardPlace>,
    t: TurnView,
)
    requires
        t.dice1 is None || t.dice2 is None || t.location is None,
    ensures
        confirm_refusal(board, place_before, t) == Some(ConfirmRefusal::NotThrown),
        forall|e: AppError| #[trigger]
            is_confirm_refusal(e, ConfirmRefusal::NotThrown) ==> e is Validation,
{
}

/// A turn that is confirmed on the last square of the board is not ended by
/// the confirmation, even where it owes no drink: the end of the game takes
/// its place.
pub proof fn lemma_end_square_does_not_end_the_turn(
    place_after: BoardPlace,
    t: TurnView,
    drinks: Seq<TurnDrink>,
    now: i64,
)
    requires
        place_after.end,
    ensures
        !ends_at_once(place_after, drinks),
        confirmed(t, drinks, now).end_time == t.end_time,
{
}

/// The single drink of a turn that opens a game for a team: the drink as it
/// is, at least one portion of it, none of them on the table.
pub open spec fn opening_drink(drink: TurnDrink) -> TurnDrink {
    TurnDrink {
        drink: drink.drink,
        n: if drink.n < 1 {
            1
        } else {
            drink.n
        },
        on_table: 0,
        optional: false,
    }
}

/// The turn that opens a game for a team: it puts the team on the square
/// `place_number` and hands out `drinks`. It is thrown, confirmed, mixed and
/// delivered as it is made, and stays open until the team has drunk.
pub open spec fn opening_turn(
    team_id: TeamId,
    game_id: GameId,
    turn_id: TurnId,
    place_number: i32,
    drinks: Seq<TurnDrink>,
    now: i64,
) -> TurnView {
    TurnView {
        turn_id,
        team_id,
        game_id,
        start_time: now,
        thrown_at: Some(now),
        confirmed_at: Some(now),
        mixing_at: Some(now),
        mixed_at: Some(now),
        delivered_at: Some(now),
        end_time: None,
        dice1: None,
        dice2: None,
        dice_ayy: None,
        location: Some(place_number),
        via: None,
        penalty: false,
        drinks: drinks.map_values(|d: TurnDrink| opening_drink(d)),
    }
}

/// Makes the turn that opens a game for a team: the team is put on the
/// start square, and every team gets the same drinks, at least one portion
/// of each.
pub fn make_first_turn(
    team: &Team,
    turn_id: TurnId,
    place_number: i32,
    drinks: &Vec<TurnDrink>,
    now: i64,
) -> (r: Turn)
    ensures
        r@ == opening_turn(team.team_id, team.game_id, turn_id, place_number, drinks@, now),
        stamps_in_order(r@),
        is_located(r, team.team_id, team.game_id),
{
    let ghost opened = |d: TurnDrink| opening_drink(d);
    let mut out: Vec<TurnDrink> = Vec::new();
    let mut i: usize = 0;
    while i < drinks.len()
        invariant
            0 <= i <= drinks.len(),
            opened == |d: TurnDrink| opening_drink(d),
            out@ == drinks@.take(i as int).map_values(opened),
        decreases drinks.len() - i,
    {
        let d = &drinks[i];
        let n: i32 = if d.n < 1 {
            1
        } else {
            d.n
        };
        out.push(TurnDrink { drink: d.drink.clone(), n, on_table: 0, optional: false });
        assert(out@ =~= drinks@.take(i + 1).map_values(opened));
        i += 1;
    }
    assert(drinks@.take(i as int) =~= drinks@);
    Turn {
        turn_id,
        team_id: team.team_id,
        game_id: team.game_id,
        start_time: now,
        thrown_at: Some(now),
        confirmed_at: Some(now),
        mixing_at: Some(now),
        mixed_at: Some(now),
        delivered_at: Some(now),
        end_time: None,
        dice1: None,
        dice2: None,
        dice_ayy: None,
        location: Some(place_number),
        via: None,
        penalty: false,
        drinks: TurnDrinks { drinks: out },
    }
}

/// A confirmed turn that ended on a square, with an id above those of the
/// team's earlier such turns, is from then on the turn that says where the
/// team stands.
pub proof fn lemma_confirmed_turn_moves_the_team(turns: Seq<Turn>, t: Turn)
    requires
        is_located(t, t.team_id, t.game_id),
        forall|j: int|
            0 <= j < turns.len() && is_located(#[trigger] turns[j], t.team_id, t.game_id)
                ==> turns[j].turn_id.0 < t.turn_id.0,
    ensures
        is_latest_located(turns.push(t), t.team_id, t.game_id, turns.len() as int),
{
    let all = turns.push(t);
    assert forall|j: int|
        0 <= j < all.len() && is_located(#[trigger] all[j], t.team_id, t.game_id) implies all[j].turn_id.0
        <= t.turn_id.0 by {
        if j < turns.len() {
            assert(all[j] == turns[j]);
        }
    }
    assert forall|j: int|
        0 <= j < turns.len() && is_located(#[trigger] all[j], t.team_id, t.game_id) implies all[j].turn_id.0
        < t.turn_id.0 by {
        assert(all[j] == turns[j]);
    }
}

/// A turn that is not confirmed, or has no square, does not change where a
/// team stands: what a throw proposes takes effect only when it is
/// confirmed.
pub proof fn lemma_open_turn_does_not_move_the_team(
    turns: Seq<Turn>,
    t: Turn,
    team_id: TeamId,
    game_id: GameId,
    i: int,
)
    requires
        t.confirmed_at is None || t.location is None,
    ensures
        is_latest_located(turns.push(t), team_id, game_id, i) <==> is_latest_located(
            turns,
            team_id,
            game_id,
            i,
        ),
{
    let all = turns.push(t);
    assert(!is_located(all[turns.len() as int], team_id, game_id));
    assert forall|j: int| 0 <= j < turns.len() implies #[trigger] all[j] == turns[j] by {}
    if is_latest_located(turns, team_id, game_id, i) {
        assert forall|j: int|
            0 <= j < all.len() && is_located(#[trigger] all[j], team_id, game_id) implies all[j].turn_id.0
            <= all[i].turn_id.0 by {
            if j < turns.len() {
                assert(is_located(turns[j], team_id, game_id));
            }
        }
        assert forall|j: int|
            0 <= j < i && is_located(#[trigger] all[j], team_id, game_id) implies all[j].turn_id.0
            < all[i].turn_id.0 by {
            assert(is_located(turns[j], team_id, game_id));
        }
    }
    if is_latest_located(all, team_id, game_id, i) {
        assert(i < turns.len());
        assert forall|j: int|
            0 <= j < turns.len() && is_located(
                #[trigger] turns[j],
                team_id,
                game_id,
            ) implies turns[j].turn_id.0 <= turns[i].turn_id.0 by {
            assert(is_located(all[j], team_id, game_id));
        }
        assert forall|j: int|
            0 <= j < i && is_located(#[trigger] turns[j], team_id, game_id) implies turns[j].turn_id.0
            < turns[i].turn_id.0 by {
            assert(is_located(all[j], team_id, game_id));
        }
    }
}

/// Once a turn on a square is confirmed, the square counts as visited in the
/// game.
pub proof fn lemma_confirmed_turn_is_a_visit(turns: Seq<Turn>, t: Turn)
    requires
        t.confirmed_at is Some,
        t.location is Some,
    ensures
        spec_place_visited(turns.push(t), t.game_id, t.location->Some_0),
{
    let all = turns.push(t);
    assert(is_visit(all[turns.len() as int], t.game_id, t.location->Some_0));
    lemma_place_visited(all, t.game_id, t.location->Some_0);
}

} // verus!
