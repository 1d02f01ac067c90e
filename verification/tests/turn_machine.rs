use otaniemipeli::errors::AppError;
use otaniemipeli::game::Game;
use otaniemipeli::ids::{BoardId, DrinkId, GameId, PlaceId, TeamId, TurnId};
use otaniemipeli::turns::{
    cancel_turn, compute_turn_result, count_place_visits, end_turn, get_team_latest_turn,
    place_visited, process_change_dice, process_confirm_penalty, process_confirm_turn,
    process_start_turn, requires_mixing, set_drink_prep_status,
};
use otaniemipeli::types::{
    Board, BoardPlace, BoardPlaces, ChangeDiceBody, Connection, Connections, Drink,
    DrinkPrepStatus, Place, PlaceDrink, PlaceDrinks, PlaceType, PostStartTurn, Team,
    TeamLatestTurn, Turn, TurnDrink, TurnDrinks,
};

const GAME: GameId = GameId(1);
const TEAM: TeamId = TeamId(7);

fn edge(origin: i32, target: i32, on_land: bool, backwards: bool) -> Connection {
    Connection { board_id: BoardId(1), origin, target, on_land, backwards, dashed: false }
}

fn beer() -> Drink {
    Drink { id: DrinkId(1), name: "beer".to_string(), favorite: false, no_mix_required: false }
}

fn water() -> Drink {
    Drink { id: DrinkId(2), name: "water".to_string(), favorite: false, no_mix_required: true }
}

fn slot(number: i32, drink: Drink, n: i32, refill: bool) -> PlaceDrink {
    PlaceDrink {
        place_number: number,
        board_id: BoardId(1),
        drink,
        refill,
        optional: false,
        on_table: false,
        n,
    }
}

fn square(number: i32, area: &str, edges: Vec<Connection>, drinks: Vec<PlaceDrink>) -> BoardPlace {
    BoardPlace {
        board_id: BoardId(1),
        place: Place {
            place_id: PlaceId(number),
            place_name: format!("place {number}"),
            rule: String::new(),
            place_type: PlaceType::Normal,
            special: None,
        },
        place_number: number,
        start: number == 10,
        area: area.to_string(),
        end: false,
        connections: Connections { connections: edges },
        drinks: PlaceDrinks { drinks },
    }
}

/// 10 -> 11 -> 12 -> 13 (tampere) -> 14 (normal) -> 15 (normal, end).
fn board() -> BoardPlaces {
    let mut last = square(15, "normal", vec![edge(15, 14, false, true)], vec![]);
    last.end = true;
    BoardPlaces {
        board: Board { id: BoardId(1), name: "test".to_string() },
        places: vec![
            square(10, "normal", vec![edge(10, 11, false, false)], vec![]),
            square(
                11,
                "normal",
                vec![edge(11, 12, false, false), edge(11, 10, false, true)],
                vec![slot(11, beer(), 2, false), slot(11, water(), 1, true)],
            ),
            square(12, "normal", vec![edge(12, 13, false, false), edge(12, 11, false, true)], vec![]),
            square(
                13,
                "tampere",
                vec![edge(13, 14, false, false), edge(13, 12, false, true)],
                vec![slot(13, beer(), 1, true)],
            ),
            square(14, "normal", vec![edge(14, 15, false, false), edge(14, 13, false, true)], vec![]),
            last,
        ],
    }
}

fn open_game() -> Game {
    Game {
        id: GAME,
        name: "peli".to_string(),
        board: Board { id: BoardId(1), name: "test".to_string() },
        started: true,
        finished: false,
        start_time: 1,
    }
}

fn team(double_tampere: bool) -> Team {
    Team {
        team_id: TEAM,
        game_id: GAME,
        team_name: "team".to_string(),
        team_hash: "HASH".to_string(),
        double_tampere,
        moral_victory_eligible: false,
    }
}

fn blank_turn(id: i32) -> Turn {
    Turn {
        turn_id: TurnId(id),
        team_id: TEAM,
        game_id: GAME,
        start_time: 100,
        thrown_at: None,
        confirmed_at: None,
        mixing_at: None,
        mixed_at: None,
        delivered_at: None,
        end_time: None,
        dice1: None,
        dice2: None,
        dice_ayy: None,
        location: None,
        via: None,
        penalty: false,
        drinks: TurnDrinks { drinks: vec![] },
    }
}

fn confirmed_at_square(id: i32, square: i32) -> Turn {
    let mut t = blank_turn(id);
    t.thrown_at = Some(110);
    t.confirmed_at = Some(120);
    t.end_time = Some(130);
    t.dice1 = Some(1);
    t.dice2 = Some(2);
    t.location = Some(square);
    t
}

fn thrown(id: i32, d1: i32, d2: i32, square: i32) -> Turn {
    let mut t = blank_turn(id);
    t.thrown_at = Some(110);
    t.dice1 = Some(d1);
    t.dice2 = Some(d2);
    t.location = Some(square);
    t
}

fn start(d1: Option<i32>, d2: Option<i32>) -> PostStartTurn {
    PostStartTurn { team_id: TEAM, game_id: GAME, dice1: d1, dice2: d2, dice_ayy: None, penalty: false }
}

fn at<'a>(b: &'a BoardPlaces, square: i32, double_tampere: bool) -> TeamLatestTurn<'a> {
    TeamLatestTurn { team: team(double_tampere), latest_turn: None, location: b.find_place(square) }
}

fn portion(drink: Drink, n: i32, on_table: i32) -> TurnDrink {
    TurnDrink { drink, n, on_table, optional: false }
}

fn counts(drinks: &TurnDrinks) -> Vec<(i32, i32)> {
    drinks.drinks.iter().map(|d| (d.drink.id.0, d.n)).collect()
}

fn snapshot(turn: &Turn) -> String {
    format!("{turn:?}")
}

#[test]
fn visits_count_confirmed_turns_of_the_game() {
    let mut other_game = confirmed_at_square(3, 11);
    other_game.game_id = GameId(2);
    let mut other_team = confirmed_at_square(4, 11);
    other_team.team_id = TeamId(8);
    let turns = vec![
        confirmed_at_square(1, 11),
        thrown(2, 1, 2, 11),
        other_game,
        other_team,
        confirmed_at_square(5, 12),
    ];
    assert_eq!(count_place_visits(&turns, GAME, 11), 2);
    assert_eq!(count_place_visits(&turns, GAME, 12), 1);
    assert_eq!(count_place_visits(&turns, GAME, 13), 0);
    assert_eq!(count_place_visits(&turns, GameId(2), 11), 1);
    assert!(place_visited(&turns, GAME, 11));
    assert!(!place_visited(&turns, GAME, 13));
    assert!(!place_visited(&vec![], GAME, 11));
}

#[test]
fn latest_confirmed_turn_gives_the_location() {
    let b = board();
    let mut unconfirmed = thrown(9, 1, 1, 14);
    unconfirmed.confirmed_at = None;
    let mut penalty = blank_turn(8);
    penalty.penalty = true;
    penalty.confirmed_at = Some(5);
    let mut other_team = confirmed_at_square(10, 15);
    other_team.team_id = TeamId(8);
    let turns = vec![
        confirmed_at_square(3, 12),
        confirmed_at_square(1, 10),
        unconfirmed,
        penalty,
        other_team,
        confirmed_at_square(2, 11),
    ];
    let data = get_team_latest_turn(&b, &turns, team(false));
    assert_eq!(data.latest_turn.map(|t| t.turn_id), Some(TurnId(3)));
    assert_eq!(data.location.map(|p| p.place_number), Some(12));
    assert_eq!(data.team.team_id, TEAM);
}

#[test]
fn team_without_confirmed_move_stands_nowhere() {
    let b = board();
    let turns = vec![thrown(1, 1, 1, 11)];
    let data = get_team_latest_turn(&b, &turns, team(false));
    assert!(data.latest_turn.is_none());
    assert!(data.location.is_none());
    // A confirmed turn on a square that the board lacks gives the turn, but no square.
    let turns = vec![confirmed_at_square(1, 99)];
    let data = get_team_latest_turn(&b, &turns, team(false));
    assert_eq!(data.latest_turn.map(|t| t.turn_id), Some(TurnId(1)));
    assert!(data.location.is_none());
}

#[test]
fn compute_moves_by_the_smaller_die() {
    let b = board();
    let t = at(&b, 10, false);
    let r = compute_turn_result(&b, &vec![], GAME, &t, 5, 2, None).unwrap();
    assert_eq!(r.place_after.place_number, 12);
    assert!(r.via.is_none());
    let r = compute_turn_result(&b, &vec![], GAME, &t, 1, 6, None).unwrap();
    assert_eq!(r.place_after.place_number, 11);
    assert_eq!(counts(&r.turn_drinks), vec![(1, 2), (2, 1)]);
}

#[test]
fn compute_applies_doubles_and_area_double() {
    let b = board();
    let plain = at(&b, 10, false);
    let r = compute_turn_result(&b, &vec![], GAME, &plain, 1, 1, None).unwrap();
    assert_eq!(counts(&r.turn_drinks), vec![(1, 4), (2, 2)]);
    let doubled = at(&b, 10, true);
    let r = compute_turn_result(&b, &vec![], GAME, &doubled, 1, 2, None).unwrap();
    assert_eq!(counts(&r.turn_drinks), vec![(1, 4), (2, 2)]);
    let r = compute_turn_result(&b, &vec![], GAME, &doubled, 1, 1, None).unwrap();
    assert_eq!(counts(&r.turn_drinks), vec![(1, 8), (2, 4)]);
}

#[test]
fn compute_suppresses_first_visit_drinks_on_a_visited_square() {
    let b = board();
    let t = at(&b, 10, false);
    let turns = vec![confirmed_at_square(1, 11)];
    let r = compute_turn_result(&b, &turns, GAME, &t, 1, 3, None).unwrap();
    assert_eq!(counts(&r.turn_drinks), vec![(2, 1)]);
    // An unconfirmed turn on the square is no visit.
    let turns = vec![thrown(1, 1, 3, 11)];
    let r = compute_turn_result(&b, &turns, GAME, &t, 1, 3, None).unwrap();
    assert_eq!(counts(&r.turn_drinks), vec![(1, 2), (2, 1)]);
}

#[test]
fn compute_rejects_bad_dice() {
    let b = board();
    let t = at(&b, 10, false);
    for (d1, d2, ayy, bad) in [
        (0, 3, None, 0),
        (3, 7, None, 7),
        (9, 8, None, 9),
        (3, 3, Some(7), 7),
        (3, 3, Some(-1), -1),
    ] {
        match compute_turn_result(&b, &vec![], GAME, &t, d1, d2, ayy) {
            Err(AppError::Validation(m)) => {
                assert_eq!(m, format!("Dice value must be between 1 and 6, it was {bad}"))
            }
            _ => panic!("expected a validation error"),
        }
    }
    // Zero stands for "no extra die".
    assert!(compute_turn_result(&b, &vec![], GAME, &t, 3, 3, Some(0)).is_ok());
}

#[test]
fn compute_without_location_is_not_found() {
    let b = board();
    let t = TeamLatestTurn { team: team(false), latest_turn: None, location: None };
    match compute_turn_result(&b, &vec![], GAME, &t, 1, 2, None) {
        Err(AppError::NotFound(m)) => {
            assert_eq!(m, "Team 7 has no current location - cannot compute movement")
        }
        _ => panic!("expected not found"),
    }
    // Bad dice are reported before the missing location.
    assert!(matches!(
        compute_turn_result(&b, &vec![], GAME, &t, 0, 2, None),
        Err(AppError::Validation(_))
    ));
}

#[test]
fn start_turn_without_dice_proposes_nothing() {
    let b = board();
    let t = at(&b, 10, false);
    let turn = process_start_turn(&b, &vec![], &t, start(None, None), TurnId(5), 1000).unwrap();
    assert_eq!(turn.turn_id, TurnId(5));
    assert_eq!(turn.team_id, TEAM);
    assert_eq!(turn.game_id, GAME);
    assert_eq!(turn.start_time, 1000);
    assert_eq!(turn.thrown_at, None);
    assert_eq!(turn.confirmed_at, None);
    assert_eq!(turn.end_time, None);
    assert_eq!((turn.dice1, turn.dice2, turn.dice_ayy), (None, None, None));
    assert_eq!(turn.location, None);
    assert!(turn.drinks.drinks.is_empty());
    assert!(!turn.penalty);
}

#[test]
fn start_turn_with_dice_proposes_square_and_drinks() {
    let b = board();
    let t = at(&b, 10, false);
    let turn = process_start_turn(&b, &vec![], &t, start(Some(4), Some(1)), TurnId(5), 1000).unwrap();
    assert_eq!(turn.thrown_at, Some(1000));
    assert_eq!(turn.confirmed_at, None);
    assert_eq!((turn.dice1, turn.dice2), (Some(4), Some(1)));
    assert_eq!(turn.location, Some(11));
    assert_eq!(turn.via, None);
    assert_eq!(counts(&turn.drinks), vec![(1, 2), (2, 1)]);
    // The team is untouched by a start.
    assert!(!t.team.double_tampere);
}

#[test]
fn start_turn_rejects_bad_dice_and_missing_location() {
    let b = board();
    let t = at(&b, 10, false);
    assert!(matches!(
        process_start_turn(&b, &vec![], &t, start(Some(7), Some(1)), TurnId(5), 0),
        Err(AppError::Validation(_))
    ));
    assert!(matches!(
        process_start_turn(&b, &vec![], &t, start(Some(1), Some(0)), TurnId(5), 0),
        Err(AppError::Validation(_))
    ));
    let nowhere = TeamLatestTurn { team: team(false), latest_turn: None, location: None };
    assert!(matches!(
        process_start_turn(&b, &vec![], &nowhere, start(Some(1), Some(1)), TurnId(5), 0),
        Err(AppError::NotFound(_))
    ));
    assert!(matches!(
        process_start_turn(&b, &vec![], &nowhere, start(None, None), TurnId(5), 0),
        Err(AppError::NotFound(_))
    ));
}

#[test]
fn start_penalty_turn_keeps_the_flag() {
    let b = board();
    let t = at(&b, 10, false);
    let mut data = start(None, None);
    data.penalty = true;
    let turn = process_start_turn(&b, &vec![], &t, data, TurnId(6), 50).unwrap();
    assert!(turn.penalty);
    assert_eq!(turn.location, None);
    assert_eq!(turn.thrown_at, None);
}

#[test]
fn change_dice_recomputes_from_the_confirmed_location() {
    let b = board();
    let t = at(&b, 10, false);
    let mut turn =
        process_start_turn(&b, &vec![], &t, start(Some(1), Some(5)), TurnId(5), 1000).unwrap();
    assert_eq!(turn.location, Some(11));
    let dice = ChangeDiceBody { dice1: 3, dice2: 3, dice_ayy: Some(0) };
    process_change_dice(&b, &vec![], &t, &mut turn, dice, 2000).unwrap();
    // From square 10 again, not from the proposed 11.
    assert_eq!(turn.location, Some(13));
    assert_eq!((turn.dice1, turn.dice2, turn.dice_ayy), (Some(3), Some(3), None));
    assert_eq!(counts(&turn.drinks), vec![(1, 2)]);
    // The time of the first throw stays.
    assert_eq!(turn.thrown_at, Some(1000));
    assert_eq!(turn.confirmed_at, None);
}

#[test]
fn change_dice_is_idempotent() {
    let b = board();
    let t = at(&b, 10, false);
    let mut turn = process_start_turn(&b, &vec![], &t, start(None, None), TurnId(5), 1000).unwrap();
    let dice = ChangeDiceBody { dice1: 2, dice2: 6, dice_ayy: None };
    process_change_dice(&b, &vec![], &t, &mut turn, dice, 2000).unwrap();
    assert_eq!(turn.thrown_at, Some(2000));
    let once = snapshot(&turn);
    process_change_dice(&b, &vec![], &t, &mut turn, dice, 3000).unwrap();
    assert_eq!(snapshot(&turn), once);
}

#[test]
fn change_dice_failures_leave_the_turn_unchanged() {
    let b = board();
    let t = at(&b, 10, false);
    let mut turn = thrown(5, 1, 2, 11);
    let before = snapshot(&turn);
    let bad = ChangeDiceBody { dice1: 0, dice2: 2, dice_ayy: None };
    assert!(matches!(
        process_change_dice(&b, &vec![], &t, &mut turn, bad, 1),
        Err(AppError::Validation(_))
    ));
    assert_eq!(snapshot(&turn), before);
    let nowhere = TeamLatestTurn { team: team(false), latest_turn: None, location: None };
    let good = ChangeDiceBody { dice1: 1, dice2: 2, dice_ayy: None };
    assert!(matches!(
        process_change_dice(&b, &vec![], &nowhere, &mut turn, good, 1),
        Err(AppError::NotFound(_))
    ));
    assert_eq!(snapshot(&turn), before);
    // A confirmed turn takes no new dice.
    turn.confirmed_at = Some(500);
    let before = snapshot(&turn);
    match process_change_dice(&b, &vec![], &t, &mut turn, good, 1) {
        Err(AppError::Validation(m)) => assert_eq!(m, "Cannot change the dice of a confirmed turn"),
        _ => panic!("expected a validation error"),
    }
    assert_eq!(snapshot(&turn), before);
}

#[test]
fn confirm_without_dice_or_destination_is_a_validation_error_and_writes_nothing() {
    let b = board();
    let before_place = b.find_place(10);
    let mut incomplete = vec![blank_turn(1), thrown(2, 1, 2, 11), thrown(3, 1, 2, 11), thrown(4, 1, 2, 11)];
    incomplete[1].location = None;
    incomplete[2].dice1 = None;
    incomplete[3].dice2 = None;
    for mut turn in incomplete {
        let mut tm = team(true);
        let before = snapshot(&turn);
        let drinks = TurnDrinks { drinks: vec![portion(beer(), 1, 0)] };
        match process_confirm_turn(&b, &mut open_game(), &mut tm, before_place, &mut turn, drinks, 900) {
            Err(AppError::Validation(m)) => {
                assert_eq!(m, "Turn must have location and dice to be confirmed")
            }
            _ => panic!("expected a validation error"),
        }
        assert_eq!(snapshot(&turn), before);
        assert!(tm.double_tampere);
    }
}

#[test]
fn confirm_needs_the_team_location_and_the_square() {
    let b = board();
    let mut turn = thrown(2, 1, 2, 11);
    let before = snapshot(&turn);
    let mut tm = team(false);
    match process_confirm_turn(&b, &mut open_game(), &mut tm, None, &mut turn, TurnDrinks { drinks: vec![] }, 900) {
        Err(AppError::Validation(m)) => {
            assert_eq!(m, "Team must have a location before confirming turn")
        }
        _ => panic!("expected a validation error"),
    }
    assert_eq!(snapshot(&turn), before);
    let mut lost = thrown(3, 1, 2, 99);
    let before = snapshot(&lost);
    assert!(matches!(
        process_confirm_turn(&b, &mut open_game(), &mut tm, b.find_place(10), &mut lost, TurnDrinks { drinks: vec![] }, 900),
        Err(AppError::NotFound(_))
    ));
    assert_eq!(snapshot(&lost), before);
}

#[test]
fn confirm_replaces_drinks_with_the_referees_list() {
    let b = board();
    let t = at(&b, 10, false);
    let mut turn =
        process_start_turn(&b, &vec![], &t, start(Some(1), Some(2)), TurnId(5), 1000).unwrap();
    assert_eq!(counts(&turn.drinks), vec![(1, 2), (2, 1)]);
    let mut tm = team(false);
    let settled = TurnDrinks { drinks: vec![portion(beer(), 5, 0)] };
    let mut game = open_game();
    let effects = process_confirm_turn(&b, &mut game, &mut tm, t.location, &mut turn, settled, 1500).unwrap();
    assert!(!game.finished);
    assert!(!effects.game_ended);
    assert!(!effects.turn_ended);
    assert_eq!(turn.confirmed_at, Some(1500));
    assert_eq!(turn.thrown_at, Some(1000));
    assert_eq!(counts(&turn.drinks), vec![(1, 5)]);
    // Beer has to be mixed: the bar's time stamps stay open.
    assert_eq!((turn.mixing_at, turn.mixed_at, turn.delivered_at), (None, None, None));
    assert_eq!(turn.end_time, None);
    assert_eq!(turn.location, Some(11));
}

#[test]
fn confirm_marks_mixed_when_nothing_needs_mixing() {
    let b = board();
    let mut tm = team(false);
    let mut turn = thrown(5, 1, 2, 11);
    let settled = TurnDrinks { drinks: vec![portion(water(), 2, 0), portion(beer(), 1, 1)] };
    assert!(!requires_mixing(&settled));
    let effects = process_confirm_turn(&b, &mut open_game(), &mut tm, b.find_place(10), &mut turn, settled, 1500).unwrap();
    assert!(!effects.turn_ended);
    assert_eq!((turn.mixing_at, turn.mixed_at, turn.delivered_at), (Some(1500), Some(1500), None));
    assert_eq!(turn.end_time, None);
    assert!(requires_mixing(&TurnDrinks { drinks: vec![portion(water(), 2, 0), portion(beer(), 2, 1)] }));
    assert!(!requires_mixing(&TurnDrinks { drinks: vec![] }));
}

#[test]
fn confirm_with_no_drinks_ends_the_turn() {
    let b = board();
    let mut tm = team(false);
    let mut turn = thrown(5, 1, 2, 12);
    let effects =
        process_confirm_turn(&b, &mut open_game(), &mut tm, b.find_place(10), &mut turn, TurnDrinks { drinks: vec![] }, 1500)
            .unwrap();
    assert!(effects.turn_ended);
    assert!(!effects.game_ended);
    assert_eq!(turn.end_time, Some(1500));
    assert_eq!(turn.confirmed_at, Some(1500));
    assert_eq!((turn.mixing_at, turn.mixed_at), (Some(1500), Some(1500)));
}

#[test]
fn confirm_on_the_end_square_ends_the_game_and_not_the_turn() {
    let b = board();
    let mut tm = team(false);
    let mut turn = thrown(5, 1, 2, 15);
    let mut game = open_game();
    let effects =
        process_confirm_turn(&b, &mut game, &mut tm, b.find_place(14), &mut turn, TurnDrinks { drinks: vec![] }, 1500)
            .unwrap();
    assert!(game.finished);
    assert_eq!(game.name, "peli");
    assert!(effects.game_ended);
    assert!(!effects.turn_ended);
    assert_eq!(turn.end_time, None);
    assert_eq!(turn.confirmed_at, Some(1500));
    // With drinks the game ends all the same.
    let mut turn = thrown(6, 1, 2, 15);
    let drinks = TurnDrinks { drinks: vec![portion(beer(), 1, 0)] };
    let effects = process_confirm_turn(&b, &mut open_game(), &mut tm, b.find_place(14), &mut turn, drinks, 1500).unwrap();
    assert!(effects.game_ended);
    assert!(!effects.turn_ended);
}

#[test]
fn double_into_the_side_area_sets_area_double_and_normal_clears_it() {
    let b = board();
    let mut tm = team(false);
    // 10 (normal) -> 13 (tampere) on a double.
    let mut turn = thrown(5, 3, 3, 13);
    let drinks = TurnDrinks { drinks: vec![portion(beer(), 2, 0)] };
    process_confirm_turn(&b, &mut open_game(), &mut tm, b.find_place(10), &mut turn, drinks, 1500).unwrap();
    assert!(tm.double_tampere);
    // 13 (tampere) -> 14 (normal), no double: cleared.
    let mut back = thrown(6, 1, 2, 14);
    let drinks = TurnDrinks { drinks: vec![portion(beer(), 2, 0)] };
    process_confirm_turn(&b, &mut open_game(), &mut tm, b.find_place(13), &mut back, drinks, 1600).unwrap();
    assert!(!tm.double_tampere);
    // Cleared on a double as well.
    let mut tm = team(true);
    let mut back = thrown(7, 2, 2, 14);
    let drinks = TurnDrinks { drinks: vec![portion(beer(), 2, 0)] };
    process_confirm_turn(&b, &mut open_game(), &mut tm, b.find_place(13), &mut back, drinks, 1600).unwrap();
    assert!(!tm.double_tampere);
}

#[test]
fn area_double_is_left_alone_otherwise() {
    let b = board();
    // Into the side area without a double: not set.
    let mut tm = team(false);
    let mut turn = thrown(5, 3, 4, 13);
    process_confirm_turn(&b, &mut open_game(), &mut tm, b.find_place(10), &mut turn, TurnDrinks { drinks: vec![] }, 1).unwrap();
    assert!(!tm.double_tampere);
    // Staying inside the side area keeps what was set.
    let mut tm = team(true);
    let mut turn = thrown(6, 3, 4, 13);
    process_confirm_turn(&b, &mut open_game(), &mut tm, b.find_place(13), &mut turn, TurnDrinks { drinks: vec![] }, 1).unwrap();
    assert!(tm.double_tampere);
    // Other fields of the team never change.
    assert_eq!(tm.team_name, "team");
    assert_eq!(tm.team_hash, "HASH");
    assert_eq!(tm.team_id, TEAM);
}

#[test]
fn scenario_double_three_from_square_ten() {
    let b = board();
    let turns = vec![confirmed_at_square(1, 10)];
    let data = get_team_latest_turn(&b, &turns, team(false));
    assert_eq!(data.location.map(|p| p.place_number), Some(10));
    assert_eq!(data.location.map(|p| p.area.as_str()), Some("normal"));
    let mut turn =
        process_start_turn(&b, &turns, &data, start(Some(3), Some(3)), TurnId(2), 2000).unwrap();
    assert_eq!(turn.location, Some(13));
    // Multiplier 2: the double only, the area double is not active yet.
    assert_eq!(counts(&turn.drinks), vec![(1, 2)]);
    assert!(!data.team.double_tampere);
    let mut tm = team(false);
    let settled = turn.drinks.clone();
    let effects = process_confirm_turn(&b, &mut open_game(), &mut tm, data.location, &mut turn, settled, 2100).unwrap();
    assert!(tm.double_tampere);
    assert!(!effects.game_ended);
    assert!(!effects.turn_ended);
    assert_eq!(counts(&turn.drinks), vec![(1, 2)]);
}

#[test]
fn scenario_cancel_of_a_confirmed_turn_is_refused() {
    let mut turns = vec![confirmed_at_square(1, 10), thrown(2, 1, 2, 11)];
    let before = format!("{turns:?}");
    match cancel_turn(&mut turns, TurnId(1)) {
        Err(AppError::Validation(m)) => assert_eq!(m, "Cannot cancel a confirmed turn"),
        _ => panic!("expected a validation error"),
    }
    assert_eq!(format!("{turns:?}"), before);
}

#[test]
fn cancel_removes_an_unconfirmed_turn() {
    let mut turns = vec![confirmed_at_square(1, 10), thrown(2, 1, 2, 11), blank_turn(3)];
    let removed = cancel_turn(&mut turns, TurnId(2)).unwrap();
    assert_eq!(removed.turn_id, TurnId(2));
    assert_eq!(removed.location, Some(11));
    let ids: Vec<i32> = turns.iter().map(|t| t.turn_id.0).collect();
    assert_eq!(ids, vec![1, 3]);
    let removed = cancel_turn(&mut turns, TurnId(3)).unwrap();
    assert_eq!(removed.turn_id, TurnId(3));
    assert_eq!(turns.len(), 1);
}

#[test]
fn cancel_of_an_unknown_turn_is_not_found() {
    let mut turns = vec![thrown(2, 1, 2, 11)];
    match cancel_turn(&mut turns, TurnId(9)) {
        Err(AppError::NotFound(m)) => assert_eq!(m, "Turn not found"),
        _ => panic!("expected not found"),
    }
    assert_eq!(turns.len(), 1);
}

#[test]
fn end_turn_ends_the_open_turns_of_the_team() {
    let mut other_team = thrown(4, 1, 2, 11);
    other_team.team_id = TeamId(8);
    let mut other_game = thrown(5, 1, 2, 11);
    other_game.game_id = GameId(2);
    let mut turns = vec![
        confirmed_at_square(1, 10),
        thrown(2, 1, 2, 11),
        blank_turn(3),
        other_team,
        other_game,
    ];
    assert_eq!(end_turn(&mut turns, TEAM, GAME, 7000).unwrap(), 2);
    assert_eq!(turns[0].end_time, Some(130));
    assert_eq!(turns[1].end_time, Some(7000));
    assert_eq!(turns[2].end_time, Some(7000));
    assert_eq!(turns[3].end_time, None);
    assert_eq!(turns[4].end_time, None);
    assert_eq!(turns[1].location, Some(11));
    assert_eq!(turns[1].thrown_at, Some(110));
}

#[test]
fn end_turn_without_an_open_turn_is_not_found() {
    let mut turns = vec![confirmed_at_square(1, 10)];
    let before = format!("{turns:?}");
    match end_turn(&mut turns, TEAM, GAME, 7000) {
        Err(AppError::NotFound(m)) => assert_eq!(m, "No active turn found for the team"),
        _ => panic!("expected not found"),
    }
    assert_eq!(format!("{turns:?}"), before);
    assert!(matches!(end_turn(&mut vec![], TEAM, GAME, 1), Err(AppError::NotFound(_))));
    // Ending twice: the second request finds nothing open.
    let mut turns = vec![thrown(2, 1, 2, 11)];
    assert_eq!(end_turn(&mut turns, TEAM, GAME, 1).unwrap(), 1);
    assert!(matches!(end_turn(&mut turns, TEAM, GAME, 2), Err(AppError::NotFound(_))));
    assert_eq!(turns[0].end_time, Some(1));
}

#[test]
fn penalty_needs_the_flag_and_drinks() {
    let mut plain = blank_turn(1);
    let before = snapshot(&plain);
    let drinks = TurnDrinks { drinks: vec![portion(beer(), 1, 0)] };
    match process_confirm_penalty(&mut plain, drinks, 10) {
        Err(AppError::Validation(m)) => assert_eq!(m, "Turn is not a penalty turn"),
        _ => panic!("expected a validation error"),
    }
    assert_eq!(snapshot(&plain), before);
    let mut penalty = blank_turn(2);
    penalty.penalty = true;
    let before = snapshot(&penalty);
    match process_confirm_penalty(&mut penalty, TurnDrinks { drinks: vec![] }, 10) {
        Err(AppError::Validation(m)) => assert_eq!(m, "Penalty turn must have drinks assigned"),
        _ => panic!("expected a validation error"),
    }
    assert_eq!(snapshot(&penalty), before);
}

#[test]
fn penalty_is_confirmed_without_movement() {
    let mut penalty = blank_turn(2);
    penalty.penalty = true;
    let drinks = TurnDrinks { drinks: vec![portion(beer(), 3, 0)] };
    process_confirm_penalty(&mut penalty, drinks, 10).unwrap();
    assert_eq!(penalty.confirmed_at, Some(10));
    assert_eq!(penalty.thrown_at, Some(10));
    assert_eq!(penalty.location, None);
    assert_eq!((penalty.dice1, penalty.dice2), (None, None));
    assert_eq!(counts(&penalty.drinks), vec![(1, 3)]);
    assert_eq!((penalty.mixing_at, penalty.mixed_at), (None, None));
    assert_eq!(penalty.end_time, None);
    // Drinks that need no mixing count as mixed at once.
    let mut penalty = blank_turn(3);
    penalty.penalty = true;
    let drinks = TurnDrinks { drinks: vec![portion(water(), 3, 0)] };
    process_confirm_penalty(&mut penalty, drinks, 20).unwrap();
    assert_eq!((penalty.mixing_at, penalty.mixed_at, penalty.delivered_at), (Some(20), Some(20), None));
}

#[test]
fn prep_status_fills_in_missing_time_stamps() {
    let mut turn = thrown(1, 1, 2, 11);
    set_drink_prep_status(&mut turn, DrinkPrepStatus::Mixing, 10);
    assert_eq!((turn.mixing_at, turn.mixed_at, turn.delivered_at), (Some(10), None, None));
    set_drink_prep_status(&mut turn, DrinkPrepStatus::Mixed, 20);
    assert_eq!((turn.mixing_at, turn.mixed_at, turn.delivered_at), (Some(10), Some(20), None));
    set_drink_prep_status(&mut turn, DrinkPrepStatus::Delivered, 30);
    assert_eq!((turn.mixing_at, turn.mixed_at, turn.delivered_at), (Some(10), Some(20), Some(30)));
    // Straight to mixed: mixing is filled in.
    let mut turn = thrown(2, 1, 2, 11);
    set_drink_prep_status(&mut turn, DrinkPrepStatus::Mixed, 40);
    assert_eq!((turn.mixing_at, turn.mixed_at, turn.delivered_at), (Some(40), Some(40), None));
    // Straight to delivered: both are filled in.
    let mut turn = thrown(3, 1, 2, 11);
    set_drink_prep_status(&mut turn, DrinkPrepStatus::Delivered, 50);
    assert_eq!((turn.mixing_at, turn.mixed_at, turn.delivered_at), (Some(50), Some(50), Some(50)));
}

#[test]
fn prep_status_queued_clears_the_bar_time_stamps() {
    let mut turn = thrown(1, 1, 2, 11);
    set_drink_prep_status(&mut turn, DrinkPrepStatus::Delivered, 50);
    set_drink_prep_status(&mut turn, DrinkPrepStatus::Queued, 60);
    assert_eq!((turn.mixing_at, turn.mixed_at, turn.delivered_at), (None, None, None));
    // Nothing else of the turn is touched.
    assert_eq!(turn.thrown_at, Some(110));
    assert_eq!(turn.location, Some(11));
    assert_eq!((turn.dice1, turn.dice2), (Some(1), Some(2)));
}

#[test]
fn board_counts_are_checked_square_by_square() {
    let mut b = board();
    assert!(b.check_counts());
    b.places[3].drinks.drinks[0].n = i32::MAX;
    assert!(!b.check_counts());
}
