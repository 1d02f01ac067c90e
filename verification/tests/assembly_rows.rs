use otaniemipeli::assembly::{
    attach_turn_drinks, get_board_place_connections, get_board_places, get_place_drinks,
    get_turn_drinks, TurnDrinkRow,
};
use otaniemipeli::board::move_forwards;
use otaniemipeli::ids::{BoardId, DrinkId, GameId, PlaceId, TeamId, TurnId};
use otaniemipeli::types::{
    Board, BoardPlace, Connection, Connections, Drink, Place, PlaceDrink, PlaceDrinks, PlaceType,
    Turn, TurnDrink, TurnDrinks,
};

fn edge(board: i32, origin: i32, target: i32) -> Connection {
    Connection { board_id: BoardId(board), origin, target, on_land: false, backwards: false, dashed: false }
}

fn beer() -> Drink {
    Drink { id: DrinkId(1), name: "beer".to_string(), favorite: true, no_mix_required: false }
}

fn waiting(board: i32, place_number: i32, n: i32) -> PlaceDrink {
    PlaceDrink {
        place_number,
        board_id: BoardId(board),
        drink: beer(),
        refill: true,
        optional: false,
        on_table: false,
        n,
    }
}

fn bare(number: i32) -> BoardPlace {
    BoardPlace {
        board_id: BoardId(1),
        place: Place {
            place_id: PlaceId(number),
            place_name: format!("place {number}"),
            rule: "rule".to_string(),
            place_type: PlaceType::Guild,
            special: None,
        },
        place_number: number,
        start: number == 1,
        area: "normal".to_string(),
        end: number == 3,
        connections: Connections { connections: vec![edge(1, number, 77)] },
        drinks: PlaceDrinks { drinks: vec![waiting(1, number, 9)] },
    }
}

fn turn(id: i32) -> Turn {
    Turn {
        turn_id: TurnId(id),
        team_id: TeamId(1),
        game_id: GameId(1),
        start_time: 10,
        thrown_at: Some(11),
        confirmed_at: None,
        mixing_at: None,
        mixed_at: None,
        delivered_at: None,
        end_time: None,
        dice1: Some(1),
        dice2: Some(2),
        dice_ayy: None,
        location: Some(2),
        via: None,
        penalty: false,
        drinks: TurnDrinks { drinks: vec![TurnDrink { drink: beer(), n: 99, on_table: 0, optional: false }] },
    }
}

fn row(turn_id: i32, n: i32) -> TurnDrinkRow {
    TurnDrinkRow {
        turn_id: TurnId(turn_id),
        drink: TurnDrink { drink: beer(), n, on_table: 0, optional: false },
    }
}

#[test]
fn connections_of_one_square_keep_their_order() {
    let all = vec![edge(1, 1, 2), edge(1, 2, 3), edge(1, 1, 5), edge(2, 1, 9), edge(1, 3, 1)];
    let targets: Vec<i32> = get_board_place_connections(&all, BoardId(1), 1)
        .connections
        .iter()
        .map(|c| c.target)
        .collect();
    assert_eq!(targets, vec![2, 5]);
    assert!(get_board_place_connections(&all, BoardId(1), 4).connections.is_empty());
    assert_eq!(get_board_place_connections(&all, BoardId(2), 1).connections.len(), 1);
}

#[test]
fn drinks_of_one_square_keep_their_order() {
    let all = vec![waiting(1, 1, 1), waiting(1, 2, 2), waiting(2, 1, 3), waiting(1, 1, 4)];
    let counts: Vec<i32> =
        get_place_drinks(&all, 1, BoardId(1)).drinks.iter().map(|d| d.n).collect();
    assert_eq!(counts, vec![1, 4]);
    assert!(get_place_drinks(&all, 3, BoardId(1)).drinks.is_empty());
}

#[test]
fn board_is_built_from_squares_edges_and_drinks() {
    let board = Board { id: BoardId(1), name: "test".to_string() };
    let edges = vec![edge(1, 1, 2), edge(1, 2, 3), edge(1, 2, 1)];
    let drinks = vec![waiting(1, 2, 2), waiting(1, 3, 1), waiting(1, 2, 5)];
    let built = get_board_places(board, vec![bare(1), bare(2), bare(3)], &edges, &drinks);
    assert_eq!(built.board.name, "test");
    assert_eq!(built.places.len(), 3);
    let shape: Vec<(i32, Vec<i32>, Vec<i32>)> = built
        .places
        .iter()
        .map(|p| {
            (
                p.place_number,
                p.connections.connections.iter().map(|c| c.target).collect(),
                p.drinks.drinks.iter().map(|d| d.n).collect(),
            )
        })
        .collect();
    assert_eq!(
        shape,
        vec![(1, vec![2], vec![]), (2, vec![3, 1], vec![2, 5]), (3, vec![], vec![1])]
    );
    assert_eq!(built.places[1].place.place_type, PlaceType::Guild);
    assert_eq!(built.places[1].place.rule, "rule");
    assert!(built.places[0].start && built.places[2].end);
    // The board that was built can be walked.
    let (dest, via) = move_forwards(&built.places[0], &built, 2, None).unwrap();
    assert_eq!(dest.place_number, 3);
    assert!(via.is_none());
}

#[test]
fn drinks_of_one_turn_keep_their_order() {
    let rows = vec![row(1, 1), row(2, 2), row(1, 3)];
    let counts: Vec<i32> = get_turn_drinks(&rows, TurnId(1)).drinks.iter().map(|d| d.n).collect();
    assert_eq!(counts, vec![1, 3]);
    assert!(get_turn_drinks(&rows, TurnId(3)).drinks.is_empty());
}

#[test]
fn every_turn_gets_its_drinks() {
    let mut turns = vec![turn(1), turn(2), turn(3)];
    attach_turn_drinks(&mut turns, &vec![row(2, 4), row(1, 1), row(2, 6)]);
    let counts: Vec<Vec<i32>> =
        turns.iter().map(|t| t.drinks.drinks.iter().map(|d| d.n).collect()).collect();
    assert_eq!(counts, vec![vec![1], vec![4, 6], vec![]]);
    // Nothing else of a turn changes.
    assert_eq!(turns[1].turn_id, TurnId(2));
    assert_eq!(turns[1].thrown_at, Some(11));
    assert_eq!((turns[1].dice1, turns[1].dice2), (Some(1), Some(2)));
    assert_eq!(turns[1].location, Some(2));
}
