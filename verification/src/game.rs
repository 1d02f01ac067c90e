//! A game as its clients see it: the teams, each with its turns and the
//! square it stands on.

use vstd::prelude::*;
use vstd::string::StringExecFns;
use crate::ids::{BoardId, GameId, TeamId};
use crate::types::{Board, BoardPlace, BoardPlaces, Team, Turn, TurnView};

verus! {

/// A game on a board.
#[derive(Debug)]
pub struct Game {
    pub id: GameId,
    pub name: String,
    pub board: Board,
    pub started: bool,
    pub finished: bool,
    pub start_time: i64,
}

impl Clone for Game {
    fn clone(&self) -> (r: Self)
        ensures
            r == *self,
    {
        Game {
            id: self.id,
            name: self.name.clone(),
            board: self.board.clone(),
            started: self.started,
            finished: self.finished,
            start_time: self.start_time,
        }
    }
}

/// All games.
#[derive(Clone, Debug)]
pub struct Games {
    pub games: Vec<Game>,
}

/// The id of the game that stands for "no such game".
pub const UNKNOWN_GAME: i32 = -100;

/// The id of the board that stands for "no such board".
pub const UNKNOWN_BOARD: i32 = -404;

/// The start of the game that stands for "no such game", in milliseconds
/// since the epoch: 13 February 1986, 14:00 UTC.
pub const UNKNOWN_GAME_START: i64 = 508_687_200_000;

/// The game that is shown where no game is found: it is called `unknown`,
/// lies on a board called `unknown`, and has neither started nor finished.
pub fn default_game() -> (r: Game)
    ensures
        r.id == GameId(UNKNOWN_GAME),
        r.name@ == "unknown"@,
        r.board.id == BoardId(UNKNOWN_BOARD),
        r.board.name@ == "unknown"@,
        !r.started,
        !r.finished,
        r.start_time == UNKNOWN_GAME_START,
{
    Game {
        id: GameId(UNKNOWN_GAME),
        name: String::from_str("unknown"),
        board: Board { id: BoardId(UNKNOWN_BOARD), name: String::from_str("unknown") },
        started: false,
        finished: false,
        start_time: UNKNOWN_GAME_START,
    }
}

/// The id of the board that is shown where no board is found.
pub const NO_BOARD: i32 = -1;

/// The board that is shown where no board is found: it is called
/// `No Boards!`.
pub fn default_board() -> (r: Board)
    ensures
        r.id == BoardId(NO_BOARD),
        r.name@ == "No Boards!"@,
{
    Board { id: BoardId(NO_BOARD), name: String::from_str("No Boards!") }
}

/// A team with all its turns and the square it was last seen on.
#[derive(Clone, Debug)]
pub struct GameTeam<'a> {
    pub team: Team,
    pub turns: Vec<Turn>,
    pub location: Option<&'a BoardPlace>,
}

/// A game with its teams.
#[derive(Clone, Debug)]
pub struct GameData<'a> {
    pub game: Game,
    pub teams: Vec<GameTeam<'a>>,
}

/// The turns as values, in their order.
pub open spec fn views(turns: Seq<Turn>) -> Seq<TurnView> {
    turns.map_values(|t: Turn| t@)
}

/// The turns of the team among `turns`, in their order.
pub open spec fn turns_of(turns: Seq<Turn>, team_id: TeamId) -> Seq<Turn> {
    turns.filter(|t: Turn| t.team_id == team_id)
}

/// The turns of one team, picked from the turns of a game in their order.
pub fn team_turns(turns: &Vec<Turn>, team_id: TeamId) -> (r: Vec<Turn>)
    ensures
        views(r@) == views(turns_of(turns@, team_id)),
{
    let ghost of_team = |t: Turn| t.team_id == team_id;
    let mut out: Vec<Turn> = Vec::new();
    let mut i: usize = 0;
    proof {
        reveal(Seq::filter);
        assert(turns@.take(0) =~= Seq::<Turn>::empty());
        assert(views(out@) =~= views(turns@.take(0).filter(of_team)));
    }
    while i < turns.len()
        invariant
            0 <= i <= turns.len(),
            of_team == |t: Turn| t.team_id == team_id,
            views(out@) == views(turns@.take(i as int).filter(of_team)),
        decreases turns.len() - i,
    {
        let ghost before = out@;
        proof {
            reveal(Seq::filter);
            assert(turns@.take(i + 1).drop_last() =~= turns@.take(i as int));
            assert(turns@.take(i + 1).last() == turns@[i as int]);
        }
        if turns[i].team_id == team_id {
            out.push(turns[i].clone());
            proof {
                let kept = turns@.take(i as int).filter(of_team);
                assert(turns@.take(i + 1).filter(of_team) =~= kept.push(turns@[i as int]));
                let grown = kept.push(turns@[i as int]);
                assert(views(before).len() == views(kept).len());
                assert forall|j: int| 0 <= j < out@.len() implies views(out@)[j] == views(
                    grown,
                )[j] by {
                    if j < before.len() {
                        assert(views(before)[j] == views(kept)[j]);
                    }
                }
                assert(views(out@) =~= views(grown));
            }
        }
        i += 1;
    }
    assert(turns@.take(i as int) =~= turns@);
    out
}

/// Whether the turn ended on a square that the board holds.
pub open spec fn is_placed(board: BoardPlaces, turn: Turn) -> bool {
    turn.location matches Some(n) && board.spec_find_place(n) is Some
}

/// Whether `i` is the place of the last of the turns that ended on a square
/// of the board.
pub open spec fn is_last_placed(board: BoardPlaces, turns: Seq<Turn>, i: int) -> bool {
    &&& 0 <= i < turns.len()
    &&& is_placed(board, turns[i])
    &&& forall|j: int| i < j < turns.len() ==> !is_placed(board, #[trigger] turns[j])
}

/// Whether `location` is the square that a team with the turns `turns` was
/// last seen on: the square of the last of the turns that ended on a square
/// of the board, and none where no turn did.
pub open spec fn is_last_seen(board: BoardPlaces, turns: Seq<Turn>, location: Option<BoardPlace>)
    -> bool {
    &&& (forall|j: int| 0 <= j < turns.len() ==> !is_placed(board, #[trigger] turns[j]))
        ==> location is None
    &&& (exists|j: int| 0 <= j < turns.len() && is_placed(board, #[trigger] turns[j]))
        ==> location is Some
    &&& forall|i: int| #[trigger]
        is_last_placed(board, turns, i) ==> location is Some && location
            == board.spec_find_place(turns[i].location->Some_0)
}

/// The square of a borrowed square, where there is one.
pub open spec fn deref_place(place: Option<&BoardPlace>) -> Option<BoardPlace> {
    match place {
        Some(p) => Some(*p),
        None => None,
    }
}

/// The square that a team was last seen on: the square of the last of its
/// turns that ended on a square of the board, whether the turn is confirmed
/// or not.
pub fn last_location<'a>(board: &'a BoardPlaces, turns: &Vec<Turn>) -> (r: Option<&'a BoardPlace>)
    ensures
        is_last_seen(*board, turns@, deref_place(r)),
{
    let mut i: usize = turns.len();
    while i > 0
        invariant
            0 <= i <= turns.len(),
            forall|j: int| i <= j < turns@.len() ==> !is_placed(*board, #[trigger] turns@[j]),
        decreases i,
    {
        i -= 1;
        if let Some(n) = turns[i].location {
            if let Some(p) = board.find_place(n) {
                assert(is_last_placed(*board, turns@, i as int));
                assert forall|k: int| #[trigger] is_last_placed(*board, turns@, k) implies k
                    == i by {
                    if k < i {
                        assert(is_placed(*board, turns@[i as int]));
                    }
                }
                return Some(p);
            }
        }
    }
    assert forall|k: int| !#[trigger] is_last_placed(*board, turns@, k) by {}
    None
}

/// One team with its turns, picked from the turns of the game, and the
/// square it was last seen on.
pub fn game_team<'a>(board: &'a BoardPlaces, turns: &Vec<Turn>, team: Team) -> (r: GameTeam<'a>)
    ensures
        r.team == team,
        views(r.turns@) == views(turns_of(turns@, team.team_id)),
        is_last_seen(*board, r.turns@, deref_place(r.location)),
{
    let own = team_turns(turns, team.team_id);
    let location = last_location(board, &own);
    GameTeam { team, turns: own, location }
}

/// A game as its clients see it: every team, in the order given, with its
/// turns and the square it was last seen on.
pub fn get_full_game_data<'a>(board: &'a BoardPlaces, game: Game, teams: &Vec<Team>, turns: &Vec<Turn>)
    -> (r: GameData<'a>)
    ensures
        r.game == game,
        r.teams@.len() == teams@.len(),
        forall|k: int|
            0 <= k < teams@.len() ==> {
                &&& (#[trigger] r.teams@[k]).team == teams@[k]
                &&& views(r.teams@[k].turns@) == views(turns_of(turns@, teams@[k].team_id))
                &&& is_last_seen(*board, r.teams@[k].turns@, deref_place(r.teams@[k].location))
            },
{
    let mut out: Vec<GameTeam<'a>> = Vec::new();
    let mut k: usize = 0;
    while k < teams.len()
        invariant
            0 <= k <= teams.len(),
            out@.len() == k,
            forall|j: int|
                0 <= j < k ==> {
                    &&& (#[trigger] out@[j]).team == teams@[j]
                    &&& views(out@[j].turns@) == views(turns_of(turns@, teams@[j].team_id))
                    &&& is_last_seen(*board, out@[j].turns@, deref_place(out@[j].location))
                },
        decreases teams.len() - k,
    {
        out.push(game_team(board, turns, teams[k].clone()));
        k += 1;
    }
    GameData { game, teams: out }
}

} // verus!
