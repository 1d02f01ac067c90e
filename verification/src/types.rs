//! The records of the game: boards and their squares, drinks, teams and turns.
//!
//! Every field is public and holds a plain value, so that calling code can
//! build a record from whatever storage it reads. Time stamps are whole
//! numbers on the caller's clock (milliseconds since the epoch, say): the
//! engine only stores and compares them.

use vstd::prelude::*;
use crate::ids::{BoardId, DrinkId, GameId, PlaceId, TeamId, TurnId, UserId};

verus! {

/// What kind of square a place is.
#[derive(Clone, Copy, Debug, PartialEq, Eq, Structural)]
pub enum PlaceType {
    Normal,
    Food,
    Sauna,
    Special,
    Guild,
}

/// The role that a user acts in.
#[derive(Clone, Copy, Debug, PartialEq, Eq, Structural)]
pub enum UserType {
    Admin,
    Ie,
    Referee,
    Secretary,
}

impl UserType {
    /// The role's name as it is stored and shown.
    pub open spec fn name(self) -> Seq<char> {
        match self {
            UserType::Admin => "Admin"@,
            UserType::Ie => "Ie"@,
            UserType::Referee => "Referee"@,
            UserType::Secretary => "Secretary"@,
        }
    }

    /// The role's name as it is stored and shown.
    pub fn as_str(&self) -> (r: &'static str)
        ensures
            r@ == self.name(),
    {
        match self {
            UserType::Admin => "Admin",
            UserType::Ie => "Ie",
            UserType::Referee => "Referee",
            UserType::Secretary => "Secretary",
        }
    }
}

/// The roles of one user, in the order in which they were granted.
#[derive(Clone, Debug)]
pub struct UsersTypes {
    pub user_types: Vec<UserType>,
}

impl View for UsersTypes {
    type V = Seq<UserType>;

    open spec fn view(&self) -> Seq<UserType> {
        self.user_types@
    }
}

impl UsersTypes {
    /// No role at all.
    pub fn new() -> (r: Self)
        ensures
            r@ == Seq::<UserType>::empty(),
    {
        Self { user_types: Vec::new() }
    }

    /// Adds a role behind those already held.
    pub fn push(&mut self, user_type: UserType)
        ensures
            final(self)@ == old(self)@.push(user_type),
    {
        self.user_types.push(user_type);
    }

    /// Whether the user holds the role.
    pub fn contains(&self, user_type: UserType) -> (r: bool)
        ensures
            r == self@.contains(user_type),
    {
        let mut i: usize = 0;
        while i < self.user_types.len()
            invariant
                0 <= i <= self.user_types.len(),
                forall|j: int| 0 <= j < i ==> self.user_types@[j] != user_type,
            decreases self.user_types.len() - i,
        {
            if self.user_types[i] == user_type {
                return true;
            }
            i += 1;
        }
        false
    }
}

/// A session token as a client sends it.
#[derive(Clone, Debug)]
pub struct SocketAuth {
    pub token: String,
}

/// What a user sends to log in.
#[derive(Clone, Debug)]
pub struct LoginInfo {
    pub username: String,
    pub password: String,
}

/// A user as the other users may see them.
#[derive(Clone, Debug)]
pub struct UserInfo {
    pub uid: UserId,
    pub username: String,
    pub email: String,
    pub user_types: UsersTypes,
}

/// What is needed to create a user.
#[derive(Clone, Debug)]
pub struct UserCreateInfo {
    pub username: String,
    pub email: String,
    pub user_type: UserType,
    pub password: String,
}

/// A session: who holds it, its token, and the roles it may act in.
#[derive(Clone, Debug)]
pub struct SessionInfo {
    pub uid: UserId,
    pub session_hash: String,
    pub user_types: UsersTypes,
}

/// A team of one game.
#[derive(Debug)]
pub struct Team {
    pub team_id: TeamId,
    pub game_id: GameId,
    pub team_name: String,
    pub team_hash: String,
    /// Set while the team's drinks are doubled by the side area.
    pub double_tampere: bool,
    pub moral_victory_eligible: bool,
}

impl Clone for Team {
    fn clone(&self) -> (r: Self)
        ensures
            r == *self,
    {
        Team {
            team_id: self.team_id,
            game_id: self.game_id,
            team_name: self.team_name.clone(),
            team_hash: self.team_hash.clone(),
            double_tampere: self.double_tampere,
            moral_victory_eligible: self.moral_victory_eligible,
        }
    }
}

/// A new name for a team.
#[derive(Clone, Debug)]
pub struct TeamNameUpdate {
    pub team_name: String,
}

/// A drink of the bar's list.
#[derive(Debug)]
pub struct Drink {
    pub id: DrinkId,
    pub name: String,
    pub favorite: bool,
    /// Set for a drink that is handed out as it is.
    pub no_mix_required: bool,
}

impl Clone for Drink {
    fn clone(&self) -> (r: Self)
        ensures
            r == *self,
    {
        Drink {
            id: self.id,
            name: self.name.clone(),
            favorite: self.favorite,
            no_mix_required: self.no_mix_required,
        }
    }
}

/// The bar's list of drinks.
#[derive(Clone, Debug)]
pub struct Drinks {
    pub drinks: Vec<Drink>,
}

/// One drink that a turn obliges the team to.
#[derive(Debug)]
pub struct TurnDrink {
    pub drink: Drink,
    /// How many portions.
    pub n: i32,
    /// How many of them stand on the table already and need no mixing.
    pub on_table: i32,
    /// Whether an assistant referee has to see to this drink before the
    /// turn is confirmed.
    pub optional: bool,
}

impl Clone for TurnDrink {
    fn clone(&self) -> (r: Self)
        ensures
            r == *self,
    {
        TurnDrink {
            drink: self.drink.clone(),
            n: self.n,
            on_table: self.on_table,
            optional: self.optional,
        }
    }
}

/// The drinks of one turn.
#[derive(Debug)]
pub struct TurnDrinks {
    pub drinks: Vec<TurnDrink>,
}

impl View for TurnDrinks {
    type V = Seq<TurnDrink>;

    open spec fn view(&self) -> Seq<TurnDrink> {
        self.drinks@
    }
}

impl Clone for TurnDrinks {
    fn clone(&self) -> (r: Self)
        ensures
            r@ == self@,
    {
        let mut drinks: Vec<TurnDrink> = Vec::new();
        let mut i: usize = 0;
        while i < self.drinks.len()
            invariant
                0 <= i <= self.drinks.len(),
                drinks@ == self.drinks@.take(i as int),
            decreases self.drinks.len() - i,
        {
            drinks.push(self.drinks[i].clone());
            assert(drinks@ =~= self.drinks@.take(i + 1));
            i += 1;
        }
        assert(self.drinks@.take(i as int) =~= self.drinks@);
        TurnDrinks { drinks }
    }
}

/// The drinks that every team starts a game with.
#[derive(Clone, Debug)]
pub struct FirstTurnPost {
    pub game_id: GameId,
    pub drinks: Vec<TurnDrink>,
}

/// A board by its name.
#[derive(Debug)]
pub struct Board {
    pub id: BoardId,
    pub name: String,
}

impl Clone for Board {
    fn clone(&self) -> (r: Self)
        ensures
            r == *self,
    {
        Board { id: self.id, name: self.name.clone() }
    }
}

/// All boards.
#[derive(Clone, Debug)]
pub struct Boards {
    pub boards: Vec<Board>,
}

/// What is needed to open a game.
#[derive(Clone, Debug)]
pub struct PostGame {
    pub name: String,
    pub board: BoardId,
}

/// A place as such, wherever it lies on a board.
#[derive(Clone, Debug)]
pub struct Place {
    pub place_id: PlaceId,
    pub place_name: String,
    pub rule: String,
    pub place_type: PlaceType,
    /// A tag for a square with a rule of its own, such as `-D1` for the
    /// square that sends the team backwards by a die.
    pub special: Option<String>,
}

/// All places.
#[derive(Clone, Debug)]
pub struct Places {
    pub places: Vec<Place>,
}

/// A directed edge of the board, stored with the square it leaves.
///
/// The two flags give four kinds of edge:
/// - neither set: an ordinary step forwards;
/// - `on_land` alone: a detour that is taken by itself when a move comes to
///   rest on the origin, and that ends the move where it is the only way
///   forwards;
/// - `backwards` alone: a step that is taken only while moving backwards, or
///   where no way leads forwards;
/// - both: the first step of a move that starts backwards from the origin.
///
/// `dashed` only changes how the edge is drawn.
#[derive(Clone, Copy, Debug)]
pub struct Connection {
    pub board_id: BoardId,
    /// The number of the square that the edge leaves.
    pub origin: i32,
    /// The number of the square that the edge leads to.
    pub target: i32,
    pub on_land: bool,
    pub backwards: bool,
    pub dashed: bool,
}

/// The edges that leave one square, in the order in which they are tried.
#[derive(Clone, Debug)]
pub struct Connections {
    pub connections: Vec<Connection>,
}

impl View for Connections {
    type V = Seq<Connection>;

    open spec fn view(&self) -> Seq<Connection> {
        self.connections@
    }
}

/// A drink that waits on a square.
#[derive(Debug)]
pub struct PlaceDrink {
    /// The number of the square on its board.
    pub place_number: i32,
    pub board_id: BoardId,
    pub drink: Drink,
    /// Whether the drink is served at every visit, or only at the first.
    pub refill: bool,
    pub optional: bool,
    /// Whether the drink stands on the table and needs no mixing.
    pub on_table: bool,
    /// How many portions one visit is worth.
    pub n: i32,
}

impl Clone for PlaceDrink {
    fn clone(&self) -> (r: Self)
        ensures
            r == *self,
    {
        PlaceDrink {
            place_number: self.place_number,
            board_id: self.board_id,
            drink: self.drink.clone(),
            refill: self.refill,
            optional: self.optional,
            on_table: self.on_table,
            n: self.n,
        }
    }
}

/// The drinks that wait on one square.
#[derive(Clone, Debug)]
pub struct PlaceDrinks {
    pub drinks: Vec<PlaceDrink>,
}

impl View for PlaceDrinks {
    type V = Seq<PlaceDrink>;

    open spec fn view(&self) -> Seq<PlaceDrink> {
        self.drinks@
    }
}

/// A square of a board: a place at a position, with the edges that leave it
/// and the drinks that wait on it.
#[derive(Clone, Debug)]
pub struct BoardPlace {
    pub board_id: BoardId,
    pub place: Place,
    /// The square's number on its board.
    pub place_number: i32,
    pub start: bool,
    /// The zone that the square lies in, such as `normal` or `tampere`.
    pub area: String,
    pub end: bool,
    pub connections: Connections,
    pub drinks: PlaceDrinks,
}

/// A board with all its squares.
#[derive(Clone, Debug)]
pub struct BoardPlaces {
    pub board: Board,
    pub places: Vec<BoardPlace>,
}

/// How far the bar is with the drinks of a turn.
#[derive(Clone, Copy, Debug, PartialEq, Eq, Structural)]
pub enum DrinkPrepStatus {
    Queued,
    Mixing,
    Mixed,
    Delivered,
}

/// A request to set how far the bar is.
#[derive(Clone, Debug)]
pub struct SetDrinkPrepStatusBody {
    pub status: DrinkPrepStatus,
}

/// A request to start a turn.
#[derive(Clone, Copy, Debug)]
pub struct PostStartTurn {
    pub team_id: TeamId,
    pub game_id: GameId,
    /// First die; without it the turn starts before the throw.
    pub dice1: Option<i32>,
    /// Second die; without it the turn starts before the throw.
    pub dice2: Option<i32>,
    /// The die that counts the steps back from the square that sends the
    /// team backwards.
    pub dice_ayy: Option<i32>,
    /// Whether the turn only hands out drinks.
    pub penalty: bool,
}

/// A request to replace the dice of a turn.
#[derive(Clone, Copy, Debug)]
pub struct ChangeDiceBody {
    pub dice1: i32,
    pub dice2: i32,
    pub dice_ayy: Option<i32>,
}

/// A request to confirm a turn with the drinks that the referee settled on.
#[derive(Clone, Debug)]
pub struct ConfirmTurnBody {
    pub drinks: TurnDrinks,
}

/// A request to mark a team as eligible for the moral victory, or not.
#[derive(Clone, Copy, Debug)]
pub struct SetMoralVictoryEligibleBody {
    pub moral_victory_eligible: bool,
}

/// One turn of one team.
#[derive(Debug)]
pub struct Turn {
    pub turn_id: TurnId,
    pub team_id: TeamId,
    pub game_id: GameId,
    /// When the turn, or the penalty, was given.
    pub start_time: i64,
    /// When the dice were thrown.
    pub thrown_at: Option<i64>,
    /// When the referee confirmed the throw and the square, or the penalty.
    pub confirmed_at: Option<i64>,
    /// When the bar started on the drinks.
    pub mixing_at: Option<i64>,
    /// When the bar finished the drinks.
    pub mixed_at: Option<i64>,
    /// When the drinks reached the players.
    pub delivered_at: Option<i64>,
    /// When the players raised their hands.
    pub end_time: Option<i64>,
    pub dice1: Option<i32>,
    pub dice2: Option<i32>,
    /// The die for the steps back from the square that sends the team
    /// backwards.
    pub dice_ayy: Option<i32>,
    /// The number of the square that the team ends on, once the dice are
    /// thrown.
    pub location: Option<i32>,
    /// The number of the square that the move passed through on a detour.
    pub via: Option<i32>,
    /// Whether the turn only hands out drinks.
    pub penalty: bool,
    pub drinks: TurnDrinks,
}

/// A turn as a value of its fields, with the drinks as a sequence.
pub struct TurnView {
    pub turn_id: TurnId,
    pub team_id: TeamId,
    pub game_id: GameId,
    pub start_time: i64,
    pub thrown_at: Option<i64>,
    pub confirmed_at: Option<i64>,
    pub mixing_at: Option<i64>,
    pub mixed_at: Option<i64>,
    pub delivered_at: Option<i64>,
    pub end_time: Option<i64>,
    pub dice1: Option<i32>,
    pub dice2: Option<i32>,
    pub dice_ayy: Option<i32>,
    pub location: Option<i32>,
    pub via: Option<i32>,
    pub penalty: bool,
    pub drinks: Seq<TurnDrink>,
}

impl View for Turn {
    type V = TurnView;

    open spec fn view(&self) -> TurnView {
        TurnView {
            turn_id: self.turn_id,
            team_id: self.team_id,
            game_id: self.game_id,
            start_time: self.start_time,
            thrown_at: self.thrown_at,
            confirmed_at: self.confirmed_at,
            mixing_at: self.mixing_at,
            mixed_at: self.mixed_at,
            delivered_at: self.delivered_at,
            end_time: self.end_time,
            dice1: self.dice1,
            dice2: self.dice2,
            dice_ayy: self.dice_ayy,
            location: self.location,
            via: self.via,
            penalty: self.penalty,
            drinks: self.drinks@,
        }
    }
}

impl Clone for Turn {
    fn clone(&self) -> (r: Self)
        ensures
            r@ == self@,
    {
        Turn {
            turn_id: self.turn_id,
            team_id: self.team_id,
            game_id: self.game_id,
            start_time: self.start_time,
            thrown_at: self.thrown_at,
            confirmed_at: self.confirmed_at,
            mixing_at: self.mixing_at,
            mixed_at: self.mixed_at,
            delivered_at: self.delivered_at,
            end_time: self.end_time,
            dice1: self.dice1,
            dice2: self.dice2,
            dice_ayy: self.dice_ayy,
            location: self.location,
            via: self.via,
            penalty: self.penalty,
            drinks: self.drinks.clone(),
        }
    }
}

/// A team with its latest confirmed turn that moved it, and the square that
/// this turn ended on: the square the team stands on.
#[derive(Clone, Debug)]
pub struct TeamLatestTurn<'a> {
    pub team: Team,
    pub latest_turn: Option<&'a Turn>,
    pub location: Option<&'a BoardPlace>,
}

/// A number as the answer to a request.
#[derive(Clone, Copy, Debug)]
pub struct ResultIntJson {
    pub int: i32,
}

} // verus!
