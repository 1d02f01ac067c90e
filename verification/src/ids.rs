//! Typed identifiers. Each wraps the integer key of one kind of record, so
//! that a team id cannot be handed in where a turn id is expected.

use vstd::prelude::*;

verus! {

#[derive(Debug, Clone, Copy, PartialEq, Eq, Hash, Structural)]
pub struct UserId(pub i32);

#[derive(Debug, Clone, Copy, PartialEq, Eq, Hash, Structural)]
pub struct GameId(pub i32);

#[derive(Debug, Clone, Copy, PartialEq, Eq, Hash, Structural)]
pub struct TeamId(pub i32);

#[derive(Debug, Clone, Copy, PartialEq, Eq, Hash, Structural)]
pub struct TurnId(pub i32);

#[derive(Debug, Clone, Copy, PartialEq, Eq, Hash, Structural)]
pub struct BoardId(pub i32);

#[derive(Debug, Clone, Copy, PartialEq, Eq, Hash, Structural)]
pub struct PlaceId(pub i32);

#[derive(Debug, Clone, Copy, PartialEq, Eq, Hash, Structural)]
pub struct DrinkId(pub i32);

#[derive(Debug, Clone, Copy, PartialEq, Eq, Hash, Structural)]
pub struct IngredientId(pub i32);

} // verus!
