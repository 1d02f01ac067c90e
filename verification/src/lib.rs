//! Board-traversal and turn-state engine of a refereed party board game.
//!
//! Teams move along a branching board graph, collect drink obligations on the
//! squares they land on, and every turn runs through a throw / confirm /
//! mix / deliver life cycle. All of the rules are plain functions on plain
//! values; storage and transport live outside this crate.
//!
//! - [`types`], [`ids`], [`errors`]: the records and the error that every
//!   operation shares;
//! - [`dice`], [`board`], [`drinks`]: what a throw is worth, where a move
//!   ends, and which drinks wait there;
//! - [`turns`]: the life of a turn, from its start to its end;
//! - [`game`], [`assembly`], [`users`]: records put together from the flat
//!   lists that storage holds;
//! - [`auth`]: passwords, tokens and roles;
//! - [`text`]: the few operations on text that the messages need.

pub mod ids;
pub mod errors;
pub mod text;
pub mod dice;
pub mod types;
pub mod board;
pub mod drinks;
pub mod turns;
pub mod auth;
pub mod game;
pub mod assembly;
pub mod users;
