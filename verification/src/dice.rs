//! Dice: which values are legal, and what a throw is worth.

use vstd::prelude::*;
use crate::errors::AppError;
use crate::text::{decimal, with_decimal};

verus! {

/// A die shows one to six pips.
pub open spec fn valid_die(d: int) -> bool {
    1 <= d <= 6
}

/// The message of the error that refuses the die value `d`.
pub open spec fn dice_message(d: int) -> Seq<char> {
    "Dice value must be between 1 and 6, it was "@ + decimal(d)
}

/// Accepts a die value from one to six and refuses every other.
pub fn check_dice(dice: i32) -> (r: Result<i32, AppError>)
    ensures
        valid_die(dice as int) ==> r is Ok && r->Ok_0 == dice,
        !valid_die(dice as int) ==> r is Err && r->Err_0 is Validation
            && r->Err_0.message() == dice_message(dice as int),
{
    if dice < 1 || dice > 6 {
        Err(AppError::Validation(with_decimal("Dice value must be between 1 and 6, it was ", dice)))
    } else {
        Ok(dice)
    }
}

/// What an optional die stands for: an absent die and a zero are both
/// "not thrown".
pub open spec fn opt_die(dice: Option<i32>) -> Option<i32> {
    match dice {
        Some(d) => if d == 0 {
            None
        } else {
            Some(d)
        },
        None => None,
    }
}

/// Checks a die that may be missing. A missing die and a zero both count as
/// "not thrown"; any other value has to be a legal die.
pub fn check_opt_dice(dice: Option<i32>) -> (r: Result<Option<i32>, AppError>)
    ensures
        opt_die(dice) is None ==> r is Ok && r->Ok_0 is None,
        opt_die(dice) matches Some(d) ==> (valid_die(d as int) ==> r is Ok && r->Ok_0 == Some(d)),
        opt_die(dice) matches Some(d) ==> (!valid_die(d as int) ==> r is Err
            && r->Err_0 is Validation && r->Err_0.message() == dice_message(d as int)),
{
    match dice {
        None => Ok(None),
        Some(d) => {
            if d == 0 {
                Ok(None)
            } else {
                match check_dice(d) {
                    Ok(v) => Ok(Some(v)),
                    Err(e) => Err(e),
                }
            }
        },
    }
}

/// The number of squares a throw moves the team: the smaller of the two dice.
pub open spec fn throw_steps_spec(dice1: int, dice2: int) -> int {
    if dice1 <= dice2 {
        dice1
    } else {
        dice2
    }
}

/// The number of squares a throw of two legal dice moves the team: the
/// smaller of the two, not their sum.
pub fn throw_steps(dice1: i32, dice2: i32) -> (r: i8)
    requires
        valid_die(dice1 as int),
        valid_die(dice2 as int),
    ensures
        r as int == throw_steps_spec(dice1 as int, dice2 as int),
{
    if dice1 <= dice2 {
        dice1 as i8
    } else {
        dice2 as i8
    }
}

/// The steps of a throw of two legal dice are the smaller die: no more than
/// either die, equal to one of them, and so again from one to six.
pub proof fn lemma_steps_are_the_smaller_die(dice1: int, dice2: int)
    requires
        valid_die(dice1),
        valid_die(dice2),
    ensures
        throw_steps_spec(dice1, dice2) <= dice1,
        throw_steps_spec(dice1, dice2) <= dice2,
        throw_steps_spec(dice1, dice2) == dice1 || throw_steps_spec(dice1, dice2) == dice2,
        valid_die(throw_steps_spec(dice1, dice2)),
        throw_steps_spec(dice1, dice2) == throw_steps_spec(dice2, dice1),
{
}

} // verus!
