//! Coins of the United States, and a roll of the dice.

use vstd::prelude::*;

verus! {

/// A state whose quarter is known here.
#[derive(Clone, Copy, Debug, PartialEq, Eq, Structural)]
pub enum UsState {
    Alabama,
    Alaska,
    California,
}

/// A coin; a quarter bears a state.
#[derive(Clone, Copy, Debug, PartialEq, Eq, Structural)]
pub enum Coin {
    Penny,
    Nickel,
    Dime,
    Quarter(UsState),
}

impl UsState {
    /// The year in which the state joined the union.
    pub open spec fn admitted(self) -> nat {
        match self {
            UsState::Alabama => 1819,
            UsState::California => 1850,
            UsState::Alaska => 1959,
        }
    }

    /// The name of the state.
    pub open spec fn name_text(self) -> Seq<char> {
        match self {
            UsState::Alabama => "Alabama"@,
            UsState::Alaska => "Alaska"@,
            UsState::California => "California"@,
        }
    }

    /// Whether the state was in the union in `year`.
    pub fn existed_in(&self, year: u16) -> (existed: bool)
        ensures
            existed == (year >= self.admitted()),
    {
        match self {
            UsState::Alabama => year >= 1819,
            UsState::California => year >= 1850,
            UsState::Alaska => year >= 1959,
        }
    }

    /// The name of the state.
    pub fn name(&self) -> (name: &'static str)
        ensures
            name@ == self.name_text(),
    {
        match self {
            UsState::Alabama => "Alabama",
            UsState::Alaska => "Alaska",
            UsState::California => "California",
        }
    }
}

impl Coin {
    /// What the coin is worth, in cents.
    pub open spec fn cents(self) -> nat {
        match self {
            Coin::Penny => 1,
            Coin::Nickel => 5,
            Coin::Dime => 10,
            Coin::Quarter(_) => 25,
        }
    }
}

/// What is said of the state of a quarter: that it is old where the state
/// was in the union in 1900, else that it is new. Nothing is said of other
/// coins.
pub open spec fn quarter_text(coin: Coin) -> Option<Seq<char>> {
    match coin {
        Coin::Quarter(state) => Some(
            if state.admitted() <= 1900 {
                state.name_text() + " is pretty old, for America!"@
            } else {
                state.name_text() + " is relatively new."@
            },
        ),
        _ => None,
    }
}

/// Where a roll of the dice takes the player: 3 and 7 win or cost a hat
/// and move nobody; every other roll moves as many spaces as it shows.
pub open spec fn spaces_for(dice_roll: u8) -> u8 {
    if dice_roll == 3 || dice_roll == 7 {
        0
    } else {
        dice_roll
    }
}

/// What the coin is worth, in cents.
pub fn value_in_cents(coin: Coin) -> (cents: u8)
    ensures
        cents == coin.cents(),
{
    match coin {
        Coin::Penny => 1,
        Coin::Nickel => 5,
        Coin::Dime => 10,
        Coin::Quarter(_) => 25,
    }
}

/// What is said of the state of a quarter, `None` for other coins.
pub fn describe_quarter_state(coin: &Coin) -> (said: Option<String>)
    ensures
        match (said, quarter_text(*coin)) {
            (Some(sentence), Some(text)) => sentence@ == text,
            (None, None) => true,
            _ => false,
        },
{
    match coin {
        Coin::Quarter(state) => {
            let mut sentence = String::from_str(state.name());
            if state.existed_in(1900) {
                sentence.append(" is pretty old, for America!");
            } else {
                sentence.append(" is relatively new.");
            }
            Some(sentence)
        },
        _ => None,
    }
}

/// One more than the number, where there is a number.
pub fn plus_one(x: Option<i32>) -> (next: Option<i32>)
    requires
        x != Some(i32::MAX),
    ensures
        match x {
            Some(i) => next == Some((i + 1) as i32),
            None => next is None,
        },
{
    match x {
        None => None,
        Some(i) => Some(i + 1),
    }
}

/// Where a roll of the dice takes the player.
pub fn spaces_to_move(dice_roll: u8) -> (spaces: u8)
    ensures
        spaces == spaces_for(dice_roll),
{
    match dice_roll {
        3 => 0,
        7 => 0,
        other => other,
    }
}

} // verus!
