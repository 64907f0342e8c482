//! Addresses and coins: values that are one of several kinds.

use vstd::prelude::*;

verus! {

/// The two kinds of IP address.
#[allow(non_camel_case_types)]
#[derive(Debug, Clone, Copy, PartialEq, Eq, Structural)]
pub enum IPAddrKind {
    v4,
    v6,
}

/// An IP address as text, with its kind beside it.
#[derive(Debug, PartialEq, Eq)]
pub struct IPAddr {
    pub kind: IPAddrKind,
    pub address: String,
}

/// An IP address that carries its data in the kind itself.
#[allow(non_camel_case_types)]
#[derive(Debug, PartialEq, Eq)]
pub enum IPAddress {
    v4(u8, u8, u8, u8),
    v6(String),
}

/// The state that a quarter was minted for.
#[derive(Debug, Clone, Copy, PartialEq, Eq, Structural)]
pub enum UsState {
    Alabama,
    Alaska,
}

/// A coin.
#[derive(Debug, Clone, Copy, PartialEq, Eq, Structural)]
pub enum Coin {
    Penny,
    Nickel,
    Dime,
    Quarter(UsState),
}

impl Coin {
    /// The value of the coin in cents.
    pub open spec fn cents(self) -> int {
        match self {
            Coin::Penny => 1,
            Coin::Nickel => 5,
            Coin::Dime => 10,
            Coin::Quarter(_) => 25,
        }
    }
}

/// The value of a coin in cents.
pub fn value_in_coin(coin: Coin) -> (cents: u8)
    ensures
        cents == coin.cents(),
{
    match coin {
        Coin::Penny => 1,
        Coin::Nickel => 5,
        Coin::Dime => 10,
        Coin::Quarter(_) => 25,
    }
}

} // verus!
