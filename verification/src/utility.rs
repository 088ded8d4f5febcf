//! The failures that an operation can report and the events that it records.

use crate::primitives::{Address, Bytes32, U256};
use vstd::prelude::*;

verus! {

/// Why an operation was rejected. A rejected operation changes nothing.
#[derive(Debug, PartialEq, Eq)]
pub enum Erc20Error {
    /// The account `from` holds `have`, less than the `want` asked of it.
    InsufficientBalance { from: Address, have: U256, want: U256 },
    /// `spender` may draw `have` from `owner`, less than the `want` asked.
    InsufficientAllowance { owner: Address, spender: Address, have: U256, want: U256 },
    /// The caller is not the owner.
    OnlyOwner,
    /// The address `zero`, which is the zero address, was given where a real
    /// participant is needed.
    AddressZero { zero: Address },
    /// The caller is not a registered player.
    NotRegistered,
    /// The owner cannot register as a player.
    CannotRegister,
    /// The caller is registered already.
    Registered,
    /// There is no player to reward.
    NoPlayer,
    /// The transfer inside a larger operation was rejected.
    TransferFailed,
    /// No such player or property.
    NotFound,
    /// The player is not suspended.
    NotSuspended,
    /// The buyer's balance is below the price.
    Insufficient,
}

/// What a successful operation records in the ledger's log.
#[derive(Debug, PartialEq, Eq)]
pub enum Event {
    /// `value` moved from `from` to `to`. Minted tokens come from the zero
    /// address and burnt ones go to it.
    Transfer { from: Address, to: Address, value: U256 },
    /// `owner` lets `spender` draw up to `value`.
    Approval { owner: Address, spender: Address, value: U256 },
    /// `player` registered.
    PlayerRegisters { player: Address, success: bool },
    /// One round of rewards: their sum and the number of players rewarded.
    RewardDistributed { total_rewards: U256, number_of_players: U256 },
    /// A registered player sent `amount` to `recipient`.
    PlayerP2P { sender: Address, recipient: Address, amount: U256 },
    /// `new_owner` bought the property `prop_id`.
    PropBought { new_owner: Address, prop_id: Bytes32, prop_name: String },
}

} // verus!
