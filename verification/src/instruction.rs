use vstd::prelude::*;

verus! {

/// An outgoing instruction for the host to dispatch after the call commits,
/// in emission order. Emitting one says nothing about whether it will
/// succeed; the library never observes the outcome.
#[derive(Debug)]
pub enum Instruction {
    /// Ask the token contract to move `amount` from this contract's balance.
    Transfer { token: String, recipient: String, amount: u128 },
    /// Ask the token contract to move `amount` out of `owner`'s balance on
    /// this contract's behalf.
    TransferFrom { token: String, owner: String, recipient: String, amount: u128 },
    /// Ask the vesting contract at `contract` to set `recipient`'s total
    /// entitlement to `total`.
    UpdateRecipient { contract: String, recipient: String, total: u64 },
    /// Ask the contract at `contract` to start its vesting schedule at
    /// `new_start_time`.
    SetStartTime { contract: String, new_start_time: u64 },
}

} // verus!
