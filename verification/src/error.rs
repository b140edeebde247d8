use vstd::prelude::*;

verus! {

/// Why a call failed. Every failure is terminal for the call: a function that
/// returns one of these leaves its state arguments unchanged.
#[derive(Clone, Copy, Debug, PartialEq, Eq, Structural)]
pub enum ContractError {
    /// A non-owner invoked an owner-gated action.
    Unauthorized,
    /// The caller has no allowlist entry to deposit against.
    NotWhitelisted,
    /// The recomputed merkle hash differs from the published root.
    ProofMismatch,
    /// A proof element or the root is not a hex-encoded 32-byte digest.
    ProofDecodeError,
    /// The deposit would push the participant past the allocation cap.
    ExceedAllocation,
    /// A public-phase deposit outside the public sale window.
    PublicNotInProgress,
    /// A private-phase deposit before the private sale opened.
    PrivateNotInProgress,
    /// An owner action that must wait until the sale window closes.
    StillInProgress,
    /// A withdrawal of more than the stored balance.
    InsufficientBalance,
    /// A vesting withdrawal when nothing is withdrawable.
    NothingToWithdraw,
    /// An amount no longer fits the external amount type, or the exchange
    /// rate is misconfigured; there is no recovery path.
    AmountOverflow,
    /// A payload that matches no known message.
    InvalidInput,
}

} // verus!
