use vstd::prelude::*;

verus! {

/// The typed failures that a transition hands back to the host.
#[derive(Debug, Clone, Copy, PartialEq, Eq, Structural)]
pub enum CampaignError {
    /// Empty payload, unknown opcode, or a decoded field that fails a check.
    InvalidInstruction,
    /// An account that must be owned by this program is not.
    OwnershipMismatch,
    /// A required signature is missing, or the caller is not the administrator.
    Unauthorized,
    /// A balance lies below the floor that the operation needs.
    InsufficientFunds,
    /// A record or request does not decode, or does not fit its buffer.
    MalformedInput,
    /// Fewer accounts were supplied than the transition reads.
    MissingAccount,
    /// A balance or the donation total would leave the range of `u64`.
    ArithmeticOverflow,
}

} // verus!
