//! The ways a request to the factory can fail.
use vstd::prelude::*;

verus! {

#[derive(PartialEq, Eq, Structural, Debug, Clone, Copy)]
pub enum ContractError {
    /// The caller may not do this.
    Unauthorized,
    /// Two pair types of the initial list are the same.
    PairConfigDuplicate,
    /// The fees of a pair type are out of bounds.
    PairConfigInvalidFeeBps,
    /// No pair type of that name is known.
    PairConfigNotFound,
    /// The pair type is disabled: no new pairs of it.
    PairConfigDisabled,
    /// The assets repeat, are fewer than two, or one is malformed.
    DoublingAssets,
    /// A pair of these assets exists already.
    PairWasCreated,
    /// The pending pair was registered already.
    PairWasRegistered,
    /// No pair creation is pending.
    PendingPairNotFound,
    /// The callback carries no address that can be read.
    MalformedReplyData,
    /// The callback is not one the factory asked for.
    FailedToParseReply,
    /// No pair of these assets is registered.
    PairNotFound,
    /// There is no ownership proposal, or it has expired.
    OwnershipProposalNotFound,
    /// Ownership was offered to the current owner.
    NewOwnerIsCurrent,
    /// The offer of ownership would stay open longer than allowed.
    ProposalTtlTooLong,
}

} // verus!
