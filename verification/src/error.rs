//! The error kinds that an invocation can end in.

use vstd::prelude::*;

verus! {

/// The steps of one reward issuance, in the order in which they run.
#[derive(Clone, Copy, Debug, PartialEq, Eq, Structural)]
pub enum IssuanceStep {
    /// Deriving the address of the reward resource.
    DeriveAddress,
    /// Creating the token-class record at that address.
    CreateTokenClass,
    /// Creating the player's holding account under the token class.
    CreateHoldingAccount,
    /// Minting the single unit into the holding account.
    Mint,
}

/// Why an invocation failed. Every error aborts the whole invocation, with
/// none of its effects left behind.
#[derive(Clone, Copy, Debug, PartialEq, Eq, Structural)]
pub enum ErrorCode {
    /// The player has completed this challenge before.
    AlreadyCompleted,
    /// No challenge is registered under this id.
    UnknownChallenge,
    /// A challenge is registered under this id already.
    ChallengeAlreadyExists,
    /// The descriptor URI is longer than 200 bytes.
    DescriptorTooLong,
    /// The experience counter cannot hold another reward.
    ExperienceOverflow,
    /// Issuing the reward failed at the given step.
    ExternalIssuanceFailure(IssuanceStep),
}

impl ErrorCode {
    /// What the error says to the caller.
    pub fn message(&self) -> (text: &'static str)
        ensures
            text@ == match *self {
                ErrorCode::AlreadyCompleted => "Challenge already completed"@,
                ErrorCode::UnknownChallenge => "Challenge is not registered"@,
                ErrorCode::ChallengeAlreadyExists => "Challenge already exists"@,
                ErrorCode::DescriptorTooLong => "Descriptor URI is longer than 200 bytes"@,
                ErrorCode::ExperienceOverflow => "Experience counter overflow"@,
                ErrorCode::ExternalIssuanceFailure(_) => "Reward issuance failed"@,
            },
    {
        match self {
            ErrorCode::AlreadyCompleted => "Challenge already completed",
            ErrorCode::UnknownChallenge => "Challenge is not registered",
            ErrorCode::ChallengeAlreadyExists => "Challenge already exists",
            ErrorCode::DescriptorTooLong => "Descriptor URI is longer than 200 bytes",
            ErrorCode::ExperienceOverflow => "Experience counter overflow",
            ErrorCode::ExternalIssuanceFailure(_) => "Reward issuance failed",
        }
    }

    /// Whether the caller may try the same invocation again once the
    /// precondition is mended: true of every error but `AlreadyCompleted`,
    /// which is permanent for its player and challenge.
    pub fn is_retryable(&self) -> (retryable: bool)
        ensures
            retryable == !(*self is AlreadyCompleted),
    {
        match self {
            ErrorCode::AlreadyCompleted => false,
            _ => true,
        }
    }
}

} // verus!
