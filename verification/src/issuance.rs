//! Issuing the reward token: a chain of three calls into the token-issuance
//! subsystem, run as a state machine whose caller performs each call and
//! hands back how it ended.

use vstd::prelude::*;
use crate::address::{Address, AddressDeriver, DerivedAddress, REWARD_MINT_SEED};
use crate::error::{ErrorCode, IssuanceStep};

verus! {

/// The number of decimals of a reward token class: rewards come in whole units.
pub const REWARD_DECIMALS: u8 = 0;

/// The number of units minted per completion.
pub const REWARD_AMOUNT: u64 = 1;

/// How one call into the token-issuance subsystem ended.
#[derive(Clone, Copy, Debug, PartialEq, Eq, Structural)]
pub enum StepOutcome {
    Succeeded,
    Failed,
}

/// How the subsystem answers each of the three calls of one issuance.
#[derive(Clone, Copy, Debug, PartialEq, Eq, Structural)]
pub struct IssuanceReplies {
    pub create_token_class: StepOutcome,
    pub create_holding_account: StepOutcome,
    pub mint: StepOutcome,
}

impl IssuanceReplies {
    /// The first call that the subsystem rejects, if it rejects any.
    pub open spec fn first_failure(self) -> Option<IssuanceStep> {
        if self.create_token_class is Failed {
            Some(IssuanceStep::CreateTokenClass)
        } else if self.create_holding_account is Failed {
            Some(IssuanceStep::CreateHoldingAccount)
        } else if self.mint is Failed {
            Some(IssuanceStep::Mint)
        } else {
            None
        }
    }

    /// The answer to the call of `step`; deriving the address is no call
    /// into the subsystem and counts as answered.
    pub open spec fn reply_to(self, step: IssuanceStep) -> StepOutcome {
        match step {
            IssuanceStep::DeriveAddress => StepOutcome::Succeeded,
            IssuanceStep::CreateTokenClass => self.create_token_class,
            IssuanceStep::CreateHoldingAccount => self.create_holding_account,
            IssuanceStep::Mint => self.mint,
        }
    }

    /// The replies of a subsystem that accepts every call.
    pub fn all_succeed() -> (replies: IssuanceReplies)
        ensures
            replies.first_failure() is None,
    {
        IssuanceReplies {
            create_token_class: StepOutcome::Succeeded,
            create_holding_account: StepOutcome::Succeeded,
            mint: StepOutcome::Succeeded,
        }
    }

    /// The replies of a subsystem that accepts every call before `step` and
    /// rejects the call of `step`.
    pub fn failing_at(step: IssuanceStep) -> (replies: IssuanceReplies)
        ensures
            replies.first_failure() == if step is DeriveAddress {
                None
            } else {
                Some(step)
            },
    {
        let mut replies = IssuanceReplies::all_succeed();
        match step {
            IssuanceStep::DeriveAddress => {},
            IssuanceStep::CreateTokenClass => {
                replies.create_token_class = StepOutcome::Failed;
            },
            IssuanceStep::CreateHoldingAccount => {
                replies.create_holding_account = StepOutcome::Failed;
            },
            IssuanceStep::Mint => {
                replies.mint = StepOutcome::Failed;
            },
        }
        replies
    }

    /// The answer to the call of `step`.
    pub fn answer(&self, step: IssuanceStep) -> (outcome: StepOutcome)
        ensures
            outcome == self.reply_to(step),
    {
        match step {
            IssuanceStep::DeriveAddress => StepOutcome::Succeeded,
            IssuanceStep::CreateTokenClass => self.create_token_class,
            IssuanceStep::CreateHoldingAccount => self.create_holding_account,
            IssuanceStep::Mint => self.mint,
        }
    }
}

/// One call into the token-issuance subsystem, with its arguments.
#[derive(Clone, Copy, Debug, PartialEq, Eq)]
pub enum IssuanceAction {
    /// Create the token class at `address`, with `decimals` decimals and no
    /// initial supply. Its authority of record is `address` itself, for
    /// which `bump` authorizes.
    CreateTokenClass { address: Address, decimals: u8, bump: u8 },
    /// Create the holding account of `owner` under `token_class`.
    CreateHoldingAccount { owner: Address, token_class: Address },
    /// Mint `amount` units of `token_class` into the holding account of
    /// `owner`, authorized by `bump`.
    Mint { token_class: Address, owner: Address, amount: u64, bump: u8 },
}

/// Where an issuance stands.
#[derive(Clone, Copy, Debug, PartialEq, Eq, Structural)]
pub enum IssuanceState {
    /// The token class is to be created next.
    CreatingTokenClass,
    /// The holding account is to be created next.
    CreatingHoldingAccount,
    /// The unit is to be minted next.
    Minting,
    /// All three calls succeeded.
    Issued,
    /// The call of the given step failed; no later call was made.
    Failed(IssuanceStep),
}

impl IssuanceState {
    /// The step whose call is to be made next; `None` once the issuance has
    /// ended.
    pub open spec fn pending_step(self) -> Option<IssuanceStep> {
        match self {
            IssuanceState::CreatingTokenClass => Some(IssuanceStep::CreateTokenClass),
            IssuanceState::CreatingHoldingAccount => Some(IssuanceStep::CreateHoldingAccount),
            IssuanceState::Minting => Some(IssuanceStep::Mint),
            IssuanceState::Issued => None,
            IssuanceState::Failed(_) => None,
        }
    }

    /// The state that follows when the pending call ended in `outcome`. A
    /// success leads to the next step, a failure ends the issuance, and an
    /// issuance that has ended stays as it is.
    pub open spec fn after(self, outcome: StepOutcome) -> IssuanceState {
        match (self, outcome) {
            (IssuanceState::CreatingTokenClass, StepOutcome::Succeeded) => {
                IssuanceState::CreatingHoldingAccount
            },
            (IssuanceState::CreatingHoldingAccount, StepOutcome::Succeeded) => {
                IssuanceState::Minting
            },
            (IssuanceState::Minting, StepOutcome::Succeeded) => IssuanceState::Issued,
            (IssuanceState::CreatingTokenClass, StepOutcome::Failed) => IssuanceState::Failed(
                IssuanceStep::CreateTokenClass,
            ),
            (IssuanceState::CreatingHoldingAccount, StepOutcome::Failed) => {
                IssuanceState::Failed(IssuanceStep::CreateHoldingAccount)
            },
            (IssuanceState::Minting, StepOutcome::Failed) => IssuanceState::Failed(
                IssuanceStep::Mint,
            ),
            (IssuanceState::Issued, _) => IssuanceState::Issued,
            (IssuanceState::Failed(step), _) => IssuanceState::Failed(step),
        }
    }

    /// The number of calls that are still to be made if all succeed.
    pub open spec fn calls_left(self) -> nat {
        match self {
            IssuanceState::CreatingTokenClass => 3,
            IssuanceState::CreatingHoldingAccount => 2,
            IssuanceState::Minting => 1,
            IssuanceState::Issued => 0,
            IssuanceState::Failed(_) => 0,
        }
    }

    /// The state in which the issuance ends when it goes on from this state
    /// and the subsystem answers as `replies` says.
    pub open spec fn run(self, replies: IssuanceReplies) -> IssuanceState
        decreases self.calls_left(),
    {
        match self.pending_step() {
            None => self,
            Some(step) => self.after(replies.reply_to(step)).run(replies),
        }
    }
}

/// An issuance that starts at its first call ends as issued if the
/// subsystem accepts all three calls, and else as failed at the first call
/// that it rejects.
pub proof fn lemma_run_ends_at_first_failure(replies: IssuanceReplies)
    ensures
        IssuanceState::CreatingTokenClass.run(replies) == match replies.first_failure() {
            None => IssuanceState::Issued,
            Some(step) => IssuanceState::Failed(step),
        },
{
    reveal_with_fuel(IssuanceState::run, 4);
}

/// The record of one issued reward: one unit of the token class at
/// `address`, held by `owner` for completing challenge `challenge_id`.
#[derive(Clone, Copy, Debug, PartialEq, Eq)]
pub struct RewardToken {
    pub address: Address,
    pub owner: Address,
    pub challenge_id: u8,
}

/// An issued reward as a mathematical value.
pub struct RewardTokenView {
    pub address: Seq<u8>,
    pub owner: Seq<u8>,
    pub challenge_id: u8,
}

impl View for RewardToken {
    type V = RewardTokenView;

    open spec fn view(&self) -> RewardTokenView {
        RewardTokenView {
            address: self.address@,
            owner: self.owner@,
            challenge_id: self.challenge_id,
        }
    }
}

/// What one issuance for `owner` and `challenge_id` comes to, given the
/// derived reward address and the subsystem's replies: the token at the
/// derived address if every step succeeds, else the failure of the first
/// step that does not.
pub open spec fn issuance(
    owner: Seq<u8>,
    challenge_id: u8,
    reward: Option<(Seq<u8>, u8)>,
    replies: IssuanceReplies,
) -> Result<RewardTokenView, ErrorCode> {
    match reward {
        None => Err(ErrorCode::ExternalIssuanceFailure(IssuanceStep::DeriveAddress)),
        Some((address, _)) => match replies.first_failure() {
            Some(step) => Err(ErrorCode::ExternalIssuanceFailure(step)),
            None => Ok(RewardTokenView { address, owner, challenge_id }),
        },
    }
}

/// Runs one issuance: holds for whom and at which address the reward is
/// issued, and which call comes next.
#[derive(Clone, Copy, Debug, PartialEq, Eq)]
pub struct RewardIssuer {
    pub owner: Address,
    pub challenge_id: u8,
    pub reward: DerivedAddress,
    pub state: IssuanceState,
}

impl RewardIssuer {
    /// Starts the issuance of the reward of `owner` for `challenge_id` at the
    /// derived address `reward`. Without an address the issuance has failed
    /// at its first step.
    pub fn begin(owner: Address, challenge_id: u8, reward: Option<DerivedAddress>) -> (result:
        Result<RewardIssuer, ErrorCode>)
        ensures
            match reward {
                Some(derived) => result == Ok::<RewardIssuer, ErrorCode>(
                    RewardIssuer {
                        owner,
                        challenge_id,
                        reward: derived,
                        state: IssuanceState::CreatingTokenClass,
                    },
                ),
                None => result == Err::<RewardIssuer, ErrorCode>(
                    ErrorCode::ExternalIssuanceFailure(IssuanceStep::DeriveAddress),
                ),
            },
    {
        match reward {
            Some(derived) => Ok(
                RewardIssuer {
                    owner,
                    challenge_id,
                    reward: derived,
                    state: IssuanceState::CreatingTokenClass,
                },
            ),
            None => Err(ErrorCode::ExternalIssuanceFailure(IssuanceStep::DeriveAddress)),
        }
    }

    /// The call that `next_action` asks for in this state.
    pub open spec fn pending_action(self) -> Option<IssuanceAction> {
        match self.state {
            IssuanceState::CreatingTokenClass => Some(
                IssuanceAction::CreateTokenClass {
                    address: self.reward.address,
                    decimals: REWARD_DECIMALS,
                    bump: self.reward.bump,
                },
            ),
            IssuanceState::CreatingHoldingAccount => Some(
                IssuanceAction::CreateHoldingAccount {
                    owner: self.owner,
                    token_class: self.reward.address,
                },
            ),
            IssuanceState::Minting => Some(
                IssuanceAction::Mint {
                    token_class: self.reward.address,
                    owner: self.owner,
                    amount: REWARD_AMOUNT,
                    bump: self.reward.bump,
                },
            ),
            IssuanceState::Issued => None,
            IssuanceState::Failed(_) => None,
        }
    }

    /// The step whose call is to be made next; `None` once the issuance has
    /// ended.
    pub fn pending_step(&self) -> (step: Option<IssuanceStep>)
        ensures
            step == self.state.pending_step(),
    {
        match self.state {
            IssuanceState::CreatingTokenClass => Some(IssuanceStep::CreateTokenClass),
            IssuanceState::CreatingHoldingAccount => Some(IssuanceStep::CreateHoldingAccount),
            IssuanceState::Minting => Some(IssuanceStep::Mint),
            IssuanceState::Issued => None,
            IssuanceState::Failed(_) => None,
        }
    }

    /// The call that the caller is to make next, with its arguments: the
    /// token class at the derived address with no decimals, then the
    /// owner's holding account under it, then the mint of exactly one unit.
    /// `None` once the issuance has ended.
    pub fn next_action(&self) -> (action: Option<IssuanceAction>)
        ensures
            action == self.pending_action(),
            action is Some <==> self.state.pending_step() is Some,
    {
        match self.state {
            IssuanceState::CreatingTokenClass => Some(
                IssuanceAction::CreateTokenClass {
                    address: self.reward.address,
                    decimals: REWARD_DECIMALS,
                    bump: self.reward.bump,
                },
            ),
            IssuanceState::CreatingHoldingAccount => Some(
                IssuanceAction::CreateHoldingAccount {
                    owner: self.owner,
                    token_class: self.reward.address,
                },
            ),
            IssuanceState::Minting => Some(
                IssuanceAction::Mint {
                    token_class: self.reward.address,
                    owner: self.owner,
                    amount: REWARD_AMOUNT,
                    bump: self.reward.bump,
                },
            ),
            IssuanceState::Issued => None,
            IssuanceState::Failed(_) => None,
        }
    }

    /// Takes in how the pending call ended. Only the state changes.
    pub fn advance(&mut self, outcome: StepOutcome)
        ensures
            *final(self) == (RewardIssuer {
                state: old(self).state.after(outcome),
                ..*old(self)
            }),
    {
        self.state =
        match (self.state, outcome) {
            (IssuanceState::CreatingTokenClass, StepOutcome::Succeeded) => {
                IssuanceState::CreatingHoldingAccount
            },
            (IssuanceState::CreatingHoldingAccount, StepOutcome::Succeeded) => {
                IssuanceState::Minting
            },
            (IssuanceState::Minting, StepOutcome::Succeeded) => IssuanceState::Issued,
            (IssuanceState::CreatingTokenClass, StepOutcome::Failed) => IssuanceState::Failed(
                IssuanceStep::CreateTokenClass,
            ),
            (IssuanceState::CreatingHoldingAccount, StepOutcome::Failed) => {
                IssuanceState::Failed(IssuanceStep::CreateHoldingAccount)
            },
            (IssuanceState::Minting, StepOutcome::Failed) => IssuanceState::Failed(
                IssuanceStep::Mint,
            ),
            (IssuanceState::Issued, _) => IssuanceState::Issued,
            (IssuanceState::Failed(step), _) => IssuanceState::Failed(step),
        };
    }

    /// What the issuance has come to: `None` while a call is pending, the
    /// token once all calls have succeeded, the failure once one has failed.
    pub fn outcome(&self) -> (outcome: Option<Result<RewardToken, ErrorCode>>)
        ensures
            outcome == match self.state {
                IssuanceState::Issued => Some(
                    Ok::<RewardToken, ErrorCode>(
                        RewardToken {
                            address: self.reward.address,
                            owner: self.owner,
                            challenge_id: self.challenge_id,
                        },
                    ),
                ),
                IssuanceState::Failed(step) => Some(
                    Err::<RewardToken, ErrorCode>(ErrorCode::ExternalIssuanceFailure(step)),
                ),
                _ => None,
            },
    {
        match self.state {
            IssuanceState::Issued => Some(
                Ok(
                    RewardToken {
                        address: self.reward.address,
                        owner: self.owner,
                        challenge_id: self.challenge_id,
                    },
                ),
            ),
            IssuanceState::Failed(step) => Some(Err(ErrorCode::ExternalIssuanceFailure(step))),
            _ => None,
        }
    }

    /// Makes the calls that are still pending, each answered as `replies`
    /// says, until the issuance has ended.
    pub fn run(&mut self, replies: &IssuanceReplies)
        ensures
            *final(self) == (RewardIssuer {
                state: old(self).state.run(*replies),
                ..*old(self)
            }),
            final(self).state.pending_step() is None,
    {
        loop
            invariant
                self.owner == old(self).owner,
                self.challenge_id == old(self).challenge_id,
                self.reward == old(self).reward,
                self.state.run(*replies) == old(self).state.run(*replies),
            ensures
                self.state.pending_step() is None,
            decreases self.state.calls_left(),
        {
            match self.pending_step() {
                None => {
                    break ;
                },
                Some(step) => {
                    self.advance(replies.answer(step));
                },
            }
        }
    }
}

/// Issues the reward of `authority` for `challenge_id`: derives the reward
/// address, creates the token class there, creates the holding account and
/// mints one unit, the three calls answered as `replies` says. It stops at
/// the first step that fails and reports that step.
pub fn issue_one(
    deriver: &AddressDeriver,
    authority: &Address,
    challenge_id: u8,
    replies: &IssuanceReplies,
) -> (result: Result<RewardToken, ErrorCode>)
    ensures
        match issuance(
            authority@,
            challenge_id,
            deriver.derived(REWARD_MINT_SEED@, authority@, challenge_id),
            *replies,
        ) {
            Ok(token) => result is Ok && result->Ok_0@ == token,
            Err(e) => result == Err::<RewardToken, ErrorCode>(e),
        },
{
    let reward = deriver.derive(REWARD_MINT_SEED.as_slice(), authority, challenge_id);
    let mut issuer = RewardIssuer::begin(*authority, challenge_id, reward)?;
    issuer.run(replies);
    proof {
        lemma_run_ends_at_first_failure(*replies);
    }
    match issuer.outcome() {
        Some(outcome) => outcome,
        None => vstd::pervasive::unreached(),
    }
}

} // verus!
