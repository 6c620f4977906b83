//! The completion transition: a player completes a challenge, is credited,
//! and is issued the reward, all or nothing.

use vstd::prelude::*;
use crate::address::{derived_view, Address, DerivedAddress};
use crate::challenge::Challenge;
use crate::error::{ErrorCode, IssuanceStep};
use crate::issuance::{
    issuance,
    lemma_run_ends_at_first_failure,
    IssuanceAction,
    IssuanceReplies,
    IssuanceState,
    RewardIssuer,
    StepOutcome,
};
use crate::player::{Player, PlayerView};

verus! {

/// The notice of one completion, for downstream observers.
#[derive(Clone, Copy, Debug, PartialEq, Eq)]
pub struct CompletionRecord {
    pub player: Address,
    pub challenge_id: u8,
    pub reward_address: Address,
}

/// A completion notice as a mathematical value.
pub struct CompletionRecordView {
    pub player: Seq<u8>,
    pub challenge_id: u8,
    pub reward_address: Seq<u8>,
}

impl View for CompletionRecord {
    type V = CompletionRecordView;

    open spec fn view(&self) -> CompletionRecordView {
        CompletionRecordView {
            player: self.player@,
            challenge_id: self.challenge_id,
            reward_address: self.reward_address@,
        }
    }
}

/// What the completion of challenge `id` by `player` comes to: the credited
/// player and the notice of the completion, or the error that aborts it.
///
/// The challenge must be registered (`UnknownChallenge`), the player must not
/// have completed it (`AlreadyCompleted`), the counter must hold the reward
/// (`ExperienceOverflow`), and every step of the issuance at the derived
/// address `reward` must succeed under `replies` (`ExternalIssuanceFailure`
/// with the first step that does not). The checks come in this order.
pub open spec fn completion(
    player: PlayerView,
    challenge_known: bool,
    id: u8,
    reward: Option<(Seq<u8>, u8)>,
    replies: IssuanceReplies,
) -> Result<(PlayerView, CompletionRecordView), ErrorCode> {
    if !challenge_known {
        Err(ErrorCode::UnknownChallenge)
    } else {
        match player.completion(id) {
            Err(e) => Err(e),
            Ok(credited) => match issuance(player.authority, id, reward, replies) {
                Err(e) => Err(e),
                Ok(token) => Ok(
                    (
                        credited,
                        CompletionRecordView {
                            player: player.authority,
                            challenge_id: id,
                            reward_address: token.address,
                        },
                    ),
                ),
            },
        }
    }
}

/// Whether the completion of challenge `id` by `player` is admitted, before
/// any call into the token-issuance subsystem is made: the credited player,
/// or the error that aborts the completion.
pub open spec fn admission(
    player: PlayerView,
    challenge_known: bool,
    id: u8,
    reward: Option<(Seq<u8>, u8)>,
) -> Result<PlayerView, ErrorCode> {
    if !challenge_known {
        Err(ErrorCode::UnknownChallenge)
    } else {
        match player.completion(id) {
            Err(e) => Err(e),
            Ok(credited) => if reward is None {
                Err(ErrorCode::ExternalIssuanceFailure(IssuanceStep::DeriveAddress))
            } else {
                Ok(credited)
            },
        }
    }
}

/// Whether `challenge` is the record of challenge `id`.
pub open spec fn is_challenge(challenge: Option<&Challenge>, id: u8) -> bool {
    challenge matches Some(c) && c.id == id
}

/// How a completion stands.
#[derive(Clone, Copy, Debug, PartialEq, Eq)]
pub enum CompletionOutcome {
    /// A call of the issuance is still to be made.
    Pending,
    /// The reward was issued: the player is to be stored as credited, and
    /// the notice is to be emitted.
    Committed { player: Player, record: CompletionRecord },
    /// The issuance failed: the player stays as it was before.
    RolledBack(ErrorCode),
}

/// One completion in progress. It holds the player as credited, apart from
/// the stored player, until the reward has been issued; so a failed issuance
/// leaves nothing to undo.
#[derive(Clone, Copy, Debug, PartialEq, Eq)]
pub struct CompletionEngine {
    pub credited: Player,
    pub issuer: RewardIssuer,
}

impl CompletionEngine {
    /// Admits the completion of challenge `challenge_id` by `player`:
    /// checks that `challenge` is its record, that the player has not
    /// completed it and that the counter holds the reward, credits a copy
    /// of the player, and starts the issuance at the derived address.
    pub fn begin(
        player: &Player,
        challenge: Option<&Challenge>,
        challenge_id: u8,
        reward: Option<DerivedAddress>,
    ) -> (result: Result<CompletionEngine, ErrorCode>)
        ensures
            match admission(
                player@,
                is_challenge(challenge, challenge_id),
                challenge_id,
                derived_view(reward),
            ) {
                Ok(credited) => result is Ok && result->Ok_0.credited@ == credited
                    && result->Ok_0.issuer == (RewardIssuer {
                    owner: player.authority,
                    challenge_id,
                    reward: reward->0,
                    state: IssuanceState::CreatingTokenClass,
                }),
                Err(e) => result == Err::<CompletionEngine, ErrorCode>(e),
            },
            player@.wf() && result is Ok ==> result->Ok_0.credited@.wf(),
    {
        match challenge {
            Some(record) if record.id == challenge_id => {},
            _ => {
                return Err(ErrorCode::UnknownChallenge);
            },
        }
        let mut credited = *player;
        credited.complete(challenge_id)?;
        let issuer = RewardIssuer::begin(player.authority, challenge_id, reward)?;
        Ok(CompletionEngine { credited, issuer })
    }

    /// The call into the token-issuance subsystem that is to be made next;
    /// `None` once the completion has ended.
    pub fn next_action(&self) -> (action: Option<IssuanceAction>)
        ensures
            action == self.issuer.pending_action(),
            action is Some <==> self.issuer.state.pending_step() is Some,
    {
        self.issuer.next_action()
    }

    /// Takes in how the pending call ended.
    pub fn advance(&mut self, outcome: StepOutcome)
        ensures
            final(self).credited == old(self).credited,
            final(self).issuer == (RewardIssuer {
                state: old(self).issuer.state.after(outcome),
                ..old(self).issuer
            }),
    {
        self.issuer.advance(outcome);
    }

    /// Makes the calls that are still pending, each answered as `replies`
    /// says.
    pub fn run(&mut self, replies: &IssuanceReplies)
        ensures
            final(self).credited == old(self).credited,
            final(self).issuer == (RewardIssuer {
                state: old(self).issuer.state.run(*replies),
                ..old(self).issuer
            }),
            final(self).issuer.state.pending_step() is None,
    {
        self.issuer.run(replies);
    }

    /// How the completion stands: committed with the credited player and
    /// the notice once the reward is issued, rolled back with the issuance
    /// failure once a call has failed, pending before that.
    pub fn outcome(&self) -> (outcome: CompletionOutcome)
        ensures
            outcome == match self.issuer.state {
                IssuanceState::Issued => CompletionOutcome::Committed {
                    player: self.credited,
                    record: CompletionRecord {
                        player: self.issuer.owner,
                        challenge_id: self.issuer.challenge_id,
                        reward_address: self.issuer.reward.address,
                    },
                },
                IssuanceState::Failed(step) => CompletionOutcome::RolledBack(
                    ErrorCode::ExternalIssuanceFailure(step),
                ),
                _ => CompletionOutcome::Pending,
            },
    {
        match self.issuer.outcome() {
            None => CompletionOutcome::Pending,
            Some(Err(e)) => CompletionOutcome::RolledBack(e),
            Some(Ok(token)) => CompletionOutcome::Committed {
                player: self.credited,
                record: CompletionRecord {
                    player: token.owner,
                    challenge_id: token.challenge_id,
                    reward_address: token.address,
                },
            },
        }
    }
}

/// Completes challenge `challenge_id` for `player`, given the record of the
/// challenge, the derived reward address and the subsystem's replies. On
/// success the player is credited and the notice is returned; on any error
/// the player is left exactly as it was.
pub fn complete_for(
    player: &mut Player,
    challenge: Option<&Challenge>,
    challenge_id: u8,
    reward: Option<DerivedAddress>,
    replies: &IssuanceReplies,
) -> (result: Result<CompletionRecord, ErrorCode>)
    ensures
        match completion(
            old(player)@,
            is_challenge(challenge, challenge_id),
            challenge_id,
            derived_view(reward),
            *replies,
        ) {
            Ok((credited, record)) => result is Ok && result->Ok_0@ == record && final(player)@
                == credited,
            Err(e) => result == Err::<CompletionRecord, ErrorCode>(e) && *final(player) == *old(
                player,
            ),
        },
        old(player)@.wf() ==> final(player)@.wf(),
{
    let mut engine = CompletionEngine::begin(player, challenge, challenge_id, reward)?;
    engine.run(replies);
    proof {
        lemma_run_ends_at_first_failure(*replies);
    }
    match engine.outcome() {
        CompletionOutcome::Committed { player: credited, record } => {
            *player = credited;
            Ok(record)
        },
        CompletionOutcome::RolledBack(e) => Err(e),
        CompletionOutcome::Pending => vstd::pervasive::unreached(),
    }
}

} // verus!
