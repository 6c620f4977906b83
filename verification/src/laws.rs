//! What holds of the ledger's operations, whatever the ledger and the
//! arguments: each law is stated over the operations on `LedgerView`, which
//! are what the executable operations are proved to compute.

use vstd::prelude::*;
use crate::challenge::ChallengeView;
use crate::error::{ErrorCode, IssuanceStep};
use crate::issuance::{IssuanceReplies, StepOutcome};
use crate::ledger::LedgerView;
use crate::player::{lemma_wf_completion, PlayerView};

verus! {

/// Creation is idempotent: after `init_player` the authority has exactly
/// one player, a second `init_player` changes nothing, and a player that
/// existed before is left as it was.
pub proof fn law_init_player_is_idempotent(ledger: LedgerView, authority: Seq<u8>)
    ensures
        ledger.init_player(authority).init_player(authority) == ledger.init_player(authority),
        ledger.init_player(authority).players.dom() == ledger.players.dom().insert(authority),
        ledger.players.dom().contains(authority) ==> ledger.init_player(authority) == ledger,
        !ledger.players.dom().contains(authority) ==> ledger.init_player(
            authority,
        ).players[authority] == PlayerView::fresh(authority),
        forall|other: Seq<u8>|
            other != authority && ledger.players.dom().contains(other) ==> #[trigger] ledger.init_player(
                authority,
            ).players[other] == ledger.players[other],
{
    assert(ledger.init_player(authority).players.dom() =~= ledger.players.dom().insert(
        authority,
    ));
}

/// Registration is one-shot: once challenge `id` is registered, every
/// further registration of `id` fails with `ChallengeAlreadyExists` and
/// leaves the ledger, the first record with it, unaltered.
pub proof fn law_registration_is_one_shot(
    ledger: LedgerView,
    id: u8,
    first: Seq<char>,
    second: Seq<char>,
)
    requires
        ledger.add_challenge(id, first).1 is Ok,
    ensures
        ({
            let registered = ledger.add_challenge(id, first).0;
            &&& registered.challenges.dom().contains(id)
            &&& registered.challenges[id] == ChallengeView { id, descriptor_uri: first }
            &&& registered.add_challenge(id, second) == (
                registered,
                Err::<(), ErrorCode>(ErrorCode::ChallengeAlreadyExists),
            )
        }),
{
}

/// A registration that fails leaves the ledger as it was, and one that
/// succeeds changes no other challenge, no player and no notice.
pub proof fn law_registration_touches_one_record(ledger: LedgerView, id: u8, uri: Seq<char>)
    ensures
        ({
            let (after, result) = ledger.add_challenge(id, uri);
            &&& result is Err ==> after == ledger
            &&& after.players == ledger.players
            &&& after.events == ledger.events
            &&& forall|other: u8|
                other != id ==> after.challenges.dom().contains(other)
                    == ledger.challenges.dom().contains(other)
            &&& forall|other: u8|
                other != id && ledger.challenges.dom().contains(other)
                    ==> #[trigger] after.challenges[other] == ledger.challenges[other]
        }),
{
}

/// Completion is idempotent: a completion that succeeds finds the bit of the
/// challenge unset, sets this bit alone and adds 10 to the experience; a
/// second completion of the same challenge by the same player fails with
/// `AlreadyCompleted`, whatever the issuance would answer, and leaves the
/// ledger exactly as it was after the first.
pub proof fn law_completion_is_idempotent(
    ledger: LedgerView,
    authority: Seq<u8>,
    id: u8,
    reward: Option<(Seq<u8>, u8)>,
    replies: IssuanceReplies,
    later_reward: Option<(Seq<u8>, u8)>,
    later_replies: IssuanceReplies,
)
    requires
        ledger.players.dom().contains(authority),
        ledger.complete_challenge(authority, id, reward, replies).1 is Ok,
    ensures
        ({
            let before = ledger.players[authority];
            let completed = ledger.complete_challenge(authority, id, reward, replies).0;
            let after = completed.players[authority];
            &&& !before.completed.contains(id)
            &&& after.completed == before.completed.insert(id)
            &&& after.experience == before.experience + 10
            &&& after.authority == before.authority
            &&& completed.complete_challenge(authority, id, later_reward, later_replies) == (
                completed,
                Err::<(), ErrorCode>(ErrorCode::AlreadyCompleted),
            )
        }),
{
}

/// A completion touches the caller's player alone: every other player and
/// every challenge is as before, and exactly one notice is appended, which
/// names the player, the challenge and the derived reward address.
pub proof fn law_completion_touches_one_player(
    ledger: LedgerView,
    authority: Seq<u8>,
    id: u8,
    reward: Option<(Seq<u8>, u8)>,
    replies: IssuanceReplies,
)
    requires
        ledger.wf(),
        ledger.players.dom().contains(authority),
        ledger.complete_challenge(authority, id, reward, replies).1 is Ok,
    ensures
        ({
            let after = ledger.complete_challenge(authority, id, reward, replies).0;
            &&& after.challenges == ledger.challenges
            &&& after.players.dom() == ledger.players.dom()
            &&& forall|other: Seq<u8>|
                other != authority && ledger.players.dom().contains(other)
                    ==> #[trigger] after.players[other] == ledger.players[other]
            &&& after.events.len() == ledger.events.len() + 1
            &&& after.events.drop_last() == ledger.events
            &&& after.events.last().player == authority
            &&& after.events.last().challenge_id == id
            &&& reward matches Some((address, _)) && after.events.last().reward_address
                == address
        }),
{
    let after = ledger.complete_challenge(authority, id, reward, replies).0;
    assert(after.players.dom() =~= ledger.players.dom());
    assert(after.events.drop_last() =~= ledger.events);
}

/// Rollback is atomic: a completion that fails, at whatever step, leaves
/// players, challenges and notices exactly as they were.
pub proof fn law_failed_completion_changes_nothing(
    ledger: LedgerView,
    authority: Seq<u8>,
    id: u8,
    reward: Option<(Seq<u8>, u8)>,
    replies: IssuanceReplies,
)
    ensures
        ledger.complete_challenge(authority, id, reward, replies).1 is Err
            ==> ledger.complete_challenge(authority, id, reward, replies).0 == ledger,
{
}

/// A completion that is admitted and whose issuance fails at the mint step
/// fails with that step, and the bitmap and the experience counter are what
/// they were before the call.
pub proof fn law_mint_failure_rolls_back(
    ledger: LedgerView,
    authority: Seq<u8>,
    id: u8,
    reward: (Seq<u8>, u8),
    replies: IssuanceReplies,
)
    requires
        ledger.challenges.dom().contains(id),
        ledger.players[authority].completion(id) is Ok,
        replies.create_token_class is Succeeded,
        replies.create_holding_account is Succeeded,
        replies.mint is Failed,
    ensures
        ledger.complete_challenge(authority, id, Some(reward), replies) == (
            ledger,
            Err::<(), ErrorCode>(ErrorCode::ExternalIssuanceFailure(IssuanceStep::Mint)),
        ),
{
}

/// One operation on the ledger, with its arguments.
pub enum LedgerOp {
    InitPlayer { authority: Seq<u8> },
    AddChallenge { id: u8, uri: Seq<char> },
    CompleteChallenge {
        authority: Seq<u8>,
        id: u8,
        reward: Option<(Seq<u8>, u8)>,
        replies: IssuanceReplies,
    },
}

impl LedgerView {
    /// The ledger after `op`. A completion asked for by an authority
    /// without a player is not admitted and changes nothing.
    pub open spec fn apply(self, op: LedgerOp) -> LedgerView {
        match op {
            LedgerOp::InitPlayer { authority } => self.init_player(authority),
            LedgerOp::AddChallenge { id, uri } => self.add_challenge(id, uri).0,
            LedgerOp::CompleteChallenge { authority, id, reward, replies } => {
                if self.players.dom().contains(authority) {
                    self.complete_challenge(authority, id, reward, replies).0
                } else {
                    self
                }
            },
        }
    }

    /// The ledger after the operations `ops`, in their order.
    pub open spec fn apply_all(self, ops: Seq<LedgerOp>) -> LedgerView
        decreases ops.len(),
    {
        if ops.len() == 0 {
            self
        } else {
            self.apply_all(ops.drop_last()).apply(ops.last())
        }
    }
}

/// Each operation keeps the ledger well formed.
pub proof fn law_operations_preserve_wf(ledger: LedgerView, op: LedgerOp)
    requires
        ledger.wf(),
    ensures
        ledger.apply(op).wf(),
{
    match op {
        LedgerOp::InitPlayer { authority } => {},
        LedgerOp::AddChallenge { id, uri } => {},
        LedgerOp::CompleteChallenge { authority, id, reward, replies } => {
            if ledger.players.dom().contains(authority) {
                lemma_wf_completion(ledger.players[authority], id);
            }
        },
    }
}

/// The experience invariant: in every ledger that the operations can reach
/// from the empty one, the experience of each player is 10 times the number
/// of challenges that its bitmap records.
pub proof fn law_experience_invariant(ops: Seq<LedgerOp>)
    ensures
        LedgerView::empty().apply_all(ops).wf(),
        forall|authority: Seq<u8>| #[trigger]
            LedgerView::empty().apply_all(ops).players.dom().contains(authority)
                ==> LedgerView::empty().apply_all(ops).players[authority].experience == 10
                * LedgerView::empty().apply_all(ops).players[authority].completed.len(),
    decreases ops.len(),
{
    if ops.len() > 0 {
        law_experience_invariant(ops.drop_last());
        law_operations_preserve_wf(LedgerView::empty().apply_all(ops.drop_last()), ops.last());
    }
}

/// In a well-formed ledger the experience counter never overflows: a
/// completion fails only for an unknown challenge, a challenge completed
/// before, or a failed issuance.
pub proof fn law_overflow_is_unreachable(
    ledger: LedgerView,
    authority: Seq<u8>,
    id: u8,
    reward: Option<(Seq<u8>, u8)>,
    replies: IssuanceReplies,
)
    requires
        ledger.wf(),
        ledger.players.dom().contains(authority),
    ensures
        ledger.complete_challenge(authority, id, reward, replies).1 != Err::<(), ErrorCode>(
            ErrorCode::ExperienceOverflow,
        ),
        ledger.players[authority].experience <= 2560,
{
    lemma_wf_completion(ledger.players[authority], id);
}

} // verus!
