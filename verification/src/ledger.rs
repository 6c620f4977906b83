//! The ledger: the players, the registered challenges and the completion
//! notices, with the three operations that change them.

use vstd::prelude::*;
use crate::address::{Address, AddressDeriver, REWARD_MINT_SEED};
use crate::challenge::{registration, ChallengeRegistry, ChallengeView};
use crate::engine::{complete_for, completion, CompletionRecord, CompletionRecordView};
use crate::error::ErrorCode;
use crate::issuance::IssuanceReplies;
use crate::player::{PlayerRegistry, PlayerView};

verus! {

/// The ledger as a mathematical value.
pub struct LedgerView {
    /// The players by authority.
    pub players: Map<Seq<u8>, PlayerView>,
    /// The registered challenges by id.
    pub challenges: Map<u8, ChallengeView>,
    /// The completion notices, oldest first.
    pub events: Seq<CompletionRecordView>,
}

impl LedgerView {
    /// The ledger with nothing in it.
    pub open spec fn empty() -> LedgerView {
        LedgerView { players: Map::empty(), challenges: Map::empty(), events: Seq::empty() }
    }

    /// Every player is filed under its own authority and satisfies the
    /// experience invariant; every challenge is filed under its own id and
    /// its descriptor fits the cap.
    pub open spec fn wf(self) -> bool {
        &&& forall|authority: Seq<u8>| #[trigger]
            self.players.dom().contains(authority) ==> self.players[authority].authority
                == authority && self.players[authority].wf()
        &&& forall|id: u8| #[trigger]
            self.challenges.dom().contains(id) ==> self.challenges[id].id == id
                && self.challenges[id].wf()
    }

    /// The ledger after `authority` has asked for its player: a new player
    /// if it had none, and no change if it had one.
    pub open spec fn init_player(self, authority: Seq<u8>) -> LedgerView {
        if self.players.dom().contains(authority) {
            self
        } else {
            LedgerView {
                players: self.players.insert(authority, PlayerView::fresh(authority)),
                ..self
            }
        }
    }

    /// The ledger after the attempt to register challenge `id` with
    /// descriptor `uri`, and how the attempt ended.
    pub open spec fn add_challenge(self, id: u8, uri: Seq<char>) -> (LedgerView, Result<
        (),
        ErrorCode,
    >) {
        match registration(self.challenges, id, uri) {
            Ok(challenges) => (LedgerView { challenges, ..self }, Ok(())),
            Err(e) => (self, Err(e)),
        }
    }

    /// The ledger after the attempt of `authority` to complete challenge
    /// `id`, and how the attempt ended. On success the player is credited
    /// and the notice is appended; on any error the ledger is as before.
    pub open spec fn complete_challenge(
        self,
        authority: Seq<u8>,
        id: u8,
        reward: Option<(Seq<u8>, u8)>,
        replies: IssuanceReplies,
    ) -> (LedgerView, Result<(), ErrorCode>) {
        match completion(
            self.players[authority],
            self.challenges.dom().contains(id),
            id,
            reward,
            replies,
        ) {
            Ok((credited, record)) => (
                LedgerView {
                    players: self.players.insert(authority, credited),
                    events: self.events.push(record),
                    ..self
                },
                Ok(()),
            ),
            Err(e) => (self, Err(e)),
        }
    }
}

/// The state that the operations act on.
#[derive(Debug)]
pub struct Ledger {
    players: PlayerRegistry,
    challenges: ChallengeRegistry,
    events: Vec<CompletionRecord>,
}

impl View for Ledger {
    type V = LedgerView;

    closed spec fn view(&self) -> LedgerView {
        LedgerView {
            players: self.players@,
            challenges: self.challenges@,
            events: self.events@.map_values(|record: CompletionRecord| record@),
        }
    }
}

impl Ledger {
    /// Both registries are well formed.
    pub closed spec fn wf(&self) -> bool {
        self.players.wf() && self.challenges.wf()
    }

    /// A well-formed ledger holds what a well-formed view says: players
    /// under their authorities with the experience invariant, challenges
    /// under their ids within the cap.
    pub proof fn lemma_view_is_wf(&self)
        requires
            self.wf(),
        ensures
            self@.wf(),
    {
        self.players.lemma_players_are_wf();
        self.challenges.lemma_records_are_wf();
    }

    /// The ledger with nothing in it.
    pub fn new() -> (ledger: Ledger)
        ensures
            ledger.wf(),
            ledger@ == LedgerView::empty(),
            ledger@.wf(),
    {
        let ledger = Ledger {
            players: PlayerRegistry::new(),
            challenges: ChallengeRegistry::new(),
            events: Vec::new(),
        };
        assert(ledger@.events =~= Seq::<CompletionRecordView>::empty());
        ledger
    }

    /// The players.
    pub fn players(&self) -> (players: &PlayerRegistry)
        ensures
            players@ == self@.players,
            self.wf() ==> players.wf(),
    {
        &self.players
    }

    /// The registered challenges.
    pub fn challenges(&self) -> (challenges: &ChallengeRegistry)
        ensures
            challenges@ == self@.challenges,
            self.wf() ==> challenges.wf(),
    {
        &self.challenges
    }

    /// The completion notices, oldest first.
    pub fn events(&self) -> (events: &Vec<CompletionRecord>)
        ensures
            events@.len() == self@.events.len(),
            forall|i: int| 0 <= i < events@.len() ==> (#[trigger] events@[i])@ == self@.events[i],
    {
        &self.events
    }
}

/// The accounts of `init_player`: the caller, who owns the player.
#[derive(Clone, Copy, Debug, PartialEq, Eq)]
pub struct InitPlayer {
    pub authority: Address,
}

/// The accounts of `admin_add_challenge`: the caller, who pays for the
/// record. Any verified caller may register a challenge.
#[derive(Clone, Copy, Debug, PartialEq, Eq)]
pub struct AdminAddChallenge {
    pub authority: Address,
}

/// The accounts of `complete_challenge`: the caller, whose player is
/// credited; the program on whose behalf the reward is addressed; and the
/// replies of the token-issuance subsystem to the calls of this invocation.
#[derive(Clone, Copy, Debug, PartialEq, Eq)]
pub struct CompleteChallenge {
    pub authority: Address,
    pub program_id: Address,
    pub issuance: IssuanceReplies,
}

impl CompleteChallenge {
    /// The reward address of this caller for challenge `id`, with its bump.
    pub open spec fn reward_address(self, id: u8) -> Option<(Seq<u8>, u8)> {
        (AddressDeriver { program_id: self.program_id }).derived(
            REWARD_MINT_SEED@,
            self.authority@,
            id,
        )
    }
}

/// Makes sure that the caller has a player: creates one without experience
/// or completions if it has none, and changes nothing if it has one. It
/// never fails.
pub fn init_player(ledger: &mut Ledger, ctx: &InitPlayer) -> (result: Result<(), ErrorCode>)
    requires
        old(ledger).wf(),
    ensures
        final(ledger).wf(),
        final(ledger)@.wf(),
        result == Ok::<(), ErrorCode>(()),
        final(ledger)@ == old(ledger)@.init_player(ctx.authority@),
{
    ledger.players.ensure_player(ctx.authority);
    proof {
        ledger.lemma_view_is_wf();
    }
    Ok(())
}

/// Registers challenge `challenge_id` with the descriptor `uri`. Fails with
/// `ChallengeAlreadyExists` if a record for the id is present, else with
/// `DescriptorTooLong` if the descriptor is longer than 200 bytes; a failure
/// leaves the ledger as it was.
pub fn admin_add_challenge(
    ledger: &mut Ledger,
    ctx: &AdminAddChallenge,
    challenge_id: u8,
    uri: String,
) -> (result: Result<(), ErrorCode>)
    requires
        old(ledger).wf(),
    ensures
        final(ledger).wf(),
        final(ledger)@.wf(),
        (final(ledger)@, result) == old(ledger)@.add_challenge(challenge_id, uri@),
        result is Err ==> final(ledger)@ == old(ledger)@,
{
    let result = ledger.challenges.register_challenge(challenge_id, uri);
    proof {
        ledger.lemma_view_is_wf();
    }
    result
}

/// Completes challenge `challenge_id` for the caller, who has a player.
///
/// Fails with `UnknownChallenge` if the challenge is not registered, with
/// `AlreadyCompleted` if the player has completed it, with
/// `ExperienceOverflow` if the counter cannot hold the reward, and with
/// `ExternalIssuanceFailure` if a step of the issuance fails, in this order.
/// On success the bit of the challenge is set, the experience grows by 10,
/// and the notice with the reward address is appended. On any error the
/// ledger is exactly as it was before.
pub fn complete_challenge(ledger: &mut Ledger, ctx: &CompleteChallenge, challenge_id: u8) -> (result:
    Result<(), ErrorCode>)
    requires
        old(ledger).wf(),
        old(ledger)@.players.dom().contains(ctx.authority@),
    ensures
        final(ledger).wf(),
        final(ledger)@.wf(),
        (final(ledger)@, result) == old(ledger)@.complete_challenge(
            ctx.authority@,
            challenge_id,
            ctx.reward_address(challenge_id),
            ctx.issuance,
        ),
        result is Err ==> final(ledger)@ == old(ledger)@,
{
    proof {
        ledger.lemma_view_is_wf();
    }
    let mut player = match ledger.players.get(&ctx.authority) {
        Some(found) => *found,
        None => vstd::pervasive::unreached(),
    };
    let deriver = AddressDeriver { program_id: ctx.program_id };
    let reward = deriver.derive(REWARD_MINT_SEED.as_slice(), &ctx.authority, challenge_id);
    let record = complete_for(
        &mut player,
        ledger.challenges.get(challenge_id),
        challenge_id,
        reward,
        &ctx.issuance,
    )?;
    ledger.players.store(player);
    ledger.events.push(record);
    proof {
        assert(ledger@.events =~= old(ledger)@.events.push(record@));
        ledger.lemma_view_is_wf();
    }
    Ok(())
}

} // verus!
