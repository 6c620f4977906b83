//! Per-player state: the experience counter and the completion bitmap.

use vstd::prelude::*;
use crate::address::Address;
use crate::bitmap::{lemma_id_set_is_finite, CompletionBitmap};
use crate::error::ErrorCode;

verus! {

/// The experience that one completed challenge is worth.
pub const COMPLETION_REWARD: u32 = 10;

/// The state of one player, owned by `authority`.
#[derive(Clone, Copy, Debug, PartialEq, Eq)]
pub struct Player {
    pub authority: Address,
    pub experience: u32,
    pub completion_bitmap: CompletionBitmap,
}

/// A player as a mathematical value: who owns it, how much experience it has
/// and which challenges it has completed.
pub struct PlayerView {
    pub authority: Seq<u8>,
    pub experience: nat,
    pub completed: Set<u8>,
}

impl PlayerView {
    /// The experience invariant: ten points for each completed challenge, and
    /// nothing else.
    pub open spec fn wf(self) -> bool {
        self.experience == COMPLETION_REWARD * self.completed.len()
    }

    /// The state in which a player is created.
    pub open spec fn fresh(authority: Seq<u8>) -> PlayerView {
        PlayerView { authority, experience: 0, completed: Set::empty() }
    }

    /// The state after challenge `id` has been credited.
    pub open spec fn credit(self, id: u8) -> PlayerView {
        PlayerView {
            authority: self.authority,
            experience: self.experience + COMPLETION_REWARD as nat,
            completed: self.completed.insert(id),
        }
    }

    /// What completing challenge `id` does to the player: the credited state,
    /// or the reason why nothing is credited.
    pub open spec fn completion(self, id: u8) -> Result<PlayerView, ErrorCode> {
        if self.completed.contains(id) {
            Err(ErrorCode::AlreadyCompleted)
        } else if self.experience + COMPLETION_REWARD > u32::MAX {
            Err(ErrorCode::ExperienceOverflow)
        } else {
            Ok(self.credit(id))
        }
    }
}

impl View for Player {
    type V = PlayerView;

    open spec fn view(&self) -> PlayerView {
        PlayerView {
            authority: self.authority@,
            experience: self.experience as nat,
            completed: self.completion_bitmap@,
        }
    }
}

/// Crediting a challenge that was not completed before keeps the experience
/// invariant.
pub proof fn lemma_credit_preserves_wf(player: PlayerView, id: u8)
    requires
        player.wf(),
        !player.completed.contains(id),
    ensures
        player.credit(id).wf(),
{
    lemma_id_set_is_finite(player.completed);
}

/// Under the experience invariant the counter never overflows: a completion
/// fails only because the challenge was completed before.
pub proof fn lemma_wf_completion(player: PlayerView, id: u8)
    requires
        player.wf(),
    ensures
        player.experience <= 2560,
        player.completed.contains(id) ==> player.completion(id) == Err::<PlayerView, ErrorCode>(
            ErrorCode::AlreadyCompleted,
        ),
        !player.completed.contains(id) ==> player.completion(id) == Ok::<PlayerView, ErrorCode>(
            player.credit(id),
        ) && player.credit(id).wf(),
{
    lemma_id_set_is_finite(player.completed);
    if !player.completed.contains(id) {
        lemma_id_set_is_finite(player.completed.insert(id));
    }
}

impl Player {
    /// A player with no experience and no completed challenge.
    pub fn new(authority: Address) -> (player: Player)
        ensures
            player@ == PlayerView::fresh(authority@),
            player@.wf(),
    {
        Player { authority, experience: 0, completion_bitmap: CompletionBitmap::new() }
    }

    /// The player of `authority`: the one that exists, left as it is, or a
    /// new one where none exists.
    pub fn or_new(existing: Option<Player>, authority: Address) -> (player: Player)
        ensures
            player@ == match existing {
                Some(found) => found@,
                None => PlayerView::fresh(authority@),
            },
            existing matches Some(found) ==> player == found,
    {
        match existing {
            Some(found) => found,
            None => Player::new(authority),
        }
    }

    /// Whether the player has completed challenge `id`.
    pub fn has_completed(&self, id: u8) -> (completed: bool)
        ensures
            completed == self@.completed.contains(id),
    {
        self.completion_bitmap.get(id)
    }

    /// Whether the player satisfies the experience invariant.
    pub fn is_consistent(&self) -> (consistent: bool)
        ensures
            consistent == self@.wf(),
    {
        let count = self.completion_bitmap.popcount();
        self.experience == COMPLETION_REWARD * count
    }

    /// Completes challenge `id`: sets its bit and adds the reward to the
    /// experience counter, or fails and leaves the player as it was.
    pub fn complete(&mut self, id: u8) -> (result: Result<(), ErrorCode>)
        ensures
            match old(self)@.completion(id) {
                Ok(credited) => result == Ok::<(), ErrorCode>(()) && final(self)@ == credited,
                Err(e) => result == Err::<(), ErrorCode>(e) && *final(self) == *old(self),
            },
            old(self)@.wf() ==> final(self)@.wf(),
    {
        if self.completion_bitmap.get(id) {
            return Err(ErrorCode::AlreadyCompleted);
        }
        let experience = match self.experience.checked_add(COMPLETION_REWARD) {
            Some(sum) => sum,
            None => {
                return Err(ErrorCode::ExperienceOverflow);
            },
        };
        proof {
            if old(self)@.wf() {
                lemma_credit_preserves_wf(old(self)@, id);
            }
        }
        self.completion_bitmap.set(id);
        self.experience = experience;
        Ok(())
    }
}


/// Whether one of `records` belongs to `authority`.
spec fn is_enrolled(records: Seq<Player>, authority: Seq<u8>) -> bool {
    exists|i: int| 0 <= i < records.len() && #[trigger] records[i].authority@ == authority
}

/// The place among `records` of the player of `authority`.
spec fn place_of(records: Seq<Player>, authority: Seq<u8>) -> int {
    choose|i: int| 0 <= i < records.len() && #[trigger] records[i].authority@ == authority
}

/// No two of `records` belong to the same authority.
spec fn distinct_authorities(records: Seq<Player>) -> bool {
    forall|i: int, j: int|
        0 <= i < j < records.len() ==> #[trigger] records[i].authority@
            != #[trigger] records[j].authority@
}

/// The players among `records`, by authority.
spec fn players_by_authority(records: Seq<Player>) -> Map<Seq<u8>, PlayerView> {
    Map::new(
        |authority: Seq<u8>| is_enrolled(records, authority),
        |authority: Seq<u8>| records[place_of(records, authority)]@,
    )
}

/// Among records of distinct authorities, each record is the one that the
/// map holds for its authority.
proof fn lemma_record_is_mapped(records: Seq<Player>, i: int)
    requires
        distinct_authorities(records),
        0 <= i < records.len(),
    ensures
        is_enrolled(records, records[i].authority@),
        place_of(records, records[i].authority@) == i,
        players_by_authority(records).dom().contains(records[i].authority@),
        players_by_authority(records)[records[i].authority@] == records[i]@,
{
    let authority = records[i].authority@;
    assert(records[i].authority@ == authority);
    let j = place_of(records, authority);
    assert(0 <= j < records.len() && records[j].authority@ == authority);
    if i < j {
        assert(records[i].authority@ != records[j].authority@);
    } else if j < i {
        assert(records[j].authority@ != records[i].authority@);
    }
}

/// The players of the ledger, at most one per authority. A player is
/// created once and never deleted.
#[derive(Debug)]
pub struct PlayerRegistry {
    records: Vec<Player>,
}

impl View for PlayerRegistry {
    type V = Map<Seq<u8>, PlayerView>;

    /// The players by authority.
    closed spec fn view(&self) -> Map<Seq<u8>, PlayerView> {
        players_by_authority(self.records@)
    }
}

impl PlayerRegistry {
    /// No authority has two players, and every player satisfies the
    /// experience invariant.
    pub closed spec fn wf(&self) -> bool {
        &&& distinct_authorities(self.records@)
        &&& forall|i: int| 0 <= i < self.records@.len() ==> (#[trigger] self.records@[i])@.wf()
    }

    /// Every player of the registry is filed under its own authority and
    /// satisfies the experience invariant.
    pub proof fn lemma_players_are_wf(&self)
        requires
            self.wf(),
        ensures
            forall|authority: Seq<u8>| #[trigger]
                self@.dom().contains(authority) ==> self@[authority].authority == authority
                    && self@[authority].wf(),
    {
        assert forall|authority: Seq<u8>| #[trigger]
            self@.dom().contains(authority) implies self@[authority].authority == authority
            && self@[authority].wf() by {
            let i = place_of(self.records@, authority);
            assert(self.records@[i]@.wf());
        }
    }

    /// The registry with no player in it.
    pub fn new() -> (registry: PlayerRegistry)
        ensures
            registry.wf(),
            registry@ == Map::<Seq<u8>, PlayerView>::empty(),
    {
        let registry = PlayerRegistry { records: Vec::new() };
        assert(registry@ =~= Map::<Seq<u8>, PlayerView>::empty());
        registry
    }

    /// The number of players.
    pub fn len(&self) -> (count: usize)
        requires
            self.wf(),
        ensures
            count == self@.dom().len(),
            self@.dom().finite(),
    {
        proof {
            lemma_count_of_players(self.records@);
        }
        self.records.len()
    }

    fn find(&self, authority: &Address) -> (found: Option<usize>)
        ensures
            match found {
                Some(i) => i < self.records@.len() && self.records@[i as int].authority@
                    == authority@,
                None => !is_enrolled(self.records@, authority@),
            },
    {
        let mut i: usize = 0;
        while i < self.records.len()
            invariant
                i <= self.records@.len(),
                forall|k: int| 0 <= k < i ==> self.records@[k].authority@ != authority@,
            decreases self.records@.len() - i,
        {
            if self.records[i].authority.same_as(authority) {
                return Some(i);
            }
            i = i + 1;
        }
        None
    }

    /// Whether `authority` has a player.
    pub fn contains(&self, authority: &Address) -> (enrolled: bool)
        ensures
            enrolled == self@.dom().contains(authority@),
    {
        self.find(authority).is_some()
    }

    /// The player of `authority`, if it has one.
    pub fn get(&self, authority: &Address) -> (found: Option<&Player>)
        requires
            self.wf(),
        ensures
            match found {
                Some(player) => self@.dom().contains(authority@) && self@[authority@] == player@
                    && player.authority@ == authority@ && player@.wf(),
                None => !self@.dom().contains(authority@),
            },
    {
        match self.find(authority) {
            Some(i) => {
                proof {
                    lemma_record_is_mapped(self.records@, i as int);
                }
                Some(&self.records[i])
            },
            None => None,
        }
    }

    /// Makes sure that `authority` has a player: creates one without
    /// experience or completions if it has none, and changes nothing if it
    /// has one.
    pub fn ensure_player(&mut self, authority: Address)
        requires
            old(self).wf(),
        ensures
            final(self).wf(),
            final(self)@ == if old(self)@.dom().contains(authority@) {
                old(self)@
            } else {
                old(self)@.insert(authority@, PlayerView::fresh(authority@))
            },
    {
        if self.find(&authority).is_none() {
            let player = Player::new(authority);
            self.records.push(player);
            proof {
                let before = old(self).records@;
                let after = self.records@;
                assert(distinct_authorities(after));
                assert forall|key: Seq<u8>|
                    players_by_authority(after).dom().contains(key) == (key == authority@
                        || players_by_authority(before).dom().contains(key)) by {
                    if is_enrolled(after, key) {
                        let i = place_of(after, key);
                        if i < before.len() {
                            assert(before[i].authority@ == key);
                        }
                    }
                    if is_enrolled(before, key) {
                        let i = place_of(before, key);
                        assert(after[i].authority@ == key);
                    }
                    if key == authority@ {
                        assert(after[before.len() as int].authority@ == key);
                    }
                }
                assert forall|key: Seq<u8>|
                    players_by_authority(after).dom().contains(
                        key,
                    ) implies #[trigger] players_by_authority(after)[key] == old(self)@.insert(
                    authority@,
                    PlayerView::fresh(authority@),
                )[key] by {
                    let i = place_of(after, key);
                    lemma_record_is_mapped(after, i);
                    if i < before.len() {
                        lemma_record_is_mapped(before, i);
                    }
                }
                assert(self@ =~= old(self)@.insert(authority@, PlayerView::fresh(authority@)));
            }
        }
    }

    /// Stores `player` in place of the player of the same authority.
    pub(crate) fn store(&mut self, player: Player)
        requires
            old(self).wf(),
            old(self)@.dom().contains(player.authority@),
            player@.wf(),
        ensures
            final(self).wf(),
            final(self)@ == old(self)@.insert(player.authority@, player@),
    {
        match self.find(&player.authority) {
            None => {},
            Some(at) => {
                self.records.set(at, player);
                proof {
                    let before = old(self).records@;
                    let after = self.records@;
                    assert forall|i: int| 0 <= i < after.len() implies #[trigger] after[i].authority@
                        == before[i].authority@ by {}
                    assert(distinct_authorities(after)) by {
                        assert forall|i: int, j: int| 0 <= i < j < after.len() implies #[trigger]
                            after[i].authority@ != #[trigger] after[j].authority@ by {
                            assert(before[i].authority@ != before[j].authority@);
                        }
                    }
                    assert forall|key: Seq<u8>|
                        players_by_authority(after).dom().contains(key)
                            == players_by_authority(before).dom().contains(key) by {
                        if is_enrolled(after, key) {
                            let i = place_of(after, key);
                            assert(before[i].authority@ == key);
                        }
                        if is_enrolled(before, key) {
                            let i = place_of(before, key);
                            assert(after[i].authority@ == key);
                        }
                    }
                    assert forall|key: Seq<u8>|
                        players_by_authority(after).dom().contains(
                            key,
                        ) implies #[trigger] players_by_authority(after)[key] == old(
                        self,
                    )@.insert(player.authority@, player@)[key] by {
                        let i = place_of(after, key);
                        lemma_record_is_mapped(after, i);
                        lemma_record_is_mapped(before, i);
                    }
                    assert(self@ =~= old(self)@.insert(player.authority@, player@));
                }
            },
        }
    }
}

/// Records of distinct authorities make as many players as there are records.
proof fn lemma_count_of_players(records: Seq<Player>)
    requires
        distinct_authorities(records),
    ensures
        players_by_authority(records).dom().finite(),
        players_by_authority(records).dom().len() == records.len(),
    decreases records.len(),
{
    if records.len() == 0 {
        assert(players_by_authority(records).dom() =~= Set::<Seq<u8>>::empty());
    } else {
        let rest = records.drop_last();
        let last = records.last();
        assert forall|i: int, j: int| 0 <= i < j < rest.len() implies #[trigger] rest[i].authority@
            != #[trigger] rest[j].authority@ by {
            assert(records[i].authority@ != records[j].authority@);
        }
        lemma_count_of_players(rest);
        assert(!is_enrolled(rest, last.authority@)) by {
            if is_enrolled(rest, last.authority@) {
                let i = place_of(rest, last.authority@);
                assert(records[i].authority@ != records[records.len() - 1].authority@);
            }
        }
        assert forall|key: Seq<u8>|
            players_by_authority(records).dom().contains(key) == players_by_authority(
                rest,
            ).dom().insert(last.authority@).contains(key) by {
            if is_enrolled(records, key) {
                let i = place_of(records, key);
                if i < rest.len() {
                    assert(rest[i].authority@ == key);
                }
            }
            if is_enrolled(rest, key) {
                let i = place_of(rest, key);
                assert(records[i].authority@ == key);
            }
            if key == last.authority@ {
                assert(records[records.len() - 1].authority@ == key);
            }
        }
        assert(players_by_authority(records).dom() =~= players_by_authority(rest).dom().insert(
            last.authority@,
        ));
    }
}

} // verus!
