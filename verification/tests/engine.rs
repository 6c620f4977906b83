use pixel_chain_anchor::address::{Address, DerivedAddress};
use pixel_chain_anchor::bitmap::CompletionBitmap;
use pixel_chain_anchor::challenge::Challenge;
use pixel_chain_anchor::engine::{
    complete_for, CompletionEngine, CompletionOutcome, CompletionRecord,
};
use pixel_chain_anchor::error::{ErrorCode, IssuanceStep};
use pixel_chain_anchor::issuance::{
    IssuanceAction, IssuanceReplies, IssuanceState, StepOutcome,
};
use pixel_chain_anchor::player::Player;

fn key(fill: u8) -> Address {
    Address { bytes: [fill; 32] }
}

fn reward() -> DerivedAddress {
    DerivedAddress { address: key(0xaa), bump: 254 }
}

fn challenge(id: u8) -> Challenge {
    Challenge::new(id, String::from("ipfs://x")).unwrap()
}

#[test]
fn begin_credits_a_copy_and_leaves_the_player() {
    let player = Player::new(key(7));
    let record = challenge(3);
    let engine = CompletionEngine::begin(&player, Some(&record), 3, Some(reward())).unwrap();
    assert_eq!(player, Player::new(key(7)));
    assert_eq!(engine.credited.experience, 10);
    assert!(engine.credited.has_completed(3));
    assert_eq!(engine.credited.authority, key(7));
    assert_eq!(engine.issuer.owner, key(7));
    assert_eq!(engine.issuer.challenge_id, 3);
    assert_eq!(engine.issuer.reward, reward());
    assert_eq!(engine.issuer.state, IssuanceState::CreatingTokenClass);
    assert_eq!(engine.outcome(), CompletionOutcome::Pending);
}

#[test]
fn begin_rejects_in_the_stated_order() {
    let fresh = Player::new(key(7));
    let mut done = fresh;
    done.complete(3).unwrap();
    let full = Player { authority: key(7), experience: u32::MAX, completion_bitmap: CompletionBitmap::new() };
    let record = challenge(3);
    let other = challenge(4);

    assert_eq!(CompletionEngine::begin(&fresh, None, 3, Some(reward())), Err(ErrorCode::UnknownChallenge));
    assert_eq!(CompletionEngine::begin(&fresh, Some(&other), 3, Some(reward())), Err(ErrorCode::UnknownChallenge));
    assert_eq!(CompletionEngine::begin(&done, None, 3, None), Err(ErrorCode::UnknownChallenge));
    assert_eq!(CompletionEngine::begin(&done, Some(&record), 3, None), Err(ErrorCode::AlreadyCompleted));
    assert_eq!(CompletionEngine::begin(&full, Some(&record), 3, None), Err(ErrorCode::ExperienceOverflow));
    assert_eq!(
        CompletionEngine::begin(&fresh, Some(&record), 3, None),
        Err(ErrorCode::ExternalIssuanceFailure(IssuanceStep::DeriveAddress))
    );
}

#[test]
fn engine_commits_after_three_calls() {
    let player = Player::new(key(7));
    let record = challenge(3);
    let mut engine = CompletionEngine::begin(&player, Some(&record), 3, Some(reward())).unwrap();
    let mut calls = Vec::new();
    while let Some(action) = engine.next_action() {
        calls.push(action);
        engine.advance(StepOutcome::Succeeded);
    }
    assert_eq!(
        calls,
        vec![
            IssuanceAction::CreateTokenClass { address: key(0xaa), decimals: 0, bump: 254 },
            IssuanceAction::CreateHoldingAccount { owner: key(7), token_class: key(0xaa) },
            IssuanceAction::Mint { token_class: key(0xaa), owner: key(7), amount: 1, bump: 254 },
        ]
    );
    let mut credited = player;
    credited.complete(3).unwrap();
    assert_eq!(
        engine.outcome(),
        CompletionOutcome::Committed {
            player: credited,
            record: CompletionRecord { player: key(7), challenge_id: 3, reward_address: key(0xaa) },
        }
    );
}

#[test]
fn engine_rolls_back_when_the_mint_fails() {
    let player = Player::new(key(7));
    let record = challenge(3);
    let mut engine = CompletionEngine::begin(&player, Some(&record), 3, Some(reward())).unwrap();
    engine.advance(StepOutcome::Succeeded);
    engine.advance(StepOutcome::Succeeded);
    assert_eq!(engine.outcome(), CompletionOutcome::Pending);
    engine.advance(StepOutcome::Failed);
    assert_eq!(engine.next_action(), None);
    assert_eq!(
        engine.outcome(),
        CompletionOutcome::RolledBack(ErrorCode::ExternalIssuanceFailure(IssuanceStep::Mint))
    );
}

#[test]
fn engine_run_follows_the_replies() {
    let player = Player::new(key(7));
    let record = challenge(3);
    let mut engine = CompletionEngine::begin(&player, Some(&record), 3, Some(reward())).unwrap();
    engine.run(&IssuanceReplies::failing_at(IssuanceStep::CreateHoldingAccount));
    assert_eq!(
        engine.outcome(),
        CompletionOutcome::RolledBack(ErrorCode::ExternalIssuanceFailure(
            IssuanceStep::CreateHoldingAccount
        ))
    );
}

#[test]
fn complete_for_credits_and_reports() {
    let mut player = Player::new(key(7));
    let record = challenge(3);
    let notice =
        complete_for(&mut player, Some(&record), 3, Some(reward()), &IssuanceReplies::all_succeed());
    assert_eq!(
        notice,
        Ok(CompletionRecord { player: key(7), challenge_id: 3, reward_address: key(0xaa) })
    );
    assert_eq!(player.experience, 10);
    assert!(player.has_completed(3));
}

#[test]
fn complete_for_leaves_the_player_on_every_error() {
    let record = challenge(3);
    let mut player = Player::new(key(7));
    player.complete(9).unwrap();
    let before = player;
    let all = IssuanceReplies::all_succeed();

    assert_eq!(complete_for(&mut player, None, 3, Some(reward()), &all), Err(ErrorCode::UnknownChallenge));
    assert_eq!(player, before);
    assert_eq!(complete_for(&mut player, Some(&record), 3, None, &all),
        Err(ErrorCode::ExternalIssuanceFailure(IssuanceStep::DeriveAddress)));
    assert_eq!(player, before);
    for step in [IssuanceStep::CreateTokenClass, IssuanceStep::CreateHoldingAccount, IssuanceStep::Mint] {
        assert_eq!(
            complete_for(&mut player, Some(&record), 3, Some(reward()), &IssuanceReplies::failing_at(step)),
            Err(ErrorCode::ExternalIssuanceFailure(step))
        );
        assert_eq!(player, before);
    }
    let nine = challenge(9);
    assert_eq!(complete_for(&mut player, Some(&nine), 9, Some(reward()), &all), Err(ErrorCode::AlreadyCompleted));
    assert_eq!(player, before);
}
