use pixel_chain_anchor::address::{Address, AddressDeriver, DerivedAddress, REWARD_MINT_SEED};
use pixel_chain_anchor::error::{ErrorCode, IssuanceStep};
use pixel_chain_anchor::issuance::{
    issue_one, IssuanceAction, IssuanceReplies, IssuanceState, RewardIssuer, RewardToken,
    StepOutcome, REWARD_AMOUNT, REWARD_DECIMALS,
};

fn key(fill: u8) -> Address {
    Address { bytes: [fill; 32] }
}

fn reward() -> DerivedAddress {
    DerivedAddress { address: key(0xaa), bump: 254 }
}

fn started() -> RewardIssuer {
    RewardIssuer::begin(key(7), 3, Some(reward())).unwrap()
}

#[test]
fn reward_is_one_whole_unit() {
    assert_eq!(REWARD_DECIMALS, 0);
    assert_eq!(REWARD_AMOUNT, 1);
}

#[test]
fn issuance_without_an_address_fails_at_its_first_step() {
    assert_eq!(
        RewardIssuer::begin(key(7), 3, None),
        Err(ErrorCode::ExternalIssuanceFailure(IssuanceStep::DeriveAddress))
    );
}

#[test]
fn issuance_starts_with_the_token_class() {
    let issuer = started();
    assert_eq!(issuer.owner, key(7));
    assert_eq!(issuer.challenge_id, 3);
    assert_eq!(issuer.reward, reward());
    assert_eq!(issuer.state, IssuanceState::CreatingTokenClass);
    assert_eq!(issuer.pending_step(), Some(IssuanceStep::CreateTokenClass));
    assert_eq!(issuer.outcome(), None);
}

#[test]
fn the_three_calls_come_in_order_with_their_arguments() {
    let mut issuer = started();
    assert_eq!(
        issuer.next_action(),
        Some(IssuanceAction::CreateTokenClass { address: key(0xaa), decimals: 0, bump: 254 })
    );
    issuer.advance(StepOutcome::Succeeded);
    assert_eq!(issuer.state, IssuanceState::CreatingHoldingAccount);
    assert_eq!(
        issuer.next_action(),
        Some(IssuanceAction::CreateHoldingAccount { owner: key(7), token_class: key(0xaa) })
    );
    issuer.advance(StepOutcome::Succeeded);
    assert_eq!(issuer.state, IssuanceState::Minting);
    assert_eq!(
        issuer.next_action(),
        Some(IssuanceAction::Mint { token_class: key(0xaa), owner: key(7), amount: 1, bump: 254 })
    );
    assert_eq!(issuer.outcome(), None);
    issuer.advance(StepOutcome::Succeeded);
    assert_eq!(issuer.state, IssuanceState::Issued);
    assert_eq!(issuer.next_action(), None);
    assert_eq!(issuer.pending_step(), None);
    assert_eq!(
        issuer.outcome(),
        Some(Ok(RewardToken { address: key(0xaa), owner: key(7), challenge_id: 3 }))
    );
}

#[test]
fn a_failed_call_ends_the_issuance() {
    let mut at_class = started();
    at_class.advance(StepOutcome::Failed);
    assert_eq!(at_class.state, IssuanceState::Failed(IssuanceStep::CreateTokenClass));
    assert_eq!(at_class.next_action(), None);
    assert_eq!(
        at_class.outcome(),
        Some(Err(ErrorCode::ExternalIssuanceFailure(IssuanceStep::CreateTokenClass)))
    );

    let mut at_account = started();
    at_account.advance(StepOutcome::Succeeded);
    at_account.advance(StepOutcome::Failed);
    assert_eq!(at_account.state, IssuanceState::Failed(IssuanceStep::CreateHoldingAccount));
    assert_eq!(at_account.next_action(), None);

    let mut at_mint = started();
    at_mint.advance(StepOutcome::Succeeded);
    at_mint.advance(StepOutcome::Succeeded);
    at_mint.advance(StepOutcome::Failed);
    assert_eq!(at_mint.state, IssuanceState::Failed(IssuanceStep::Mint));
    assert_eq!(at_mint.next_action(), None);
    assert_eq!(
        at_mint.outcome(),
        Some(Err(ErrorCode::ExternalIssuanceFailure(IssuanceStep::Mint)))
    );
}

#[test]
fn an_ended_issuance_stays_as_it_is() {
    let mut issued = started();
    issued.run(&IssuanceReplies::all_succeed());
    let before = issued;
    issued.advance(StepOutcome::Failed);
    assert_eq!(issued, before);
    issued.advance(StepOutcome::Succeeded);
    assert_eq!(issued, before);

    let mut failed = started();
    failed.advance(StepOutcome::Failed);
    let before = failed;
    failed.advance(StepOutcome::Succeeded);
    assert_eq!(failed, before);
    failed.run(&IssuanceReplies::all_succeed());
    assert_eq!(failed, before);
}

#[test]
fn replies_are_built_as_asked() {
    let all = IssuanceReplies::all_succeed();
    assert_eq!(all.create_token_class, StepOutcome::Succeeded);
    assert_eq!(all.create_holding_account, StepOutcome::Succeeded);
    assert_eq!(all.mint, StepOutcome::Succeeded);
    assert_eq!(IssuanceReplies::failing_at(IssuanceStep::DeriveAddress), all);

    let mint = IssuanceReplies::failing_at(IssuanceStep::Mint);
    assert_eq!(mint.create_token_class, StepOutcome::Succeeded);
    assert_eq!(mint.create_holding_account, StepOutcome::Succeeded);
    assert_eq!(mint.mint, StepOutcome::Failed);
    assert_eq!(mint.answer(IssuanceStep::Mint), StepOutcome::Failed);
    assert_eq!(mint.answer(IssuanceStep::CreateTokenClass), StepOutcome::Succeeded);
    assert_eq!(mint.answer(IssuanceStep::DeriveAddress), StepOutcome::Succeeded);

    let class = IssuanceReplies::failing_at(IssuanceStep::CreateTokenClass);
    assert_eq!(class.create_token_class, StepOutcome::Failed);
    assert_eq!(class.answer(IssuanceStep::CreateTokenClass), StepOutcome::Failed);
    let account = IssuanceReplies::failing_at(IssuanceStep::CreateHoldingAccount);
    assert_eq!(account.create_holding_account, StepOutcome::Failed);
    assert_eq!(account.answer(IssuanceStep::CreateHoldingAccount), StepOutcome::Failed);
}

#[test]
fn run_stops_at_the_first_failure() {
    let replies = IssuanceReplies {
        create_token_class: StepOutcome::Succeeded,
        create_holding_account: StepOutcome::Failed,
        mint: StepOutcome::Failed,
    };
    let mut issuer = started();
    issuer.run(&replies);
    assert_eq!(issuer.state, IssuanceState::Failed(IssuanceStep::CreateHoldingAccount));

    let mut from_the_middle = started();
    from_the_middle.advance(StepOutcome::Succeeded);
    from_the_middle.advance(StepOutcome::Succeeded);
    from_the_middle.run(&replies);
    assert_eq!(from_the_middle.state, IssuanceState::Failed(IssuanceStep::Mint));
}

#[test]
fn issue_one_issues_at_the_derived_address() {
    let deriver = AddressDeriver { program_id: key(1) };
    let derived = deriver.derive(&REWARD_MINT_SEED, &key(7), 3).unwrap();
    let token = issue_one(&deriver, &key(7), 3, &IssuanceReplies::all_succeed()).unwrap();
    assert_eq!(token, RewardToken { address: derived.address, owner: key(7), challenge_id: 3 });
}

#[test]
fn issue_one_reports_the_step_that_failed() {
    let deriver = AddressDeriver { program_id: key(1) };
    for step in [IssuanceStep::CreateTokenClass, IssuanceStep::CreateHoldingAccount, IssuanceStep::Mint] {
        assert_eq!(
            issue_one(&deriver, &key(7), 3, &IssuanceReplies::failing_at(step)),
            Err(ErrorCode::ExternalIssuanceFailure(step))
        );
    }
}
