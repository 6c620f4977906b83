//! A ledger-resident achievement tracker: players complete challenges, each
//! completion is recorded once, experience accrues from completions, and a
//! one-unit reward token is issued per completion.

pub mod address;
pub mod bitmap;
pub mod challenge;
pub mod engine;
pub mod error;
pub mod issuance;
pub mod laws;
pub mod ledger;
pub mod player;

pub use crate::address::{Address, AddressDeriver, DerivedAddress};
pub use crate::bitmap::CompletionBitmap;
pub use crate::challenge::{Challenge, ChallengeRegistry};
pub use crate::engine::{CompletionEngine, CompletionOutcome, CompletionRecord};
pub use crate::error::{ErrorCode, IssuanceStep};
pub use crate::issuance::{
    IssuanceAction, IssuanceReplies, IssuanceState, RewardIssuer, RewardToken, StepOutcome,
};
pub use crate::ledger::{
    admin_add_challenge, complete_challenge, init_player, AdminAddChallenge, CompleteChallenge,
    InitPlayer, Ledger,
};
pub use crate::player::{Player, PlayerRegistry};
