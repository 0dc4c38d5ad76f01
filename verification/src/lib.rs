//! A registry of non-fungible tokens: which identity owns which token, who
//! may mint, who may transfer, and how many tokens each identity holds.

pub mod account;
pub mod error;
pub mod event;
pub mod ledger;
pub mod owner_tokens;
pub mod registry;
pub mod rules;

pub use account::AccountId;
pub use error::Error;
pub use event::{Mint, Transfer};
pub use ledger::Ledger;
pub use owner_tokens::OwnerTokens;
pub use registry::InkSc;
pub use rules::{plan_mint, plan_transfer, MintPlan, TransferPlan};
