//! Accounting core of an autocompounding yield vault: share math, the
//! unlocking-claims ledger, the compounding pipeline as a sequence of
//! resumable steps, configuration, admin handover and force-unlock rules.
//!
//! Every step is a function from the vault's state and what the host observed
//! (balances, block, sender, attached funds) to the next state and the list of
//! [`Action`]s the host must carry out, in order.

mod asset;
mod claims;
mod config;
mod error;
mod expiration;
mod locked;
mod math;
mod msg;
mod vault;

pub use asset::{Asset, AssetInfo, Coin};
pub use claims::{lemma_claim_ids_unique, Claim, Claims, DEFAULT_LIMIT};
pub use config::{validate, Config, ConfigUnchecked, ConfigUpdates, DECIMAL_FRACTIONAL};
pub use error::ContractError;
pub use expiration::{BlockInfo, Duration, Expiration, NANOS_PER_SECOND};
pub use locked::LockedNeutronVaultContract;
pub use math::{
    calculate_base_tokens, calculate_vault_tokens, lemma_deposit_no_dilution, lemma_deposit_then_redeem,
    RatioError, DEFAULT_VAULT_TOKENS_PER_STAKED_BASE_TOKEN,
};
pub use msg::{ApolloExtensionExecuteMsg, ApolloExtensionQueryMsg, MigrateMsg};
pub use vault::{lemma_deposit_then_burn, Action, AutocompoundingVault, BaseVault, CallbackMsg};
