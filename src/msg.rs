use crate::config::ConfigUpdates;
use vstd::prelude::*;

verus! {

/// Operations every vault of this family offers beyond the vault standard.
#[derive(Debug, Clone, PartialEq, Eq)]
pub enum ApolloExtensionExecuteMsg {
    /// Update the configuration.
    UpdateConfig { updates: ConfigUpdates },
    /// Propose a new admin.
    UpdateAdmin { address: String },
    /// Accept a proposed admin transfer; sent by the proposed admin.
    AcceptAdminTransfer {},
    /// Withdraw a proposed admin transfer; sent by the admin.
    DropAdminTransfer {},
}

/// Queries every vault of this family offers beyond the vault standard.
#[derive(Debug, Clone, Copy, PartialEq, Eq, Structural)]
pub enum ApolloExtensionQueryMsg {
    /// The vault's current state.
    State {},
}

/// Parameters of a contract migration; there are none.
#[derive(Debug, Clone, Copy, PartialEq, Eq, Structural)]
pub struct MigrateMsg {}

} // verus!
