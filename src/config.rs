use crate::asset::AssetInfo;
use crate::error::ContractError;
use vstd::prelude::*;

verus! {

/// Fixed-point denominator of fractions: `DECIMAL_FRACTIONAL` stands for one.
pub const DECIMAL_FRACTIONAL: u128 = 1_000_000_000_000_000_000;

/// Vault parameters.
#[derive(Debug, Clone, PartialEq, Eq)]
pub struct Config {
    /// Fraction of harvested rewards sent to the treasury, over `DECIMAL_FRACTIONAL`.
    pub performance_fee: u128,
    /// Account that receives the performance fee.
    pub treasury: String,
    /// Address of the swap router.
    pub router: String,
    /// Assets paid out as rewards, to be compounded into more base token.
    pub reward_assets: Vec<AssetInfo>,
    /// Pool asset that rewards are swapped into before liquidity is provided.
    pub reward_liquidation_target: AssetInfo,
    /// Addresses allowed to force-redeem and force-withdraw.
    pub force_withdraw_whitelist: Vec<String>,
    /// Address of the helper that provides unbalanced liquidity.
    pub liquidity_helper: String,
}

/// A configuration that has not been through [`Config::check`] yet.
pub type ConfigUnchecked = Config;

/// Partial configuration: each field that is `Some` replaces the current value.
#[derive(Debug, Clone, PartialEq, Eq, Default)]
pub struct ConfigUpdates {
    pub performance_fee: Option<u128>,
    pub treasury: Option<String>,
    pub router: Option<String>,
    pub reward_assets: Option<Vec<AssetInfo>>,
    pub reward_liquidation_target: Option<AssetInfo>,
    pub force_withdraw_whitelist: Option<Vec<String>>,
    pub liquidity_helper: Option<String>,
}

/// Whether reward asset `i` of `c` must be routable to the liquidation target.
pub open spec fn needs_path(c: Config, i: int) -> bool {
    c.reward_assets@[i]@ != c.reward_liquidation_target@
}

/// Whether the router was found to have a path for reward asset `i`.
pub open spec fn path_found(paths_found: Seq<bool>, i: int) -> bool {
    i < paths_found.len() && paths_found[i]
}

/// The outcome of validating a performance fee, reward assets and
/// liquidation target, given for each reward asset whether the router has a
/// swap path from it to the target.
pub open spec fn spec_validate(fee: u128, reward_assets: Seq<AssetInfo>, target: AssetInfo, paths_found: Seq<bool>) -> Result<(), ContractError> {
    if fee > DECIMAL_FRACTIONAL {
        Err(ContractError::PerformanceFeeTooHigh)
    } else if exists|i: int| 0 <= i < reward_assets.len() && reward_assets[i]@ != target@ && !path_found(paths_found, i) {
        Err(ContractError::MissingSwapPath)
    } else {
        Ok(())
    }
}

/// The outcome of validating `c`.
pub open spec fn spec_check(c: Config, paths_found: Seq<bool>) -> Result<Config, ContractError> {
    match spec_validate(c.performance_fee, c.reward_assets@, c.reward_liquidation_target, paths_found) {
        Ok(_) => Ok(c),
        Err(e) => Err(e),
    }
}

/// Validates a performance fee, reward assets and liquidation target: the
/// fee is at most one and the router has a path into the target from every
/// reward asset other than the target itself (`paths_found[i]` tells it for
/// reward asset `i`; a missing entry counts as no path).
pub fn validate(fee: u128, reward_assets: &Vec<AssetInfo>, target: &AssetInfo, paths_found: &Vec<bool>) -> (r: Result<(), ContractError>)
    ensures
        r == spec_validate(fee, reward_assets@, *target, paths_found@),
{
    if fee > DECIMAL_FRACTIONAL {
        return Err(ContractError::PerformanceFeeTooHigh);
    }
    let mut i: usize = 0;
    while i < reward_assets.len()
        invariant
            i <= reward_assets@.len(),
            fee <= DECIMAL_FRACTIONAL,
            forall|j: int| 0 <= j < i ==> reward_assets@[j]@ == target@ || path_found(paths_found@, j),
        decreases reward_assets@.len() - i,
    {
        if !(reward_assets[i] == *target) && !(i < paths_found.len() && paths_found[i]) {
            assert(reward_assets@[i as int]@ != target@ && !path_found(paths_found@, i as int));
            return Err(ContractError::MissingSwapPath);
        }
        i = i + 1;
    }
    Ok(())
}

impl Config {
    /// `self` with every field that `u` sets replaced.
    pub open spec fn spec_merge(self, u: ConfigUpdates) -> Config {
        Config {
            performance_fee: match u.performance_fee {
                Some(v) => v,
                None => self.performance_fee,
            },
            treasury: match u.treasury {
                Some(v) => v,
                None => self.treasury,
            },
            router: match u.router {
                Some(v) => v,
                None => self.router,
            },
            reward_assets: match u.reward_assets {
                Some(v) => v,
                None => self.reward_assets,
            },
            reward_liquidation_target: match u.reward_liquidation_target {
                Some(v) => v,
                None => self.reward_liquidation_target,
            },
            force_withdraw_whitelist: match u.force_withdraw_whitelist {
                Some(v) => v,
                None => self.force_withdraw_whitelist,
            },
            liquidity_helper: match u.liquidity_helper {
                Some(v) => v,
                None => self.liquidity_helper,
            },
        }
    }

    /// Whether reward asset `i` must have a swap path to the liquidation target.
    pub fn needs_swap_path(&self, i: usize) -> (r: bool)
        requires
            i < self.reward_assets@.len(),
        ensures
            r == needs_path(*self, i as int),
    {
        !(self.reward_assets[i] == self.reward_liquidation_target)
    }

    /// Validates the configuration, as [`validate`] does, and returns it.
    pub fn check(self, paths_found: &Vec<bool>) -> (r: Result<Config, ContractError>)
        ensures
            r == spec_check(self, paths_found@),
    {
        validate(self.performance_fee, &self.reward_assets, &self.reward_liquidation_target, paths_found)?;
        Ok(self)
    }

    /// `self` with every field that `updates` sets replaced, not yet validated.
    pub fn merge(self, updates: ConfigUpdates) -> (r: ConfigUnchecked)
        ensures
            r == self.spec_merge(updates),
    {
        Config {
            performance_fee: match updates.performance_fee {
                Some(v) => v,
                None => self.performance_fee,
            },
            treasury: match updates.treasury {
                Some(v) => v,
                None => self.treasury,
            },
            router: match updates.router {
                Some(v) => v,
                None => self.router,
            },
            reward_assets: match updates.reward_assets {
                Some(v) => v,
                None => self.reward_assets,
            },
            reward_liquidation_target: match updates.reward_liquidation_target {
                Some(v) => v,
                None => self.reward_liquidation_target,
            },
            force_withdraw_whitelist: match updates.force_withdraw_whitelist {
                Some(v) => v,
                None => self.force_withdraw_whitelist,
            },
            liquidity_helper: match updates.liquidity_helper {
                Some(v) => v,
                None => self.liquidity_helper,
            },
        }
    }

    /// Applies `updates` and validates the result as a whole; `paths_found`
    /// is as for [`Config::check`], for the merged reward assets.
    pub fn update(self, updates: ConfigUpdates, paths_found: &Vec<bool>) -> (r: Result<Config, ContractError>)
        ensures
            r == spec_check(self.spec_merge(updates), paths_found@),
    {
        self.merge(updates).check(paths_found)
    }
}

} // verus!
