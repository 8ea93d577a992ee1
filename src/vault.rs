use crate::asset::{
    contains_addr, contains_asset, contains_coin, copy_asset, copy_asset_info, funds_contain,
    vec_contains_addr, vec_contains_asset, Asset, AssetInfo, Coin,
};
use crate::claims::{first_n, owner_claims, Claim, Claims, DEFAULT_LIMIT};
use crate::config::{spec_check, validate, Config, ConfigUpdates, DECIMAL_FRACTIONAL};
use crate::error::ContractError;
use crate::expiration::{BlockInfo, Duration};
use crate::math::{
    calculate_base_tokens, calculate_vault_tokens, multiply_ratio, ratio, spec_base_tokens,
    spec_vault_tokens,
};
use vstd::prelude::*;

verus! {

/// A later step of an operation, run by the host after every action listed
/// before it has completed.
#[derive(Debug, Clone, PartialEq, Eq)]
pub enum CallbackMsg {
    /// Take the performance fee from the reward balances and sell the rest.
    SellRewards {},
    /// Provide liquidity with the vault's balances of the pool assets.
    ProvideLiquidity {},
    /// Stake the base tokens gained since `base_token_balance_before`.
    Stake { base_token_balance_before: u128 },
    /// Mint vault tokens for a deposit of `amount` base tokens.
    MintVaultToken { amount: u128, recipient: String },
    /// Burn `amount` vault tokens and send what they are worth to `recipient`.
    Redeem { recipient: String, amount: u128 },
    /// Burn `vault_token_amount` vault tokens and start unlocking what they are worth.
    Unlock { owner: String, vault_token_amount: u128 },
    /// Commit the pending claim.
    SaveClaim {},
}

/// What the host must carry out, in order, for an operation to take effect.
#[derive(Debug, Clone, PartialEq, Eq)]
pub enum Action {
    /// Claim accrued rewards from the staking position into the vault.
    ClaimRewards,
    /// Run a later step of this operation.
    Callback(CallbackMsg),
    /// Send `asset` from the vault to `recipient`.
    Transfer { asset: Asset, recipient: String },
    /// Pull `asset`, a cw20 token, from `owner` into the vault.
    TransferFrom { asset: Asset, owner: String },
    /// Move `amount` vault tokens of `owner` into the vault's own balance.
    ReceiveVaultTokens { owner: String, amount: u128 },
    /// Swap all of `assets` through the router into `target`.
    BasketLiquidate { assets: Vec<Asset>, target: AssetInfo },
    /// Provide liquidity with `assets` through the liquidity helper.
    ProvideLiquidity { assets: Vec<Asset> },
    /// Stake `amount` base tokens.
    Stake { amount: u128 },
    /// Unstake `amount` base tokens at once.
    Unstake { amount: u128 },
    /// Start unlocking `amount` staked base tokens.
    Unlock { amount: u128 },
    /// Withdraw `amount` base tokens that have finished unlocking.
    WithdrawUnlocked { amount: u128 },
    /// Free `amount` base tokens from the staking position without waiting,
    /// from unlocking position `lockup_id` when given.
    ForceUnlock { lockup_id: Option<u64>, amount: u128 },
    /// Mint `amount` vault tokens to `recipient`.
    MintVaultTokens { recipient: String, amount: u128 },
    /// Burn `amount` vault tokens held by the vault.
    BurnVaultTokens { amount: u128 },
}

/// Share accounting: the base tokens staked for depositors and the vault
/// tokens that represent them.
#[derive(Debug, Clone, PartialEq, Eq)]
pub struct BaseVault {
    /// The asset that is deposited and staked.
    pub base_token: AssetInfo,
    /// The vault token: a native denom, or a cw20 token kept by the vault itself.
    pub vault_token: AssetInfo,
    pub total_staked_base_tokens: u128,
    pub vault_token_supply: u128,
}

/// The base tokens, new total staked and new supply that burning
/// `vault_tokens` shares of `v` leads to.
pub open spec fn spec_burn(v: BaseVault, vault_tokens: u128) -> Result<(u128, u128, u128), ContractError> {
    match spec_base_tokens(vault_tokens, v.total_staked_base_tokens, v.vault_token_supply) {
        Err(e) => Err(e),
        Ok(base) => if base > v.total_staked_base_tokens || vault_tokens > v.vault_token_supply {
            Err(ContractError::Underflow)
        } else {
            Ok((base, (v.total_staked_base_tokens - base) as u128, (v.vault_token_supply - vault_tokens) as u128))
        },
    }
}

impl BaseVault {
    /// Shares a deposit of `amount` base tokens would mint now.
    pub fn query_simulate_deposit(&self, amount: u128) -> (r: Result<u128, ContractError>)
        ensures
            r == spec_vault_tokens(amount, self.total_staked_base_tokens, self.vault_token_supply),
    {
        calculate_vault_tokens(amount, self.total_staked_base_tokens, self.vault_token_supply)
    }

    /// Base tokens that redeeming `amount` shares would give now.
    pub fn query_simulate_withdraw(&self, amount: u128) -> (r: Result<u128, ContractError>)
        ensures
            r == spec_base_tokens(amount, self.total_staked_base_tokens, self.vault_token_supply),
    {
        calculate_base_tokens(amount, self.total_staked_base_tokens, self.vault_token_supply)
    }

    pub fn query_total_assets(&self) -> (r: u128)
        ensures
            r == self.total_staked_base_tokens,
    {
        self.total_staked_base_tokens
    }

    pub fn query_total_vault_token_supply(&self) -> (r: u128)
        ensures
            r == self.vault_token_supply,
    {
        self.vault_token_supply
    }

    /// What burning `vault_tokens` shares gives, without changing anything.
    pub fn preview_burn(&self, vault_tokens: u128) -> (r: Result<(u128, u128, u128), ContractError>)
        ensures
            r == spec_burn(*self, vault_tokens),
    {
        let base = calculate_base_tokens(vault_tokens, self.total_staked_base_tokens, self.vault_token_supply)?;
        if base > self.total_staked_base_tokens || vault_tokens > self.vault_token_supply {
            return Err(ContractError::Underflow);
        }
        Ok((base, self.total_staked_base_tokens - base, self.vault_token_supply - vault_tokens))
    }

    /// Burns `vault_tokens` shares: takes the base tokens they are worth out
    /// of the staked total and the shares out of the supply, and returns the
    /// base token amount with the burn to carry out.
    pub fn burn_vault_tokens_for_base_tokens(&mut self, vault_tokens: u128) -> (r: Result<(u128, Vec<Action>), ContractError>)
        ensures
            match spec_burn(*old(self), vault_tokens) {
                Err(e) => r == Err::<(u128, Vec<Action>), ContractError>(e) && *final(self) == *old(self),
                Ok((base, total, supply)) => r is Ok && r->Ok_0.0 == base && r->Ok_0.1@ == seq![
                    Action::BurnVaultTokens { amount: vault_tokens },
                ] && *final(self) == (BaseVault {
                    total_staked_base_tokens: total,
                    vault_token_supply: supply,
                    ..*old(self)
                }),
            },
    {
        let (base, total, supply) = self.preview_burn(vault_tokens)?;
        self.total_staked_base_tokens = total;
        self.vault_token_supply = supply;
        Ok((base, vec![Action::BurnVaultTokens { amount: vault_tokens }]))
    }
}

/// Base tokens left of `balance` after the performance fee `fee` is taken.
pub open spec fn after_fee(balance: u128, fee: u128) -> int {
    ratio(balance, (DECIMAL_FRACTIONAL - fee) as u128, DECIMAL_FRACTIONAL)
}

/// Fee transfers to the treasury for the first `n` reward assets.
pub open spec fn treasury_transfers(c: Config, balances: Seq<u128>, n: int) -> Seq<Action>
    decreases n,
{
    if n <= 0 {
        Seq::empty()
    } else {
        let rest = treasury_transfers(c, balances, n - 1);
        let fee = balances[n - 1] - after_fee(balances[n - 1], c.performance_fee);
        if fee > 0 {
            rest.push(Action::Transfer {
                asset: Asset { info: c.reward_assets@[n - 1], amount: fee as u128 },
                recipient: c.treasury,
            })
        } else {
            rest
        }
    }
}

/// Whether a reward asset is swapped: it has something left after the fee
/// and is neither a pool asset nor the base token.
pub open spec fn sold(info: AssetInfo, left: int, pool_assets: Seq<AssetInfo>, base_token: AssetInfo) -> bool {
    left > 0 && !contains_asset(pool_assets, info) && info@ != base_token@
}

/// Reward amounts, after the fee, to swap into the liquidation target, for
/// the first `n` reward assets.
pub open spec fn rewards_to_sell(c: Config, balances: Seq<u128>, pool_assets: Seq<AssetInfo>, base_token: AssetInfo, n: int) -> Seq<Asset>
    decreases n,
{
    if n <= 0 {
        Seq::empty()
    } else {
        let rest = rewards_to_sell(c, balances, pool_assets, base_token, n - 1);
        let left = after_fee(balances[n - 1], c.performance_fee);
        if sold(c.reward_assets@[n - 1], left, pool_assets, base_token) {
            rest.push(Asset { info: c.reward_assets@[n - 1], amount: left as u128 })
        } else {
            rest
        }
    }
}

/// The assets of `s` with a nonzero amount, in order.
pub open spec fn nonzero_assets(s: Seq<Asset>) -> Seq<Asset>
    decreases s.len(),
{
    if s.len() == 0 {
        Seq::empty()
    } else if s.last().amount > 0 {
        nonzero_assets(s.drop_last()).push(s.last())
    } else {
        nonzero_assets(s.drop_last())
    }
}

/// The four steps of a compounding cycle: harvest, then sell, provide
/// liquidity and stake what was gained above `base_token_balance_before`.
pub open spec fn compound_actions(base_token_balance_before: u128) -> Seq<Action> {
    seq![
        Action::ClaimRewards,
        Action::Callback(CallbackMsg::SellRewards {}),
        Action::Callback(CallbackMsg::ProvideLiquidity {}),
        Action::Callback(CallbackMsg::Stake { base_token_balance_before }),
    ]
}

/// The vault: share accounting, configuration, admin and unlocking claims.
pub struct AutocompoundingVault {
    pub base_vault: BaseVault,
    pub config: Config,
    /// The admin, allowed to change the configuration and the whitelist.
    pub admin: Option<String>,
    /// An admin proposed by the current admin, not yet accepted.
    pub admin_transfer: Option<String>,
    /// Claims of depositors whose shares were burnt and whose base tokens unlock.
    pub claims: Claims,
}

impl AutocompoundingVault {
    /// The claims ledger is well formed and the performance fee is at most one.
    pub open spec fn wf(&self) -> bool {
        &&& self.claims.wf()
        &&& self.config.performance_fee <= DECIMAL_FRACTIONAL
    }

    /// A new vault with no stake, no shares and no claims. Fails when the
    /// reward liquidation target is not a pool asset, or the performance fee
    /// is above one.
    pub fn init(
        admin: String,
        pool_assets: &Vec<AssetInfo>,
        base_token: AssetInfo,
        vault_token: AssetInfo,
        config: Config,
    ) -> (r: Result<AutocompoundingVault, ContractError>)
        ensures
            !contains_asset(pool_assets@, config.reward_liquidation_target) ==> r == Err::<AutocompoundingVault, ContractError>(
                ContractError::InvalidRewardLiquidationTarget,
            ),
            contains_asset(pool_assets@, config.reward_liquidation_target) && config.performance_fee > DECIMAL_FRACTIONAL
                ==> r == Err::<AutocompoundingVault, ContractError>(ContractError::PerformanceFeeTooHigh),
            contains_asset(pool_assets@, config.reward_liquidation_target) && config.performance_fee <= DECIMAL_FRACTIONAL
                ==> r is Ok && {
                let v = r->Ok_0;
                &&& v.wf()
                &&& v.base_vault == (BaseVault { base_token, vault_token, total_staked_base_tokens: 0, vault_token_supply: 0 })
                &&& v.config == config
                &&& v.admin == Some(admin)
                &&& v.admin_transfer is None
                &&& v.claims.claims_map() == Map::<u64, crate::claims::Claim>::empty()
                &&& v.claims.pending() is None
                &&& v.claims.next_id() == 0
            },
    {
        if !vec_contains_asset(pool_assets, &config.reward_liquidation_target) {
            return Err(ContractError::InvalidRewardLiquidationTarget);
        }
        if config.performance_fee > DECIMAL_FRACTIONAL {
            return Err(ContractError::PerformanceFeeTooHigh);
        }
        Ok(AutocompoundingVault {
            base_vault: BaseVault { base_token, vault_token, total_staked_base_tokens: 0, vault_token_supply: 0 },
            config,
            admin: Some(admin),
            admin_transfer: None,
            claims: Claims::new(),
        })
    }

    /// Starts a compounding cycle. `base_token_balance` is the vault's base
    /// token balance now, of which `user_deposit_amount` is a deposit that
    /// arrived with this call; the stake step stakes everything above the
    /// rest, so the deposit is staked together with the compounded yield.
    pub fn compound(&self, base_token_balance: u128, user_deposit_amount: u128) -> (r: Result<Vec<Action>, ContractError>)
        ensures
            user_deposit_amount > base_token_balance ==> r == Err::<Vec<Action>, ContractError>(ContractError::Underflow),
            user_deposit_amount <= base_token_balance ==> r is Ok && r->Ok_0@ == compound_actions(
                (base_token_balance - user_deposit_amount) as u128,
            ),
    {
        if user_deposit_amount > base_token_balance {
            return Err(ContractError::Underflow);
        }
        let before = base_token_balance - user_deposit_amount;
        let r = vec![
            Action::ClaimRewards,
            Action::Callback(CallbackMsg::SellRewards {}),
            Action::Callback(CallbackMsg::ProvideLiquidity {}),
            Action::Callback(CallbackMsg::Stake { base_token_balance_before: before }),
        ];
        assert(r@ == compound_actions(before));
        Ok(r)
    }

    /// Sell step. `reward_balances[i]` is the vault's balance of reward asset
    /// `i`. The performance fee of each balance goes to the treasury; what is
    /// left of each reward that is neither a pool asset nor the base token is
    /// swapped into the liquidation target.
    pub fn execute_callback_sell_rewards(&self, reward_balances: &Vec<u128>, pool_assets: &Vec<AssetInfo>) -> (r: Vec<Action>)
        requires
            self.wf(),
            reward_balances@.len() == self.config.reward_assets@.len(),
        ensures
            ({
                let n = reward_balances@.len() as int;
                let t = treasury_transfers(self.config, reward_balances@, n);
                let s = rewards_to_sell(self.config, reward_balances@, pool_assets@, self.base_vault.base_token, n);
                &&& r@.len() == t.len() + if s.len() > 0 { 1int } else { 0int }
                &&& forall|i: int| 0 <= i < t.len() ==> r@[i] == t[i]
                &&& s.len() > 0 ==> (r@[t.len() as int] matches Action::BasketLiquidate { assets, target }
                    && assets@ == s && target == self.config.reward_liquidation_target)
            }),
    {
        let fee = self.config.performance_fee;
        let mut transfers: Vec<Action> = Vec::new();
        let mut to_sell: Vec<Asset> = Vec::new();
        let mut i: usize = 0;
        while i < reward_balances.len()
            invariant
                self.wf(),
                fee == self.config.performance_fee,
                i <= reward_balances@.len(),
                reward_balances@.len() == self.config.reward_assets@.len(),
                transfers@ == treasury_transfers(self.config, reward_balances@, i as int),
                to_sell@ == rewards_to_sell(self.config, reward_balances@, pool_assets@, self.base_vault.base_token, i as int),
            decreases reward_balances@.len() - i,
        {
            let balance = reward_balances[i];
            proof {
                // What is left after the fee never exceeds the balance, so the ratio fits.
                let k = (DECIMAL_FRACTIONAL - fee) as int;
                let d = DECIMAL_FRACTIONAL as int;
                assert((balance as int) * k <= (balance as int) * d) by (nonlinear_arith)
                    requires 0 <= k <= d, 0 <= balance;
                vstd::arithmetic::div_mod::lemma_div_is_ordered((balance as int) * k, (balance as int) * d, d);
                vstd::arithmetic::div_mod::lemma_div_by_multiple(balance as int, d);
            }
            let left = match multiply_ratio(balance, DECIMAL_FRACTIONAL - fee, DECIMAL_FRACTIONAL) {
                Ok(v) => v,
                Err(_) => balance,
            };
            let to_treasury = balance - left;
            let info = &self.config.reward_assets[i];
            if to_treasury > 0 {
                transfers.push(Action::Transfer {
                    asset: Asset { info: copy_asset_info(info), amount: to_treasury },
                    recipient: self.config.treasury.clone(),
                });
            }
            if left > 0 && !vec_contains_asset(pool_assets, info) && !(*info == self.base_vault.base_token) {
                to_sell.push(Asset { info: copy_asset_info(info), amount: left });
            }
            i = i + 1;
        }
        if to_sell.len() > 0 {
            transfers.push(Action::BasketLiquidate {
                assets: to_sell,
                target: copy_asset_info(&self.config.reward_liquidation_target),
            });
        }
        transfers
    }

    /// Provide-liquidity step. `pool_balances` holds the vault's balance of
    /// each pool asset; the nonzero ones are handed to the liquidity helper,
    /// and nothing happens when all are zero.
    pub fn execute_callback_provide_liquidity(&self, pool_balances: &Vec<Asset>) -> (r: Vec<Action>)
        ensures
            nonzero_assets(pool_balances@).len() == 0 ==> r@.len() == 0,
            nonzero_assets(pool_balances@).len() > 0 ==> r@.len() == 1 && (r@[0] matches Action::ProvideLiquidity { assets }
                && assets@ == nonzero_assets(pool_balances@)),
    {
        let mut assets: Vec<Asset> = Vec::new();
        let mut i: usize = 0;
        while i < pool_balances.len()
            invariant
                i <= pool_balances@.len(),
                assets@ == nonzero_assets(pool_balances@.take(i as int)),
            decreases pool_balances@.len() - i,
        {
            proof {
                assert(pool_balances@.take(i + 1).drop_last() =~= pool_balances@.take(i as int));
                assert(pool_balances@.take(i + 1).last() == pool_balances@[i as int]);
            }
            if pool_balances[i].amount > 0 {
                assets.push(copy_asset(&pool_balances[i]));
            }
            i = i + 1;
        }
        assert(pool_balances@.take(pool_balances@.len() as int) =~= pool_balances@);
        if assets.len() == 0 {
            Vec::new()
        } else {
            vec![Action::ProvideLiquidity { assets }]
        }
    }

    /// Stake step. Stakes what the base token balance gained above
    /// `base_token_balance_before` (nothing when it did not grow) and adds it
    /// to the staked total.
    pub fn execute_callback_stake(&mut self, base_token_balance: u128, base_token_balance_before: u128) -> (r: Result<Vec<Action>, ContractError>)
        ensures
            ({
                let gained = if base_token_balance > base_token_balance_before {
                    base_token_balance - base_token_balance_before
                } else {
                    0
                };
                let total = old(self).base_vault.total_staked_base_tokens;
                &&& gained == 0 ==> r is Ok && r->Ok_0@.len() == 0 && *final(self) == *old(self)
                &&& gained > 0 && total + gained > u128::MAX ==> r == Err::<Vec<Action>, ContractError>(ContractError::Overflow)
                    && *final(self) == *old(self)
                &&& gained > 0 && total + gained <= u128::MAX ==> r is Ok && r->Ok_0@ == seq![
                    Action::Stake { amount: gained as u128 },
                ] && final(self).base_vault.total_staked_base_tokens == total + gained
                    && final(self).base_vault.vault_token_supply == old(self).base_vault.vault_token_supply
                    && final(self).base_vault.base_token == old(self).base_vault.base_token
                    && final(self).base_vault.vault_token == old(self).base_vault.vault_token
                    && final(self).config == old(self).config && final(self).claims == old(self).claims
                    && final(self).admin == old(self).admin && final(self).admin_transfer == old(self).admin_transfer
            }),
    {
        let amount_to_stake = if base_token_balance > base_token_balance_before {
            base_token_balance - base_token_balance_before
        } else {
            0
        };
        if amount_to_stake == 0 {
            return Ok(Vec::new());
        }
        match self.base_vault.total_staked_base_tokens.checked_add(amount_to_stake) {
            Some(t) => self.base_vault.total_staked_base_tokens = t,
            None => return Err(ContractError::Overflow),
        }
        Ok(vec![Action::Stake { amount: amount_to_stake }])
    }

    /// Mint step of a deposit of `amount` base tokens that the stake step has
    /// already added to the staked total: mints shares priced against the
    /// staked total without the deposit.
    pub fn execute_callback_mint_vault_token(&mut self, amount: u128, recipient: String) -> (r: Result<Vec<Action>, ContractError>)
        ensures
            ({
                let bv = old(self).base_vault;
                let priced = spec_vault_tokens(amount, (bv.total_staked_base_tokens - amount) as u128, bv.vault_token_supply);
                if amount > bv.total_staked_base_tokens {
                    r == Err::<Vec<Action>, ContractError>(ContractError::Underflow) && *final(self) == *old(self)
                } else if priced is Err {
                    r == Err::<Vec<Action>, ContractError>(priced->Err_0) && *final(self) == *old(self)
                } else if bv.vault_token_supply + priced->Ok_0 > u128::MAX {
                    r == Err::<Vec<Action>, ContractError>(ContractError::Overflow) && *final(self) == *old(self)
                } else {
                    &&& r is Ok
                    &&& r->Ok_0@ == seq![Action::MintVaultTokens { recipient, amount: priced->Ok_0 }]
                    &&& final(self).base_vault == (BaseVault { vault_token_supply: (bv.vault_token_supply + priced->Ok_0) as u128, ..bv })
                    &&& final(self).config == old(self).config && final(self).claims == old(self).claims
                    &&& final(self).admin == old(self).admin && final(self).admin_transfer == old(self).admin_transfer
                }
            }),
    {
        if amount > self.base_vault.total_staked_base_tokens {
            return Err(ContractError::Underflow);
        }
        let vault_tokens = calculate_vault_tokens(
            amount,
            self.base_vault.total_staked_base_tokens - amount,
            self.base_vault.vault_token_supply,
        )?;
        match self.base_vault.vault_token_supply.checked_add(vault_tokens) {
            Some(s) => self.base_vault.vault_token_supply = s,
            None => return Err(ContractError::Overflow),
        }
        Ok(vec![Action::MintVaultTokens { recipient, amount: vault_tokens }])
    }

    /// Whether `sender` is the admin.
    pub open spec fn is_admin(&self, sender: Seq<char>) -> bool {
        self.admin matches Some(a) && a@ == sender
    }

    /// Whether `sender` is on the force-withdraw whitelist.
    pub open spec fn is_whitelisted(&self, sender: Seq<char>) -> bool {
        contains_addr(self.config.force_withdraw_whitelist@, sender)
    }

    /// Actions that move `amount` vault tokens of `sender` into the vault.
    /// A native vault token must be attached to the call.
    pub open spec fn spec_receive_vault_tokens(&self, sender: String, funds: Seq<Coin>, amount: u128) -> Result<Seq<Action>, ContractError> {
        match self.base_vault.vault_token {
            AssetInfo::Native(d) => if contains_coin(funds, d@, amount) {
                Ok(Seq::empty())
            } else {
                Err(ContractError::UnexpectedFunds)
            },
            AssetInfo::Cw20(_) => Ok(seq![Action::ReceiveVaultTokens { owner: sender, amount }]),
        }
    }

    fn receive_vault_tokens(&self, sender: &String, funds: &Vec<Coin>, amount: u128) -> (r: Result<Vec<Action>, ContractError>)
        ensures
            outcome(r, self.spec_receive_vault_tokens(*sender, funds@, amount)),
    {
        match &self.base_vault.vault_token {
            AssetInfo::Native(d) => if funds_contain(funds, d, amount) {
                Ok(Vec::new())
            } else {
                Err(ContractError::UnexpectedFunds)
            },
            AssetInfo::Cw20(_) => {
                let v = vec![Action::ReceiveVaultTokens { owner: sender.clone(), amount }];
                assert(v@ =~= seq![Action::ReceiveVaultTokens { owner: *sender, amount }]);
                Ok(v)
            },
        }
    }

    /// Actions, and the deposit already in the balance, for taking in
    /// `amount` base tokens from `sender`: a native base token must be
    /// attached to the call, a cw20 one is pulled from the sender.
    pub open spec fn spec_receive_deposit(&self, sender: String, funds: Seq<Coin>, amount: u128) -> Result<(Seq<Action>, u128), ContractError> {
        match self.base_vault.base_token {
            AssetInfo::Native(d) => if contains_coin(funds, d@, amount) {
                Ok((Seq::empty(), amount))
            } else {
                Err(ContractError::UnexpectedFunds)
            },
            AssetInfo::Cw20(a) => Ok((seq![Action::TransferFrom {
                asset: Asset { info: AssetInfo::Cw20(a), amount },
                owner: sender,
            }], 0u128)),
        }
    }

    /// Actions of a deposit of `amount` base tokens by `sender`, minting to
    /// `recipient` (the sender when `None`); `base_token_balance` is the
    /// vault's base token balance when the call is made.
    pub open spec fn spec_deposit(
        &self,
        sender: String,
        funds: Seq<Coin>,
        amount: u128,
        recipient: Option<String>,
        base_token_balance: u128,
    ) -> Result<Seq<Action>, ContractError> {
        match self.spec_receive_deposit(sender, funds, amount) {
            Err(e) => Err(e),
            Ok((received, user_deposit)) => if funds.len() > 1 {
                Err(ContractError::UnexpectedFunds)
            } else if user_deposit > base_token_balance {
                Err(ContractError::Underflow)
            } else {
                Ok(received + compound_actions((base_token_balance - user_deposit) as u128) + seq![
                    Action::Callback(CallbackMsg::MintVaultToken { amount, recipient: recipient_or(recipient, sender) }),
                ])
            },
        }
    }

    /// Deposits `amount` base tokens: takes them in, compounds (which also
    /// stakes the deposit), then mints vault tokens for it.
    pub fn execute_deposit(
        &self,
        sender: &String,
        funds: &Vec<Coin>,
        amount: u128,
        recipient: Option<String>,
        base_token_balance: u128,
    ) -> (r: Result<Vec<Action>, ContractError>)
        ensures
            outcome(r, self.spec_deposit(*sender, funds@, amount, recipient, base_token_balance)),
    {
        let (mut actions, user_deposit) = match &self.base_vault.base_token {
            AssetInfo::Native(d) => if funds_contain(funds, d, amount) {
                (Vec::new(), amount)
            } else {
                return Err(ContractError::UnexpectedFunds);
            },
            AssetInfo::Cw20(a) => {
                let v = vec![Action::TransferFrom {
                    asset: Asset { info: AssetInfo::Cw20(a.clone()), amount },
                    owner: sender.clone(),
                }];
                assert(v@ =~= seq![Action::TransferFrom {
                    asset: Asset { info: AssetInfo::Cw20(*a), amount },
                    owner: *sender,
                }]);
                (v, 0u128)
            },
        };
        let ghost received = actions@;
        if funds.len() > 1 {
            return Err(ContractError::UnexpectedFunds);
        }
        let mut compound = self.compound(base_token_balance, user_deposit)?;
        let ghost steps = compound@;
        actions.append(&mut compound);
        let recipient = match recipient {
            Some(r) => r,
            None => sender.clone(),
        };
        let ghost last = Action::Callback(CallbackMsg::MintVaultToken { amount, recipient });
        actions.push(Action::Callback(CallbackMsg::MintVaultToken { amount, recipient }));
        assert(actions@ =~= received + steps + seq![last]);
        Ok(actions)
    }

    /// Redeems `vault_token_amount` vault tokens for base tokens sent to
    /// `recipient` (the sender when `None`): takes in the vault tokens,
    /// compounds, then burns them.
    pub fn execute_redeem(
        &self,
        sender: &String,
        funds: &Vec<Coin>,
        vault_token_amount: u128,
        recipient: Option<String>,
        base_token_balance: u128,
    ) -> (r: Result<Vec<Action>, ContractError>)
        ensures
            outcome(r, match self.spec_receive_vault_tokens(*sender, funds@, vault_token_amount) {
                Err(e) => Err(e),
                Ok(received) => Ok(received + compound_actions(base_token_balance) + seq![
                    Action::Callback(CallbackMsg::Redeem { recipient: recipient_or(recipient, *sender), amount: vault_token_amount }),
                ]),
            }),
    {
        let mut actions = self.receive_vault_tokens(sender, funds, vault_token_amount)?;
        let ghost received = actions@;
        let mut compound = self.compound(base_token_balance, 0)?;
        let ghost steps = compound@;
        actions.append(&mut compound);
        let recipient = match recipient {
            Some(r) => r,
            None => sender.clone(),
        };
        let ghost last = Action::Callback(CallbackMsg::Redeem { recipient, amount: vault_token_amount });
        actions.push(Action::Callback(CallbackMsg::Redeem { recipient, amount: vault_token_amount }));
        assert(actions@ =~= received + steps + seq![last]);
        Ok(actions)
    }

    /// Redeem step: burns `vault_token_amount` vault tokens, unstakes the
    /// base tokens they are worth and sends them to `recipient`.
    pub fn execute_callback_redeem(&mut self, vault_token_amount: u128, recipient: String) -> (r: Result<Vec<Action>, ContractError>)
        ensures
            match spec_burn(old(self).base_vault, vault_token_amount) {
                Err(e) => r == Err::<Vec<Action>, ContractError>(e) && *final(self) == *old(self),
                Ok((base, total, supply)) => {
                    &&& r is Ok
                    &&& r->Ok_0@ == seq![
                        Action::BurnVaultTokens { amount: vault_token_amount },
                        Action::Unstake { amount: base },
                        Action::Transfer { asset: Asset { info: old(self).base_vault.base_token, amount: base }, recipient },
                    ]
                    &&& final(self).base_vault == (BaseVault { total_staked_base_tokens: total, vault_token_supply: supply, ..old(self).base_vault })
                    &&& final(self).config == old(self).config && final(self).claims == old(self).claims
                    &&& final(self).admin == old(self).admin && final(self).admin_transfer == old(self).admin_transfer
                },
            },
    {
        let (base, mut actions) = self.base_vault.burn_vault_tokens_for_base_tokens(vault_token_amount)?;
        actions.push(Action::Unstake { amount: base });
        actions.push(Action::Transfer {
            asset: Asset { info: copy_asset_info(&self.base_vault.base_token), amount: base },
            recipient,
        });
        Ok(actions)
    }

    /// Starts unlocking `vault_token_amount` vault tokens of `sender`: takes
    /// them in, compounds, then burns them and stages a claim, which a last
    /// step commits.
    pub fn execute_unlock(
        &self,
        sender: &String,
        funds: &Vec<Coin>,
        vault_token_amount: u128,
        base_token_balance: u128,
    ) -> (r: Result<Vec<Action>, ContractError>)
        ensures
            outcome(r, match self.spec_receive_vault_tokens(*sender, funds@, vault_token_amount) {
                Err(e) => Err(e),
                Ok(received) => Ok(received + compound_actions(base_token_balance) + seq![
                    Action::Callback(CallbackMsg::Unlock { owner: *sender, vault_token_amount }),
                    Action::Callback(CallbackMsg::SaveClaim {}),
                ]),
            }),
    {
        let mut actions = self.receive_vault_tokens(sender, funds, vault_token_amount)?;
        let ghost received = actions@;
        let mut compound = self.compound(base_token_balance, 0)?;
        let ghost steps = compound@;
        actions.append(&mut compound);
        actions.push(Action::Callback(CallbackMsg::Unlock { owner: sender.clone(), vault_token_amount }));
        actions.push(Action::Callback(CallbackMsg::SaveClaim {}));
        assert(actions@ =~= received + steps + seq![
            Action::Callback(CallbackMsg::Unlock { owner: *sender, vault_token_amount }),
            Action::Callback(CallbackMsg::SaveClaim {}),
        ]);
        Ok(actions)
    }

    /// Unlock step: burns `vault_token_amount` vault tokens and stages a claim
    /// of `owner` on the base tokens they are worth, released
    /// `lockup_duration` after `block`; the staking position starts
    /// unlocking them.
    pub fn execute_callback_unlock(
        &mut self,
        owner: String,
        vault_token_amount: u128,
        lockup_duration: Duration,
        block: &BlockInfo,
    ) -> (r: Result<Vec<Action>, ContractError>)
        requires
            old(self).wf(),
        ensures
            final(self).wf(),
            match spec_burn(old(self).base_vault, vault_token_amount) {
                Err(e) => r == Err::<Vec<Action>, ContractError>(e) && *final(self) == *old(self),
                Ok((base, total, supply)) => match lockup_duration.spec_after(*block) {
                    Err(e) => r == Err::<Vec<Action>, ContractError>(e) && *final(self) == *old(self),
                    Ok(release_at) => if old(self).claims.pending() is Some {
                        r == Err::<Vec<Action>, ContractError>(ContractError::PendingClaimExists) && *final(self) == *old(self)
                    } else {
                        &&& r is Ok
                        &&& r->Ok_0@ == seq![Action::BurnVaultTokens { amount: vault_token_amount }, Action::Unlock { amount: base }]
                        &&& final(self).base_vault == (BaseVault { total_staked_base_tokens: total, vault_token_supply: supply, ..old(self).base_vault })
                        &&& final(self).claims.pending() == Some(Claim { id: old(self).claims.next_id(), owner, base_token_amount: base, release_at })
                        &&& final(self).claims.ledger() == old(self).claims.ledger()
                        &&& final(self).claims.next_id() == old(self).claims.next_id()
                        &&& final(self).claims.issued_ids() == old(self).claims.issued_ids()
                        &&& final(self).config == old(self).config
                        &&& final(self).admin == old(self).admin && final(self).admin_transfer == old(self).admin_transfer
                    },
                },
            },
    {
        let (base, total, supply) = self.base_vault.preview_burn(vault_token_amount)?;
        let release_at = lockup_duration.after(block)?;
        self.claims.create_pending_claim(&owner, base, release_at, None)?;
        self.base_vault.total_staked_base_tokens = total;
        self.base_vault.vault_token_supply = supply;
        Ok(vec![Action::BurnVaultTokens { amount: vault_token_amount }, Action::Unlock { amount: base }])
    }

    /// Last unlock step: commits the staged claim.
    pub fn execute_callback_save_claim(&mut self) -> (r: Result<Vec<Action>, ContractError>)
        requires
            old(self).wf(),
        ensures
            final(self).wf(),
            match old(self).claims.pending() {
                None => r == Err::<Vec<Action>, ContractError>(ContractError::NoPendingClaim),
                Some(p) => if old(self).claims.claims_map().contains_key(p.id) {
                    r == Err::<Vec<Action>, ContractError>(ContractError::DuplicateClaimId)
                } else if p.id == u64::MAX {
                    r == Err::<Vec<Action>, ContractError>(ContractError::Overflow)
                } else {
                    &&& r is Ok && r->Ok_0@.len() == 0
                    &&& final(self).claims.claims_map() == old(self).claims.claims_map().insert(p.id, p)
                    &&& final(self).claims.pending() is None
                    &&& final(self).claims.next_id() == if p.id >= old(self).claims.next_id() {
                        (p.id + 1) as u64
                    } else {
                        old(self).claims.next_id()
                    }
                    &&& final(self).claims.issued_ids() == old(self).claims.issued_ids().insert(p.id)
                },
            },
            r is Err ==> *final(self) == *old(self),
            final(self).base_vault == old(self).base_vault && final(self).config == old(self).config,
            final(self).admin == old(self).admin && final(self).admin_transfer == old(self).admin_transfer,
    {
        self.claims.commit_pending_claim()?;
        Ok(Vec::new())
    }

    /// Withdraws the base tokens of matured claim `lockup_id` of `sender`,
    /// sending them to `recipient` (the sender when `None`).
    pub fn execute_withdraw_unlocked(
        &mut self,
        sender: &String,
        lockup_id: u64,
        recipient: Option<String>,
        block: &BlockInfo,
    ) -> (r: Result<Vec<Action>, ContractError>)
        requires
            old(self).wf(),
        ensures
            final(self).wf(),
            !old(self).claims.claims_map().contains_key(lockup_id) ==> r == Err::<Vec<Action>, ContractError>(ContractError::ClaimNotFound),
            old(self).claims.claims_map().contains_key(lockup_id) ==> {
                let c = old(self).claims.claims_map()[lockup_id];
                if c.owner@ != sender@ {
                    r == Err::<Vec<Action>, ContractError>(ContractError::ClaimNotOwned)
                } else if !c.release_at.spec_is_expired(*block) {
                    r == Err::<Vec<Action>, ContractError>(ContractError::ClaimNotMatured)
                } else {
                    &&& r is Ok
                    &&& r->Ok_0@ == seq![
                        Action::WithdrawUnlocked { amount: c.base_token_amount },
                        Action::Transfer {
                            asset: Asset { info: old(self).base_vault.base_token, amount: c.base_token_amount },
                            recipient: recipient_or(recipient, *sender),
                        },
                    ]
                    &&& final(self).claims.claims_map() == old(self).claims.claims_map().remove(lockup_id)
                }
            },
            r is Err ==> *final(self) == *old(self),
            final(self).base_vault == old(self).base_vault && final(self).config == old(self).config,
            final(self).admin == old(self).admin && final(self).admin_transfer == old(self).admin_transfer,
    {
        let amount = self.claims.claim_tokens(block, sender, lockup_id)?;
        let recipient = match recipient {
            Some(r) => r,
            None => sender.clone(),
        };
        Ok(vec![
            Action::WithdrawUnlocked { amount },
            Action::Transfer { asset: Asset { info: copy_asset_info(&self.base_vault.base_token), amount }, recipient },
        ])
    }

    /// The claims of `owner` after `start_after`, in id order, at most
    /// `limit` of them (ten when `None`).
    pub fn query_unlocking_positions(&self, owner: &String, start_after: Option<u64>, limit: Option<u32>) -> (r: Vec<Claim>)
        ensures
            r@ == first_n(
                owner_claims(self.claims.ledger(), owner@, start_after),
                match limit {
                    Some(l) => l,
                    None => DEFAULT_LIMIT,
                } as nat,
            ),
    {
        let pairs = self.claims.query_claims_for_owner(owner, start_after, limit);
        let ghost expected = first_n(
            owner_claims(self.claims.ledger(), owner@, start_after),
            match limit {
                Some(l) => l,
                None => DEFAULT_LIMIT,
            } as nat,
        );
        let mut out: Vec<Claim> = Vec::new();
        let mut i: usize = 0;
        while i < pairs.len()
            invariant
                i <= pairs@.len(),
                pairs@.len() == expected.len(),
                forall|j: int| 0 <= j < pairs@.len() ==> #[trigger] pairs@[j] == (expected[j].id, expected[j]),
                out@ == expected.take(i as int),
            decreases pairs@.len() - i,
        {
            assert(pairs@[i as int] == (expected[i as int].id, expected[i as int]));
            out.push(crate::claims::copy_claim(&pairs[i].1));
            assert(expected.take(i + 1) =~= expected.take(i as int).push(expected[i as int]));
            i = i + 1;
        }
        assert(expected.take(expected.len() as int) =~= expected);
        out
    }

    /// Whitelisted redemption that skips the staking position's unlock
    /// delay: takes in the vault tokens, burns them and sends the base tokens
    /// they are worth, freed at once, to `recipient` (the sender when `None`).
    pub fn execute_force_redeem(
        &mut self,
        sender: &String,
        funds: &Vec<Coin>,
        vault_token_amount: u128,
        recipient: Option<String>,
    ) -> (r: Result<Vec<Action>, ContractError>)
        ensures
            match old(self).spec_receive_vault_tokens(*sender, funds@, vault_token_amount) {
                Err(e) => r == Err::<Vec<Action>, ContractError>(e) && *final(self) == *old(self),
                Ok(received) => if !old(self).is_whitelisted(sender@) {
                    r == Err::<Vec<Action>, ContractError>(ContractError::Unauthorized) && *final(self) == *old(self)
                } else {
                    match spec_burn(old(self).base_vault, vault_token_amount) {
                        Err(e) => r == Err::<Vec<Action>, ContractError>(e) && *final(self) == *old(self),
                        Ok((base, total, supply)) => {
                            &&& r is Ok
                            &&& r->Ok_0@ == received + seq![
                                Action::BurnVaultTokens { amount: vault_token_amount },
                                Action::ForceUnlock { lockup_id: None, amount: base },
                                Action::Transfer {
                                    asset: Asset { info: old(self).base_vault.base_token, amount: base },
                                    recipient: recipient_or(recipient, *sender),
                                },
                            ]
                            &&& final(self).base_vault == (BaseVault { total_staked_base_tokens: total, vault_token_supply: supply, ..old(self).base_vault })
                            &&& final(self).config == old(self).config && final(self).claims == old(self).claims
                            &&& final(self).admin == old(self).admin && final(self).admin_transfer == old(self).admin_transfer
                        },
                    }
                },
            },
    {
        let mut actions = self.receive_vault_tokens(sender, funds, vault_token_amount)?;
        let ghost received = actions@;
        if !vec_contains_addr(&self.config.force_withdraw_whitelist, sender) {
            return Err(ContractError::Unauthorized);
        }
        let (base, mut burn) = self.base_vault.burn_vault_tokens_for_base_tokens(vault_token_amount)?;
        actions.append(&mut burn);
        actions.push(Action::ForceUnlock { lockup_id: None, amount: base });
        let recipient = match recipient {
            Some(r) => r,
            None => sender.clone(),
        };
        let ghost to = recipient;
        actions.push(Action::Transfer { asset: Asset { info: copy_asset_info(&self.base_vault.base_token), amount: base }, recipient });
        assert(actions@ =~= received + seq![
            Action::BurnVaultTokens { amount: vault_token_amount },
            Action::ForceUnlock { lockup_id: None, amount: base },
            Action::Transfer { asset: Asset { info: self.base_vault.base_token, amount: base }, recipient: to },
        ]);
        Ok(actions)
    }

    /// Whitelisted withdrawal from claim `lockup_id` of `sender` that skips
    /// its release point: pays out `amount` of it (all of it when `None`) to
    /// `recipient` (the sender when `None`). A claim that has not matured is
    /// first freed from the staking position; a matured one holds freed
    /// tokens already.
    pub fn execute_force_withdraw_unlocking(
        &mut self,
        sender: &String,
        lockup_id: u64,
        amount: Option<u128>,
        recipient: Option<String>,
        block: &BlockInfo,
    ) -> (r: Result<Vec<Action>, ContractError>)
        requires
            old(self).wf(),
        ensures
            final(self).wf(),
            !old(self).is_whitelisted(sender@) ==> r == Err::<Vec<Action>, ContractError>(ContractError::Unauthorized),
            old(self).is_whitelisted(sender@) && !old(self).claims.claims_map().contains_key(lockup_id)
                ==> r == Err::<Vec<Action>, ContractError>(ContractError::ClaimNotFound),
            old(self).is_whitelisted(sender@) && old(self).claims.claims_map().contains_key(lockup_id) ==> {
                let c = old(self).claims.claims_map()[lockup_id];
                let asked = match amount {
                    Some(a) => a,
                    None => c.base_token_amount,
                };
                let send = Action::Transfer {
                    asset: Asset { info: old(self).base_vault.base_token, amount: asked },
                    recipient: recipient_or(recipient, *sender),
                };
                if c.owner@ != sender@ {
                    r == Err::<Vec<Action>, ContractError>(ContractError::ClaimNotOwned)
                } else if asked > c.base_token_amount {
                    r == Err::<Vec<Action>, ContractError>(ContractError::ClaimAmountExceeded)
                } else {
                    &&& r is Ok
                    &&& c.release_at.spec_is_expired(*block) ==> r->Ok_0@ == seq![send]
                    &&& !c.release_at.spec_is_expired(*block) ==> r->Ok_0@ == seq![
                        Action::ForceUnlock { lockup_id: Some(lockup_id), amount: asked },
                        send,
                    ]
                    &&& asked < c.base_token_amount ==> final(self).claims.claims_map() == old(self).claims.claims_map().insert(
                        lockup_id,
                        Claim { base_token_amount: (c.base_token_amount - asked) as u128, ..c },
                    )
                    &&& asked == c.base_token_amount ==> final(self).claims.claims_map() == old(self).claims.claims_map().remove(lockup_id)
                }
            },
            r is Err ==> *final(self) == *old(self),
            final(self).base_vault == old(self).base_vault && final(self).config == old(self).config,
            final(self).admin == old(self).admin && final(self).admin_transfer == old(self).admin_transfer,
    {
        if !vec_contains_addr(&self.config.force_withdraw_whitelist, sender) {
            return Err(ContractError::Unauthorized);
        }
        let claim = self.claims.query_claim_by_id(lockup_id)?;
        let is_expired = claim.release_at.is_expired(block);
        let claimed = self.claims.force_claim(sender, lockup_id, amount)?;
        let recipient = match recipient {
            Some(r) => r,
            None => sender.clone(),
        };
        let send = Action::Transfer { asset: Asset { info: copy_asset_info(&self.base_vault.base_token), amount: claimed }, recipient };
        if is_expired {
            Ok(vec![send])
        } else {
            Ok(vec![Action::ForceUnlock { lockup_id: Some(lockup_id), amount: claimed }, send])
        }
    }

    /// Admin-only: removes `remove_addresses` from the force-withdraw
    /// whitelist and adds `add_addresses`; the result holds no address twice.
    pub fn execute_update_force_withdraw_whitelist(
        &mut self,
        sender: &String,
        add_addresses: Vec<String>,
        remove_addresses: Vec<String>,
    ) -> (r: Result<Vec<Action>, ContractError>)
        ensures
            !old(self).is_admin(sender@) ==> r == Err::<Vec<Action>, ContractError>(ContractError::Unauthorized) && *final(self) == *old(self),
            old(self).is_admin(sender@) ==> {
                let w = final(self).config.force_withdraw_whitelist@;
                &&& r is Ok && r->Ok_0@.len() == 0
                &&& forall|a: Seq<char>| #[trigger] contains_addr(w, a) <==> (contains_addr(old(self).config.force_withdraw_whitelist@, a)
                    && !contains_addr(remove_addresses@, a)) || contains_addr(add_addresses@, a)
                &&& forall|i: int, j: int| 0 <= i < j < w.len() ==> w[i]@ != w[j]@
                &&& final(self).config == (Config { force_withdraw_whitelist: final(self).config.force_withdraw_whitelist, ..old(self).config })
                &&& final(self).base_vault == old(self).base_vault && final(self).claims == old(self).claims
                &&& final(self).admin == old(self).admin && final(self).admin_transfer == old(self).admin_transfer
            },
    {
        let is_admin = match &self.admin {
            Some(a) => *a == *sender,
            None => false,
        };
        if !is_admin {
            return Err(ContractError::Unauthorized);
        }
        let old_list = &self.config.force_withdraw_whitelist;
        let mut new_list: Vec<String> = Vec::new();
        let mut i: usize = 0;
        while i < old_list.len()
            invariant
                i <= old_list@.len(),
                forall|x: int, y: int| 0 <= x < y < new_list@.len() ==> new_list@[x]@ != new_list@[y]@,
                forall|a: Seq<char>| #[trigger] contains_addr(new_list@, a) <==> (contains_addr(old_list@.take(i as int), a)
                    && !contains_addr(remove_addresses@, a)),
            decreases old_list@.len() - i,
        {
            let x = &old_list[i];
            proof {
                assert(old_list@.take(i + 1) =~= old_list@.take(i as int).push(*x));
                crate::asset::lemma_contains_addr_push(old_list@.take(i as int), *x);
            }
            if !vec_contains_addr(&remove_addresses, x) && !vec_contains_addr(&new_list, x) {
                let ghost before = new_list@;
                new_list.push(x.clone());
                proof {
                    crate::asset::lemma_contains_addr_push(before, *x);
                }
            }
            i = i + 1;
        }
        assert(old_list@.take(old_list@.len() as int) =~= old_list@);
        let mut j: usize = 0;
        while j < add_addresses.len()
            invariant
                j <= add_addresses@.len(),
                forall|x: int, y: int| 0 <= x < y < new_list@.len() ==> new_list@[x]@ != new_list@[y]@,
                forall|a: Seq<char>| #[trigger] contains_addr(new_list@, a) <==> (contains_addr(old_list@, a)
                    && !contains_addr(remove_addresses@, a)) || contains_addr(add_addresses@.take(j as int), a),
            decreases add_addresses@.len() - j,
        {
            let x = &add_addresses[j];
            proof {
                assert(add_addresses@.take(j + 1) =~= add_addresses@.take(j as int).push(*x));
                crate::asset::lemma_contains_addr_push(add_addresses@.take(j as int), *x);
            }
            if !vec_contains_addr(&new_list, x) {
                let ghost before = new_list@;
                new_list.push(x.clone());
                proof {
                    crate::asset::lemma_contains_addr_push(before, *x);
                }
            }
            j = j + 1;
        }
        assert(add_addresses@.take(add_addresses@.len() as int) =~= add_addresses@);
        self.config.force_withdraw_whitelist = new_list;
        Ok(Vec::new())
    }

    /// Admin-only: proposes `address` as the next admin, replacing any
    /// earlier proposal.
    pub fn execute_update_admin(&mut self, sender: &String, address: String) -> (r: Result<Vec<Action>, ContractError>)
        ensures
            !old(self).is_admin(sender@) ==> r == Err::<Vec<Action>, ContractError>(ContractError::Unauthorized) && *final(self) == *old(self),
            old(self).is_admin(sender@) ==> r is Ok && r->Ok_0@.len() == 0
                && *final(self) == (AutocompoundingVault { admin_transfer: Some(address), ..*old(self) }),
    {
        let is_admin = match &self.admin {
            Some(a) => *a == *sender,
            None => false,
        };
        if !is_admin {
            return Err(ContractError::Unauthorized);
        }
        self.admin_transfer = Some(address);
        Ok(Vec::new())
    }

    /// The proposed admin takes over; the proposal is cleared.
    pub fn execute_accept_admin_transfer(&mut self, sender: &String) -> (r: Result<Vec<Action>, ContractError>)
        ensures
            match old(self).admin_transfer {
                None => r == Err::<Vec<Action>, ContractError>(ContractError::NoAdminTransfer) && *final(self) == *old(self),
                Some(new_admin) => if new_admin@ != sender@ {
                    r == Err::<Vec<Action>, ContractError>(ContractError::Unauthorized) && *final(self) == *old(self)
                } else {
                    r is Ok && r->Ok_0@.len() == 0
                        && *final(self) == (AutocompoundingVault { admin: Some(new_admin), admin_transfer: None, ..*old(self) })
                },
            },
    {
        let new_admin = match &self.admin_transfer {
            Some(a) => a.clone(),
            None => return Err(ContractError::NoAdminTransfer),
        };
        if new_admin != *sender {
            return Err(ContractError::Unauthorized);
        }
        self.admin_transfer = None;
        self.admin = Some(new_admin);
        Ok(Vec::new())
    }

    /// Admin-only: withdraws any admin proposal; the admin stays.
    pub fn execute_drop_admin_transfer(&mut self, sender: &String) -> (r: Result<Vec<Action>, ContractError>)
        ensures
            !old(self).is_admin(sender@) ==> r == Err::<Vec<Action>, ContractError>(ContractError::Unauthorized) && *final(self) == *old(self),
            old(self).is_admin(sender@) ==> r is Ok && r->Ok_0@.len() == 0
                && *final(self) == (AutocompoundingVault { admin_transfer: None, ..*old(self) }),
    {
        let is_admin = match &self.admin {
            Some(a) => *a == *sender,
            None => false,
        };
        if !is_admin {
            return Err(ContractError::Unauthorized);
        }
        self.admin_transfer = None;
        Ok(Vec::new())
    }

    /// Admin-only: applies `updates` to the configuration and validates the
    /// result as a whole (see [`Config::check`]; `paths_found` is for the
    /// merged reward assets). On failure the configuration stays as it was.
    pub fn execute_update_config(&mut self, sender: &String, updates: ConfigUpdates, paths_found: &Vec<bool>) -> (r: Result<Vec<Action>, ContractError>)
        requires
            old(self).wf(),
        ensures
            final(self).wf(),
            !old(self).is_admin(sender@) ==> r == Err::<Vec<Action>, ContractError>(ContractError::Unauthorized) && *final(self) == *old(self),
            old(self).is_admin(sender@) ==> match spec_check(old(self).config.spec_merge(updates), paths_found@) {
                Err(e) => r == Err::<Vec<Action>, ContractError>(e) && *final(self) == *old(self),
                Ok(c) => r is Ok && r->Ok_0@.len() == 0 && *final(self) == (AutocompoundingVault { config: c, ..*old(self) }),
            },
    {
        let is_admin = match &self.admin {
            Some(a) => *a == *sender,
            None => false,
        };
        if !is_admin {
            return Err(ContractError::Unauthorized);
        }
        let fee = match updates.performance_fee {
            Some(f) => f,
            None => self.config.performance_fee,
        };
        let assets = match &updates.reward_assets {
            Some(v) => v,
            None => &self.config.reward_assets,
        };
        let target = match &updates.reward_liquidation_target {
            Some(t) => t,
            None => &self.config.reward_liquidation_target,
        };
        validate(fee, assets, target, paths_found)?;
        let mut current = Config {
            performance_fee: 0,
            treasury: String::new(),
            router: String::new(),
            reward_assets: Vec::new(),
            reward_liquidation_target: AssetInfo::Native(String::new()),
            force_withdraw_whitelist: Vec::new(),
            liquidity_helper: String::new(),
        };
        core::mem::swap(&mut current, &mut self.config);
        self.config = current.merge(updates);
        Ok(Vec::new())
    }

    /// Gives the staged claim the id the staking position assigned to the
    /// unlocking it started.
    pub fn set_pending_claim_id(&mut self, id: u64) -> (r: Result<(), ContractError>)
        requires
            old(self).wf(),
        ensures
            final(self).wf(),
            match old(self).claims.pending() {
                None => r == Err::<(), ContractError>(ContractError::NoPendingClaim) && *final(self) == *old(self),
                Some(p) => r is Ok && final(self).claims.pending() == Some(Claim { id, ..p })
                    && final(self).claims.ledger() == old(self).claims.ledger()
                    && final(self).claims.next_id() == old(self).claims.next_id()
                    && final(self).claims.issued_ids() == old(self).claims.issued_ids(),
            },
            final(self).base_vault == old(self).base_vault && final(self).config == old(self).config,
            final(self).admin == old(self).admin && final(self).admin_transfer == old(self).admin_transfer,
    {
        let mut claim = self.claims.get_pending_claim()?;
        claim.id = id;
        self.claims.set_pending_claim(claim);
        Ok(())
    }
}

/// `recipient`, or `sender` when none is given.
pub open spec fn recipient_or(recipient: Option<String>, sender: String) -> String {
    match recipient {
        Some(r) => r,
        None => sender,
    }
}

/// `r` is the outcome `s` describes.
pub open spec fn outcome(r: Result<Vec<Action>, ContractError>, s: Result<Seq<Action>, ContractError>) -> bool {
    match s {
        Ok(a) => r is Ok && r->Ok_0@ == a,
        Err(e) => r == Err::<Vec<Action>, ContractError>(e),
    }
}

/// Round trip through the vault's own operations: after a deposit of
/// `amount` (the stake step adds it to the staked total, the mint step adds
/// the shares it buys to the supply), burning those shares at once takes out
/// at most `amount` base tokens, exactly `amount` when the vault was empty,
/// and leaves the supply as it was before the deposit.
pub proof fn lemma_deposit_then_burn(v: BaseVault, amount: u128)
    requires
        (v.vault_token_supply == 0) == (v.total_staked_base_tokens == 0),
        spec_vault_tokens(amount, v.total_staked_base_tokens, v.vault_token_supply) is Ok,
        v.total_staked_base_tokens + amount <= u128::MAX,
        v.vault_token_supply + spec_vault_tokens(amount, v.total_staked_base_tokens, v.vault_token_supply)->Ok_0 <= u128::MAX,
    ensures
        ({
            let s = spec_vault_tokens(amount, v.total_staked_base_tokens, v.vault_token_supply)->Ok_0;
            let after = BaseVault {
                total_staked_base_tokens: (v.total_staked_base_tokens + amount) as u128,
                vault_token_supply: (v.vault_token_supply + s) as u128,
                ..v
            };
            &&& spec_burn(after, s) is Ok
            &&& spec_burn(after, s)->Ok_0.0 <= amount
            &&& v.vault_token_supply == 0 ==> spec_burn(after, s)->Ok_0.0 == amount
            &&& spec_burn(after, s)->Ok_0.2 == v.vault_token_supply
            &&& spec_burn(after, s)->Ok_0.1 >= v.total_staked_base_tokens
        }),
{
    crate::math::lemma_deposit_then_redeem(amount, v.total_staked_base_tokens, v.vault_token_supply);
}

} // verus!
