use apollo_vault::{
    calculate_base_tokens, calculate_vault_tokens, Action, Asset, AssetInfo, AutocompoundingVault,
    BlockInfo, CallbackMsg, Coin, Config, ConfigUpdates, ContractError, Duration, Expiration,
    DECIMAL_FRACTIONAL, DEFAULT_VAULT_TOKENS_PER_STAKED_BASE_TOKEN, NANOS_PER_SECOND,
};

const BASE: &str = "gamm/pool/1";
const VAULT_DENOM: &str = "factory/vault/vault_token";
const ADMIN: &str = "admin";
const USER: &str = "user";
const TREASURY: &str = "treasury";
const FORCE_WITHDRAWER: &str = "force_withdrawer";
const DAY_SECONDS: u64 = 86_400;
const START_NANOS: u64 = 1_700_000_000 * NANOS_PER_SECOND;

fn s(x: &str) -> String {
    x.to_string()
}

fn native(x: &str) -> AssetInfo {
    AssetInfo::Native(s(x))
}

fn pool_assets() -> Vec<AssetInfo> {
    vec![native("uosmo"), native("uatom")]
}

fn config(performance_fee: u128) -> Config {
    Config {
        performance_fee,
        treasury: s(TREASURY),
        router: s("router"),
        reward_assets: vec![native("uion")],
        reward_liquidation_target: native("uosmo"),
        force_withdraw_whitelist: vec![s(FORCE_WITHDRAWER)],
        liquidity_helper: s("liquidity_helper"),
    }
}

fn percent(p: u128) -> u128 {
    p * DECIMAL_FRACTIONAL / 100
}

fn vault(performance_fee: u128) -> AutocompoundingVault {
    AutocompoundingVault::init(s(ADMIN), &pool_assets(), native(BASE), native(VAULT_DENOM), config(performance_fee))
        .unwrap()
}

fn block_at_day(day: u64) -> BlockInfo {
    BlockInfo { height: 1_000 + day * 14_400, time_nanos: START_NANOS + day * DAY_SECONDS * NANOS_PER_SECOND }
}

/// Runs a deposit of `amount` by `who` through all its steps, with
/// `compounded` base tokens gained from liquidity provision, and returns the
/// minted shares.
fn deposit(v: &mut AutocompoundingVault, who: &str, amount: u128, idle_balance: u128, compounded: u128) -> u128 {
    let actions = v
        .execute_deposit(&s(who), &vec![Coin { denom: s(BASE), amount }], amount, None, idle_balance + amount)
        .unwrap();
    assert_eq!(actions.len(), 5);
    assert_eq!(actions[0], Action::ClaimRewards);
    let before = match &actions[3] {
        Action::Callback(CallbackMsg::Stake { base_token_balance_before }) => *base_token_balance_before,
        other => panic!("unexpected action {:?}", other),
    };
    assert_eq!(before, idle_balance);
    v.execute_callback_stake(idle_balance + amount + compounded, before).unwrap();
    let minted = v.execute_callback_mint_vault_token(amount, s(who)).unwrap();
    match &minted[..] {
        [Action::MintVaultTokens { recipient, amount }] => {
            assert_eq!(recipient, who);
            *amount
        }
        other => panic!("unexpected actions {:?}", other),
    }
}

#[test]
fn first_deposit_mints_at_bootstrap_ratio() {
    let mut v = vault(0);
    let shares = deposit(&mut v, USER, 1_000_000, 0, 0);
    assert_eq!(shares, 1_000_000 * DEFAULT_VAULT_TOKENS_PER_STAKED_BASE_TOKEN);
    assert_eq!(v.base_vault.total_staked_base_tokens, 1_000_000);
    assert_eq!(v.base_vault.vault_token_supply, shares);
}

#[test]
fn deposit_actions_in_order() {
    let v = vault(0);
    let actions = v
        .execute_deposit(&s(USER), &vec![Coin { denom: s(BASE), amount: 10 }], 10, Some(s("other")), 25)
        .unwrap();
    assert_eq!(
        actions,
        vec![
            Action::ClaimRewards,
            Action::Callback(CallbackMsg::SellRewards {}),
            Action::Callback(CallbackMsg::ProvideLiquidity {}),
            Action::Callback(CallbackMsg::Stake { base_token_balance_before: 15 }),
            Action::Callback(CallbackMsg::MintVaultToken { amount: 10, recipient: s("other") }),
        ]
    );
}

#[test]
fn deposit_rejects_wrong_funds() {
    let v = vault(0);
    let wrong_amount = vec![Coin { denom: s(BASE), amount: 9 }];
    assert_eq!(v.execute_deposit(&s(USER), &wrong_amount, 10, None, 10), Err(ContractError::UnexpectedFunds));
    let too_many = vec![Coin { denom: s(BASE), amount: 10 }, Coin { denom: s("uosmo"), amount: 1 }];
    assert_eq!(v.execute_deposit(&s(USER), &too_many, 10, None, 10), Err(ContractError::UnexpectedFunds));
}

#[test]
fn cw20_deposit_pulls_tokens_from_sender() {
    let v = AutocompoundingVault::init(
        s(ADMIN),
        &pool_assets(),
        AssetInfo::Cw20(s("lp_token")),
        AssetInfo::Cw20(s("vault")),
        config(0),
    )
    .unwrap();
    let actions = v.execute_deposit(&s(USER), &vec![], 10, None, 3).unwrap();
    assert_eq!(
        actions[0],
        Action::TransferFrom { asset: Asset { info: AssetInfo::Cw20(s("lp_token")), amount: 10 }, owner: s(USER) }
    );
    assert_eq!(actions[4], Action::Callback(CallbackMsg::Stake { base_token_balance_before: 3 }));
}

#[test]
fn second_deposit_is_not_diluted() {
    let mut v = vault(0);
    deposit(&mut v, USER, 1_000_000, 0, 0);
    // Yield raises the stake without new shares.
    v.execute_callback_stake(333_333, 0).unwrap();
    let total = v.base_vault.total_staked_base_tokens;
    let supply = v.base_vault.vault_token_supply;
    let amount = 777_777u128;
    let shares = calculate_vault_tokens(amount, total, supply).unwrap();
    assert_eq!(shares, amount * supply / total);
    let gap = amount * (supply + shares) - shares * (total + amount);
    assert!(gap < total);
}

#[test]
fn deposit_then_redeem_gives_back_at_most_the_deposit() {
    // Empty vault: exact.
    let shares = calculate_vault_tokens(1_234, 0, 0).unwrap();
    assert_eq!(calculate_base_tokens(shares, 1_234, shares), Ok(1_234));
    // Vault with yield: rounded down.
    let (total, supply) = (1_000_003u128, 999_000_000u128);
    let amount = 10_007u128;
    let shares = calculate_vault_tokens(amount, total, supply).unwrap();
    let back = calculate_base_tokens(shares, total + amount, supply + shares).unwrap();
    assert!(back <= amount);
    assert!((amount - back) * (supply + shares) < total + supply + shares);
}

#[test]
fn share_math_errors() {
    assert_eq!(calculate_vault_tokens(u128::MAX, 0, 0), Err(ContractError::Overflow));
    assert_eq!(calculate_vault_tokens(5, 0, 10), Err(ContractError::DivideByZero));
    assert_eq!(calculate_vault_tokens(u128::MAX, 1, 2), Err(ContractError::Overflow));
    assert_eq!(calculate_base_tokens(3_000_000, 7, 0), Ok(3));
    assert_eq!(calculate_base_tokens(10, 30, 4), Ok(75));
}

#[test]
fn compound_takes_fee_sells_and_stakes() {
    let mut v = vault(percent(5));
    let actions = v.execute_callback_sell_rewards(&vec![100_000_000], &pool_assets());
    assert_eq!(
        actions,
        vec![
            Action::Transfer { asset: Asset { info: native("uion"), amount: 5_000_000 }, recipient: s(TREASURY) },
            Action::BasketLiquidate {
                assets: vec![Asset { info: native("uion"), amount: 95_000_000 }],
                target: native("uosmo"),
            },
        ]
    );

    let provide = v.execute_callback_provide_liquidity(&vec![
        Asset { info: native("uosmo"), amount: 94_000_000 },
        Asset { info: native("uatom"), amount: 0 },
    ]);
    assert_eq!(
        provide,
        vec![Action::ProvideLiquidity { assets: vec![Asset { info: native("uosmo"), amount: 94_000_000 }] }]
    );

    // A user deposit of 1,000 lands with 40,000 base tokens from the provision.
    let user_deposit = 1_000u128;
    let before = v.base_vault.total_staked_base_tokens;
    let staked = v.execute_callback_stake(user_deposit + 40_000, 0).unwrap();
    assert_eq!(staked, vec![Action::Stake { amount: 41_000 }]);
    assert!(v.base_vault.total_staked_base_tokens - before > user_deposit);
}

#[test]
fn sell_rewards_skips_pool_assets_base_token_and_zero_balances() {
    let mut cfg = config(percent(10));
    cfg.reward_assets = vec![native("uatom"), native(BASE), native("uion"), native("ustars")];
    let v = AutocompoundingVault::init(s(ADMIN), &pool_assets(), native(BASE), native(VAULT_DENOM), cfg).unwrap();
    let actions = v.execute_callback_sell_rewards(&vec![1_000, 50, 0, 7], &pool_assets());
    assert_eq!(
        actions,
        vec![
            Action::Transfer { asset: Asset { info: native("uatom"), amount: 100 }, recipient: s(TREASURY) },
            Action::Transfer { asset: Asset { info: native(BASE), amount: 5 }, recipient: s(TREASURY) },
            Action::Transfer { asset: Asset { info: native("ustars"), amount: 1 }, recipient: s(TREASURY) },
            Action::BasketLiquidate {
                assets: vec![Asset { info: native("ustars"), amount: 6 }],
                target: native("uosmo"),
            },
        ]
    );
}

#[test]
fn provide_liquidity_with_nothing_does_nothing() {
    let v = vault(0);
    assert!(v
        .execute_callback_provide_liquidity(&vec![Asset { info: native("uosmo"), amount: 0 }])
        .is_empty());
}

#[test]
fn stake_with_no_gain_does_nothing() {
    let mut v = vault(0);
    assert_eq!(v.execute_callback_stake(10, 10), Ok(vec![]));
    assert_eq!(v.execute_callback_stake(5, 10), Ok(vec![]));
    assert_eq!(v.base_vault.total_staked_base_tokens, 0);
}

#[test]
fn unlock_then_withdraw_after_lock_period() {
    let mut v = vault(0);
    let shares = deposit(&mut v, USER, 1_000_000, 0, 0);
    let half = shares / 2;
    let lock = Duration::Time(14 * DAY_SECONDS);

    let actions = v
        .execute_unlock(&s(USER), &vec![Coin { denom: s(VAULT_DENOM), amount: half }], half, 0)
        .unwrap();
    assert_eq!(
        &actions[4..],
        &[
            Action::Callback(CallbackMsg::Unlock { owner: s(USER), vault_token_amount: half }),
            Action::Callback(CallbackMsg::SaveClaim {}),
        ]
    );
    let unlock = v.execute_callback_unlock(s(USER), half, lock, &block_at_day(0)).unwrap();
    assert_eq!(unlock, vec![Action::BurnVaultTokens { amount: half }, Action::Unlock { amount: 500_000 }]);
    v.execute_callback_save_claim().unwrap();
    assert_eq!(v.base_vault.total_staked_base_tokens, 500_000);
    assert_eq!(v.base_vault.vault_token_supply, shares - half);

    let positions = v.query_unlocking_positions(&s(USER), None, None);
    assert_eq!(positions.len(), 1);
    let claim = positions[0].clone();
    assert_eq!(claim.base_token_amount, 500_000);
    assert_eq!(claim.release_at, Expiration::AtTime(START_NANOS + 14 * DAY_SECONDS * NANOS_PER_SECOND));

    assert_eq!(
        v.execute_withdraw_unlocked(&s(USER), claim.id, None, &block_at_day(13)),
        Err(ContractError::ClaimNotMatured)
    );
    let withdrawn = v.execute_withdraw_unlocked(&s(USER), claim.id, None, &block_at_day(14)).unwrap();
    assert_eq!(
        withdrawn,
        vec![
            Action::WithdrawUnlocked { amount: claim.base_token_amount },
            Action::Transfer { asset: Asset { info: native(BASE), amount: claim.base_token_amount }, recipient: s(USER) },
        ]
    );
    assert!(v.query_unlocking_positions(&s(USER), None, None).is_empty());
}

#[test]
fn unlock_requires_vault_tokens_attached() {
    let v = vault(0);
    assert_eq!(
        v.execute_unlock(&s(USER), &vec![Coin { denom: s(VAULT_DENOM), amount: 9 }], 10, 0),
        Err(ContractError::UnexpectedFunds)
    );
}

#[test]
fn second_unlock_before_commit_fails() {
    let mut v = vault(0);
    let shares = deposit(&mut v, USER, 1_000, 0, 0);
    v.execute_callback_unlock(s(USER), shares / 4, Duration::Height(10), &block_at_day(0)).unwrap();
    assert_eq!(
        v.execute_callback_unlock(s(USER), shares / 4, Duration::Height(10), &block_at_day(0)),
        Err(ContractError::PendingClaimExists)
    );
    // The failed step changed nothing.
    assert_eq!(v.base_vault.vault_token_supply, shares - shares / 4);
}

#[test]
fn redeem_burns_unstakes_and_sends() {
    let mut v = vault(0);
    let shares = deposit(&mut v, USER, 1_000, 0, 0);
    let actions = v
        .execute_redeem(&s(USER), &vec![Coin { denom: s(VAULT_DENOM), amount: shares }], shares, None, 0)
        .unwrap();
    assert_eq!(actions[4], Action::Callback(CallbackMsg::Redeem { recipient: s(USER), amount: shares }));
    let redeemed = v.execute_callback_redeem(shares, s(USER)).unwrap();
    assert_eq!(
        redeemed,
        vec![
            Action::BurnVaultTokens { amount: shares },
            Action::Unstake { amount: 1_000 },
            Action::Transfer { asset: Asset { info: native(BASE), amount: 1_000 }, recipient: s(USER) },
        ]
    );
    assert_eq!(v.base_vault.total_staked_base_tokens, 0);
    assert_eq!(v.base_vault.vault_token_supply, 0);
}

#[test]
fn force_redeem_needs_whitelist() {
    let mut v = vault(0);
    let shares = deposit(&mut v, FORCE_WITHDRAWER, 1_000, 0, 0);
    let funds = vec![Coin { denom: s(VAULT_DENOM), amount: shares }];
    assert_eq!(v.execute_force_redeem(&s(USER), &funds, shares, None), Err(ContractError::Unauthorized));
    let actions = v.execute_force_redeem(&s(FORCE_WITHDRAWER), &funds, shares, Some(s("liquidator"))).unwrap();
    assert_eq!(
        actions,
        vec![
            Action::BurnVaultTokens { amount: shares },
            Action::ForceUnlock { lockup_id: None, amount: 1_000 },
            Action::Transfer { asset: Asset { info: native(BASE), amount: 1_000 }, recipient: s("liquidator") },
        ]
    );
}

#[test]
fn force_withdraw_unlocking_before_and_after_maturity() {
    let mut v = vault(0);
    let shares = deposit(&mut v, FORCE_WITHDRAWER, 1_000, 0, 0);
    let lock = Duration::Time(DAY_SECONDS);
    v.execute_callback_unlock(s(FORCE_WITHDRAWER), shares, lock, &block_at_day(0)).unwrap();
    v.execute_callback_save_claim().unwrap();

    assert_eq!(
        v.execute_force_withdraw_unlocking(&s(USER), 0, None, None, &block_at_day(0)),
        Err(ContractError::Unauthorized)
    );
    assert_eq!(
        v.execute_force_withdraw_unlocking(&s(FORCE_WITHDRAWER), 0, Some(1_001), None, &block_at_day(0)),
        Err(ContractError::ClaimAmountExceeded)
    );
    let early = v.execute_force_withdraw_unlocking(&s(FORCE_WITHDRAWER), 0, Some(400), None, &block_at_day(0)).unwrap();
    assert_eq!(
        early,
        vec![
            Action::ForceUnlock { lockup_id: Some(0), amount: 400 },
            Action::Transfer { asset: Asset { info: native(BASE), amount: 400 }, recipient: s(FORCE_WITHDRAWER) },
        ]
    );
    let late = v.execute_force_withdraw_unlocking(&s(FORCE_WITHDRAWER), 0, None, None, &block_at_day(2)).unwrap();
    assert_eq!(
        late,
        vec![Action::Transfer { asset: Asset { info: native(BASE), amount: 600 }, recipient: s(FORCE_WITHDRAWER) }]
    );
    assert_eq!(
        v.execute_force_withdraw_unlocking(&s(FORCE_WITHDRAWER), 0, None, None, &block_at_day(2)),
        Err(ContractError::ClaimNotFound)
    );
}

#[test]
fn whitelist_update_is_admin_only_and_deduplicated() {
    let mut v = vault(0);
    assert_eq!(
        v.execute_update_force_withdraw_whitelist(&s(USER), vec![s("a")], vec![]),
        Err(ContractError::Unauthorized)
    );
    v.execute_update_force_withdraw_whitelist(&s(ADMIN), vec![s("a"), s("b"), s("a")], vec![s(FORCE_WITHDRAWER)])
        .unwrap();
    assert_eq!(v.config.force_withdraw_whitelist, vec![s("a"), s("b")]);
    v.execute_update_force_withdraw_whitelist(&s(ADMIN), vec![s("c")], vec![s("a")]).unwrap();
    assert_eq!(v.config.force_withdraw_whitelist, vec![s("b"), s("c")]);
}

#[test]
fn admin_transfer_flow() {
    let mut v = vault(0);
    assert_eq!(v.execute_update_admin(&s(USER), s(USER)), Err(ContractError::Unauthorized));
    assert_eq!(v.execute_accept_admin_transfer(&s(USER)), Err(ContractError::NoAdminTransfer));
    v.execute_update_admin(&s(ADMIN), s("new_admin")).unwrap();
    assert_eq!(v.execute_accept_admin_transfer(&s(USER)), Err(ContractError::Unauthorized));
    v.execute_accept_admin_transfer(&s("new_admin")).unwrap();
    assert_eq!(v.admin, Some(s("new_admin")));
    assert_eq!(v.admin_transfer, None);

    v.execute_update_admin(&s("new_admin"), s("third")).unwrap();
    assert_eq!(v.execute_drop_admin_transfer(&s(ADMIN)), Err(ContractError::Unauthorized));
    v.execute_drop_admin_transfer(&s("new_admin")).unwrap();
    assert_eq!(v.admin_transfer, None);
    assert_eq!(v.admin, Some(s("new_admin")));
}

#[test]
fn config_update_merges_and_validates() {
    let mut v = vault(0);
    let updates = ConfigUpdates { performance_fee: Some(percent(101)), ..ConfigUpdates::default() };
    assert_eq!(
        v.execute_update_config(&s(ADMIN), updates, &vec![true]),
        Err(ContractError::PerformanceFeeTooHigh)
    );
    let updates = ConfigUpdates { reward_assets: Some(vec![native("uion"), native("ujuno")]), ..ConfigUpdates::default() };
    assert_eq!(
        v.execute_update_config(&s(ADMIN), updates.clone(), &vec![true, false]),
        Err(ContractError::MissingSwapPath)
    );
    assert_eq!(v.execute_update_config(&s(USER), updates.clone(), &vec![true, true]), Err(ContractError::Unauthorized));
    v.execute_update_config(&s(ADMIN), updates, &vec![true, true]).unwrap();
    assert_eq!(v.config.reward_assets, vec![native("uion"), native("ujuno")]);
    assert_eq!(v.config.treasury, s(TREASURY));
}

#[test]
fn config_check_skips_the_target_itself() {
    let mut cfg = config(DECIMAL_FRACTIONAL);
    cfg.reward_assets = vec![native("uosmo"), native("uion")];
    assert_eq!(cfg.clone().check(&vec![false, true]), Ok(cfg.clone()));
    assert_eq!(cfg.clone().check(&vec![true]), Err(ContractError::MissingSwapPath));
}

#[test]
fn init_rejects_target_outside_pool() {
    let mut cfg = config(0);
    cfg.reward_liquidation_target = native("ujuno");
    assert_eq!(
        AutocompoundingVault::init(s(ADMIN), &pool_assets(), native(BASE), native(VAULT_DENOM), cfg).err(),
        Some(ContractError::InvalidRewardLiquidationTarget)
    );
}

#[test]
fn lock_period_overflow_is_an_error() {
    let block = BlockInfo { height: u64::MAX, time_nanos: u64::MAX - 5 };
    assert_eq!(Duration::Height(1).after(&block), Err(ContractError::Overflow));
    assert_eq!(Duration::Time(1).after(&block), Err(ContractError::Overflow));
    assert_eq!(Duration::Time(0).after(&block), Ok(Expiration::AtTime(u64::MAX - 5)));
}
