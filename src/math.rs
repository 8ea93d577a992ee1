use crate::error::ContractError;
use cosmwasm_std::{CheckedMultiplyRatioError, Uint128};
use vstd::arithmetic::div_mod::{lemma_fundamental_div_mod, lemma_mod_pos_bound};
use vstd::prelude::*;

verus! {

/// Vault tokens minted for each base token while the vault token supply is zero.
pub const DEFAULT_VAULT_TOKENS_PER_STAKED_BASE_TOKEN: u128 = 1_000_000;

/// Why a ratio could not be taken.
#[derive(Debug, Clone, Copy, PartialEq, Eq, Structural)]
pub enum RatioError {
    DivideByZero,
    Overflow,
}

/// `value * numerator / denominator` over the integers, rounded down.
pub open spec fn ratio(value: u128, numerator: u128, denominator: u128) -> int {
    (value as int) * (numerator as int) / (denominator as int)
}

/// What `multiply_ratio` returns: the exact ratio when it fits in a `u128`.
pub open spec fn spec_multiply_ratio(value: u128, numerator: u128, denominator: u128) -> Result<u128, RatioError> {
    if denominator == 0 {
        Err(RatioError::DivideByZero)
    } else if ratio(value, numerator, denominator) > u128::MAX {
        Err(RatioError::Overflow)
    } else {
        Ok(ratio(value, numerator, denominator) as u128)
    }
}

/// Relies on `cosmwasm_std::Uint128::checked_multiply_ratio`: the product is
/// taken in 256 bits and divided with floor rounding; a zero denominator or a
/// quotient above `u128::MAX` is reported as an error.
#[verifier::external_body]
pub(crate) fn multiply_ratio(value: u128, numerator: u128, denominator: u128) -> (r: Result<u128, RatioError>)
    ensures
        r == spec_multiply_ratio(value, numerator, denominator),
{
    match Uint128::new(value).checked_multiply_ratio(numerator, denominator) {
        Ok(v) => Ok(v.u128()),
        Err(CheckedMultiplyRatioError::DivideByZero) => Err(RatioError::DivideByZero),
        Err(CheckedMultiplyRatioError::Overflow) => Err(RatioError::Overflow),
    }
}

pub open spec fn ratio_error(e: RatioError) -> ContractError {
    match e {
        RatioError::DivideByZero => ContractError::DivideByZero,
        RatioError::Overflow => ContractError::Overflow,
    }
}

/// Shares minted for a deposit of `base_tokens` into a vault holding
/// `total_staked` base tokens against `supply` shares.
pub open spec fn spec_vault_tokens(base_tokens: u128, total_staked: u128, supply: u128) -> Result<u128, ContractError> {
    if supply == 0 {
        if base_tokens * DEFAULT_VAULT_TOKENS_PER_STAKED_BASE_TOKEN > u128::MAX {
            Err(ContractError::Overflow)
        } else {
            Ok((base_tokens * DEFAULT_VAULT_TOKENS_PER_STAKED_BASE_TOKEN) as u128)
        }
    } else {
        match spec_multiply_ratio(base_tokens, supply, total_staked) {
            Ok(v) => Ok(v),
            Err(e) => Err(ratio_error(e)),
        }
    }
}

/// Base tokens that `vault_tokens` shares stand for in a vault holding
/// `total_staked` base tokens against `supply` shares.
pub open spec fn spec_base_tokens(vault_tokens: u128, total_staked: u128, supply: u128) -> Result<u128, ContractError> {
    if supply == 0 {
        Ok((vault_tokens / DEFAULT_VAULT_TOKENS_PER_STAKED_BASE_TOKEN) as u128)
    } else {
        match spec_multiply_ratio(vault_tokens, total_staked, supply) {
            Ok(v) => Ok(v),
            Err(e) => Err(ratio_error(e)),
        }
    }
}

/// Number of vault tokens to mint for a deposit of `base_tokens`. While the
/// supply is zero the fixed bootstrap ratio applies; after that the deposit
/// buys its proportional part of the supply, rounded down.
pub fn calculate_vault_tokens(base_tokens: u128, total_staked: u128, supply: u128) -> (r: Result<u128, ContractError>)
    ensures
        r == spec_vault_tokens(base_tokens, total_staked, supply),
{
    if supply == 0 {
        base_tokens.checked_mul(DEFAULT_VAULT_TOKENS_PER_STAKED_BASE_TOKEN).ok_or(ContractError::Overflow)
    } else {
        match multiply_ratio(base_tokens, supply, total_staked) {
            Ok(v) => Ok(v),
            Err(RatioError::DivideByZero) => Err(ContractError::DivideByZero),
            Err(RatioError::Overflow) => Err(ContractError::Overflow),
        }
    }
}

/// Number of base tokens that `vault_tokens` shares are worth, rounded down.
pub fn calculate_base_tokens(vault_tokens: u128, total_staked: u128, supply: u128) -> (r: Result<u128, ContractError>)
    ensures
        r == spec_base_tokens(vault_tokens, total_staked, supply),
{
    if supply == 0 {
        Ok(vault_tokens / DEFAULT_VAULT_TOKENS_PER_STAKED_BASE_TOKEN)
    } else {
        match multiply_ratio(vault_tokens, total_staked, supply) {
            Ok(v) => Ok(v),
            Err(RatioError::DivideByZero) => Err(ContractError::DivideByZero),
            Err(RatioError::Overflow) => Err(ContractError::Overflow),
        }
    }
}

/// Floor division brackets its quotient: `q * d <= x < q * d + d`.
proof fn lemma_floor_div_bounds(x: int, d: int)
    requires
        0 <= x,
        0 < d,
    ensures
        (x / d) * d <= x < (x / d) * d + d,
{
    lemma_fundamental_div_mod(x, d);
    lemma_mod_pos_bound(x, d);
    assert(d * (x / d) == (x / d) * d) by (nonlinear_arith);
}

/// No dilution: a deposit of `amount` into a vault that already holds
/// `total_staked` base tokens against `supply` shares buys at most its fair
/// fraction `amount / (total_staked + amount)` of the enlarged supply, and
/// falls short of it only by rounding:
/// `0 <= amount * (supply + s) - s * (total_staked + amount) < total_staked`
/// where `s` is the number of shares minted.
pub proof fn lemma_deposit_no_dilution(amount: u128, total_staked: u128, supply: u128)
    requires
        supply > 0,
        total_staked > 0,
        spec_vault_tokens(amount, total_staked, supply) is Ok,
    ensures
        ({
            let s = spec_vault_tokens(amount, total_staked, supply)->Ok_0 as int;
            let gap = amount * (supply + s) - s * (total_staked + amount);
            0 <= gap < total_staked
        }),
{
    let a = amount as int;
    let t = total_staked as int;
    let n = supply as int;
    let s = spec_vault_tokens(amount, total_staked, supply)->Ok_0 as int;
    assert(s == (a * n) / t);
    assert(0 <= a * n) by (nonlinear_arith)
        requires 0 <= a, 0 <= n;
    lemma_floor_div_bounds(a * n, t);
    assert(a * (n + s) - s * (t + a) == a * n - s * t) by (nonlinear_arith);
}

/// Round trip: depositing `amount` and at once redeeming the shares it
/// minted, with no yield in between, gives back at most `amount`; exactly
/// `amount` when the vault was empty, and otherwise less by rounding only:
/// the shortfall times the new supply is below `total_staked` plus the new
/// supply, i.e. under the worth of one share plus one base token.
/// The vault is taken as well formed: it has shares exactly when it has stake.
pub proof fn lemma_deposit_then_redeem(amount: u128, total_staked: u128, supply: u128)
    requires
        (supply == 0) == (total_staked == 0),
        spec_vault_tokens(amount, total_staked, supply) is Ok,
        total_staked + amount <= u128::MAX,
        supply + spec_vault_tokens(amount, total_staked, supply)->Ok_0 <= u128::MAX,
    ensures
        ({
            let s = spec_vault_tokens(amount, total_staked, supply)->Ok_0;
            let back = spec_base_tokens(s, (total_staked + amount) as u128, (supply + s) as u128);
            &&& back is Ok
            &&& back->Ok_0 <= amount
            &&& supply == 0 ==> back->Ok_0 == amount
            &&& supply > 0 ==> (amount - back->Ok_0) * (supply + s) < total_staked + supply + s
        }),
{
    let a = amount as int;
    let t = total_staked as int;
    let n = supply as int;
    let s = spec_vault_tokens(amount, total_staked, supply)->Ok_0 as int;
    let r = DEFAULT_VAULT_TOKENS_PER_STAKED_BASE_TOKEN as int;
    if supply == 0 {
        assert(s == a * r);
        if amount == 0 {
            assert(s == 0);
        } else {
            assert(s > 0) by (nonlinear_arith)
                requires s == a * r, a > 0, r > 0;
            assert((s * a) / s == a) by {
                assert(s * a == a * s) by (nonlinear_arith);
                vstd::arithmetic::div_mod::lemma_div_by_multiple(a, s);
            }
        }
    } else {
        lemma_deposit_no_dilution(amount, total_staked, supply);
        let n2 = n + s;
        let t2 = t + a;
        assert(n2 > 0);
        assert(0 <= s * t2) by (nonlinear_arith)
            requires 0 <= s, 0 <= t2;
        lemma_floor_div_bounds(s * t2, n2);
        let b = (s * t2) / n2;
        assert(s * t2 <= a * n2);
        assert(b * n2 <= a * n2);
        assert(b <= a) by (nonlinear_arith)
            requires b * n2 <= a * n2, n2 > 0;
        assert(a * n2 - s * t2 < t);
        assert(s * t2 < b * n2 + n2);
        assert((a - b) * n2 == a * n2 - b * n2) by (nonlinear_arith);
    }
}

} // verus!
