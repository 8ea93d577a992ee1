use crate::asset::{
    contains_addr, copy_asset_info, lemma_contains_addr_concat, lemma_contains_addr_push, vec_contains_addr, Asset,
    Coin,
};
use crate::config::Config;
use crate::claims::{first_n, lemma_claim_ids_unique, owner_claims, Claim, DEFAULT_LIMIT};
use crate::error::ContractError;
use crate::expiration::{BlockInfo, Duration, Expiration};
use crate::vault::{recipient_or, spec_burn, Action, AutocompoundingVault, BaseVault};
use vstd::prelude::*;

verus! {

/// The addresses of `s` that `remove` does not hold, each once, in the order
/// of their first place in `s`.
pub open spec fn without_repeats(s: Seq<String>, remove: Seq<String>) -> Seq<String>
    decreases s.len(),
{
    if s.len() == 0 {
        Seq::empty()
    } else {
        let rest = without_repeats(s.drop_last(), remove);
        if contains_addr(remove, s.last()@) || contains_addr(rest, s.last()@) {
            rest
        } else {
            rest.push(s.last())
        }
    }
}

/// A vault whose staking position has no unlock delay of its own: the vault
/// keeps the lock period itself, and a claim is committed as soon as the
/// shares are burnt.
pub struct LockedNeutronVaultContract {
    pub vault: AutocompoundingVault,
    /// How long unlocking takes.
    pub lockup_duration: Duration,
}

impl LockedNeutronVaultContract {
    pub open spec fn wf(&self) -> bool {
        self.vault.wf()
    }

    /// Burns `amount` vault tokens of `sender` and opens a claim on what they
    /// are worth, released one lock period from now, under the next default id.
    pub fn execute_unlock(&mut self, sender: &String, funds: &Vec<Coin>, amount: u128, block: &BlockInfo) -> (r: Result<Vec<Action>, ContractError>)
        requires
            old(self).wf(),
        ensures
            final(self).wf(),
            final(self).lockup_duration == old(self).lockup_duration,
            match old(self).vault.spec_receive_vault_tokens(*sender, funds@, amount) {
                Err(e) => r == Err::<Vec<Action>, ContractError>(e) && *final(self) == *old(self),
                Ok(received) => match spec_burn(old(self).vault.base_vault, amount) {
                    Err(e) => r == Err::<Vec<Action>, ContractError>(e) && *final(self) == *old(self),
                    Ok((base, total, supply)) => match Expiration::AtTime(block.time_nanos).spec_plus(old(self).lockup_duration) {
                        Err(e) => r == Err::<Vec<Action>, ContractError>(e) && *final(self) == *old(self),
                        Ok(release_at) => if old(self).vault.claims.pending() is Some {
                            r == Err::<Vec<Action>, ContractError>(ContractError::PendingClaimExists) && *final(self) == *old(self)
                        } else if old(self).vault.claims.next_id() == u64::MAX {
                            r == Err::<Vec<Action>, ContractError>(ContractError::Overflow) && *final(self) == *old(self)
                        } else {
                            let id = old(self).vault.claims.next_id();
                            &&& r is Ok
                            &&& r->Ok_0@ == received + seq![Action::BurnVaultTokens { amount }]
                            &&& final(self).vault.base_vault == (BaseVault { total_staked_base_tokens: total, vault_token_supply: supply, ..old(self).vault.base_vault })
                            &&& final(self).vault.claims.claims_map() == old(self).vault.claims.claims_map().insert(
                                id,
                                Claim { id, owner: *sender, base_token_amount: base, release_at },
                            )
                            &&& final(self).vault.claims.pending() is None
                            &&& final(self).vault.claims.next_id() == id + 1
                            &&& final(self).vault.config == old(self).vault.config
                            &&& final(self).vault.admin == old(self).vault.admin
                            &&& final(self).vault.admin_transfer == old(self).vault.admin_transfer
                        },
                    },
                },
            },
    {
        let mut actions = match &self.vault.base_vault.vault_token {
            crate::asset::AssetInfo::Native(d) => if crate::asset::funds_contain(funds, d, amount) {
                Vec::new()
            } else {
                return Err(ContractError::UnexpectedFunds);
            },
            crate::asset::AssetInfo::Cw20(_) => {
                let v = vec![Action::ReceiveVaultTokens { owner: sender.clone(), amount }];
                assert(v@ =~= seq![Action::ReceiveVaultTokens { owner: *sender, amount }]);
                v
            },
        };
        let ghost received = actions@;
        let (base, total, supply) = self.vault.base_vault.preview_burn(amount)?;
        let release_at = Expiration::AtTime(block.time_nanos).plus(&self.lockup_duration)?;
        if self.vault.claims.get_pending_claim().is_ok() {
            return Err(ContractError::PendingClaimExists);
        }
        if self.vault.claims.next_claim_id() == u64::MAX {
            return Err(ContractError::Overflow);
        }
        proof {
            lemma_claim_ids_unique(self.vault.claims);
        }
        self.vault.claims.create_pending_claim(sender, base, release_at, None)?;
        self.vault.claims.commit_pending_claim()?;
        self.vault.base_vault.total_staked_base_tokens = total;
        self.vault.base_vault.vault_token_supply = supply;
        actions.push(Action::BurnVaultTokens { amount });
        assert(actions@ =~= received + seq![Action::BurnVaultTokens { amount }]);
        Ok(actions)
    }

    /// Pays out matured claim `lock_id` of `sender`: unstakes its amount and
    /// sends it to `recipient` (the sender when `None`).
    pub fn execute_withdraw_unlocked(&mut self, sender: &String, lock_id: u64, recipient: Option<String>, block: &BlockInfo) -> (r: Result<Vec<Action>, ContractError>)
        requires
            old(self).wf(),
        ensures
            final(self).wf(),
            final(self).lockup_duration == old(self).lockup_duration,
            !old(self).vault.claims.claims_map().contains_key(lock_id) ==> r == Err::<Vec<Action>, ContractError>(ContractError::ClaimNotFound),
            old(self).vault.claims.claims_map().contains_key(lock_id) ==> {
                let c = old(self).vault.claims.claims_map()[lock_id];
                if c.owner@ != sender@ {
                    r == Err::<Vec<Action>, ContractError>(ContractError::ClaimNotOwned)
                } else if !c.release_at.spec_is_expired(*block) {
                    r == Err::<Vec<Action>, ContractError>(ContractError::ClaimNotMatured)
                } else {
                    &&& r is Ok
                    &&& r->Ok_0@ == seq![
                        Action::Unstake { amount: c.base_token_amount },
                        Action::Transfer {
                            asset: Asset { info: old(self).vault.base_vault.base_token, amount: c.base_token_amount },
                            recipient: recipient_or(recipient, *sender),
                        },
                    ]
                    &&& final(self).vault.claims.claims_map() == old(self).vault.claims.claims_map().remove(lock_id)
                }
            },
            r is Err ==> *final(self) == *old(self),
            final(self).vault.base_vault == old(self).vault.base_vault && final(self).vault.config == old(self).vault.config,
    {
        let amount = self.vault.claims.claim_tokens(block, sender, lock_id)?;
        let recipient = match recipient {
            Some(r) => r,
            None => sender.clone(),
        };
        Ok(vec![
            Action::Unstake { amount },
            Action::Transfer { asset: Asset { info: copy_asset_info(&self.vault.base_vault.base_token), amount }, recipient },
        ])
    }

    /// Whitelisted: burns `vault_token_amount` vault tokens of the vault's
    /// balance, unstakes what they are worth and sends it to `recipient`
    /// (the sender when `None`).
    pub fn execute_force_redeem(&mut self, sender: &String, vault_token_amount: u128, recipient: Option<String>) -> (r: Result<Vec<Action>, ContractError>)
        ensures
            final(self).lockup_duration == old(self).lockup_duration,
            !old(self).vault.is_whitelisted(sender@) ==> r == Err::<Vec<Action>, ContractError>(ContractError::Unauthorized)
                && *final(self) == *old(self),
            old(self).vault.is_whitelisted(sender@) ==> match spec_burn(old(self).vault.base_vault, vault_token_amount) {
                Err(e) => r == Err::<Vec<Action>, ContractError>(e) && *final(self) == *old(self),
                Ok((base, total, supply)) => {
                    &&& r is Ok
                    &&& r->Ok_0@ == seq![
                        Action::BurnVaultTokens { amount: vault_token_amount },
                        Action::Unstake { amount: base },
                        Action::Transfer {
                            asset: Asset { info: old(self).vault.base_vault.base_token, amount: base },
                            recipient: recipient_or(recipient, *sender),
                        },
                    ]
                    &&& final(self).vault.base_vault == (BaseVault { total_staked_base_tokens: total, vault_token_supply: supply, ..old(self).vault.base_vault })
                    &&& final(self).vault.claims == old(self).vault.claims && final(self).vault.config == old(self).vault.config
                    &&& final(self).vault.admin == old(self).vault.admin && final(self).vault.admin_transfer == old(self).vault.admin_transfer
                },
            },
    {
        if !vec_contains_addr(&self.vault.config.force_withdraw_whitelist, sender) {
            return Err(ContractError::Unauthorized);
        }
        let (base, mut actions) = self.vault.base_vault.burn_vault_tokens_for_base_tokens(vault_token_amount)?;
        actions.push(Action::Unstake { amount: base });
        let recipient = match recipient {
            Some(r) => r,
            None => sender.clone(),
        };
        actions.push(Action::Transfer { asset: Asset { info: copy_asset_info(&self.vault.base_vault.base_token), amount: base }, recipient });
        Ok(actions)
    }

    /// Whitelisted: pays out `amount` of claim `lockup_id` of `sender` (all of
    /// it when `None`) whether or not it has matured, unstaking it and sending
    /// it to `recipient` (the sender when `None`).
    pub fn execute_force_withdraw_unlocking(
        &mut self,
        sender: &String,
        lockup_id: u64,
        amount: Option<u128>,
        recipient: Option<String>,
    ) -> (r: Result<Vec<Action>, ContractError>)
        requires
            old(self).wf(),
        ensures
            final(self).wf(),
            final(self).lockup_duration == old(self).lockup_duration,
            !old(self).vault.is_whitelisted(sender@) ==> r == Err::<Vec<Action>, ContractError>(ContractError::Unauthorized),
            old(self).vault.is_whitelisted(sender@) && !old(self).vault.claims.claims_map().contains_key(lockup_id)
                ==> r == Err::<Vec<Action>, ContractError>(ContractError::ClaimNotFound),
            old(self).vault.is_whitelisted(sender@) && old(self).vault.claims.claims_map().contains_key(lockup_id) ==> {
                let c = old(self).vault.claims.claims_map()[lockup_id];
                let asked = match amount {
                    Some(a) => a,
                    None => c.base_token_amount,
                };
                if c.owner@ != sender@ {
                    r == Err::<Vec<Action>, ContractError>(ContractError::ClaimNotOwned)
                } else if asked > c.base_token_amount {
                    r == Err::<Vec<Action>, ContractError>(ContractError::ClaimAmountExceeded)
                } else {
                    &&& r is Ok
                    &&& r->Ok_0@ == seq![
                        Action::Unstake { amount: asked },
                        Action::Transfer {
                            asset: Asset { info: old(self).vault.base_vault.base_token, amount: asked },
                            recipient: recipient_or(recipient, *sender),
                        },
                    ]
                    &&& asked < c.base_token_amount ==> final(self).vault.claims.claims_map() == old(self).vault.claims.claims_map().insert(
                        lockup_id,
                        Claim { base_token_amount: (c.base_token_amount - asked) as u128, ..c },
                    )
                    &&& asked == c.base_token_amount ==> final(self).vault.claims.claims_map() == old(self).vault.claims.claims_map().remove(lockup_id)
                }
            },
            r is Err ==> *final(self) == *old(self),
            final(self).vault.base_vault == old(self).vault.base_vault && final(self).vault.config == old(self).vault.config,
    {
        if !vec_contains_addr(&self.vault.config.force_withdraw_whitelist, sender) {
            return Err(ContractError::Unauthorized);
        }
        let claimed = self.vault.claims.force_claim(sender, lockup_id, amount)?;
        let recipient = match recipient {
            Some(r) => r,
            None => sender.clone(),
        };
        Ok(vec![
            Action::Unstake { amount: claimed },
            Action::Transfer { asset: Asset { info: copy_asset_info(&self.vault.base_vault.base_token), amount: claimed }, recipient },
        ])
    }

    /// Admin-only: appends `add_addresses` to the whitelist, then drops every
    /// address that `remove_addresses` holds (removal wins over addition);
    /// each address is kept once, at its first place.
    pub fn execute_update_force_withdraw_whitelist(
        &mut self,
        sender: &String,
        add_addresses: Vec<String>,
        remove_addresses: Vec<String>,
    ) -> (r: Result<Vec<Action>, ContractError>)
        ensures
            final(self).lockup_duration == old(self).lockup_duration,
            !old(self).vault.is_admin(sender@) ==> r == Err::<Vec<Action>, ContractError>(ContractError::Unauthorized)
                && *final(self) == *old(self),
            old(self).vault.is_admin(sender@) ==> {
                let w = final(self).vault.config.force_withdraw_whitelist@;
                &&& r is Ok && r->Ok_0@.len() == 0
                &&& w == without_repeats(old(self).vault.config.force_withdraw_whitelist@ + add_addresses@, remove_addresses@)
                &&& forall|a: Seq<char>| #[trigger] contains_addr(w, a) <==> (contains_addr(old(self).vault.config.force_withdraw_whitelist@, a)
                    || contains_addr(add_addresses@, a)) && !contains_addr(remove_addresses@, a)
                &&& forall|i: int, j: int| 0 <= i < j < w.len() ==> w[i]@ != w[j]@
                &&& final(self).vault.config == (Config {
                    force_withdraw_whitelist: final(self).vault.config.force_withdraw_whitelist,
                    ..old(self).vault.config
                })
                &&& final(self).vault.base_vault == old(self).vault.base_vault && final(self).vault.claims == old(self).vault.claims
                &&& final(self).vault.admin == old(self).vault.admin
                &&& final(self).vault.admin_transfer == old(self).vault.admin_transfer
            },
    {
        let is_admin = match &self.vault.admin {
            Some(a) => *a == *sender,
            None => false,
        };
        if !is_admin {
            return Err(ContractError::Unauthorized);
        }
        let ghost all = self.vault.config.force_withdraw_whitelist@ + add_addresses@;
        let ghost old_list = self.vault.config.force_withdraw_whitelist@;
        let mut kept: Vec<String> = Vec::new();
        let mut i: usize = 0;
        while i < self.vault.config.force_withdraw_whitelist.len()
            invariant
                i <= self.vault.config.force_withdraw_whitelist@.len(),
                old_list == self.vault.config.force_withdraw_whitelist@,
                all == old_list + add_addresses@,
                kept@ == without_repeats(all.take(i as int), remove_addresses@),
                forall|x: int, y: int| 0 <= x < y < kept@.len() ==> kept@[x]@ != kept@[y]@,
                forall|a: Seq<char>| #[trigger] contains_addr(kept@, a) <==> contains_addr(all.take(i as int), a)
                    && !contains_addr(remove_addresses@, a),
            decreases self.vault.config.force_withdraw_whitelist@.len() - i,
        {
            let x = &self.vault.config.force_withdraw_whitelist[i];
            proof {
                assert(all.take(i + 1) =~= all.take(i as int).push(*x));
                assert(all.take(i + 1).drop_last() =~= all.take(i as int));
                assert(all.take(i + 1).last() == *x);
                lemma_contains_addr_push(all.take(i as int), *x);
            }
            if !vec_contains_addr(&remove_addresses, x) && !vec_contains_addr(&kept, x) {
                let ghost before = kept@;
                kept.push(x.clone());
                proof {
                    lemma_contains_addr_push(before, *x);
                }
            }
            i = i + 1;
        }
        let n = self.vault.config.force_withdraw_whitelist.len();
        let mut j: usize = 0;
        while j < add_addresses.len()
            invariant
                j <= add_addresses@.len(),
                n == old_list.len(),
                all == old_list + add_addresses@,
                kept@ == without_repeats(all.take(n + j), remove_addresses@),
                forall|x: int, y: int| 0 <= x < y < kept@.len() ==> kept@[x]@ != kept@[y]@,
                forall|a: Seq<char>| #[trigger] contains_addr(kept@, a) <==> contains_addr(all.take(n + j), a)
                    && !contains_addr(remove_addresses@, a),
            decreases add_addresses@.len() - j,
        {
            let x = &add_addresses[j];
            proof {
                assert(all.take(n + j + 1) =~= all.take(n + j).push(*x));
                assert(all.take(n + j + 1).drop_last() =~= all.take(n + j));
                assert(all.take(n + j + 1).last() == *x);
                lemma_contains_addr_push(all.take(n + j), *x);
            }
            if !vec_contains_addr(&remove_addresses, x) && !vec_contains_addr(&kept, x) {
                let ghost before = kept@;
                kept.push(x.clone());
                proof {
                    lemma_contains_addr_push(before, *x);
                }
            }
            j = j + 1;
        }
        proof {
            assert(all.take(n + add_addresses@.len()) =~= all);
            lemma_contains_addr_concat(old_list, add_addresses@);
        }
        self.vault.config.force_withdraw_whitelist = kept;
        Ok(Vec::new())
    }

    /// The claims of `owner` after `start_after`, in id order, at most
    /// `limit` of them (ten when `None`).
    pub fn query_unlocking_positions(&self, owner: &String, start_after: Option<u64>, limit: Option<u32>) -> (r: Vec<Claim>)
        ensures
            r@ == first_n(
                owner_claims(self.vault.claims.ledger(), owner@, start_after),
                match limit {
                    Some(l) => l,
                    None => DEFAULT_LIMIT,
                } as nat,
            ),
    {
        self.vault.query_unlocking_positions(owner, start_after, limit)
    }
}

} // verus!
