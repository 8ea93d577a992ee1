use crate::error::ContractError;
use crate::expiration::{BlockInfo, Expiration};
use vstd::prelude::*;

verus! {

/// Number of claims an owner query returns when no limit is given.
pub const DEFAULT_LIMIT: u32 = 10;

/// An unlocking position: the right of `owner` to withdraw
/// `base_token_amount` base tokens once `release_at` is reached.
#[derive(Debug, Clone, PartialEq, Eq)]
pub struct Claim {
    pub id: u64,
    pub owner: String,
    pub base_token_amount: u128,
    pub release_at: Expiration,
}

/// A copy of `c`, field by field.
pub(crate) fn copy_claim(c: &Claim) -> (r: Claim)
    ensures
        r == *c,
{
    Claim { id: c.id, owner: c.owner.clone(), base_token_amount: c.base_token_amount, release_at: c.release_at }
}

/// Whether some claim of `s` has id `id`.
pub open spec fn has_id(s: Seq<Claim>, id: u64) -> bool {
    exists|i: int| 0 <= i < s.len() && s[i].id == id
}

/// The claims of `s` keyed by id.
pub open spec fn map_of(s: Seq<Claim>) -> Map<u64, Claim> {
    Map::new(|id: u64| has_id(s, id), |id: u64| s[choose|i: int| 0 <= i < s.len() && s[i].id == id])
}

/// Ids strictly increase along `s`.
pub open spec fn ids_increasing(s: Seq<Claim>) -> bool {
    forall|i: int, j: int| 0 <= i < j < s.len() ==> s[i].id < s[j].id
}

/// Whether claim `c` belongs to `owner` and comes after the cursor `start_after`.
pub open spec fn on_page(c: Claim, owner: Seq<char>, start_after: Option<u64>) -> bool {
    &&& c.owner@ == owner
    &&& match start_after {
        Some(s) => c.id > s,
        None => true,
    }
}

/// The claims of `s`, in order, that belong to `owner` and come after `start_after`.
pub open spec fn owner_claims(s: Seq<Claim>, owner: Seq<char>, start_after: Option<u64>) -> Seq<Claim>
    decreases s.len(),
{
    if s.len() == 0 {
        Seq::empty()
    } else {
        let rest = owner_claims(s.drop_last(), owner, start_after);
        if on_page(s.last(), owner, start_after) {
            rest.push(s.last())
        } else {
            rest
        }
    }
}

/// The first `limit` elements of `s`, or all of them when there are fewer.
pub open spec fn first_n<A>(s: Seq<A>, limit: nat) -> Seq<A> {
    if s.len() <= limit {
        s
    } else {
        s.take(limit as int)
    }
}

/// In an id-ordered sequence the claim found under an id is the one at its index.
proof fn lemma_map_of_at(s: Seq<Claim>, i: int)
    requires
        ids_increasing(s),
        0 <= i < s.len(),
    ensures
        map_of(s).contains_key(s[i].id),
        map_of(s)[s[i].id] == s[i],
{
    let id = s[i].id;
    assert(has_id(s, id));
    let c = choose|k: int| 0 <= k < s.len() && s[k].id == id;
    assert(0 <= c < s.len() && s[c].id == id);
    if c < i {
        assert(s[c].id < s[i].id);
    } else if c > i {
        assert(s[i].id < s[c].id);
    }
}

/// Facts on `map_of` for every index of an id-ordered sequence.
proof fn lemma_map_of_all(s: Seq<Claim>)
    requires
        ids_increasing(s),
    ensures
        forall|i: int| 0 <= i < s.len() ==> #[trigger] map_of(s).contains_key(s[i].id) && map_of(s)[s[i].id] == s[i],
        forall|id: u64| #[trigger] map_of(s).contains_key(id) ==> exists|i: int| 0 <= i < s.len() && s[i].id == id,
{
    assert forall|i: int| 0 <= i < s.len() implies #[trigger] map_of(s).contains_key(s[i].id) && map_of(s)[s[i].id] == s[i] by {
        lemma_map_of_at(s, i);
    }
}

/// Removing the claim at `k` removes its id from the map.
proof fn lemma_map_of_remove(s: Seq<Claim>, k: int)
    requires
        ids_increasing(s),
        0 <= k < s.len(),
    ensures
        ids_increasing(s.remove(k)),
        map_of(s.remove(k)) == map_of(s).remove(s[k].id),
{
    let t = s.remove(k);
    assert(ids_increasing(t)) by {
        assert forall|i: int, j: int| 0 <= i < j < t.len() implies t[i].id < t[j].id by {
            let i2 = if i < k { i } else { i + 1 };
            let j2 = if j < k { j } else { j + 1 };
            assert(t[i] == s[i2] && t[j] == s[j2]);
        }
    }
    lemma_map_of_all(s);
    lemma_map_of_all(t);
    let m = map_of(s).remove(s[k].id);
    assert forall|id: u64| #[trigger] map_of(t).contains_key(id) <==> m.contains_key(id) by {
        if map_of(t).contains_key(id) {
            let j = choose|j: int| 0 <= j < t.len() && t[j].id == id;
            let j2 = if j < k { j } else { j + 1 };
            assert(t[j] == s[j2]);
            assert(s[j2].id != s[k].id);
        }
        if m.contains_key(id) {
            let j = choose|j: int| 0 <= j < s.len() && s[j].id == id;
            assert(j != k);
            let j2 = if j < k { j } else { j - 1 };
            assert(t[j2] == s[j]);
            assert(map_of(t).contains_key(t[j2].id));
        }
    }
    assert forall|id: u64| #[trigger] map_of(t).contains_key(id) implies map_of(t)[id] == m[id] by {
        let j = choose|j: int| 0 <= j < t.len() && t[j].id == id;
        let j2 = if j < k { j } else { j + 1 };
        assert(t[j] == s[j2]);
        assert(map_of(t)[t[j].id] == t[j]);
        assert(map_of(s)[s[j2].id] == s[j2]);
    }
    assert(map_of(t) =~= m);
}

/// Replacing the claim at `k` by one with the same id replaces the map entry.
proof fn lemma_map_of_update(s: Seq<Claim>, k: int, c: Claim)
    requires
        ids_increasing(s),
        0 <= k < s.len(),
        c.id == s[k].id,
    ensures
        ids_increasing(s.update(k, c)),
        map_of(s.update(k, c)) == map_of(s).insert(c.id, c),
{
    let t = s.update(k, c);
    assert(ids_increasing(t)) by {
        assert forall|i: int, j: int| 0 <= i < j < t.len() implies t[i].id < t[j].id by {
            assert(t[i].id == s[i].id && t[j].id == s[j].id);
        }
    }
    lemma_map_of_all(s);
    lemma_map_of_all(t);
    let m = map_of(s).insert(c.id, c);
    assert forall|id: u64| #[trigger] map_of(t).contains_key(id) <==> m.contains_key(id) by {
        if map_of(t).contains_key(id) {
            let j = choose|j: int| 0 <= j < t.len() && t[j].id == id;
            assert(s[j].id == id);
        }
        if m.contains_key(id) && id != c.id {
            let j = choose|j: int| 0 <= j < s.len() && s[j].id == id;
            assert(t[j].id == id);
            assert(map_of(t).contains_key(t[j].id));
        }
        if id == c.id {
            assert(map_of(t).contains_key(t[k].id));
        }
    }
    assert forall|id: u64| #[trigger] map_of(t).contains_key(id) implies map_of(t)[id] == m[id] by {
        let j = choose|j: int| 0 <= j < t.len() && t[j].id == id;
        assert(map_of(t)[t[j].id] == t[j]);
        if j != k {
            assert(map_of(s)[s[j].id] == s[j]);
        }
    }
    assert(map_of(t) =~= m);
}

/// Inserting a claim at its place in id order adds it to the map.
proof fn lemma_map_of_insert(s: Seq<Claim>, k: int, c: Claim)
    requires
        ids_increasing(s),
        0 <= k <= s.len(),
        forall|i: int| 0 <= i < k ==> s[i].id < c.id,
        forall|i: int| k <= i < s.len() ==> s[i].id > c.id,
    ensures
        ids_increasing(s.insert(k, c)),
        map_of(s.insert(k, c)) == map_of(s).insert(c.id, c),
{
    let t = s.insert(k, c);
    assert(ids_increasing(t)) by {
        assert forall|i: int, j: int| 0 <= i < j < t.len() implies t[i].id < t[j].id by {
            if i < k && j < k {
                assert(t[i] == s[i] && t[j] == s[j]);
            } else if i < k && j == k {
                assert(t[i] == s[i]);
            } else if i < k {
                assert(t[i] == s[i] && t[j] == s[j - 1]);
            } else if i == k {
                assert(t[j] == s[j - 1]);
            } else {
                assert(t[i] == s[i - 1] && t[j] == s[j - 1]);
            }
        }
    }
    lemma_map_of_all(s);
    lemma_map_of_all(t);
    let m = map_of(s).insert(c.id, c);
    assert forall|id: u64| #[trigger] map_of(t).contains_key(id) <==> m.contains_key(id) by {
        if map_of(t).contains_key(id) && id != c.id {
            let j = choose|j: int| 0 <= j < t.len() && t[j].id == id;
            let j2 = if j < k { j } else { j - 1 };
            assert(j != k);
            assert(t[j] == s[j2]);
        }
        if m.contains_key(id) && id != c.id {
            let j = choose|j: int| 0 <= j < s.len() && s[j].id == id;
            let j2 = if j < k { j } else { j + 1 };
            assert(t[j2] == s[j]);
            assert(map_of(t).contains_key(t[j2].id));
        }
        if id == c.id {
            assert(t[k] == c);
            assert(map_of(t).contains_key(t[k].id));
        }
    }
    assert forall|id: u64| #[trigger] map_of(t).contains_key(id) implies map_of(t)[id] == m[id] by {
        let j = choose|j: int| 0 <= j < t.len() && t[j].id == id;
        assert(map_of(t)[t[j].id] == t[j]);
        if j < k {
            assert(t[j] == s[j]);
            assert(map_of(s)[s[j].id] == s[j]);
        } else if j > k {
            assert(t[j] == s[j - 1]);
            assert(map_of(s)[s[j - 1].id] == s[j - 1]);
        } else {
            assert(t[j] == c);
        }
    }
    assert(map_of(t) =~= m);
}

/// The ledger of unlocking claims, with a single staging slot for the claim
/// an unlock workflow is still building.
pub struct Claims {
    /// Live claims, in strictly increasing id order.
    claims: Vec<Claim>,
    /// The claim being built, if any.
    pending_claim: Option<Claim>,
    /// The id a claim gets when no id is given; above every id ever committed.
    next_claim_id: u64,
    /// Every id ever committed, including those of claims since removed.
    issued: Ghost<Set<u64>>,
}

impl Claims {
    /// Live claims in id order.
    pub closed spec fn ledger(&self) -> Seq<Claim> {
        self.claims@
    }

    /// Live claims keyed by id.
    pub open spec fn claims_map(&self) -> Map<u64, Claim> {
        map_of(self.ledger())
    }

    pub closed spec fn pending(&self) -> Option<Claim> {
        self.pending_claim
    }

    pub closed spec fn next_id(&self) -> u64 {
        self.next_claim_id
    }

    /// Ids of every claim ever committed.
    pub closed spec fn issued_ids(&self) -> Set<u64> {
        self.issued@
    }

    /// Claims are kept in id order, every live id was issued, and the default
    /// id lies above every id ever issued.
    pub open spec fn wf(&self) -> bool {
        &&& ids_increasing(self.ledger())
        &&& forall|i: int| 0 <= i < self.ledger().len() ==> self.issued_ids().contains(#[trigger] self.ledger()[i].id)
        &&& forall|id: u64| #[trigger] self.issued_ids().contains(id) ==> id < self.next_id()
    }

    /// An empty ledger with no pending claim.
    pub fn new() -> (r: Claims)
        ensures
            r.wf(),
            r.claims_map() == Map::<u64, Claim>::empty(),
            r.pending() is None,
            r.next_id() == 0,
            r.issued_ids() == Set::<u64>::empty(),
    {
        let r = Claims { claims: Vec::new(), pending_claim: None, next_claim_id: 0, issued: Ghost(Set::empty()) };
        assert(r.claims_map() =~= Map::<u64, Claim>::empty());
        r
    }

    /// A ledger rebuilt from stored parts. Fails unless the claims are in
    /// strictly increasing id order and every id is below `next_claim_id`.
    /// The ids of the given claims count as the ids committed so far.
    pub fn from_parts(claims: Vec<Claim>, pending_claim: Option<Claim>, next_claim_id: u64) -> (r: Result<Claims, ContractError>)
        ensures
            (ids_increasing(claims@) && forall|i: int| 0 <= i < claims@.len() ==> #[trigger] claims@[i].id < next_claim_id) ==> r is Ok && {
                let c = r->Ok_0;
                &&& c.wf()
                &&& c.ledger() == claims@
                &&& c.pending() == pending_claim
                &&& c.next_id() == next_claim_id
            },
            !(ids_increasing(claims@) && forall|i: int| 0 <= i < claims@.len() ==> #[trigger] claims@[i].id < next_claim_id)
                ==> r == Err::<Claims, ContractError>(ContractError::InvalidClaimsState),
    {
        let mut i: usize = 0;
        while i < claims.len()
            invariant
                i <= claims@.len(),
                forall|j: int| 0 <= j < i ==> #[trigger] claims@[j].id < next_claim_id,
                forall|j: int, k: int| 0 <= j < k < i ==> claims@[j].id < claims@[k].id,
            decreases claims@.len() - i,
        {
            if claims[i].id >= next_claim_id || (i > 0 && claims[i - 1].id >= claims[i].id) {
                return Err(ContractError::InvalidClaimsState);
            }
            i = i + 1;
        }
        let ghost issued = Set::new(|id: u64| exists|j: int| 0 <= j < claims@.len() && claims@[j].id == id);
        let r = Claims { claims, pending_claim, next_claim_id, issued: Ghost(issued) };
        assert forall|j: int| 0 <= j < r.ledger().len() implies r.issued_ids().contains(#[trigger] r.ledger()[j].id) by {
            assert(r.claims@[j].id == r.ledger()[j].id);
        }
        Ok(r)
    }

    /// The stored parts of the ledger: its claims in id order, the pending
    /// claim and the default id.
    pub fn into_parts(self) -> (r: (Vec<Claim>, Option<Claim>, u64))
        ensures
            r.0@ == self.ledger(),
            r.1 == self.pending(),
            r.2 == self.next_id(),
    {
        (self.claims, self.pending_claim, self.next_claim_id)
    }

    /// The id the next claim gets when none is given.
    pub fn next_claim_id(&self) -> (r: u64)
        ensures
            r == self.next_id(),
    {
        self.next_claim_id
    }

    /// Stages a claim of `base_token_amount` for `owner`, released at
    /// `expiration`, under `lock_id` or else the next default id. Fails while
    /// another claim is staged.
    pub fn create_pending_claim(
        &mut self,
        owner: &String,
        base_token_amount: u128,
        expiration: Expiration,
        lock_id: Option<u64>,
    ) -> (r: Result<(), ContractError>)
        requires
            old(self).wf(),
        ensures
            final(self).wf(),
            final(self).ledger() == old(self).ledger(),
            final(self).next_id() == old(self).next_id(),
            final(self).issued_ids() == old(self).issued_ids(),
            old(self).pending() is Some ==> r == Err::<(), ContractError>(ContractError::PendingClaimExists)
                && *final(self) == *old(self),
            old(self).pending() is None ==> r is Ok && final(self).pending() == Some(Claim {
                id: match lock_id {
                    Some(id) => id,
                    None => old(self).next_id(),
                },
                owner: *owner,
                base_token_amount,
                release_at: expiration,
            }),
    {
        let id = match lock_id {
            Some(id) => id,
            None => self.next_claim_id,
        };
        if self.pending_claim.is_some() {
            return Err(ContractError::PendingClaimExists);
        }
        let ghost pre = *self;
        self.pending_claim = Some(Claim { id, owner: owner.clone(), base_token_amount, release_at: expiration });
        assert forall|i: u64| self.issued@.contains(i) implies i < self.next_claim_id by {
            assert(pre.issued_ids().contains(i));
        }
        Ok(())
    }

    /// Replaces the staged claim, whether or not one was staged.
    pub fn set_pending_claim(&mut self, claim: Claim)
        requires
            old(self).wf(),
        ensures
            final(self).wf(),
            final(self).ledger() == old(self).ledger(),
            final(self).next_id() == old(self).next_id(),
            final(self).issued_ids() == old(self).issued_ids(),
            final(self).pending() == Some(claim),
    {
        let ghost pre = *self;
        self.pending_claim = Some(claim);
        assert forall|i: u64| self.issued@.contains(i) implies i < self.next_claim_id by {
            assert(pre.issued_ids().contains(i));
        }
    }

    /// The staged claim.
    pub fn get_pending_claim(&self) -> (r: Result<Claim, ContractError>)
        ensures
            match self.pending() {
                Some(c) => r == Ok::<Claim, ContractError>(c),
                None => r == Err::<Claim, ContractError>(ContractError::NoPendingClaim),
            },
    {
        match &self.pending_claim {
            Some(c) => Ok(copy_claim(c)),
            None => Err(ContractError::NoPendingClaim),
        }
    }

    /// Index of the claim with id `id`, if it is live.
    fn find(&self, id: u64) -> (r: Option<usize>)
        requires
            self.wf(),
        ensures
            match r {
                Some(k) => k < self.ledger().len() && self.ledger()[k as int].id == id,
                None => !self.claims_map().contains_key(id),
            },
    {
        let mut i: usize = 0;
        while i < self.claims.len()
            invariant
                i <= self.claims.len(),
                forall|j: int| 0 <= j < i ==> self.claims@[j].id != id,
            decreases self.claims.len() - i,
        {
            if self.claims[i].id == id {
                return Some(i);
            }
            i = i + 1;
        }
        None
    }

    /// Moves the staged claim into the ledger and raises the default id above
    /// it. Fails when nothing is staged, when its id is live already, or when
    /// the default id would pass `u64::MAX`.
    pub fn commit_pending_claim(&mut self) -> (r: Result<(), ContractError>)
        requires
            old(self).wf(),
        ensures
            final(self).wf(),
            match old(self).pending() {
                None => r == Err::<(), ContractError>(ContractError::NoPendingClaim),
                Some(p) => if old(self).claims_map().contains_key(p.id) {
                    r == Err::<(), ContractError>(ContractError::DuplicateClaimId)
                } else if p.id == u64::MAX {
                    r == Err::<(), ContractError>(ContractError::Overflow)
                } else {
                    r is Ok
                },
            },
            r is Ok ==> {
                let p = old(self).pending()->Some_0;
                &&& final(self).claims_map() == old(self).claims_map().insert(p.id, p)
                &&& final(self).pending() is None
                &&& final(self).next_id() == if p.id >= old(self).next_id() {
                    (p.id + 1) as u64
                } else {
                    old(self).next_id()
                }
                &&& final(self).issued_ids() == old(self).issued_ids().insert(p.id)
            },
            r is Err ==> *final(self) == *old(self),
    {
        let ghost pre = *self;
        let p = match &self.pending_claim {
            Some(p) => copy_claim(p),
            None => return Err(ContractError::NoPendingClaim),
        };
        // Position of the first claim whose id is not below the new one.
        let mut k: usize = 0;
        while k < self.claims.len() && self.claims[k].id < p.id
            invariant
                k <= self.claims.len(),
                forall|j: int| 0 <= j < k ==> self.claims@[j].id < p.id,
            decreases self.claims.len() - k,
        {
            k = k + 1;
        }
        proof {
            lemma_map_of_all(self.claims@);
        }
        if k < self.claims.len() && self.claims[k].id == p.id {
            return Err(ContractError::DuplicateClaimId);
        }
        proof {
            assert forall|i: int| k <= i < self.claims@.len() implies self.claims@[i].id > p.id by {
                assert(self.claims@[k as int].id > p.id);
                assert(i == k || self.claims@[k as int].id < self.claims@[i].id);
            }
            assert(!has_id(self.claims@, p.id)) by {
                if has_id(self.claims@, p.id) {
                    let j = choose|j: int| 0 <= j < self.claims@.len() && self.claims@[j].id == p.id;
                    assert(j < k || j >= k);
                }
            }
        }
        if p.id == u64::MAX {
            return Err(ContractError::Overflow);
        }
        if p.id >= self.next_claim_id {
            self.next_claim_id = p.id + 1;
        }
        proof {
            lemma_map_of_insert(self.claims@, k as int, p);
        }
        let ghost old_claims = self.claims@;
        self.claims.insert(k, p);
        self.pending_claim = None;
        self.issued = Ghost(self.issued@.insert(p.id));
        proof {
            assert forall|i: u64| self.issued@.contains(i) implies i < self.next_claim_id by {
                if i != p.id {
                    assert(pre.issued_ids().contains(i));
                }
            }
            assert forall|i: int| 0 <= i < self.claims@.len() implies self.issued@.contains(#[trigger] self.claims@[i].id) by {
                if i < k {
                    assert(self.claims@[i] == old_claims[i]);
                } else if i > k {
                    assert(self.claims@[i] == old_claims[i - 1]);
                }
            }
        }
        Ok(())
    }

    /// Pays out a matured claim to its owner: removes it and returns its amount.
    pub fn claim_tokens(&mut self, block: &BlockInfo, sender: &String, lock_id: u64) -> (r: Result<u128, ContractError>)
        requires
            old(self).wf(),
        ensures
            final(self).wf(),
            !old(self).claims_map().contains_key(lock_id) ==> r == Err::<u128, ContractError>(ContractError::ClaimNotFound),
            old(self).claims_map().contains_key(lock_id) ==> {
                let c = old(self).claims_map()[lock_id];
                if c.owner@ != sender@ {
                    r == Err::<u128, ContractError>(ContractError::ClaimNotOwned)
                } else if !c.release_at.spec_is_expired(*block) {
                    r == Err::<u128, ContractError>(ContractError::ClaimNotMatured)
                } else {
                    r == Ok::<u128, ContractError>(c.base_token_amount)
                }
            },
            r is Ok ==> final(self).claims_map() == old(self).claims_map().remove(lock_id)
                && final(self).pending() == old(self).pending()
                && final(self).next_id() == old(self).next_id()
                && final(self).issued_ids() == old(self).issued_ids(),
            r is Err ==> *final(self) == *old(self),
    {
        let k = match self.find(lock_id) {
            Some(k) => k,
            None => return Err(ContractError::ClaimNotFound),
        };
        proof {
            lemma_map_of_at(self.claims@, k as int);
        }
        if self.claims[k].owner != *sender {
            return Err(ContractError::ClaimNotOwned);
        }
        if !self.claims[k].release_at.is_expired(block) {
            return Err(ContractError::ClaimNotMatured);
        }
        proof {
            lemma_map_of_remove(self.claims@, k as int);
        }
        let ghost old_claims = self.claims@;
        let c = self.claims.remove(k);
        proof {
            assert forall|i: int| 0 <= i < self.claims@.len() implies self.issued@.contains(#[trigger] self.claims@[i].id) by {
                if i < k {
                    assert(self.claims@[i] == old_claims[i]);
                } else {
                    assert(self.claims@[i] == old_claims[i + 1]);
                }
            }
        }
        Ok(c.base_token_amount)
    }

    /// Pays out `claim_amount` of a claim (all of it when `None`) to its owner
    /// whether or not it has matured. A claim paid out in full is removed;
    /// otherwise it keeps the rest.
    pub fn force_claim(&mut self, sender: &String, lock_id: u64, claim_amount: Option<u128>) -> (r: Result<u128, ContractError>)
        requires
            old(self).wf(),
        ensures
            final(self).wf(),
            !old(self).claims_map().contains_key(lock_id) ==> r == Err::<u128, ContractError>(ContractError::ClaimNotFound),
            old(self).claims_map().contains_key(lock_id) ==> {
                let c = old(self).claims_map()[lock_id];
                let asked = match claim_amount {
                    Some(a) => a,
                    None => c.base_token_amount,
                };
                if c.owner@ != sender@ {
                    r == Err::<u128, ContractError>(ContractError::ClaimNotOwned)
                } else if asked > c.base_token_amount {
                    r == Err::<u128, ContractError>(ContractError::ClaimAmountExceeded)
                } else {
                    &&& r == Ok::<u128, ContractError>(asked)
                    &&& asked < c.base_token_amount ==> final(self).claims_map() == old(self).claims_map().insert(
                        lock_id,
                        Claim { base_token_amount: (c.base_token_amount - asked) as u128, ..c },
                    )
                    &&& asked == c.base_token_amount ==> final(self).claims_map() == old(self).claims_map().remove(lock_id)
                }
            },
            r is Ok ==> final(self).pending() == old(self).pending()
                && final(self).next_id() == old(self).next_id()
                && final(self).issued_ids() == old(self).issued_ids(),
            r is Err ==> *final(self) == *old(self),
    {
        let k = match self.find(lock_id) {
            Some(k) => k,
            None => return Err(ContractError::ClaimNotFound),
        };
        proof {
            lemma_map_of_at(self.claims@, k as int);
        }
        if self.claims[k].owner != *sender {
            return Err(ContractError::ClaimNotOwned);
        }
        let claimable = self.claims[k].base_token_amount;
        let claimed = match claim_amount {
            Some(a) => a,
            None => claimable,
        };
        if claimed > claimable {
            return Err(ContractError::ClaimAmountExceeded);
        }
        let left = claimable - claimed;
        let ghost old_claims = self.claims@;
        if left > 0 {
            let c = &self.claims[k];
            let updated = Claim { id: c.id, owner: c.owner.clone(), base_token_amount: left, release_at: c.release_at };
            proof {
                lemma_map_of_update(self.claims@, k as int, updated);
            }
            self.claims.set(k, updated);
            proof {
                assert forall|i: int| 0 <= i < self.claims@.len() implies self.issued@.contains(#[trigger] self.claims@[i].id) by {
                    assert(self.claims@[i].id == old_claims[i].id);
                }
            }
        } else {
            proof {
                lemma_map_of_remove(self.claims@, k as int);
            }
            self.claims.remove(k);
            proof {
                assert forall|i: int| 0 <= i < self.claims@.len() implies self.issued@.contains(#[trigger] self.claims@[i].id) by {
                    if i < k {
                        assert(self.claims@[i] == old_claims[i]);
                    } else {
                        assert(self.claims@[i] == old_claims[i + 1]);
                    }
                }
            }
        }
        Ok(claimed)
    }

    /// The live claim with id `lockup_id`.
    pub fn query_claim_by_id(&self, lockup_id: u64) -> (r: Result<Claim, ContractError>)
        requires
            self.wf(),
        ensures
            self.claims_map().contains_key(lockup_id) ==> r == Ok::<Claim, ContractError>(self.claims_map()[lockup_id]),
            !self.claims_map().contains_key(lockup_id) ==> r == Err::<Claim, ContractError>(ContractError::ClaimNotFound),
    {
        match self.find(lockup_id) {
            Some(k) => {
                proof {
                    lemma_map_of_at(self.claims@, k as int);
                }
                Ok(copy_claim(&self.claims[k]))
            },
            None => Err(ContractError::ClaimNotFound),
        }
    }

    /// The claims of `owner` with ids above `start_after`, in ascending id
    /// order, at most `limit` of them (ten when no limit is given), each
    /// paired with its id.
    pub fn query_claims_for_owner(&self, owner: &String, start_after: Option<u64>, limit: Option<u32>) -> (r: Vec<(u64, Claim)>)
        ensures
            ({
                let lim = match limit {
                    Some(l) => l,
                    None => DEFAULT_LIMIT,
                };
                let expected = first_n(owner_claims(self.ledger(), owner@, start_after), lim as nat);
                &&& r@.len() == expected.len()
                &&& forall|i: int| 0 <= i < r@.len() ==> #[trigger] r@[i] == (expected[i].id, expected[i])
            }),
    {
        let lim: u32 = match limit {
            Some(l) => l,
            None => DEFAULT_LIMIT,
        };
        let mut out: Vec<(u64, Claim)> = Vec::new();
        let ghost mut found: Seq<Claim> = Seq::empty();
        let mut i: usize = 0;
        while i < self.claims.len()
            invariant
                i <= self.claims.len(),
                found == first_n(owner_claims(self.claims@.take(i as int), owner@, start_after), lim as nat),
                out@.len() == found.len(),
                forall|j: int| 0 <= j < out@.len() ==> #[trigger] out@[j] == (found[j].id, found[j]),
            decreases self.claims.len() - i,
        {
            let ghost all = owner_claims(self.claims@.take(i as int), owner@, start_after);
            assert(self.claims@.take(i + 1).drop_last() =~= self.claims@.take(i as int));
            assert(self.claims@.take(i + 1).last() == self.claims@[i as int]);
            let c = &self.claims[i];
            let after = match start_after {
                Some(s) => c.id > s,
                None => true,
            };
            if c.owner == *owner && after {
                if out.len() < lim as usize {
                    assert(found == all);
                    out.push((c.id, copy_claim(c)));
                    proof {
                        found = found.push(*c);
                    }
                } else {
                    assert(all.push(*c).take(lim as int) =~= all.take(lim as int));
                }
            }
            i = i + 1;
        }
        assert(self.claims@.take(self.claims@.len() as int) =~= self.claims@);
        out
    }
}

/// Claim ids never repeat. Live claims carry distinct ids, every live id is
/// among the ids ever committed, and the default id that the next claim
/// created without an explicit id receives was never committed before, so it
/// collides with no live or removed claim. Committing only adds to the
/// committed ids and removing a claim keeps them (see the operations'
/// contracts), so this holds after any sequence of operations.
pub proof fn lemma_claim_ids_unique(claims: Claims)
    requires
        claims.wf(),
    ensures
        forall|i: int, j: int| 0 <= i < j < claims.ledger().len() ==> claims.ledger()[i].id != claims.ledger()[j].id,
        forall|id: u64| #[trigger] claims.claims_map().contains_key(id) ==> claims.issued_ids().contains(id),
        !claims.issued_ids().contains(claims.next_id()),
        !claims.claims_map().contains_key(claims.next_id()),
{
    lemma_map_of_all(claims.ledger());
    assert forall|id: u64| #[trigger] claims.claims_map().contains_key(id) implies claims.issued_ids().contains(id) by {
        let i = choose|i: int| 0 <= i < claims.ledger().len() && claims.ledger()[i].id == id;
        assert(claims.issued_ids().contains(claims.ledger()[i].id));
    }
}

} // verus!
