use vstd::prelude::*;

verus! {

/// What an asset is: a native denom or a cw20 token contract address.
#[derive(Debug, Clone, Eq)]
pub enum AssetInfo {
    Native(String),
    Cw20(String),
}

impl View for AssetInfo {
    /// Whether the asset is native, and its denom or contract address.
    type V = (bool, Seq<char>);

    open spec fn view(&self) -> (bool, Seq<char>) {
        match self {
            AssetInfo::Native(d) => (true, d@),
            AssetInfo::Cw20(a) => (false, a@),
        }
    }
}

impl PartialEq for AssetInfo {
    fn eq(&self, other: &AssetInfo) -> (r: bool) {
        match self {
            AssetInfo::Native(a) => match other {
                AssetInfo::Native(b) => *a == *b,
                AssetInfo::Cw20(_) => false,
            },
            AssetInfo::Cw20(a) => match other {
                AssetInfo::Native(_) => false,
                AssetInfo::Cw20(b) => *a == *b,
            },
        }
    }
}

impl vstd::std_specs::cmp::PartialEqSpecImpl for AssetInfo {
    open spec fn obeys_eq_spec() -> bool {
        true
    }

    open spec fn eq_spec(&self, other: &AssetInfo) -> bool {
        self@ == other@
    }
}

/// A copy of `a`.
pub(crate) fn copy_asset_info(a: &AssetInfo) -> (r: AssetInfo)
    ensures
        r == *a,
{
    match a {
        AssetInfo::Native(d) => AssetInfo::Native(d.clone()),
        AssetInfo::Cw20(c) => AssetInfo::Cw20(c.clone()),
    }
}

/// An amount of an asset.
#[derive(Debug, Clone, PartialEq, Eq)]
pub struct Asset {
    pub info: AssetInfo,
    pub amount: u128,
}

/// A copy of `a`.
pub(crate) fn copy_asset(a: &Asset) -> (r: Asset)
    ensures
        r == *a,
{
    Asset { info: copy_asset_info(&a.info), amount: a.amount }
}

/// An amount of a native denom attached to a call.
#[derive(Debug, Clone, PartialEq, Eq)]
pub struct Coin {
    pub denom: String,
    pub amount: u128,
}

/// Whether `assets` holds an asset equal to `a`.
pub open spec fn contains_asset(assets: Seq<AssetInfo>, a: AssetInfo) -> bool {
    exists|i: int| 0 <= i < assets.len() && assets[i]@ == a@
}

/// Whether `assets` holds an asset equal to `a`.
pub fn vec_contains_asset(assets: &Vec<AssetInfo>, a: &AssetInfo) -> (r: bool)
    ensures
        r == contains_asset(assets@, *a),
{
    let mut i: usize = 0;
    while i < assets.len()
        invariant
            i <= assets.len(),
            forall|j: int| 0 <= j < i ==> assets@[j]@ != a@,
        decreases assets.len() - i,
    {
        if assets[i] == *a {
            return true;
        }
        i = i + 1;
    }
    false
}

/// Whether `funds` holds a coin of exactly `amount` of `denom`.
pub open spec fn contains_coin(funds: Seq<Coin>, denom: Seq<char>, amount: u128) -> bool {
    exists|i: int| 0 <= i < funds.len() && funds[i].denom@ == denom && funds[i].amount == amount
}

/// Whether `funds` holds a coin of exactly `amount` of `denom`.
pub fn funds_contain(funds: &Vec<Coin>, denom: &String, amount: u128) -> (r: bool)
    ensures
        r == contains_coin(funds@, denom@, amount),
{
    let mut i: usize = 0;
    while i < funds.len()
        invariant
            i <= funds.len(),
            forall|j: int| 0 <= j < i ==> !(funds@[j].denom@ == denom@ && funds@[j].amount == amount),
        decreases funds.len() - i,
    {
        if funds[i].denom == *denom && funds[i].amount == amount {
            return true;
        }
        i = i + 1;
    }
    false
}

/// Whether `addrs` holds an address equal to `a`.
pub open spec fn contains_addr(addrs: Seq<String>, a: Seq<char>) -> bool {
    exists|i: int| 0 <= i < addrs.len() && addrs[i]@ == a
}

/// Appending `x` adds exactly `x` to the addresses held.
pub proof fn lemma_contains_addr_push(s: Seq<String>, x: String)
    ensures
        forall|a: Seq<char>| #[trigger] contains_addr(s.push(x), a) <==> (contains_addr(s, a) || a == x@),
{
    let t = s.push(x);
    assert forall|a: Seq<char>| #[trigger] contains_addr(t, a) <==> (contains_addr(s, a) || a == x@) by {
        if contains_addr(t, a) {
            let k = choose|k: int| 0 <= k < t.len() && #[trigger] t[k]@ == a;
            if k < s.len() {
                assert(s[k] == t[k]);
            }
        }
        if contains_addr(s, a) {
            let k = choose|k: int| 0 <= k < s.len() && #[trigger] s[k]@ == a;
            assert(t[k] == s[k]);
        }
        if a == x@ {
            assert(t[s.len() as int] == x);
        }
    }
}

/// Two lists together hold exactly the addresses either of them holds.
pub proof fn lemma_contains_addr_concat(s: Seq<String>, t: Seq<String>)
    ensures
        forall|a: Seq<char>| #[trigger] contains_addr(s + t, a) <==> (contains_addr(s, a) || contains_addr(t, a)),
{
    let u = s + t;
    assert forall|a: Seq<char>| #[trigger] contains_addr(u, a) <==> (contains_addr(s, a) || contains_addr(t, a)) by {
        if contains_addr(u, a) {
            let k = choose|k: int| 0 <= k < u.len() && #[trigger] u[k]@ == a;
            if k < s.len() {
                assert(s[k] == u[k]);
            } else {
                assert(t[k - s.len()] == u[k]);
            }
        }
        if contains_addr(s, a) {
            let k = choose|k: int| 0 <= k < s.len() && #[trigger] s[k]@ == a;
            assert(u[k] == s[k]);
        }
        if contains_addr(t, a) {
            let k = choose|k: int| 0 <= k < t.len() && #[trigger] t[k]@ == a;
            assert(u[k + s.len()] == t[k]);
        }
    }
}

/// Whether `addrs` holds an address equal to `a`.
pub fn vec_contains_addr(addrs: &Vec<String>, a: &String) -> (r: bool)
    ensures
        r == contains_addr(addrs@, a@),
{
    let mut i: usize = 0;
    while i < addrs.len()
        invariant
            i <= addrs.len(),
            forall|j: int| 0 <= j < i ==> addrs@[j]@ != a@,
        decreases addrs.len() - i,
    {
        if addrs[i] == *a {
            return true;
        }
        i = i + 1;
    }
    false
}

} // verus!
