use crate::error::ContractError;
use crate::math::{checked_multiply_ratio, ratio_floor};
use vstd::arithmetic::div_mod::{lemma_div_by_multiple, lemma_div_is_ordered, lemma_fundamental_div_mod};
use vstd::arithmetic::mul::lemma_mul_inequality;
use vstd::prelude::*;

verus! {

/// The shares held by one provider.
#[derive(Debug, Clone, PartialEq, Eq)]
pub struct Provision {
    pub provider: String,
    pub shares: u128,
}

/// Provider identity to share count, with the aggregate share total.
///
/// An entry appears on a provider's first deposit and is never removed: a
/// withdrawal sets it to zero.
#[derive(Debug, Clone, PartialEq, Eq)]
pub struct ShareLedger {
    pub entries: Vec<Provision>,
    pub total: u128,
}

/// The shares of all entries together.
pub open spec fn sum_shares(s: Seq<Provision>) -> nat
    decreases s.len(),
{
    if s.len() == 0 {
        0
    } else {
        sum_shares(s.drop_last()) + s.last().shares as nat
    }
}

/// No provider has two entries.
pub open spec fn providers_unique(s: Seq<Provision>) -> bool {
    forall|i: int, j: int|
        0 <= i < j < s.len() ==> #[trigger] s[i].provider@ != #[trigger] s[j].provider@
}

/// The entries as a map from provider to shares.
pub open spec fn share_map(s: Seq<Provision>) -> Map<Seq<char>, u128>
    decreases s.len(),
{
    if s.len() == 0 {
        Map::empty()
    } else {
        share_map(s.drop_last()).insert(s.last().provider@, s.last().shares)
    }
}

/// Shares minted for a deposit of `deposit` into a pool that held
/// `pre_balance` just before it and had issued `total` shares.
pub open spec fn shares_to_mint(total: int, deposit: int, pre_balance: int) -> int {
    if total == 0 || pre_balance == 0 {
        deposit
    } else {
        ratio_floor(total, deposit, pre_balance)
    }
}

/// What `shares` out of `total` redeem for when the pool holds `balance`.
pub open spec fn entitlement(balance: int, shares: int, total: int) -> int {
    if total == 0 {
        0
    } else {
        ratio_floor(balance, shares, total)
    }
}

/// The entitlements of all entries together.
pub open spec fn sum_entitlements(s: Seq<Provision>, balance: int, total: int) -> int
    decreases s.len(),
{
    if s.len() == 0 {
        0
    } else {
        sum_entitlements(s.drop_last(), balance, total) + entitlement(
            balance,
            s.last().shares as int,
            total,
        )
    }
}

proof fn lemma_share_map_domain(s: Seq<Provision>, p: Seq<char>)
    ensures
        share_map(s).contains_key(p) <==> exists|i: int| 0 <= i < s.len() && s[i].provider@ == p,
    decreases s.len(),
{
    if s.len() > 0 {
        let d = s.drop_last();
        lemma_share_map_domain(d, p);
        if share_map(d).contains_key(p) {
            let i = choose|i: int| 0 <= i < d.len() && d[i].provider@ == p;
            assert(s[i] == d[i]);
        }
        if exists|i: int| 0 <= i < s.len() && s[i].provider@ == p {
            let i = choose|i: int| 0 <= i < s.len() && s[i].provider@ == p;
            if i < d.len() {
                assert(d[i] == s[i]);
            }
        }
    }
}

proof fn lemma_share_map_at(s: Seq<Provision>, i: int)
    requires
        providers_unique(s),
        0 <= i < s.len(),
    ensures
        share_map(s).contains_key(s[i].provider@),
        share_map(s)[s[i].provider@] == s[i].shares,
    decreases s.len(),
{
    let d = s.drop_last();
    if i < s.len() - 1 {
        assert(providers_unique(d)) by {
            assert forall|a: int, b: int| 0 <= a < b < d.len() implies d[a].provider@
                != d[b].provider@ by {
                assert(d[a] == s[a] && d[b] == s[b]);
            }
        }
        lemma_share_map_at(d, i);
        assert(d[i] == s[i]);
        assert(s[i].provider@ != s[s.len() - 1].provider@);
    }
}

proof fn lemma_shares_within_sum(s: Seq<Provision>, i: int)
    requires
        0 <= i < s.len(),
    ensures
        s[i].shares <= sum_shares(s),
    decreases s.len(),
{
    let d = s.drop_last();
    if i < s.len() - 1 {
        lemma_shares_within_sum(d, i);
        assert(d[i] == s[i]);
    }
}

proof fn lemma_update(s: Seq<Provision>, i: int, v: Provision)
    requires
        providers_unique(s),
        0 <= i < s.len(),
        v.provider@ == s[i].provider@,
    ensures
        providers_unique(s.update(i, v)),
        sum_shares(s.update(i, v)) == sum_shares(s) - s[i].shares + v.shares,
        share_map(s.update(i, v)) == share_map(s).insert(v.provider@, v.shares),
    decreases s.len(),
{
    let u = s.update(i, v);
    let d = s.drop_last();
    assert(providers_unique(u)) by {
        assert forall|a: int, b: int| 0 <= a < b < u.len() implies u[a].provider@
            != u[b].provider@ by {
            assert(s[a].provider@ != s[b].provider@);
        }
    }
    if i == s.len() - 1 {
        assert(u.drop_last() =~= d);
        assert(share_map(u) =~= share_map(s).insert(v.provider@, v.shares));
    } else {
        assert(providers_unique(d)) by {
            assert forall|a: int, b: int| 0 <= a < b < d.len() implies d[a].provider@
                != d[b].provider@ by {
                assert(d[a] == s[a] && d[b] == s[b]);
            }
        }
        assert(d[i] == s[i]);
        lemma_update(d, i, v);
        assert(u.drop_last() =~= d.update(i, v));
        assert(u.last() == s.last());
        assert(s[i].provider@ != s[s.len() - 1].provider@);
        assert(share_map(u) =~= share_map(s).insert(v.provider@, v.shares));
    }
}

proof fn lemma_push(s: Seq<Provision>, v: Provision)
    requires
        providers_unique(s),
        !share_map(s).contains_key(v.provider@),
    ensures
        providers_unique(s.push(v)),
        sum_shares(s.push(v)) == sum_shares(s) + v.shares,
        share_map(s.push(v)) == share_map(s).insert(v.provider@, v.shares),
{
    let u = s.push(v);
    assert(u.drop_last() =~= s);
    lemma_share_map_domain(s, v.provider@);
    assert(providers_unique(u)) by {
        assert forall|a: int, b: int| 0 <= a < b < u.len() implies u[a].provider@
            != u[b].provider@ by {
            if b == s.len() {
                assert(u[a] == s[a]);
            } else {
                assert(u[a] == s[a] && u[b] == s[b]);
            }
        }
    }
}

proof fn lemma_prefix_sum(s: Seq<Provision>, i: int)
    requires
        0 <= i <= s.len(),
    ensures
        sum_shares(s.subrange(0, i)) <= sum_shares(s),
    decreases s.len() - i,
{
    if i == s.len() {
        assert(s.subrange(0, i) =~= s);
    } else {
        lemma_prefix_sum(s, i + 1);
        assert(s.subrange(0, i + 1).drop_last() =~= s.subrange(0, i));
    }
}

/// `balance * shares / total` stays within `balance` while `shares <= total`.
proof fn lemma_entitlement_within_balance(balance: int, shares: int, total: int)
    requires
        0 <= balance,
        0 <= shares <= total,
    ensures
        0 <= entitlement(balance, shares, total) <= balance,
{
    if total > 0 {
        lemma_mul_inequality(shares, total, balance);
        assert(balance * shares == shares * balance) by (nonlinear_arith);
        assert(balance * total == total * balance) by (nonlinear_arith);
        assert(0 <= balance * shares) by (nonlinear_arith)
            requires
                0 <= balance,
                0 <= shares,
        ;
        lemma_div_is_ordered(balance * shares, balance * total, total);
        lemma_div_by_multiple(balance, total);
        lemma_div_is_ordered(0, balance * shares, total);
    }
}

proof fn lemma_sum_entitlements_scaled(s: Seq<Provision>, balance: int, total: int)
    requires
        0 <= balance,
        0 < total,
    ensures
        total * sum_entitlements(s, balance, total) <= balance * sum_shares(s),
    decreases s.len(),
{
    if s.len() > 0 {
        let d = s.drop_last();
        let x = s.last().shares as int;
        lemma_sum_entitlements_scaled(d, balance, total);
        let e = (balance * x) / total;
        lemma_fundamental_div_mod(balance * x, total);
        assert(total * e <= balance * x) by (nonlinear_arith)
            requires
                balance * x == total * e + (balance * x) % total,
                0 <= (balance * x) % total,
        ;
        assert(total * sum_entitlements(s, balance, total) == total * sum_entitlements(
            d,
            balance,
            total,
        ) + total * e) by (nonlinear_arith)
            requires
                sum_entitlements(s, balance, total) == sum_entitlements(d, balance, total) + e,
        ;
        assert(balance * sum_shares(s) == balance * sum_shares(d) + balance * x) by (
        nonlinear_arith)
            requires
                sum_shares(s) == sum_shares(d) + x,
        ;
    }
}

proof fn lemma_sum_entitlements_zero_total(s: Seq<Provision>, balance: int)
    ensures
        sum_entitlements(s, balance, 0) == 0,
    decreases s.len(),
{
    if s.len() > 0 {
        lemma_sum_entitlements_zero_total(s.drop_last(), balance);
    }
}

/// Floor rounding never over-allocates: whatever the shares and the balance,
/// the entitlements of all providers together are at most the pool's balance.
pub proof fn lemma_entitlements_within_balance(ledger: &ShareLedger, balance: nat)
    requires
        ledger.wf(),
    ensures
        sum_entitlements(ledger.entries@, balance as int, ledger.total as int) <= balance,
{
    let s = ledger.entries@;
    let t = ledger.total as int;
    if t == 0 {
        lemma_sum_entitlements_zero_total(s, balance as int);
    } else {
        lemma_sum_entitlements_scaled(s, balance as int, t);
        let e = sum_entitlements(s, balance as int, t);
        assert(e <= balance) by (nonlinear_arith)
            requires
                t * e <= balance * t,
                0 < t,
        ;
    }
}

/// The outcome of a deposit of `deposited` by `provider` into a pool that held
/// `pre_balance` just before it: the minted count, or `Overflow` with the
/// ledger unchanged when the new total would leave 128 bits.
pub open spec fn provide_spec(
    pre: ShareLedger,
    post: ShareLedger,
    provider: Seq<char>,
    deposited: int,
    pre_balance: int,
    r: Result<u128, ContractError>,
) -> bool {
    let minted = shares_to_mint(pre.total as int, deposited, pre_balance);
    if pre.total + minted <= u128::MAX {
        &&& r == Ok::<u128, ContractError>(minted as u128)
        &&& post.total == pre.total + minted
        &&& post@ == pre@.insert(provider, (pre.shares_of(provider) + minted) as u128)
    } else {
        &&& r == Err::<u128, ContractError>(ContractError::Overflow {})
        &&& post == pre
    }
}

/// The outcome of a withdrawal by `provider` at `balance`: what its shares
/// redeemed for, with its entry zeroed; or `NoProvisions` with the ledger
/// unchanged when it holds no shares.
pub open spec fn withdraw_spec(
    pre: ShareLedger,
    post: ShareLedger,
    provider: Seq<char>,
    balance: int,
    r: Result<u128, ContractError>,
) -> bool {
    let shares = pre.shares_of(provider);
    if shares == 0 {
        &&& r == Err::<u128, ContractError>(ContractError::NoProvisions {})
        &&& post == pre
    } else {
        &&& r == Ok::<u128, ContractError>(entitlement(balance, shares as int, pre.total as int) as u128)
        &&& post.total == pre.total - shares
        &&& post@ == pre@.insert(provider, 0)
    }
}

/// Depositing and withdrawing straight away cannot drain the pool: once it
/// has issued shares and holds funds, the shares minted for a deposit redeem,
/// at the balance right after that deposit, for at most what was deposited.
pub proof fn lemma_deposit_redeems_for_at_most_itself(total: nat, deposit: nat, pre_balance: nat)
    requires
        total > 0,
        pre_balance > 0,
    ensures
        ({
            let minted = shares_to_mint(total as int, deposit as int, pre_balance as int);
            entitlement((pre_balance + deposit) as int, minted, total + minted) <= deposit
        }),
{
    let t = total as int;
    let d = deposit as int;
    let b = pre_balance as int;
    let m = (t * d) / b;
    assert(0 <= t * d) by (nonlinear_arith)
        requires
            0 <= t,
            0 <= d,
    ;
    lemma_div_is_ordered(0, t * d, b);
    lemma_fundamental_div_mod(t * d, b);
    assert((b + d) * m <= d * (t + m)) by (nonlinear_arith)
        requires
            t * d == b * m + (t * d) % b,
            0 <= (t * d) % b,
            0 <= m,
            0 <= d,
    ;
    assert(0 <= (b + d) * m) by (nonlinear_arith)
        requires
            0 <= b + d,
            0 <= m,
    ;
    lemma_div_is_ordered((b + d) * m, d * (t + m), t + m);
    assert(d * (t + m) == (t + m) * d) by (nonlinear_arith);
    lemma_div_by_multiple(d, t + m);
}

impl ShareLedger {
    /// Entries are unique per provider and their shares add up to the total.
    pub open spec fn wf(&self) -> bool {
        &&& providers_unique(self.entries@)
        &&& sum_shares(self.entries@) == self.total
    }

    /// The ledger as a map from provider to shares.
    pub open spec fn view(&self) -> Map<Seq<char>, u128> {
        share_map(self.entries@)
    }

    /// The shares of `p`; zero when `p` has no entry.
    pub open spec fn shares_of(&self, p: Seq<char>) -> u128 {
        if self@.contains_key(p) {
            self@[p]
        } else {
            0
        }
    }

    /// Whether the ledger is well formed: one entry per provider, and shares
    /// that add up to the total. For a ledger read back from storage.
    pub fn is_consistent(&self) -> (r: bool)
        ensures
            r == self.wf(),
    {
        let n = self.entries.len();
        let mut sum: u128 = 0;
        let mut i: usize = 0;
        while i < n
            invariant
                n == self.entries.len(),
                i <= n,
                sum == sum_shares(self.entries@.subrange(0, i as int)),
                providers_unique(self.entries@.subrange(0, i as int)),
            decreases n - i,
        {
            let mut j: usize = 0;
            while j < i
                invariant
                    i < n,
                    n == self.entries.len(),
                    j <= i,
                    forall|k: int| 0 <= k < j ==> self.entries@[k].provider@ != self.entries@[i as int].provider@,
                decreases i - j,
            {
                if self.entries[j].provider == self.entries[i].provider {
                    assert(!providers_unique(self.entries@)) by {
                        assert(self.entries@[j as int].provider@ == self.entries@[i as int].provider@);
                    }
                    return false;
                }
                j += 1;
            }
            let ghost prefix = self.entries@.subrange(0, i as int + 1);
            proof {
                assert(prefix.drop_last() =~= self.entries@.subrange(0, i as int));
                assert(providers_unique(prefix)) by {
                    assert forall|a: int, b: int| 0 <= a < b < prefix.len() implies prefix[a].provider@
                        != prefix[b].provider@ by {
                        if b < i {
                            assert(prefix[a] == self.entries@.subrange(0, i as int)[a]);
                            assert(prefix[b] == self.entries@.subrange(0, i as int)[b]);
                        }
                    }
                }
            }
            match sum.checked_add(self.entries[i].shares) {
                Some(s) => {
                    sum = s;
                },
                None => {
                    proof {
                        lemma_prefix_sum(self.entries@, i as int + 1);
                    }
                    return false;
                },
            }
            i += 1;
        }
        proof {
            assert(self.entries@.subrange(0, n as int) =~= self.entries@);
        }
        sum == self.total
    }

    /// An empty ledger.
    pub fn new() -> (r: Self)
        ensures
            r.wf(),
            r@ == Map::<Seq<char>, u128>::empty(),
            r.total == 0,
    {
        ShareLedger { entries: Vec::new(), total: 0 }
    }

    proof fn lemma_shares_within_total(&self, p: Seq<char>)
        requires
            self.wf(),
        ensures
            self.shares_of(p) <= self.total,
    {
        lemma_share_map_domain(self.entries@, p);
        if self@.contains_key(p) {
            let i = choose|i: int| 0 <= i < self.entries@.len() && self.entries@[i].provider@ == p;
            lemma_share_map_at(self.entries@, i);
            lemma_shares_within_sum(self.entries@, i);
        }
    }

    /// Position of the entry of `p`, if it has one.
    fn find(&self, p: &String) -> (r: Option<usize>)
        requires
            self.wf(),
        ensures
            match r {
                Some(i) => {
                    &&& i < self.entries.len()
                    &&& self.entries@[i as int].provider@ == p@
                    &&& self@.contains_key(p@)
                    &&& self@[p@] == self.entries@[i as int].shares
                },
                None => !self@.contains_key(p@),
            },
    {
        let mut i: usize = 0;
        while i < self.entries.len()
            invariant
                self.wf(),
                i <= self.entries.len(),
                forall|j: int| 0 <= j < i ==> self.entries@[j].provider@ != p@,
            decreases self.entries.len() - i,
        {
            if self.entries[i].provider == *p {
                proof {
                    lemma_share_map_at(self.entries@, i as int);
                }
                return Some(i);
            }
            i += 1;
        }
        proof {
            lemma_share_map_domain(self.entries@, p@);
        }
        None
    }

    /// The shares of `p`, zero when it never deposited.
    pub fn provided(&self, p: &String) -> (r: u128)
        requires
            self.wf(),
        ensures
            r == self.shares_of(p@),
    {
        match self.find(p) {
            Some(i) => self.entries[i].shares,
            None => 0,
        }
    }

    /// The aggregate share total.
    pub fn total_provided(&self) -> (r: u128)
        ensures
            r == self.total,
    {
        self.total
    }

    /// What the shares of `p` redeem for when the pool holds `balance`.
    pub fn entitled(&self, p: &String, balance: u128) -> (r: u128)
        requires
            self.wf(),
        ensures
            r == entitlement(balance as int, self.shares_of(p@) as int, self.total as int),
    {
        let shares = self.provided(p);
        proof {
            self.lemma_shares_within_total(p@);
            lemma_entitlement_within_balance(balance as int, shares as int, self.total as int);
        }
        if self.total == 0 {
            return 0;
        }
        match checked_multiply_ratio(balance, shares, self.total) {
            Some(v) => v,
            None => 0,
        }
    }

    /// Mints shares for a deposit of `deposited` made by `provider` into a pool
    /// that held `pre_balance` just before the deposit was credited, and returns
    /// how many. Fails with `Overflow`, leaving the ledger as it was, when the
    /// count or the new total leaves 128 bits.
    pub fn provide(&mut self, provider: String, deposited: u128, pre_balance: u128) -> (r: Result<
        u128,
        ContractError,
    >)
        requires
            old(self).wf(),
        ensures
            final(self).wf(),
            provide_spec(*old(self), *final(self), provider@, deposited as int, pre_balance as int, r),
    {
        let ghost minted = shares_to_mint(self.total as int, deposited as int, pre_balance as int);
        let amount: u128 = if self.total == 0 || pre_balance == 0 {
            deposited
        } else {
            match checked_multiply_ratio(self.total, deposited, pre_balance) {
                Some(v) => v,
                None => {
                    return Err(ContractError::Overflow {});
                },
            }
        };
        let new_total = match self.total.checked_add(amount) {
            Some(t) => t,
            None => {
                return Err(ContractError::Overflow {});
            },
        };
        proof {
            self.lemma_shares_within_total(provider@);
        }
        match self.find(&provider) {
            Some(i) => {
                let held = self.entries[i].shares;
                let entry = Provision { provider, shares: held + amount };
                proof {
                    lemma_update(self.entries@, i as int, entry);
                }
                self.entries.set(i, entry);
            },
            None => {
                let entry = Provision { provider, shares: amount };
                proof {
                    lemma_push(self.entries@, entry);
                }
                self.entries.push(entry);
            },
        }
        self.total = new_total;
        Ok(amount)
    }

    /// Burns every share of `provider` and returns what they redeemed for at
    /// `balance`. The entry is set to zero, not removed. Fails with
    /// `NoProvisions`, leaving the ledger as it was, when `provider` holds no
    /// shares.
    pub fn withdraw(&mut self, provider: &String, balance: u128) -> (r: Result<u128, ContractError>)
        requires
            old(self).wf(),
        ensures
            final(self).wf(),
            withdraw_spec(*old(self), *final(self), provider@, balance as int, r),
    {
        let i = match self.find(provider) {
            Some(i) => i,
            None => {
                return Err(ContractError::NoProvisions {});
            },
        };
        let shares = self.entries[i].shares;
        if shares == 0 {
            return Err(ContractError::NoProvisions {});
        }
        let entitled = self.entitled(provider, balance);
        proof {
            lemma_shares_within_sum(self.entries@, i as int);
        }
        let entry = Provision { provider: provider.clone(), shares: 0 };
        proof {
            lemma_update(self.entries@, i as int, entry);
        }
        self.entries.set(i, entry);
        self.total = self.total - shares;
        Ok(entitled)
    }
}

} // verus!
