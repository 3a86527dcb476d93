use crate::account::ids_view;
use crate::contract::{Contract, REFERRAL_FEE_DENOMINATOR};
use crate::error::ContractError;
use crate::sale::{saturated128, Sale, SaleType};
use vstd::prelude::*;

verus! {

/// The message that comes with a token transfer: the sale to deposit into,
/// and the staking pool where the sender has staked, for sales that ask
/// for a stake.
pub struct SaleDeposit {
    pub sale_id: u64,
    pub staking_contract: Option<String>,
}

/// A deposit waiting for a staking pool's answer: what is needed to finish
/// it once the sender's staked balance is known.
pub struct StakeCheck {
    /// The pool to ask for the sender's staked balance.
    pub staking_contract: String,
    pub sale_id: u64,
    pub token_id: String,
    pub sender_id: String,
    pub deposit_amount: u128,
}

/// What a transfer notification leads to.
pub enum DepositOutcome {
    /// Settled; the value is the part of the amount that was not used and
    /// goes back to the sender.
    Value(u128),
    /// The staking pool must be asked first; its answer goes to
    /// `on_get_account_staked_balance` together with this continuation.
    CheckStake(StakeCheck),
}

/// The part of `amount` that a fee of `fee` ten-thousandths is, rounded down.
pub open spec fn fee_share(amount: u128, fee: u64) -> nat {
    ((amount as nat) * (fee as nat)) / (REFERRAL_FEE_DENOMINATOR as nat)
}

/// What the first `k` of `shares` credit to `x`.
pub open spec fn shares_for(shares: Seq<(String, u128)>, x: Seq<char>, k: int) -> nat
    decreases k,
{
    if k <= 0 {
        0
    } else {
        shares_for(shares, x, k - 1) + if shares[k - 1].0@ == x {
            shares[k - 1].1 as nat
        } else {
            0
        }
    }
}

/// `amount * fee / 10000`, rounded down, for a fee of at most the whole.
pub fn compute_fee_share(amount: u128, fee: u64) -> (r: u128)
    requires
        fee <= REFERRAL_FEE_DENOMINATOR,
    ensures
        r as nat == fee_share(amount, fee),
{
    let q = amount / 10000;
    let rem = amount % 10000;
    let f = fee as u128;
    assert(q * f <= q * 10000) by (nonlinear_arith)
        requires f <= 10000;
    assert(rem * f < 100_000_000) by (nonlinear_arith)
        requires rem < 10000, f <= 10000;
    assert(q * 10000 <= amount);
    assert((rem * f) / 10000 <= rem) by (nonlinear_arith)
        requires f <= 10000, rem < 10000;
    assert(amount == q * 10000 + rem);
    let r = q * f + rem * f / 10000;
    proof {
        let x: int = (rem * f) as int;
        let j: int = (q * f) as int;
        vstd::arithmetic::div_mod::lemma_hoist_over_denominator(x, j, 10000);
        assert((amount as int) * (f as int) == x + j * 10000) by (nonlinear_arith)
            requires
                amount == q * 10000 + rem,
                x == rem * f,
                j == q * f;
    }
    r
}

impl Contract {
    /// The referral fee of a level; a level without a fee pays none.
    pub open spec fn fee_at(&self, level: int) -> u64 {
        if 0 <= level < self.referral_fees@.len() {
            self.referral_fees@[level]
        } else {
            0
        }
    }

    /// The account `level + 1` steps up the referrer chain from `who`, unless
    /// the chain reaches the owner first.
    pub open spec fn ancestor(&self, who: Seq<char>, level: nat) -> Option<Seq<char>>
        decreases level,
    {
        let below = if level == 0 {
            if self.has(who) {
                Some(who)
            } else {
                None
            }
        } else {
            self.ancestor(who, (level - 1) as nat)
        };
        match below {
            Some(x) => if self.referrer_of(x) != self.owner_id@ {
                Some(self.referrer_of(x))
            } else {
                None
            },
            None => None,
        }
    }

    /// The referral reward that a deposit of `amount` by `sender` earns `x`:
    /// the level's fee for each of the three levels on which `x` stands
    /// above `sender`.
    pub open spec fn reward_due(&self, sender: Seq<char>, x: Seq<char>, amount: u128) -> nat {
        (if self.ancestor(sender, 0) == Some(x) {
            fee_share(amount, self.fee_at(0))
        } else {
            0
        }) + (if self.ancestor(sender, 1) == Some(x) {
            fee_share(amount, self.fee_at(1))
        } else {
            0
        }) + (if self.ancestor(sender, 2) == Some(x) {
            fee_share(amount, self.fee_at(2))
        } else {
            0
        })
    }

    /// The fee of a level.
    fn level_fee(&self, level: usize) -> (r: u64)
        ensures
            r == self.fee_at(level as int),
    {
        if level < self.referral_fees.len() {
            self.referral_fees[level]
        } else {
            0
        }
    }

    /// The accounts above `sender_id` that a deposit of `amount` rewards,
    /// nearest first, each with its share.
    pub fn referral_shares(&self, sender_id: &String, amount: u128) -> (r: Vec<(String, u128)>)
        requires
            self.wf(),
        ensures
            r@.len() <= 3,
            forall|l: int|
                0 <= l < r@.len() ==> self.ancestor(sender_id@, l as nat) == Some((#[trigger] r@[l]).0@)
                    && r@[l].1 as nat == fee_share(amount, self.fee_at(l)),
            r@.len() < 3 ==> self.ancestor(sender_id@, r@.len()) is None,
    {
        let mut shares: Vec<(String, u128)> = Vec::new();
        let mut current: String = sender_id.clone();
        let mut level: usize = 0;
        while level < 3
            invariant
                self.wf(),
                level <= 3,
                shares@.len() == level,
                level == 0 ==> current@ == sender_id@,
                level > 0 ==> self.ancestor(sender_id@, (level - 1) as nat) == Some(current@),
                level > 0 ==> self.has(current@),
                forall|l: int|
                    0 <= l < shares@.len() ==> self.ancestor(sender_id@, l as nat) == Some((#[trigger] shares@[l]).0@)
                        && shares@[l].1 as nat == fee_share(amount, self.fee_at(l)),
            decreases 3 - level,
        {
            let index = match self.find_account(&current) {
                Some(i) => i,
                None => {
                    assert(self.ancestor(sender_id@, 0) is None);
                    return shares;
                },
            };
            proof {
                crate::contract::lemma_index_of(self.ids(), index as int);
            }
            let referrer = self.accounts[index].account().referrer.clone();
            assert(referrer@ == self.referrer_of(current@));
            if referrer == self.owner_id {
                return shares;
            }
            let fee = self.level_fee(level);
            assert(fee <= REFERRAL_FEE_DENOMINATOR) by {
                if (level as int) < self.referral_fees@.len() {
                    assert(self.referral_fees@[level as int] <= REFERRAL_FEE_DENOMINATOR);
                }
            }
            let share = compute_fee_share(amount, fee);
            assert(self.has(referrer@)) by {
                assert(self.has(self.referrer_at(index as int)));
            }
            shares.push((referrer.clone(), share));
            current = referrer;
            level = level + 1;
        }
        shares
    }

    /// Why a deposit is refused before anything else is done, if it is.
    pub open spec fn deposit_error(
        &self,
        token_id: Seq<char>,
        sender_id: Seq<char>,
        sale_deposit: SaleDeposit,
        now: u64,
    ) -> Option<ContractError> {
        if !self.has(sender_id) {
            Some(ContractError::NotRegisteredAccount)
        } else if sale_deposit.sale_id >= self.sales@.len() {
            Some(ContractError::NoSale)
        } else {
            let sale = self.sales@[sale_deposit.sale_id as int];
            if sale.deposit_token_id@ != token_id {
                Some(ContractError::WrongToken)
            } else if sale.is_filled() {
                Some(ContractError::SaleDone)
            } else if now < sale.start_date {
                Some(ContractError::SaleNotStarted)
            } else if now > sale.end_date {
                Some(ContractError::SaleDone)
            } else if sale.staking_contracts@.len() > 0 {
                match sale_deposit.staking_contract {
                    None => Some(ContractError::MustHaveStakingContract),
                    Some(c) => if ids_view(sale.staking_contracts@).contains(c@) {
                        None
                    } else {
                        Some(ContractError::NotWhitelistedStakingContract)
                    },
                }
            } else {
                None
            }
        }
    }

    /// Why a deposit cannot be committed, if it cannot.
    pub open spec fn commit_refusal(
        &self,
        sale_id: u64,
        token_id: Seq<char>,
        sender_id: Seq<char>,
        amount: u128,
    ) -> Option<ContractError> {
        if sale_id >= self.sales@.len() {
            Some(ContractError::NoSale)
        } else if self.sales@[sale_id as int].deposit_token_id@ != token_id {
            Some(ContractError::WrongToken)
        } else {
            self.sales@[sale_id as int].deposit_refusal(sender_id, amount)
        }
    }

    /// `next` is this state after `amount` from `sender_id` was committed to
    /// the sale `sale_id`; nothing else changed.
    pub open spec fn committed(&self, next: Contract, sale_id: u64, sender_id: Seq<char>, amount: u128) -> bool {
        &&& next.owner_id == self.owner_id
        &&& next.join_fee == self.join_fee
        &&& next.referral_fees == self.referral_fees
        &&& next.account_ids == self.account_ids
        &&& next.accounts == self.accounts
        &&& next.accounts_old == self.accounts_old
        &&& next.sales@.len() == self.sales@.len()
        &&& forall|k: int|
            0 <= k < self.sales@.len() && k != sale_id ==> #[trigger] next.sales@[k]
                == self.sales@[k]
        &&& self.sales@[sale_id as int].deposited(&next.sales@[sale_id as int], sender_id, amount)
        &&& forall|x: Seq<char>|
            #[trigger] next.sales@[sale_id as int].reward_of(x) == saturated128(
                self.sales@[sale_id as int].reward_of(x) + self.reward_due(sender_id, x, amount),
            )
        &&& forall|x: Seq<char>|
            #[trigger] next.sales@[sale_id as int].pending_of(x) == self.sales@[sale_id as int].pending_of(x)
    }

    /// Commits a deposit: adds it to the sale's total and to the sender's
    /// record in the sale. Nothing of the amount is left over.
    pub fn internal_sale_deposit(
        &mut self,
        sale_id: u64,
        token_id: &String,
        sender_id: &String,
        amount: u128,
    ) -> (r: Result<u128, ContractError>)
        requires
            old(self).wf(),
        ensures
            final(self).wf(),
            match old(self).commit_refusal(sale_id, token_id@, sender_id@, amount) {
                Some(e) => r == Err::<u128, ContractError>(e) && *final(self) == *old(self),
                None => r == Ok::<u128, ContractError>(0) && old(self).committed(
                    *final(self),
                    sale_id,
                    sender_id@,
                    amount,
                ),
            },
    {
        if sale_id >= self.sales.len() as u64 {
            return Err(ContractError::NoSale);
        }
        let index = sale_id as usize;
        if self.sales[index].deposit_token_id != *token_id {
            return Err(ContractError::WrongToken);
        }
        match sale_deposit_refusal(&self.sales[index], sender_id, amount) {
            Some(e) => {
                return Err(e);
            },
            None => {},
        }
        let shares = self.referral_shares(sender_id, amount);
        let ghost s0 = *self;
        let mut sale = self.sales.remove(index);
        let ghost sale0 = sale;
        sale.add_deposit(sender_id, amount);
        let ghost sale1 = sale;
        let mut k: usize = 0;
        while k < shares.len()
            invariant
                k <= shares@.len(),
                sale.wf(),
                sale.same_terms(&sale1),
                sale.collected_amount == sale1.collected_amount,
                sale.num_account_sales == sale1.num_account_sales,
                sale.account_sales == sale1.account_sales,
                forall|x: Seq<char>|
                    #[trigger] sale.reward_of(x) == saturated128(sale0.reward_of(x) + shares_for(shares@, x, k as int)),
                forall|x: Seq<char>| #[trigger] sale.pending_of(x) == sale0.pending_of(x),
            decreases shares@.len() - k,
        {
            let ghost before = sale;
            sale.credit_reward(&shares[k].0, shares[k].1);
            assert forall|x: Seq<char>| #[trigger] sale.reward_of(x) == saturated128(
                sale0.reward_of(x) + shares_for(shares@, x, k + 1),
            ) by {
                assert(shares_for(shares@, x, k + 1) == shares_for(shares@, x, k as int) + if shares@[k as int].0@ == x {
                    shares@[k as int].1 as nat
                } else {
                    0
                });
            }
            k = k + 1;
        }
        proof {
            lemma_shares_are_reward_due(s0, shares@, sender_id@, amount);
        }
        assert(sale.account_sales == sale1.account_sales);
        assert forall|x: Seq<char>| #[trigger] sale.has_contributor(x) == sale1.has_contributor(x)
            && sale.contribution(x) == sale1.contribution(x) by {}
        assert(sale.same_terms(&sale0));
        assert(sale0.deposited(&sale, sender_id@, amount));
        self.sales.insert(index, sale);
        assert forall|k: int| 0 <= k < self.sales@.len() implies (#[trigger] self.sales@[k]).wf() by {
            if k != index {
                assert(self.sales@[k] == s0.sales@[k]);
            }
        }
        proof {
            crate::contract::lemma_wf_sales_changed(s0, *self);
        }
        Ok(0)
    }

    /// Takes a token transfer of `amount` from `sender_id`, made in the token
    /// `token_id`, at time `now`. The checks read the state only; where the
    /// sale asks for a stake the deposit waits for the staking pool's answer,
    /// else it is committed at once.
    pub fn internal_ft_on_transfer(
        &mut self,
        token_id: String,
        sender_id: String,
        amount: u128,
        sale_deposit: SaleDeposit,
        now: u64,
    ) -> (r: Result<DepositOutcome, ContractError>)
        requires
            old(self).wf(),
        ensures
            final(self).wf(),
            match old(self).deposit_error(token_id@, sender_id@, sale_deposit, now) {
                Some(e) => r == Err::<DepositOutcome, ContractError>(e) && *final(self) == *old(self),
                None => if old(self).sales@[sale_deposit.sale_id as int].staking_contracts@.len() > 0 {
                    *final(self) == *old(self) && match r {
                        Ok(DepositOutcome::CheckStake(c)) => {
                            &&& Some(c.staking_contract) == sale_deposit.staking_contract
                            &&& c.sale_id == sale_deposit.sale_id
                            &&& c.token_id@ == token_id@
                            &&& c.sender_id@ == sender_id@
                            &&& c.deposit_amount == amount
                        },
                        _ => false,
                    }
                } else {
                    match old(self).commit_refusal(sale_deposit.sale_id, token_id@, sender_id@, amount) {
                        Some(e) => r == Err::<DepositOutcome, ContractError>(e) && *final(self) == *old(self),
                        None => r == Ok::<DepositOutcome, ContractError>(DepositOutcome::Value(0))
                            && old(self).committed(*final(self), sale_deposit.sale_id, sender_id@, amount),
                    }
                },
            },
    {
        if self.find_account(&sender_id).is_none() {
            return Err(ContractError::NotRegisteredAccount);
        }
        if sale_deposit.sale_id >= self.sales.len() as u64 {
            return Err(ContractError::NoSale);
        }
        let index = sale_deposit.sale_id as usize;
        let sale = &self.sales[index];
        if sale.deposit_token_id != token_id {
            return Err(ContractError::WrongToken);
        }
        if sale.sale_type == SaleType::ByAmount && sale.collected_amount >= sale.max_amount {
            return Err(ContractError::SaleDone);
        }
        if now < sale.start_date {
            return Err(ContractError::SaleNotStarted);
        }
        if now > sale.end_date {
            return Err(ContractError::SaleDone);
        }
        if sale.staking_contracts.len() > 0 {
            let staking_contract = match sale_deposit.staking_contract {
                Some(c) => c,
                None => {
                    return Err(ContractError::MustHaveStakingContract);
                },
            };
            if !crate::account::contains_id(&sale.staking_contracts, &staking_contract) {
                return Err(ContractError::NotWhitelistedStakingContract);
            }
            Ok(
                DepositOutcome::CheckStake(
                    StakeCheck {
                        staking_contract,
                        sale_id: sale_deposit.sale_id,
                        token_id,
                        sender_id,
                        deposit_amount: amount,
                    },
                ),
            )
        } else {
            match self.internal_sale_deposit(sale_deposit.sale_id, &token_id, &sender_id, amount) {
                Ok(unused) => Ok(DepositOutcome::Value(unused)),
                Err(e) => Err(e),
            }
        }
    }

    /// Finishes a deposit that waited for a staking pool. `staked_balance` is
    /// the pool's answer, `None` where the call to the pool failed. The
    /// result is the part of the deposit that goes back to the sender: all
    /// of it where the call failed or the stake is below the sale's minimum,
    /// none where the deposit is committed.
    pub fn on_get_account_staked_balance(
        &mut self,
        staked_balance: Option<u128>,
        sale_id: u64,
        token_id: String,
        sender_id: String,
        deposit_amount: u128,
    ) -> (r: Result<u128, ContractError>)
        requires
            old(self).wf(),
        ensures
            final(self).wf(),
            match staked_balance {
                None => r == Ok::<u128, ContractError>(deposit_amount) && *final(self) == *old(self),
                Some(b) => if sale_id >= old(self).sales@.len() {
                    r == Err::<u128, ContractError>(ContractError::NoSale) && *final(self) == *old(self)
                } else if b < old(self).sales@[sale_id as int].min_near_deposit {
                    r == Ok::<u128, ContractError>(deposit_amount) && *final(self) == *old(self)
                } else {
                    match old(self).commit_refusal(sale_id, token_id@, sender_id@, deposit_amount) {
                        Some(e) => r == Err::<u128, ContractError>(e) && *final(self) == *old(self),
                        None => r == Ok::<u128, ContractError>(0) && old(self).committed(
                            *final(self),
                            sale_id,
                            sender_id@,
                            deposit_amount,
                        ),
                    }
                },
            },
    {
        let balance = match staked_balance {
            Some(b) => b,
            None => {
                return Ok(deposit_amount);
            },
        };
        if sale_id >= self.sales.len() as u64 {
            return Err(ContractError::NoSale);
        }
        if balance < self.sales[sale_id as usize].min_near_deposit {
            return Ok(deposit_amount);
        }
        self.internal_sale_deposit(sale_id, &token_id, &sender_id, deposit_amount)
    }
}

/// The shares that `referral_shares` hands out credit each account what
/// `reward_due` says.
proof fn lemma_shares_are_reward_due(c: Contract, shares: Seq<(String, u128)>, sender: Seq<char>, amount: u128)
    requires
        shares.len() <= 3,
        forall|l: int|
            0 <= l < shares.len() ==> c.ancestor(sender, l as nat) == Some((#[trigger] shares[l]).0@)
                && shares[l].1 as nat == fee_share(amount, c.fee_at(l)),
        shares.len() < 3 ==> c.ancestor(sender, shares.len()) is None,
    ensures
        forall|x: Seq<char>| #[trigger] shares_for(shares, x, shares.len() as int) == c.reward_due(sender, x, amount),
{
    assert forall|x: Seq<char>| #[trigger] shares_for(shares, x, shares.len() as int) == c.reward_due(sender, x, amount) by {
        assert(shares_for(shares, x, 0) == 0);
        if shares.len() >= 1 {
            assert(c.ancestor(sender, 0) == Some(shares[0].0@));
            assert(shares_for(shares, x, 1) == shares_for(shares, x, 0) + if shares[0].0@ == x { shares[0].1 as nat } else { 0 });
        } else {
            assert(c.ancestor(sender, 1) is None);
            assert(c.ancestor(sender, 2) is None);
        }
        if shares.len() >= 2 {
            assert(c.ancestor(sender, 1) == Some(shares[1].0@));
            assert(shares_for(shares, x, 2) == shares_for(shares, x, 1) + if shares[1].0@ == x { shares[1].1 as nat } else { 0 });
        } else if shares.len() == 1 {
            assert(c.ancestor(sender, 2) is None);
        }
        if shares.len() >= 3 {
            assert(c.ancestor(sender, 2) == Some(shares[2].0@));
            assert(shares_for(shares, x, 3) == shares_for(shares, x, 2) + if shares[2].0@ == x { shares[2].1 as nat } else { 0 });
        }
    }
}

/// Why `sale` cannot take `amount` from `who`, if it cannot.
fn sale_deposit_refusal(sale: &Sale, who: &String, amount: u128) -> (r: Option<ContractError>)
    requires
        sale.wf(),
    ensures
        r == sale.deposit_refusal(who@, amount),
{
    if sale.sale_type == SaleType::ByAmount {
        if sale.collected_amount > u128::MAX - amount || sale.collected_amount + amount > sale.max_amount {
            return Some(ContractError::SaleDone);
        }
    }
    if sale.collected_amount > u128::MAX - amount {
        return Some(ContractError::AmountOverflow);
    }
    match sale.find_account_sale(who) {
        Some(k) => {
            proof {
                crate::contract::lemma_index_of(crate::sale::contributor_ids(sale.account_sales@), k as int);
            }
            if sale.account_sales[k].amount > u128::MAX - amount {
                return Some(ContractError::AmountOverflow);
            }
        },
        None => {
            if sale.num_account_sales == u64::MAX {
                return Some(ContractError::AmountOverflow);
            }
        },
    }
    None
}

} // verus!
