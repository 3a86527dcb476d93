use crate::contract::{lemma_index_of, Contract};
use crate::error::ContractError;
use crate::sale::{rewarded_ids, AffiliateReward, Sale};
use vstd::prelude::*;

verus! {

/// A payout that the host must make: `amount` of `token_id` to
/// `receiver_id`, then report the result to
/// `after_withdraw_affiliate_reward`.
pub struct RewardTransfer {
    pub token_id: String,
    pub receiver_id: String,
    pub amount: u128,
    pub sale_id: u64,
}

impl Sale {
    /// `next` is this sale with `who`'s reward and pending part set to the
    /// given values, and nothing else changed.
    pub open spec fn reward_set(&self, next: &Sale, who: Seq<char>, amount: nat, pending: nat) -> bool {
        &&& next.wf()
        &&& next.same_terms(self)
        &&& next.collected_amount == self.collected_amount
        &&& next.num_account_sales == self.num_account_sales
        &&& next.account_sales == self.account_sales
        &&& next.reward_of(who) == amount
        &&& next.pending_of(who) == pending
        &&& forall|x: Seq<char>|
            x != who ==> #[trigger] next.reward_of(x) == self.reward_of(x) && next.pending_of(x)
                == self.pending_of(x)
    }

    /// The position of `who`'s reward record, if it has one.
    pub fn find_reward(&self, who: &String) -> (r: Option<usize>)
        requires
            self.wf(),
        ensures
            match r {
                Some(k) => k < self.affiliate_rewards@.len() && self.affiliate_rewards@[k as int].account_id@
                    == who@ && self.reward_of(who@) == self.affiliate_rewards@[k as int].amount
                    && self.pending_of(who@) == self.affiliate_rewards@[k as int].pending,
                None => self.reward_of(who@) == 0 && self.pending_of(who@) == 0,
            },
    {
        let mut i: usize = 0;
        while i < self.affiliate_rewards.len()
            invariant
                self.wf(),
                i <= self.affiliate_rewards@.len(),
                forall|j: int| 0 <= j < i ==> self.affiliate_rewards@[j].account_id@ != who@,
            decreases self.affiliate_rewards@.len() - i,
        {
            if self.affiliate_rewards[i].account_id == *who {
                proof {
                    lemma_index_of(rewarded_ids(self.affiliate_rewards@), i as int);
                }
                return Some(i);
            }
            i = i + 1;
        }
        assert(!rewarded_ids(self.affiliate_rewards@).contains(who@)) by {
            let ids = rewarded_ids(self.affiliate_rewards@);
            if ids.contains(who@) {
                let k = choose|k: int| 0 <= k < ids.len() && ids[k] == who@;
                assert(self.affiliate_rewards@[k].account_id@ == who@);
            }
        }
        None
    }

    /// What `who` has earned in this sale.
    pub fn get_reward(&self, who: &String) -> (r: u128)
        requires
            self.wf(),
        ensures
            r as nat == self.reward_of(who@),
    {
        match self.find_reward(who) {
            Some(k) => self.affiliate_rewards[k].amount,
            None => 0,
        }
    }

    /// What `who` has put into this sale.
    pub fn get_contribution(&self, who: &String) -> (r: u128)
        requires
            self.wf(),
        ensures
            r as nat == self.contribution(who@),
    {
        match self.find_account_sale(who) {
            Some(k) => {
                proof {
                    lemma_index_of(crate::sale::contributor_ids(self.account_sales@), k as int);
                }
                self.account_sales[k].amount
            },
            None => 0,
        }
    }

    /// Sets the reward record at `k`.
    fn set_reward(&mut self, k: usize, amount: u128, pending: u128)
        requires
            old(self).wf(),
            k < old(self).affiliate_rewards@.len(),
            pending <= amount,
        ensures
            old(self).reward_set(
                &*final(self),
                old(self).affiliate_rewards@[k as int].account_id@,
                amount as nat,
                pending as nat,
            ),
    {
        let ghost s0 = *self;
        let ghost ids0 = rewarded_ids(s0.affiliate_rewards@);
        let ghost who = s0.affiliate_rewards@[k as int].account_id@;
        let id = self.affiliate_rewards[k].account_id.clone();
        self.affiliate_rewards.set(k, AffiliateReward { account_id: id, amount, pending });
        assert(rewarded_ids(self.affiliate_rewards@) =~= ids0);
        proof {
            lemma_index_of(ids0, k as int);
        }
        assert forall|j: int| 0 <= j < self.affiliate_rewards@.len() implies (#[trigger] self.affiliate_rewards@[j]).pending
            <= self.affiliate_rewards@[j].amount by {
            if j != k {
                assert(self.affiliate_rewards@[j] == s0.affiliate_rewards@[j]);
            }
        }
        assert forall|x: Seq<char>| x != who implies #[trigger] self.reward_of(x) == s0.reward_of(x)
            && self.pending_of(x) == s0.pending_of(x) by {
            if ids0.contains(x) {
                let j = choose|j: int| 0 <= j < ids0.len() && ids0[j] == x;
                lemma_index_of(ids0, j);
            }
        }
    }
}

impl Contract {
    /// `next` is this state with the sale at `sale_id` replaced by `sale`.
    pub open spec fn sale_replaced(&self, next: Contract, sale_id: u64, sale: Sale) -> bool {
        &&& next.owner_id == self.owner_id
        &&& next.join_fee == self.join_fee
        &&& next.referral_fees == self.referral_fees
        &&& next.account_ids == self.account_ids
        &&& next.accounts == self.accounts
        &&& next.accounts_old == self.accounts_old
        &&& next.sales@ == self.sales@.update(sale_id as int, sale)
    }

    /// Starts the payout of what `account_id` has earned in a sale: all of
    /// it is marked as pending, so that no second payout starts before this
    /// one is settled.
    pub fn withdraw_affiliate_reward(&mut self, account_id: &String, sale_id: u64) -> (r: Result<
        RewardTransfer,
        ContractError,
    >)
        requires
            old(self).wf(),
        ensures
            final(self).wf(),
            sale_id >= old(self).sales@.len() ==> r == Err::<RewardTransfer, ContractError>(
                ContractError::NoSale,
            ) && *final(self) == *old(self),
            sale_id < old(self).sales@.len() ==> {
                let sale = old(self).sales@[sale_id as int];
                if sale.pending_of(account_id@) > 0 {
                    r == Err::<RewardTransfer, ContractError>(ContractError::RewardTransferPending)
                        && *final(self) == *old(self)
                } else if sale.reward_of(account_id@) == 0 {
                    r == Err::<RewardTransfer, ContractError>(ContractError::NoAffiliateReward)
                        && *final(self) == *old(self)
                } else {
                    &&& r matches Ok(t) && t.amount == sale.reward_of(account_id@) && t.receiver_id@
                        == account_id@ && t.token_id@ == sale.deposit_token_id@ && t.sale_id == sale_id
                    &&& old(self).sale_replaced(*final(self), sale_id, final(self).sales@[sale_id as int])
                    &&& sale.reward_set(
                        &final(self).sales@[sale_id as int],
                        account_id@,
                        sale.reward_of(account_id@),
                        sale.reward_of(account_id@),
                    )
                }
            },
    {
        if sale_id >= self.sales.len() as u64 {
            return Err(ContractError::NoSale);
        }
        let index = sale_id as usize;
        let k = match self.sales[index].find_reward(account_id) {
            Some(k) => k,
            None => {
                return Err(ContractError::NoAffiliateReward);
            },
        };
        let amount = self.sales[index].affiliate_rewards[k].amount;
        if self.sales[index].affiliate_rewards[k].pending > 0 {
            return Err(ContractError::RewardTransferPending);
        }
        if amount == 0 {
            return Err(ContractError::NoAffiliateReward);
        }
        let ghost s0 = *self;
        let mut sale = self.sales.remove(index);
        sale.set_reward(k, amount, amount);
        let token_id = sale.deposit_token_id.clone();
        self.sales.insert(index, sale);
        assert(self.sales@ =~= s0.sales@.update(index as int, self.sales@[index as int]));
        assert forall|j: int| 0 <= j < self.sales@.len() implies (#[trigger] self.sales@[j]).wf() by {
            if j != index {
                assert(self.sales@[j] == s0.sales@[j]);
            }
        }
        proof {
            crate::contract::lemma_wf_sales_changed(s0, *self);
        }
        Ok(RewardTransfer { token_id, receiver_id: account_id.clone(), amount, sale_id })
    }

    /// Settles a payout started by `withdraw_affiliate_reward`: where the
    /// transfer went through, the amount is taken off the reward; where it
    /// failed, the reward can be withdrawn again. A report that matches no
    /// pending payout changes nothing. Returns whether the payout went
    /// through.
    pub fn after_withdraw_affiliate_reward(
        &mut self,
        account_id: &String,
        amount: u128,
        sale_id: u64,
        transfer_succeeded: bool,
    ) -> (r: bool)
        requires
            old(self).wf(),
        ensures
            final(self).wf(),
            ({
                let matched = sale_id < old(self).sales@.len() && amount > 0 && old(
                    self,
                ).sales@[sale_id as int].pending_of(account_id@) == amount;
                let sale = old(self).sales@[sale_id as int];
                &&& !matched ==> !r && *final(self) == *old(self)
                &&& matched ==> {
                    &&& r == transfer_succeeded
                    &&& old(self).sale_replaced(*final(self), sale_id, final(self).sales@[sale_id as int])
                    &&& sale.reward_set(
                        &final(self).sales@[sale_id as int],
                        account_id@,
                        if transfer_succeeded {
                            (sale.reward_of(account_id@) - amount) as nat
                        } else {
                            sale.reward_of(account_id@)
                        },
                        0,
                    )
                }
            }),
    {
        if sale_id >= self.sales.len() as u64 || amount == 0 {
            return false;
        }
        let index = sale_id as usize;
        let k = match self.sales[index].find_reward(account_id) {
            Some(k) => k,
            None => {
                return false;
            },
        };
        let reward = self.sales[index].affiliate_rewards[k].amount;
        if self.sales[index].affiliate_rewards[k].pending != amount {
            return false;
        }
        assert(self.sales@[index as int].wf());
        assert(self.sales@[index as int].affiliate_rewards@[k as int].pending <= reward);
        let ghost s0 = *self;
        let mut sale = self.sales.remove(index);
        if transfer_succeeded {
            sale.set_reward(k, reward - amount, 0);
        } else {
            sale.set_reward(k, reward, 0);
        }
        self.sales.insert(index, sale);
        assert(self.sales@ =~= s0.sales@.update(index as int, self.sales@[index as int]));
        assert forall|j: int| 0 <= j < self.sales@.len() implies (#[trigger] self.sales@[j]).wf() by {
            if j != index {
                assert(self.sales@[j] == s0.sales@[j]);
            }
        }
        proof {
            crate::contract::lemma_wf_sales_changed(s0, *self);
        }
        transfer_succeeded
    }
}

} // verus!
