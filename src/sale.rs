use crate::account::ids_view;
use crate::contract::{Contract, index_of, lemma_index_of, lemma_push_no_dup};
use crate::error::ContractError;
use vstd::prelude::*;

verus! {

/// How a sale's capacity is bounded.
#[derive(Clone, Copy, Debug, PartialEq, Eq, Structural)]
pub enum SaleType {
    /// A hard cap on the total collected amount.
    ByAmount,
    /// No cap on the total.
    BySubscription,
}

/// Descriptive data of a sale, carried as given.
pub struct SaleMetadata {
    pub name: String,
    pub symbol: String,
    pub description: String,
    pub smart_contract_url: String,
    pub logo_url: String,
    pub output_ticker: String,
    pub project_telegram: Option<String>,
    pub project_medium: Option<String>,
    pub project_twitter: Option<String>,
    pub reward_timestamp: Option<u64>,
    pub reward_description: Option<String>,
}

/// The parameters of a new sale. Dates are nanosecond timestamps.
pub struct SaleInput {
    pub metadata: SaleMetadata,
    pub staking_contracts: Vec<String>,
    pub min_near_deposit: u128,
    pub deposit_token_id: String,
    pub distribute_token_id: Option<String>,
    pub distribute_token_decimals: Option<u8>,
    pub min_buy: u128,
    pub max_buy: u128,
    pub max_amount: u128,
    pub start_date: u64,
    pub end_date: u64,
    pub price: u128,
    pub whitelist_hash: Option<String>,
    pub limit_per_transaction: u128,
    pub sale_type: SaleType,
}

/// What one account has put into one sale.
pub struct AccountSale {
    pub account_id: String,
    pub amount: u128,
}

/// What one account has earned in one sale from the deposits of its
/// affiliates.
pub struct AffiliateReward {
    pub account_id: String,
    pub amount: u128,
    /// The part of `amount` that is being paid out and not yet confirmed.
    pub pending: u128,
}

/// A sale and its running totals.
pub struct Sale {
    pub metadata: SaleMetadata,
    pub staking_contracts: Vec<String>,
    pub min_near_deposit: u128,
    pub deposit_token_id: String,
    pub distribute_token_id: Option<String>,
    pub distribute_token_decimals: Option<u8>,
    pub min_buy: u128,
    pub max_buy: u128,
    pub max_amount: u128,
    pub start_date: u64,
    pub end_date: u64,
    pub price: u128,
    pub whitelist_hash: Option<String>,
    pub limit_per_transaction: u128,
    pub sale_type: SaleType,
    pub collected_amount: u128,
    pub num_account_sales: u64,
    pub refund_available: bool,
    pub claim_available: bool,
    pub account_sales: Vec<AccountSale>,
    pub affiliate_rewards: Vec<AffiliateReward>,
}

/// The identities of the accounts that have put something into a sale.
pub open spec fn contributor_ids(v: Seq<AccountSale>) -> Seq<Seq<char>> {
    v.map_values(|a: AccountSale| a.account_id@)
}

/// The identities of the accounts that have earned rewards in a sale.
pub open spec fn rewarded_ids(v: Seq<AffiliateReward>) -> Seq<Seq<char>> {
    v.map_values(|a: AffiliateReward| a.account_id@)
}

/// `n`, or `u128::MAX` where `n` is larger.
pub open spec fn saturated128(n: nat) -> nat {
    if n <= u128::MAX {
        n
    } else {
        u128::MAX as nat
    }
}

impl Sale {
    /// The sale opens before it closes; one record per contributing
    /// account, counted in `num_account_sales`, and one per rewarded account.
    pub open spec fn wf(&self) -> bool {
        &&& self.start_date < self.end_date
        &&& rewarded_ids(self.affiliate_rewards@).no_duplicates()
        &&& forall|k: int|
            0 <= k < self.affiliate_rewards@.len() ==> (#[trigger] self.affiliate_rewards@[k]).pending
                <= self.affiliate_rewards@[k].amount
        &&& contributor_ids(self.account_sales@).no_duplicates()
        &&& self.num_account_sales == self.account_sales@.len()
    }

    pub open spec fn has_contributor(&self, who: Seq<char>) -> bool {
        contributor_ids(self.account_sales@).contains(who)
    }

    /// What `who` has put into this sale.
    pub open spec fn contribution(&self, who: Seq<char>) -> nat {
        if self.has_contributor(who) {
            self.account_sales@[index_of(contributor_ids(self.account_sales@), who)].amount as nat
        } else {
            0
        }
    }

    /// What `who` has earned in this sale.
    pub open spec fn reward_of(&self, who: Seq<char>) -> nat {
        if rewarded_ids(self.affiliate_rewards@).contains(who) {
            self.affiliate_rewards@[index_of(rewarded_ids(self.affiliate_rewards@), who)].amount as nat
        } else {
            0
        }
    }

    /// The part of `who`'s reward that is being paid out.
    pub open spec fn pending_of(&self, who: Seq<char>) -> nat {
        if rewarded_ids(self.affiliate_rewards@).contains(who) {
            self.affiliate_rewards@[index_of(rewarded_ids(self.affiliate_rewards@), who)].pending as nat
        } else {
            0
        }
    }

    /// Whether a ByAmount sale has reached its cap.
    pub open spec fn is_filled(&self) -> bool {
        self.sale_type == SaleType::ByAmount && self.collected_amount >= self.max_amount
    }

    /// The two sales agree on everything but the running totals.
    pub open spec fn same_terms(&self, other: &Sale) -> bool {
        &&& self.metadata == other.metadata
        &&& self.staking_contracts == other.staking_contracts
        &&& self.min_near_deposit == other.min_near_deposit
        &&& self.deposit_token_id == other.deposit_token_id
        &&& self.distribute_token_id == other.distribute_token_id
        &&& self.distribute_token_decimals == other.distribute_token_decimals
        &&& self.min_buy == other.min_buy
        &&& self.max_buy == other.max_buy
        &&& self.max_amount == other.max_amount
        &&& self.start_date == other.start_date
        &&& self.end_date == other.end_date
        &&& self.price == other.price
        &&& self.whitelist_hash == other.whitelist_hash
        &&& self.limit_per_transaction == other.limit_per_transaction
        &&& self.sale_type == other.sale_type
        &&& self.refund_available == other.refund_available
        &&& self.claim_available == other.claim_available
    }

    /// Whether a deposit of `amount` can be taken: it keeps a ByAmount sale
    /// within its cap, and every total within its integer type.
    pub open spec fn accepts(&self, who: Seq<char>, amount: u128) -> bool {
        &&& self.collected_amount + amount <= u128::MAX
        &&& (self.sale_type == SaleType::ByAmount ==> self.collected_amount + amount
            <= self.max_amount)
        &&& self.contribution(who) + amount <= u128::MAX
        &&& (!self.has_contributor(who) ==> self.num_account_sales < u64::MAX)
    }

    /// `next` is this sale after `who` put `amount` into it.
    pub open spec fn deposited(&self, next: &Sale, who: Seq<char>, amount: u128) -> bool {
        &&& next.same_terms(self)
        &&& next.wf()
        &&& next.collected_amount == self.collected_amount + amount
        &&& next.num_account_sales == self.num_account_sales + if self.has_contributor(who) {
            0int
        } else {
            1int
        }
        &&& next.has_contributor(who)
        &&& next.contribution(who) == self.contribution(who) + amount
        &&& forall|x: Seq<char>|
            x != who ==> #[trigger] next.has_contributor(x) == self.has_contributor(x)
                && next.contribution(x) == self.contribution(x)
    }

    /// The position of `who`'s record, if it has one.
    pub fn find_account_sale(&self, who: &String) -> (r: Option<usize>)
        ensures
            match r {
                Some(k) => k < self.account_sales@.len() && self.account_sales@[k as int].account_id@
                    == who@,
                None => !self.has_contributor(who@),
            },
    {
        let mut i: usize = 0;
        while i < self.account_sales.len()
            invariant
                i <= self.account_sales@.len(),
                forall|j: int| 0 <= j < i ==> self.account_sales@[j].account_id@ != who@,
            decreases self.account_sales@.len() - i,
        {
            if self.account_sales[i].account_id == *who {
                return Some(i);
            }
            i = i + 1;
        }
        assert(!self.has_contributor(who@)) by {
            if self.has_contributor(who@) {
                let k = choose|k: int|
                    0 <= k < contributor_ids(self.account_sales@).len() && contributor_ids(
                        self.account_sales@,
                    )[k] == who@;
                assert(self.account_sales@[k].account_id@ == who@);
            }
        }
        None
    }

    /// Adds `amount` to what `who` has earned, saturating at `u128::MAX`.
    pub fn credit_reward(&mut self, who: &String, amount: u128)
        requires
            old(self).wf(),
        ensures
            final(self).wf(),
            final(self).same_terms(&*old(self)),
            final(self).collected_amount == old(self).collected_amount,
            final(self).num_account_sales == old(self).num_account_sales,
            final(self).account_sales == old(self).account_sales,
            final(self).reward_of(who@) == saturated128((old(self).reward_of(who@) + amount) as nat),
            forall|x: Seq<char>| x != who@ ==> #[trigger] final(self).reward_of(x) == old(self).reward_of(x),
            forall|x: Seq<char>| #[trigger] final(self).pending_of(x) == old(self).pending_of(x),
    {
        let ghost ids0 = rewarded_ids(self.affiliate_rewards@);
        let mut i: usize = 0;
        let mut found: Option<usize> = None;
        while i < self.affiliate_rewards.len()
            invariant
                i <= self.affiliate_rewards@.len(),
                ids0 == rewarded_ids(self.affiliate_rewards@),
                found is None ==> forall|j: int| 0 <= j < i ==> self.affiliate_rewards@[j].account_id@ != who@,
                found matches Some(k) ==> k < self.affiliate_rewards@.len() && self.affiliate_rewards@[k as int].account_id@ == who@,
            decreases self.affiliate_rewards@.len() - i,
        {
            if found.is_none() && self.affiliate_rewards[i].account_id == *who {
                found = Some(i);
            }
            i = i + 1;
        }
        let ghost s0 = *self;
        match found {
            Some(k) => {
                proof {
                    lemma_index_of(ids0, k as int);
                }
                let prev = self.affiliate_rewards[k].amount;
                let pending = self.affiliate_rewards[k].pending;
                let id = self.affiliate_rewards[k].account_id.clone();
                self.affiliate_rewards.set(k, AffiliateReward { account_id: id, amount: prev.saturating_add(amount), pending });
                assert(rewarded_ids(self.affiliate_rewards@) =~= ids0);
                assert forall|j: int| 0 <= j < self.affiliate_rewards@.len() implies (#[trigger] self.affiliate_rewards@[j]).pending
                    <= self.affiliate_rewards@[j].amount by {
                    if j != k {
                        assert(self.affiliate_rewards@[j] == s0.affiliate_rewards@[j]);
                    }
                }
                assert forall|x: Seq<char>| #[trigger] self.pending_of(x) == s0.pending_of(x) by {
                    if ids0.contains(x) {
                        let j = choose|j: int| 0 <= j < ids0.len() && ids0[j] == x;
                        lemma_index_of(ids0, j);
                    }
                }
                assert forall|x: Seq<char>| x != who@ implies #[trigger] self.reward_of(x) == s0.reward_of(x) by {
                    if ids0.contains(x) {
                        let j = choose|j: int| 0 <= j < ids0.len() && ids0[j] == x;
                        lemma_index_of(ids0, j);
                        assert(j != k);
                    }
                }
            },
            None => {
                assert(!ids0.contains(who@)) by {
                    if ids0.contains(who@) {
                        let j = choose|j: int| 0 <= j < ids0.len() && ids0[j] == who@;
                        assert(self.affiliate_rewards@[j].account_id@ == who@);
                    }
                }
                self.affiliate_rewards.push(AffiliateReward { account_id: who.clone(), amount, pending: 0 });
                let ghost ids1 = rewarded_ids(self.affiliate_rewards@);
                assert(ids1 =~= ids0.push(who@));
                proof {
                    lemma_push_no_dup(ids0, who@);
                    lemma_index_of(ids1, ids0.len() as int);
                    assert(ids1[ids0.len() as int] == who@);
                }
                assert forall|j: int| 0 <= j < self.affiliate_rewards@.len() implies (#[trigger] self.affiliate_rewards@[j]).pending
                    <= self.affiliate_rewards@[j].amount by {
                    if j < s0.affiliate_rewards@.len() {
                        assert(self.affiliate_rewards@[j] == s0.affiliate_rewards@[j]);
                    }
                }
                assert forall|x: Seq<char>| #[trigger] self.pending_of(x) == s0.pending_of(x) by {
                    if ids0.contains(x) {
                        let j = choose|j: int| 0 <= j < ids0.len() && ids0[j] == x;
                        lemma_index_of(ids0, j);
                        lemma_index_of(ids1, j);
                        assert(ids1[j] == x);
                    }
                    if ids1.contains(x) {
                        let j = choose|j: int| 0 <= j < ids1.len() && ids1[j] == x;
                        if j < ids0.len() {
                            assert(ids0[j] == x);
                        }
                    }
                }
                assert forall|x: Seq<char>| x != who@ implies #[trigger] self.reward_of(x) == s0.reward_of(x) by {
                    if ids0.contains(x) {
                        let j = choose|j: int| 0 <= j < ids0.len() && ids0[j] == x;
                        lemma_index_of(ids0, j);
                        lemma_index_of(ids1, j);
                        assert(ids1[j] == x);
                    }
                    if ids1.contains(x) {
                        let j = choose|j: int| 0 <= j < ids1.len() && ids1[j] == x;
                        if j < ids0.len() {
                            assert(ids0[j] == x);
                        }
                    }
                }
            },
        }
    }

    /// Why a deposit of `amount` by `who` cannot be taken, if it cannot.
    pub open spec fn deposit_refusal(&self, who: Seq<char>, amount: u128) -> Option<ContractError> {
        if self.sale_type == SaleType::ByAmount && self.collected_amount + amount > self.max_amount {
            Some(ContractError::SaleDone)
        } else if !self.accepts(who, amount) {
            Some(ContractError::AmountOverflow)
        } else {
            None
        }
    }

    /// Adds `amount` to the sale's total and to `who`'s record, which is
    /// created on the first deposit.
    pub fn add_deposit(&mut self, who: &String, amount: u128)
        requires
            old(self).wf(),
            old(self).accepts(who@, amount),
        ensures
            old(self).deposited(&*final(self), who@, amount),
            final(self).affiliate_rewards == old(self).affiliate_rewards,
    {
        let ghost s0 = *old(self);
        let ghost ids0 = contributor_ids(s0.account_sales@);
        self.collected_amount = self.collected_amount + amount;
        match self.find_account_sale(who) {
            Some(k) => {
                proof {
                    lemma_index_of(ids0, k as int);
                }
                let prev = self.account_sales[k].amount;
                let id = self.account_sales[k].account_id.clone();
                self.account_sales.set(k, AccountSale { account_id: id, amount: prev + amount });
                let ghost ids1 = contributor_ids(self.account_sales@);
                assert(ids1 =~= ids0);
                assert forall|x: Seq<char>| x != who@ implies #[trigger] self.has_contributor(x)
                    == s0.has_contributor(x) && self.contribution(x) == s0.contribution(x) by {
                    if s0.has_contributor(x) {
                        let j = choose|j: int| 0 <= j < ids0.len() && ids0[j] == x;
                        lemma_index_of(ids0, j);
                        assert(j != k);
                    }
                }
            },
            None => {
                self.account_sales.push(AccountSale { account_id: who.clone(), amount });
                self.num_account_sales = self.num_account_sales + 1;
                let ghost ids1 = contributor_ids(self.account_sales@);
                assert(ids1 =~= ids0.push(who@));
                proof {
                    lemma_push_no_dup(ids0, who@);
                    lemma_index_of(ids1, ids0.len() as int);
                    assert(ids1[ids0.len() as int] == who@);
                }
                assert forall|x: Seq<char>| x != who@ implies #[trigger] self.has_contributor(x)
                    == s0.has_contributor(x) && self.contribution(x) == s0.contribution(x) by {
                    if s0.has_contributor(x) {
                        let j = choose|j: int| 0 <= j < ids0.len() && ids0[j] == x;
                        lemma_index_of(ids0, j);
                        lemma_index_of(ids1, j);
                        assert(ids1[j] == x);
                    }
                    if self.has_contributor(x) {
                        let j = choose|j: int| 0 <= j < ids1.len() && ids1[j] == x;
                        if j < ids0.len() {
                            assert(ids0[j] == x);
                        }
                    }
                }
            },
        }
    }
}

/// The earliest date a sale may name, in nanoseconds (September 2001).
pub const MIN_DATE: u64 = 1_000_000_000_000_000_000;

/// The latest date a sale may name, in nanoseconds (November 2286).
pub const MAX_DATE: u64 = 10_000_000_000_000_000_000;

/// Why a sale with these parameters, asked for by `caller`, is refused, if
/// it is; the checks come in this order. The date bounds catch dates given
/// in seconds or milliseconds and dates far off.
pub open spec fn sale_input_error(owner: Seq<char>, caller: Seq<char>, input: SaleInput) -> Option<
    ContractError,
> {
    let by_amount = input.sale_type == SaleType::ByAmount;
    if caller != owner {
        Some(ContractError::MustBeOwner)
    } else if by_amount && input.max_amount == 0 {
        Some(ContractError::MustHaveMaxAmount)
    } else if by_amount && input.limit_per_transaction > input.max_amount {
        Some(ContractError::LimitPerTransactionTooBig)
    } else if input.limit_per_transaction < input.min_buy {
        Some(ContractError::LimitPerTransactionTooSmall)
    } else if input.min_buy > input.max_buy {
        Some(ContractError::MaxBuyLessThanMinBuy)
    } else if input.distribute_token_decimals is None {
        Some(ContractError::NoTokenDecimals)
    } else if input.distribute_token_decimals == Some(0u8) {
        Some(ContractError::WrongDecimals)
    } else if input.start_date >= input.end_date {
        Some(ContractError::WrongDates)
    } else if input.start_date > MAX_DATE {
        Some(ContractError::StartDateTooBig)
    } else if input.start_date < MIN_DATE {
        Some(ContractError::StartDateTooSmall)
    } else if input.end_date > MAX_DATE {
        Some(ContractError::EndDateTooBig)
    } else if input.end_date < MIN_DATE {
        Some(ContractError::EndDateTooSmall)
    } else if input.min_near_deposit == 0 && input.staking_contracts@.len() > 0 {
        Some(ContractError::WrongMinNearDeposit)
    } else if input.min_near_deposit > 0 && input.staking_contracts@.len() == 0 {
        Some(ContractError::NoStakingContracts)
    } else {
        None
    }
}

/// `sale` is a new sale made from `input`: its terms, nothing collected,
/// no contributors, claims and refunds closed.
pub open spec fn opened_from(sale: Sale, input: SaleInput) -> bool {
    &&& sale.metadata == input.metadata
    &&& sale.staking_contracts == input.staking_contracts
    &&& sale.min_near_deposit == input.min_near_deposit
    &&& sale.deposit_token_id == input.deposit_token_id
    &&& sale.distribute_token_id == input.distribute_token_id
    &&& sale.distribute_token_decimals == input.distribute_token_decimals
    &&& sale.min_buy == input.min_buy
    &&& sale.max_buy == input.max_buy
    &&& sale.max_amount == input.max_amount
    &&& sale.start_date == input.start_date
    &&& sale.end_date == input.end_date
    &&& sale.price == input.price
    &&& sale.whitelist_hash == input.whitelist_hash
    &&& sale.limit_per_transaction == input.limit_per_transaction
    &&& sale.sale_type == input.sale_type
    &&& sale.collected_amount == 0
    &&& sale.num_account_sales == 0
    &&& sale.account_sales@.len() == 0
    &&& sale.affiliate_rewards@.len() == 0
    &&& !sale.refund_available
    &&& !sale.claim_available
}

impl Contract {
    /// Opens a new sale, asked for by `caller`; its id is the number of
    /// sales before it.
    pub fn create_sale(&mut self, caller: &String, input: SaleInput) -> (r: Result<u64, ContractError>)
        requires
            old(self).wf(),
        ensures
            final(self).wf(),
            match sale_input_error(old(self).owner_id@, caller@, input) {
                Some(e) => r == Err::<u64, ContractError>(e) && *final(self) == *old(self),
                None => {
                    &&& r == Ok::<u64, ContractError>(old(self).sales@.len() as u64)
                    &&& final(self).sales@.len() == old(self).sales@.len() + 1
                    &&& final(self).sales@.drop_last() == old(self).sales@
                    &&& opened_from(final(self).sales@.last(), input)
                    &&& final(self).owner_id == old(self).owner_id
                    &&& final(self).join_fee == old(self).join_fee
                    &&& final(self).referral_fees == old(self).referral_fees
                    &&& final(self).account_ids == old(self).account_ids
                    &&& final(self).accounts == old(self).accounts
                    &&& final(self).accounts_old == old(self).accounts_old
                },
            },
    {
        let by_amount = input.sale_type == SaleType::ByAmount;
        if !(*caller == self.owner_id) {
            return Err(ContractError::MustBeOwner);
        }
        if by_amount && input.max_amount == 0 {
            return Err(ContractError::MustHaveMaxAmount);
        }
        if by_amount && input.limit_per_transaction > input.max_amount {
            return Err(ContractError::LimitPerTransactionTooBig);
        }
        if input.limit_per_transaction < input.min_buy {
            return Err(ContractError::LimitPerTransactionTooSmall);
        }
        if input.min_buy > input.max_buy {
            return Err(ContractError::MaxBuyLessThanMinBuy);
        }
        match input.distribute_token_decimals {
            None => {
                return Err(ContractError::NoTokenDecimals);
            },
            Some(d) => {
                if d == 0 {
                    return Err(ContractError::WrongDecimals);
                }
            },
        }
        if input.start_date >= input.end_date {
            return Err(ContractError::WrongDates);
        }
        if input.start_date > MAX_DATE {
            return Err(ContractError::StartDateTooBig);
        }
        if input.start_date < MIN_DATE {
            return Err(ContractError::StartDateTooSmall);
        }
        if input.end_date > MAX_DATE {
            return Err(ContractError::EndDateTooBig);
        }
        if input.end_date < MIN_DATE {
            return Err(ContractError::EndDateTooSmall);
        }
        if input.min_near_deposit == 0 && input.staking_contracts.len() > 0 {
            return Err(ContractError::WrongMinNearDeposit);
        }
        if input.min_near_deposit > 0 && input.staking_contracts.len() == 0 {
            return Err(ContractError::NoStakingContracts);
        }
        let ghost s0 = *self;
        let sale_id = self.sales.len() as u64;
        let sale = Sale {
            metadata: input.metadata,
            staking_contracts: input.staking_contracts,
            min_near_deposit: input.min_near_deposit,
            deposit_token_id: input.deposit_token_id,
            distribute_token_id: input.distribute_token_id,
            distribute_token_decimals: input.distribute_token_decimals,
            min_buy: input.min_buy,
            max_buy: input.max_buy,
            max_amount: input.max_amount,
            start_date: input.start_date,
            end_date: input.end_date,
            price: input.price,
            whitelist_hash: input.whitelist_hash,
            limit_per_transaction: input.limit_per_transaction,
            sale_type: input.sale_type,
            collected_amount: 0,
            num_account_sales: 0,
            refund_available: false,
            claim_available: false,
            account_sales: Vec::new(),
            affiliate_rewards: Vec::new(),
        };
        assert(contributor_ids(sale.account_sales@) =~= Seq::<Seq<char>>::empty());
        assert(rewarded_ids(sale.affiliate_rewards@) =~= Seq::<Seq<char>>::empty());
        self.sales.push(sale);
        assert(self.sales@.drop_last() =~= s0.sales@);
        assert forall|k: int| 0 <= k < self.sales@.len() implies (#[trigger] self.sales@[k]).wf() by {
            if k < s0.sales@.len() {
                assert(self.sales@[k] == s0.sales@[k]);
            }
        }
        proof {
            crate::contract::lemma_wf_sales_changed(s0, *self);
        }
        Ok(sale_id)
    }

    /// Sets the price and the cap of a sale; only the owner may.
    pub fn update_sale_price(
        &mut self,
        caller: &String,
        sale_id: u64,
        price: u128,
        max_amount: u128,
    ) -> (r: Result<(), ContractError>)
        requires
            old(self).wf(),
        ensures
            final(self).wf(),
            caller@ != old(self).owner_id@ ==> r == Err::<(), ContractError>(ContractError::MustBeOwner)
                && *final(self) == *old(self),
            caller@ == old(self).owner_id@ && sale_id >= old(self).sales@.len() ==> r == Err::<
                (),
                ContractError,
            >(ContractError::NoSale) && *final(self) == *old(self),
            caller@ == old(self).owner_id@ && sale_id < old(self).sales@.len() ==> {
                let before = old(self).sales@[sale_id as int];
                let after = final(self).sales@[sale_id as int];
                &&& r is Ok
                &&& final(self).sales@ == old(self).sales@.update(sale_id as int, after)
                &&& after.price == price
                &&& after.max_amount == max_amount
                &&& after.metadata == before.metadata
                &&& after.staking_contracts == before.staking_contracts
                &&& after.min_near_deposit == before.min_near_deposit
                &&& after.deposit_token_id == before.deposit_token_id
                &&& after.distribute_token_id == before.distribute_token_id
                &&& after.distribute_token_decimals == before.distribute_token_decimals
                &&& after.min_buy == before.min_buy
                &&& after.max_buy == before.max_buy
                &&& after.start_date == before.start_date
                &&& after.end_date == before.end_date
                &&& after.whitelist_hash == before.whitelist_hash
                &&& after.limit_per_transaction == before.limit_per_transaction
                &&& after.sale_type == before.sale_type
                &&& after.refund_available == before.refund_available
                &&& after.claim_available == before.claim_available
                &&& after.collected_amount == before.collected_amount
                &&& after.num_account_sales == before.num_account_sales
                &&& after.account_sales == before.account_sales
                &&& after.affiliate_rewards == before.affiliate_rewards
                &&& final(self).owner_id == old(self).owner_id
                &&& final(self).join_fee == old(self).join_fee
                &&& final(self).referral_fees == old(self).referral_fees
                &&& final(self).account_ids == old(self).account_ids
                &&& final(self).accounts == old(self).accounts
                &&& final(self).accounts_old == old(self).accounts_old
            },
    {
        if !(*caller == self.owner_id) {
            return Err(ContractError::MustBeOwner);
        }
        if sale_id >= self.sales.len() as u64 {
            return Err(ContractError::NoSale);
        }
        let ghost s0 = *self;
        let index = sale_id as usize;
        let mut sale = self.sales.remove(index);
        sale.price = price;
        sale.max_amount = max_amount;
        self.sales.insert(index, sale);
        assert(self.sales@ =~= s0.sales@.update(index as int, self.sales@[index as int]));
        assert forall|k: int| 0 <= k < self.sales@.len() implies (#[trigger] self.sales@[k]).wf() by {
            if k != index {
                assert(self.sales@[k] == s0.sales@[k]);
            }
        }
        proof {
            crate::contract::lemma_wf_sales_changed(s0, *self);
        }
        Ok(())
    }

    pub fn get_num_sales(&self) -> (r: u64)
        ensures
            r == self.sales@.len(),
    {
        self.sales.len() as u64
    }

    pub fn get_sale(&self, sale_id: u64) -> (r: &Sale)
        requires
            sale_id < self.sales@.len(),
        ensures
            *r == self.sales@[sale_id as int],
    {
        let n: usize = self.sales.len();
        assert(sale_id < n);
        &self.sales[sale_id as usize]
    }

    /// The sales from `from_index` on, at most `limit` of them.
    pub fn get_sales(&self, from_index: u64, limit: u64) -> (r: Vec<&Sale>)
        ensures
            r@.len() == page_len(from_index as int, limit as int, self.sales@.len() as int),
            forall|k: int| 0 <= k < r@.len() ==> *#[trigger] r@[k] == self.sales@[from_index + k],
    {
        let n: usize = self.sales.len();
        let end = page_end(from_index, limit, n as u64);
        let mut result: Vec<&Sale> = Vec::new();
        if from_index < end {
            let mut i: u64 = from_index;
            while i < end
                invariant
                    from_index <= i <= end,
                    end <= self.sales@.len(),
                    n == self.sales@.len(),
                    result@.len() == i - from_index,
                    forall|k: int| 0 <= k < result@.len() ==> *#[trigger] result@[k] == self.sales@[from_index + k],
                decreases end - i,
            {
                result.push(&self.sales[i as usize]);
                i = i + 1;
            }
        }
        result
    }
}

/// The length of the page of a list of `len` items that starts at `from`
/// and holds at most `limit` items.
pub open spec fn page_len(from: int, limit: int, len: int) -> int {
    let end = if from + limit < len { from + limit } else { len };
    if end > from { end - from } else { 0 }
}

/// Where such a page ends.
pub fn page_end(from_index: u64, limit: u64, len: u64) -> (r: u64)
    ensures
        r as int == if from_index + limit < len { from_index + limit } else { len as int },
{
    if (from_index as u128) + (limit as u128) < (len as u128) {
        from_index + limit
    } else {
        len
    }
}

} // verus!
