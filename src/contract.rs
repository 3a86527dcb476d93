use crate::account::{ids_view, saturated, set_insert, Account, AccountOld, AccountOutput, VAccount};
use crate::error::ContractError;
use crate::sale::{page_end, page_len, Sale};
use vstd::prelude::*;

verus! {

/// Referral fees are in units of 1/10000 of a deposit.
pub const REFERRAL_FEE_DENOMINATOR: u64 = 10000;

/// Each fee is at most the whole deposit.
pub open spec fn fees_valid(fees: Seq<u64>) -> bool {
    forall|l: int| 0 <= l < fees.len() ==> #[trigger] fees[l] <= REFERRAL_FEE_DENOMINATOR
}

/// The position of `id` in `ids`, where it is there.
pub open spec fn index_of(ids: Seq<Seq<char>>, id: Seq<char>) -> int {
    choose|i: int| 0 <= i < ids.len() && ids[i] == id
}

pub proof fn lemma_index_of(ids: Seq<Seq<char>>, j: int)
    requires
        ids.no_duplicates(),
        0 <= j < ids.len(),
    ensures
        index_of(ids, ids[j]) == j,
{
    let i = index_of(ids, ids[j]);
    assert(0 <= i < ids.len() && ids[i] == ids[j]);
}

/// The whole state: the owner, the fees, the accounts in order of joining,
/// and the sales, whose ids are their positions.
///
/// The state is held in memory, as plain vectors: the account map is a list
/// of ids with a parallel list of records, whose ids are unique, and the sale
/// map is keyed by position. Persisting it is left to the host that runs the
/// contract; map types that read and write the host's storage on each access
/// would make every lookup here a storage call.
pub struct Contract {
    pub owner_id: String,
    pub join_fee: u128,
    /// Three values, one per referral level; `1` is 0.01% of a deposit.
    pub referral_fees: Vec<u64>,
    pub account_ids: Vec<String>,
    pub accounts: Vec<VAccount>,
    pub sales: Vec<Sale>,
    /// Accounts in the record form that predates affiliate tracking, waiting
    /// to be moved over.
    pub accounts_old: Vec<(String, AccountOld)>,
}

impl Contract {
    pub open spec fn ids(&self) -> Seq<Seq<char>> {
        ids_view(self.account_ids@)
    }

    pub open spec fn num_accounts(&self) -> nat {
        self.account_ids@.len()
    }

    pub open spec fn has(&self, id: Seq<char>) -> bool {
        self.ids().contains(id)
    }

    pub open spec fn acct(&self, i: int) -> Account {
        self.accounts@[i].current()
    }

    pub open spec fn referrer_at(&self, i: int) -> Seq<char> {
        self.acct(i).referrer@
    }

    /// The referrer of a registered account.
    pub open spec fn referrer_of(&self, id: Seq<char>) -> Seq<char> {
        self.referrer_at(index_of(self.ids(), id))
    }

    /// The affiliates of a registered account on a level.
    pub open spec fn level_of(&self, id: Seq<char>, level: u8) -> Seq<Seq<char>> {
        self.acct(index_of(self.ids(), id)).level(level)
    }

    pub open spec fn affiliate_count_of(&self, id: Seq<char>) -> nat {
        self.acct(index_of(self.ids(), id)).total_affiliates()
    }

    /// The account that a join names as referrer: the one asked for where it
    /// is registered, the owner otherwise.
    pub open spec fn resolve_referrer(&self, referrer_id: Option<String>) -> Seq<char> {
        match referrer_id {
            Some(r) => if self.has(r@) {
                r@
            } else {
                self.owner_id@
            },
            None => self.owner_id@,
        }
    }

    /// Whether account `x` gets a new affiliate on `level` when an account
    /// joins under referrer `r`: the referrer on level 0, its referrer on
    /// level 1 and the next one up on level 2, as long as the chain has not
    /// reached the owner, whose affiliates are not kept.
    pub open spec fn receives(&self, x: Seq<char>, r: Seq<char>, level: u8) -> bool {
        let o = self.owner_id@;
        let r2 = self.referrer_of(r);
        let r3 = self.referrer_of(r2);
        r != o && ((level == 0 && x == r) || (level == 1 && r2 != o && x == r2) || (level == 2
            && r2 != o && r3 != o && x == r3))
    }

    /// The accounts and their referral links are consistent: every account
    /// but the owner joined after its referrer, the owner's affiliates are
    /// not kept, and each account is listed on the levels of the accounts
    /// above it.
    pub open spec fn wf(&self) -> bool {
        let n = self.num_accounts() as int;
        let o = self.owner_id@;
        &&& self.accounts@.len() == n
        &&& self.ids().no_duplicates()
        &&& self.has(o)
        &&& fees_valid(self.referral_fees@)
        &&& forall|k: int| 0 <= k < self.sales@.len() ==> (#[trigger] self.sales@[k]).wf()
        &&& forall|i: int| 0 <= i < n ==> self.has(#[trigger] self.referrer_at(i))
        &&& forall|i: int|
            0 <= i < n && self.ids()[i] != o ==> #[trigger] self.referrer_at(i) != self.ids()[i]
        &&& forall|i: int, j: int|
            0 <= i < n && 0 <= j < n && self.ids()[i] != o && #[trigger] self.ids()[j]
                == #[trigger] self.referrer_at(i) ==> j < i
        &&& forall|i: int| 0 <= i < n ==> (#[trigger] self.acct(i)).levels_ordered()
        &&& forall|i: int, l: u8|
            0 <= i < n && self.ids()[i] == o ==> (#[trigger] self.acct(i).level(l)).len() == 0
        &&& forall|i: int, l: u8|
            0 <= i < n ==> (#[trigger] self.acct(i).level(l)).no_duplicates()
        &&& forall|i: int, l: u8, k: int|
            0 <= i < n && 0 <= k < self.acct(i).level(l).len() ==> self.has(
                #[trigger] self.acct(i).level(l)[k],
            )
        &&& forall|i: int, j: int|
            0 <= i < n && 0 <= j < n && self.ids()[i] != o && self.ids()[j] != o && #[trigger]
                self.ids()[j] == #[trigger] self.referrer_at(i) ==> self.acct(j).level(0).contains(
                self.ids()[i],
            )
        &&& forall|i: int, j: int, k: int|
            0 <= i < n && 0 <= j < n && 0 <= k < n && self.ids()[i] != o && self.ids()[j] != o
                && self.ids()[k] != o && #[trigger] self.ids()[j] == #[trigger] self.referrer_at(i)
                && #[trigger] self.ids()[k] == self.referrer_at(j) ==> self.acct(k).level(
                1,
            ).contains(self.ids()[i])
    }

    /// The position of an account, if it is registered.
    pub fn find_account(&self, account_id: &String) -> (r: Option<usize>)
        requires
            self.account_ids@.len() == self.accounts@.len(),
        ensures
            match r {
                Some(i) => i < self.num_accounts() && self.ids()[i as int] == account_id@,
                None => !self.has(account_id@),
            },
    {
        let mut i: usize = 0;
        while i < self.account_ids.len()
            invariant
                i <= self.account_ids@.len(),
                forall|j: int| 0 <= j < i ==> self.account_ids@[j]@ != account_id@,
            decreases self.account_ids@.len() - i,
        {
            if self.account_ids[i] == *account_id {
                return Some(i);
            }
            i = i + 1;
        }
        assert(!self.has(account_id@)) by {
            if self.has(account_id@) {
                let k = choose|k: int| 0 <= k < self.ids().len() && self.ids()[k] == account_id@;
                assert(self.account_ids@[k]@ == account_id@);
            }
        }
        None
    }

    /// Adds `affiliate_id` to the affiliates of the account at `index` on
    /// `level`.
    fn insert_affiliate_on_level(&mut self, index: usize, level: u8, affiliate_id: &String)
        requires
            index < old(self).accounts@.len(),
        ensures
            final(self).owner_id == old(self).owner_id,
            final(self).join_fee == old(self).join_fee,
            final(self).referral_fees == old(self).referral_fees,
            final(self).account_ids == old(self).account_ids,
            final(self).sales == old(self).sales,
            final(self).accounts_old == old(self).accounts_old,
            final(self).accounts@.len() == old(self).accounts@.len(),
            forall|j: int|
                0 <= j < old(self).accounts@.len() && j != index ==> #[trigger] final(self).accounts@[j] == old(self).accounts@[j],
            final(self).acct(index as int).referrer == old(self).acct(index as int).referrer,
            final(self).acct(index as int).level(level) == set_insert(
                old(self).acct(index as int).level(level),
                affiliate_id@,
            ),
            forall|l: u8|
                l != level ==> #[trigger] final(self).acct(index as int).level(l) == old(self).acct(index as int).level(l),
            forall|i: int|
                0 <= i < old(self).accounts@.len() ==> #[trigger] final(self).referrer_at(i) == old(self).referrer_at(i),
            forall|i: int, l: u8|
                0 <= i < old(self).accounts@.len() ==> #[trigger] final(self).acct(i).level(l) == if i == index && l == level {
                    set_insert(old(self).acct(i).level(l), affiliate_id@)
                } else {
                    old(self).acct(i).level(l)
                },
    {
        let ghost s0 = *old(self);
        let v_account = self.accounts.remove(index);
        let mut account = Account::from(v_account);
        account.insert_affiliate(level, affiliate_id);
        self.accounts.insert(index, VAccount::Current(account));
        assert forall|i: int| 0 <= i < s0.accounts@.len() && i != index implies #[trigger] self.accounts@[i] == s0.accounts@[i] by {}
    }

    /// `next` is this state after `a` joined under the resolved referrer `r`:
    /// `a` is appended with referrer `r` and no affiliates, and `a` is
    /// appended to the affiliates of exactly the accounts that `receives`
    /// names, on those levels.
    pub open spec fn joined(&self, next: Contract, a: Seq<char>, r: Seq<char>) -> bool {
        let n = self.num_accounts() as int;
        &&& next.owner_id == self.owner_id
        &&& next.join_fee == self.join_fee
        &&& next.referral_fees == self.referral_fees
        &&& next.sales == self.sales
        &&& next.accounts_old == self.accounts_old
        &&& next.ids() == self.ids().push(a)
        &&& next.accounts@.len() == n + 1
        &&& next.referrer_at(n) == r
        &&& forall|l: u8| #[trigger] next.acct(n).level(l) == Seq::<Seq<char>>::empty()
        &&& forall|i: int| 0 <= i < n ==> #[trigger] next.referrer_at(i) == self.referrer_at(i)
        &&& forall|i: int, l: u8|
            0 <= i < n ==> #[trigger] next.acct(i).level(l) == if self.receives(
                self.ids()[i],
                r,
                l,
            ) {
                self.acct(i).level(l).push(a)
            } else {
                self.acct(i).level(l)
            }
    }

    /// Records `account_id`, which has just joined under the account at
    /// `r1_index`, as an affiliate of that account and of up to two more
    /// accounts up the chain of referrers, stopping at the owner.
    fn insert_affiliates(&mut self, r1_index: usize, account_id: &String)
        requires
            old(self).account_ids@.len() == old(self).accounts@.len(),
            r1_index < old(self).accounts@.len(),
            old(self).ids()[r1_index as int] != old(self).owner_id@,
            old(self).ids().no_duplicates(),
            forall|i: int|
                0 <= i < old(self).num_accounts() ==> old(self).has(
                    #[trigger] old(self).referrer_at(i),
                ),
        ensures
            final(self).owner_id == old(self).owner_id,
            final(self).join_fee == old(self).join_fee,
            final(self).referral_fees == old(self).referral_fees,
            final(self).account_ids == old(self).account_ids,
            final(self).sales == old(self).sales,
            final(self).accounts_old == old(self).accounts_old,
            final(self).accounts@.len() == old(self).accounts@.len(),
            forall|i: int|
                0 <= i < old(self).num_accounts() ==> #[trigger] final(self).referrer_at(i) == old(self).referrer_at(i),
            forall|i: int, l: u8|
                0 <= i < old(self).num_accounts() ==> #[trigger] final(self).acct(i).level(l) == if old(self).receives(old(self).ids()[i], old(self).ids()[r1_index as int], l) {
                    set_insert(old(self).acct(i).level(l), account_id@)
                } else {
                    old(self).acct(i).level(l)
                },
    {
        let ghost s0 = *old(self);
        let ghost r1 = s0.ids()[r1_index as int];
        proof {
            lemma_index_of(s0.ids(), r1_index as int);
        }
        let r2 = self.accounts[r1_index].account().referrer.clone();
        assert(r2@ == s0.referrer_of(r1));
        self.insert_affiliate_on_level(r1_index, 0, account_id);
        if !(self.owner_id == r2) {
            assert(s0.has(r2@));
            match self.find_account(&r2) {
                Some(i2) => {
                    proof {
                        lemma_index_of(s0.ids(), i2 as int);
                    }
                    let r3 = self.accounts[i2].account().referrer.clone();
                    assert(r3@ == s0.referrer_of(r2@));
                    self.insert_affiliate_on_level(i2, 1, account_id);
                    if !(self.owner_id == r3) {
                        assert(s0.has(r3@));
                        match self.find_account(&r3) {
                            Some(i3) => {
                                self.insert_affiliate_on_level(i3, 2, account_id);
                            },
                            None => {},
                        }
                    }
                },
                None => {},
            }
        }
    }

    /// A contract whose only account is the owner, referred by itself.
    pub fn new(owner_id: String, join_fee: u128, referral_fees: Vec<u64>) -> (r: Contract)
        requires
            fees_valid(referral_fees@),
        ensures
            r.wf(),
            r.owner_id == owner_id,
            r.join_fee == join_fee,
            r.referral_fees == referral_fees,
            r.ids() == seq![owner_id@],
            r.referrer_at(0) == owner_id@,
            forall|l: u8| #[trigger] r.acct(0).level(l) == Seq::<Seq<char>>::empty(),
            r.sales@.len() == 0,
            r.accounts_old@.len() == 0,
    {
        let owner_account = Account::new(&owner_id, &owner_id);
        let mut account_ids: Vec<String> = Vec::new();
        account_ids.push(owner_id.clone());
        let mut accounts: Vec<VAccount> = Vec::new();
        accounts.push(VAccount::Current(owner_account));
        let r = Contract {
            owner_id,
            join_fee,
            referral_fees,
            account_ids,
            accounts,
            sales: Vec::new(),
            accounts_old: Vec::new(),
        };
        assert(r.ids() =~= seq![r.owner_id@]);
        assert(r.ids()[0] == r.owner_id@);
        r
    }

    /// Registers `account_id` under `referrer_id`, or under the owner where
    /// that is absent or names no registered account. `attached_deposit` is
    /// what the caller paid, which must be the join fee.
    pub fn join(
        &mut self,
        account_id: &String,
        referrer_id: Option<String>,
        attached_deposit: u128,
    ) -> (r: Result<(), ContractError>)
        requires
            old(self).wf(),
        ensures
            final(self).wf(),
            r is Err ==> *final(self) == *old(self),
            (r == Err::<(), ContractError>(ContractError::AccountExists)) <==> old(self).has(
                account_id@,
            ),
            (r == Err::<(), ContractError>(ContractError::SelfReferrer)) <==> (!old(self).has(
                account_id@,
            ) && names_self(referrer_id, account_id@)),
            (r == Err::<(), ContractError>(ContractError::WrongJoinFee)) <==> (!old(self).has(
                account_id@,
            ) && !names_self(referrer_id, account_id@) && attached_deposit != old(self).join_fee),
            r is Ok <==> (!old(self).has(account_id@) && !names_self(referrer_id, account_id@)
                && attached_deposit == old(self).join_fee),
            r is Ok ==> old(self).joined(
                *final(self),
                account_id@,
                old(self).resolve_referrer(referrer_id),
            ),
    {
        let ghost rid = referrer_id;
        let named_self = match &referrer_id {
            Some(x) => *x == *account_id,
            None => false,
        };
        let referrer: String = match referrer_id {
            Some(referrer_id_unwrapped) => {
                if self.find_account(&referrer_id_unwrapped).is_some() {
                    referrer_id_unwrapped
                } else {
                    self.owner_id.clone()
                }
            },
            None => self.owner_id.clone(),
        };
        assert(referrer@ == self.resolve_referrer(rid));
        if self.find_account(account_id).is_some() {
            return Err(ContractError::AccountExists);
        }
        if named_self {
            return Err(ContractError::SelfReferrer);
        }
        if attached_deposit != self.join_fee {
            return Err(ContractError::WrongJoinFee);
        }
        let ghost s0 = *self;
        let r1_index = match self.find_account(&referrer) {
            Some(i) => i,
            None => {
                assert(false);
                0
            },
        };
        self.account_ids.push(account_id.clone());
        self.accounts.push(VAccount::Current(Account::new(account_id, &referrer)));
        let ghost s1 = *self;
        assert(s1.ids() =~= s0.ids().push(account_id@));
        assert forall|i: int| 0 <= i < s0.num_accounts() implies s1.accounts@[i] == s0.accounts@[i] by {}
        if !(self.owner_id == referrer) {
            proof {
                assert(s1.ids().no_duplicates()) by {
                    lemma_push_no_dup(s0.ids(), account_id@);
                }
                assert forall|i: int| 0 <= i < s1.num_accounts() implies s1.has(#[trigger] s1.referrer_at(i)) by {
                    if i < s0.num_accounts() {
                        assert(s1.referrer_at(i) == s0.referrer_at(i));
                        lemma_has_push(s0.ids(), account_id@, s0.referrer_at(i));
                    } else {
                        lemma_has_push(s0.ids(), account_id@, referrer@);
                    }
                }
            }
            self.insert_affiliates(r1_index, account_id);
        }
        proof {
            lemma_join_result(s0, s1, *self, account_id@, referrer@, r1_index as int);
        }
        Ok(())
    }

    pub fn get_join_fee(&self) -> (r: u128)
        ensures
            r == self.join_fee,
    {
        self.join_fee
    }

    pub fn get_referral_fees(&self) -> (r: Vec<u64>)
        ensures
            r@ == self.referral_fees@,
    {
        let mut r: Vec<u64> = Vec::new();
        let mut i: usize = 0;
        while i < self.referral_fees.len()
            invariant
                i <= self.referral_fees@.len(),
                r@ == self.referral_fees@.subrange(0, i as int),
            decreases self.referral_fees@.len() - i,
        {
            r.push(self.referral_fees[i]);
            i = i + 1;
            assert(r@ =~= self.referral_fees@.subrange(0, i as int));
        }
        assert(r@ =~= self.referral_fees@);
        r
    }

    pub fn get_num_accounts(&self) -> (r: u64)
        ensures
            r == self.num_accounts(),
    {
        self.account_ids.len() as u64
    }

    /// The referrer and the affiliate count of a registered account.
    pub fn get_account(&self, account_id: &String) -> (r: AccountOutput)
        requires
            self.wf(),
            self.has(account_id@),
        ensures
            r.referrer@ == self.referrer_of(account_id@),
            r.affiliates_num as nat == saturated(self.affiliate_count_of(account_id@)),
    {
        match self.find_account(account_id) {
            Some(i) => {
                proof {
                    lemma_index_of(self.ids(), i as int);
                }
                AccountOutput::from_account(self.accounts[i].account())
            },
            None => {
                assert(false);
                AccountOutput { referrer: String::new(), affiliates_num: 0 }
            },
        }
    }

    /// The accounts from `from_index` on in order of joining, at most
    /// `limit` of them, each with its referrer and affiliate count.
    pub fn get_accounts(&self, from_index: u64, limit: u64) -> (r: Vec<(String, AccountOutput)>)
        requires
            self.wf(),
        ensures
            r@.len() == page_len(from_index as int, limit as int, self.num_accounts() as int),
            forall|k: int|
                0 <= k < r@.len() ==> {
                    &&& (#[trigger] r@[k]).0@ == self.ids()[from_index + k]
                    &&& r@[k].1.referrer@ == self.referrer_at(from_index + k)
                    &&& r@[k].1.affiliates_num as nat == saturated(
                        self.acct(from_index + k).total_affiliates(),
                    )
                },
    {
        let n: usize = self.account_ids.len();
        let end = page_end(from_index, limit, n as u64);
        let mut result: Vec<(String, AccountOutput)> = Vec::new();
        if from_index < end {
            let mut i: u64 = from_index;
            while i < end
                invariant
                    from_index <= i <= end,
                    end <= self.num_accounts(),
                    n == self.num_accounts(),
                    self.wf(),
                    result@.len() == i - from_index,
                    forall|k: int|
                        0 <= k < result@.len() ==> {
                            &&& (#[trigger] result@[k]).0@ == self.ids()[from_index + k]
                            &&& result@[k].1.referrer@ == self.referrer_at(from_index + k)
                            &&& result@[k].1.affiliates_num as nat == saturated(
                                self.acct(from_index + k).total_affiliates(),
                            )
                        },
                decreases end - i,
            {
                let index = i as usize;
                let output = AccountOutput::from_account(self.accounts[index].account());
                result.push((self.account_ids[index].clone(), output));
                i = i + 1;
            }
        }
        result
    }
}


/// Whether a join's referrer argument names the joining account itself.
pub open spec fn names_self(referrer_id: Option<String>, a: Seq<char>) -> bool {
    match referrer_id {
        Some(x) => x@ == a,
        None => false,
    }
}

pub proof fn lemma_push_no_dup(ids: Seq<Seq<char>>, a: Seq<char>)
    requires
        ids.no_duplicates(),
        !ids.contains(a),
    ensures
        ids.push(a).no_duplicates(),
{
    let s = ids.push(a);
    assert forall|i: int, j: int| 0 <= i < s.len() && 0 <= j < s.len() && i != j implies s[i] != s[j] by {
        if i < ids.len() && j < ids.len() {
        } else if i < ids.len() {
            assert(ids.contains(s[i]));
        } else {
            assert(ids.contains(s[j]));
        }
    }
}

pub proof fn lemma_has_push(ids: Seq<Seq<char>>, a: Seq<char>, x: Seq<char>)
    requires
        ids.contains(x) || x == a,
    ensures
        ids.push(a).contains(x),
{
    if x == a {
        assert(ids.push(a)[ids.len() as int] == a);
    } else {
        let k = choose|k: int| 0 <= k < ids.len() && ids[k] == x;
        assert(ids.push(a)[k] == x);
    }
}

/// After the push of the new account and the insertion of affiliates, the
/// state is `joined` from the one before, and consistent.
proof fn lemma_join_result(s0: Contract, s1: Contract, s2: Contract, a: Seq<char>, r: Seq<char>, r1_index: int)
    requires
        s0.wf(),
        !s0.has(a),
        0 <= r1_index < s0.num_accounts(),
        s0.ids()[r1_index] == r,
        s1.owner_id == s0.owner_id,
        s1.join_fee == s0.join_fee,
        s1.referral_fees == s0.referral_fees,
        s1.sales == s0.sales,
        s1.accounts_old == s0.accounts_old,
        s1.ids() == s0.ids().push(a),
        s1.accounts@.len() == s0.num_accounts() + 1,
        forall|i: int| 0 <= i < s0.num_accounts() ==> s1.accounts@[i] == s0.accounts@[i],
        s1.referrer_at(s0.num_accounts() as int) == r,
        forall|l: u8| #[trigger] s1.acct(s0.num_accounts() as int).level(l) == Seq::<Seq<char>>::empty(),
        s2.owner_id == s1.owner_id,
        s2.join_fee == s1.join_fee,
        s2.referral_fees == s1.referral_fees,
        s2.sales == s1.sales,
        s2.accounts_old == s1.accounts_old,
        s2.account_ids == s1.account_ids,
        s2.accounts@.len() == s1.accounts@.len(),
        r == s0.owner_id@ ==> s2 == s1,
        r != s0.owner_id@ ==> forall|i: int|
            0 <= i < s1.num_accounts() ==> #[trigger] s2.referrer_at(i) == s1.referrer_at(i),
        r != s0.owner_id@ ==> forall|i: int, l: u8|
            0 <= i < s1.num_accounts() ==> #[trigger] s2.acct(i).level(l) == if s1.receives(s1.ids()[i], r, l) {
                set_insert(s1.acct(i).level(l), a)
            } else {
                s1.acct(i).level(l)
            },
    ensures
        s0.joined(s2, a, r),
        s2.wf(),
{
    let n = s0.num_accounts() as int;
    let o = s0.owner_id@;
    lemma_push_no_dup(s0.ids(), a);
    lemma_index_of(s0.ids(), r1_index);
    lemma_index_of(s1.ids(), r1_index);
    assert(s1.ids()[r1_index] == r);
    assert(s1.referrer_of(r) == s0.referrer_of(r));
    let r2 = s0.referrer_of(r);
    assert(s0.has(r2));
    let j2 = choose|j: int| 0 <= j < s0.ids().len() && s0.ids()[j] == r2;
    lemma_index_of(s0.ids(), j2);
    lemma_index_of(s1.ids(), j2);
    assert(s1.ids()[j2] == r2);
    assert(s1.referrer_of(r2) == s0.referrer_of(r2));
    let r3 = s0.referrer_of(r2);
    assert(s0.has(r3));
    assert forall|x: Seq<char>, l: u8| #[trigger] s1.receives(x, r, l) == s0.receives(x, r, l) by {}
    assert forall|i: int| 0 <= i < n implies #[trigger] s1.acct(i) == s0.acct(i) by {
        assert(s1.accounts@[i] == s0.accounts@[i]);
    }
    assert(s1.ids()[n] == a);
    assert forall|l: u8| !#[trigger] s0.receives(a, r, l) by {
        assert(s0.has(r));
    }
    assert forall|i: int, l: u8| 0 <= i < n implies !#[trigger] s0.acct(i).level(l).contains(a) by {
        if s0.acct(i).level(l).contains(a) {
            let k = choose|k: int| 0 <= k < s0.acct(i).level(l).len() && s0.acct(i).level(l)[k] == a;
            assert(s0.has(s0.acct(i).level(l)[k]));
        }
    }
    if r == o {
        assert(s2 == s1);
    }
    assert forall|i: int| 0 <= i < n implies #[trigger] s2.referrer_at(i) == s0.referrer_at(i) by {
        assert(s1.referrer_at(i) == s0.referrer_at(i));
    }
    assert(s2.referrer_at(n) == r);
    assert forall|l: u8| #[trigger] s2.acct(n).level(l) == Seq::<Seq<char>>::empty() by {
        assert(!s1.receives(s1.ids()[n], r, l));
        assert(s1.acct(n).level(l) == Seq::<Seq<char>>::empty());
    }
    assert forall|i: int, l: u8| 0 <= i < n implies #[trigger] s2.acct(i).level(l) == if s0.receives(s0.ids()[i], r, l) {
        s0.acct(i).level(l).push(a)
    } else {
        s0.acct(i).level(l)
    } by {
        assert(s1.ids()[i] == s0.ids()[i]);
        assert(s1.acct(i).level(l) == s0.acct(i).level(l));
    }
    assert(s2.ids() == s1.ids());
    lemma_joined_wf(s0, s2, a, r);
}

/// A join keeps the state consistent.
pub proof fn lemma_joined_wf(s0: Contract, s1: Contract, a: Seq<char>, r: Seq<char>)
    requires
        s0.wf(),
        !s0.has(a),
        s0.has(r),
        s0.joined(s1, a, r),
    ensures
        s1.wf(),
{
    let n = s0.num_accounts() as int;
    let o = s0.owner_id@;
    lemma_push_no_dup(s0.ids(), a);
    assert(s1.ids()[n] == a);
    assert forall|x: Seq<char>| s0.has(x) implies #[trigger] s1.has(x) by {
        lemma_has_push(s0.ids(), a, x);
    }
    assert(s1.has(a)) by {
        lemma_has_push(s0.ids(), a, a);
    }
    assert forall|i: int| 0 <= i < n implies #[trigger] s1.ids()[i] == s0.ids()[i] by {}
    // every list of s1 holds the elements of the one in s0, and maybe `a`
    assert forall|i: int, l: u8, x: Seq<char>|
        0 <= i < n && #[trigger] s1.acct(i).level(l).contains(x) implies s0.acct(i).level(l).contains(x) || x == a by {
        if s0.receives(s0.ids()[i], r, l) {
            let k = choose|k: int| 0 <= k < s1.acct(i).level(l).len() && s1.acct(i).level(l)[k] == x;
            if k < s0.acct(i).level(l).len() {
                assert(s0.acct(i).level(l)[k] == x);
            }
        }
    }
    assert forall|i: int, l: u8, x: Seq<char>|
        0 <= i < n && #[trigger] s0.acct(i).level(l).contains(x) implies s1.acct(i).level(l).contains(x) by {
        if s0.receives(s0.ids()[i], r, l) {
            let k = choose|k: int| 0 <= k < s0.acct(i).level(l).len() && s0.acct(i).level(l)[k] == x;
            assert(s1.acct(i).level(l)[k] == x);
        }
    }
    assert forall|i: int, l: u8| 0 <= i < n && #[trigger] s0.receives(s0.ids()[i], r, l) implies s1.acct(i).level(l).contains(a) by {
        assert(s1.acct(i).level(l)[s0.acct(i).level(l).len() as int] == a);
    }
    // referrers
    assert forall|i: int| 0 <= i < n + 1 implies s1.has(#[trigger] s1.referrer_at(i)) by {
        if i < n {
            assert(s0.has(s0.referrer_at(i)));
        }
    }
    assert forall|i: int| 0 <= i < n + 1 && s1.ids()[i] != o implies #[trigger] s1.referrer_at(i) != s1.ids()[i] by {
        if i < n {
            assert(s0.referrer_at(i) != s0.ids()[i]);
        }
    }
    // lists: no duplicates, members registered
    assert forall|i: int, l: u8| 0 <= i < n + 1 implies (#[trigger] s1.acct(i).level(l)).no_duplicates() by {
        if i < n {
            assert(s0.acct(i).level(l).no_duplicates());
            if s0.receives(s0.ids()[i], r, l) {
                assert(!s0.acct(i).level(l).contains(a)) by {
                    if s0.acct(i).level(l).contains(a) {
                        let k = choose|k: int| 0 <= k < s0.acct(i).level(l).len() && s0.acct(i).level(l)[k] == a;
                        assert(s0.has(s0.acct(i).level(l)[k]));
                    }
                }
                lemma_push_no_dup(s0.acct(i).level(l), a);
            }
        }
    }
    assert forall|i: int, l: u8, k: int|
        0 <= i < n + 1 && 0 <= k < s1.acct(i).level(l).len() implies s1.has(#[trigger] s1.acct(i).level(l)[k]) by {
        if i < n {
            let x = s1.acct(i).level(l)[k];
            assert(s1.acct(i).level(l).contains(x));
            if x != a {
                let k0 = choose|k0: int| 0 <= k0 < s0.acct(i).level(l).len() && s0.acct(i).level(l)[k0] == x;
                assert(s0.has(s0.acct(i).level(l)[k0]));
            }
        }
    }
    // links to level 0
    assert forall|i: int, j: int|
        0 <= i < n + 1 && 0 <= j < n + 1 && s1.ids()[i] != o && s1.ids()[j] != o && #[trigger] s1.ids()[j] == #[trigger] s1.referrer_at(i)
        implies s1.acct(j).level(0).contains(s1.ids()[i]) by {
        if i < n {
            assert(s0.has(s0.referrer_at(i)));
            if j == n {
                assert(false);
            }
            assert(s0.acct(j).level(0).contains(s0.ids()[i]));
        } else {
            assert(j < n);
            assert(s0.has(r));
            lemma_index_of(s0.ids(), j);
            assert(s0.receives(s0.ids()[j], r, 0));
        }
    }
    // links to level 1
    assert forall|i: int, j: int, k: int|
        0 <= i < n + 1 && 0 <= j < n + 1 && 0 <= k < n + 1 && s1.ids()[i] != o && s1.ids()[j] != o
            && s1.ids()[k] != o && #[trigger] s1.ids()[j] == #[trigger] s1.referrer_at(i)
            && #[trigger] s1.ids()[k] == s1.referrer_at(j) implies s1.acct(k).level(1).contains(s1.ids()[i]) by {
        if i < n {
            assert(s0.has(s0.referrer_at(i)));
            if j == n {
                assert(false);
            }
            assert(s0.has(s0.referrer_at(j)));
            if k == n {
                assert(false);
            }
            assert(s0.acct(k).level(1).contains(s0.ids()[i]));
        } else {
            assert(j < n);
            assert(s0.has(s0.referrer_at(j)));
            if k == n {
                assert(false);
            }
            lemma_index_of(s0.ids(), j);
            assert(s0.referrer_of(r) == s0.referrer_at(j));
            assert(s0.receives(s0.ids()[k], r, 1));
        }
    }
}

/// A change that touches only the sales, and keeps each consistent, keeps
/// the state consistent.
pub proof fn lemma_wf_sales_changed(s0: Contract, s1: Contract)
    requires
        s0.wf(),
        s1.owner_id == s0.owner_id,
        s1.referral_fees == s0.referral_fees,
        s1.account_ids == s0.account_ids,
        s1.accounts == s0.accounts,
        forall|k: int| 0 <= k < s1.sales@.len() ==> (#[trigger] s1.sales@[k]).wf(),
    ensures
        s1.wf(),
{
    assert(s1.ids() == s0.ids());
    assert forall|i: int| 0 <= i < s1.num_accounts() implies #[trigger] s1.acct(i) == s0.acct(i) by {}
    assert forall|i: int| 0 <= i < s1.num_accounts() implies #[trigger] s1.referrer_at(i) == s0.referrer_at(i) by {}
}

} // verus!
