use crate::account::{Account, AccountOld, VAccount};
use crate::contract::{fees_valid, index_of, lemma_has_push, lemma_index_of, lemma_push_no_dup, Contract};
use crate::error::ContractError;
use crate::sale::Sale;
use vstd::prelude::*;

verus! {

/// The state as it was kept before affiliates were tracked: accounts in the
/// old record form, and links from public keys (as bytes) to accounts. The
/// sales are numbered from 0, so `num_sales` is their number; the current
/// state keeps that count as the length of its list of sales.
pub struct OldContract {
    pub owner_id: String,
    pub join_fee: u128,
    pub referral_fees: Vec<u64>,
    pub accounts: Vec<(String, AccountOld)>,
    pub sales: Vec<Sale>,
    pub links: Vec<(Vec<u8>, String)>,
    pub num_sales: u64,
}

/// The identities of the accounts waiting in the old record form.
pub open spec fn old_ids(v: Seq<(String, AccountOld)>) -> Seq<Seq<char>> {
    v.map_values(|e: (String, AccountOld)| e.0@)
}

impl Contract {
    /// The first step of the move to affiliate tracking: keeps the owner,
    /// the fees and the sales, drops the links, and sets every old account
    /// aside, the owner's included, to be moved over by `migrate_a1`. The
    /// state starts with no accounts.
    pub fn migrate_a0(old_contract: OldContract) -> (r: Contract)
        requires
            old_contract.num_sales == old_contract.sales@.len(),
        ensures
            r.sales@.len() == old_contract.num_sales,
            r.owner_id == old_contract.owner_id,
            r.join_fee == old_contract.join_fee,
            r.referral_fees == old_contract.referral_fees,
            r.sales == old_contract.sales,
            r.account_ids@.len() == 0,
            r.accounts@.len() == 0,
            r.accounts_old == old_contract.accounts,
    {
        Contract {
            owner_id: old_contract.owner_id,
            join_fee: old_contract.join_fee,
            referral_fees: old_contract.referral_fees,
            account_ids: Vec::new(),
            accounts: Vec::new(),
            sales: old_contract.sales,
            accounts_old: old_contract.accounts,
        }
    }

    /// Registers `account_id` with `referrer` and no affiliates, replacing
    /// its record where it is registered already.
    fn put_migrated_account(&mut self, account_id: String, referrer: &String)
        requires
            old(self).account_ids@.len() == old(self).accounts@.len(),
            old(self).ids().no_duplicates(),
        ensures
            final(self).account_ids@.len() == final(self).accounts@.len(),
            final(self).ids().no_duplicates(),
            forall|x: Seq<char>| #[trigger] final(self).has(x) <==> (old(self).has(x) || x == account_id@),
            final(self).referrer_of(account_id@) == referrer@,
            forall|l: u8| #[trigger] final(self).level_of(account_id@, l).len() == 0,
            forall|x: Seq<char>|
                x != account_id@ && old(self).has(x) ==> #[trigger] final(self).accounts@[index_of(final(self).ids(), x)]
                    == old(self).accounts@[index_of(old(self).ids(), x)],
            final(self).owner_id == old(self).owner_id,
            final(self).join_fee == old(self).join_fee,
            final(self).referral_fees == old(self).referral_fees,
            final(self).sales == old(self).sales,
            final(self).accounts_old == old(self).accounts_old,
    {
        let ghost s1 = *self;
        let ghost a = account_id@;
        let account = Account::new(&account_id, referrer);
        match self.find_account(&account_id) {
            Some(i) => {
                self.accounts.set(i, VAccount::Current(account));
                proof {
                    lemma_index_of(self.ids(), i as int);
                }
                assert(self.ids() == s1.ids());
                assert forall|x: Seq<char>| x != a && s1.has(x) implies #[trigger] self.accounts@[index_of(self.ids(), x)] == s1.accounts@[index_of(s1.ids(), x)] by {
                    let j = choose|j: int| 0 <= j < s1.ids().len() && s1.ids()[j] == x;
                    lemma_index_of(s1.ids(), j);
                }
            },
            None => {
                self.account_ids.push(account_id);
                self.accounts.push(VAccount::Current(account));
                assert(self.ids() =~= s1.ids().push(a));
                proof {
                    lemma_push_no_dup(s1.ids(), a);
                    lemma_index_of(self.ids(), s1.ids().len() as int);
                    lemma_has_after_push(s1.ids(), a);
                }
                assert forall|x: Seq<char>| x != a && s1.has(x) implies #[trigger] self.accounts@[index_of(self.ids(), x)] == s1.accounts@[index_of(s1.ids(), x)] by {
                    let j = choose|j: int| 0 <= j < s1.ids().len() && s1.ids()[j] == x;
                    lemma_index_of(s1.ids(), j);
                    lemma_index_of(self.ids(), j);
                    assert(self.ids()[j] == x);
                }
            },
        }
    }

    /// Moves up to `limit` of the accounts set aside, oldest first, into the
    /// current record form: same referrer, no affiliates. An account that
    /// is registered already gets the moved record.
    pub fn migrate_a1(&mut self, limit: u64)
        requires
            old(self).account_ids@.len() == old(self).accounts@.len(),
            old(self).ids().no_duplicates(),
            old_ids(old(self).accounts_old@).no_duplicates(),
        ensures
            ({
                let n = old(self).accounts_old@.len();
                let k = if limit < n { limit as int } else { n as int };
                let moved = old_ids(old(self).accounts_old@).subrange(0, k);
                &&& final(self).accounts_old@ == old(self).accounts_old@.subrange(k, n as int)
                &&& final(self).account_ids@.len() == final(self).accounts@.len()
                &&& final(self).ids().no_duplicates()
                &&& old_ids(final(self).accounts_old@).no_duplicates()
                &&& forall|x: Seq<char>|
                    #[trigger] final(self).has(x) <==> (old(self).has(x) || moved.contains(x))
                &&& forall|j: int|
                    0 <= j < k ==> {
                        &&& #[trigger] final(self).referrer_of(moved[j])
                            == old(self).accounts_old@[j].1.referrer@
                        &&& forall|l: u8| #[trigger] final(self).level_of(moved[j], l).len() == 0
                    }
                &&& forall|x: Seq<char>|
                    old(self).has(x) && !moved.contains(x) ==> #[trigger] final(self).accounts@[index_of(
                        final(self).ids(),
                        x,
                    )] == old(self).accounts@[index_of(old(self).ids(), x)]
            }),
            final(self).owner_id == old(self).owner_id,
            final(self).join_fee == old(self).join_fee,
            final(self).referral_fees == old(self).referral_fees,
            final(self).sales == old(self).sales,
    {
        let ghost s0 = *self;
        let n: usize = self.accounts_old.len();
        let k: usize = if (limit as u128) < (n as u128) {
            limit as usize
        } else {
            n
        };
        let ghost all = old_ids(s0.accounts_old@);
        let ghost moved = all.subrange(0, k as int);
        let mut done: usize = 0;
        while done < k
            invariant
                k <= n == s0.accounts_old@.len(),
                done <= k,
                all == old_ids(s0.accounts_old@),
                all.no_duplicates(),
                moved == all.subrange(0, k as int),
                self.accounts_old@ == s0.accounts_old@.subrange(done as int, n as int),
                self.account_ids@.len() == self.accounts@.len(),
                self.ids().no_duplicates(),
                self.owner_id == s0.owner_id,
                self.join_fee == s0.join_fee,
                self.referral_fees == s0.referral_fees,
                self.sales == s0.sales,
                forall|x: Seq<char>|
                    #[trigger] self.has(x) <==> (s0.has(x) || all.subrange(0, done as int).contains(x)),
                forall|j: int|
                    0 <= j < done ==> {
                        &&& #[trigger] self.referrer_of(all[j]) == s0.accounts_old@[j].1.referrer@
                        &&& forall|l: u8| #[trigger] self.level_of(all[j], l).len() == 0
                    },
                forall|x: Seq<char>|
                    s0.has(x) && !all.subrange(0, done as int).contains(x) ==> #[trigger] self.accounts@[index_of(
                        self.ids(),
                        x,
                    )] == s0.accounts@[index_of(s0.ids(), x)],
            decreases k - done,
        {
            let ghost s1 = *self;
            let ghost d = done as int;
            let (account_id, account_old) = self.accounts_old.remove(0);
            assert(self.accounts_old@ =~= s0.accounts_old@.subrange(d + 1, n as int));
            assert(account_id@ == all[d]);
            self.put_migrated_account(account_id, &account_old.referrer);
            let ghost pre = all.subrange(0, d);
            let ghost post = all.subrange(0, d + 1);
            assert forall|x: Seq<char>| #[trigger] post.contains(x) <==> (pre.contains(x) || x == all[d]) by {
                if post.contains(x) && x != all[d] {
                    let j = choose|j: int| 0 <= j < post.len() && post[j] == x;
                    assert(pre[j] == x);
                }
                if pre.contains(x) {
                    let j = choose|j: int| 0 <= j < pre.len() && pre[j] == x;
                    assert(post[j] == x);
                }
                if x == all[d] {
                    assert(post[d] == x);
                }
            }
            assert forall|x: Seq<char>| #[trigger] self.has(x) <==> (s0.has(x) || post.contains(x)) by {
                assert(s1.has(x) <==> (s0.has(x) || pre.contains(x)));
            }
            assert forall|x: Seq<char>| s0.has(x) && !post.contains(x) implies #[trigger] self.accounts@[index_of(self.ids(), x)] == s0.accounts@[index_of(s0.ids(), x)] by {
                assert(s1.has(x));
                assert(s1.accounts@[index_of(s1.ids(), x)] == s0.accounts@[index_of(s0.ids(), x)]);
            }
            assert forall|j: int| 0 <= j < d + 1 implies {
                &&& #[trigger] self.referrer_of(all[j]) == s0.accounts_old@[j].1.referrer@
                &&& forall|l: u8| #[trigger] self.level_of(all[j], l).len() == 0
            } by {
                if j < d {
                    assert(all[j] != all[d]);
                    assert(pre[j] == all[j]);
                    assert(s1.has(all[j]));
                    assert(self.accounts@[index_of(self.ids(), all[j])] == s1.accounts@[index_of(s1.ids(), all[j])]);
                    assert(s1.referrer_of(all[j]) == s0.accounts_old@[j].1.referrer@);
                    assert forall|l: u8| #[trigger] self.level_of(all[j], l).len() == 0 by {
                        assert(s1.level_of(all[j], l).len() == 0);
                    }
                } else {
                    assert(all[d] == s0.accounts_old@[d].0@);
                }
            }
            done = done + 1;
        }
        assert(moved == all.subrange(0, done as int));
        assert forall|j: int| 0 <= j < k implies #[trigger] moved[j] == all[j] by {}
        assert(old_ids(self.accounts_old@) =~= all.subrange(k as int, n as int));
        assert(old_ids(self.accounts_old@).no_duplicates()) by {
            let rest = old_ids(self.accounts_old@);
            assert forall|i: int, j: int| 0 <= i < rest.len() && 0 <= j < rest.len() && i != j implies rest[i] != rest[j] by {
                assert(rest[i] == all[k + i]);
                assert(rest[j] == all[k + j]);
            }
        }
    }
}

impl Contract {
    /// Registers `account_id` under `referrer` as a join without fee would:
    /// under the owner where `referrer` is not registered or names the
    /// account itself. Nothing changes where the account is registered
    /// already, and no registered account's referrer changes.
    fn rejoin(&mut self, account_id: String, referrer: String)
        requires
            old(self).wf(),
        ensures
            final(self).wf(),
            forall|x: Seq<char>| #[trigger] final(self).has(x) <==> (old(self).has(x) || x == account_id@),
            forall|x: Seq<char>| old(self).has(x) ==> #[trigger] final(self).referrer_of(x) == old(self).referrer_of(x),
            !old(self).has(account_id@) && old(self).has(referrer@) && referrer@ != account_id@
                ==> final(self).referrer_of(account_id@) == referrer@,
            final(self).owner_id == old(self).owner_id,
            final(self).join_fee == old(self).join_fee,
            final(self).referral_fees == old(self).referral_fees,
            final(self).sales == old(self).sales,
            final(self).accounts_old == old(self).accounts_old,
    {
        let ghost s0 = *self;
        let fee = self.join_fee;
        let ghost rid = Some(referrer);
        let r = self.join(&account_id, Some(referrer), fee);
        match r {
            Ok(()) => {
                proof {
                    lemma_has_after_push(s0.ids(), account_id@);
                    lemma_joined_keeps_referrers(s0, *self, account_id@, s0.resolve_referrer(rid));
                }
            },
            Err(ContractError::SelfReferrer) => {
                let again = self.join(&account_id, None, fee);
                assert(again is Ok);
                proof {
                    lemma_has_after_push(s0.ids(), account_id@);
                    lemma_joined_keeps_referrers(s0, *self, account_id@, s0.owner_id@);
                }
            },
            Err(_) => {},
        }
    }

    /// Builds a consistent state from one whose accounts came over by
    /// `migrate_a1`: the owner is registered first, then each account is
    /// joined again in order, which fills in the affiliate levels. An
    /// account whose referrer is the owner or came before it keeps that
    /// referrer; any other goes under the owner.
    pub fn into_consistent(self) -> (r: Contract)
        requires
            self.account_ids@.len() == self.accounts@.len(),
            self.ids().no_duplicates(),
            fees_valid(self.referral_fees@),
            forall|k: int| 0 <= k < self.sales@.len() ==> (#[trigger] self.sales@[k]).wf(),
        ensures
            r.wf(),
            r.owner_id == self.owner_id,
            r.join_fee == self.join_fee,
            r.referral_fees == self.referral_fees,
            r.sales == self.sales,
            r.accounts_old == self.accounts_old,
            forall|x: Seq<char>| #[trigger] r.has(x) <==> (x == self.owner_id@ || self.has(x)),
            forall|j: int|
                0 <= j < self.num_accounts() && self.ids()[j] != self.owner_id@ && (self.referrer_at(j)
                    == self.owner_id@ || exists|m: int| 0 <= m < j && self.ids()[m] == self.referrer_at(j))
                    ==> #[trigger] r.referrer_of(self.ids()[j]) == self.referrer_at(j),
    {
        let ghost s = self;
        let ghost ids0 = self.ids();
        let ghost o = self.owner_id@;
        let Contract { owner_id, join_fee, referral_fees, account_ids, accounts, sales, accounts_old } = self;
        let mut c = Contract::new(owner_id, join_fee, referral_fees);
        let ghost c0 = c;
        c.sales = sales;
        c.accounts_old = accounts_old;
        proof {
            crate::contract::lemma_wf_sales_changed(c0, c);
            assert(c.ids()[0] == o);
            assert forall|x: Seq<char>| #[trigger] c.has(x) <==> x == o by {
                if c.has(x) {
                    let j = choose|j: int| 0 <= j < c.ids().len() && c.ids()[j] == x;
                }
            }
        }
        let mut i: usize = 0;
        while i < account_ids.len()
            invariant
                account_ids@.len() == accounts@.len(),
                ids0 == crate::account::ids_view(account_ids@),
                ids0.no_duplicates(),
                forall|j: int| 0 <= j < accounts@.len() ==> #[trigger] accounts@[j] == s.accounts@[j],
                s.accounts@.len() == accounts@.len(),
                i <= account_ids@.len(),
                c.wf(),
                c.owner_id == s.owner_id,
                c.owner_id@ == o,
                c.join_fee == s.join_fee,
                c.referral_fees == s.referral_fees,
                c.sales == s.sales,
                c.accounts_old == s.accounts_old,
                forall|x: Seq<char>| #[trigger] c.has(x) <==> (x == o || ids0.subrange(0, i as int).contains(x)),
                forall|j: int|
                    0 <= j < i && ids0[j] != o && (s.referrer_at(j) == o || exists|m: int| 0 <= m < j && ids0[m] == s.referrer_at(j))
                        ==> #[trigger] c.referrer_of(ids0[j]) == s.referrer_at(j),
            decreases account_ids@.len() - i,
        {
            let ghost c1 = c;
            let ghost d = i as int;
            let id = account_ids[i].clone();
            let referrer = accounts[i].account().referrer.clone();
            assert(id@ == ids0[d]);
            assert(referrer@ == s.referrer_at(d));
            let ghost pre = ids0.subrange(0, d);
            let ghost post = ids0.subrange(0, d + 1);
            assert forall|x: Seq<char>| #[trigger] post.contains(x) <==> (pre.contains(x) || x == ids0[d]) by {
                if post.contains(x) && x != ids0[d] {
                    let j = choose|j: int| 0 <= j < post.len() && post[j] == x;
                    assert(pre[j] == x);
                }
                if pre.contains(x) {
                    let j = choose|j: int| 0 <= j < pre.len() && pre[j] == x;
                    assert(post[j] == x);
                }
                if x == ids0[d] {
                    assert(post[d] == x);
                }
            }
            assert(!pre.contains(ids0[d])) by {
                if pre.contains(ids0[d]) {
                    let j = choose|j: int| 0 <= j < pre.len() && pre[j] == ids0[d];
                    assert(ids0[j] == ids0[d]);
                }
            }
            proof {
                if ids0[d] != o && (s.referrer_at(d) == o || exists|m: int| 0 <= m < d && ids0[m] == s.referrer_at(d)) {
                    if s.referrer_at(d) != o {
                        let m = choose|m: int| 0 <= m < d && ids0[m] == s.referrer_at(d);
                        assert(pre[m] == ids0[m]);
                        assert(c1.has(referrer@));
                        assert(referrer@ != id@);
                    }
                }
            }
            c.rejoin(id, referrer);
            assert forall|x: Seq<char>| #[trigger] c.has(x) <==> (x == o || post.contains(x)) by {
                assert(c1.has(x) <==> (x == o || pre.contains(x)));
            }
            assert forall|j: int|
                0 <= j < d + 1 && ids0[j] != o && (s.referrer_at(j) == o || exists|m: int| 0 <= m < j && ids0[m] == s.referrer_at(j))
                    implies #[trigger] c.referrer_of(ids0[j]) == s.referrer_at(j) by {
                if j < d {
                    assert(pre[j] == ids0[j]);
                    assert(c1.has(ids0[j]));
                    assert(c1.referrer_of(ids0[j]) == s.referrer_at(j));
                }
            }
            i = i + 1;
        }
        assert(ids0.subrange(0, i as int) =~= ids0);
        c
    }
}

/// After a join, every account registered before keeps its referrer.
proof fn lemma_joined_keeps_referrers(s0: Contract, s1: Contract, a: Seq<char>, r: Seq<char>)
    requires
        s0.wf(),
        !s0.has(a),
        s0.joined(s1, a, r),
    ensures
        forall|x: Seq<char>| s0.has(x) ==> #[trigger] s1.referrer_of(x) == s0.referrer_of(x),
        s1.referrer_of(a) == r,
{
    lemma_push_no_dup(s0.ids(), a);
    assert forall|x: Seq<char>| s0.has(x) implies #[trigger] s1.referrer_of(x) == s0.referrer_of(x) by {
        let j = choose|j: int| 0 <= j < s0.ids().len() && s0.ids()[j] == x;
        lemma_index_of(s0.ids(), j);
        assert(s1.ids()[j] == x);
        lemma_index_of(s1.ids(), j);
    }
    let n = s0.num_accounts() as int;
    assert(s1.ids()[n] == a);
    lemma_index_of(s1.ids(), n);
}

/// Appending `a` registers `a` and keeps every other identity as it was.
proof fn lemma_has_after_push(ids: Seq<Seq<char>>, a: Seq<char>)
    ensures
        forall|x: Seq<char>| #[trigger] ids.push(a).contains(x) <==> (ids.contains(x) || x == a),
{
    assert forall|x: Seq<char>| #[trigger] ids.push(a).contains(x) <==> (ids.contains(x) || x == a) by {
        if ids.contains(x) || x == a {
            lemma_has_push(ids, a, x);
        }
        if ids.push(a).contains(x) {
            let j = choose|j: int| 0 <= j < ids.push(a).len() && ids.push(a)[j] == x;
            if j < ids.len() {
                assert(ids[j] == x);
            }
        }
    }
}

} // verus!
