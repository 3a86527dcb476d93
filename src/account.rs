use std::collections::HashMap;
use vstd::prelude::*;

verus! {

broadcast use vstd::std_specs::hash::group_hash_axioms;

/// The identities of a list of accounts, as character sequences.
pub open spec fn ids_view(v: Seq<String>) -> Seq<Seq<char>> {
    v.map_values(|s: String| s@)
}

/// A participant: the account that referred it, and for each level the
/// accounts that joined below it on that level. A level's list is only
/// allocated on the first insertion into it, and holds no id twice. The
/// levels are kept in memory like the rest of the state (see `Contract`).
pub struct Account {
    pub referrer: String,
    pub affiliates: HashMap<u8, Vec<String>>,
}

/// An account record in the form that predates affiliate tracking: its
/// referrer, and the public keys (as bytes) of the links it had made.
pub struct AccountOld {
    pub referrer: String,
    pub links: Vec<Vec<u8>>,
}

/// The stored form of an account record.
pub enum VAccount {
    Current(Account),
}

impl VAccount {
    pub open spec fn current(&self) -> Account {
        match self {
            VAccount::Current(a) => *a,
        }
    }

    pub fn account(&self) -> (r: &Account)
        ensures
            *r == self.current(),
    {
        match self {
            VAccount::Current(a) => a,
        }
    }
}

impl From<VAccount> for Account {
    fn from(v_account: VAccount) -> (r: Account) {
        match v_account {
            VAccount::Current(account) => account,
        }
    }
}

impl vstd::std_specs::convert::FromSpecImpl<VAccount> for Account {
    open spec fn obeys_from_spec() -> bool {
        true
    }

    open spec fn from_spec(v: VAccount) -> Account {
        v.current()
    }
}

/// Inserts `x` into a list used as a set: unchanged where `x` is already in it.
pub open spec fn set_insert(s: Seq<Seq<char>>, x: Seq<char>) -> Seq<Seq<char>> {
    if s.contains(x) {
        s
    } else {
        s.push(x)
    }
}

/// The lazily summed affiliate count: a level is only counted where the one
/// above it is non-empty.
pub open spec fn lazy_total(n0: nat, n1: nat, n2: nat) -> nat {
    if n0 > 0 {
        if n1 > 0 {
            n0 + n1 + n2
        } else {
            n0
        }
    } else {
        0
    }
}

impl Account {
    /// The affiliates on a level; empty where the level was never allocated.
    pub open spec fn level(&self, level: u8) -> Seq<Seq<char>> {
        if self.affiliates@.contains_key(level) {
            ids_view(self.affiliates@[level]@)
        } else {
            Seq::empty()
        }
    }

    /// A level holds affiliates only where the level above it does.
    pub open spec fn levels_ordered(&self) -> bool {
        &&& self.level(1).len() > 0 ==> self.level(0).len() > 0
        &&& self.level(2).len() > 0 ==> self.level(1).len() > 0
    }

    pub open spec fn total_affiliates(&self) -> nat {
        lazy_total(self.level(0).len(), self.level(1).len(), self.level(2).len())
    }

    /// A record for `account_id`, which joined under `referrer`. The record
    /// does not hold its own id: the contract keys it by that id.
    pub fn new(account_id: &String, referrer: &String) -> (r: Account)
        ensures
            r.referrer@ == referrer@,
            r.affiliates@ == Map::<u8, Vec<String>>::empty(),
            forall|l: u8| #[trigger] r.level(l) == Seq::<Seq<char>>::empty(),
    {
        let _ = account_id;
        Account { referrer: referrer.clone(), affiliates: HashMap::new() }
    }

    /// Adds `affiliate_id` to the set of affiliates on `level`, allocating
    /// that level on first use.
    pub fn insert_affiliate(&mut self, level: u8, affiliate_id: &String)
        ensures
            final(self).referrer == old(self).referrer,
            final(self).level(level) == set_insert(old(self).level(level), affiliate_id@),
            forall|l: u8| l != level ==> #[trigger] final(self).level(l) == old(self).level(l),
    {
        let mut set: Vec<String> = match self.affiliates.remove(&level) {
            Some(v) => v,
            None => Vec::new(),
        };
        assert(ids_view(set@) == old(self).level(level));
        if !contains_id(&set, affiliate_id) {
            set.push(affiliate_id.clone());
            assert(ids_view(set@) =~= old(self).level(level).push(affiliate_id@));
        }
        self.affiliates.insert(level, set);
    }
}

/// Whether `id` is in `ids`.
pub fn contains_id(ids: &Vec<String>, id: &String) -> (r: bool)
    ensures
        r == ids_view(ids@).contains(id@),
{
    let mut i: usize = 0;
    while i < ids.len()
        invariant
            i <= ids.len(),
            forall|j: int| 0 <= j < i ==> ids@[j]@ != id@,
        decreases ids.len() - i,
    {
        if ids[i] == *id {
            assert(ids_view(ids@)[i as int] == id@);
            return true;
        }
        i = i + 1;
    }
    assert(!ids_view(ids@).contains(id@)) by {
        if ids_view(ids@).contains(id@) {
            let k = choose|k: int| 0 <= k < ids_view(ids@).len() && ids_view(ids@)[k] == id@;
            assert(ids@[k]@ == id@);
        }
    }
    false
}

/// The number of affiliates of `account` on `level`.
pub fn get_affiliates_num(account: &Account, level: u8) -> (r: u64)
    ensures
        r as nat == account.level(level).len(),
{
    match account.affiliates.get(&level) {
        Some(affiliates) => affiliates.len() as u64,
        None => 0,
    }
}

/// `n`, or `u64::MAX` where `n` is larger.
pub open spec fn saturated(n: nat) -> nat {
    if n <= u64::MAX {
        n
    } else {
        u64::MAX as nat
    }
}

/// What is shown of an account: its referrer and how many affiliates it has.
pub struct AccountOutput {
    pub referrer: String,
    pub affiliates_num: u64,
}

impl AccountOutput {
    /// Counts level 1 only where level 0 is non-empty, and level 2 only where
    /// level 1 is. The count saturates at `u64::MAX`.
    pub fn from_account(account: &Account) -> (r: AccountOutput)
        ensures
            r.referrer@ == account.referrer@,
            r.affiliates_num as nat == saturated(account.total_affiliates()),
    {
        let aff_0 = get_affiliates_num(account, 0);
        let aff_1 = if aff_0 > 0 {
            get_affiliates_num(account, 1)
        } else {
            0
        };
        let aff_2 = if aff_1 > 0 {
            get_affiliates_num(account, 2)
        } else {
            0
        };
        AccountOutput {
            referrer: account.referrer.clone(),
            affiliates_num: aff_0.saturating_add(aff_1).saturating_add(aff_2),
        }
    }
}

} // verus!
