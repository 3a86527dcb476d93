use crate::contract::{lemma_index_of, Contract};
use crate::sale::{Sale, SaleType};
use vstd::prelude::*;

verus! {

/// Every registered account but the owner has a registered referrer other
/// than itself.
pub proof fn lemma_referrer_valid(c: Contract, a: Seq<char>)
    requires
        c.wf(),
        c.has(a),
        a != c.owner_id@,
    ensures
        c.referrer_of(a) != a,
        c.has(c.referrer_of(a)),
{
    let i = choose|i: int| 0 <= i < c.ids().len() && c.ids()[i] == a;
    lemma_index_of(c.ids(), i);
    assert(c.has(c.referrer_at(i)));
}

/// A joined account is registered, under a referrer that was registered
/// before it joined and is not the account itself; so a second join with the
/// same identity finds it registered, whatever the referrer argument.
pub proof fn lemma_joined_registered(s0: Contract, s1: Contract, a: Seq<char>, r: Seq<char>)
    requires
        s0.wf(),
        !s0.has(a),
        s0.has(r),
        s0.joined(s1, a, r),
    ensures
        s1.has(a),
        s1.referrer_of(a) == r,
        s0.has(s1.referrer_of(a)),
        s1.referrer_of(a) != a,
{
    let n = s0.num_accounts() as int;
    crate::contract::lemma_joined_wf(s0, s1, a, r);
    assert(s1.ids()[n] == a);
    lemma_index_of(s1.ids(), n);
}

/// After `a` joins under a registered referrer `r` other than the owner,
/// `a` is a level-0 affiliate of `r`, a level-1 affiliate of `r`'s referrer
/// unless that is the owner, and a level-2 affiliate of the next one up on
/// the same terms; no account gets it on any other level.
pub proof fn lemma_join_levels(s0: Contract, s1: Contract, a: Seq<char>, r: Seq<char>)
    requires
        s0.wf(),
        !s0.has(a),
        s0.has(r),
        r != s0.owner_id@,
        s0.joined(s1, a, r),
    ensures
        s1.level_of(r, 0).contains(a),
        s0.referrer_of(r) != s0.owner_id@ ==> s1.level_of(s0.referrer_of(r), 1).contains(a),
        s0.referrer_of(r) != s0.owner_id@ && s0.referrer_of(s0.referrer_of(r)) != s0.owner_id@
            ==> s1.level_of(s0.referrer_of(s0.referrer_of(r)), 2).contains(a),
        forall|x: Seq<char>, l: u8|
            s0.has(x) && l >= 3 ==> #[trigger] s1.level_of(x, l) == s0.level_of(x, l),
{
    let n = s0.num_accounts() as int;
    assert forall|x: Seq<char>, l: u8| s0.has(x) implies #[trigger] s1.level_of(x, l) == if s0.receives(x, r, l) {
        s0.level_of(x, l).push(a)
    } else {
        s0.level_of(x, l)
    } by {
        let i = choose|i: int| 0 <= i < s0.ids().len() && s0.ids()[i] == x;
        lemma_index_of(s0.ids(), i);
        crate::contract::lemma_joined_wf(s0, s1, a, r);
        assert(s1.ids()[i] == x);
        lemma_index_of(s1.ids(), i);
    }
    let r2 = s0.referrer_of(r);
    let r3 = s0.referrer_of(r2);
    lemma_referrer_valid(s0, r);
    assert(s1.level_of(r, 0)[s0.level_of(r, 0).len() as int] == a);
    if r2 != s0.owner_id@ {
        lemma_referrer_valid(s0, r2);
        assert(s1.level_of(r2, 1)[s0.level_of(r2, 1).len() as int] == a);
        if r3 != s0.owner_id@ {
            assert(s0.receives(r3, r, 2));
            assert(s1.level_of(r3, 2)[s0.level_of(r3, 2).len() as int] == a);
        }
    }
}

/// A join raises by exactly one the affiliate count of each account that
/// gets the new account as an affiliate, and leaves every other count as it
/// was; so counts never fall as the tree grows.
pub proof fn lemma_affiliate_count_step(
    s0: Contract,
    s1: Contract,
    a: Seq<char>,
    r: Seq<char>,
    x: Seq<char>,
)
    requires
        s0.wf(),
        !s0.has(a),
        s0.has(r),
        s0.has(x),
        s0.joined(s1, a, r),
    ensures
        s1.affiliate_count_of(x) == s0.affiliate_count_of(x) + if s0.receives(x, r, 0)
            || s0.receives(x, r, 1) || s0.receives(x, r, 2) {
            1nat
        } else {
            0nat
        },
        s1.affiliate_count_of(x) >= s0.affiliate_count_of(x),
{
    let o = s0.owner_id@;
    let i = choose|i: int| 0 <= i < s0.ids().len() && s0.ids()[i] == x;
    lemma_index_of(s0.ids(), i);
    crate::contract::lemma_joined_wf(s0, s1, a, r);
    assert(s1.ids()[i] == x);
    lemma_index_of(s1.ids(), i);
    let old_acct = s0.acct(i);
    let new_acct = s1.acct(i);
    assert(old_acct.levels_ordered());
    let ri = choose|j: int| 0 <= j < s0.ids().len() && s0.ids()[j] == r;
    lemma_index_of(s0.ids(), ri);
    if r != o {
        let r2 = s0.referrer_of(r);
        assert(s0.has(s0.referrer_at(ri)));
        let j2 = choose|j: int| 0 <= j < s0.ids().len() && s0.ids()[j] == r2;
        lemma_index_of(s0.ids(), j2);
        assert(s0.ids()[j2] == s0.referrer_at(ri));
        // the chain goes to accounts that joined earlier, so it has no repeats
        assert(j2 < ri);
        if r2 != o {
            let r3 = s0.referrer_of(r2);
            assert(s0.has(s0.referrer_at(j2)));
            let j3 = choose|j: int| 0 <= j < s0.ids().len() && s0.ids()[j] == r3;
            lemma_index_of(s0.ids(), j3);
            assert(s0.ids()[j3] == s0.referrer_at(j2));
            assert(j3 < j2);
            if s0.receives(x, r, 1) {
                assert(s0.ids()[i] == s0.referrer_at(ri));
                assert(s0.acct(i).level(0).contains(s0.ids()[ri]));
                assert(old_acct.level(0).len() > 0);
            }
            if s0.receives(x, r, 2) {
                assert(s0.ids()[i] == s0.referrer_at(j2));
                assert(s0.acct(i).level(0).contains(s0.ids()[j2]));
                assert(s0.acct(i).level(1).contains(s0.ids()[ri]));
                assert(old_acct.level(0).len() > 0);
                assert(old_acct.level(1).len() > 0);
            }
        }
    }
    assert(new_acct.level(0).len() == old_acct.level(0).len() + if s0.receives(x, r, 0) { 1int } else { 0int });
    assert(new_acct.level(1).len() == old_acct.level(1).len() + if s0.receives(x, r, 1) { 1int } else { 0int });
    assert(new_acct.level(2).len() == old_acct.level(2).len() + if s0.receives(x, r, 2) { 1int } else { 0int });
}

/// A deposit that a ByAmount sale takes keeps its total within the cap.
pub proof fn lemma_deposit_within_cap(sale: Sale, next: Sale, who: Seq<char>, amount: u128)
    requires
        sale.sale_type == SaleType::ByAmount,
        sale.deposit_refusal(who, amount) is None,
        sale.deposited(&next, who, amount),
    ensures
        next.collected_amount <= next.max_amount,
{
}

} // verus!
