//! The fungible-token ledger: per-account balances and the total supply.

use vstd::prelude::*;

use crate::address::Address;
use crate::u256::{pow_2_256, U256};

verus! {

/// The errors the ledger reports, one variant for each rule it enforces.
#[derive(Clone, Copy, PartialEq, Eq, Structural, Debug)]
pub enum Erc20Error {
    /// Tokens were to leave the zero address.
    InvalidSender {
        /// The rejected paying address.
        sender: Address,
    },
    /// Tokens were to be delivered to the zero address.
    InvalidReceiver {
        /// The rejected receiving address.
        receiver: Address,
    },
    /// The paying account holds fewer tokens than the operation moves.
    InsufficientBalance {
        /// The paying address.
        sender: Address,
        /// What the paying account holds.
        balance: U256,
        /// What the operation would move.
        needed: U256,
    },
    /// An allowance was to be granted to the zero address.
    InvalidSpender {
        /// The rejected spending address.
        spender: Address,
    },
    /// An allowance was to be granted by the zero address.
    InvalidApprover {
        /// The rejected granting address.
        approver: Address,
    },
    /// A spender's allowance is smaller than the operation needs.
    InsufficientAllowance {
        /// The spending address.
        spender: Address,
        /// The allowance the spender was granted.
        allowance: U256,
        /// What the operation would spend.
        needed: U256,
    },
}

/// No two entries name the same account.
pub open spec fn distinct_addresses(s: Seq<(Address, U256)>) -> bool {
    forall|i: int, j: int| 0 <= i < j < s.len() ==> s[i].0.value() != s[j].0.value()
}

/// The balance recorded for account `a`: the value of the entry that names
/// it, or zero where no entry does.
pub open spec fn balance_in(s: Seq<(Address, U256)>, a: int) -> int
    decreases s.len(),
{
    if s.len() == 0 {
        0
    } else if s.last().0.value() == a {
        s.last().1.value()
    } else {
        balance_in(s.drop_last(), a)
    }
}

/// The sum of all recorded balances.
pub open spec fn total_of(s: Seq<(Address, U256)>) -> int
    decreases s.len(),
{
    if s.len() == 0 {
        0
    } else {
        total_of(s.drop_last()) + s.last().1.value()
    }
}

proof fn lemma_total_nonneg(s: Seq<(Address, U256)>)
    ensures
        total_of(s) >= 0,
    decreases s.len(),
{
    if s.len() > 0 {
        lemma_total_nonneg(s.drop_last());
    }
}

proof fn lemma_entry_le_total(s: Seq<(Address, U256)>, i: int)
    requires
        0 <= i < s.len(),
    ensures
        s[i].1.value() <= total_of(s),
    decreases s.len(),
{
    lemma_total_nonneg(s.drop_last());
    if i == s.len() - 1 {
        assert(s.last() == s[i]);
    } else {
        lemma_entry_le_total(s.drop_last(), i);
        assert(s.drop_last()[i] == s[i]);
    }
}

proof fn lemma_distinct_drop_last(s: Seq<(Address, U256)>)
    requires
        distinct_addresses(s),
        s.len() > 0,
    ensures
        distinct_addresses(s.drop_last()),
{
    assert forall|i: int, j: int|
        0 <= i < j < s.drop_last().len() implies s.drop_last()[i].0.value()
        != s.drop_last()[j].0.value() by {
        assert(s.drop_last()[i] == s[i]);
        assert(s.drop_last()[j] == s[j]);
    }
}

proof fn lemma_balance_found(s: Seq<(Address, U256)>, i: int)
    requires
        distinct_addresses(s),
        0 <= i < s.len(),
    ensures
        balance_in(s, s[i].0.value()) == s[i].1.value(),
    decreases s.len(),
{
    if i == s.len() - 1 {
        assert(s.last() == s[i]);
    } else {
        assert(s.last() == s[s.len() - 1]);
        assert(s.last().0.value() != s[i].0.value());
        lemma_distinct_drop_last(s);
        lemma_balance_found(s.drop_last(), i);
        assert(s.drop_last()[i] == s[i]);
    }
}

proof fn lemma_balance_absent(s: Seq<(Address, U256)>, a: int)
    requires
        forall|i: int| 0 <= i < s.len() ==> s[i].0.value() != a,
    ensures
        balance_in(s, a) == 0,
    decreases s.len(),
{
    if s.len() > 0 {
        assert(s.last() == s[s.len() - 1]);
        assert forall|i: int|
            0 <= i < s.drop_last().len() implies s.drop_last()[i].0.value() != a by {
            assert(s.drop_last()[i] == s[i]);
        }
        lemma_balance_absent(s.drop_last(), a);
    }
}

proof fn lemma_balance_update_other(s: Seq<(Address, U256)>, i: int, x: (Address, U256), b: int)
    requires
        0 <= i < s.len(),
        x.0.value() == s[i].0.value(),
        b != x.0.value(),
    ensures
        balance_in(s.update(i, x), b) == balance_in(s, b),
    decreases s.len(),
{
    let t = s.update(i, x);
    if i == s.len() - 1 {
        assert(t.last() == x);
        assert(s.last() == s[i]);
        assert(t.drop_last() =~= s.drop_last());
    } else {
        assert(t.last() == s.last());
        assert(t.drop_last() =~= s.drop_last().update(i, x));
        if s.last().0.value() != b {
            assert(s.drop_last()[i] == s[i]);
            lemma_balance_update_other(s.drop_last(), i, x, b);
        }
    }
}

proof fn lemma_total_update(s: Seq<(Address, U256)>, i: int, x: (Address, U256))
    requires
        0 <= i < s.len(),
    ensures
        total_of(s.update(i, x)) == total_of(s) - s[i].1.value() + x.1.value(),
    decreases s.len(),
{
    let t = s.update(i, x);
    if i == s.len() - 1 {
        assert(t.drop_last() =~= s.drop_last());
        assert(t.last() == x);
        assert(s.last() == s[i]);
    } else {
        assert(t.drop_last() =~= s.drop_last().update(i, x));
        assert(t.last() == s.last());
        assert(s.drop_last()[i] == s[i]);
        lemma_total_update(s.drop_last(), i, x);
    }
}

/// The position of the entry that names `account`, if any.
fn index_of(v: &Vec<(Address, U256)>, account: Address) -> (r: Option<usize>)
    ensures
        match r {
            Some(i) => i < v@.len() && v@[i as int].0 == account,
            None => forall|j: int| 0 <= j < v@.len() ==> v@[j].0.value() != account.value(),
        },
{
    let n = v.len();
    let mut i: usize = 0;
    while i < n
        invariant
            n == v@.len(),
            i <= n,
            forall|j: int| 0 <= j < i ==> v@[j].0.value() != account.value(),
        decreases n - i,
    {
        let e = v[i];
        if e.0 == account {
            return Some(i);
        }
        proof {
            e.0.lemma_value_injective(account);
        }
        i += 1;
    }
    None
}

/// The token ledger: every account's balance, and the total supply.
pub struct Erc20 {
    balances: Vec<(Address, U256)>,
    total_supply: U256,
}

impl Erc20 {
    /// The recorded balance entries.
    pub closed spec fn entries(self) -> Seq<(Address, U256)> {
        self.balances@
    }

    /// The total supply as a mathematical integer.
    pub closed spec fn supply(self) -> int {
        self.total_supply.value()
    }

    /// The balance of account `a` as a mathematical integer.
    pub open spec fn balance(self, a: int) -> int {
        balance_in(self.entries(), a)
    }

    /// The ledger's invariant: no account is recorded twice, and the total
    /// supply is exactly the sum of all recorded balances.
    pub open spec fn wf(self) -> bool {
        &&& distinct_addresses(self.entries())
        &&& total_of(self.entries()) == self.supply()
    }

    /// An empty ledger: no holders, zero supply.
    pub fn new() -> (r: Erc20)
        ensures
            r.wf(),
            r.supply() == 0,
            forall|a: int| r.balance(a) == 0,
    {
        let r = Erc20 { balances: Vec::new(), total_supply: U256::zero() };
        proof {
            assert forall|a: int| r.balance(a) == 0 by {
                assert(r.entries().len() == 0);
            }
        }
        r
    }

    /// The number of tokens in existence.
    pub fn total_supply(&self) -> (r: U256)
        ensures
            r.value() == self.supply(),
    {
        self.total_supply
    }

    /// The number of tokens held by `account`.
    pub fn balance_of(&self, account: Address) -> (r: U256)
        requires
            self.wf(),
        ensures
            r.value() == self.balance(account.value()),
    {
        match index_of(&self.balances, account) {
            Some(i) => {
                proof {
                    lemma_balance_found(self.balances@, i as int);
                }
                self.balances[i].1
            },
            None => {
                proof {
                    lemma_balance_absent(self.balances@, account.value());
                }
                U256::zero()
            },
        }
    }

    /// Creates `value` tokens out of nothing and assigns them to `account`.
    ///
    /// The zero address is rejected as a receiver; every other account is
    /// credited and the total supply grows by the same amount. The caller
    /// keeps the total supply from overflowing, as the host ledger treats an
    /// overflowing supply as a fatal fault rather than an error.
    pub fn _mint(&mut self, account: Address, value: U256) -> (r: Result<(), Erc20Error>)
        requires
            old(self).wf(),
            account.value() != 0 ==> old(self).supply() + value.value() < pow_2_256(),
        ensures
            final(self).wf(),
            account.value() == 0 ==> r == Err::<(), Erc20Error>(
                Erc20Error::InvalidReceiver { receiver: (Address { hi: 0, lo: 0 }) },
            ) && *final(self) == *old(self),
            account.value() != 0 ==> ({
                &&& r == Ok::<(), Erc20Error>(())
                &&& final(self).supply() == old(self).supply() + value.value()
                &&& forall|a: int|
                    final(self).balance(a) == (if a == account.value() {
                        old(self).balance(a) + value.value()
                    } else {
                        old(self).balance(a)
                    })
            }),
    {
        if account.is_zero() {
            return Err(Erc20Error::InvalidReceiver { receiver: Address::zero() });
        }
        let ghost old_s = self.balances@;
        let new_total = self.total_supply.add(value);
        match index_of(&self.balances, account) {
            Some(i) => {
                let entry = self.balances[i];
                proof {
                    lemma_entry_le_total(old_s, i as int);
                }
                let nb = entry.1.add(value);
                self.balances.set(i, (account, nb));
                self.total_supply = new_total;
                proof {
                    let new_s = self.balances@;
                    let x = (account, nb);
                    assert(new_s =~= old_s.update(i as int, x));
                    assert forall|p: int, q: int|
                        0 <= p < q < new_s.len() implies new_s[p].0.value()
                        != new_s[q].0.value() by {
                        assert(old_s[p].0.value() != old_s[q].0.value());
                    }
                    lemma_total_update(old_s, i as int, x);
                    lemma_balance_found(old_s, i as int);
                    assert(distinct_addresses(new_s));
                    assert forall|a: int|
                        self.balance(a) == (if a == account.value() {
                            old(self).balance(a) + value.value()
                        } else {
                            old(self).balance(a)
                        }) by {
                        if a == account.value() {
                            lemma_balance_found(new_s, i as int);
                        } else {
                            lemma_balance_update_other(old_s, i as int, x, a);
                        }
                    }
                }
                Ok(())
            },
            None => {
                self.balances.push((account, value));
                self.total_supply = new_total;
                proof {
                    let new_s = self.balances@;
                    assert(new_s =~= old_s.push((account, value)));
                    assert(new_s.last() == (account, value));
                    assert(new_s.drop_last() =~= old_s);
                    assert forall|p: int, q: int|
                        0 <= p < q < new_s.len() implies new_s[p].0.value()
                        != new_s[q].0.value() by {
                        if q < old_s.len() {
                            assert(old_s[p].0.value() != old_s[q].0.value());
                        } else {
                            assert(new_s[q] == (account, value));
                            assert(new_s[p] == old_s[p]);
                        }
                    }
                    lemma_balance_absent(old_s, account.value());
                    assert forall|a: int|
                        self.balance(a) == (if a == account.value() {
                            old(self).balance(a) + value.value()
                        } else {
                            old(self).balance(a)
                        }) by {
                        if a == account.value() {
                            assert(balance_in(new_s, a) == value.value());
                        } else {
                            assert(balance_in(new_s, a) == balance_in(old_s, a));
                        }
                    }
                }
                Ok(())
            },
        }
    }
}

} // verus!
