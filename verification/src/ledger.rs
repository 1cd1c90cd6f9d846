//! The ledger model: the balances that the host ledger holds, as an
//! explicit key-value store passed into each handler. A transfer debits
//! its source and credits its destination atomically, conserving the
//! total; the total always fits in a machine word, as it does on the
//! host ledger.

use vstd::prelude::*;
use vstd::pervasive::VecAdditionalExecFns;

verus! {

/// One account: an address and its current balance in the smallest
/// currency unit.
#[derive(Clone, Copy, Debug)]
pub struct AccountEntry {
    pub addr: [u8; 32],
    pub balance: u64,
}

/// The balance that `s` assigns to address `a`: that of the first entry
/// whose address is `a`, or 0 where no entry carries it (an account that
/// has never been credited).
pub open spec fn bal_in(s: Seq<AccountEntry>, a: Seq<u8>) -> u64
    decreases s.len(),
{
    if s.len() == 0 {
        0
    } else if s[0].addr@ == a {
        s[0].balance
    } else {
        bal_in(s.drop_first(), a)
    }
}

/// The sum of all balances in `s`.
pub open spec fn sum_bal(s: Seq<AccountEntry>) -> int
    decreases s.len(),
{
    if s.len() == 0 {
        0int
    } else {
        s[0].balance + sum_bal(s.drop_first())
    }
}

/// The balances held by the host ledger. `total` caches the sum of all
/// balances; the well-formedness invariant ties the two together, which
/// bounds every balance (and every credit) by a machine word.
pub struct Ledger {
    accounts: Vec<AccountEntry>,
    total: u64,
}

pub proof fn lemma_sum_nonneg(s: Seq<AccountEntry>)
    ensures
        sum_bal(s) >= 0,
    decreases s.len(),
{
    if s.len() > 0 {
        lemma_sum_nonneg(s.drop_first());
    }
}

pub proof fn lemma_bal_le_sum(s: Seq<AccountEntry>, i: int)
    requires
        0 <= i < s.len(),
    ensures
        s[i].balance <= sum_bal(s),
    decreases s.len(),
{
    if i == 0 {
        lemma_sum_nonneg(s.drop_first());
    } else {
        lemma_bal_le_sum(s.drop_first(), i - 1);
    }
}

pub proof fn lemma_sum_update(s: Seq<AccountEntry>, i: int, e: AccountEntry)
    requires
        0 <= i < s.len(),
    ensures
        sum_bal(s.update(i, e)) == sum_bal(s) - s[i].balance + e.balance,
    decreases s.len(),
{
    if i == 0 {
        assert(s.update(0, e).drop_first() =~= s.drop_first());
    } else {
        assert(s.update(i, e).drop_first() =~= s.drop_first().update(i - 1, e));
        lemma_sum_update(s.drop_first(), i - 1, e);
    }
}

pub proof fn lemma_sum_push(s: Seq<AccountEntry>, e: AccountEntry)
    ensures
        sum_bal(s.push(e)) == sum_bal(s) + e.balance,
    decreases s.len(),
{
    if s.len() == 0 {
        assert(s.push(e)[0] == e);
        assert(s.push(e).drop_first() =~= Seq::<AccountEntry>::empty());
        assert(sum_bal(Seq::<AccountEntry>::empty()) == 0);
        assert(sum_bal(s.push(e)) == e.balance + sum_bal(s.push(e).drop_first()));
    } else {
        assert(s.push(e).drop_first() =~= s.drop_first().push(e));
        lemma_sum_push(s.drop_first(), e);
    }
}

/// Updating the first entry of an address, keeping its address, moves
/// that address's balance to the new value and no other.
pub proof fn lemma_bal_update(s: Seq<AccountEntry>, i: int, e: AccountEntry)
    requires
        0 <= i < s.len(),
        e.addr@ == s[i].addr@,
        forall|j: int| 0 <= j < i ==> s[j].addr@ != s[i].addr@,
    ensures
        forall|x: Seq<u8>|
            bal_in(s.update(i, e), x) == if x == e.addr@ {
                e.balance
            } else {
                bal_in(s, x)
            },
    decreases s.len(),
{
    if i == 0 {
        assert(s.update(0, e).drop_first() =~= s.drop_first());
        assert forall|x: Seq<u8>|
            bal_in(s.update(0, e), x) == if x == e.addr@ {
                e.balance
            } else {
                bal_in(s, x)
            } by {
            if x != e.addr@ {
                assert(bal_in(s.update(0, e), x) == bal_in(s.drop_first(), x));
            }
        }
    } else {
        assert(s.update(i, e).drop_first() =~= s.drop_first().update(i - 1, e));
        lemma_bal_update(s.drop_first(), i - 1, e);
        assert forall|x: Seq<u8>|
            bal_in(s.update(i, e), x) == if x == e.addr@ {
                e.balance
            } else {
                bal_in(s, x)
            } by {
            let su = s.update(i, e);
            assert(su[0] == s[0]);
            if x == s[0].addr@ {
                assert(x != e.addr@);
                assert(bal_in(su, x) == su[0].balance);
                assert(bal_in(s, x) == s[0].balance);
            } else {
                assert(bal_in(su, x) == bal_in(su.drop_first(), x));
                assert(bal_in(s, x) == bal_in(s.drop_first(), x));
                assert(bal_in(su.drop_first(), x) == if x == e.addr@ {
                    e.balance
                } else {
                    bal_in(s.drop_first(), x)
                });
            }
        }
    }
}

/// Appending an entry for an address that no entry carries gives that
/// address the new balance and changes no other.
pub proof fn lemma_bal_push(s: Seq<AccountEntry>, e: AccountEntry)
    requires
        forall|j: int| 0 <= j < s.len() ==> s[j].addr@ != e.addr@,
    ensures
        forall|x: Seq<u8>|
            bal_in(s.push(e), x) == if x == e.addr@ {
                e.balance
            } else {
                bal_in(s, x)
            },
    decreases s.len(),
{
    if s.len() == 0 {
        assert forall|x: Seq<u8>|
            bal_in(s.push(e), x) == if x == e.addr@ {
                e.balance
            } else {
                bal_in(s, x)
            } by {
            if x != e.addr@ {
                assert(bal_in(s.push(e).drop_first(), x) == 0) by {
                    assert(s.push(e).drop_first().len() == 0);
                }
            }
        }
    } else {
        assert(s.push(e).drop_first() =~= s.drop_first().push(e));
        assert(forall|j: int|
            0 <= j < s.drop_first().len() ==> s.drop_first()[j].addr@ != e.addr@);
        lemma_bal_push(s.drop_first(), e);
        assert forall|x: Seq<u8>|
            bal_in(s.push(e), x) == if x == e.addr@ {
                e.balance
            } else {
                bal_in(s, x)
            } by {
            let sp = s.push(e);
            assert(sp[0] == s[0]);
            if x == s[0].addr@ {
                assert(x != e.addr@);
                assert(bal_in(sp, x) == sp[0].balance);
                assert(bal_in(s, x) == s[0].balance);
            } else {
                assert(bal_in(sp, x) == bal_in(sp.drop_first(), x));
                assert(bal_in(s, x) == bal_in(s.drop_first(), x));
                assert(bal_in(sp.drop_first(), x) == if x == e.addr@ {
                    e.balance
                } else {
                    bal_in(s.drop_first(), x)
                });
            }
        }
    }
}

/// The balance of the first entry carrying `a` is the balance of `a`.
pub proof fn lemma_bal_first_match(s: Seq<AccountEntry>, i: int, a: Seq<u8>)
    requires
        0 <= i < s.len(),
        s[i].addr@ == a,
        forall|j: int| 0 <= j < i ==> s[j].addr@ != a,
    ensures
        bal_in(s, a) == s[i].balance,
    decreases s.len(),
{
    if i > 0 {
        lemma_bal_first_match(s.drop_first(), i - 1, a);
    }
}

/// An address that no entry carries has balance 0.
pub proof fn lemma_bal_no_match(s: Seq<AccountEntry>, a: Seq<u8>)
    requires
        forall|j: int| 0 <= j < s.len() ==> s[j].addr@ != a,
    ensures
        bal_in(s, a) == 0,
    decreases s.len(),
{
    if s.len() > 0 {
        lemma_bal_no_match(s.drop_first(), a);
    }
}

/// A transfer's effect on the balances: `amount` moved from `src` to
/// `dst`, every other balance untouched, and the total conserved.
pub open spec fn moved(pre: Ledger, post: Ledger, src: Seq<u8>, dst: Seq<u8>, amount: u64) -> bool {
    &&& (forall|x: Seq<u8>| x != src && x != dst ==> post.balance_of(x) == pre.balance_of(x))
    &&& (src != dst ==> post.balance_of(src) == pre.balance_of(src) - amount
        && post.balance_of(dst) == pre.balance_of(dst) + amount)
    &&& (src == dst ==> post.balance_of(src) == pre.balance_of(src))
    &&& post.total_balance() == pre.total_balance()
}

impl Ledger {
    /// The balance the ledger assigns to address `a`; an address never
    /// credited holds 0.
    pub closed spec fn balance_of(self, a: Seq<u8>) -> u64 {
        bal_in(self.accounts@, a)
    }

    /// The sum of all balances.
    pub closed spec fn total_balance(self) -> int {
        sum_bal(self.accounts@)
    }

    /// Well-formed: the cached total is the sum of all balances, so the
    /// sum fits in a machine word.
    pub closed spec fn wf(self) -> bool {
        sum_bal(self.accounts@) == self.total as int
    }

    /// An empty ledger: every balance 0.
    pub fn new() -> (r: Ledger)
        ensures
            r.wf(),
            r.total_balance() == 0,
            forall|x: Seq<u8>| r.balance_of(x) == 0,
    {
        let r = Ledger { accounts: Vec::new(), total: 0 };
        proof {
            assert(forall|x: Seq<u8>| bal_in(r.accounts@, x) == 0);
        }
        r
    }

    /// The index of the first entry carrying `addr`, if any.
    fn find_index(&self, addr: &[u8; 32]) -> (r: Option<usize>)
        ensures
            match r {
                Some(i) => i < self.accounts@.len() && self.accounts@[i as int].addr@ == addr@
                    && forall|j: int| 0 <= j < i ==> self.accounts@[j].addr@ != addr@,
                None => forall|j: int|
                    0 <= j < self.accounts@.len() ==> self.accounts@[j].addr@ != addr@,
            },
    {
        let mut i: usize = 0;
        while i < self.accounts.len()
            invariant
                i <= self.accounts@.len(),
                forall|j: int| 0 <= j < i ==> self.accounts@[j].addr@ != addr@,
            decreases self.accounts@.len() - i,
        {
            if crate::derivation::bytes_eq(&self.accounts[i].addr, addr) {
                return Some(i);
            }
            i += 1;
        }
        None
    }

    /// Read the balance of `addr`.
    pub fn balance(&self, addr: &[u8; 32]) -> (r: u64)
        ensures
            r == self.balance_of(addr@),
    {
        match self.find_index(addr) {
            Some(i) => {
                proof {
                    lemma_bal_first_match(self.accounts@, i as int, addr@);
                }
                self.accounts[i].balance
            },
            None => {
                proof {
                    lemma_bal_no_match(self.accounts@, addr@);
                }
                0
            },
        }
    }

    /// Mint `amount` to `addr`: the way value enters the model, standing
    /// for the balances accounts already hold on the host ledger. Refused
    /// (returning false, changing nothing) where the total would outgrow
    /// a machine word.
    pub fn fund(&mut self, addr: &[u8; 32], amount: u64) -> (r: bool)
        requires
            old(self).wf(),
        ensures
            final(self).wf(),
            r <==> old(self).total_balance() + amount <= u64::MAX,
            r ==> final(self).balance_of(addr@) == old(self).balance_of(addr@) + amount && (
            forall|x: Seq<u8>| x != addr@ ==> final(self).balance_of(x) == old(self).balance_of(x))
                && final(self).total_balance() == old(self).total_balance() + amount,
            !r ==> *final(self) == *old(self),
    {
        match self.total.checked_add(amount) {
            Some(new_total) => {
                match self.find_index(addr) {
                    Some(i) => {
                        proof {
                            lemma_bal_le_sum(self.accounts@, i as int);
                        }
                        let e = AccountEntry {
                            addr: *addr,
                            balance: self.accounts[i].balance + amount,
                        };
                        proof {
                            lemma_bal_update(self.accounts@, i as int, e);
                            lemma_sum_update(self.accounts@, i as int, e);
                            lemma_bal_first_match(self.accounts@, i as int, addr@);
                        }
                        self.accounts.set(i, e);
                        self.total = new_total;
                    },
                    None => {
                        let e = AccountEntry { addr: *addr, balance: amount };
                        proof {
                            lemma_bal_push(self.accounts@, e);
                            lemma_sum_push(self.accounts@, e);
                            lemma_bal_no_match(self.accounts@, addr@);
                        }
                        self.accounts.push(e);
                        self.total = new_total;
                    },
                }
                true
            },
            None => false,
        }
    }

    /// Move `amount` from `source` to `dest`: all-or-nothing, total
    /// conserved. The authorization for the move is the callers' concern;
    /// this is the mechanism both transfer modes share.
    pub(crate) fn move_value(
        &mut self,
        source: &[u8; 32],
        dest: &[u8; 32],
        amount: u64,
    ) -> (r: Result<(), crate::errors::ErrorCode>)
        requires
            old(self).wf(),
        ensures
            final(self).wf(),
            r is Ok <==> old(self).balance_of(source@) >= amount,
            r is Ok ==> moved(*old(self), *final(self), source@, dest@, amount),
            r is Err ==> *final(self) == *old(self) && r == Err::<(), crate::errors::ErrorCode>(
                crate::errors::ErrorCode::InsufficientFunds,
            ),
    {
        let src_bal = self.balance(source);
        if src_bal < amount {
            return Err(crate::errors::ErrorCode::InsufficientFunds);
        }
        if amount == 0 || crate::derivation::bytes_eq(source, dest) {
            return Ok(());
        }
        let i = match self.find_index(source) {
            Some(i) => i,
            None => {
                // a positive balance means some entry carries the address
                proof {
                    lemma_bal_no_match(self.accounts@, source@);
                }
                unreached()
            },
        };
        proof {
            lemma_bal_first_match(self.accounts@, i as int, source@);
        }
        let debited = AccountEntry { addr: self.accounts[i].addr, balance: src_bal - amount };
        proof {
            lemma_bal_update(self.accounts@, i as int, debited);
            lemma_sum_update(self.accounts@, i as int, debited);
        }
        self.accounts.set(i, debited);
        // Here the sum of balances is `total - amount`; crediting `dest`
        // cannot overflow because its balance is bounded by that sum.
        match self.find_index(dest) {
            Some(j) => {
                proof {
                    lemma_bal_le_sum(self.accounts@, j as int);
                    lemma_sum_nonneg(self.accounts@);
                    lemma_bal_first_match(self.accounts@, j as int, dest@);
                }
                let credited = AccountEntry {
                    addr: self.accounts[j].addr,
                    balance: self.accounts[j].balance + amount,
                };
                proof {
                    lemma_bal_update(self.accounts@, j as int, credited);
                    lemma_sum_update(self.accounts@, j as int, credited);
                }
                self.accounts.set(j, credited);
            },
            None => {
                let e = AccountEntry { addr: *dest, balance: amount };
                proof {
                    lemma_bal_push(self.accounts@, e);
                    lemma_sum_push(self.accounts@, e);
                    lemma_bal_no_match(self.accounts@, dest@);
                }
                self.accounts.push(e);
            },
        }
        Ok(())
    }
}

/// The conservation law: a completed transfer of `m` between distinct
/// addresses credits the destination by exactly `m`, debits the source by
/// exactly `m`, and leaves the total unchanged.
pub proof fn lemma_transfer_conserves(
    pre: Ledger,
    post: Ledger,
    src: Seq<u8>,
    dst: Seq<u8>,
    m: u64,
)
    requires
        moved(pre, post, src, dst, m),
        src != dst,
    ensures
        post.balance_of(dst) == pre.balance_of(dst) + m,
        post.balance_of(src) == pre.balance_of(src) - m,
        post.total_balance() == pre.total_balance(),
{
}

} // verus!
