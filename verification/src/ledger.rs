//! The currency side of the ledger: what each holder has, and transfers
//! between holders. Currency is never made or lost by a transfer.

use crate::amount::{lemma_amount_bounded, limit, Amount};
use crate::identity::Holder;
use crate::table::{index_of, lemma_entry_found, Entry, Key, Table};
use vstd::prelude::*;

verus! {

/// The sum of the amounts that the entries hold.
pub open spec fn total<K: Key>(s: Seq<Entry<K, Amount>>) -> nat
    decreases s.len(),
{
    if s.len() == 0 {
        0
    } else {
        total(s.drop_last()) + s.last().value@
    }
}

/// An appended entry adds its amount to the sum.
pub proof fn lemma_total_push<K: Key>(s: Seq<Entry<K, Amount>>, e: Entry<K, Amount>)
    ensures
        total(s.push(e)) == total(s) + e.value@,
{
    assert(s.push(e).drop_last() =~= s);
}

/// A replaced entry changes the sum by the difference of the two amounts.
pub proof fn lemma_total_update<K: Key>(s: Seq<Entry<K, Amount>>, i: int, e: Entry<K, Amount>)
    requires
        0 <= i < s.len(),
    ensures
        total(s.update(i, e)) + s[i].value@ == total(s) + e.value@,
    decreases s.len(),
{
    let t = s.update(i, e);
    if i == s.len() - 1 {
        assert(t.drop_last() =~= s.drop_last());
    } else {
        lemma_total_update(s.drop_last(), i, e);
        assert(t.drop_last() =~= s.drop_last().update(i, e));
    }
}

/// An entry taken out takes its amount from the sum.
pub proof fn lemma_total_remove<K: Key>(s: Seq<Entry<K, Amount>>, i: int)
    requires
        0 <= i < s.len(),
    ensures
        total(s.remove(i)) + s[i].value@ == total(s),
    decreases s.len(),
{
    let t = s.remove(i);
    if i == s.len() - 1 {
        assert(t =~= s.drop_last());
    } else {
        lemma_total_remove(s.drop_last(), i);
        assert(t.drop_last() =~= s.drop_last().remove(i));
        assert(t.last() == s.last());
    }
}

/// The sum of the first entries and the next amount is the sum of one entry
/// more.
pub proof fn lemma_total_take<K: Key>(s: Seq<Entry<K, Amount>>, i: int)
    requires
        0 <= i < s.len(),
    ensures
        total(s.take(i + 1)) == total(s.take(i)) + s[i].value@,
{
    assert(s.take(i + 1).drop_last() =~= s.take(i));
}

/// The sum of the first entries is at most the sum of all.
pub proof fn lemma_total_prefix<K: Key>(s: Seq<Entry<K, Amount>>, i: int)
    requires
        0 <= i <= s.len(),
    ensures
        total(s.take(i)) <= total(s),
    decreases s.len() - i,
{
    if i == s.len() {
        assert(s.take(i) =~= s);
    } else {
        lemma_total_take(s, i);
        lemma_total_prefix(s, i + 1);
    }
}

/// The sum of the amounts that a table holds, unless it cannot be held in
/// one amount.
pub fn sum_of<K: Key>(table: &Table<K, Amount>) -> (r: Option<Amount>)
    ensures
        r is Some <==> total(table.entries@) < limit(),
        r matches Some(sum) ==> sum@ == total(table.entries@),
{
    let mut sum = Amount::zero();
    let mut i: usize = 0;
    assert(table.entries@.take(0) =~= Seq::empty());
    while i < table.entries.len()
        invariant
            i <= table.entries@.len(),
            sum@ == total(table.entries@.take(i as int)),
        decreases table.entries@.len() - i,
    {
        proof {
            lemma_total_take(table.entries@, i as int);
            lemma_total_prefix(table.entries@, i + 1);
        }
        match sum.checked_add(&table.entries[i].value) {
            None => {
                return None;
            },
            Some(next) => {
                sum = next;
            },
        }
        i = i + 1;
    }
    assert(table.entries@.take(i as int) =~= table.entries@);
    proof {
        lemma_amount_bounded(sum);
    }
    Some(sum)
}

/// What `h` has according to the map `m`: nothing where `m` does not name it.
pub open spec fn held(m: Map<Holder, Amount>, h: Holder) -> nat {
    if m.contains_key(h) {
        m[h]@
    } else {
        0
    }
}

/// Why a transfer was refused.
#[derive(Clone, Copy, Debug, PartialEq, Eq, Structural)]
pub enum TransferError {
    InsufficientFunds,
}

/// The balances of all holders.
#[derive(Clone, Debug, PartialEq, Eq)]
pub struct Bank {
    pub balances: Table<Holder, Amount>,
    pub supply: Amount,
}

impl Bank {
    /// No holder is entered twice, `supply` is the sum of all balances, and
    /// it is an amount that can be held.
    pub open spec fn wf(&self) -> bool {
        &&& self.balances.wf()
        &&& total(self.balances.entries@) == self.supply@
        &&& self.supply@ < limit()
    }

    /// What `h` has.
    pub open spec fn balance(&self, h: Holder) -> nat {
        held(self.balances@, h)
    }

    /// What `h` has once `amount` has gone from `from` to `to`.
    pub open spec fn moved(&self, from: Holder, to: Holder, amount: nat, h: Holder) -> nat {
        if from == to {
            self.balance(h)
        } else if h == from {
            (self.balance(h) - amount) as nat
        } else if h == to {
            self.balance(h) + amount
        } else {
            self.balance(h)
        }
    }

    /// Whether the bank is well-formed.
    pub fn is_sound(&self) -> (r: bool)
        ensures
            r == self.wf(),
    {
        if !self.balances.is_sound() {
            return false;
        }
        proof {
            lemma_amount_bounded(self.supply);
        }
        match sum_of(&self.balances) {
            None => false,
            Some(sum) => !sum.less_than(&self.supply) && !self.supply.less_than(&sum),
        }
    }

    /// No holder has more than all holders together.
    pub proof fn lemma_balance_bound(&self, h: Holder)
        requires
            self.balances.wf(),
        ensures
            self.balance(h) <= total(self.balances.entries@),
    {
        let s = self.balances.entries@;
        match index_of(s, h) {
            Some(i) => {
                lemma_entry_found(s, i);
                lemma_total_remove(s, i);
            },
            None => {},
        }
    }

    /// A bank in which nobody has anything.
    pub fn new() -> (b: Bank)
        ensures
            b.wf(),
            b.supply@ == 0,
            forall|h: Holder| b.balance(h) == 0,
    {
        proof {
            vstd::arithmetic::power2::lemma_pow2_pos(512);
        }
        Bank { balances: Table::new(), supply: Amount::zero() }
    }

    /// What `h` has.
    pub fn balance_of(&self, h: &Holder) -> (a: Amount)
        requires
            self.balances.wf(),
        ensures
            a@ == self.balance(*h),
            a@ <= total(self.balances.entries@),
    {
        proof {
            self.lemma_balance_bound(*h);
        }
        match self.balances.get(h) {
            Some(a) => *a,
            None => Amount::zero(),
        }
    }

    /// Sets what `h` has, whatever that does to the sum.
    fn set_balance(&mut self, h: Holder, a: Amount)
        requires
            old(self).balances.wf(),
        ensures
            final(self).balances.wf(),
            final(self).supply == old(self).supply,
            final(self).balances@ == old(self).balances@.insert(h, a),
            total(final(self).balances.entries@) + old(self).balance(h) == total(
                old(self).balances.entries@,
            ) + a@,
    {
        proof {
            let s = self.balances.entries@;
            let e = Entry { key: h, value: a };
            match index_of(s, h) {
                Some(i) => {
                    lemma_entry_found(s, i);
                    lemma_total_update(s, i, e);
                },
                None => {
                    lemma_total_push(s, e);
                },
            }
        }
        self.balances.put(h, a);
    }

    /// Creates `amount` of new currency for `h`, unless the whole supply could
    /// then no longer be held in one amount; returns whether it did.
    pub fn mint(&mut self, h: Holder, amount: Amount) -> (done: bool)
        requires
            old(self).wf(),
        ensures
            final(self).wf(),
            done <==> old(self).supply@ + amount@ < limit(),
            !done ==> *final(self) == *old(self),
            done ==> final(self).supply@ == old(self).supply@ + amount@,
            done ==> forall|x: Holder| #[trigger]
                final(self).balance(x) == if x == h {
                    old(self).balance(x) + amount@
                } else {
                    old(self).balance(x)
                },
    {
        match self.supply.checked_add(&amount) {
            None => false,
            Some(supply) => {
                let had = self.balance_of(&h);
                // A single balance is at most the supply, so the sum can be held.
                let sum = had.checked_add(&amount).unwrap();
                self.set_balance(h, sum);
                self.supply = supply;
                true
            },
        }
    }

    /// Moves `amount` from `from` to `to`. Refused, with nothing changed, where
    /// `from` has less than `amount`.
    pub fn transfer(&mut self, from: &Holder, to: &Holder, amount: &Amount) -> (r: Result<
        (),
        TransferError,
    >)
        requires
            old(self).wf(),
        ensures
            final(self).wf(),
            final(self).supply == old(self).supply,
            r is Ok <==> old(self).balance(*from) >= amount@,
            r is Err ==> *final(self) == *old(self),
            r is Ok ==> forall|h: Holder| #[trigger]
                final(self).balance(h) == old(self).moved(*from, *to, amount@, h),
    {
        let have = self.balance_of(from);
        match have.checked_sub(amount) {
            None => Err(TransferError::InsufficientFunds),
            Some(rest) => {
                if from.same(to) {
                    return Ok(());
                }
                self.set_balance(*from, rest);
                let had = self.balance_of(to);
                // What one holder has and what another gave up are both part
                // of the supply, so the sum can be held.
                let sum = had.checked_add(amount).unwrap();
                self.set_balance(*to, sum);
                Ok(())
            },
        }
    }
}

} // verus!
