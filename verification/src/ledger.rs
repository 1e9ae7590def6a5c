//! Amounts kept per (epoch, token): the storage behind the pool's analytics.
use crate::types::{bytes_copy, bytes_equal, PairError, TokenId};
use vstd::prelude::*;

verus! {

/// One stored amount and the (epoch, token) key it is stored under.
pub struct LedgerEntry {
    pub epoch: u64,
    pub token: Vec<u8>,
    pub amount: u128,
}

/// A map from (epoch, token) to an amount; a key that was never written reads 0.
pub struct EpochLedger {
    entries: Vec<LedgerEntry>,
}

/// The key of an entry.
pub open spec fn entry_key(e: LedgerEntry) -> (u64, Seq<u8>) {
    (e.epoch, e.token@)
}

impl EpochLedger {
    /// No key is stored twice.
    #[verifier::type_invariant]
    closed spec fn keys_distinct(self) -> bool {
        forall|i: int, j: int|
            0 <= i < self.entries@.len() && 0 <= j < self.entries@.len() && i != j
                ==> entry_key(#[trigger] self.entries@[i]) != entry_key(#[trigger] self.entries@[j])
    }

    closed spec fn holds_key(self, k: (u64, Seq<u8>)) -> bool {
        exists|i: int| 0 <= i < self.entries@.len() && entry_key(#[trigger] self.entries@[i]) == k
    }

    closed spec fn index_of_key(self, k: (u64, Seq<u8>)) -> int {
        choose|i: int| 0 <= i < self.entries@.len() && entry_key(#[trigger] self.entries@[i]) == k
    }

    /// The stored amounts, by key.
    pub closed spec fn amounts(self) -> Map<(u64, Seq<u8>), nat> {
        Map::new(
            |k: (u64, Seq<u8>)| self.holds_key(k),
            |k: (u64, Seq<u8>)| self.entries@[self.index_of_key(k)].amount as nat,
        )
    }

    /// Every stored amount fits in 128 bits.
    pub proof fn lemma_amounts_fit(&self)
        ensures
            forall|k: (u64, Seq<u8>)| #[trigger]
                self.amounts().dom().contains(k) ==> self.amounts()[k] <= u128::MAX,
    {
    }

    pub fn new() -> (res: EpochLedger)
        ensures
            res.amounts() == Map::<(u64, Seq<u8>), nat>::empty(),
    {
        let res = EpochLedger { entries: Vec::new() };
        assert(res.amounts() =~= Map::<(u64, Seq<u8>), nat>::empty());
        res
    }

    fn find(&self, epoch: u64, token: &TokenId) -> (res: Option<usize>)
        ensures
            match res {
                Some(i) => i < self.entries@.len() && entry_key(self.entries@[i as int]) == (
                    epoch,
                    token@,
                ),
                None => !self.holds_key((epoch, token@)),
            },
    {
        let n = self.entries.len();
        let mut i: usize = 0;
        while i < n
            invariant
                n == self.entries@.len(),
                i <= n,
                forall|j: int|
                    0 <= j < i ==> entry_key(#[trigger] self.entries@[j]) != (epoch, token@),
            decreases n - i,
        {
            let e = &self.entries[i];
            if e.epoch == epoch && bytes_equal(&e.token, &token.bytes) {
                return Some(i);
            }
            i = i + 1;
        }
        None
    }

    /// The amount stored under (epoch, token), 0 if none is.
    pub fn get(&self, epoch: u64, token: &TokenId) -> (res: u128)
        ensures
            res == amount_at(self.amounts(), epoch, token@),
    {
        proof {
            use_type_invariant(self);
        }
        match self.find(epoch, token) {
            Some(i) => {
                proof {
                    let k = (epoch, token@);
                    assert(self.holds_key(k));
                    let j = self.index_of_key(k);
                    assert(j == i as int);
                }
                self.entries[i].amount
            },
            None => 0,
        }
    }

    /// Adds `amount` to what is stored under (epoch, token); refused when the
    /// sum does not fit in 128 bits.
    pub fn add(&mut self, epoch: u64, token: &TokenId, amount: u128) -> (res: Result<(), PairError>)
        ensures
            amount_at(old(self).amounts(), epoch, token@) + amount > u128::MAX ==> res == Err::<
                (),
                PairError,
            >(PairError::AmountOverflow) && final(self).amounts() == old(self).amounts(),
            amount_at(old(self).amounts(), epoch, token@) + amount <= u128::MAX ==> res == Ok::<
                (),
                PairError,
            >(()) && final(self).amounts() == old(self).amounts().insert(
                (epoch, token@),
                (amount_at(old(self).amounts(), epoch, token@) + amount) as nat,
            ),
    {
        proof {
            use_type_invariant(&*self);
        }
        let ghost before = self.amounts();
        let ghost k = (epoch, token@);
        match self.find(epoch, token) {
            Some(i) => {
                proof {
                    assert(self.holds_key(k));
                    assert(self.index_of_key(k) == i as int);
                }
                let cur = self.entries[i].amount;
                if cur > u128::MAX - amount {
                    return Err(PairError::AmountOverflow);
                }
                let entry = LedgerEntry { epoch, token: bytes_copy(&token.bytes), amount: cur + amount };
                let ghost old_entries = self.entries@;
                let mut entries: Vec<LedgerEntry> = Vec::new();
                std::mem::swap(&mut entries, &mut self.entries);
                entries.set(i, entry);
                self.entries = entries;
                proof {
                    assert forall|a: int, b: int|
                        0 <= a < self.entries@.len() && 0 <= b < self.entries@.len() && a != b
                            implies entry_key(#[trigger] self.entries@[a]) != entry_key(
                            #[trigger] self.entries@[b],
                        ) by {
                        assert(entry_key(self.entries@[a]) == entry_key(old_entries[a]));
                        assert(entry_key(self.entries@[b]) == entry_key(old_entries[b]));
                    }
                    assert forall|kk: (u64, Seq<u8>)| #[trigger] self.holds_key(kk) == before.dom().contains(kk)
                        by {
                        if self.holds_key(kk) {
                            let j = choose|j: int| 0 <= j < self.entries@.len() && entry_key(#[trigger] self.entries@[j]) == kk;
                            assert(entry_key(old_entries[j]) == kk);
                        }
                        if before.dom().contains(kk) {
                            let j = choose|j: int| 0 <= j < old_entries.len() && entry_key(#[trigger] old_entries[j]) == kk;
                            assert(entry_key(self.entries@[j]) == kk);
                        }
                    }
                    assert forall|kk: (u64, Seq<u8>)| self.holds_key(kk) implies self.entries@[
                        self.index_of_key(kk)].amount as nat == before.insert(k, (before[k] + amount) as nat)[kk]
                        by {
                        let j = self.index_of_key(kk);
                        assert(entry_key(old_entries[j]) == kk);
                        if kk == k {
                            assert(j == i as int);
                        } else {
                            assert(j != i as int);
                        }
                    }
                    assert(self.amounts() =~= before.insert(k, (amount_at(before, epoch, token@) + amount) as nat));
                }
                Ok(())
            },
            None => {
                let entry = LedgerEntry { epoch, token: bytes_copy(&token.bytes), amount };
                let ghost old_entries = self.entries@;
                let mut entries: Vec<LedgerEntry> = Vec::new();
                std::mem::swap(&mut entries, &mut self.entries);
                entries.push(entry);
                self.entries = entries;
                proof {
                    assert(!before.dom().contains(k));
                    assert forall|kk: (u64, Seq<u8>)| #[trigger] self.holds_key(kk) == (before.dom().contains(kk) || kk == k)
                        by {
                        if self.holds_key(kk) {
                            let j = choose|j: int| 0 <= j < self.entries@.len() && entry_key(#[trigger] self.entries@[j]) == kk;
                            if j < old_entries.len() {
                                assert(entry_key(old_entries[j]) == kk);
                            }
                        }
                        if before.dom().contains(kk) {
                            let j = choose|j: int| 0 <= j < old_entries.len() && entry_key(#[trigger] old_entries[j]) == kk;
                            assert(entry_key(self.entries@[j]) == kk);
                        }
                        if kk == k {
                            assert(entry_key(self.entries@[old_entries.len() as int]) == kk);
                        }
                    }
                    assert forall|kk: (u64, Seq<u8>)| self.holds_key(kk) implies self.entries@[
                        self.index_of_key(kk)].amount as nat == before.insert(k, amount as nat)[kk]
                        by {
                        let j = self.index_of_key(kk);
                        if kk == k {
                            assert(j == old_entries.len());
                        } else {
                            assert(j < old_entries.len());
                            assert(entry_key(old_entries[j]) == kk);
                        }
                    }
                    assert(self.amounts() =~= before.insert(k, (amount_at(before, epoch, token@) + amount) as nat));
                }
                Ok(())
            },
        }
    }
}

/// Every amount of a map fits in 128 bits.
pub open spec fn amounts_fit(m: Map<(u64, Seq<u8>), nat>) -> bool {
    forall|k: (u64, Seq<u8>)| #[trigger] m.dom().contains(k) ==> m[k] <= u128::MAX
}

/// In a map whose amounts fit in 128 bits, every read does.
pub proof fn lemma_amount_at_fits(m: Map<(u64, Seq<u8>), nat>, epoch: u64, token: Seq<u8>)
    requires
        amounts_fit(m),
    ensures
        amount_at(m, epoch, token) <= u128::MAX,
{
}

/// What a read of (epoch, token) gives: the stored amount, or 0.
pub open spec fn amount_at(m: Map<(u64, Seq<u8>), nat>, epoch: u64, token: Seq<u8>) -> nat {
    if m.dom().contains((epoch, token)) {
        m[(epoch, token)]
    } else {
        0
    }
}

} // verus!
