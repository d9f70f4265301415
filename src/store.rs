use vstd::prelude::*;

use crate::models::{Mapping, Price};

verus! {

/// The position of the first row with key `k`.
pub open spec fn index_of_key(rows: Seq<Price>, k: (int, Seq<char>)) -> Option<int>
    decreases rows.len(),
{
    if rows.len() == 0 {
        None
    } else if rows[0].key() == k {
        Some(0)
    } else {
        match index_of_key(rows.drop_first(), k) {
            Some(i) => Some(i + 1),
            None => None,
        }
    }
}

/// Insert-or-replace of one record: a row with the same key is overwritten
/// in place, else the record is appended.
pub open spec fn upsert_one(rows: Seq<Price>, p: Price) -> Seq<Price> {
    match index_of_key(rows, p.key()) {
        Some(i) => rows.update(i, p),
        None => rows.push(p),
    }
}

/// Insert-or-replace of a batch, in the batch's order: the last record of a
/// key wins.
pub open spec fn upsert_all_rows(rows: Seq<Price>, records: Seq<Price>) -> Seq<Price>
    decreases records.len(),
{
    if records.len() == 0 {
        rows
    } else {
        upsert_all_rows(upsert_one(rows, records[0]), records.drop_first())
    }
}

/// No two rows share a (timestamp, symbol) key.
pub open spec fn keys_unique(rows: Seq<Price>) -> bool {
    forall|i: int, j: int|
        0 <= i < rows.len() && 0 <= j < rows.len() && (#[trigger] rows[i]).key() == (
        #[trigger] rows[j]).key() ==> i == j
}

/// `p` is the one row of `rows` with its key.
pub open spec fn sole_row(rows: Seq<Price>, p: Price) -> bool {
    exists|i: int|
        0 <= i < rows.len() && rows[i] == p && forall|j: int|
            0 <= j < rows.len() && j != i ==> (#[trigger] rows[j]).key() != p.key()
}

pub proof fn lemma_index_of_key(rows: Seq<Price>, k: (int, Seq<char>))
    ensures
        match index_of_key(rows, k) {
            Some(i) => 0 <= i < rows.len() && rows[i].key() == k && forall|j: int|
                0 <= j < i ==> (#[trigger] rows[j]).key() != k,
            None => forall|j: int| 0 <= j < rows.len() ==> (#[trigger] rows[j]).key() != k,
        },
    decreases rows.len(),
{
    if rows.len() > 0 {
        lemma_index_of_key(rows.drop_first(), k);
        assert forall|j: int| 1 <= j < rows.len() implies rows[j] == rows.drop_first()[j - 1] by {}
    }
}

pub proof fn lemma_upsert_one(rows: Seq<Price>, p: Price)
    requires
        keys_unique(rows),
    ensures
        keys_unique(upsert_one(rows, p)),
        sole_row(upsert_one(rows, p), p),
        index_of_key(rows, p.key()) is Some ==> upsert_one(rows, p).len() == rows.len(),
        index_of_key(rows, p.key()) is None ==> upsert_one(rows, p).len() == rows.len() + 1,
{
    lemma_index_of_key(rows, p.key());
    let t = upsert_one(rows, p);
    match index_of_key(rows, p.key()) {
        Some(i) => {
            assert(t[i] == p);
            assert forall|j: int| 0 <= j < t.len() && j != i implies (#[trigger] t[j]).key() != p.key() by {
                assert(t[j] == rows[j]);
            }
        },
        None => {
            let i = rows.len() as int;
            assert(t[i] == p);
            assert forall|j: int| 0 <= j < t.len() && j != i implies (#[trigger] t[j]).key() != p.key() by {
                assert(t[j] == rows[j]);
            }
        },
    }
}

/// Upserting one record and then another of the same (timestamp, symbol)
/// leaves exactly one row of that key, holding the second record's values,
/// and the second call adds no row.
pub proof fn lemma_upsert_twice(rows: Seq<Price>, first: Price, second: Price)
    requires
        keys_unique(rows),
        first.key() == second.key(),
    ensures
        keys_unique(upsert_all_rows(upsert_all_rows(rows, seq![first]), seq![second])),
        sole_row(upsert_all_rows(upsert_all_rows(rows, seq![first]), seq![second]), second),
        upsert_all_rows(upsert_all_rows(rows, seq![first]), seq![second]).len()
            == upsert_all_rows(rows, seq![first]).len(),
{
    let t1 = upsert_all_rows(rows, seq![first]);
    assert(seq![first].drop_first() =~= Seq::<Price>::empty());
    assert(upsert_all_rows(upsert_one(rows, first), Seq::<Price>::empty()) == upsert_one(rows, first));
    assert(t1 == upsert_one(rows, first));
    lemma_upsert_one(rows, first);
    let t2 = upsert_all_rows(t1, seq![second]);
    assert(seq![second].drop_first() =~= Seq::<Price>::empty());
    assert(upsert_all_rows(upsert_one(t1, second), Seq::<Price>::empty()) == upsert_one(t1, second));
    assert(t2 == upsert_one(t1, second));
    lemma_upsert_one(t1, second);
    lemma_index_of_key(t1, second.key());
    let i = choose|i: int|
        0 <= i < t1.len() && t1[i] == first && forall|j: int|
            0 <= j < t1.len() && j != i ==> (#[trigger] t1[j]).key() != first.key();
    assert(t1[i].key() == second.key());
}

/// A batch holding two records of one (timestamp, symbol) leaves one row of
/// that key, with the later record's values, and no more rows than the first
/// record alone.
pub proof fn lemma_batch_last_wins(rows: Seq<Price>, first: Price, second: Price)
    requires
        keys_unique(rows),
        first.key() == second.key(),
    ensures
        keys_unique(upsert_all_rows(rows, seq![first, second])),
        sole_row(upsert_all_rows(rows, seq![first, second]), second),
        upsert_all_rows(rows, seq![first, second]).len() == upsert_all_rows(rows, seq![first]).len(),
{
    let batch = seq![first, second];
    assert(batch.drop_first() =~= seq![second]);
    assert(upsert_all_rows(rows, batch) == upsert_all_rows(upsert_one(rows, first), seq![second]));
    assert(seq![first].drop_first() =~= Seq::<Price>::empty());
    assert(upsert_all_rows(upsert_one(rows, first), Seq::<Price>::empty()) == upsert_one(rows, first));
    assert(upsert_all_rows(rows, seq![first]) == upsert_one(rows, first));
    lemma_upsert_twice(rows, first, second);
}

/// Deleting every price and then counting gives zero, and the mapping table
/// keeps every row: what `delete_all` leaves, `count_all` counts as empty.
pub proof fn lemma_delete_then_count(before: PriceStore, after: PriceStore)
    requires
        after.prices@ == Seq::<Price>::empty(),
        after.mapping@ == before.mapping@,
    ensures
        after.prices@.len() == 0,
        after.mapping@.len() == before.mapping@.len(),
{
}

/// The price table beside the mapping table.
pub struct PriceStore {
    pub mapping: Vec<Mapping>,
    pub prices: Vec<Price>,
}

impl PriceStore {
    pub open spec fn wf(&self) -> bool {
        keys_unique(self.prices@)
    }

    /// A store with the given mapping rows and no prices.
    pub fn new(mapping: Vec<Mapping>) -> (r: Self)
        ensures
            r.wf(),
            r.mapping@ == mapping@,
            r.prices@ == Seq::<Price>::empty(),
    {
        PriceStore { mapping, prices: Vec::new() }
    }

    /// Every symbol of the mapping table, in the table's order.
    pub fn list_mapped_symbols(&self) -> (r: Vec<String>)
        ensures
            r@.len() == self.mapping@.len(),
            forall|i: int| 0 <= i < r@.len() ==> (#[trigger] r@[i])@ == self.mapping@[i].symbol@,
    {
        let mut out: Vec<String> = Vec::new();
        let mut i: usize = 0;
        while i < self.mapping.len()
            invariant
                0 <= i <= self.mapping@.len(),
                out@.len() == i,
                forall|k: int| 0 <= k < i ==> (#[trigger] out@[k])@ == self.mapping@[k].symbol@,
            decreases self.mapping@.len() - i,
        {
            out.push(self.mapping[i].symbol.clone());
            i = i + 1;
        }
        out
    }

    /// Inserts `p`, or replaces the row that has its key.
    pub fn upsert(&mut self, p: Price)
        requires
            old(self).wf(),
        ensures
            final(self).wf(),
            final(self).mapping@ == old(self).mapping@,
            final(self).prices@ == upsert_one(old(self).prices@, p),
    {
        proof {
            lemma_index_of_key(self.prices@, p.key());
            lemma_upsert_one(self.prices@, p);
        }
        let mut i: usize = 0;
        while i < self.prices.len()
            invariant
                0 <= i <= self.prices@.len(),
                self.prices@ == old(self).prices@,
                self.mapping@ == old(self).mapping@,
                keys_unique(self.prices@),
                forall|j: int| 0 <= j < i ==> (#[trigger] self.prices@[j]).key() != p.key(),
            decreases self.prices@.len() - i,
        {
            if self.prices[i].same_key(&p) {
                proof {
                    lemma_index_of_key(self.prices@, p.key());
                    lemma_upsert_one(self.prices@, p);
                    let k = index_of_key(self.prices@, p.key());
                    if k is Some {
                        let k0 = k->Some_0;
                        if k0 > i {
                            assert(self.prices@[i as int].key() != p.key());
                        }
                    }
                    assert(k == Some(i as int));
                }
                self.prices.set(i, p);
                return;
            }
            i = i + 1;
        }
        proof {
            lemma_index_of_key(self.prices@, p.key());
            lemma_upsert_one(self.prices@, p);
        }
        self.prices.push(p);
    }

    /// Inserts or replaces every record of the batch, in order.
    pub fn upsert_all(&mut self, records: Vec<Price>)
        requires
            old(self).wf(),
        ensures
            final(self).wf(),
            final(self).mapping@ == old(self).mapping@,
            final(self).prices@ == upsert_all_rows(old(self).prices@, records@),
    {
        let ghost target = upsert_all_rows(old(self).prices@, records@);
        let mut records = records;
        while records.len() > 0
            invariant
                self.wf(),
                self.mapping@ == old(self).mapping@,
                upsert_all_rows(self.prices@, records@) == target,
            decreases records@.len(),
        {
            let ghost before = records@;
            let p = records.remove(0);
            assert(records@ =~= before.drop_first());
            self.upsert(p);
        }
        assert(upsert_all_rows(self.prices@, records@) == self.prices@);
    }

    /// The number of price rows.
    pub fn count_all(&self) -> (r: usize)
        ensures
            r == self.prices@.len(),
    {
        self.prices.len()
    }

    /// Removes every price row; the mapping table is left as it is.
    pub fn delete_all(&mut self)
        ensures
            final(self).wf(),
            final(self).prices@ == Seq::<Price>::empty(),
            final(self).mapping@ == old(self).mapping@,
    {
        self.prices = Vec::new();
    }
}

} // verus!
