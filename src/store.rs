//! The conflict rule of the store: one row per account, and an upsert that
//! overwrites every column of an existing row with the incoming record.
//!
//! `InscriptionTable` applies that rule in memory, so that the rule can be
//! exercised without a database.
use vstd::prelude::*;

use crate::record::{DbInscription, InscriptionView};

verus! {

/// The statement that writes one record; parameters in order: slot,
/// signature, account, mint account, metadata account, authority, write
/// version, time of the write. On a conflict on `account` every other column
/// takes the incoming value, whatever the write versions.
pub const UPSERT_STATEMENT: &'static str = "INSERT INTO inscriptions AS insc (slot, signature, account, mint_account, metadata_account, authority, write_version, updated_on) VALUES ($1, $2, $3, $4, $5, $6, $7, $8) ON CONFLICT (account) DO UPDATE SET slot=excluded.slot, signature=excluded.signature, mint_account=excluded.mint_account, metadata_account=excluded.metadata_account, authority=excluded.authority, write_version=excluded.write_version, updated_on=excluded.updated_on";

/// The rows of a store after one upsert of `r`.
pub open spec fn upsert_row(
    rows: Map<Seq<char>, InscriptionView>,
    r: InscriptionView,
) -> Map<Seq<char>, InscriptionView> {
    rows.insert(r.account, r)
}

/// Two upserts on one account leave one row for it, holding the second
/// record's values whatever the two write versions are; upserting the same
/// record twice is the same as upserting it once.
pub proof fn lemma_last_upsert_wins(
    rows: Map<Seq<char>, InscriptionView>,
    first: InscriptionView,
    second: InscriptionView,
)
    requires
        first.account == second.account,
    ensures
        upsert_row(upsert_row(rows, first), second) == upsert_row(rows, second),
        upsert_row(upsert_row(rows, first), second)[second.account] == second,
        upsert_row(upsert_row(rows, first), second).dom() == rows.dom().insert(second.account),
        upsert_row(upsert_row(rows, second), second) == upsert_row(rows, second),
{
    assert(upsert_row(upsert_row(rows, first), second) =~= upsert_row(rows, second));
    assert(upsert_row(upsert_row(rows, second), second) =~= upsert_row(rows, second));
}

/// The rows of a sequence of records with distinct accounts.
pub open spec fn rows_map(rows: Seq<InscriptionView>) -> Map<Seq<char>, InscriptionView>
    decreases rows.len(),
{
    if rows.len() == 0 {
        Map::empty()
    } else {
        rows_map(rows.drop_last()).insert(rows.last().account, rows.last())
    }
}

pub open spec fn distinct_accounts(rows: Seq<InscriptionView>) -> bool {
    forall|i: int, j: int|
        0 <= i < rows.len() && 0 <= j < rows.len() && i != j ==> (#[trigger] rows[i]).account
            != (#[trigger] rows[j]).account
}

proof fn lemma_rows_map_dom(rows: Seq<InscriptionView>, k: Seq<char>)
    ensures
        rows_map(rows).dom().contains(k) <==> exists|i: int| 0 <= i < rows.len() && (#[trigger] rows[i]).account == k,
    decreases rows.len(),
{
    if rows.len() > 0 {
        let prefix = rows.drop_last();
        lemma_rows_map_dom(prefix, k);
        if exists|i: int| 0 <= i < prefix.len() && (#[trigger] prefix[i]).account == k {
            let i = choose|i: int| 0 <= i < prefix.len() && (#[trigger] prefix[i]).account == k;
            assert(rows[i] == prefix[i]);
        }
        if exists|i: int| 0 <= i < rows.len() && (#[trigger] rows[i]).account == k {
            let i = choose|i: int| 0 <= i < rows.len() && (#[trigger] rows[i]).account == k;
            if i < prefix.len() {
                assert(rows[i] == prefix[i]);
            }
        }
    }
}

proof fn lemma_rows_map_finite_len(rows: Seq<InscriptionView>)
    requires
        distinct_accounts(rows),
    ensures
        rows_map(rows).dom().finite(),
        rows_map(rows).len() == rows.len(),
    decreases rows.len(),
{
    if rows.len() > 0 {
        let prefix = rows.drop_last();
        assert(distinct_accounts(prefix)) by {
            assert forall|i: int, j: int|
                0 <= i < prefix.len() && 0 <= j < prefix.len() && i != j implies (#[trigger] prefix[i]).account
                != (#[trigger] prefix[j]).account by {
                assert(prefix[i] == rows[i]);
                assert(prefix[j] == rows[j]);
            }
        }
        lemma_rows_map_finite_len(prefix);
        lemma_rows_map_dom(prefix, rows.last().account);
        if exists|i: int| 0 <= i < prefix.len() && (#[trigger] prefix[i]).account == rows.last().account {
            let i = choose|i: int| 0 <= i < prefix.len() && (#[trigger] prefix[i]).account == rows.last().account;
            assert(prefix[i] == rows[i]);
            assert(rows[rows.len() - 1].account == rows.last().account);
        }
    }
}

proof fn lemma_rows_map_update(rows: Seq<InscriptionView>, j: int, v: InscriptionView)
    requires
        distinct_accounts(rows),
        0 <= j < rows.len(),
        rows[j].account == v.account,
    ensures
        rows_map(rows.update(j, v)) == rows_map(rows).insert(v.account, v),
    decreases rows.len(),
{
    let prefix = rows.drop_last();
    let last = rows.len() - 1;
    if j == last {
        assert(rows.update(j, v).drop_last() =~= prefix);
        assert(rows_map(rows.update(j, v)) =~= rows_map(rows).insert(v.account, v));
    } else {
        assert(distinct_accounts(prefix)) by {
            assert forall|a: int, b: int|
                0 <= a < prefix.len() && 0 <= b < prefix.len() && a != b implies (#[trigger] prefix[a]).account
                != (#[trigger] prefix[b]).account by {
                assert(prefix[a] == rows[a]);
                assert(prefix[b] == rows[b]);
            }
        }
        assert(prefix[j] == rows[j]);
        lemma_rows_map_update(prefix, j, v);
        assert(rows.update(j, v).drop_last() =~= prefix.update(j, v));
        assert(rows.update(j, v).last() == rows.last());
        assert(rows[last].account != rows[j].account);
        assert(rows_map(rows.update(j, v)) =~= rows_map(rows).insert(v.account, v));
    }
}

/// A table of inscription rows held in memory, one per account.
pub struct InscriptionTable {
    rows: Vec<DbInscription>,
}

impl InscriptionTable {
    pub closed spec fn row_views(&self) -> Seq<InscriptionView> {
        self.rows@.map_values(|r: DbInscription| r@)
    }

    /// Each account has at most one row.
    pub closed spec fn wf(&self) -> bool {
        distinct_accounts(self.row_views())
    }

    /// The rows, by account.
    pub closed spec fn rows(&self) -> Map<Seq<char>, InscriptionView> {
        rows_map(self.row_views())
    }

    /// An empty table.
    pub fn new() -> (r: Self)
        ensures
            r.wf(),
            r.rows() == Map::<Seq<char>, InscriptionView>::empty(),
    {
        let r = InscriptionTable { rows: Vec::new() };
        assert(r.row_views() =~= Seq::<InscriptionView>::empty());
        r
    }

    /// The number of rows.
    pub fn row_count(&self) -> (r: usize)
        requires
            self.wf(),
        ensures
            r == self.rows().len(),
    {
        proof {
            lemma_rows_map_finite_len(self.row_views());
        }
        self.rows.len()
    }

    fn position(&self, account: &String) -> (r: Option<usize>)
        ensures
            r matches Some(j) ==> j < self.rows@.len() && self.row_views()[j as int].account == account@,
            r is None ==> forall|j: int| 0 <= j < self.rows@.len() ==> self.row_views()[j].account != account@,
    {
        let mut j: usize = 0;
        while j < self.rows.len()
            invariant
                j <= self.rows@.len(),
                forall|k: int| 0 <= k < j ==> self.row_views()[k].account != account@,
            decreases self.rows.len() - j,
        {
            if self.rows[j].account == *account {
                return Some(j);
            }
            j += 1;
        }
        None
    }

    /// The row of an account, if there is one.
    pub fn get(&self, account: &String) -> (r: Option<&DbInscription>)
        requires
            self.wf(),
        ensures
            r matches Some(row) ==> self.rows().dom().contains(account@) && self.rows()[account@] == row@,
            r is None ==> !self.rows().dom().contains(account@),
    {
        proof {
            lemma_rows_map_dom(self.row_views(), account@);
        }
        match self.position(account) {
            Some(j) => {
                proof {
                    let views = self.row_views();
                    assert(views.update(j as int, views[j as int]) =~= views);
                    lemma_rows_map_update(views, j as int, views[j as int]);
                }
                Some(&self.rows[j])
            },
            None => None,
        }
    }

    /// Writes a record: a new row for a new account, else every column of
    /// the account's row overwritten.
    pub fn upsert(&mut self, record: DbInscription)
        requires
            old(self).wf(),
        ensures
            final(self).wf(),
            final(self).rows() == upsert_row(old(self).rows(), record@),
    {
        let ghost v = record@;
        let ghost before = self.row_views();
        match self.position(&record.account) {
            Some(j) => {
                self.rows.set(j, record);
                proof {
                    assert(self.row_views() =~= before.update(j as int, v));
                    lemma_rows_map_update(before, j as int, v);
                    assert forall|a: int, b: int|
                        0 <= a < self.row_views().len() && 0 <= b < self.row_views().len() && a != b
                        implies (#[trigger] self.row_views()[a]).account != (
                    #[trigger] self.row_views()[b]).account by {
                        assert(before[a].account == self.row_views()[a].account);
                        assert(before[b].account == self.row_views()[b].account);
                    }
                }
            },
            None => {
                self.rows.push(record);
                proof {
                    assert(self.row_views() =~= before.push(v));
                    assert(self.row_views().drop_last() =~= before);
                    assert forall|a: int, b: int|
                        0 <= a < self.row_views().len() && 0 <= b < self.row_views().len() && a != b
                        implies (#[trigger] self.row_views()[a]).account != (
                    #[trigger] self.row_views()[b]).account by {
                        if a < before.len() {
                            assert(self.row_views()[a] == before[a]);
                        }
                        if b < before.len() {
                            assert(self.row_views()[b] == before[b]);
                        }
                    }
                }
            },
        }
    }
}

} // verus!
