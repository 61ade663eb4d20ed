use vstd::prelude::*;

use crate::decode::{CloseListingRow, TokenAccountRow};
use crate::table::{applied, applied_all, lemma_increasing_changes_keep_last, Stamped, Table, Undo};

verus! {

/// A transaction was rolled back; nothing it wrote remains.
#[derive(Debug, Clone, Copy, PartialEq, Eq, Structural)]
pub enum ApplyError {
    RolledBack,
}

/// The materialised index: listings keyed by trade state with their
/// cancellation time, reward-center listings keyed by listing address with
/// their closing time, token accounts keyed by address with their amount, and
/// the log of observed close-listing instructions.
pub struct Store {
    pub listings: Table<Option<i64>>,
    pub rewards_listings: Table<Option<i64>>,
    pub token_accounts: Table<u64>,
    pub close_listing_records: Vec<CloseListingRow>,
}

/// The listings table after a close listing: canceled at the row's time.
pub open spec fn listings_after_close(
    m: Map<Seq<u8>, Stamped<Option<i64>>>,
    row: CloseListingRow,
) -> Map<Seq<u8>, Stamped<Option<i64>>> {
    applied(m, row.trade_state@, row.slot as u64, Some(row.closed_at))
}

/// The reward-center listings table after a close listing: closed at the
/// row's time.
pub open spec fn rewards_after_close(
    m: Map<Seq<u8>, Stamped<Option<i64>>>,
    row: CloseListingRow,
) -> Map<Seq<u8>, Stamped<Option<i64>>> {
    applied(m, row.listing@, row.slot as u64, Some(row.closed_at))
}

impl Store {
    pub open spec fn wf(&self) -> bool {
        self.listings.wf() && self.rewards_listings.wf() && self.token_accounts.wf()
    }

    pub fn new() -> (r: Store)
        ensures
            r.wf(),
            r.listings.view() == Map::<Seq<u8>, Stamped<Option<i64>>>::empty(),
            r.rewards_listings.view() == Map::<Seq<u8>, Stamped<Option<i64>>>::empty(),
            r.token_accounts.view() == Map::<Seq<u8>, Stamped<u64>>::empty(),
            r.close_listing_records@.len() == 0,
    {
        Store {
            listings: Table::new(),
            rewards_listings: Table::new(),
            token_accounts: Table::new(),
            close_listing_records: Vec::new(),
        }
    }

    /// Appends a close-listing instruction to the log.
    pub fn record_close_listing(&mut self, row: CloseListingRow)
        requires
            old(self).wf(),
        ensures
            final(self).wf(),
            final(self).close_listing_records@ == old(self).close_listing_records@.push(row),
            final(self).listings == old(self).listings,
            final(self).rewards_listings == old(self).rewards_listings,
            final(self).token_accounts == old(self).token_accounts,
    {
        self.close_listing_records.push(row);
    }

    /// Applies a close listing to both listing tables in one transaction.
    /// With `abort_after_first_write` the transaction fails after writing the
    /// reward-center listing and rolls back, as an interrupted one would.
    pub fn transact_close_listing(&mut self, row: &CloseListingRow, abort_after_first_write: bool) -> (r:
        Result<(), ApplyError>)
        requires
            old(self).wf(),
            row.slot >= 0,
        ensures
            final(self).wf(),
            r is Err <==> abort_after_first_write,
            r is Ok ==> final(self).rewards_listings.view() == rewards_after_close(
                old(self).rewards_listings.view(),
                *row,
            ) && final(self).listings.view() == listings_after_close(old(self).listings.view(), *row),
            r is Err ==> final(self).rewards_listings.view() == old(self).rewards_listings.view()
                && final(self).listings.view() == old(self).listings.view(),
            final(self).token_accounts.view() == old(self).token_accounts.view(),
            final(self).close_listing_records@ == old(self).close_listing_records@,
    {
        let ghost prior = self.rewards_listings.view();
        let undo = self.rewards_listings.apply(row.listing.as_slice(), row.slot as u64, Some(row.closed_at));
        if abort_after_first_write {
            self.rewards_listings.undo(undo, Ghost(prior));
            return Err(ApplyError::RolledBack);
        }
        let _ = self.listings.apply(row.trade_state.as_slice(), row.slot as u64, Some(row.closed_at));
        Ok(())
    }

    /// Applies a close listing: the reward-center listing is closed and the
    /// listing canceled at the row's time and slot, unless each stored slot
    /// is already at least the row's.
    pub fn apply_close_listing(&mut self, row: &CloseListingRow)
        requires
            old(self).wf(),
            row.slot >= 0,
        ensures
            final(self).wf(),
            final(self).rewards_listings.view() == rewards_after_close(old(self).rewards_listings.view(), *row),
            final(self).listings.view() == listings_after_close(old(self).listings.view(), *row),
            final(self).token_accounts.view() == old(self).token_accounts.view(),
            final(self).close_listing_records@ == old(self).close_listing_records@,
    {
        let _ = self.transact_close_listing(row, false);
    }

    /// Records a token account's amount at the row's slot.
    pub fn apply_token_account(&mut self, row: &TokenAccountRow)
        requires
            old(self).wf(),
        ensures
            final(self).wf(),
            final(self).token_accounts.view() == applied(
                old(self).token_accounts.view(),
                row.address@,
                row.slot,
                row.amount,
            ),
            final(self).listings.view() == old(self).listings.view(),
            final(self).rewards_listings.view() == old(self).rewards_listings.view(),
            final(self).close_listing_records@ == old(self).close_listing_records@,
    {
        let _ = self.token_accounts.apply(row.address.as_slice(), row.slot, row.amount);
    }
}

/// The row a close listing changes: in the reward-center listings table
/// (`rewards`) its listing address, in the listings table its trade state.
pub open spec fn close_key(row: CloseListingRow, rewards: bool) -> Seq<u8> {
    if rewards {
        row.listing@
    } else {
        row.trade_state@
    }
}

/// The stamped value a close listing gives its rows.
pub open spec fn close_stamp(row: CloseListingRow) -> Stamped<Option<i64>> {
    (row.slot as u64, Some(row.closed_at))
}

/// A table of the two after a run of close listings, in order: each step is
/// `rewards_after_close` (with `rewards`) or `listings_after_close`.
pub open spec fn after_closes(
    m: Map<Seq<u8>, Stamped<Option<i64>>>,
    rows: Seq<CloseListingRow>,
    rewards: bool,
) -> Map<Seq<u8>, Stamped<Option<i64>>>
    decreases rows.len(),
{
    if rows.len() == 0 {
        m
    } else {
        let prev = after_closes(m, rows.drop_last(), rewards);
        if rewards {
            rewards_after_close(prev, rows.last())
        } else {
            listings_after_close(prev, rows.last())
        }
    }
}

proof fn lemma_closes_as_changes(
    m: Map<Seq<u8>, Stamped<Option<i64>>>,
    rows: Seq<CloseListingRow>,
    rewards: bool,
    key: Seq<u8>,
)
    requires
        forall|i: int| 0 <= i < rows.len() ==> close_key(#[trigger] rows[i], rewards) == key,
    ensures
        after_closes(m, rows, rewards) == applied_all(m, key, rows.map_values(|r: CloseListingRow| close_stamp(r))),
    decreases rows.len(),
{
    let changes = rows.map_values(|r: CloseListingRow| close_stamp(r));
    if rows.len() > 0 {
        let init = rows.drop_last();
        assert forall|i: int| 0 <= i < init.len() implies close_key(#[trigger] init[i], rewards) == key by {
            assert(init[i] == rows[i]);
        }
        lemma_closes_as_changes(m, init, rewards, key);
        assert(changes.drop_last() =~= init.map_values(|r: CloseListingRow| close_stamp(r)));
        assert(rows.last() == rows[rows.len() - 1]);
        assert(close_key(rows.last(), rewards) == key);
    }
}

/// Close listings of one listing and trade state applied in increasing slot
/// order, each above the slot stored before them, leave the reward-center
/// listing closed and the listing canceled at the last one's time and slot.
pub proof fn lemma_close_listings_keep_last(
    listings: Map<Seq<u8>, Stamped<Option<i64>>>,
    rewards: Map<Seq<u8>, Stamped<Option<i64>>>,
    rows: Seq<CloseListingRow>,
)
    requires
        rows.len() > 0,
        forall|i: int| 0 <= i < rows.len() ==> (#[trigger] rows[i]).trade_state@ == rows[0].trade_state@
            && rows[i].listing@ == rows[0].listing@,
        forall|i: int| 0 <= i < rows.len() ==> (#[trigger] rows[i]).slot >= 0,
        forall|i: int, j: int| 0 <= i < j < rows.len() ==> rows[i].slot < rows[j].slot,
        listings.contains_key(rows[0].trade_state@) ==> listings[rows[0].trade_state@].0 < rows[0].slot,
        rewards.contains_key(rows[0].listing@) ==> rewards[rows[0].listing@].0 < rows[0].slot,
    ensures
        after_closes(listings, rows, false).contains_key(rows[0].trade_state@),
        after_closes(listings, rows, false)[rows[0].trade_state@] == close_stamp(rows.last()),
        after_closes(rewards, rows, true).contains_key(rows[0].listing@),
        after_closes(rewards, rows, true)[rows[0].listing@] == close_stamp(rows.last()),
{
    let changes = rows.map_values(|r: CloseListingRow| close_stamp(r));
    assert forall|i: int| 0 <= i < rows.len() implies close_key(#[trigger] rows[i], false) == rows[0].trade_state@
        && close_key(rows[i], true) == rows[0].listing@ by {}
    lemma_closes_as_changes(listings, rows, false, rows[0].trade_state@);
    lemma_closes_as_changes(rewards, rows, true, rows[0].listing@);
    assert forall|i: int, j: int| 0 <= i < j < changes.len() implies changes[i].0 < changes[j].0 by {
        assert(rows[i].slot >= 0 && rows[j].slot >= 0);
        assert(rows[i].slot < rows[j].slot);
    }
    assert(rows[0].slot >= 0);
    lemma_increasing_changes_keep_last(listings, rows[0].trade_state@, changes);
    lemma_increasing_changes_keep_last(rewards, rows[0].listing@, changes);
    assert(changes.last() == close_stamp(rows.last()));
}

} // verus!
