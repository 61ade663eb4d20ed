use vstd::prelude::*;

verus! {

/// A row of the listings query: address, store address, end time, gap time
/// in seconds and last bid time; times are Unix seconds.
pub type ListingRow = (String, String, Option<i64>, Option<i32>, Option<i64>);

/// The end time of an auction was past the range of times.
#[derive(Debug, Clone, Copy, PartialEq, Eq, Structural)]
pub enum ListingError {
    EndTimeOverflow,
}

/// When an auction ends: a bid within the gap time before its end extends
/// it to the gap time after that bid. `None` where the extension does not fit.
pub open spec fn effective_end(ends_at: i64, gap_time: Option<i32>, last_bid_time: Option<i64>) -> Option<int> {
    match (gap_time, last_bid_time) {
        (Some(g), Some(l)) => if l + g < i64::MIN || l + g > i64::MAX {
            None
        } else if l + g > ends_at {
            Some(l + g)
        } else {
            Some(ends_at as int)
        },
        _ => Some(ends_at as int),
    }
}

/// A listing as the read side shows it.
#[derive(Debug, Clone)]
pub struct Listing {
    pub address: String,
    pub store_address: String,
    pub ended: bool,
}

impl Listing {
    /// The address column of a listing row.
    pub fn address_of_row(row: &ListingRow) -> (r: String)
        ensures
            r@ == row.0@,
    {
        row.0.clone()
    }

    /// A listing from its row: it has ended once `now` reaches its effective
    /// end; one without an end time never ends.
    pub fn new(row: ListingRow, now: i64) -> (r: Result<Listing, ListingError>)
        ensures
            r is Err <==> (row.2 matches Some(e) && effective_end(e, row.3, row.4) is None),
            r matches Ok(l) ==> l.address@ == row.0@ && l.store_address@ == row.1@ && l.ended == match row.2 {
                Some(e) => now >= effective_end(e, row.3, row.4)->Some_0,
                None => false,
            },
    {
        let (address, store_address, ends_at, gap_time, last_bid_time) = row;
        let ended = match ends_at {
            None => false,
            Some(e) => {
                let end: i64 = match (gap_time, last_bid_time) {
                    (Some(g), Some(l)) => match l.checked_add(g as i64) {
                        Some(extended) => if extended > e {
                            extended
                        } else {
                            e
                        },
                        None => return Err(ListingError::EndTimeOverflow),
                    },
                    _ => e,
                };
                now >= end
            },
        };
        Ok(Listing { address, store_address, ended })
    }

    pub fn address(&self) -> (r: String)
        ensures
            r@ == self.address@,
    {
        self.address.clone()
    }

    pub fn store_address(&self) -> (r: String)
        ensures
            r@ == self.store_address@,
    {
        self.store_address.clone()
    }

    pub fn ended(&self) -> (r: bool)
        ensures
            r == self.ended,
    {
        self.ended
    }
}

/// The integer did not fit the unsigned lamport amount.
#[derive(Debug, Clone, Copy, PartialEq, Eq, Structural)]
pub enum AmountError {
    Negative,
}

/// A bid on a listing as the read side shows it; amounts are lamports.
#[derive(Debug, Clone)]
pub struct Bid {
    pub listing_address: String,
    pub bidder_address: String,
    pub last_bid_time: String,
    pub last_bid_amount: u64,
    pub cancelled: bool,
}

/// Earliest time chrono represents: January 1 of year -262143, in Unix seconds.
pub const CHRONO_MIN_SECS: i64 = -8334601228800;

/// Latest whole second chrono represents: December 31 of year 262142,
/// 23:59:59, in Unix seconds.
pub const CHRONO_MAX_SECS: i64 = 8210266876799;

/// Whether chrono represents the time of `secs` Unix seconds.
pub open spec fn in_chrono_range(secs: int) -> bool {
    CHRONO_MIN_SECS <= secs <= CHRONO_MAX_SECS
}

/// The text chrono gives a time of `secs` Unix seconds.
pub uninterp spec fn time_text(secs: int) -> Seq<char>;

/// Relies on chrono's `DateTime::from_timestamp` and `NaiveDateTime`'s
/// `to_string`: the text of a time depends on the time alone. `None` where
/// the time is out of chrono's range, which runs from `NaiveDate::MIN` to the
/// last second of `NaiveDate::MAX`.
#[verifier::external_body]
fn format_time(secs: i64) -> (r: Option<String>)
    ensures
        r is Some <==> in_chrono_range(secs as int),
        r matches Some(t) ==> t@ == time_text(secs as int),
{
    chrono::DateTime::from_timestamp(secs, 0).map(|d| d.naive_utc().to_string())
}

impl Bid {
    /// A bid from its stored columns: an error on a negative amount, `None`
    /// on a time out of chrono's range, the bid otherwise.
    pub fn from_columns(
        listing_address: String,
        bidder_address: String,
        last_bid_time: i64,
        last_bid_amount: i64,
        cancelled: bool,
    ) -> (r: Option<Result<Bid, AmountError>>)
        ensures
            last_bid_amount < 0 ==> r == Some(Err::<Bid, AmountError>(AmountError::Negative)),
            r is None <==> last_bid_amount >= 0 && !in_chrono_range(last_bid_time as int),
            last_bid_amount >= 0 && in_chrono_range(last_bid_time as int) ==> r matches Some(Ok(_)),
            r matches Some(Ok(b)) ==> {
                &&& b.listing_address@ == listing_address@
                &&& b.bidder_address@ == bidder_address@
                &&& b.last_bid_time@ == time_text(last_bid_time as int)
                &&& b.last_bid_amount as int == last_bid_amount as int
                &&& b.cancelled == cancelled
            },
            r matches Some(Err(_)) ==> last_bid_amount < 0,
    {
        if last_bid_amount < 0 {
            return Some(Err(AmountError::Negative));
        }
        match format_time(last_bid_time) {
            None => None,
            Some(t) => Some(
                Ok(
                    Bid {
                        listing_address,
                        bidder_address,
                        last_bid_time: t,
                        last_bid_amount: last_bid_amount as u64,
                        cancelled,
                    },
                ),
            ),
        }
    }

    pub fn listing_address(&self) -> (r: String)
        ensures
            r@ == self.listing_address@,
    {
        self.listing_address.clone()
    }

    pub fn bidder_address(&self) -> (r: String)
        ensures
            r@ == self.bidder_address@,
    {
        self.bidder_address.clone()
    }

    pub fn last_bid_time(&self) -> (r: String)
        ensures
            r@ == self.last_bid_time@,
    {
        self.last_bid_time.clone()
    }

    pub fn last_bid_amount(&self) -> (r: u64)
        ensures
            r == self.last_bid_amount,
    {
        self.last_bid_amount
    }

    pub fn cancelled(&self) -> (r: bool)
        ensures
            r == self.cancelled,
    {
        self.cancelled
    }
}

} // verus!
