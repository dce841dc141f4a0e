use crate::date::{date_of_timestamp_ms, epoch_day_of, valid_date, Date};
use crate::polygon::{valid_ticker, Ticker};
use vstd::prelude::*;

verus! {

/// The canonical output unit: one day's aggregate for one symbol, with the
/// prices as the decimal text they will be written with.
#[derive(Debug)]
pub struct Record {
    pub symbol: String,
    pub date: Date,
    pub open: String,
    pub close: String,
    pub low: String,
    pub height: String,
    pub count: i32,
    pub volume: String,
    pub volume_weight: String,
}

/// The row mapper's contract: `r` carries the supplied symbol, the six
/// numeric fields of `t` unchanged, and the calendar date of `t`'s
/// millisecond timestamp (the time of day is discarded).
pub open spec fn maps_to(sym: Seq<char>, t: Ticker, r: Record) -> bool {
    &&& r.symbol@ == sym
    &&& r.open@ == t.open@
    &&& r.close@ == t.close@
    &&& r.low@ == t.low@
    &&& r.height@ == t.height@
    &&& r.count == t.count
    &&& r.volume@ == t.volume@
    &&& r.volume_weight@ == t.volume_weight@
    &&& valid_date(r.date)
    &&& 1970 <= r.date.year
    &&& epoch_day_of(r.date) == t.time_ms as int / 86400000
}

impl Record {
    /// Map one provider result record to a row, attaching the symbol the
    /// provider does not echo back.
    pub fn from(sym: String, ticker: Ticker) -> (r: Record)
        requires
            valid_ticker(ticker),
        ensures
            maps_to(sym@, ticker, r),
    {
        let date = match date_of_timestamp_ms(ticker.time_ms) {
            Some(d) => d,
            // unreachable: valid_ticker bounds the timestamp
            None => Date { year: 1970, month: 1, day: 1 },
        };
        Record {
            symbol: sym,
            date,
            open: ticker.open,
            close: ticker.close,
            low: ticker.low,
            height: ticker.height,
            count: ticker.count,
            volume: ticker.volume,
            volume_weight: ticker.volume_weight,
        }
    }
}

} // verus!
