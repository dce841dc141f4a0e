use crate::csv::{csv_text, write_csv};
use crate::date::valid_date;
use crate::polygon::{
    all_ticks_valid, response_ticks, rows_from_response, same_error, FetchError, TickerResponse,
};
use crate::record::{maps_to, Record};
use vstd::prelude::*;

verus! {

/// One symbol's failed fetch, kept for operator reporting.
#[derive(Debug)]
pub struct Failure {
    pub symbol: String,
    pub error: FetchError,
}

/// The batch accumulator: rows in configured symbol order and, within a
/// symbol, in provider response order; beside them the per-symbol failures
/// seen on the way.  Owned by one run; append-only.
#[derive(Debug)]
pub struct Batch {
    pub rows: Vec<Record>,
    pub failures: Vec<Failure>,
}

/// Every accumulated row carries a date the output format can render.
pub open spec fn batch_wf(b: Batch) -> bool {
    forall|i: int| 0 <= i < b.rows@.len() ==> valid_date(#[trigger] b.rows@[i].date)
}

/// `new_f` is `old_f` with one failure for `sym` appended.
pub open spec fn recorded_failure_any(
    old_f: Seq<Failure>,
    new_f: Seq<Failure>,
    sym: Seq<char>,
) -> bool {
    &&& new_f.len() == old_f.len() + 1
    &&& forall|i: int| 0 <= i < old_f.len() ==> new_f[i] == old_f[i]
    &&& new_f.last().symbol@ == sym
}

/// `new_f` is `old_f` with `e`, against `sym`, appended.
pub open spec fn recorded_failure(
    old_f: Seq<Failure>,
    new_f: Seq<Failure>,
    sym: Seq<char>,
    e: FetchError,
) -> bool {
    &&& recorded_failure_any(old_f, new_f, sym)
    &&& same_error(new_f.last().error, e)
}

impl Batch {
    pub fn new() -> (b: Batch)
        ensures
            b.rows@ == Seq::<Record>::empty(),
            b.failures@ == Seq::<Failure>::empty(),
            batch_wf(b),
    {
        Batch { rows: Vec::new(), failures: Vec::new() }
    }

    /// Fold one symbol's fetch outcome into the accumulator.  A transport or
    /// decode failure handed in, a provider-reported error message, or an
    /// unrepresentable timestamp records one failure and leaves the rows
    /// untouched; otherwise every result record becomes one appended row, in
    /// response order.  No outcome aborts the batch.
    pub fn apply(&mut self, symbol: &str, outcome: Result<TickerResponse, FetchError>)
        ensures
            batch_wf(*old(self)) ==> batch_wf(*final(self)),
            outcome matches Err(e) ==> final(self).rows@ == old(self).rows@ && recorded_failure(
                old(self).failures@,
                final(self).failures@,
                symbol@,
                e,
            ),
            outcome matches Ok(resp) ==> (resp.error matches Some(m) ==> final(self).rows@ == old(
                self,
            ).rows@ && recorded_failure(
                old(self).failures@,
                final(self).failures@,
                symbol@,
                FetchError::Provider(m),
            )),
            outcome matches Ok(resp) ==> (resp.error is None && !all_ticks_valid(
                response_ticks(resp),
            ) ==> final(self).rows@ == old(self).rows@ && recorded_failure_any(
                old(self).failures@,
                final(self).failures@,
                symbol@,
            ) && final(self).failures@.last().error is Decode),
            outcome matches Ok(resp) ==> (resp.error is None && all_ticks_valid(
                response_ticks(resp),
            ) ==> final(self).failures@ == old(self).failures@ && final(self).rows@.len() == old(
                self,
            ).rows@.len() + response_ticks(resp).len() && (forall|i: int|
                0 <= i < old(self).rows@.len() ==> final(self).rows@[i] == old(self).rows@[i])
                && (forall|i: int|
                0 <= i < response_ticks(resp).len() ==> maps_to(
                    symbol@,
                    response_ticks(resp)[i],
                    #[trigger] final(self).rows@[old(self).rows@.len() + i],
                ))),
    {
        match outcome {
            Err(e) => {
                self.failures.push(Failure { symbol: symbol.to_owned(), error: e });
            },
            Ok(resp) => {
                match rows_from_response(symbol, resp) {
                    Ok(mut rows) => {
                        self.rows.append(&mut rows);
                    },
                    Err(e) => {
                        self.failures.push(Failure { symbol: symbol.to_owned(), error: e });
                    },
                }
            },
        }
    }

    /// Render the accumulated rows: exactly the header line, then one line
    /// per row in accumulator order.
    pub fn to_csv(&self) -> (out: String)
        requires
            batch_wf(*self),
        ensures
            out@ == csv_text(self.rows@),
    {
        write_csv(&self.rows)
    }
}

} // verus!
