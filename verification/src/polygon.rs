use crate::date::{valid_timestamp_ms, MAX_TIMESTAMP_MS};
use crate::record::{maps_to, Record};
use vstd::prelude::*;
use vstd::string::StringExecFns;

verus! {

/// Handle for the market-data provider: it carries the API key and shapes
/// the request URL.  The HTTP transport itself lives outside the library.
pub struct Polygon {
    api_key: String,
}

/// One provider result record: a day's aggregate, prices as the decimal text
/// they will be written with, the timestamp in milliseconds since the epoch.
#[derive(Debug)]
pub struct Ticker {
    pub close: String,
    pub height: String,
    pub low: String,
    pub count: i32,
    pub open: String,
    pub time_ms: i64,
    pub volume: String,
    pub volume_weight: String,
}

/// The decoded body of one provider response: the result set, and the error
/// message the provider may embed even under a successful HTTP status.
#[derive(Debug)]
pub struct TickerResponse {
    pub results: Option<Vec<Ticker>>,
    pub error: Option<String>,
}

/// Why one symbol's fetch failed.  The batch records the failure and goes on
/// with the next symbol.
#[derive(Debug)]
pub enum FetchError {
    /// Network or HTTP-layer failure.
    Transport(String),
    /// The response body did not match the expected schema.
    Decode(String),
    /// Transport succeeded but the payload carried an error message.
    Provider(String),
}

/// Same error kind, same message text.
pub open spec fn same_error(a: FetchError, b: FetchError) -> bool {
    match (a, b) {
        (FetchError::Transport(x), FetchError::Transport(y)) => x@ == y@,
        (FetchError::Decode(x), FetchError::Decode(y)) => x@ == y@,
        (FetchError::Provider(x), FetchError::Provider(y)) => x@ == y@,
        _ => false,
    }
}

/// A record the pipeline can carry through to the output: its timestamp's
/// calendar date is representable.
pub open spec fn valid_ticker(t: Ticker) -> bool {
    valid_timestamp_ms(t.time_ms as int)
}

pub open spec fn all_ticks_valid(ts: Seq<Ticker>) -> bool {
    forall|i: int| 0 <= i < ts.len() ==> valid_ticker(#[trigger] ts[i])
}

/// The result records of a response; an absent array stands for no records.
pub open spec fn response_ticks(resp: TickerResponse) -> Seq<Ticker> {
    match resp.results {
        Some(v) => v@,
        None => Seq::empty(),
    }
}

/// The provider's aggregates endpoint for one symbol over an inclusive date
/// range, with the fixed query parameters and the API key.
pub open spec fn ticker_url_chars(
    key: Seq<char>,
    symbol: Seq<char>,
    start: Seq<char>,
    end: Seq<char>,
) -> Seq<char> {
    "https://api.polygon.io/v2/aggs/ticker/"@ + symbol + "/range/1/day/"@ + start + "/"@ + end
        + "?adjusted=true&sort=asc&apiKey="@ + key
}

impl Polygon {
    pub closed spec fn key(&self) -> Seq<char> {
        self.api_key@
    }

    pub fn new(api_key: &str) -> (p: Polygon)
        ensures
            p.key() == api_key@,
    {
        Polygon { api_key: api_key.to_owned() }
    }

    /// The URL of one aggregates request: one day per record, `start` and
    /// `end` inclusive, ascending, adjusted.
    pub fn ticker_url(&self, symbol: &str, start: &str, end: &str) -> (u: String)
        ensures
            u@ == ticker_url_chars(self.key(), symbol@, start@, end@),
    {
        let mut u = String::new();
        u.append("https://api.polygon.io/v2/aggs/ticker/");
        u.append(symbol);
        u.append("/range/1/day/");
        u.append(start);
        u.append("/");
        u.append(end);
        u.append("?adjusted=true&sort=asc&apiKey=");
        u.append(self.api_key.as_str());
        proof {
            assert(u@ =~= ticker_url_chars(self.key(), symbol@, start@, end@));
        }
        u
    }
}

/// Classify one symbol's decoded response and map its records to rows: a
/// provider-reported error message fails the whole call even though the HTTP
/// transport succeeded; a timestamp outside the representable calendar range
/// is a decode failure; otherwise every result record becomes exactly one
/// row, in response order.
pub fn rows_from_response(symbol: &str, resp: TickerResponse) -> (r: Result<
    Vec<Record>,
    FetchError,
>)
    ensures
        resp.error matches Some(m) ==> r matches Err(e) && same_error(
            e,
            FetchError::Provider(m),
        ),
        resp.error is None ==> ((r is Ok) <==> all_ticks_valid(response_ticks(resp))),
        resp.error is None ==> (r matches Err(e) ==> e is Decode),
        r matches Ok(rows) ==> rows@.len() == response_ticks(resp).len() && forall|i: int|
            0 <= i < rows@.len() ==> maps_to(symbol@, response_ticks(resp)[i], #[trigger] rows@[i]),
{
    if let Some(msg) = resp.error {
        return Err(FetchError::Provider(msg));
    }
    let mut ticks: Vec<Ticker> = match resp.results {
        Some(v) => v,
        None => Vec::new(),
    };
    let ghost ticks0: Seq<Ticker> = ticks@;
    let mut rows: Vec<Record> = Vec::new();
    while ticks.len() > 0
        invariant
            resp.error is None,
            ticks0 == response_ticks(resp),
            rows@.len() + ticks@.len() == ticks0.len(),
            ticks@ == ticks0.skip(rows@.len() as int),
            forall|j: int| 0 <= j < rows@.len() ==> valid_ticker(#[trigger] ticks0[j]),
            forall|j: int|
                0 <= j < rows@.len() ==> maps_to(symbol@, ticks0[j], #[trigger] rows@[j]),
        decreases ticks@.len(),
    {
        let ghost done: int = rows@.len() as int;
        let t = ticks.remove(0);
        proof {
            assert(t == ticks0[done]);
            assert(ticks@ =~= ticks0.skip(done + 1));
        }
        if t.time_ms < 0 || t.time_ms > MAX_TIMESTAMP_MS {
            proof {
                assert(!valid_ticker(ticks0[done]));
            }
            return Err(FetchError::Decode("timestamp out of range".to_owned()));
        }
        rows.push(Record::from(symbol.to_owned(), t));
    }
    proof {
        assert(rows@.len() == ticks0.len());
    }
    Ok(rows)
}

} // verus!
