use vstd::prelude::*;

use crate::credentials::Credentials;
use crate::crypto::base64_decoding;
use crate::error::Error;
use crate::rate_limit::{Cost, RateLimit};
use crate::requests::{
    append_bytes, dec_digits, derivatives_prefix, derivatives_prefix_bytes, spec_request_url,
    spec_signature, ReqError, RestClient, SignedRequest,
};
use crate::time::{
    format_timestamp, parse_timestamp, rfc3339_millis_of, ts_of, TS_FORMAT_MAX_MS,
    TS_FORMAT_MIN_MS,
};
use crate::trade::Trade;
use vstd::pervasive::unreached;

verus! {

/// Cost ceiling of the venue's rate-limit window.
pub const MAX_REQ_LIMIT: usize = 500;

/// Length of the venue's rate-limit window, in seconds.
pub const INTERVAL_LIMIT_SEC: u64 = 10;

/// The path of the fills endpoint: the bytes of "/derivatives/api/v3/fills".
pub open spec fn fills_path() -> Seq<u8> {
    derivatives_prefix() + seq![
        47u8,
        97u8,
        112u8,
        105u8,
        47u8,
        118u8,
        51u8,
        47u8,
        102u8,
        105u8,
        108u8,
        108u8,
        115u8,
    ]
}

fn fills_path_bytes() -> (r: Vec<u8>)
    ensures
        r@ == fills_path(),
{
    let mut r = derivatives_prefix_bytes();
    r.push(47u8);
    r.push(97u8);
    r.push(112u8);
    r.push(105u8);
    r.push(47u8);
    r.push(118u8);
    r.push(51u8);
    r.push(47u8);
    r.push(102u8);
    r.push(105u8);
    r.push(108u8);
    r.push(108u8);
    r.push(115u8);
    proof {
        assert(r@ =~= fills_path());
    }
    r
}

/// The bytes of "lastFillTime=", the cursor parameter's key.
pub open spec fn last_fill_time_key() -> Seq<u8> {
    seq![108u8, 97u8, 115u8, 116u8, 70u8, 105u8, 108u8, 108u8, 84u8, 105u8, 109u8, 101u8, 61u8]
}

fn last_fill_time_key_bytes() -> (r: Vec<u8>)
    ensures
        r@ == last_fill_time_key(),
{
    let mut r: Vec<u8> = Vec::new();
    r.push(108u8);
    r.push(97u8);
    r.push(115u8);
    r.push(116u8);
    r.push(70u8);
    r.push(105u8);
    r.push(108u8);
    r.push(108u8);
    r.push(84u8);
    r.push(105u8);
    r.push(109u8);
    r.push(101u8);
    r.push(61u8);
    proof {
        assert(r@ =~= last_fill_time_key());
    }
    r
}

/// The query string of a fills request: empty on the first page, else the
/// cursor parameter with the formatted upper bound.
pub open spec fn spec_fills_query(last_fill_time: Option<i64>) -> Seq<u8> {
    match last_fill_time {
        None => Seq::empty(),
        Some(c) => last_fill_time_key() + rfc3339_millis_of(c),
    }
}

/// A trade is in range when its fill time parses and lies within the
/// requested window, both ends included.
pub open spec fn trade_in_range(t: Trade, start: i64, end: i64) -> bool {
    match ts_of(t.fill_time@) {
        Some(ts) => start <= ts && ts <= end,
        None => false,
    }
}

/// The in-range trades of a page, in page order.
pub open spec fn filtered(s: Seq<Trade>, start: i64, end: i64) -> Seq<Trade>
    decreases s.len(),
{
    if s.len() == 0 {
        Seq::empty()
    } else if trade_in_range(s[0], start, end) {
        seq![s[0]] + filtered(s.drop_first(), start, end)
    } else {
        filtered(s.drop_first(), start, end)
    }
}

/// Every trade of a filtered page is in range, and comes from the page.
pub proof fn lemma_filtered_in_range(s: Seq<Trade>, start: i64, end: i64)
    ensures
        forall|i: int|
            0 <= i < filtered(s, start, end).len() ==> trade_in_range(
                #[trigger] filtered(s, start, end)[i],
                start,
                end,
            ) && s.contains(filtered(s, start, end)[i]),
    decreases s.len(),
{
    let f = filtered(s, start, end);
    if s.len() > 0 {
        let rest = s.drop_first();
        lemma_filtered_in_range(rest, start, end);
        assert forall|i: int|
            0 <= i < f.len() implies trade_in_range(f[i], start, end) && s.contains(f[i]) by {
            let fr = filtered(rest, start, end);
            if trade_in_range(s[0], start, end) {
                if i == 0 {
                    assert(f[0] == s[0]);
                    assert(s.contains(s[0]));
                } else {
                    assert(f[i] == fr[i - 1]);
                    let j = choose|j: int| 0 <= j < rest.len() && rest[j] == fr[i - 1];
                    assert(s[j + 1] == f[i]);
                }
            } else {
                let j = choose|j: int| 0 <= j < rest.len() && rest[j] == fr[i];
                assert(s[j + 1] == f[i]);
            }
        }
    }
}

/// Filtering drops nothing it should keep: every in-range trade of a page
/// stands in the filtered page.
pub proof fn lemma_filtered_complete(s: Seq<Trade>, start: i64, end: i64)
    ensures
        forall|i: int|
            0 <= i < s.len() && trade_in_range(#[trigger] s[i], start, end) ==> filtered(
                s,
                start,
                end,
            ).contains(s[i]),
    decreases s.len(),
{
    if s.len() > 0 {
        let rest = s.drop_first();
        lemma_filtered_complete(rest, start, end);
        let f = filtered(s, start, end);
        let fr = filtered(rest, start, end);
        assert forall|i: int|
            0 <= i < s.len() && trade_in_range(s[i], start, end) implies f.contains(s[i]) by {
            if i == 0 {
                assert(f[0] == s[0]);
            } else {
                assert(rest[i - 1] == s[i]);
                assert(fr.contains(rest[i - 1]));
                let j = choose|j: int| 0 <= j < fr.len() && fr[j] == rest[i - 1];
                if trade_in_range(s[0], start, end) {
                    assert(f[j + 1] == fr[j]);
                } else {
                    assert(f[j] == fr[j]);
                }
            }
        }
    }
}

/// Filtering distributes over page concatenation: chaining two pages loses
/// nothing in range and adds nothing out of range.
pub proof fn lemma_filtered_distributes(a: Seq<Trade>, b: Seq<Trade>, start: i64, end: i64)
    ensures
        filtered(a + b, start, end) == filtered(a, start, end) + filtered(b, start, end),
    decreases a.len(),
{
    if a.len() == 0 {
        assert(a + b =~= b);
        assert(filtered(a, start, end) + filtered(b, start, end) =~= filtered(b, start, end));
    } else {
        lemma_filtered_distributes(a.drop_first(), b, start, end);
        assert((a + b).drop_first() =~= a.drop_first() + b);
        assert((a + b)[0] == a[0]);
        if trade_in_range(a[0], start, end) {
            assert(filtered(a + b, start, end) == seq![a[0]] + filtered(
                a.drop_first() + b,
                start,
                end,
            ));
            assert(seq![a[0]] + (filtered(a.drop_first(), start, end) + filtered(b, start, end))
                =~= (seq![a[0]] + filtered(a.drop_first(), start, end)) + filtered(b, start, end));
        }
    }
}

/// Backward pagination chains without gaps or boundary duplicates: when a
/// follow-up page holds only trades strictly older than the boundary time
/// `x` — the fill time of the last trade taken from the page before — the
/// combined accumulation is exactly the in-range trades of both pages in
/// order, and no trade kept from the follow-up page repeats the boundary
/// fill time.
pub proof fn lemma_pagination_chaining(
    p1: Seq<Trade>,
    p2: Seq<Trade>,
    start: i64,
    end: i64,
    x: i64,
)
    requires
        forall|i: int|
            0 <= i < p2.len() ==> (ts_of(#[trigger] p2[i].fill_time@) matches Some(t) ==> t < x),
    ensures
        filtered(p1 + p2, start, end) == filtered(p1, start, end) + filtered(p2, start, end),
        forall|i: int|
            0 <= i < filtered(p2, start, end).len() ==> (ts_of(
                #[trigger] filtered(p2, start, end)[i].fill_time@,
            ) matches Some(t) && t < x),
{
    lemma_filtered_distributes(p1, p2, start, end);
    lemma_filtered_in_range(p2, start, end);
    assert forall|i: int|
        0 <= i < filtered(p2, start, end).len() implies (ts_of(
        #[trigger] filtered(p2, start, end)[i].fill_time@,
    ) matches Some(t) && t < x) by {
        let tr = filtered(p2, start, end)[i];
        assert(trade_in_range(tr, start, end));
        let j = choose|j: int| 0 <= j < p2.len() && p2[j] == tr;
        assert(ts_of(p2[j].fill_time@) matches Some(t) ==> t < x);
    }
}

/// The in-range test a page filter applies to one trade.
pub fn trade_in_range_exec(t: &Trade, start: i64, end: i64) -> (r: bool)
    ensures
        r == trade_in_range(*t, start, end),
{
    match parse_timestamp(t.fill_time.as_str()) {
        Some(ts) => start <= ts && ts <= end,
        None => false,
    }
}

/// Keeps exactly the in-range trades of a page, in page order. Trades the
/// venue returned outside the window are dropped, not an error.
pub fn verify_trades(start: i64, end: i64, trades: Vec<Trade>) -> (r: Vec<Trade>)
    ensures
        r@ == filtered(trades@, start, end),
{
    let ghost orig: Seq<Trade> = trades@;
    let mut rest = trades;
    let mut out: Vec<Trade> = Vec::new();
    proof {
        assert(out@ + filtered(rest@, start, end) =~= filtered(orig, start, end));
    }
    while rest.len() > 0
        invariant
            filtered(orig, start, end) == out@ + filtered(rest@, start, end),
        decreases rest@.len(),
    {
        let ghost prev: Seq<Trade> = rest@;
        let t = rest.remove(0);
        proof {
            assert(prev.remove(0) =~= prev.drop_first());
        }
        if trade_in_range_exec(&t, start, end) {
            out.push(t);
            proof {
                assert(out@ + filtered(rest@, start, end) =~= filtered(orig, start, end));
            }
        } else {
            proof {
                assert(out@ + filtered(rest@, start, end) =~= filtered(orig, start, end));
            }
        }
    }
    proof {
        assert(out@ =~= filtered(orig, start, end));
    }
    out
}

/// The venue client: signed request preparation composed with the venue's
/// rate-limit gate. The unverified transport around the library holds the
/// connection pool, sends what is prepared here and feeds the parsed pages
/// back.
pub struct KrakenFutures {
    pub client: RestClient,
    pub rate_limiter: RateLimit,
}

impl KrakenFutures {
    pub open spec fn wf(self) -> bool {
        self.rate_limiter.wf()
    }

    pub fn new(creds: Credentials, now_sec: u64) -> (r: KrakenFutures)
        ensures
            r.wf(),
            r.client.api_url@ == "https://futures.kraken.com"@,
            r.client.creds == creds,
            r.rate_limiter.accumulated_cost() == 0,
            r.rate_limiter.window_start() == now_sec,
            r.rate_limiter.spec_max_limit() == MAX_REQ_LIMIT,
            r.rate_limiter.spec_interval() == INTERVAL_LIMIT_SEC,
    {
        KrakenFutures {
            client: RestClient::new("https://futures.kraken.com".to_owned(), creds),
            rate_limiter: RateLimit::new(MAX_REQ_LIMIT, INTERVAL_LIMIT_SEC, now_sec),
        }
    }

    /// Gates one fills request on the rate limiter at clock reading
    /// `now_ms`, and, when admitted, prepares the signed request for the
    /// fills endpoint, with the cursor parameter exactly when one is given.
    /// An admitted request succeeds exactly when the secret is valid
    /// base64.
    pub fn prepare_fills_request(&mut self, last_fill_time: Option<i64>, now_ms: u64) -> (r: Result<
        SignedRequest,
        Error,
    >)
        requires
            old(self).wf(),
            last_fill_time matches Some(c) ==> TS_FORMAT_MIN_MS <= c <= TS_FORMAT_MAX_MS,
        ensures
            final(self).wf(),
            final(self).client == old(self).client,
            ({
                let now_sec = (now_ms / 1000) as int;
                let reset = old(self).rate_limiter.spec_expired(now_sec);
                let base = if reset {
                    0int
                } else {
                    old(self).rate_limiter.accumulated_cost()
                };
                let admitted = base + 25 < old(self).rate_limiter.spec_max_limit();
                &&& final(self).rate_limiter.spec_max_limit() == old(
                    self,
                ).rate_limiter.spec_max_limit()
                &&& final(self).rate_limiter.spec_interval() == old(
                    self,
                ).rate_limiter.spec_interval()
                &&& final(self).rate_limiter.window_start() == (if reset {
                    now_sec
                } else {
                    old(self).rate_limiter.window_start()
                })
                &&& final(self).rate_limiter.accumulated_cost() == (if admitted {
                    base + 25
                } else {
                    base
                })
                &&& ((r == Err::<SignedRequest, Error>(Error::Request(ReqError::OverTheReqLimit)))
                    <==> !admitted)
                &&& (admitted ==> (r is Ok <==> base64_decoding(
                    old(self).client.creds.secret@,
                ) is Some))
                &&& (admitted ==> (r is Err ==> r == Err::<SignedRequest, Error>(
                    Error::Request(ReqError::SigningError),
                )))
                &&& (r matches Ok(req) ==> admitted && {
                    &&& req.url@ == spec_request_url(
                        old(self).client.api_url@,
                        fills_path(),
                        spec_fills_query(last_fill_time),
                    )
                    &&& req.api_key@ == old(self).client.creds.key@
                    &&& req.nonce@ == dec_digits(now_ms as nat)
                    &&& Some(req.authent@) == spec_signature(
                        old(self).client.creds.secret@,
                        dec_digits(now_ms as nat),
                        fills_path(),
                        spec_fills_query(last_fill_time),
                    )
                })
            }),
    {
        let now_sec: u64 = now_ms / 1000;
        if !self.rate_limiter.try_increment(Cost::FillsWithLastFillTime, now_sec) {
            return Err(Error::Request(ReqError::OverTheReqLimit));
        }
        let query: Vec<u8> = match last_fill_time {
            None => Vec::new(),
            Some(c) => {
                match format_timestamp(c) {
                    Some(f) => {
                        let mut q = last_fill_time_key_bytes();
                        append_bytes(&mut q, f.as_slice());
                        q
                    },
                    None => unreached(),
                }
            },
        };
        proof {
            assert(query@ =~= spec_fills_query(last_fill_time));
        }
        let endpoint = fills_path_bytes();
        let empty_body: Vec<u8> = Vec::new();
        let res = self.client.prepare_request(&endpoint, &query, &empty_body, now_ms);
        proof {
            assert(query@ + empty_body@ =~= spec_fills_query(last_fill_time));
        }
        match res {
            Ok(req) => Ok(req),
            Err(e) => Err(Error::Request(e)),
        }
    }
}

/// What the retrieval loop does after a failed request attempt.
#[derive(Clone, Copy, Debug, PartialEq, Eq, Structural)]
pub enum FetchDecision {
    /// Wait out the fixed backoff, then retry with the same cursor.
    PauseAndRetry,
    /// Abort the whole fetch and propagate the failure.
    Abort,
}

/// The retry policy of the retrieval loop: only a rate-limit rejection is
/// waited out and retried, with the cursor unmoved; every other failure
/// aborts the fetch at once.
pub fn retry_decision(err: &Error) -> (r: FetchDecision)
    ensures
        r == (if err == Error::Request(ReqError::OverTheReqLimit) {
            FetchDecision::PauseAndRetry
        } else {
            FetchDecision::Abort
        }),
{
    match err {
        Error::Request(ReqError::OverTheReqLimit) => FetchDecision::PauseAndRetry,
        _ => FetchDecision::Abort,
    }
}

/// The retrieval state machine. The surrounding application performs the
/// requests, pauses and response parsing that Verus cannot see; every
/// decision — what to request next, what to keep, when to stop — stands
/// here, verified.
pub struct FetchState {
    pub start: i64,
    pub end: i64,
    pub cursor: i64,
    pub first_page: bool,
    pub done: bool,
    pub trades: Vec<Trade>,
}

impl FetchState {
    /// The window is well formed and the cursor stays within it.
    pub open spec fn wf(self) -> bool {
        &&& TS_FORMAT_MIN_MS <= self.start
        &&& self.end <= TS_FORMAT_MAX_MS
        &&& self.start <= self.cursor <= self.end
    }

    pub fn new(start: i64, end: i64) -> (r: FetchState)
        requires
            start <= end,
            TS_FORMAT_MIN_MS <= start,
            end <= TS_FORMAT_MAX_MS,
        ensures
            r.wf(),
            r.start == start,
            r.end == end,
            r.cursor == end,
            r.first_page,
            !r.done,
            r.trades@ == Seq::<Trade>::empty(),
    {
        FetchState { start, end, cursor: end, first_page: true, done: false, trades: Vec::new() }
    }

    /// Retrieval ends when a page yielded nothing in range or the cursor
    /// reached the window's start.
    pub fn finished(&self) -> (r: bool)
        ensures
            r == (self.done || self.cursor <= self.start),
    {
        self.done || self.cursor <= self.start
    }

    /// The cursor parameter of the next request: none on the first page —
    /// the first page is unfiltered — then the fill time of the last
    /// accepted trade, the next page's exclusive upper bound.
    pub fn request_cursor(&self) -> (r: Option<i64>)
        ensures
            r == (if self.first_page {
                None::<i64>
            } else {
                Some(self.cursor)
            }),
    {
        if self.first_page {
            None
        } else {
            Some(self.cursor)
        }
    }

    /// Folds one page into the accumulation: keeps exactly the in-range
    /// trades, stops retrieval when none is left, and otherwise moves the
    /// cursor to the fill time of the last trade kept.
    pub fn apply_page(&mut self, page: Vec<Trade>)
        requires
            old(self).wf(),
        ensures
            final(self).wf(),
            final(self).start == old(self).start,
            final(self).end == old(self).end,
            !final(self).first_page,
            final(self).trades@ == old(self).trades@ + filtered(
                page@,
                old(self).start,
                old(self).end,
            ),
            filtered(page@, old(self).start, old(self).end).len() == 0 ==> final(self).done
                && final(self).cursor == old(self).cursor,
            filtered(page@, old(self).start, old(self).end).len() > 0 ==> {
                &&& final(self).done == old(self).done
                &&& Some(final(self).cursor) == ts_of(final(self).trades@.last().fill_time@)
                &&& old(self).start <= final(self).cursor <= old(self).end
            },
    {
        let s = self.start;
        let e = self.end;
        let mut valid = verify_trades(s, e, page);
        self.first_page = false;
        if valid.len() == 0 {
            self.done = true;
            proof {
                assert(self.trades@ + filtered(page@, s, e) =~= self.trades@);
            }
            return ;
        }
        proof {
            lemma_filtered_in_range(page@, s, e);
        }
        let last_idx: usize = valid.len() - 1;
        let last_ts: i64 = match parse_timestamp(valid[last_idx].fill_time.as_str()) {
            Some(t) => t,
            None => {
                proof {
                    assert(trade_in_range(valid@[last_idx as int], s, e));
                }
                unreached()
            },
        };
        proof {
            assert(trade_in_range(valid@[last_idx as int], s, e));
        }
        self.cursor = last_ts;
        self.trades.append(&mut valid);
    }

    /// Hands the accumulated trades out, consuming the fetch.
    pub fn take_trades(self) -> (r: Vec<Trade>)
        ensures
            r@ == self.trades@,
    {
        self.trades
    }
}

} // verus!
