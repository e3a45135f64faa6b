//! OHLCV history requests: single-symbol and batch requests, and the
//! interval, session and adjustment codes that the chart protocol uses.
use vstd::prelude::*;

use crate::scanner::Ticker;

verus! {

/// Symbols downloaded at once by a batch request, unless set otherwise.
pub fn default_history_batch_concurrency() -> (n: usize)
    ensures
        n == 4,
{
    4
}

/// Bars asked for per chunk, and the request size of a "maximum history" request.
pub fn default_history_max_chunk_bars() -> (n: u32)
    ensures
        n == 5000,
{
    5_000
}

/// Bar interval of a history series.
#[derive(Debug, Clone, Copy, PartialEq, Eq, Hash)]
pub enum Interval {
    Min1,
    Min3,
    Min5,
    Min15,
    Min30,
    Min45,
    Hour1,
    Hour2,
    Hour3,
    Hour4,
    Day1,
    Week1,
    Month1,
    Custom(&'static str),
}

/// The code the chart protocol uses for an interval.
pub open spec fn interval_code(i: Interval) -> &'static str {
    match i {
        Interval::Min1 => "1",
        Interval::Min3 => "3",
        Interval::Min5 => "5",
        Interval::Min15 => "15",
        Interval::Min30 => "30",
        Interval::Min45 => "45",
        Interval::Hour1 => "1H",
        Interval::Hour2 => "2H",
        Interval::Hour3 => "3H",
        Interval::Hour4 => "4H",
        Interval::Day1 => "1D",
        Interval::Week1 => "1W",
        Interval::Month1 => "1M",
        Interval::Custom(code) => code,
    }
}

impl Interval {
    pub fn as_code(self) -> (code: &'static str)
        ensures
            code == interval_code(self),
    {
        match self {
            Interval::Min1 => "1",
            Interval::Min3 => "3",
            Interval::Min5 => "5",
            Interval::Min15 => "15",
            Interval::Min30 => "30",
            Interval::Min45 => "45",
            Interval::Hour1 => "1H",
            Interval::Hour2 => "2H",
            Interval::Hour3 => "3H",
            Interval::Hour4 => "4H",
            Interval::Day1 => "1D",
            Interval::Week1 => "1W",
            Interval::Month1 => "1M",
            Interval::Custom(code) => code,
        }
    }
}

/// Which trading session the bars cover.
#[derive(Debug, Clone, Copy, PartialEq, Eq, Hash, Structural)]
pub enum TradingSession {
    Regular,
    Extended,
}

impl Default for TradingSession {
    fn default() -> (s: Self)
        ensures
            s == TradingSession::Regular,
    {
        TradingSession::Regular
    }
}

pub open spec fn session_code(s: TradingSession) -> &'static str {
    match s {
        TradingSession::Regular => "regular",
        TradingSession::Extended => "extended",
    }
}

impl TradingSession {
    pub fn as_code(self) -> (code: &'static str)
        ensures
            code == session_code(self),
    {
        match self {
            TradingSession::Regular => "regular",
            TradingSession::Extended => "extended",
        }
    }
}

/// Price adjustment applied to the bars.
#[derive(Debug, Clone, Copy, PartialEq, Eq, Hash, Structural)]
pub enum Adjustment {
    Splits,
    /// Raw prices (code `none`).
    Unadjusted,
}

impl Default for Adjustment {
    fn default() -> (a: Self)
        ensures
            a == Adjustment::Splits,
    {
        Adjustment::Splits
    }
}

pub open spec fn adjustment_code(a: Adjustment) -> &'static str {
    match a {
        Adjustment::Splits => "splits",
        Adjustment::Unadjusted => "none",
    }
}

impl Adjustment {
    pub fn as_code(self) -> (code: &'static str)
        ensures
            code == adjustment_code(self),
    {
        match self {
            Adjustment::Splits => "splits",
            Adjustment::Unadjusted => "none",
        }
    }
}

/// A request for the history of one symbol.
#[derive(Debug, Clone, PartialEq, Eq)]
pub struct HistoryRequest {
    pub symbol: Ticker,
    pub interval: Interval,
    pub bars: u32,
    pub fetch_all: bool,
    pub session: TradingSession,
    pub adjustment: Adjustment,
}

impl HistoryRequest {
    /// The last `bars` bars, regular session, split-adjusted.
    pub fn new(symbol: Ticker, interval: Interval, bars: u32) -> (r: Self)
        ensures
            r.symbol == symbol,
            r.interval == interval,
            r.bars == bars,
            !r.fetch_all,
            r.session == TradingSession::Regular,
            r.adjustment == Adjustment::Splits,
    {
        HistoryRequest {
            symbol,
            interval,
            bars,
            fetch_all: false,
            session: TradingSession::Regular,
            adjustment: Adjustment::Splits,
        }
    }

    /// All the history available, fetched in chunks of the maximum size.
    pub fn max(symbol: Ticker, interval: Interval) -> (r: Self)
        ensures
            r.symbol == symbol,
            r.interval == interval,
            r.bars == 5000,
            r.fetch_all,
            r.session == TradingSession::Regular,
            r.adjustment == Adjustment::Splits,
    {
        HistoryRequest {
            symbol,
            interval,
            bars: default_history_max_chunk_bars(),
            fetch_all: true,
            session: TradingSession::Regular,
            adjustment: Adjustment::Splits,
        }
    }

    pub fn session(self, session: TradingSession) -> (r: Self)
        ensures
            r == (HistoryRequest { session, ..self }),
    {
        HistoryRequest { session, ..self }
    }

    pub fn adjustment(self, adjustment: Adjustment) -> (r: Self)
        ensures
            r == (HistoryRequest { adjustment, ..self }),
    {
        HistoryRequest { adjustment, ..self }
    }

    pub fn fetch_all(self) -> (r: Self)
        ensures
            r == (HistoryRequest { fetch_all: true, ..self }),
    {
        HistoryRequest { fetch_all: true, ..self }
    }
}

/// A request for the histories of several symbols with the same settings.
#[derive(Debug, Clone, PartialEq, Eq)]
pub struct HistoryBatchRequest {
    pub symbols: Vec<Ticker>,
    pub interval: Interval,
    pub bars: u32,
    pub fetch_all: bool,
    pub session: TradingSession,
    pub adjustment: Adjustment,
    pub concurrency: usize,
}

/// The single-symbol request that a batch makes for `symbol`.
pub open spec fn request_for(b: HistoryBatchRequest, symbol: Ticker) -> HistoryRequest {
    HistoryRequest {
        symbol,
        interval: b.interval,
        bars: b.bars,
        fetch_all: b.fetch_all,
        session: b.session,
        adjustment: b.adjustment,
    }
}

impl HistoryBatchRequest {
    pub fn new(symbols: Vec<Ticker>, interval: Interval, bars: u32) -> (r: Self)
        ensures
            r.symbols@ == symbols@,
            r.interval == interval,
            r.bars == bars,
            !r.fetch_all,
            r.session == TradingSession::Regular,
            r.adjustment == Adjustment::Splits,
            r.concurrency == 4,
    {
        HistoryBatchRequest {
            symbols,
            interval,
            bars,
            fetch_all: false,
            session: TradingSession::Regular,
            adjustment: Adjustment::Splits,
            concurrency: default_history_batch_concurrency(),
        }
    }

    pub fn max(symbols: Vec<Ticker>, interval: Interval) -> (r: Self)
        ensures
            r.symbols@ == symbols@,
            r.interval == interval,
            r.bars == 5000,
            r.fetch_all,
            r.session == TradingSession::Regular,
            r.adjustment == Adjustment::Splits,
            r.concurrency == 4,
    {
        HistoryBatchRequest {
            symbols,
            interval,
            bars: default_history_max_chunk_bars(),
            fetch_all: true,
            session: TradingSession::Regular,
            adjustment: Adjustment::Splits,
            concurrency: default_history_batch_concurrency(),
        }
    }

    pub fn symbols(self, symbols: Vec<Ticker>) -> (r: Self)
        ensures
            r == (HistoryBatchRequest { symbols, ..self }),
    {
        HistoryBatchRequest { symbols, ..self }
    }

    pub fn push_symbol(self, symbol: Ticker) -> (r: Self)
        ensures
            r.symbols@ == self.symbols@.push(symbol),
            r == (HistoryBatchRequest { symbols: r.symbols, ..self }),
    {
        let mut s = self;
        s.symbols.push(symbol);
        s
    }

    pub fn fetch_all(self) -> (r: Self)
        ensures
            r == (HistoryBatchRequest { fetch_all: true, ..self }),
    {
        HistoryBatchRequest { fetch_all: true, ..self }
    }

    /// One single-symbol request per symbol, in order, with the batch's settings.
    pub fn to_requests(&self) -> (rs: Vec<HistoryRequest>)
        ensures
            rs@.len() == self.symbols@.len(),
            forall|i: int|
                0 <= i < rs@.len() ==> #[trigger] rs@[i] == request_for(
                    *self,
                    rs@[i].symbol,
                ) && rs@[i].symbol@ == self.symbols@[i]@,
    {
        let mut out: Vec<HistoryRequest> = Vec::new();
        let mut i: usize = 0;
        while i < self.symbols.len()
            invariant
                i <= self.symbols@.len(),
                out@.len() == i,
                forall|j: int|
                    0 <= j < i ==> #[trigger] out@[j] == request_for(*self, out@[j].symbol)
                        && out@[j].symbol@ == self.symbols@[j]@,
            decreases self.symbols@.len() - i,
        {
            let symbol = self.symbols[i].duplicate();
            out.push(
                HistoryRequest {
                    symbol,
                    interval: self.interval,
                    bars: self.bars,
                    fetch_all: self.fetch_all,
                    session: self.session,
                    adjustment: self.adjustment,
                },
            );
            i = i + 1;
        }
        out
    }
}


/// Whether an interval is one of the built-in ones (not `Custom`).
pub open spec fn is_builtin_interval(i: Interval) -> bool {
    !(i is Custom)
}

/// The chart protocol's interval codes: minutes as their number, hours,
/// days, weeks and months as a number and `H`, `D`, `W`, `M`; a custom
/// interval carries its own code.
pub proof fn law_interval_codes()
    ensures
        interval_code(Interval::Min1)@ == "1"@,
        interval_code(Interval::Min3)@ == "3"@,
        interval_code(Interval::Min5)@ == "5"@,
        interval_code(Interval::Min15)@ == "15"@,
        interval_code(Interval::Min30)@ == "30"@,
        interval_code(Interval::Min45)@ == "45"@,
        interval_code(Interval::Hour1)@ == "1H"@,
        interval_code(Interval::Hour2)@ == "2H"@,
        interval_code(Interval::Hour3)@ == "3H"@,
        interval_code(Interval::Hour4)@ == "4H"@,
        interval_code(Interval::Day1)@ == "1D"@,
        interval_code(Interval::Week1)@ == "1W"@,
        interval_code(Interval::Month1)@ == "1M"@,
        forall|c: &'static str| #[trigger] interval_code(Interval::Custom(c)) == c,
{
}

/// Two different built-in intervals never share a code, so a request for
/// one interval never asks for the bars of another.
pub proof fn law_builtin_interval_codes_distinct(a: Interval, b: Interval)
    requires
        is_builtin_interval(a),
        is_builtin_interval(b),
        a != b,
    ensures
        interval_code(a)@ != interval_code(b)@,
{
    reveal_strlit("1");
    reveal_strlit("3");
    reveal_strlit("5");
    reveal_strlit("15");
    reveal_strlit("30");
    reveal_strlit("45");
    reveal_strlit("1H");
    reveal_strlit("2H");
    reveal_strlit("3H");
    reveal_strlit("4H");
    reveal_strlit("1D");
    reveal_strlit("1W");
    reveal_strlit("1M");
    let x = interval_code(a)@;
    let y = interval_code(b)@;
    if x == y {
        assert(x.len() == y.len());
        assert(x[0] == y[0]);
        if x.len() > 1 {
            assert(x[1] == y[1]);
        }
    }
}


/// The session codes are `regular` and `extended`; the adjustment codes are
/// `splits` and `none`.
pub proof fn law_session_and_adjustment_codes()
    ensures
        session_code(TradingSession::Regular)@ == "regular"@,
        session_code(TradingSession::Extended)@ == "extended"@,
        adjustment_code(Adjustment::Splits)@ == "splits"@,
        adjustment_code(Adjustment::Unadjusted)@ == "none"@,
{
}

} // verus!
